use vstd::prelude::*;

use crate::board::{Board, BoardModel};
use crate::coord::{Coordinate, Rank};
use crate::piece::{Bishop, Color, King, Knight, Pawn, Piece, Queen, Rook};

verus! {

/// The squares a sliding piece of side `mover` reaches from `from` along the
/// direction `(dx, dy)`, taking at most `fuel` steps: each empty square is
/// reached and the ray goes on; a square of the other side is reached and the
/// ray stops; a square of its own side, or the edge of the board, stops the ray.
pub open spec fn ray(
    m: BoardModel,
    from: Coordinate,
    dx: int,
    dy: int,
    mover: Color,
    fuel: nat,
) -> Seq<Coordinate>
    decreases fuel,
{
    if fuel == 0 {
        Seq::empty()
    } else {
        let next = from.shifted(dx, dy);
        if m.empty_at(next) {
            seq![next] + ray(m, next, dx, dy, mover, (fuel - 1) as nat)
        } else if m.enemy_at(next, mover) {
            seq![next]
        } else {
            Seq::empty()
        }
    }
}

/// The full rays along each direction of `dirs`, in that order.
pub open spec fn rays(m: BoardModel, from: Coordinate, dirs: Seq<(int, int)>, mover: Color) -> Seq<
    Coordinate,
>
    decreases dirs.len(),
{
    if dirs.len() == 0 {
        Seq::empty()
    } else {
        rays(m, from, dirs.drop_last(), mover) + ray(
            m,
            from,
            dirs.last().0,
            dirs.last().1,
            mover,
            7,
        )
    }
}

/// The square `from + (dx, dy)`, if it is on the board and empty or held by
/// the other side.
pub open spec fn step(m: BoardModel, from: Coordinate, dx: int, dy: int, mover: Color) -> Seq<
    Coordinate,
> {
    let next = from.shifted(dx, dy);
    if m.empty_at(next) || m.enemy_at(next, mover) {
        seq![next]
    } else {
        Seq::empty()
    }
}

/// The single steps by each offset of `offsets`, in that order.
pub open spec fn steps(m: BoardModel, from: Coordinate, offsets: Seq<(int, int)>, mover: Color) -> Seq<
    Coordinate,
>
    decreases offsets.len(),
{
    if offsets.len() == 0 {
        Seq::empty()
    } else {
        steps(m, from, offsets.drop_last(), mover) + step(
            m,
            from,
            offsets.last().0,
            offsets.last().1,
            mover,
        )
    }
}

/// The four orthogonal directions.
pub open spec fn orthogonal_directions() -> Seq<(int, int)> {
    seq![(0, 1), (0, -1), (1, 0), (-1, 0)]
}

/// The four diagonal directions.
pub open spec fn diagonal_directions() -> Seq<(int, int)> {
    seq![(1, 1), (1, -1), (-1, 1), (-1, -1)]
}

/// The eight knight jumps.
pub open spec fn knight_offsets() -> Seq<(int, int)> {
    seq![(1, 2), (1, -2), (-1, 2), (-1, -2), (2, 1), (2, -1), (-2, 1), (-2, -1)]
}

/// The eight directions of a queen or a king: orthogonal, then diagonal.
pub open spec fn all_directions() -> Seq<(int, int)> {
    orthogonal_directions() + diagonal_directions()
}

/// A pawn's diagonal square `c`, if it holds a piece of the other side or is
/// the board's en-passant target.
pub open spec fn pawn_capture(m: BoardModel, c: Coordinate, mover: Color) -> Seq<Coordinate> {
    if c.valid() && (m.enemy_at(c, mover) || m.en_passant == Some(c)) {
        seq![c]
    } else {
        Seq::empty()
    }
}

/// The rank direction a pawn of `color` advances in.
pub open spec fn forward(color: Color) -> int {
    if color == Color::White {
        1
    } else {
        -1
    }
}

/// The rank a pawn of `color` starts on.
pub open spec fn home_rank(color: Color) -> Rank {
    if color == Color::White {
        Rank::Two
    } else {
        Rank::Seven
    }
}

/// A pawn's destinations: one square forward if empty; two squares forward
/// from its starting rank if that square is empty; each forward diagonal
/// (file +1, then file -1) that holds a piece of the other side or is the
/// en-passant target.
pub open spec fn pawn_moves(m: BoardModel, from: Coordinate, mover: Color) -> Seq<Coordinate> {
    let f = forward(mover);
    let one = from.shifted(0, f);
    let two = from.shifted(0, 2 * f);
    (if m.empty_at(one) {
        seq![one]
    } else {
        Seq::empty()
    }) + (if from.rank == home_rank(mover) && m.empty_at(two) {
        seq![two]
    } else {
        Seq::empty()
    }) + pawn_capture(m, from.shifted(1, f), mover) + pawn_capture(m, from.shifted(-1, f), mover)
}

impl Piece {
    /// The pseudo-legal destinations of this piece standing on `from`.
    pub open spec fn moves(self, m: BoardModel, from: Coordinate) -> Seq<Coordinate> {
        match self {
            Piece::Pawn(p) => pawn_moves(m, from, p.color),
            Piece::Knight(p) => steps(m, from, knight_offsets(), p.color),
            Piece::Bishop(p) => rays(m, from, diagonal_directions(), p.color),
            Piece::Rook(p) => rays(m, from, orthogonal_directions(), p.color),
            Piece::Queen(p) => rays(m, from, all_directions(), p.color),
            Piece::King(p) => steps(m, from, all_directions(), p.color),
        }
    }
}

/// The directions of `dirs` as pairs of integers.
pub open spec fn int_pairs(dirs: Seq<(i8, i8)>) -> Seq<(int, int)> {
    dirs.map_values(|d: (i8, i8)| (d.0 as int, d.1 as int))
}

/// Appends to `out` the ray from `from` along `(dx, dy)`.
fn push_ray(board: &Board, from: Coordinate, dx: i8, dy: i8, mover: Color, out: &mut Vec<Coordinate>)
    ensures
        final(out)@ == old(out)@ + ray(board@, from, dx as int, dy as int, mover, 7),
{
    let ghost m = board@;
    let ghost start = out@;
    let ghost whole = ray(m, from, dx as int, dy as int, mover, 7);
    let mut cur = from;
    let mut i: usize = 0;
    while i < 7
        invariant_except_break
            m == board@,
            whole == ray(m, from, dx as int, dy as int, mover, 7),
            i <= 7,
            out@ + ray(m, cur, dx as int, dy as int, mover, (7 - i) as nat) == start + whole,
        ensures
            out@ == start + whole,
        decreases 7 - i,
    {
        let next = cur.add((dx, dy));
        let ghost rest = ray(m, next, dx as int, dy as int, mover, (7 - i - 1) as nat);
        proof {
            assert(ray(m, cur, dx as int, dy as int, mover, (7 - i) as nat) == if m.empty_at(next) {
                seq![next] + rest
            } else if m.enemy_at(next, mover) {
                seq![next]
            } else {
                Seq::<Coordinate>::empty()
            });
        }
        if board.can_move(&next, &mover) {
            proof {
                assert(out@.push(next) + rest =~= out@ + (seq![next] + rest));
            }
            out.push(next);
            cur = next;
            i = i + 1;
        } else {
            if board.can_capture(&next, &mover) {
                proof {
                    assert(out@.push(next) =~= out@ + seq![next]);
                }
                out.push(next);
            } else {
                proof {
                    assert(out@ =~= out@ + Seq::<Coordinate>::empty());
                }
            }
            break ;
        }
    }
    proof {
        if i == 7 {
            assert(out@ =~= out@ + Seq::<Coordinate>::empty());
        }
    }
}

/// Appends to `out` the full rays along each direction of `dirs`.
fn push_rays(
    board: &Board,
    from: Coordinate,
    dirs: &Vec<(i8, i8)>,
    mover: Color,
    out: &mut Vec<Coordinate>,
)
    ensures
        final(out)@ == old(out)@ + rays(board@, from, int_pairs(dirs@), mover),
{
    let ghost start = out@;
    let ghost all = int_pairs(dirs@);
    let mut i: usize = 0;
    while i < dirs.len()
        invariant
            i <= dirs@.len(),
            all == int_pairs(dirs@),
            out@ == start + rays(board@, from, all.take(i as int), mover),
        decreases dirs@.len() - i,
    {
        let d = dirs[i];
        push_ray(board, from, d.0, d.1, mover, out);
        proof {
            assert(all.take(i + 1).drop_last() =~= all.take(i as int));
            assert(out@ =~= start + rays(board@, from, all.take(i + 1), mover));
        }
        i = i + 1;
    }
    proof {
        assert(all.take(dirs@.len() as int) =~= all);
    }
}

/// Appends to `out` the square `from + (dx, dy)` if it is on the board and
/// empty or held by the other side.
fn push_step(board: &Board, from: Coordinate, dx: i8, dy: i8, mover: Color, out: &mut Vec<Coordinate>)
    ensures
        final(out)@ == old(out)@ + step(board@, from, dx as int, dy as int, mover),
{
    let next = from.add((dx, dy));
    if board.can_move(&next, &mover) || board.can_capture(&next, &mover) {
        out.push(next);
        assert(out@ =~= old(out)@ + seq![next]);
    } else {
        assert(out@ =~= old(out)@ + Seq::<Coordinate>::empty());
    }
}

/// Appends to `out` the single steps by each offset of `offsets`.
fn push_steps(
    board: &Board,
    from: Coordinate,
    offsets: &Vec<(i8, i8)>,
    mover: Color,
    out: &mut Vec<Coordinate>,
)
    ensures
        final(out)@ == old(out)@ + steps(board@, from, int_pairs(offsets@), mover),
{
    let ghost start = out@;
    let ghost all = int_pairs(offsets@);
    let mut i: usize = 0;
    while i < offsets.len()
        invariant
            i <= offsets@.len(),
            all == int_pairs(offsets@),
            out@ == start + steps(board@, from, all.take(i as int), mover),
        decreases offsets@.len() - i,
    {
        let d = offsets[i];
        push_step(board, from, d.0, d.1, mover, out);
        proof {
            assert(all.take(i + 1).drop_last() =~= all.take(i as int));
            assert(out@ =~= start + steps(board@, from, all.take(i + 1), mover));
        }
        i = i + 1;
    }
    proof {
        assert(all.take(offsets@.len() as int) =~= all);
    }
}

/// The four orthogonal directions.
fn orthogonal() -> (r: Vec<(i8, i8)>)
    ensures
        int_pairs(r@) == orthogonal_directions(),
{
    let r = vec![(0, 1), (0, -1), (1, 0), (-1, 0)];
    assert(int_pairs(r@) =~= orthogonal_directions());
    r
}

/// The four diagonal directions.
fn diagonal() -> (r: Vec<(i8, i8)>)
    ensures
        int_pairs(r@) == diagonal_directions(),
{
    let r = vec![(1, 1), (1, -1), (-1, 1), (-1, -1)];
    assert(int_pairs(r@) =~= diagonal_directions());
    r
}

/// The eight directions, orthogonal then diagonal.
fn all_eight() -> (r: Vec<(i8, i8)>)
    ensures
        int_pairs(r@) == all_directions(),
{
    let r = vec![(0, 1), (0, -1), (1, 0), (-1, 0), (1, 1), (1, -1), (-1, 1), (-1, -1)];
    assert(int_pairs(r@) =~= all_directions());
    r
}

impl Pawn {
    /// The pawn's pseudo-legal destinations from `own_coords`: see [`pawn_moves`].
    pub fn get_moves(&self, board: &Board, own_coords: &Coordinate) -> (r: Vec<Coordinate>)
        ensures
            r@ == pawn_moves(board@, *own_coords, self.color),
    {
        let forward: i8 = match self.color {
            Color::White => 1,
            Color::Black => -1,
        };
        let mut moves: Vec<Coordinate> = Vec::new();
        let one = own_coords.add((0, forward));
        if board.can_move(&one, &self.color) {
            moves.push(one);
        }
        let home = match self.color {
            Color::White => Rank::Two,
            Color::Black => Rank::Seven,
        };
        if own_coords.rank == home {
            let two = own_coords.add((0, 2 * forward));
            if board.can_move(&two, &self.color) {
                moves.push(two);
            }
        }
        let ghost after_two = moves@;
        let captures = [own_coords.add((1, forward)), own_coords.add((-1, forward))];
        let mut i: usize = 0;
        while i < 2
            invariant
                i <= 2,
                captures@ == seq![own_coords.shifted(1, forward as int), own_coords.shifted(-1, forward as int)],
                i == 0 ==> moves@ == after_two,
                i == 1 ==> moves@ == after_two + pawn_capture(board@, captures@[0], self.color),
                i == 2 ==> moves@ == after_two + pawn_capture(board@, captures@[0], self.color)
                    + pawn_capture(board@, captures@[1], self.color),
            decreases 2 - i,
        {
            let capture = captures[i];
            let ghost before = moves@;
            let en_passant = match board.get_en_passant_target() {
                Some(t) => t == capture,
                None => false,
            };
            if capture.is_valid() && (board.can_capture(&capture, &self.color) || en_passant) {
                moves.push(capture);
                assert(moves@ =~= before + seq![capture]);
            } else {
                assert(moves@ =~= before + Seq::<Coordinate>::empty());
            }
            proof {
                if i == 1 {
                    assert(moves@ =~= after_two + pawn_capture(board@, captures@[0], self.color)
                        + pawn_capture(board@, captures@[1], self.color));
                }
            }
            i = i + 1;
        }
        proof {
            assert(forward as int == crate::moves::forward(self.color));
            assert(2 * forward as int == 2 * crate::moves::forward(self.color));
            assert(moves@ =~= pawn_moves(board@, *own_coords, self.color));
        }
        moves
    }
}

impl Knight {
    /// The knight's destinations from `own_coords`: each of the eight jumps that
    /// lands on the board on an empty square or a piece of the other side.
    pub fn get_moves(&self, board: &Board, own_coords: &Coordinate) -> (r: Vec<Coordinate>)
        ensures
            r@ == steps(board@, *own_coords, knight_offsets(), self.color),
    {
        let offsets = vec![(1, 2), (1, -2), (-1, 2), (-1, -2), (2, 1), (2, -1), (-2, 1), (-2, -1)];
        assert(int_pairs(offsets@) =~= knight_offsets());
        let mut moves: Vec<Coordinate> = Vec::new();
        push_steps(board, *own_coords, &offsets, self.color, &mut moves);
        assert(moves@ =~= steps(board@, *own_coords, knight_offsets(), self.color));
        moves
    }
}

impl Bishop {
    /// The bishop's destinations from `own_coords` along the four diagonals.
    pub fn get_moves(&self, board: &Board, own_coords: &Coordinate) -> (r: Vec<Coordinate>)
        ensures
            r@ == rays(board@, *own_coords, diagonal_directions(), self.color),
    {
        let dirs = diagonal();
        let mut moves: Vec<Coordinate> = Vec::new();
        push_rays(board, *own_coords, &dirs, self.color, &mut moves);
        assert(moves@ =~= rays(board@, *own_coords, diagonal_directions(), self.color));
        moves
    }
}

impl Rook {
    /// The rook's destinations from `own_coords` along the four orthogonals.
    pub fn get_moves(&self, board: &Board, own_coords: &Coordinate) -> (r: Vec<Coordinate>)
        ensures
            r@ == rays(board@, *own_coords, orthogonal_directions(), self.color),
    {
        let dirs = orthogonal();
        let mut moves: Vec<Coordinate> = Vec::new();
        push_rays(board, *own_coords, &dirs, self.color, &mut moves);
        assert(moves@ =~= rays(board@, *own_coords, orthogonal_directions(), self.color));
        moves
    }
}

impl Queen {
    /// The queen's destinations from `own_coords` along all eight directions.
    pub fn get_moves(&self, board: &Board, own_coords: &Coordinate) -> (r: Vec<Coordinate>)
        ensures
            r@ == rays(board@, *own_coords, all_directions(), self.color),
    {
        let dirs = all_eight();
        let mut moves: Vec<Coordinate> = Vec::new();
        push_rays(board, *own_coords, &dirs, self.color, &mut moves);
        assert(moves@ =~= rays(board@, *own_coords, all_directions(), self.color));
        moves
    }
}

impl King {
    /// The king's destinations from `own_coords`: each neighbouring square on
    /// the board that is empty or held by the other side.
    pub fn get_moves(&self, board: &Board, own_coords: &Coordinate) -> (r: Vec<Coordinate>)
        ensures
            r@ == steps(board@, *own_coords, all_directions(), self.color),
    {
        let dirs = all_eight();
        let mut moves: Vec<Coordinate> = Vec::new();
        push_steps(board, *own_coords, &dirs, self.color, &mut moves);
        assert(moves@ =~= steps(board@, *own_coords, all_directions(), self.color));
        moves
    }
}

impl Piece {
    /// The piece's pseudo-legal destinations from `own_coords` on `board`: they
    /// respect occupancy, captures and the edge of the board, but not whether
    /// the mover's own king would be left in check.
    pub fn get_moves(&self, board: &Board, own_coords: &Coordinate) -> (r: Vec<Coordinate>)
        ensures
            r@ == self.moves(board@, *own_coords),
    {
        match self {
            Piece::Pawn(p) => p.get_moves(board, own_coords),
            Piece::Knight(p) => p.get_moves(board, own_coords),
            Piece::Bishop(p) => p.get_moves(board, own_coords),
            Piece::Rook(p) => p.get_moves(board, own_coords),
            Piece::Queen(p) => p.get_moves(board, own_coords),
            Piece::King(p) => p.get_moves(board, own_coords),
        }
    }
}

/// A pawn whose forward diagonal is the board's en-passant target has that
/// target among its destinations.
pub proof fn lemma_pawn_takes_en_passant(m: BoardModel, from: Coordinate, mover: Color, t: Coordinate)
    requires
        m.en_passant == Some(t),
        t.valid(),
        t == from.shifted(1, forward(mover)) || t == from.shifted(-1, forward(mover)),
    ensures
        pawn_moves(m, from, mover).contains(t),
{
    let f = forward(mover);
    let one = from.shifted(0, f);
    let two = from.shifted(0, 2 * f);
    let a = if m.empty_at(one) {
        seq![one]
    } else {
        Seq::<Coordinate>::empty()
    };
    let b = if from.rank == home_rank(mover) && m.empty_at(two) {
        seq![two]
    } else {
        Seq::<Coordinate>::empty()
    };
    let c1 = pawn_capture(m, from.shifted(1, f), mover);
    let c2 = pawn_capture(m, from.shifted(-1, f), mover);
    let all = pawn_moves(m, from, mover);
    assert(all == a + b + c1 + c2);
    if t == from.shifted(1, f) {
        assert(all[(a.len() + b.len()) as int] == t);
    } else {
        assert(all[(a.len() + b.len() + c1.len()) as int] == t);
    }
}

/// A pawn never has among its destinations a forward diagonal square held by
/// a piece of its own side, unless that square is the en-passant target.
pub proof fn lemma_pawn_spares_allies(m: BoardModel, from: Coordinate, mover: Color, t: Coordinate)
    requires
        t == from.shifted(1, forward(mover)) || t == from.shifted(-1, forward(mover)),
        m.piece_at(t) matches Some(p) && p.side() == mover,
        m.en_passant != Some(t),
    ensures
        !pawn_moves(m, from, mover).contains(t),
{
    let f = forward(mover);
    let one = from.shifted(0, f);
    let two = from.shifted(0, 2 * f);
    let d1 = from.shifted(1, f);
    let d2 = from.shifted(-1, f);
    let a = if m.empty_at(one) {
        seq![one]
    } else {
        Seq::<Coordinate>::empty()
    };
    let b = if from.rank == home_rank(mover) && m.empty_at(two) {
        seq![two]
    } else {
        Seq::<Coordinate>::empty()
    };
    let c1 = pawn_capture(m, d1, mover);
    let c2 = pawn_capture(m, d2, mover);
    let all = pawn_moves(m, from, mover);
    assert(all == a + b + c1 + c2);
    assert(t.valid());
    assert(t.file.num() == from.file.num() + 1 || t.file.num() == from.file.num() - 1);
    assert(one.file != t.file);
    assert(two.file != t.file);
    assert(!m.enemy_at(t, mover));
    if t == d1 {
        assert(c1.len() == 0);
        assert(d2.file != t.file);
    } else {
        assert(c2.len() == 0);
        assert(d1.file != t.file);
    }
    assert forall|i: int| 0 <= i < all.len() implies all[i] != t by {
        let na = a.len() as int;
        let nb = na + b.len();
        let nc = nb + c1.len();
        if i < na {
            assert(all[i] == a[i]);
        } else if i < nb {
            assert(all[i] == b[i - na]);
        } else if i < nc {
            assert(all[i] == c1[i - nb]);
        } else {
            assert(all[i] == c2[i - nc]);
        }
    }
}

} // verus!
