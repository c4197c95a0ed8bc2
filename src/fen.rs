use vstd::prelude::*;
use vstd::arithmetic::div_mod::lemma_fundamental_div_mod;

use crate::board::{Board, BoardModel};
use crate::coord::push_char;
use crate::castling::{CastleAvailability, CastlingRights};
use crate::coord::Coordinate;
use crate::piece::{lemma_fen_letter_round_trip, Color, Piece};
use crate::text::{
    all_digits, decimal_text, digit_char, digit_value, join, lacks, lemma_decimal_text,
    lemma_parse_decimal_text, lemma_split_join, parse_decimal, split,
};

verus! {

/// `n` empty squares.
pub open spec fn empty_squares(n: int) -> Seq<Option<Piece>> {
    Seq::new(n as nat, |i: int| None)
}

/// The squares one character of a FEN rank stands for: a piece letter one
/// square holding that piece, a digit 1-8 that many empty squares.
pub open spec fn square_run(c: char) -> Option<Seq<Option<Piece>>> {
    if Piece::from_fen_letter(c) is Some {
        Some(seq![Piece::from_fen_letter(c)])
    } else if 1 <= digit_value(c) <= 8 {
        Some(empty_squares(digit_value(c)))
    } else {
        None
    }
}

/// The squares a FEN rank stands for, left to right; `None` if it holds a
/// character that is neither a piece letter nor a digit 1-8.
pub open spec fn expand_rank(s: Seq<char>) -> Option<Seq<Option<Piece>>>
    decreases s.len(),
{
    if s.len() == 0 {
        Some(Seq::empty())
    } else if expand_rank(s.drop_last()) is Some && square_run(s.last()) is Some {
        Some(expand_rank(s.drop_last())->Some_0 + square_run(s.last())->Some_0)
    } else {
        None
    }
}

/// The 64 occupants that a FEN piece-placement field describes, rank one first;
/// `None` unless it has exactly eight ranks of exactly eight squares each.
/// The field lists rank eight first.
pub open spec fn parse_placement(f: Seq<char>) -> Option<Seq<Option<Piece>>> {
    let ranks = split(f, '/');
    if ranks.len() == 8 && (forall|i: int|
        0 <= i < 8 ==> (#[trigger] expand_rank(ranks[i])) is Some && expand_rank(ranks[i])->Some_0.len()
            == 8) {
        Some(Seq::new(64, |k: int| expand_rank(ranks[7 - k / 8])->Some_0[k % 8]))
    } else {
        None
    }
}

/// The side to move that a FEN field names: `w` or `b`, in either case.
pub open spec fn parse_active(f: Seq<char>) -> Option<Color> {
    if f == seq!['w'] || f == seq!['W'] {
        Some(Color::White)
    } else if f == seq!['b'] || f == seq!['B'] {
        Some(Color::Black)
    } else {
        None
    }
}

/// What one character of the castling field means: a right, nothing (`-`), or
/// an error.
pub open spec fn castle_char(c: char) -> Option<Option<CastleAvailability>> {
    match c {
        'K' => Some(Some(CastleAvailability::WhiteKingside)),
        'Q' => Some(Some(CastleAvailability::WhiteQueenside)),
        'k' => Some(Some(CastleAvailability::BlackKingside)),
        'q' => Some(Some(CastleAvailability::BlackQueenside)),
        '-' => Some(None),
        _ => None,
    }
}

/// The castling rights a FEN field lists: any of `K Q k q` and `-`, in any
/// order; `None` if it holds another character.
pub open spec fn parse_castling(f: Seq<char>) -> Option<Set<CastleAvailability>>
    decreases f.len(),
{
    if f.len() == 0 {
        Some(Set::empty())
    } else if parse_castling(f.drop_last()) is Some && castle_char(f.last()) is Some {
        let s = parse_castling(f.drop_last())->Some_0;
        match castle_char(f.last())->Some_0 {
            Some(r) => Some(s.insert(r)),
            None => Some(s),
        }
    } else {
        None
    }
}

/// The en-passant target a FEN field names: `-` for none, else a position string.
pub open spec fn parse_en_passant(f: Seq<char>) -> Option<Option<Coordinate>> {
    if f == seq!['-'] {
        Some(None)
    } else if Coordinate::parse(f) is Ok {
        Some(Some(Coordinate::parse(f)->Ok_0))
    } else {
        None
    }
}

/// The board that a FEN string describes: six fields separated by single
/// spaces (placement, side to move, castling, en passant, half-move clock,
/// full-move number), each of which must read; the full-move number must be
/// positive. `None` otherwise.
pub open spec fn parse_fen(s: Seq<char>) -> Option<BoardModel> {
    let fields = split(s, ' ');
    if fields.len() == 6 && parse_placement(fields[0]) is Some && parse_active(fields[1]) is Some
        && parse_castling(fields[2]) is Some && parse_en_passant(fields[3]) is Some
        && parse_decimal(fields[4]) is Some && parse_decimal(fields[5]) is Some
        && parse_decimal(fields[5])->Some_0 >= 1 {
        Some(
            BoardModel {
                pieces: parse_placement(fields[0])->Some_0,
                active_color: parse_active(fields[1])->Some_0,
                castling: parse_castling(fields[2])->Some_0,
                en_passant: parse_en_passant(fields[3])->Some_0,
                half_move_clock: parse_decimal(fields[4])->Some_0,
                full_move: parse_decimal(fields[5])->Some_0,
            },
        )
    } else {
        None
    }
}

/// The FEN text of a row of squares, given `run` empty squares just before
/// it: each piece as its letter, each run of empty squares as its length.
pub open spec fn encode_row(row: Seq<Option<Piece>>, run: nat) -> Seq<char>
    decreases row.len(),
{
    if row.len() == 0 {
        if run > 0 {
            seq![digit_char(run as int)]
        } else {
            Seq::empty()
        }
    } else if row[0] is None {
        encode_row(row.drop_first(), run + 1)
    } else {
        (if run > 0 {
            seq![digit_char(run as int)]
        } else {
            Seq::empty()
        }) + seq![row[0]->Some_0.fen_letter()] + encode_row(row.drop_first(), 0)
    }
}

/// The eight occupants of rank `y` (zero-based), file A first.
pub open spec fn row_at(pieces: Seq<Option<Piece>>, y: int) -> Seq<Option<Piece>> {
    pieces.subrange(8 * y, 8 * y + 8)
}

/// The FEN rank texts of a board, rank eight first.
pub open spec fn rank_texts(pieces: Seq<Option<Piece>>) -> Seq<Seq<char>> {
    Seq::new(8, |i: int| encode_row(row_at(pieces, 7 - i), 0))
}

/// The FEN piece-placement field of a board.
pub open spec fn placement_text(pieces: Seq<Option<Piece>>) -> Seq<char> {
    join(rank_texts(pieces), '/')
}

/// The FEN field of the side to move: `w` or `b`.
pub open spec fn active_text(c: Color) -> Seq<char> {
    if c == Color::White {
        seq!['w']
    } else {
        seq!['b']
    }
}

/// `seq![c]` if `b`, else nothing.
pub open spec fn flag(b: bool, c: char) -> Seq<char> {
    if b {
        seq![c]
    } else {
        Seq::empty()
    }
}

/// The castling letters of a set of rights, in the order `K Q k q`.
pub open spec fn castling_letters(s: Set<CastleAvailability>) -> Seq<char> {
    flag(s.contains(CastleAvailability::WhiteKingside), 'K') + flag(
        s.contains(CastleAvailability::WhiteQueenside),
        'Q',
    ) + flag(s.contains(CastleAvailability::BlackKingside), 'k') + flag(
        s.contains(CastleAvailability::BlackQueenside),
        'q',
    )
}

/// The FEN castling field: the letters of the rights held, or `-` for none.
pub open spec fn castling_text(s: Set<CastleAvailability>) -> Seq<char> {
    if castling_letters(s).len() == 0 {
        seq!['-']
    } else {
        castling_letters(s)
    }
}

/// The FEN en-passant field: `-`, or the target in lower case, as in `e3`.
pub open spec fn en_passant_text(ep: Option<Coordinate>) -> Seq<char> {
    match ep {
        None => seq!['-'],
        Some(c) => seq![c.file.lower_letter(), c.rank.digit()],
    }
}

/// The six FEN fields of a board.
pub open spec fn fen_fields(m: BoardModel) -> Seq<Seq<char>> {
    seq![
        placement_text(m.pieces),
        active_text(m.active_color),
        castling_text(m.castling),
        en_passant_text(m.en_passant),
        decimal_text(m.half_move_clock as nat),
        decimal_text(m.full_move as nat),
    ]
}

/// The FEN string of a board: its six fields joined by single spaces.
pub open spec fn fen_text(m: BoardModel) -> Seq<char> {
    join(fen_fields(m), ' ')
}

/// A FEN rank that is a concatenation reads as the concatenation of the
/// squares of its parts.
pub proof fn lemma_expand_append(a: Seq<char>, b: Seq<char>)
    ensures
        expand_rank(a + b) == (if expand_rank(a) is Some && expand_rank(b) is Some {
            Some(expand_rank(a)->Some_0 + expand_rank(b)->Some_0)
        } else {
            None
        }),
    decreases b.len(),
{
    if b.len() == 0 {
        assert(a + b =~= a);
        if expand_rank(a) is Some {
            assert(expand_rank(a)->Some_0 + Seq::<Option<Piece>>::empty() =~= expand_rank(a)->Some_0);
        }
    } else {
        let b1 = b.drop_last();
        lemma_expand_append(a, b1);
        assert((a + b).drop_last() =~= a + b1);
        assert((a + b).last() == b.last());
        if expand_rank(a) is Some && expand_rank(b1) is Some && square_run(b.last()) is Some {
            let ea = expand_rank(a)->Some_0;
            let eb = expand_rank(b1)->Some_0;
            let r = square_run(b.last())->Some_0;
            assert(ea + eb + r =~= ea + (eb + r));
        }
    }
}

/// A single character reads as the squares it stands for.
pub proof fn lemma_expand_char(c: char)
    ensures
        expand_rank(seq![c]) == square_run(c),
{
    let e = seq![c].drop_last();
    assert(e =~= Seq::<char>::empty());
    assert(expand_rank(e) == Some(Seq::<Option<Piece>>::empty()));
    assert(seq![c].last() == c);
    if square_run(c) is Some {
        assert(Seq::<Option<Piece>>::empty() + square_run(c)->Some_0 =~= square_run(c)->Some_0);
    }
}

/// The digit for a run of 1 to 8 empty squares stands for that many empty
/// squares, and names no piece.
proof fn lemma_digit_char(n: int)
    requires
        1 <= n <= 8,
    ensures
        digit_value(digit_char(n)) == n,
        Piece::from_fen_letter(digit_char(n)) is None,
        square_run(digit_char(n)) == Some(empty_squares(n)),
{
}

/// The text of a row, after `run` empty squares, reads back as those empty
/// squares followed by the row, and holds neither `/` nor a space.
pub proof fn lemma_encode_row(row: Seq<Option<Piece>>, run: nat)
    requires
        run + row.len() <= 8,
    ensures
        expand_rank(encode_row(row, run)) == Some(empty_squares(run as int) + row),
        lacks(encode_row(row, run), '/'),
        lacks(encode_row(row, run), ' '),
    decreases row.len(),
{
    let pre = if run > 0 {
        seq![digit_char(run as int)]
    } else {
        Seq::<char>::empty()
    };
    if run > 0 {
        lemma_digit_char(run as int);
        lemma_expand_char(digit_char(run as int));
    }
    assert(expand_rank(pre) == Some(empty_squares(run as int))) by {
        if run == 0 {
            assert(empty_squares(0) =~= Seq::<Option<Piece>>::empty());
        }
    }
    if row.len() == 0 {
        assert(empty_squares(run as int) + row =~= empty_squares(run as int));
    } else if row[0] is None {
        lemma_encode_row(row.drop_first(), run + 1);
        assert(empty_squares(run + 1 as int) + row.drop_first() =~= empty_squares(run as int) + row);
    } else {
        let p = row[0]->Some_0;
        let rest = encode_row(row.drop_first(), 0);
        lemma_encode_row(row.drop_first(), 0);
        lemma_fen_letter_round_trip(p);
        lemma_expand_char(p.fen_letter());
        lemma_expand_append(pre, seq![p.fen_letter()]);
        lemma_expand_append(pre + seq![p.fen_letter()], rest);
        assert(empty_squares(run as int) + seq![Some(p)] + (empty_squares(0) + row.drop_first())
            =~= empty_squares(run as int) + row);
        let t = pre + seq![p.fen_letter()] + rest;
        assert(lacks(t, '/') && lacks(t, ' ')) by {
            assert forall|i: int| 0 <= i < t.len() implies t[i] != '/' && t[i] != ' ' by {
                if i >= pre.len() + 1 {
                    assert(t[i] == rest[i - pre.len() - 1]);
                }
            }
        }
    }
}

/// The placement text of 64 squares reads back as those squares, and holds no
/// space.
pub proof fn lemma_placement_round_trip(pieces: Seq<Option<Piece>>)
    requires
        pieces.len() == 64,
    ensures
        parse_placement(placement_text(pieces)) == Some(pieces),
        lacks(placement_text(pieces), ' '),
{
    let texts = rank_texts(pieces);
    assert forall|i: int| 0 <= i < 8 implies lacks(#[trigger] texts[i], '/') && lacks(texts[i], ' ')
        && expand_rank(texts[i]) == Some(row_at(pieces, 7 - i)) by {
        lemma_encode_row(row_at(pieces, 7 - i), 0);
        assert(empty_squares(0) + row_at(pieces, 7 - i) =~= row_at(pieces, 7 - i));
    }
    lemma_split_join(texts, '/');
    crate::text::lemma_join_lacks(texts, '/', ' ');
    let ranks = split(placement_text(pieces), '/');
    assert(ranks == texts);
    assert forall|i: int| 0 <= i < 8 implies (#[trigger] expand_rank(ranks[i])) is Some
        && expand_rank(ranks[i])->Some_0.len() == 8 by {
        assert(expand_rank(texts[i]) == Some(row_at(pieces, 7 - i)));
    }
    let parsed = Seq::new(64, |k: int| expand_rank(ranks[7 - k / 8])->Some_0[k % 8]);
    assert forall|k: int| 0 <= k < 64 implies parsed[k] == pieces[k] by {
        lemma_fundamental_div_mod(k, 8);
        assert(0 <= k / 8 < 8);
        assert(expand_rank(texts[7 - k / 8]) == Some(row_at(pieces, k / 8)));
    }
    assert(parsed =~= pieces);
}

/// A castling field that is a concatenation lists the rights of both parts.
pub proof fn lemma_castling_append(a: Seq<char>, b: Seq<char>)
    ensures
        parse_castling(a + b) == (if parse_castling(a) is Some && parse_castling(b) is Some {
            Some(parse_castling(a)->Some_0 + parse_castling(b)->Some_0)
        } else {
            None
        }),
    decreases b.len(),
{
    if b.len() == 0 {
        assert(a + b =~= a);
        if parse_castling(a) is Some {
            assert(parse_castling(a)->Some_0 + Set::<CastleAvailability>::empty()
                =~= parse_castling(a)->Some_0);
        }
    } else {
        let b1 = b.drop_last();
        lemma_castling_append(a, b1);
        assert((a + b).drop_last() =~= a + b1);
        assert((a + b).last() == b.last());
        if parse_castling(a) is Some && parse_castling(b1) is Some && castle_char(b.last()) is Some {
            let sa = parse_castling(a)->Some_0;
            let sb = parse_castling(b1)->Some_0;
            match castle_char(b.last())->Some_0 {
                Some(r) => {
                    assert(sa + sb.insert(r) =~= (sa + sb).insert(r));
                },
                None => {},
            }
        }
    }
}

/// The castling letter `c` of right `r`, present when `b`, reads as that right.
proof fn lemma_castling_flag(b: bool, c: char, r: CastleAvailability)
    requires
        castle_char(c) == Some(Some(r)),
    ensures
        parse_castling(flag(b, c)) == Some(
            if b {
                set![r]
            } else {
                Set::<CastleAvailability>::empty()
            },
        ),
        lacks(flag(b, c), ' '),
{
    if b {
        let e = seq![c].drop_last();
        assert(e =~= Seq::<char>::empty());
        assert(parse_castling(e) == Some(Set::<CastleAvailability>::empty()));
        assert(seq![c].last() == c);
        assert(Set::<CastleAvailability>::empty().insert(r) =~= set![r]);
    } else {
        assert(flag(b, c) =~= Seq::<char>::empty());
    }
}

/// The castling text of a set of rights reads back as the set, and holds no
/// space.
pub proof fn lemma_castling_round_trip(s: Set<CastleAvailability>)
    ensures
        parse_castling(castling_text(s)) == Some(s),
        lacks(castling_text(s), ' '),
{
    let wk = s.contains(CastleAvailability::WhiteKingside);
    let wq = s.contains(CastleAvailability::WhiteQueenside);
    let bk = s.contains(CastleAvailability::BlackKingside);
    let bq = s.contains(CastleAvailability::BlackQueenside);
    let f1 = flag(wk, 'K');
    let f2 = flag(wq, 'Q');
    let f3 = flag(bk, 'k');
    let f4 = flag(bq, 'q');
    lemma_castling_flag(wk, 'K', CastleAvailability::WhiteKingside);
    lemma_castling_flag(wq, 'Q', CastleAvailability::WhiteQueenside);
    lemma_castling_flag(bk, 'k', CastleAvailability::BlackKingside);
    lemma_castling_flag(bq, 'q', CastleAvailability::BlackQueenside);
    lemma_castling_append(f1, f2);
    lemma_castling_append(f1 + f2, f3);
    lemma_castling_append(f1 + f2 + f3, f4);
    let letters = castling_letters(s);
    assert(letters == f1 + f2 + f3 + f4);
    let parsed = parse_castling(letters)->Some_0;
    assert(parsed =~= s) by {
        assert forall|r: CastleAvailability| parsed.contains(r) <==> s.contains(r) by {
            match r {
                CastleAvailability::WhiteKingside => {},
                CastleAvailability::WhiteQueenside => {},
                CastleAvailability::BlackKingside => {},
                CastleAvailability::BlackQueenside => {},
            }
        }
    }
    if letters.len() == 0 {
        assert(!wk && !wq && !bk && !bq);
        let e = seq!['-'].drop_last();
        assert(e =~= Seq::<char>::empty());
        assert(parse_castling(e) == Some(Set::<CastleAvailability>::empty()));
        assert(seq!['-'].last() == '-');
        assert(s =~= Set::<CastleAvailability>::empty()) by {
            assert forall|r: CastleAvailability| !s.contains(r) by {
                match r {
                    CastleAvailability::WhiteKingside => {},
                    CastleAvailability::WhiteQueenside => {},
                    CastleAvailability::BlackKingside => {},
                    CastleAvailability::BlackQueenside => {},
                }
            }
        }
    } else {
        assert(lacks(letters, ' ')) by {
            assert forall|i: int| 0 <= i < letters.len() implies letters[i] != ' ' by {
                let n1 = f1.len() as int;
                let n2 = n1 + f2.len();
                let n3 = n2 + f3.len();
                if i < n1 {
                    assert(letters[i] == f1[i]);
                } else if i < n2 {
                    assert(letters[i] == f2[i - n1]);
                } else if i < n3 {
                    assert(letters[i] == f3[i - n2]);
                } else {
                    assert(letters[i] == f4[i - n3]);
                }
            }
        }
    }
}

/// A board's FEN string reads back as the board: reading after writing is the
/// identity on well-formed boards.
pub proof fn lemma_fen_round_trip(m: BoardModel)
    requires
        m.wf(),
    ensures
        parse_fen(fen_text(m)) == Some(m),
{
    let fields = fen_fields(m);
    lemma_placement_round_trip(m.pieces);
    lemma_castling_round_trip(m.castling);
    lemma_decimal_text(m.half_move_clock as nat);
    lemma_decimal_text(m.full_move as nat);
    lemma_parse_decimal_text(m.half_move_clock as nat);
    lemma_parse_decimal_text(m.full_move as nat);
    assert forall|i: int| 0 <= i < fields.len() implies lacks(#[trigger] fields[i], ' ') by {
        if i == 4 || i == 5 {
            let d = fields[i];
            assert(all_digits(d));
            assert forall|j: int| 0 <= j < d.len() implies d[j] != ' ' by {
                assert(digit_value(d[j]) >= 0);
            }
        }
    }
    lemma_split_join(fields, ' ');
    let parts = split(fen_text(m), ' ');
    assert(parts == fields);
    assert(parse_placement(fields[0]) == Some(m.pieces));
    assert(parse_active(fields[1]) == Some(m.active_color)) by {
        if m.active_color == Color::Black {
            let t = seq!['b'];
            assert(t[0] != seq!['w'][0]);
            assert(t[0] != seq!['W'][0]);
        }
    }
    assert(parse_castling(fields[2]) == Some(m.castling));
    match m.en_passant {
        Some(c) => {
            lemma_lower_letter(c.file);
            assert(en_passant_text(m.en_passant).len() == 2);
            assert(Coordinate::parse(en_passant_text(m.en_passant)) == Ok::<
                Coordinate,
                crate::error::Error,
            >(c));
            assert(en_passant_text(m.en_passant) != seq!['-']);
        },
        None => {},
    }
    assert(parse_en_passant(fields[3]) == Some(m.en_passant));
    assert(parse_decimal(fields[4]) == Some(m.half_move_clock));
    assert(parse_decimal(fields[5]) == Some(m.full_move));
}

/// The lower-case letter of a file names the file.
proof fn lemma_lower_letter(f: crate::coord::File)
    requires
        f != crate::coord::File::Invalid,
    ensures
        crate::coord::File::from_letter(f.lower_letter()) == Some(f),
{
}

/// A FEN string written from a well-formed board reads as a board whose FEN
/// string is that same string again.
pub proof fn lemma_fen_string_round_trip(s: Seq<char>, m: BoardModel)
    requires
        m.wf(),
        s == fen_text(m),
    ensures
        parse_fen(s) is Some,
        fen_text(parse_fen(s)->Some_0) == s,
{
    lemma_fen_round_trip(m);
}

/// A string that does not split into exactly six space-separated fields is
/// not a FEN string.
pub proof fn lemma_fen_needs_six_fields(s: Seq<char>)
    requires
        split(s, ' ').len() != 6,
    ensures
        parse_fen(s) is None,
{
}

/// Whatever reads as a board is a well-formed board.
pub proof fn lemma_parse_fen_wf(s: Seq<char>)
    requires
        parse_fen(s) is Some,
    ensures
        parse_fen(s)->Some_0.wf(),
{
    let fields = split(s, ' ');
    crate::text::lemma_decimal_value_grows(fields[4], 0);
    crate::text::lemma_decimal_value_grows(fields[5], 0);
}

/// The views of a sequence of character vectors.
pub open spec fn views(v: Seq<Vec<char>>) -> Seq<Seq<char>> {
    v.map_values(|x: Vec<char>| x@)
}

/// The characters of a string.
pub fn chars_of(s: &str) -> (r: Vec<char>)
    ensures
        r@ == s@,
{
    let n = s.unicode_len();
    let mut r: Vec<char> = Vec::new();
    let mut i: usize = 0;
    while i < n
        invariant
            n == s@.len(),
            i <= n,
            r@ == s@.take(i as int),
        decreases n - i,
    {
        r.push(s.get_char(i));
        assert(r@ =~= s@.take(i + 1));
        i = i + 1;
    }
    assert(s@.take(n as int) =~= s@);
    r
}

/// Splits `chars` at each occurrence of `sep`.
pub fn split_chars(chars: &Vec<char>, sep: char) -> (r: Vec<Vec<char>>)
    ensures
        views(r@) == split(chars@, sep),
{
    let mut fields: Vec<Vec<char>> = Vec::new();
    let mut cur: Vec<char> = Vec::new();
    let mut i: usize = 0;
    while i < chars.len()
        invariant
            i <= chars@.len(),
            views(fields@).push(cur@) == split(chars@.take(i as int), sep),
        decreases chars@.len() - i,
    {
        let c = chars[i];
        let ghost before = views(fields@).push(cur@);
        let ghost t = chars@.take(i + 1);
        assert(t.drop_last() =~= chars@.take(i as int));
        assert(t.last() == c);
        proof {
            crate::text::lemma_split_len(chars@.take(i as int), sep);
        }
        if c == sep {
            let done = cur;
            fields.push(done);
            cur = Vec::new();
            assert(views(fields@).push(cur@) =~= before.push(Seq::empty()));
        } else {
            cur.push(c);
            assert(views(fields@).push(cur@) =~= before.update(
                before.len() - 1,
                before.last().push(c),
            ));
        }
        i = i + 1;
    }
    assert(chars@.take(chars@.len() as int) =~= chars@);
    fields.push(cur);
    assert(views(fields@) =~= split(chars@, sep));
    fields
}

/// The value of a decimal digit character.
fn digit_of(c: char) -> (r: Option<u8>)
    ensures
        r is Some <==> digit_value(c) >= 0,
        r matches Some(d) ==> d == digit_value(c),
{
    match c {
        '0' => Some(0),
        '1' => Some(1),
        '2' => Some(2),
        '3' => Some(3),
        '4' => Some(4),
        '5' => Some(5),
        '6' => Some(6),
        '7' => Some(7),
        '8' => Some(8),
        '9' => Some(9),
        _ => None,
    }
}

/// The digit character of `d`.
fn digit_to_char(d: u8) -> (r: char)
    requires
        d < 10,
    ensures
        r == digit_char(d as int),
{
    match d {
        0 => '0',
        1 => '1',
        2 => '2',
        3 => '3',
        4 => '4',
        5 => '5',
        6 => '6',
        7 => '7',
        8 => '8',
        _ => '9',
    }
}

/// Reads a non-negative decimal number of at most `i32::MAX`; no sign is taken.
pub fn parse_clock(f: &Vec<char>) -> (r: Option<i32>)
    ensures
        r is Some <==> parse_decimal(f@) is Some,
        r matches Some(v) ==> v == parse_decimal(f@)->Some_0,
{
    if f.len() == 0 {
        return None;
    }
    let mut acc: u64 = 0;
    let mut i: usize = 0;
    while i < f.len()
        invariant
            i <= f@.len(),
            all_digits(f@.take(i as int)),
            acc == crate::text::decimal_value(f@.take(i as int)),
            acc <= i32::MAX,
        decreases f@.len() - i,
    {
        let ghost t = f@.take(i + 1);
        assert(t.drop_last() =~= f@.take(i as int));
        let d = match digit_of(f[i]) {
            Some(d) => d,
            None => {
                assert(digit_value(f@[i as int]) < 0);
                return None;
            },
        };
        acc = acc * 10 + d as u64;
        assert(all_digits(t)) by {
            assert forall|j: int| 0 <= j < t.len() implies digit_value(#[trigger] t[j]) >= 0 by {
                if j < i {
                    assert(t[j] == f@.take(i as int)[j]);
                }
            }
        }
        if acc > 2147483647 {
            proof {
                if all_digits(f@) {
                    crate::text::lemma_decimal_value_grows(f@, i + 1);
                }
            }
            return None;
        }
        i = i + 1;
    }
    assert(f@.take(f@.len() as int) =~= f@);
    Some(acc as i32)
}

/// Reads the FEN field of the side to move.
pub fn parse_active_color(f: &Vec<char>) -> (r: Option<Color>)
    ensures
        r == parse_active(f@),
{
    if f.len() != 1 {
        proof {
            assert(f@ != seq!['w'] && f@ != seq!['W'] && f@ != seq!['b'] && f@ != seq!['B']);
        }
        return None;
    }
    let c = f[0];
    proof {
        assert(f@ =~= seq![c]);
    }
    if c == 'w' || c == 'W' {
        Some(Color::White)
    } else if c == 'b' || c == 'B' {
        Some(Color::Black)
    } else {
        proof {
            assert(seq![c][0] == c);
            assert(seq!['w'][0] == 'w' && seq!['W'][0] == 'W' && seq!['b'][0] == 'b' && seq!['B'][0] == 'B');
        }
        None
    }
}

/// Reads the FEN castling field.
pub fn parse_castling_rights(f: &Vec<char>) -> (r: Option<CastlingRights>)
    ensures
        r is Some <==> parse_castling(f@) is Some,
        r matches Some(c) ==> c@ == parse_castling(f@)->Some_0,
{
    let mut rights = CastlingRights::new();
    let mut i: usize = 0;
    proof {
        assert(f@.take(0) =~= Seq::<char>::empty());
    }
    while i < f.len()
        invariant
            i <= f@.len(),
            parse_castling(f@.take(i as int)) is Some,
            rights@ == parse_castling(f@.take(i as int))->Some_0,
        decreases f@.len() - i,
    {
        let ghost t = f@.take(i + 1);
        assert(t.drop_last() =~= f@.take(i as int));
        assert(t.last() == f@[i as int]);
        match f[i] {
            'K' => rights.insert(CastleAvailability::WhiteKingside),
            'Q' => rights.insert(CastleAvailability::WhiteQueenside),
            'k' => rights.insert(CastleAvailability::BlackKingside),
            'q' => rights.insert(CastleAvailability::BlackQueenside),
            '-' => {},
            _ => {
                proof {
                    lemma_castling_append(t, f@.skip(i + 1));
                    assert(t + f@.skip(i + 1) =~= f@);
                }
                return None;
            },
        }
        i = i + 1;
    }
    assert(f@.take(f@.len() as int) =~= f@);
    Some(rights)
}

/// Reads the FEN en-passant field.
pub fn parse_en_passant_target(f: &Vec<char>) -> (r: Option<Option<Coordinate>>)
    ensures
        r == parse_en_passant(f@),
{
    if f.len() == 1 && f[0] == '-' {
        assert(f@ =~= seq!['-']);
        return Some(None);
    }
    if f.len() != 2 {
        return None;
    }
    assert(f@ != seq!['-']);
    let file = match crate::coord::File::parse_char(f[0]) {
        Some(x) => x,
        None => {
            return None;
        },
    };
    let rank = match crate::coord::Rank::parse_char(f[1]) {
        Some(x) => x,
        None => {
            return None;
        },
    };
    Some(Some(Coordinate { file, rank }))
}

/// Reads one FEN rank, which must stand for exactly eight squares.
pub fn parse_rank(f: &Vec<char>) -> (r: Option<Vec<Option<Piece>>>)
    ensures
        r is Some <==> (expand_rank(f@) is Some && expand_rank(f@)->Some_0.len() == 8),
        r matches Some(v) ==> v@ == expand_rank(f@)->Some_0,
{
    let mut row: Vec<Option<Piece>> = Vec::new();
    let mut i: usize = 0;
    proof {
        assert(f@.take(0) =~= Seq::<char>::empty());
    }
    while i < f.len()
        invariant
            i <= f@.len(),
            expand_rank(f@.take(i as int)) == Some(row@),
            row@.len() <= 8,
        decreases f@.len() - i,
    {
        let c = f[i];
        let ghost t = f@.take(i + 1);
        assert(t.drop_last() =~= f@.take(i as int));
        assert(t.last() == c);
        let ghost before = row@;
        match Piece::from_fen_char(c) {
            Some(p) => {
                row.push(Some(p));
                assert(row@ =~= before + seq![Some(p)]);
            },
            None => {
                let n = match digit_of(c) {
                    Some(d) if d >= 1 && d <= 8 => d,
                    _ => {
                        proof {
                            lemma_expand_append(t, f@.skip(i + 1));
                            assert(t + f@.skip(i + 1) =~= f@);
                        }
                        return None;
                    },
                };
                if row.len() + n as usize > 8 {
                    proof {
                        lemma_expand_append(t, f@.skip(i + 1));
                        assert(t + f@.skip(i + 1) =~= f@);
                    }
                    return None;
                }
                let mut j: u8 = 0;
                while j < n
                    invariant
                        j <= n,
                        row@ == before + empty_squares(j as int),
                    decreases n - j,
                {
                    row.push(None);
                    assert(row@ =~= before + empty_squares(j + 1));
                    j = j + 1;
                }
            },
        }
        if row.len() > 8 {
            proof {
                lemma_expand_append(t, f@.skip(i + 1));
                assert(t + f@.skip(i + 1) =~= f@);
            }
            return None;
        }
        i = i + 1;
    }
    assert(f@.take(f@.len() as int) =~= f@);
    if row.len() != 8 {
        return None;
    }
    Some(row)
}

/// Reads the FEN piece-placement field into the 64 occupants, rank one first.
pub fn parse_pieces(f: &Vec<char>) -> (r: Option<Vec<Option<Piece>>>)
    ensures
        r is Some <==> parse_placement(f@) is Some,
        r matches Some(v) ==> v@ == parse_placement(f@)->Some_0,
{
    let ranks = split_chars(f, '/');
    let ghost rs = split(f@, '/');
    if ranks.len() != 8 {
        return None;
    }
    assert(forall|i: int| 0 <= i < 8 ==> ranks@[i]@ == rs[i]);
    let mut pieces: Vec<Option<Piece>> = Vec::new();
    let mut y: usize = 0;
    while y < 8
        invariant
            y <= 8,
            ranks@.len() == 8,
            rs == split(f@, '/'),
            forall|i: int| 0 <= i < 8 ==> ranks@[i]@ == rs[i],
            forall|i: int|
                8 - y <= i < 8 ==> (#[trigger] expand_rank(rs[i])) is Some
                    && expand_rank(rs[i])->Some_0.len() == 8,
            pieces@.len() == 8 * y,
            forall|k: int|
                0 <= k < 8 * y ==> pieces@[k] == expand_rank(rs[7 - k / 8])->Some_0[k % 8],
        decreases 8 - y,
    {
        let row = match parse_rank(&ranks[7 - y]) {
            Some(row) => row,
            None => {
                return None;
            },
        };
        let ghost before = pieces@;
        let mut x: usize = 0;
        while x < 8
            invariant
                x <= 8,
                y < 8,
                row@.len() == 8,
                row@ == expand_rank(rs[7 - y as int])->Some_0,
                pieces@.len() == 8 * y + x,
                pieces@ == before + row@.take(x as int),
                before.len() == 8 * y,
            decreases 8 - x,
        {
            pieces.push(row[x]);
            assert(pieces@ =~= before + row@.take(x + 1));
            x = x + 1;
        }
        assert forall|k: int| 0 <= k < 8 * (y + 1) implies pieces@[k] == expand_rank(
            rs[7 - k / 8],
        )->Some_0[k % 8] by {
            if k >= 8 * y {
                vstd::arithmetic::div_mod::lemma_fundamental_div_mod_converse(k, 8, y as int, k - 8 * y);
                assert(pieces@[k] == row@[k - 8 * y]);
            } else {
                assert(pieces@[k] == before[k]);
            }
        }
        y = y + 1;
    }
    assert(pieces@ =~= parse_placement(f@)->Some_0);
    Some(pieces)
}

/// Appends the decimal text of `n`.
pub fn push_decimal(s: &mut String, n: i32)
    requires
        n >= 0,
    ensures
        final(s)@ == old(s)@ + decimal_text(n as nat),
    decreases n,
{
    if n >= 10 {
        push_decimal(s, n / 10);
    }
    let d = (n % 10) as u8;
    push_char(s, digit_to_char(d));
    proof {
        if n >= 10 {
            assert(old(s)@ + decimal_text((n / 10) as nat) + seq![digit_char(d as int)]
                =~= old(s)@ + decimal_text(n as nat));
        } else {
            assert(old(s)@.push(digit_char(d as int)) =~= old(s)@ + decimal_text(n as nat));
        }
    }
}

/// The FEN castling field of a set of rights: `K`, `Q`, `k`, `q` for the
/// rights held, in that order, or `-` when none is.
pub fn get_castle_availability_str(avail: &CastlingRights) -> (r: String)
    ensures
        r@ == castling_text(avail@),
{
    let mut s = String::new();
    let mut n: usize = 0;
    if avail.contains(CastleAvailability::WhiteKingside) {
        push_char(&mut s, 'K');
        n = n + 1;
    }
    if avail.contains(CastleAvailability::WhiteQueenside) {
        push_char(&mut s, 'Q');
        n = n + 1;
    }
    if avail.contains(CastleAvailability::BlackKingside) {
        push_char(&mut s, 'k');
        n = n + 1;
    }
    if avail.contains(CastleAvailability::BlackQueenside) {
        push_char(&mut s, 'q');
        n = n + 1;
    }
    assert(s@ =~= castling_letters(avail@));
    assert(s@.len() == n);
    if n == 0 {
        let mut dash = String::new();
        push_char(&mut dash, '-');
        assert(dash@ =~= seq!['-']);
        return dash;
    }
    s
}

/// Appends the characters of `t`.
pub fn push_chars(s: &mut String, t: &String)
    ensures
        final(s)@ == old(s)@ + t@,
{
    let n = t.as_str().unicode_len();
    let mut i: usize = 0;
    while i < n
        invariant
            n == t@.len(),
            i <= n,
            s@ == old(s)@ + t@.take(i as int),
        decreases n - i,
    {
        push_char(s, t.as_str().get_char(i));
        assert(s@ =~= old(s)@ + t@.take(i + 1));
        i = i + 1;
    }
    assert(t@.take(n as int) =~= t@);
}

/// Appends the FEN text of rank `y` (zero-based) of `board`.
pub fn push_rank(s: &mut String, board: &Board, y: i8)
    requires
        0 <= y < 8,
        board@.wf(),
    ensures
        final(s)@ == old(s)@ + encode_row(row_at(board@.pieces, y as int), 0),
{
    let ghost row = row_at(board@.pieces, y as int);
    let ghost whole = encode_row(row, 0);
    let mut run: u8 = 0;
    let mut x: i8 = 0;
    proof {
        assert(row.subrange(0, 8) =~= row);
    }
    while x < 8
        invariant
            0 <= x <= 8,
            0 <= y < 8,
            board@.wf(),
            row == row_at(board@.pieces, y as int),
            whole == encode_row(row, 0),
            run <= x,
            s@ + encode_row(row.subrange(x as int, 8), run as nat) == old(s)@ + whole,
        decreases 8 - x,
    {
        let coord = Coordinate::make_coordinate(x, y);
        proof {
            crate::board::lemma_index_of_column_row(x as int, y as int);
        }
        let square = match board.get_square(coord) {
            Ok(sq) => sq,
            Err(_) => {
                return;
            },
        };
        let ghost rest = row.subrange(x as int, 8);
        assert(rest[0] == row[x as int]);
        assert(rest.drop_first() =~= row.subrange(x + 1, 8));
        match square.get_piece() {
            Some(piece) => {
                let ghost pre = if run > 0 {
                    seq![digit_char(run as int)]
                } else {
                    Seq::<char>::empty()
                };
                let ghost s0 = s@;
                if run > 0 {
                    push_char(s, digit_to_char(run));
                }
                assert(s@ == s0 + pre);
                push_char(s, piece.to_fen_char());
                assert(s@ + encode_row(row.subrange(x + 1, 8), 0) =~= s0 + encode_row(rest, run as nat));
                run = 0;
            },
            None => {
                run = run + 1;
            },
        }
        x = x + 1;
    }
    let ghost s0 = s@;
    assert(row.subrange(8, 8) =~= Seq::<Option<Piece>>::empty());
    if run > 0 {
        push_char(s, digit_to_char(run));
    } else {
        assert(s@ =~= s@ + Seq::<char>::empty());
    }
}

/// Appends the FEN piece-placement field of `board`.
pub fn push_placement(s: &mut String, board: &Board)
    requires
        board@.wf(),
    ensures
        final(s)@ == old(s)@ + placement_text(board@.pieces),
{
    let ghost texts = rank_texts(board@.pieces);
    let mut i: i8 = 0;
    while i < 8
        invariant
            0 <= i <= 8,
            board@.wf(),
            texts == rank_texts(board@.pieces),
            i == 0 ==> s@ == old(s)@,
            i > 0 ==> s@ == old(s)@ + join(texts.take(i as int), '/'),
        decreases 8 - i,
    {
        let ghost s0 = s@;
        if i > 0 {
            push_char(s, '/');
        }
        push_rank(s, board, 7 - i);
        proof {
            let t = texts.take(i + 1);
            assert(t.last() == texts[i as int]);
            if i == 0 {
                assert(join(t, '/') == t[0]);
            } else {
                assert(t.drop_last() =~= texts.take(i as int));
                assert(s@ =~= old(s)@ + join(t, '/'));
            }
        }
        i = i + 1;
    }
    assert(texts.take(8) =~= texts);
}

/// The FEN string of a board, written out field by field.
pub proof fn lemma_fen_text_fields(m: BoardModel)
    ensures
        fen_text(m) == placement_text(m.pieces) + seq![' '] + active_text(m.active_color) + seq![' ']
            + castling_text(m.castling) + seq![' '] + en_passant_text(m.en_passant) + seq![' ']
            + decimal_text(m.half_move_clock as nat) + seq![' '] + decimal_text(m.full_move as nat),
{
    let f = fen_fields(m);
    assert(f.take(1).len() == 1);
    assert(join(f.take(1), ' ') == f[0]);
    assert(f.take(2).drop_last() =~= f.take(1));
    assert(f.take(3).drop_last() =~= f.take(2));
    assert(f.take(4).drop_last() =~= f.take(3));
    assert(f.take(5).drop_last() =~= f.take(4));
    assert(f.drop_last() =~= f.take(5));
    assert(f.take(2).last() == f[1]);
    assert(f.take(3).last() == f[2]);
    assert(f.take(4).last() == f[3]);
    assert(f.take(5).last() == f[4]);
    assert(join(f.take(2), ' ') == f[0] + seq![' '] + f[1]);
    assert(join(f.take(3), ' ') == join(f.take(2), ' ') + seq![' '] + f[2]);
    assert(join(f.take(4), ' ') == join(f.take(3), ' ') + seq![' '] + f[3]);
    assert(join(f.take(5), ' ') == join(f.take(4), ' ') + seq![' '] + f[4]);
    assert(join(f, ' ') == join(f.take(5), ' ') + seq![' '] + f[5]);
}

} // verus!
