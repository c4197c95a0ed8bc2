use vstd::prelude::*;

verus! {

/// One of the four castling rights.
#[derive(Clone, Copy, Debug, PartialEq, Eq, Structural, Hash)]
pub enum CastleAvailability {
    WhiteKingside,
    WhiteQueenside,
    BlackKingside,
    BlackQueenside,
}

/// A set of castling rights.
#[derive(Clone, Copy, Debug, PartialEq, Eq, Structural)]
pub struct CastlingRights {
    white_kingside: bool,
    white_queenside: bool,
    black_kingside: bool,
    black_queenside: bool,
}

/// The set of all four castling rights.
pub open spec fn all_castling_rights() -> Set<CastleAvailability> {
    set![
        CastleAvailability::WhiteKingside,
        CastleAvailability::WhiteQueenside,
        CastleAvailability::BlackKingside,
        CastleAvailability::BlackQueenside,
    ]
}

impl View for CastlingRights {
    type V = Set<CastleAvailability>;

    closed spec fn view(&self) -> Set<CastleAvailability> {
        Set::new(
            |r: CastleAvailability|
                match r {
                    CastleAvailability::WhiteKingside => self.white_kingside,
                    CastleAvailability::WhiteQueenside => self.white_queenside,
                    CastleAvailability::BlackKingside => self.black_kingside,
                    CastleAvailability::BlackQueenside => self.black_queenside,
                },
        )
    }
}

impl CastlingRights {
    /// The empty set of rights.
    pub fn new() -> (r: CastlingRights)
        ensures
            r@ == Set::<CastleAvailability>::empty(),
    {
        let r = CastlingRights {
            white_kingside: false,
            white_queenside: false,
            black_kingside: false,
            black_queenside: false,
        };
        assert(r@ =~= Set::<CastleAvailability>::empty());
        r
    }

    /// The set of all four rights.
    pub fn all() -> (r: CastlingRights)
        ensures
            r@ == all_castling_rights(),
    {
        let r = CastlingRights {
            white_kingside: true,
            white_queenside: true,
            black_kingside: true,
            black_queenside: true,
        };
        assert(r@ =~= all_castling_rights());
        r
    }

    /// Whether the set holds `right`.
    pub fn contains(&self, right: CastleAvailability) -> (r: bool)
        ensures
            r == self@.contains(right),
    {
        match right {
            CastleAvailability::WhiteKingside => self.white_kingside,
            CastleAvailability::WhiteQueenside => self.white_queenside,
            CastleAvailability::BlackKingside => self.black_kingside,
            CastleAvailability::BlackQueenside => self.black_queenside,
        }
    }

    /// Adds `right` to the set.
    pub fn insert(&mut self, right: CastleAvailability)
        ensures
            final(self)@ == old(self)@.insert(right),
    {
        match right {
            CastleAvailability::WhiteKingside => self.white_kingside = true,
            CastleAvailability::WhiteQueenside => self.white_queenside = true,
            CastleAvailability::BlackKingside => self.black_kingside = true,
            CastleAvailability::BlackQueenside => self.black_queenside = true,
        }
        assert(self@ =~= old(self)@.insert(right));
    }

    /// Whether the set is empty.
    pub fn is_empty(&self) -> (r: bool)
        ensures
            r == (self@ == Set::<CastleAvailability>::empty()),
    {
        let r = !(self.white_kingside || self.white_queenside || self.black_kingside
            || self.black_queenside);
        if !r {
            assert(self@.contains(CastleAvailability::WhiteKingside) || self@.contains(
                CastleAvailability::WhiteQueenside,
            ) || self@.contains(CastleAvailability::BlackKingside) || self@.contains(
                CastleAvailability::BlackQueenside,
            ));
        } else {
            assert(self@ =~= Set::<CastleAvailability>::empty());
        }
        r
    }
}

} // verus!
