use vstd::prelude::*;

verus! {

/// The four castling permissions of a position.
#[derive(Clone, Copy, Debug, PartialEq, Eq, Structural)]
pub struct CastleRights {
    pub white_king: bool,
    pub white_queen: bool,
    pub black_king: bool,
    pub black_queen: bool,
}

impl CastleRights {
    /// The rights as an array, in the order white king-side, white
    /// queen-side, black king-side, black queen-side.
    pub fn as_array(&self) -> (rights: [bool; 4])
        ensures
            rights[0] == self.white_king,
            rights[1] == self.white_queen,
            rights[2] == self.black_king,
            rights[3] == self.black_queen,
    {
        [self.white_king, self.white_queen, self.black_king, self.black_queen]
    }
}

} // verus!
