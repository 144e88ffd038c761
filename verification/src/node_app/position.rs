use vstd::prelude::*;

verus! {

/// Position, within a block, of the next consensus item to process.
#[derive(PartialEq, Eq, Structural, PartialOrd, Ord, Clone, Copy, Debug)]
pub struct BlockCItemIdx(pub u32);

impl BlockCItemIdx {
    /// The position `val`.
    pub fn new(val: u32) -> (r: Self)
        ensures
            r.0 == val,
    {
        BlockCItemIdx(val)
    }

    /// The position right after this one.
    pub fn next(self) -> (r: Self)
        requires
            self.0 < u32::MAX,
        ensures
            r.0 == self.0 + 1,
    {
        BlockCItemIdx(self.0 + 1)
    }

    /// The position as a number.
    pub fn value(self) -> (r: u32)
        ensures
            r == self.0,
    {
        self.0
    }
}

impl Default for BlockCItemIdx {
    /// The first position of a block.
    fn default() -> (r: Self)
        ensures
            r.0 == 0,
    {
        BlockCItemIdx(0)
    }
}

} // verus!
