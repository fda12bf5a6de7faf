//! The [HexCell]: a cell of an unbounded board of hexagons, as used for
//! example by the game Hive.
use vstd::prelude::*;

verus! {

/// A cell of a board of hexagons in cube coordinates (q, r, s), which always
/// add up to zero: two of them fix the cell.
#[derive(Default, Debug, PartialEq, Eq, Structural)]
pub struct HexCell {
    pub q: i32,
    pub r: i32,
    pub s: i32,
}

impl HexCell {
    /// The cell at the origin, (0, 0, 0).
    pub fn new() -> (h: HexCell)
        ensures
            h.q == 0 && h.r == 0 && h.s == 0,
    {
        HexCell { q: 0, r: 0, s: 0 }
    }

    /// Moves the cell to (q, r, -q-r).
    pub fn set(&mut self, q: i32, r: i32)
        requires
            i32::MIN <= -(q as int) - (r as int) <= i32::MAX,
        ensures
            final(self).q == q,
            final(self).r == r,
            final(self).s == -(q as int) - (r as int),
    {
        self.q = q;
        self.r = r;
        let s: i64 = -(q as i64) - (r as i64);
        self.s = s as i32;
    }
}

} // verus!
