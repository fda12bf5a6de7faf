//! The [BitBoard]: a set of cells of an 8x8 board held in one 64-bit word.
use vstd::prelude::*;

use crate::bbdefines::{
    antidiag_cells, bit, diag_cells, file_cells, lemma_antidiags_bbs, lemma_diags_bbs,
    lemma_files_bbs, lemma_ranks_bbs, mask_cells, rank_cells, single_cell, single_mask, to_cell,
    AntiDiagonal, BitBoardState, Cell, Diagonal, File, Rank, ANTIDIAGS_BBS, DIAGS_BBS, EMPTY_STATE,
    FILES_BBS, RANKS_BBS,
};

verus! {

broadcast use crate::bbdefines::group_mask_algebra;

/// A set of cells of an 8x8 board: bit `i` of `state` is set when the cell of
/// index `i` (A1 = 0, B1 = 1, ..., H8 = 63) is active. A bitboard can stand for
/// the cells occupied by pieces, the cells they attack, the targets of their
/// moves, and so on.
#[derive(Default, Debug, Copy, Clone, PartialEq, Eq, Structural)]
pub struct BitBoard {
    pub state: BitBoardState,
}

impl View for BitBoard {
    type V = Set<Cell>;

    /// The active cells.
    open spec fn view(&self) -> Set<Cell> {
        mask_cells(self.state)
    }
}

/// The active cells of `s` whose index is below `n`.
pub open spec fn cells_below(s: u64, n: int) -> Set<Cell> {
    Set::new(|c: Cell| (c as int) < n && bit(s, c as u64))
}

/// The number of bits of `s` set below index `n`.
pub open spec fn count_bits(s: u64, n: int) -> nat
    decreases n,
{
    if n <= 0 {
        0
    } else {
        count_bits(s, n - 1) + if bit(s, (n - 1) as u64) {
            1nat
        } else {
            0nat
        }
    }
}

proof fn lemma_cell_from_int(i: int)
    requires
        0 <= i < 64,
    ensures
        Cell::from_int(i) as int == i,
{
}

proof fn lemma_count_bits(s: u64, n: int)
    requires
        0 <= n <= 64,
    ensures
        cells_below(s, n).finite(),
        cells_below(s, n).len() == count_bits(s, n),
    decreases n,
{
    if n == 0 {
        assert(cells_below(s, n) =~= Set::<Cell>::empty());
    } else {
        lemma_count_bits(s, n - 1);
        let c = Cell::from_int(n - 1);
        lemma_cell_from_int(n - 1);
        if bit(s, (n - 1) as u64) {
            assert(cells_below(s, n) =~= cells_below(s, n - 1).insert(c));
        } else {
            assert(cells_below(s, n) =~= cells_below(s, n - 1));
        }
    }
}

/// The active cells of a bitboard are finitely many, and as many as the bits
/// set in its state.
pub proof fn lemma_view_len(b: BitBoard)
    ensures
        b@.finite(),
        b@.len() == count_bits(b.state, 64),
{
    lemma_count_bits(b.state, 64);
    assert(cells_below(b.state, 64) =~= b@);
}

proof fn lemma_obtain_bit(a: u64, hi: u64) -> (i: u64)
    requires
        a != 0,
        hi <= 64,
        a >> hi == 0,
    ensures
        i < hi,
        bit(a, i),
    decreases hi,
{
    assert(hi != 0 && (a & 1 != 1 ==> (a >> 1) != 0 && (a >> 1) >> ((hi - 1) as u64) == 0)) by (bit_vector)
        requires
            a != 0,
            hi <= 64,
            a >> hi == 0,
    ;
    if a & 1 == 1 {
        assert(bit(a, 0)) by (bit_vector)
            requires
                a & 1 == 1,
        ;
        0
    } else {
        let j = lemma_obtain_bit(a >> 1, (hi - 1) as u64);
        assert(bit(a, (j + 1) as u64)) by (bit_vector)
            requires
                bit(a >> 1, j),
                j < 63,
        ;
        (j + 1) as u64
    }
}

/// A bitboard whose state is not zero has an active cell.
pub proof fn lemma_nonzero_has_cell(b: BitBoard)
    requires
        b.state != 0,
    ensures
        b@ != Set::<Cell>::empty(),
{
    let s = b.state;
    assert(s >> 64u64 == 0) by (bit_vector);
    let i = lemma_obtain_bit(s, 64);
    let c = Cell::from_int(i as int);
    lemma_cell_from_int(i as int);
    assert(b@.contains(c));
}

impl BitBoard {
    /// An empty bitboard.
    pub fn new() -> (bb: BitBoard)
        ensures
            bb.state == EMPTY_STATE,
            bb@ == Set::<Cell>::empty(),
    {
        BitBoard { state: EMPTY_STATE }
    }

    /// A bitboard whose active cells are those of the slice.
    pub fn from_cells(cells: &[Cell]) -> (bb: BitBoard)
        ensures
            bb@ == cells@.to_set(),
    {
        let mut bb = BitBoard::new();
        bb.set_cells(cells);
        assert(bb@ =~= cells@.to_set());
        bb
    }

    /// Returns `true` if no cell is active.
    pub fn is_empty(&self) -> (r: bool)
        ensures
            r == (self@ == Set::<Cell>::empty()),
            r == (self.state == EMPTY_STATE),
    {
        if self.state == EMPTY_STATE {
            true
        } else {
            proof {
                lemma_nonzero_has_cell(*self);
            }
            false
        }
    }

    /// Sets a cell to the active state.
    pub fn set_cell(&mut self, c: Cell)
        ensures
            final(self)@ == old(self)@.insert(c),
            final(self).state == old(self).state | single_mask(c),
    {
        self.state = self.state | single_cell(c);
        assert(self@ =~= old(self)@.insert(c));
    }

    /// Resets a cell to the free state.
    pub fn reset_cell(&mut self, c: Cell)
        ensures
            final(self)@ == old(self)@.remove(c),
            final(self).state == old(self).state & !single_mask(c),
    {
        self.state = self.state & !single_cell(c);
        assert(self@ =~= old(self)@.remove(c));
    }

    /// Sets all the cells of a rank to the active state.
    pub fn set_rank(&mut self, r: Rank)
        ensures
            final(self)@ == old(self)@ + rank_cells(r as int),
    {
        proof {
            lemma_ranks_bbs(r as int);
        }
        self.state = self.state | RANKS_BBS[r as usize];
    }

    /// Resets all the cells of a rank to the free state.
    pub fn reset_rank(&mut self, r: Rank)
        ensures
            final(self)@ == old(self)@ - rank_cells(r as int),
    {
        proof {
            lemma_ranks_bbs(r as int);
        }
        self.state = self.state & !RANKS_BBS[r as usize];
        assert(self@ =~= old(self)@ - rank_cells(r as int));
    }

    /// Sets all the cells of a file to the active state.
    pub fn set_file(&mut self, f: File)
        ensures
            final(self)@ == old(self)@ + file_cells(f as int),
    {
        proof {
            lemma_files_bbs(f as int);
        }
        self.state = self.state | FILES_BBS[f as usize];
    }

    /// Resets all the cells of a file to the free state.
    pub fn reset_file(&mut self, f: File)
        ensures
            final(self)@ == old(self)@ - file_cells(f as int),
    {
        proof {
            lemma_files_bbs(f as int);
        }
        self.state = self.state & !FILES_BBS[f as usize];
        assert(self@ =~= old(self)@ - file_cells(f as int));
    }

    /// Sets all the cells of a diagonal to the active state.
    pub fn set_diagonal(&mut self, d: Diagonal)
        ensures
            final(self)@ == old(self)@ + diag_cells(d as int),
    {
        proof {
            lemma_diags_bbs(d as int);
        }
        self.state = self.state | DIAGS_BBS[d as usize];
    }

    /// Sets all the cells of an anti-diagonal to the active state.
    pub fn set_antidiagonal(&mut self, d: AntiDiagonal)
        ensures
            final(self)@ == old(self)@ + antidiag_cells(d as int),
    {
        proof {
            lemma_antidiags_bbs(d as int);
        }
        self.state = self.state | ANTIDIAGS_BBS[d as usize];
    }

    /// Sets all the cells of the slice to the active state.
    pub fn set_cells(&mut self, cells: &[Cell])
        ensures
            final(self)@ == old(self)@ + cells@.to_set(),
    {
        let mut i: usize = 0;
        while i < cells.len()
            invariant
                i <= cells@.len(),
                self@ == old(self)@ + cells@.take(i as int).to_set(),
            decreases cells@.len() - i,
        {
            let c = cells[i];
            self.set_cell(c);
            assert(cells@.take(i + 1) == cells@.take(i as int).push(c));
            assert(cells@.take(i + 1).to_set() =~= cells@.take(i as int).to_set().insert(c)) by {
                assert(cells@.take(i + 1)[i as int] == c);
            }
            assert(self@ =~= old(self)@ + cells@.take(i + 1).to_set());
            i = i + 1;
        }
        assert(cells@.take(i as int) == cells@);
    }

    /// Returns `true` if the cell is active.
    pub fn cell_is_active(&self, c: Cell) -> (r: bool)
        ensures
            r == self@.contains(c),
    {
        (self.state >> (c as u64)) & 1 == 1
    }

    /// Sets the cell at the crossing of a file and a rank to the active state.
    pub fn set_cell_from_file_and_rank(&mut self, f: File, r: Rank)
        ensures
            final(self)@ == old(self)@.insert(to_cell(f, r)),
    {
        self.set_cell(to_cell(f, r));
    }

    /// Resets the cell at the crossing of a file and a rank to the free state.
    pub fn reset_cell_from_file_and_rank(&mut self, f: File, r: Rank)
        ensures
            final(self)@ == old(self)@.remove(to_cell(f, r)),
    {
        self.reset_cell(to_cell(f, r));
    }

    /// Resets all the cells of the slice to the free state.
    pub fn reset_cells(&mut self, cells: &[Cell])
        ensures
            final(self)@ == old(self)@ - cells@.to_set(),
    {
        let mut i: usize = 0;
        while i < cells.len()
            invariant
                i <= cells@.len(),
                self@ == old(self)@ - cells@.take(i as int).to_set(),
            decreases cells@.len() - i,
        {
            let c = cells[i];
            self.reset_cell(c);
            assert(cells@.take(i + 1) == cells@.take(i as int).push(c));
            assert(cells@.take(i + 1).to_set() =~= cells@.take(i as int).to_set().insert(c)) by {
                assert(cells@.take(i + 1)[i as int] == c);
            }
            assert(self@ =~= old(self)@ - cells@.take(i + 1).to_set());
            i = i + 1;
        }
        assert(cells@.take(i as int) == cells@);
    }

    /// The number of active cells.
    pub fn pop_count(&self) -> (n: usize)
        ensures
            n == self@.len(),
            n == count_bits(self.state, 64),
            n <= 64,
    {
        let mut cnt: usize = 0;
        let mut i: u64 = 0;
        while i < 64
            invariant
                i <= 64,
                cnt <= i,
                cnt == count_bits(self.state, i as int),
            decreases 64 - i,
        {
            if (self.state >> i) & 1 == 1 {
                cnt = cnt + 1;
            }
            i = i + 1;
        }
        proof {
            lemma_view_len(*self);
        }
        cnt
    }

    /// Resets every cell to the free state.
    pub fn clear(&mut self)
        ensures
            final(self).state == EMPTY_STATE,
            final(self)@ == Set::<Cell>::empty(),
    {
        self.state = EMPTY_STATE;
    }

    /// The active cell when exactly one cell is active; `None` when no cell
    /// or more than one cell is active.
    pub fn active_cell(&self) -> (r: Option<Cell>)
        ensures
            match r {
                Some(c) => self@ == set![c],
                None => self@.len() != 1,
            },
    {
        if self.pop_count() != 1 {
            return None;
        }
        proof {
            lemma_view_len(*self);
        }
        let mut i: usize = 0;
        while i < 64
            invariant
                i <= 64,
                self@.finite(),
                self@.len() == 1,
                forall|d: Cell| (d as int) < i ==> !#[trigger] self@.contains(d),
            decreases 64 - i,
        {
            let c = Cell::from_index(i);
            if self.cell_is_active(c) {
                assert forall|d: Cell| #[trigger] self@.contains(d) implies d == c by {
                    if d != c {
                        assert(set![c, d].subset_of(self@));
                        vstd::set_lib::lemma_len_subset(set![c, d], self@);
                    }
                }
                assert(self@ =~= set![c]);
                return Some(c);
            }
            i = i + 1;
        }
        assert(self@ =~= Set::<Cell>::empty());
        None
    }
}

/// A bitboard whose state is the given mask.
impl From<BitBoardState> for BitBoard {
    fn from(mask: BitBoardState) -> (bb: BitBoard) {
        BitBoard { state: mask }
    }
}

impl vstd::std_specs::convert::FromSpecImpl<BitBoardState> for BitBoard {
    open spec fn obeys_from_spec() -> bool {
        true
    }

    open spec fn from_spec(mask: BitBoardState) -> BitBoard {
        BitBoard { state: mask }
    }
}

/// The union of two bitboards.
impl core::ops::BitOr for BitBoard {
    type Output = BitBoard;

    fn bitor(self, rhs: BitBoard) -> (bb: BitBoard) {
        BitBoard { state: self.state | rhs.state }
    }
}

impl vstd::std_specs::ops::BitOrSpecImpl for BitBoard {
    open spec fn obeys_bitor_spec() -> bool {
        true
    }

    open spec fn bitor_req(self, rhs: BitBoard) -> bool {
        true
    }

    open spec fn bitor_spec(self, rhs: BitBoard) -> BitBoard {
        BitBoard { state: self.state | rhs.state }
    }
}

/// The union of two bitboards, in place.
impl core::ops::BitOrAssign for BitBoard {
    fn bitor_assign(&mut self, rhs: BitBoard) {
        self.state = self.state | rhs.state;
    }
}

/// The intersection of two bitboards.
impl core::ops::BitAnd for BitBoard {
    type Output = BitBoard;

    fn bitand(self, rhs: BitBoard) -> (bb: BitBoard) {
        BitBoard { state: self.state & rhs.state }
    }
}

impl vstd::std_specs::ops::BitAndSpecImpl for BitBoard {
    open spec fn obeys_bitand_spec() -> bool {
        true
    }

    open spec fn bitand_req(self, rhs: BitBoard) -> bool {
        true
    }

    open spec fn bitand_spec(self, rhs: BitBoard) -> BitBoard {
        BitBoard { state: self.state & rhs.state }
    }
}

/// The intersection of two bitboards, in place.
impl core::ops::BitAndAssign for BitBoard {
    fn bitand_assign(&mut self, rhs: BitBoard) {
        self.state = self.state & rhs.state;
    }
}

/// The symmetric difference of two bitboards.
impl core::ops::BitXor for BitBoard {
    type Output = BitBoard;

    fn bitxor(self, rhs: BitBoard) -> (bb: BitBoard) {
        BitBoard { state: self.state ^ rhs.state }
    }
}

impl vstd::std_specs::ops::BitXorSpecImpl for BitBoard {
    open spec fn obeys_bitxor_spec() -> bool {
        true
    }

    open spec fn bitxor_req(self, rhs: BitBoard) -> bool {
        true
    }

    open spec fn bitxor_spec(self, rhs: BitBoard) -> BitBoard {
        BitBoard { state: self.state ^ rhs.state }
    }
}

/// The symmetric difference of two bitboards, in place.
impl core::ops::BitXorAssign for BitBoard {
    fn bitxor_assign(&mut self, rhs: BitBoard) {
        self.state = self.state ^ rhs.state;
    }
}

// ----------------------------------------------------------------------------
// Laws of bitboards

/// A bitboard has no active cell exactly when it counts zero active cells.
pub proof fn lemma_pop_count_zero_iff_empty(b: BitBoard)
    ensures
        (b@.len() == 0) == (b@ == Set::<Cell>::empty()),
{
    lemma_view_len(b);
    vstd::set_lib::lemma_set_empty_equivalency_len(b@);
}

/// Setting a cell twice does what setting it once does, and resetting a
/// cell just set on an empty bitboard leaves it empty.
pub proof fn lemma_set_cell_idempotent(b: BitBoard, c: Cell)
    ensures
        b@.insert(c).insert(c) == b@.insert(c),
        (b.state | single_mask(c)) | single_mask(c) == b.state | single_mask(c),
        Set::<Cell>::empty().insert(c).remove(c) == Set::<Cell>::empty(),
        (0u64 | single_mask(c)) & !single_mask(c) == 0u64,
{
    let s = b.state;
    let m = single_mask(c);
    assert((s | m) | m == s | m && (0u64 | m) & !m == 0u64) by (bit_vector);
    assert(b@.insert(c).insert(c) =~= b@.insert(c));
    assert(Set::<Cell>::empty().insert(c).remove(c) =~= Set::<Cell>::empty());
}

} // verus!
