//! Cells, files, ranks, diagonals and anti-diagonals of an 8x8 board, the
//! geometry that relates them, and the 64-bit masks that stand for sets of
//! cells in a [BitBoard](crate::bitboard::BitBoard).
use vstd::prelude::*;
use vstd::string::{StrSliceExecFns, StringExecFns};

use crate::error::AbbaDingoError;

verus! {

/// The state of a bitboard: bit `i` is set when the cell of index `i` is active.
pub type BitBoardState = u64;

/// The state with no active cell.
pub const EMPTY_STATE: BitBoardState = 0;

/// The number of cells of an 8x8 board.
pub const NUM_CELLS: usize = 64;

/// The number of files of an 8x8 board.
pub const NUM_FILES: usize = 8;

/// The number of ranks of an 8x8 board.
pub const NUM_RANKS: usize = 8;

/// A vertical file (column) of an 8x8 board, from `FileA` (leftmost) to
/// `FileH` (rightmost); its index is 0 to 7.
#[derive(Debug, Clone, Copy, PartialEq, Eq, Structural, PartialOrd, Ord)]
pub enum File {
    FileA, FileB, FileC, FileD, FileE, FileF, FileG, FileH,
}

/// An horizontal rank (row) of an 8x8 board, from `Rank1` (bottom) to
/// `Rank8` (top); its index is 0 to 7.
#[derive(Debug, Clone, Copy, PartialEq, Eq, Structural)]
pub enum Rank {
    Rank1, Rank2, Rank3, Rank4, Rank5, Rank6, Rank7, Rank8,
}

/// The cells of an 8x8 board, from A1 (bottom left, index 0) to H8 (top
/// right, index 63): the index of a cell is `rank * 8 + file`.
#[derive(Debug, Clone, Copy, PartialEq, Eq, Structural)]
pub enum Cell {
    A1, B1, C1, D1, E1, F1, G1, H1,
    A2, B2, C2, D2, E2, F2, G2, H2,
    A3, B3, C3, D3, E3, F3, G3, H3,
    A4, B4, C4, D4, E4, F4, G4, H4,
    A5, B5, C5, D5, E5, F5, G5, H5,
    A6, B6, C6, D6, E6, F6, G6, H6,
    A7, B7, C7, D7, E7, F7, G7, H7,
    A8, B8, C8, D8, E8, F8, G8, H8,
}

/// A diagonal of an 8x8 board: `Diag0` is the single cell A8, `Diag7` the
/// main diagonal A1-H8, `Diag14` the single cell H1. A cell lies on the
/// diagonal `file - rank + 7`.
#[derive(Debug, Clone, Copy, PartialEq, Eq, Structural)]
pub enum Diagonal {
    Diag0,
    Diag1,
    Diag2,
    Diag3,
    Diag4,
    Diag5,
    Diag6,
    Diag7,
    Diag8,
    Diag9,
    Diag10,
    Diag11,
    Diag12,
    Diag13,
    Diag14,
}

/// An anti-diagonal of an 8x8 board: `AntiDiag0` is the single cell A1,
/// `AntiDiag7` the main anti-diagonal H1-A8, `AntiDiag14` the single cell H8.
/// A cell lies on the anti-diagonal `file + rank`.
#[derive(Debug, Clone, Copy, PartialEq, Eq, Structural)]
pub enum AntiDiagonal {
    AntiDiag0,
    AntiDiag1,
    AntiDiag2,
    AntiDiag3,
    AntiDiag4,
    AntiDiag5,
    AntiDiag6,
    AntiDiag7,
    AntiDiag8,
    AntiDiag9,
    AntiDiag10,
    AntiDiag11,
    AntiDiag12,
    AntiDiag13,
    AntiDiag14,
}

/// The mask of each file, indexed by the file's index.
pub const FILES_BBS: [BitBoardState; 8] = [
    0x0101010101010101,
    0x0202020202020202,
    0x0404040404040404,
    0x0808080808080808,
    0x1010101010101010,
    0x2020202020202020,
    0x4040404040404040,
    0x8080808080808080,
];

/// The mask of each rank, indexed by the rank's index.
pub const RANKS_BBS: [BitBoardState; 8] = [
    0x00000000000000FF,
    0x000000000000FF00,
    0x0000000000FF0000,
    0x00000000FF000000,
    0x000000FF00000000,
    0x0000FF0000000000,
    0x00FF000000000000,
    0xFF00000000000000,
];

/// The mask of each diagonal, indexed by the diagonal's index.
pub const DIAGS_BBS: [BitBoardState; 15] = [
    0x0100000000000000,
    0x0201000000000000,
    0x0402010000000000,
    0x0804020100000000,
    0x1008040201000000,
    0x2010080402010000,
    0x4020100804020100,
    0x8040201008040201,
    0x0080402010080402,
    0x0000804020100804,
    0x0000008040201008,
    0x0000000080402010,
    0x0000000000804020,
    0x0000000000008040,
    0x0000000000000080,
];

/// The mask of each anti-diagonal, indexed by the anti-diagonal's index.
pub const ANTIDIAGS_BBS: [BitBoardState; 15] = [
    0x0000000000000001,
    0x0000000000000102,
    0x0000000000010204,
    0x0000000001020408,
    0x0000000102040810,
    0x0000010204081020,
    0x0001020408102040,
    0x0102040810204080,
    0x0204081020408000,
    0x0408102040800000,
    0x0810204080000000,
    0x1020408000000000,
    0x2040800000000000,
    0x4080000000000000,
    0x8000000000000000,
];

impl File {
    /// The file whose index is `i` (the last one for an index out of range).
    pub open spec fn from_int(i: int) -> File {
        match i as u8 {
            0 => File::FileA,
            1 => File::FileB,
            2 => File::FileC,
            3 => File::FileD,
            4 => File::FileE,
            5 => File::FileF,
            6 => File::FileG,
            _ => File::FileH,
        }
    }

    /// The file whose index is `i`.
    pub fn from_index(i: usize) -> (r: File)
        requires
            i < 8,
        ensures
            r == File::from_int(i as int),
            r as int == i,
    {
        match i {
            0 => File::FileA,
            1 => File::FileB,
            2 => File::FileC,
            3 => File::FileD,
            4 => File::FileE,
            5 => File::FileF,
            6 => File::FileG,
            _ => File::FileH,
        }
    }
}

impl Rank {
    /// The rank whose index is `i` (the last one for an index out of range).
    pub open spec fn from_int(i: int) -> Rank {
        match i as u8 {
            0 => Rank::Rank1,
            1 => Rank::Rank2,
            2 => Rank::Rank3,
            3 => Rank::Rank4,
            4 => Rank::Rank5,
            5 => Rank::Rank6,
            6 => Rank::Rank7,
            _ => Rank::Rank8,
        }
    }

    /// The rank whose index is `i`.
    pub fn from_index(i: usize) -> (r: Rank)
        requires
            i < 8,
        ensures
            r == Rank::from_int(i as int),
            r as int == i,
    {
        match i {
            0 => Rank::Rank1,
            1 => Rank::Rank2,
            2 => Rank::Rank3,
            3 => Rank::Rank4,
            4 => Rank::Rank5,
            5 => Rank::Rank6,
            6 => Rank::Rank7,
            _ => Rank::Rank8,
        }
    }
}

impl Cell {
    /// The cell whose index is `i` (the last one for an index out of range).
    pub open spec fn from_int(i: int) -> Cell {
        match i as u8 {
            0 => Cell::A1,
            1 => Cell::B1,
            2 => Cell::C1,
            3 => Cell::D1,
            4 => Cell::E1,
            5 => Cell::F1,
            6 => Cell::G1,
            7 => Cell::H1,
            8 => Cell::A2,
            9 => Cell::B2,
            10 => Cell::C2,
            11 => Cell::D2,
            12 => Cell::E2,
            13 => Cell::F2,
            14 => Cell::G2,
            15 => Cell::H2,
            16 => Cell::A3,
            17 => Cell::B3,
            18 => Cell::C3,
            19 => Cell::D3,
            20 => Cell::E3,
            21 => Cell::F3,
            22 => Cell::G3,
            23 => Cell::H3,
            24 => Cell::A4,
            25 => Cell::B4,
            26 => Cell::C4,
            27 => Cell::D4,
            28 => Cell::E4,
            29 => Cell::F4,
            30 => Cell::G4,
            31 => Cell::H4,
            32 => Cell::A5,
            33 => Cell::B5,
            34 => Cell::C5,
            35 => Cell::D5,
            36 => Cell::E5,
            37 => Cell::F5,
            38 => Cell::G5,
            39 => Cell::H5,
            40 => Cell::A6,
            41 => Cell::B6,
            42 => Cell::C6,
            43 => Cell::D6,
            44 => Cell::E6,
            45 => Cell::F6,
            46 => Cell::G6,
            47 => Cell::H6,
            48 => Cell::A7,
            49 => Cell::B7,
            50 => Cell::C7,
            51 => Cell::D7,
            52 => Cell::E7,
            53 => Cell::F7,
            54 => Cell::G7,
            55 => Cell::H7,
            56 => Cell::A8,
            57 => Cell::B8,
            58 => Cell::C8,
            59 => Cell::D8,
            60 => Cell::E8,
            61 => Cell::F8,
            62 => Cell::G8,
            _ => Cell::H8,
        }
    }

    /// The cell whose index is `i`.
    pub fn from_index(i: usize) -> (r: Cell)
        requires
            i < 64,
        ensures
            r == Cell::from_int(i as int),
            r as int == i,
    {
        match i {
            0 => Cell::A1,
            1 => Cell::B1,
            2 => Cell::C1,
            3 => Cell::D1,
            4 => Cell::E1,
            5 => Cell::F1,
            6 => Cell::G1,
            7 => Cell::H1,
            8 => Cell::A2,
            9 => Cell::B2,
            10 => Cell::C2,
            11 => Cell::D2,
            12 => Cell::E2,
            13 => Cell::F2,
            14 => Cell::G2,
            15 => Cell::H2,
            16 => Cell::A3,
            17 => Cell::B3,
            18 => Cell::C3,
            19 => Cell::D3,
            20 => Cell::E3,
            21 => Cell::F3,
            22 => Cell::G3,
            23 => Cell::H3,
            24 => Cell::A4,
            25 => Cell::B4,
            26 => Cell::C4,
            27 => Cell::D4,
            28 => Cell::E4,
            29 => Cell::F4,
            30 => Cell::G4,
            31 => Cell::H4,
            32 => Cell::A5,
            33 => Cell::B5,
            34 => Cell::C5,
            35 => Cell::D5,
            36 => Cell::E5,
            37 => Cell::F5,
            38 => Cell::G5,
            39 => Cell::H5,
            40 => Cell::A6,
            41 => Cell::B6,
            42 => Cell::C6,
            43 => Cell::D6,
            44 => Cell::E6,
            45 => Cell::F6,
            46 => Cell::G6,
            47 => Cell::H6,
            48 => Cell::A7,
            49 => Cell::B7,
            50 => Cell::C7,
            51 => Cell::D7,
            52 => Cell::E7,
            53 => Cell::F7,
            54 => Cell::G7,
            55 => Cell::H7,
            56 => Cell::A8,
            57 => Cell::B8,
            58 => Cell::C8,
            59 => Cell::D8,
            60 => Cell::E8,
            61 => Cell::F8,
            62 => Cell::G8,
            _ => Cell::H8,
        }
    }
}

impl Diagonal {
    /// The diagonal whose index is `i` (the last one for an index out of range).
    pub open spec fn from_int(i: int) -> Diagonal {
        match i as u8 {
            0 => Diagonal::Diag0,
            1 => Diagonal::Diag1,
            2 => Diagonal::Diag2,
            3 => Diagonal::Diag3,
            4 => Diagonal::Diag4,
            5 => Diagonal::Diag5,
            6 => Diagonal::Diag6,
            7 => Diagonal::Diag7,
            8 => Diagonal::Diag8,
            9 => Diagonal::Diag9,
            10 => Diagonal::Diag10,
            11 => Diagonal::Diag11,
            12 => Diagonal::Diag12,
            13 => Diagonal::Diag13,
            _ => Diagonal::Diag14,
        }
    }

    /// The diagonal whose index is `i`.
    pub fn from_index(i: usize) -> (r: Diagonal)
        requires
            i < 15,
        ensures
            r == Diagonal::from_int(i as int),
            r as int == i,
    {
        match i {
            0 => Diagonal::Diag0,
            1 => Diagonal::Diag1,
            2 => Diagonal::Diag2,
            3 => Diagonal::Diag3,
            4 => Diagonal::Diag4,
            5 => Diagonal::Diag5,
            6 => Diagonal::Diag6,
            7 => Diagonal::Diag7,
            8 => Diagonal::Diag8,
            9 => Diagonal::Diag9,
            10 => Diagonal::Diag10,
            11 => Diagonal::Diag11,
            12 => Diagonal::Diag12,
            13 => Diagonal::Diag13,
            _ => Diagonal::Diag14,
        }
    }
}

impl AntiDiagonal {
    /// The anti-diagonal whose index is `i` (the last one for an index out of range).
    pub open spec fn from_int(i: int) -> AntiDiagonal {
        match i as u8 {
            0 => AntiDiagonal::AntiDiag0,
            1 => AntiDiagonal::AntiDiag1,
            2 => AntiDiagonal::AntiDiag2,
            3 => AntiDiagonal::AntiDiag3,
            4 => AntiDiagonal::AntiDiag4,
            5 => AntiDiagonal::AntiDiag5,
            6 => AntiDiagonal::AntiDiag6,
            7 => AntiDiagonal::AntiDiag7,
            8 => AntiDiagonal::AntiDiag8,
            9 => AntiDiagonal::AntiDiag9,
            10 => AntiDiagonal::AntiDiag10,
            11 => AntiDiagonal::AntiDiag11,
            12 => AntiDiagonal::AntiDiag12,
            13 => AntiDiagonal::AntiDiag13,
            _ => AntiDiagonal::AntiDiag14,
        }
    }

    /// The anti-diagonal whose index is `i`.
    pub fn from_index(i: usize) -> (r: AntiDiagonal)
        requires
            i < 15,
        ensures
            r == AntiDiagonal::from_int(i as int),
            r as int == i,
    {
        match i {
            0 => AntiDiagonal::AntiDiag0,
            1 => AntiDiagonal::AntiDiag1,
            2 => AntiDiagonal::AntiDiag2,
            3 => AntiDiagonal::AntiDiag3,
            4 => AntiDiagonal::AntiDiag4,
            5 => AntiDiagonal::AntiDiag5,
            6 => AntiDiagonal::AntiDiag6,
            7 => AntiDiagonal::AntiDiag7,
            8 => AntiDiagonal::AntiDiag8,
            9 => AntiDiagonal::AntiDiag9,
            10 => AntiDiagonal::AntiDiag10,
            11 => AntiDiagonal::AntiDiag11,
            12 => AntiDiagonal::AntiDiag12,
            13 => AntiDiagonal::AntiDiag13,
            _ => AntiDiagonal::AntiDiag14,
        }
    }
}
// ----------------------------------------------------------------------------
// Masks as sets of cells

/// Whether bit `i` of the mask `m` is set.
pub open spec fn bit(m: u64, i: u64) -> bool {
    (m >> i) & 1u64 == 1u64
}

/// The cells whose bit is set in the mask `m`.
pub open spec fn mask_cells(m: u64) -> Set<Cell> {
    Set::new(|c: Cell| bit(m, c as u64))
}

proof fn lemma_bit_ops(a: u64, b: u64, i: u64)
    by (bit_vector)
    requires
        i < 64,
    ensures
        bit(a | b, i) == (bit(a, i) || bit(b, i)),
        bit(a & b, i) == (bit(a, i) && bit(b, i)),
        bit(a ^ b, i) == (bit(a, i) != bit(b, i)),
        bit(!a, i) == !bit(a, i),
        !bit(0u64, i),
        b < 64 ==> (bit(1u64 << b, i) == (i == b)),
{
}

/// A union of masks holds the union of their cells.
pub broadcast proof fn lemma_mask_or(a: u64, b: u64)
    ensures
        #[trigger] mask_cells(a | b) == mask_cells(a) + mask_cells(b),
{
    assert forall|c: Cell| #[trigger] mask_cells(a | b).contains(c) == (mask_cells(a) + mask_cells(b)).contains(c) by {
        lemma_bit_ops(a, b, c as u64);
    }
    assert(mask_cells(a | b) =~= mask_cells(a) + mask_cells(b));
}

/// An intersection of masks holds the intersection of their cells.
pub broadcast proof fn lemma_mask_and(a: u64, b: u64)
    ensures
        #[trigger] mask_cells(a & b) == mask_cells(a) * mask_cells(b),
{
    assert forall|c: Cell| #[trigger] mask_cells(a & b).contains(c) == (mask_cells(a) * mask_cells(b)).contains(c) by {
        lemma_bit_ops(a, b, c as u64);
    }
    assert(mask_cells(a & b) =~= mask_cells(a) * mask_cells(b));
}

/// A symmetric difference of masks holds the cells that are in exactly one of them.
pub broadcast proof fn lemma_mask_xor(a: u64, b: u64)
    ensures
        #[trigger] mask_cells(a ^ b) == (mask_cells(a) - mask_cells(b)) + (mask_cells(b) - mask_cells(a)),
{
    assert forall|c: Cell| #[trigger] mask_cells(a ^ b).contains(c) == ((mask_cells(a) - mask_cells(b)) + (mask_cells(b) - mask_cells(a))).contains(c) by {
        lemma_bit_ops(a, b, c as u64);
    }
    assert(mask_cells(a ^ b) =~= (mask_cells(a) - mask_cells(b)) + (mask_cells(b) - mask_cells(a)));
}

/// The complement of a mask holds the cells that are not in it.
pub broadcast proof fn lemma_mask_not(a: u64)
    ensures
        #[trigger] mask_cells(!a) == mask_cells(a).complement(),
{
    assert forall|c: Cell| #[trigger] mask_cells(!a).contains(c) == mask_cells(a).complement().contains(c) by {
        lemma_bit_ops(a, 0, c as u64);
    }
    assert(mask_cells(!a) =~= mask_cells(a).complement());
}

/// The mask with no bit set holds no cell.
pub broadcast proof fn lemma_mask_zero()
    ensures
        #[trigger] mask_cells(0u64) == Set::<Cell>::empty(),
{
    assert forall|c: Cell| !#[trigger] mask_cells(0u64).contains(c) by {
        lemma_bit_ops(0, 0, c as u64);
    }
    assert(mask_cells(0u64) =~= Set::<Cell>::empty());
}

/// The mask with the single bit of a cell set.
pub open spec fn single_mask(c: Cell) -> u64 {
    1u64 << (c as u64)
}

/// The mask with the single bit of a cell set holds that cell alone.
pub broadcast proof fn lemma_mask_single(c: Cell)
    ensures
        #[trigger] mask_cells(single_mask(c)) == set![c],
{
    let m = single_mask(c);
    assert forall|d: Cell| #[trigger] mask_cells(m).contains(d) == (d == c) by {
        lemma_bit_ops(0, c as u64, d as u64);
    }
    assert(mask_cells(m) =~= set![c]);
}

pub broadcast group group_mask_algebra {
    lemma_mask_or,
    lemma_mask_and,
    lemma_mask_xor,
    lemma_mask_not,
    lemma_mask_zero,
    lemma_mask_single,
}

// ----------------------------------------------------------------------------
// Coordinates

/// The index (0 to 7) of the file of a cell.
pub open spec fn file_of(c: Cell) -> int {
    c as int % 8
}

/// The index (0 to 7) of the rank of a cell.
pub open spec fn rank_of(c: Cell) -> int {
    c as int / 8
}

/// Whether a file index and a rank index both lie on the board.
pub open spec fn on_board(f: int, r: int) -> bool {
    0 <= f < 8 && 0 <= r < 8
}

/// The cell of file index `f` and rank index `r`.
pub open spec fn cell_at(f: int, r: int) -> Cell {
    Cell::from_int(r * 8 + f)
}

/// The cell reached from `c` after `dn` steps north and `de` steps east
/// (south and west for negative steps), or `None` off the board.
pub open spec fn step_from(c: Cell, dn: int, de: int) -> Option<Cell> {
    if on_board(file_of(c) + de, rank_of(c) + dn) {
        Some(cell_at(file_of(c) + de, rank_of(c) + dn))
    } else {
        None
    }
}

pub open spec fn spec_to_cell(f: File, r: Rank) -> Cell {
    cell_at(f as int, r as int)
}

/// Given a [File] and a [Rank], returns the [Cell] at their crossing.
#[verifier::when_used_as_spec(spec_to_cell)]
pub fn to_cell(f: File, r: Rank) -> (c: Cell)
    ensures
        c == spec_to_cell(f, r),
        c as int == r as int * 8 + f as int,
{
    Cell::from_index(r as usize * 8 + f as usize)
}

pub open spec fn spec_file(c: Cell) -> File {
    File::from_int(file_of(c))
}

/// Given a [Cell], returns its [File].
#[verifier::when_used_as_spec(spec_file)]
pub fn file(c: Cell) -> (f: File)
    ensures
        f == spec_file(c),
        f as int == file_of(c),
{
    File::from_index(c as usize % 8)
}

pub open spec fn spec_rank(c: Cell) -> Rank {
    Rank::from_int(rank_of(c))
}

/// Given a [Cell], returns its [Rank].
#[verifier::when_used_as_spec(spec_rank)]
pub fn rank(c: Cell) -> (r: Rank)
    ensures
        r == spec_rank(c),
        r as int == rank_of(c),
{
    Rank::from_index(c as usize / 8)
}

/// Given a [Cell], returns its ([File], [Rank]) pair.
pub fn coords(c: Cell) -> (fr: (File, Rank))
    ensures
        fr == (spec_file(c), spec_rank(c)),
{
    (file(c), rank(c))
}

pub open spec fn spec_diagonal(c: Cell) -> Diagonal {
    Diagonal::from_int(file_of(c) - rank_of(c) + 7)
}

/// Given a [Cell], returns its [Diagonal] (`file - rank + 7`).
#[verifier::when_used_as_spec(spec_diagonal)]
pub fn diagonal(c: Cell) -> (d: Diagonal)
    ensures
        d == spec_diagonal(c),
        d as int == file_of(c) - rank_of(c) + 7,
{
    Diagonal::from_index(c as usize % 8 + 7 - c as usize / 8)
}

pub open spec fn spec_anti_diagonal(c: Cell) -> AntiDiagonal {
    AntiDiagonal::from_int(file_of(c) + rank_of(c))
}

/// Given a [Cell], returns its [AntiDiagonal] (`file + rank`).
#[verifier::when_used_as_spec(spec_anti_diagonal)]
pub fn anti_diagonal(c: Cell) -> (d: AntiDiagonal)
    ensures
        d == spec_anti_diagonal(c),
        d as int == file_of(c) + rank_of(c),
{
    AntiDiagonal::from_index(c as usize % 8 + c as usize / 8)
}

/// Given a [Cell], returns its ([Diagonal], [AntiDiagonal]) pair.
pub fn diags(c: Cell) -> (d: (Diagonal, AntiDiagonal))
    ensures
        d == (spec_diagonal(c), spec_anti_diagonal(c)),
{
    (diagonal(c), anti_diagonal(c))
}

pub open spec fn spec_west(c: Cell) -> Option<File> {
    if file_of(c) == 0 {
        None
    } else {
        Some(File::from_int(file_of(c) - 1))
    }
}

/// The file west of a cell, or `None` for a cell of file A.
#[verifier::when_used_as_spec(spec_west)]
pub fn west(c: Cell) -> (f: Option<File>)
    ensures
        f == spec_west(c),
{
    let fi = c as usize % 8;
    if fi == 0 {
        None
    } else {
        Some(File::from_index(fi - 1))
    }
}

pub open spec fn spec_east(c: Cell) -> Option<File> {
    if file_of(c) == 7 {
        None
    } else {
        Some(File::from_int(file_of(c) + 1))
    }
}

/// The file east of a cell, or `None` for a cell of file H.
#[verifier::when_used_as_spec(spec_east)]
pub fn east(c: Cell) -> (f: Option<File>)
    ensures
        f == spec_east(c),
{
    let fi = c as usize % 8;
    if fi == 7 {
        None
    } else {
        Some(File::from_index(fi + 1))
    }
}

pub open spec fn spec_south(c: Cell) -> Option<Rank> {
    if rank_of(c) == 0 {
        None
    } else {
        Some(Rank::from_int(rank_of(c) - 1))
    }
}

/// The rank south of a cell, or `None` for a cell of rank 1.
#[verifier::when_used_as_spec(spec_south)]
pub fn south(c: Cell) -> (r: Option<Rank>)
    ensures
        r == spec_south(c),
{
    let ri = c as usize / 8;
    if ri == 0 {
        None
    } else {
        Some(Rank::from_index(ri - 1))
    }
}

pub open spec fn spec_north(c: Cell) -> Option<Rank> {
    if rank_of(c) == 7 {
        None
    } else {
        Some(Rank::from_int(rank_of(c) + 1))
    }
}

/// The rank north of a cell, or `None` for a cell of rank 8.
#[verifier::when_used_as_spec(spec_north)]
pub fn north(c: Cell) -> (r: Option<Rank>)
    ensures
        r == spec_north(c),
{
    let ri = c as usize / 8;
    if ri == 7 {
        None
    } else {
        Some(Rank::from_index(ri + 1))
    }
}

pub open spec fn spec_w(c: Cell) -> Option<Cell> {
    step_from(c, 0, -1)
}

/// The cell west of `c`, or `None` where that would leave the board.
#[verifier::when_used_as_spec(spec_w)]
pub fn w(c: Cell) -> (d: Option<Cell>)
    ensures
        d == spec_w(c),
{
    let fi = c as usize % 8;
    let ri = c as usize / 8;
    if fi > 0 {
        Some(Cell::from_index(c as usize - 1))
    } else {
        None
    }
}

pub open spec fn spec_nw(c: Cell) -> Option<Cell> {
    step_from(c, 1, -1)
}

/// The cell north-west of `c`, or `None` where that would leave the board.
#[verifier::when_used_as_spec(spec_nw)]
pub fn nw(c: Cell) -> (d: Option<Cell>)
    ensures
        d == spec_nw(c),
{
    let fi = c as usize % 8;
    let ri = c as usize / 8;
    if fi > 0 && ri < 7 {
        Some(Cell::from_index(c as usize + 7))
    } else {
        None
    }
}

pub open spec fn spec_n(c: Cell) -> Option<Cell> {
    step_from(c, 1, 0)
}

/// The cell north of `c`, or `None` where that would leave the board.
#[verifier::when_used_as_spec(spec_n)]
pub fn n(c: Cell) -> (d: Option<Cell>)
    ensures
        d == spec_n(c),
{
    let fi = c as usize % 8;
    let ri = c as usize / 8;
    if ri < 7 {
        Some(Cell::from_index(c as usize + 8))
    } else {
        None
    }
}

pub open spec fn spec_ne(c: Cell) -> Option<Cell> {
    step_from(c, 1, 1)
}

/// The cell north-east of `c`, or `None` where that would leave the board.
#[verifier::when_used_as_spec(spec_ne)]
pub fn ne(c: Cell) -> (d: Option<Cell>)
    ensures
        d == spec_ne(c),
{
    let fi = c as usize % 8;
    let ri = c as usize / 8;
    if fi < 7 && ri < 7 {
        Some(Cell::from_index(c as usize + 9))
    } else {
        None
    }
}

pub open spec fn spec_e(c: Cell) -> Option<Cell> {
    step_from(c, 0, 1)
}

/// The cell east of `c`, or `None` where that would leave the board.
#[verifier::when_used_as_spec(spec_e)]
pub fn e(c: Cell) -> (d: Option<Cell>)
    ensures
        d == spec_e(c),
{
    let fi = c as usize % 8;
    let ri = c as usize / 8;
    if fi < 7 {
        Some(Cell::from_index(c as usize + 1))
    } else {
        None
    }
}

pub open spec fn spec_se(c: Cell) -> Option<Cell> {
    step_from(c, -1, 1)
}

/// The cell south-east of `c`, or `None` where that would leave the board.
#[verifier::when_used_as_spec(spec_se)]
pub fn se(c: Cell) -> (d: Option<Cell>)
    ensures
        d == spec_se(c),
{
    let fi = c as usize % 8;
    let ri = c as usize / 8;
    if fi < 7 && ri > 0 {
        Some(Cell::from_index(c as usize - 7))
    } else {
        None
    }
}

pub open spec fn spec_s(c: Cell) -> Option<Cell> {
    step_from(c, -1, 0)
}

/// The cell south of `c`, or `None` where that would leave the board.
#[verifier::when_used_as_spec(spec_s)]
pub fn s(c: Cell) -> (d: Option<Cell>)
    ensures
        d == spec_s(c),
{
    let fi = c as usize % 8;
    let ri = c as usize / 8;
    if ri > 0 {
        Some(Cell::from_index(c as usize - 8))
    } else {
        None
    }
}

pub open spec fn spec_sw(c: Cell) -> Option<Cell> {
    step_from(c, -1, -1)
}

/// The cell south-west of `c`, or `None` where that would leave the board.
#[verifier::when_used_as_spec(spec_sw)]
pub fn sw(c: Cell) -> (d: Option<Cell>)
    ensures
        d == spec_sw(c),
{
    let fi = c as usize % 8;
    let ri = c as usize / 8;
    if fi > 0 && ri > 0 {
        Some(Cell::from_index(c as usize - 9))
    } else {
        None
    }
}

pub open spec fn spec_calc_cell_after_steps(c: Cell, step_north: i32, step_east: i32) -> Option<Cell> {
    step_from(c, step_north as int, step_east as int)
}

/// The cell reached from `c` after `step_north` steps towards north and
/// `step_east` steps towards east (south and west for negative steps), or
/// `None` when either coordinate leaves the board.
#[verifier::when_used_as_spec(spec_calc_cell_after_steps)]
pub fn calc_cell_after_steps(c: Cell, step_north: i32, step_east: i32) -> (d: Option<Cell>)
    ensures
        d == spec_calc_cell_after_steps(c, step_north, step_east),
{
    let r: i64 = (c as usize / 8) as i64 + step_north as i64;
    let f: i64 = (c as usize % 8) as i64 + step_east as i64;
    if 0 <= r && r < 8 && 0 <= f && f < 8 {
        Some(Cell::from_index((r * 8 + f) as usize))
    } else {
        None
    }
}

// ----------------------------------------------------------------------------
// Lines of the board and their masks

proof fn lemma_file_table(i: u64)
    by (bit_vector)
    requires
        i < 64,
    ensures
        bit(0x0101010101010101u64, i) == (i % 8 == 0),
        bit(0x0202020202020202u64, i) == (i % 8 == 1),
        bit(0x0404040404040404u64, i) == (i % 8 == 2),
        bit(0x0808080808080808u64, i) == (i % 8 == 3),
        bit(0x1010101010101010u64, i) == (i % 8 == 4),
        bit(0x2020202020202020u64, i) == (i % 8 == 5),
        bit(0x4040404040404040u64, i) == (i % 8 == 6),
        bit(0x8080808080808080u64, i) == (i % 8 == 7),
{
}

proof fn lemma_rank_table(i: u64)
    by (bit_vector)
    requires
        i < 64,
    ensures
        bit(0x00000000000000FFu64, i) == (i / 8 == 0),
        bit(0x000000000000FF00u64, i) == (i / 8 == 1),
        bit(0x0000000000FF0000u64, i) == (i / 8 == 2),
        bit(0x00000000FF000000u64, i) == (i / 8 == 3),
        bit(0x000000FF00000000u64, i) == (i / 8 == 4),
        bit(0x0000FF0000000000u64, i) == (i / 8 == 5),
        bit(0x00FF000000000000u64, i) == (i / 8 == 6),
        bit(0xFF00000000000000u64, i) == (i / 8 == 7),
{
}

proof fn lemma_diag_table(i: u64)
    by (bit_vector)
    requires
        i < 64,
    ensures
        bit(0x0100000000000000u64, i) == (i % 8 + 7 == i / 8 + 0),
        bit(0x0201000000000000u64, i) == (i % 8 + 7 == i / 8 + 1),
        bit(0x0402010000000000u64, i) == (i % 8 + 7 == i / 8 + 2),
        bit(0x0804020100000000u64, i) == (i % 8 + 7 == i / 8 + 3),
        bit(0x1008040201000000u64, i) == (i % 8 + 7 == i / 8 + 4),
        bit(0x2010080402010000u64, i) == (i % 8 + 7 == i / 8 + 5),
        bit(0x4020100804020100u64, i) == (i % 8 + 7 == i / 8 + 6),
        bit(0x8040201008040201u64, i) == (i % 8 + 7 == i / 8 + 7),
        bit(0x0080402010080402u64, i) == (i % 8 + 7 == i / 8 + 8),
        bit(0x0000804020100804u64, i) == (i % 8 + 7 == i / 8 + 9),
        bit(0x0000008040201008u64, i) == (i % 8 + 7 == i / 8 + 10),
        bit(0x0000000080402010u64, i) == (i % 8 + 7 == i / 8 + 11),
        bit(0x0000000000804020u64, i) == (i % 8 + 7 == i / 8 + 12),
        bit(0x0000000000008040u64, i) == (i % 8 + 7 == i / 8 + 13),
        bit(0x0000000000000080u64, i) == (i % 8 + 7 == i / 8 + 14),
{
}

proof fn lemma_antidiag_table(i: u64)
    by (bit_vector)
    requires
        i < 64,
    ensures
        bit(0x0000000000000001u64, i) == (i % 8 + i / 8 == 0),
        bit(0x0000000000000102u64, i) == (i % 8 + i / 8 == 1),
        bit(0x0000000000010204u64, i) == (i % 8 + i / 8 == 2),
        bit(0x0000000001020408u64, i) == (i % 8 + i / 8 == 3),
        bit(0x0000000102040810u64, i) == (i % 8 + i / 8 == 4),
        bit(0x0000010204081020u64, i) == (i % 8 + i / 8 == 5),
        bit(0x0001020408102040u64, i) == (i % 8 + i / 8 == 6),
        bit(0x0102040810204080u64, i) == (i % 8 + i / 8 == 7),
        bit(0x0204081020408000u64, i) == (i % 8 + i / 8 == 8),
        bit(0x0408102040800000u64, i) == (i % 8 + i / 8 == 9),
        bit(0x0810204080000000u64, i) == (i % 8 + i / 8 == 10),
        bit(0x1020408000000000u64, i) == (i % 8 + i / 8 == 11),
        bit(0x2040800000000000u64, i) == (i % 8 + i / 8 == 12),
        bit(0x4080000000000000u64, i) == (i % 8 + i / 8 == 13),
        bit(0x8000000000000000u64, i) == (i % 8 + i / 8 == 14),
{
}

/// The cells of the file of index `f`.
pub open spec fn file_cells(f: int) -> Set<Cell> {
    Set::new(|d: Cell| file_of(d) == f)
}

/// The cells of the rank of index `r`.
pub open spec fn rank_cells(r: int) -> Set<Cell> {
    Set::new(|d: Cell| rank_of(d) == r)
}

/// The cells of the diagonal of index `k` (`file - rank + 7 == k`).
pub open spec fn diag_cells(k: int) -> Set<Cell> {
    Set::new(|d: Cell| file_of(d) - rank_of(d) + 7 == k)
}

/// The cells of the anti-diagonal of index `k` (`file + rank == k`).
pub open spec fn antidiag_cells(k: int) -> Set<Cell> {
    Set::new(|d: Cell| file_of(d) + rank_of(d) == k)
}

/// The cells next to `c`: one step away in any of the eight directions.
pub open spec fn king_zone(c: Cell) -> Set<Cell> {
    Set::new(
        |d: Cell|
            d != c && -1 <= file_of(d) - file_of(c) <= 1 && -1 <= rank_of(d) - rank_of(c) <= 1,
    )
}

/// Each entry of [FILES_BBS] holds the cells of its file.
pub proof fn lemma_files_bbs(f: int)
    requires
        0 <= f < 8,
    ensures
        mask_cells(FILES_BBS[f]) == file_cells(f),
{
    assert forall|d: Cell| #[trigger] mask_cells(FILES_BBS[f]).contains(d) == file_cells(f).contains(d) by {
        lemma_file_table(d as u64);
    }
    assert(mask_cells(FILES_BBS[f]) =~= file_cells(f));
}

/// Each entry of [RANKS_BBS] holds the cells of its rank.
pub proof fn lemma_ranks_bbs(r: int)
    requires
        0 <= r < 8,
    ensures
        mask_cells(RANKS_BBS[r]) == rank_cells(r),
{
    assert forall|d: Cell| #[trigger] mask_cells(RANKS_BBS[r]).contains(d) == rank_cells(r).contains(d) by {
        lemma_rank_table(d as u64);
    }
    assert(mask_cells(RANKS_BBS[r]) =~= rank_cells(r));
}

/// Each entry of [DIAGS_BBS] holds the cells of its diagonal.
pub proof fn lemma_diags_bbs(k: int)
    requires
        0 <= k < 15,
    ensures
        mask_cells(DIAGS_BBS[k]) == diag_cells(k),
{
    assert forall|d: Cell| #[trigger] mask_cells(DIAGS_BBS[k]).contains(d) == diag_cells(k).contains(d) by {
        lemma_diag_table(d as u64);
    }
    assert(mask_cells(DIAGS_BBS[k]) =~= diag_cells(k));
}

/// Each entry of [ANTIDIAGS_BBS] holds the cells of its anti-diagonal.
pub proof fn lemma_antidiags_bbs(k: int)
    requires
        0 <= k < 15,
    ensures
        mask_cells(ANTIDIAGS_BBS[k]) == antidiag_cells(k),
{
    assert forall|d: Cell| #[trigger] mask_cells(ANTIDIAGS_BBS[k]).contains(d) == antidiag_cells(k).contains(d) by {
        lemma_antidiag_table(d as u64);
    }
    assert(mask_cells(ANTIDIAGS_BBS[k]) =~= antidiag_cells(k));
}

/// The mask with only the bit of cell `c` set.
pub fn single_cell(c: Cell) -> (m: BitBoardState)
    ensures
        m == single_mask(c),
        mask_cells(m) == set![c],
{
    proof {
        lemma_mask_single(c);
    }
    1u64 << c as u64
}

/// The mask of the cells next to `c` (at most eight: fewer on an edge or a corner).
pub fn neighbour(c: Cell) -> (m: BitBoardState)
    ensures
        mask_cells(m) == king_zone(c),
{
    broadcast use group_mask_algebra;

    let fi = c as usize % 8;
    let ri = c as usize / 8;
    let mut file_mask: BitBoardState = FILES_BBS[fi];
    let mut rank_mask: BitBoardState = RANKS_BBS[ri];
    proof {
        lemma_files_bbs(fi as int);
        lemma_ranks_bbs(ri as int);
    }
    if fi > 0 {
        proof {
            lemma_files_bbs(fi - 1);
        }
        file_mask = file_mask | FILES_BBS[fi - 1];
    }
    if fi < 7 {
        proof {
            lemma_files_bbs(fi + 1);
        }
        file_mask = file_mask | FILES_BBS[fi + 1];
    }
    if ri > 0 {
        proof {
            lemma_ranks_bbs(ri - 1);
        }
        rank_mask = rank_mask | RANKS_BBS[ri - 1];
    }
    if ri < 7 {
        proof {
            lemma_ranks_bbs(ri + 1);
        }
        rank_mask = rank_mask | RANKS_BBS[ri + 1];
    }
    let m = (file_mask & rank_mask) ^ single_cell(c);
    assert(mask_cells(file_mask) =~= Set::new(|d: Cell| -1 <= file_of(d) - file_of(c) <= 1));
    assert(mask_cells(rank_mask) =~= Set::new(|d: Cell| -1 <= rank_of(d) - rank_of(c) <= 1));
    assert(mask_cells(m) =~= king_zone(c));
    m
}

/// The mask of the cells of the file of `c`.
pub fn file_mask(c: Cell) -> (m: BitBoardState)
    ensures
        mask_cells(m) == file_cells(file_of(c)),
{
    proof {
        lemma_files_bbs(file_of(c));
    }
    FILES_BBS[c as usize % 8]
}

/// The mask of the cells of the rank of `c`.
pub fn rank_mask(c: Cell) -> (m: BitBoardState)
    ensures
        mask_cells(m) == rank_cells(rank_of(c)),
{
    proof {
        lemma_ranks_bbs(rank_of(c));
    }
    RANKS_BBS[c as usize / 8]
}

/// The mask of the cells of the file and of the rank of `c`.
pub fn file_rank_mask(c: Cell) -> (m: BitBoardState)
    ensures
        mask_cells(m) == file_cells(file_of(c)) + rank_cells(rank_of(c)),
{
    broadcast use group_mask_algebra;

    proof {
        lemma_files_bbs(file_of(c));
        lemma_ranks_bbs(rank_of(c));
    }
    FILES_BBS[c as usize % 8] | RANKS_BBS[c as usize / 8]
}

/// The mask of the cells of the diagonal of `c`.
pub fn diag_mask(c: Cell) -> (m: BitBoardState)
    ensures
        mask_cells(m) == diag_cells(file_of(c) - rank_of(c) + 7),
{
    let d = diagonal(c);
    proof {
        lemma_diags_bbs(d as int);
    }
    DIAGS_BBS[d as usize]
}

/// The mask of the cells of the anti-diagonal of `c`.
pub fn antidiag_mask(c: Cell) -> (m: BitBoardState)
    ensures
        mask_cells(m) == antidiag_cells(file_of(c) + rank_of(c)),
{
    let a = anti_diagonal(c);
    proof {
        lemma_antidiags_bbs(a as int);
    }
    ANTIDIAGS_BBS[a as usize]
}

/// The mask of the cells of both diagonals of `c`.
pub fn diagonals_mask(c: Cell) -> (m: BitBoardState)
    ensures
        mask_cells(m) == diag_cells(file_of(c) - rank_of(c) + 7) + antidiag_cells(
            file_of(c) + rank_of(c),
        ),
{
    broadcast use group_mask_algebra;

    diag_mask(c) | antidiag_mask(c)
}

/// The mask of the cells of the file, the rank and both diagonals of `c`
/// (the lines along which a queen moves).
pub fn queen_mask(c: Cell) -> (m: BitBoardState)
    ensures
        mask_cells(m) == file_cells(file_of(c)) + rank_cells(rank_of(c)) + diag_cells(
            file_of(c) - rank_of(c) + 7,
        ) + antidiag_cells(file_of(c) + rank_of(c)),
{
    broadcast use group_mask_algebra;

    file_mask(c) | rank_mask(c) | diag_mask(c) | antidiag_mask(c)
}


// ----------------------------------------------------------------------------
// Text notation of files, ranks and cells

/// The letter of a file: 'a' to 'h'.
pub open spec fn file_letter(f: File) -> char {
    match f {
        File::FileA => 'a',
        File::FileB => 'b',
        File::FileC => 'c',
        File::FileD => 'd',
        File::FileE => 'e',
        File::FileF => 'f',
        File::FileG => 'g',
        File::FileH => 'h',
    }
}

/// The digit of a rank: '1' to '8'.
pub open spec fn rank_digit(r: Rank) -> char {
    match r {
        Rank::Rank1 => '1',
        Rank::Rank2 => '2',
        Rank::Rank3 => '3',
        Rank::Rank4 => '4',
        Rank::Rank5 => '5',
        Rank::Rank6 => '6',
        Rank::Rank7 => '7',
        Rank::Rank8 => '8',
    }
}

/// The file whose letter is `ch`, if any.
pub open spec fn file_of_letter(ch: char) -> Option<File> {
    match ch {
        'a' => Some(File::FileA),
        'b' => Some(File::FileB),
        'c' => Some(File::FileC),
        'd' => Some(File::FileD),
        'e' => Some(File::FileE),
        'f' => Some(File::FileF),
        'g' => Some(File::FileG),
        'h' => Some(File::FileH),
        _ => None,
    }
}

/// The rank whose digit is `ch`, if any.
pub open spec fn rank_of_digit(ch: char) -> Option<Rank> {
    match ch {
        '1' => Some(Rank::Rank1),
        '2' => Some(Rank::Rank2),
        '3' => Some(Rank::Rank3),
        '4' => Some(Rank::Rank4),
        '5' => Some(Rank::Rank5),
        '6' => Some(Rank::Rank6),
        '7' => Some(Rank::Rank7),
        '8' => Some(Rank::Rank8),
        _ => None,
    }
}

/// The file named by a text: its single letter, 'a' to 'h'.
pub open spec fn parse_file(s: Seq<char>) -> Result<File, AbbaDingoError> {
    if s.len() == 1 && file_of_letter(s[0]) is Some {
        Ok(file_of_letter(s[0]).unwrap())
    } else {
        Err(AbbaDingoError::IllegalConversionToFile)
    }
}

/// The rank named by a text: its single digit, '1' to '8'.
pub open spec fn parse_rank(s: Seq<char>) -> Result<Rank, AbbaDingoError> {
    if s.len() == 1 && rank_of_digit(s[0]) is Some {
        Ok(rank_of_digit(s[0]).unwrap())
    } else {
        Err(AbbaDingoError::IllegalConversionToRank)
    }
}

/// The cell named by a text: a file letter followed by a rank digit ("e4").
pub open spec fn parse_cell(s: Seq<char>) -> Result<Cell, AbbaDingoError> {
    if s.len() == 2 && file_of_letter(s[0]) is Some && rank_of_digit(s[1]) is Some {
        Ok(spec_to_cell(file_of_letter(s[0]).unwrap(), rank_of_digit(s[1]).unwrap()))
    } else {
        Err(AbbaDingoError::IllegalConversionToCell)
    }
}

fn letter_to_file(ch: char) -> (f: Option<File>)
    ensures
        f == file_of_letter(ch),
{
    match ch {
            'a' => Some(File::FileA),
            'b' => Some(File::FileB),
            'c' => Some(File::FileC),
            'd' => Some(File::FileD),
            'e' => Some(File::FileE),
            'f' => Some(File::FileF),
            'g' => Some(File::FileG),
            'h' => Some(File::FileH),
        _ => None,
    }
}

fn digit_to_rank(ch: char) -> (r: Option<Rank>)
    ensures
        r == rank_of_digit(ch),
{
    match ch {
            '1' => Some(Rank::Rank1),
            '2' => Some(Rank::Rank2),
            '3' => Some(Rank::Rank3),
            '4' => Some(Rank::Rank4),
            '5' => Some(Rank::Rank5),
            '6' => Some(Rank::Rank6),
            '7' => Some(Rank::Rank7),
            '8' => Some(Rank::Rank8),
        _ => None,
    }
}

impl File {
    /// The letter of the file, "a" to "h".
    pub fn notation(&self) -> (s: &'static str)
        ensures
            s@ == seq![file_letter(*self)],
    {
        proof {
            reveal_strlit("a");
            reveal_strlit("b");
            reveal_strlit("c");
            reveal_strlit("d");
            reveal_strlit("e");
            reveal_strlit("f");
            reveal_strlit("g");
            reveal_strlit("h");
        }
        match self {
            File::FileA => "a",
            File::FileB => "b",
            File::FileC => "c",
            File::FileD => "d",
            File::FileE => "e",
            File::FileF => "f",
            File::FileG => "g",
            File::FileH => "h",
        }
    }
}

impl Rank {
    /// The digit of the rank, "1" to "8".
    pub fn notation(&self) -> (s: &'static str)
        ensures
            s@ == seq![rank_digit(*self)],
    {
        proof {
            reveal_strlit("1");
            reveal_strlit("2");
            reveal_strlit("3");
            reveal_strlit("4");
            reveal_strlit("5");
            reveal_strlit("6");
            reveal_strlit("7");
            reveal_strlit("8");
        }
        match self {
            Rank::Rank1 => "1",
            Rank::Rank2 => "2",
            Rank::Rank3 => "3",
            Rank::Rank4 => "4",
            Rank::Rank5 => "5",
            Rank::Rank6 => "6",
            Rank::Rank7 => "7",
            Rank::Rank8 => "8",
        }
    }
}

impl Cell {
    /// The name of the cell: its file letter followed by its rank digit ("e4").
    pub fn notation(&self) -> (s: String)
        ensures
            s@ == seq![file_letter(spec_file(*self)), rank_digit(spec_rank(*self))],
    {
        let s = String::from_str(file(*self).notation()).concat(rank(*self).notation());
        assert(s@ =~= seq![file_letter(spec_file(*self)), rank_digit(spec_rank(*self))]);
        s
    }
}

/// Reads a file from its letter ("a" to "h"); any other text is an
/// `IllegalConversionToFile`.
impl<'a> core::convert::TryFrom<&'a str> for File {
    type Error = AbbaDingoError;

    fn try_from(value: &'a str) -> (r: Result<File, AbbaDingoError>) {
        if value.unicode_len() == 1 {
            match letter_to_file(value.get_char(0)) {
                Some(f) => Ok(f),
                None => Err(AbbaDingoError::IllegalConversionToFile),
            }
        } else {
            Err(AbbaDingoError::IllegalConversionToFile)
        }
    }
}

impl<'a> vstd::std_specs::convert::TryFromSpecImpl<&'a str> for File {
    open spec fn obeys_try_from_spec() -> bool {
        true
    }

    open spec fn try_from_spec(value: &'a str) -> Result<File, AbbaDingoError> {
        parse_file(value@)
    }
}

/// Reads a rank from its digit ("1" to "8"); any other text is an
/// `IllegalConversionToRank`.
impl<'a> core::convert::TryFrom<&'a str> for Rank {
    type Error = AbbaDingoError;

    fn try_from(value: &'a str) -> (r: Result<Rank, AbbaDingoError>) {
        if value.unicode_len() == 1 {
            match digit_to_rank(value.get_char(0)) {
                Some(r) => Ok(r),
                None => Err(AbbaDingoError::IllegalConversionToRank),
            }
        } else {
            Err(AbbaDingoError::IllegalConversionToRank)
        }
    }
}

impl<'a> vstd::std_specs::convert::TryFromSpecImpl<&'a str> for Rank {
    open spec fn obeys_try_from_spec() -> bool {
        true
    }

    open spec fn try_from_spec(value: &'a str) -> Result<Rank, AbbaDingoError> {
        parse_rank(value@)
    }
}

/// Reads a cell from its name (a file letter then a rank digit, "a1" to
/// "h8"); any other text is an `IllegalConversionToCell`.
impl<'a> core::convert::TryFrom<&'a str> for Cell {
    type Error = AbbaDingoError;

    fn try_from(value: &'a str) -> (r: Result<Cell, AbbaDingoError>) {
        if value.unicode_len() != 2 {
            return Err(AbbaDingoError::IllegalConversionToCell);
        }
        match (letter_to_file(value.get_char(0)), digit_to_rank(value.get_char(1))) {
            (Some(f), Some(r)) => Ok(to_cell(f, r)),
            _ => Err(AbbaDingoError::IllegalConversionToCell),
        }
    }
}

impl<'a> vstd::std_specs::convert::TryFromSpecImpl<&'a str> for Cell {
    open spec fn obeys_try_from_spec() -> bool {
        true
    }

    open spec fn try_from_spec(value: &'a str) -> Result<Cell, AbbaDingoError> {
        parse_cell(value@)
    }
}

// ----------------------------------------------------------------------------
// Laws of the coordinates

/// Splitting a cell into its file and rank and joining them again gives the
/// cell back, with the same file and the same rank.
pub proof fn lemma_file_rank_round_trip(c: Cell)
    ensures
        to_cell(file(c), rank(c)) == c,
        file(to_cell(file(c), rank(c))) == file(c),
        rank(to_cell(file(c), rank(c))) == rank(c),
{
}

/// A cell has no west file exactly on file A, no east file exactly on file
/// H, no south rank exactly on rank 1 and no north rank exactly on rank 8;
/// likewise for the neighbouring cells in those directions.
pub proof fn lemma_board_edges(c: Cell)
    ensures
        (file(c) == File::FileA) == (west(c) is None),
        (file(c) == File::FileH) == (east(c) is None),
        (rank(c) == Rank::Rank1) == (south(c) is None),
        (rank(c) == Rank::Rank8) == (north(c) is None),
        (file(c) == File::FileA) == (w(c) is None),
        (file(c) == File::FileH) == (e(c) is None),
        (rank(c) == Rank::Rank1) == (s(c) is None),
        (rank(c) == Rank::Rank8) == (n(c) is None),
{
}

} // verus!
