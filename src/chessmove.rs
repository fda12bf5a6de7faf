//! The [ChessMove]: a chess move packed in a 32-bit word.
use vstd::prelude::*;

use crate::bbdefines::{n, rank, rank_of, s, Cell, Rank};
use crate::chessdefines::ChessPiece;

verus! {

/// The empty move: every bit reset.
pub const EMPTY_CHESSMOVE: u32 = 0;

/// The invalid move: only the invalid flag set.
pub const INVALID_CHESSMOVE: u32 = 0x80000000;

const TAKEN_PIECE_OFFSET: u32 = 3;

const PROMOTED_PIECE_OFFSET: u32 = 6;

const START_CELL_OFFSET: u32 = 12;

const DESTINATION_CELL_OFFSET: u32 = 18;

const EN_PASSANT_CELL_OFFSET: u32 = 24;

const PIECE_MASK: u32 = 0x00000007;

const VALID_CELL_MASK: u32 = 0x0000003F;

const VALID_AND_INVALID_CELL_MASK: u32 = 0x0000007F;

const INVALID_PIECE: u32 = 0x00000006;

const INVALID_CELL: u32 = 0x00000040;

/// A chess move packed in 32 bits:
///
///  - bits 0..2: the moved piece, 0 = King to 5 = Pawn (see [ChessPiece]);
///  - bits 3..5: the taken piece, 6 when no piece is taken;
///  - bits 6..8: the piece a pawn is promoted to, 6 when there is no promotion;
///  - bits 12..17: the start cell;
///  - bits 18..23: the destination cell;
///  - bits 24..30: the en passant cell, 64 when the move makes none;
///  - bit 31: the invalid move flag.
#[derive(Default, Debug, Clone, Copy, PartialEq, Eq, Structural)]
pub struct ChessMove {
    pub m: u32,
}

/// The code of an optional piece: its index, or 6 for none.
pub open spec fn piece_code(p: Option<ChessPiece>) -> u32 {
    match p {
        Some(q) => q as u32,
        None => 6,
    }
}

/// The code of an optional cell: its index, or 64 for none.
pub open spec fn cell_code(c: Option<Cell>) -> u32 {
    match c {
        Some(d) => d as u32,
        None => 64,
    }
}

/// The cell skipped by a pawn moving two steps from `from` to `to`: the move
/// starts on rank 2 and goes two ranks north, or starts on rank 7 and goes
/// two ranks south. `None` for any other move.
pub open spec fn en_passant_of(from: Cell, to: Cell) -> Option<Cell> {
    if rank_of(from) == 1 && to as int == from as int + 16 {
        Some(Cell::from_int(from as int + 8))
    } else if rank_of(from) == 6 && to as int == from as int - 16 {
        Some(Cell::from_int(from as int - 8))
    } else {
        None
    }
}

/// The word of a move, field by field.
pub open spec fn encode(
    moved: ChessPiece,
    start: Cell,
    dest: Cell,
    taken: Option<ChessPiece>,
    promoted: Option<ChessPiece>,
) -> int {
    let ep = if moved == ChessPiece::Pawn {
        en_passant_of(start, dest)
    } else {
        None
    };
    moved as int + 8 * piece_code(taken) + 64 * piece_code(promoted) + 4096 * (start as int)
        + 262144 * (dest as int) + 16777216 * cell_code(ep)
}

proof fn lemma_pack(a: u32, b: u32, c: u32, d: u32, e: u32, f: u32)
    by (bit_vector)
    requires
        a < 8,
        b < 8,
        c < 8,
        d < 64,
        e < 64,
        f < 128,
    ensures
        a | (b << 3u32) | (c << 6u32) | (d << 12u32) | (e << 18u32) | (f << 24u32) == a + 8 * b + 64
            * c + 4096 * d + 262144 * e + 16777216 * f,
        (a | (b << 3u32) | (c << 6u32) | (d << 12u32) | (e << 18u32) | (f << 24u32)) & 7 == a,
{
}

proof fn lemma_mask_small(x: u32)
    by (bit_vector)
    ensures
        x & 7 < 8,
        x & 63 < 64,
        x & 127 < 128,
        x < 8 ==> x & 7 == x,
        x < 64 ==> x & 63 == x,
{
}

impl ChessMove {
    /// The move of `moved_piece` from `start_cell` to `dest_cell`, taking
    /// `taken_piece` and promoting to `promoted_piece` if any. A pawn moving
    /// two steps from its starting rank records the cell it skips as the en
    /// passant cell.
    pub fn new(
        moved_piece: ChessPiece,
        start_cell: Cell,
        dest_cell: Cell,
        taken_piece: Option<ChessPiece>,
        promoted_piece: Option<ChessPiece>,
    ) -> (mv: ChessMove)
        ensures
            mv.m == encode(moved_piece, start_cell, dest_cell, taken_piece, promoted_piece),
    {
        let taken = match taken_piece {
            Some(p) => (p as u32) & PIECE_MASK,
            None => INVALID_PIECE,
        };
        let promoted = match promoted_piece {
            Some(p) => (p as u32) & PIECE_MASK,
            None => INVALID_PIECE,
        };
        let ep = if moved_piece == ChessPiece::Pawn {
            match ChessMove::compute_en_passant(start_cell, dest_cell) {
                Some(c) => (c as u32) & VALID_CELL_MASK,
                None => INVALID_CELL,
            }
        } else {
            INVALID_CELL
        };
        let start = (start_cell as u32) & VALID_CELL_MASK;
        let dest = (dest_cell as u32) & VALID_CELL_MASK;
        proof {
            lemma_mask_small(moved_piece as u32);
            lemma_mask_small(taken);
            lemma_mask_small(promoted);
            lemma_mask_small(start_cell as u32);
            lemma_mask_small(dest_cell as u32);
            if let Some(p) = taken_piece {
                lemma_mask_small(p as u32);
            }
            if let Some(p) = promoted_piece {
                lemma_mask_small(p as u32);
            }
            if let Some(c) = en_passant_of(start_cell, dest_cell) {
                lemma_mask_small(c as u32);
            }
            lemma_pack(moved_piece as u32, taken, promoted, start, dest, ep);
        }
        let m = (moved_piece as u32) | (taken << TAKEN_PIECE_OFFSET) | (promoted
            << PROMOTED_PIECE_OFFSET) | (start << START_CELL_OFFSET) | (dest
            << DESTINATION_CELL_OFFSET) | (ep << EN_PASSANT_CELL_OFFSET);
        ChessMove { m }
    }

    /// The moved piece.
    pub fn moved_piece(&self) -> (p: ChessPiece)
        requires
            self.m & 7 < 6,
        ensures
            p as u32 == self.m & 7,
    {
        match ChessPiece::from_index(self.m & PIECE_MASK) {
            Some(p) => p,
            None => ChessPiece::King,
        }
    }

    /// The start cell.
    pub fn start_cell(&self) -> (c: Cell)
        ensures
            c as u32 == (self.m >> 12u32) & 63,
    {
        let i = (self.m >> START_CELL_OFFSET) & VALID_CELL_MASK;
        proof {
            lemma_mask_small(self.m >> 12u32);
        }
        Cell::from_index(i as usize)
    }

    /// The destination cell.
    pub fn destination_cell(&self) -> (c: Cell)
        ensures
            c as u32 == (self.m >> 18u32) & 63,
    {
        let i = (self.m >> DESTINATION_CELL_OFFSET) & VALID_CELL_MASK;
        proof {
            lemma_mask_small(self.m >> 18u32);
        }
        Cell::from_index(i as usize)
    }

    /// The taken piece, `None` when no piece is taken.
    pub fn taken_piece(&self) -> (p: Option<ChessPiece>)
        ensures
            p == ChessPiece::spec_from_index((self.m >> 3u32) & 7),
    {
        ChessPiece::from_index((self.m >> TAKEN_PIECE_OFFSET) & PIECE_MASK)
    }

    /// The piece a pawn is promoted to, `None` when the move is no promotion.
    pub fn promoted_piece(&self) -> (p: Option<ChessPiece>)
        ensures
            p == ChessPiece::spec_from_index((self.m >> 6u32) & 7),
    {
        ChessPiece::from_index((self.m >> PROMOTED_PIECE_OFFSET) & PIECE_MASK)
    }

    /// The en passant cell of the move, `None` when it makes none.
    pub fn en_passant_cell(&self) -> (c: Option<Cell>)
        ensures
            match c {
                Some(d) => d as u32 == (self.m >> 24u32) & 127,
                None => (self.m >> 24u32) & 127 >= 64,
            },
    {
        let i = (self.m >> EN_PASSANT_CELL_OFFSET) & VALID_AND_INVALID_CELL_MASK;
        if i < 64 {
            Some(Cell::from_index(i as usize))
        } else {
            None
        }
    }

    /// Whether the move may be a castling: a King moving from E1 to G1 or C1,
    /// or from E8 to G8 or C8.
    pub fn is_a_castling_move(&self) -> (r: bool)
        ensures
            r == (self.m & 7 == 0 && ((((self.m >> 12u32) & 63) == 4 && (((self.m >> 18u32) & 63)
                == 6 || ((self.m >> 18u32) & 63) == 2)) || (((self.m >> 12u32) & 63) == 60 && (((
            self.m >> 18u32) & 63) == 62 || ((self.m >> 18u32) & 63) == 58)))),
    {
        if self.m & PIECE_MASK != ChessPiece::King as u32 {
            return false;
        }
        let start = self.start_cell();
        let dest = self.destination_cell();
        (start == Cell::E1 && (dest == Cell::G1 || dest == Cell::C1)) || (start == Cell::E8 && (dest
            == Cell::G8 || dest == Cell::C8))
    }

    /// The cell skipped by a pawn moving from `from` to `to`, if the move is
    /// a two-step move from its starting rank.
    fn compute_en_passant(from: Cell, to: Cell) -> (c: Option<Cell>)
        ensures
            c == en_passant_of(from, to),
    {
        let r = rank(from);
        if r == Rank::Rank2 && to as usize == from as usize + 16 {
            return n(from);
        }
        if r == Rank::Rank7 && to as usize + 16 == from as usize {
            return s(from);
        }
        None
    }
}

} // verus!
