//! The [FenRecord]: a chess position written in Forsyth-Edwards Notation (FEN).
use vstd::prelude::*;
use vstd::string::StringExecFns;

verus! {

/// The standard initial chess position.
pub const INITIAL_STANDARD_POSITION: &'static str = "rnbqkbnr/pppppppp/8/8/8/8/PPPPPPPP/RNBQKBNR w KQkq - 0 1";

/// The empty chess board.
pub const EMPTY_CHESS_BOARD: &'static str = "8/8/8/8/8/8/8/8 - - - 0 1";

/// A chess position as a FEN record: six fields separated by spaces (piece
/// placement, active colour, castling availability, en passant cell,
/// halfmove clock, fullmove number).
pub struct FenRecord {
    fen: String,
}

impl FenRecord {
    /// The text of the record.
    pub closed spec fn text(self) -> Seq<char> {
        self.fen@
    }

    /// The record of the standard initial chess position.
    pub fn new() -> (r: FenRecord)
        ensures
            r.text() == INITIAL_STANDARD_POSITION@,
    {
        FenRecord { fen: String::from_str(INITIAL_STANDARD_POSITION) }
    }

    /// The text of the record.
    pub fn fen(&self) -> (s: &str)
        ensures
            s@ == self.text(),
    {
        self.fen.as_str()
    }
}

} // verus!
