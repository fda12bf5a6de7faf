//! The errors that the library reports.
use vstd::prelude::*;

verus! {

/// Every error that the library can report.
#[derive(Debug, Clone, Copy, PartialEq, Eq, Structural)]
pub enum AbbaDingoError {
    /// An invalid operation on a File was requested.
    InvalidOperationOnFile,
    /// An invalid operation on a Rank was requested.
    InvalidOperationOnRank,
    /// The text does not name a File.
    IllegalConversionToFile,
    /// The text does not name a Rank.
    IllegalConversionToRank,
    /// The text does not name a Cell.
    IllegalConversionToCell,
    /// The text does not name a chess piece.
    IllegalConversionToChessPiece,
}

impl AbbaDingoError {
    /// The message that describes the error.
    pub fn message(&self) -> (s: &'static str)
        ensures
            s@ == match *self {
                AbbaDingoError::InvalidOperationOnFile => "Invalid operation on File"@,
                AbbaDingoError::InvalidOperationOnRank => "Invalid operation on Rank"@,
                AbbaDingoError::IllegalConversionToFile => "Illegal conversion to File"@,
                AbbaDingoError::IllegalConversionToRank => "Illegal conversion to Rank"@,
                AbbaDingoError::IllegalConversionToCell => "Illegal conversion to Cell"@,
                AbbaDingoError::IllegalConversionToChessPiece => "Illegal conversion to ChessPiece"@,
            },
    {
        match self {
            AbbaDingoError::InvalidOperationOnFile => "Invalid operation on File",
            AbbaDingoError::InvalidOperationOnRank => "Invalid operation on Rank",
            AbbaDingoError::IllegalConversionToFile => "Illegal conversion to File",
            AbbaDingoError::IllegalConversionToRank => "Illegal conversion to Rank",
            AbbaDingoError::IllegalConversionToCell => "Illegal conversion to Cell",
            AbbaDingoError::IllegalConversionToChessPiece => "Illegal conversion to ChessPiece",
        }
    }
}

} // verus!
