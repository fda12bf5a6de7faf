//! Chess pieces and army colours.
use vstd::prelude::*;
use vstd::string::StrSliceExecFns;

use crate::error::AbbaDingoError;

verus! {

/// The colour of a chess army: `White` or `Black`.
#[derive(Debug, Clone, Copy, PartialOrd, PartialEq, Eq, Structural)]
pub enum ArmyColour {
    White,
    Black,
}

/// The chess pieces, from King to Pawn.
#[derive(Debug, Clone, Copy, PartialOrd, PartialEq, Eq, Structural)]
pub enum ChessPiece {
    King,
    Queen,
    Bishop,
    Knight,
    Rook,
    Pawn,
}

/// The number of piece types.
pub const NUM_PIECES_TYPES: usize = 6;

impl ChessPiece {
    /// The piece whose index is `i` (King = 0, ..., Pawn = 5), or `None`
    /// for any other index.
    pub open spec fn spec_from_index(i: u32) -> Option<ChessPiece> {
        if i == 0 {
            Some(ChessPiece::King)
        } else if i == 1 {
            Some(ChessPiece::Queen)
        } else if i == 2 {
            Some(ChessPiece::Bishop)
        } else if i == 3 {
            Some(ChessPiece::Knight)
        } else if i == 4 {
            Some(ChessPiece::Rook)
        } else if i == 5 {
            Some(ChessPiece::Pawn)
        } else {
            None
        }
    }

    /// The piece whose index is `i` (King = 0, ..., Pawn = 5), or `None`
    /// for any other index.
    #[verifier::when_used_as_spec(spec_from_index)]
    pub fn from_index(i: u32) -> (p: Option<ChessPiece>)
        ensures
            p == Self::spec_from_index(i),
            p matches Some(q) ==> q as int == i,
    {
        match i {
            0 => Some(ChessPiece::King),
            1 => Some(ChessPiece::Queen),
            2 => Some(ChessPiece::Bishop),
            3 => Some(ChessPiece::Knight),
            4 => Some(ChessPiece::Rook),
            5 => Some(ChessPiece::Pawn),
            _ => None,
        }
    }

    /// The name of the piece: "King", "Queen", "Bishop", "Knight", "Rook" or "pawn".
    pub fn name(&self) -> (s: &'static str)
        ensures
            s@ == match *self {
                ChessPiece::King => "King"@,
                ChessPiece::Queen => "Queen"@,
                ChessPiece::Bishop => "Bishop"@,
                ChessPiece::Knight => "Knight"@,
                ChessPiece::Rook => "Rook"@,
                ChessPiece::Pawn => "pawn"@,
            },
    {
        match self {
            ChessPiece::King => "King",
            ChessPiece::Queen => "Queen",
            ChessPiece::Bishop => "Bishop",
            ChessPiece::Knight => "Knight",
            ChessPiece::Rook => "Rook",
            ChessPiece::Pawn => "pawn",
        }
    }
}

/// The piece named by a text in chess notation: "K", "Q", "B", "N" or "R"
/// (a pawn has no letter).
pub open spec fn parse_piece(s: Seq<char>) -> Result<ChessPiece, AbbaDingoError> {
    if s.len() == 1 && s[0] == 'K' {
        Ok(ChessPiece::King)
    } else if s.len() == 1 && s[0] == 'Q' {
        Ok(ChessPiece::Queen)
    } else if s.len() == 1 && s[0] == 'B' {
        Ok(ChessPiece::Bishop)
    } else if s.len() == 1 && s[0] == 'N' {
        Ok(ChessPiece::Knight)
    } else if s.len() == 1 && s[0] == 'R' {
        Ok(ChessPiece::Rook)
    } else {
        Err(AbbaDingoError::IllegalConversionToChessPiece)
    }
}

/// Reads a piece from its letter in chess notation ("K", "Q", "B", "N", "R");
/// any other text is an `IllegalConversionToChessPiece`.
impl<'a> core::convert::TryFrom<&'a str> for ChessPiece {
    type Error = AbbaDingoError;

    fn try_from(value: &'a str) -> (r: Result<ChessPiece, AbbaDingoError>) {
        if value.unicode_len() != 1 {
            return Err(AbbaDingoError::IllegalConversionToChessPiece);
        }
        match value.get_char(0) {
            'K' => Ok(ChessPiece::King),
            'Q' => Ok(ChessPiece::Queen),
            'B' => Ok(ChessPiece::Bishop),
            'N' => Ok(ChessPiece::Knight),
            'R' => Ok(ChessPiece::Rook),
            _ => Err(AbbaDingoError::IllegalConversionToChessPiece),
        }
    }
}

impl<'a> vstd::std_specs::convert::TryFromSpecImpl<&'a str> for ChessPiece {
    open spec fn obeys_try_from_spec() -> bool {
        true
    }

    open spec fn try_from_spec(value: &'a str) -> Result<ChessPiece, AbbaDingoError> {
        parse_piece(value@)
    }
}

} // verus!
