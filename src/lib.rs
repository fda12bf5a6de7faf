//! Bitboards over an 8x8 board and the chess piece movement rules built on them.
pub mod error;
pub mod bbdefines;
pub mod bitboard;
pub mod hexboard;
pub mod chessdefines;
pub mod chessarmy;
pub mod chessmove;
pub mod fenrecord;
