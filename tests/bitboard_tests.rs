use abbadingo::bbdefines::{
    AntiDiagonal, BitBoardState, Cell, Diagonal, File, Rank, EMPTY_STATE, FILES_BBS, RANKS_BBS,
};
use abbadingo::bitboard::BitBoard;

#[test]
fn by_default_a_new_bitboard_is_empty() {
    let bb = BitBoard::new();
    assert_eq!(bb.state, EMPTY_STATE);
    assert_eq!(bb.is_empty(), true);
    assert_eq!(bb.pop_count(), 0);
}
#[test]
fn create_bitboard_using_a_vector_with_a_cell_in_h8() {
    let bb = BitBoard::from_cells(&[Cell::H8]);
    assert_eq!(bb.is_empty(), false);
    assert_eq!(bb.state, 0x80_00_00_00_00_00_00_00);
    assert_eq!(bb.pop_count(), 1);
}
#[test]
fn create_bitboard_using_a_cells_vector_with_active_cell_in_diagonal() {
    let bbs_diagonal: BitBoardState = 0x80_40_20_10_08_04_02_01;
    let bb = BitBoard::from_cells(&[
        Cell::A1,
        Cell::B2,
        Cell::C3,
        Cell::D4,
        Cell::E5,
        Cell::F6,
        Cell::G7,
        Cell::H8,
    ]);
    assert_eq!(bb.is_empty(), false);
    assert_eq!(bb.state, bbs_diagonal);
    assert_eq!(bb.pop_count(), 8);
}

#[test]
fn create_bitboard_using_a_cells_vector_with_active_cell_in_antidiagonal() {
    let bbs_antidiagonal: BitBoardState = 0x01_02_04_08_10_20_40_80;
    let bb = BitBoard::from_cells(&[
        Cell::A8,
        Cell::B7,
        Cell::C6,
        Cell::D5,
        Cell::E4,
        Cell::F3,
        Cell::G2,
        Cell::H1,
    ]);
    assert_eq!(bb.is_empty(), false);
    assert_eq!(bb.state, bbs_antidiagonal);
    assert_eq!(bb.pop_count(), 8);
}

#[test]
fn create_bitboard_using_a_cells_vector_with_active_cell_in_diagonal_and_reset_e5() {
    let mut bb = BitBoard::from_cells(&[
        Cell::A1,
        Cell::B2,
        Cell::C3,
        Cell::D4,
        Cell::E5,
        Cell::F6,
        Cell::G7,
        Cell::H8,
    ]);
    bb.reset_cell(Cell::E5);
    assert_eq!(bb.state, 0x80_40_20_00_08_04_02_01);
    assert_eq!(bb.pop_count(), 7);
}

#[test]
fn set_even_ranks_in_bitboard() {
    let mut bb = BitBoard::new();
    bb.set_rank(Rank::Rank2);
    bb.set_rank(Rank::Rank4);
    bb.set_rank(Rank::Rank6);
    bb.set_rank(Rank::Rank8);
    assert_eq!(bb.is_empty(), false);
    assert_eq!(
        bb.state,
        RANKS_BBS[Rank::Rank2 as usize]
            | RANKS_BBS[Rank::Rank4 as usize]
            | RANKS_BBS[Rank::Rank6 as usize]
            | RANKS_BBS[Rank::Rank8 as usize]
    );
    assert_eq!(bb.state, 0xFF_00_FF_00_FF_00_FF_00);
    assert_eq!(bb.pop_count(), 32);
}

#[test]
fn set_odd_files_in_bitboard() {
    let mut bb = BitBoard::new();
    bb.set_file(File::FileA);
    bb.set_file(File::FileC);
    bb.set_file(File::FileE);
    bb.set_file(File::FileG);
    assert_eq!(bb.is_empty(), false);
    assert_eq!(
        bb.state,
        FILES_BBS[File::FileA as usize]
            | FILES_BBS[File::FileC as usize]
            | FILES_BBS[File::FileE as usize]
            | FILES_BBS[File::FileG as usize]
    );
    assert_eq!(bb.state, 0x55_55_55_55_55_55_55_55);
    assert_eq!(bb.pop_count(), 32);
}

#[test]
fn set_cells_in_bitboard() {
    let mut bb = BitBoard::new();
    bb.set_cells(&[
        Cell::D1,
        Cell::D2,
        Cell::D3,
        Cell::D4,
        Cell::D5,
        Cell::D6,
        Cell::D7,
        Cell::D8,
        Cell::A3,
        Cell::B3,
        Cell::C3,
        Cell::E3,
        Cell::F3,
        Cell::G3,
        Cell::H3,
    ]);
    //    _________________________
    // r8|  .  .  .  o  .  .  .  . |
    // r7|  .  .  .  o  .  .  .  . |
    // r6|  .  .  .  o  .  .  .  . |
    // r5|  .  .  .  o  .  .  .  . |
    // r4|  .  .  .  o  .  .  .  . |
    // r3|  o  o  o  o  o  o  o  o |
    // r2|  .  .  .  o  .  .  .  . |
    // r1|  .  .  .  o  .  .  .  . |
    //     -------------------------
    //     fa fb fc fd fe ff fg fh
    assert_eq!(bb.state, 0x08_08_08_08_08_FF_08_08);
    assert_eq!(bb.pop_count(), 15);

    bb.set_cells(&[
        Cell::B1,
        Cell::C2,
        Cell::E4,
        Cell::F5,
        Cell::G6,
        Cell::H7,
        Cell::F1,
        Cell::E2,
        Cell::C4,
        Cell::B5,
        Cell::A6,
    ]);
    //    _________________________
    // r8|  .  .  .  o  .  .  .  . |
    // r7|  .  .  .  o  .  .  .  x |
    // r6|  x  .  .  o  .  .  x  . |
    // r5|  .  x  .  o  .  x  .  . |
    // r4|  .  .  x  o  x  .  .  . |
    // r3|  o  o  o  o  o  o  o  o |
    // r2|  .  .  x  o  x  .  .  . |
    // r1|  .  x  .  o  .  x  .  . |
    //    -------------------------
    //     fa fb fc fd fe ff fg fh
    assert_eq!(bb.state, 0x08_88_49_2A_1C_FF_1C_2A);
    assert_eq!(bb.pop_count(), 26);

    bb.reset_cells(&[
        Cell::D2,
        Cell::D4,
        Cell::D5,
        Cell::D6,
        Cell::D7,
        Cell::B3,
        Cell::C3,
        Cell::E3,
        Cell::F3,
        Cell::G3,
    ]);
    //    _________________________
    // r8|  .  .  .  o  .  .  .  . |
    // r7|  .  .  .  .  .  .  .  x |
    // r6|  x  .  .  .  .  .  x  . |
    // r5|  .  x  .  .  .  x  .  . |
    // r4|  .  .  x  .  x  .  .  . |
    // r3|  o  .  .  o  .  .  .  o |
    // r2|  .  .  x  .  x  .  .  . |
    // r1|  .  x  .  o  .  x  .  . |
    //    -------------------------
    //     fa fb fc fd fe ff fg fh
    assert_eq!(bb.state, 0x08_80_41_22_14_89_14_2A);
    assert_eq!(bb.pop_count(), 16);
}

// Test on cell_is_active() function
#[test]
fn check_active_cells_when_the_whole_rank_2_is_active() {
    let mut bb = BitBoard::new();
    bb.set_rank(Rank::Rank2);
    assert!(bb.cell_is_active(Cell::A2));
    assert!(bb.cell_is_active(Cell::B2));
    assert!(bb.cell_is_active(Cell::C2));
    assert!(bb.cell_is_active(Cell::D2));
    assert!(bb.cell_is_active(Cell::E2));
    assert!(bb.cell_is_active(Cell::F2));
    assert!(bb.cell_is_active(Cell::G2));
    assert!(bb.cell_is_active(Cell::H2));
    assert!(!bb.cell_is_active(Cell::A1));
    assert!(!bb.cell_is_active(Cell::G3));
}
#[test]
fn check_active_cells_when_the_whole_file_d_is_active() {
    let mut bb = BitBoard::new();
    bb.set_file(File::FileC);
    assert!(bb.cell_is_active(Cell::C1));
    assert!(bb.cell_is_active(Cell::C2));
    assert!(bb.cell_is_active(Cell::C3));
    assert!(bb.cell_is_active(Cell::C4));
    assert!(bb.cell_is_active(Cell::C5));
    assert!(bb.cell_is_active(Cell::C6));
    assert!(bb.cell_is_active(Cell::C7));
    assert!(bb.cell_is_active(Cell::C8));
    assert!(!bb.cell_is_active(Cell::B3));
    assert!(!bb.cell_is_active(Cell::D5));
}
#[test]
fn check_active_cells_when_the_whole_diagonal_10_is_active() {
    let mut bb = BitBoard::new();
    bb.set_diagonal(Diagonal::Diag10);
    assert!(bb.cell_is_active(Cell::D1));
    assert!(bb.cell_is_active(Cell::E2));
    assert!(bb.cell_is_active(Cell::F3));
    assert!(bb.cell_is_active(Cell::G4));
    assert!(bb.cell_is_active(Cell::H5));
    assert!(!bb.cell_is_active(Cell::E1));
    assert!(!bb.cell_is_active(Cell::G6));
}
#[test]
fn check_active_cells_when_the_whole_antidiagonal_5_is_active() {
    let mut bb = BitBoard::new();
    bb.set_antidiagonal(AntiDiagonal::AntiDiag5);
    assert!(bb.cell_is_active(Cell::F1));
    assert!(bb.cell_is_active(Cell::E2));
    assert!(bb.cell_is_active(Cell::D3));
    assert!(bb.cell_is_active(Cell::C4));
    assert!(bb.cell_is_active(Cell::B5));
    assert!(bb.cell_is_active(Cell::A6));
    assert!(!bb.cell_is_active(Cell::G2));
    assert!(!bb.cell_is_active(Cell::B6));
}

#[test]
fn test_bitor_operators() {
    let mut bb1 = BitBoard::from_cells(&[Cell::A1, Cell::H8]);
    let bb2 = BitBoard::from_cells(&[Cell::A8, Cell::H1]);
    let bb3 = BitBoard::from_cells(&[Cell::D4, Cell::E5]);
    bb1 = bb1 | bb2;
    assert_eq!(
        bb1,
        BitBoard::from_cells(&[Cell::A1, Cell::A8, Cell::H1, Cell::H8])
    );
    bb1 |= bb3;
    assert_eq!(
        bb1,
        BitBoard::from_cells(&[Cell::A1, Cell::A8, Cell::D4, Cell::E5, Cell::H1, Cell::H8])
    );
}
#[test]
fn test_bitand_operators() {
    let mut bb1 = BitBoard::from(0xFF_FF_FF_FF_FF_FF_FF_FF);
    let bb2 = BitBoard::from(0xFF_FF_FF_FF_00_00_00_00);
    let bb3 = BitBoard::from(0x33_33_33_33_33_33_33_33);
    bb1 = bb1 & bb2;
    assert_eq!(bb1, BitBoard::from(0xFF_FF_FF_FF_00_00_00_00));
    bb1 &= bb3;
    assert_eq!(bb1, BitBoard::from(0x33_33_33_33_00_00_00_00));
}
