use abbadingo::bbdefines::{
    antidiag_mask, calc_cell_after_steps, diag_mask, diagonals_mask, file_mask, file_rank_mask,
    neighbour, queen_mask, rank_mask, single_cell, to_cell, Cell, File, Rank,
};
use abbadingo::error::AbbaDingoError;
use std::convert::TryFrom;

#[test]
fn try_all_to_cell_conversions() {
    assert_eq!(to_cell(File::FileA, Rank::Rank1), Cell::A1);
    assert_eq!(to_cell(File::FileA, Rank::Rank2), Cell::A2);
    assert_eq!(to_cell(File::FileA, Rank::Rank3), Cell::A3);
    assert_eq!(to_cell(File::FileA, Rank::Rank4), Cell::A4);
    assert_eq!(to_cell(File::FileA, Rank::Rank5), Cell::A5);
    assert_eq!(to_cell(File::FileA, Rank::Rank6), Cell::A6);
    assert_eq!(to_cell(File::FileA, Rank::Rank7), Cell::A7);
    assert_eq!(to_cell(File::FileA, Rank::Rank8), Cell::A8);
    assert_eq!(to_cell(File::FileB, Rank::Rank1), Cell::B1);
    assert_eq!(to_cell(File::FileB, Rank::Rank2), Cell::B2);
    assert_eq!(to_cell(File::FileB, Rank::Rank3), Cell::B3);
    assert_eq!(to_cell(File::FileB, Rank::Rank4), Cell::B4);
    assert_eq!(to_cell(File::FileB, Rank::Rank5), Cell::B5);
    assert_eq!(to_cell(File::FileB, Rank::Rank6), Cell::B6);
    assert_eq!(to_cell(File::FileB, Rank::Rank7), Cell::B7);
    assert_eq!(to_cell(File::FileB, Rank::Rank8), Cell::B8);
    assert_eq!(to_cell(File::FileC, Rank::Rank1), Cell::C1);
    assert_eq!(to_cell(File::FileC, Rank::Rank2), Cell::C2);
    assert_eq!(to_cell(File::FileC, Rank::Rank3), Cell::C3);
    assert_eq!(to_cell(File::FileC, Rank::Rank4), Cell::C4);
    assert_eq!(to_cell(File::FileC, Rank::Rank5), Cell::C5);
    assert_eq!(to_cell(File::FileC, Rank::Rank6), Cell::C6);
    assert_eq!(to_cell(File::FileC, Rank::Rank7), Cell::C7);
    assert_eq!(to_cell(File::FileC, Rank::Rank8), Cell::C8);
    assert_eq!(to_cell(File::FileD, Rank::Rank1), Cell::D1);
    assert_eq!(to_cell(File::FileD, Rank::Rank2), Cell::D2);
    assert_eq!(to_cell(File::FileD, Rank::Rank3), Cell::D3);
    assert_eq!(to_cell(File::FileD, Rank::Rank4), Cell::D4);
    assert_eq!(to_cell(File::FileD, Rank::Rank5), Cell::D5);
    assert_eq!(to_cell(File::FileD, Rank::Rank6), Cell::D6);
    assert_eq!(to_cell(File::FileD, Rank::Rank7), Cell::D7);
    assert_eq!(to_cell(File::FileD, Rank::Rank8), Cell::D8);
    assert_eq!(to_cell(File::FileE, Rank::Rank1), Cell::E1);
    assert_eq!(to_cell(File::FileE, Rank::Rank2), Cell::E2);
    assert_eq!(to_cell(File::FileE, Rank::Rank3), Cell::E3);
    assert_eq!(to_cell(File::FileE, Rank::Rank4), Cell::E4);
    assert_eq!(to_cell(File::FileE, Rank::Rank5), Cell::E5);
    assert_eq!(to_cell(File::FileE, Rank::Rank6), Cell::E6);
    assert_eq!(to_cell(File::FileE, Rank::Rank7), Cell::E7);
    assert_eq!(to_cell(File::FileE, Rank::Rank8), Cell::E8);
    assert_eq!(to_cell(File::FileF, Rank::Rank1), Cell::F1);
    assert_eq!(to_cell(File::FileF, Rank::Rank2), Cell::F2);
    assert_eq!(to_cell(File::FileF, Rank::Rank3), Cell::F3);
    assert_eq!(to_cell(File::FileF, Rank::Rank4), Cell::F4);
    assert_eq!(to_cell(File::FileF, Rank::Rank5), Cell::F5);
    assert_eq!(to_cell(File::FileF, Rank::Rank6), Cell::F6);
    assert_eq!(to_cell(File::FileF, Rank::Rank7), Cell::F7);
    assert_eq!(to_cell(File::FileF, Rank::Rank8), Cell::F8);
    assert_eq!(to_cell(File::FileG, Rank::Rank1), Cell::G1);
    assert_eq!(to_cell(File::FileG, Rank::Rank2), Cell::G2);
    assert_eq!(to_cell(File::FileG, Rank::Rank3), Cell::G3);
    assert_eq!(to_cell(File::FileG, Rank::Rank4), Cell::G4);
    assert_eq!(to_cell(File::FileG, Rank::Rank5), Cell::G5);
    assert_eq!(to_cell(File::FileG, Rank::Rank6), Cell::G6);
    assert_eq!(to_cell(File::FileG, Rank::Rank7), Cell::G7);
    assert_eq!(to_cell(File::FileG, Rank::Rank8), Cell::G8);
    assert_eq!(to_cell(File::FileH, Rank::Rank1), Cell::H1);
    assert_eq!(to_cell(File::FileH, Rank::Rank2), Cell::H2);
    assert_eq!(to_cell(File::FileH, Rank::Rank3), Cell::H3);
    assert_eq!(to_cell(File::FileH, Rank::Rank4), Cell::H4);
    assert_eq!(to_cell(File::FileH, Rank::Rank5), Cell::H5);
    assert_eq!(to_cell(File::FileH, Rank::Rank6), Cell::H6);
    assert_eq!(to_cell(File::FileH, Rank::Rank7), Cell::H7);
    assert_eq!(to_cell(File::FileH, Rank::Rank8), Cell::H8);
}

// Tests for calc_cell_after_steps methods
#[test]
fn calc_cell_after_steps_test() {
    assert_eq!(calc_cell_after_steps(Cell::A1, 5, 0), Some(Cell::A6));
    assert_eq!(calc_cell_after_steps(Cell::A1, 0, 5), Some(Cell::F1));
    assert_eq!(calc_cell_after_steps(Cell::D4, 2, 1), Some(Cell::E6));
    assert_eq!(calc_cell_after_steps(Cell::D4, 1, 2), Some(Cell::F5));
    assert_eq!(calc_cell_after_steps(Cell::D4, -1, 2), Some(Cell::F3));
    assert_eq!(calc_cell_after_steps(Cell::D4, -2, 1), Some(Cell::E2));
    assert_eq!(calc_cell_after_steps(Cell::D4, -2, -1), Some(Cell::C2));
    assert_eq!(calc_cell_after_steps(Cell::D4, -1, -2), Some(Cell::B3));
    assert_eq!(calc_cell_after_steps(Cell::D4, 1, -2), Some(Cell::B5));
    assert_eq!(calc_cell_after_steps(Cell::D4, 2, -1), Some(Cell::C6));
    assert_eq!(calc_cell_after_steps(Cell::C2, 6, -2), Some(Cell::A8));
    assert_eq!(calc_cell_after_steps(Cell::B7, 1, 3), Some(Cell::E8));
    assert_eq!(calc_cell_after_steps(Cell::F5, 3, 2), Some(Cell::H8));
    assert_eq!(calc_cell_after_steps(Cell::D2, -1, -3), Some(Cell::A1));
    assert_eq!(calc_cell_after_steps(Cell::C2, 1, -3), None);
    assert_eq!(calc_cell_after_steps(Cell::B7, 2, -1), None);
    assert_eq!(calc_cell_after_steps(Cell::F5, 1, 3), None);
    assert_eq!(calc_cell_after_steps(Cell::D2, -2, -1), None);
}

// Test for the single_cell() method
#[test]
fn single_cell_mask_test() {
    assert_eq!(single_cell(Cell::A1), 1_u64);
    assert_eq!(single_cell(Cell::H8), 0x80_00_00_00_00_00_00_00_u64);
    assert_eq!(single_cell(Cell::E5), 0x00_00_00_10_00_00_00_00_u64);
}

// Test for the neighbour() method
#[test]
fn neighbour_mask_test() {
    assert_eq!(neighbour(Cell::D4), 0x00_00_00_1C_14_1C_00_00_u64);
    assert_eq!(neighbour(Cell::G1), 0x00_00_00_00_00_00_E0_A0_u64);
}

// Test for the file_mask() method
#[test]
fn file_mask_test() {
    assert_eq!(file_mask(Cell::A2), 0x01_01_01_01_01_01_01_01_u64);
    assert_eq!(file_mask(Cell::F5), 0x20_20_20_20_20_20_20_20_u64);
}

// Test for the rank_mask() method
#[test]
fn rank_mask_test() {
    assert_eq!(rank_mask(Cell::B2), 0x00_00_00_00_00_00_FF_00_u64);
    assert_eq!(rank_mask(Cell::H7), 0x00_FF_00_00_00_00_00_00_u64);
}

// Test for the file_rank_mask() method
#[test]
fn file_rank_mask_test() {
    assert_eq!(file_rank_mask(Cell::C6), 0x04_04_FF_04_04_04_04_04_u64);
    assert_eq!(file_rank_mask(Cell::G2), 0x40_40_40_40_40_40_FF_40_u64);
}

// Test for the diag_mask() method
#[test]
fn diag_mask_test() {
    assert_eq!(diag_mask(Cell::H8), 0x80_40_20_10_08_04_02_01_u64);
}

// Test for the antidiag_mask() method
#[test]
fn anti_diag_mask_test() {
    assert_eq!(antidiag_mask(Cell::B6), 0x00_01_02_04_08_10_20_40_u64);
}

// Test for the diagonals_mask() method
#[test]
fn diagonals_mask_test() {
    assert_eq!(diagonals_mask(Cell::C3), 0x80_40_20_11_0A_04_0A_11_u64);
}

// Test for the queen_mask() method
#[test]
fn queen_mask_test() {
    assert_eq!(queen_mask(Cell::D4), 0x88_49_2A_1C_FF_1C_2A_49_u64);
    assert_eq!(queen_mask(Cell::A8), 0xFF_03_05_09_11_21_41_81_u64);
}

// Conversion tests from String to File and from File to String
#[test]
fn try_from_string_to_file_tests() {
    assert_eq!(File::try_from("a"), Ok(File::FileA));
    assert_eq!(File::try_from("b"), Ok(File::FileB));
    assert_eq!(File::try_from("c"), Ok(File::FileC));
    assert_eq!(File::try_from("d"), Ok(File::FileD));
    assert_eq!(File::try_from("e"), Ok(File::FileE));
    assert_eq!(File::try_from("f"), Ok(File::FileF));
    assert_eq!(File::try_from("g"), Ok(File::FileG));
    assert_eq!(File::try_from("h"), Ok(File::FileH));
    assert_eq!(
        File::try_from("ah"),
        Err(AbbaDingoError::IllegalConversionToFile)
    );
    assert_eq!(
        File::try_from("i"),
        Err(AbbaDingoError::IllegalConversionToFile)
    );
    assert_eq!(
        File::try_from("B"),
        Err(AbbaDingoError::IllegalConversionToFile)
    );
    assert_eq!(
        File::try_from("à"),
        Err(AbbaDingoError::IllegalConversionToFile)
    );
    assert_eq!(
        File::try_from("是"),
        Err(AbbaDingoError::IllegalConversionToFile)
    );
    assert_eq!(
        File::try_from("1"),
        Err(AbbaDingoError::IllegalConversionToFile)
    );
}
#[test]
fn file_into_string_tests() {
    let f: String = File::FileC.notation().to_string();
    assert_eq!(f, "c");
}

// Conversion tests from String to Rank and from Rank to String
#[test]
fn try_from_string_to_rank_tests() {
    assert_eq!(Rank::try_from("1"), Ok(Rank::Rank1));
    assert_eq!(Rank::try_from("2"), Ok(Rank::Rank2));
    assert_eq!(Rank::try_from("3"), Ok(Rank::Rank3));
    assert_eq!(Rank::try_from("4"), Ok(Rank::Rank4));
    assert_eq!(Rank::try_from("5"), Ok(Rank::Rank5));
    assert_eq!(Rank::try_from("6"), Ok(Rank::Rank6));
    assert_eq!(Rank::try_from("7"), Ok(Rank::Rank7));
    assert_eq!(Rank::try_from("8"), Ok(Rank::Rank8));
    assert_eq!(
        Rank::try_from("9"),
        Err(AbbaDingoError::IllegalConversionToRank)
    );
    assert_eq!(
        Rank::try_from("B"),
        Err(AbbaDingoError::IllegalConversionToRank)
    );
    assert_eq!(
        Rank::try_from("à"),
        Err(AbbaDingoError::IllegalConversionToRank)
    );
    assert_eq!(
        Rank::try_from("是"),
        Err(AbbaDingoError::IllegalConversionToRank)
    );
    assert_eq!(
        Rank::try_from("a"),
        Err(AbbaDingoError::IllegalConversionToRank)
    );
}
#[test]
fn rank_into_string_tests() {
    let r: String = Rank::Rank7.notation().to_string();
    assert_eq!(r, "7");
}

// Conversion tests from String to Cell and from Cell to String
#[test]
fn try_from_string_to_cell_tests() {
    assert_eq!(Cell::try_from("g1"), Ok(Cell::G1));
    assert_eq!(Cell::try_from("a7"), Ok(Cell::A7));
    assert_eq!(Cell::try_from("b4"), Ok(Cell::B4));
    assert_eq!(Cell::try_from("c3"), Ok(Cell::C3));

    assert_eq!(
        Cell::try_from(""),
        Err(AbbaDingoError::IllegalConversionToCell)
    );
    assert_eq!(
        Cell::try_from("a"),
        Err(AbbaDingoError::IllegalConversionToCell)
    );
    assert_eq!(
        Cell::try_from("7"),
        Err(AbbaDingoError::IllegalConversionToCell)
    );
    assert_eq!(
        Cell::try_from("é"),
        Err(AbbaDingoError::IllegalConversionToCell)
    );
    assert_eq!(
        Cell::try_from("h22"),
        Err(AbbaDingoError::IllegalConversionToCell)
    );
}
#[test]
fn cell_into_string_tests() {
    assert_eq!(Cell::A2.notation(), "a2");
    assert_eq!(Cell::B8.notation(), "b8");
    assert_eq!(Cell::C1.notation(), "c1");
    assert_eq!(Cell::D4.notation(), "d4");
    assert_eq!(Cell::E3.notation(), "e3");
    assert_eq!(Cell::F7.notation(), "f7");
    assert_eq!(Cell::G5.notation(), "g5");
    assert_eq!(Cell::H6.notation(), "h6");
}

// Display trait tests for File, Rank and Cells
#[test]
fn display_file_test() {
    assert_eq!(format!("{}", File::FileA.notation()), "a");
    assert_eq!(format!("{}", File::FileB.notation()), "b");
    assert_eq!(format!("{}", File::FileC.notation()), "c");
    assert_eq!(format!("{}", File::FileD.notation()), "d");
    assert_eq!(format!("{}", File::FileE.notation()), "e");
    assert_eq!(
        format!("{} {} {}", File::FileF.notation(), File::FileG.notation(), File::FileH.notation()),
        "f g h"
    );
}
#[test]
fn display_rank_test() {
    assert_eq!(format!("{}", Rank::Rank1.notation()), "1");
    assert_eq!(format!("{}", Rank::Rank2.notation()), "2");
    assert_eq!(format!("{}", Rank::Rank3.notation()), "3");
    assert_eq!(format!("{}", Rank::Rank4.notation()), "4");
    assert_eq!(format!("{}", Rank::Rank5.notation()), "5");
    assert_eq!(
        format!("{} {} {}", Rank::Rank6.notation(), Rank::Rank7.notation(), Rank::Rank8.notation()),
        "6 7 8"
    );
}
#[test]
fn display_cell_test() {
    assert_eq!(format!("{}", Cell::A1.notation()), "a1");
    assert_eq!(format!("{}", Cell::B2.notation()), "b2");
    assert_eq!(format!("{}", Cell::C3.notation()), "c3");
    assert_eq!(format!("{}", Cell::D4.notation()), "d4");
    assert_eq!(format!("{}", Cell::E5.notation()), "e5");
    assert_eq!(format!("{}", Cell::F6.notation()), "f6");
    assert_eq!(format!("{}", Cell::G7.notation()), "g7");
    assert_eq!(format!("{}", Cell::H8.notation()), "h8");
    assert_eq!(
        format!(
            "{}, {}, {}, {}, {}, {}, {}, {}",
            Cell::A8.notation(),
            Cell::B7.notation(),
            Cell::C6.notation(),
            Cell::D5.notation(),
            Cell::E4.notation(),
            Cell::F3.notation(),
            Cell::G2.notation(),
            Cell::H1.notation()
        ),
        "a8, b7, c6, d5, e4, f3, g2, h1"
    );
}
