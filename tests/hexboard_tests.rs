use abbadingo::hexboard::HexCell;

#[test]
fn by_default_a_new_hexcell_is_at_zero_coordinates() {
    let xc = HexCell::new();
    assert_eq!((xc.q, xc.r, xc.s), (0, 0, 0));
}
