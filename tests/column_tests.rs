use rustnes::WaveColumn;

#[test]
fn select_twice_restores_empty_mask() {
    let mut c = WaveColumn::new();
    c.select(5);
    assert_eq!(c.mask(), 1 << 5);
    c.select(5);
    assert_eq!(c.mask(), 0);
}

#[test]
fn select_twice_restores_single_row() {
    let mut c = WaveColumn::from_mask(1 << 7);
    c.select(7);
    c.select(7);
    assert_eq!(c.mask(), 1 << 7);
}

#[test]
fn select_twice_after_other_row_does_not_restore() {
    let mut c = WaveColumn::from_mask(1 << 2);
    c.select(9);
    c.select(9);
    assert_eq!(c.mask(), 0);
}

#[test]
fn select_other_row_keeps_only_that_row() {
    let mut c = WaveColumn::new();
    c.select(3);
    c.select(11);
    assert_eq!(c.mask(), 1 << 11);
    assert!(c.is_selected(11));
    assert!(!c.is_selected(3));
}

#[test]
fn select_clears_a_full_mask() {
    let mut c = WaveColumn::from_mask(u32::MAX);
    c.select(4);
    assert_eq!(c.mask(), 0);
}

#[test]
fn note_index_of_empty_mask_is_none() {
    assert_eq!(WaveColumn::new().get_index(), -1);
}

#[test]
fn note_index_of_single_row() {
    assert_eq!(WaveColumn::from_mask(1).get_index(), 36);
    assert_eq!(WaveColumn::from_mask(1 << 23).get_index(), 59);
    assert_eq!(WaveColumn::from_mask(1 << 31).get_index(), 67);
}

#[test]
fn note_index_uses_lowest_row() {
    assert_eq!(WaveColumn::from_mask(0b1011000).get_index(), 39);
}
