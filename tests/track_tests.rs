use rustnes::Track;

#[test]
fn new_track_has_four_empty_channels() {
    let t = Track::new(8);
    assert_eq!(t.get_length(), 8);
    assert_eq!(t.get_channel_count(), 4);
    let masks = t.to_masks();
    for k in 0..4 {
        assert_eq!(masks[k], vec![0u32; 8]);
    }
}

#[test]
fn add_columns_grows_every_channel() {
    let mut t = Track::new(2);
    assert!(t.select(1, 1, 4));
    t.add_columns(3);
    assert_eq!(t.get_length(), 5);
    let masks = t.to_masks();
    for k in 0..4 {
        assert_eq!(masks[k].len(), 5);
    }
    assert_eq!(masks[1], vec![0, 1 << 4, 0, 0, 0]);
}

#[test]
fn remove_columns_shrinks_every_channel() {
    let mut t = Track::new(6);
    assert!(t.select(2, 1, 0));
    assert!(t.remove_columns(4));
    assert_eq!(t.get_length(), 2);
    let masks = t.to_masks();
    for k in 0..4 {
        assert_eq!(masks[k].len(), 2);
    }
    assert_eq!(masks[2], vec![0, 1]);
}

#[test]
fn remove_columns_refuses_to_empty_the_track() {
    let mut t = Track::new(4);
    assert!(t.select(0, 3, 2));
    assert!(!t.remove_columns(4));
    assert!(!t.remove_columns(9));
    assert_eq!(t.get_length(), 4);
    let masks = t.to_masks();
    for k in 0..4 {
        assert_eq!(masks[k].len(), 4);
    }
    assert_eq!(masks[0], vec![0, 0, 0, 1 << 2]);
}

#[test]
fn select_out_of_range_changes_nothing() {
    let mut t = Track::new(3);
    assert!(!t.select(4, 0, 0));
    assert!(!t.select(0, 3, 0));
    assert!(t.get_column(0, 3).is_none());
    assert!(t.get_column(4, 0).is_none());
    assert_eq!(t.to_masks()[0], vec![0, 0, 0]);
}

#[test]
fn get_column_reads_selected_step() {
    let mut t = Track::new(3);
    assert!(t.select(3, 2, 6));
    assert_eq!(t.get_column(3, 2).unwrap().mask(), 1 << 6);
    assert_eq!(t.get_column(3, 2).unwrap().get_index(), 42);
}

#[test]
fn from_masks_rejects_unequal_channels() {
    let chs = [vec![1u32, 2], vec![3u32, 4], vec![5u32], vec![6u32, 7]];
    assert!(Track::from_masks(&chs).is_none());
    let ok = [vec![1u32, 2], vec![3u32, 4], vec![5u32, 8], vec![6u32, 7]];
    let t = Track::from_masks(&ok).unwrap();
    assert_eq!(t.to_masks(), ok);
}

#[test]
fn snapshot_is_independent() {
    let mut t = Track::new(2);
    let copy = t.snapshot();
    assert!(t.select(0, 0, 1));
    assert_eq!(copy.to_masks()[0], vec![0, 0]);
    assert_eq!(t.to_masks()[0], vec![2, 0]);
}
