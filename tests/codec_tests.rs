use rustnes::{decode_track, encode_track, CodecError, Track};

fn full_track(len: usize) -> Track {
    let chs = [vec![u32::MAX; len], vec![u32::MAX; len], vec![u32::MAX; len], vec![u32::MAX; len]];
    Track::from_masks(&chs).unwrap()
}

#[test]
fn round_trip_empty_track() {
    let t = Track::new(0);
    let bytes = encode_track(&t).unwrap();
    assert_eq!(bytes, vec![0u8; 32]);
    let back = decode_track(&bytes).unwrap();
    assert_eq!(back.to_masks(), t.to_masks());
}

#[test]
fn round_trip_long_track() {
    let mut t = Track::new(8 * 4 * 8);
    assert!(t.select(0, 0, 0));
    assert!(t.select(3, 255, 23));
    let bytes = encode_track(&t).unwrap();
    assert_eq!(bytes.len(), 4 * (8 + 4 * 256));
    let back = decode_track(&bytes).unwrap();
    assert_eq!(back.get_length(), 256);
    assert_eq!(back.to_masks(), t.to_masks());
}

#[test]
fn round_trip_every_slot_selected() {
    let t = full_track(16);
    let bytes = encode_track(&t).unwrap();
    let back = decode_track(&bytes).unwrap();
    assert_eq!(back.to_masks(), t.to_masks());
}

#[test]
fn encoding_layout_is_length_then_words() {
    let chs = [vec![0x0403_0201u32], vec![7u32], vec![0u32], vec![u32::MAX]];
    let t = Track::from_masks(&chs).unwrap();
    let bytes = encode_track(&t).unwrap();
    let mut expected: Vec<u8> = Vec::new();
    for w in [0x0403_0201u32, 7, 0, u32::MAX] {
        expected.extend_from_slice(&1u64.to_le_bytes());
        expected.extend_from_slice(&w.to_le_bytes());
    }
    assert_eq!(bytes, expected);
}

#[test]
fn decode_accepts_trailing_bytes() {
    let mut t = Track::new(3);
    assert!(t.select(1, 2, 9));
    let mut bytes = encode_track(&t).unwrap();
    bytes.extend_from_slice(&[9, 9, 9]);
    let back = decode_track(&bytes).unwrap();
    assert_eq!(back.to_masks(), t.to_masks());
}

#[test]
fn decode_short_input_is_malformed() {
    let t = Track::new(2);
    let bytes = encode_track(&t).unwrap();
    let cut = &bytes[..bytes.len() - 1];
    assert_eq!(decode_track(cut).err(), Some(CodecError::Malformed));
    assert_eq!(decode_track(&[]).err(), Some(CodecError::Malformed));
}

#[test]
fn decode_unequal_channels_is_rejected() {
    let mut bytes: Vec<u8> = Vec::new();
    for len in [1u64, 2, 1, 1] {
        bytes.extend_from_slice(&len.to_le_bytes());
        for _ in 0..len {
            bytes.extend_from_slice(&5u32.to_le_bytes());
        }
    }
    assert_eq!(decode_track(&bytes).err(), Some(CodecError::UnequalChannels));
}
