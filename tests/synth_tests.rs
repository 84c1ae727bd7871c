use rustnes::{CodecError, Frame, Oscillators, Synth};

#[test]
fn new_synth_defaults() {
    let s = Synth::new(8, 4, 8);
    assert_eq!(s.track().get_length(), 128);
    assert_eq!(s.tempo(), 960);
    assert_eq!(s.volume(), 100);
    assert_eq!(s.max_pages(), 4);
    assert_eq!(s.rows_per_column(), 24);
    assert_eq!(s.get_notes_per_page(), 32);
    assert!(!s.is_playing());
}

#[test]
fn play_twice_cancels_the_first_render() {
    let mut s = Synth::new(8, 4, 8);
    let first = s.play();
    assert!(!first.cancel_previous);
    assert!(s.is_playing());
    let second = s.play();
    assert!(second.cancel_previous);
    assert!(s.is_playing());
    assert!(s.stop());
    assert!(!s.is_playing());
    assert!(!s.stop());
}

#[test]
fn play_command_carries_snapshot_and_length() {
    let mut s = Synth::new(8, 4, 8);
    assert!(s.select_note(3, 1, 2));
    let cmd = s.play();
    assert_eq!(cmd.sample_count, 128 * 960 * 800);
    assert_eq!(cmd.tempo, 960);
    assert_eq!(cmd.volume, 100);
    assert_eq!(cmd.track.to_masks(), s.track().to_masks());
    assert!(s.select_note(3, 1, 2));
    assert_eq!(cmd.track.get_column(1, 3).unwrap().mask(), 1 << 2);
    assert_eq!(s.track().get_column(1, 3).unwrap().mask(), 0);
}

#[test]
fn single_note_render_is_audible_and_bounded() {
    let mut s = Synth::new(1, 1, 4);
    s.set_tempo(180);
    assert!(s.select_note(0, 0, 0));
    let cmd = s.play();
    assert_eq!(cmd.sample_count, 4 * 180 * 48000 / 60);
    let mut osc = Oscillators::new(&cmd.track, cmd.tempo);
    let mut high = 0u64;
    let mut ended = 0u64;
    for _ in 0..cmd.sample_count {
        match osc.next_frame() {
            Frame::Levels(l) => {
                assert!(l.pulse_one <= 1);
                assert_eq!(l.pulse_two, 0);
                assert_eq!(l.triangle, None);
                assert_eq!(l.noise, None);
                high += l.pulse_one as u64;
            }
            Frame::Ended => ended += 1,
        }
    }
    assert!(high > 0);
    assert_eq!(ended, cmd.sample_count as u64 - 64000);
}

#[test]
fn pages_grow_and_shrink() {
    let mut s = Synth::new(8, 4, 8);
    assert!(s.add_page(1));
    assert_eq!(s.track().get_length(), 160);
    assert_eq!(s.max_pages(), 5);
    assert!(!s.can_remove_measure(5));
    assert!(s.can_remove_measure(4));
    assert!(s.remove_page(4));
    assert_eq!(s.track().get_length(), 32);
    assert_eq!(s.max_pages(), 1);
    assert!(!s.remove_page(1));
    assert_eq!(s.track().get_length(), 32);
    assert_eq!(s.max_pages(), 1);
}

#[test]
fn new_track_is_one_page() {
    let mut s = Synth::new(8, 4, 8);
    assert!(s.select_note(0, 0, 1));
    s.new_track();
    assert_eq!(s.track().get_length(), 32);
    assert_eq!(s.get_channel_column(0, 0).unwrap().mask(), 0);
}

#[test]
fn channel_column_bounds() {
    let s = Synth::new(1, 1, 4);
    assert!(s.get_channel_column(3, 3).is_some());
    assert!(s.get_channel_column(4, 0).is_none());
    assert!(s.get_channel_column(0, 4).is_none());
}

#[test]
fn save_then_load_restores_track() {
    let mut s = Synth::new(2, 4, 4);
    assert!(s.select_note(5, 2, 7));
    let bytes = s.save_track().unwrap();
    let mut other = Synth::new(1, 1, 1);
    assert_eq!(other.load_track(&bytes), Ok(()));
    assert_eq!(other.track().to_masks(), s.track().to_masks());
}

#[test]
fn failed_load_keeps_track() {
    let mut s = Synth::new(1, 1, 4);
    assert!(s.select_note(1, 0, 3));
    assert_eq!(s.load_track(&[1, 2, 3]), Err(CodecError::Malformed));
    assert_eq!(s.track().get_column(0, 1).unwrap().mask(), 1 << 3);
}

#[test]
fn volume_is_capped() {
    let mut s = Synth::new(1, 1, 4);
    s.set_volume(40);
    assert_eq!(s.volume(), 40);
    s.set_volume(150);
    assert_eq!(s.volume(), 100);
}

#[test]
fn defaults_match_constructors() {
    let s = Synth::default();
    assert_eq!(s.track().get_length(), 128);
    assert_eq!(s.get_notes_per_page(), 16);
    assert_eq!(rustnes::Track::default().get_length(), 8);
    assert_eq!(rustnes::WaveColumn::default().mask(), 0);
}

#[test]
fn remove_more_pages_than_exist_is_refused() {
    let mut s = Synth::new(8, 4, 4);
    assert_eq!(s.track().get_length(), 128);
    assert_eq!(s.max_pages(), 4);
    assert!(!s.remove_page(5));
    assert_eq!(s.track().get_length(), 128);
    assert_eq!(s.max_pages(), 4);
    assert!(s.remove_page(4));
    assert_eq!(s.track().get_length(), 64);
    assert_eq!(s.max_pages(), 0);
}

#[test]
fn ended_render_returns_to_idle() {
    let mut s = Synth::new(1, 1, 4);
    s.set_tempo(120);
    s.set_volume(30);
    let cmd = s.play();
    assert!(!cmd.cancel_previous);
    s.render_ended();
    assert!(!s.is_playing());
    assert_eq!(s.tempo(), 120);
    assert_eq!(s.volume(), 30);
    assert!(!s.stop());
    assert!(!s.play().cancel_previous);
}

#[test]
fn save_always_succeeds() {
    let s = Synth::new(2, 4, 4);
    assert!(s.save_track().is_ok());
}
