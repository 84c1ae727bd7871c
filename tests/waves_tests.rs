use rustnes::{
    get_frequency, ChannelLevels, Frame, NESNoise, NESNoiseNote, NESPulseWave, NESPulseWaveNote,
    NESTriangleWave, NESTriangleWaveNote, Oscillators, Track, WaveColumn,
};

fn silent() -> ChannelLevels {
    ChannelLevels { pulse_one: 0, pulse_two: 0, triangle: None, noise: None }
}

#[test]
fn frequency_outside_table_is_zero() {
    assert_eq!(get_frequency(-1), 0);
    assert_eq!(get_frequency(80), 0);
    assert_eq!(get_frequency(i32::MIN), 0);
}

#[test]
fn frequency_from_period_table() {
    assert_eq!(get_frequency(0), 1789773 / (16 * (2033 + 1)));
    assert_eq!(get_frequency(0), 54);
    assert_eq!(get_frequency(36), 440);
    assert_eq!(get_frequency(79), 1789773 / (16 * 21));
}

#[test]
fn pulse_note_is_low_then_high() {
    let mut p = NESPulseWaveNote::new(0, 50);
    let mut out: Vec<u32> = Vec::new();
    for _ in 0..445 {
        out.push(p.next());
    }
    assert_eq!(out[0], 0);
    assert_eq!(out[443], 0);
    assert_eq!(out[444], 1);
}

#[test]
fn pulse_note_with_zero_duty_is_always_high() {
    let mut p = NESPulseWaveNote::new(12, 0);
    for _ in 0..100 {
        assert_eq!(p.next(), 1);
    }
}

#[test]
fn triangle_note_levels() {
    let mut t = NESTriangleWaveNote::new(0);
    let mut out: Vec<u32> = Vec::new();
    for _ in 0..444 {
        out.push(t.next());
    }
    assert_eq!(out[0], 15);
    assert_eq!(out[443], 0);
    assert!(out.iter().all(|l| *l < 16));
}

#[test]
fn noise_note_levels_in_range() {
    let mut n = NESNoiseNote::new();
    for _ in 0..1000 {
        assert!(n.next() < 16);
    }
}

#[test]
fn channel_generators_follow_steps() {
    let cols = vec![WaveColumn::from_mask(1), WaveColumn::new()];
    let p = NESPulseWave::new(cols.clone());
    assert_eq!(p.next(1, 0), 0);
    assert_eq!(p.next(100, 0), 1);
    assert_eq!(p.next(100, 1), 0);
    let t = NESTriangleWave::new(cols.clone());
    assert_eq!(t.next(1, 0), Some(15));
    assert_eq!(t.next(109, 0), Some(0));
    assert_eq!(t.next(109, 1), None);
    let n = NESNoise::new(cols);
    assert_eq!(n.level(0, 7), Some(7));
    assert_eq!(n.level(1, 7), None);
    assert!(n.next(0).unwrap() < 16);
    assert_eq!(n.next(1), None);
}

fn one_note_track() -> Track {
    let mut t = Track::new(4);
    assert!(t.select(0, 0, 0));
    t
}

#[test]
fn oscillators_frames_of_one_note() {
    let osc = Oscillators::new(&one_note_track(), 180);
    let mut first = silent();
    first.pulse_one = 0;
    assert_eq!(osc.frame_at(1, 0), Frame::Levels(first));
    let mut high = silent();
    high.pulse_one = 1;
    assert_eq!(osc.frame_at(100, 0), Frame::Levels(high));
    assert_eq!(osc.frame_at(16000, 3), Frame::Levels(silent()));
    assert_eq!(osc.frame_at(64000, 0), Frame::Levels(silent()));
    assert_eq!(osc.frame_at(64001, 0), Frame::Ended);
}

#[test]
fn oscillators_noise_and_triangle_channels() {
    let mut t = Track::new(2);
    assert!(t.select(2, 0, 0));
    assert!(t.select(3, 0, 5));
    let osc = Oscillators::new(&t, 960);
    let expected = ChannelLevels { pulse_one: 0, pulse_two: 0, triangle: Some(0), noise: Some(9) };
    assert_eq!(osc.frame_at(109, 9), Frame::Levels(expected));
}

#[test]
fn oscillators_empty_track_is_ended() {
    let osc = Oscillators::new(&Track::new(0), 960);
    assert_eq!(osc.frame_at(0, 0), Frame::Ended);
    assert_eq!(osc.frame_at(1, 0), Frame::Ended);
}

#[test]
fn oscillators_zero_tempo_stays_on_first_step() {
    let osc = Oscillators::new(&one_note_track(), 0);
    let mut high = silent();
    high.pulse_one = 1;
    assert_eq!(osc.frame_at(1_000_000_100, 0), Frame::Levels(high));
}

#[test]
fn next_frame_counts_from_one() {
    let mut osc = Oscillators::new(&one_note_track(), 180);
    let mut sounding = 0;
    for n in 1..=200u64 {
        let f = osc.next_frame();
        assert_eq!(f, osc.frame_at(n, 0));
        if let Frame::Levels(l) = f {
            sounding += l.pulse_one;
        }
    }
    assert!(sounding > 0);
}
