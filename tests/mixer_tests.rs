use rustnes::{mix, pulse_out, tnd_out, ChannelLevels, Oscillators, Ratio, Track};

const STEPS: [f64; 16] = [
    -1.0, -0.86666, -0.73333, -0.6, -0.46666, -0.33333, -0.2, -0.06666, 0.06666, 0.2, 0.33333,
    0.46666, 0.6, 0.73333, 0.86666, 1.0,
];

fn value(r: Ratio) -> f64 {
    r.num as f64 / r.den as f64
}

fn reference(p1: f64, p2: f64, t: f64, n: f64) -> f64 {
    let pulse_out = 95.88 / ((8128.0 / (p1 + p2)) + 100.0);
    let tnd_out = 159.79 / ((1.0 / ((t / 8227.0) + (n / 12241.0) + (0.0 / 22638.0))) + 100.0);
    pulse_out + tnd_out
}

#[test]
fn pulse_part_of_silence_is_zero() {
    assert_eq!(pulse_out(0, 0), Ratio { num: 0, den: 1 });
}

#[test]
fn tnd_part_of_silence_is_zero() {
    assert_eq!(tnd_out(None, None), Ratio { num: 0, den: 1 });
}

#[test]
fn pulse_part_exact_values() {
    assert_eq!(pulse_out(1, 0), Ratio { num: 9588, den: 822800 });
    assert_eq!(pulse_out(1, 1), Ratio { num: 19176, den: 832800 });
}

#[test]
fn mix_of_silence_is_zero() {
    let l = ChannelLevels { pulse_one: 0, pulse_two: 0, triangle: None, noise: None };
    assert_eq!(mix(&l).num, 0);
}

#[test]
fn mix_matches_fixture_values() {
    let cases: [(u32, u32, Option<u32>, Option<u32>); 5] = [
        (1, 1, Some(15), Some(0)),
        (1, 0, Some(3), Some(12)),
        (0, 1, None, Some(7)),
        (0, 0, Some(15), None),
        (1, 1, Some(15), Some(15)),
    ];
    for (p1, p2, t, n) in cases {
        let l = ChannelLevels { pulse_one: p1, pulse_two: p2, triangle: t, noise: n };
        let tv = t.map_or(0.0, |k| STEPS[k as usize]);
        let nv = n.map_or(0.0, |k| STEPS[k as usize]);
        let expected = reference(p1 as f64, p2 as f64, tv, nv);
        let got = value(mix(&l));
        assert!((got - expected).abs() < 1e-4, "{} vs {}", got, expected);
    }
}

#[test]
fn mix_of_loudest_levels() {
    let l = ChannelLevels { pulse_one: 1, pulse_two: 1, triangle: Some(15), noise: Some(15) };
    let got = value(mix(&l));
    assert!((got - 0.0548553).abs() < 1e-4);
}

#[test]
fn next_output_of_silent_and_ended_samples() {
    let mut osc = Oscillators::new(&Track::new(1), 2880000);
    assert_eq!(osc.next_output(), Some(Ratio { num: 0, den: 1 }));
    assert_eq!(osc.next_output(), None);
}

#[test]
fn next_output_of_a_sounding_pulse() {
    let mut t = Track::new(1);
    assert!(t.select(0, 0, 0));
    let mut osc = Oscillators::new(&t, 1);
    let mut loud = 0;
    for _ in 0..200 {
        let r = osc.next_output().unwrap();
        if r.num != 0 {
            assert_eq!(r, mix(&ChannelLevels { pulse_one: 1, pulse_two: 0, triangle: None, noise: None }));
            loud += 1;
        }
    }
    assert!(loud > 0);
}

#[test]
fn first_note_sounds_within_its_first_samples() {
    for row in [0u32, 10, 31] {
        let mut t = Track::new(3);
        assert!(t.select(0, 0, row));
        let osc = Oscillators::new(&t, 6000);
        let mut heard = false;
        for n in 1..=55u64 {
            if let rustnes::Frame::Levels(l) = osc.frame_at(n, 0) {
                if l.pulse_one == 1 && mix(&l).num > 0 {
                    heard = true;
                }
            }
        }
        assert!(heard);
    }
}
