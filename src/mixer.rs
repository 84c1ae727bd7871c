use vstd::prelude::*;
use crate::waves::{ChannelLevels, LEVEL_COUNT};

verus! {

/// Denominator of the output levels: level values are in hundred-thousandths.
pub const LEVEL_SCALE: i128 = 100000;

/// The sixteen output levels of the triangle and noise channels, evenly
/// spaced from -1 to 1, in hundred-thousandths.
pub open spec fn level_values() -> Seq<int> {
    seq![
        -100000, -86666, -73333, -60000, -46666, -33333, -20000, -6666,
        6666, 20000, 33333, 46666, 60000, 73333, 86666, 100000,
    ]
}

/// The value of a triangle or noise output in hundred-thousandths: 0 when silent.
pub open spec fn level_value(level: Option<u32>) -> int {
    match level {
        None => 0,
        Some(k) => level_values()[k as int],
    }
}

/// A rational number `num / den`.
#[derive(Clone, Copy, Debug, PartialEq, Eq)]
pub struct Ratio {
    pub num: i128,
    pub den: i128,
}

/// `95.88 / (8128 / s + 100)` for pulse sum `s`, as numerator and
/// denominator; 0 when `s` is 0.
pub open spec fn pulse_ratio(s: int) -> (int, int) {
    if s == 0 {
        (0, 1)
    } else {
        (9588 * s, 100 * (8128 + 100 * s))
    }
}

/// `159.79 / (1 / (t / 8227 + n / 12241) + 100)` for triangle and noise
/// values `t` and `n` in hundred-thousandths, as numerator and denominator;
/// 0 when the sum is 0.
pub open spec fn tnd_ratio(t: int, n: int) -> (int, int) {
    let x = t * 12241 + n * 8227;
    if x == 0 {
        (0, 1)
    } else {
        (15979 * x, 100 * (LEVEL_SCALE * 8227 * 12241 + 100 * x))
    }
}

/// Levels that the channels can produce.
pub open spec fn levels_valid(l: ChannelLevels) -> bool {
    &&& l.pulse_one <= 1
    &&& l.pulse_two <= 1
    &&& (l.triangle matches Some(k) ==> k < LEVEL_COUNT)
    &&& (l.noise matches Some(k) ==> k < LEVEL_COUNT)
}

/// The mixer's output for channel levels `l`: pulse part plus
/// triangle-and-noise part, as numerator and denominator.
pub open spec fn mix_ratio(l: ChannelLevels) -> (int, int) {
    let p = pulse_ratio(l.pulse_one + l.pulse_two);
    let q = tnd_ratio(level_value(l.triangle), level_value(l.noise));
    (p.0 * q.1 + q.0 * p.1, p.1 * q.1)
}

/// The value of output level `k`.
fn level_at(k: u32) -> (r: i128)
    requires
        k < 16,
    ensures
        r == level_values()[k as int],
{
    let table: [i128; 16] = [
        -100000, -86666, -73333, -60000, -46666, -33333, -20000, -6666,
        6666, 20000, 33333, 46666, 60000, 73333, 86666, 100000,
    ];
    assert(table@.map_values(|v: i128| v as int) =~= level_values());
    assert(table@[k as int] as int == table@.map_values(|v: i128| v as int)[k as int]);
    table[k as usize]
}

/// The value of a triangle or noise output.
fn output_value(level: Option<u32>) -> (r: i128)
    requires
        level matches Some(k) ==> k < 16,
    ensures
        r == level_value(level),
        -LEVEL_SCALE <= r <= LEVEL_SCALE,
{
    match level {
        None => 0,
        Some(k) => level_at(k),
    }
}

/// The pulse part of the mix.
pub fn pulse_out(pulse_one: u32, pulse_two: u32) -> (r: Ratio)
    requires
        pulse_one <= 1,
        pulse_two <= 1,
    ensures
        (r.num as int, r.den as int) == pulse_ratio(pulse_one + pulse_two),
        r.den > 0,
{
    let s: i128 = pulse_one as i128 + pulse_two as i128;
    if s == 0 {
        Ratio { num: 0, den: 1 }
    } else {
        Ratio { num: 9588 * s, den: 100 * (8128 + 100 * s) }
    }
}

/// The triangle-and-noise part of the mix.
pub fn tnd_out(triangle: Option<u32>, noise: Option<u32>) -> (r: Ratio)
    requires
        triangle matches Some(k) ==> k < 16,
        noise matches Some(k) ==> k < 16,
    ensures
        (r.num as int, r.den as int) == tnd_ratio(level_value(triangle), level_value(noise)),
        r.den > 0,
{
    let t = output_value(triangle);
    let n = output_value(noise);
    let x: i128 = t * 12241 + n * 8227;
    if x == 0 {
        Ratio { num: 0, den: 1 }
    } else {
        Ratio { num: 15979 * x, den: 100 * (LEVEL_SCALE * 8227 * 12241 + 100 * x) }
    }
}

/// The mixer's output for one sample of channel levels.
pub fn mix(levels: &ChannelLevels) -> (r: Ratio)
    requires
        levels_valid(*levels),
    ensures
        (r.num as int, r.den as int) == mix_ratio(*levels),
        r.den > 0,
{
    let p = pulse_out(levels.pulse_one, levels.pulse_two);
    let q = tnd_out(levels.triangle, levels.noise);
    assert(0 <= p.num <= 19176 && 0 < p.den <= 832800);
    assert(-20468 * LEVEL_SCALE * 15979 <= q.num <= 20468 * LEVEL_SCALE * 15979);
    assert(0 < q.den <= 100 * (LEVEL_SCALE * 8227 * 12241 + 100 * 20468 * LEVEL_SCALE));
    proof {
        assert(p.num * q.den <= 19176 * (100 * (LEVEL_SCALE * 8227 * 12241 + 100 * 20468 * LEVEL_SCALE)))
            by (nonlinear_arith)
            requires
                0 <= p.num <= 19176,
                0 < q.den <= 100 * (LEVEL_SCALE * 8227 * 12241 + 100 * 20468 * LEVEL_SCALE),
        ;
        assert(p.num * q.den >= 0) by (nonlinear_arith)
            requires
                0 <= p.num,
                0 < q.den,
        ;
        assert(-20468 * LEVEL_SCALE * 15979 * 832800 <= q.num * p.den <= 20468 * LEVEL_SCALE * 15979
            * 832800) by (nonlinear_arith)
            requires
                -20468 * LEVEL_SCALE * 15979 <= q.num <= 20468 * LEVEL_SCALE * 15979,
                0 < p.den <= 832800,
        ;
        assert(0 < p.den * q.den <= 832800 * (100 * (LEVEL_SCALE * 8227 * 12241 + 100 * 20468
            * LEVEL_SCALE))) by (nonlinear_arith)
            requires
                0 < p.den <= 832800,
                0 < q.den <= 100 * (LEVEL_SCALE * 8227 * 12241 + 100 * 20468 * LEVEL_SCALE),
        ;
    }
    Ratio { num: p.num * q.den + q.num * p.den, den: p.den * q.den }
}

/// Silence mixes to exactly 0: no pulse output gives a pulse part of 0, and
/// silent triangle and noise channels give a triangle-and-noise part of 0.
pub proof fn lemma_silence_mixes_to_zero()
    ensures
        pulse_ratio(0).0 == 0,
        tnd_ratio(0, 0).0 == 0,
        mix_ratio(ChannelLevels { pulse_one: 0, pulse_two: 0, triangle: None, noise: None }).0 == 0,
{
}

} // verus!
