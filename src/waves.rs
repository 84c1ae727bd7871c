use vstd::prelude::*;
use vstd::arithmetic::div_mod::lemma_mul_mod_noop_left;
use rand::Rng;
use crate::column::{WaveColumn, note_of_mask};
use vstd::std_specs::bits::axiom_u32_trailing_zeros;
use crate::track::{Track, masks_of};
use crate::mixer::{Ratio, mix, mix_ratio, levels_valid};

verus! {

/// Samples per second of every generator.
pub const SAMPLE_RATE: u64 = 48000;

/// Samples per minute: a tempo in steps per minute advances one step every
/// `SAMPLES_PER_MINUTE / tempo` samples.
pub const SAMPLES_PER_MINUTE: u64 = 2880000;

/// Clock rate of the emulated console's processor.
pub const CPU_CLOCK: u32 = 1789773;

/// Number of output levels of the triangle and noise channels.
pub const LEVEL_COUNT: u32 = 16;

/// Number of entries of the period table.
pub const PERIOD_COUNT: i32 = 80;

/// Duty cycle of the track's pulse channels, in percent.
pub const SQUARE_DUTY: u32 = 50;

/// The console's timer periods, by note.
pub open spec fn periods() -> Seq<u32> {
    seq![
        2033u32, 1919, 1811, 1709, 1613, 1523, 1437, 1356, 1280, 1208,
        1140, 1076, 1016, 959, 905, 854, 806, 761, 718, 678,
        640, 604, 570, 538, 507, 479, 452, 427, 403, 380,
        359, 338, 319, 301, 284, 268, 253, 239, 225, 213,
        201, 189, 179, 169, 159, 150, 142, 134, 126, 119,
        112, 106, 100, 94, 89, 84, 79, 75, 70, 66,
        63, 59, 56, 52, 49, 47, 44, 41, 39, 37,
        35, 33, 31, 29, 27, 26, 24, 23, 21, 20,
    ]
}

/// The frequency in hertz, rounded down, that the console plays for a note;
/// 0 for a note outside the period table.
pub open spec fn hardware_freq(note: int) -> nat {
    if 0 <= note < PERIOD_COUNT {
        (CPU_CLOCK as int / (16 * (periods()[note] + 1))) as nat
    } else {
        0
    }
}

/// Pulse output at sample `n` for a wave of frequency `freq`: low for the
/// first `duty` percent of each period, high for the rest.
pub open spec fn pulse_level(freq: nat, n: nat, duty: nat) -> u32 {
    if ((n * freq) % (SAMPLE_RATE as nat)) * 100 < SAMPLE_RATE * duty {
        0
    } else {
        1
    }
}

/// Triangle level at sample `n` for frequency `freq`, where one period of
/// the wave spans `cycle / freq` samples: the distance of the phase from the
/// middle of the period, in thirtieths of the period, rounded to nearest.
pub open spec fn triangle_level(freq: int, n: int, cycle: int) -> int {
    let q = (n * freq) % cycle;
    let d = if q >= cycle / 2 { q - cycle / 2 } else { cycle / 2 - q };
    (d + cycle / 60) / (cycle / 30)
}

/// The step that sample `n` falls in, for a channel of `len` steps at
/// `tempo` steps per minute; none past the end of the channel.
pub open spec fn step_at(n: nat, tempo: nat, len: nat) -> Option<nat> {
    if len == 0 || n * tempo > len * SAMPLES_PER_MINUTE {
        None
    } else if n * tempo / (SAMPLES_PER_MINUTE as nat) < len {
        Some(n * tempo / (SAMPLES_PER_MINUTE as nat))
    } else {
        Some((len - 1) as nat)
    }
}

/// Pulse channel output for a step holding mask `m`: low when silent.
pub open spec fn pulse_output(m: u32, n: nat, duty: nat) -> u32 {
    if note_of_mask(m) == -1 {
        0
    } else {
        pulse_level(hardware_freq(note_of_mask(m)), n, duty)
    }
}

/// Triangle channel output for a step holding mask `m`: none when silent.
/// The console plays the triangle an octave below the pulse channels.
pub open spec fn triangle_output(m: u32, n: nat) -> Option<u32> {
    if note_of_mask(m) == -1 {
        None
    } else {
        Some(triangle_level(hardware_freq(note_of_mask(m)) as int, n as int, 2 * SAMPLE_RATE) as u32)
    }
}

/// Noise channel output for a step holding mask `m`, given a drawn level.
pub open spec fn noise_output(m: u32, draw: u32) -> Option<u32> {
    if note_of_mask(m) == -1 {
        None
    } else {
        Some(draw)
    }
}

/// The period of a note in the table.
fn period_at(i: usize) -> (r: u32)
    requires
        i < 80,
    ensures
        r == periods()[i as int],
{
    let table: [u32; 80] = [
        2033, 1919, 1811, 1709, 1613, 1523, 1437, 1356, 1280, 1208,
        1140, 1076, 1016, 959, 905, 854, 806, 761, 718, 678,
        640, 604, 570, 538, 507, 479, 452, 427, 403, 380,
        359, 338, 319, 301, 284, 268, 253, 239, 225, 213,
        201, 189, 179, 169, 159, 150, 142, 134, 126, 119,
        112, 106, 100, 94, 89, 84, 79, 75, 70, 66,
        63, 59, 56, 52, 49, 47, 44, 41, 39, 37,
        35, 33, 31, 29, 27, 26, 24, 23, 21, 20,
    ];
    assert(table@ =~= periods());
    table[i]
}

/// The frequency the console plays for `note`; 0 outside the period table.
pub fn get_frequency(note: i32) -> (r: u32)
    ensures
        r == hardware_freq(note as int),
{
    if note < 0 || note >= PERIOD_COUNT {
        return 0;
    }
    let p = period_at(note as usize);
    CPU_CLOCK / (16 * (p + 1))
}

/// `pulse_level` on machine integers.
fn pulse_at(freq: u32, n: u64, duty: u32) -> (r: u32)
    ensures
        r == pulse_level(freq as nat, n as nat, duty as nat),
{
    let m: u64 = n % SAMPLE_RATE;
    proof {
        lemma_mul_mod_noop_left(n as int, freq as int, SAMPLE_RATE as int);
        assert(m * freq <= 48000 * 0xffff_ffff) by (nonlinear_arith)
            requires
                m < 48000,
                freq <= 0xffff_ffff,
        ;
    }
    let phase: u64 = (m * freq as u64) % SAMPLE_RATE;
    if phase * 100 < SAMPLE_RATE * duty as u64 {
        0
    } else {
        1
    }
}

/// `triangle_level` on machine integers, for the two cycles in use.
fn triangle_at(freq: u32, n: u64, cycle: u64) -> (r: u32)
    requires
        cycle == SAMPLE_RATE || cycle == 2 * SAMPLE_RATE,
    ensures
        r == triangle_level(freq as int, n as int, cycle as int),
        r < LEVEL_COUNT,
{
    let m: u64 = n % cycle;
    proof {
        lemma_mul_mod_noop_left(n as int, freq as int, cycle as int);
        assert(m * freq <= 96000 * 0xffff_ffff) by (nonlinear_arith)
            requires
                m < cycle,
                cycle <= 96000,
                freq <= 0xffff_ffff,
        ;
    }
    let q: u64 = (m * freq as u64) % cycle;
    let half: u64 = cycle / 2;
    let d: u64 = if q >= half {
        q - half
    } else {
        half - q
    };
    let level: u64 = (d + cycle / 60) / (cycle / 30);
    proof {
        lemma_triangle_level_bound(freq as int, n as int, cycle as int);
    }
    level as u32
}

/// Relies on rand::thread_rng and Rng::gen_range, which draws a value from
/// the range `0..bound` and panics only on an empty range.
#[verifier::external_body]
fn random_below(bound: u32) -> (r: u32)
    requires
        bound > 0,
    ensures
        r < bound,
{
    rand::thread_rng().gen_range(0..bound)
}

/// The levels of the four channels at one sample. The pulse channels give 0
/// or 1; the triangle and noise channels give an index into the sixteen
/// output levels, or none when silent.
#[derive(Clone, Copy, Debug, PartialEq, Eq)]
pub struct ChannelLevels {
    pub pulse_one: u32,
    pub pulse_two: u32,
    pub triangle: Option<u32>,
    pub noise: Option<u32>,
}

/// One sample of a render: past the end of the track, or the channels' levels.
#[derive(Clone, Copy, Debug, PartialEq, Eq)]
pub enum Frame {
    Ended,
    Levels(ChannelLevels),
}

/// The frame at sample `n` of channels `chs` played at `tempo`, the noise
/// channel drawing level `draw`.
pub open spec fn frame_spec(chs: Seq<Seq<u32>>, tempo: u32, n: u64, draw: u32) -> Frame {
    match step_at(n as nat, tempo as nat, chs[0].len()) {
        None => Frame::Ended,
        Some(s) => Frame::Levels(
            ChannelLevels {
                pulse_one: pulse_output(chs[0][s as int], n as nat, SQUARE_DUTY as nat),
                pulse_two: pulse_output(chs[1][s as int], n as nat, SQUARE_DUTY as nat),
                triangle: triangle_output(chs[2][s as int], n as nat),
                noise: noise_output(chs[3][s as int], draw),
            },
        ),
    }
}

/// The sample counter after `n`, wrapping to 0.
pub open spec fn next_sample(n: u64) -> u64 {
    if n == u64::MAX {
        0
    } else {
        (n + 1) as u64
    }
}

/// A square-wave pulse channel playing the notes of a channel's steps.
#[derive(Debug)]
pub struct NESPulseWave {
    sequence_columns: Vec<WaveColumn>,
}

impl View for NESPulseWave {
    type V = Seq<u32>;

    closed spec fn view(&self) -> Seq<u32> {
        masks_of(self.sequence_columns@)
    }
}

impl NESPulseWave {
    pub fn new(sequence_columns: Vec<WaveColumn>) -> (r: NESPulseWave)
        ensures
            r@ == masks_of(sequence_columns@),
    {
        NESPulseWave { sequence_columns }
    }

    /// Output at sample `num_sample` in step `index`.
    pub fn next(&self, num_sample: u64, index: usize) -> (r: u32)
        requires
            index < self@.len(),
        ensures
            r == pulse_output(self@[index as int], num_sample as nat, SQUARE_DUTY as nat),
    {
        let col = self.sequence_columns[index];
        assert(col@ == self@[index as int]);
        let note = col.get_index();
        if note == -1 {
            return 0;
        }
        pulse_at(get_frequency(note), num_sample, SQUARE_DUTY)
    }
}

/// A sixteen-level triangle channel playing the notes of a channel's steps.
#[derive(Debug)]
pub struct NESTriangleWave {
    sequence_columns: Vec<WaveColumn>,
}

impl View for NESTriangleWave {
    type V = Seq<u32>;

    closed spec fn view(&self) -> Seq<u32> {
        masks_of(self.sequence_columns@)
    }
}

impl NESTriangleWave {
    pub fn new(sequence_columns: Vec<WaveColumn>) -> (r: NESTriangleWave)
        ensures
            r@ == masks_of(sequence_columns@),
    {
        NESTriangleWave { sequence_columns }
    }

    /// Output level at sample `num_sample` in step `index`.
    pub fn next(&self, num_sample: u64, index: usize) -> (r: Option<u32>)
        requires
            index < self@.len(),
        ensures
            r == triangle_output(self@[index as int], num_sample as nat),
            r matches Some(l) ==> l < LEVEL_COUNT,
    {
        let col = self.sequence_columns[index];
        assert(col@ == self@[index as int]);
        let note = col.get_index();
        if note == -1 {
            return None;
        }
        Some(triangle_at(get_frequency(note), num_sample, 2 * SAMPLE_RATE))
    }
}

/// A sixteen-level noise channel sounding on a channel's active steps.
#[derive(Debug)]
pub struct NESNoise {
    sequence_columns: Vec<WaveColumn>,
}

impl View for NESNoise {
    type V = Seq<u32>;

    closed spec fn view(&self) -> Seq<u32> {
        masks_of(self.sequence_columns@)
    }
}

impl NESNoise {
    pub fn new(sequence_columns: Vec<WaveColumn>) -> (r: NESNoise)
        ensures
            r@ == masks_of(sequence_columns@),
    {
        NESNoise { sequence_columns }
    }

    /// Output level in step `index` when the drawn level is `draw`.
    pub fn level(&self, index: usize, draw: u32) -> (r: Option<u32>)
        requires
            index < self@.len(),
        ensures
            r == noise_output(self@[index as int], draw),
    {
        let col = self.sequence_columns[index];
        assert(col@ == self@[index as int]);
        if col.get_index() == -1 {
            return None;
        }
        Some(draw)
    }

    /// Output level in step `index`, drawn at random when the step sounds.
    pub fn next(&self, index: usize) -> (r: Option<u32>)
        requires
            index < self@.len(),
        ensures
            r is Some <==> note_of_mask(self@[index as int]) != -1,
            r matches Some(l) ==> l < LEVEL_COUNT,
    {
        let draw = random_below(LEVEL_COUNT);
        self.level(index, draw)
    }
}

/// The state of a render in progress.
pub struct OscillatorsView {
    pub channels: Seq<Seq<u32>>,
    pub num_sample: u64,
    pub tempo: u32,
}

/// The four channel generators of a render, driven by one sample counter.
#[derive(Debug)]
pub struct Oscillators {
    pulse_one: NESPulseWave,
    pulse_two: NESPulseWave,
    triangle: NESTriangleWave,
    noise: NESNoise,
    num_sample: u64,
    tempo: u32,
    length: usize,
}

impl View for Oscillators {
    type V = OscillatorsView;

    closed spec fn view(&self) -> OscillatorsView {
        OscillatorsView {
            channels: seq![self.pulse_one@, self.pulse_two@, self.triangle@, self.noise@],
            num_sample: self.num_sample,
            tempo: self.tempo,
        }
    }
}

impl Oscillators {
    #[verifier::type_invariant]
    spec fn inv(&self) -> bool {
        &&& self.pulse_one@.len() == self.length
        &&& self.pulse_two@.len() == self.length
        &&& self.triangle@.len() == self.length
        &&& self.noise@.len() == self.length
    }

    /// A render of `track` at `tempo` steps per minute, before its first sample.
    pub fn new(track: &Track, tempo: u32) -> (r: Oscillators)
        ensures
            r@.channels == track@,
            r@.num_sample == 0,
            r@.tempo == tempo,
    {
        let length = track.get_length();
        let r = Oscillators {
            pulse_one: NESPulseWave::new(track.channel(0)),
            pulse_two: NESPulseWave::new(track.channel(1)),
            triangle: NESTriangleWave::new(track.channel(2)),
            noise: NESNoise::new(track.channel(3)),
            num_sample: 0,
            tempo,
            length,
        };
        assert(r@.channels =~= track@);
        r
    }

    /// The frame at sample `num_sample` when the noise channel draws `noise_draw`.
    pub fn frame_at(&self, num_sample: u64, noise_draw: u32) -> (r: Frame)
        ensures
            r == frame_spec(self@.channels, self@.tempo, num_sample, noise_draw),
    {
        proof {
            use_type_invariant(self);
        }
        let len = self.length;
        proof {
            assert(num_sample * self.tempo <= 0xffff_ffff_ffff_ffff * 0xffff_ffff) by (nonlinear_arith)
                requires
                    num_sample <= 0xffff_ffff_ffff_ffff,
                    self.tempo <= 0xffff_ffff,
            ;
        }
        let reach: u128 = num_sample as u128 * self.tempo as u128;
        if len == 0 || reach > len as u128 * SAMPLES_PER_MINUTE as u128 {
            return Frame::Ended;
        }
        let step: u128 = reach / SAMPLES_PER_MINUTE as u128;
        let s: usize = if step < len as u128 {
            step as usize
        } else {
            len - 1
        };
        Frame::Levels(
            ChannelLevels {
                pulse_one: self.pulse_one.next(num_sample, s),
                pulse_two: self.pulse_two.next(num_sample, s),
                triangle: self.triangle.next(num_sample, s),
                noise: self.noise.level(s, noise_draw),
            },
        )
    }

    /// Advance the sample counter and give the frame of the new sample; the
    /// noise level is drawn at random.
    pub fn next_frame(&mut self) -> (r: Frame)
        ensures
            final(self)@.channels == old(self)@.channels,
            final(self)@.tempo == old(self)@.tempo,
            final(self)@.num_sample == next_sample(old(self)@.num_sample),
            exists|d: u32|
                d < LEVEL_COUNT && r == frame_spec(
                    old(self)@.channels,
                    old(self)@.tempo,
                    final(self)@.num_sample,
                    d,
                ),
    {
        proof {
            use_type_invariant(&*self);
        }
        self.num_sample = self.num_sample.wrapping_add(1);
        let draw = random_below(LEVEL_COUNT);
        let r = self.frame_at(self.num_sample, draw);
        assert(draw < LEVEL_COUNT && r == frame_spec(
            old(self)@.channels,
            old(self)@.tempo,
            self@.num_sample,
            draw,
        ));
        r
    }
}

/// The mixer's output for a frame: none past the end of the track.
pub open spec fn output_matches(r: Option<Ratio>, f: Frame) -> bool {
    match f {
        Frame::Ended => r is None,
        Frame::Levels(l) => r matches Some(x) && (x.num as int, x.den as int) == mix_ratio(l),
    }
}

/// A triangle level is one of the sixteen levels.
pub proof fn lemma_triangle_level_bound(freq: int, n: int, cycle: int)
    requires
        freq >= 0,
        n >= 0,
        cycle == SAMPLE_RATE || cycle == 2 * SAMPLE_RATE,
    ensures
        0 <= triangle_level(freq, n, cycle) < LEVEL_COUNT,
{
    let q = (n * freq) % cycle;
    assert(0 <= q < cycle) by (nonlinear_arith)
        requires
            cycle > 0,
            n * freq >= 0,
            q == (n * freq) % cycle,
    ;
    assert(n * freq >= 0) by (nonlinear_arith)
        requires
            freq >= 0,
            n >= 0,
    ;
    let d = if q >= cycle / 2 { q - cycle / 2 } else { cycle / 2 - q };
    if cycle == SAMPLE_RATE {
        assert((d + 800) / 1600 < 16) by (nonlinear_arith)
            requires
                0 <= d <= 24000,
        ;
    } else {
        assert((d + 1600) / 3200 < 16) by (nonlinear_arith)
            requires
                0 <= d <= 48000,
        ;
    }
}

/// Every frame of a render holds levels the mixer accepts.
pub proof fn lemma_frame_levels_valid(chs: Seq<Seq<u32>>, tempo: u32, n: u64, draw: u32)
    requires
        draw < LEVEL_COUNT,
    ensures
        frame_spec(chs, tempo, n, draw) matches Frame::Levels(l) ==> levels_valid(l),
{
    if let Some(s) = step_at(n as nat, tempo as nat, chs[0].len()) {
        let m = chs[2][s as int];
        if note_of_mask(m) != -1 {
            lemma_triangle_level_bound(hardware_freq(note_of_mask(m)) as int, n as int, 2 * SAMPLE_RATE);
        }
    }
}

/// The notes that a step can hold lie in the middle of the period table, where
/// frequencies are between 440 and 2663 hertz.
proof fn lemma_note_freq_range(m: u32)
    requires
        m != 0,
    ensures
        36 <= note_of_mask(m) < 68,
        440 <= hardware_freq(note_of_mask(m)) <= 2663,
{
    axiom_u32_trailing_zeros(m);
    let i = note_of_mask(m);
    assert(36 <= i < 68);
    assert(41 <= periods()[i] <= 253) by {
        let t = periods();
        if i == 36 {
            assert(t[36] == 253);
        } else if i == 37 {
            assert(t[37] == 239);
        } else if i == 38 {
            assert(t[38] == 225);
        } else if i == 39 {
            assert(t[39] == 213);
        } else if i == 40 {
            assert(t[40] == 201);
        } else if i == 41 {
            assert(t[41] == 189);
        } else if i == 42 {
            assert(t[42] == 179);
        } else if i == 43 {
            assert(t[43] == 169);
        } else if i == 44 {
            assert(t[44] == 159);
        } else if i == 45 {
            assert(t[45] == 150);
        } else if i == 46 {
            assert(t[46] == 142);
        } else if i == 47 {
            assert(t[47] == 134);
        } else if i == 48 {
            assert(t[48] == 126);
        } else if i == 49 {
            assert(t[49] == 119);
        } else if i == 50 {
            assert(t[50] == 112);
        } else if i == 51 {
            assert(t[51] == 106);
        } else if i == 52 {
            assert(t[52] == 100);
        } else if i == 53 {
            assert(t[53] == 94);
        } else if i == 54 {
            assert(t[54] == 89);
        } else if i == 55 {
            assert(t[55] == 84);
        } else if i == 56 {
            assert(t[56] == 79);
        } else if i == 57 {
            assert(t[57] == 75);
        } else if i == 58 {
            assert(t[58] == 70);
        } else if i == 59 {
            assert(t[59] == 66);
        } else if i == 60 {
            assert(t[60] == 63);
        } else if i == 61 {
            assert(t[61] == 59);
        } else if i == 62 {
            assert(t[62] == 56);
        } else if i == 63 {
            assert(t[63] == 52);
        } else if i == 64 {
            assert(t[64] == 49);
        } else if i == 65 {
            assert(t[65] == 47);
        } else if i == 66 {
            assert(t[66] == 44);
        } else if i == 67 {
            assert(t[67] == 41);
        }
    }
    let p = periods()[i] as int;
    assert(1789773int / (16 * (p + 1)) >= 440) by (nonlinear_arith)
        requires
            41 <= p <= 253,
    ;
    assert(1789773int / (16 * (p + 1)) <= 2663) by (nonlinear_arith)
        requires
            41 <= p <= 253,
    ;
}

/// A render of a track whose first pulse channel holds a note at step 0, and
/// whose other channels are silent there, is audible: at a tempo of at most
/// 6000 steps per minute, some sample of step 0 mixes to a non-zero output.
pub proof fn lemma_first_note_sounds(chs: Seq<Seq<u32>>, tempo: u32, draw: u32)
    requires
        chs.len() == 4,
        forall|k: int| 0 <= k < 4 ==> #[trigger] chs[k].len() >= 1,
        chs[0][0] != 0,
        chs[1][0] == 0,
        chs[2][0] == 0,
        chs[3][0] == 0,
        tempo <= 6000,
    ensures
        exists|n: u64|
            1 <= n <= 55 && (#[trigger] frame_spec(chs, tempo, n, draw) matches Frame::Levels(l) && l.pulse_one
                == 1 && mix_ratio(l).0 > 0),
{
    lemma_note_freq_range(chs[0][0]);
    let f = hardware_freq(note_of_mask(chs[0][0])) as int;
    let n: int = (24000 + f - 1) / f;
    assert(24000 <= n * f < 24000 + f && 1 <= n <= 55) by (nonlinear_arith)
        requires
            440 <= f <= 2663,
            n == (24000 + f - 1) / f,
    ;
    assert(n * tempo <= 55 * 6000) by (nonlinear_arith)
        requires
            1 <= n <= 55,
            tempo <= 6000,
    ;
    assert((n * f) % 48000 == n * f);
    let nn = n as u64;
    assert(step_at(nn as nat, tempo as nat, chs[0].len()) == Some(0nat)) by {
        assert(n * tempo / 2880000 == 0);
    }
    assert(note_of_mask(0) == -1);
    let fr = frame_spec(chs, tempo, nn, draw);
    assert(fr matches Frame::Levels(l) && l.pulse_one == 1 && mix_ratio(l).0 > 0);
}

impl Oscillators {
    /// Advance the sample counter and give the mixer's output for the new
    /// sample; none past the end of the track. The noise level is drawn at random.
    pub fn next_output(&mut self) -> (r: Option<Ratio>)
        ensures
            final(self)@.channels == old(self)@.channels,
            final(self)@.tempo == old(self)@.tempo,
            final(self)@.num_sample == next_sample(old(self)@.num_sample),
            exists|d: u32|
                d < LEVEL_COUNT && output_matches(
                    r,
                    frame_spec(old(self)@.channels, old(self)@.tempo, final(self)@.num_sample, d),
                ),
    {
        let f = self.next_frame();
        let ghost d = choose|d: u32|
            d < LEVEL_COUNT && f == frame_spec(
                old(self)@.channels,
                old(self)@.tempo,
                self@.num_sample,
                d,
            );
        proof {
            lemma_frame_levels_valid(old(self)@.channels, old(self)@.tempo, self@.num_sample, d);
        }
        let r = match f {
            Frame::Ended => None,
            Frame::Levels(l) => Some(mix(&l)),
        };
        assert(output_matches(r, frame_spec(old(self)@.channels, old(self)@.tempo, self@.num_sample, d)));
        r
    }
}

/// A sixteen-level triangle wave of one note, with its own sample counter.
#[derive(Clone, Copy, Debug)]
pub struct NESTriangleWaveNote {
    freq: u32,
    num_sample: u64,
}

impl View for NESTriangleWaveNote {
    /// Frequency and sample counter.
    type V = (u32, u64);

    closed spec fn view(&self) -> (u32, u64) {
        (self.freq, self.num_sample)
    }
}

impl NESTriangleWaveNote {
    /// A triangle wave of note `index`; silent-pitched (frequency 0) outside the table.
    pub fn new(index: i32) -> (r: NESTriangleWaveNote)
        ensures
            r@ == (hardware_freq(index as int) as u32, 0u64),
    {
        NESTriangleWaveNote { freq: get_frequency(index), num_sample: 0 }
    }

    /// Advance the counter and give the level of the new sample.
    pub fn next(&mut self) -> (r: u32)
        ensures
            final(self)@ == (old(self)@.0, next_sample(old(self)@.1)),
            r == triangle_level(old(self)@.0 as int, final(self)@.1 as int, SAMPLE_RATE as int),
            r < LEVEL_COUNT,
    {
        self.num_sample = self.num_sample.wrapping_add(1);
        triangle_at(self.freq, self.num_sample, SAMPLE_RATE)
    }
}

/// A pulse wave of one note with a given duty cycle, with its own sample counter.
#[derive(Clone, Copy, Debug)]
pub struct NESPulseWaveNote {
    freq: u32,
    duty: u32,
    num_sample: u64,
}

impl View for NESPulseWaveNote {
    /// Frequency, duty cycle in percent, and sample counter.
    type V = (u32, u32, u64);

    closed spec fn view(&self) -> (u32, u32, u64) {
        (self.freq, self.duty, self.num_sample)
    }
}

impl NESPulseWaveNote {
    /// A pulse wave of note `index`, low for `duty` percent of each period.
    pub fn new(index: i32, duty: u32) -> (r: NESPulseWaveNote)
        ensures
            r@ == (hardware_freq(index as int) as u32, duty, 0u64),
    {
        NESPulseWaveNote { freq: get_frequency(index), duty, num_sample: 0 }
    }

    /// Advance the counter and give the output of the new sample.
    pub fn next(&mut self) -> (r: u32)
        ensures
            final(self)@ == (old(self)@.0, old(self)@.1, next_sample(old(self)@.2)),
            r == pulse_level(old(self)@.0 as nat, final(self)@.2 as nat, old(self)@.1 as nat),
    {
        self.num_sample = self.num_sample.wrapping_add(1);
        pulse_at(self.freq, self.num_sample, self.duty)
    }
}

/// Sixteen-level noise, one random level per sample.
#[derive(Clone, Copy, Debug)]
pub struct NESNoiseNote {}

impl NESNoiseNote {
    pub fn new() -> (r: NESNoiseNote) {
        NESNoiseNote {  }
    }

    /// A random level.
    pub fn next(&mut self) -> (r: u32)
        ensures
            r < LEVEL_COUNT,
    {
        random_below(LEVEL_COUNT)
    }
}

} // verus!
