use vstd::prelude::*;
use crate::column::WaveColumn;
use crate::track::{Track, aligned, empty_slots};
use crate::codec::{CodecError, encode_track, decode_track, channels_bytes, decodes_to};
use crate::waves::SAMPLE_RATE;

verus! {

/// Samples rendered per step for each step-per-minute of tempo: a render
/// lasts `length * tempo / 60` seconds.
pub const SAMPLES_PER_STEP_TEMPO: u64 = SAMPLE_RATE / 60;

/// Largest master volume, in percent.
pub const MAX_VOLUME: u32 = 100;

/// The state of a session.
pub struct SynthView {
    pub track: Seq<Seq<u32>>,
    pub tempo: u32,
    pub volume: u32,
    pub notes_per_measure: u32,
    pub measures_per_page: u32,
    pub max_pages: u32,
    pub rows_per_column: u32,
    pub playing: bool,
}

/// What a call of `play` asks the audio side to do: cancel the render in
/// flight, if any, then render `track` at `tempo` for `sample_count` samples,
/// scaled by `volume` percent.
pub struct PlayCommand {
    pub cancel_previous: bool,
    pub track: Track,
    pub tempo: u32,
    pub volume: u32,
    pub sample_count: u128,
}

/// Length in samples of a render of `length` steps at `tempo`.
pub open spec fn render_samples(length: nat, tempo: nat) -> nat {
    length * tempo * SAMPLES_PER_STEP_TEMPO as nat
}

/// `s2` is `s1` with only its track replaced by `track`.
pub open spec fn with_track(s1: SynthView, s2: SynthView, track: Seq<Seq<u32>>) -> bool {
    s2 == SynthView { track, ..s1 }
}

/// The transition and command of a call of `play` from state `s1`.
pub open spec fn play_step(s1: SynthView, s2: SynthView, cmd: PlayCommand) -> bool {
    &&& s2 == SynthView { playing: true, ..s1 }
    &&& cmd.cancel_previous == s1.playing
    &&& cmd.track@ == s1.track
    &&& cmd.tempo == s1.tempo
    &&& cmd.volume == s1.volume
    &&& cmd.sample_count == render_samples(s1.track[0].len(), s1.tempo as nat)
}

/// Renders left uncancelled after a `play` that found `live` of them.
pub open spec fn live_after_play(live: nat, cmd: PlayCommand) -> nat {
    (if cmd.cancel_previous { live - 1 } else { live as int }) as nat + 1
}

/// The sequencer session: the track being edited, its tempo and volume, its
/// page geometry, and whether a render is in flight.
pub struct Synth {
    track: Track,
    tempo: u32,
    volume: u32,
    notes_per_measure: u32,
    measures_per_page: u32,
    max_pages: u32,
    rows_per_column: u32,
    playing: bool,
}

impl View for Synth {
    type V = SynthView;

    closed spec fn view(&self) -> SynthView {
        SynthView {
            track: self.track@,
            tempo: self.tempo,
            volume: self.volume,
            notes_per_measure: self.notes_per_measure,
            measures_per_page: self.measures_per_page,
            max_pages: self.max_pages,
            rows_per_column: self.rows_per_column,
            playing: self.playing,
        }
    }
}

impl Synth {
    #[verifier::type_invariant]
    spec fn inv(&self) -> bool {
        &&& self.notes_per_measure * self.measures_per_page <= u32::MAX
        &&& self.volume <= MAX_VOLUME
    }

    /// A session with a track of `max_pages * notes_per_measure * 4` empty
    /// steps, tempo 960, full volume, and four pages.
    pub fn new(max_pages: u32, notes_per_measure: u32, measures_per_page: u32) -> (r: Synth)
        requires
            notes_per_measure * measures_per_page <= u32::MAX,
            max_pages * notes_per_measure * 4 <= usize::MAX,
        ensures
            r@ == (SynthView {
                track: Seq::new(4, |k: int| empty_slots((max_pages * notes_per_measure * 4) as nat)),
                tempo: 960,
                volume: MAX_VOLUME,
                notes_per_measure,
                measures_per_page,
                max_pages: 4,
                rows_per_column: 24,
                playing: false,
            }),
    {
        proof {
            assert(max_pages * notes_per_measure <= max_pages * notes_per_measure * 4) by (nonlinear_arith);
        }
        let size: usize = max_pages as usize * notes_per_measure as usize * 4;
        Synth {
            track: Track::new(size),
            tempo: 960,
            volume: MAX_VOLUME,
            notes_per_measure,
            measures_per_page,
            max_pages: 4,
            rows_per_column: 24,
            playing: false,
        }
    }

    /// The number of steps on one page.
    pub fn get_notes_per_page(&self) -> (r: u32)
        ensures
            r == self@.notes_per_measure * self@.measures_per_page,
    {
        proof {
            use_type_invariant(self);
        }
        self.notes_per_measure * self.measures_per_page
    }

    /// Start a render of the track, cancelling the one in flight first.
    pub fn play(&mut self) -> (cmd: PlayCommand)
        ensures
            play_step(old(self)@, final(self)@, cmd),
    {
        proof {
            use_type_invariant(&*self);
        }
        let cancel_previous = self.stop();
        let length = self.track.get_length();
        proof {
            assert(length * self.tempo * 800 <= 0xffff_ffff_ffff_ffff * 0xffff_ffff * 800)
                by (nonlinear_arith)
                requires
                    length <= 0xffff_ffff_ffff_ffff,
                    self.tempo <= 0xffff_ffff,
            ;
            assert(length * self.tempo <= 0xffff_ffff_ffff_ffff * 0xffff_ffff) by (nonlinear_arith)
                requires
                    length <= 0xffff_ffff_ffff_ffff,
                    self.tempo <= 0xffff_ffff,
            ;
        }
        let sample_count: u128 = length as u128 * self.tempo as u128 * SAMPLES_PER_STEP_TEMPO as u128;
        let cmd = PlayCommand {
            cancel_previous,
            track: self.track.snapshot(),
            tempo: self.tempo,
            volume: self.volume,
            sample_count,
        };
        self.playing = true;
        cmd
    }

    /// Cancel the render in flight, if any; true when there was one.
    pub fn stop(&mut self) -> (cancelled: bool)
        ensures
            cancelled == old(self)@.playing,
            final(self)@ == (SynthView { playing: false, ..old(self)@ }),
    {
        proof {
            use_type_invariant(&*self);
        }
        let was = self.playing;
        self.playing = false;
        was
    }

    /// The render in flight ended by itself or could not start: back to idle.
    pub fn render_ended(&mut self)
        ensures
            final(self)@ == (SynthView { playing: false, ..old(self)@ }),
    {
        proof {
            use_type_invariant(&*self);
        }
        self.playing = false;
    }

    /// Whether a render is in flight.
    pub fn is_playing(&self) -> (r: bool)
        ensures
            r == self@.playing,
    {
        self.playing
    }

    /// Replace the track by one page of empty steps.
    pub fn new_track(&mut self)
        ensures
            final(self)@ == (SynthView {
                track: Seq::new(
                    4,
                    |k: int|
                        empty_slots((old(self)@.notes_per_measure * old(self)@.measures_per_page) as nat),
                ),
                ..old(self)@
            }),
    {
        proof {
            use_type_invariant(&*self);
        }
        let n = self.get_notes_per_page();
        self.track = Track::new(n as usize);
    }

    /// Add `amount` pages of empty steps to the track.
    pub fn add_page(&mut self, amount: usize) -> (r: bool)
        requires
            old(self)@.max_pages + amount <= u32::MAX,
            old(self)@.track[0].len() + amount * (old(self)@.notes_per_measure
                * old(self)@.measures_per_page) <= usize::MAX,
        ensures
            r,
            final(self)@ == (SynthView {
                track: Seq::new(
                    4,
                    |k: int|
                        old(self)@.track[k] + empty_slots(
                            (amount * (old(self)@.notes_per_measure * old(self)@.measures_per_page)) as nat,
                        ),
                ),
                max_pages: (old(self)@.max_pages + amount) as u32,
                ..old(self)@
            }),
    {
        proof {
            use_type_invariant(&*self);
        }
        let n = self.get_notes_per_page();
        proof {
            assert(amount * n <= self.track@[0].len() + amount * n);
        }
        self.max_pages = self.max_pages + amount as u32;
        let mut t = Track::new(0);
        std::mem::swap(&mut t, &mut self.track);
        t.add_columns(amount * n as usize);
        self.track = t;
        true
    }

    /// Whether removing `amount` pages would leave steps in the track.
    pub fn can_remove_measure(&self, amount: usize) -> (r: bool)
        ensures
            r == (self@.track[0].len() > amount * (self@.notes_per_measure * self@.measures_per_page)),
    {
        let n = self.get_notes_per_page();
        let len = self.track.get_length();
        proof {
            assert(amount * n <= 0xffff_ffff_ffff_ffff * 0xffff_ffff) by (nonlinear_arith)
                requires
                    amount <= 0xffff_ffff_ffff_ffff,
                    n <= 0xffff_ffff,
            ;
        }
        len as u128 > amount as u128 * n as u128
    }

    /// Remove the last `amount` pages of the track; refused, with nothing
    /// changed, when no step would be left or there are fewer pages.
    pub fn remove_page(&mut self, amount: usize) -> (r: bool)
        ensures
            r == (amount <= old(self)@.max_pages && old(self)@.track[0].len() > amount * (old(
                self,
            )@.notes_per_measure * old(self)@.measures_per_page)),
            r ==> final(self)@ == (SynthView {
                track: Seq::new(
                    4,
                    |k: int|
                        old(self)@.track[k].subrange(
                            0,
                            old(self)@.track[0].len() - amount * (old(self)@.notes_per_measure
                                * old(self)@.measures_per_page),
                        ),
                ),
                max_pages: (old(self)@.max_pages - amount) as u32,
                ..old(self)@
            }),
            !r ==> final(self)@ == old(self)@,
    {
        proof {
            use_type_invariant(&*self);
        }
        if amount > self.max_pages as usize || !self.can_remove_measure(amount) {
            return false;
        }
        let n = self.get_notes_per_page();
        let len = self.track.get_length();
        assert(amount * n < len);
        let removed: usize = amount * n as usize;
        self.max_pages = self.max_pages - amount as u32;
        let mut t = Track::new(0);
        std::mem::swap(&mut t, &mut self.track);
        let done = t.remove_columns(removed);
        assert(done);
        self.track = t;
        true
    }

    /// A copy of the step at `column_index` of channel `selected_channel`,
    /// if both are in range.
    pub fn get_channel_column(&self, column_index: usize, selected_channel: usize) -> (r: Option<
        WaveColumn,
    >)
        ensures
            r is Some <==> (selected_channel < 4 && column_index < self@.track[0].len()),
            r matches Some(c) ==> c@ == self@.track[selected_channel as int][column_index as int],
    {
        self.track.get_column(selected_channel, column_index)
    }

    /// Select row `row` of the step at `column_index` of channel
    /// `selected_channel`; false, with nothing changed, when out of range.
    pub fn select_note(&mut self, column_index: usize, selected_channel: usize, row: u32) -> (r: bool)
        requires
            row < 32,
        ensures
            r == (selected_channel < 4 && column_index < old(self)@.track[0].len()),
            r ==> with_track(
                old(self)@,
                final(self)@,
                old(self)@.track.update(
                    selected_channel as int,
                    old(self)@.track[selected_channel as int].update(
                        column_index as int,
                        crate::column::select_mask(
                            old(self)@.track[selected_channel as int][column_index as int],
                            row,
                        ),
                    ),
                ),
            ),
            !r ==> final(self)@ == old(self)@,
    {
        proof {
            use_type_invariant(&*self);
        }
        let mut t = Track::new(0);
        std::mem::swap(&mut t, &mut self.track);
        let r = t.select(selected_channel, column_index, row);
        self.track = t;
        r
    }

    /// The bytes of the track.
    pub fn save_track(&self) -> (r: Result<Vec<u8>, CodecError>)
        ensures
            r is Ok,
            r matches Ok(b) ==> b@ == channels_bytes(self@.track),
    {
        encode_track(&self.track)
    }

    /// Replace the track by the one at the start of `bytes`; on failure the
    /// session is left unchanged.
    pub fn load_track(&mut self, bytes: &[u8]) -> (r: Result<(), CodecError>)
        ensures
            r is Ok <==> exists|chs: Seq<Seq<u32>>| decodes_to(bytes@, chs) && aligned(chs),
            r is Ok ==> decodes_to(bytes@, final(self)@.track) && with_track(
                old(self)@,
                final(self)@,
                final(self)@.track,
            ),
            r is Err ==> final(self)@ == old(self)@,
            r == Err::<(), CodecError>(CodecError::Malformed) <==> !exists|chs: Seq<Seq<u32>>|
                decodes_to(bytes@, chs),
            r is Err ==> r == Err::<(), CodecError>(CodecError::Malformed) || r == Err::<
                (),
                CodecError,
            >(CodecError::UnequalChannels),
    {
        proof {
            use_type_invariant(&*self);
        }
        match decode_track(bytes) {
            Ok(t) => {
                self.track = t;
                Ok(())
            },
            Err(e) => Err(e),
        }
    }

    /// The track.
    pub fn track(&self) -> (r: &Track)
        ensures
            r@ == self@.track,
    {
        &self.track
    }

    /// Tempo in steps per minute.
    pub fn tempo(&self) -> (r: u32)
        ensures
            r == self@.tempo,
    {
        self.tempo
    }

    /// Set the tempo in steps per minute.
    pub fn set_tempo(&mut self, tempo: u32)
        ensures
            final(self)@ == (SynthView { tempo, ..old(self)@ }),
    {
        proof {
            use_type_invariant(&*self);
        }
        self.tempo = tempo;
    }

    /// Master volume in percent.
    pub fn volume(&self) -> (r: u32)
        ensures
            r == self@.volume,
            r <= MAX_VOLUME,
    {
        proof {
            use_type_invariant(self);
        }
        self.volume
    }

    /// Set the master volume in percent, capped at `MAX_VOLUME`.
    pub fn set_volume(&mut self, volume: u32)
        ensures
            final(self)@ == (SynthView {
                volume: if volume > MAX_VOLUME { MAX_VOLUME } else { volume },
                ..old(self)@
            }),
    {
        proof {
            use_type_invariant(&*self);
        }
        self.volume = if volume > MAX_VOLUME {
            MAX_VOLUME
        } else {
            volume
        };
    }

    /// Steps per measure.
    pub fn notes_per_measure(&self) -> (r: u32)
        ensures
            r == self@.notes_per_measure,
    {
        self.notes_per_measure
    }

    /// Measures per page.
    pub fn measures_per_page(&self) -> (r: u32)
        ensures
            r == self@.measures_per_page,
    {
        self.measures_per_page
    }

    /// Number of pages.
    pub fn max_pages(&self) -> (r: u32)
        ensures
            r == self@.max_pages,
    {
        self.max_pages
    }

    /// Note rows shown per step.
    pub fn rows_per_column(&self) -> (r: u32)
        ensures
            r == self@.rows_per_column,
    {
        self.rows_per_column
    }
}

impl Default for Synth {
    /// The session `Synth::new(8, 4, 4)`.
    fn default() -> (r: Synth)
        ensures
            r@ == (SynthView {
                track: Seq::new(4, |k: int| empty_slots(128)),
                tempo: 960,
                volume: MAX_VOLUME,
                notes_per_measure: 4,
                measures_per_page: 4,
                max_pages: 4,
                rows_per_column: 24,
                playing: false,
            }),
    {
        Synth::new(8, 4, 4)
    }
}

/// Two calls of `play` in a row never leave two renders uncancelled: the
/// second cancels the render the first started, and one render is left.
pub proof fn lemma_play_twice(
    s0: SynthView,
    s1: SynthView,
    s2: SynthView,
    c1: PlayCommand,
    c2: PlayCommand,
)
    requires
        play_step(s0, s1, c1),
        play_step(s1, s2, c2),
    ensures
        c2.cancel_previous,
        s2.playing,
        live_after_play(if s0.playing { 1 } else { 0 }, c1) == 1,
        live_after_play(live_after_play(if s0.playing { 1 } else { 0 }, c1), c2) == 1,
{
}

} // verus!
