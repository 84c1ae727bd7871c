//! A step sequencer for a four-channel chiptune synthesizer: the track model,
//! its file encoding, the channel generators, and the playback session.
use vstd::prelude::*;

pub mod column;
pub mod track;
pub mod codec;
pub mod waves;
pub mod synth;
pub mod mixer;

pub use column::WaveColumn;
pub use track::Track;
pub use codec::{CodecError, encode_track, decode_track};
pub use waves::{
    ChannelLevels, Frame, NESNoise, NESNoiseNote, NESPulseWave, NESPulseWaveNote,
    NESTriangleWave, NESTriangleWaveNote, Oscillators, get_frequency,
};
pub use synth::{PlayCommand, Synth};
pub use mixer::{Ratio, mix, pulse_out, tnd_out};

verus! {

} // verus!
