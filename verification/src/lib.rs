//! A compact textual notation for monophonic and chordal melodies, compiled
//! to a stream of audio events.
//!
//! Pieces are written with scale degrees, relative durations, ties,
//! accidentals, octave shifts and Roman-numeral harmony markers. The library
//! parses that notation into a spanned instruction sequence, resolves scale
//! degrees and harmonies to pitches (measured in semitones above A440), and
//! steps a playback interpreter through the instructions, producing for each
//! note the data a synthesizer needs: a duration in milliseconds and the
//! stack of simultaneous pitches. Turning those pitches into floating-point
//! samples is left to the embedding program.

pub mod grammar;
pub mod model;
pub mod playback;
pub mod session;
pub mod songs;
pub mod spans;
pub mod theory;

use vstd::prelude::*;

verus! {

/// Samples per second that the audio contract assumes.
pub const SAMPLE_RATE: u64 = 44100;

} // verus!
