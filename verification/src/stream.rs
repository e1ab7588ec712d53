//! Stream vocabulary: the format a source produces, the state a read call
//! ends in, and the capability contract every audio source meets.

use vstd::prelude::*;

verus! {

/// Channel layout and sample rate of a stream: one channel, or two channels
/// interleaved, at the given rate in frames per second. Fixed per source for
/// its lifetime.
#[derive(Clone, Copy, Debug, PartialEq, Eq, Structural)]
pub enum AudioFormat {
    Mono(u32),
    Stereo(u32),
}

impl AudioFormat {
    /// The sample rate in frames per second.
    pub open spec fn spec_rate(self) -> u32 {
        match self {
            AudioFormat::Mono(rate) => rate,
            AudioFormat::Stereo(rate) => rate,
        }
    }
}

/// How a read call terminated: the buffer was fully satisfied (`Good`), the
/// stream ended with `n` valid samples (`Finished`), or the read fell short
/// with `n` valid samples while the stream may still produce more
/// (`Underrun`).
#[derive(Clone, Copy, Debug, PartialEq, Eq, Structural)]
pub enum StreamState {
    Good,
    Finished(usize),
    Underrun(usize),
}

/// The number of leading buffer entries that hold valid samples after a read
/// of a buffer of length `len` returned `state`.
pub open spec fn valid_count(state: StreamState, len: int) -> int {
    match state {
        StreamState::Good => len,
        StreamState::Finished(n) => n as int,
        StreamState::Underrun(n) => n as int,
    }
}

/// A pull-based producer of single-precision samples, carried as `u32` bit
/// patterns. A read fills the leading `valid_count` entries of the buffer
/// with samples, reports no more valid samples than the buffer holds, and
/// leaves the entries past the valid prefix as they were.
pub trait AudioSource {
    /// The format of this source's stream, assumed stable over the source's
    /// lifetime.
    fn format(&mut self) -> AudioFormat;

    /// Pull the next samples of the stream into the leading entries of
    /// `samples`, and report how the read terminated.
    fn read(&mut self, samples: &mut Vec<u32>) -> (r: StreamState)
        ensures
            final(samples)@.len() == old(samples)@.len(),
            valid_count(r, old(samples)@.len() as int) <= old(samples)@.len(),
            forall|i: int|
                valid_count(r, old(samples)@.len() as int) <= i < old(samples)@.len()
                    ==> final(samples)@[i] == old(samples)@[i],
        ;
}

} // verus!
