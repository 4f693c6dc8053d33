//! Playback of a recorded sample, once or in a loop.

use vstd::prelude::*;

verus! {

/// A recorded sample, with the rate and the number of channels it was
/// recorded with.
#[derive(Debug)]
pub struct Sample<'a, T> {
    pub buffer: &'a [T],
    pub sample_rate: u32,
    pub channels: u8,
}

impl<'a, T> Sample<'a, T> {
    /// A sample of the values in `buffer`.
    pub fn new(buffer: &'a [T], sample_rate: u32, channels: u8) -> (sample: Sample<'a, T>)
        ensures
            sample.buffer@ == buffer@,
            sample.sample_rate == sample_rate,
            sample.channels == channels,
    {
        Sample { buffer, sample_rate, channels }
    }
}

/// A signal source that plays a sample.
pub struct Sampler<'a, T> {
    sample: &'a Sample<'a, T>,
    step: usize,
    looping: bool,
}

impl<'a, T: Copy> Sampler<'a, T> {
    /// The recording that is played.
    pub closed spec fn recording(&self) -> Seq<T> {
        self.sample.buffer@
    }

    /// The place of the value that is played next.
    pub closed spec fn position(&self) -> int {
        self.step as int
    }

    /// Whether playback starts over at the end of the recording.
    pub closed spec fn loops(&self) -> bool {
        self.looping
    }

    /// Whether the recording has been played to its end and does not loop.
    pub open spec fn played_out(&self) -> bool {
        !self.loops() && self.position() >= self.recording().len()
    }

    /// A looping sampler at the start of `sample`.
    pub fn new(sample: &'a Sample<'a, T>) -> (sampler: Sampler<'a, T>)
        ensures
            sampler.recording() == sample.buffer@,
            sampler.position() == 0,
            sampler.loops(),
    {
        Sampler { sample, step: 0, looping: true }
    }

    /// Says whether playback starts over at the end of the recording.
    pub fn set_looping(&mut self, looping: bool)
        ensures
            final(self).loops() == looping,
            final(self).recording() == old(self).recording(),
            final(self).position() == old(self).position(),
    {
        self.looping = looping;
    }

    /// Whether playback starts over at the end of the recording.
    pub fn is_looping(&self) -> (looping: bool)
        ensures
            looping == self.loops(),
    {
        self.looping
    }

    /// Whether [`Sampler::next`] can be asked for a value: a sampler that
    /// loops must stand on a value of its recording.
    pub fn is_ready(&self) -> (ready: bool)
        ensures
            ready == (self.loops() ==> self.position() < self.recording().len()),
    {
        !self.looping || self.step < self.sample.buffer.len()
    }

    /// The next value of the recording, or `None` once a recording that
    /// does not loop has been played to its end: from then on the sampler
    /// is silent. A looping sampler starts over after the last value.
    ///
    /// A sampler that loops must stand on a value of its recording: it
    /// does whenever it looped from the start, on a recording that is not
    /// empty.
    pub fn next(&mut self) -> (value: Option<T>)
        requires
            old(self).loops() ==> old(self).position() < old(self).recording().len(),
        ensures
            final(self).recording() == old(self).recording(),
            final(self).loops() == old(self).loops(),
            old(self).played_out() ==> value is None && final(self).position() == old(
                self,
            ).position(),
            !old(self).played_out() ==> value == Some(old(self).recording()[old(self).position()])
                && final(self).position() == if old(self).loops() && old(self).position() + 1
                == old(self).recording().len() {
                0
            } else {
                old(self).position() + 1
            },
    {
        if !self.looping && self.step >= self.sample.buffer.len() {
            return None;
        }
        let value = self.sample.buffer[self.step];
        self.step += 1;
        if self.looping && self.step >= self.sample.buffer.len() {
            self.step = 0;
        }
        Some(value)
    }
}

} // verus!
