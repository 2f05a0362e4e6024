//! The sample ingest buffer: appended at the tail, drained from the head.
use vstd::prelude::*;
use crate::spectrum::{AnalysisConfig, frame_count_spec};

verus! {

pub open spec fn min(a: int, b: int) -> int {
    if a <= b {
        a
    } else {
        b
    }
}

/// A queue of samples in arrival order. Samples are only ever added at the
/// tail and removed from the head; none is reordered or changed in place.
pub struct SampleBuffer<T> {
    samples: Vec<T>,
}

impl<T: Copy> View for SampleBuffer<T> {
    type V = Seq<T>;

    closed spec fn view(&self) -> Seq<T> {
        self.samples@
    }
}

impl<T: Copy> SampleBuffer<T> {
    /// An empty buffer.
    pub fn new() -> (r: Self)
        ensures
            r@ == Seq::<T>::empty(),
    {
        SampleBuffer { samples: Vec::new() }
    }

    /// Number of samples held.
    pub fn len(&self) -> (r: usize)
        ensures
            r == self@.len(),
    {
        self.samples.len()
    }

    /// The samples held, oldest first.
    pub fn samples(&self) -> (r: &[T])
        ensures
            r@ == self@,
    {
        self.samples.as_slice()
    }

    /// Adds `chunk` at the tail.
    pub fn append(&mut self, chunk: &[T])
        requires
            old(self)@.len() + chunk@.len() <= usize::MAX,
        ensures
            final(self)@ == old(self)@ + chunk@,
    {
        let ghost start = self@;
        let mut i: usize = 0;
        while i < chunk.len()
            invariant
                i <= chunk@.len(),
                self@ == start + chunk@.subrange(0, i as int),
            decreases chunk@.len() - i,
        {
            self.samples.push(chunk[i]);
            proof {
                assert(chunk@.subrange(0, i + 1) =~= chunk@.subrange(0, i as int).push(chunk@[i as int]));
            }
            i = i + 1;
        }
        proof {
            assert(chunk@.subrange(0, i as int) =~= chunk@);
        }
    }

    /// Removes the first `n` samples, or all of them where fewer are held.
    pub fn drain_front(&mut self, n: usize)
        ensures
            final(self)@ == old(self)@.skip(min(n as int, old(self)@.len() as int)),
    {
        let m = if n < self.samples.len() {
            n
        } else {
            self.samples.len()
        };
        let rest = self.samples.split_off(m);
        self.samples = rest;
    }

    /// Ends an analysis pass: where the buffer held at least one window, the
    /// first hop of samples has been consumed and is removed; a buffer shorter
    /// than a window is kept whole for the next pass.
    pub fn complete_pass(&mut self, config: &AnalysisConfig)
        requires
            config.wf(),
        ensures
            old(self)@.len() < config.window_size ==> final(self)@ == old(self)@,
            old(self)@.len() >= config.window_size ==> final(self)@ == old(self)@.skip(
                min(config.hop_size as int, old(self)@.len() as int),
            ),
            frame_count_spec(
                old(self)@.len() as int,
                config.window_size as int,
                config.hop_size as int,
            ) >= 1 ==> final(self)@.len() == old(self)@.len() - min(
                config.hop_size as int,
                old(self)@.len() as int,
            ),
    {
        if self.samples.len() >= config.window_size {
            self.drain_front(config.hop_size);
        }
    }
}

} // verus!
