//! From an averaged magnitude spectrum to the published detection result.
use vstd::prelude::*;
use crate::note::{NoteMatch, is_nearest, label_of, nearest_note, note_at, note_frequency};
use crate::spectrum::{
    AnalysisConfig,
    all_nan,
    bin_frequency,
    bin_frequency_spec,
    dominant_bin,
    is_dominant,
};

verus! {

/// What one analysis pass finds: the strongest bin, its frequency in units,
/// and the nearest note.
#[derive(Clone, Copy, Debug, PartialEq, Eq, Structural)]
pub struct Estimate {
    pub bin: usize,
    pub frequency: u64,
    pub note: NoteMatch,
}

impl Estimate {
    /// The estimate is the one that `mags` determines under `config`.
    pub open spec fn of(&self, config: AnalysisConfig, mags: Seq<u32>) -> bool {
        &&& is_dominant(mags, self.bin as int)
        &&& self.frequency == bin_frequency_spec(
            self.bin as int,
            config.sample_rate as int,
            config.window_size as int,
        )
        &&& self.note.wf()
        &&& is_nearest(self.frequency as int, self.note.index())
    }
}

/// The spectrum gives no note: no magnitude is comparable, or the strongest
/// bin lies at zero frequency.
pub open spec fn no_estimate(config: AnalysisConfig, mags: Seq<u32>) -> bool {
    all_nan(mags) || forall|i: int|
        is_dominant(mags, i) ==> bin_frequency_spec(
            i,
            config.sample_rate as int,
            config.window_size as int,
        ) == 0
}

/// Estimates the dominant frequency and its note from an averaged magnitude
/// spectrum given as `f32` bit patterns, one per bin.
pub fn estimate(config: &AnalysisConfig, mags: &Vec<u32>) -> (r: Option<Estimate>)
    requires
        config.wf(),
        mags@.len() <= config.window_size / 2,
    ensures
        r is None <==> no_estimate(*config, mags@),
        r matches Some(e) ==> e.of(*config, mags@),
{
    match dominant_bin(mags) {
        None => None,
        Some(bin) => {
            let frequency = bin_frequency(bin, config.sample_rate, config.window_size);
            proof {
                assert forall|i: int| is_dominant(mags@, i) implies i == bin by {
                    crate::spectrum::lemma_dominant_unique(mags@, i, bin as int);
                }
            }
            match nearest_note(frequency as i64) {
                None => None,
                Some(note) => Some(Estimate { bin, frequency, note }),
            }
        },
    }
}

/// The latest detection: a note label and the frequency it came from, in units.
pub struct Detection {
    pub label: String,
    pub frequency: u64,
}

impl Detection {
    /// The detection shown before any pass has succeeded: `A4` at 440 Hz.
    pub fn initial() -> (r: Detection)
        ensures
            r.label@ == label_of(9, 4),
            r.frequency == note_frequency(4, 9),
    {
        let a4 = note_at(4, 9);
        Detection { label: a4.label(), frequency: a4.frequency }
    }

    /// Replaces the whole detection with what `e` found.
    pub fn publish(&mut self, e: &Estimate)
        requires
            e.note.wf(),
        ensures
            final(self).label@ == label_of(e.note.note as int, e.note.octave as int),
            final(self).frequency == e.frequency,
    {
        *self = Detection { label: e.note.label(), frequency: e.frequency };
    }

    /// Concludes an analysis pass that took `frames` frames and averaged their
    /// magnitudes into `mags`. Where no frame was taken, or the spectrum gives
    /// no note, the detection is left as it was.
    pub fn conclude_pass(&mut self, config: &AnalysisConfig, frames: usize, mags: &Vec<u32>) -> (r:
        Option<Estimate>)
        requires
            config.wf(),
            mags@.len() <= config.window_size / 2,
        ensures
            r is None <==> (frames == 0 || no_estimate(*config, mags@)),
            r is None ==> final(self).label@ == old(self).label@ && final(self).frequency == old(
                self,
            ).frequency,
            r matches Some(e) ==> e.of(*config, mags@) && final(self).label@ == label_of(
                e.note.note as int,
                e.note.octave as int,
            ) && final(self).frequency == e.frequency,
    {
        if frames == 0 {
            return None;
        }
        let found = estimate(config, mags);
        match found {
            None => None,
            Some(e) => {
                self.publish(&e);
                Some(e)
            },
        }
    }
}

} // verus!
