//! The plain form of a patch, as a stored document holds it.
//!
//! A document lists the master envelope and, for each wave, its shape, its
//! frequency (one number, or a list of numbers) and its envelope. A list may
//! be empty in a document and never in a patch: loading checks every list,
//! and refuses the whole document if one is empty.

use vstd::prelude::*;
use crate::curve::Curve;
use crate::timbre::{Timbre, TimbreView};
use crate::wave::{Wave, WaveView};
use crate::waveform::Waveform;

verus! {

/// The frequency of a wave in a document: a fixed multiplier, or the points of
/// a curve of multipliers.
#[derive(Clone, Debug, PartialEq, Eq)]
pub enum FreqParts {
    /// One number: the multiplier at every time.
    Fixed(u32),
    /// A list of numbers: the points of a curve.
    Varying(Vec<u32>),
}

/// A wave in a document.
#[derive(Clone, Debug, PartialEq, Eq)]
pub struct WaveParts {
    /// The shape.
    pub waveform: Waveform,
    /// The frequency multiplier.
    pub freq: FreqParts,
    /// The points of the envelope.
    pub amp: Vec<u32>,
}

/// A whole document.
#[derive(Clone, Debug, PartialEq, Eq)]
pub struct TimbreParts {
    /// The points of the master envelope.
    pub amp: Vec<u32>,
    /// The waves, in order.
    pub waves: Vec<WaveParts>,
}

impl View for FreqParts {
    type V = Seq<u32>;

    /// A fixed multiplier stands for the curve of that one point.
    open spec fn view(&self) -> Seq<u32> {
        match self {
            FreqParts::Fixed(value) => seq![*value],
            FreqParts::Varying(points) => points@,
        }
    }
}

impl View for WaveParts {
    type V = WaveView;

    open spec fn view(&self) -> WaveView {
        WaveView { waveform: self.waveform, freq: self.freq@, amp: self.amp@ }
    }
}

impl View for TimbreParts {
    type V = TimbreView;

    open spec fn view(&self) -> TimbreView {
        TimbreView { amp: self.amp@, waves: self.waves@.map_values(|w: WaveParts| w@) }
    }
}

/// Whether a wave's lists each hold a point.
pub open spec fn wave_well_formed(wave: WaveView) -> bool {
    wave.freq.len() >= 1 && wave.amp.len() >= 1
}

/// Whether the content can be that of a patch: no list in it is empty.
pub open spec fn well_formed(content: TimbreView) -> bool {
    &&& content.amp.len() >= 1
    &&& forall|i: int| 0 <= i < content.waves.len() ==> wave_well_formed(#[trigger] content.waves[i])
}

/// What loading makes of a document's content: the same content where it is
/// well formed, and nothing where it is not.
pub open spec fn loads_as(content: TimbreView) -> Option<TimbreView> {
    if well_formed(content) {
        Some(content)
    } else {
        None
    }
}

impl WaveParts {
    /// The wave that the document describes, unless one of its lists is empty.
    pub fn to_wave(&self) -> (wave: Option<Wave>)
        ensures
            wave is Some <==> wave_well_formed(self@),
            wave matches Some(w) ==> w@ == self@,
    {
        let freq: Option<Curve> = match &self.freq {
            FreqParts::Fixed(value) => Some(Curve::constant(*value)),
            FreqParts::Varying(points) => Curve::new(points.as_slice()),
        };
        let amp: Option<Curve> = Curve::new(self.amp.as_slice());
        match (freq, amp) {
            (Some(freq), Some(amp)) => Some(Wave { waveform: self.waveform, freq, amp }),
            _ => None,
        }
    }

    /// The plain form of `wave`. The frequency is written as a list.
    pub fn of_wave(wave: &Wave) -> (parts: WaveParts)
        ensures
            parts@ == wave@,
            parts.freq is Varying,
    {
        WaveParts {
            waveform: wave.waveform,
            freq: FreqParts::Varying(wave.freq.to_points()),
            amp: wave.amp.to_points(),
        }
    }
}

impl TimbreParts {
    /// The patch that the document describes, unless one of its lists is
    /// empty.
    pub fn to_timbre(&self) -> (timbre: Option<Timbre>)
        ensures
            timbre is Some <==> well_formed(self@),
            timbre matches Some(t) ==> t@ == self@,
            (match timbre {
                Some(t) => Some(t@),
                None => None,
            }) == loads_as(self@),
    {
        let amp: Curve = match Curve::new(self.amp.as_slice()) {
            Some(amp) => amp,
            None => {
                return None;
            },
        };
        let n: usize = self.waves.len();
        let mut waves: Vec<Wave> = Vec::new();
        let mut i: usize = 0;
        while i < n
            invariant
                n == self.waves@.len(),
                i <= n,
                waves@.len() == i,
                forall|j: int| 0 <= j < i ==> (#[trigger] waves@[j])@ == self.waves@[j]@,
                forall|j: int| 0 <= j < i ==> wave_well_formed(#[trigger] self@.waves[j]),
            decreases n - i,
        {
            match self.waves[i].to_wave() {
                Some(wave) => {
                    waves.push(wave);
                },
                None => {
                    assert(!wave_well_formed(self@.waves[i as int]));
                    return None;
                },
            }
            i += 1;
        }
        let timbre = Timbre { amp, waves };
        assert(timbre@.waves =~= self@.waves);
        Some(timbre)
    }

    /// The plain form of `timbre`.
    pub fn of_timbre(timbre: &Timbre) -> (parts: TimbreParts)
        ensures
            parts@ == timbre@,
    {
        let n: usize = timbre.waves.len();
        let mut waves: Vec<WaveParts> = Vec::new();
        let mut i: usize = 0;
        while i < n
            invariant
                n == timbre.waves@.len(),
                i <= n,
                waves@.len() == i,
                forall|j: int| 0 <= j < i ==> (#[trigger] waves@[j])@ == timbre.waves@[j]@,
            decreases n - i,
        {
            waves.push(WaveParts::of_wave(&timbre.waves[i]));
            i += 1;
        }
        let parts = TimbreParts { amp: timbre.amp.to_points(), waves };
        assert(parts@.waves =~= timbre@.waves);
        parts
    }
}

/// Storing and loading give the patch back. The plain form of a patch has
/// the content of the patch, that content is well formed, and so loading it
/// gives a patch of the same content: the same waves in the same order, shape
/// by shape and point by point, under the same master envelope.
pub proof fn lemma_stored_patch_loads_back(timbre: Timbre, parts: TimbreParts)
    requires
        parts@ == timbre@,
    ensures
        well_formed(parts@),
        loads_as(parts@) == Some(timbre@),
{
    timbre.amp.lemma_nonempty();
    assert forall|i: int| 0 <= i < timbre@.waves.len() implies wave_well_formed(
        #[trigger] timbre@.waves[i],
    ) by {
        timbre.waves@[i].freq.lemma_nonempty();
        timbre.waves@[i].amp.lemma_nonempty();
    }
}

} // verus!
