//! One oscillator: a shape, a frequency multiplier and a loudness envelope.

use vstd::prelude::*;
use crate::curve::Curve;
use crate::waveform::Waveform;

verus! {

/// The bit pattern of the number one half.
pub const HALF: u32 = 0x3F00_0000;

/// The bit pattern of the number one.
pub const ONE: u32 = 0x3F80_0000;

/// The mathematical content of a wave.
pub struct WaveView {
    /// The shape.
    pub waveform: Waveform,
    /// The points of the frequency multiplier.
    pub freq: Seq<u32>,
    /// The points of the envelope.
    pub amp: Seq<u32>,
}

/// One oscillator. `freq` multiplies the global frequency over elapsed time
/// (a fixed multiplier is a curve of one point); `amp` gates the loudness.
#[derive(Clone, Debug, PartialEq, Eq)]
pub struct Wave {
    /// The shape.
    pub waveform: Waveform,
    /// The multiplier of the global frequency, over elapsed time.
    pub freq: Curve,
    /// The loudness, over elapsed time.
    pub amp: Curve,
}

impl View for Wave {
    type V = WaveView;

    open spec fn view(&self) -> WaveView {
        WaveView { waveform: self.waveform, freq: self.freq@, amp: self.amp@ }
    }
}

/// The wave a user gets on asking for a new one: a sine at the global
/// frequency, at half loudness.
pub open spec fn default_wave() -> WaveView {
    WaveView { waveform: Waveform::Sine, freq: seq![ONE], amp: seq![HALF] }
}

impl Wave {
    /// A new wave with the default settings.
    pub fn new() -> (wave: Wave)
        ensures
            wave@ == default_wave(),
    {
        Wave { waveform: Waveform::Sine, freq: Curve::constant(ONE), amp: Curve::constant(HALF) }
    }
}

} // verus!
