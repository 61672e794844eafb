//! The state that the control path and the audio path share.
//!
//! One `Playback` lives for the whole session. The control path edits its
//! frequency and timbre; the audio path fills buffers from it and moves its
//! sample counter; the stream's life cycle replaces its geometry when the
//! device is opened again. Access from two threads is the caller's to
//! serialize: every function here takes the state for one short call.

use vstd::prelude::*;
use crate::clock::{lemma_tick_below_rate, tick};
use crate::document::{well_formed, TimbreParts};
use crate::frames::{fill_frames, frame_count, frame_of, frame_start};
use crate::lifecycle::{
    action_for,
    next_state,
    step,
    StreamAction,
    StreamEvent,
    StreamGeometry,
    StreamState,
};
use crate::timbre::Timbre;

verus! {

/// The bit pattern of 440, the frequency in hertz that a session starts with.
pub const CONCERT_PITCH: u32 = 0x43DC_0000;

/// The shared state of a session.
#[derive(Clone, Debug, PartialEq, Eq)]
pub struct Playback {
    /// The geometry of the stream that was installed last, if any was.
    pub geometry: Option<StreamGeometry>,
    /// Where the stream's life cycle stands.
    pub state: StreamState,
    /// The sample counter: elapsed time is `sample / sample_rate` seconds.
    pub sample: u32,
    /// The global frequency in hertz, as a bit pattern.
    pub hz: u32,
    /// The patch that is played.
    pub timbre: Timbre,
}

/// Whether `data` is what `render` leaves in a buffer for this patch and
/// frequency: in each slot a value that `render` may give for the counter at
/// the slot's frame, and in all slots of a frame the same value.
pub open spec fn rendered<T, F: Fn(&Timbre, u32, u32, u32) -> T>(
    data: Seq<T>,
    timbre: Timbre,
    hz: u32,
    geometry: StreamGeometry,
    start: u32,
    render: F,
) -> bool {
    let channels = geometry.spec_channels() as nat;
    let rate = geometry.spec_sample_rate();
    &&& forall|i: int|
        0 <= i < data.len() ==> render.ensures(
            (&timbre, hz, tick(start, rate, frame_of(i, channels)), rate),
            #[trigger] data[i],
        )
    &&& forall|i: int|
        0 <= i < data.len() ==> #[trigger] data[i] == data[frame_start(i, channels)]
}

impl Playback {
    /// The state a session starts with: no stream yet, the counter at zero,
    /// concert pitch, and the empty patch at half level.
    pub fn new() -> (playback: Playback)
        ensures
            playback.geometry is None,
            playback.state == StreamState::Uninitialized,
            playback.sample == 0,
            playback.hz == CONCERT_PITCH,
            playback.timbre@ == Timbre::new_view(),
            playback.timbre.waves@.len() == 0,
    {
        Playback {
            geometry: None,
            state: StreamState::Uninitialized,
            sample: 0,
            hz: CONCERT_PITCH,
            timbre: Timbre::new(),
        }
    }

    /// Takes one step of the stream's life cycle and says what to do. A live
    /// stream brings its geometry; no event touches the patch, the frequency
    /// or the counter.
    pub fn handle(&mut self, event: StreamEvent) -> (action: StreamAction)
        ensures
            action == action_for(event),
            final(self).state == next_state(old(self).state, event),
            final(self).geometry == (match event {
                StreamEvent::Live(geometry) => Some(geometry),
                _ => old(self).geometry,
            }),
            final(self).timbre == old(self).timbre,
            final(self).hz == old(self).hz,
            final(self).sample == old(self).sample,
    {
        let (state, action) = step(self.state, event);
        self.state = state;
        if let StreamEvent::Live(geometry) = event {
            self.geometry = Some(geometry);
        }
        action
    }

    /// Replaces the patch by the one that `document` describes, where it
    /// describes one. A document with an empty list is refused, and the
    /// state is left as it was.
    pub fn load(&mut self, document: &TimbreParts) -> (loaded: bool)
        ensures
            loaded <==> well_formed(document@),
            loaded ==> final(self).timbre@ == document@,
            !loaded ==> final(self).timbre == old(self).timbre,
            final(self).geometry == old(self).geometry,
            final(self).state == old(self).state,
            final(self).sample == old(self).sample,
            final(self).hz == old(self).hz,
    {
        match document.to_timbre() {
            Some(timbre) => {
                self.timbre = timbre;
                true
            },
            None => false,
        }
    }

    /// Fills `data` for the installed stream: one value per frame, rendered
    /// from the patch, the frequency, the counter at that frame and the
    /// sample rate, and written to every slot of the frame. The counter moves
    /// on by one per frame and wraps at the sample rate; the renderer never
    /// sees it at or above the rate. Without an installed stream nothing is
    /// written.
    pub fn write_frames<T: Copy, F: Fn(&Timbre, u32, u32, u32) -> T>(
        &mut self,
        data: &mut [T],
        render: F,
    ) -> (written: bool)
        requires
            old(self).geometry matches Some(g) ==> forall|j: nat|
                j < frame_count(old(data)@.len(), g.spec_channels() as nat) ==> render.requires(
                    (
                        &old(self).timbre,
                        old(self).hz,
                        #[trigger] tick(old(self).sample, g.spec_sample_rate(), j),
                        g.spec_sample_rate(),
                    ),
                ),
        ensures
            written <==> old(self).geometry is Some,
            final(self).geometry == old(self).geometry,
            final(self).state == old(self).state,
            final(self).hz == old(self).hz,
            final(self).timbre == old(self).timbre,
            final(data)@.len() == old(data)@.len(),
            !written ==> final(data)@ == old(data)@ && final(self).sample == old(self).sample,
            old(self).geometry matches Some(g) ==> {
                &&& rendered(
                    final(data)@,
                    old(self).timbre,
                    old(self).hz,
                    g,
                    old(self).sample,
                    render,
                )
                &&& final(self).sample == tick(
                    old(self).sample,
                    g.spec_sample_rate(),
                    frame_count(old(data)@.len(), g.spec_channels() as nat),
                )
                &&& final(self).sample < g.spec_sample_rate()
            },
    {
        let geometry: StreamGeometry = match self.geometry {
            Some(geometry) => geometry,
            None => {
                return false;
            },
        };
        let channels: u16 = geometry.channels();
        let rate: u32 = geometry.sample_rate();
        let hz: u32 = self.hz;
        let start: u32 = self.sample;
        let timbre: &Timbre = &self.timbre;
        let shared: &F = &render;
        let per_frame = |sample: u32| -> (value: T)
            requires
                shared.requires((timbre, hz, sample, rate)),
            ensures
                shared.ensures((timbre, hz, sample, rate), value),
            { shared(timbre, hz, sample, rate) };
        let end: u32 = fill_frames(data, channels, rate, start, per_frame);
        proof {
            lemma_tick_below_rate(start, rate, frame_count(old(data)@.len(), channels as nat));
        }
        self.sample = end;
        true
    }
}

} // verus!
