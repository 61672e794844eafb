//! The life cycle of the output stream.
//!
//! A stream is negotiated with the audio device, runs until the device
//! reports an error, and is then negotiated afresh:
//!
//! ```text
//! Uninitialized -> Negotiating -> Running -> (Failed -> Negotiating)*
//! ```
//!
//! The machine decides; the caller does the work. It hands each thing that
//! happened to [`step`] as an event and carries out the action that comes
//! back. An event is acted on in whatever state it arrives: attempts may
//! overlap, and a late report from an old stream still starts a recovery.
//! There is no count of attempts and no state without a way on, so recovery
//! is retried for as long as errors arrive.

use vstd::prelude::*;

verus! {

/// The geometry of an output stream: channels per frame and frames per second,
/// neither of them zero.
#[derive(Clone, Copy, Debug, PartialEq, Eq)]
pub struct StreamGeometry {
    channels: u16,
    sample_rate: u32,
}

impl StreamGeometry {
    #[verifier::type_invariant]
    spec fn positive(self) -> bool {
        self.channels > 0 && self.sample_rate > 0
    }

    /// Channels per frame, as a specification value.
    pub closed spec fn spec_channels(self) -> u16 {
        self.channels
    }

    /// Frames per second, as a specification value.
    pub closed spec fn spec_sample_rate(self) -> u32 {
        self.sample_rate
    }

    /// The geometry with these values, unless one of them is zero.
    pub fn new(channels: u16, sample_rate: u32) -> (geometry: Option<StreamGeometry>)
        ensures
            geometry is Some <==> channels > 0 && sample_rate > 0,
            geometry matches Some(g) ==> g.spec_channels() == channels && g.spec_sample_rate()
                == sample_rate,
    {
        if channels > 0 && sample_rate > 0 {
            Some(StreamGeometry { channels, sample_rate })
        } else {
            None
        }
    }

    /// Channels per frame.
    pub fn channels(&self) -> (channels: u16)
        ensures
            channels == self.spec_channels(),
            channels > 0,
    {
        proof {
            use_type_invariant(self);
        }
        self.channels
    }

    /// Frames per second.
    pub fn sample_rate(&self) -> (rate: u32)
        ensures
            rate == self.spec_sample_rate(),
            rate > 0,
    {
        proof {
            use_type_invariant(self);
        }
        self.sample_rate
    }
}

/// Where the stream stands.
#[derive(Clone, Copy, Debug, PartialEq, Eq)]
pub enum StreamState {
    /// No attempt has been made yet.
    Uninitialized,
    /// An attempt to open a stream is under way.
    Negotiating,
    /// A stream is live.
    Running,
    /// No stream is live, and no attempt is under way.
    Failed,
}

/// Why an attempt to open a stream was given up.
#[derive(Clone, Copy, Debug, PartialEq, Eq)]
pub enum Fatal {
    /// The host has no output device.
    NoOutputDevice,
    /// The device offers no output configuration.
    NoOutputConfig,
    /// The device's sample encoding has no fill path.
    UnsupportedEncoding,
    /// The backend refused to build the stream.
    BuildRejected,
    /// The backend refused to start the stream.
    PlayRejected,
}

/// What to tell the operator when an attempt is given up for `fatal`.
pub open spec fn message_of(fatal: Fatal) -> Seq<char> {
    match fatal {
        Fatal::NoOutputDevice => "No output device available"@,
        Fatal::NoOutputConfig => "Could not get default output config"@,
        Fatal::UnsupportedEncoding => "Unsupported sample format"@,
        Fatal::BuildRejected => "Could not build output stream"@,
        Fatal::PlayRejected => "Could not play stream"@,
    }
}

impl Fatal {
    /// What to tell the operator.
    pub fn message(&self) -> (text: &'static str)
        ensures
            text@ == message_of(*self),
    {
        match self {
            Fatal::NoOutputDevice => "No output device available",
            Fatal::NoOutputConfig => "Could not get default output config",
            Fatal::UnsupportedEncoding => "Unsupported sample format",
            Fatal::BuildRejected => "Could not build output stream",
            Fatal::PlayRejected => "Could not play stream",
        }
    }
}

/// What happened.
#[derive(Clone, Copy, Debug, PartialEq, Eq)]
pub enum StreamEvent {
    /// An attempt to open a stream begins: at start-up, or to recover.
    Begin,
    /// The attempt cannot go on.
    Refused(Fatal),
    /// The attempt succeeded: a stream of this geometry is built and playing.
    Live(StreamGeometry),
    /// A stream reported an error.
    StreamError,
}

/// What the caller is to do.
#[derive(Clone, Copy, Debug, PartialEq, Eq)]
pub enum StreamAction {
    /// Ask the device for its configuration and build a stream for it.
    Negotiate,
    /// Keep the new stream and its geometry in place of the old ones.
    Install(StreamGeometry),
    /// Report the error and start a new attempt, off the reporting thread.
    Recover,
    /// Give the attempt up for this reason.
    Abort(Fatal),
}

/// The state after `event`.
pub open spec fn next_state(state: StreamState, event: StreamEvent) -> StreamState {
    match event {
        StreamEvent::Begin => StreamState::Negotiating,
        StreamEvent::Live(_) => StreamState::Running,
        StreamEvent::Refused(_) => StreamState::Failed,
        StreamEvent::StreamError => StreamState::Failed,
    }
}

/// The action that `event` calls for.
pub open spec fn action_for(event: StreamEvent) -> StreamAction {
    match event {
        StreamEvent::Begin => StreamAction::Negotiate,
        StreamEvent::Live(geometry) => StreamAction::Install(geometry),
        StreamEvent::Refused(fatal) => StreamAction::Abort(fatal),
        StreamEvent::StreamError => StreamAction::Recover,
    }
}

/// Takes one step of the life cycle.
pub fn step(state: StreamState, event: StreamEvent) -> (out: (StreamState, StreamAction))
    ensures
        out.0 == next_state(state, event),
        out.1 == action_for(event),
{
    match event {
        StreamEvent::Begin => (StreamState::Negotiating, StreamAction::Negotiate),
        StreamEvent::Live(geometry) => (StreamState::Running, StreamAction::Install(geometry)),
        StreamEvent::Refused(fatal) => (StreamState::Failed, StreamAction::Abort(fatal)),
        StreamEvent::StreamError => (StreamState::Failed, StreamAction::Recover),
    }
}

/// The state after a run of events, taken first to last.
pub open spec fn state_after(state: StreamState, events: Seq<StreamEvent>) -> StreamState
    decreases events.len(),
{
    if events.len() == 0 {
        state
    } else {
        next_state(state_after(state, events.drop_last()), events.last())
    }
}

/// The machine follows the life cycle: start-up leads to negotiation, a live
/// stream to running, an error to failure, and a new attempt from failure
/// back to negotiation.
pub proof fn lemma_follows_life_cycle(geometry: StreamGeometry)
    ensures
        next_state(StreamState::Uninitialized, StreamEvent::Begin) == StreamState::Negotiating,
        next_state(StreamState::Negotiating, StreamEvent::Live(geometry)) == StreamState::Running,
        next_state(StreamState::Running, StreamEvent::StreamError) == StreamState::Failed,
        next_state(StreamState::Failed, StreamEvent::Begin) == StreamState::Negotiating,
{
}

/// Only a live stream makes the machine run, and only an error or a refusal
/// makes it fail.
pub proof fn lemma_state_tells_last_event(state: StreamState, event: StreamEvent)
    ensures
        next_state(state, event) == StreamState::Running <==> event is Live,
        next_state(state, event) == StreamState::Failed <==> event is StreamError || event
            is Refused,
        next_state(state, event) == StreamState::Negotiating <==> event is Begin,
        next_state(state, event) != StreamState::Uninitialized,
{
}

/// Recovery has no cap: whatever happened before, an error calls for a
/// recovery, and from there a new attempt that succeeds leads to running.
pub proof fn lemma_recovery_is_unbounded(
    state: StreamState,
    history: Seq<StreamEvent>,
    geometry: StreamGeometry,
)
    ensures
        action_for(StreamEvent::StreamError) == StreamAction::Recover,
        state_after(
            state,
            history.push(StreamEvent::StreamError).push(StreamEvent::Begin).push(
                StreamEvent::Live(geometry),
            ),
        ) == StreamState::Running,
{
}

} // verus!
