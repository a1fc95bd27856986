//! What the transports' relay loops decide on each turn: what an output does
//! with what its source channel gave it, and when an input gives up on a
//! source that has gone quiet. The loops themselves (the blocking SDK calls,
//! the sleeps, the channels) run around these decisions.

use vstd::prelude::*;

verus! {

/// An input reconnects only when nothing at all has arrived for this long:
/// long enough that a live source could not plausibly go that quiet, since a
/// freshly connected receiver can report itself unconnected for a while
/// after frames are already flowing.
pub const SILENCE_TIMEOUT_MS: u64 = 30_000;

/// What one turn of an output loop saw.
#[derive(Debug, Clone, Copy, PartialEq, Eq, Structural)]
pub enum OutputEvent {
    /// The output was routed to another source.
    RouteChanged,
    /// The routing channel itself is gone (its sender was dropped with the
    /// output's registration). An output that waits on the channel sees
    /// this and stops; one that polls for changes reads a gone channel as
    /// unchanged and never reports this event.
    RouteGone,
    /// A payload arrived from the current source.
    Payload,
    /// Nothing is waiting yet.
    Empty,
    /// The output fell behind and this many payloads were dropped.
    Lagged(u64),
    /// The source's channel closed.
    Closed,
}

/// What the output loop does next.
#[derive(Debug, Clone, Copy, PartialEq, Eq, Structural)]
pub enum OutputAction {
    /// Subscribe again, to whatever the output is routed to now.
    Resubscribe,
    /// Hand the payload to the transport.
    Forward,
    /// Wait a moment and poll again.
    Wait,
    /// Note the dropped payloads and keep going.
    Skip(u64),
    /// Leave the loop.
    Stop,
}

pub open spec fn output_action_spec(event: OutputEvent) -> OutputAction {
    match event {
        OutputEvent::RouteChanged => OutputAction::Resubscribe,
        OutputEvent::RouteGone => OutputAction::Stop,
        OutputEvent::Payload => OutputAction::Forward,
        OutputEvent::Empty => OutputAction::Wait,
        OutputEvent::Lagged(n) => OutputAction::Skip(n),
        OutputEvent::Closed => OutputAction::Stop,
    }
}

/// An output follows a routing change before anything else, forwards every
/// payload, waits when there is none, carries on past dropped payloads, and
/// stops when its source or its routing channel is gone.
pub fn output_action(event: OutputEvent) -> (a: OutputAction)
    ensures
        a == output_action_spec(event),
{
    match event {
        OutputEvent::RouteChanged => OutputAction::Resubscribe,
        OutputEvent::RouteGone => OutputAction::Stop,
        OutputEvent::Payload => OutputAction::Forward,
        OutputEvent::Empty => OutputAction::Wait,
        OutputEvent::Lagged(n) => OutputAction::Skip(n),
        OutputEvent::Closed => OutputAction::Stop,
    }
}

/// Whether an input gives up on its source and reconnects: only when this
/// turn brought no frame and none has come for longer than the timeout.
pub fn input_gives_up(got_frame: bool, silent_for_ms: u64) -> (r: bool)
    ensures
        r == (!got_frame && silent_for_ms > SILENCE_TIMEOUT_MS),
{
    !got_frame && silent_for_ms > SILENCE_TIMEOUT_MS
}

} // verus!
