//! Decision logic of a listener session: which events end the session,
//! which snapshots are forwarded, and what an echo connection repeats.
//!
//! The session loop itself suspends on transport and channel waits, so
//! it runs outside the library; on every event it consults these
//! functions and performs the action they return.

use vstd::prelude::*;

use crate::poll::Poll;

verus! {

/// The shape of a message arriving from the connected consumer; the
/// payload, if any, stays with the caller.
#[derive(Clone, Copy, Debug, PartialEq, Eq, Structural)]
pub enum Frame {
    Text,
    Binary,
    Ping,
    Pong,
    Close,
}

/// What the broadcast hub handed the session.
pub enum HubEvent {
    /// A committed poll snapshot to forward.
    Snapshot(Poll),
    /// The session fell behind the publish rate and missed snapshots;
    /// it is treated as disconnected and may re-subscribe.
    Lagged,
    /// The hub shut down; no further snapshots will arrive.
    HubClosed,
}

/// One observable event in a listener session's life.
pub enum SessionEvent {
    /// The hub produced something.
    FromHub(HubEvent),
    /// The consumer sent a message.
    FromConsumer(Frame),
    /// The consumer's connection ended without a close message.
    ConsumerGone,
}

/// What the session loop must do next.
pub enum SessionAction {
    /// Forward this snapshot to the consumer.
    Forward(Poll),
    /// End the session and release its subscription.
    Stop,
    /// Keep waiting for the next event.
    KeepWaiting,
}

/// Decide a listener session's next step.  Every snapshot from the hub
/// is forwarded unchanged; a close message, a vanished consumer, a
/// closed hub, or falling behind the publish rate ends the session;
/// every other consumer message is ignored.
pub fn listener_step(event: SessionEvent) -> (a: SessionAction)
    ensures
        match event {
            SessionEvent::FromHub(HubEvent::Snapshot(p)) => a == SessionAction::Forward(p),
            SessionEvent::FromHub(HubEvent::Lagged) => a == SessionAction::Stop,
            SessionEvent::FromHub(HubEvent::HubClosed) => a == SessionAction::Stop,
            SessionEvent::FromConsumer(f) => a == if f == Frame::Close {
                SessionAction::Stop
            } else {
                SessionAction::KeepWaiting
            },
            SessionEvent::ConsumerGone => a == SessionAction::Stop,
        },
{
    match event {
        SessionEvent::FromHub(HubEvent::Snapshot(p)) => SessionAction::Forward(p),
        SessionEvent::FromHub(HubEvent::Lagged) => SessionAction::Stop,
        SessionEvent::FromHub(HubEvent::HubClosed) => SessionAction::Stop,
        SessionEvent::FromConsumer(f) => {
            if f == Frame::Close {
                SessionAction::Stop
            } else {
                SessionAction::KeepWaiting
            }
        },
        SessionEvent::ConsumerGone => SessionAction::Stop,
    }
}

/// Whether an echo connection repeats a message of this shape back to
/// its sender: text and binary messages are echoed, control messages
/// are not.
pub fn echo_decision(frame: Frame) -> (r: bool)
    ensures
        r == (frame == Frame::Text || frame == Frame::Binary),
{
    match frame {
        Frame::Text => true,
        Frame::Binary => true,
        _ => false,
    }
}

} // verus!
