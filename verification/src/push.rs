use vstd::prelude::*;
use crate::json::{json_nested_u64, json_u64_under};

verus! {

/// The channel events that announce a created print job; the service
/// emits the name with and without the leading dot.
pub open spec fn spec_is_creation_event(event: Seq<char>) -> bool {
    event == "PrintJobCreated"@ || event == ".PrintJobCreated"@
}

/// Whether a channel event announces a created print job.
pub fn is_creation_event(event: &str) -> (r: bool)
    ensures
        r == spec_is_creation_event(event@),
{
    let e = event.to_owned();
    e.eq(&"PrintJobCreated".to_owned()) || e.eq(&".PrintJobCreated".to_owned())
}

/// The job a push event announces: only a creation event counts, and its
/// payload names the created job under the keys model and id.
pub open spec fn spec_push_event_job_id(event: Seq<char>, data: Seq<char>) -> Option<u32> {
    if spec_is_creation_event(event) {
        match json_nested_u64(data, "model"@, "id"@) {
            Some(n) => if n <= 0xffff_ffff {
                Some(n as u32)
            } else {
                None
            },
            None => None,
        }
    } else {
        None
    }
}

/// Decode one push-channel event into the job id to dispatch, if any.
pub fn push_event_job_id(event: &str, data: &str) -> (r: Option<u32>)
    ensures
        r == spec_push_event_job_id(event@, data@),
{
    if !is_creation_event(event) {
        return None;
    }
    match json_u64_under(data, "model", "id") {
        Some(n) => {
            if n <= 0xffff_ffff {
                Some(n as u32)
            } else {
                None
            }
        },
        None => None,
    }
}

/// Phase of the push-channel session.
#[derive(Clone, Copy, PartialEq, Eq, Structural, Debug)]
pub enum PushPhase {
    Disconnected,
    Connected,
    Subscribed,
    BackingOff,
    Stopped,
}

/// What the transport reports to the session.
#[derive(Clone, Copy, PartialEq, Eq, Structural, Debug)]
pub enum PushEvent {
    Established,
    SubscribeOk,
    SubscribeFailed,
    ConnectFailed,
    ConnectionLost,
    BackoffElapsed,
    CancelRequested,
}

/// What the session asks its driver to do next.
#[derive(Clone, Copy, PartialEq, Eq, Structural, Debug)]
pub enum PushAction {
    Connect,
    Subscribe,
    RunCatchUp,
    StartBackoff,
    Exit,
    Stay,
}

/// The push session's transition table. Cancellation wins in every phase
/// and is absorbing. A successful subscription triggers the catch-up
/// fetch at once, so jobs created while disconnected are recovered; any
/// connection failure or loss starts the bounded backoff, whose end asks
/// for a reconnect.
pub open spec fn spec_push_step(phase: PushPhase, event: PushEvent) -> (PushPhase, PushAction) {
    if phase == PushPhase::Stopped {
        (PushPhase::Stopped, PushAction::Exit)
    } else {
        match event {
            PushEvent::CancelRequested => (PushPhase::Stopped, PushAction::Exit),
            PushEvent::Established => (PushPhase::Connected, PushAction::Subscribe),
            PushEvent::SubscribeOk => if phase == PushPhase::Connected {
                (PushPhase::Subscribed, PushAction::RunCatchUp)
            } else {
                (phase, PushAction::Stay)
            },
            PushEvent::SubscribeFailed => (PushPhase::BackingOff, PushAction::StartBackoff),
            PushEvent::ConnectFailed => (PushPhase::BackingOff, PushAction::StartBackoff),
            PushEvent::ConnectionLost => (PushPhase::BackingOff, PushAction::StartBackoff),
            PushEvent::BackoffElapsed => if phase == PushPhase::BackingOff {
                (PushPhase::Disconnected, PushAction::Connect)
            } else {
                (phase, PushAction::Stay)
            },
        }
    }
}

/// Advance the push session by one transport event; see `spec_push_step`.
pub fn push_step(phase: PushPhase, event: PushEvent) -> (r: (PushPhase, PushAction))
    ensures
        r == spec_push_step(phase, event),
{
    if phase == PushPhase::Stopped {
        return (PushPhase::Stopped, PushAction::Exit);
    }
    match event {
        PushEvent::CancelRequested => (PushPhase::Stopped, PushAction::Exit),
        PushEvent::Established => (PushPhase::Connected, PushAction::Subscribe),
        PushEvent::SubscribeOk => {
            if phase == PushPhase::Connected {
                (PushPhase::Subscribed, PushAction::RunCatchUp)
            } else {
                (phase, PushAction::Stay)
            }
        },
        PushEvent::SubscribeFailed => (PushPhase::BackingOff, PushAction::StartBackoff),
        PushEvent::ConnectFailed => (PushPhase::BackingOff, PushAction::StartBackoff),
        PushEvent::ConnectionLost => (PushPhase::BackingOff, PushAction::StartBackoff),
        PushEvent::BackoffElapsed => {
            if phase == PushPhase::BackingOff {
                (PushPhase::Disconnected, PushAction::Connect)
            } else {
                (phase, PushAction::Stay)
            }
        },
    }
}

/// Catch-up on connect and on every reconnect: from any live phase, a
/// lost connection runs through backoff, reconnect and handshake, and the
/// subscription success that ends the path triggers the catch-up fetch
/// again.
pub proof fn lemma_catch_up_on_reconnect(phase: PushPhase)
    requires
        phase != PushPhase::Stopped,
    ensures
        ({
            let s1 = spec_push_step(phase, PushEvent::ConnectionLost).0;
            let s2 = spec_push_step(s1, PushEvent::BackoffElapsed).0;
            let s3 = spec_push_step(s2, PushEvent::Established).0;
            spec_push_step(s3, PushEvent::SubscribeOk) == (
                PushPhase::Subscribed,
                PushAction::RunCatchUp,
            )
        }),
{
}

} // verus!
