//! When the relay and the ingest of tool events start, run and stop.
//!
//! At most one relay and one ingest run in a process. Each is claimed before it starts and
//! released when it stops, or when it cannot start. The functions here decide what comes
//! next; what they ask for is done elsewhere, and what came of it is the next event.

use vstd::prelude::*;

verus! {

/// The namespace of tool events: that of the model or, where it has none, that of its
/// endpoint.
pub fn tool_events_namespace(namespace: Option<&str>, endpoint_namespace: &str) -> (r: String)
    ensures
        r@ == match namespace {
            Some(n) => n@,
            None => endpoint_namespace@,
        },
{
    match namespace {
        Some(n) => n.to_string(),
        None => endpoint_namespace.to_string(),
    }
}

/// Where the relay stands.
#[derive(Clone, Copy, Debug, PartialEq, Eq, Structural)]
pub enum RelayState {
    /// Nothing was asked for yet.
    Begin,
    /// The claim was asked for.
    Claiming,
    /// The claim is held and the relay was asked to start.
    Starting,
    /// The claim is held and the relay runs.
    Running,
    /// Nothing is left to do.
    Done,
}

/// What happened to the relay.
#[derive(Clone, Copy, Debug, PartialEq, Eq, Structural)]
pub enum RelayEvent {
    /// The policy was read; it names an endpoint or not.
    PolicyRead { has_endpoint: bool },
    /// The claim was granted, or is held by another.
    ClaimAnswered { granted: bool },
    /// The relay started, or failed to.
    StartAnswered { started: bool },
    /// The process shuts down.
    Shutdown,
}

/// What is to be done for the relay.
#[derive(Clone, Copy, Debug, PartialEq, Eq, Structural)]
pub enum RelayAction {
    /// Return: there is nothing to relay, or another relay runs.
    Return,
    /// Ask for the claim.
    Claim,
    /// Start the relay.
    Start,
    /// Return, and wait in the background for the shutdown.
    Run,
    /// Release the claim and return the error.
    ReleaseAndFail,
    /// Shut the relay down and release the claim.
    ShutDownAndRelease,
    /// Nothing: the event does not concern this state.
    Ignore,
}

/// The claim is held.
pub open spec fn relay_holds_claim(state: RelayState) -> bool {
    state is Starting || state is Running
}

/// The next state of the relay, and what is to be done.
pub open spec fn relay_next(state: RelayState, event: RelayEvent) -> (RelayState, RelayAction) {
    match (state, event) {
        (RelayState::Begin, RelayEvent::PolicyRead { has_endpoint }) => if has_endpoint {
            (RelayState::Claiming, RelayAction::Claim)
        } else {
            (RelayState::Done, RelayAction::Return)
        },
        (RelayState::Claiming, RelayEvent::ClaimAnswered { granted }) => if granted {
            (RelayState::Starting, RelayAction::Start)
        } else {
            (RelayState::Done, RelayAction::Return)
        },
        (RelayState::Starting, RelayEvent::StartAnswered { started }) => if started {
            (RelayState::Running, RelayAction::Run)
        } else {
            (RelayState::Done, RelayAction::ReleaseAndFail)
        },
        (RelayState::Running, RelayEvent::Shutdown) => (
            RelayState::Done,
            RelayAction::ShutDownAndRelease,
        ),
        _ => (state, RelayAction::Ignore),
    }
}

/// Decides what comes next for the relay.
pub fn start_tool_event_relay_from_policy(state: RelayState, event: RelayEvent) -> (r: (
    RelayState,
    RelayAction,
))
    ensures
        r == relay_next(state, event),
{
    match (state, event) {
        (RelayState::Begin, RelayEvent::PolicyRead { has_endpoint }) => {
            if has_endpoint {
                (RelayState::Claiming, RelayAction::Claim)
            } else {
                (RelayState::Done, RelayAction::Return)
            }
        },
        (RelayState::Claiming, RelayEvent::ClaimAnswered { granted }) => {
            if granted {
                (RelayState::Starting, RelayAction::Start)
            } else {
                (RelayState::Done, RelayAction::Return)
            }
        },
        (RelayState::Starting, RelayEvent::StartAnswered { started }) => {
            if started {
                (RelayState::Running, RelayAction::Run)
            } else {
                (RelayState::Done, RelayAction::ReleaseAndFail)
            }
        },
        (RelayState::Running, RelayEvent::Shutdown) => (
            RelayState::Done,
            RelayAction::ShutDownAndRelease,
        ),
        _ => (state, RelayAction::Ignore),
    }
}

/// Where the ingest stands.
#[derive(Clone, Copy, Debug, PartialEq, Eq, Structural)]
pub enum IngestState {
    /// Nothing was asked for yet.
    Begin,
    /// The relay was asked to start.
    StartingRelay,
    /// The claim was asked for.
    Claiming,
    /// The claim is held and the subscription was asked for.
    Subscribing,
    /// The claim is held and events are taken in.
    Running,
    /// Nothing is left to do.
    Done,
}

/// What happened to the ingest.
#[derive(Clone, Copy, Debug, PartialEq, Eq, Structural)]
pub enum IngestEvent {
    /// The policy was read; it names an endpoint or not.
    PolicyRead { has_endpoint: bool },
    /// The relay is taken care of, or failed to start.
    RelayAnswered { started: bool },
    /// The claim was granted, or is held by another.
    ClaimAnswered { granted: bool },
    /// The subscription was made, or failed.
    SubscribeAnswered { subscribed: bool },
    /// A record came.
    Record,
    /// An event came that is no record.
    DecodeFailed,
    /// No event will come any more.
    StreamEnded,
    /// The process shuts down.
    Shutdown,
}

/// What is to be done for the ingest.
#[derive(Clone, Copy, Debug, PartialEq, Eq, Structural)]
pub enum IngestAction {
    /// Return: there is nothing to take in, or another ingest runs.
    Return,
    /// Start the relay.
    StartRelay,
    /// Return the error.
    Fail,
    /// Ask for the claim.
    Claim,
    /// Subscribe to the events.
    Subscribe,
    /// Release the claim and return the error.
    ReleaseAndFail,
    /// Return, and wait in the background for the next event.
    Run,
    /// Publish the record and wait for the next event.
    Publish,
    /// Warn and wait for the next event.
    Warn,
    /// Stop and release the claim.
    StopAndRelease,
    /// Nothing: the event does not concern this state.
    Ignore,
}

/// The claim is held.
pub open spec fn ingest_holds_claim(state: IngestState) -> bool {
    state is Subscribing || state is Running
}

/// The next state of the ingest, and what is to be done.
pub open spec fn ingest_next(
    state: IngestState,
    event: IngestEvent,
) -> (IngestState, IngestAction) {
    match (state, event) {
        (IngestState::Begin, IngestEvent::PolicyRead { has_endpoint }) => if has_endpoint {
            (IngestState::StartingRelay, IngestAction::StartRelay)
        } else {
            (IngestState::Done, IngestAction::Return)
        },
        (IngestState::StartingRelay, IngestEvent::RelayAnswered { started }) => if started {
            (IngestState::Claiming, IngestAction::Claim)
        } else {
            (IngestState::Done, IngestAction::Fail)
        },
        (IngestState::Claiming, IngestEvent::ClaimAnswered { granted }) => if granted {
            (IngestState::Subscribing, IngestAction::Subscribe)
        } else {
            (IngestState::Done, IngestAction::Return)
        },
        (IngestState::Subscribing, IngestEvent::SubscribeAnswered { subscribed }) => if subscribed {
            (IngestState::Running, IngestAction::Run)
        } else {
            (IngestState::Done, IngestAction::ReleaseAndFail)
        },
        (IngestState::Running, IngestEvent::Record) => (
            IngestState::Running,
            IngestAction::Publish,
        ),
        (IngestState::Running, IngestEvent::DecodeFailed) => (
            IngestState::Running,
            IngestAction::Warn,
        ),
        (IngestState::Running, IngestEvent::StreamEnded) => (
            IngestState::Done,
            IngestAction::StopAndRelease,
        ),
        (IngestState::Running, IngestEvent::Shutdown) => (
            IngestState::Done,
            IngestAction::StopAndRelease,
        ),
        _ => (state, IngestAction::Ignore),
    }
}

/// Decides what comes next for the ingest.
pub fn start_tool_event_ingest_from_policy(state: IngestState, event: IngestEvent) -> (r: (
    IngestState,
    IngestAction,
))
    ensures
        r == ingest_next(state, event),
{
    match (state, event) {
        (IngestState::Begin, IngestEvent::PolicyRead { has_endpoint }) => {
            if has_endpoint {
                (IngestState::StartingRelay, IngestAction::StartRelay)
            } else {
                (IngestState::Done, IngestAction::Return)
            }
        },
        (IngestState::StartingRelay, IngestEvent::RelayAnswered { started }) => {
            if started {
                (IngestState::Claiming, IngestAction::Claim)
            } else {
                (IngestState::Done, IngestAction::Fail)
            }
        },
        (IngestState::Claiming, IngestEvent::ClaimAnswered { granted }) => {
            if granted {
                (IngestState::Subscribing, IngestAction::Subscribe)
            } else {
                (IngestState::Done, IngestAction::Return)
            }
        },
        (IngestState::Subscribing, IngestEvent::SubscribeAnswered { subscribed }) => {
            if subscribed {
                (IngestState::Running, IngestAction::Run)
            } else {
                (IngestState::Done, IngestAction::ReleaseAndFail)
            }
        },
        (IngestState::Running, IngestEvent::Record) => (
            IngestState::Running,
            IngestAction::Publish,
        ),
        (IngestState::Running, IngestEvent::DecodeFailed) => (
            IngestState::Running,
            IngestAction::Warn,
        ),
        (IngestState::Running, IngestEvent::StreamEnded) => (
            IngestState::Done,
            IngestAction::StopAndRelease,
        ),
        (IngestState::Running, IngestEvent::Shutdown) => (
            IngestState::Done,
            IngestAction::StopAndRelease,
        ),
        _ => (state, IngestAction::Ignore),
    }
}

/// The state of the relay after events.
pub open spec fn relay_after(events: Seq<RelayEvent>) -> RelayState
    decreases events.len(),
{
    if events.len() == 0 {
        RelayState::Begin
    } else {
        relay_next(relay_after(events.drop_last()), events.last()).0
    }
}

/// How often the claim was released in the course of events.
pub open spec fn relay_releases(events: Seq<RelayEvent>) -> nat
    decreases events.len(),
{
    if events.len() == 0 {
        0
    } else {
        let action = relay_next(relay_after(events.drop_last()), events.last()).1;
        relay_releases(events.drop_last()) + if action is ReleaseAndFail
            || action is ShutDownAndRelease {
            1nat
        } else {
            0nat
        }
    }
}

/// How often the claim was taken in the course of events.
pub open spec fn relay_claims(events: Seq<RelayEvent>) -> nat
    decreases events.len(),
{
    if events.len() == 0 {
        0
    } else {
        let before = relay_after(events.drop_last());
        relay_claims(events.drop_last()) + if before is Claiming && events.last()
            == (RelayEvent::ClaimAnswered { granted: true }) {
            1nat
        } else {
            0nat
        }
    }
}

/// Whatever happens, the relay takes the claim at most once, holds it while it starts and
/// runs, and has released it as often as it took it when nothing is left to do.
pub proof fn law_relay_releases_its_claim(events: Seq<RelayEvent>)
    ensures
        relay_claims(events) <= 1,
        relay_claims(events) == relay_releases(events) + if relay_holds_claim(relay_after(events)) {
            1nat
        } else {
            0nat
        },
        relay_after(events) is Begin || relay_after(events) is Claiming ==> relay_claims(events) == 0,
        relay_after(events) is Done ==> relay_claims(events) == relay_releases(events),
    decreases events.len(),
{
    if events.len() > 0 {
        law_relay_releases_its_claim(events.drop_last());
    }
}

/// The state of the ingest after events.
pub open spec fn ingest_after(events: Seq<IngestEvent>) -> IngestState
    decreases events.len(),
{
    if events.len() == 0 {
        IngestState::Begin
    } else {
        ingest_next(ingest_after(events.drop_last()), events.last()).0
    }
}

/// How often the claim was released in the course of events.
pub open spec fn ingest_releases(events: Seq<IngestEvent>) -> nat
    decreases events.len(),
{
    if events.len() == 0 {
        0
    } else {
        let action = ingest_next(ingest_after(events.drop_last()), events.last()).1;
        ingest_releases(events.drop_last()) + if action is ReleaseAndFail || action is StopAndRelease {
            1nat
        } else {
            0nat
        }
    }
}

/// How often the claim was taken in the course of events.
pub open spec fn ingest_claims(events: Seq<IngestEvent>) -> nat
    decreases events.len(),
{
    if events.len() == 0 {
        0
    } else {
        let before = ingest_after(events.drop_last());
        ingest_claims(events.drop_last()) + if before is Claiming && events.last()
            == (IngestEvent::ClaimAnswered { granted: true }) {
            1nat
        } else {
            0nat
        }
    }
}

/// Whatever happens, the ingest takes the claim at most once, holds it while it subscribes
/// and runs, and has released it as often as it took it when nothing is left to do.
pub proof fn law_ingest_releases_its_claim(events: Seq<IngestEvent>)
    ensures
        ingest_claims(events) <= 1,
        ingest_claims(events) == ingest_releases(events) + if ingest_holds_claim(
            ingest_after(events),
        ) {
            1nat
        } else {
            0nat
        },
        ingest_after(events) is Begin || ingest_after(events) is StartingRelay || ingest_after(
            events,
        ) is Claiming ==> ingest_claims(events) == 0,
        ingest_after(events) is Done ==> ingest_claims(events) == ingest_releases(events),
    decreases events.len(),
{
    if events.len() > 0 {
        law_ingest_releases_its_claim(events.drop_last());
    }
}

/// A record is published exactly where the ingest runs, and then it goes on running; an event
/// that cannot be decoded does not stop it.
pub proof fn law_running_ingest_publishes(state: IngestState)
    ensures
        ingest_next(state, IngestEvent::Record).1 is Publish <==> state is Running,
        state is Running ==> ingest_next(state, IngestEvent::Record).0 is Running,
        state is Running ==> ingest_next(state, IngestEvent::DecodeFailed).0 is Running,
{
}

/// The relay runs only where the policy named an endpoint, the claim was granted and the start
/// succeeded.
pub proof fn law_running_relay_was_granted_and_started(events: Seq<RelayEvent>)
    ensures
        relay_after(events) is Running ==> {
            &&& events.contains(RelayEvent::PolicyRead { has_endpoint: true })
            &&& events.contains(RelayEvent::ClaimAnswered { granted: true })
            &&& events.contains(RelayEvent::StartAnswered { started: true })
        },
        relay_after(events) is Starting ==> {
            &&& events.contains(RelayEvent::PolicyRead { has_endpoint: true })
            &&& events.contains(RelayEvent::ClaimAnswered { granted: true })
        },
        relay_after(events) is Claiming ==> events.contains(
            RelayEvent::PolicyRead { has_endpoint: true },
        ),
    decreases events.len(),
{
    if events.len() > 0 {
        let before = events.drop_last();
        law_running_relay_was_granted_and_started(before);
        let n = events.len() - 1;
        assert(events[n] == events.last());
        assert forall|e: RelayEvent| before.contains(e) implies events.contains(e) by {
            let i = choose|i: int| 0 <= i < before.len() && before[i] == e;
            assert(events[i] == e);
        }
    }
}

/// What each answer asks for: without an endpoint, or where the claim is held by another, the
/// relay returns; a granted claim starts it; a failed start releases the claim and fails; a
/// shutdown of a running relay shuts it down and releases the claim. Every other event is ignored
/// and leaves the state as it is.
pub proof fn law_relay_answers_its_events(state: RelayState, event: RelayEvent)
    ensures
        ({
            let next = relay_next(state, event);
            let concerned = (state is Begin && event is PolicyRead) || (state is Claiming
                && event is ClaimAnswered) || (state is Starting && event is StartAnswered) || (
            state is Running && event is Shutdown);
            &&& next.1 is Ignore <==> !concerned
            &&& !concerned ==> next.0 == state
            &&& next.1 is Claim <==> state is Begin && event == (RelayEvent::PolicyRead {
                has_endpoint: true,
            })
            &&& next.1 is Start <==> state is Claiming && event == (RelayEvent::ClaimAnswered {
                granted: true,
            })
            &&& next.1 is Run <==> state is Starting && event == (RelayEvent::StartAnswered {
                started: true,
            })
            &&& next.1 is ReleaseAndFail <==> state is Starting && event == (
            RelayEvent::StartAnswered { started: false })
            &&& next.1 is ShutDownAndRelease <==> state is Running && event is Shutdown
            &&& next.1 is Claim ==> next.0 is Claiming
            &&& next.1 is Start ==> next.0 is Starting
            &&& next.1 is Run ==> next.0 is Running
            &&& next.1 is Return || next.1 is ReleaseAndFail || next.1 is ShutDownAndRelease
                ==> next.0 is Done
        }),
{
}

/// The ingest runs only where the policy named an endpoint, the relay is taken care of, the claim
/// was granted and the subscription was made.
pub proof fn law_running_ingest_was_granted_and_subscribed(events: Seq<IngestEvent>)
    ensures
        ingest_after(events) is Running ==> events.contains(
            IngestEvent::SubscribeAnswered { subscribed: true },
        ),
        ingest_after(events) is Running || ingest_after(events) is Subscribing ==> events.contains(
            IngestEvent::ClaimAnswered { granted: true },
        ),
        ingest_after(events) is Running || ingest_after(events) is Subscribing || ingest_after(
            events,
        ) is Claiming ==> events.contains(IngestEvent::RelayAnswered { started: true }),
        ingest_after(events) is Running || ingest_after(events) is Subscribing || ingest_after(
            events,
        ) is Claiming || ingest_after(events) is StartingRelay ==> events.contains(
            IngestEvent::PolicyRead { has_endpoint: true },
        ),
    decreases events.len(),
{
    if events.len() > 0 {
        let before = events.drop_last();
        law_running_ingest_was_granted_and_subscribed(before);
        let n = events.len() - 1;
        assert(events[n] == events.last());
        assert forall|e: IngestEvent| before.contains(e) implies events.contains(e) by {
            let i = choose|i: int| 0 <= i < before.len() && before[i] == e;
            assert(events[i] == e);
        }
    }
}

/// What each answer asks for: the relay is started before the claim is asked for, and a relay
/// that fails to start fails the ingest; a claim that is held by another ends it quietly; a
/// failed subscription releases the claim and fails; the end of the stream and a shutdown stop a
/// running ingest and release the claim. Every other event is ignored and leaves the state as it
/// is.
pub proof fn law_ingest_answers_its_events(state: IngestState, event: IngestEvent)
    ensures
        ({
            let next = ingest_next(state, event);
            let concerned = (state is Begin && event is PolicyRead) || (state is StartingRelay
                && event is RelayAnswered) || (state is Claiming && event is ClaimAnswered) || (
            state is Subscribing && event is SubscribeAnswered) || (state is Running && (event
                is Record || event is DecodeFailed || event is StreamEnded || event is Shutdown));
            &&& next.1 is Ignore <==> !concerned
            &&& !concerned ==> next.0 == state
            &&& next.1 is StartRelay <==> state is Begin && event == (IngestEvent::PolicyRead {
                has_endpoint: true,
            })
            &&& next.1 is Claim <==> state is StartingRelay && event == (
            IngestEvent::RelayAnswered { started: true })
            &&& next.1 is Fail <==> state is StartingRelay && event == (
            IngestEvent::RelayAnswered { started: false })
            &&& next.1 is Subscribe <==> state is Claiming && event == (
            IngestEvent::ClaimAnswered { granted: true })
            &&& next.1 is Run <==> state is Subscribing && event == (
            IngestEvent::SubscribeAnswered { subscribed: true })
            &&& next.1 is ReleaseAndFail <==> state is Subscribing && event == (
            IngestEvent::SubscribeAnswered { subscribed: false })
            &&& next.1 is Publish <==> state is Running && event is Record
            &&& next.1 is Warn <==> state is Running && event is DecodeFailed
            &&& next.1 is StopAndRelease <==> state is Running && (event is StreamEnded || event
                is Shutdown)
            &&& next.1 is StartRelay ==> next.0 is StartingRelay
            &&& next.1 is Claim ==> next.0 is Claiming
            &&& next.1 is Subscribe ==> next.0 is Subscribing
            &&& next.1 is Run || next.1 is Publish || next.1 is Warn ==> next.0 is Running
            &&& next.1 is Return || next.1 is Fail || next.1 is ReleaseAndFail || next.1
                is StopAndRelease ==> next.0 is Done
        }),
{
}

} // verus!
