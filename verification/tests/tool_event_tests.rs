//! Starting and stopping the relay and the ingest of tool events.

use toolcall::tool_events::{
    start_tool_event_ingest_from_policy, start_tool_event_relay_from_policy, tool_events_namespace,
    IngestAction, IngestEvent, IngestState, RelayAction, RelayEvent, RelayState,
};

fn relay(events: &[RelayEvent]) -> (RelayState, Vec<RelayAction>) {
    let mut state = RelayState::Begin;
    let mut actions = vec![];
    for event in events {
        let (next, action) = start_tool_event_relay_from_policy(state, *event);
        state = next;
        actions.push(action);
    }
    (state, actions)
}

fn ingest(events: &[IngestEvent]) -> (IngestState, Vec<IngestAction>) {
    let mut state = IngestState::Begin;
    let mut actions = vec![];
    for event in events {
        let (next, action) = start_tool_event_ingest_from_policy(state, *event);
        state = next;
        actions.push(action);
    }
    (state, actions)
}

#[test]
fn namespace_of_the_model_goes_first() {
    assert_eq!(tool_events_namespace(Some("model"), "endpoint"), "model");
    assert_eq!(tool_events_namespace(None, "endpoint"), "endpoint");
}

#[test]
fn relay_runs_until_shutdown() {
    let (state, actions) = relay(&[
        RelayEvent::PolicyRead { has_endpoint: true },
        RelayEvent::ClaimAnswered { granted: true },
        RelayEvent::StartAnswered { started: true },
        RelayEvent::Shutdown,
    ]);
    assert_eq!(state, RelayState::Done);
    assert_eq!(
        actions,
        vec![
            RelayAction::Claim,
            RelayAction::Start,
            RelayAction::Run,
            RelayAction::ShutDownAndRelease
        ]
    );
}

#[test]
fn relay_without_endpoint_or_claim_returns() {
    let (state, actions) = relay(&[RelayEvent::PolicyRead { has_endpoint: false }]);
    assert_eq!((state, actions), (RelayState::Done, vec![RelayAction::Return]));
    let (state, actions) = relay(&[
        RelayEvent::PolicyRead { has_endpoint: true },
        RelayEvent::ClaimAnswered { granted: false },
    ]);
    assert_eq!((state, actions[1]), (RelayState::Done, RelayAction::Return));
}

#[test]
fn relay_that_cannot_start_releases_its_claim() {
    let (state, actions) = relay(&[
        RelayEvent::PolicyRead { has_endpoint: true },
        RelayEvent::ClaimAnswered { granted: true },
        RelayEvent::StartAnswered { started: false },
        RelayEvent::Shutdown,
    ]);
    assert_eq!(state, RelayState::Done);
    assert_eq!(actions[2..], [RelayAction::ReleaseAndFail, RelayAction::Ignore]);
}

#[test]
fn ingest_publishes_until_the_stream_ends() {
    let (state, actions) = ingest(&[
        IngestEvent::PolicyRead { has_endpoint: true },
        IngestEvent::RelayAnswered { started: true },
        IngestEvent::ClaimAnswered { granted: true },
        IngestEvent::SubscribeAnswered { subscribed: true },
        IngestEvent::Record,
        IngestEvent::DecodeFailed,
        IngestEvent::Record,
        IngestEvent::StreamEnded,
    ]);
    assert_eq!(state, IngestState::Done);
    assert_eq!(
        actions,
        vec![
            IngestAction::StartRelay,
            IngestAction::Claim,
            IngestAction::Subscribe,
            IngestAction::Run,
            IngestAction::Publish,
            IngestAction::Warn,
            IngestAction::Publish,
            IngestAction::StopAndRelease,
        ]
    );
}

#[test]
fn ingest_stops_at_shutdown() {
    let (state, actions) = ingest(&[
        IngestEvent::PolicyRead { has_endpoint: true },
        IngestEvent::RelayAnswered { started: true },
        IngestEvent::ClaimAnswered { granted: true },
        IngestEvent::SubscribeAnswered { subscribed: true },
        IngestEvent::Shutdown,
    ]);
    assert_eq!((state, actions[4]), (IngestState::Done, IngestAction::StopAndRelease));
}

#[test]
fn ingest_that_cannot_start() {
    let (state, actions) = ingest(&[IngestEvent::PolicyRead { has_endpoint: false }]);
    assert_eq!((state, actions[0]), (IngestState::Done, IngestAction::Return));
    let (state, actions) = ingest(&[
        IngestEvent::PolicyRead { has_endpoint: true },
        IngestEvent::RelayAnswered { started: false },
    ]);
    assert_eq!((state, actions[1]), (IngestState::Done, IngestAction::Fail));
    let (state, actions) = ingest(&[
        IngestEvent::PolicyRead { has_endpoint: true },
        IngestEvent::RelayAnswered { started: true },
        IngestEvent::ClaimAnswered { granted: false },
    ]);
    assert_eq!((state, actions[2]), (IngestState::Done, IngestAction::Return));
    let (state, actions) = ingest(&[
        IngestEvent::PolicyRead { has_endpoint: true },
        IngestEvent::RelayAnswered { started: true },
        IngestEvent::ClaimAnswered { granted: true },
        IngestEvent::SubscribeAnswered { subscribed: false },
    ]);
    assert_eq!((state, actions[3]), (IngestState::Done, IngestAction::ReleaseAndFail));
}

#[test]
fn claims_and_releases_balance() {
    let all = [
        IngestEvent::PolicyRead { has_endpoint: true },
        IngestEvent::RelayAnswered { started: true },
        IngestEvent::ClaimAnswered { granted: true },
        IngestEvent::SubscribeAnswered { subscribed: false },
        IngestEvent::SubscribeAnswered { subscribed: true },
        IngestEvent::Record,
        IngestEvent::Shutdown,
    ];
    for n in 0..=all.len() {
        let (state, actions) = ingest(&all[..n]);
        let claims = actions.iter().filter(|a| **a == IngestAction::Subscribe).count();
        let releases = actions
            .iter()
            .filter(|a| matches!(a, IngestAction::ReleaseAndFail | IngestAction::StopAndRelease))
            .count();
        let held = matches!(state, IngestState::Subscribing | IngestState::Running);
        assert_eq!(claims, releases + held as usize);
    }
}
