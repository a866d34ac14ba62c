use p2p_node::orchestrate::{
    ExhaustionError, FetchEvent, Orchestrator, SplitEvent, TransferFault,
};
use p2p_node::state::TransferState;

fn fresh_state() -> TransferState {
    TransferState::new("node-a".to_string(), Some("selfid".to_string()))
}

fn labels_of<'a>(state: &'a TransferState, provider: &str) -> Option<&'a Vec<String>> {
    state
        .stripe_providers
        .iter()
        .find(|p| p.0 == provider)
        .map(|p| &p.1)
}

fn directory_of(pairs: &[(&str, &str)]) -> Vec<(String, String)> {
    pairs
        .iter()
        .map(|(u, n)| (u.to_string(), n.to_string()))
        .collect()
}

const HASH: &str = "00112233445566778899aabbccddeeff00112233445566778899aabbccddeeff";

fn begin_two_candidates(state: &mut TransferState) -> Orchestrator {
    let dir = directory_of(&[("http://peer1", "p1"), ("http://peer2", "p2")]);
    Orchestrator::begin(
        state,
        HASH.to_string(),
        "pic.png".to_string(),
        "image/png".to_string(),
        &dir,
        None,
    )
}

/// Scenario: both sub-requests of a split complete, one per provider.
#[test]
fn scenario_split_success() {
    let mut state = fresh_state();
    let mut orch = begin_two_candidates(&mut state);
    assert_eq!(orch.candidates, vec!["p1".to_string(), "p2".to_string()]);
    assert!(orch.start_split());

    orch.on_split_event(
        &mut state,
        SplitEvent::Assign { key: "r0".to_string(), provider: "p1".to_string() },
    );
    orch.on_split_event(
        &mut state,
        SplitEvent::Assign { key: "r1".to_string(), provider: "p2".to_string() },
    );
    orch.on_split_event(&mut state, SplitEvent::Progress { received: 4 });
    orch.on_split_event(
        &mut state,
        SplitEvent::PartComplete { key: "r0".to_string(), label: "range1".to_string() },
    );
    orch.on_split_event(&mut state, SplitEvent::Progress { received: 8 });
    orch.on_split_event(
        &mut state,
        SplitEvent::PartComplete { key: "r1".to_string(), label: "range2".to_string() },
    );

    orch.note_export();
    orch.finish_split(&mut state, "selfid".to_string());

    assert!(state.has_image);
    assert_eq!(state.progress, 100);
    assert_eq!(state.bytes_total, Some(8));
    assert_eq!(state.bytes_received, 8);
    assert_eq!(labels_of(&state, "p1").unwrap(), &vec!["range1".to_string()]);
    assert_eq!(labels_of(&state, "p2").unwrap(), &vec!["range2".to_string()]);
    assert_eq!(labels_of(&state, "selfid").unwrap(), &vec!["all".to_string()]);
    assert_eq!(state.stripe_providers.len(), 3);
}

/// Draining a whole event stream at once gives the same record as
/// feeding the events one by one.
#[test]
fn split_event_stream_drained_in_order() {
    let mut state = fresh_state();
    let mut orch = begin_two_candidates(&mut state);
    assert!(orch.start_split());
    let events = vec![
        SplitEvent::Assign { key: "r0".to_string(), provider: "p1".to_string() },
        SplitEvent::Progress { received: 4 },
        SplitEvent::PartComplete { key: "r0".to_string(), label: "range1".to_string() },
        SplitEvent::Assign { key: "r1".to_string(), provider: "p2".to_string() },
        SplitEvent::Progress { received: 8 },
        SplitEvent::PartComplete { key: "r1".to_string(), label: "range2".to_string() },
    ];
    orch.apply_split_events(&mut state, events);
    assert_eq!(state.bytes_received, 8);
    assert_eq!(labels_of(&state, "p1").unwrap(), &vec!["range1".to_string()]);
    assert_eq!(labels_of(&state, "p2").unwrap(), &vec!["range2".to_string()]);
}

/// A completion is attributed to whoever holds the assignment at that
/// moment, not to the first assignee.
#[test]
fn split_attribution_follows_reassignment() {
    let mut state = fresh_state();
    let mut orch = begin_two_candidates(&mut state);
    assert!(orch.start_split());

    orch.on_split_event(
        &mut state,
        SplitEvent::Assign { key: "r0".to_string(), provider: "p1".to_string() },
    );
    orch.on_split_event(&mut state, SplitEvent::Unassign { key: "r0".to_string() });
    orch.on_split_event(
        &mut state,
        SplitEvent::Assign { key: "r0".to_string(), provider: "p2".to_string() },
    );
    orch.on_split_event(
        &mut state,
        SplitEvent::PartComplete { key: "r0".to_string(), label: "range1".to_string() },
    );
    assert!(labels_of(&state, "p1").is_none());
    assert_eq!(labels_of(&state, "p2").unwrap(), &vec!["range1".to_string()]);
}

/// A completion whose sub-request has no current owner records nothing.
#[test]
fn split_completion_without_owner_is_dropped() {
    let mut state = fresh_state();
    let mut orch = begin_two_candidates(&mut state);
    assert!(orch.start_split());
    orch.on_split_event(
        &mut state,
        SplitEvent::PartComplete { key: "r9".to_string(), label: "stray".to_string() },
    );
    assert!(state.stripe_providers.is_empty());
}

/// Scenario: split fails after partial progress; the sequential
/// attempt starts from a cleared record and the first candidate wins.
#[test]
fn scenario_split_failure_then_sequential_success() {
    let mut state = fresh_state();
    let mut orch = begin_two_candidates(&mut state);
    assert!(orch.start_split());

    orch.on_split_event(
        &mut state,
        SplitEvent::Assign { key: "r0".to_string(), provider: "p1".to_string() },
    );
    orch.on_split_event(&mut state, SplitEvent::Progress { received: 4 });
    orch.on_split_event(
        &mut state,
        SplitEvent::PartComplete { key: "r0".to_string(), label: "range1".to_string() },
    );

    orch.abort_split(&mut state, TransferFault::Transfer);

    // No residue of the aborted attempt is visible.
    assert_eq!(state.bytes_received, 0);
    assert_eq!(state.bytes_total, None);
    assert_eq!(state.progress, 0);
    assert!(state.stripe_providers.is_empty());
    assert!(!state.has_image);

    let candidate = orch.current_candidate().unwrap();
    assert_eq!(candidate, "p1");
    orch.on_fetch_event(
        &mut state,
        FetchEvent::TryProvider { provider: candidate.clone() },
    );
    orch.on_fetch_event(&mut state, FetchEvent::Progress { received: 8 });
    orch.on_fetch_event(&mut state, FetchEvent::PartComplete);
    orch.note_export();
    orch.finish_sequential(&mut state, "selfid".to_string());

    assert!(state.has_image);
    assert_eq!(state.progress, 100);
    assert_eq!(state.bytes_total, Some(8));
    assert_eq!(labels_of(&state, "p1").unwrap(), &vec!["all".to_string()]);
    assert_eq!(labels_of(&state, "selfid").unwrap(), &vec!["all".to_string()]);
    assert_eq!(state.stripe_providers.len(), 2);
}

/// Scenario: no candidate at all exhausts immediately, before any
/// fetch is issued.
#[test]
fn scenario_empty_candidates() {
    let mut state = fresh_state();
    let dir: Vec<(String, String)> = Vec::new();
    let mut orch = Orchestrator::begin(
        &mut state,
        HASH.to_string(),
        "pic.png".to_string(),
        "image/png".to_string(),
        &dir,
        None,
    );
    assert!(orch.candidates.is_empty());
    assert!(!orch.start_split());
    assert!(orch.current_candidate().is_none());
    assert_eq!(orch.failure(), ExhaustionError::NoProviderFound);
    assert!(!state.has_image);
}

/// Every candidate failing gives exactly one attempt per candidate,
/// in order, and then exhaustion carrying the last fault.
#[test]
fn sequential_exhaustion_counts_attempts() {
    let mut state = fresh_state();
    let mut orch = begin_two_candidates(&mut state);
    assert!(orch.start_split());
    orch.abort_split(&mut state, TransferFault::Connectivity);

    let mut tried: Vec<String> = Vec::new();
    while let Some(c) = orch.current_candidate() {
        tried.push(c);
        orch.candidate_failed(TransferFault::Transfer);
    }
    assert_eq!(tried, vec!["p1".to_string(), "p2".to_string()]);
    assert_eq!(orch.failure(), ExhaustionError::LastFault(TransferFault::Transfer));
    assert!(!state.has_image);
}

/// The candidate set is the directory's values plus the fallback,
/// deduplicated by node identity, in order.
#[test]
fn candidates_deduplicated_with_fallback() {
    let mut state = fresh_state();
    let dir = directory_of(&[
        ("http://peer1", "p1"),
        ("http://peer2", "p2"),
        ("http://peer3", "p1"),
    ]);
    let orch = Orchestrator::begin(
        &mut state,
        HASH.to_string(),
        "f".to_string(),
        "t".to_string(),
        &dir,
        Some("p3".to_string()),
    );
    assert_eq!(
        orch.candidates,
        vec!["p1".to_string(), "p2".to_string(), "p3".to_string()]
    );

    let orch2 = Orchestrator::begin(
        &mut state,
        HASH.to_string(),
        "f".to_string(),
        "t".to_string(),
        &dir,
        Some("p2".to_string()),
    );
    assert_eq!(orch2.candidates, vec!["p1".to_string(), "p2".to_string()]);
}

/// A receive request repeated for an already-fully-held hash succeeds
/// again: the retry starts from the same fresh record and ends in the
/// same completed state.
#[test]
fn repeated_receive_is_idempotent() {
    let mut state = fresh_state();
    for _round in 0..2 {
        let mut orch = begin_two_candidates(&mut state);
        assert!(orch.start_split());
        orch.abort_split(&mut state, TransferFault::Transfer);
        let candidate = orch.current_candidate().unwrap();
        orch.on_fetch_event(&mut state, FetchEvent::TryProvider { provider: candidate });
        orch.on_fetch_event(&mut state, FetchEvent::Progress { received: 8 });
        orch.note_export();
        orch.finish_sequential(&mut state, "selfid".to_string());
        assert!(state.has_image);
        assert_eq!(state.progress, 100);
        assert_eq!(state.bytes_total, Some(8));
        assert_eq!(labels_of(&state, "p1").unwrap(), &vec!["all".to_string()]);
        assert_eq!(labels_of(&state, "selfid").unwrap(), &vec!["all".to_string()]);
        assert_eq!(state.stripe_providers.len(), 2);
    }
}
