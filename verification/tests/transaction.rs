use std::time::Duration;

use rift_ergo::model::RiftEvent;
use rift_ergo::transaction::{
    event_workspace, is_transition_event, trace_wait, Completion, EventExpectation,
    RiftTransaction,
};

fn workspace(display_uuid: &str, workspace_name: &str) -> EventExpectation {
    EventExpectation::Workspace {
        display_uuid: display_uuid.into(),
        workspace_name: workspace_name.into(),
    }
}

fn batch_timeout(item_count: usize) -> Duration {
    Duration::from_millis(RiftTransaction::batch_timeout(item_count))
}

#[test]
fn workspace_expectation_requires_exact_display_and_workspace() {
    let event = RiftEvent::WindowsChanged {
        workspace_name: "W".into(),
        display_uuid: Some("external".into()),
    };

    assert!(workspace("external", "W").matches(&event));
    assert!(!workspace("builtin", "W").matches(&event));
    assert!(!workspace("external", "A").matches(&event));
}

#[test]
fn display_expectation_takes_any_workspace_of_the_display() {
    let expected = EventExpectation::Display("external".into());
    for name in ["W", "A"] {
        let event = RiftEvent::FocusedWindowChanged {
            workspace_name: name.into(),
            display_uuid: Some("external".into()),
        };
        assert!(expected.matches(&event));
        assert!(!EventExpectation::Display("builtin".into()).matches(&event));
    }
    let nowhere = RiftEvent::WorkspaceChanged { workspace_name: "W".into(), display_uuid: None };
    assert!(!expected.matches(&nowhere));
}

#[test]
fn titles_and_stacks_are_no_transitions() {
    let titled = RiftEvent::WindowTitleChanged { display_uuid: Some("external".into()) };
    let stacked = RiftEvent::StacksChanged { display_uuid: Some("external".into()) };
    let changed = RiftEvent::WorkspaceChanged {
        workspace_name: "W".into(),
        display_uuid: Some("external".into()),
    };
    assert!(!is_transition_event(&titled));
    assert!(!is_transition_event(&stacked));
    assert!(is_transition_event(&changed));
    assert!(!EventExpectation::Display("external".into()).matches(&titled));
    assert!(!EventExpectation::Display("external".into()).matches(&stacked));
    assert_eq!(event_workspace(&titled), None);
    assert_eq!(event_workspace(&changed), Some(&"W".to_string()));
}

#[test]
fn batch_timeout_scales_with_item_count() {
    assert_eq!(batch_timeout(0), Duration::from_secs(30));
    assert_eq!(batch_timeout(1), Duration::from_secs(30));
    assert_eq!(batch_timeout(6), Duration::from_secs(30));
    assert_eq!(batch_timeout(20), Duration::from_millis(42_500));
}

#[test]
fn batch_timeout_stops_growing_at_32_bits() {
    let most = Duration::from_millis(2_500 + 2_000 * u64::from(u32::MAX));
    assert_eq!(batch_timeout(u32::MAX as usize), most);
    assert_eq!(batch_timeout(usize::MAX), most);
}

#[test]
fn a_deadline_is_its_own_or_that_of_the_batch() {
    let single = RiftTransaction { step_timeout: 2_500, batch_deadline: None };
    assert_eq!(single.deadline(7, 250), 250_000_007);
    let batch = RiftTransaction { step_timeout: 2_500, batch_deadline: Some(100_000_000) };
    assert_eq!(batch.deadline(7, 250), 100_000_000);
    assert_eq!(batch.deadline(7, 50), 50_000_007);
}

#[test]
fn a_trace_line_tells_what_ended_the_wait() {
    assert_eq!(
        trace_wait("window transfer", Completion::MatchingEvent, 1_000_000, 43_999_999),
        "rift-ergo: window transfer completed by matching event in 42 ms"
    );
    assert_eq!(
        trace_wait("x", Completion::StableState, 5, 4),
        "rift-ergo: x completed by stable state in 0 ms"
    );
    assert_eq!(
        trace_wait("x", Completion::StateProbe, 0, 1_000_000_000),
        "rift-ergo: x completed by state probe in 1000 ms"
    );
    assert_eq!(
        trace_wait("x", Completion::DeadlineValidation, 0, 0),
        "rift-ergo: x completed by deadline validation in 0 ms"
    );
}
