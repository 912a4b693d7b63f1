use vanity_search::coordinator::{default_worker_count, worker_count_for, Coordinator, Signal};
use vanity_search::error::SearchError;
use vanity_search::worker::{MatchResult, WorkerEvent};

fn hit(address: &str, index: u32) -> MatchResult {
    MatchResult { address: address.to_string(), index }
}

fn searching() -> Coordinator {
    Coordinator::new().advance(Signal::Requested).advance(Signal::Checked { derivable: true })
}

#[test]
fn coordinator_starts_idle() {
    let state = Coordinator::new();
    assert_eq!(state, Coordinator::Idle);
    assert!(!state.is_terminal());
    assert!(!state.is_searching());
    assert_eq!(state.into_outcome(), None);
}

#[test]
fn request_then_check_leads_to_searching() {
    let state = Coordinator::new().advance(Signal::Requested);
    assert_eq!(state, Coordinator::Validating);
    let state = state.advance(Signal::Checked { derivable: true });
    assert_eq!(state, Coordinator::Searching);
    assert!(state.is_searching());
    assert!(!state.is_terminal());
    assert_eq!(state.into_outcome(), None);
}

#[test]
fn descriptor_without_wildcard_is_rejected() {
    let state = Coordinator::new()
        .advance(Signal::Requested)
        .advance(Signal::Checked { derivable: false });
    assert_eq!(state, Coordinator::Rejected);
    assert!(state.is_terminal());
    assert!(state.plan(4).is_empty());
    assert_eq!(state.into_outcome(), Some(Err(SearchError::ValidationError)));
}

#[test]
fn first_match_completes_the_search() {
    let state = searching().advance(Signal::Reported(WorkerEvent::Matched(hit("bc1qabc", 9))));
    assert_eq!(state, Coordinator::Completed(hit("bc1qabc", 9)));
    assert!(state.is_terminal());
    assert_eq!(state.into_outcome(), Some(Ok(hit("bc1qabc", 9))));
}

#[test]
fn first_failure_fails_the_search() {
    let state = searching()
        .advance(Signal::Reported(WorkerEvent::Failed(SearchError::DerivationError)));
    assert_eq!(state, Coordinator::Failed(SearchError::DerivationError));
    assert_eq!(state.into_outcome(), Some(Err(SearchError::DerivationError)));
}

#[test]
fn closed_channel_is_a_channel_error() {
    let state = searching().advance(Signal::Disconnected);
    assert_eq!(state, Coordinator::Failed(SearchError::ChannelError));
    assert_eq!(state.into_outcome(), Some(Err(SearchError::ChannelError)));
}

#[test]
fn pending_report_keeps_searching() {
    let state = searching().advance(Signal::Reported(WorkerEvent::Pending));
    assert_eq!(state, Coordinator::Searching);
}

#[test]
fn later_reports_do_not_change_the_result() {
    let won = searching()
        .advance(Signal::Reported(WorkerEvent::Matched(hit("bc1qfirst", 2))))
        .advance(Signal::Reported(WorkerEvent::Matched(hit("bc1qsecond", 1))))
        .advance(Signal::Reported(WorkerEvent::Failed(SearchError::DerivationError)))
        .advance(Signal::Disconnected)
        .advance(Signal::Requested)
        .advance(Signal::Checked { derivable: false });
    assert_eq!(won, Coordinator::Completed(hit("bc1qfirst", 2)));
    let lost = searching()
        .advance(Signal::Reported(WorkerEvent::Failed(SearchError::DerivationError)))
        .advance(Signal::Reported(WorkerEvent::Matched(hit("bc1qlate", 0))))
        .advance(Signal::Disconnected);
    assert_eq!(lost, Coordinator::Failed(SearchError::DerivationError));
    let rejected = Coordinator::Rejected;
    assert_eq!(
        rejected.advance(Signal::Reported(WorkerEvent::Matched(hit("bc1qlate", 0)))),
        Coordinator::Rejected
    );
}

#[test]
fn signals_out_of_turn_are_ignored() {
    assert_eq!(Coordinator::Idle.advance(Signal::Checked { derivable: true }), Coordinator::Idle);
    assert_eq!(Coordinator::Idle.advance(Signal::Disconnected), Coordinator::Idle);
    assert_eq!(
        Coordinator::Idle.advance(Signal::Reported(WorkerEvent::Matched(hit("bc1q", 0)))),
        Coordinator::Idle
    );
    assert_eq!(Coordinator::Validating.advance(Signal::Requested), Coordinator::Validating);
    assert_eq!(Coordinator::Validating.advance(Signal::Disconnected), Coordinator::Validating);
    assert_eq!(searching().advance(Signal::Requested), Coordinator::Searching);
    assert_eq!(
        searching().advance(Signal::Checked { derivable: false }),
        Coordinator::Searching
    );
}

#[test]
fn workers_are_planned_only_while_searching() {
    assert!(Coordinator::Idle.plan(3).is_empty());
    assert!(Coordinator::Validating.plan(3).is_empty());
    assert!(Coordinator::Rejected.plan(3).is_empty());
    assert!(Coordinator::Failed(SearchError::ChannelError).plan(3).is_empty());
    assert!(Coordinator::Completed(hit("bc1q", 0)).plan(3).is_empty());
    let workers = searching().plan(3);
    assert_eq!(workers.len(), 3);
    for (id, worker) in workers.iter().enumerate() {
        assert_eq!(worker.next_index(), id as u64);
        assert_eq!(worker.stride(), 3);
    }
}

#[test]
fn one_worker_for_each_core_and_at_least_one() {
    assert_eq!(worker_count_for(0), 1);
    assert_eq!(worker_count_for(1), 1);
    assert_eq!(worker_count_for(8), 8);
    assert_eq!(worker_count_for(u32::MAX as usize), u32::MAX);
    assert_eq!(worker_count_for(usize::MAX), u32::MAX);
    assert!(default_worker_count() >= 1);
}
