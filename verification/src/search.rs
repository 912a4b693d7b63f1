//! The search on one thread: the workers take turns, one visit each, so the
//! indices are visited in ascending order and the first index that is no
//! miss decides.

use vstd::prelude::*;
use crate::classify::{address_prefix_length, descriptor_skip_offset};
use crate::coordinator::{Coordinator, Signal};
use crate::descriptor::{address_at, descriptor_is_ranged, OutputDescriptor, INDEX_LIMIT};
use crate::error::SearchError;
use crate::matching::prefix_matches;
use crate::worker::{probe, MatchResult, Probe, WorkerEvent};

verus! {

/// Whether every index below `bound` is a miss.
pub open spec fn no_event_before(text: Seq<char>, prefix: Seq<char>, skip: int, bound: int) -> bool {
    forall|i: int| 0 <= i < bound ==> #[trigger] probe(text, prefix, skip, i) is Miss
}

/// Whether `index` is the first index that has no address, all lower ones
/// being misses.
pub open spec fn fails_first_at(text: Seq<char>, prefix: Seq<char>, skip: int, index: int) -> bool {
    &&& 0 <= index
    &&& no_event_before(text, prefix, skip, index)
    &&& probe(text, prefix, skip, index) is Dead
}

/// What a scan of the indices `0..budget` in ascending order comes to, once
/// the skip offset is known.
pub open spec fn scan_result(
    text: Seq<char>,
    prefix: Seq<char>,
    skip: int,
    budget: int,
    result: Result<Option<MatchResult>, SearchError>,
) -> bool {
    match result {
        Ok(None) => no_event_before(text, prefix, skip, budget),
        Ok(Some(found)) => {
            &&& found.index < budget
            &&& no_event_before(text, prefix, skip, found.index as int)
            &&& probe(text, prefix, skip, found.index as int) == Probe::Hit(found.address@)
        },
        Err(error) => {
            &&& error == SearchError::DerivationError
            &&& exists|i: int| i < budget && #[trigger] fails_first_at(text, prefix, skip, i)
        },
    }
}

/// What a search of at most `budget` visits comes to.
pub open spec fn search_result(
    text: Seq<char>,
    prefix: Seq<char>,
    budget: int,
    result: Result<Option<MatchResult>, SearchError>,
) -> bool {
    if !descriptor_is_ranged(text) {
        result == Err::<Option<MatchResult>, SearchError>(SearchError::ValidationError)
    } else {
        match descriptor_skip_offset(text) {
            None => result == Err::<Option<MatchResult>, SearchError>(
                SearchError::DerivationError,
            ),
            Some(skip) => scan_result(text, prefix, skip as int, budget, result),
        }
    }
}

/// Turns the coordinator's last state into the result of a bounded search:
/// a search that has not ended has found nothing yet.
fn conclude(state: Coordinator) -> (r: Result<Option<MatchResult>, SearchError>)
    ensures
        match state.outcome() {
            None => r == Ok::<Option<MatchResult>, SearchError>(None),
            Some(Ok(found)) => r == Ok::<Option<MatchResult>, SearchError>(Some(found)),
            Some(Err(error)) => r == Err::<Option<MatchResult>, SearchError>(error),
        },
{
    match state.into_outcome() {
        None => Ok(None),
        Some(Ok(found)) => Ok(Some(found)),
        Some(Err(error)) => Err(error),
    }
}

/// Searches the first `budget` indices for an address that carries `prefix`.
///
/// A descriptor that is not ranged is rejected with `ValidationError` before
/// any worker exists. Otherwise the skip offset is taken from the address at
/// the probe index, `worker_count` workers are made, and they visit their
/// tracks in turns. The first index that is a hit or has no address ends the
/// search; `Ok(None)` says that the budget ended first.
pub fn search_within(
    descriptor: &OutputDescriptor,
    prefix: &str,
    worker_count: u32,
    budget: u64,
) -> (r: Result<Option<MatchResult>, SearchError>)
    requires
        worker_count >= 1,
    ensures
        search_result(descriptor@, prefix@, budget as int, r),
{
    let mut state = Coordinator::new().advance(Signal::Requested);
    state = state.advance(Signal::Checked { derivable: descriptor.is_derivable() });
    let mut workers = state.plan(worker_count);
    if !state.is_searching() {
        return conclude(state);
    }
    let skip: usize = match address_prefix_length(descriptor) {
        Ok(skip) => skip,
        Err(error) => {
            state = state.advance(Signal::Reported(WorkerEvent::Failed(error)));
            return conclude(state);
        },
    };
    let mut scanned: u64 = 0;
    let mut turn: usize = 0;
    while scanned < budget
        invariant
            state is Searching,
            worker_count >= 1,
            workers.len() == worker_count,
            turn < worker_count,
            turn <= scanned <= INDEX_LIMIT,
            descriptor_is_ranged(descriptor@),
            descriptor_skip_offset(descriptor@) == Some(skip),
            forall|id: int|
                0 <= id < worker_count ==> {
                    &&& (#[trigger] workers[id]).wf()
                    &&& workers[id].width() == worker_count
                    &&& workers[id].cursor() == if id < turn {
                        scanned - turn + worker_count + id
                    } else {
                        scanned - turn + id
                    }
                },
            no_event_before(descriptor@, prefix@, skip as int, scanned as int),
        decreases budget - scanned,
    {
        let mut worker = workers[turn];
        let event = worker.step(descriptor, prefix, skip);
        workers.set(turn, worker);
        match event {
            WorkerEvent::Pending => {
                scanned = scanned + 1;
                turn = if turn + 1 == worker_count as usize {
                    0
                } else {
                    turn + 1
                };
            },
            report => {
                proof {
                    if report is Failed {
                        assert(fails_first_at(descriptor@, prefix@, skip as int, scanned as int));
                    }
                }
                state = state.advance(Signal::Reported(report));
                return conclude(state);
            },
        }
    }
    conclude(state)
}

/// Searches the whole index space for an address that carries `prefix`.
///
/// The result is the match at the smallest index that is a hit, provided
/// every lower index has an address; the first index without one fails the
/// search with `DerivationError`, and the end of the index space counts as
/// such an index.
pub fn search(descriptor: &OutputDescriptor, prefix: &str, worker_count: u32) -> (r: Result<
    MatchResult,
    SearchError,
>)
    requires
        worker_count >= 1,
    ensures
        match r {
            Ok(found) => search_result(
                descriptor@,
                prefix@,
                INDEX_LIMIT + 1,
                Ok::<Option<MatchResult>, SearchError>(Some(found)),
            ),
            Err(error) => search_result(
                descriptor@,
                prefix@,
                INDEX_LIMIT + 1,
                Err::<Option<MatchResult>, SearchError>(error),
            ),
        },
{
    match search_within(descriptor, prefix, worker_count, INDEX_LIMIT as u64 + 1) {
        Ok(Some(found)) => Ok(found),
        Ok(None) => {
            proof {
                let skip = descriptor_skip_offset(descriptor@)->0;
                assert(probe(descriptor@, prefix@, skip as int, INDEX_LIMIT as int) is Dead);
            }
            Err(SearchError::DerivationError)
        },
        Err(error) => Err(error),
    }
}

/// The match that a scan returns is a true match, and it is the one at the
/// smallest index whose address carries the prefix.
pub proof fn lemma_match_is_smallest(
    text: Seq<char>,
    prefix: Seq<char>,
    skip: int,
    budget: int,
    found: MatchResult,
    lower: int,
)
    requires
        scan_result(text, prefix, skip, budget, Ok(Some(found))),
        0 <= lower < found.index,
    ensures
        address_at(text, found.index as int) == Some(found.address@),
        prefix_matches(found.address@, skip, prefix),
        address_at(text, lower) matches Some(address) && !prefix_matches(address, skip, prefix),
{
    assert(probe(text, prefix, skip, lower) is Miss);
}

/// Searching again changes nothing: two results of a search on the same
/// descriptor text, prefix and budget agree, in the index and address of the
/// match or in the error.
pub proof fn lemma_search_is_repeatable(
    text: Seq<char>,
    prefix: Seq<char>,
    budget: int,
    first: Result<Option<MatchResult>, SearchError>,
    second: Result<Option<MatchResult>, SearchError>,
)
    requires
        search_result(text, prefix, budget, first),
        search_result(text, prefix, budget, second),
    ensures
        match (first, second) {
            (Ok(None), Ok(None)) => true,
            (Ok(Some(a)), Ok(Some(b))) => a.index == b.index && a.address@ == b.address@,
            (Err(a), Err(b)) => a == b,
            _ => false,
        },
{
    if descriptor_is_ranged(text) && descriptor_skip_offset(text) is Some {
        let skip = descriptor_skip_offset(text)->0 as int;
        lemma_scan_is_repeatable(text, prefix, skip, budget, first, second);
    }
}

/// Two results of a scan of the same indices agree.
pub proof fn lemma_scan_is_repeatable(
    text: Seq<char>,
    prefix: Seq<char>,
    skip: int,
    budget: int,
    first: Result<Option<MatchResult>, SearchError>,
    second: Result<Option<MatchResult>, SearchError>,
)
    requires
        scan_result(text, prefix, skip, budget, first),
        scan_result(text, prefix, skip, budget, second),
    ensures
        match (first, second) {
            (Ok(None), Ok(None)) => true,
            (Ok(Some(a)), Ok(Some(b))) => a.index == b.index && a.address@ == b.address@,
            (Err(a), Err(b)) => a == b,
            _ => false,
        },
{
    let first_stop = stop_index(text, prefix, skip, budget, first);
    let second_stop = stop_index(text, prefix, skip, budget, second);
    lemma_stop_index(text, prefix, skip, budget, first);
    lemma_stop_index(text, prefix, skip, budget, second);
    if first_stop < second_stop {
        assert(probe(text, prefix, skip, first_stop) is Miss);
    }
    if second_stop < first_stop {
        assert(probe(text, prefix, skip, second_stop) is Miss);
    }
}

/// The index at which a scan with this result stopped: that of the match,
/// that of the failure, or the budget where nothing was found.
spec fn stop_index(
    text: Seq<char>,
    prefix: Seq<char>,
    skip: int,
    budget: int,
    result: Result<Option<MatchResult>, SearchError>,
) -> int {
    match result {
        Ok(None) => budget,
        Ok(Some(found)) => found.index as int,
        Err(_) => choose|i: int| i < budget && #[trigger] fails_first_at(text, prefix, skip, i),
    }
}

/// Below the index at which a scan stopped every index is a miss, and unless
/// the budget ended the scan, the index itself is none.
proof fn lemma_stop_index(
    text: Seq<char>,
    prefix: Seq<char>,
    skip: int,
    budget: int,
    result: Result<Option<MatchResult>, SearchError>,
)
    requires
        scan_result(text, prefix, skip, budget, result),
    ensures
        no_event_before(text, prefix, skip, stop_index(text, prefix, skip, budget, result)),
        result is Ok && result->Ok_0 is None <==> stop_index(text, prefix, skip, budget, result)
            == budget,
        !(result is Ok && result->Ok_0 is None) ==> {
            let stop = stop_index(text, prefix, skip, budget, result);
            &&& 0 <= stop < budget
            &&& !(probe(text, prefix, skip, stop) is Miss)
            &&& probe(text, prefix, skip, stop) is Dead <==> result is Err
        },
{
}

} // verus!
