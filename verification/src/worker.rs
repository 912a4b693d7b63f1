//! One worker: a cursor that walks its track of the index space, derives the
//! address at each index and tests it against the wanted prefix.

use vstd::prelude::*;
use crate::descriptor::{address_at, OutputDescriptor, INDEX_LIMIT};
use crate::error::SearchError;
use crate::matching::{matches_prefix, prefix_matches};
use crate::stop::StopFlag;
use crate::partition::{
    lemma_every_index_is_covered, lemma_track_gap, lemma_track_next, lemma_visit_on_track,
    on_track,
};

verus! {

/// An address that carries the wanted prefix, with the index it was derived at.
#[derive(Debug, PartialEq, Eq)]
pub struct MatchResult {
    pub address: String,
    pub index: u32,
}

/// What a worker has to report after some work.
#[derive(Debug, PartialEq, Eq)]
pub enum WorkerEvent {
    /// The address at some index of the track carries the prefix.
    Matched(MatchResult),
    /// The worker cannot go on.
    Failed(SearchError),
    /// Nothing found so far; the worker can be run again.
    Pending,
}

/// What there is to find at one index.
pub enum Probe {
    /// The address derived there, which carries the prefix.
    Hit(Seq<char>),
    /// An address that does not carry the prefix.
    Miss,
    /// No address: derivation fails there, or the index space has ended.
    Dead,
}

/// What a visit of `index` finds.
pub open spec fn probe(text: Seq<char>, prefix: Seq<char>, skip: int, index: int) -> Probe {
    match address_at(text, index) {
        None => Probe::Dead,
        Some(address) => if prefix_matches(address, skip, prefix) {
            Probe::Hit(address)
        } else {
            Probe::Miss
        },
    }
}

/// Whether every index of a track below `bound` is a miss.
pub open spec fn quiet_before(
    text: Seq<char>,
    prefix: Seq<char>,
    skip: int,
    start: int,
    stride: int,
    bound: int,
) -> bool {
    forall|i: int|
        on_track(start, stride, i) && i < bound ==> #[trigger] probe(text, prefix, skip, i)
            is Miss
}

/// How a run of at most `budget` visits, begun at `start`, may end: `event`
/// is what it reports and `end` is where it leaves the cursor. The first
/// index of the track that is no miss decides; where the budget ends before
/// such an index is reached, nothing is reported.
pub open spec fn run_outcome(
    text: Seq<char>,
    prefix: Seq<char>,
    skip: int,
    start: int,
    stride: int,
    budget: int,
    event: WorkerEvent,
    end: int,
) -> bool {
    match event {
        WorkerEvent::Pending => {
            &&& end == start + budget * stride
            &&& quiet_before(text, prefix, skip, start, stride, end)
        },
        WorkerEvent::Matched(found) => {
            &&& on_track(start, stride, found.index as int)
            &&& found.index < start + budget * stride
            &&& quiet_before(text, prefix, skip, start, stride, found.index as int)
            &&& probe(text, prefix, skip, found.index as int) == Probe::Hit(found.address@)
            &&& end == found.index + stride
        },
        WorkerEvent::Failed(error) => {
            &&& error == SearchError::DerivationError
            &&& on_track(start, stride, end)
            &&& end < start + budget * stride
            &&& quiet_before(text, prefix, skip, start, stride, end)
            &&& probe(text, prefix, skip, end) is Dead
        },
    }
}

/// How a run that goes on until it is told to stop may end: as a run with
/// a budget does, but with the place where the stop was seen in place of
/// the end of the budget.
pub open spec fn stoppable_outcome(
    text: Seq<char>,
    prefix: Seq<char>,
    skip: int,
    start: int,
    stride: int,
    event: WorkerEvent,
    end: int,
) -> bool {
    match event {
        WorkerEvent::Pending => {
            &&& on_track(start, stride, end)
            &&& quiet_before(text, prefix, skip, start, stride, end)
        },
        WorkerEvent::Matched(found) => {
            &&& on_track(start, stride, found.index as int)
            &&& quiet_before(text, prefix, skip, start, stride, found.index as int)
            &&& probe(text, prefix, skip, found.index as int) == Probe::Hit(found.address@)
            &&& end == found.index + stride
        },
        WorkerEvent::Failed(error) => {
            &&& error == SearchError::DerivationError
            &&& on_track(start, stride, end)
            &&& quiet_before(text, prefix, skip, start, stride, end)
            &&& probe(text, prefix, skip, end) is Dead
        },
    }
}

/// A worker's private cursor: the next index to visit and the stride between
/// visits.
#[derive(Clone, Copy, Debug)]
pub struct Worker {
    next: u64,
    stride: u32,
}

impl Worker {
    /// The next index that the worker visits.
    pub closed spec fn cursor(&self) -> int {
        self.next as int
    }

    /// The distance between two visits.
    pub closed spec fn width(&self) -> int {
        self.stride as int
    }

    /// A worker advances by at least one index, and its cursor never runs
    /// more than one stride past the index space.
    pub closed spec fn wf(&self) -> bool {
        &&& self.stride >= 1
        &&& self.next <= INDEX_LIMIT + u32::MAX
    }

    /// A worker that starts at `start` and advances by `stride`.
    pub fn new(start: u32, stride: u32) -> (worker: Worker)
        requires
            stride >= 1,
        ensures
            worker.wf(),
            worker.cursor() == start,
            worker.width() == stride,
    {
        Worker { next: start as u64, stride }
    }

    /// The next index that the worker visits.
    pub fn next_index(&self) -> (r: u64)
        ensures
            r == self.cursor(),
    {
        self.next
    }

    /// The distance between two visits.
    pub fn stride(&self) -> (r: u32)
        ensures
            r == self.width(),
    {
        self.stride
    }

    /// Visits the index under the cursor.
    ///
    /// A hit is reported with its address and index, a miss is passed over;
    /// in both cases the cursor advances by one stride. Where no address can
    /// be derived the worker reports the failure and stays where it is.
    pub fn step(&mut self, descriptor: &OutputDescriptor, prefix: &str, skip: usize) -> (event:
        WorkerEvent)
        requires
            old(self).wf(),
        ensures
            final(self).wf(),
            final(self).width() == old(self).width(),
            match probe(descriptor@, prefix@, skip as int, old(self).cursor()) {
                Probe::Hit(address) => {
                    &&& event matches WorkerEvent::Matched(found)
                    &&& found.address@ == address
                    &&& found.index == old(self).cursor()
                    &&& final(self).cursor() == old(self).cursor() + old(self).width()
                },
                Probe::Miss => {
                    &&& event is Pending
                    &&& final(self).cursor() == old(self).cursor() + old(self).width()
                },
                Probe::Dead => {
                    &&& event == WorkerEvent::Failed(SearchError::DerivationError)
                    &&& final(self).cursor() == old(self).cursor()
                },
            },
    {
        if self.next >= INDEX_LIMIT as u64 {
            return WorkerEvent::Failed(SearchError::DerivationError);
        }
        let index: u32 = self.next as u32;
        match descriptor.derive_address(index) {
            Err(error) => WorkerEvent::Failed(error),
            Ok(address) => {
                self.next = self.next + self.stride as u64;
                if matches_prefix(address.as_str(), skip, prefix) {
                    WorkerEvent::Matched(MatchResult { address, index })
                } else {
                    WorkerEvent::Pending
                }
            },
        }
    }

    /// Visits up to `budget` indices of the track, one stride apart, and
    /// stops at the first that is a hit or has no address.
    pub fn run(
        &mut self,
        descriptor: &OutputDescriptor,
        prefix: &str,
        skip: usize,
        budget: u64,
    ) -> (event: WorkerEvent)
        requires
            old(self).wf(),
        ensures
            final(self).wf(),
            final(self).width() == old(self).width(),
            run_outcome(
                descriptor@,
                prefix@,
                skip as int,
                old(self).cursor(),
                old(self).width(),
                budget as int,
                event,
                final(self).cursor(),
            ),
    {
        let ghost start = self.cursor();
        let ghost stride = self.width();
        let mut used: u64 = 0;
        proof {
            lemma_visit_on_track(start, stride, 0);
        }
        while used < budget
            invariant
                self.wf(),
                self.width() == stride,
                start == old(self).cursor(),
                stride == old(self).width(),
                stride >= 1,
                used <= budget,
                self.cursor() == start + used * stride,
                on_track(start, stride, self.cursor()),
                quiet_before(descriptor@, prefix@, skip as int, start, stride, self.cursor()),
            decreases budget - used,
        {
            let ghost here = self.cursor();
            let event = self.step(descriptor, prefix, skip);
            match event {
                WorkerEvent::Pending => {
                    proof {
                        lemma_quiet_extends(descriptor@, prefix@, skip as int, start, stride, here);
                        assert((used + 1) * stride == used * stride + stride)
                            by (nonlinear_arith);
                    }
                    used = used + 1;
                },
                other => {
                    proof {
                        assert(here < start + budget * stride) by (nonlinear_arith)
                            requires
                                here == start + used * stride,
                                used < budget,
                                stride >= 1,
                        ;
                    }
                    return other;
                },
            }
        }
        WorkerEvent::Pending
    }

    /// One turn of a worker that can be told to stop, given what the stop
    /// flag read. A worker that is told to stop visits nothing and has
    /// nothing to report; otherwise it visits the index under the cursor as
    /// `step` does. `None` says that the worker is to take another turn.
    pub fn turn(
        &mut self,
        stopped: bool,
        descriptor: &OutputDescriptor,
        prefix: &str,
        skip: usize,
    ) -> (event: Option<WorkerEvent>)
        requires
            old(self).wf(),
        ensures
            final(self).wf(),
            final(self).width() == old(self).width(),
            stopped ==> {
                &&& event == Some(WorkerEvent::Pending)
                &&& final(self).cursor() == old(self).cursor()
            },
            !stopped ==> match probe(descriptor@, prefix@, skip as int, old(self).cursor()) {
                Probe::Hit(address) => {
                    &&& event matches Some(WorkerEvent::Matched(found))
                    &&& found.address@ == address
                    &&& found.index == old(self).cursor()
                    &&& final(self).cursor() == old(self).cursor() + old(self).width()
                },
                Probe::Miss => {
                    &&& event is None
                    &&& final(self).cursor() == old(self).cursor() + old(self).width()
                },
                Probe::Dead => {
                    &&& event == Some(WorkerEvent::Failed(SearchError::DerivationError))
                    &&& final(self).cursor() == old(self).cursor()
                },
            },
    {
        if stopped {
            return Some(WorkerEvent::Pending);
        }
        match self.step(descriptor, prefix, skip) {
            WorkerEvent::Pending => None,
            report => Some(report),
        }
    }

    /// Visits the indices of the track, one stride apart, until one is a hit
    /// or has no address, or until the stop flag is seen raised. The flag is
    /// read once before every visit, and each reading decides one `turn`; a
    /// worker that saw the flag raised reports nothing.
    pub fn run_until_stopped(
        &mut self,
        descriptor: &OutputDescriptor,
        prefix: &str,
        skip: usize,
        stop: &StopFlag,
    ) -> (event: WorkerEvent)
        requires
            old(self).wf(),
        ensures
            final(self).wf(),
            final(self).width() == old(self).width(),
            stoppable_outcome(
                descriptor@,
                prefix@,
                skip as int,
                old(self).cursor(),
                old(self).width(),
                event,
                final(self).cursor(),
            ),
    {
        let ghost start = self.cursor();
        let ghost stride = self.width();
        proof {
            lemma_visit_on_track(start, stride, 0);
        }
        loop
            invariant
                self.wf(),
                self.width() == stride,
                start == old(self).cursor(),
                stride == old(self).width(),
                stride >= 1,
                on_track(start, stride, self.cursor()),
                quiet_before(descriptor@, prefix@, skip as int, start, stride, self.cursor()),
            decreases INDEX_LIMIT + u32::MAX - self.cursor(),
        {
            let ghost here = self.cursor();
            match self.turn(stop.is_raised(), descriptor, prefix, skip) {
                Some(event) => {
                    return event;
                },
                None => {
                    proof {
                        lemma_quiet_extends(descriptor@, prefix@, skip as int, start, stride, here);
                    }
                },
            }
        }
    }
}

/// A miss at an index of the track moves the quiet stretch of the track on
/// by one stride.
proof fn lemma_quiet_extends(
    text: Seq<char>,
    prefix: Seq<char>,
    skip: int,
    start: int,
    stride: int,
    here: int,
)
    requires
        stride >= 1,
        on_track(start, stride, here),
        quiet_before(text, prefix, skip, start, stride, here),
        probe(text, prefix, skip, here) is Miss,
    ensures
        on_track(start, stride, here + stride),
        quiet_before(text, prefix, skip, start, stride, here + stride),
{
    lemma_track_next(start, stride, here);
    assert forall|i: int| on_track(start, stride, i) && i < here + stride implies #[trigger] probe(
        text,
        prefix,
        skip,
        i,
    ) is Miss by {
        if i >= here {
            lemma_track_gap(start, stride, here, i);
        }
    }
}

/// A run with a budget ends as a run that is stopped where the budget ends.
pub proof fn lemma_budget_is_a_stop(
    text: Seq<char>,
    prefix: Seq<char>,
    skip: int,
    start: int,
    stride: int,
    budget: int,
    event: WorkerEvent,
    end: int,
)
    requires
        stride >= 1,
        budget >= 0,
        run_outcome(text, prefix, skip, start, stride, budget, event, end),
    ensures
        stoppable_outcome(text, prefix, skip, start, stride, event, end),
{
    lemma_visit_on_track(start, stride, budget);
}

/// Whichever worker reports first, a match that a run reports is a true
/// match: its address is the one derived at its index, carries the prefix
/// behind the skipped characters, and its index lies on the worker's track.
pub proof fn lemma_reported_match_is_valid(
    text: Seq<char>,
    prefix: Seq<char>,
    skip: int,
    start: int,
    stride: int,
    found: MatchResult,
    end: int,
)
    requires
        stoppable_outcome(text, prefix, skip, start, stride, WorkerEvent::Matched(found), end),
    ensures
        on_track(start, stride, found.index as int),
        address_at(text, found.index as int) == Some(found.address@),
        prefix_matches(found.address@, skip, prefix),
{
}

/// No index is out of reach: with `count` workers, worker `index % count`
/// gets as far as `index` within `index / count + 1` visits, so a run with a
/// larger budget does not end pending if `index` is no miss, and what it
/// reports lies at or before `index`.
pub proof fn lemma_worker_reaches_index(
    text: Seq<char>,
    prefix: Seq<char>,
    skip: int,
    count: int,
    index: int,
    budget: int,
    event: WorkerEvent,
    end: int,
)
    requires
        count >= 1,
        index >= 0,
        budget > index / count,
        !(probe(text, prefix, skip, index) is Miss),
        run_outcome(text, prefix, skip, index % count, count, budget, event, end),
    ensures
        !(event is Pending),
        event matches WorkerEvent::Matched(found) ==> found.index <= index,
        event is Failed ==> end <= index,
{
    lemma_every_index_is_covered(count, index);
    assert(index < index % count + budget * count) by (nonlinear_arith)
        requires
            index == index % count + (index / count) * count,
            budget > index / count,
            count >= 1,
    ;
    match event {
        WorkerEvent::Pending => {
            assert(probe(text, prefix, skip, index) is Miss);
        },
        WorkerEvent::Matched(found) => {
            if found.index > index {
                assert(probe(text, prefix, skip, index) is Miss);
            }
        },
        WorkerEvent::Failed(_) => {
            if end > index {
                assert(probe(text, prefix, skip, index) is Miss);
            }
        },
    }
}

} // verus!
