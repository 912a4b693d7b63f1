//! The coordinator: accepts a descriptor, deals the index space out to
//! workers and lets the first report decide the search.
//!
//! The coordinator itself is a small state machine that is fed signals. How
//! the workers run is left to whoever feeds it: on threads of their own,
//! posting over a channel, or in turns on one thread as `search` does here.

use vstd::prelude::*;
use crate::error::SearchError;
use crate::worker::{MatchResult, Worker, WorkerEvent};

verus! {

/// Where a search stands.
#[derive(Debug, PartialEq, Eq)]
pub enum Coordinator {
    /// Nothing has been asked for yet.
    Idle,
    /// A search was asked for; the descriptor is being checked.
    Validating,
    /// The descriptor was accepted; workers are out.
    Searching,
    /// A worker found a match. Terminal.
    Completed(MatchResult),
    /// The descriptor is not ranged; no worker was started. Terminal.
    Rejected,
    /// A failure was reported before any match. Terminal.
    Failed(SearchError),
}

/// What the coordinator is told.
#[derive(Debug, PartialEq, Eq)]
pub enum Signal {
    /// A search is asked for.
    Requested,
    /// The descriptor was checked for a wildcard.
    Checked { derivable: bool },
    /// A report arrived from a worker, or from the classifier.
    Reported(WorkerEvent),
    /// The result channel closed with nothing on it.
    Disconnected,
}

/// The state that follows `state` on `signal`. The first match or failure
/// that is reported during the search decides it; a signal that does not
/// fit the state changes nothing, so nothing leaves a terminal state.
pub open spec fn transition(state: Coordinator, signal: Signal) -> Coordinator {
    match (state, signal) {
        (Coordinator::Idle, Signal::Requested) => Coordinator::Validating,
        (Coordinator::Validating, Signal::Checked { derivable }) => if derivable {
            Coordinator::Searching
        } else {
            Coordinator::Rejected
        },
        (Coordinator::Searching, Signal::Reported(WorkerEvent::Matched(found))) => {
            Coordinator::Completed(found)
        },
        (Coordinator::Searching, Signal::Reported(WorkerEvent::Failed(error))) => {
            Coordinator::Failed(error)
        },
        (Coordinator::Searching, Signal::Disconnected) => {
            Coordinator::Failed(SearchError::ChannelError)
        },
        (state, _) => state,
    }
}

impl Coordinator {
    /// Whether the search is over.
    pub open spec fn terminal(self) -> bool {
        self is Completed || self is Rejected || self is Failed
    }

    /// What a search that ended in this state hands to its caller; `None`
    /// while it has not ended.
    pub open spec fn outcome(self) -> Option<Result<MatchResult, SearchError>> {
        match self {
            Coordinator::Completed(found) => Some(Ok(found)),
            Coordinator::Rejected => Some(Err(SearchError::ValidationError)),
            Coordinator::Failed(error) => Some(Err(error)),
            _ => None,
        }
    }

    /// A coordinator that has not been asked for anything.
    pub fn new() -> (state: Coordinator)
        ensures
            state is Idle,
    {
        Coordinator::Idle
    }

    /// Takes one signal.
    pub fn advance(self, signal: Signal) -> (next: Coordinator)
        ensures
            next == transition(self, signal),
    {
        match self {
            Coordinator::Idle => match signal {
                Signal::Requested => Coordinator::Validating,
                _ => Coordinator::Idle,
            },
            Coordinator::Validating => match signal {
                Signal::Checked { derivable } => if derivable {
                    Coordinator::Searching
                } else {
                    Coordinator::Rejected
                },
                _ => Coordinator::Validating,
            },
            Coordinator::Searching => match signal {
                Signal::Reported(WorkerEvent::Matched(found)) => Coordinator::Completed(found),
                Signal::Reported(WorkerEvent::Failed(error)) => Coordinator::Failed(error),
                Signal::Disconnected => Coordinator::Failed(SearchError::ChannelError),
                _ => Coordinator::Searching,
            },
            state => state,
        }
    }

    /// Whether the search is over.
    pub fn is_terminal(&self) -> (r: bool)
        ensures
            r == self.terminal(),
    {
        match self {
            Coordinator::Completed(_) => true,
            Coordinator::Rejected => true,
            Coordinator::Failed(_) => true,
            _ => false,
        }
    }

    /// Whether workers are, or are to be sent, out.
    pub fn is_searching(&self) -> (r: bool)
        ensures
            r == (self is Searching),
    {
        match self {
            Coordinator::Searching => true,
            _ => false,
        }
    }

    /// Ends the search and hands out its result; `None` where it has not
    /// ended.
    pub fn into_outcome(self) -> (r: Option<Result<MatchResult, SearchError>>)
        ensures
            r == self.outcome(),
    {
        match self {
            Coordinator::Completed(found) => Some(Ok(found)),
            Coordinator::Rejected => Some(Err(SearchError::ValidationError)),
            Coordinator::Failed(error) => Some(Err(error)),
            _ => None,
        }
    }

    /// The workers to start in this state: `worker_count` of them while
    /// searching, worker `id` starting at index `id` and advancing by
    /// `worker_count`; none in any other state.
    pub fn plan(&self, worker_count: u32) -> (workers: Vec<Worker>)
        requires
            worker_count >= 1,
        ensures
            !(self is Searching) ==> workers.len() == 0,
            self is Searching ==> workers.len() == worker_count,
            forall|id: int|
                0 <= id < workers.len() ==> {
                    &&& (#[trigger] workers[id]).wf()
                    &&& workers[id].cursor() == id
                    &&& workers[id].width() == worker_count
                },
    {
        let mut workers: Vec<Worker> = Vec::new();
        if !self.is_searching() {
            return workers;
        }
        let mut id: u32 = 0;
        while id < worker_count
            invariant
                worker_count >= 1,
                id <= worker_count,
                workers.len() == id,
                forall|j: int|
                    0 <= j < workers.len() ==> {
                        &&& (#[trigger] workers[j]).wf()
                        &&& workers[j].cursor() == j
                        &&& workers[j].width() == worker_count
                    },
            decreases worker_count - id,
        {
            workers.push(Worker::new(id, worker_count));
            id = id + 1;
        }
        workers
    }
}

/// Calls `num_cpus::get`, the number of logical cores that this process may
/// use. It depends on the machine and on the moment; nothing is taken on trust
/// about it.
#[verifier::external_body]
fn available_cpus() -> usize {
    num_cpus::get()
}

/// The number of workers for a machine that reports `cpus` cores: one for
/// each core, at least one, and no more than a stride can hold.
pub open spec fn workers_for(cpus: usize) -> u32 {
    if cpus == 0 {
        1
    } else if cpus > u32::MAX {
        u32::MAX
    } else {
        cpus as u32
    }
}

/// The number of workers for a machine that reports `cpus` cores.
pub fn worker_count_for(cpus: usize) -> (count: u32)
    ensures
        count == workers_for(cpus),
        count >= 1,
{
    if cpus == 0 {
        1
    } else if cpus > u32::MAX as usize {
        u32::MAX
    } else {
        cpus as u32
    }
}

/// The number of workers to start where the caller names none: one for each
/// core of this machine.
pub fn default_worker_count() -> (count: u32)
    ensures
        count >= 1,
{
    worker_count_for(available_cpus())
}

/// A terminal state is never left: after the first match or failure no
/// later signal changes the result.
pub proof fn lemma_first_report_wins(state: Coordinator, signal: Signal)
    requires
        state.terminal(),
    ensures
        transition(state, signal) == state,
{
}

/// Only a descriptor that was checked and found ranged gets the coordinator
/// to search, and a descriptor found not ranged gets it rejected with
/// `ValidationError`.
pub proof fn lemma_rejection(derivable: bool)
    ensures
        ({
            let checked = transition(
                transition(Coordinator::Idle, Signal::Requested),
                (Signal::Checked { derivable }),
            );
            &&& derivable ==> checked is Searching
            &&& !derivable ==> checked is Rejected
            &&& !derivable ==> checked.outcome() == Some(
                Err::<MatchResult, SearchError>(SearchError::ValidationError),
            )
        }),
{
}

} // verus!
