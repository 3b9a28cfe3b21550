//! The pool as a state machine: its state as plain mathematics, and what
//! each operation makes of it. The executable pool is held to these
//! functions, and the laws of the pool are proved of them.

use vstd::prelude::*;
use crate::args::BaseUrlView;
use crate::worker::{Command, Delivery, Report, RequestResult, WorkerAction, WorkerState};

verus! {

/// The bookkeeping that tells one submitted request from another. Every
/// request gets a ticket when it is submitted: the number of requests
/// submitted before it. The ledger says where each ticket is.
pub struct Ledger {
    /// How many requests were submitted so far.
    pub submitted: nat,
    /// For each command in the queue, its ticket (0 for a shutdown command).
    pub queued: Seq<nat>,
    /// For each worker, the ticket of the request it is out on or whose
    /// result it holds, if it is.
    pub held: Seq<nat>,
    /// The tickets of the results that went into the result channel, in the
    /// order of completion.
    pub completed: Seq<nat>,
    /// How many results the driver has taken out of the channel.
    pub taken: nat,
    /// The tickets of the results that were thrown away because the driver
    /// was gone.
    pub discarded: Seq<nat>,
}

/// The state of a pool.
pub struct PoolView {
    /// The URL below which the workers send.
    pub base: BaseUrlView,
    /// The pending commands. The last one leaves first.
    pub queue: Seq<Command>,
    /// Where each worker stands. The result channel has room for as many
    /// results as there are workers.
    pub workers: Seq<WorkerState>,
    /// The results that wait for the driver in the result channel. The
    /// first one leaves first.
    pub results: Seq<RequestResult>,
    /// Whether the driver still holds the pool.
    pub listening: bool,
    /// Where each request is.
    pub ledger: Ledger,
}

/// How many of the workers are in the given state.
pub open spec fn count_of(workers: Seq<WorkerState>, state: WorkerState) -> nat
    decreases workers.len(),
{
    if workers.len() == 0 {
        0
    } else {
        count_of(workers.drop_last(), state) + if workers.last() == state {
            1nat
        } else {
            0nat
        }
    }
}

/// How many of the commands are requests.
pub open spec fn requests_in(queue: Seq<Command>) -> nat
    decreases queue.len(),
{
    if queue.len() == 0 {
        0
    } else {
        requests_in(queue.drop_last()) + if queue.last() is Request {
            1nat
        } else {
            0nat
        }
    }
}

/// The first worker in the given state at or after `from`, or the number
/// of workers if there is none.
pub open spec fn first_in(workers: Seq<WorkerState>, state: WorkerState, from: int) -> int
    decreases workers.len() - from,
{
    if from < 0 || from >= workers.len() {
        workers.len() as int
    } else if workers[from] == state {
        from
    } else {
        first_in(workers, state, from + 1)
    }
}

/// What `first_in` finds: the worker it names is in the state and no
/// worker between `from` and that one is.
pub proof fn lemma_first_in(workers: Seq<WorkerState>, state: WorkerState, from: int)
    requires
        0 <= from <= workers.len(),
    ensures
        from <= first_in(workers, state, from) <= workers.len(),
        first_in(workers, state, from) < workers.len() ==> workers[first_in(workers, state, from)]
            == state,
        forall|w: int| from <= w < first_in(workers, state, from) ==> workers[w] != state,
    decreases workers.len() - from,
{
    if from < workers.len() && workers[from] != state {
        lemma_first_in(workers, state, from + 1);
    }
}

/// The first worker in the given state, if any.
pub open spec fn found_in(workers: Seq<WorkerState>, state: WorkerState) -> Option<usize> {
    let first = first_in(workers, state, 0);
    if first < workers.len() {
        Some(first as usize)
    } else {
        None
    }
}

/// The workers after the first one in state `from`, if any, is put into
/// state `to`.
pub open spec fn moved_one(workers: Seq<WorkerState>, from: WorkerState, to: WorkerState) -> Seq<
    WorkerState,
> {
    let first = first_in(workers, from, 0);
    if first < workers.len() {
        workers.update(first, to)
    } else {
        workers
    }
}

/// The worker that a wake-up for a new command goes to: the first parked
/// one, if any.
pub open spec fn woken(workers: Seq<WorkerState>) -> Option<usize> {
    found_in(workers, WorkerState::Parked)
}

/// The workers after one wake-up for a new command: the first parked
/// worker, if any, is idle.
pub open spec fn wake_one(workers: Seq<WorkerState>) -> Seq<WorkerState> {
    moved_one(workers, WorkerState::Parked, WorkerState::Idle)
}

/// The worker that a wake-up for new room in the result channel goes to:
/// the first blocked one, if any.
pub open spec fn released(workers: Seq<WorkerState>) -> Option<usize> {
    found_in(workers, WorkerState::Blocked)
}

/// The workers after one wake-up for new room in the result channel: the
/// first blocked worker, if any, is about to report its result again.
pub open spec fn release_one(workers: Seq<WorkerState>) -> Seq<WorkerState> {
    moved_one(workers, WorkerState::Blocked, WorkerState::Executing)
}

/// The workers after every blocked one is woken to report its result
/// again.
pub open spec fn release_all(workers: Seq<WorkerState>) -> Seq<WorkerState> {
    Seq::new(
        workers.len(),
        |w: int|
            if workers[w] is Blocked {
                WorkerState::Executing
            } else {
                workers[w]
            },
    )
}

/// The blocked workers, in their order.
pub open spec fn blocked_workers(workers: Seq<WorkerState>) -> Seq<usize>
    decreases workers.len(),
{
    if workers.len() == 0 {
        Seq::empty()
    } else if workers.last() is Blocked {
        blocked_workers(workers.drop_last()).push((workers.len() - 1) as usize)
    } else {
        blocked_workers(workers.drop_last())
    }
}

/// Whether every worker has stopped.
pub open spec fn all_terminated(workers: Seq<WorkerState>) -> bool {
    forall|w: int| 0 <= w < workers.len() ==> workers[w] is Terminated
}

impl Ledger {
    /// The ledger of a pool with that many workers and no request yet.
    pub open spec fn fresh(workers: nat) -> Ledger {
        Ledger {
            submitted: 0,
            queued: Seq::empty(),
            held: Seq::new(workers, |w: int| 0nat),
            completed: Seq::empty(),
            taken: 0,
            discarded: Seq::empty(),
        }
    }

    /// A command enters the queue. A request gets the next ticket.
    pub open spec fn after_submit(self, is_request: bool) -> Ledger {
        if is_request {
            Ledger {
                submitted: self.submitted + 1,
                queued: self.queued.push(self.submitted),
                ..self
            }
        } else {
            Ledger { queued: self.queued.push(0), ..self }
        }
    }

    /// The last request of the queue goes to worker `w`.
    pub open spec fn after_handover(self, w: int) -> Ledger {
        Ledger {
            queued: self.queued.drop_last(),
            held: self.held.update(w, self.queued.last()),
            ..self
        }
    }

    /// The result of worker `w` goes into the channel.
    pub open spec fn after_delivery(self, w: int) -> Ledger {
        Ledger { completed: self.completed.push(self.held[w]), ..self }
    }

    /// The result of worker `w` is thrown away.
    pub open spec fn after_discard(self, w: int) -> Ledger {
        Ledger { discarded: self.discarded.push(self.held[w]), ..self }
    }

    /// The driver takes one result.
    pub open spec fn after_take(self) -> Ledger {
        Ledger { taken: self.taken + 1, ..self }
    }
}

impl PoolView {
    /// A pool with that many workers, all idle, and nothing to do.
    pub open spec fn fresh(workers: nat, base: BaseUrlView) -> PoolView {
        PoolView {
            base,
            queue: Seq::empty(),
            workers: Seq::new(workers, |w: int| WorkerState::Idle),
            results: Seq::empty(),
            listening: true,
            ledger: Ledger::fresh(workers),
        }
    }

    /// A command is put on the queue, and one parked worker is woken.
    pub open spec fn after_submit(self, command: Command) -> PoolView {
        PoolView {
            queue: self.queue.push(command),
            workers: wake_one(self.workers),
            ledger: self.ledger.after_submit(command is Request),
            ..self
        }
    }

    /// Whether `w` is a worker that may ask for a command.
    pub open spec fn can_poll(self, w: int) -> bool {
        0 <= w < self.workers.len() && self.workers[w] is Idle
    }

    /// Worker `w` asks for a command. On an empty queue it parks. A request
    /// leaves the queue and the worker is out on it. A shutdown command
    /// stays where it is for the next worker, which is woken, and the worker
    /// stops.
    pub open spec fn after_poll(self, w: int) -> PoolView {
        if !self.can_poll(w) {
            self
        } else if self.queue.len() == 0 {
            PoolView { workers: self.workers.update(w, WorkerState::Parked), ..self }
        } else if self.queue.last() is Request {
            PoolView {
                queue: self.queue.drop_last(),
                workers: self.workers.update(w, WorkerState::Executing),
                ledger: self.ledger.after_handover(w),
                ..self
            }
        } else {
            PoolView {
                workers: wake_one(self.workers.update(w, WorkerState::Terminated)),
                ..self
            }
        }
    }

    /// What worker `w` is told when it asks for a command; `None` if it may
    /// not ask.
    pub open spec fn poll_action(self, w: int) -> Option<WorkerAction> {
        if !self.can_poll(w) {
            None
        } else if self.queue.len() == 0 {
            Some(WorkerAction::Wait)
        } else {
            match self.queue.last() {
                Command::Request(request) => Some(WorkerAction::Execute(request)),
                Command::Shutdown => Some(
                    WorkerAction::Exit(woken(self.workers.update(w, WorkerState::Terminated))),
                ),
            }
        }
    }

    /// Whether `w` is a worker that is out on a request or has its result
    /// in hand.
    pub open spec fn can_complete(self, w: int) -> bool {
        0 <= w < self.workers.len() && self.workers[w] is Executing
    }

    /// Whether the result channel has room for one more result: it holds
    /// as many as there are workers.
    pub open spec fn has_room(self) -> bool {
        self.results.len() < self.workers.len()
    }

    /// Worker `w` reports the result of its request. Once the driver is
    /// gone, the result is thrown away and the worker stops. While the
    /// driver listens and the channel has room, the result goes into the
    /// channel and the worker is idle again. While the channel is full,
    /// nothing is taken in: the worker is blocked with its result in hand.
    pub open spec fn after_complete(self, w: int, result: RequestResult) -> PoolView {
        if !self.can_complete(w) {
            self
        } else if !self.listening {
            PoolView {
                workers: self.workers.update(w, WorkerState::Terminated),
                ledger: self.ledger.after_discard(w),
                ..self
            }
        } else if self.has_room() {
            PoolView {
                results: self.results.push(result),
                workers: self.workers.update(w, WorkerState::Idle),
                ledger: self.ledger.after_delivery(w),
                ..self
            }
        } else {
            PoolView { workers: self.workers.update(w, WorkerState::Blocked), ..self }
        }
    }

    /// What worker `w` is told when it reports a result; `None` if it has
    /// none to report.
    pub open spec fn report(self, w: int, result: RequestResult) -> Option<Report> {
        if !self.can_complete(w) {
            None
        } else if !self.listening {
            Some(Report::Dropped)
        } else if self.has_room() {
            Some(Report::Delivered)
        } else {
            Some(Report::Full(result))
        }
    }

    /// The driver asks for a result and takes the first one, if there is
    /// one. That makes room in the channel, and one blocked worker is
    /// woken.
    pub open spec fn after_take(self) -> PoolView {
        if self.results.len() > 0 {
            PoolView {
                results: self.results.drop_first(),
                workers: release_one(self.workers),
                ledger: self.ledger.after_take(),
                ..self
            }
        } else {
            self
        }
    }

    /// What the driver gets when it asks for a result.
    pub open spec fn delivery(self) -> Delivery {
        if self.results.len() > 0 {
            Delivery::Ready(self.results[0], released(self.workers))
        } else if all_terminated(self.workers) {
            Delivery::Closed
        } else {
            Delivery::Pending
        }
    }

    /// The driver lets go of the pool without a shutdown: it listens no
    /// more, every blocked worker is woken to find that out, and unless
    /// every worker has stopped already, a shutdown command is put on the
    /// queue as by `after_submit`.
    pub open spec fn after_detach(self) -> PoolView {
        let left = PoolView { listening: false, workers: release_all(self.workers), ..self };
        if all_terminated(self.workers) {
            left
        } else {
            left.after_submit(Command::Shutdown)
        }
    }

    /// The workers to wake when the driver lets go: the blocked ones, and
    /// the parked one that the shutdown command wakes.
    pub open spec fn detach_wakes(self) -> Seq<usize> {
        if all_terminated(self.workers) {
            blocked_workers(self.workers)
        } else {
            match woken(self.workers) {
                Some(parked) => blocked_workers(self.workers).push(parked),
                None => blocked_workers(self.workers),
            }
        }
    }
}

} // verus!
