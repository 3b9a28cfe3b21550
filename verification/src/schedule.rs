//! Histories of a pool: the events that move it, what a history leads to,
//! and what holds of every state that a history can reach.

use vstd::prelude::*;
use crate::model::{count_of, requests_in, PoolView};
use crate::worker::{Command, RequestResult, WorkerState};

verus! {

/// One thing that happens to a pool.
pub enum Event {
    /// The driver submits a command.
    Submit(Command),
    /// An idle worker asks for a command.
    Poll(int),
    /// A worker's request ends, with this result.
    Complete(int, RequestResult),
    /// The driver takes a result that waits.
    Take,
    /// The driver lets go of the pool.
    Detach,
}

/// A place where the ticket of a request can be.
pub enum Slot {
    /// At this position of the queue.
    Queued(int),
    /// With this worker, which is out on the request.
    Held(int),
    /// At this position among the results that went into the channel.
    Completed(int),
    /// At this position among the results that were thrown away.
    Discarded(int),
}

impl Event {
    /// Whether the event is a step of a worker or of the driver's reading
    /// end, and so uses up work rather than adding any.
    pub open spec fn is_step(self) -> bool {
        self is Poll || self is Complete || self is Take
    }

    /// Whether the event leaves the pool's calm alone: anything but a
    /// shutdown command and the driver's going away.
    pub open spec fn is_calm(self) -> bool {
        match self {
            Event::Submit(command) => command is Request,
            Event::Detach => false,
            _ => true,
        }
    }
}

/// How many of the events submit a request.
pub open spec fn requests_among(events: Seq<Event>) -> nat
    decreases events.len(),
{
    if events.len() == 0 {
        0
    } else {
        requests_among(events.drop_last()) + if events.last() matches Event::Submit(command)
            && command is Request {
            1nat
        } else {
            0nat
        }
    }
}

impl PoolView {
    /// Whether the event can happen in this state. A worker polls only
    /// when idle: a parked worker sleeps until it is woken. A worker
    /// reports only when it is out on a request or was woken with its
    /// result in hand: a blocked worker sleeps until there is room. The
    /// driver takes a result only while it holds the pool and one waits.
    pub open spec fn enabled(self, event: Event) -> bool {
        match event {
            Event::Submit(_) => true,
            Event::Poll(w) => self.can_poll(w),
            Event::Complete(w, _) => self.can_complete(w),
            Event::Take => self.listening && self.results.len() > 0,
            Event::Detach => true,
        }
    }

    /// The state after the event.
    pub open spec fn next(self, event: Event) -> PoolView {
        match event {
            Event::Submit(command) => self.after_submit(command),
            Event::Poll(w) => self.after_poll(w),
            Event::Complete(w, result) => self.after_complete(w, result),
            Event::Take => self.after_take(),
            Event::Detach => self.after_detach(),
        }
    }

    /// The state after the events, one after the other.
    pub open spec fn run(self, events: Seq<Event>) -> PoolView
        decreases events.len(),
    {
        if events.len() == 0 {
            self
        } else {
            self.run(events.drop_last()).next(events.last())
        }
    }

    /// Whether the events can happen one after the other, starting here.
    pub open spec fn admits(self, events: Seq<Event>) -> bool
        decreases events.len(),
    {
        events.len() == 0 || (self.admits(events.drop_last()) && self.run(
            events.drop_last(),
        ).enabled(events.last()))
    }

    /// Whether worker `w` has a request in hand: it is out on it, or it
    /// holds its result.
    pub open spec fn holds(self, w: int) -> bool {
        self.workers[w] is Executing || self.workers[w] is Blocked
    }

    /// The ticket in the slot, if the slot is in use.
    pub open spec fn occupant(self, slot: Slot) -> Option<nat> {
        match slot {
            Slot::Queued(i) => if 0 <= i < self.queue.len() && self.queue[i] is Request {
                Some(self.ledger.queued[i])
            } else {
                None
            },
            Slot::Held(w) => if 0 <= w < self.workers.len() && self.holds(w) {
                Some(self.ledger.held[w])
            } else {
                None
            },
            Slot::Completed(k) => if 0 <= k < self.ledger.completed.len() {
                Some(self.ledger.completed[k])
            } else {
                None
            },
            Slot::Discarded(k) => if 0 <= k < self.ledger.discarded.len() {
                Some(self.ledger.discarded[k])
            } else {
                None
            },
        }
    }

    /// Whether the ticket is in some slot.
    pub open spec fn has_place(self, ticket: nat) -> bool {
        exists|slot: Slot| self.occupant(slot) == Some(ticket)
    }

    /// Every request is in exactly one place: each ticket that was given
    /// out is in a slot, no ticket is in two slots, and no slot holds a
    /// ticket that was not given out.
    pub open spec fn tickets_in_place(self) -> bool {
        &&& forall|slot: Slot|
            (#[trigger] self.occupant(slot)) matches Some(ticket) ==> ticket
                < self.ledger.submitted
        &&& forall|a: Slot, b: Slot|
            (#[trigger] self.occupant(a)) is Some && self.occupant(a) == #[trigger] self.occupant(
                b,
            ) ==> a == b
        &&& forall|ticket: nat| ticket < self.ledger.submitted ==> #[trigger] self.has_place(ticket)
    }

    /// What holds of every state that a pool can reach.
    pub open spec fn well_formed(self) -> bool {
        &&& self.workers.len() >= 1
        &&& self.ledger.held.len() == self.workers.len()
        &&& self.ledger.queued.len() == self.queue.len()
        &&& self.results.len() + self.ledger.taken == self.ledger.completed.len()
        // The result channel holds no more results than there are workers.
        &&& self.results.len() <= self.workers.len()
        // No room is lost: while a worker is blocked, each free place in
        // the channel has a worker that is about to fill it.
        &&& count_of(self.workers, WorkerState::Blocked) > 0 ==> self.workers.len()
            - self.results.len() <= count_of(self.workers, WorkerState::Executing)
        // No worker waits for room that nobody will make.
        &&& !self.listening ==> count_of(self.workers, WorkerState::Blocked) == 0
        // No wake-up is lost: while a worker sleeps, each queued command
        // has an idle worker that will ask for it.
        &&& count_of(self.workers, WorkerState::Parked) > 0 ==> self.queue.len() <= count_of(
            self.workers,
            WorkerState::Idle,
        )
        // Nothing is lost and nothing is made up: each submitted request
        // is queued, or out with a worker, or has its result.
        &&& self.ledger.submitted == requests_in(self.queue) + count_of(
            self.workers,
            WorkerState::Executing,
        ) + count_of(self.workers, WorkerState::Blocked) + self.ledger.completed.len()
            + self.ledger.discarded.len()
        &&& self.listening ==> self.ledger.discarded.len() == 0
        &&& self.tickets_in_place()
    }

    /// The work that is left: a bound on the number of steps that the
    /// workers and the driver's reading end can still take if nothing more
    /// is submitted.
    pub open spec fn work_left(self) -> nat {
        4 * self.queue.len() + 5 * count_of(self.workers, WorkerState::Executing) + 2 * count_of(
            self.workers,
            WorkerState::Idle,
        ) + count_of(self.workers, WorkerState::Parked) + 4 * count_of(
            self.workers,
            WorkerState::Blocked,
        ) + 2 * self.results.len()
    }

    /// Whether a shutdown command is on the queue.
    pub open spec fn shutdown_queued(self) -> bool {
        exists|i: int| 0 <= i < self.queue.len() && self.queue[i] is Shutdown
    }

    /// Whether nothing can take a step: no worker is idle, none is out on
    /// a request or about to report, and no result waits for a driver that
    /// listens.
    pub open spec fn at_rest(self) -> bool {
        &&& forall|w: int|
            0 <= w < self.workers.len() ==> !(self.workers[w] is Idle)
                && !(self.workers[w] is Executing)
        &&& !(self.listening && self.results.len() > 0)
    }

    /// Whether nothing has disturbed the pool: the driver listens, no
    /// shutdown command is queued and no worker has stopped.
    pub open spec fn undisturbed(self) -> bool {
        &&& self.listening
        &&& forall|i: int| 0 <= i < self.queue.len() ==> self.queue[i] is Request
        &&& forall|w: int| 0 <= w < self.workers.len() ==> !(self.workers[w] is Terminated)
    }
}

/// Whether every event is a step.
pub open spec fn all_steps(events: Seq<Event>) -> bool {
    forall|k: int| 0 <= k < events.len() ==> events[k].is_step()
}

/// Whether every event leaves the pool's calm alone.
pub open spec fn all_calm(events: Seq<Event>) -> bool {
    forall|k: int| 0 <= k < events.len() ==> events[k].is_calm()
}

} // verus!
