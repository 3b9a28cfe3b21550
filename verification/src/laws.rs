//! The laws of the pool, proved of every history.

use vstd::prelude::*;
use crate::args::BaseUrlView;
use crate::model::{
    all_terminated, count_of, first_in, lemma_first_in, moved_one, release_all, requests_in,
    PoolView,
};
use crate::schedule::{all_calm, all_steps, requests_among, Event, Slot};
use crate::worker::{Command, Report, RequestResult, WorkerState};

verus! {

/// Putting a worker into another state takes one from the count of its
/// old state and adds one to the count of its new state.
pub proof fn lemma_count_update(
    workers: Seq<WorkerState>,
    w: int,
    to: WorkerState,
    state: WorkerState,
)
    requires
        0 <= w < workers.len(),
    ensures
        count_of(workers.update(w, to), state) == count_of(workers, state) - (if workers[w]
            == state {
            1int
        } else {
            0int
        }) + (if to == state {
            1int
        } else {
            0int
        }),
    decreases workers.len(),
{
    let after = workers.update(w, to);
    if w == workers.len() - 1 {
        assert(after.drop_last() =~= workers.drop_last());
    } else {
        assert(after.drop_last() =~= workers.drop_last().update(w, to));
        lemma_count_update(workers.drop_last(), w, to, state);
    }
}

/// The count of a state is zero exactly if no worker is in it.
pub proof fn lemma_count_zero(workers: Seq<WorkerState>, state: WorkerState)
    ensures
        count_of(workers, state) == 0 <==> (forall|w: int|
            0 <= w < workers.len() ==> workers[w] != state),
    decreases workers.len(),
{
    if workers.len() > 0 {
        let front = workers.drop_last();
        lemma_count_zero(front, state);
        if count_of(workers, state) == 0 {
            assert forall|w: int| 0 <= w < workers.len() implies workers[w] != state by {
                if w < front.len() {
                    assert(front[w] == workers[w]);
                }
            }
        }
        if forall|w: int| 0 <= w < workers.len() ==> workers[w] != state {
            assert forall|w: int| 0 <= w < front.len() implies front[w] != state by {
                assert(front[w] == workers[w]);
            }
        }
    }
}

/// Putting a worker into another state changes the count of every state
/// as `lemma_count_update` says.
pub proof fn lemma_put(workers: Seq<WorkerState>, w: int, to: WorkerState)
    requires
        0 <= w < workers.len(),
    ensures
        forall|state: WorkerState| #[trigger]
            count_of(workers.update(w, to), state) == count_of(workers, state) - (if workers[w]
                == state {
                1int
            } else {
                0int
            }) + (if to == state {
                1int
            } else {
                0int
            }),
{
    assert forall|state: WorkerState| #[trigger]
        count_of(workers.update(w, to), state) == count_of(workers, state) - (if workers[w]
            == state {
            1int
        } else {
            0int
        }) + (if to == state {
            1int
        } else {
            0int
        }) by {
        lemma_count_update(workers, w, to, state);
    }
}

/// What a wake-up does to the workers: if one is in the state that the
/// wake-up is for, one fewer is in it and one more is in the state that it
/// leads to; else nothing changes. No other worker and no other state is
/// touched.
pub proof fn lemma_moved_one(workers: Seq<WorkerState>, from: WorkerState, to: WorkerState)
    requires
        from != to,
    ensures
        moved_one(workers, from, to).len() == workers.len(),
        count_of(workers, from) == 0 ==> moved_one(workers, from, to) == workers,
        forall|state: WorkerState| #[trigger]
            count_of(moved_one(workers, from, to), state) == count_of(workers, state) - (if state
                == from && count_of(workers, from) > 0 {
                1int
            } else {
                0int
            }) + (if state == to && count_of(workers, from) > 0 {
                1int
            } else {
                0int
            }),
        forall|w: int|
            0 <= w < workers.len() ==> (#[trigger] moved_one(workers, from, to)[w]) == workers[w]
                || (workers[w] == from && moved_one(workers, from, to)[w] == to),
{
    let first = first_in(workers, from, 0);
    lemma_first_in(workers, from, 0);
    lemma_count_zero(workers, from);
    if first < workers.len() {
        lemma_put(workers, first, to);
    }
}

/// What waking every blocked worker does to the count of a state: none is
/// blocked any more, those that were are about to report, and no other
/// state gains or loses a worker.
pub proof fn lemma_release_all(workers: Seq<WorkerState>, state: WorkerState)
    ensures
        release_all(workers).len() == workers.len(),
        count_of(release_all(workers), state) == if state is Blocked {
            0
        } else if state is Executing {
            count_of(workers, WorkerState::Executing) + count_of(workers, WorkerState::Blocked)
        } else {
            count_of(workers, state)
        },
    decreases workers.len(),
{
    if workers.len() > 0 {
        assert(release_all(workers).drop_last() =~= release_all(workers.drop_last()));
        lemma_release_all(workers.drop_last(), state);
    }
}

/// A command more on the queue is a request more exactly if it is one.
pub proof fn lemma_requests_push(queue: Seq<Command>, command: Command)
    ensures
        requests_in(queue.push(command)) == requests_in(queue) + (if command is Request {
            1nat
        } else {
            0nat
        }),
{
    assert(queue.push(command).drop_last() =~= queue);
}

/// Tickets stay in place where no slot changes its occupant.
proof fn lemma_slots_unchanged(before: PoolView, after: PoolView)
    requires
        before.tickets_in_place(),
        after.ledger.submitted == before.ledger.submitted,
        forall|slot: Slot| #[trigger] after.occupant(slot) == before.occupant(slot),
    ensures
        after.tickets_in_place(),
{
    assert forall|ticket: nat| ticket < after.ledger.submitted implies #[trigger] after.has_place(
        ticket,
    ) by {
        assert(before.has_place(ticket));
        let slot = choose|slot: Slot| before.occupant(slot) == Some(ticket);
        assert(after.occupant(slot) == Some(ticket));
    }
}

/// Tickets stay in place where one ticket moves from a slot to a free one.
proof fn lemma_slot_move(before: PoolView, after: PoolView, from: Slot, to: Slot)
    requires
        before.tickets_in_place(),
        after.ledger.submitted == before.ledger.submitted,
        before.occupant(to) is None,
        forall|slot: Slot|
            #[trigger] after.occupant(slot) == if slot == to {
                before.occupant(from)
            } else if slot == from {
                None
            } else {
                before.occupant(slot)
            },
    ensures
        after.tickets_in_place(),
{
    assert forall|ticket: nat| ticket < after.ledger.submitted implies #[trigger] after.has_place(
        ticket,
    ) by {
        assert(before.has_place(ticket));
        let slot = choose|slot: Slot| before.occupant(slot) == Some(ticket);
        if slot == from {
            assert(after.occupant(to) == Some(ticket));
        } else {
            assert(after.occupant(slot) == Some(ticket));
        }
    }
    assert forall|a: Slot, b: Slot|
        (#[trigger] after.occupant(a)) is Some && after.occupant(a) == #[trigger] after.occupant(
            b,
        ) implies a == b by {
        let a0 = if a == to {
            from
        } else {
            a
        };
        let b0 = if b == to {
            from
        } else {
            b
        };
        assert(before.occupant(a0) == before.occupant(b0));
    }
}

/// Tickets stay in place where a new ticket enters a free slot.
proof fn lemma_slot_enter(before: PoolView, after: PoolView, to: Slot)
    requires
        before.tickets_in_place(),
        after.ledger.submitted == before.ledger.submitted + 1,
        before.occupant(to) is None,
        forall|slot: Slot|
            #[trigger] after.occupant(slot) == if slot == to {
                Some(before.ledger.submitted)
            } else {
                before.occupant(slot)
            },
    ensures
        after.tickets_in_place(),
{
    assert forall|ticket: nat| ticket < after.ledger.submitted implies #[trigger] after.has_place(
        ticket,
    ) by {
        if ticket == before.ledger.submitted {
            assert(after.occupant(to) == Some(ticket));
        } else {
            assert(before.has_place(ticket));
            let slot = choose|slot: Slot| before.occupant(slot) == Some(ticket);
            assert(after.occupant(slot) == Some(ticket));
        }
    }
}

/// A submitted command leaves the pool well-formed.
pub proof fn lemma_submit(pool: PoolView, command: Command)
    requires
        pool.well_formed(),
    ensures
        pool.after_submit(command).well_formed(),
{
    let after = pool.after_submit(command);
    lemma_moved_one(pool.workers, WorkerState::Parked, WorkerState::Idle);
    lemma_requests_push(pool.queue, command);
    if command is Request {
        let to = Slot::Queued(pool.queue.len() as int);
        assert forall|slot: Slot| #[trigger] after.occupant(slot) == if slot == to {
            Some(pool.ledger.submitted)
        } else {
            pool.occupant(slot)
        } by {}
        lemma_slot_enter(pool, after, to);
    } else {
        assert forall|slot: Slot| #[trigger] after.occupant(slot) == pool.occupant(slot) by {}
        lemma_slots_unchanged(pool, after);
    }
}

/// A poll of an idle worker leaves the pool well-formed and uses up work.
pub proof fn lemma_poll(pool: PoolView, w: int)
    requires
        pool.well_formed(),
        pool.can_poll(w),
    ensures
        pool.after_poll(w).well_formed(),
        pool.after_poll(w).work_left() < pool.work_left(),
{
    let after = pool.after_poll(w);
    if pool.queue.len() == 0 {
        lemma_put(pool.workers, w, WorkerState::Parked);
        assert forall|slot: Slot| #[trigger] after.occupant(slot) == pool.occupant(slot) by {}
        lemma_slots_unchanged(pool, after);
    } else if pool.queue.last() is Request {
        lemma_put(pool.workers, w, WorkerState::Executing);
        let from = Slot::Queued(pool.queue.len() - 1);
        let to = Slot::Held(w);
        assert forall|slot: Slot| #[trigger] after.occupant(slot) == if slot == to {
            pool.occupant(from)
        } else if slot == from {
            None
        } else {
            pool.occupant(slot)
        } by {}
        lemma_slot_move(pool, after, from, to);
    } else {
        let stopped = pool.workers.update(w, WorkerState::Terminated);
        lemma_put(pool.workers, w, WorkerState::Terminated);
        lemma_moved_one(stopped, WorkerState::Parked, WorkerState::Idle);
        assert forall|slot: Slot| #[trigger] after.occupant(slot) == pool.occupant(slot) by {}
        lemma_slots_unchanged(pool, after);
    }
}

/// The report of a worker leaves the pool well-formed and uses up work,
/// whatever the result is and whether or not the channel has room.
pub proof fn lemma_complete(pool: PoolView, w: int, result: RequestResult)
    requires
        pool.well_formed(),
        pool.can_complete(w),
    ensures
        pool.after_complete(w, result).well_formed(),
        pool.after_complete(w, result).work_left() < pool.work_left(),
{
    let after = pool.after_complete(w, result);
    let from = Slot::Held(w);
    if !pool.listening {
        lemma_put(pool.workers, w, WorkerState::Terminated);
        let to = Slot::Discarded(pool.ledger.discarded.len() as int);
        assert forall|slot: Slot| #[trigger] after.occupant(slot) == if slot == to {
            pool.occupant(from)
        } else if slot == from {
            None
        } else {
            pool.occupant(slot)
        } by {}
        lemma_slot_move(pool, after, from, to);
    } else if pool.has_room() {
        lemma_put(pool.workers, w, WorkerState::Idle);
        let to = Slot::Completed(pool.ledger.completed.len() as int);
        assert forall|slot: Slot| #[trigger] after.occupant(slot) == if slot == to {
            pool.occupant(from)
        } else if slot == from {
            None
        } else {
            pool.occupant(slot)
        } by {}
        lemma_slot_move(pool, after, from, to);
    } else {
        lemma_put(pool.workers, w, WorkerState::Blocked);
        assert forall|slot: Slot| #[trigger] after.occupant(slot) == pool.occupant(slot) by {}
        lemma_slots_unchanged(pool, after);
    }
}

/// Taking a result that waits leaves the pool well-formed and uses up work.
pub proof fn lemma_take(pool: PoolView)
    requires
        pool.well_formed(),
        pool.results.len() > 0,
    ensures
        pool.after_take().well_formed(),
        pool.after_take().work_left() < pool.work_left(),
{
    let after = pool.after_take();
    lemma_moved_one(pool.workers, WorkerState::Blocked, WorkerState::Executing);
    assert forall|slot: Slot| #[trigger] after.occupant(slot) == pool.occupant(slot) by {}
    lemma_slots_unchanged(pool, after);
}

/// The driver's going away leaves the pool well-formed.
pub proof fn lemma_detach(pool: PoolView)
    requires
        pool.well_formed(),
    ensures
        pool.after_detach().well_formed(),
{
    let left = PoolView { listening: false, workers: release_all(pool.workers), ..pool };
    lemma_release_all(pool.workers, WorkerState::Blocked);
    lemma_release_all(pool.workers, WorkerState::Executing);
    lemma_release_all(pool.workers, WorkerState::Parked);
    lemma_release_all(pool.workers, WorkerState::Idle);
    assert forall|slot: Slot| #[trigger] left.occupant(slot) == pool.occupant(slot) by {}
    lemma_slots_unchanged(pool, left);
    assert(left.well_formed());
    if !all_terminated(pool.workers) {
        lemma_submit(left, Command::Shutdown);
    }
}

/// A new pool is well-formed.
pub proof fn law_new_pool_is_well_formed(workers: nat, base: BaseUrlView)
    requires
        workers >= 1,
    ensures
        PoolView::fresh(workers, base).well_formed(),
        PoolView::fresh(workers, base).undisturbed(),
{
    let pool = PoolView::fresh(workers, base);
    lemma_count_zero(pool.workers, WorkerState::Parked);
    lemma_count_zero(pool.workers, WorkerState::Executing);
    lemma_count_zero(pool.workers, WorkerState::Blocked);
    assert(requests_in(pool.queue) == 0);
    assert forall|slot: Slot| (#[trigger] pool.occupant(slot)) is None by {}
}

/// Whatever happens to a well-formed pool leaves it well-formed.
pub proof fn law_event_keeps_well_formed(pool: PoolView, event: Event)
    requires
        pool.well_formed(),
        pool.enabled(event),
    ensures
        pool.next(event).well_formed(),
{
    match event {
        Event::Submit(command) => lemma_submit(pool, command),
        Event::Poll(w) => lemma_poll(pool, w),
        Event::Complete(w, result) => lemma_complete(pool, w, result),
        Event::Take => lemma_take(pool),
        Event::Detach => lemma_detach(pool),
    }
}

/// Every step of a worker, and every result that the driver takes, uses up
/// some of the work that is left.
pub proof fn law_step_uses_up_work(pool: PoolView, event: Event)
    requires
        pool.well_formed(),
        pool.enabled(event),
        event.is_step(),
    ensures
        pool.next(event).work_left() < pool.work_left(),
{
    match event {
        Event::Poll(w) => lemma_poll(pool, w),
        Event::Complete(w, result) => lemma_complete(pool, w, result),
        _ => lemma_take(pool),
    }
}

/// Every state that a history leads to from a well-formed pool is
/// well-formed.
pub proof fn law_history_keeps_well_formed(pool: PoolView, events: Seq<Event>)
    requires
        pool.well_formed(),
        pool.admits(events),
    ensures
        pool.run(events).well_formed(),
    decreases events.len(),
{
    if events.len() > 0 {
        law_history_keeps_well_formed(pool, events.drop_last());
        law_event_keeps_well_formed(pool.run(events.drop_last()), events.last());
    }
}

/// No event puts a stopped worker back to work, and none changes the number
/// of workers.
pub proof fn lemma_stopped_stays_stopped(pool: PoolView, event: Event)
    ensures
        pool.next(event).workers.len() == pool.workers.len(),
        forall|w: int|
            0 <= w < pool.workers.len() && pool.workers[w] is Terminated ==> #[trigger] pool.next(
                event,
            ).workers[w] is Terminated,
{
    lemma_moved_one(pool.workers, WorkerState::Parked, WorkerState::Idle);
    lemma_moved_one(pool.workers, WorkerState::Blocked, WorkerState::Executing);
    lemma_moved_one(release_all(pool.workers), WorkerState::Parked, WorkerState::Idle);
    match event {
        Event::Poll(w) => {
            if pool.can_poll(w) {
                lemma_moved_one(
                    pool.workers.update(w, WorkerState::Terminated),
                    WorkerState::Parked,
                    WorkerState::Idle,
                );
            }
        },
        _ => {},
    }
}

/// No history changes the number of workers.
pub proof fn lemma_history_keeps_workers(pool: PoolView, events: Seq<Event>)
    ensures
        pool.run(events).workers.len() == pool.workers.len(),
    decreases events.len(),
{
    if events.len() > 0 {
        lemma_history_keeps_workers(pool, events.drop_last());
        lemma_stopped_stays_stopped(pool.run(events.drop_last()), events.last());
    }
}

/// Every state that a pool can reach from its start is well-formed. In
/// particular the result channel never holds more results than the pool
/// has workers.
pub proof fn law_reached_pools_are_well_formed(
    workers: nat,
    base: BaseUrlView,
    events: Seq<Event>,
)
    requires
        workers >= 1,
        PoolView::fresh(workers, base).admits(events),
    ensures
        PoolView::fresh(workers, base).run(events).well_formed(),
        PoolView::fresh(workers, base).run(events).results.len() <= workers,
{
    law_new_pool_is_well_formed(workers, base);
    law_history_keeps_well_formed(PoolView::fresh(workers, base), events);
    lemma_history_keeps_workers(PoolView::fresh(workers, base), events);
}

/// While nothing is submitted, the pool comes to rest: a history of steps
/// alone is no longer than the work that was left at its start.
pub proof fn law_steps_are_bounded(pool: PoolView, events: Seq<Event>)
    requires
        pool.well_formed(),
        pool.admits(events),
        all_steps(events),
    ensures
        events.len() + pool.run(events).work_left() <= pool.work_left(),
    decreases events.len(),
{
    if events.len() > 0 {
        let front = events.drop_last();
        assert(all_steps(front)) by {
            assert forall|k: int| 0 <= k < front.len() implies front[k].is_step() by {
                assert(front[k] == events[k]);
            }
        }
        law_steps_are_bounded(pool, front);
        law_history_keeps_well_formed(pool, front);
        assert(events.last().is_step());
        law_step_uses_up_work(pool.run(front), events.last());
    }
}

/// A shutdown command that is on the queue stays there, whatever happens.
pub proof fn lemma_shutdown_stays_queued(pool: PoolView, event: Event)
    requires
        pool.shutdown_queued(),
    ensures
        pool.next(event).shutdown_queued(),
{
    let i = choose|i: int| 0 <= i < pool.queue.len() && pool.queue[i] is Shutdown;
    let after = pool.next(event);
    assert(0 <= i < after.queue.len() && after.queue[i] is Shutdown);
}

/// In a well-formed pool at rest no worker is blocked, none is idle and
/// none is out on a request: each is parked or has stopped.
pub proof fn lemma_rest(pool: PoolView)
    requires
        pool.well_formed(),
        pool.at_rest(),
    ensures
        forall|w: int|
            0 <= w < pool.workers.len() ==> pool.workers[w] is Parked
                || pool.workers[w] is Terminated,
{
    lemma_count_zero(pool.workers, WorkerState::Executing);
    lemma_count_zero(pool.workers, WorkerState::Blocked);
    assert forall|w: int| 0 <= w < pool.workers.len() implies pool.workers[w] is Parked
        || pool.workers[w] is Terminated by {
        assert(pool.workers[w] != WorkerState::Blocked);
    }
}

/// In a well-formed pool with a shutdown command on the queue that is at
/// rest, every worker has stopped: none is left asleep.
pub proof fn lemma_rest_under_shutdown(pool: PoolView)
    requires
        pool.well_formed(),
        pool.shutdown_queued(),
        pool.at_rest(),
    ensures
        all_terminated(pool.workers),
{
    lemma_rest(pool);
    lemma_count_zero(pool.workers, WorkerState::Idle);
    lemma_count_zero(pool.workers, WorkerState::Parked);
    assert forall|w: int| 0 <= w < pool.workers.len() implies pool.workers[w] is Terminated by {
        assert(pool.workers[w] != WorkerState::Parked);
    }
}

/// No wake-up is lost: while a command is on the queue and a worker is
/// left, something can take a step. No worker sleeps on work, and none
/// sleeps on a result for which there is room.
pub proof fn law_no_worker_sleeps_on_work(pool: PoolView)
    requires
        pool.well_formed(),
        pool.queue.len() > 0,
        !all_terminated(pool.workers),
    ensures
        !pool.at_rest(),
{
    if pool.at_rest() {
        lemma_rest(pool);
        lemma_count_zero(pool.workers, WorkerState::Idle);
        lemma_count_zero(pool.workers, WorkerState::Parked);
        let w = choose|w: int| 0 <= w < pool.workers.len() && !(pool.workers[w] is Terminated);
        assert(pool.workers[w] == WorkerState::Parked);
    }
}

/// While the pool is not at rest, a worker or the driver can take a step.
pub proof fn law_work_goes_on(pool: PoolView)
    requires
        !pool.at_rest(),
    ensures
        exists|event: Event| event.is_step() && pool.enabled(event),
{
    if pool.listening && pool.results.len() > 0 {
        assert(Event::Take.is_step() && pool.enabled(Event::Take));
    } else {
        let w = choose|w: int|
            0 <= w < pool.workers.len() && (pool.workers[w] is Idle
                || pool.workers[w] is Executing);
        if pool.workers[w] is Idle {
            assert(Event::Poll(w).is_step() && pool.enabled(Event::Poll(w)));
        } else {
            let result = arbitrary::<RequestResult>();
            assert(Event::Complete(w, result).is_step() && pool.enabled(
                Event::Complete(w, result),
            ));
        }
    }
}

/// A shutdown command that is on the queue is still there after any
/// history.
pub proof fn lemma_history_keeps_shutdown(pool: PoolView, events: Seq<Event>)
    requires
        pool.shutdown_queued(),
    ensures
        pool.run(events).shutdown_queued(),
    decreases events.len(),
{
    if events.len() > 0 {
        lemma_history_keeps_shutdown(pool, events.drop_last());
        lemma_shutdown_stays_queued(pool.run(events.drop_last()), events.last());
    }
}

/// Once a shutdown command is on the queue, every worker stops, whatever
/// else is queued and whatever happens meanwhile: when the pool has come
/// to rest, each of them has stopped.
pub proof fn lemma_rest_after_shutdown(pool: PoolView, events: Seq<Event>)
    requires
        pool.well_formed(),
        pool.shutdown_queued(),
        pool.admits(events),
        pool.run(events).at_rest(),
    ensures
        all_terminated(pool.run(events).workers),
{
    lemma_history_keeps_shutdown(pool, events);
    law_history_keeps_well_formed(pool, events);
    lemma_rest_under_shutdown(pool.run(events));
}

/// A submitted shutdown command stops every worker, though requests are
/// queued with it and whatever happens after it: when the pool has come to
/// rest, which by `law_steps_are_bounded` it does within as many steps as
/// there is work left, each worker has stopped. None is left asleep, none
/// waits for a command that it will never see, and none is left with a
/// result in hand: while one is, the driver can take a result or a worker
/// can take a step.
pub proof fn law_shutdown_stops_every_worker(pool: PoolView, events: Seq<Event>)
    requires
        pool.well_formed(),
        pool.after_submit(Command::Shutdown).admits(events),
        pool.after_submit(Command::Shutdown).run(events).at_rest(),
    ensures
        all_terminated(pool.after_submit(Command::Shutdown).run(events).workers),
{
    let asked = pool.after_submit(Command::Shutdown);
    lemma_submit(pool, Command::Shutdown);
    let last = pool.queue.len() as int;
    assert(0 <= last < asked.queue.len() && asked.queue[last] is Shutdown);
    lemma_rest_after_shutdown(asked, events);
}

/// Workers that have all stopped have all stopped after any history.
pub proof fn lemma_history_keeps_stopped(pool: PoolView, events: Seq<Event>)
    requires
        all_terminated(pool.workers),
    ensures
        all_terminated(pool.run(events).workers),
    decreases events.len(),
{
    if events.len() > 0 {
        lemma_history_keeps_stopped(pool, events.drop_last());
        lemma_stopped_stays_stopped(pool.run(events.drop_last()), events.last());
    }
}

/// A driver that lets go of the pool without a shutdown leaves no worker
/// behind: when the pool has come to rest after that, each worker has
/// stopped, also those that were blocked with a result in hand.
pub proof fn law_detach_stops_every_worker(pool: PoolView, events: Seq<Event>)
    requires
        pool.well_formed(),
        pool.after_detach().admits(events),
        pool.after_detach().run(events).at_rest(),
    ensures
        all_terminated(pool.after_detach().run(events).workers),
{
    let left = pool.after_detach();
    lemma_detach(pool);
    if all_terminated(pool.workers) {
        assert(release_all(pool.workers) =~= pool.workers);
        lemma_history_keeps_stopped(left, events);
    } else {
        let last = pool.queue.len() as int;
        assert(0 <= last < left.queue.len() && left.queue[last] is Shutdown);
        lemma_rest_after_shutdown(left, events);
    }
}

/// An event that leaves the calm alone leaves an undisturbed pool
/// undisturbed, and counts as a submitted request exactly if it is one.
pub proof fn lemma_calm_event(pool: PoolView, event: Event)
    requires
        pool.undisturbed(),
        event.is_calm(),
    ensures
        pool.next(event).undisturbed(),
        pool.next(event).ledger.submitted == pool.ledger.submitted + (if event matches Event::Submit(
            command,
        ) && command is Request {
            1nat
        } else {
            0nat
        }),
{
    lemma_moved_one(pool.workers, WorkerState::Parked, WorkerState::Idle);
    lemma_moved_one(pool.workers, WorkerState::Blocked, WorkerState::Executing);
    let after = pool.next(event);
    assert forall|w: int| 0 <= w < after.workers.len() implies !(after.workers[w] is Terminated) by {
        assert(!(pool.workers[w] is Terminated));
    }
}

/// In an undisturbed history the requests submitted are those that the
/// ledger counts.
pub proof fn lemma_calm_history(pool: PoolView, events: Seq<Event>)
    requires
        pool.undisturbed(),
        all_calm(events),
    ensures
        pool.run(events).undisturbed(),
        pool.run(events).ledger.submitted == pool.ledger.submitted + requests_among(events),
    decreases events.len(),
{
    if events.len() > 0 {
        let front = events.drop_last();
        assert(all_calm(front)) by {
            assert forall|k: int| 0 <= k < front.len() implies front[k].is_calm() by {
                assert(front[k] == events[k]);
            }
        }
        lemma_calm_history(pool, front);
        assert(events.last().is_calm());
        lemma_calm_event(pool.run(front), events.last());
    }
}

/// With any number of workers and any number of submitted requests, and no
/// shutdown: when the pool has come to rest, which by
/// `law_steps_are_bounded` it does, the driver has taken exactly one result
/// for each request that was submitted, and nothing is left behind.
pub proof fn law_every_request_gets_its_result(
    workers: nat,
    base: BaseUrlView,
    events: Seq<Event>,
)
    requires
        workers >= 1,
        PoolView::fresh(workers, base).admits(events),
        all_calm(events),
        PoolView::fresh(workers, base).run(events).at_rest(),
    ensures
        PoolView::fresh(workers, base).run(events).ledger.taken == requests_among(events),
        PoolView::fresh(workers, base).run(events).results.len() == 0,
        PoolView::fresh(workers, base).run(events).queue.len() == 0,
{
    let start = PoolView::fresh(workers, base);
    let end = start.run(events);
    law_new_pool_is_well_formed(workers, base);
    law_history_keeps_well_formed(start, events);
    lemma_calm_history(start, events);
    lemma_rest(end);
    lemma_count_zero(end.workers, WorkerState::Idle);
    lemma_count_zero(end.workers, WorkerState::Executing);
    lemma_count_zero(end.workers, WorkerState::Blocked);
    lemma_count_zero(end.workers, WorkerState::Parked);
    assert(end.workers[0] is Parked);
    assert(end.queue.len() == 0);
    assert(requests_in(end.queue) == 0);
}

/// Every request is in exactly one place at any time. No result is
/// delivered twice. No request is with two workers, and a request that is
/// with a worker is neither on the queue any more nor has a result in the
/// channel yet.
pub proof fn law_exactly_once(pool: PoolView)
    requires
        pool.well_formed(),
    ensures
        forall|ticket: nat| ticket < pool.ledger.submitted ==> #[trigger] pool.has_place(ticket),
        forall|j: int, k: int|
            0 <= j < k < pool.ledger.completed.len() ==> pool.ledger.completed[j]
                != pool.ledger.completed[k],
        forall|w: int, u: int|
            0 <= w < u < pool.workers.len() && pool.holds(w) && pool.holds(u)
                ==> pool.ledger.held[w] != pool.ledger.held[u],
        forall|w: int, i: int|
            0 <= w < pool.workers.len() && pool.holds(w) && 0 <= i < pool.queue.len()
                && pool.queue[i] is Request ==> pool.ledger.held[w] != pool.ledger.queued[i],
        forall|w: int, k: int|
            0 <= w < pool.workers.len() && pool.holds(w) && 0 <= k
                < pool.ledger.completed.len() ==> pool.ledger.held[w] != pool.ledger.completed[k],
        forall|i: int, k: int|
            0 <= i < pool.queue.len() && pool.queue[i] is Request && 0 <= k
                < pool.ledger.completed.len() ==> pool.ledger.queued[i]
                != pool.ledger.completed[k],
{
    assert forall|j: int, k: int| 0 <= j < k < pool.ledger.completed.len() implies pool.ledger.completed[j]
        != pool.ledger.completed[k] by {
        let a = Slot::Completed(j);
        let b = Slot::Completed(k);
        assert(pool.occupant(a) is Some && pool.occupant(b) is Some);
    }
    assert forall|w: int, u: int|
        0 <= w < u < pool.workers.len() && pool.holds(w) && pool.holds(
            u,
        ) implies pool.ledger.held[w] != pool.ledger.held[u] by {
        let a = Slot::Held(w);
        let b = Slot::Held(u);
        assert(pool.occupant(a) is Some && pool.occupant(b) is Some);
    }
    assert forall|w: int, i: int|
        0 <= w < pool.workers.len() && pool.holds(w) && 0 <= i < pool.queue.len()
            && pool.queue[i] is Request implies pool.ledger.held[w] != pool.ledger.queued[i] by {
        let a = Slot::Held(w);
        let b = Slot::Queued(i);
        assert(pool.occupant(a) is Some && pool.occupant(b) is Some);
    }
    assert forall|w: int, k: int|
        0 <= w < pool.workers.len() && pool.holds(w) && 0 <= k
            < pool.ledger.completed.len() implies pool.ledger.held[w]
        != pool.ledger.completed[k] by {
        let a = Slot::Held(w);
        let b = Slot::Completed(k);
        assert(pool.occupant(a) is Some && pool.occupant(b) is Some);
    }
    assert forall|i: int, k: int|
        0 <= i < pool.queue.len() && pool.queue[i] is Request && 0 <= k
            < pool.ledger.completed.len() implies pool.ledger.queued[i]
        != pool.ledger.completed[k] by {
        let a = Slot::Queued(i);
        let b = Slot::Completed(k);
        assert(pool.occupant(a) is Some && pool.occupant(b) is Some);
    }
}

/// A request that fails is a request that has its result: whatever the
/// result says, where the channel has room it goes to the driver like any
/// other, nothing else in the pool changes, and the worker is idle again
/// and may ask for the next command.
pub proof fn law_failure_is_a_result(pool: PoolView, w: int, result: RequestResult)
    requires
        pool.can_complete(w),
        pool.listening,
        pool.has_room(),
    ensures
        pool.after_complete(w, result).results == pool.results.push(result),
        pool.after_complete(w, result).queue == pool.queue,
        pool.after_complete(w, result).listening,
        pool.after_complete(w, result).can_poll(w),
        forall|u: int|
            0 <= u < pool.workers.len() && u != w ==> pool.after_complete(w, result).workers[u]
                == pool.workers[u],
{
}

/// A full channel holds the worker back and loses nothing: the results
/// that wait stay as they are, the worker gets its result back and is
/// blocked, and the next result that the driver takes wakes a blocked
/// worker, which may then report again.
pub proof fn law_full_channel_holds_back(pool: PoolView, w: int, result: RequestResult)
    requires
        pool.well_formed(),
        pool.can_complete(w),
        pool.listening,
        !pool.has_room(),
    ensures
        pool.after_complete(w, result).results == pool.results,
        pool.report(w, result) == Some(Report::Full(result)),
        pool.after_complete(w, result).workers[w] is Blocked,
        pool.after_complete(w, result).enabled(Event::Take),
        exists|u: int|
            0 <= u < pool.workers.len() && pool.after_complete(w, result).workers[u] is Blocked
                && #[trigger] pool.after_complete(w, result).after_take().can_complete(u),
{
    let after = pool.after_complete(w, result);
    lemma_first_in(after.workers, WorkerState::Blocked, 0);
    let first = first_in(after.workers, WorkerState::Blocked, 0);
    assert(after.workers[w] == WorkerState::Blocked);
    assert(after.after_take().can_complete(first));
}

} // verus!
