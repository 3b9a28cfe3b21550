//! What travels between the driver, the queue and the workers, and the pool
//! that holds it all.

use std::collections::VecDeque;
use vstd::prelude::*;
use crate::args::BaseUrl;
use crate::config::{SendError, ValidatedRequest};
use crate::laws::{
    law_new_pool_is_well_formed, lemma_complete, lemma_detach, lemma_poll, lemma_submit, lemma_take,
};
use crate::model::{
    all_terminated, blocked_workers, first_in, found_in, lemma_first_in, moved_one, release_all,
    woken, Ledger, PoolView,
};
use crate::outside::{status_line, status_line_text};
use crate::text::{decimal, decimal_text};
use crate::views::given;

verus! {

/// The time that one request took.
#[derive(Debug, Copy, Clone, PartialEq, Eq, Structural)]
pub struct Elapsed {
    /// Whole seconds.
    pub secs: u64,
    /// The rest, in nanoseconds.
    pub nanos: u32,
}

impl Elapsed {
    /// The time in whole milliseconds.
    pub open spec fn millis(&self) -> nat {
        (self.secs * 1000 + self.nanos / 1_000_000) as nat
    }

    /// The time in whole milliseconds; what is left of a millisecond is
    /// dropped.
    pub fn as_millis(&self) -> (ms: u128)
        ensures
            ms == self.millis(),
    {
        let whole: u128 = self.secs as u128 * 1000;
        let rest: u32 = self.nanos / 1_000_000;
        whole + rest as u128
    }
}

/// What came back from the host.
#[derive(Debug, Copy, Clone, PartialEq, Eq, Structural)]
pub struct Response {
    /// The status code of the answer.
    pub status: u16,
}

/// Why a request got no answer.
#[derive(Debug, Clone)]
pub struct Failure {
    /// What went wrong, in words.
    pub message: String,
}

impl Failure {
    /// What is said of a request that was not sent.
    pub open spec fn refusal_text(error: SendError) -> Seq<char> {
        match error {
            SendError::Unimplemented(method) => "not implemented: "@ + method.name(),
            SendError::InvalidUrl => "invalid URL"@,
        }
    }

    /// The failure of a request that was not sent: it counts as a request
    /// that got no answer, and says why.
    pub fn of_refusal(error: SendError) -> (failure: Failure)
        ensures
            failure.message@ == Failure::refusal_text(error),
    {
        match error {
            SendError::Unimplemented(method) => {
                let mut message = String::from_str("not implemented: ");
                message.append(method.as_str());
                Failure { message }
            },
            SendError::InvalidUrl => Failure { message: String::from_str("invalid URL") },
        }
    }
}

/// The timed outcome of one request.
#[derive(Debug)]
pub struct RequestResult {
    duration: Elapsed,
    result: Result<Response, Failure>,
}

impl RequestResult {
    /// The time the request took, as the contracts see it.
    pub closed spec fn elapsed(&self) -> Elapsed {
        self.duration
    }

    /// The outcome, as the contracts see it.
    pub closed spec fn outcome(&self) -> Result<Response, Failure> {
        self.result
    }

    /// Puts a measured time and an outcome together.
    pub fn new(duration: Elapsed, result: Result<Response, Failure>) -> (r: Self)
        ensures
            r.elapsed() == duration,
            r.outcome() == result,
    {
        RequestResult { duration, result }
    }

    /// The answer, or why there was none.
    pub fn result(&self) -> (r: Result<&Response, &Failure>)
        ensures
            match r {
                Ok(response) => self.outcome() == Ok::<Response, Failure>(*response),
                Err(failure) => self.outcome() == Err::<Response, Failure>(*failure),
            },
    {
        match &self.result {
            Ok(response) => Ok(response),
            Err(failure) => Err(failure),
        }
    }

    /// The time the request took.
    pub fn duration(&self) -> (d: Elapsed)
        ensures
            d == self.elapsed(),
    {
        self.duration
    }

    /// The line that reports the result, given the status as `http` writes
    /// it (`None` where it takes the number for no status): the time in
    /// milliseconds, then that status, or the number alone where there is
    /// none; or, for a request that failed, what went wrong.
    pub open spec fn line_with(&self, status: Option<Seq<char>>) -> Seq<char> {
        let time = "(Elapsed: "@ + decimal_text(self.elapsed().millis());
        match self.outcome() {
            Ok(response) => time + "ms) { status: "@ + (match status {
                Some(status) => status,
                None => decimal_text(response.status as nat),
            }) + " }"@,
            Err(failure) => time + "ms): "@ + failure.message@,
        }
    }

    /// The line that reports the result, as the contracts see it.
    pub open spec fn line(&self) -> Seq<char> {
        self.line_with(
            match self.outcome() {
                Ok(response) => status_line_text(response.status),
                Err(_) => None,
            },
        )
    }

    /// The line that reports the result, given the status as `http` writes
    /// it; `None` where it takes the number for no status, or where the
    /// request failed.
    pub fn render_with(&self, status: Option<String>) -> (line: String)
        ensures
            line@ == self.line_with(given(status)),
    {
        let mut line = String::from_str("(Elapsed: ");
        let time = decimal(self.duration.as_millis());
        line.append(time.as_str());
        match &self.result {
            Ok(response) => {
                line.append("ms) { status: ");
                let status = match status {
                    Some(status) => status,
                    None => decimal(response.status as u128),
                };
                line.append(status.as_str());
                line.append(" }");
            },
            Err(failure) => {
                line.append("ms): ");
                line.append(failure.message.as_str());
            },
        }
        line
    }

    /// The line that reports the result: the time in milliseconds, then
    /// the status with its reason phrase, or, for a request that failed,
    /// what went wrong.
    pub fn render(&self) -> (line: String)
        ensures
            line@ == self.line(),
    {
        let status = match &self.result {
            Ok(response) => status_line(response.status),
            Err(_) => None,
        };
        self.render_with(status)
    }
}

/// A unit of work for a worker.
#[derive(Debug, Clone)]
pub enum Command {
    /// Send this request.
    Request(ValidatedRequest),
    /// Stop, and see that the other workers stop too.
    Shutdown,
}

/// Where a worker stands.
#[derive(Debug, Copy, Clone, PartialEq, Eq, Structural)]
pub enum WorkerState {
    /// About to ask for a command.
    Idle,
    /// Asleep: the queue was empty when it asked.
    Parked,
    /// Out on a request, or about to report its result.
    Executing,
    /// Asleep with a result in hand: the result channel was full when it
    /// reported.
    Blocked,
    /// Gone for good.
    Terminated,
}

/// What a worker that asked for a command does next.
#[derive(Debug)]
pub enum WorkerAction {
    /// Sleep until woken, then ask again.
    Wait,
    /// Send this request, time it, and report the result.
    Execute(ValidatedRequest),
    /// Stop. The worker named, if any, is to be woken.
    Exit(Option<usize>),
}

/// What a worker that reported a result does next.
#[derive(Debug)]
pub enum Report {
    /// The result waits for the driver. Ask for the next command.
    Delivered,
    /// The result channel is full. Here is the result back: sleep until
    /// woken, then report it again.
    Full(RequestResult),
    /// The driver is gone and the result with it. Stop.
    Dropped,
}

/// What the driver gets when it asks for a result.
#[derive(Debug)]
pub enum Delivery {
    /// The next result, in the order of completion. The worker named, if
    /// any, waited for room in the channel and is to be woken.
    Ready(RequestResult, Option<usize>),
    /// Nothing yet: some worker may still produce a result.
    Pending,
    /// Nothing, and nothing will come: every worker has stopped.
    Closed,
}

/// The pool: the queue of commands, the workers' states and the channel of
/// results, behind one door. The channel has room for as many results as
/// the pool has workers. Whoever runs the workers keeps the pool under one
/// lock, calls in for each decision, and does outside the lock what the
/// answer says.
pub struct Pool {
    base_url: BaseUrl,
    queue: Vec<Command>,
    workers: Vec<WorkerState>,
    results: VecDeque<RequestResult>,
    listening: bool,
    ledger: Ghost<Ledger>,
}

impl View for Pool {
    type V = PoolView;

    closed spec fn view(&self) -> PoolView {
        PoolView {
            base: self.base_url@,
            queue: self.queue@,
            workers: self.workers@,
            results: self.results@,
            listening: self.listening,
            ledger: self.ledger@,
        }
    }
}

/// The first worker in the given state, if any.
fn find_first(workers: &Vec<WorkerState>, state: WorkerState) -> (found: Option<usize>)
    ensures
        found == found_in(workers@, state),
{
    let mut i: usize = 0;
    while i < workers.len()
        invariant
            i <= workers.len(),
            first_in(workers@, state, i as int) == first_in(workers@, state, 0),
        decreases workers.len() - i,
    {
        if workers[i] == state {
            return Some(i);
        }
        i += 1;
    }
    None
}

/// Whether every worker has stopped.
fn none_alive(workers: &Vec<WorkerState>) -> (none: bool)
    ensures
        none == all_terminated(workers@),
{
    let mut i: usize = 0;
    while i < workers.len()
        invariant
            i <= workers.len(),
            forall|w: int| 0 <= w < i ==> workers@[w] is Terminated,
        decreases workers.len() - i,
    {
        if workers[i] != WorkerState::Terminated {
            return false;
        }
        i += 1;
    }
    true
}

impl Pool {
    /// A pool of `num_workers` idle workers that send below `base_url`, with
    /// an empty queue, an empty result channel with room for `num_workers`
    /// results, and a driver that listens.
    pub fn new(num_workers: usize, base_url: &BaseUrl) -> (pool: Self)
        requires
            num_workers >= 1,
        ensures
            pool@ == PoolView::fresh(num_workers as nat, base_url@),
            pool@.well_formed(),
    {
        let mut workers: Vec<WorkerState> = Vec::new();
        while workers.len() < num_workers
            invariant
                workers.len() <= num_workers,
                forall|w: int| 0 <= w < workers.len() ==> workers@[w] == WorkerState::Idle,
            decreases num_workers - workers.len(),
        {
            workers.push(WorkerState::Idle);
        }
        let pool = Pool {
            base_url: base_url.clone(),
            queue: Vec::new(),
            workers,
            results: VecDeque::new(),
            listening: true,
            ledger: Ghost(Ledger::fresh(num_workers as nat)),
        };
        assert(pool@.workers =~= PoolView::fresh(num_workers as nat, base_url@).workers);
        assert(pool@.queue =~= PoolView::fresh(num_workers as nat, base_url@).queue);
        assert(pool@.results =~= PoolView::fresh(num_workers as nat, base_url@).results);
        proof {
            law_new_pool_is_well_formed(num_workers as nat, base_url@);
        }
        pool
    }

    /// The URL below which the workers send.
    pub fn base_url(&self) -> (url: &BaseUrl)
        ensures
            url@ == self@.base,
    {
        &self.base_url
    }

    /// Where worker `w` stands; `None` if `w` is no worker.
    pub fn worker_state(&self, w: usize) -> (state: Option<WorkerState>)
        ensures
            state == if w < self@.workers.len() {
                Some(self@.workers[w as int])
            } else {
                None
            },
    {
        if w < self.workers.len() {
            Some(self.workers[w])
        } else {
            None
        }
    }

    /// How many commands are on the queue.
    pub fn pending(&self) -> (count: usize)
        ensures
            count == self@.queue.len(),
    {
        self.queue.len()
    }

    /// How many results wait for the driver.
    pub fn waiting(&self) -> (count: usize)
        ensures
            count == self@.results.len(),
    {
        self.results.len()
    }

    /// Puts the first worker in state `from`, if there is one, into state
    /// `to`, and names it.
    fn move_first(&mut self, from: WorkerState, to: WorkerState) -> (found: Option<usize>)
        ensures
            found == found_in(old(self)@.workers, from),
            final(self)@ == (PoolView {
                workers: moved_one(old(self)@.workers, from, to),
                ..old(self)@
            }),
    {
        let found = find_first(&self.workers, from);
        proof {
            lemma_first_in(self.workers@, from, 0);
        }
        if let Some(w) = found {
            assert(self.workers@.len() == self.workers.len());
            assert(w as int == first_in(self.workers@, from, 0));
            self.workers.set(w, to);
        }
        found
    }

    /// Wakes every blocked worker to report again, and names them.
    fn release_blocked(&mut self) -> (found: Vec<usize>)
        ensures
            found@ == blocked_workers(old(self)@.workers),
            final(self)@ == (PoolView { workers: release_all(old(self)@.workers), ..old(self)@ }),
    {
        let mut found: Vec<usize> = Vec::new();
        let mut i: usize = 0;
        assert(self.workers@.take(0) =~= Seq::empty());
        while i < self.workers.len()
            invariant
                i <= self.workers.len(),
                self.workers@.len() == old(self).workers@.len(),
                found@ == blocked_workers(old(self).workers@.take(i as int)),
                forall|w: int|
                    0 <= w < self.workers@.len() ==> self.workers@[w] == if w < i {
                        release_all(old(self).workers@)[w]
                    } else {
                        old(self).workers@[w]
                    },
                self.base_url == old(self).base_url,
                self.queue == old(self).queue,
                self.results == old(self).results,
                self.listening == old(self).listening,
                self.ledger == old(self).ledger,
            decreases self.workers.len() - i,
        {
            let ghost seen = old(self).workers@.take(i + 1);
            assert(seen.drop_last() =~= old(self).workers@.take(i as int));
            if self.workers[i] == WorkerState::Blocked {
                self.workers.set(i, WorkerState::Executing);
                found.push(i);
            }
            i += 1;
        }
        assert(old(self).workers@.take(i as int) =~= old(self).workers@);
        assert(self.workers@ =~= release_all(old(self).workers@));
        found
    }

    /// Puts a command on the queue and wakes one parked worker, if there is
    /// one. The worker named is the one to wake.
    pub fn send_command(&mut self, cmd: Command) -> (found: Option<usize>)
        ensures
            final(self)@ == old(self)@.after_submit(cmd),
            found == woken(old(self)@.workers),
            old(self)@.well_formed() ==> final(self)@.well_formed(),
    {
        proof {
            if self@.well_formed() {
                lemma_submit(self@, cmd);
            }
        }
        let ghost is_request = cmd is Request;
        self.queue.push(cmd);
        self.ledger = Ghost(self.ledger@.after_submit(is_request));
        self.move_first(WorkerState::Parked, WorkerState::Idle)
    }

    /// Worker `w` asks for its next command; `None` if `w` is no worker or
    /// is not idle. On an empty queue the worker is parked and told to wait.
    /// A request is taken from the queue and handed to the worker. At a
    /// shutdown command the worker stops: the command is put back for the
    /// others, and the worker named in the answer is the one to wake.
    pub fn worker_poll(&mut self, w: usize) -> (action: Option<WorkerAction>)
        ensures
            final(self)@ == old(self)@.after_poll(w as int),
            action == old(self)@.poll_action(w as int),
            old(self)@.well_formed() ==> final(self)@.well_formed(),
    {
        proof {
            if self@.well_formed() && self@.can_poll(w as int) {
                lemma_poll(self@, w as int);
            }
        }
        if w >= self.workers.len() || self.workers[w] != WorkerState::Idle {
            return None;
        }
        match self.queue.pop() {
            None => {
                self.workers.set(w, WorkerState::Parked);
                Some(WorkerAction::Wait)
            },
            Some(Command::Request(request)) => {
                self.workers.set(w, WorkerState::Executing);
                self.ledger = Ghost(self.ledger@.after_handover(w as int));
                Some(WorkerAction::Execute(request))
            },
            Some(Command::Shutdown) => {
                self.queue.push(Command::Shutdown);
                assert(self.queue@ =~= old(self).queue@);
                self.workers.set(w, WorkerState::Terminated);
                let found = self.move_first(WorkerState::Parked, WorkerState::Idle);
                Some(WorkerAction::Exit(found))
            },
        }
    }

    /// Worker `w` reports the result of the request it was out on; `None`
    /// if `w` is no worker or has nothing to report. Once the driver is
    /// gone the result is dropped and the worker stops. While the driver
    /// listens and the result channel has room, the result waits there for
    /// the driver and the worker goes on. While the channel is full, the
    /// worker gets the result back and is blocked: a result that the driver
    /// takes wakes it, and then it reports again.
    pub fn worker_complete(&mut self, w: usize, result: RequestResult) -> (report: Option<Report>)
        ensures
            final(self)@ == old(self)@.after_complete(w as int, result),
            report == old(self)@.report(w as int, result),
            old(self)@.well_formed() ==> final(self)@.well_formed(),
    {
        proof {
            if self@.well_formed() && self@.can_complete(w as int) {
                lemma_complete(self@, w as int, result);
            }
        }
        if w >= self.workers.len() || self.workers[w] != WorkerState::Executing {
            return None;
        }
        if !self.listening {
            self.workers.set(w, WorkerState::Terminated);
            self.ledger = Ghost(self.ledger@.after_discard(w as int));
            Some(Report::Dropped)
        } else if self.results.len() < self.workers.len() {
            self.results.push_back(result);
            self.workers.set(w, WorkerState::Idle);
            self.ledger = Ghost(self.ledger@.after_delivery(w as int));
            Some(Report::Delivered)
        } else {
            self.workers.set(w, WorkerState::Blocked);
            Some(Report::Full(result))
        }
    }

    /// The driver asks for the next result. It gets the one that has waited
    /// longest, and with it the name of the blocked worker, if there is
    /// one, that is woken for the room this makes; or, where no result
    /// waits, the word that one may still come, or that none will because
    /// every worker has stopped.
    pub fn get_response(&mut self) -> (delivery: Delivery)
        ensures
            delivery == old(self)@.delivery(),
            final(self)@ == old(self)@.after_take(),
            old(self)@.well_formed() ==> final(self)@.well_formed(),
    {
        proof {
            if self@.well_formed() && self@.results.len() > 0 {
                lemma_take(self@);
            }
        }
        match self.results.pop_front() {
            Some(result) => {
                self.ledger = Ghost(self.ledger@.after_take());
                let found = self.move_first(WorkerState::Blocked, WorkerState::Executing);
                Delivery::Ready(result, found)
            },
            None => {
                if none_alive(&self.workers) {
                    Delivery::Closed
                } else {
                    Delivery::Pending
                }
            },
        }
    }

    /// Asks every worker to stop: puts a shutdown command on the queue and
    /// wakes one parked worker, if there is one. The worker named is the one
    /// to wake.
    pub fn shutdown(&mut self) -> (found: Option<usize>)
        ensures
            final(self)@ == old(self)@.after_submit(Command::Shutdown),
            found == woken(old(self)@.workers),
            old(self)@.well_formed() ==> final(self)@.well_formed(),
    {
        self.send_command(Command::Shutdown)
    }

    /// The driver lets go of the pool without a shutdown. From now on no
    /// result is kept, and every blocked worker is woken to find that out.
    /// Unless every worker has stopped already, a shutdown command is put
    /// on the queue and one parked worker is woken, if there is one. The
    /// workers named are those to wake.
    pub fn detach(&mut self) -> (found: Vec<usize>)
        ensures
            final(self)@ == old(self)@.after_detach(),
            found@ == old(self)@.detach_wakes(),
            old(self)@.well_formed() ==> final(self)@.well_formed(),
    {
        proof {
            if self@.well_formed() {
                lemma_detach(self@);
            }
            lemma_parked_after_release(self@.workers, 0);
        }
        let stopped = none_alive(&self.workers);
        self.listening = false;
        let mut found = self.release_blocked();
        if !stopped {
            if let Some(parked) = self.send_command(Command::Shutdown) {
                found.push(parked);
            }
        }
        found
    }
}

/// Waking the blocked workers does not change which worker is the first
/// parked one.
proof fn lemma_parked_after_release(workers: Seq<WorkerState>, from: int)
    requires
        0 <= from <= workers.len(),
    ensures
        first_in(release_all(workers), WorkerState::Parked, from) == first_in(
            workers,
            WorkerState::Parked,
            from,
        ),
    decreases workers.len() - from,
{
    if from < workers.len() && workers[from] != WorkerState::Parked {
        lemma_parked_after_release(workers, from + 1);
    }
}

} // verus!
