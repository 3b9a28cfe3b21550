use normandy::args::{Args, BaseUrl};
use normandy::config::{RequestMethod, RequestSpec, ValidatedRequest};
use normandy::worker::{
    Command, Delivery, Elapsed, Failure, Pool, Report, RequestResult, Response, WorkerAction,
    WorkerState,
};

fn host(text: &str) -> BaseUrl {
    Args { max_concurrent_requests: 10, verbose: false, num_requests: 1, host: text.to_string() }
        .validate()
        .unwrap()
        .host
}

fn get(path: &str) -> ValidatedRequest {
    RequestSpec { method: RequestMethod::GET, path: path.to_string(), body: None, headers: vec![] }
        .validate()
        .unwrap()
}

fn ok_after(millis: u32, status: u16) -> RequestResult {
    RequestResult::new(Elapsed { secs: 0, nanos: millis * 1_000_000 }, Ok(Response { status }))
}

fn failed(millis: u32, message: &str) -> RequestResult {
    RequestResult::new(
        Elapsed { secs: 0, nanos: millis * 1_000_000 },
        Err(Failure { message: message.to_string() }),
    )
}

fn status_of(result: &RequestResult) -> u16 {
    match result.result() {
        Ok(response) => response.status,
        Err(_) => 0,
    }
}

/// Lets every worker that can take a step take it, again and again, until
/// none can. Each request is answered at once with status 200 after 10 ms;
/// a result that does not fit into the channel stays with its worker, in
/// `held`, until the worker is woken and reports it again. Returns the
/// number of steps taken.
fn run_to_rest(pool: &mut Pool, held: &mut Vec<Option<RequestResult>>) -> usize {
    let mut steps = 0;
    loop {
        let mut moved = false;
        for w in 0..held.len() {
            match pool.worker_state(w) {
                Some(WorkerState::Idle) => {
                    assert!(pool.worker_poll(w).is_some());
                    steps += 1;
                    moved = true;
                }
                Some(WorkerState::Executing) => {
                    let result = held[w].take().unwrap_or_else(|| ok_after(10, 200));
                    match pool.worker_complete(w, result) {
                        Some(Report::Full(back)) => held[w] = Some(back),
                        Some(_) => {}
                        None => panic!("worker {} had nothing to report", w),
                    }
                    steps += 1;
                    moved = true;
                }
                _ => {}
            }
        }
        if !moved {
            return steps;
        }
    }
}

fn take_all(pool: &mut Pool) -> Vec<RequestResult> {
    let mut results = vec![];
    while let Delivery::Ready(result, _) = pool.get_response() {
        results.push(result);
    }
    results
}

/// Lets workers and driver take turns until nothing moves any more, and
/// returns what the driver got.
fn run_and_drain(pool: &mut Pool, workers: usize) -> Vec<RequestResult> {
    let mut held: Vec<Option<RequestResult>> = (0..workers).map(|_| None).collect();
    let mut results = vec![];
    loop {
        let steps = run_to_rest(pool, &mut held);
        let taken = take_all(pool);
        if steps == 0 && taken.is_empty() {
            return results;
        }
        results.extend(taken);
    }
}

#[test]
fn new_pool_has_idle_workers_and_nothing_to_do() {
    let pool = Pool::new(3, &host("http://localhost:8080"));
    assert_eq!(pool.worker_state(0), Some(WorkerState::Idle));
    assert_eq!(pool.worker_state(1), Some(WorkerState::Idle));
    assert_eq!(pool.worker_state(2), Some(WorkerState::Idle));
    assert_eq!(pool.worker_state(3), None);
    assert_eq!(pool.pending(), 0);
    assert_eq!(pool.waiting(), 0);
    assert_eq!(pool.base_url().as_str(), "http://localhost:8080/");
    assert_eq!(pool.base_url().source(), "http://localhost:8080");
}

#[test]
fn two_workers_answer_five_gets() {
    let mut pool = Pool::new(2, &host("http://localhost:8080"));
    for _ in 0..5 {
        pool.send_command(Command::Request(get("/")));
    }
    let results = run_and_drain(&mut pool, 2);
    assert_eq!(results.len(), 5);
    for result in &results {
        assert!(result.result().is_ok());
        assert_eq!(status_of(result), 200);
        assert!(result.duration().as_millis() >= 10);
    }
    assert!(matches!(pool.get_response(), Delivery::Pending));
}

#[test]
fn every_request_yields_exactly_one_result() {
    for workers in 1..5usize {
        for requests in 0..12usize {
            let mut pool = Pool::new(workers, &host("http://localhost:8080"));
            for _ in 0..requests {
                pool.send_command(Command::Request(get("/")));
            }
            assert_eq!(run_and_drain(&mut pool, workers).len(), requests);
            assert_eq!(pool.pending(), 0);
            assert_eq!(pool.waiting(), 0);
            for w in 0..workers {
                assert_eq!(pool.worker_state(w), Some(WorkerState::Parked));
            }
        }
    }
}

#[test]
fn each_request_goes_to_one_worker_and_comes_back_once() {
    let mut pool = Pool::new(3, &host("http://localhost:8080/api"));
    let paths = ["/a", "/b", "/c", "/d", "/e", "/f", "/g"];
    for path in paths {
        pool.send_command(Command::Request(get(path)));
    }
    let base = host("http://localhost:8080/api");
    let mut seen: Vec<String> = vec![];
    let mut statuses: Vec<u16> = vec![];
    let mut job: Vec<Option<RequestResult>> = vec![None, None, None];
    let mut rounds = 0;
    loop {
        let mut moved = false;
        for w in 0..3 {
            match pool.worker_state(w) {
                Some(WorkerState::Executing) => {
                    let result = job[w].take().unwrap();
                    if let Some(Report::Full(back)) = pool.worker_complete(w, result) {
                        job[w] = Some(back);
                    }
                    moved = true;
                }
                Some(WorkerState::Idle) => {
                    match pool.worker_poll(w) {
                        Some(WorkerAction::Execute(request)) => {
                            let url = request.send(&base).unwrap().url;
                            assert!(!seen.contains(&url));
                            job[w] = Some(ok_after(1, 200 + seen.len() as u16));
                            seen.push(url);
                        }
                        Some(WorkerAction::Wait) => {}
                        other => panic!("unexpected answer: {:?}", other),
                    }
                    moved = true;
                }
                _ => {}
            }
        }
        // The driver is slow: it takes one result every other round.
        rounds += 1;
        if rounds % 2 == 0 || !moved {
            if let Delivery::Ready(result, _) = pool.get_response() {
                statuses.push(status_of(&result));
                moved = true;
            }
        }
        assert!(pool.waiting() <= 3);
        if !moved {
            break;
        }
    }
    seen.sort();
    assert_eq!(
        seen,
        vec![
            "http://localhost:8080/api/a",
            "http://localhost:8080/api/b",
            "http://localhost:8080/api/c",
            "http://localhost:8080/api/d",
            "http://localhost:8080/api/e",
            "http://localhost:8080/api/f",
            "http://localhost:8080/api/g",
        ]
    );
    statuses.sort();
    assert_eq!(statuses, vec![200, 201, 202, 203, 204, 205, 206]);
}

#[test]
fn the_last_command_leaves_the_queue_first() {
    let mut pool = Pool::new(1, &host("http://localhost:8080/api"));
    let base = host("http://localhost:8080/api");
    pool.send_command(Command::Request(get("/first")));
    pool.send_command(Command::Request(get("/second")));
    match pool.worker_poll(0) {
        Some(WorkerAction::Execute(request)) => {
            assert_eq!(request.send(&base).unwrap().url, "http://localhost:8080/api/second");
        }
        other => panic!("unexpected answer: {:?}", other),
    }
    assert_eq!(pool.pending(), 1);
    assert_eq!(pool.worker_state(0), Some(WorkerState::Executing));
}

#[test]
fn results_come_in_the_order_of_completion() {
    let mut pool = Pool::new(4, &host("http://localhost:8080"));
    for _ in 0..4 {
        pool.send_command(Command::Request(get("/")));
    }
    for w in 0..4 {
        assert!(matches!(pool.worker_poll(w), Some(WorkerAction::Execute(_))));
    }
    // Worker 0 is out on the slow request; the others finish before it.
    assert!(matches!(pool.worker_complete(2, ok_after(1, 202)), Some(Report::Delivered)));
    assert!(matches!(pool.worker_complete(1, ok_after(2, 201)), Some(Report::Delivered)));
    assert!(matches!(pool.worker_complete(3, ok_after(3, 203)), Some(Report::Delivered)));
    assert!(matches!(pool.worker_complete(0, ok_after(900, 200)), Some(Report::Delivered)));
    let statuses: Vec<u16> = take_all(&mut pool).iter().map(status_of).collect();
    assert_eq!(statuses, vec![202, 201, 203, 200]);
}

#[test]
fn a_failed_request_is_one_failed_result_and_the_pool_goes_on() {
    let mut pool = Pool::new(1, &host("http://localhost:1"));
    pool.send_command(Command::Request(get("/")));
    assert!(matches!(pool.worker_poll(0), Some(WorkerAction::Execute(_))));
    assert!(matches!(
        pool.worker_complete(0, failed(3, "connection refused")),
        Some(Report::Delivered)
    ));
    assert_eq!(pool.worker_state(0), Some(WorkerState::Idle));
    match pool.get_response() {
        Delivery::Ready(result, woken) => {
            assert_eq!(result.result().unwrap_err().message, "connection refused");
            assert_eq!(result.duration(), Elapsed { secs: 0, nanos: 3_000_000 });
            assert_eq!(woken, None);
        }
        other => panic!("unexpected delivery: {:?}", other),
    }
    assert!(matches!(pool.get_response(), Delivery::Pending));
    pool.send_command(Command::Request(get("/")));
    assert!(matches!(pool.worker_poll(0), Some(WorkerAction::Execute(_))));
    assert!(matches!(pool.worker_complete(0, ok_after(1, 200)), Some(Report::Delivered)));
    assert_eq!(take_all(&mut pool).len(), 1);
}

#[test]
fn a_full_channel_holds_the_worker_back_until_the_driver_takes_a_result() {
    let mut pool = Pool::new(1, &host("http://localhost:8080"));
    pool.send_command(Command::Request(get("/")));
    pool.send_command(Command::Request(get("/")));
    assert!(matches!(pool.worker_poll(0), Some(WorkerAction::Execute(_))));
    assert!(matches!(pool.worker_complete(0, ok_after(1, 201)), Some(Report::Delivered)));
    assert!(matches!(pool.worker_poll(0), Some(WorkerAction::Execute(_))));
    // The channel of a pool with one worker has room for one result.
    let back = match pool.worker_complete(0, ok_after(2, 202)) {
        Some(Report::Full(back)) => back,
        other => panic!("unexpected answer: {:?}", other),
    };
    assert_eq!(status_of(&back), 202);
    assert_eq!(pool.waiting(), 1);
    assert_eq!(pool.worker_state(0), Some(WorkerState::Blocked));
    // A blocked worker neither asks nor reports.
    assert!(pool.worker_poll(0).is_none());
    assert!(pool.worker_complete(0, ok_after(9, 209)).is_none());
    assert_eq!(pool.waiting(), 1);
    match pool.get_response() {
        Delivery::Ready(result, woken) => {
            assert_eq!(status_of(&result), 201);
            assert_eq!(woken, Some(0));
        }
        other => panic!("unexpected delivery: {:?}", other),
    }
    assert_eq!(pool.worker_state(0), Some(WorkerState::Executing));
    assert!(matches!(pool.worker_complete(0, back), Some(Report::Delivered)));
    match pool.get_response() {
        Delivery::Ready(result, woken) => {
            assert_eq!(status_of(&result), 202);
            assert_eq!(woken, None);
        }
        other => panic!("unexpected delivery: {:?}", other),
    }
    assert!(matches!(pool.get_response(), Delivery::Pending));
}

#[test]
fn the_channel_never_holds_more_results_than_the_pool_has_workers() {
    for workers in 1..4usize {
        let mut pool = Pool::new(workers, &host("http://localhost:8080"));
        for _ in 0..10 {
            pool.send_command(Command::Request(get("/")));
        }
        let mut held: Vec<Option<RequestResult>> = (0..workers).map(|_| None).collect();
        run_to_rest(&mut pool, &mut held);
        // The driver has taken nothing: the channel is full, every worker
        // holds a result that did not fit, and the rest is still queued.
        assert_eq!(pool.waiting(), workers);
        for w in 0..workers {
            assert_eq!(pool.worker_state(w), Some(WorkerState::Blocked));
            assert!(held[w].is_some());
        }
        assert_eq!(pool.pending(), 10 - 2 * workers);
    }
}

#[test]
fn a_poll_on_an_empty_queue_parks_the_worker_and_a_command_wakes_it() {
    let mut pool = Pool::new(2, &host("http://localhost:8080"));
    assert!(matches!(pool.worker_poll(1), Some(WorkerAction::Wait)));
    assert_eq!(pool.worker_state(1), Some(WorkerState::Parked));
    // A parked worker does not ask.
    assert!(pool.worker_poll(1).is_none());
    assert_eq!(pool.send_command(Command::Request(get("/"))), Some(1));
    assert_eq!(pool.worker_state(1), Some(WorkerState::Idle));
    // Nobody is parked now: the next command wakes nobody.
    assert_eq!(pool.send_command(Command::Request(get("/"))), None);
    assert_eq!(pool.pending(), 2);
}

#[test]
fn a_command_wakes_one_worker_only() {
    let mut pool = Pool::new(3, &host("http://localhost:8080"));
    for w in 0..3 {
        assert!(matches!(pool.worker_poll(w), Some(WorkerAction::Wait)));
    }
    let woken = pool.send_command(Command::Request(get("/"))).unwrap();
    let mut parked = 0;
    for w in 0..3 {
        if pool.worker_state(w) == Some(WorkerState::Parked) {
            parked += 1;
        } else {
            assert_eq!(w, woken);
            assert_eq!(pool.worker_state(w), Some(WorkerState::Idle));
        }
    }
    assert_eq!(parked, 2);
}

#[test]
fn polls_and_reports_out_of_turn_change_nothing() {
    let mut pool = Pool::new(1, &host("http://localhost:8080"));
    assert!(pool.worker_poll(1).is_none());
    assert!(pool.worker_complete(0, ok_after(1, 200)).is_none());
    assert!(pool.worker_complete(7, ok_after(1, 200)).is_none());
    assert!(matches!(pool.get_response(), Delivery::Pending));
    pool.send_command(Command::Request(get("/")));
    assert!(matches!(pool.worker_poll(0), Some(WorkerAction::Execute(_))));
    assert!(pool.worker_poll(0).is_none());
    assert_eq!(pool.worker_state(0), Some(WorkerState::Executing));
}

#[test]
fn shutdown_without_requests_stops_the_pool_and_yields_nothing() {
    let mut pool = Pool::new(3, &host("http://localhost:8080"));
    assert_eq!(pool.shutdown(), None);
    let mut held = vec![None, None, None];
    let steps = run_to_rest(&mut pool, &mut held);
    assert_eq!(steps, 3);
    for w in 0..3 {
        assert_eq!(pool.worker_state(w), Some(WorkerState::Terminated));
    }
    assert!(matches!(pool.get_response(), Delivery::Closed));
}

#[test]
fn shutdown_reaches_parked_workers_one_after_the_other() {
    let mut pool = Pool::new(3, &host("http://localhost:8080"));
    for w in 0..3 {
        assert!(matches!(pool.worker_poll(w), Some(WorkerAction::Wait)));
    }
    assert_eq!(pool.shutdown(), Some(0));
    match pool.worker_poll(0) {
        Some(WorkerAction::Exit(woken)) => assert_eq!(woken, Some(1)),
        other => panic!("unexpected answer: {:?}", other),
    }
    match pool.worker_poll(1) {
        Some(WorkerAction::Exit(woken)) => assert_eq!(woken, Some(2)),
        other => panic!("unexpected answer: {:?}", other),
    }
    match pool.worker_poll(2) {
        Some(WorkerAction::Exit(woken)) => assert_eq!(woken, None),
        other => panic!("unexpected answer: {:?}", other),
    }
    assert!(matches!(pool.get_response(), Delivery::Closed));
    // The command is still there for whoever might come.
    assert_eq!(pool.pending(), 1);
}

#[test]
fn shutdown_stops_every_worker_though_requests_are_queued() {
    let mut pool = Pool::new(2, &host("http://localhost:8080"));
    for _ in 0..4 {
        pool.send_command(Command::Request(get("/")));
    }
    assert!(matches!(pool.worker_poll(0), Some(WorkerAction::Execute(_))));
    pool.shutdown();
    let mut held = vec![None, None];
    let steps = run_to_rest(&mut pool, &mut held);
    // Four commands on the queue, one worker out on a request, one idle.
    assert!(steps <= 4 * 4 + 5 + 2);
    assert_eq!(pool.worker_state(0), Some(WorkerState::Terminated));
    assert_eq!(pool.worker_state(1), Some(WorkerState::Terminated));
    // The request that was under way has its result; those behind the
    // shutdown command were never sent.
    assert_eq!(take_all(&mut pool).len(), 1);
    assert!(matches!(pool.get_response(), Delivery::Closed));
    assert_eq!(pool.pending(), 4);
}

#[test]
fn shutdown_stops_a_blocked_worker_once_the_driver_takes_a_result() {
    let mut pool = Pool::new(1, &host("http://localhost:8080"));
    pool.send_command(Command::Request(get("/")));
    pool.send_command(Command::Request(get("/")));
    let mut held = vec![None];
    run_to_rest(&mut pool, &mut held);
    assert_eq!(pool.worker_state(0), Some(WorkerState::Blocked));
    assert_eq!(pool.shutdown(), None);
    assert_eq!(run_to_rest(&mut pool, &mut held), 0);
    assert!(matches!(pool.get_response(), Delivery::Ready(_, Some(0))));
    assert_eq!(run_to_rest(&mut pool, &mut held), 2);
    assert_eq!(pool.worker_state(0), Some(WorkerState::Terminated));
    assert!(matches!(pool.get_response(), Delivery::Ready(_, None)));
    assert!(matches!(pool.get_response(), Delivery::Closed));
}

#[test]
fn a_request_submitted_after_shutdown_is_sent_before_the_worker_stops() {
    let mut pool = Pool::new(1, &host("http://localhost:8080"));
    pool.shutdown();
    pool.send_command(Command::Request(get("/")));
    assert!(matches!(pool.worker_poll(0), Some(WorkerAction::Execute(_))));
    assert!(matches!(pool.worker_complete(0, ok_after(1, 200)), Some(Report::Delivered)));
    assert!(matches!(pool.worker_poll(0), Some(WorkerAction::Exit(None))));
    assert_eq!(take_all(&mut pool).len(), 1);
}

#[test]
fn a_pool_that_is_let_go_stops_every_worker() {
    let mut pool = Pool::new(3, &host("http://localhost:8080"));
    pool.send_command(Command::Request(get("/")));
    assert!(matches!(pool.worker_poll(0), Some(WorkerAction::Execute(_))));
    assert!(matches!(pool.worker_poll(1), Some(WorkerAction::Wait)));
    assert!(matches!(pool.worker_poll(2), Some(WorkerAction::Wait)));
    assert_eq!(pool.detach(), vec![1]);
    // The result of the request under way is dropped, and its worker stops.
    assert!(matches!(pool.worker_complete(0, ok_after(5, 200)), Some(Report::Dropped)));
    assert_eq!(pool.worker_state(0), Some(WorkerState::Terminated));
    assert!(matches!(pool.worker_poll(1), Some(WorkerAction::Exit(Some(2)))));
    assert!(matches!(pool.worker_poll(2), Some(WorkerAction::Exit(None))));
    for w in 0..3 {
        assert_eq!(pool.worker_state(w), Some(WorkerState::Terminated));
    }
    assert_eq!(pool.waiting(), 0);
}

#[test]
fn a_pool_that_is_let_go_wakes_its_blocked_workers() {
    let mut pool = Pool::new(3, &host("http://localhost:8080"));
    for _ in 0..5 {
        pool.send_command(Command::Request(get("/")));
    }
    // Workers 0 and 1 fill the channel and block; worker 2 is parked.
    assert!(matches!(pool.worker_poll(0), Some(WorkerAction::Execute(_))));
    assert!(matches!(pool.worker_complete(0, ok_after(1, 200)), Some(Report::Delivered)));
    assert!(matches!(pool.worker_poll(0), Some(WorkerAction::Execute(_))));
    assert!(matches!(pool.worker_complete(0, ok_after(1, 200)), Some(Report::Delivered)));
    assert!(matches!(pool.worker_poll(0), Some(WorkerAction::Execute(_))));
    assert!(matches!(pool.worker_complete(0, ok_after(1, 200)), Some(Report::Delivered)));
    assert!(matches!(pool.worker_poll(0), Some(WorkerAction::Execute(_))));
    assert!(matches!(pool.worker_poll(1), Some(WorkerAction::Execute(_))));
    assert!(matches!(pool.worker_poll(2), Some(WorkerAction::Wait)));
    let first = match pool.worker_complete(0, ok_after(1, 200)) {
        Some(Report::Full(back)) => back,
        other => panic!("unexpected answer: {:?}", other),
    };
    let second = match pool.worker_complete(1, ok_after(1, 200)) {
        Some(Report::Full(back)) => back,
        other => panic!("unexpected answer: {:?}", other),
    };
    assert_eq!(pool.waiting(), 3);
    assert_eq!(pool.detach(), vec![0, 1, 2]);
    assert_eq!(pool.worker_state(0), Some(WorkerState::Executing));
    assert_eq!(pool.worker_state(1), Some(WorkerState::Executing));
    assert_eq!(pool.worker_state(2), Some(WorkerState::Idle));
    assert!(matches!(pool.worker_complete(0, first), Some(Report::Dropped)));
    assert!(matches!(pool.worker_complete(1, second), Some(Report::Dropped)));
    assert!(matches!(pool.worker_poll(2), Some(WorkerAction::Exit(None))));
    for w in 0..3 {
        assert_eq!(pool.worker_state(w), Some(WorkerState::Terminated));
    }
}

#[test]
fn letting_go_of_a_stopped_pool_changes_nothing() {
    let mut pool = Pool::new(1, &host("http://localhost:8080"));
    pool.shutdown();
    assert!(matches!(pool.worker_poll(0), Some(WorkerAction::Exit(None))));
    assert_eq!(pool.pending(), 1);
    assert_eq!(pool.detach(), Vec::<usize>::new());
    assert_eq!(pool.pending(), 1);
}
