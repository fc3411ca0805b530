use vernier_ffi::background::{
    dispatch_finalize, finalize_disconnected, next_send_step, pool_refusal_text, send_deadline,
    shutdown_deadline, shutdown_send_step, shutdown_step, submit_disconnected, BackgroundConfig,
    BackgroundError, BackgroundLifecycle, BackgroundState, Counters, JoinOutcome, LatencySamples,
    QueueFull, Received, Request, SendAttempt, SendStep, ShutdownSend, ShutdownStep, WorkerAction,
    GONE_FOR_FINALIZE, GONE_FOR_SUBMIT,
};

fn config() -> BackgroundConfig {
    BackgroundConfig {
        queue_capacity: 4,
        worker_affinity: None,
        worker_nice: 0,
        shutdown_timeout_ns: 200_000_000,
        num_threads: None,
    }
}

fn state() -> BackgroundState<String> {
    BackgroundState::new(Counters { images_seen: 0, detections_seen: 0, memory_used_bytes: 0 })
}

/// A submit through the bookkeeping of a worker that takes it at once.
fn submit(state: &mut BackgroundState<String>, samples: &mut LatencySamples) {
    let start = if samples.wants_start() { Some(std::time::Instant::now()) } else { None };
    state.begin_submit().expect("nothing went wrong before");
    samples.record(start.map(|s| s.elapsed().as_nanos()));
    assert_eq!(state.worker_step(Received::Update, false), WorkerAction::Apply { pooled: false });
    state.finish_update(Ok(Counters { images_seen: 1, detections_seen: 1, memory_used_bytes: 8 }));
}

#[test]
fn latency_samples_disabled_by_default_returns_empty() {
    let mut state = state();
    let mut samples = LatencySamples::new(false);
    for _ in 0..8u32 {
        submit(&mut state, &mut samples);
    }
    let drained = samples.drain();
    assert!(drained.is_empty(), "default-off accumulator must return empty");
}

#[test]
fn latency_samples_opt_in_records_one_per_submit() {
    let mut state = state();
    let mut samples = LatencySamples::new(true);
    let n = 16usize;
    for _ in 0..n {
        submit(&mut state, &mut samples);
    }
    let drained = samples.drain();
    assert_eq!(drained.len(), n, "one sample per successful submit");
    assert!(samples.drain().is_empty());
}

#[test]
fn long_waits_saturate_a_sample() {
    let mut samples = LatencySamples::new(true);
    samples.record(Some(u128::MAX));
    samples.record(None);
    samples.record(Some(7));
    assert_eq!(samples.drain(), vec![u64::MAX, 7]);
}

#[test]
fn an_error_is_raised_once() {
    let mut state = state();
    state.begin_submit().unwrap();
    assert_eq!(state.queue_depth, 1);
    state.worker_step(Received::Update, false);
    assert_eq!(state.queue_depth, 0);
    state.finish_update(Err("bad image".to_string()));
    assert_eq!(state.begin_submit(), Err("bad image".to_string()));
    assert_eq!(state.begin_submit(), Ok(()));
}

#[test]
fn an_abandoned_submit_leaves_the_queue() {
    let mut state = state();
    state.begin_submit().unwrap();
    state.begin_submit().unwrap();
    state.abandon_submit();
    assert_eq!(state.queue_depth, 1);
    assert_eq!(state.take_last_error(), None);
}

#[test]
fn scheduling_is_read_once() {
    let mut state = state();
    assert_eq!(state.take_scheduling_outcome(), None);
    state.note_scheduling(Err("nice: denied".to_string()));
    assert_eq!(state.take_scheduling_outcome(), Some(Err("nice: denied".to_string())));
    assert_eq!(state.take_scheduling_outcome(), None);
    state.note_pool_failure(4, "no threads");
    assert_eq!(
        state.take_scheduling_outcome(),
        Some(Err(pool_refusal_text(4, "no threads")))
    );
}

#[test]
fn only_consuming_requests_end_the_worker() {
    let mut s = state();
    assert_eq!(
        s.worker_step(Received::Ask(Request::Snapshot), true),
        WorkerAction::Answer { request: Request::Snapshot, leaves: false }
    );
    assert_eq!(
        s.worker_step(Received::Ask(Request::FinalizeToPartial), true),
        WorkerAction::Answer { request: Request::FinalizeToPartial, leaves: true }
    );
    assert_eq!(s.worker_step(Received::Shutdown, true), WorkerAction::Leave);
    assert_eq!(s.worker_step(Received::Closed, true), WorkerAction::Leave);
    assert_eq!(s.worker_step(Received::Update, true), WorkerAction::Apply { pooled: true });
}

#[test]
fn a_bounded_submit_gives_up_at_the_deadline() {
    let c = config();
    let deadline = send_deadline(1_000, 5_000_000);
    assert_eq!(deadline, Some(5_001_000));
    assert_eq!(next_send_step(SendAttempt::Sent, &c, 5_000_000, deadline, 9), SendStep::Done);
    assert_eq!(
        next_send_step(SendAttempt::Disconnected, &c, 5_000_000, deadline, 9),
        SendStep::WorkerGone
    );
    assert_eq!(
        next_send_step(SendAttempt::Full, &c, 5_000_000, deadline, 1_000),
        SendStep::Sleep(1_000_000)
    );
    assert_eq!(
        next_send_step(SendAttempt::Full, &c, 5_000_000, deadline, 5_000_999),
        SendStep::Sleep(1)
    );
    assert_eq!(
        next_send_step(SendAttempt::Full, &c, 5_000_000, deadline, 5_001_000),
        SendStep::GiveUp(QueueFull { queue_capacity: 4, timeout_ns: 5_000_000 })
    );
}

#[test]
fn finalizing_reports_what_ended_the_worker() {
    let r: Result<u8, BackgroundError<String>> = dispatch_finalize(Some(Ok(5)), JoinOutcome::Clean);
    assert!(matches!(r, Ok(5)));
    let r: Result<u8, BackgroundError<String>> =
        dispatch_finalize(Some(Err("bad".to_string())), JoinOutcome::Clean);
    assert!(matches!(r, Err(BackgroundError::Eval(e)) if e == "bad"));
    let r: Result<u8, BackgroundError<String>> =
        dispatch_finalize(None, JoinOutcome::Failed("worker".to_string()));
    assert!(matches!(r, Err(_)));
    let e: BackgroundError<String> = submit_disconnected();
    assert!(matches!(e, BackgroundError::Invalid(m) if m == GONE_FOR_SUBMIT));
    let e: BackgroundError<String> = finalize_disconnected();
    assert!(matches!(e, BackgroundError::Invalid(m) if m == GONE_FOR_FINALIZE));
}

#[test]
fn shutting_down_waits_no_longer_than_allowed() {
    assert_eq!(shutdown_step(true, 0, 100), ShutdownStep::Join);
    assert_eq!(shutdown_step(false, 100, 100), ShutdownStep::Abandon);
    assert_eq!(shutdown_step(false, 0, 100_000_000), ShutdownStep::Sleep(10_000_000));
}

#[test]
fn a_full_queue_does_not_hold_a_shutdown_up() {
    let deadline = shutdown_deadline(1_000, 2_500_000);
    assert_eq!(deadline, 2_501_000);
    assert_eq!(shutdown_deadline(5, u128::MAX), u128::MAX);
    assert_eq!(shutdown_send_step(SendAttempt::Sent, deadline, deadline), ShutdownSend::Wait);
    assert_eq!(shutdown_send_step(SendAttempt::Disconnected, 0, deadline), ShutdownSend::Wait);
    // The queue stays full and the worker stays busy.
    let mut now: u128 = 1_000;
    let mut tries = 0;
    loop {
        tries += 1;
        match shutdown_send_step(SendAttempt::Full, now, deadline) {
            ShutdownSend::Sleep(ns) => now += ns,
            step => {
                assert_eq!(step, ShutdownSend::Abandon);
                break;
            }
        }
    }
    assert_eq!((now, tries), (deadline, 4));
    // The worker is told at last and does not leave.
    let mut now = deadline - 1;
    while let ShutdownStep::Sleep(ns) = shutdown_step(false, now, deadline) {
        now += ns;
    }
    assert!(now < deadline + 10_000_000);
}

#[test]
fn a_lifecycle_is_emptied_once() {
    let mut l = BackgroundLifecycle::new(9u8);
    assert_eq!(l.active(), Some(&9));
    assert_eq!(l.take(), Some(9));
    assert_eq!(l.take(), None);
    assert_eq!(l.active(), None);
}
