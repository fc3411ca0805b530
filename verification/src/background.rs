//! The decisions of a background evaluator.
//!
//! One worker thread owns an evaluator and takes messages from a bounded
//! queue; callers submit batches and ask for a final result. The threads,
//! the queue and the clock are the caller's: here are the state that both
//! sides share and what each side does next. Times are nanoseconds on one
//! clock.

use crate::text::{nat_text, usize_text};
use vstd::prelude::*;

verus! {

/// How long a submit sleeps between two attempts: one millisecond.
pub const POLL_INTERVAL_NS: u128 = 1_000_000;

/// How long a shutdown sleeps between two looks: ten milliseconds.
pub const SHUTDOWN_POLL_NS: u128 = 10_000_000;

/// The knobs of a background worker.
#[derive(Clone, Copy, Debug, PartialEq, Eq, Structural)]
pub struct BackgroundConfig {
    /// The capacity of the queue.
    pub queue_capacity: usize,
    /// The core to pin the worker to.
    pub worker_affinity: Option<usize>,
    /// The nice value of the worker.
    pub worker_nice: i32,
    /// How long a shutdown waits for the worker.
    pub shutdown_timeout_ns: u128,
    /// The number of threads of the worker's own pool: none where it works
    /// alone.
    pub num_threads: Option<usize>,
}

impl Default for BackgroundConfig {
    fn default() -> (c: BackgroundConfig)
        ensures
            c == (BackgroundConfig {
                queue_capacity: 8,
                worker_affinity: None,
                worker_nice: 5,
                shutdown_timeout_ns: 5_000_000_000,
                num_threads: None,
            }),
    {
        BackgroundConfig {
            queue_capacity: 8,
            worker_affinity: None,
            worker_nice: 5,
            shutdown_timeout_ns: 5_000_000_000,
            num_threads: None,
        }
    }
}

/// A failure of a background evaluator: one of the evaluator's own, or an
/// invalid configuration with its detail.
#[derive(Debug)]
pub enum BackgroundError<E> {
    Eval(E),
    Invalid(String),
}

/// The counters of an evaluator after an update.
#[derive(Clone, Copy, Debug, PartialEq, Eq, Structural)]
pub struct Counters {
    pub images_seen: usize,
    pub detections_seen: usize,
    pub memory_used_bytes: usize,
}

/// What the caller's side and the worker share.
#[derive(Debug)]
pub struct BackgroundState<E> {
    pub counters: Counters,
    /// The number of updates in the queue, up to wrapping.
    pub queue_depth: usize,
    /// The error of an update that nobody has seen yet.
    pub last_error: Option<E>,
    /// What came of the worker's scheduling, until somebody reads it.
    pub scheduling_outcome: Option<Result<(), String>>,
}

/// One more, as an atomic counter adds it.
pub open spec fn one_more(n: usize) -> usize {
    if n == usize::MAX {
        0
    } else {
        (n + 1) as usize
    }
}

/// One less, as an atomic counter subtracts it.
pub open spec fn one_less(n: usize) -> usize {
    if n == 0 {
        usize::MAX
    } else {
        (n - 1) as usize
    }
}

/// The text of a pool that could not be built.
pub open spec fn pool_refusal(n: nat, reason: Seq<char>) -> Seq<char> {
    "failed to build rayon pool of "@ + nat_text(n) + " threads: "@ + reason
}

/// The text of a pool that could not be built.
pub fn pool_refusal_text(n: usize, reason: &str) -> (s: String)
    ensures
        s@ == pool_refusal(n as nat, reason@),
{
    let mut s = String::from_str("failed to build rayon pool of ");
    s.append(usize_text(n).as_str());
    s.append(" threads: ");
    s.append(reason);
    s
}

/// A submit that begins: the unseen error and a state without it, or a state
/// in which the update is counted.
pub open spec fn submit_begun<E>(s: BackgroundState<E>) -> (Result<(), E>, BackgroundState<E>) {
    match s.last_error {
        Some(e) => (Err(e), (BackgroundState { last_error: None, ..s })),
        None => (Ok(()), (BackgroundState { queue_depth: one_more(s.queue_depth), ..s })),
    }
}

/// The state after an update was applied with this result.
pub open spec fn update_finished<E>(
    s: BackgroundState<E>,
    result: Result<Counters, E>,
) -> BackgroundState<E> {
    match result {
        Ok(counters) => (BackgroundState { counters, ..s }),
        Err(e) => (BackgroundState { last_error: Some(e), ..s }),
    }
}

/// The scheduling outcome, and the state without it.
pub open spec fn outcome_taken<E>(s: BackgroundState<E>) -> (
    Option<Result<(), String>>,
    BackgroundState<E>,
) {
    (s.scheduling_outcome, (BackgroundState { scheduling_outcome: None, ..s }))
}

/// The error of an update is raised by the next submit, which is not
/// counted, and by that one alone.
pub proof fn law_error_is_raised_once<E>(s: BackgroundState<E>, e: E)
    ensures
        ({
            let failed = update_finished(s, Err(e));
            let (first, after) = submit_begun(failed);
            let (second, last) = submit_begun(after);
            &&& first == Err::<(), E>(e)
            &&& after.queue_depth == s.queue_depth
            &&& second is Ok
            &&& last.queue_depth == one_more(s.queue_depth)
        }),
{
}

/// The scheduling outcome is read at most once.
pub proof fn law_outcome_is_read_once<E>(s: BackgroundState<E>)
    ensures
        outcome_taken(outcome_taken(s).1).0 is None,
{
}

impl<E> BackgroundState<E> {
    /// The state of a worker over an evaluator with these counters.
    pub fn new(counters: Counters) -> (s: BackgroundState<E>)
        ensures
            s == (BackgroundState::<E> {
                counters,
                queue_depth: 0,
                last_error: None,
                scheduling_outcome: None,
            }),
    {
        BackgroundState { counters, queue_depth: 0, last_error: None, scheduling_outcome: None }
    }

    /// Read the unseen error and clear it.
    pub fn take_last_error(&mut self) -> (e: Option<E>)
        ensures
            e == old(self).last_error,
            *final(self) == (BackgroundState { last_error: None, ..*old(self) }),
    {
        self.last_error.take()
    }

    /// Read the scheduling outcome and clear it.
    pub fn take_scheduling_outcome(&mut self) -> (o: Option<Result<(), String>>)
        ensures
            (o, *final(self)) == outcome_taken(*old(self)),
    {
        self.scheduling_outcome.take()
    }

    /// Begin a submit: an unseen error is raised instead, and otherwise the
    /// update is counted into the queue before it is sent.
    pub fn begin_submit(&mut self) -> (r: Result<(), E>)
        ensures
            (r, *final(self)) == submit_begun(*old(self)),
    {
        match self.last_error.take() {
            Some(e) => Err(e),
            None => {
                self.queue_depth = if self.queue_depth == usize::MAX {
                    0
                } else {
                    self.queue_depth + 1
                };
                Ok(())
            },
        }
    }

    /// End a submit whose update was not sent: it leaves the count again.
    pub fn abandon_submit(&mut self)
        ensures
            *final(self) == (BackgroundState {
                queue_depth: one_less(old(self).queue_depth),
                ..*old(self)
            }),
    {
        self.queue_depth = if self.queue_depth == 0 {
            usize::MAX
        } else {
            self.queue_depth - 1
        };
    }

    /// The worker has started: note what came of its scheduling.
    pub fn note_scheduling(&mut self, outcome: Result<(), String>)
        ensures
            *final(self) == (BackgroundState { scheduling_outcome: Some(outcome), ..*old(self) }),
    {
        self.scheduling_outcome = Some(outcome);
    }

    /// The worker could not build its pool of `n` threads and goes on alone.
    /// The note replaces an outcome that was good or already read; a failed
    /// scheduling says more and stays.
    pub fn note_pool_failure(&mut self, n: usize, reason: &str)
        ensures
            final(self).counters == old(self).counters,
            final(self).queue_depth == old(self).queue_depth,
            final(self).last_error == old(self).last_error,
            match old(self).scheduling_outcome {
                Some(Err(_)) => final(self).scheduling_outcome == old(self).scheduling_outcome,
                _ => final(self).scheduling_outcome matches Some(Err(e)) && e@ == pool_refusal(
                    n as nat,
                    reason@,
                ),
            },
    {
        let keep: bool = match &self.scheduling_outcome {
            Some(Err(_)) => true,
            _ => false,
        };
        if !keep {
            self.scheduling_outcome = Some(Err(pool_refusal_text(n, reason)));
        }
    }

    /// An update has been applied: mirror the evaluator's counters, or keep
    /// its error for the next caller. The worker goes on either way.
    pub fn finish_update(&mut self, result: Result<Counters, E>)
        ensures
            *final(self) == update_finished(*old(self), result),
    {
        match result {
            Ok(counters) => {
                self.counters = counters;
            },
            Err(e) => {
                self.last_error = Some(e);
            },
        }
    }

    /// The next step of the worker for a message that it received. An update
    /// leaves the queue before it is applied.
    pub fn worker_step(&mut self, message: Received, has_pool: bool) -> (a: WorkerAction)
        ensures
            a == action_of(message, has_pool),
            *final(self) == (if message is Update {
                BackgroundState { queue_depth: one_less(old(self).queue_depth), ..*old(self) }
            } else {
                *old(self)
            }),
    {
        match message {
            Received::Update => {
                self.abandon_submit();
                WorkerAction::Apply { pooled: has_pool }
            },
            Received::Ask(request) => WorkerAction::Answer {
                request,
                leaves: match request {
                    Request::Snapshot | Request::SnapshotToPartial => false,
                    _ => true,
                },
            },
            Received::Shutdown => WorkerAction::Leave,
            Received::Closed => WorkerAction::Leave,
        }
    }
}

/// A result that a caller asks the worker for.
#[derive(Clone, Copy, Debug, PartialEq, Eq, Structural)]
pub enum Request {
    Snapshot,
    SnapshotToPartial,
    Finalize,
    FinalizeWithTables,
    FinalizeWithCells,
    FinalizeToPartial,
}

/// What the worker found in the queue.
#[derive(Clone, Copy, Debug, PartialEq, Eq, Structural)]
pub enum Received {
    /// A batch to apply.
    Update,
    /// A request to answer.
    Ask(Request),
    /// A call to leave without a result.
    Shutdown,
    /// Nothing: the queue was closed.
    Closed,
}

/// What the worker does next.
#[derive(Clone, Copy, Debug, PartialEq, Eq, Structural)]
pub enum WorkerAction {
    /// Apply the batch, inside the pool where there is one.
    Apply { pooled: bool },
    /// Answer the request, and leave the loop where it consumed the
    /// evaluator.
    Answer { request: Request, leaves: bool },
    /// Leave the loop.
    Leave,
}

/// A request that consumes the evaluator.
pub open spec fn consumes(request: Request) -> bool {
    !(request is Snapshot) && !(request is SnapshotToPartial)
}

/// What the worker does for a message.
pub open spec fn action_of(message: Received, has_pool: bool) -> WorkerAction {
    match message {
        Received::Update => WorkerAction::Apply { pooled: has_pool },
        Received::Ask(request) => WorkerAction::Answer { request, leaves: consumes(request) },
        _ => WorkerAction::Leave,
    }
}

/// The worker leaves its loop on exactly these messages: a request that
/// consumes the evaluator, a shutdown, and a closed queue. An update never
/// ends it.
pub open spec fn leaves_loop(action: WorkerAction) -> bool {
    match action {
        WorkerAction::Apply { .. } => false,
        WorkerAction::Answer { leaves, .. } => leaves,
        WorkerAction::Leave => true,
    }
}

/// Only a consuming request, a shutdown or a closed queue ends the worker;
/// in particular an update that fails does not.
pub proof fn law_worker_survives_updates(message: Received, has_pool: bool)
    ensures
        leaves_loop(action_of(message, has_pool)) <==> match message {
            Received::Update => false,
            Received::Ask(request) => consumes(request),
            _ => true,
        },
{
}

/// What changes the queue depth.
#[derive(Debug)]
pub enum DepthChange {
    /// A submit counted its update in.
    Counted,
    /// A submit did not send its update, or the worker received one.
    Left,
}

/// The depth after these changes.
pub open spec fn depth_after(n: usize, changes: Seq<DepthChange>) -> usize
    decreases changes.len(),
{
    if changes.len() == 0 {
        n
    } else {
        let before = depth_after(n, changes.drop_last());
        match changes.last() {
            DepthChange::Counted => one_more(before),
            DepthChange::Left => one_less(before),
        }
    }
}

/// How many updates are in: those counted, less those that left.
pub open spec fn updates_in(changes: Seq<DepthChange>) -> int
    decreases changes.len(),
{
    if changes.len() == 0 {
        0
    } else {
        updates_in(changes.drop_last()) + match changes.last() {
            DepthChange::Counted => 1int,
            DepthChange::Left => -1int,
        }
    }
}

/// In every state the queue depth is the number of updates that were counted
/// in and have not left; an update that was counted and not sent leaves the
/// depth as it was.
pub proof fn law_queue_depth_balances(changes: Seq<DepthChange>)
    requires
        forall|k: int|
            0 <= k <= changes.len() ==> 0 <= #[trigger] updates_in(changes.take(k)) <= usize::MAX,
    ensures
        depth_after(0, changes) == updates_in(changes),
    decreases changes.len(),
{
    assert(changes.take(changes.len() as int) =~= changes);
    if changes.len() > 0 {
        let before = changes.drop_last();
        assert forall|k: int| 0 <= k <= before.len() implies 0 <= #[trigger] updates_in(
            before.take(k),
        ) <= usize::MAX by {
            assert(before.take(k) =~= changes.take(k));
        }
        law_queue_depth_balances(before);
        assert(before =~= changes.take(changes.len() - 1));
    }
}

// ---------------------------------------------------------------------------
// Sending with a bounded wait
// ---------------------------------------------------------------------------

/// The queue stayed full for the time that the caller gave.
#[derive(Clone, Copy, Debug, PartialEq, Eq, Structural)]
pub struct QueueFull {
    pub queue_capacity: usize,
    pub timeout_ns: u128,
}

/// What came of one attempt to send.
#[derive(Clone, Copy, Debug, PartialEq, Eq, Structural)]
pub enum SendAttempt {
    Sent,
    Full,
    Disconnected,
}

/// What the sender does next.
#[derive(Clone, Copy, Debug, PartialEq, Eq, Structural)]
pub enum SendStep {
    Done,
    /// Give up: the queue is full.
    GiveUp(QueueFull),
    /// Give up: the worker is gone.
    WorkerGone,
    /// Sleep this long and try again.
    Sleep(u128),
}

/// When the wait ends: never, where the sum is beyond the clock.
pub fn send_deadline(now_ns: u128, timeout_ns: u128) -> (d: Option<u128>)
    ensures
        d == (if now_ns + timeout_ns <= u128::MAX {
            Some((now_ns + timeout_ns) as u128)
        } else {
            None::<u128>
        }),
{
    now_ns.checked_add(timeout_ns)
}

/// The step that follows an attempt.
pub open spec fn send_step(
    attempt: SendAttempt,
    config: BackgroundConfig,
    timeout_ns: u128,
    deadline: Option<u128>,
    now_ns: u128,
) -> SendStep {
    let full = QueueFull { queue_capacity: config.queue_capacity, timeout_ns };
    match attempt {
        SendAttempt::Sent => SendStep::Done,
        SendAttempt::Disconnected => SendStep::WorkerGone,
        SendAttempt::Full => if timeout_ns == 0 {
            SendStep::GiveUp(full)
        } else {
            match deadline {
                None => SendStep::Sleep(POLL_INTERVAL_NS),
                Some(d) => if now_ns >= d {
                    SendStep::GiveUp(full)
                } else if d - now_ns < POLL_INTERVAL_NS {
                    SendStep::Sleep((d - now_ns) as u128)
                } else {
                    SendStep::Sleep(POLL_INTERVAL_NS)
                },
            }
        },
    }
}

/// Decide what follows an attempt to send.
pub fn next_send_step(
    attempt: SendAttempt,
    config: &BackgroundConfig,
    timeout_ns: u128,
    deadline: Option<u128>,
    now_ns: u128,
) -> (s: SendStep)
    ensures
        s == send_step(attempt, *config, timeout_ns, deadline, now_ns),
{
    match attempt {
        SendAttempt::Sent => SendStep::Done,
        SendAttempt::Disconnected => SendStep::WorkerGone,
        SendAttempt::Full => {
            let full = QueueFull { queue_capacity: config.queue_capacity, timeout_ns };
            if timeout_ns == 0 {
                return SendStep::GiveUp(full);
            }
            match deadline {
                None => SendStep::Sleep(POLL_INTERVAL_NS),
                Some(d) => {
                    if now_ns >= d {
                        return SendStep::GiveUp(full);
                    }
                    let remaining: u128 = d - now_ns;
                    if remaining < POLL_INTERVAL_NS {
                        SendStep::Sleep(remaining)
                    } else {
                        SendStep::Sleep(POLL_INTERVAL_NS)
                    }
                },
            }
        },
    }
}

/// A bounded submit tries once where the timeout is zero; it sleeps at most
/// a poll interval, always for some time, and never past its deadline; and
/// at the deadline it gives up.
pub proof fn law_bounded_submit(
    config: BackgroundConfig,
    timeout_ns: u128,
    deadline: Option<u128>,
    now_ns: u128,
)
    ensures
        ({
            let step = send_step(SendAttempt::Full, config, timeout_ns, deadline, now_ns);
            &&& timeout_ns == 0 ==> step is GiveUp
            &&& (deadline is Some && now_ns >= deadline->0) ==> step is GiveUp
            &&& step is Sleep ==> {
                &&& 0 < step->Sleep_0 <= POLL_INTERVAL_NS
                &&& deadline is Some ==> now_ns + step->Sleep_0 <= deadline->0
            }
            &&& step is GiveUp ==> step->GiveUp_0.queue_capacity == config.queue_capacity
                && step->GiveUp_0.timeout_ns == timeout_ns
        }),
{
}

// ---------------------------------------------------------------------------
// Finalizing
// ---------------------------------------------------------------------------

/// What came of joining the worker.
#[derive(Debug)]
pub enum JoinOutcome<E> {
    /// There was no worker to join.
    NoWorker,
    /// It left without an error.
    Clean,
    /// It left with an error.
    Failed(E),
    /// It panicked, with this payload.
    Panicked(String),
}

/// The text for a submit to a worker that is gone.
pub const GONE_FOR_SUBMIT: &'static str = "background worker is no longer accepting submissions";

/// The text for a finalize request to a worker that is gone.
pub const GONE_FOR_FINALIZE: &'static str = "background worker is no longer accepting finalize requests";

/// The text for a request that was taken and not answered.
pub const REPLY_DROPPED: &'static str = "background worker dropped finalize reply channel";

/// The error of a submit to a worker that is gone.
pub fn submit_disconnected<E>() -> (e: BackgroundError<E>)
    ensures
        e matches BackgroundError::Invalid(detail) && detail@ == GONE_FOR_SUBMIT@,
{
    BackgroundError::Invalid(String::from_str(GONE_FOR_SUBMIT))
}

/// The error of a finalize request to a worker that is gone.
pub fn finalize_disconnected<E>() -> (e: BackgroundError<E>)
    ensures
        e matches BackgroundError::Invalid(detail) && detail@ == GONE_FOR_FINALIZE@,
{
    BackgroundError::Invalid(String::from_str(GONE_FOR_FINALIZE))
}

/// The result of a consuming request: the worker's reply, unless the worker
/// ended badly, which is told instead.
pub fn dispatch_finalize<R, E>(reply: Option<Result<R, E>>, join: JoinOutcome<E>) -> (r: Result<
    R,
    BackgroundError<E>,
>)
    ensures
        match join {
            JoinOutcome::Failed(e) => r == Err::<R, BackgroundError<E>>(BackgroundError::Eval(e)),
            JoinOutcome::Panicked(payload) => r matches Err(BackgroundError::Invalid(detail))
                && detail@ == "background worker panicked: "@ + payload@,
            _ => match reply {
                Some(Ok(v)) => r == Ok::<R, BackgroundError<E>>(v),
                Some(Err(e)) => r == Err::<R, BackgroundError<E>>(BackgroundError::Eval(e)),
                None => r matches Err(BackgroundError::Invalid(detail)) && detail@
                    == REPLY_DROPPED@,
            },
        },
{
    match join {
        JoinOutcome::Failed(e) => Err(BackgroundError::Eval(e)),
        JoinOutcome::Panicked(payload) => {
            let mut detail = String::from_str("background worker panicked: ");
            detail.append(payload.as_str());
            Err(BackgroundError::Invalid(detail))
        },
        _ => match reply {
            Some(Ok(v)) => Ok(v),
            Some(Err(e)) => Err(BackgroundError::Eval(e)),
            None => Err(BackgroundError::Invalid(String::from_str(REPLY_DROPPED))),
        },
    }
}

/// When a shutdown stops waiting, at the end of the clock at the latest.
pub open spec fn shutdown_end(now_ns: u128, timeout_ns: u128) -> u128 {
    if now_ns + timeout_ns <= u128::MAX {
        (now_ns + timeout_ns) as u128
    } else {
        u128::MAX
    }
}

/// When a shutdown stops waiting.
pub fn shutdown_deadline(now_ns: u128, timeout_ns: u128) -> (d: u128)
    ensures
        d == shutdown_end(now_ns, timeout_ns),
{
    match now_ns.checked_add(timeout_ns) {
        Some(d) => d,
        None => u128::MAX,
    }
}

/// What a shutdown does after an attempt to tell the worker to leave.
#[derive(Clone, Copy, Debug, PartialEq, Eq, Structural)]
pub enum ShutdownSend {
    /// Wait for the worker: it has been told, or it has left.
    Wait,
    /// Let the worker go: it will leave once it has emptied the queue.
    Abandon,
    /// Sleep this long and try again.
    Sleep(u128),
}

/// The step that follows an attempt to tell the worker to leave. While the
/// queue is full the attempt is made again, up to the deadline.
pub open spec fn shutdown_send(attempt: SendAttempt, now_ns: u128, deadline_ns: u128) -> ShutdownSend {
    match attempt {
        SendAttempt::Sent | SendAttempt::Disconnected => ShutdownSend::Wait,
        SendAttempt::Full => if now_ns >= deadline_ns {
            ShutdownSend::Abandon
        } else if deadline_ns - now_ns < POLL_INTERVAL_NS {
            ShutdownSend::Sleep((deadline_ns - now_ns) as u128)
        } else {
            ShutdownSend::Sleep(POLL_INTERVAL_NS)
        },
    }
}

/// Decide what follows an attempt to tell the worker to leave.
pub fn shutdown_send_step(attempt: SendAttempt, now_ns: u128, deadline_ns: u128) -> (s:
    ShutdownSend)
    ensures
        s == shutdown_send(attempt, now_ns, deadline_ns),
{
    match attempt {
        SendAttempt::Sent | SendAttempt::Disconnected => ShutdownSend::Wait,
        SendAttempt::Full => {
            if now_ns >= deadline_ns {
                return ShutdownSend::Abandon;
            }
            let remaining: u128 = deadline_ns - now_ns;
            if remaining < POLL_INTERVAL_NS {
                ShutdownSend::Sleep(remaining)
            } else {
                ShutdownSend::Sleep(POLL_INTERVAL_NS)
            }
        },
    }
}

/// What a shutdown does next.
#[derive(Clone, Copy, Debug, PartialEq, Eq, Structural)]
pub enum ShutdownStep {
    /// Join the worker: it has finished.
    Join,
    /// Let the worker go: it will leave at its next look at the queue.
    Abandon,
    /// Sleep this long and look again.
    Sleep(u128),
}

/// The step of a shutdown that waits for the worker. A worker that has
/// finished is joined even at the deadline.
pub open spec fn shutdown_wait(finished: bool, now_ns: u128, deadline_ns: u128) -> ShutdownStep {
    if finished {
        ShutdownStep::Join
    } else if now_ns >= deadline_ns {
        ShutdownStep::Abandon
    } else {
        ShutdownStep::Sleep(SHUTDOWN_POLL_NS)
    }
}

/// Decide what a shutdown that waits for the worker does next.
pub fn shutdown_step(finished: bool, now_ns: u128, deadline_ns: u128) -> (s: ShutdownStep)
    ensures
        s == shutdown_wait(finished, now_ns, deadline_ns),
{
    if finished {
        ShutdownStep::Join
    } else if now_ns >= deadline_ns {
        ShutdownStep::Abandon
    } else {
        ShutdownStep::Sleep(SHUTDOWN_POLL_NS)
    }
}

/// What a shutdown sees at one moment: what came of telling the worker to
/// leave, or whether the worker has finished.
pub enum ShutdownLook {
    Telling(SendAttempt),
    Waiting(bool),
}

/// How long a shutdown sleeps at a look before it looks again, and none where
/// the look is the last. One that has told the worker looks at it at once.
pub open spec fn shutdown_pause(look: ShutdownLook, now_ns: u128, deadline_ns: u128) -> Option<u128> {
    match look {
        ShutdownLook::Telling(attempt) => match shutdown_send(attempt, now_ns, deadline_ns) {
            ShutdownSend::Wait => Some(0),
            ShutdownSend::Abandon => None,
            ShutdownSend::Sleep(ns) => Some(ns),
        },
        ShutdownLook::Waiting(finished) => match shutdown_wait(finished, now_ns, deadline_ns) {
            ShutdownStep::Sleep(ns) => Some(ns),
            _ => None,
        },
    }
}

/// The looks of a shutdown in order, each with its time: the next one comes
/// when the pause after the one before is over.
pub open spec fn shutdown_run(looks: Seq<(ShutdownLook, u128)>, deadline_ns: u128) -> bool {
    forall|i: int|
        0 <= i < looks.len() - 1 ==> (shutdown_pause(
            (#[trigger] looks[i]).0,
            looks[i].1,
            deadline_ns,
        ) matches Some(ns) && looks[i + 1].1 == looks[i].1 + ns)
}

/// However busy the worker is and however full the queue, a shutdown is over
/// within its timeout and one poll: telling the worker never waits past the
/// deadline, and waiting for it ends less than a poll past it.
pub proof fn law_shutdown_is_bounded(looks: Seq<(ShutdownLook, u128)>, timeout_ns: u128)
    requires
        looks.len() > 0,
        shutdown_run(looks, shutdown_end(looks[0].1, timeout_ns)),
    ensures
        forall|i: int|
            0 <= i < looks.len() ==> (#[trigger] looks[i]).1 < looks[0].1 + timeout_ns
                + SHUTDOWN_POLL_NS,
        forall|i: int|
            0 <= i < looks.len() - 1 && (#[trigger] looks[i]).0 is Telling && looks[i].1
                <= shutdown_end(looks[0].1, timeout_ns) ==> looks[i + 1].1 <= shutdown_end(
                looks[0].1,
                timeout_ns,
            ),
    decreases looks.len(),
{
    let deadline_ns = shutdown_end(looks[0].1, timeout_ns);
    if looks.len() > 1 {
        let before = looks.drop_last();
        assert forall|i: int| 0 <= i < before.len() - 1 implies (shutdown_pause(
            (#[trigger] before[i]).0,
            before[i].1,
            deadline_ns,
        ) matches Some(ns) && before[i + 1].1 == before[i].1 + ns) by {
            assert(looks[i] == before[i]);
        }
        law_shutdown_is_bounded(before, timeout_ns);
        let last = looks.len() - 1;
        assert(looks[last - 1] == before[last - 1]);
        assert forall|i: int| 0 <= i < looks.len() implies (#[trigger] looks[i]).1 < looks[0].1
            + timeout_ns + SHUTDOWN_POLL_NS by {
            if i < last {
                assert(before[i] == looks[i]);
            }
        }
        assert forall|i: int|
            0 <= i < looks.len() - 1 && (#[trigger] looks[i]).0 is Telling && looks[i].1
                <= deadline_ns implies looks[i + 1].1 <= deadline_ns by {
            assert(shutdown_pause(looks[i].0, looks[i].1, deadline_ns) is Some);
        }
    }
}

// ---------------------------------------------------------------------------
// Latency samples
// ---------------------------------------------------------------------------

/// The times that submits took, where a caller opted in to keeping them.
#[derive(Debug)]
pub struct LatencySamples {
    samples: Option<Vec<u64>>,
}

/// A time as a sample: one that does not fit stays as large as can be.
pub open spec fn sample_of(elapsed_ns: u128) -> u64 {
    if elapsed_ns > u64::MAX {
        u64::MAX
    } else {
        elapsed_ns as u64
    }
}

/// Times as samples.
pub open spec fn samples_of(times: Seq<u128>) -> Seq<u64> {
    times.map_values(|ns: u128| sample_of(ns))
}

/// A store that was given a time, where both are there.
pub open spec fn recorded(store: Option<Seq<u64>>, elapsed_ns: Option<u128>) -> Option<Seq<u64>> {
    match (store, elapsed_ns) {
        (Some(s), Some(ns)) => Some(s.push(sample_of(ns))),
        _ => store,
    }
}

/// The samples of a store, and the store without them.
pub open spec fn drained(store: Option<Seq<u64>>) -> (Seq<u64>, Option<Seq<u64>>) {
    match store {
        None => (Seq::empty(), None),
        Some(s) => (s, Some(Seq::empty())),
    }
}

/// A store that was given one time after another.
pub open spec fn all_recorded(store: Option<Seq<u64>>, times: Seq<u128>) -> Option<Seq<u64>>
    decreases times.len(),
{
    if times.len() == 0 {
        store
    } else {
        recorded(all_recorded(store, times.drop_last()), Some(times.last()))
    }
}

/// What is handed out are the times of the submits since the samples were
/// last handed out, one for each and in their order, and none where no
/// samples are kept.
pub proof fn law_samples_are_handed_out_once(store: Option<Seq<u64>>, times: Seq<u128>)
    ensures
        drained(all_recorded(drained(store).1, times)) == (match store {
            None => (Seq::<u64>::empty(), None),
            Some(_) => (samples_of(times), Some(Seq::<u64>::empty())),
        }),
    decreases times.len(),
{
    if times.len() == 0 {
        assert(samples_of(times) =~= Seq::empty());
    } else {
        law_samples_are_handed_out_once(store, times.drop_last());
        assert(samples_of(times) =~= samples_of(times.drop_last()).push(sample_of(times.last())));
    }
}

impl View for LatencySamples {
    type V = Option<Seq<u64>>;

    closed spec fn view(&self) -> Option<Seq<u64>> {
        match self.samples {
            None => None,
            Some(v) => Some(v@),
        }
    }
}

impl LatencySamples {
    /// An empty store, or none.
    pub fn new(record: bool) -> (l: LatencySamples)
        ensures
            l@ == (if record {
                Some(Seq::<u64>::empty())
            } else {
                None
            }),
    {
        if record {
            LatencySamples { samples: Some(Vec::new()) }
        } else {
            LatencySamples { samples: None }
        }
    }

    /// Is a clock reading wanted at the start of a submit?
    pub fn wants_start(&self) -> (b: bool)
        ensures
            b == self@ is Some,
    {
        self.samples.is_some()
    }

    /// A submit succeeded: keep its time, where both it and the store are
    /// there.
    pub fn record(&mut self, elapsed_ns: Option<u128>)
        ensures
            final(self)@ == recorded(old(self)@, elapsed_ns),
    {
        let ns: u128 = match elapsed_ns {
            None => return,
            Some(ns) => ns,
        };
        let sample: u64 = if ns > u64::MAX as u128 {
            u64::MAX
        } else {
            ns as u64
        };
        match &mut self.samples {
            None => {},
            Some(v) => v.push(sample),
        }
    }

    /// Hand out the samples and start afresh. Without a store there are
    /// none.
    pub fn drain(&mut self) -> (v: Vec<u64>)
        ensures
            (v@, final(self)@) == drained(old(self)@),
    {
        match self.samples.take() {
            None => Vec::new(),
            Some(v) => {
                self.samples = Some(Vec::new());
                v
            },
        }
    }
}

// ---------------------------------------------------------------------------
// The lifecycle of a wrapper
// ---------------------------------------------------------------------------

/// A wrapper around an evaluator that a consuming request empties for good.
#[derive(Debug)]
pub struct BackgroundLifecycle<C> {
    core: Option<C>,
}

impl<C> View for BackgroundLifecycle<C> {
    type V = Option<C>;

    closed spec fn view(&self) -> Option<C> {
        self.core
    }
}

impl<C> BackgroundLifecycle<C> {
    /// A wrapper that is active.
    pub fn new(core: C) -> (l: BackgroundLifecycle<C>)
        ensures
            l@ == Some(core),
    {
        BackgroundLifecycle { core: Some(core) }
    }

    /// The evaluator, unless it has been consumed.
    pub fn active(&self) -> (c: Option<&C>)
        ensures
            match c {
                Some(core) => self@ == Some(*core),
                None => self@ is None,
            },
    {
        self.core.as_ref()
    }

    /// Take the evaluator out for a consuming request: afterwards there is
    /// none.
    pub fn take(&mut self) -> (c: Option<C>)
        ensures
            c == old(self)@,
            final(self)@ is None,
    {
        self.core.take()
    }
}

// ---------------------------------------------------------------------------
// What the steps do
// ---------------------------------------------------------------------------

/// One update in and one out leaves the count as it was, and the count goes
/// up by one as long as it can.
pub proof fn law_in_and_out_is_nothing(n: usize)
    ensures
        one_less(one_more(n)) == n,
        one_more(one_less(n)) == n,
        n < usize::MAX ==> one_more(n) == n + 1,
        n > 0 ==> one_less(n) == n - 1,
{
}

/// A submit is refused exactly where an error is unseen, which is then seen;
/// else it is counted in. The counters and the scheduling stay either way.
pub proof fn law_submits_are_counted_in<E>(s: BackgroundState<E>)
    ensures
        submit_begun(s).0 is Err <==> s.last_error is Some,
        submit_begun(s).0 matches Err(e) ==> s.last_error == Some(e) && submit_begun(
            s,
        ).1.queue_depth == s.queue_depth,
        submit_begun(s).0 is Ok && s.queue_depth < usize::MAX ==> submit_begun(s).1.queue_depth
            == s.queue_depth + 1,
        submit_begun(s).1.last_error is None,
        submit_begun(s).1.counters == s.counters,
        submit_begun(s).1.scheduling_outcome == s.scheduling_outcome,
{
}

/// An update that was applied shows in the counters, each in its own place,
/// and one that failed in the unseen error; nothing else changes.
pub proof fn law_updates_are_mirrored<E>(s: BackgroundState<E>, counters: Counters, e: E)
    ensures
        update_finished(s, Ok(counters)).counters.images_seen == counters.images_seen,
        update_finished(s, Ok(counters)).counters.detections_seen == counters.detections_seen,
        update_finished(s, Ok(counters)).counters.memory_used_bytes == counters.memory_used_bytes,
        update_finished(s, Ok(counters)).last_error == s.last_error,
        update_finished(s, Err(e)).counters == s.counters,
        update_finished(s, Err(e)).last_error == Some(e),
        update_finished(s, Ok(counters)).queue_depth == s.queue_depth,
        update_finished(s, Err(e)).queue_depth == s.queue_depth,
        update_finished(s, Ok(counters)).scheduling_outcome == s.scheduling_outcome,
        update_finished(s, Err(e)).scheduling_outcome == s.scheduling_outcome,
{
}

/// The scheduling outcome that is read is the one that was noted, and nothing
/// else changes.
pub proof fn law_outcome_is_the_one_noted<E>(s: BackgroundState<E>)
    ensures
        outcome_taken(s).0 == s.scheduling_outcome,
        outcome_taken(s).1.scheduling_outcome is None,
        outcome_taken(s).1.counters == s.counters,
        outcome_taken(s).1.queue_depth == s.queue_depth,
        outcome_taken(s).1.last_error == s.last_error,
{
}

/// A batch is applied, in the pool exactly where there is one; a request is
/// answered as itself; and everything else ends the worker.
pub proof fn law_messages_are_acted_on(message: Received, has_pool: bool)
    ensures
        match action_of(message, has_pool) {
            WorkerAction::Apply { pooled } => message is Update && pooled == has_pool,
            WorkerAction::Answer { request, .. } => message == Received::Ask(request),
            WorkerAction::Leave => message is Shutdown || message is Closed,
        },
{
}

/// A snapshot leaves the evaluator in place, and every final result consumes
/// it.
pub proof fn law_snapshots_leave_the_evaluator(request: Request)
    ensures
        consumes(request) <==> (request is Finalize || request is FinalizeWithTables
            || request is FinalizeWithCells || request is FinalizeToPartial),
        !consumes(request) <==> (request is Snapshot || request is SnapshotToPartial),
{
}

/// What follows an attempt to send goes by what came of it; a full queue is
/// tried again after a millisecond, or at the deadline where that is sooner,
/// and without a deadline for ever.
pub proof fn law_sends_go_by_the_attempt(
    config: BackgroundConfig,
    timeout_ns: u128,
    deadline: Option<u128>,
    now_ns: u128,
)
    ensures
        send_step(SendAttempt::Sent, config, timeout_ns, deadline, now_ns) is Done,
        send_step(SendAttempt::Disconnected, config, timeout_ns, deadline, now_ns) is WorkerGone,
        match send_step(SendAttempt::Full, config, timeout_ns, deadline, now_ns) {
            SendStep::GiveUp(full) => {
                &&& timeout_ns == 0 || (deadline matches Some(d) && now_ns >= d)
                &&& full.queue_capacity == config.queue_capacity
                &&& full.timeout_ns == timeout_ns
            },
            SendStep::Sleep(ns) => {
                &&& timeout_ns > 0
                &&& match deadline {
                    None => ns == 1_000_000,
                    Some(d) => now_ns < d && (ns == 1_000_000 || now_ns + ns == d) && ns <= 1_000_000
                        && now_ns + ns <= d,
                }
            },
            _ => false,
        },
{
}

/// A shutdown ends at its timeout, or at the end of the clock where that
/// comes first.
pub proof fn law_shutdown_ends_at_its_timeout(now_ns: u128, timeout_ns: u128)
    ensures
        now_ns + timeout_ns <= u128::MAX ==> shutdown_end(now_ns, timeout_ns) == now_ns
            + timeout_ns,
        now_ns + timeout_ns > u128::MAX ==> shutdown_end(now_ns, timeout_ns) == u128::MAX,
{
}

/// A worker that was told, or that is gone, is waited for; one that cannot be
/// told is let go at the deadline and not before.
pub proof fn law_shutdown_tells_the_worker(attempt: SendAttempt, now_ns: u128, deadline_ns: u128)
    ensures
        shutdown_send(attempt, now_ns, deadline_ns) is Wait <==> !(attempt is Full),
        shutdown_send(attempt, now_ns, deadline_ns) is Abandon <==> attempt is Full && now_ns
            >= deadline_ns,
        shutdown_send(attempt, now_ns, deadline_ns) matches ShutdownSend::Sleep(ns) ==> ns > 0 && ns
            <= 1_000_000 && now_ns + ns <= deadline_ns && (ns == 1_000_000 || now_ns + ns
            == deadline_ns),
{
}

/// A worker that has finished is joined; one that has not is looked at again
/// every ten milliseconds and let go at the deadline.
pub proof fn law_shutdown_waits_for_the_worker(finished: bool, now_ns: u128, deadline_ns: u128)
    ensures
        shutdown_wait(finished, now_ns, deadline_ns) is Join <==> finished,
        shutdown_wait(finished, now_ns, deadline_ns) is Abandon <==> !finished && now_ns
            >= deadline_ns,
        shutdown_wait(finished, now_ns, deadline_ns) matches ShutdownStep::Sleep(ns) ==> ns
            == 10_000_000,
{
}

/// A time is kept to the nanosecond as far as a sample goes.
pub proof fn law_samples_keep_the_time(elapsed_ns: u128)
    ensures
        elapsed_ns <= u64::MAX ==> sample_of(elapsed_ns) == elapsed_ns,
        elapsed_ns > u64::MAX ==> sample_of(elapsed_ns) == u64::MAX,
{
}

/// A time is added at the end of what is kept, and only where times are kept
/// and one was taken; what is handed out is all that was kept.
pub proof fn law_samples_are_kept_where_wanted(kept: Seq<u64>, elapsed_ns: u128)
    ensures
        recorded(Some(kept), Some(elapsed_ns)) matches Some(s) && s.len() == kept.len() + 1
            && s.last() == sample_of(elapsed_ns) && forall|i: int|
            0 <= i < kept.len() ==> #[trigger] s[i] == kept[i],
        recorded(Some(kept), None) == Some(kept),
        recorded(None, Some(elapsed_ns)) is None,
        drained(Some(kept)).0 == kept,
        drained(Some(kept)).1 matches Some(rest) && rest.len() == 0,
        drained(None).0.len() == 0,
        drained(None).1 is None,
{
}

/// An update counts one in and one out.
pub proof fn law_each_change_counts_one(changes: Seq<DepthChange>, n: usize)
    ensures
        updates_in(changes.push(DepthChange::Counted)) == updates_in(changes) + 1,
        updates_in(changes.push(DepthChange::Left)) == updates_in(changes) - 1,
        updates_in(Seq::empty()) == 0,
        depth_after(n, Seq::empty()) == n,
{
    assert(changes.push(DepthChange::Counted).drop_last() =~= changes);
    assert(changes.push(DepthChange::Left).drop_last() =~= changes);
}

} // verus!
