//! Best-effort scheduling of a worker thread.
//!
//! A worker applies its nice value and, where one was asked for, its core
//! affinity before it takes its first message. Both are advisory: a failure
//! is reported as text and the worker goes on.

use crate::text::{nat_text, usize_text};
use vstd::prelude::*;

verus! {

/// One more than the largest core number that a CPU set holds on Linux.
pub const CORE_LIMIT: usize = 1024;

/// The highest cross-platform priority.
pub const PRIORITY_MAX: u8 = 99;

/// A nice value brought into the range -20 to 19.
pub open spec fn clamped_nice(nice: int) -> int {
    if nice < -20 {
        -20
    } else if nice > 19 {
        19
    } else {
        nice
    }
}

/// The priority of a nice value: the line through (-20, 99) and (19, 0),
/// which falls by 99/39 a step, to the nearest integer. It never meets a
/// half-integer.
pub open spec fn priority_of(nice: int) -> int {
    (2 * (99 * (19 - clamped_nice(nice))) + 39) / 78
}

/// The priority handed to the operating system for a nice value.
pub fn priority_value(nice: i32) -> (p: u8)
    ensures
        p == priority_of(nice as int),
        p <= PRIORITY_MAX,
{
    let clamped: i32 = if nice < -20 {
        -20
    } else if nice > 19 {
        19
    } else {
        nice
    };
    let steps: u32 = (19 - clamped) as u32;
    ((2 * (steps * 99) + 39) / 78) as u8
}

/// The ends of the nice range take the ends of the priority range, a
/// priority never rises with the nice value, it stays within 0 to 99, and it
/// is within one half of the exact line.
pub proof fn law_priority_line(a: int, b: int)
    requires
        a <= b,
    ensures
        priority_of(-20) == 99,
        priority_of(19) == 0,
        priority_of(a) >= priority_of(b),
        0 <= priority_of(a) <= 99,
        -39 < 2 * (39 * priority_of(a) - 99 * (19 - clamped_nice(a))) < 39,
{
}

/// The text of a failure, where there is one.
pub open spec fn failure_text(r: Result<(), String>) -> Option<Seq<char>> {
    match r {
        Ok(_) => None,
        Err(e) => Some(e@),
    }
}

/// The answers that a thread may get that asks for the cross-platform
/// priority `value`, over all machines and times: none where the priority is
/// set, and the debug text of an error where it is not.
pub uninterp spec fn priority_answers(value: u8) -> Set<Option<Seq<char>>>;

/// The answers that a thread may get that asks to be pinned to the core
/// numbered `core`, over all machines and times: whether it is pinned.
pub uninterp spec fn affinity_answers(core: usize) -> Set<bool>;

/// `thread_priority::set_current_thread_priority` on the cross-platform
/// priority `value`.
///
/// The outer error is the text of a value that
/// `ThreadPriorityValue::try_from` does not take, and there is none up to 99.
/// The inner result is the operating system's answer, an error as its debug
/// text. The contract claims only that it answers a request for this value:
/// two calls may get different answers, and which one comes is not said.
#[verifier::external_body]
fn set_priority(value: u8) -> (r: Result<Result<(), String>, String>)
    ensures
        value <= PRIORITY_MAX ==> r is Ok,
        r matches Ok(answer) ==> priority_answers(value).contains(failure_text(answer)),
{
    let value =
        thread_priority::ThreadPriorityValue::try_from(value).map_err(|e| format!("{e:?}"))?;
    let priority = thread_priority::ThreadPriority::Crossplatform(value);
    Ok(thread_priority::set_current_thread_priority(priority).map_err(|e| format!("{e:?}")))
}

/// `core_affinity::set_for_current` on the core numbered `core`.
///
/// The answer is the operating system's. The contract claims only that it
/// answers a request for this core: two calls may get different answers, and
/// which one comes is not said. The bound is that of Linux, where a number
/// past the CPU set makes the call panic. On Windows the call shifts a word of
/// 64 bits by the number, which a build with overflow checks allows below 64
/// only.
#[verifier::external_body]
fn set_affinity(core: usize) -> (done: bool)
    requires
        core < CORE_LIMIT,
    ensures
        affinity_answers(core).contains(done),
{
    core_affinity::set_for_current(core_affinity::CoreId { id: core })
}

/// The text of a priority that the operating system refused.
pub open spec fn nice_refusal(reason: Seq<char>) -> Seq<char> {
    "set_current_thread_priority: "@ + reason
}

/// The text of a core that the operating system refused.
pub open spec fn affinity_refusal(core: nat) -> Seq<char> {
    "set_for_current("@ + nat_text(core) + ") returned false"@
}

/// The failure that a priority call reports, given the operating system's
/// answer.
pub open spec fn nice_report(answer: Option<Seq<char>>) -> Option<Seq<char>> {
    match answer {
        None => None,
        Some(reason) => Some(nice_refusal(reason)),
    }
}

/// The failure that an affinity call reports, given the operating system's
/// answer.
pub open spec fn affinity_report(core: nat, done: bool) -> Option<Seq<char>> {
    if done {
        None
    } else {
        Some(affinity_refusal(core))
    }
}

/// A request for this nice value may be answered so.
pub open spec fn nice_answered(nice: int, answer: Option<Seq<char>>) -> bool {
    priority_answers(priority_of(nice) as u8).contains(answer)
}

/// A request to be pinned to this core may be answered so.
pub open spec fn affinity_answered(core: usize, done: bool) -> bool {
    affinity_answers(core).contains(done)
}

/// The failure that the two calls together report, given the answer to the
/// first and the answer to the second, which counts only where the first
/// call succeeded and a core was asked for.
pub open spec fn scheduling_report(
    answer: Option<Seq<char>>,
    affinity: Option<usize>,
    done: bool,
) -> Option<Seq<char>> {
    match (nice_report(answer), affinity) {
        (Some(reason), _) => Some("nice: "@ + reason),
        (None, None) => None,
        (None, Some(core)) => match affinity_report(core as nat, done) {
            Some(reason) => Some("affinity: "@ + reason),
            None => None,
        },
    }
}

/// What a priority call reports, given the operating system's answer.
pub fn nice_outcome(answer: Result<(), String>) -> (r: Result<(), String>)
    ensures
        answer is Ok ==> r is Ok,
        answer matches Err(reason) ==> (r matches Err(e) && e@ == nice_refusal(reason@)),
{
    match answer {
        Ok(()) => Ok(()),
        Err(reason) => {
            let mut e = String::from_str("set_current_thread_priority: ");
            e.append(reason.as_str());
            Err(e)
        },
    }
}

/// What an affinity call reports, given the operating system's answer.
pub fn affinity_outcome(core: usize, done: bool) -> (r: Result<(), String>)
    ensures
        done ==> r is Ok,
        !done ==> (r matches Err(e) && e@ == affinity_refusal(core as nat)),
{
    if done {
        Ok(())
    } else {
        let mut e = String::from_str("set_for_current(");
        e.append(usize_text(core).as_str());
        e.append(") returned false");
        Err(e)
    }
}

/// What the two calls together report: the first failure, under the name of
/// the call that failed. The affinity is absent where none was asked for or
/// none was tried.
pub fn scheduling_outcome(nice: Result<(), String>, affinity: Option<Result<(), String>>) -> (r:
    Result<(), String>)
    ensures
        nice matches Err(reason) ==> (r matches Err(e) && e@ == "nice: "@ + reason@),
        nice is Ok ==> match affinity {
            Some(Err(reason)) => r matches Err(e) && e@ == "affinity: "@ + reason@,
            _ => r is Ok,
        },
{
    match nice {
        Err(reason) => {
            let mut e = String::from_str("nice: ");
            e.append(reason.as_str());
            Err(e)
        },
        Ok(()) => match affinity {
            Some(Err(reason)) => {
                let mut e = String::from_str("affinity: ");
                e.append(reason.as_str());
                Err(e)
            },
            _ => Ok(()),
        },
    }
}

/// Set the priority of the current thread from a nice value: the operating
/// system is asked for the priority of that value, and its answer reported.
pub fn set_thread_nice(nice: i32) -> (r: Result<(), String>)
    ensures
        exists|answer: Option<Seq<char>>|
            #[trigger] nice_answered(nice as int, answer) && failure_text(r) == nice_report(answer),
{
    match set_priority(priority_value(nice)) {
        Ok(answer) => {
            let ghost given = failure_text(answer);
            let r = nice_outcome(answer);
            assert(nice_answered(nice as int, given));
            assert(failure_text(r) == nice_report(given));
            r
        },
        Err(e) => Err(e),
    }
}

/// Pin the current thread to one core: the operating system is asked for
/// that core, and its answer reported.
pub fn set_thread_affinity(core: usize) -> (r: Result<(), String>)
    requires
        core < CORE_LIMIT,
    ensures
        exists|done: bool|
            #[trigger] affinity_answered(core, done) && failure_text(r) == affinity_report(
                core as nat,
                done,
            ),
{
    let done: bool = set_affinity(core);
    assert(affinity_answered(core, done));
    affinity_outcome(core, done)
}

/// The core to ask for next, given what came of the nice value: none where
/// that failed.
pub fn pin_after(nice: &Result<(), String>, affinity: Option<usize>) -> (core: Option<usize>)
    ensures
        core == (if nice is Err {
            None
        } else {
            affinity
        }),
{
    if nice.is_err() {
        None
    } else {
        affinity
    }
}

/// Apply the nice value and then, where one is asked for, the affinity. The
/// affinity is not tried where the nice value failed.
pub fn apply_scheduling(nice: i32, affinity: Option<usize>) -> (r: Result<(), String>)
    requires
        affinity matches Some(core) ==> core < CORE_LIMIT,
    ensures
        exists|answer: Option<Seq<char>>, done: bool|
            {
                &&& nice_answered(nice as int, answer)
                &&& affinity matches Some(core) ==> answer is None ==> affinity_answered(core, done)
                &&& failure_text(r) == #[trigger] scheduling_report(answer, affinity, done)
            },
{
    let first = set_thread_nice(nice);
    let ghost answer = choose|answer: Option<Seq<char>>|
        #[trigger] nice_answered(nice as int, answer) && failure_text(first) == nice_report(answer);
    match pin_after(&first, affinity) {
        None => {
            let r = scheduling_outcome(first, None);
            assert(failure_text(r) == scheduling_report(answer, affinity, false));
            r
        },
        Some(core) => {
            let second = set_thread_affinity(core);
            let ghost done = choose|done: bool|
                #[trigger] affinity_answered(core, done) && failure_text(second)
                    == affinity_report(core as nat, done);
            let r = scheduling_outcome(first, Some(second));
            assert(failure_text(r) == scheduling_report(answer, affinity, done));
            r
        },
    }
}

/// A nice value within the range stays, and one outside takes the nearer end.
pub proof fn law_nice_values_are_clamped(nice: int)
    ensures
        -20 <= nice <= 19 ==> clamped_nice(nice) == nice,
        nice < -20 ==> clamped_nice(nice) == -20,
        nice > 19 ==> clamped_nice(nice) == 19,
{
}

/// The first failure is told under the name of its own call; nothing is told
/// where both calls succeed, and a core that was not asked for never fails.
pub proof fn law_first_failure_is_told(reason: Seq<char>, core: usize, done: bool)
    ensures
        scheduling_report(Some(reason), None, done) == Some(
            "nice: "@ + ("set_current_thread_priority: "@ + reason),
        ),
        scheduling_report(Some(reason), Some(core), done) == Some(
            "nice: "@ + ("set_current_thread_priority: "@ + reason),
        ),
        scheduling_report(None, None, done) is None,
        scheduling_report(None, Some(core), true) is None,
        scheduling_report(None, Some(core), false) == Some(
            "affinity: "@ + ("set_for_current("@ + nat_text(core as nat) + ") returned false"@),
        ),
{
}

/// A call that was answered well reports nothing, and one that was not the
/// reason.
pub proof fn law_answers_are_reported(r: Result<(), String>, core: nat, done: bool)
    ensures
        failure_text(r) is None <==> r is Ok,
        r matches Err(e) ==> failure_text(r) == Some(e@),
        nice_report(failure_text(r)) is None <==> r is Ok,
        affinity_report(core, done) is None <==> done,
{
}

/// A worker asks for the priority of its own nice value and for its own core.
pub proof fn law_requests_are_for_what_is_asked(nice: int, answer: Option<Seq<char>>, core: usize, done:
    bool)
    requires
        -20 <= nice <= 19,
    ensures
        nice_answered(nice, answer) <==> priority_answers(priority_of(nice) as u8).contains(answer),
        affinity_answered(core, done) <==> affinity_answers(core).contains(done),
        -39 < 2 * (39 * priority_of(nice) - 99 * (19 - nice)) < 39,
{
    law_priority_line(nice, nice);
}

} // verus!
