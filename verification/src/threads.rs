//! How many threads a call works with.
//!
//! The number comes from the call's own argument, else from the
//! `VERNIER_NUM_THREADS` variable, else the call works alone. Zero asks for
//! as many as the machine offers. A number that cannot be read counts as
//! none: threads are a matter of speed and never a reason to fail. Inside a
//! worker of a rayon pool a call always works alone.

use crate::background::{pool_refusal, pool_refusal_text};
use crate::model::opt_text;
use crate::text::{digit_char, nat_text, usize_text};
use crate::thread_sched::set_thread_nice;
use vstd::prelude::*;

verus! {

/// The variable that gives the number where the argument does not.
pub const ENV_VAR_NAME: &'static str = "VERNIER_NUM_THREADS";

/// How a call works: alone, or with a pool of at least two threads.
#[derive(Clone, Copy, Debug, PartialEq, Eq, Structural)]
pub enum ThreadPolicy {
    Sequential,
    Pool(usize),
}

impl ThreadPolicy {
    /// The number of threads of the pool.
    pub fn thread_count(self) -> (n: Option<usize>)
        ensures
            n == (match self {
                ThreadPolicy::Sequential => None,
                ThreadPolicy::Pool(n) => Some(n),
            }),
    {
        match self {
            ThreadPolicy::Sequential => None,
            ThreadPolicy::Pool(n) => Some(n),
        }
    }
}

// ---------------------------------------------------------------------------
// Reading a number
// ---------------------------------------------------------------------------

/// A character with the Unicode property White_Space.
pub open spec fn is_space(c: char) -> bool {
    let v = c as int;
    9 <= v <= 13 || v == 0x20 || v == 0x85 || v == 0xA0 || v == 0x1680 || 0x2000 <= v <= 0x200A
        || v == 0x2028 || v == 0x2029 || v == 0x202F || v == 0x205F || v == 0x3000
}

/// Without the spaces at its start.
pub open spec fn trim_start(s: Seq<char>) -> Seq<char>
    decreases s.len(),
{
    if s.len() > 0 && is_space(s[0]) {
        trim_start(s.skip(1))
    } else {
        s
    }
}

/// Without the spaces at its end.
pub open spec fn trim_end(s: Seq<char>) -> Seq<char>
    decreases s.len(),
{
    if s.len() > 0 && is_space(s.last()) {
        trim_end(s.drop_last())
    } else {
        s
    }
}

/// A decimal digit.
pub open spec fn is_digit(c: char) -> bool {
    '0' as int <= c as int <= '9' as int
}

/// The number that a row of decimal digits writes.
pub open spec fn digits_value(s: Seq<char>) -> nat
    decreases s.len(),
{
    if s.len() == 0 {
        0
    } else {
        digits_value(s.drop_last()) * 10 + (s.last() as int - '0' as int) as nat
    }
}

/// A text without the plus sign that it may start with.
pub open spec fn unsigned_part(s: Seq<char>) -> Seq<char> {
    if s.len() > 0 && s[0] == '+' {
        s.skip(1)
    } else {
        s
    }
}

/// The number that a text writes: digits, at least one, after an optional
/// plus sign, and no more than a `usize` holds.
pub open spec fn parsed_usize(s: Seq<char>) -> Option<usize> {
    let digits = unsigned_part(s);
    if digits.len() > 0 && (forall|i: int| 0 <= i < digits.len() ==> is_digit(#[trigger] digits[i]))
        && digits_value(digits) <= usize::MAX {
        Some(digits_value(digits) as usize)
    } else {
        None
    }
}

/// Is this a space?
fn space(c: char) -> (b: bool)
    ensures
        b == is_space(c),
{
    let v: u32 = c as u32;
    (9 <= v && v <= 13) || v == 0x20 || v == 0x85 || v == 0xA0 || v == 0x1680 || (0x2000 <= v && v
        <= 0x200A) || v == 0x2028 || v == 0x2029 || v == 0x202F || v == 0x205F || v == 0x3000
}

/// Dropping leading spaces one by one or at once is the same.
proof fn lemma_trim_start(s: Seq<char>, lo: int)
    requires
        0 <= lo <= s.len(),
        forall|i: int| 0 <= i < lo ==> is_space(#[trigger] s[i]),
        lo < s.len() ==> !is_space(s[lo]),
    ensures
        trim_start(s) == s.skip(lo),
    decreases lo,
{
    if lo == 0 {
        assert(s.skip(0) =~= s);
    } else {
        let rest = s.skip(1);
        assert forall|i: int| 0 <= i < lo - 1 implies is_space(#[trigger] rest[i]) by {
            assert(rest[i] == s[i + 1]);
        }
        lemma_trim_start(rest, lo - 1);
        assert(rest.skip(lo - 1) =~= s.skip(lo));
    }
}

/// Dropping trailing spaces one by one or at once is the same.
proof fn lemma_trim_end(s: Seq<char>, hi: int)
    requires
        0 <= hi <= s.len(),
        forall|i: int| hi <= i < s.len() ==> is_space(#[trigger] s[i]),
        hi > 0 ==> !is_space(s[hi - 1]),
    ensures
        trim_end(s) == s.take(hi),
    decreases s.len() - hi,
{
    if hi == s.len() {
        assert(s.take(hi) =~= s);
    } else {
        lemma_trim_end(s.drop_last(), hi);
        assert(s.drop_last().take(hi) =~= s.take(hi));
    }
}

/// More digits never write a smaller number.
pub(crate) proof fn lemma_digits_grow(s: Seq<char>, k: int)
    requires
        0 <= k <= s.len(),
    ensures
        digits_value(s.take(k)) <= digits_value(s),
    decreases s.len() - k,
{
    if k < s.len() {
        lemma_digits_grow(s, k + 1);
        assert(s.take(k + 1).drop_last() =~= s.take(k));
    } else {
        assert(s.take(k) =~= s);
    }
}

/// The number that the trimmed text writes.
pub fn read_count(text: &str) -> (n: Option<usize>)
    ensures
        n == parsed_usize(trim_end(trim_start(text@))),
{
    let len: usize = text.unicode_len();
    let mut lo: usize = 0;
    while lo < len && space(text.get_char(lo))
        invariant
            lo <= len == text@.len(),
            forall|i: int| 0 <= i < lo ==> is_space(#[trigger] text@[i]),
        decreases len - lo,
    {
        lo += 1;
    }
    let mut hi: usize = len;
    while hi > lo && space(text.get_char(hi - 1))
        invariant
            lo <= hi <= len == text@.len(),
            forall|i: int| hi <= i < len ==> is_space(#[trigger] text@[i]),
        decreases hi,
    {
        hi -= 1;
    }
    let ghost whole = text@.subrange(lo as int, hi as int);
    proof {
        let rest = text@.skip(lo as int);
        lemma_trim_start(text@, lo as int);
        assert forall|i: int| hi - lo <= i < rest.len() implies is_space(#[trigger] rest[i]) by {
            assert(rest[i] == text@[i + lo]);
        }
        lemma_trim_end(rest, hi - lo);
        assert(rest.take(hi - lo) =~= whole);
    }
    let start: usize = if lo < hi && text.get_char(lo) == '+' {
        lo + 1
    } else {
        lo
    };
    let ghost digits = unsigned_part(whole);
    assert(digits =~= text@.subrange(start as int, hi as int));
    if start == hi {
        return None;
    }
    let mut value: usize = 0;
    let mut i: usize = start;
    assert(digits.take(0) =~= Seq::empty());
    #[verifier::loop_isolation(false)]
    while i < hi
        invariant
            start <= i <= hi <= len == text@.len(),
            digits == text@.subrange(start as int, hi as int),
            forall|k: int| 0 <= k < i - start ==> is_digit(#[trigger] digits[k]),
            value == digits_value(digits.take(i - start)),
        decreases hi - i,
    {
        let c: char = text.get_char(i);
        let v: u32 = c as u32;
        assert(digits[i - start] == c);
        if v < 48 || v > 57 {
            assert(!is_digit(digits[i - start]));
            return None;
        }
        let ghost next = digits.take(i + 1 - start);
        proof {
            assert(next.drop_last() =~= digits.take(i - start));
            assert(next.last() == c);
            lemma_digits_grow(digits, i + 1 - start);
        }
        match value.checked_mul(10) {
            None => return None,
            Some(tens) => match tens.checked_add((v - 48) as usize) {
                None => return None,
                Some(sum) => {
                    value = sum;
                },
            },
        }
        i += 1;
    }
    assert(digits.take(i - start) =~= digits);
    Some(value)
}

/// The decimal text of a number is made of digits and writes that number.
pub(crate) proof fn lemma_nat_text_value(n: nat)
    ensures
        nat_text(n).len() > 0,
        forall|i: int| 0 <= i < nat_text(n).len() ==> is_digit(#[trigger] nat_text(n)[i]),
        digits_value(nat_text(n)) == n,
    decreases n,
{
    let t = nat_text(n);
    if n < 10 {
        assert(t.drop_last() =~= Seq::empty());
        assert(digits_value(Seq::<char>::empty()) == 0);
        assert(t.last() == digit_char(n));
    } else {
        lemma_nat_text_value(n / 10);
        assert(t.drop_last() =~= nat_text(n / 10));
        assert(t.last() == digit_char(n % 10));
    }
}

/// A number that is written in decimal is read back as that number.
pub proof fn law_count_reads_back(n: usize)
    ensures
        parsed_usize(nat_text(n as nat)) == Some(n),
        trim_end(trim_start(nat_text(n as nat))) == nat_text(n as nat),
{
    let t = nat_text(n as nat);
    lemma_nat_text_value(n as nat);
    assert(is_digit(t[0]));
    assert(is_digit(t.last()));
}

// ---------------------------------------------------------------------------
// Resolving the number
// ---------------------------------------------------------------------------

/// Zero asks for what the machine offers, and for one where it does not say.
pub open spec fn offered(raw: usize, available: Option<usize>) -> usize {
    if raw != 0 {
        raw
    } else {
        match available {
            Some(n) => n,
            None => 1,
        }
    }
}

/// The number of threads and whether the variable gave it.
pub open spec fn resolved_raw(
    arg: Option<usize>,
    env: Option<Seq<char>>,
    available: Option<usize>,
) -> Option<(usize, bool)> {
    match (arg, env) {
        (Some(n), _) => Some((offered(n, available), false)),
        (None, None) => None,
        (None, Some(text)) => match parsed_usize(trim_end(trim_start(text))) {
            None => None,
            Some(n) => Some((offered(n, available), true)),
        },
    }
}

/// Resolve the number from the argument, the variable's text, and what the
/// machine offers.
pub fn resolve_threads_raw(
    arg: Option<usize>,
    env: &Option<String>,
    available: Option<usize>,
) -> (r: Option<(usize, bool)>)
    ensures
        r == resolved_raw(arg, opt_text(*env), available),
{
    let (raw, from_env): (usize, bool) = match arg {
        Some(n) => (n, false),
        None => match env {
            None => return None,
            Some(text) => match read_count(text.as_str()) {
                None => return None,
                Some(n) => (n, true),
            },
        },
    };
    let resolved: usize = if raw == 0 {
        match available {
            Some(n) => n,
            None => 1,
        }
    } else {
        raw
    };
    Some((resolved, from_env))
}

/// The policy for a resolved number: a pool takes at least two threads.
pub open spec fn policy_of(raw: Option<(usize, bool)>) -> ThreadPolicy {
    match raw {
        Some((n, _)) if n >= 2 => ThreadPolicy::Pool(n),
        _ => ThreadPolicy::Sequential,
    }
}

/// Which of the two warnings has been given. Each is given at most once.
#[derive(Clone, Copy, Debug, PartialEq, Eq, Structural)]
pub struct WarnLatches {
    pub reentry: bool,
    pub env: bool,
}

/// The warning that the number is ignored inside a worker.
pub const REENTRY_WARNING: &'static str = "vernier: num_threads ignored — called from inside a rayon worker; \
                 falling back to the sequential path to avoid oversubscription";

/// The warning that the variable gave the number.
pub open spec fn env_warning(n: nat) -> Seq<char> {
    "vernier: num_threads="@ + nat_text(n) + " (from "@ + ENV_VAR_NAME@ + ")"@
}

/// What a call comes to: its policy, the warning that is due with it, and
/// which warnings have then been given.
pub open spec fn threads_outcome(
    given: WarnLatches,
    in_worker: bool,
    raw: Option<(usize, bool)>,
) -> (ThreadPolicy, Option<Seq<char>>, WarnLatches) {
    if in_worker {
        (
            ThreadPolicy::Sequential,
            if given.reentry {
                None
            } else {
                Some(REENTRY_WARNING@)
            },
            WarnLatches { reentry: true, ..given },
        )
    } else {
        match policy_of(raw) {
            ThreadPolicy::Pool(n) if (raw->0).1 => (
                ThreadPolicy::Pool(n),
                if given.env {
                    None
                } else {
                    Some(env_warning(n as nat))
                },
                WarnLatches { env: true, ..given },
            ),
            policy => (policy, None, given),
        }
    }
}

/// Resolve the policy of a call, and the warning that is due with it.
pub fn resolve_threads_given(
    latches: &mut WarnLatches,
    in_worker: bool,
    arg: Option<usize>,
    env: &Option<String>,
    available: Option<usize>,
) -> (r: (ThreadPolicy, Option<String>))
    ensures
        (r.0, opt_text(r.1), *final(latches)) == threads_outcome(
            *old(latches),
            in_worker,
            resolved_raw(arg, opt_text(*env), available),
        ),
        r.0 matches ThreadPolicy::Pool(n) ==> n >= 2,
{
    if in_worker {
        if latches.reentry {
            return (ThreadPolicy::Sequential, None);
        }
        latches.reentry = true;
        return (ThreadPolicy::Sequential, Some(String::from_str(REENTRY_WARNING)));
    }
    match resolve_threads_raw(arg, env, available) {
        None => (ThreadPolicy::Sequential, None),
        Some((n, from_env)) => {
            if n < 2 {
                return (ThreadPolicy::Sequential, None);
            }
            if from_env && !latches.env {
                latches.env = true;
                let mut w = String::from_str("vernier: num_threads=");
                w.append(usize_text(n).as_str());
                w.append(" (from ");
                w.append(ENV_VAR_NAME);
                w.append(")");
                return (ThreadPolicy::Pool(n), Some(w));
            }
            (ThreadPolicy::Pool(n), None)
        },
    }
}

/// `rayon::current_thread_index`: is the current thread a worker of a pool?
///
/// The answer depends on the calling thread: nothing is claimed of it.
#[verifier::external_body]
fn in_rayon_worker() -> (b: bool) {
    rayon::current_thread_index().is_some()
}

/// Resolve the policy of a call on the current thread, and the warning that
/// is due with it.
pub fn resolve_threads(
    latches: &mut WarnLatches,
    arg: Option<usize>,
    env: &Option<String>,
    available: Option<usize>,
) -> (r: (ThreadPolicy, Option<String>))
    ensures
        exists|in_worker: bool|
            (r.0, opt_text(r.1), *final(latches)) == #[trigger] threads_outcome(
                *old(latches),
                in_worker,
                resolved_raw(arg, opt_text(*env), available),
            ),
        r.0 matches ThreadPolicy::Pool(n) ==> n >= 2,
{
    let in_worker: bool = in_rayon_worker();
    resolve_threads_given(latches, in_worker, arg, env, available)
}

/// Each of the two warnings is given at most once: no later call gives one
/// that has been given, whatever calls lie between.
pub proof fn law_each_warning_is_given_once(
    given: WarnLatches,
    in_worker: bool,
    raw: Option<(usize, bool)>,
)
    ensures
        ({
            let (_, warning, then_given) = threads_outcome(given, in_worker, raw);
            &&& given.reentry ==> then_given.reentry
            &&& given.env ==> then_given.env
            &&& in_worker ==> then_given.reentry && (given.reentry ==> warning is None)
            &&& !in_worker && warning is Some ==> !given.env && then_given.env
        }),
{
}

/// The argument wins over the variable; without either, or with a text that
/// is no number, a call works alone; and one thread is the same as none.
pub proof fn law_argument_wins(
    n: usize,
    env: Option<Seq<char>>,
    other: Option<Seq<char>>,
    available: Option<usize>,
)
    ensures
        resolved_raw(Some(n), env, available) == resolved_raw(Some(n), other, available),
        policy_of(resolved_raw(None, None, available)) == ThreadPolicy::Sequential,
        policy_of(resolved_raw(Some(1), env, available)) == ThreadPolicy::Sequential,
        n >= 2 ==> policy_of(resolved_raw(Some(n), env, available)) == ThreadPolicy::Pool(n),
        env is Some && parsed_usize(trim_end(trim_start(env->0))) is None ==> policy_of(
            resolved_raw(None, env, available),
        ) == ThreadPolicy::Sequential,
{
}

// ---------------------------------------------------------------------------
// Pools
// ---------------------------------------------------------------------------

/// A pool of threads.
#[verifier::external_type_specification]
#[verifier::external_body]
pub struct ExThreadPool(rayon::ThreadPool);

/// What a pool is for.
#[derive(Clone, Copy, Debug, PartialEq, Eq, Structural)]
pub enum PoolKind {
    /// One call.
    Scoped,
    /// A background worker with this nice value.
    Background(i32),
}

/// The name of a thread of a pool.
pub fn pool_thread_name(kind: PoolKind, i: usize) -> (s: String)
    ensures
        s@ == (match kind {
            PoolKind::Scoped => "vernier-rayon-"@,
            PoolKind::Background(_) => "vernier-bg-rayon-"@,
        }) + nat_text(i as nat),
{
    let mut s = match kind {
        PoolKind::Scoped => String::from_str("vernier-rayon-"),
        PoolKind::Background(_) => String::from_str("vernier-bg-rayon-"),
    };
    s.append(usize_text(i).as_str());
    s
}

/// Set up a thread of a pool: those of a background worker take its nice
/// value, as far as they can.
fn start_pool_thread(kind: PoolKind) {
    if let PoolKind::Background(nice) = kind {
        let _ = set_thread_nice(nice);
    }
}

/// The number of threads that a pool holds.
pub uninterp spec fn pool_threads(p: rayon::ThreadPool) -> nat;

/// The nice value of the background worker that the threads of a pool were
/// named and set up for, and none for those of one call.
pub uninterp spec fn pool_nice(p: rayon::ThreadPool) -> Option<i32>;

/// The nice value that a kind of pool sets up its threads with.
pub open spec fn kind_nice(kind: PoolKind) -> Option<i32> {
    match kind {
        PoolKind::Scoped => None,
        PoolKind::Background(nice) => Some(nice),
    }
}

/// The most threads that rayon puts into one pool.
pub open spec fn pool_limit() -> nat {
    if usize::BITS == 64 {
        0xffff
    } else {
        0xff
    }
}

/// The number of threads of a pool that `n` are asked for: all of them, up to
/// the limit.
pub open spec fn threads_granted(n: nat) -> nat {
    if n <= pool_limit() {
        n
    } else {
        pool_limit()
    }
}

/// `rayon::ThreadPoolBuilder::build` with `n` threads, each named and set up
/// for the pool's kind.
///
/// A pool that is built holds `n` threads, or `rayon::max_num_threads` where
/// `n` is more: 2^16 - 1 where a word has 64 bits and 2^8 - 1 where it has 32.
/// It keeps what its threads were named and set up for. Whether the threads
/// can be started is up to the machine, and nothing is claimed of it or of the
/// error, which is its display text.
#[verifier::external_body]
fn build_pool(n: usize, kind: PoolKind) -> (r: Result<rayon::ThreadPool, String>)
    requires
        n >= 1,
    ensures
        r matches Ok(pool) ==> pool_threads(pool) == threads_granted(n as nat) && pool_nice(pool)
            == kind_nice(kind),
{
    rayon::ThreadPoolBuilder::new()
        .num_threads(n)
        .thread_name(move |i| pool_thread_name(kind, i))
        .start_handler(move |_| start_pool_thread(kind))
        .build()
        .map_err(|e| e.to_string())
}

/// Build a pool of `n` threads for one call.
pub fn build_scoped_pool(n: usize) -> (r: Result<rayon::ThreadPool, String>)
    requires
        n >= 1,
    ensures
        r matches Ok(pool) ==> pool_threads(pool) == threads_granted(n as nat) && pool_nice(pool)
            is None,
        r matches Err(e) ==> exists|reason: Seq<char>| e@ == pool_refusal(n as nat, reason),
{
    match build_pool(n, PoolKind::Scoped) {
        Ok(pool) => Ok(pool),
        Err(reason) => {
            let e = pool_refusal_text(n, reason.as_str());
            assert(e@ == pool_refusal(n as nat, reason@));
            Err(e)
        },
    }
}

/// The pool that a policy asks for: none where the call works alone.
pub fn policy_pool(policy: ThreadPolicy) -> (r: Result<Option<rayon::ThreadPool>, String>)
    requires
        policy matches ThreadPolicy::Pool(n) ==> n >= 1,
    ensures
        match policy {
            ThreadPolicy::Sequential => r == Ok::<Option<rayon::ThreadPool>, String>(None),
            ThreadPolicy::Pool(n) => match r {
                Ok(pool) => pool matches Some(pool) && pool_threads(pool) == threads_granted(
                    n as nat,
                ) && pool_nice(pool) is None,
                Err(e) => exists|reason: Seq<char>| e@ == pool_refusal(n as nat, reason),
            },
        },
{
    match policy.thread_count() {
        None => Ok(None),
        Some(n) => match build_scoped_pool(n) {
            Ok(pool) => Ok(Some(pool)),
            Err(e) => Err(e),
        },
    }
}

/// Build a pool of `n` threads for a background worker: the reason where it
/// cannot be had.
pub fn build_worker_pool(n: usize, nice: i32) -> (r: Result<rayon::ThreadPool, String>)
    requires
        n >= 1,
    ensures
        r matches Ok(pool) ==> pool_threads(pool) == threads_granted(n as nat) && pool_nice(pool)
            == Some(nice),
{
    build_pool(n, PoolKind::Background(nice))
}

/// Spaces around a number do not count, and nor does a plus sign before it.
pub proof fn law_spaces_and_plus_do_not_count(n: usize, before: char, after: char)
    requires
        is_space(before),
        is_space(after),
    ensures
        trim_end(trim_start(seq![before] + nat_text(n as nat) + seq![after])) == nat_text(n as nat),
        parsed_usize(seq!['+'] + nat_text(n as nat)) == Some(n),
{
    let t = nat_text(n as nat);
    lemma_nat_text_value(n as nat);
    law_count_reads_back(n);
    let s = seq![before] + t + seq![after];
    assert(is_digit(t[0]) && is_digit(t[t.len() - 1]));
    assert(s[0] == before);
    assert(s[1] == t[0]);
    assert(!is_space(t[0]));
    lemma_trim_start(s, 1);
    let u = s.skip(1);
    assert(u =~= t + seq![after]);
    assert(!is_space(t[t.len() - 1]));
    lemma_trim_end(u, t.len() as int);
    assert(u.take(t.len() as int) =~= t);
    let signed = seq!['+'] + t;
    assert(signed.skip(1) =~= t);
}

/// A text with anything but digits after an optional plus sign is no number,
/// and nor is one without digits.
pub proof fn law_other_texts_are_no_number(s: Seq<char>, i: int)
    ensures
        0 < i < s.len() && !is_digit(s[i]) ==> parsed_usize(s) is None,
        s.len() > 0 && !is_digit(s[0]) && s[0] != '+' ==> parsed_usize(s) is None,
        s.len() == 0 ==> parsed_usize(s) is None,
        s == seq!['+'] ==> parsed_usize(s) is None,
{
    let digits = unsigned_part(s);
    if 0 < i < s.len() && !is_digit(s[i]) {
        if s[0] == '+' {
            assert(digits[i - 1] == s[i]);
        } else {
            assert(digits[i] == s[i]);
        }
    }
    if s.len() > 0 && !is_digit(s[0]) && s[0] != '+' {
        assert(digits[0] == s[0]);
    }
}

/// The number is the argument's, or else the variable's, and it is told which
/// of the two gave it. Zero is what the machine offers, and one where it does
/// not say.
pub proof fn law_number_is_the_one_given(n: usize, offer: usize, env: Option<Seq<char>>)
    requires
        n > 0,
    ensures
        resolved_raw(Some(n), env, Some(offer)) == Some((n, false)),
        resolved_raw(Some(n), env, None) == Some((n, false)),
        resolved_raw(Some(0), env, Some(offer)) == Some((offer, false)),
        resolved_raw(Some(0), env, None) == Some((1usize, false)),
        resolved_raw(None, Some(nat_text(n as nat)), Some(offer)) == Some((n, true)),
        resolved_raw(None, Some(nat_text(0)), Some(offer)) == Some((offer, true)),
        resolved_raw(None, Some(nat_text(0)), None) == Some((1usize, true)),
        resolved_raw(None, None, Some(offer)) is None,
{
    law_count_reads_back(n);
    law_count_reads_back(0);
}

/// Inside a worker a call works alone; elsewhere it has the pool that its
/// number asks for, where that is two or more.
pub proof fn law_pools_are_as_asked_for(
    given: WarnLatches,
    in_worker: bool,
    raw: Option<(usize, bool)>,
)
    ensures
        ({
            let (policy, warning, then_given) = threads_outcome(given, in_worker, raw);
            &&& policy is Pool <==> !in_worker && (raw matches Some((n, _)) && n >= 2)
            &&& policy matches ThreadPolicy::Pool(n) ==> (raw matches Some((m, _)) && m == n)
            &&& in_worker && !given.reentry ==> warning == Some(REENTRY_WARNING@)
            &&& policy is Pool && (raw->0).1 && !given.env ==> then_given.env && warning == Some(
                "vernier: num_threads="@ + nat_text(policy->Pool_0 as nat) + " (from "@
                    + "VERNIER_NUM_THREADS"@ + ")"@,
            )
            &&& !in_worker && (raw matches Some((_, from_env)) ==> !from_env) ==> warning is None
                && then_given == given
        }),
{
}

/// A pool has as many threads as are asked for, up to the limit, and those of
/// a background worker take its nice value.
pub proof fn law_pools_keep_their_settings(n: nat, nice: i32)
    ensures
        n <= pool_limit() ==> threads_granted(n) == n,
        n > pool_limit() ==> threads_granted(n) == pool_limit(),
        n >= 1 ==> threads_granted(n) >= 1,
        kind_nice(PoolKind::Scoped) is None,
        kind_nice(PoolKind::Background(nice)) == Some(nice),
{
}

/// The digits of a number count by tens.
pub proof fn law_digits_count_by_tens(s: Seq<char>, d: char)
    requires
        is_digit(d),
    ensures
        digits_value(Seq::empty()) == 0,
        digits_value(s.push(d)) == 10 * digits_value(s) + (d as int - '0' as int),
{
    assert(s.push(d).drop_last() =~= s);
}

} // verus!
