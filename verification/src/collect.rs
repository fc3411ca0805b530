//! Collecting results up to the first refusal.

use crate::failure::FailureView;
use vstd::prelude::*;

verus! {

/// The first `n` results of `f` in order, or the first refusal among them.
pub open spec fn collected<T>(f: spec_fn(int) -> Result<T, FailureView>, n: nat) -> Result<
    Seq<T>,
    FailureView,
>
    decreases n,
{
    if n == 0 {
        Ok(Seq::empty())
    } else {
        match collected(f, (n - 1) as nat) {
            Err(e) => Err(e),
            Ok(s) => match f(n - 1) {
                Err(e) => Err(e),
                Ok(t) => Ok(s.push(t)),
            },
        }
    }
}

/// A refusal among the first results is the refusal of them all.
pub proof fn lemma_collected_refusal<T>(
    f: spec_fn(int) -> Result<T, FailureView>,
    k: nat,
    n: nat,
)
    requires
        k <= n,
        collected(f, k) is Err,
    ensures
        collected(f, n) == collected(f, k),
    decreases n,
{
    if k < n {
        lemma_collected_refusal(f, k, (n - 1) as nat);
    }
}

/// Without a refusal, each result stands in its place.
pub proof fn lemma_collected_items<T>(f: spec_fn(int) -> Result<T, FailureView>, n: nat)
    requires
        collected(f, n) is Ok,
    ensures
        collected(f, n)->Ok_0.len() == n,
        forall|i: int|
            0 <= i < n ==> #[trigger] f(i) == Ok::<T, FailureView>(collected(f, n)->Ok_0[i]),
    decreases n,
{
    if n > 0 {
        lemma_collected_items(f, (n - 1) as nat);
    }
}

/// Results are refused together exactly where one of them is, and then for
/// the reason of the first that is.
pub proof fn law_first_refusal_counts<T>(f: spec_fn(int) -> Result<T, FailureView>, n: nat, i: int)
    ensures
        (forall|k: int| 0 <= k < n ==> #[trigger] f(k) is Ok) ==> collected(f, n) is Ok,
        0 <= i < n && f(i) is Err && (forall|k: int| 0 <= k < i ==> #[trigger] f(k) is Ok) ==> (
        collected(f, n) matches Err(e) && e == f(i)->Err_0),
    decreases n,
{
    if n > 0 {
        law_first_refusal_counts(f, (n - 1) as nat, i);
        if i == n - 1 && (forall|k: int| 0 <= k < i ==> #[trigger] f(k) is Ok) {
            assert(forall|k: int| 0 <= k < n - 1 ==> #[trigger] f(k) is Ok);
        }
    }
}

} // verus!
