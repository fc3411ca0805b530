//! What a refused request is answered with.

use vstd::prelude::*;

verus! {

/// The exception class a refusal is raised as.
#[derive(Clone, Copy, Debug, PartialEq, Eq, Structural)]
pub enum ErrorKind {
    TypeError,
    ValueError,
    RuntimeError,
    KeyError,
    AttributeError,
}

/// A refusal: the exception class and its message.
///
/// The message is `head`, then each pair of `reals` in order: a float64,
/// held as its bit pattern and written out by whoever raises the
/// exception, followed by a piece of text. Where `listed` is there, the
/// floats in it follow as a bracketed list.
#[derive(Debug)]
pub struct Failure {
    pub kind: ErrorKind,
    pub head: String,
    pub reals: Vec<(u64, String)>,
    pub listed: Option<Vec<u64>>,
}

/// The mathematical value of a [`Failure`].
#[verifier::ext_equal]
pub struct FailureView {
    pub kind: ErrorKind,
    pub head: Seq<char>,
    pub reals: Seq<(u64, Seq<char>)>,
    pub listed: Option<Seq<u64>>,
}

impl View for Failure {
    type V = FailureView;

    open spec fn view(&self) -> FailureView {
        FailureView {
            kind: self.kind,
            head: self.head@,
            reals: self.reals@.map_values(|p: (u64, String)| (p.0, p.1@)),
            listed: match self.listed {
                Some(v) => Some(v@),
                None => None,
            },
        }
    }
}

/// A refusal whose message holds no float.
pub open spec fn plain(kind: ErrorKind, message: Seq<char>) -> FailureView {
    FailureView { kind, head: message, reals: Seq::empty(), listed: None }
}

pub open spec fn type_error(message: Seq<char>) -> FailureView {
    plain(ErrorKind::TypeError, message)
}

pub open spec fn value_error(message: Seq<char>) -> FailureView {
    plain(ErrorKind::ValueError, message)
}

pub open spec fn runtime_error(message: Seq<char>) -> FailureView {
    plain(ErrorKind::RuntimeError, message)
}

/// A refusal whose message holds one float between two pieces of text.
pub open spec fn with_real(
    kind: ErrorKind,
    head: Seq<char>,
    bits: u64,
    tail: Seq<char>,
) -> FailureView {
    FailureView { kind, head, reals: seq![(bits, tail)], listed: None }
}

/// A refusal whose message holds two floats among three pieces of text.
pub open spec fn with_two_reals(
    kind: ErrorKind,
    head: Seq<char>,
    first: u64,
    between: Seq<char>,
    second: u64,
    tail: Seq<char>,
) -> FailureView {
    FailureView { kind, head, reals: seq![(first, between), (second, tail)], listed: None }
}

/// A refusal whose message holds one float among two pieces of text, and
/// ends in a list of floats.
pub open spec fn with_list(
    kind: ErrorKind,
    head: Seq<char>,
    bits: u64,
    tail: Seq<char>,
    listed: Seq<u64>,
) -> FailureView {
    FailureView { kind, head, reals: seq![(bits, tail)], listed: Some(listed) }
}

/// A result with its error by its mathematical value.
pub open spec fn refused<T>(r: Result<T, Failure>) -> Result<T, FailureView> {
    match r {
        Ok(t) => Ok(t),
        Err(e) => Err(e@),
    }
}

impl Failure {
    /// A refusal whose message holds no float.
    pub fn plain(kind: ErrorKind, message: String) -> (e: Failure)
        ensures
            e@ == plain(kind, message@),
    {
        let e = Failure { kind, head: message, reals: Vec::new(), listed: None };
        assert(e@ =~= plain(kind, message@));
        e
    }

    pub fn type_error(message: String) -> (e: Failure)
        ensures
            e@ == type_error(message@),
    {
        Failure::plain(ErrorKind::TypeError, message)
    }

    pub fn value_error(message: String) -> (e: Failure)
        ensures
            e@ == value_error(message@),
    {
        Failure::plain(ErrorKind::ValueError, message)
    }

    pub fn runtime_error(message: String) -> (e: Failure)
        ensures
            e@ == runtime_error(message@),
    {
        Failure::plain(ErrorKind::RuntimeError, message)
    }

    /// An equal refusal.
    pub fn copy(&self) -> (e: Failure)
        ensures
            e@ == self@,
    {
        let mut reals: Vec<(u64, String)> = Vec::new();
        let mut i: usize = 0;
        while i < self.reals.len()
            invariant
                i <= self.reals.len(),
                reals@.len() == i,
                forall|k: int|
                    0 <= k < i ==> #[trigger] reals@[k].0 == self.reals@[k].0 && reals@[k].1@
                        == self.reals@[k].1@,
            decreases self.reals.len() - i,
        {
            reals.push((self.reals[i].0, self.reals[i].1.clone()));
            i += 1;
        }
        let listed = match &self.listed {
            Some(v) => {
                let w = v.clone();
                assert(w@ =~= v@);
                Some(w)
            },
            None => None,
        };
        let e = Failure { kind: self.kind, head: self.head.clone(), reals, listed };
        assert(e@ =~= self@);
        e
    }

    /// A refusal whose message holds one float between two pieces of text.
    pub fn with_real(kind: ErrorKind, head: String, bits: u64, tail: String) -> (e: Failure)
        ensures
            e@ == with_real(kind, head@, bits, tail@),
    {
        let mut reals: Vec<(u64, String)> = Vec::new();
        reals.push((bits, tail));
        let e = Failure { kind, head, reals, listed: None };
        assert(e@.reals =~= seq![(bits, tail@)]);
        e
    }

    /// A refusal whose message holds two floats among three pieces of text.
    pub fn with_two_reals(
        kind: ErrorKind,
        head: String,
        first: u64,
        between: String,
        second: u64,
        tail: String,
    ) -> (e: Failure)
        ensures
            e@ == with_two_reals(kind, head@, first, between@, second, tail@),
    {
        let mut reals: Vec<(u64, String)> = Vec::new();
        reals.push((first, between));
        reals.push((second, tail));
        let e = Failure { kind, head, reals, listed: None };
        assert(e@.reals =~= seq![(first, between@), (second, tail@)]);
        e
    }

    /// A refusal whose message holds one float among two pieces of text, and
    /// ends in a list of floats.
    pub fn with_list(
        kind: ErrorKind,
        head: String,
        bits: u64,
        tail: String,
        listed: Vec<u64>,
    ) -> (e: Failure)
        ensures
            e@ == with_list(kind, head@, bits, tail@, listed@),
    {
        let mut reals: Vec<(u64, String)> = Vec::new();
        reals.push((bits, tail));
        let e = Failure { kind, head, reals, listed: Some(listed) };
        assert(e@.reals =~= seq![(bits, tail@)]);
        e
    }
}

/// A refusal shows its class, its text, its floats in order and its list.
pub proof fn law_refusals_show_what_they_hold(e: Failure, i: int)
    ensures
        e@.kind == e.kind,
        e@.head == e.head@,
        e@.reals.len() == e.reals@.len(),
        0 <= i < e.reals@.len() ==> e@.reals[i].0 == e.reals@[i].0 && e@.reals[i].1
            == e.reals@[i].1@,
        match e.listed {
            Some(v) => e@.listed == Some(v@),
            None => e@.listed is None,
        },
{
}

/// A refusal without a float is of its class and says its message, and
/// nothing else.
pub proof fn law_plain_refusals_say_their_message(e: Failure, message: Seq<char>)
    ensures
        e@ == type_error(message) ==> e.kind is TypeError && e.head@ == message && e.reals@.len()
            == 0 && e.listed is None,
        e@ == value_error(message) ==> e.kind is ValueError && e.head@ == message && e.reals@.len()
            == 0 && e.listed is None,
        e@ == runtime_error(message) ==> e.kind is RuntimeError && e.head@ == message
            && e.reals@.len() == 0 && e.listed is None,
{
    assert(e@.reals.len() == e.reals@.len());
}

/// A refusal with floats holds each of them between its own pieces of text.
pub proof fn law_floats_stand_in_their_places(
    e: Failure,
    kind: ErrorKind,
    head: Seq<char>,
    first: u64,
    between: Seq<char>,
    second: u64,
    tail: Seq<char>,
    listed: Seq<u64>,
)
    ensures
        e@ == with_real(kind, head, first, tail) ==> e.kind == kind && e.head@ == head
            && e.reals@.len() == 1 && e.reals@[0].0 == first && e.reals@[0].1@ == tail
            && e.listed is None,
        e@ == with_two_reals(kind, head, first, between, second, tail) ==> e.kind == kind && e.head@
            == head && e.reals@.len() == 2 && e.reals@[0].0 == first && e.reals@[0].1@ == between
            && e.reals@[1].0 == second && e.reals@[1].1@ == tail && e.listed is None,
        e@ == with_list(kind, head, first, tail, listed) ==> e.kind == kind && e.head@ == head
            && e.reals@.len() == 1 && e.reals@[0].0 == first && e.reals@[0].1@ == tail && (
        e.listed matches Some(v) && v@ == listed),
{
    assert(e@.reals.len() == e.reals@.len());
    if e.reals@.len() > 0 {
        assert(e@.reals[0] == (e.reals@[0].0, e.reals@[0].1@));
    }
    if e.reals@.len() > 1 {
        assert(e@.reals[1] == (e.reals@[1].0, e.reals@[1].1@));
    }
}

/// A result is refused for the reason that it gives, and else is what it is.
pub proof fn law_results_are_what_they_are<T>(r: Result<T, Failure>)
    ensures
        match r {
            Ok(t) => refused(r) == Ok::<T, FailureView>(t),
            Err(e) => refused(r) == Err::<T, FailureView>(e@),
        },
{
}

} // verus!
