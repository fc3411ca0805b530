//! How the errors of an evaluation are raised: the class of the exception,
//! its message, and the attributes that a caller can read from it.

use crate::background::QueueFull;
use crate::failure::{Failure, FailureView};
use crate::text::{nat_text, usize_text};
use std::time::Duration;
use vstd::prelude::*;

verus! {

/// The class that an exception is raised as.
#[derive(Clone, Copy, Debug, PartialEq, Eq, Structural)]
pub enum ExceptionClass {
    ValueError,
    RuntimeError,
    NotImplementedError,
    OutOfBudgetError,
    QueueFullError,
    InvalidAnnotationError,
    NonFiniteError,
    DimensionMismatchError,
    InvalidConfigError,
    PartialFormatMismatch,
    PartialDatasetMismatch,
    PartialParamsMismatch,
    PartialPartitionOverlap,
    PartialRankCollision,
}

/// What an attribute of an exception holds.
#[derive(Debug)]
pub enum Attribute {
    Number(i128),
    Text(String),
    Bytes(Vec<u8>),
    /// A dict from names to numbers.
    Table(Vec<(String, usize)>),
    /// A length of time, in seconds and nanoseconds.
    Seconds(u64, u32),
}

/// The mathematical value of an [`Attribute`].
#[verifier::ext_equal]
pub enum AttributeView {
    Number(int),
    Text(Seq<char>),
    Bytes(Seq<u8>),
    Table(Seq<(Seq<char>, nat)>),
    Seconds(u64, u32),
}

/// The rows of a table by their mathematical value.
pub open spec fn table_view(rows: Seq<(String, usize)>) -> Seq<(Seq<char>, nat)> {
    rows.map_values(|p: (String, usize)| (p.0@, p.1 as nat))
}

impl View for Attribute {
    type V = AttributeView;

    open spec fn view(&self) -> AttributeView {
        match self {
            Attribute::Number(n) => AttributeView::Number(*n as int),
            Attribute::Text(s) => AttributeView::Text(s@),
            Attribute::Bytes(b) => AttributeView::Bytes(b@),
            Attribute::Table(rows) => AttributeView::Table(table_view(rows@)),
            Attribute::Seconds(s, n) => AttributeView::Seconds(*s, *n),
        }
    }
}

/// An exception.
#[derive(Debug)]
pub struct Raised {
    pub class: ExceptionClass,
    pub message: String,
    pub attributes: Vec<(&'static str, Attribute)>,
}

/// The mathematical value of a [`Raised`].
#[verifier::ext_equal]
pub struct RaisedView {
    pub class: ExceptionClass,
    pub message: Seq<char>,
    pub attributes: Seq<(Seq<char>, AttributeView)>,
}

impl View for Raised {
    type V = RaisedView;

    open spec fn view(&self) -> RaisedView {
        RaisedView {
            class: self.class,
            message: self.message@,
            attributes: self.attributes@.map_values(|p: (&'static str, Attribute)| (p.0@, p.1@)),
        }
    }
}

/// An exception without attributes.
pub open spec fn bare(class: ExceptionClass, message: Seq<char>) -> RaisedView {
    RaisedView { class, message, attributes: Seq::empty() }
}

/// An exception with one attribute.
pub open spec fn with_one(
    class: ExceptionClass,
    message: Seq<char>,
    name: Seq<char>,
    value: AttributeView,
) -> RaisedView {
    RaisedView { class, message, attributes: seq![(name, value)] }
}

/// An exception with two attributes.
pub open spec fn with_two(
    class: ExceptionClass,
    message: Seq<char>,
    first: (Seq<char>, AttributeView),
    second: (Seq<char>, AttributeView),
) -> RaisedView {
    RaisedView { class, message, attributes: seq![first, second] }
}

/// An exception with three attributes.
pub open spec fn with_three(
    class: ExceptionClass,
    message: Seq<char>,
    first: (Seq<char>, AttributeView),
    second: (Seq<char>, AttributeView),
    third: (Seq<char>, AttributeView),
) -> RaisedView {
    RaisedView { class, message, attributes: seq![first, second, third] }
}

impl Raised {
    /// An exception without attributes.
    pub fn bare(class: ExceptionClass, message: String) -> (x: Raised)
        ensures
            x@ == bare(class, message@),
    {
        let x = Raised { class, message, attributes: Vec::new() };
        assert(x@ =~= bare(class, message@));
        x
    }

    /// Add an attribute.
    fn set(self, name: &'static str, value: Attribute) -> (x: Raised)
        ensures
            x@ == (RaisedView { attributes: self@.attributes.push((name@, value@)), ..self@ }),
    {
        let ghost before = self@;
        let ghost added = (name@, value@);
        let Raised { class, message, mut attributes } = self;
        attributes.push((name, value));
        let x = Raised { class, message, attributes };
        assert(x@.attributes =~= before.attributes.push(added));
        x
    }
}

// ---------------------------------------------------------------------------
// Partial results
// ---------------------------------------------------------------------------

/// Why a partial result cannot be merged.
#[derive(Debug)]
pub enum PartialError {
    /// It is malformed: the tag of what is wrong.
    Format { tag: String },
    DatasetMismatch { expected: [u8; 32], actual: [u8; 32] },
    ParamsMismatch { expected: [u8; 32], actual: [u8; 32] },
    PartitionOverlap { rank_a: u32, rank_b: u32, image_id: i64 },
    RankCollision { rank_id: u32 },
}

/// The exception for a partial result, with the text of the error as its
/// message.
pub open spec fn partial_raised(e: PartialError, text: Seq<char>) -> RaisedView {
    match e {
        PartialError::Format { tag } => with_one(
            ExceptionClass::PartialFormatMismatch,
            text,
            "kind"@,
            AttributeView::Text(tag@),
        ),
        PartialError::DatasetMismatch { expected, actual } => with_two(
            ExceptionClass::PartialDatasetMismatch,
            text,
            ("expected"@, AttributeView::Bytes(expected@)),
            ("actual"@, AttributeView::Bytes(actual@)),
        ),
        PartialError::ParamsMismatch { expected, actual } => with_two(
            ExceptionClass::PartialParamsMismatch,
            text,
            ("expected"@, AttributeView::Bytes(expected@)),
            ("actual"@, AttributeView::Bytes(actual@)),
        ),
        PartialError::PartitionOverlap { rank_a, rank_b, image_id } => with_three(
            ExceptionClass::PartialPartitionOverlap,
            text,
            ("rank_a"@, AttributeView::Number(rank_a as int)),
            ("rank_b"@, AttributeView::Number(rank_b as int)),
            ("image_id"@, AttributeView::Number(image_id as int)),
        ),
        PartialError::RankCollision { rank_id } => with_one(
            ExceptionClass::PartialRankCollision,
            text,
            "rank_id"@,
            AttributeView::Number(rank_id as int),
        ),
    }
}

/// The bytes of a hash.
fn hash_bytes(hash: &[u8; 32]) -> (v: Vec<u8>)
    ensures
        v@ == hash@,
{
    let mut v: Vec<u8> = Vec::new();
    let mut i: usize = 0;
    while i < 32
        invariant
            i <= 32,
            v@ == hash@.take(i as int),
        decreases 32 - i,
    {
        v.push(hash[i]);
        assert(hash@.take(i + 1) =~= hash@.take(i as int).push(hash@[i as int]));
        i += 1;
    }
    assert(hash@.take(32) =~= hash@);
    v
}

/// The exception for two hashes that differ.
fn hash_mismatch(
    class: ExceptionClass,
    text: String,
    expected: &[u8; 32],
    actual: &[u8; 32],
) -> (x: Raised)
    ensures
        x@ == with_two(
            class,
            text@,
            ("expected"@, AttributeView::Bytes(expected@)),
            ("actual"@, AttributeView::Bytes(actual@)),
        ),
{
    let x = Raised::bare(class, text).set("expected", Attribute::Bytes(hash_bytes(expected))).set(
        "actual",
        Attribute::Bytes(hash_bytes(actual)),
    );
    assert(x@.attributes =~= seq![
        ("expected"@, AttributeView::Bytes(expected@)),
        ("actual"@, AttributeView::Bytes(actual@)),
    ]);
    x
}

/// The exception for a partial result that cannot be merged.
pub fn partial_error_to_pyerr(e: PartialError, text: String) -> (x: Raised)
    ensures
        x@ == partial_raised(e, text@),
{
    let ghost given = e;
    let ghost message = text@;
    let x = match e {
        PartialError::Format { tag } => Raised::bare(
            ExceptionClass::PartialFormatMismatch,
            text,
        ).set("kind", Attribute::Text(tag)),
        PartialError::DatasetMismatch { expected, actual } => hash_mismatch(
            ExceptionClass::PartialDatasetMismatch,
            text,
            &expected,
            &actual,
        ),
        PartialError::ParamsMismatch { expected, actual } => hash_mismatch(
            ExceptionClass::PartialParamsMismatch,
            text,
            &expected,
            &actual,
        ),
        PartialError::PartitionOverlap { rank_a, rank_b, image_id } => Raised::bare(
            ExceptionClass::PartialPartitionOverlap,
            text,
        ).set("rank_a", Attribute::Number(rank_a as i128)).set(
            "rank_b",
            Attribute::Number(rank_b as i128),
        ).set("image_id", Attribute::Number(image_id as i128)),
        PartialError::RankCollision { rank_id } => Raised::bare(
            ExceptionClass::PartialRankCollision,
            text,
        ).set("rank_id", Attribute::Number(rank_id as i128)),
    };
    assert(x@ =~= partial_raised(given, message));
    x
}

// ---------------------------------------------------------------------------
// Evaluation errors
// ---------------------------------------------------------------------------

/// What went wrong in an evaluation.
#[derive(Debug)]
pub enum EvalErrorKind {
    /// More memory would be used than the budget allows.
    OutOfBudget { used_bytes: usize, budget_bytes: usize, breakdown: Vec<(String, usize)> },
    NotImplemented { feature: String },
    Partial(PartialError),
    InvalidAnnotation,
    NonFinite,
    DimensionMismatch,
    InvalidConfig,
    Other,
}

/// An evaluation error and its text.
#[derive(Debug)]
pub struct EvalError {
    pub kind: EvalErrorKind,
    pub text: String,
}

/// The message of an exceeded budget.
pub open spec fn budget_text(used: nat, budget: nat) -> Seq<char> {
    "memory budget exceeded: used "@ + nat_text(used) + " / budget "@ + nat_text(budget)
        + " bytes"@
}

/// The exception for an evaluation error.
pub open spec fn eval_raised(kind: EvalErrorKind, text: Seq<char>) -> RaisedView {
    match kind {
        EvalErrorKind::OutOfBudget { used_bytes, budget_bytes, breakdown } => with_three(
            ExceptionClass::OutOfBudgetError,
            budget_text(used_bytes as nat, budget_bytes as nat),
            ("used_bytes"@, AttributeView::Number(used_bytes as int)),
            ("budget_bytes"@, AttributeView::Number(budget_bytes as int)),
            ("breakdown"@, AttributeView::Table(table_view(breakdown@))),
        ),
        EvalErrorKind::NotImplemented { feature } => bare(
            ExceptionClass::NotImplementedError,
            feature@,
        ),
        EvalErrorKind::Partial(e) => partial_raised(e, text),
        EvalErrorKind::InvalidAnnotation => bare(ExceptionClass::InvalidAnnotationError, text),
        EvalErrorKind::NonFinite => bare(ExceptionClass::NonFiniteError, text),
        EvalErrorKind::DimensionMismatch => bare(ExceptionClass::DimensionMismatchError, text),
        EvalErrorKind::InvalidConfig => bare(ExceptionClass::InvalidConfigError, text),
        EvalErrorKind::Other => bare(ExceptionClass::ValueError, text),
    }
}

/// The exception for an evaluation error.
pub fn eval_error_to_pyerr(e: EvalError) -> (x: Raised)
    ensures
        x@ == eval_raised(e.kind, e.text@),
{
    let EvalError { kind, text } = e;
    match kind {
        EvalErrorKind::OutOfBudget { used_bytes, budget_bytes, breakdown } => {
            let ghost rows = table_view(breakdown@);
            let mut m = String::from_str("memory budget exceeded: used ");
            m.append(usize_text(used_bytes).as_str());
            m.append(" / budget ");
            m.append(usize_text(budget_bytes).as_str());
            m.append(" bytes");
            let x = Raised::bare(ExceptionClass::OutOfBudgetError, m).set(
                "used_bytes",
                Attribute::Number(used_bytes as i128),
            ).set("budget_bytes", Attribute::Number(budget_bytes as i128)).set(
                "breakdown",
                Attribute::Table(breakdown),
            );
            assert(x@.attributes =~= seq![
                ("used_bytes"@, AttributeView::Number(used_bytes as int)),
                ("budget_bytes"@, AttributeView::Number(budget_bytes as int)),
                ("breakdown"@, AttributeView::Table(rows)),
            ]);
            x
        },
        EvalErrorKind::NotImplemented { feature } => Raised::bare(
            ExceptionClass::NotImplementedError,
            feature,
        ),
        EvalErrorKind::Partial(p) => partial_error_to_pyerr(p, text),
        EvalErrorKind::InvalidAnnotation => Raised::bare(
            ExceptionClass::InvalidAnnotationError,
            text,
        ),
        EvalErrorKind::NonFinite => Raised::bare(ExceptionClass::NonFiniteError, text),
        EvalErrorKind::DimensionMismatch => Raised::bare(
            ExceptionClass::DimensionMismatchError,
            text,
        ),
        EvalErrorKind::InvalidConfig => Raised::bare(ExceptionClass::InvalidConfigError, text),
        EvalErrorKind::Other => Raised::bare(ExceptionClass::ValueError, text),
    }
}

/// The exception for an error in loading a dataset or detections.
pub open spec fn load_raised(kind: EvalErrorKind, text: Seq<char>) -> RaisedView {
    match kind {
        EvalErrorKind::InvalidAnnotation => bare(ExceptionClass::InvalidAnnotationError, text),
        EvalErrorKind::NonFinite => bare(ExceptionClass::NonFiniteError, text),
        EvalErrorKind::DimensionMismatch => bare(ExceptionClass::DimensionMismatchError, text),
        EvalErrorKind::InvalidConfig => bare(ExceptionClass::InvalidConfigError, text),
        _ => bare(ExceptionClass::ValueError, text),
    }
}

/// The exception for an error in loading a dataset or detections.
pub fn coco_load_error_to_pyerr(e: EvalError) -> (x: Raised)
    ensures
        x@ == load_raised(e.kind, e.text@),
{
    let class = match &e.kind {
        EvalErrorKind::InvalidAnnotation => ExceptionClass::InvalidAnnotationError,
        EvalErrorKind::NonFinite => ExceptionClass::NonFiniteError,
        EvalErrorKind::DimensionMismatch => ExceptionClass::DimensionMismatchError,
        EvalErrorKind::InvalidConfig => ExceptionClass::InvalidConfigError,
        _ => ExceptionClass::ValueError,
    };
    Raised::bare(class, e.text)
}

/// Loading and evaluating agree on every error that has neither attributes
/// nor a message of its own.
pub proof fn law_loading_raises_as_evaluating(kind: EvalErrorKind, text: Seq<char>)
    requires
        !(kind is OutOfBudget),
        !(kind is NotImplemented),
        !(kind is Partial),
    ensures
        load_raised(kind, text) == eval_raised(kind, text),
{
}

/// A partial result that cannot be merged is raised the same way by every
/// kind of evaluation.
pub proof fn law_partial_errors_are_shared(e: PartialError, text: Seq<char>)
    ensures
        eval_raised(EvalErrorKind::Partial(e), text) == partial_raised(e, text),
{
}

// ---------------------------------------------------------------------------
// A full queue
// ---------------------------------------------------------------------------

/// The debug rendering of a length of time.
pub uninterp spec fn duration_text(seconds: u64, nanos: u32) -> Seq<char>;

/// The debug rendering of a length of time, as `std`'s `Debug` of `Duration`
/// writes it.
///
/// The contract claims only that equal lengths are rendered equally.
#[verifier::external_body]
fn quoted_duration(seconds: u64, nanos: u32) -> (s: String)
    requires
        nanos < 1_000_000_000,
    ensures
        s@ == duration_text(seconds, nanos),
{
    format!("{:?}", Duration::new(seconds, nanos))
}

/// How many nanoseconds a second has.
pub const NANOS_PER_SECOND: u128 = 1_000_000_000;

/// The whole seconds of a length of time.
pub open spec fn whole_seconds(ns: u128) -> u128 {
    ns / NANOS_PER_SECOND
}

/// A length of time whose seconds are counted in 64 bits.
pub open spec fn duration_fits(ns: u128) -> bool {
    whole_seconds(ns) <= u64::MAX
}

/// The exception for a queue that stayed full.
pub open spec fn queue_full_raised(full: QueueFull) -> RaisedView {
    let seconds = whole_seconds(full.timeout_ns) as u64;
    let nanos = (full.timeout_ns % NANOS_PER_SECOND) as u32;
    with_two(
        ExceptionClass::QueueFullError,
        "background submit queue full (capacity="@ + nat_text(full.queue_capacity as nat)
            + ", timeout="@ + duration_text(seconds, nanos) + ")"@,
        ("queue_capacity"@, AttributeView::Number(full.queue_capacity as int)),
        ("timeout"@, AttributeView::Seconds(seconds, nanos)),
    )
}

/// The exception for a queue that stayed full.
pub fn queue_full_to_pyerr(full: QueueFull) -> (x: Raised)
    requires
        duration_fits(full.timeout_ns),
    ensures
        x@ == queue_full_raised(full),
{
    let seconds: u64 = (full.timeout_ns / NANOS_PER_SECOND) as u64;
    let nanos: u32 = (full.timeout_ns % NANOS_PER_SECOND) as u32;
    let mut m = String::from_str("background submit queue full (capacity=");
    m.append(usize_text(full.queue_capacity).as_str());
    m.append(", timeout=");
    m.append(quoted_duration(seconds, nanos).as_str());
    m.append(")");
    let x = Raised::bare(ExceptionClass::QueueFullError, m).set(
        "queue_capacity",
        Attribute::Number(full.queue_capacity as i128),
    ).set("timeout", Attribute::Seconds(seconds, nanos));
    assert(x@.attributes =~= seq![
        ("queue_capacity"@, AttributeView::Number(full.queue_capacity as int)),
        ("timeout"@, AttributeView::Seconds(seconds, nanos)),
    ]);
    x
}

/// Why a batch was not taken.
#[derive(Debug)]
pub enum SubmitError {
    Eval(EvalError),
    Full(QueueFull),
}

/// The exception for a batch that was not taken.
pub open spec fn submit_raised(e: SubmitError) -> RaisedView {
    match e {
        SubmitError::Eval(inner) => eval_raised(inner.kind, inner.text@),
        SubmitError::Full(full) => queue_full_raised(full),
    }
}

/// The exception for a batch that was not taken.
pub fn submit_error_to_pyerr(e: SubmitError) -> (x: Raised)
    requires
        e matches SubmitError::Full(full) ==> duration_fits(full.timeout_ns),
    ensures
        x@ == submit_raised(e),
{
    match e {
        SubmitError::Eval(inner) => eval_error_to_pyerr(inner),
        SubmitError::Full(full) => queue_full_to_pyerr(full),
    }
}

/// Why a request is refused.
#[derive(Debug)]
pub enum Refusal {
    /// An argument is not what it has to be.
    Argument(Failure),
    /// An exception with attributes, or of a class of its own.
    Raised(Raised),
    /// The evaluator cannot be configured in this way.
    Config(String),
}

/// The mathematical value of a [`Refusal`].
pub enum RefusalView {
    Argument(FailureView),
    Raised(RaisedView),
    Config(Seq<char>),
}

impl View for Refusal {
    type V = RefusalView;

    open spec fn view(&self) -> RefusalView {
        match self {
            Refusal::Argument(f) => RefusalView::Argument(f@),
            Refusal::Raised(x) => RefusalView::Raised(x@),
            Refusal::Config(detail) => RefusalView::Config(detail@),
        }
    }
}

/// The attributes of an exception stand in its view one by one.
proof fn lemma_attributes(x: Raised, i: int)
    requires
        0 <= i < x.attributes@.len(),
    ensures
        x@.attributes.len() == x.attributes@.len(),
        x@.attributes[i] == (x.attributes@[i].0@, x.attributes@[i].1@),
{
}

/// A partial result that cannot be merged has a class of its own for each
/// cause, says what it was given to say, and carries what it was about.
pub proof fn law_partial_errors_carry_their_cause(e: PartialError, text: Seq<char>, x: Raised)
    requires
        x@ == partial_raised(e, text),
    ensures
        x.message@ == text,
        match e {
            PartialError::Format { tag } => {
                &&& x.class is PartialFormatMismatch
                &&& x.attributes@.len() == 1
                &&& x.attributes@[0].0@ == "kind"@
                &&& x.attributes@[0].1 matches Attribute::Text(t)
                &&& t@ == tag@
            },
            PartialError::DatasetMismatch { expected, actual } => {
                &&& x.class is PartialDatasetMismatch
                &&& x.attributes@.len() == 2
                &&& x.attributes@[0].0@ == "expected"@
                &&& x.attributes@[1].0@ == "actual"@
                &&& x.attributes@[0].1 matches Attribute::Bytes(a)
                &&& x.attributes@[1].1 matches Attribute::Bytes(b)
                &&& a@ == expected@
                &&& b@ == actual@
            },
            PartialError::ParamsMismatch { expected, actual } => {
                &&& x.class is PartialParamsMismatch
                &&& x.attributes@.len() == 2
                &&& x.attributes@[0].0@ == "expected"@
                &&& x.attributes@[1].0@ == "actual"@
                &&& x.attributes@[0].1 matches Attribute::Bytes(a)
                &&& x.attributes@[1].1 matches Attribute::Bytes(b)
                &&& a@ == expected@
                &&& b@ == actual@
            },
            PartialError::PartitionOverlap { rank_a, rank_b, image_id } => {
                &&& x.class is PartialPartitionOverlap
                &&& x.attributes@.len() == 3
                &&& x.attributes@[0].0@ == "rank_a"@
                &&& x.attributes@[1].0@ == "rank_b"@
                &&& x.attributes@[2].0@ == "image_id"@
                &&& x.attributes@[0].1 matches Attribute::Number(a)
                &&& x.attributes@[1].1 matches Attribute::Number(b)
                &&& x.attributes@[2].1 matches Attribute::Number(i)
                &&& a == rank_a
                &&& b == rank_b
                &&& i == image_id
            },
            PartialError::RankCollision { rank_id } => {
                &&& x.class is PartialRankCollision
                &&& x.attributes@.len() == 1
                &&& x.attributes@[0].0@ == "rank_id"@
                &&& x.attributes@[0].1 matches Attribute::Number(n)
                &&& n == rank_id
            },
        },
{
    let n = x.attributes@.len();
    assert(x@.attributes.len() == n);
    if n > 0 {
        lemma_attributes(x, 0);
    }
    if n > 1 {
        lemma_attributes(x, 1);
    }
    if n > 2 {
        lemma_attributes(x, 2);
    }
}

/// An evaluation error has the class of its kind and says its own text; only
/// an exceeded budget and a partial result carry attributes, and a feature
/// that is missing is named.
pub proof fn law_evaluation_errors_have_their_own_class(e: EvalError, x: Raised)
    requires
        x@ == eval_raised(e.kind, e.text@),
    ensures
        match e.kind {
            EvalErrorKind::OutOfBudget { .. } => x.class is OutOfBudgetError,
            EvalErrorKind::NotImplemented { feature } => x.class is NotImplementedError
                && x.message@ == feature@ && x.attributes@.len() == 0,
            EvalErrorKind::Partial(_) => x.message@ == e.text@,
            EvalErrorKind::InvalidAnnotation => x.class is InvalidAnnotationError && x.message@
                == e.text@ && x.attributes@.len() == 0,
            EvalErrorKind::NonFinite => x.class is NonFiniteError && x.message@ == e.text@
                && x.attributes@.len() == 0,
            EvalErrorKind::DimensionMismatch => x.class is DimensionMismatchError && x.message@
                == e.text@ && x.attributes@.len() == 0,
            EvalErrorKind::InvalidConfig => x.class is InvalidConfigError && x.message@ == e.text@
                && x.attributes@.len() == 0,
            EvalErrorKind::Other => x.class is ValueError && x.message@ == e.text@
                && x.attributes@.len() == 0,
        },
{
    assert(x@.attributes.len() == x.attributes@.len());
    if let EvalErrorKind::Partial(p) = e.kind {
        law_partial_errors_carry_their_cause(p, e.text@, x);
    }
}

/// An exceeded budget carries what was used, what was allowed, and what each
/// part took, in this order.
pub proof fn law_budgets_carry_their_numbers(
    used_bytes: usize,
    budget_bytes: usize,
    breakdown: Vec<(String, usize)>,
    text: Seq<char>,
    x: Raised,
)
    requires
        x@ == eval_raised(
            EvalErrorKind::OutOfBudget { used_bytes, budget_bytes, breakdown },
            text,
        ),
    ensures
        x.class is OutOfBudgetError,
        x.attributes@.len() == 3,
        x.attributes@[0].0@ == "used_bytes"@,
        x.attributes@[1].0@ == "budget_bytes"@,
        x.attributes@[2].0@ == "breakdown"@,
        x.attributes@[0].1 matches Attribute::Number(n) && n == used_bytes,
        x.attributes@[1].1 matches Attribute::Number(n) && n == budget_bytes,
        x.attributes@[2].1 matches Attribute::Table(rows) && rows@.len() == breakdown@.len()
            && forall|i: int|
            0 <= i < rows@.len() ==> (#[trigger] rows@[i]).0@ == breakdown@[i].0@ && rows@[i].1
                == breakdown@[i].1,
{
    assert(x@.attributes.len() == x.attributes@.len());
    lemma_attributes(x, 0);
    lemma_attributes(x, 1);
    lemma_attributes(x, 2);
    if let Attribute::Table(rows) = x.attributes@[2].1 {
        let got = table_view(rows@);
        let want = table_view(breakdown@);
        assert(got == want);
        assert(got.len() == want.len());
        assert forall|i: int| 0 <= i < rows@.len() implies (#[trigger] rows@[i]).0@
            == breakdown@[i].0@ && rows@[i].1 == breakdown@[i].1 by {
            assert(got[i] == want[i]);
        }
    }
}

/// An error in loading has the class of its kind where it is about the data,
/// is a wrong value otherwise, and always says its own text.
pub proof fn law_loading_errors_have_their_own_class(e: EvalError, x: Raised)
    requires
        x@ == load_raised(e.kind, e.text@),
    ensures
        x.message@ == e.text@,
        x.attributes@.len() == 0,
        match e.kind {
            EvalErrorKind::InvalidAnnotation => x.class is InvalidAnnotationError,
            EvalErrorKind::NonFinite => x.class is NonFiniteError,
            EvalErrorKind::DimensionMismatch => x.class is DimensionMismatchError,
            EvalErrorKind::InvalidConfig => x.class is InvalidConfigError,
            EvalErrorKind::OutOfBudget { .. } => x.class is ValueError,
            EvalErrorKind::NotImplemented { .. } => x.class is ValueError,
            EvalErrorKind::Partial(_) => x.class is ValueError,
            EvalErrorKind::Other => x.class is ValueError,
        },
{
    assert(x@.attributes.len() == x.attributes@.len());
}

/// A queue that stayed full is told with its capacity and the whole time that
/// was given, none of it lost.
pub proof fn law_full_queues_carry_their_numbers(full: QueueFull, x: Raised)
    requires
        duration_fits(full.timeout_ns),
        x@ == queue_full_raised(full),
    ensures
        x.class is QueueFullError,
        x.attributes@.len() == 2,
        x.attributes@[0].0@ == "queue_capacity"@,
        x.attributes@[1].0@ == "timeout"@,
        x.attributes@[0].1 matches Attribute::Number(n) && n == full.queue_capacity,
        x.attributes@[1].1 matches Attribute::Seconds(s, n) && n < 1_000_000_000 && s
            * 1_000_000_000 + n == full.timeout_ns,
{
    assert(x@.attributes.len() == x.attributes@.len());
    lemma_attributes(x, 0);
    lemma_attributes(x, 1);
    let ns = full.timeout_ns;
    assert(ns == 1_000_000_000 * (ns / 1_000_000_000) + ns % 1_000_000_000);
}

/// A time is counted in 64 bits of seconds exactly where it is below 2 to the
/// 64 seconds.
pub proof fn law_long_times_do_not_fit(ns: u128)
    ensures
        duration_fits(ns) <==> ns < 0x1_0000_0000_0000_0000 * 1_000_000_000,
{
}

/// A batch that was not taken is raised for its own cause.
pub proof fn law_submits_are_refused_for_their_cause(e: EvalError, full: QueueFull)
    ensures
        submit_raised(SubmitError::Eval(e)) == eval_raised(e.kind, e.text@),
        submit_raised(SubmitError::Full(full)) == queue_full_raised(full),
{
}

/// What an exception shows is what it holds.
pub proof fn law_exceptions_show_what_they_hold(x: Raised, refusal: Refusal, i: int)
    ensures
        x@.class == x.class,
        x@.message == x.message@,
        x@.attributes.len() == x.attributes@.len(),
        0 <= i < x.attributes@.len() ==> x@.attributes[i].0 == x.attributes@[i].0@
            && match x.attributes@[i].1 {
            Attribute::Number(n) => x@.attributes[i].1 == AttributeView::Number(n as int),
            Attribute::Text(s) => x@.attributes[i].1 == AttributeView::Text(s@),
            Attribute::Bytes(b) => x@.attributes[i].1 == AttributeView::Bytes(b@),
            Attribute::Table(rows) => x@.attributes[i].1 == AttributeView::Table(table_view(rows@)),
            Attribute::Seconds(s, n) => x@.attributes[i].1 == AttributeView::Seconds(s, n),
        },
        match refusal {
            Refusal::Argument(f) => refusal@ == RefusalView::Argument(f@),
            Refusal::Raised(r) => refusal@ == RefusalView::Raised(r@),
            Refusal::Config(d) => refusal@ == RefusalView::Config(d@),
        },
{
}

} // verus!
