//! The settings of an evaluation.

use crate::array_ingest::ArrayIouType;
use crate::breakdown::{
    buckets_view, BreakdownInner, BreakdownView, Bucket, BucketView, PyBreakdown,
};
use crate::collect::{collected, lemma_collected_refusal};
use crate::failure::{refused, value_error, with_real, ErrorKind, Failure, FailureView};
use crate::float_bits::{above_zero, below_zero, finite, is_finite, scaled};
use crate::text::{debug_text, quoted, same_text};
use std::collections::HashMap;
use vstd::prelude::*;
use vstd::seq_lib::to_multiset_insert;

verus! {

broadcast use vstd::std_specs::hash::group_hash_axioms;

// ---------------------------------------------------------------------------
// Words
// ---------------------------------------------------------------------------

/// Which of the two rule books an evaluation follows.
#[derive(Clone, Copy, Debug, PartialEq, Eq, Structural)]
pub enum ParityMode {
    Strict,
    Corrected,
}

/// What the word for a rule book stands for.
pub open spec fn parity_outcome(s: Seq<char>) -> Result<ParityMode, FailureView> {
    if s == "strict"@ {
        Ok(ParityMode::Strict)
    } else if s == "corrected"@ {
        Ok(ParityMode::Corrected)
    } else {
        Err(
            value_error(
                "invalid parity_mode "@ + debug_text(s) + "; expected 'strict' or 'corrected'"@,
            ),
        )
    }
}

/// Read the word for a rule book.
pub fn parse_parity_mode(s: &str) -> (r: Result<ParityMode, Failure>)
    ensures
        refused(r) == parity_outcome(s@),
{
    if same_text(s, "strict") {
        Ok(ParityMode::Strict)
    } else if same_text(s, "corrected") {
        Ok(ParityMode::Corrected)
    } else {
        let mut m = String::from_str("invalid parity_mode ");
        m.append(quoted(s).as_str());
        m.append("; expected 'strict' or 'corrected'");
        Err(Failure::value_error(m))
    }
}

/// Which list of statistics a summary holds.
#[derive(Clone, Copy, Debug, PartialEq, Eq, Structural)]
pub enum SummarizePlan {
    Detection,
    Keypoints,
}

/// What the word for a list of statistics stands for.
pub open spec fn plan_outcome(s: Seq<char>) -> Result<SummarizePlan, FailureView> {
    if s == "detection"@ {
        Ok(SummarizePlan::Detection)
    } else if s == "keypoints"@ {
        Ok(SummarizePlan::Keypoints)
    } else {
        Err(
            value_error(
                "invalid plan "@ + debug_text(s) + "; expected 'detection' or 'keypoints'"@,
            ),
        )
    }
}

/// Read the word for a list of statistics.
pub fn parse_summarize_plan(s: &str) -> (r: Result<SummarizePlan, Failure>)
    ensures
        refused(r) == plan_outcome(s@),
{
    if same_text(s, "detection") {
        Ok(SummarizePlan::Detection)
    } else if same_text(s, "keypoints") {
        Ok(SummarizePlan::Keypoints)
    } else {
        let mut m = String::from_str("invalid plan ");
        m.append(quoted(s).as_str());
        m.append("; expected 'detection' or 'keypoints'");
        Err(Failure::value_error(m))
    }
}

// ---------------------------------------------------------------------------
// Detections per image
// ---------------------------------------------------------------------------

/// Ascending.
pub open spec fn ascending(s: Seq<usize>) -> bool {
    forall|i: int, j: int| 0 <= i <= j < s.len() ==> s[i] <= s[j]
}

/// A list in ascending order.
pub open spec fn in_order(s: Seq<usize>, of: Seq<usize>) -> bool {
    ascending(s) && s.to_multiset() == of.to_multiset()
}

/// An empty ladder is refused.
pub open spec fn ladder_refusal() -> FailureView {
    value_error("max_dets must contain at least one entry"@)
}

/// Refuse an empty ladder.
pub fn require_nonempty_max_dets(max_dets: &Vec<usize>) -> (r: Result<(), Failure>)
    ensures
        refused(r) == (if max_dets@.len() == 0 {
            Err(ladder_refusal())
        } else {
            Ok(())
        }),
{
    if max_dets.len() == 0 {
        Err(Failure::value_error(String::from_str("max_dets must contain at least one entry")))
    } else {
        Ok(())
    }
}

/// Sort a ladder.
pub fn sort_max_dets(max_dets: &mut Vec<usize>)
    ensures
        in_order(final(max_dets)@, old(max_dets)@),
        final(max_dets)@.len() == old(max_dets)@.len(),
{
    let mut sorted: Vec<usize> = Vec::new();
    let mut i: usize = 0;
    assert(max_dets@.take(0) =~= sorted@);
    while i < max_dets.len()
        invariant
            i <= max_dets.len(),
            max_dets@ == old(max_dets)@,
            sorted@.len() == i,
            ascending(sorted@),
            sorted@.to_multiset() == max_dets@.take(i as int).to_multiset(),
        decreases max_dets.len() - i,
    {
        let x: usize = max_dets[i];
        let mut k: usize = sorted.len();
        while k > 0 && sorted[k - 1] > x
            invariant
                k <= sorted.len(),
                ascending(sorted@),
                forall|j: int| k <= j < sorted@.len() ==> #[trigger] sorted@[j] > x,
            decreases k,
        {
            k -= 1;
        }
        proof {
            to_multiset_insert(sorted@, k as int, x);
            let before = max_dets@.take(i as int);
            to_multiset_insert(before, i as int, x);
            assert(before.insert(i as int, x) =~= max_dets@.take(i + 1));
        }
        sorted.insert(k, x);
        i += 1;
    }
    assert(max_dets@.take(i as int) =~= old(max_dets)@);
    *max_dets = sorted;
}

/// The largest entry of a ladder.
pub open spec fn largest(s: Seq<usize>, n: usize) -> bool {
    s.contains(n) && forall|i: int| 0 <= i < s.len() ==> s[i] <= n
}

/// Check a ladder, sort it, and give its largest entry, which is how many
/// detections of an image are looked at.
pub fn resolve_max_dets(max_dets: Vec<usize>) -> (r: Result<(Vec<usize>, usize), Failure>)
    ensures
        match r {
            Ok((sorted, top)) => max_dets@.len() > 0 && in_order(sorted@, max_dets@) && largest(
                max_dets@,
                top,
            ),
            Err(e) => max_dets@.len() == 0 && e@ == ladder_refusal(),
        },
{
    match require_nonempty_max_dets(&max_dets) {
        Err(e) => return Err(e),
        Ok(()) => {},
    }
    let mut sorted = max_dets;
    sort_max_dets(&mut sorted);
    let n: usize = sorted.len();
    let top: usize = sorted[n - 1];
    proof {
        broadcast use vstd::seq_lib::group_to_multiset_ensures;
        assert(sorted@.contains(top)) by {
            assert(sorted@[n - 1] == top);
        }
        assert(max_dets@.to_multiset().count(top) > 0);
        assert forall|i: int| 0 <= i < max_dets@.len() implies max_dets@[i] <= top by {
            assert(max_dets@.contains(max_dets@[i]));
            assert(sorted@.to_multiset().count(max_dets@[i]) > 0);
            assert(sorted@.contains(max_dets@[i]));
        }
    }
    Ok((sorted, top))
}

// ---------------------------------------------------------------------------
// Kernels
// ---------------------------------------------------------------------------

/// How two annotations are compared.
#[derive(Debug)]
pub enum EvalIouType {
    Bbox,
    Segm,
    /// By their outlines, in a band whose width is a fraction of the image's
    /// diagonal.
    Boundary { dilation_ratio: u64 },
    /// By their keypoints, with the sigmas of each category.
    Keypoints { sigmas: HashMap<i64, Vec<u64>> },
}

/// The mathematical value of an [`EvalIouType`].
#[verifier::ext_equal]
pub enum IouTypeView {
    Bbox,
    Segm,
    Boundary { dilation_ratio: u64 },
    Keypoints { sigmas: Map<i64, Seq<u64>> },
}

/// Sigmas by their contents.
pub open spec fn sigmas_view(m: HashMap<i64, Vec<u64>>) -> Map<i64, Seq<u64>> {
    m@.map_values(|v: Vec<u64>| v@)
}

impl View for EvalIouType {
    type V = IouTypeView;

    open spec fn view(&self) -> IouTypeView {
        match self {
            EvalIouType::Bbox => IouTypeView::Bbox,
            EvalIouType::Segm => IouTypeView::Segm,
            EvalIouType::Boundary { dilation_ratio } => IouTypeView::Boundary {
                dilation_ratio: *dilation_ratio,
            },
            EvalIouType::Keypoints { sigmas } => IouTypeView::Keypoints {
                sigmas: sigmas_view(*sigmas),
            },
        }
    }
}

impl IouTypeView {
    /// Which fields a detection has to carry.
    pub open spec fn fields(self) -> ArrayIouType {
        match self {
            IouTypeView::Bbox => ArrayIouType::Bbox,
            IouTypeView::Segm => ArrayIouType::Segm,
            IouTypeView::Boundary { .. } => ArrayIouType::Boundary,
            IouTypeView::Keypoints { .. } => ArrayIouType::Keypoints,
        }
    }
}

impl EvalIouType {
    /// Are keypoints compared?
    pub fn is_keypoints(&self) -> (b: bool)
        ensures
            b == self@ is Keypoints,
    {
        matches!(self, EvalIouType::Keypoints { .. })
    }

    /// Which fields a detection has to carry.
    pub fn fields(&self) -> (t: ArrayIouType)
        ensures
            t == self@.fields(),
    {
        match self {
            EvalIouType::Bbox => ArrayIouType::Bbox,
            EvalIouType::Segm => ArrayIouType::Segm,
            EvalIouType::Boundary { .. } => ArrayIouType::Boundary,
            EvalIouType::Keypoints { .. } => ArrayIouType::Keypoints,
        }
    }
}

/// What checking the width of the band gives.
pub open spec fn dilation_outcome(dilation_ratio: u64) -> Result<(), FailureView> {
    if is_finite(dilation_ratio) && scaled(dilation_ratio) > 0 {
        Ok(())
    } else {
        Err(
            with_real(
                ErrorKind::ValueError,
                "dilation_ratio must be a positive finite float, got "@,
                dilation_ratio,
                ""@,
            ),
        )
    }
}

/// Refuse a width that is no positive finite number.
pub fn validate_dilation_ratio(dilation_ratio: u64) -> (r: Result<(), Failure>)
    ensures
        refused(r) == dilation_outcome(dilation_ratio),
{
    if !finite(dilation_ratio) || !above_zero(dilation_ratio) {
        return Err(
            Failure::with_real(
                ErrorKind::ValueError,
                String::from_str("dilation_ratio must be a positive finite float, got "),
                dilation_ratio,
                String::from_str(""),
            ),
        );
    }
    Ok(())
}

/// The comparison of outlines in a band of this width.
pub fn boundary_iou_type(dilation_ratio: u64) -> (r: Result<EvalIouType, Failure>)
    ensures
        match r {
            Ok(t) => dilation_outcome(dilation_ratio) is Ok && t@ == (IouTypeView::Boundary {
                dilation_ratio,
            }),
            Err(e) => dilation_outcome(dilation_ratio) == Err::<(), FailureView>(e@),
        },
{
    match validate_dilation_ratio(dilation_ratio) {
        Err(e) => Err(e),
        Ok(()) => Ok(EvalIouType::Boundary { dilation_ratio }),
    }
}

/// An entry of a dict of sigmas: what came of reading its key as a category
/// id and its value as a list of floats.
#[derive(Debug)]
pub struct SigmaEntry {
    pub category: Result<i64, Failure>,
    pub sigmas: Result<Vec<u64>, Failure>,
}

/// Each entry of a dict of sigmas, or why it is refused: the key first.
pub open spec fn sigma_reader(entries: Seq<SigmaEntry>) -> spec_fn(int) -> Result<
    (i64, Seq<u64>),
    FailureView,
> {
    |i: int|
        match (entries[i].category, entries[i].sigmas) {
            (Err(e), _) => Err(e@),
            (Ok(_), Err(e)) => Err(e@),
            (Ok(c), Ok(v)) => Ok((c, v@)),
        }
}

/// Entries as a map: of two with one key the later one stands.
pub open spec fn entries_map(s: Seq<(i64, Seq<u64>)>) -> Map<i64, Seq<u64>>
    decreases s.len(),
{
    if s.len() == 0 {
        Map::empty()
    } else {
        entries_map(s.drop_last()).insert(s.last().0, s.last().1)
    }
}

/// What reading a dict of sigmas gives.
pub open spec fn sigmas_outcome(entries: Seq<SigmaEntry>) -> Result<
    Map<i64, Seq<u64>>,
    FailureView,
> {
    match collected(sigma_reader(entries), entries.len()) {
        Err(e) => Err(e),
        Ok(s) => Ok(entries_map(s)),
    }
}

/// Read a dict of sigmas.
pub fn parse_sigmas(entries: Vec<SigmaEntry>) -> (r: Result<HashMap<i64, Vec<u64>>, Failure>)
    ensures
        match r {
            Ok(m) => sigmas_outcome(entries@) == Ok::<Map<i64, Seq<u64>>, FailureView>(
                sigmas_view(m),
            ),
            Err(e) => sigmas_outcome(entries@) == Err::<Map<i64, Seq<u64>>, FailureView>(e@),
        },
{
    let ghost given = entries@;
    let ghost f = sigma_reader(given);
    let mut out: HashMap<i64, Vec<u64>> = HashMap::new();
    assert(sigmas_view(out) =~= Map::<i64, Seq<u64>>::empty());
    #[verifier::loop_isolation(false)]
    for entry in iter: entries
        invariant
            iter.seq() == given,
            collected(f, iter.index() as nat) is Ok,
            sigmas_view(out) == entries_map(collected(f, iter.index() as nat)->Ok_0),
    {
        let ghost i = iter.index() as int;
        let ghost before = collected(f, i as nat)->Ok_0;
        assert(entry == given[i]);
        match entry.category {
            Err(e) => {
                proof {
                    assert(f(i) == Err::<(i64, Seq<u64>), FailureView>(e@));
                    assert(collected(f, (i + 1) as nat) is Err);
                    lemma_collected_refusal(f, (i + 1) as nat, given.len());
                }
                return Err(e);
            },
            Ok(category) => match entry.sigmas {
                Err(e) => {
                    proof {
                        assert(f(i) == Err::<(i64, Seq<u64>), FailureView>(e@));
                        assert(collected(f, (i + 1) as nat) is Err);
                        lemma_collected_refusal(f, (i + 1) as nat, given.len());
                    }
                    return Err(e);
                },
                Ok(v) => {
                    let ghost old_view = sigmas_view(out);
                    let ghost read = v@;
                    out.insert(category, v);
                    proof {
                        assert(f(i) == Ok::<(i64, Seq<u64>), FailureView>((category, read)));
                        assert(sigmas_view(out) =~= old_view.insert(category, read));
                        let after = before.push((category, read));
                        assert(after.drop_last() =~= before);
                        assert(collected(f, (i + 1) as nat)->Ok_0 == after);
                    }
                },
            },
        }
    }
    Ok(out)
}

// ---------------------------------------------------------------------------
// Axes
// ---------------------------------------------------------------------------

/// The steps of an axis: the usual ones, or those that were given.
#[derive(Debug)]
pub enum Ladder {
    Canonical,
    Given(Vec<u64>),
}

/// The mathematical value of a [`Ladder`].
#[verifier::ext_equal]
pub enum LadderView {
    Canonical,
    Given(Seq<u64>),
}

impl View for Ladder {
    type V = LadderView;

    open spec fn view(&self) -> LadderView {
        match self {
            Ladder::Canonical => LadderView::Canonical,
            Ladder::Given(v) => LadderView::Given(v@),
        }
    }
}

/// The ranges of sizes: the four of detections, the three of keypoints, or
/// those that were given.
#[derive(Debug)]
pub enum AreaAxis {
    Coco,
    Keypoints,
    Given(Vec<Bucket>),
}

/// The mathematical value of an [`AreaAxis`].
#[verifier::ext_equal]
pub enum AreaView {
    Coco,
    Keypoints,
    Given(Seq<BucketView>),
}

impl View for AreaAxis {
    type V = AreaView;

    open spec fn view(&self) -> AreaView {
        match self {
            AreaAxis::Coco => AreaView::Coco,
            AreaAxis::Keypoints => AreaView::Keypoints,
            AreaAxis::Given(v) => AreaView::Given(buckets_view(v@)),
        }
    }
}

/// The usual ranges of sizes.
pub open spec fn default_area(iou_type: IouTypeView) -> AreaView {
    if iou_type is Keypoints {
        AreaView::Keypoints
    } else {
        AreaView::Coco
    }
}

/// The usual ranges of sizes.
pub fn area_ranges_for(iou_type: &EvalIouType) -> (a: AreaAxis)
    ensures
        a@ == default_area(iou_type@),
{
    if iou_type.is_keypoints() {
        AreaAxis::Keypoints
    } else {
        AreaAxis::Coco
    }
}

/// Steps that were given stand, else the usual ones.
pub open spec fn ladder_of(given: Option<Vec<u64>>) -> LadderView {
    match given {
        None => LadderView::Canonical,
        Some(v) => LadderView::Given(v@),
    }
}

/// The ranges of sizes that an argument asks for.
pub open spec fn area_outcome(iou_type: IouTypeView, given: Option<PyBreakdown>) -> Result<
    AreaView,
    FailureView,
> {
    match given {
        None => Ok(default_area(iou_type)),
        Some(b) => match b@ {
            BreakdownView::Range { buckets, .. } => Ok(AreaView::Given(buckets)),
            BreakdownView::ClassGroups { .. } => Err(
                value_error(
                    "area_ranges must be a range Breakdown (Breakdown.from_ranges); \
                     class-groups breakdowns belong on semantic / panoptic class_grouping (ADR-0040)"@,
                ),
            ),
        },
    }
}

/// Copy the buckets of a breakdown.
fn copy_buckets(buckets: &Vec<Bucket>) -> (r: Vec<Bucket>)
    ensures
        buckets_view(r@) == buckets_view(buckets@),
{
    let mut r: Vec<Bucket> = Vec::new();
    let mut i: usize = 0;
    while i < buckets.len()
        invariant
            i <= buckets.len(),
            r@.len() == i,
            forall|k: int| 0 <= k < i ==> #[trigger] r@[k]@ == buckets@[k]@,
        decreases buckets.len() - i,
    {
        let b = &buckets[i];
        r.push(Bucket { index: b.index, label: b.label.clone(), lo: b.lo, hi: b.hi });
        i += 1;
    }
    assert(buckets_view(r@) =~= buckets_view(buckets@));
    r
}

/// The steps of a ladder argument.
fn ladder(given: Option<Vec<u64>>) -> (l: Ladder)
    ensures
        l@ == ladder_of(given),
{
    match given {
        None => Ladder::Canonical,
        Some(v) => Ladder::Given(v),
    }
}

/// The three axes of an evaluation. What is given is taken as it is, and
/// what is not falls back to the usual steps. Sizes are ranges: groups of
/// classes are refused.
pub fn resolve_grid_axes(
    iou_type: &EvalIouType,
    iou_thresholds: Option<Vec<u64>>,
    recall_thresholds: Option<Vec<u64>>,
    area_ranges: Option<&PyBreakdown>,
) -> (r: Result<(Ladder, Ladder, AreaAxis), Failure>)
    ensures
        match r {
            Ok((iou, recall, area)) => {
                &&& iou@ == ladder_of(iou_thresholds)
                &&& recall@ == ladder_of(recall_thresholds)
                &&& area_outcome(
                    iou_type@,
                    match area_ranges {
                        Some(b) => Some(*b),
                        None => None,
                    },
                ) == Ok::<AreaView, FailureView>(area@)
            },
            Err(e) => area_outcome(
                iou_type@,
                match area_ranges {
                    Some(b) => Some(*b),
                    None => None,
                },
            ) == Err::<AreaView, FailureView>(e@),
        },
{
    let area = match area_ranges {
        None => area_ranges_for(iou_type),
        Some(b) => match &b.inner {
            BreakdownInner::Range(r) => AreaAxis::Given(copy_buckets(&r.buckets)),
            BreakdownInner::ClassGroups(_) => {
                return Err(
                    Failure::value_error(
                        String::from_str(
                            "area_ranges must be a range Breakdown (Breakdown.from_ranges); \
                     class-groups breakdowns belong on semantic / panoptic class_grouping (ADR-0040)",
                        ),
                    ),
                );
            },
        },
    };
    Ok((ladder(iou_thresholds), ladder(recall_thresholds), area))
}

// ---------------------------------------------------------------------------
// Budgets and waits
// ---------------------------------------------------------------------------

/// How much memory an evaluator may use.
#[derive(Clone, Copy, Debug, PartialEq, Eq, Structural)]
pub enum MemoryBudget {
    /// What the machine suggests.
    Auto,
    /// So many bytes, with a warning once this fraction of them is used.
    Bytes { bytes: usize, soft_warn_fraction: u64 },
}

/// The bit pattern of 0.80.
pub const SOFT_WARN_FRACTION: u64 = 0x3FE9_9999_9999_999A;

/// The budget that an argument asks for.
pub fn memory_budget(bytes: Option<usize>) -> (b: MemoryBudget)
    ensures
        b == (match bytes {
            None => MemoryBudget::Auto,
            Some(n) => MemoryBudget::Bytes { bytes: n, soft_warn_fraction: SOFT_WARN_FRACTION },
        }),
{
    match bytes {
        None => MemoryBudget::Auto,
        Some(n) => MemoryBudget::Bytes { bytes: n, soft_warn_fraction: SOFT_WARN_FRACTION },
    }
}

/// A length of time that can be waited for.
pub open spec fn waitable(seconds: u64) -> bool {
    is_finite(seconds) && scaled(seconds) >= 0
}

/// What checking how long to wait for the end gives.
pub open spec fn shutdown_outcome(seconds: u64) -> Result<u64, FailureView> {
    if waitable(seconds) {
        Ok(seconds)
    } else {
        Err(
            with_real(
                ErrorKind::ValueError,
                "shutdown_timeout_seconds must be a non-negative finite float, got "@,
                seconds,
                ""@,
            ),
        )
    }
}

/// How long to wait for the end.
pub fn validate_shutdown_timeout(seconds: u64) -> (r: Result<u64, Failure>)
    ensures
        refused(r) == shutdown_outcome(seconds),
{
    if !finite(seconds) || below_zero(seconds) {
        return Err(
            Failure::with_real(
                ErrorKind::ValueError,
                String::from_str(
                    "shutdown_timeout_seconds must be a non-negative finite float, got ",
                ),
                seconds,
                String::from_str(""),
            ),
        );
    }
    Ok(seconds)
}

/// What checking how long to wait for a place in the queue gives.
pub open spec fn submit_timeout_outcome(timeout: Option<u64>) -> Result<Option<u64>, FailureView> {
    match timeout {
        None => Ok(None),
        Some(t) => if waitable(t) {
            Ok(Some(t))
        } else {
            Err(
                with_real(
                    ErrorKind::ValueError,
                    "timeout must be a non-negative finite float or None, got "@,
                    t,
                    ""@,
                ),
            )
        },
    }
}

/// How long to wait for a place in the queue: without a limit where there is
/// no argument.
pub fn validate_submit_timeout(timeout: Option<u64>) -> (r: Result<Option<u64>, Failure>)
    ensures
        refused(r) == submit_timeout_outcome(timeout),
{
    match timeout {
        None => Ok(None),
        Some(t) => {
            if !finite(t) || below_zero(t) {
                return Err(
                    Failure::with_real(
                        ErrorKind::ValueError,
                        String::from_str(
                            "timeout must be a non-negative finite float or None, got ",
                        ),
                        t,
                        String::from_str(""),
                    ),
                );
            }
            Ok(Some(t))
        },
    }
}

// ---------------------------------------------------------------------------
// What the settings are for
// ---------------------------------------------------------------------------

/// A rule book is followed exactly where its own word is given.
pub proof fn law_parity_words(s: Seq<char>)
    ensures
        (parity_outcome(s) matches Ok(m) && m is Strict) <==> s == "strict"@,
        (parity_outcome(s) matches Ok(m) && m is Corrected) <==> s == "corrected"@,
        parity_outcome(s) is Err <==> s != "strict"@ && s != "corrected"@,
{
    reveal_strlit("strict");
    reveal_strlit("corrected");
    assert("strict"@.len() != "corrected"@.len());
}

/// A list of statistics is chosen exactly where its own word is given.
pub proof fn law_plan_words(s: Seq<char>)
    ensures
        (plan_outcome(s) matches Ok(p) && p is Detection) <==> s == "detection"@,
        (plan_outcome(s) matches Ok(p) && p is Keypoints) <==> s == "keypoints"@,
        plan_outcome(s) is Err <==> s != "detection"@ && s != "keypoints"@,
{
    reveal_strlit("detection");
    reveal_strlit("keypoints");
    assert("detection"@[0] != "keypoints"@[0]);
}

/// A band has a width exactly where the ratio is a positive finite number,
/// and it is that ratio.
pub proof fn law_band_keeps_its_width(ratio: u64, t: EvalIouType)
    requires
        dilation_outcome(ratio) is Ok,
        t@ == (IouTypeView::Boundary { dilation_ratio: ratio }),
    ensures
        is_finite(ratio) && scaled(ratio) > 0,
        t matches EvalIouType::Boundary { dilation_ratio } && dilation_ratio == ratio,
{
}

/// A ratio that is positive and finite is never refused.
pub proof fn law_positive_ratios_are_taken(ratio: u64)
    ensures
        dilation_outcome(ratio) is Err <==> !is_finite(ratio) || scaled(ratio) <= 0,
{
}

/// The fields that detections carry are those of the comparison that is made.
pub proof fn law_fields_go_with_the_comparison(t: EvalIouType)
    ensures
        t@.fields() is Bbox <==> t is Bbox,
        t@.fields() is Segm <==> t is Segm,
        t@.fields() is Boundary <==> t is Boundary,
        t@.fields() is Keypoints <==> t is Keypoints,
{
}

/// The usual sizes of keypoints go with keypoints, and those of detections
/// with every other comparison.
pub proof fn law_usual_sizes_go_with_the_comparison(t: EvalIouType, a: AreaAxis)
    requires
        a@ == default_area(t@),
    ensures
        t is Keypoints ==> a is Keypoints,
        !(t is Keypoints) ==> a is Coco,
{
}

/// Steps that are given are the steps, one for one, and only where none are
/// given do the usual ones stand in.
pub proof fn law_steps_are_as_given(given: Option<Vec<u64>>, l: Ladder)
    requires
        l@ == ladder_of(given),
    ensures
        given matches Some(v) ==> (l matches Ladder::Given(w) && w@ == v@),
        given is None ==> l is Canonical,
{
}

/// Ranges of sizes that are given are the ranges, one for one; groups of
/// classes are refused; and without an argument the usual sizes stand in.
pub proof fn law_sizes_are_as_given(
    t: EvalIouType,
    given: Option<PyBreakdown>,
    r: Result<AreaAxis, Failure>,
)
    requires
        match r {
            Ok(a) => area_outcome(t@, given) == Ok::<AreaView, FailureView>(a@),
            Err(e) => area_outcome(t@, given) == Err::<AreaView, FailureView>(e@),
        },
    ensures
        given is None ==> (r matches Ok(a) && if t is Keypoints {
            a is Keypoints
        } else {
            a is Coco
        }),
        given matches Some(b) ==> match b.inner {
            BreakdownInner::Range(ranges) => {
                &&& r matches Ok(AreaAxis::Given(v))
                &&& v@.len() == ranges.buckets@.len()
                &&& forall|i: int|
                    0 <= i < v@.len() ==> {
                        &&& (#[trigger] v@[i]).label@ == ranges.buckets@[i].label@
                        &&& v@[i].index == ranges.buckets@[i].index
                        &&& v@[i].lo == ranges.buckets@[i].lo
                        &&& v@[i].hi == ranges.buckets@[i].hi
                    }
            },
            BreakdownInner::ClassGroups(_) => r is Err,
        },
{
    if let Some(b) = given {
        if let BreakdownInner::Range(ranges) = b.inner {
            let want = buckets_view(ranges.buckets@);
            if let Ok(AreaAxis::Given(v)) = r {
                let got = buckets_view(v@);
                assert(got == want);
                assert(got.len() == want.len());
                assert forall|i: int| 0 <= i < v@.len() implies {
                    &&& (#[trigger] v@[i]).label@ == ranges.buckets@[i].label@
                    &&& v@[i].index == ranges.buckets@[i].index
                    &&& v@[i].lo == ranges.buckets@[i].lo
                    &&& v@[i].hi == ranges.buckets@[i].hi
                } by {
                    assert(got[i] == want[i]);
                    assert(got[i] == v@[i]@);
                    assert(want[i] == ranges.buckets@[i]@);
                }
            }
        }
    }
}

/// A category has sigmas exactly where an entry names it, and they are those
/// of the last entry that does.
pub proof fn law_sigmas_are_those_of_their_category(
    entries: Seq<SigmaEntry>,
    m: Map<i64, Seq<u64>>,
    c: i64,
)
    requires
        sigmas_outcome(entries) == Ok::<Map<i64, Seq<u64>>, FailureView>(m),
    ensures
        m.dom().contains(c) <==> exists|i: int|
            0 <= i < entries.len() && (#[trigger] entries[i]).category == Ok::<i64, Failure>(c),
        forall|i: int|
            0 <= i < entries.len() && (#[trigger] entries[i]).category == Ok::<i64, Failure>(c) && (
            forall|j: int|
                i < j < entries.len() ==> (#[trigger] entries[j]).category != Ok::<i64, Failure>(c))
                ==> entries[i].sigmas is Ok && m[c] == entries[i].sigmas->Ok_0@,
{
    let f = sigma_reader(entries);
    let s = collected(f, entries.len())->Ok_0;
    crate::collect::lemma_collected_items(f, entries.len());
    assert(m == entries_map(s));
    assert forall|i: int| 0 <= i < entries.len() implies {
        &&& (#[trigger] entries[i]).category == Ok::<i64, Failure>(s[i].0)
        &&& entries[i].sigmas is Ok
        &&& entries[i].sigmas->Ok_0@ == s[i].1
    } by {
        assert(f(i) == Ok::<(i64, Seq<u64>), FailureView>(s[i]));
    }
    if m.dom().contains(c) {
        let i = lemma_entry_keys(s, c);
        assert(entries[i].category == Ok::<i64, Failure>(c));
    }
    if exists|i: int|
        0 <= i < entries.len() && (#[trigger] entries[i]).category == Ok::<i64, Failure>(c) {
        let i = choose|i: int|
            0 <= i < entries.len() && (#[trigger] entries[i]).category == Ok::<i64, Failure>(c);
        assert(s[i].0 == c);
        lemma_last_entry_stands(s, c, i);
    }
    assert forall|i: int|
        0 <= i < entries.len() && (#[trigger] entries[i]).category == Ok::<i64, Failure>(c) && (
        forall|j: int|
            i < j < entries.len() ==> (#[trigger] entries[j]).category != Ok::<i64, Failure>(
                c,
            )) implies entries[i].sigmas is Ok && m[c] == entries[i].sigmas->Ok_0@ by {
        assert(s[i].0 == c);
        assert forall|j: int| i < j < s.len() implies (#[trigger] s[j]).0 != c by {
            assert(entries[j].category != Ok::<i64, Failure>(c));
        }
        lemma_last_entry_stands(s, c, i);
    }
}

/// A key of the map is a key of an entry.
proof fn lemma_entry_keys(s: Seq<(i64, Seq<u64>)>, c: i64) -> (i: int)
    requires
        entries_map(s).dom().contains(c),
    ensures
        0 <= i < s.len(),
        s[i].0 == c,
    decreases s.len(),
{
    if s.last().0 == c {
        s.len() - 1
    } else {
        lemma_entry_keys(s.drop_last(), c)
    }
}

/// The last entry with a key stands.
proof fn lemma_last_entry_stands(s: Seq<(i64, Seq<u64>)>, c: i64, i: int)
    requires
        0 <= i < s.len(),
        s[i].0 == c,
    ensures
        entries_map(s).dom().contains(c),
        (forall|j: int| i < j < s.len() ==> (#[trigger] s[j]).0 != c) ==> entries_map(s)[c]
            == s[i].1,
    decreases s.len(),
{
    if i < s.len() - 1 {
        let rest = s.drop_last();
        lemma_last_entry_stands(rest, c, i);
        if forall|j: int| i < j < s.len() ==> (#[trigger] s[j]).0 != c {
            assert(s[s.len() - 1].0 != c);
            assert forall|j: int| i < j < rest.len() implies (#[trigger] rest[j]).0 != c by {
                assert(s[j].0 != c);
            }
        }
    }
}

/// A wait that is taken is the wait that was asked for, and it is taken
/// exactly where it is finite and not negative.
pub proof fn law_waits_are_kept(seconds: u64)
    ensures
        shutdown_outcome(seconds) is Ok <==> is_finite(seconds) && scaled(seconds) >= 0,
        shutdown_outcome(seconds) matches Ok(s) ==> s == seconds,
        submit_timeout_outcome(Some(seconds)) is Ok <==> is_finite(seconds) && scaled(seconds) >= 0,
        submit_timeout_outcome(Some(seconds)) matches Ok(t) ==> t == Some(seconds),
        submit_timeout_outcome(None) matches Ok(t) && t is None,
{
}

/// The largest entry of a ladder is one of its entries, none is larger, and
/// there is one such number only.
pub proof fn law_largest_entry_is_one(s: Seq<usize>, n: usize, m: usize)
    requires
        largest(s, n),
    ensures
        exists|i: int| 0 <= i < s.len() && s[i] == n,
        forall|i: int| 0 <= i < s.len() ==> s[i] <= n,
        largest(s, m) ==> m == n,
{
    assert(s.contains(n));
    if largest(s, m) {
        assert(s.contains(m));
    }
}

/// A list in order has the entries that were given, as often as they were
/// given, and ascends.
pub proof fn law_lists_in_order_keep_their_entries(s: Seq<usize>, of: Seq<usize>, x: usize)
    requires
        in_order(s, of),
    ensures
        s.len() == of.len(),
        s.contains(x) <==> of.contains(x),
        forall|i: int, j: int| 0 <= i <= j < s.len() ==> s[i] <= s[j],
{
    s.to_multiset_ensures();
    of.to_multiset_ensures();
    assert(s.contains(x) <==> s.to_multiset().count(x) > 0);
    assert(of.contains(x) <==> of.to_multiset().count(x) > 0);
}

} // verus!
