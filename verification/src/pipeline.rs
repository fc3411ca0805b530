//! Evaluations in one go: what is asked for, from the grid of cells to its
//! summary.

use crate::breakdown::{BreakdownInner, PyBreakdown};
use crate::config::{area_outcome, area_ranges_for, default_area, dilation_outcome, in_order,
    ladder_of, ladder_refusal, law_parity_words, law_sizes_are_as_given, parity_outcome, parse_parity_mode, parse_summarize_plan,
    plan_outcome, require_nonempty_max_dets, resolve_grid_axes, sort_max_dets,
    validate_dilation_ratio, AreaAxis, AreaView, EvalIouType, IouTypeView, Ladder, LadderView,
    ParityMode, SummarizePlan};
use crate::failure::{refused, value_error, Failure, FailureView};
use crate::float_bits::{is_finite, scaled};
use crate::ids::{ids_sorted, sort_ids};
use crate::streaming::top_of;
use crate::text::{nat_text, usize_text};
use vstd::prelude::*;

verus! {

// ---------------------------------------------------------------------------
// Grids
// ---------------------------------------------------------------------------

/// What a grid of cells is computed from.
#[derive(Debug)]
pub struct GridPlan {
    pub parity: ParityMode,
    pub iou_thresholds: Ladder,
    pub recall_thresholds: Ladder,
    pub area: AreaAxis,
}

/// The mathematical value of a [`GridPlan`].
#[verifier::ext_equal]
pub struct GridPlanView {
    pub parity: ParityMode,
    pub iou_thresholds: LadderView,
    pub recall_thresholds: LadderView,
    pub area: AreaView,
}

impl View for GridPlan {
    type V = GridPlanView;

    open spec fn view(&self) -> GridPlanView {
        GridPlanView {
            parity: self.parity,
            iou_thresholds: self.iou_thresholds@,
            recall_thresholds: self.recall_thresholds@,
            area: self.area@,
        }
    }
}

/// A breakdown that was lent.
pub open spec fn lent(b: Option<&PyBreakdown>) -> Option<PyBreakdown> {
    match b {
        Some(b) => Some(*b),
        None => None,
    }
}

/// What planning a grid gives: the rule book first, then the axes.
pub open spec fn grid_outcome(
    kernel: IouTypeView,
    parity_mode: Seq<char>,
    iou_thresholds: Option<Vec<u64>>,
    recall_thresholds: Option<Vec<u64>>,
    area_ranges: Option<PyBreakdown>,
) -> Result<GridPlanView, FailureView> {
    match parity_outcome(parity_mode) {
        Err(e) => Err(e),
        Ok(parity) => match area_outcome(kernel, area_ranges) {
            Err(e) => Err(e),
            Ok(area) => Ok(
                GridPlanView {
                    parity,
                    iou_thresholds: ladder_of(iou_thresholds),
                    recall_thresholds: ladder_of(recall_thresholds),
                    area,
                },
            ),
        },
    }
}

/// Plan a grid.
pub fn plan_grid(
    kernel: &EvalIouType,
    parity_mode: &str,
    iou_thresholds: Option<Vec<u64>>,
    recall_thresholds: Option<Vec<u64>>,
    area_ranges: Option<&PyBreakdown>,
) -> (r: Result<GridPlan, Failure>)
    ensures
        r matches Ok(p) ==> {
            &&& iou_thresholds matches Some(v) ==> (p.iou_thresholds matches Ladder::Given(w) && w@
                == v@)
            &&& iou_thresholds is None ==> p.iou_thresholds is Canonical
            &&& recall_thresholds matches Some(v) ==> (p.recall_thresholds matches Ladder::Given(w)
                && w@ == v@)
            &&& recall_thresholds is None ==> p.recall_thresholds is Canonical
            &&& p.parity is Strict <==> parity_mode@ == "strict"@
        },
        match r {
            Ok(p) => grid_outcome(
                kernel@,
                parity_mode@,
                iou_thresholds,
                recall_thresholds,
                lent(area_ranges),
            ) == Ok::<GridPlanView, FailureView>(p@),
            Err(e) => grid_outcome(
                kernel@,
                parity_mode@,
                iou_thresholds,
                recall_thresholds,
                lent(area_ranges),
            ) == Err::<GridPlanView, FailureView>(e@),
        },
{
    proof {
        law_parity_words(parity_mode@);
    }
    let parity = match parse_parity_mode(parity_mode) {
        Err(e) => return Err(e),
        Ok(p) => p,
    };
    match resolve_grid_axes(kernel, iou_thresholds, recall_thresholds, area_ranges) {
        Err(e) => Err(e),
        Ok((iou_thresholds, recall_thresholds, area)) => Ok(
            GridPlan { parity, iou_thresholds, recall_thresholds, area },
        ),
    }
}

/// A grid is computed at the thresholds, recalls and sizes that were asked
/// for, each taken from its own argument, and under the rule book that was
/// named. The usual ones stand in only where an argument is left out.
pub proof fn law_grid_is_the_one_asked_for(
    kernel: EvalIouType,
    parity_mode: Seq<char>,
    iou_thresholds: Option<Vec<u64>>,
    recall_thresholds: Option<Vec<u64>>,
    area_ranges: Option<PyBreakdown>,
    p: GridPlan,
)
    requires
        grid_outcome(kernel@, parity_mode, iou_thresholds, recall_thresholds, area_ranges) == Ok::<
            GridPlanView,
            FailureView,
        >(p@),
    ensures
        iou_thresholds matches Some(v) ==> (p.iou_thresholds matches Ladder::Given(w) && w@ == v@),
        iou_thresholds is None ==> p.iou_thresholds is Canonical,
        recall_thresholds matches Some(v) ==> (p.recall_thresholds matches Ladder::Given(w) && w@
            == v@),
        recall_thresholds is None ==> p.recall_thresholds is Canonical,
        p.parity is Strict <==> parity_mode == "strict"@,
        p.parity is Corrected <==> parity_mode == "corrected"@,
        area_ranges is None ==> (p.area is Keypoints <==> kernel is Keypoints),
        area_ranges is None ==> (p.area is Coco <==> !(kernel is Keypoints)),
        area_ranges matches Some(b) ==> {
            &&& b.inner matches BreakdownInner::Range(ranges)
            &&& p.area matches AreaAxis::Given(v)
            &&& v@.len() == ranges.buckets@.len()
            &&& forall|i: int|
                0 <= i < v@.len() ==> {
                    &&& (#[trigger] v@[i]).label@ == ranges.buckets@[i].label@
                    &&& v@[i].index == ranges.buckets@[i].index
                    &&& v@[i].lo == ranges.buckets@[i].lo
                    &&& v@[i].hi == ranges.buckets@[i].hi
                }
        },
{
    law_parity_words(parity_mode);
    law_sizes_are_as_given(kernel, area_ranges, Ok(p.area));
}

/// A grid is refused only for a word that names no rule book, or for sizes
/// that are no ranges.
pub proof fn law_grids_are_refused_for_cause(
    kernel: EvalIouType,
    parity_mode: Seq<char>,
    iou_thresholds: Option<Vec<u64>>,
    recall_thresholds: Option<Vec<u64>>,
    area_ranges: Option<PyBreakdown>,
)
    ensures
        grid_outcome(kernel@, parity_mode, iou_thresholds, recall_thresholds, area_ranges) is Err
            <==> (parity_mode != "strict"@ && parity_mode != "corrected"@) || (
        area_ranges matches Some(b) && b.inner is ClassGroups),
{
    law_parity_words(parity_mode);
}

/// How many detections of an image a federated dataset lets in: any number
/// where the limit is too large to be written with a sign. Other datasets
/// do not trim.
pub fn trim_cap(federated: bool, max_dets_per_image: usize) -> (cap: Option<i64>)
    ensures
        match cap {
            None => !federated,
            Some(c) => federated && if max_dets_per_image <= i64::MAX {
                c == max_dets_per_image
            } else {
                c < 0 && c == max_dets_per_image - 0x1_0000_0000_0000_0000
            },
        },
{
    if !federated {
        return None;
    }
    let n: u64 = max_dets_per_image as u64;
    if n <= 0x7FFF_FFFF_FFFF_FFFF {
        Some(n as i64)
    } else {
        let below: u64 = 0xFFFF_FFFF_FFFF_FFFF - n;
        Some(-1 - (below as i64))
    }
}

/// Flags as bytes, one for one.
pub fn flag_bytes(flags: &Vec<bool>) -> (out: Vec<u8>)
    ensures
        out@ == flags@.map_values(
            |b: bool|
                if b {
                    1u8
                } else {
                    0u8
                },
        ),
{
    let mut out: Vec<u8> = Vec::new();
    let mut i: usize = 0;
    while i < flags.len()
        invariant
            i <= flags.len(),
            out@.len() == i,
            forall|k: int|
                0 <= k < i ==> #[trigger] out@[k] == (if flags@[k] {
                    1u8
                } else {
                    0u8
                }),
        decreases flags.len() - i,
    {
        out.push(
            if flags[i] {
                1
            } else {
                0
            },
        );
        i += 1;
    }
    out
}

/// What is said where detections are asked for that were not kept.
pub const DETECTIONS_NOT_KEPT: &'static str = "per_detection table requires the grid to be built with retain_iou=true; rebuild via `tables=('per_detection', ...)`";

/// What is said where overlaps are asked for that were not kept.
pub const OVERLAPS_NOT_KEPT: &'static str = "per_pair requires the upstream grid to have been built with retain_iou=True";

/// The detections that a grid has kept.
pub fn kept_detections<D>(kept: Option<D>) -> (r: Result<D, Failure>)
    ensures
        match (kept, r) {
            (Some(d), Ok(found)) => found == d,
            (None, Err(e)) => e@ == value_error(DETECTIONS_NOT_KEPT@),
            _ => false,
        },
{
    match kept {
        Some(d) => Ok(d),
        None => Err(Failure::value_error(String::from_str(DETECTIONS_NOT_KEPT))),
    }
}

// ---------------------------------------------------------------------------
// Summaries
// ---------------------------------------------------------------------------

/// What a summary is computed from.
#[derive(Debug)]
pub struct SummaryRequest {
    pub parity: ParityMode,
    /// How many detections of an image are looked at, in ascending order.
    pub max_dets: Vec<usize>,
    pub max_dets_per_image: usize,
    pub area: AreaAxis,
    pub plan: SummarizePlan,
}

/// The list of statistics that goes with a comparison.
pub open spec fn plan_for(kernel: IouTypeView) -> SummarizePlan {
    if kernel is Keypoints {
        SummarizePlan::Keypoints
    } else {
        SummarizePlan::Detection
    }
}

/// The list of statistics that goes with a comparison.
pub fn summary_plan(kernel: &EvalIouType) -> (p: SummarizePlan)
    ensures
        p == plan_for(kernel@),
{
    if kernel.is_keypoints() {
        SummarizePlan::Keypoints
    } else {
        SummarizePlan::Detection
    }
}

/// Check a ladder and sort it.
pub fn sorted_ladder(max_dets: Vec<usize>) -> (r: Result<Vec<usize>, Failure>)
    ensures
        match r {
            Ok(sorted) => max_dets@.len() > 0 && in_order(sorted@, max_dets@) && sorted@.len()
                == max_dets@.len(),
            Err(e) => max_dets@.len() == 0 && e@ == ladder_refusal(),
        },
{
    match require_nonempty_max_dets(&max_dets) {
        Err(e) => return Err(e),
        Ok(()) => {},
    }
    let mut sorted = max_dets;
    sort_max_dets(&mut sorted);
    Ok(sorted)
}

/// The largest entry of an ascending ladder is its last.
proof fn lemma_last_is_top(sorted: Seq<usize>)
    requires
        sorted.len() > 0,
        crate::config::ascending(sorted),
    ensures
        top_of(sorted) == sorted.last(),
    decreases sorted.len(),
{
    if sorted.len() > 1 {
        lemma_last_is_top(sorted.drop_last());
    }
}

/// Plan a summary: the rule book first, then the ladder. The usual ranges of
/// sizes and the list of statistics go with the comparison.
pub fn plan_summary(kernel: &EvalIouType, parity_mode: &str, max_dets: Vec<usize>) -> (r: Result<
    SummaryRequest,
    Failure,
>)
    ensures
        match parity_outcome(parity_mode@) {
            Err(e) => r matches Err(f) && f@ == e,
            Ok(parity) => match r {
                Err(f) => max_dets@.len() == 0 && f@ == ladder_refusal(),
                Ok(p) => {
                    &&& max_dets@.len() > 0
                    &&& p.parity == parity
                    &&& in_order(p.max_dets@, max_dets@)
                    &&& p.max_dets_per_image == top_of(p.max_dets@)
                    &&& p.max_dets_per_image == p.max_dets@.last()
                    &&& p.area@ == default_area(kernel@)
                    &&& p.plan == plan_for(kernel@)
                },
            },
        },
{
    let parity = match parse_parity_mode(parity_mode) {
        Err(e) => return Err(e),
        Ok(p) => p,
    };
    let max_dets = match sorted_ladder(max_dets) {
        Err(e) => return Err(e),
        Ok(m) => m,
    };
    let n: usize = max_dets.len();
    let top: usize = max_dets[n - 1];
    proof {
        lemma_last_is_top(max_dets@);
    }
    Ok(
        SummaryRequest {
            parity,
            max_dets,
            max_dets_per_image: top,
            area: area_ranges_for(kernel),
            plan: summary_plan(kernel),
        },
    )
}

/// The ladder that a request asks for: the one that was built with, unless
/// another is given.
pub open spec fn asked_ladder(given: Option<Vec<usize>>, built: Seq<usize>) -> Seq<usize> {
    match given {
        Some(v) => v@,
        None => built,
    }
}

/// Check what an accumulator is to be summed up to: the list of statistics
/// first, which is that of detections unless another is named, then the
/// ladder.
pub fn summarize_request(
    plan: Option<&str>,
    max_dets: Option<Vec<usize>>,
    built: &Vec<usize>,
) -> (r: Result<(SummarizePlan, Vec<usize>), Failure>)
    ensures
        ({
            let asked = asked_ladder(max_dets, built@);
            let wanted: Result<SummarizePlan, FailureView> = match plan {
                None => Ok(SummarizePlan::Detection),
                Some(s) => plan_outcome(s@),
            };
            match wanted {
                Err(e) => r matches Err(f) && f@ == e,
                Ok(p) => match r {
                    Err(f) => asked.len() == 0 && f@ == ladder_refusal(),
                    Ok((q, ladder)) => asked.len() > 0 && q == p && in_order(ladder@, asked),
                },
            }
        }),
{
    let plan = match plan {
        None => SummarizePlan::Detection,
        Some(s) => match parse_summarize_plan(s) {
            Err(e) => return Err(e),
            Ok(p) => p,
        },
    };
    match asked_ladder_of(max_dets, built) {
        Err(e) => Err(e),
        Ok(ladder) => Ok((plan, ladder)),
    }
}

/// The ladder that a request asks for, checked and sorted.
fn asked_ladder_of(max_dets: Option<Vec<usize>>, built: &Vec<usize>) -> (r: Result<
    Vec<usize>,
    Failure,
>)
    ensures
        match r {
            Ok(ladder) => asked_ladder(max_dets, built@).len() > 0 && in_order(
                ladder@,
                asked_ladder(max_dets, built@),
            ),
            Err(f) => asked_ladder(max_dets, built@).len() == 0 && f@ == ladder_refusal(),
        },
{
    let ladder = match max_dets {
        Some(v) => v,
        None => {
            let v = built.clone();
            assert(v@ =~= built@);
            v
        },
    };
    sorted_ladder(ladder)
}

/// Check what an accumulator of a federated dataset is to be summed up to:
/// the ladder, and the categories in ascending order.
pub fn summarize_lvis_request(
    max_dets: Option<Vec<usize>>,
    built: &Vec<usize>,
    category_ids: &Vec<i64>,
) -> (r: Result<(Vec<usize>, Vec<i64>), Failure>)
    ensures
        ({
            let asked = asked_ladder(max_dets, built@);
            match r {
                Err(f) => asked.len() == 0 && f@ == ladder_refusal(),
                Ok((ladder, ids)) => {
                    &&& asked.len() > 0
                    &&& in_order(ladder@, asked)
                    &&& ids_sorted(ids@)
                    &&& ids@.to_multiset() == category_ids@.to_multiset()
                },
            }
        }),
{
    match asked_ladder_of(max_dets, built) {
        Err(e) => Err(e),
        Ok(ladder) => Ok((ladder, sort_ids(category_ids))),
    }
}

// ---------------------------------------------------------------------------
// Localization, recall and precision in one
// ---------------------------------------------------------------------------

/// What checking the settings of an evaluation of localization, recall and
/// precision gives: the width of the band first, where there is one, then
/// the rule book.
pub open spec fn lrp_outcome(parity_mode: Seq<char>, dilation_ratio: Option<u64>) -> Result<
    ParityMode,
    FailureView,
> {
    match dilation_ratio {
        Some(ratio) => match dilation_outcome(ratio) {
            Err(e) => Err(e),
            Ok(()) => parity_outcome(parity_mode),
        },
        None => parity_outcome(parity_mode),
    }
}

/// Check the settings of an evaluation of localization, recall and
/// precision.
pub fn check_lrp_pass(parity_mode: &str, dilation_ratio: Option<u64>) -> (r: Result<
    ParityMode,
    Failure,
>)
    ensures
        refused(r) == lrp_outcome(parity_mode@, dilation_ratio),
{
    if let Some(ratio) = dilation_ratio {
        match validate_dilation_ratio(ratio) {
            Err(e) => return Err(e),
            Ok(()) => {},
        }
    }
    parse_parity_mode(parity_mode)
}

// ---------------------------------------------------------------------------
// Descriptions
// ---------------------------------------------------------------------------

/// A short description of a summary.
pub fn summary_repr(lines: usize) -> (s: String)
    ensures
        s@ == "Summary(lines="@ + nat_text(lines as nat) + ")"@,
{
    let mut s = String::from_str("Summary(lines=");
    s.append(usize_text(lines).as_str());
    s.append(")");
    s
}

/// A short description of a grid.
pub fn grid_repr(n_categories: usize, n_area_ranges: usize, n_images: usize) -> (s: String)
    ensures
        s@ == "EvalGrid(n_categories="@ + nat_text(n_categories as nat) + ", n_area_ranges="@
            + nat_text(n_area_ranges as nat) + ", n_images="@ + nat_text(n_images as nat) + ")"@,
{
    let mut s = String::from_str("EvalGrid(n_categories=");
    s.append(usize_text(n_categories).as_str());
    s.append(", n_area_ranges=");
    s.append(usize_text(n_area_ranges).as_str());
    s.append(", n_images=");
    s.append(usize_text(n_images).as_str());
    s.append(")");
    s
}

/// A short description of an accumulator with a precision for each of so many
/// thresholds, recalls, categories, ranges of sizes and limits.
pub fn accumulated_repr(t: usize, r: usize, k: usize, a: usize, m: usize) -> (s: String)
    ensures
        s@ == "Accumulated(precision="@ + nat_text(t as nat) + "x"@ + nat_text(r as nat) + "x"@
            + nat_text(k as nat) + "x"@ + nat_text(a as nat) + "x"@ + nat_text(m as nat) + ")"@,
{
    let mut s = String::from_str("Accumulated(precision=");
    s.append(usize_text(t).as_str());
    s.append("x");
    s.append(usize_text(r).as_str());
    s.append("x");
    s.append(usize_text(k).as_str());
    s.append("x");
    s.append(usize_text(a).as_str());
    s.append("x");
    s.append(usize_text(m).as_str());
    s.append(")");
    s
}

/// The statistics and the sizes of keypoints go with keypoints, and those of
/// detections with every other comparison.
pub proof fn law_summary_goes_with_the_comparison(kernel: EvalIouType, p: SummaryRequest)
    requires
        p.plan == plan_for(kernel@),
        p.area@ == default_area(kernel@),
    ensures
        p.plan is Keypoints <==> kernel is Keypoints,
        p.plan is Detection <==> !(kernel is Keypoints),
        p.area is Keypoints <==> kernel is Keypoints,
        p.area is Coco <==> !(kernel is Keypoints),
{
}

/// The ladder of a summary holds the entries that were asked for, each as
/// often, and the largest of them is how many detections are looked at.
pub proof fn law_summary_ladder_is_the_one_asked_for(asked: Seq<usize>, ladder: Seq<usize>, n: usize)
    requires
        asked.len() > 0,
        in_order(ladder, asked),
        n == top_of(ladder),
    ensures
        ladder.len() == asked.len(),
        forall|x: usize| ladder.contains(x) <==> asked.contains(x),
        forall|i: int, j: int| 0 <= i <= j < ladder.len() ==> ladder[i] <= ladder[j],
        asked.contains(n),
        forall|i: int| 0 <= i < asked.len() ==> asked[i] <= n,
{
    broadcast use vstd::seq_lib::group_to_multiset_ensures;

    assert(ladder.to_multiset().len() == ladder.len());
    assert(asked.to_multiset().len() == asked.len());
    assert forall|x: usize| ladder.contains(x) <==> asked.contains(x) by {
        assert(ladder.to_multiset().count(x) > 0 <==> ladder.contains(x));
        assert(asked.to_multiset().count(x) > 0 <==> asked.contains(x));
    }
    lemma_last_is_top(ladder);
    assert(ladder[ladder.len() - 1] == n);
    assert(ladder.contains(n));
    assert forall|i: int| 0 <= i < asked.len() implies asked[i] <= n by {
        assert(asked.contains(asked[i]));
        let k = choose|k: int| 0 <= k < ladder.len() && ladder[k] == asked[i];
        assert(ladder[k] <= ladder[ladder.len() - 1]);
    }
}

/// A ladder that is given with a request is the one that counts; the one that
/// was built with counts only where none is given.
pub proof fn law_given_ladder_counts(given: Option<Vec<usize>>, built: Seq<usize>)
    ensures
        given matches Some(v) ==> asked_ladder(given, built) == v@,
        given is None ==> asked_ladder(given, built) == built,
{
}

/// An evaluation of localization, recall and precision follows the rule book
/// that is named, and a band is looked at only where there is one.
pub proof fn law_lrp_settings_are_those_given(parity_mode: Seq<char>, ratio: Option<u64>)
    ensures
        lrp_outcome(parity_mode, ratio) matches Ok(m) ==> {
            &&& m is Strict <==> parity_mode == "strict"@
            &&& m is Corrected <==> parity_mode == "corrected"@
        },
        lrp_outcome(parity_mode, ratio) is Ok <==> (parity_mode == "strict"@ || parity_mode
            == "corrected"@) && (ratio matches Some(r) ==> is_finite(r) && scaled(r) > 0),
{
    law_parity_words(parity_mode);
}

} // verus!
