//! Streaming and background evaluators: checking what they are asked for,
//! their lifecycle, and what they hand back.

use crate::array_ingest::{all_inputs, dicts_to_inputs, keypoints_fit, ArrayIouType,
    DetectionsDict};
use crate::background::BackgroundLifecycle;
use crate::batch::{batch_columns, batch_metadata, columns_agree, exports, keys_in_range, text_bytes,
    wrap_batch, ArrowRecordBatch, Batch, ColumnView};
use crate::collect::collected;
use crate::config::{area_ranges_for, boundary_iou_type, default_area, dilation_outcome,
    ladder_refusal, largest, law_parity_words, law_usual_sizes_go_with_the_comparison,
    law_waits_are_kept, memory_budget, parity_outcome, parse_parity_mode, parse_sigmas,
    resolve_max_dets, shutdown_outcome, sigmas_outcome, sigmas_view, validate_dilation_ratio,
    validate_shutdown_timeout, AreaAxis, AreaView, EvalIouType, IouTypeView, MemoryBudget,
    ParityMode, SigmaEntry};
use crate::errors::{Raised, Refusal, RefusalView};
use crate::failure::{type_error, value_error, Failure, FailureView};
use crate::float_bits::{is_finite, scaled};
use crate::model::{detections_view, DetectionInput, DetectionView};
use crate::result_ingest::{ann_dicts_to_inputs, ann_reader, matrix_reader, matrix_to_inputs,
    ResultDict};
use crate::tables::{per_class_columns, per_class_record_batch, per_detection_columns,
    per_detection_record_batch, per_image_columns, per_image_record_batch, per_pair_columns,
    per_pair_record_batch, table_stamp, PerClassTable, PerDetectionTable, PerImageTable,
    PerPairTable};
use crate::text::{debug_text, nat_text, quoted, same_text, usize_text};
use std::collections::HashMap;
use vstd::prelude::*;

verus! {

broadcast use vstd::std_specs::hash::group_hash_axioms;

// ---------------------------------------------------------------------------
// Settings
// ---------------------------------------------------------------------------

/// The settings that every evaluator shares.
#[derive(Clone, Copy, Debug, PartialEq, Eq, Structural)]
pub struct StreamSettings {
    pub parity: ParityMode,
    pub max_dets_per_image: usize,
    pub budget: MemoryBudget,
}

/// The largest entry of a ladder.
pub open spec fn top_of(s: Seq<usize>) -> usize
    decreases s.len(),
{
    if s.len() <= 1 {
        s[0]
    } else if top_of(s.drop_last()) < s.last() {
        s.last()
    } else {
        top_of(s.drop_last())
    }
}

/// There is one largest entry.
proof fn lemma_top(s: Seq<usize>, n: usize)
    requires
        s.len() > 0,
        largest(s, n),
    ensures
        top_of(s) == n,
    decreases s.len(),
{
    lemma_top_is_largest(s);
    let i = choose|i: int| 0 <= i < s.len() && s[i] == n;
    let j = choose|j: int| 0 <= j < s.len() && s[j] == top_of(s);
    assert(s[i] <= top_of(s));
    assert(s[j] <= n);
}

proof fn lemma_top_is_largest(s: Seq<usize>)
    requires
        s.len() > 0,
    ensures
        largest(s, top_of(s)),
    decreases s.len(),
{
    if s.len() == 1 {
        assert(s[0] == top_of(s));
    } else {
        let rest = s.drop_last();
        lemma_top_is_largest(rest);
        let i = choose|i: int| 0 <= i < rest.len() && rest[i] == top_of(rest);
        assert(s[i] == top_of(rest));
        assert(s[s.len() - 1] == s.last());
        assert forall|k: int| 0 <= k < s.len() implies s[k] <= top_of(s) by {
            if k < rest.len() {
                assert(rest[k] == s[k]);
            }
        }
    }
}

/// The budget that an argument asks for.
pub open spec fn budget_of(bytes: Option<usize>) -> MemoryBudget {
    match bytes {
        None => MemoryBudget::Auto,
        Some(n) => MemoryBudget::Bytes {
            bytes: n,
            soft_warn_fraction: crate::config::SOFT_WARN_FRACTION,
        },
    }
}

/// What checking the shared settings gives: the rule book first, then the
/// ladder.
pub open spec fn stream_settings_outcome(
    parity_mode: Seq<char>,
    max_dets: Seq<usize>,
    memory_budget_bytes: Option<usize>,
) -> Result<StreamSettings, FailureView> {
    match parity_outcome(parity_mode) {
        Err(e) => Err(e),
        Ok(parity) => if max_dets.len() == 0 {
            Err(ladder_refusal())
        } else {
            Ok(
                StreamSettings {
                    parity,
                    max_dets_per_image: top_of(max_dets),
                    budget: budget_of(memory_budget_bytes),
                },
            )
        },
    }
}

/// Check the shared settings.
pub fn stream_settings(
    parity_mode: &str,
    max_dets: Vec<usize>,
    memory_budget_bytes: Option<usize>,
) -> (r: Result<StreamSettings, Failure>)
    ensures
        crate::failure::refused(r) == stream_settings_outcome(
            parity_mode@,
            max_dets@,
            memory_budget_bytes,
        ),
{
    let parity = match parse_parity_mode(parity_mode) {
        Err(e) => return Err(e),
        Ok(p) => p,
    };
    let ghost ladder = max_dets@;
    match resolve_max_dets(max_dets) {
        Err(e) => Err(e),
        Ok((_, top)) => {
            proof {
                lemma_top(ladder, top);
            }
            Ok(
                StreamSettings {
                    parity,
                    max_dets_per_image: top,
                    budget: memory_budget(memory_budget_bytes),
                },
            )
        },
    }
}

/// What is said of a comparison that does not exist.
pub open spec fn unknown_kernel(iou_type: Seq<char>) -> Seq<char> {
    "invalid iou_type "@ + debug_text(iou_type)
        + "; expected 'bbox', 'segm', 'boundary', or 'keypoints'"@
}

fn write_unknown_kernel(iou_type: &str) -> (m: String)
    ensures
        m@ == unknown_kernel(iou_type@),
{
    let mut m = String::from_str("invalid iou_type ");
    m.append(quoted(iou_type).as_str());
    m.append("; expected 'bbox', 'segm', 'boundary', or 'keypoints'");
    m
}

/// Sigmas that may be left out.
pub open spec fn optional_sigmas(sigmas: Option<Vec<SigmaEntry>>) -> Result<
    Map<i64, Seq<u64>>,
    FailureView,
> {
    match sigmas {
        None => Ok(Map::empty()),
        Some(entries) => sigmas_outcome(entries@),
    }
}

fn read_optional_sigmas(sigmas: Option<Vec<SigmaEntry>>) -> (r: Result<
    HashMap<i64, Vec<u64>>,
    Failure,
>)
    ensures
        match r {
            Ok(m) => optional_sigmas(sigmas) == Ok::<Map<i64, Seq<u64>>, FailureView>(
                sigmas_view(m),
            ),
            Err(e) => optional_sigmas(sigmas) == Err::<Map<i64, Seq<u64>>, FailureView>(e@),
        },
{
    match sigmas {
        None => {
            let m: HashMap<i64, Vec<u64>> = HashMap::new();
            assert(sigmas_view(m) =~= Map::empty());
            Ok(m)
        },
        Some(entries) => parse_sigmas(entries),
    }
}

/// What the word for a comparison stands for. The width of the band is
/// looked at for outlines only, and sigmas for keypoints only.
pub open spec fn kernel_outcome(
    iou_type: Seq<char>,
    dilation_ratio: u64,
    sigmas: Option<Vec<SigmaEntry>>,
) -> Result<IouTypeView, FailureView> {
    if iou_type == "bbox"@ {
        Ok(IouTypeView::Bbox)
    } else if iou_type == "segm"@ {
        Ok(IouTypeView::Segm)
    } else if iou_type == "boundary"@ {
        match dilation_outcome(dilation_ratio) {
            Err(e) => Err(e),
            Ok(()) => Ok(IouTypeView::Boundary { dilation_ratio }),
        }
    } else if iou_type == "keypoints"@ {
        match optional_sigmas(sigmas) {
            Err(e) => Err(e),
            Ok(m) => Ok(IouTypeView::Keypoints { sigmas: m }),
        }
    } else {
        Err(value_error(unknown_kernel(iou_type)))
    }
}

/// A comparison or why there is none, by its mathematical value.
pub open spec fn kernel_view(r: Result<EvalIouType, Failure>) -> Result<IouTypeView, FailureView> {
    match r {
        Ok(k) => Ok(k@),
        Err(e) => Err(e@),
    }
}

/// Read the word for a comparison.
pub fn choose_kernel(iou_type: &str, dilation_ratio: u64, sigmas: Option<Vec<SigmaEntry>>) -> (r:
    Result<EvalIouType, Failure>)
    ensures
        kernel_view(r) == kernel_outcome(iou_type@, dilation_ratio, sigmas),
{
    if same_text(iou_type, "bbox") {
        Ok(EvalIouType::Bbox)
    } else if same_text(iou_type, "segm") {
        Ok(EvalIouType::Segm)
    } else if same_text(iou_type, "boundary") {
        boundary_iou_type(dilation_ratio)
    } else if same_text(iou_type, "keypoints") {
        match read_optional_sigmas(sigmas) {
            Err(e) => Err(e),
            Ok(sigmas) => Ok(EvalIouType::Keypoints { sigmas }),
        }
    } else {
        Err(Failure::value_error(write_unknown_kernel(iou_type)))
    }
}

// ---------------------------------------------------------------------------
// Plans
// ---------------------------------------------------------------------------

/// The arguments that an evaluator is made from, but for the dataset.
#[derive(Debug)]
pub struct StreamArguments {
    pub iou_type: String,
    pub parity_mode: String,
    pub max_dets: Vec<usize>,
    pub use_cats: bool,
    pub memory_budget_bytes: Option<usize>,
    pub dilation_ratio: u64,
    pub sigmas: Option<Vec<SigmaEntry>>,
    pub retain_iou: bool,
}

/// What an evaluator is made from, checked.
#[derive(Debug)]
pub struct EvaluatorPlan<D> {
    pub settings: StreamSettings,
    pub dataset: D,
    pub kernel: EvalIouType,
    pub area: AreaAxis,
    pub use_cats: bool,
    pub retain_iou: bool,
}

/// The mathematical value of an [`EvaluatorPlan`].
#[verifier::ext_equal]
#[verifier::reject_recursive_types(D)]
pub struct PlanView<D> {
    pub settings: StreamSettings,
    pub dataset: D,
    pub kernel: IouTypeView,
    pub area: AreaView,
    pub use_cats: bool,
    pub retain_iou: bool,
}

impl<D> View for EvaluatorPlan<D> {
    type V = PlanView<D>;

    open spec fn view(&self) -> PlanView<D> {
        PlanView {
            settings: self.settings,
            dataset: self.dataset,
            kernel: self.kernel@,
            area: self.area@,
            use_cats: self.use_cats,
            retain_iou: self.retain_iou,
        }
    }
}

/// The plan for a comparison that was chosen: its usual ranges of sizes go
/// with it.
pub open spec fn plan_of<D>(
    settings: StreamSettings,
    dataset: D,
    kernel: IouTypeView,
    use_cats: bool,
    retain_iou: bool,
) -> PlanView<D> {
    PlanView { settings, dataset, kernel, area: default_area(kernel), use_cats, retain_iou }
}

/// A plan or why there is none, by its mathematical value.
pub open spec fn plan_view<D>(r: Result<EvaluatorPlan<D>, Refusal>) -> Result<
    PlanView<D>,
    RefusalView,
> {
    match r {
        Ok(p) => Ok(p@),
        Err(e) => Err(e@),
    }
}

/// What planning an evaluator gives: the shared settings first, then the
/// dataset, then the comparison.
pub open spec fn stream_plan_outcome<D>(a: StreamArguments, dataset: Result<D, Raised>) -> Result<
    PlanView<D>,
    RefusalView,
> {
    match stream_settings_outcome(a.parity_mode@, a.max_dets@, a.memory_budget_bytes) {
        Err(e) => Err(RefusalView::Argument(e)),
        Ok(settings) => match dataset {
            Err(x) => Err(RefusalView::Raised(x@)),
            Ok(dataset) => match kernel_outcome(a.iou_type@, a.dilation_ratio, a.sigmas) {
                Err(e) => Err(RefusalView::Argument(e)),
                Ok(kernel) => Ok(plan_of(settings, dataset, kernel, a.use_cats, a.retain_iou)),
            },
        },
    }
}

/// Plan an evaluator.
pub fn plan_stream<D>(a: StreamArguments, dataset: Result<D, Raised>) -> (r: Result<
    EvaluatorPlan<D>,
    Refusal,
>)
    ensures
        plan_view(r) == stream_plan_outcome(a, dataset),
        r matches Ok(p) ==> {
            &&& p.use_cats == a.use_cats
            &&& p.retain_iou == a.retain_iou
            &&& dataset matches Ok(d) && p.dataset == d
            &&& a.max_dets@.contains(p.settings.max_dets_per_image)
            &&& forall|i: int|
                0 <= i < a.max_dets@.len() ==> a.max_dets@[i] <= p.settings.max_dets_per_image
        },
{
    let StreamArguments {
        iou_type,
        parity_mode,
        max_dets,
        use_cats,
        memory_budget_bytes,
        dilation_ratio,
        sigmas,
        retain_iou,
    } = a;
    let ghost ladder = max_dets@;
    let settings = match stream_settings(parity_mode.as_str(), max_dets, memory_budget_bytes) {
        Err(e) => return Err(Refusal::Argument(e)),
        Ok(s) => s,
    };
    proof {
        lemma_top_is_largest(ladder);
    }
    let dataset = match dataset {
        Err(x) => return Err(Refusal::Raised(x)),
        Ok(d) => d,
    };
    match choose_kernel(iou_type.as_str(), dilation_ratio, sigmas) {
        Err(e) => Err(Refusal::Argument(e)),
        Ok(kernel) => {
            let area = area_ranges_for(&kernel);
            Ok(EvaluatorPlan { settings, dataset, kernel, area, use_cats, retain_iou })
        },
    }
}

/// What a list of byte strings holds: an item that is no byte string refuses
/// the list, in these words.
pub open spec fn buffers_outcome(items: Seq<Option<Vec<u8>>>, message: Seq<char>) -> Result<
    Seq<Seq<u8>>,
    FailureView,
> {
    if exists|i: int| 0 <= i < items.len() && #[trigger] items[i] is None {
        Err(value_error(message))
    } else {
        Ok(Seq::new(items.len(), |i: int| items[i]->0@))
    }
}

/// Buffers by their contents.
pub open spec fn buffers_view(v: Seq<Vec<u8>>) -> Seq<Seq<u8>> {
    v.map_values(|b: Vec<u8>| b@)
}

/// Read a list of byte strings.
pub fn byte_buffers(items: Vec<Option<Vec<u8>>>, message: &str) -> (r: Result<
    Vec<Vec<u8>>,
    Failure,
>)
    ensures
        match r {
            Ok(v) => buffers_outcome(items@, message@) == Ok::<Seq<Seq<u8>>, FailureView>(
                buffers_view(v@),
            ),
            Err(e) => buffers_outcome(items@, message@) == Err::<Seq<Seq<u8>>, FailureView>(e@),
        },
{
    let ghost given = items@;
    let mut out: Vec<Vec<u8>> = Vec::new();
    #[verifier::loop_isolation(false)]
    for item in iter: items
        invariant
            iter.seq() == given,
            out@.len() == iter.index(),
            forall|k: int| 0 <= k < iter.index() ==> #[trigger] given[k] is Some,
            forall|k: int| 0 <= k < out@.len() ==> (#[trigger] out@[k])@ == given[k]->0@,
    {
        match item {
            None => {
                assert(given[iter.index() as int] is None);
                return Err(Failure::value_error(String::from_str(message)));
            },
            Some(b) => out.push(b),
        }
    }
    assert(buffers_view(out@) =~= Seq::new(given.len(), |i: int| given[i]->0@));
    Ok(out)
}

/// Byte strings that are read are those of the list, one for one; and a list
/// is refused exactly where an item is no byte string.
pub proof fn law_buffers_are_kept(
    items: Seq<Option<Vec<u8>>>,
    message: Seq<char>,
    buffers: Seq<Vec<u8>>,
)
    requires
        buffers_outcome(items, message) == Ok::<Seq<Seq<u8>>, FailureView>(buffers_view(buffers)),
    ensures
        buffers.len() == items.len(),
        forall|i: int|
            0 <= i < buffers.len() ==> (items[i] matches Some(b) && b@ == (
            #[trigger] buffers[i])@),
{
    let got = buffers_view(buffers);
    let want = Seq::new(items.len(), |i: int| items[i]->0@);
    assert(got == want);
    assert(got.len() == want.len());
    assert forall|i: int| 0 <= i < buffers.len() implies (items[i] matches Some(b) && b@ == (
    #[trigger] buffers[i])@) by {
        assert(got[i] == want[i]);
        assert(!(items[i] is None));
    }
}

/// A list of byte strings is refused exactly where an item is none.
pub proof fn law_other_items_are_refused(items: Seq<Option<Vec<u8>>>, message: Seq<char>)
    ensures
        buffers_outcome(items, message) is Err <==> exists|i: int|
            0 <= i < items.len() && #[trigger] items[i] is None,
{
}

/// What is said of partial results that are no byte strings.
pub const PARTIALS_REFUSED: &'static str = "partials must be a sequence of bytes objects";

/// What planning an evaluator from partial results gives: the shared
/// settings first, then the dataset, the partial results, the sigmas of
/// keypoints, the width of the band for every comparison, and the word for
/// the comparison last.
pub open spec fn merge_plan_outcome<D>(
    a: StreamArguments,
    dataset: Result<D, Raised>,
    partials: Seq<Option<Vec<u8>>>,
) -> Result<(PlanView<D>, Seq<Seq<u8>>), RefusalView> {
    match stream_settings_outcome(a.parity_mode@, a.max_dets@, a.memory_budget_bytes) {
        Err(e) => Err(RefusalView::Argument(e)),
        Ok(settings) => match dataset {
            Err(x) => Err(RefusalView::Raised(x@)),
            Ok(dataset) => match buffers_outcome(partials, PARTIALS_REFUSED@) {
                Err(e) => Err(RefusalView::Argument(e)),
                Ok(buffers) => if a.iou_type@ == "keypoints"@ && optional_sigmas(a.sigmas) is Err {
                    Err(RefusalView::Argument(optional_sigmas(a.sigmas)->Err_0))
                } else {
                    match dilation_outcome(a.dilation_ratio) {
                        Err(e) => Err(RefusalView::Argument(e)),
                        Ok(()) => match kernel_outcome(a.iou_type@, a.dilation_ratio, a.sigmas) {
                            Err(_) => Err(RefusalView::Config(unknown_kernel(a.iou_type@))),
                            Ok(kernel) => Ok(
                                (
                                    plan_of(settings, dataset, kernel, a.use_cats, a.retain_iou),
                                    buffers,
                                ),
                            ),
                        },
                    }
                },
            },
        },
    }
}

/// Plan an evaluator from partial results.
pub fn plan_merge<D>(
    a: StreamArguments,
    dataset: Result<D, Raised>,
    partials: Vec<Option<Vec<u8>>>,
) -> (r: Result<(EvaluatorPlan<D>, Vec<Vec<u8>>), Refusal>)
    ensures
        match r {
            Ok((plan, buffers)) => merge_plan_outcome(a, dataset, partials@) == Ok::<
                (PlanView<D>, Seq<Seq<u8>>),
                RefusalView,
            >((plan@, buffers_view(buffers@))),
            Err(e) => merge_plan_outcome(a, dataset, partials@) == Err::<
                (PlanView<D>, Seq<Seq<u8>>),
                RefusalView,
            >(e@),
        },
        r matches Ok((p, _)) ==> {
            &&& p.use_cats == a.use_cats
            &&& p.retain_iou == a.retain_iou
            &&& dataset matches Ok(d) && p.dataset == d
        },
        r matches Ok((_, buffers)) ==> {
            &&& buffers@.len() == partials@.len()
            &&& forall|i: int|
                0 <= i < buffers@.len() ==> (partials@[i] matches Some(b) && b@ == (
                #[trigger] buffers@[i])@)
        },
{
    proof {
        reveal_strlit("bbox");
        reveal_strlit("segm");
        reveal_strlit("boundary");
        reveal_strlit("keypoints");
        assert("bbox"@.len() == 4 && "segm"@.len() == 4 && "boundary"@.len() == 8
            && "keypoints"@.len() == 9);
        assert("bbox"@[0] != "segm"@[0]);
    }
    let StreamArguments {
        iou_type,
        parity_mode,
        max_dets,
        use_cats,
        memory_budget_bytes,
        dilation_ratio,
        sigmas,
        retain_iou,
    } = a;
    let settings = match stream_settings(parity_mode.as_str(), max_dets, memory_budget_bytes) {
        Err(e) => return Err(Refusal::Argument(e)),
        Ok(s) => s,
    };
    let dataset = match dataset {
        Err(x) => return Err(Refusal::Raised(x)),
        Ok(d) => d,
    };
    let ghost sent = partials@;
    let buffers = match byte_buffers(partials, PARTIALS_REFUSED) {
        Err(e) => return Err(Refusal::Argument(e)),
        Ok(b) => b,
    };
    proof {
        law_buffers_are_kept(sent, PARTIALS_REFUSED@, buffers@);
    }
    let kernel = if same_text(iou_type.as_str(), "keypoints") {
        match read_optional_sigmas(sigmas) {
            Err(e) => return Err(Refusal::Argument(e)),
            Ok(sigmas) => Some(EvalIouType::Keypoints { sigmas }),
        }
    } else if same_text(iou_type.as_str(), "bbox") {
        Some(EvalIouType::Bbox)
    } else if same_text(iou_type.as_str(), "segm") {
        Some(EvalIouType::Segm)
    } else if same_text(iou_type.as_str(), "boundary") {
        Some(EvalIouType::Boundary { dilation_ratio })
    } else {
        None
    };
    match validate_dilation_ratio(dilation_ratio) {
        Err(e) => return Err(Refusal::Argument(e)),
        Ok(()) => {},
    }
    match kernel {
        None => Err(Refusal::Config(write_unknown_kernel(iou_type.as_str()))),
        Some(kernel) => {
            let area = area_ranges_for(&kernel);
            Ok((EvaluatorPlan { settings, dataset, kernel, area, use_cats, retain_iou }, buffers))
        },
    }
}

/// An evaluator that partial results are merged into is planned as the
/// evaluators were that they came from.
pub proof fn law_merging_plans_as_streaming<D>(
    a: StreamArguments,
    dataset: Result<D, Raised>,
    partials: Seq<Option<Vec<u8>>>,
)
    requires
        merge_plan_outcome(a, dataset, partials) is Ok,
    ensures
        stream_plan_outcome(a, dataset) == Ok::<PlanView<D>, RefusalView>(
            (merge_plan_outcome(a, dataset, partials)->Ok_0).0,
        ),
{
}

/// The ground truth that a background evaluator is given.
#[derive(Debug)]
pub enum GtObject<D> {
    /// A dataset that was loaded before, with its caches.
    Handle(D),
    /// JSON bytes, parsed, or why they could not be.
    Bytes(Result<D, Raised>),
    /// Something else.
    Other,
}

/// What is said of a ground truth that is neither.
pub const GT_REFUSED: &'static str = "BackgroundEvaluator(...) gt must be `bytes` or `vernier.instance.CocoDataset`";

/// A background evaluator before its comparison is chosen.
#[derive(Debug)]
pub struct BackgroundStart<D> {
    pub settings: StreamSettings,
    pub dataset: D,
    /// Did the dataset come with caches?
    pub has_handle: bool,
    /// How long shutting down may take, in seconds.
    pub shutdown_timeout: u64,
}

/// What starting a background evaluator gives: the shared settings first,
/// then the ground truth, then how long shutting down may take.
pub open spec fn start_outcome<D>(
    parity_mode: Seq<char>,
    max_dets: Seq<usize>,
    memory_budget_bytes: Option<usize>,
    gt: GtObject<D>,
    shutdown_timeout_seconds: u64,
) -> Result<BackgroundStart<D>, RefusalView> {
    match stream_settings_outcome(parity_mode, max_dets, memory_budget_bytes) {
        Err(e) => Err(RefusalView::Argument(e)),
        Ok(settings) => {
            let read: Result<(D, bool), RefusalView> = match gt {
                GtObject::Handle(d) => Ok((d, true)),
                GtObject::Bytes(Ok(d)) => Ok((d, false)),
                GtObject::Bytes(Err(x)) => Err(RefusalView::Raised(x@)),
                GtObject::Other => Err(RefusalView::Argument(type_error(GT_REFUSED@))),
            };
            match read {
                Err(e) => Err(e),
                Ok((dataset, has_handle)) => match shutdown_outcome(shutdown_timeout_seconds) {
                    Err(e) => Err(RefusalView::Argument(e)),
                    Ok(shutdown_timeout) => Ok(
                        BackgroundStart { settings, dataset, has_handle, shutdown_timeout },
                    ),
                },
            }
        },
    }
}

/// Start a background evaluator.
pub fn start_background<D>(
    parity_mode: &str,
    max_dets: Vec<usize>,
    memory_budget_bytes: Option<usize>,
    gt: GtObject<D>,
    shutdown_timeout_seconds: u64,
) -> (r: Result<BackgroundStart<D>, Refusal>)
    ensures
        match r {
            Ok(s) => start_outcome(
                parity_mode@,
                max_dets@,
                memory_budget_bytes,
                gt,
                shutdown_timeout_seconds,
            ) == Ok::<BackgroundStart<D>, RefusalView>(s),
            Err(e) => start_outcome(
                parity_mode@,
                max_dets@,
                memory_budget_bytes,
                gt,
                shutdown_timeout_seconds,
            ) == Err::<BackgroundStart<D>, RefusalView>(e@),
        },
{
    let settings = match stream_settings(parity_mode, max_dets, memory_budget_bytes) {
        Err(e) => return Err(Refusal::Argument(e)),
        Ok(s) => s,
    };
    let (dataset, has_handle) = match gt {
        GtObject::Handle(d) => (d, true),
        GtObject::Bytes(Ok(d)) => (d, false),
        GtObject::Bytes(Err(x)) => return Err(Refusal::Raised(x)),
        GtObject::Other => return Err(
            Refusal::Argument(Failure::type_error(String::from_str(GT_REFUSED))),
        ),
    };
    match validate_shutdown_timeout(shutdown_timeout_seconds) {
        Err(e) => Err(Refusal::Argument(e)),
        Ok(shutdown_timeout) => Ok(
            BackgroundStart { settings, dataset, has_handle, shutdown_timeout },
        ),
    }
}

/// Does a comparison work on caches? Those of masks and outlines do, where
/// the dataset came with them.
pub open spec fn uses_caches(kernel: IouTypeView, has_handle: bool) -> bool {
    has_handle && (kernel is Segm || kernel is Boundary)
}

/// What a background evaluator is made from, checked.
#[derive(Debug)]
pub struct BackgroundPlan<D> {
    pub plan: EvaluatorPlan<D>,
    pub cached: bool,
    pub shutdown_timeout: u64,
}

/// Choose the comparison of a background evaluator.
pub fn plan_background<D>(
    start: BackgroundStart<D>,
    iou_type: &str,
    dilation_ratio: u64,
    sigmas: Option<Vec<SigmaEntry>>,
    use_cats: bool,
    retain_iou: bool,
) -> (r: Result<BackgroundPlan<D>, Failure>)
    ensures
        match kernel_outcome(iou_type@, dilation_ratio, sigmas) {
            Err(e) => r matches Err(f) && f@ == e,
            Ok(kernel) => {
                &&& r matches Ok(b)
                &&& b.plan@ == plan_of(start.settings, start.dataset, kernel, use_cats, retain_iou)
                &&& b.cached == uses_caches(kernel, start.has_handle)
                &&& b.shutdown_timeout == start.shutdown_timeout
            },
        },
        r matches Ok(b) ==> {
            &&& b.plan.use_cats == use_cats
            &&& b.plan.retain_iou == retain_iou
            &&& b.plan.dataset == start.dataset
            &&& b.plan.settings == start.settings
        },
{
    let kernel = match choose_kernel(iou_type, dilation_ratio, sigmas) {
        Err(e) => return Err(e),
        Ok(k) => k,
    };
    let cacheable = matches!(kernel, EvalIouType::Segm | EvalIouType::Boundary { .. });
    let area = area_ranges_for(&kernel);
    Ok(
        BackgroundPlan {
            cached: start.has_handle && cacheable,
            shutdown_timeout: start.shutdown_timeout,
            plan: EvaluatorPlan {
                settings: start.settings,
                dataset: start.dataset,
                kernel,
                area,
                use_cats,
                retain_iou,
            },
        },
    )
}

/// A background evaluator is planned as one that runs in the foreground,
/// whatever its ground truth came as.
pub proof fn law_background_plans_as_streaming<D>(
    a: StreamArguments,
    gt: GtObject<D>,
    shutdown_timeout_seconds: u64,
)
    requires
        start_outcome(
            a.parity_mode@,
            a.max_dets@,
            a.memory_budget_bytes,
            gt,
            shutdown_timeout_seconds,
        ) is Ok,
        kernel_outcome(a.iou_type@, a.dilation_ratio, a.sigmas) is Ok,
    ensures
        ({
            let start = start_outcome(
                a.parity_mode@,
                a.max_dets@,
                a.memory_budget_bytes,
                gt,
                shutdown_timeout_seconds,
            )->Ok_0;
            let kernel = kernel_outcome(a.iou_type@, a.dilation_ratio, a.sigmas)->Ok_0;
            stream_plan_outcome(a, Ok::<D, Raised>(start.dataset)) == Ok::<
                PlanView<D>,
                RefusalView,
            >(plan_of(start.settings, start.dataset, kernel, a.use_cats, a.retain_iou))
        }),
{
}

// ---------------------------------------------------------------------------
// Detections
// ---------------------------------------------------------------------------

/// A `detections` argument along its route.
#[derive(Debug)]
pub enum DetectionsSource {
    /// JSON bytes.
    Bytes(Vec<u8>),
    /// Per-image dicts of columns.
    Dicts { dicts: Vec<DetectionsDict>, indexed: bool },
    /// Per-annotation result dicts.
    AnnList(Vec<ResultDict>),
    /// An `(N, 7)` array, or why it is none.
    Matrix(Result<Vec<u64>, Failure>),
}

/// Detections on their way to an evaluator: JSON that it parses, or
/// detections that were read.
#[derive(Debug)]
pub enum UpdatePayload {
    Bytes(Vec<u8>),
    Inputs(Vec<DetectionInput>),
}

/// The mathematical value of an [`UpdatePayload`].
#[verifier::ext_equal]
pub enum PayloadView {
    Bytes(Seq<u8>),
    Inputs(Seq<DetectionView>),
}

impl View for UpdatePayload {
    type V = PayloadView;

    open spec fn view(&self) -> PayloadView {
        match self {
            UpdatePayload::Bytes(b) => PayloadView::Bytes(b@),
            UpdatePayload::Inputs(v) => PayloadView::Inputs(detections_view(v@)),
        }
    }
}

/// The detections that an argument holds: JSON stays as it is, and every
/// other route ends in a list of detections.
pub open spec fn payload_outcome(source: DetectionsSource, iou: ArrayIouType) -> Result<
    PayloadView,
    FailureView,
> {
    let read: Result<Seq<DetectionView>, FailureView> = match source {
        DetectionsSource::Bytes(_) => Ok(Seq::empty()),
        DetectionsSource::Dicts { dicts, indexed } => all_inputs(
            dicts@,
            indexed,
            iou,
            dicts@.len(),
        ),
        DetectionsSource::AnnList(dicts) => collected(ann_reader(dicts@, iou), dicts@.len()),
        DetectionsSource::Matrix(Err(e)) => Err(e@),
        DetectionsSource::Matrix(Ok(flat)) => collected(matrix_reader(flat@), flat@.len() / 7),
    };
    match (source, read) {
        (DetectionsSource::Bytes(b), _) => Ok(PayloadView::Bytes(b@)),
        (_, Ok(v)) => Ok(PayloadView::Inputs(v)),
        (_, Err(e)) => Err(e),
    }
}

/// Read a `detections` argument.
pub fn build_update_payload(source: DetectionsSource, iou: ArrayIouType) -> (r: Result<
    UpdatePayload,
    Failure,
>)
    requires
        source matches DetectionsSource::Dicts { dicts, .. } ==> forall|i: int|
            0 <= i < dicts@.len() ==> keypoints_fit(#[trigger] dicts@[i], iou),
    ensures
        match r {
            Ok(p) => payload_outcome(source, iou) == Ok::<PayloadView, FailureView>(p@),
            Err(e) => payload_outcome(source, iou) == Err::<PayloadView, FailureView>(e@),
        },
{
    let read = match source {
        DetectionsSource::Bytes(b) => return Ok(UpdatePayload::Bytes(b)),
        DetectionsSource::Dicts { dicts, indexed } => dicts_to_inputs(&dicts, indexed, iou),
        DetectionsSource::AnnList(dicts) => ann_dicts_to_inputs(&dicts, iou),
        DetectionsSource::Matrix(Err(e)) => return Err(e),
        DetectionsSource::Matrix(Ok(flat)) => matrix_to_inputs(&flat),
    };
    match read {
        Err(e) => Err(e),
        Ok(v) => Ok(UpdatePayload::Inputs(v)),
    }
}

/// The refusal of detections that were read but do not fit together.
pub fn ingest_refusal(reason: &str) -> (e: Failure)
    ensures
        e@ == value_error("detections array ingest: "@ + reason@),
{
    let mut m = String::from_str("detections array ingest: ");
    m.append(reason);
    Failure::value_error(m)
}

// ---------------------------------------------------------------------------
// Lifecycle
// ---------------------------------------------------------------------------

/// The kinds of evaluators that a consuming request empties.
#[derive(Clone, Copy, Debug, PartialEq, Eq, Structural)]
pub enum Surface {
    Streaming,
    Background,
    BackgroundSemantic,
    BackgroundPanoptic,
}

impl Surface {
    /// Its name.
    pub open spec fn name(self) -> Seq<char> {
        match self {
            Surface::Streaming => "StreamingEvaluator"@,
            Surface::Background => "BackgroundEvaluator"@,
            Surface::BackgroundSemantic => "BackgroundSemanticEvaluator"@,
            Surface::BackgroundPanoptic => "BackgroundPanopticEvaluator"@,
        }
    }

    /// Its name.
    pub fn as_str(self) -> (s: &'static str)
        ensures
            s@ == self.name(),
    {
        match self {
            Surface::Streaming => "StreamingEvaluator",
            Surface::Background => "BackgroundEvaluator",
            Surface::BackgroundSemantic => "BackgroundSemanticEvaluator",
            Surface::BackgroundPanoptic => "BackgroundPanopticEvaluator",
        }
    }
}

/// What is said of a worker that is gone, for semantic evaluation.
pub const SEMANTIC_WORKER_GONE: &'static str = "background semantic worker is no longer reachable";

/// What is said of a worker that is gone, for panoptic evaluation.
pub const PANOPTIC_WORKER_GONE: &'static str = "background panoptic worker is no longer reachable";

/// What is said of an evaluator that has been emptied.
pub open spec fn finalized_text(surface: Surface) -> Seq<char> {
    surface.name() + " has already been finalized"@
}

/// What is said of an evaluator that has been emptied.
pub fn finalized_error(surface: Surface) -> (m: String)
    ensures
        m@ == finalized_text(surface),
{
    let mut m = String::from_str(surface.as_str());
    m.append(" has already been finalized");
    m
}

/// What is said of an evaluator whose lock is broken.
pub fn poisoned_error(surface: Surface) -> (m: String)
    ensures
        m@ == surface.name() + " state mutex poisoned"@,
{
    let mut m = String::from_str(surface.as_str());
    m.append(" state mutex poisoned");
    m
}

/// What a request to an evaluator meets: the evaluator, or that it has been
/// emptied.
pub open spec fn met<C>(held: Option<C>, surface: Surface) -> Result<C, Seq<char>> {
    match held {
        Some(c) => Ok(c),
        None => Err(finalized_text(surface)),
    }
}

/// The evaluator for a request that leaves it in place.
pub fn live<'a, C>(lifecycle: &'a BackgroundLifecycle<C>, surface: Surface) -> (r: Result<
    &'a C,
    String,
>)
    ensures
        match r {
            Ok(c) => met(lifecycle@, surface) == Ok::<C, Seq<char>>(*c),
            Err(m) => met(lifecycle@, surface) == Err::<C, Seq<char>>(m@),
        },
{
    match lifecycle.active() {
        Some(c) => Ok(c),
        None => Err(finalized_error(surface)),
    }
}

/// The evaluator for a request that consumes it: afterwards it is gone,
/// whatever comes of the request.
pub fn take_live<C>(lifecycle: &mut BackgroundLifecycle<C>, surface: Surface) -> (r: Result<
    C,
    String,
>)
    ensures
        final(lifecycle)@ is None,
        match r {
            Ok(c) => met(old(lifecycle)@, surface) == Ok::<C, Seq<char>>(c),
            Err(m) => met(old(lifecycle)@, surface) == Err::<C, Seq<char>>(m@),
        },
{
    match lifecycle.take() {
        Some(c) => Ok(c),
        None => Err(finalized_error(surface)),
    }
}

/// What an evaluator holds after a number of requests, each of which
/// consumes it or leaves it in place.
pub open spec fn held_after<C>(held: Option<C>, consuming: Seq<bool>) -> Option<C>
    decreases consuming.len(),
{
    if consuming.len() == 0 {
        held
    } else if consuming.last() {
        None
    } else {
        held_after(held, consuming.drop_last())
    }
}

/// Once a request has consumed an evaluator, every later request of either
/// sort is told so.
pub proof fn law_finalize_is_final<C>(
    held: Option<C>,
    consuming: Seq<bool>,
    i: int,
    surface: Surface,
)
    requires
        0 <= i < consuming.len(),
        consuming[i],
    ensures
        met(held_after(held, consuming), surface) == Err::<C, Seq<char>>(finalized_text(surface)),
    decreases consuming.len(),
{
    if !consuming.last() {
        law_finalize_is_final(held, consuming.drop_last(), i, surface);
    }
}

// ---------------------------------------------------------------------------
// Reports
// ---------------------------------------------------------------------------

/// What an evaluator says of a batch.
#[derive(Clone, Copy, Debug, PartialEq, Eq, Structural)]
pub struct UpdateReport {
    pub n_images_in_batch: usize,
    pub n_detections_accepted: usize,
    pub soft_warn_triggered: bool,
}

/// What the caller is told of a batch.
#[derive(Clone, Copy, Debug, PartialEq, Eq, Structural)]
pub struct UpdateDict {
    pub new_images: usize,
    pub new_detections: usize,
    pub memory_used_bytes: usize,
    pub soft_warn_triggered: bool,
}

/// The warning that much memory is in use.
pub open spec fn memory_warning(used: nat) -> Seq<char> {
    "StreamingEvaluator memory usage crossed the soft-warn threshold ("@ + nat_text(used)
        + " bytes used)"@
}

/// What the caller is told of a batch, and the warning that goes with it.
pub fn update_report(report: UpdateReport, memory_used_bytes: usize) -> (r: (
    UpdateDict,
    Option<String>,
))
    ensures
        r.0 == (UpdateDict {
            new_images: report.n_images_in_batch,
            new_detections: report.n_detections_accepted,
            memory_used_bytes,
            soft_warn_triggered: report.soft_warn_triggered,
        }),
        match r.1 {
            Some(w) => report.soft_warn_triggered && w@ == memory_warning(
                memory_used_bytes as nat,
            ),
            None => !report.soft_warn_triggered,
        },
{
    let dict = UpdateDict {
        new_images: report.n_images_in_batch,
        new_detections: report.n_detections_accepted,
        memory_used_bytes,
        soft_warn_triggered: report.soft_warn_triggered,
    };
    if !report.soft_warn_triggered {
        return (dict, None);
    }
    let mut w = String::from_str(
        "StreamingEvaluator memory usage crossed the soft-warn threshold (",
    );
    w.append(usize_text(memory_used_bytes).as_str());
    w.append(" bytes used)");
    (dict, Some(w))
}

/// How often the outcome of scheduling a worker is asked for.
pub const SCHEDULING_TRIES: usize = 10;

/// How long to sleep between two questions, in nanoseconds.
pub const SCHEDULING_SLEEP_NS: u64 = 1_000_000;

/// What to do after asking how scheduling a worker went.
#[derive(Debug)]
pub enum SchedulingStep {
    /// Sleep, and then ask again or give up.
    Sleep { again: bool },
    /// Nothing more to ask; warn where there is something to warn of.
    Done(Option<String>),
}

/// What to do after asking for the `tries`th time how scheduling a worker
/// went.
pub fn scheduling_step(name: &str, tries: usize, outcome: Option<Result<(), String>>) -> (s:
    SchedulingStep)
    ensures
        match outcome {
            None => s == (SchedulingStep::Sleep { again: tries < SCHEDULING_TRIES }),
            Some(Ok(())) => s == SchedulingStep::Done(None),
            Some(Err(reason)) => s matches SchedulingStep::Done(Some(w)) && w@ == name@
                + " scheduling: "@ + reason@,
        },
{
    match outcome {
        None => SchedulingStep::Sleep { again: tries < SCHEDULING_TRIES },
        Some(Ok(())) => SchedulingStep::Done(None),
        Some(Err(reason)) => {
            let mut w = String::from_str(name);
            w.append(" scheduling: ");
            w.append(reason.as_str());
            SchedulingStep::Done(Some(w))
        },
    }
}

// ---------------------------------------------------------------------------
// Tables
// ---------------------------------------------------------------------------

/// The tables that were asked for.
#[derive(Debug)]
pub struct Tables {
    pub per_image: Option<PerImageTable>,
    pub per_class: Option<PerClassTable>,
    pub per_detection: Option<PerDetectionTable>,
    pub per_pair: Option<PerPairTable>,
}

/// The tables in the form in which they are exported.
#[derive(Debug)]
pub struct TableBatches {
    pub per_image: Option<ArrowRecordBatch>,
    pub per_class: Option<ArrowRecordBatch>,
    pub per_detection: Option<ArrowRecordBatch>,
    pub per_pair: Option<ArrowRecordBatch>,
}

/// Every table that is there can be built.
pub open spec fn tables_agree(t: Tables) -> bool {
    &&& t.per_image matches Some(x) ==> columns_agree(per_image_columns(x))
    &&& t.per_class matches Some(x) ==> columns_agree(per_class_columns(x))
    &&& t.per_detection matches Some(x) ==> columns_agree(per_detection_columns(x))
        && keys_in_range(x.match_status_at_50@, x.status_labels@)
    &&& t.per_pair matches Some(x) ==> columns_agree(per_pair_columns(x))
}

/// A batch is there where its table is, and holds its columns.
pub open spec fn table_exported(
    columns: Option<Seq<ColumnView>>,
    name: Seq<char>,
    w: Option<ArrowRecordBatch>,
) -> bool {
    match (columns, w) {
        (None, None) => true,
        (Some(columns), Some(w)) => exports(w, columns, table_stamp(name)),
        _ => false,
    }
}

/// The columns of the tables by image.
pub open spec fn image_table(t: Tables) -> Option<Seq<ColumnView>> {
    match t.per_image {
        Some(x) => Some(per_image_columns(x)),
        None => None,
    }
}

/// The columns of the table by category.
pub open spec fn class_table(t: Tables) -> Option<Seq<ColumnView>> {
    match t.per_class {
        Some(x) => Some(per_class_columns(x)),
        None => None,
    }
}

/// The columns of the table by detection.
pub open spec fn detection_table(t: Tables) -> Option<Seq<ColumnView>> {
    match t.per_detection {
        Some(x) => Some(per_detection_columns(x)),
        None => None,
    }
}

/// The columns of the table by pair.
pub open spec fn pair_table(t: Tables) -> Option<Seq<ColumnView>> {
    match t.per_pair {
        Some(x) => Some(per_pair_columns(x)),
        None => None,
    }
}

/// A batch in the form in which it is exported, or the reason why there is
/// none.
fn export_plainly(built: Result<Batch, String>) -> (r: Result<ArrowRecordBatch, Failure>)
    ensures
        match (built, r) {
            (Ok(b), Ok(w)) => exports(w, batch_columns(b), batch_metadata(b)),
            (Err(reason), Err(e)) => e@ == value_error(reason@),
            _ => false,
        },
{
    match built {
        Ok(b) => Ok(wrap_batch(b)),
        Err(reason) => Err(Failure::value_error(reason)),
    }
}

/// Export the tables that were asked for. A table that cannot be built is
/// refused with the plain reason.
pub fn streaming_tables_result(t: Tables) -> (r: Result<TableBatches, Failure>)
    requires
        t.per_class matches Some(x) ==> text_bytes(x.category_name@) <= i32::MAX,
        t.per_detection matches Some(x) ==> text_bytes(x.status_labels@) <= i32::MAX,
    ensures
        match r {
            Ok(w) => {
                &&& tables_agree(t)
                &&& table_exported(image_table(t), "per_image"@, w.per_image)
                &&& table_exported(class_table(t), "per_class"@, w.per_class)
                &&& table_exported(detection_table(t), "per_detection"@, w.per_detection)
                &&& table_exported(pair_table(t), "per_pair"@, w.per_pair)
            },
            Err(e) => !tables_agree(t) && e@ == value_error(e@.head),
        },
{
    let per_image = match t.per_image {
        None => None,
        Some(x) => match export_plainly(per_image_record_batch(x)) {
            Err(e) => return Err(e),
            Ok(w) => Some(w),
        },
    };
    let per_class = match t.per_class {
        None => None,
        Some(x) => match export_plainly(per_class_record_batch(x)) {
            Err(e) => return Err(e),
            Ok(w) => Some(w),
        },
    };
    let per_detection = match t.per_detection {
        None => None,
        Some(x) => match export_plainly(per_detection_record_batch(x)) {
            Err(e) => return Err(e),
            Ok(w) => Some(w),
        },
    };
    let per_pair = match t.per_pair {
        None => None,
        Some(x) => match export_plainly(per_pair_record_batch(x)) {
            Err(e) => return Err(e),
            Ok(w) => Some(w),
        },
    };
    Ok(TableBatches { per_image, per_class, per_detection, per_pair })
}

// ---------------------------------------------------------------------------
// What plans and reports are for
// ---------------------------------------------------------------------------

/// A comparison is made exactly where its own word is given; a band has the
/// width that was given; and keypoints without sigmas have none.
pub proof fn law_comparison_is_the_one_named(
    iou_type: Seq<char>,
    dilation_ratio: u64,
    sigmas: Option<Vec<SigmaEntry>>,
    k: EvalIouType,
)
    requires
        kernel_outcome(iou_type, dilation_ratio, sigmas) == Ok::<IouTypeView, FailureView>(k@),
    ensures
        k is Bbox <==> iou_type == "bbox"@,
        k is Segm <==> iou_type == "segm"@,
        k is Boundary <==> iou_type == "boundary"@,
        k is Keypoints <==> iou_type == "keypoints"@,
        k matches EvalIouType::Boundary { dilation_ratio: d } ==> d == dilation_ratio && is_finite(d)
            && scaled(d) > 0,
        k matches EvalIouType::Keypoints { sigmas: m } ==> match sigmas {
            None => m@.dom() == Set::<i64>::empty(),
            Some(entries) => sigmas_outcome(entries@) == Ok::<Map<i64, Seq<u64>>, FailureView>(
                m@.map_values(|v: Vec<u64>| v@),
            ),
        },
{
    lemma_kernel_words_differ();
    if let EvalIouType::Keypoints { sigmas: m } = k {
        if sigmas is None {
            assert(sigmas_view(m).dom() == Set::<i64>::empty());
            assert(m@.dom() =~= sigmas_view(m).dom());
        }
    }
}

/// A comparison is refused exactly where the word names none, where a band
/// has no width, or where sigmas cannot be read.
pub proof fn law_comparisons_are_refused_for_cause(
    iou_type: Seq<char>,
    dilation_ratio: u64,
    sigmas: Option<Vec<SigmaEntry>>,
)
    ensures
        kernel_outcome(iou_type, dilation_ratio, sigmas) is Err <==> {
            ||| iou_type != "bbox"@ && iou_type != "segm"@ && iou_type != "boundary"@ && iou_type
                != "keypoints"@
            ||| iou_type == "boundary"@ && (!is_finite(dilation_ratio) || scaled(dilation_ratio)
                <= 0)
            ||| iou_type == "keypoints"@ && sigmas is Some && sigmas_outcome(sigmas->0@) is Err
        },
{
    lemma_kernel_words_differ();
}

proof fn lemma_kernel_words_differ()
    ensures
        "bbox"@ != "segm"@,
        "bbox"@ != "boundary"@,
        "bbox"@ != "keypoints"@,
        "segm"@ != "boundary"@,
        "segm"@ != "keypoints"@,
        "boundary"@ != "keypoints"@,
{
    reveal_strlit("bbox");
    reveal_strlit("segm");
    reveal_strlit("boundary");
    reveal_strlit("keypoints");
    assert("bbox"@[0] != "segm"@[0]);
    assert("bbox"@.len() == 4 && "segm"@.len() == 4 && "boundary"@.len() == 8 && "keypoints"@.len()
        == 9);
}

/// A streaming evaluator is the one that was asked for: every argument is
/// found again in its plan, unchanged and at its own place.
pub proof fn law_stream_is_the_one_asked_for<D>(
    a: StreamArguments,
    dataset: Result<D, Raised>,
    p: EvaluatorPlan<D>,
)
    requires
        stream_plan_outcome(a, dataset) == Ok::<PlanView<D>, RefusalView>(p@),
    ensures
        p.use_cats == a.use_cats,
        p.retain_iou == a.retain_iou,
        dataset == Ok::<D, Raised>(p.dataset),
        p.settings.parity is Strict <==> a.parity_mode@ == "strict"@,
        p.settings.parity is Corrected <==> a.parity_mode@ == "corrected"@,
        a.max_dets@.contains(p.settings.max_dets_per_image),
        forall|i: int|
            0 <= i < a.max_dets@.len() ==> a.max_dets@[i] <= p.settings.max_dets_per_image,
        a.memory_budget_bytes is None ==> p.settings.budget is Auto,
        a.memory_budget_bytes matches Some(n) ==> (p.settings.budget matches MemoryBudget::Bytes {
            bytes,
            soft_warn_fraction,
        } && bytes == n && soft_warn_fraction == 0x3FE9_9999_9999_999A),
        p.kernel is Bbox <==> a.iou_type@ == "bbox"@,
        p.kernel is Segm <==> a.iou_type@ == "segm"@,
        p.kernel is Boundary <==> a.iou_type@ == "boundary"@,
        p.kernel is Keypoints <==> a.iou_type@ == "keypoints"@,
        p.kernel matches EvalIouType::Boundary { dilation_ratio } ==> dilation_ratio
            == a.dilation_ratio,
        p.area is Keypoints <==> p.kernel is Keypoints,
        p.area is Coco <==> !(p.kernel is Keypoints),
{
    law_parity_words(a.parity_mode@);
    lemma_top_is_largest(a.max_dets@);
    law_comparison_is_the_one_named(a.iou_type@, a.dilation_ratio, a.sigmas, p.kernel);
    law_usual_sizes_go_with_the_comparison(p.kernel, p.area);
}

/// An evaluator that partial results are merged into is the one that was
/// asked for, and the partial results are those that were sent.
pub proof fn law_merge_is_the_one_asked_for<D>(
    a: StreamArguments,
    dataset: Result<D, Raised>,
    partials: Seq<Option<Vec<u8>>>,
    p: EvaluatorPlan<D>,
    buffers: Seq<Vec<u8>>,
)
    requires
        merge_plan_outcome(a, dataset, partials) == Ok::<(PlanView<D>, Seq<Seq<u8>>), RefusalView>(
            (p@, buffers_view(buffers)),
        ),
    ensures
        p.use_cats == a.use_cats,
        p.retain_iou == a.retain_iou,
        dataset == Ok::<D, Raised>(p.dataset),
        p.settings.parity is Strict <==> a.parity_mode@ == "strict"@,
        p.settings.parity is Corrected <==> a.parity_mode@ == "corrected"@,
        a.max_dets@.contains(p.settings.max_dets_per_image),
        forall|i: int|
            0 <= i < a.max_dets@.len() ==> a.max_dets@[i] <= p.settings.max_dets_per_image,
        a.memory_budget_bytes is None ==> p.settings.budget is Auto,
        a.memory_budget_bytes matches Some(n) ==> (p.settings.budget matches MemoryBudget::Bytes {
            bytes,
            soft_warn_fraction,
        } && bytes == n && soft_warn_fraction == 0x3FE9_9999_9999_999A),
        p.kernel is Bbox <==> a.iou_type@ == "bbox"@,
        p.kernel is Segm <==> a.iou_type@ == "segm"@,
        p.kernel is Boundary <==> a.iou_type@ == "boundary"@,
        p.kernel is Keypoints <==> a.iou_type@ == "keypoints"@,
        p.kernel matches EvalIouType::Boundary { dilation_ratio } ==> dilation_ratio
            == a.dilation_ratio,
        p.area is Keypoints <==> p.kernel is Keypoints,
        p.area is Coco <==> !(p.kernel is Keypoints),
        buffers.len() == partials.len(),
        forall|i: int|
            0 <= i < buffers.len() ==> (partials[i] matches Some(b) && b@ == (
            #[trigger] buffers[i])@),
{
    law_merging_plans_as_streaming(a, dataset, partials);
    law_stream_is_the_one_asked_for(a, dataset, p);
    law_buffers_are_kept(partials, PARTIALS_REFUSED@, buffers);
}

/// The start of a background evaluator holds the ground truth that it was
/// given, knows whether it came as a handle, and waits as long as was asked.
pub proof fn law_background_start_is_the_one_asked_for<D>(
    a: StreamArguments,
    gt: GtObject<D>,
    seconds: u64,
    p: BackgroundStart<D>,
)
    requires
        start_outcome(a.parity_mode@, a.max_dets@, a.memory_budget_bytes, gt, seconds) == Ok::<
            BackgroundStart<D>,
            RefusalView,
        >(p),
    ensures
        match gt {
            GtObject::Handle(d) => p.has_handle && p.dataset == d,
            GtObject::Bytes(Ok(d)) => !p.has_handle && p.dataset == d,
            _ => false,
        },
        p.shutdown_timeout == seconds,
        is_finite(seconds) && scaled(seconds) >= 0,
        p.settings.parity is Strict <==> a.parity_mode@ == "strict"@,
        p.settings.parity is Corrected <==> a.parity_mode@ == "corrected"@,
        a.max_dets@.contains(p.settings.max_dets_per_image),
        forall|i: int|
            0 <= i < a.max_dets@.len() ==> a.max_dets@[i] <= p.settings.max_dets_per_image,
        a.memory_budget_bytes is None ==> p.settings.budget is Auto,
        a.memory_budget_bytes matches Some(n) ==> (p.settings.budget matches MemoryBudget::Bytes {
            bytes,
            soft_warn_fraction,
        } && bytes == n && soft_warn_fraction == 0x3FE9_9999_9999_999A),
{
    law_parity_words(a.parity_mode@);
    lemma_top_is_largest(a.max_dets@);
    law_waits_are_kept(seconds);
}

/// A background evaluator is the one that was asked for.
pub proof fn law_background_is_the_one_asked_for<D>(
    start: BackgroundStart<D>,
    iou_type: Seq<char>,
    dilation_ratio: u64,
    sigmas: Option<Vec<SigmaEntry>>,
    use_cats: bool,
    retain_iou: bool,
    p: EvaluatorPlan<D>,
)
    requires
        kernel_outcome(iou_type, dilation_ratio, sigmas) is Ok,
        p@ == plan_of(
            start.settings,
            start.dataset,
            kernel_outcome(iou_type, dilation_ratio, sigmas)->Ok_0,
            use_cats,
            retain_iou,
        ),
    ensures
        p.use_cats == use_cats,
        p.retain_iou == retain_iou,
        p.dataset == start.dataset,
        p.settings == start.settings,
        p.kernel is Bbox <==> iou_type == "bbox"@,
        p.kernel is Segm <==> iou_type == "segm"@,
        p.kernel is Boundary <==> iou_type == "boundary"@,
        p.kernel is Keypoints <==> iou_type == "keypoints"@,
        p.kernel matches EvalIouType::Boundary { dilation_ratio: d } ==> d == dilation_ratio,
        p.area is Keypoints <==> p.kernel is Keypoints,
        p.area is Coco <==> !(p.kernel is Keypoints),
{
    law_comparison_is_the_one_named(iou_type, dilation_ratio, sigmas, p.kernel);
    law_usual_sizes_go_with_the_comparison(p.kernel, p.area);
}

/// Caches are used for masks and outlines, and only where the ground truth
/// came with them.
pub proof fn law_caches_need_a_handle(kernel: EvalIouType, has_handle: bool)
    ensures
        uses_caches(kernel@, has_handle) <==> has_handle && (kernel is Segm || kernel is Boundary),
{
}

/// JSON reaches the evaluator byte for byte; every other route ends in
/// detections; and an array that could not be read is refused for its own
/// reason.
pub proof fn law_json_is_passed_on(source: DetectionsSource, iou: ArrayIouType)
    ensures
        source matches DetectionsSource::Bytes(b) ==> payload_outcome(source, iou) == Ok::<
            PayloadView,
            FailureView,
        >(PayloadView::Bytes(b@)),
        !(source is Bytes) && payload_outcome(source, iou) is Ok ==> payload_outcome(
            source,
            iou,
        )->Ok_0 is Inputs,
        source matches DetectionsSource::Matrix(Err(e)) ==> payload_outcome(source, iou) == Err::<
            PayloadView,
            FailureView,
        >(e@),
{
}

/// Every kind of evaluator is spoken of by its own name.
pub proof fn law_surfaces_have_their_names(s: Surface)
    ensures
        s is Streaming <==> s.name() == "StreamingEvaluator"@,
        s is Background <==> s.name() == "BackgroundEvaluator"@,
        s is BackgroundSemantic <==> s.name() == "BackgroundSemanticEvaluator"@,
        s is BackgroundPanoptic <==> s.name() == "BackgroundPanopticEvaluator"@,
{
    reveal_strlit("StreamingEvaluator");
    reveal_strlit("BackgroundEvaluator");
    reveal_strlit("BackgroundSemanticEvaluator");
    reveal_strlit("BackgroundPanopticEvaluator");
    assert("BackgroundSemanticEvaluator"@[10] != "BackgroundPanopticEvaluator"@[10]);
    assert("StreamingEvaluator"@.len() == 18 && "BackgroundEvaluator"@.len() == 19
        && "BackgroundSemanticEvaluator"@.len() == 27 && "BackgroundPanopticEvaluator"@.len() == 27);
}

/// An evaluator that is held is the one that a request meets, and only an
/// emptied one is told that it has been finalized.
pub proof fn law_requests_meet_what_is_held<C>(held: Option<C>, surface: Surface)
    ensures
        held matches Some(c) ==> met(held, surface) == Ok::<C, Seq<char>>(c),
        held is None ==> met(held, surface) is Err,
{
}

/// The shared settings are taken exactly where the rule book is named and the
/// ladder is not empty.
pub proof fn law_settings_are_taken(
    word: Seq<char>,
    max_dets: Seq<usize>,
    memory_budget_bytes: Option<usize>,
)
    ensures
        stream_settings_outcome(word, max_dets, memory_budget_bytes) is Ok <==> (word == "strict"@
            || word == "corrected"@) && max_dets.len() > 0,
{
    law_parity_words(word);
}

/// A streaming evaluator is refused only for its settings, its dataset or its
/// comparison; a merge also for a band without a width and for what is no
/// byte string, and for nothing else.
pub proof fn law_whole_requests_are_taken<D>(
    a: StreamArguments,
    dataset: Result<D, Raised>,
    partials: Seq<Option<Vec<u8>>>,
)
    ensures
        stream_plan_outcome(a, dataset) is Ok <==> (a.parity_mode@ == "strict"@ || a.parity_mode@
            == "corrected"@) && a.max_dets@.len() > 0 && dataset is Ok && kernel_outcome(
            a.iou_type@,
            a.dilation_ratio,
            a.sigmas,
        ) is Ok,
        merge_plan_outcome(a, dataset, partials) is Ok <==> stream_plan_outcome(a, dataset) is Ok
            && is_finite(a.dilation_ratio) && scaled(a.dilation_ratio) > 0 && forall|i: int|
            0 <= i < partials.len() ==> (#[trigger] partials[i]) is Some,
        dataset matches Err(x) ==> stream_plan_outcome(a, dataset) is Err,
{
    law_settings_are_taken(a.parity_mode@, a.max_dets@, a.memory_budget_bytes);
    law_comparisons_are_refused_for_cause(a.iou_type@, a.dilation_ratio, a.sigmas);
    law_other_items_are_refused(partials, PARTIALS_REFUSED@);
}

/// A background evaluator is refused only for its settings, for a ground truth
/// that is none, or for a wait that is none.
pub proof fn law_whole_starts_are_taken<D>(a: StreamArguments, gt: GtObject<D>, seconds: u64)
    ensures
        start_outcome(
            a.parity_mode@,
            a.max_dets@,
            a.memory_budget_bytes,
            gt,
            seconds,
        ) is Ok <==> (a.parity_mode@ == "strict"@ || a.parity_mode@ == "corrected"@)
            && a.max_dets@.len() > 0 && (gt is Handle || (gt matches GtObject::Bytes(d) && d is Ok))
            && is_finite(seconds) && scaled(seconds) >= 0,
{
    law_settings_are_taken(a.parity_mode@, a.max_dets@, a.memory_budget_bytes);
    law_waits_are_kept(seconds);
}

/// Detections that are no JSON reach the evaluator as they were read along
/// their own route.
pub proof fn law_detections_go_by_their_route(
    source: DetectionsSource,
    iou: ArrayIouType,
    v: Vec<DetectionInput>,
)
    requires
        payload_outcome(source, iou) == Ok::<PayloadView, FailureView>(UpdatePayload::Inputs(v)@),
    ensures
        match source {
            DetectionsSource::Bytes(_) => false,
            DetectionsSource::Dicts { dicts, indexed } => all_inputs(
                dicts@,
                indexed,
                iou,
                dicts@.len(),
            ) == Ok::<Seq<DetectionView>, FailureView>(detections_view(v@)),
            DetectionsSource::AnnList(dicts) => collected(ann_reader(dicts@, iou), dicts@.len())
                == Ok::<Seq<DetectionView>, FailureView>(detections_view(v@)),
            DetectionsSource::Matrix(flat) => flat matches Ok(flat) && collected(
                matrix_reader(flat@),
                flat@.len() / 7,
            ) == Ok::<Seq<DetectionView>, FailureView>(detections_view(v@)),
        },
{
}

/// A table goes out exactly where it was asked for, under its own name and
/// with its own columns.
pub proof fn law_tables_go_out_where_asked_for(t: Tables, w: TableBatches)
    requires
        table_exported(image_table(t), "per_image"@, w.per_image),
        table_exported(class_table(t), "per_class"@, w.per_class),
        table_exported(detection_table(t), "per_detection"@, w.per_detection),
        table_exported(pair_table(t), "per_pair"@, w.per_pair),
    ensures
        match (t.per_image, w.per_image) {
            (None, None) => true,
            (Some(x), Some(b)) => exports(b, per_image_columns(x), table_stamp("per_image"@)),
            _ => false,
        },
        match (t.per_class, w.per_class) {
            (None, None) => true,
            (Some(x), Some(b)) => exports(b, per_class_columns(x), table_stamp("per_class"@)),
            _ => false,
        },
        match (t.per_detection, w.per_detection) {
            (None, None) => true,
            (Some(x), Some(b)) => exports(
                b,
                per_detection_columns(x),
                table_stamp("per_detection"@),
            ),
            _ => false,
        },
        match (t.per_pair, w.per_pair) {
            (None, None) => true,
            (Some(x), Some(b)) => exports(b, per_pair_columns(x), table_stamp("per_pair"@)),
            _ => false,
        },
{
}

/// A plan and a comparison are shown as they are, and a refusal for its own
/// reason.
pub proof fn law_plans_are_shown_as_they_are<D>(
    r: Result<EvaluatorPlan<D>, Refusal>,
    k: Result<EvalIouType, Failure>,
)
    ensures
        match r {
            Ok(p) => plan_view(r) == Ok::<PlanView<D>, RefusalView>(p@),
            Err(e) => plan_view(r) == Err::<PlanView<D>, RefusalView>(e@),
        },
        match k {
            Ok(c) => kernel_view(k) == Ok::<IouTypeView, FailureView>(c@),
            Err(e) => kernel_view(k) == Err::<IouTypeView, FailureView>(e@),
        },
{
}

} // verus!
