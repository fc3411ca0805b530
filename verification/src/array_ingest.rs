//! Detections given as per-image dicts of columns.
//!
//! The objects that a caller passes are described by plain values: what a
//! column read as, or why it was refused. Everything here decides from
//! those descriptions which route an argument takes, which refusal it meets
//! first, and which detections it holds.

use crate::collect::{collected, lemma_collected_items, lemma_collected_refusal};
use crate::failure::{refused, type_error, value_error, Failure, FailureView};
use crate::field_path::{path_text, FieldPath};
use crate::model::{
    copy_range, copy_rings, copy_runs, detections_view, Bbox, CountsKind, DetectionInput,
    DetectionView, MaskObject, RleCounts, RleCountsView, RleDict, Segmentation, SegmentationRle,
    SegmentationView,
};
use crate::text::{nat_text, usize_text};
use vstd::prelude::*;

verus! {

// ---------------------------------------------------------------------------
// Routes
// ---------------------------------------------------------------------------

/// Which of the telling keys a dict holds.
#[derive(Clone, Copy, Debug, PartialEq, Eq, Structural)]
pub struct DictKeys {
    pub boxes: bool,
    pub bbox: bool,
    pub category_id: bool,
}

/// What a `detections` argument is, as far as its route depends on it.
#[derive(Debug)]
pub struct DetectionsObject {
    pub is_bytes: bool,
    /// The keys, where it is a dict.
    pub dict: Option<DictKeys>,
    /// Does it offer the array protocol?
    pub is_array: bool,
    /// The items, where it is a sequence: the keys of a dict, or why the
    /// item is none.
    pub items: Option<Vec<Result<DictKeys, String>>>,
    pub class_name: String,
}

/// The route that a `detections` argument takes.
#[derive(Clone, Copy, Debug, PartialEq, Eq, Structural)]
pub enum DetectionsArg {
    /// JSON bytes.
    Bytes,
    /// Per-image dicts of columns. `indexed` where they came in a sequence,
    /// so that a refusal can name the offending one.
    Dicts { indexed: bool },
    /// Per-annotation result dicts.
    AnnList,
    /// An `(N, 7)` array.
    Matrix,
}

/// A result annotation rather than a dict of columns: `boxes` is the mark of
/// the latter and wins.
pub open spec fn is_result_annotation(keys: DictKeys) -> bool {
    !keys.boxes && (keys.bbox || keys.category_id)
}

/// Does this dict look like a result annotation?
pub fn dict_is_result_annotation(keys: DictKeys) -> (b: bool)
    ensures
        b == is_result_annotation(keys),
{
    if keys.boxes {
        return false;
    }
    keys.bbox || keys.category_id
}

/// The first item that is no dict, and why.
pub open spec fn first_non_dict(items: Seq<Result<DictKeys, String>>, i: int) -> bool {
    &&& 0 <= i < items.len()
    &&& items[i] is Err
    &&& forall|k: int| 0 <= k < i ==> #[trigger] items[k] is Ok
}

/// The refusal of an item that is no dict.
pub open spec fn item_refusal(i: int, reason: Seq<char>) -> FailureView {
    type_error(
        "detections["@ + nat_text(i as nat) + "]: expected a Detections dict: "@ + reason,
    )
}

/// The route of a sequence of dicts: the first one decides.
pub open spec fn sequence_route(items: Seq<Result<DictKeys, String>>) -> DetectionsArg {
    if items.len() > 0 && is_result_annotation(items[0]->Ok_0) {
        DetectionsArg::AnnList
    } else {
        DetectionsArg::Dicts { indexed: true }
    }
}

/// The refusal of an argument that is none of the accepted shapes.
pub open spec fn shape_refusal(class_name: Seq<char>) -> FailureView {
    type_error(
        "detections must be bytes, a Detections dict, a sequence of Detections dicts, \
             a list of COCO result dicts, or an (N, 7) float64 array; got "@ + class_name,
    )
}

impl DetectionsArg {
    /// Classify an argument. `bytes` come first and arrays before sequences,
    /// because both are sequences too.
    pub fn extract(obj: &DetectionsObject) -> (r: Result<DetectionsArg, Failure>)
        ensures
            obj.is_bytes ==> refused(r) == Ok::<_, FailureView>(DetectionsArg::Bytes),
            !obj.is_bytes && obj.dict is Some ==> refused(r) == Ok::<_, FailureView>(
                if is_result_annotation(obj.dict->0) {
                    DetectionsArg::AnnList
                } else {
                    DetectionsArg::Dicts { indexed: false }
                },
            ),
            !obj.is_bytes && obj.dict is None && obj.is_array ==> refused(r) == Ok::<
                _,
                FailureView,
            >(DetectionsArg::Matrix),
            !obj.is_bytes && obj.dict is None && !obj.is_array ==> match obj.items {
                None => refused(r) == Err::<DetectionsArg, _>(shape_refusal(obj.class_name@)),
                Some(items) => match r {
                    Ok(route) => {
                        &&& forall|k: int| 0 <= k < items@.len() ==> #[trigger] items@[k] is Ok
                        &&& route == sequence_route(items@)
                    },
                    Err(e) => exists|i: int|
                        first_non_dict(items@, i) && e@ == #[trigger] item_refusal(
                            i,
                            items@[i]->Err_0@,
                        ),
                },
            },
    {
        if obj.is_bytes {
            return Ok(DetectionsArg::Bytes);
        }
        if let Some(keys) = obj.dict {
            return Ok(
                if dict_is_result_annotation(keys) {
                    DetectionsArg::AnnList
                } else {
                    DetectionsArg::Dicts { indexed: false }
                },
            );
        }
        if obj.is_array {
            return Ok(DetectionsArg::Matrix);
        }
        match &obj.items {
            None => {
                let mut m = String::from_str(
                    "detections must be bytes, a Detections dict, a sequence of Detections dicts, \
             a list of COCO result dicts, or an (N, 7) float64 array; got ",
                );
                m.append(obj.class_name.as_str());
                Err(Failure::type_error(m))
            },
            Some(items) => {
                let mut i: usize = 0;
                #[verifier::loop_isolation(false)]
                while i < items.len()
                    invariant
                        i <= items.len(),
                        forall|k: int| 0 <= k < i ==> #[trigger] items@[k] is Ok,
                    decreases items.len() - i,
                {
                    if let Err(reason) = &items[i] {
                        let mut m = String::from_str("detections[");
                        m.append(usize_text(i).as_str());
                        m.append("]: expected a Detections dict: ");
                        m.append(reason.as_str());
                        let e = Failure::type_error(m);
                        proof {
                            assert(first_non_dict(items@, i as int));
                            assert(e@ == item_refusal(i as int, items@[i as int]->Err_0@));
                        }
                        return Err(e);
                    }
                    i += 1;
                }
                if items.len() > 0 {
                    if let Ok(first) = &items[0] {
                        if dict_is_result_annotation(*first) {
                            return Ok(DetectionsArg::AnnList);
                        }
                    }
                }
                Ok(DetectionsArg::Dicts { indexed: true })
            },
        }
    }
}

/// A columnar payload is never taken for result annotations: neither a dict
/// that holds `boxes`, nor a sequence whose first dict does.
pub proof fn law_boxes_stay_columnar(keys: DictKeys, items: Seq<Result<DictKeys, String>>)
    requires
        keys.boxes,
        items.len() > 0,
        items[0] == Ok::<DictKeys, String>(keys),
    ensures
        !is_result_annotation(keys),
        sequence_route(items) == (DetectionsArg::Dicts { indexed: true }),
{
}

// ---------------------------------------------------------------------------
// The IoU type
// ---------------------------------------------------------------------------

/// Which fields a detection has to carry.
#[derive(Clone, Copy, Debug, PartialEq, Eq, Structural)]
pub enum ArrayIouType {
    Bbox,
    Segm,
    Boundary,
    Keypoints,
}

impl ArrayIouType {
    /// The name that users know it by.
    pub open spec fn name(self) -> Seq<char> {
        match self {
            ArrayIouType::Bbox => "bbox"@,
            ArrayIouType::Segm => "segm"@,
            ArrayIouType::Boundary => "boundary"@,
            ArrayIouType::Keypoints => "keypoints"@,
        }
    }

    /// Masks are compared, so each detection carries one.
    pub open spec fn needs_masks(self) -> bool {
        self is Segm || self is Boundary
    }

    /// The name that users know it by.
    pub fn as_str(self) -> (s: &'static str)
        ensures
            s@ == self.name(),
    {
        match self {
            ArrayIouType::Bbox => "bbox",
            ArrayIouType::Segm => "segm",
            ArrayIouType::Boundary => "boundary",
            ArrayIouType::Keypoints => "keypoints",
        }
    }
}

// ---------------------------------------------------------------------------
// The cast warning
// ---------------------------------------------------------------------------

/// Whether inputs may be cast, and whether the warning about it has been
/// given: `None` where casting is off.
pub type CastState = Option<bool>;

/// The state that an evaluator starts with.
pub fn new_cast_state(enabled: bool) -> (s: CastState)
    ensures
        s == (if enabled {
            Some(false)
        } else {
            None::<bool>
        }),
{
    if enabled {
        Some(false)
    } else {
        None
    }
}

/// A cast: whether the warning is due with it, and that it has then been
/// given.
pub open spec fn cast_step(warned: bool) -> (bool, bool) {
    (!warned, true)
}

/// Note that an input was cast: is the warning due now?
pub fn cast_warning_due(warned: &mut bool) -> (due: bool)
    ensures
        (due, *final(warned)) == cast_step(*old(warned)),
{
    let due: bool = !*warned;
    *warned = true;
    due
}

/// How many warnings are due over `casts` casts.
pub open spec fn warnings_due(warned: bool, casts: nat) -> nat
    decreases casts,
{
    if casts == 0 {
        0
    } else {
        let (due, then_warned) = cast_step(warned);
        (if due {
            1nat
        } else {
            0nat
        }) + warnings_due(then_warned, (casts - 1) as nat)
    }
}

/// However many inputs an evaluator casts, it warns of the first and of no
/// other.
pub proof fn law_cast_warning_is_due_once(casts: nat)
    ensures
        warnings_due(true, casts) == 0,
        warnings_due(false, casts) == (if casts == 0 {
            0nat
        } else {
            1nat
        }),
    decreases casts,
{
    if casts > 0 {
        law_cast_warning_is_due_once((casts - 1) as nat);
    }
}

/// The refusal of an input that could not be cast.
pub fn cast_error(field: &str, dtype: &str, reason: &str) -> (e: Failure)
    ensures
        e@ == type_error(
            field@ + ": cast_inputs=True failed to coerce to "@ + dtype@ + ": "@ + reason@,
        ),
{
    let mut m = String::from_str(field);
    m.append(": cast_inputs=True failed to coerce to ");
    m.append(dtype);
    m.append(": ");
    m.append(reason);
    Failure::type_error(m)
}

// ---------------------------------------------------------------------------
// Masks
// ---------------------------------------------------------------------------

/// Which `counts` an RLE dict may hold.
#[derive(Clone, Copy, Debug, PartialEq, Eq, Structural)]
pub enum CountsShapes {
    /// `bytes` or a uint32 array.
    InMemory,
    /// These, and what a results file holds: a `str` or a list of integers.
    AlsoJsonWire,
}

/// The height and width of an RLE dict, or why its `size` is refused.
pub open spec fn size_tuple(
    size: Result<Vec<Result<u32, String>>, String>,
    field: Seq<char>,
) -> Result<(u32, u32), FailureView> {
    match size {
        Err(reason) => Err(type_error(field + ".size: expected (h, w) sequence: "@ + reason@)),
        Ok(items) => if items@.len() != 2 {
            Err(
                value_error(
                    field + ".size: expected length-2 (h, w), got length "@ + nat_text(
                        items@.len(),
                    ),
                ),
            )
        } else {
            match (items@[0], items@[1]) {
                (Err(reason), _) => Err(
                    value_error(
                        field + ".size[0] (height): expected non-negative int: "@ + reason@,
                    ),
                ),
                (Ok(h), Err(reason)) => Err(
                    value_error(
                        field + ".size[1] (width): expected non-negative int: "@ + reason@,
                    ),
                ),
                (Ok(h), Ok(w)) => Ok((h, w)),
            }
        },
    }
}

/// Read the `size` of an RLE dict.
pub fn extract_size_tuple(size: &Result<Vec<Result<u32, String>>, String>, field: FieldPath) -> (r:
    Result<(u32, u32), Failure>)
    ensures
        refused(r) == size_tuple(*size, field.text()),
{
    let mut m = field.to_text();
    match size {
        Err(reason) => {
            m.append(".size: expected (h, w) sequence: ");
            m.append(reason.as_str());
            Err(Failure::type_error(m))
        },
        Ok(items) => {
            if items.len() != 2 {
                m.append(".size: expected length-2 (h, w), got length ");
                m.append(usize_text(items.len()).as_str());
                return Err(Failure::value_error(m));
            }
            match (&items[0], &items[1]) {
                (Err(reason), _) => {
                    m.append(".size[0] (height): expected non-negative int: ");
                    m.append(reason.as_str());
                    Err(Failure::value_error(m))
                },
                (Ok(_), Err(reason)) => {
                    m.append(".size[1] (width): expected non-negative int: ");
                    m.append(reason.as_str());
                    Err(Failure::value_error(m))
                },
                (Ok(h), Ok(w)) => Ok((*h, *w)),
            }
        },
    }
}

/// Each entry of a list of run lengths.
pub open spec fn run_reader(
    items: Seq<Result<u32, String>>,
    field: Seq<char>,
) -> spec_fn(int) -> Result<u32, FailureView> {
    |j: int|
        match items[j] {
            Ok(run) => Ok(run),
            Err(reason) => Err(
                value_error(
                    field + ".counts["@ + nat_text(j as nat) + "]: expected a non-negative int: "@
                        + reason@,
                ),
            ),
        }
}

/// The run lengths of a list, or the first entry that is none.
fn extract_runs(items: &Vec<Result<u32, String>>, field: FieldPath) -> (r: Result<
    Vec<u32>,
    Failure,
>)
    ensures
        match r {
            Ok(runs) => collected(run_reader(items@, field.text()), items@.len()) == Ok::<
                Seq<u32>,
                FailureView,
            >(runs@),
            Err(e) => collected(run_reader(items@, field.text()), items@.len()) == Err::<
                Seq<u32>,
                FailureView,
            >(e@),
        },
{
    let ghost f = run_reader(items@, field.text());
    let mut runs: Vec<u32> = Vec::new();
    let mut j: usize = 0;
    while j < items.len()
        invariant
            j <= items.len(),
            f == run_reader(items@, field.text()),
            collected(f, j as nat) == Ok::<Seq<u32>, FailureView>(runs@),
        decreases items.len() - j,
    {
        match &items[j] {
            Ok(run) => {
                runs.push(*run);
                assert(f(j as int) == Ok::<u32, FailureView>(*run));
            },
            Err(reason) => {
                let mut m = field.to_text();
                m.append(".counts[");
                m.append(usize_text(j).as_str());
                m.append("]: expected a non-negative int: ");
                m.append(reason.as_str());
                let e = Failure::value_error(m);
                proof {
                    assert(f(j as int) == Err::<u32, FailureView>(e@));
                    lemma_collected_refusal(f, (j + 1) as nat, items@.len());
                }
                return Err(e);
            },
        }
        j += 1;
    }
    Ok(runs)
}

/// The refusal of a buffer as `counts`.
pub open spec fn ambiguous_counts(field: Seq<char>, class_name: Seq<char>) -> FailureView {
    type_error(
        field + ".counts: got "@ + class_name
            + ", which is ambiguous — its elements are \
             the bytes of a compressed COCO string on one reading and \
             uncompressed run lengths on the other. Pass `bytes(...)` (or \
             `str`) for compressed counts, or a uint32 array / list of ints \
             for uncompressed ones"@,
    )
}

/// The counts of an RLE dict, or why they are refused.
pub open spec fn counts_outcome(
    kind: CountsKind,
    array: Result<Vec<u32>, Failure>,
    field: Seq<char>,
    shapes: CountsShapes,
) -> Result<RleCountsView, FailureView> {
    let wire = shapes is AlsoJsonWire;
    match kind {
        CountsKind::Bytes(Some(text)) => Ok(RleCountsView::Compressed(text@)),
        CountsKind::Bytes(None) => Err(
            value_error(
                field + ".counts: compressed RLE bytes must be \
                 valid UTF-8 ASCII (COCO 6-bit string)"@,
            ),
        ),
        CountsKind::Text(text) if wire => Ok(RleCountsView::Compressed(text@)),
        CountsKind::Buffer(class_name) => Err(ambiguous_counts(field, class_name@)),
        CountsKind::Items(items) if wire => match collected(
            run_reader(items@, field),
            items@.len(),
        ) {
            Ok(runs) => Ok(RleCountsView::Uncompressed(runs)),
            Err(e) => Err(e),
        },
        _ => match array {
            Ok(runs) => Ok(RleCountsView::Uncompressed(runs@)),
            Err(e) => Err(e@),
        },
    }
}

/// The mask of an RLE dict, or why it is refused.
pub open spec fn rle_dict_outcome(
    dict: RleDict,
    field: Seq<char>,
    shapes: CountsShapes,
) -> Result<SegmentationView, FailureView> {
    match (dict.counts, dict.size) {
        (None, _) => Err(
            value_error(field + ": missing 'counts' \
             (uint32 1-D array or bytes)"@),
        ),
        (Some(_), None) => Err(value_error(field + ": missing 'size' (h, w) tuple"@)),
        (Some(counts), Some(size)) => match size_tuple(size, field) {
            Err(e) => Err(e),
            Ok((h, w)) => match counts_outcome(counts.kind, counts.array, field, shapes) {
                Err(e) => Err(e),
                Ok(counts) => Ok(SegmentationView::Rle { h, w, counts }),
            },
        },
    }
}

/// A result with a segmentation by its mathematical value.
pub open spec fn mask_view(r: Result<Segmentation, Failure>) -> Result<
    SegmentationView,
    FailureView,
> {
    match r {
        Ok(s) => Ok(s@),
        Err(e) => Err(e@),
    }
}

/// Read the counts of an RLE dict.
fn extract_counts(
    kind: &CountsKind,
    array: &Result<Vec<u32>, Failure>,
    field: FieldPath,
    shapes: CountsShapes,
) -> (r: Result<RleCounts, Failure>)
    ensures
        match r {
            Ok(c) => counts_outcome(*kind, *array, field.text(), shapes) == Ok::<
                RleCountsView,
                FailureView,
            >(c@),
            Err(e) => counts_outcome(*kind, *array, field.text(), shapes) == Err::<
                RleCountsView,
                FailureView,
            >(e@),
        },
{
    let wire: bool = shapes == CountsShapes::AlsoJsonWire;
    match kind {
        CountsKind::Bytes(Some(text)) => return Ok(RleCounts::Compressed(text.clone())),
        CountsKind::Bytes(None) => {
            let mut m = field.to_text();
            m.append(
                ".counts: compressed RLE bytes must be \
                 valid UTF-8 ASCII (COCO 6-bit string)",
            );
            return Err(Failure::value_error(m));
        },
        CountsKind::Text(text) => {
            if wire {
                return Ok(RleCounts::Compressed(text.clone()));
            }
        },
        CountsKind::Buffer(class_name) => {
            let mut m = field.to_text();
            m.append(".counts: got ");
            m.append(class_name.as_str());
            m.append(
                ", which is ambiguous — its elements are \
             the bytes of a compressed COCO string on one reading and \
             uncompressed run lengths on the other. Pass `bytes(...)` (or \
             `str`) for compressed counts, or a uint32 array / list of ints \
             for uncompressed ones",
            );
            return Err(Failure::type_error(m));
        },
        CountsKind::Items(items) => {
            if wire {
                return match extract_runs(items, field) {
                    Ok(runs) => Ok(RleCounts::Uncompressed(runs)),
                    Err(e) => Err(e),
                };
            }
        },
        CountsKind::Other => {},
    }
    match array {
        Ok(runs) => Ok(RleCounts::Uncompressed(copy_runs(runs))),
        Err(e) => Err(e.copy()),
    }
}

/// Read an RLE dict.
pub fn extract_rle_dict(dict: &RleDict, field: FieldPath, shapes: CountsShapes) -> (r: Result<
    Segmentation,
    Failure,
>)
    ensures
        mask_view(r) == rle_dict_outcome(*dict, field.text(), shapes),
{
    match &dict.counts {
        None => {
            let mut m = field.to_text();
            m.append(
                ": missing 'counts' \
             (uint32 1-D array or bytes)",
            );
            Err(Failure::value_error(m))
        },
        Some(counts) => match &dict.size {
            None => {
                let mut m = field.to_text();
                m.append(": missing 'size' (h, w) tuple");
                Err(Failure::value_error(m))
            },
            Some(size) => match extract_size_tuple(size, field) {
                Err(e) => Err(e),
                Ok((h, w)) => match extract_counts(&counts.kind, &counts.array, field, shapes) {
                    Err(e) => Err(e),
                    Ok(counts) => Ok(Segmentation::Rle(SegmentationRle { h, w, counts })),
                },
            },
        },
    }
}

/// The refusal of an object that is no mask.
pub open spec fn mask_refusal(field: Seq<char>, class_name: Seq<char>) -> FailureView {
    type_error(
        field + ": expected RLE dict {counts, size} \
             or 2-D bool/uint8 array, got "@ + class_name
            + " (polygons are accepted on the result-dict and JSON routes, \
             not on the columnar `rles` field)"@,
    )
}

/// The mask of an object, or why it is refused. Polygons are none here.
pub open spec fn one_rle(
    item: MaskObject,
    field: Seq<char>,
    shapes: CountsShapes,
) -> Result<SegmentationView, FailureView> {
    match item {
        MaskObject::Dict(dict) => rle_dict_outcome(dict, field, shapes),
        MaskObject::Bitmask(Ok(rle)) => Ok(rle@),
        MaskObject::Bitmask(Err(e)) => Err(e@),
        MaskObject::Rings(_, class_name) => Err(mask_refusal(field, class_name@)),
        MaskObject::Other(class_name) => Err(mask_refusal(field, class_name@)),
    }
}

/// The refusal of an object that is no mask.
fn mask_error(field: FieldPath, class_name: &str) -> (e: Failure)
    ensures
        e@ == mask_refusal(field.text(), class_name@),
{
    let mut m = field.to_text();
    m.append(
        ": expected RLE dict {counts, size} \
             or 2-D bool/uint8 array, got ",
    );
    m.append(class_name);
    m.append(
        " (polygons are accepted on the result-dict and JSON routes, \
             not on the columnar `rles` field)",
    );
    Failure::type_error(m)
}

/// Read a mask with the accepted counts chosen by the caller.
pub fn extract_one_rle_with(item: &MaskObject, field: FieldPath, shapes: CountsShapes) -> (r:
    Result<Segmentation, Failure>)
    ensures
        mask_view(r) == one_rle(*item, field.text(), shapes),
{
    match item {
        MaskObject::Dict(dict) => extract_rle_dict(dict, field, shapes),
        MaskObject::Bitmask(Ok(rle)) => Ok(Segmentation::Rle(rle.copy())),
        MaskObject::Bitmask(Err(e)) => Err(e.copy()),
        MaskObject::Rings(_, class_name) => Err(mask_error(field, class_name.as_str())),
        MaskObject::Other(class_name) => Err(mask_error(field, class_name.as_str())),
    }
}

/// Read a mask of the columnar route.
pub fn extract_one_rle(item: &MaskObject, field: FieldPath) -> (r: Result<Segmentation, Failure>)
    ensures
        mask_view(r) == one_rle(*item, field.text(), CountsShapes::InMemory),
{
    extract_one_rle_with(item, field, CountsShapes::InMemory)
}

/// The segmentation of an object on the routes that also take polygons and
/// what a file holds.
pub open spec fn any_segmentation(item: MaskObject, field: Seq<char>) -> Result<
    SegmentationView,
    FailureView,
> {
    match item {
        MaskObject::Rings(rings, _) => Ok(
            SegmentationView::Polygons(rings@.map_values(|r: Vec<u64>| r@)),
        ),
        _ => one_rle(item, field, CountsShapes::AlsoJsonWire),
    }
}

/// Read a segmentation on the routes that also take polygons and what a file
/// holds.
pub fn extract_segmentation(item: &MaskObject, field: FieldPath) -> (r: Result<
    Segmentation,
    Failure,
>)
    ensures
        mask_view(r) == any_segmentation(*item, field.text()),
{
    match item {
        MaskObject::Rings(rings, _) => Ok(Segmentation::Polygons(copy_rings(rings))),
        _ => extract_one_rle_with(item, field, CountsShapes::AlsoJsonWire),
    }
}

/// The run lengths of a list are its entries, one for one.
proof fn lemma_runs_are_kept(items: Seq<Result<u32, String>>, field: Seq<char>, runs: Seq<u32>)
    requires
        collected(run_reader(items, field), items.len()) == Ok::<Seq<u32>, FailureView>(runs),
    ensures
        items.len() == runs.len(),
        forall|j: int| 0 <= j < runs.len() ==> items[j] == Ok::<u32, String>(#[trigger] runs[j]),
{
    let f = run_reader(items, field);
    lemma_collected_items(f, items.len());
    assert forall|j: int| 0 <= j < runs.len() implies items[j] == Ok::<u32, String>(
        #[trigger] runs[j],
    ) by {
        assert(f(j) == Ok::<u32, FailureView>(runs[j]));
    }
}

/// A mask of the columnar route is the one that is held: its height and width
/// are those of the `size`, in this order, and its counts are the text or the
/// runs that were given. Polygons are none.
pub proof fn law_column_masks_are_those_held(item: MaskObject, field: Seq<char>, s: Segmentation)
    requires
        one_rle(item, field, CountsShapes::InMemory) == Ok::<SegmentationView, FailureView>(s@),
    ensures
        match item {
            MaskObject::Bitmask(b) => {
                &&& b matches Ok(rle)
                &&& s matches Segmentation::Rle(r)
                &&& r.h == rle.h
                &&& r.w == rle.w
                &&& match (rle.counts, r.counts) {
                    (RleCounts::Compressed(x), RleCounts::Compressed(y)) => x@ == y@,
                    (RleCounts::Uncompressed(x), RleCounts::Uncompressed(y)) => x@ == y@,
                    _ => false,
                }
            },
            MaskObject::Dict(d) => {
                &&& d.size matches Some(Ok(size))
                &&& d.counts matches Some(c)
                &&& s matches Segmentation::Rle(r)
                &&& size@.len() == 2
                &&& size@[0] == Ok::<u32, String>(r.h)
                &&& size@[1] == Ok::<u32, String>(r.w)
                &&& match r.counts {
                    RleCounts::Compressed(t) => match c.kind {
                        CountsKind::Bytes(Some(x)) => x@ == t@,
                        _ => false,
                    },
                    RleCounts::Uncompressed(runs) => c.array matches Ok(v) && v@ == runs@,
                }
            },
            MaskObject::Other(_) => false,
            MaskObject::Rings(_, _) => false,
        },
{
}

/// A segmentation is the one that is held: rings stay as they are, ring by
/// ring, and a mask has the height, the width and the counts that were given.
pub proof fn law_segmentations_are_those_held(item: MaskObject, field: Seq<char>, s: Segmentation)
    requires
        any_segmentation(item, field) == Ok::<SegmentationView, FailureView>(s@),
    ensures
        match item {
            MaskObject::Bitmask(b) => {
                &&& b matches Ok(rle)
                &&& s matches Segmentation::Rle(r)
                &&& r.h == rle.h
                &&& r.w == rle.w
                &&& match (rle.counts, r.counts) {
                    (RleCounts::Compressed(x), RleCounts::Compressed(y)) => x@ == y@,
                    (RleCounts::Uncompressed(x), RleCounts::Uncompressed(y)) => x@ == y@,
                    _ => false,
                }
            },
            MaskObject::Dict(d) => {
                &&& d.size matches Some(Ok(size))
                &&& d.counts matches Some(c)
                &&& s matches Segmentation::Rle(r)
                &&& size@.len() == 2
                &&& size@[0] == Ok::<u32, String>(r.h)
                &&& size@[1] == Ok::<u32, String>(r.w)
                &&& match r.counts {
                    RleCounts::Compressed(t) => match c.kind {
                        CountsKind::Bytes(Some(x)) => x@ == t@,
                        CountsKind::Text(x) => x@ == t@,
                        _ => false,
                    },
                    RleCounts::Uncompressed(runs) => {
                        ||| (c.array matches Ok(v) && v@ == runs@)
                        ||| (c.kind matches CountsKind::Items(items) && items@.len()
                            == runs@.len() && forall|j: int|
                            0 <= j < runs@.len() ==> items@[j] == Ok::<u32, String>(
                                #[trigger] runs@[j],
                            ))
                    },
                }
            },
            MaskObject::Other(_) => false,
            MaskObject::Rings(rings, _) => {
                &&& s matches Segmentation::Polygons(v)
                &&& v@.len() == rings@.len()
                &&& forall|i: int| 0 <= i < v@.len() ==> (#[trigger] v@[i])@ == rings@[i]@
            },
        },
{
    match item {
        MaskObject::Rings(rings, _) => {
            if let Segmentation::Polygons(v) = s {
                let got = v@.map_values(|r: Vec<u64>| r@);
                let want = rings@.map_values(|r: Vec<u64>| r@);
                assert(got == want);
                assert(got.len() == want.len());
                assert forall|i: int| 0 <= i < v@.len() implies (#[trigger] v@[i])@
                    == rings@[i]@ by {
                    assert(got[i] == want[i]);
                }
            }
        },
        MaskObject::Dict(d) => {
            if let (Some(c), Segmentation::Rle(r)) = (d.counts, s) {
                if let (CountsKind::Items(items), RleCounts::Uncompressed(runs)) = (
                    c.kind,
                    r.counts,
                ) {
                    lemma_runs_are_kept(items@, field, runs@);
                }
            }
        },
        _ => {},
    }
}

/// A column of masks is read mask by mask, each at its own place.
pub proof fn law_mask_columns_keep_their_places(
    items: Result<Vec<MaskObject>, String>,
    path: FieldPath,
    n: nat,
    out: Seq<SegmentationView>,
    i: int,
)
    requires
        rles_outcome(items, path, n) == Ok::<Seq<SegmentationView>, FailureView>(out),
        0 <= i < n,
    ensures
        items matches Ok(v) && v@.len() == n && out.len() == n && one_rle(
            v@[i],
            path_text(path.root@, path.ann, path.name@, Some(i as usize)),
            CountsShapes::InMemory,
        ) == Ok::<SegmentationView, FailureView>(out[i]),
{
    let f = rle_reader(items->Ok_0@, path);
    lemma_collected_items(f, n);
    assert(f(i) == Ok::<SegmentationView, FailureView>(out[i]));
}

/// Each mask of a `rles` column.
pub open spec fn rle_reader(items: Seq<MaskObject>, path: FieldPath) -> spec_fn(int) -> Result<
    SegmentationView,
    FailureView,
> {
    |i: int|
        one_rle(
            items[i],
            path_text(path.root@, path.ann, path.name@, Some(i as usize)),
            CountsShapes::InMemory,
        )
}

/// The masks of a `rles` column, or why it is refused.
pub open spec fn rles_outcome(
    items: Result<Vec<MaskObject>, String>,
    path: FieldPath,
    n: nat,
) -> Result<Seq<SegmentationView>, FailureView> {
    match items {
        Err(reason) => Err(
            type_error(
                path.text() + ": expected a sequence of RLE dicts \
             or 2-D bool/uint8 bitmasks: "@ + reason@,
            ),
        ),
        Ok(items) => if items@.len() != n {
            Err(
                value_error(
                    path.text() + ": length "@ + nat_text(items@.len())
                        + " disagrees with boxes (N="@ + nat_text(n) + ")"@,
                ),
            )
        } else {
            collected(rle_reader(items@, path), n)
        },
    }
}

/// A list of segmentations by its mathematical value.
pub open spec fn masks_view(r: Result<Vec<Segmentation>, Failure>) -> Result<
    Seq<SegmentationView>,
    FailureView,
> {
    match r {
        Ok(v) => Ok(v@.map_values(|s: Segmentation| s@)),
        Err(e) => Err(e@),
    }
}

/// Read a `rles` column for `n` boxes.
pub fn extract_rles(items: &Result<Vec<MaskObject>, String>, path: FieldPath, n: usize) -> (r:
    Result<Vec<Segmentation>, Failure>)
    ensures
        masks_view(r) == rles_outcome(*items, path, n as nat),
{
    let list = match items {
        Err(reason) => {
            let mut m = path.to_text();
            m.append(
                ": expected a sequence of RLE dicts \
             or 2-D bool/uint8 bitmasks: ",
            );
            m.append(reason.as_str());
            return Err(Failure::type_error(m));
        },
        Ok(list) => list,
    };
    if list.len() != n {
        let mut m = path.to_text();
        m.append(": length ");
        m.append(usize_text(list.len()).as_str());
        m.append(" disagrees with boxes (N=");
        m.append(usize_text(n).as_str());
        m.append(")");
        return Err(Failure::value_error(m));
    }
    let ghost f = rle_reader(list@, path);
    let mut out: Vec<Segmentation> = Vec::new();
    let mut i: usize = 0;
    proof {
        assert(out@.map_values(|s: Segmentation| s@) =~= Seq::empty());
    }
    #[verifier::loop_isolation(false)]
    while i < n
        invariant
            i <= n == list.len(),
            f == rle_reader(list@, path),
            collected(f, i as nat) == Ok::<Seq<SegmentationView>, FailureView>(
                out@.map_values(|s: Segmentation| s@),
            ),
        decreases n - i,
    {
        let ghost before = out@;
        match extract_one_rle(&list[i], path.item(i)) {
            Ok(s) => {
                out.push(s);
                proof {
                    assert(f(i as int) == Ok::<SegmentationView, FailureView>(s@));
                    assert(out@.map_values(|s: Segmentation| s@) =~= before.map_values(
                        |s: Segmentation| s@,
                    ).push(s@));
                }
            },
            Err(e) => {
                proof {
                    assert(f(i as int) == Err::<SegmentationView, FailureView>(e@));
                    lemma_collected_refusal(f, (i + 1) as nat, n as nat);
                }
                return Err(e);
            },
        }
        i += 1;
    }
    Ok(out)
}

// ---------------------------------------------------------------------------
// Per-image dicts
// ---------------------------------------------------------------------------

/// A per-image dict of columns: under each key, what came of reading it, or
/// nothing where the key is missing.
#[derive(Debug)]
pub struct DetectionsDict {
    /// An integer, or why it is none.
    pub image_id: Option<Result<i64, String>>,
    /// Flat `(N, 4)` float64.
    pub boxes: Option<Result<Vec<u64>, Failure>>,
    /// `(N,)` float64.
    pub scores: Option<Result<Vec<u64>, Failure>>,
    /// `(N,)` int64.
    pub labels: Option<Result<Vec<i64>, Failure>>,
    /// The masks, or why they are no sequence.
    pub rles: Option<Result<Vec<MaskObject>, String>>,
    /// Flat `(N, K, 3)` float64, and K.
    pub keypoints: Option<Result<(Vec<u64>, usize), Failure>>,
}

/// A path into the `detections` argument.
pub open spec fn at(ann: Option<usize>, name: Seq<char>) -> Seq<char> {
    path_text("detections"@, ann, name, None)
}

/// A column that has to be there.
pub open spec fn needed<T>(column: Option<Result<Vec<T>, Failure>>, missing: Seq<char>) -> Result<
    Seq<T>,
    FailureView,
> {
    match column {
        None => Err(value_error(missing)),
        Some(Err(e)) => Err(e@),
        Some(Ok(v)) => Ok(v@),
    }
}

/// A column that has to be there: the refusal is `here` and then `missing`.
fn need<'b, T>(
    column: &'b Option<Result<Vec<T>, Failure>>,
    here: FieldPath,
    missing: &str,
) -> (r: Result<&'b Vec<T>, Failure>)
    ensures
        match r {
            Ok(v) => *column == Some(Ok::<Vec<T>, Failure>(*v)),
            Err(e) => needed(*column, here.text() + missing@) == Err::<Seq<T>, FailureView>(e@),
        },
{
    match column {
        None => {
            let mut m = here.to_text();
            m.append(missing);
            Err(Failure::value_error(m))
        },
        Some(Err(e)) => Err(e.copy()),
        Some(Ok(v)) => Ok(v),
    }
}

/// The refusal of a column whose length is not that of the boxes.
pub open spec fn length_refusal(path: Seq<char>, len: nat, n: nat) -> FailureView {
    value_error(
        path + ": length "@ + nat_text(len) + " disagrees with boxes (N="@ + nat_text(n) + ")"@,
    )
}

/// The refusal of a column whose length is not that of the boxes.
fn length_error(path: FieldPath, len: usize, n: usize) -> (e: Failure)
    ensures
        e@ == length_refusal(path.text(), len as nat, n as nat),
{
    let mut m = path.to_text();
    m.append(": length ");
    m.append(usize_text(len).as_str());
    m.append(" disagrees with boxes (N=");
    m.append(usize_text(n).as_str());
    m.append(")");
    Failure::value_error(m)
}

/// The masks of the detections, where the IoU type needs them.
pub open spec fn dict_masks(
    d: DetectionsDict,
    ann: Option<usize>,
    iou: ArrayIouType,
    n: nat,
) -> Result<Option<Seq<SegmentationView>>, FailureView> {
    if !iou.needs_masks() {
        Ok(None)
    } else {
        match d.rles {
            None => Err(
                value_error(
                    at(ann, ""@) + ": iou_type="@ + iou.name() + " requires a 'rles' field \
                     (sequence of RLE dicts or 2-D bool/uint8 bitmasks)"@,
                ),
            ),
            Some(items) => match rles_outcome(
                items,
                (FieldPath { root: "detections", ann, name: ".rles", item: None }),
                n,
            ) {
                Ok(masks) => Ok(Some(masks)),
                Err(e) => Err(e),
            },
        }
    }
}

/// The keypoints of the detections and the width of a row, where the IoU
/// type needs them.
pub open spec fn dict_keypoints(
    d: DetectionsDict,
    ann: Option<usize>,
    iou: ArrayIouType,
    n: nat,
) -> Result<Option<(Seq<u64>, nat)>, FailureView> {
    if !(iou is Keypoints) {
        Ok(None)
    } else {
        match d.keypoints {
            None => Err(
                value_error(
                    at(ann, ""@) + ": iou_type='keypoints' requires a 'keypoints' field \
                     ((N, K, 3) float64 array of [x, y, v] triplets)"@,
                ),
            ),
            Some(Err(e)) => Err(e@),
            Some(Ok((flat, k))) => if n * (k * 3) > usize::MAX {
                Err(
                    value_error(
                        at(ann, ".keypoints"@) + ": shape product (N="@ + nat_text(n) + ", K="@
                            + nat_text(k as nat) + ", 3) overflows usize"@,
                    ),
                )
            } else if flat@.len() != n * (k * 3) {
                Err(
                    value_error(
                        at(ann, ".keypoints"@) + ": flat length "@ + nat_text(flat@.len())
                            + " disagrees with shape (N="@ + nat_text(n) + ", K="@ + nat_text(
                            k as nat,
                        ) + ", 3)"@,
                    ),
                )
            } else {
                Ok(Some((flat@, (k * 3) as nat)))
            },
        }
    }
}

/// The detection in row `i` of the columns.
pub open spec fn dict_row(
    image_id: i64,
    boxes: Seq<u64>,
    scores: Seq<u64>,
    labels: Seq<i64>,
    masks: Option<Seq<SegmentationView>>,
    keypoints: Option<(Seq<u64>, nat)>,
    i: int,
) -> DetectionView {
    DetectionView {
        id: None,
        image_id,
        category_id: labels[i],
        score: scores[i],
        bbox: Bbox {
            x: boxes[4 * i],
            y: boxes[4 * i + 1],
            w: boxes[4 * i + 2],
            h: boxes[4 * i + 3],
        },
        area: None,
        segmentation: match masks {
            None => None,
            Some(m) => Some(m[i]),
        },
        keypoints: match keypoints {
            None => None,
            Some((flat, stride)) => Some(flat.subrange(i * stride, (i + 1) * stride)),
        },
        num_keypoints: None,
    }
}

/// The detections of a per-image dict, one for each box, or the first
/// refusal that it meets.
#[verifier::opaque]
pub open spec fn inputs_one(d: DetectionsDict, ann: Option<usize>, iou: ArrayIouType) -> Result<
    Seq<DetectionView>,
    FailureView,
> {
    match d.image_id {
        None => Err(
            value_error(
                at(ann, ""@) + ": missing required field 'image_id' \
             (each Detections dict must carry an integer image id)"@,
            ),
        ),
        Some(Err(reason)) => Err(
            value_error(at(ann, ".image_id"@) + ": expected int, got "@ + reason@),
        ),
        Some(Ok(image_id)) => match needed(
            d.boxes,
            at(ann, ""@) + ": missing required field 'boxes' (N×4 float64 xywh array)"@,
        ) {
            Err(e) => Err(e),
            Ok(boxes) => {
                let n = boxes.len() / 4;
                match needed(
                    d.scores,
                    at(ann, ""@) + ": missing required field 'scores' (length-N float64)"@,
                ) {
                    Err(e) => Err(e),
                    Ok(scores) => if scores.len() != n {
                        Err(length_refusal(at(ann, ".scores"@), scores.len(), n))
                    } else {
                        match needed(
                            d.labels,
                            at(ann, ""@) + ": missing required field 'labels' (length-N int64)"@,
                        ) {
                            Err(e) => Err(e),
                            Ok(labels) => if labels.len() != n {
                                Err(length_refusal(at(ann, ".labels"@), labels.len(), n))
                            } else {
                                match dict_masks(d, ann, iou, n) {
                                    Err(e) => Err(e),
                                    Ok(masks) => match dict_keypoints(d, ann, iou, n) {
                                        Err(e) => Err(e),
                                        Ok(keypoints) => Ok(
                                            Seq::new(
                                                n,
                                                |i: int|
                                                    dict_row(
                                                        image_id,
                                                        boxes,
                                                        scores,
                                                        labels,
                                                        masks,
                                                        keypoints,
                                                        i,
                                                    ),
                                            ),
                                        ),
                                    },
                                }
                            },
                        }
                    },
                }
            },
        },
    }
}

/// Detections by their mathematical value.
pub open spec fn inputs_view(r: Result<Vec<DetectionInput>, Failure>) -> Result<
    Seq<DetectionView>,
    FailureView,
> {
    match r {
        Ok(v) => Ok(detections_view(v@)),
        Err(e) => Err(e@),
    }
}

/// A keypoint column whose row width fits in a `usize`.
pub open spec fn keypoints_fit(d: DetectionsDict, iou: ArrayIouType) -> bool {
    iou is Keypoints ==> (d.keypoints matches Some(Ok((flat, k))) ==> k * 3 <= usize::MAX)
}

/// Read the masks that the IoU type needs.
fn read_masks(d: &DetectionsDict, ann: Option<usize>, iou: ArrayIouType, n: usize) -> (r: Result<
    Vec<Option<Segmentation>>,
    Failure,
>)
    ensures
        match r {
            Ok(slots) => match dict_masks(*d, ann, iou, n as nat) {
                Ok(None) => slots@.len() == 0,
                Ok(Some(masks)) => {
                    &&& slots@.len() == n
                    &&& masks.len() == n
                    &&& forall|i: int|
                        0 <= i < n ==> (#[trigger] slots@[i] matches Some(s) && s@ == masks[i])
                },
                Err(_) => false,
            },
            Err(e) => dict_masks(*d, ann, iou, n as nat) == Err::<
                Option<Seq<SegmentationView>>,
                FailureView,
            >(e@),
        },
{
    let mut slots: Vec<Option<Segmentation>> = Vec::new();
    match iou {
        ArrayIouType::Bbox | ArrayIouType::Keypoints => Ok(slots),
        ArrayIouType::Segm | ArrayIouType::Boundary => match &d.rles {
            None => {
                let mut m = FieldPath::new(ann, "").to_text();
                m.append(": iou_type=");
                m.append(iou.as_str());
                m.append(
                    " requires a 'rles' field \
                     (sequence of RLE dicts or 2-D bool/uint8 bitmasks)",
                );
                Err(Failure::value_error(m))
            },
            Some(items) => {
                let path = FieldPath::rooted("detections", ann, ".rles");
                let masks = match extract_rles(items, path, n) {
                    Ok(masks) => masks,
                    Err(e) => return Err(e),
                };
                let ghost list = masks@;
                proof {
                    if let Ok(objects) = items {
                        lemma_collected_items(rle_reader(objects@, path), n as nat);
                    }
                }
                for mask in iter: masks
                    invariant
                        iter.seq() == list,
                        slots@.len() == iter.index(),
                        forall|i: int|
                            0 <= i < slots@.len() ==> #[trigger] slots@[i] == Some(list[i]),
                {
                    slots.push(Some(mask));
                }
                Ok(slots)
            },
        },
    }
}

/// Read the keypoints that the IoU type needs: the flat column and the width
/// of a row.
fn read_keypoints<'b>(
    d: &'b DetectionsDict,
    ann: Option<usize>,
    iou: ArrayIouType,
    n: usize,
) -> (r: Result<Option<(&'b Vec<u64>, usize)>, Failure>)
    requires
        keypoints_fit(*d, iou),
    ensures
        match r {
            Ok(None) => dict_keypoints(*d, ann, iou, n as nat) == Ok::<
                Option<(Seq<u64>, nat)>,
                FailureView,
            >(None),
            Ok(Some((flat, stride))) => {
                &&& dict_keypoints(*d, ann, iou, n as nat) == Ok::<
                    Option<(Seq<u64>, nat)>,
                    FailureView,
                >(Some((flat@, stride as nat)))
                &&& flat@.len() == n * stride
            },
            Err(e) => dict_keypoints(*d, ann, iou, n as nat) == Err::<
                Option<(Seq<u64>, nat)>,
                FailureView,
            >(e@),
        },
{
    if iou != ArrayIouType::Keypoints {
        return Ok(None);
    }
    match &d.keypoints {
        None => {
            let mut m = FieldPath::new(ann, "").to_text();
            m.append(
                ": iou_type='keypoints' requires a 'keypoints' field \
                     ((N, K, 3) float64 array of [x, y, v] triplets)",
            );
            Err(Failure::value_error(m))
        },
        Some(Err(e)) => Err(e.copy()),
        Some(Ok((flat, k))) => {
            let k: usize = *k;
            let stride: usize = k * 3;
            let mut m = FieldPath::new(ann, ".keypoints").to_text();
            match n.checked_mul(stride) {
                None => {
                    m.append(": shape product (N=");
                    m.append(usize_text(n).as_str());
                    m.append(", K=");
                    m.append(usize_text(k).as_str());
                    m.append(", 3) overflows usize");
                    Err(Failure::value_error(m))
                },
                Some(expected) => if flat.len() != expected {
                    m.append(": flat length ");
                    m.append(usize_text(flat.len()).as_str());
                    m.append(" disagrees with shape (N=");
                    m.append(usize_text(n).as_str());
                    m.append(", K=");
                    m.append(usize_text(k).as_str());
                    m.append(", 3)");
                    Err(Failure::value_error(m))
                } else {
                    Ok(Some((flat, stride)))
                },
            }
        },
    }
}

/// Read a per-image dict. `ann` is its position where it came in a sequence.
pub fn extract_inputs_one(d: &DetectionsDict, ann: Option<usize>, iou: ArrayIouType) -> (r: Result<
    Vec<DetectionInput>,
    Failure,
>)
    requires
        keypoints_fit(*d, iou),
    ensures
        inputs_view(r) == inputs_one(*d, ann, iou),
{
    proof {
        reveal(inputs_one);
    }
    let here = FieldPath::new(ann, "");
    let image_id: i64 = match &d.image_id {
        None => {
            let mut m = here.to_text();
            m.append(
                ": missing required field 'image_id' \
             (each Detections dict must carry an integer image id)",
            );
            return Err(Failure::value_error(m));
        },
        Some(Err(reason)) => {
            let mut m = FieldPath::new(ann, ".image_id").to_text();
            m.append(": expected int, got ");
            m.append(reason.as_str());
            return Err(Failure::value_error(m));
        },
        Some(Ok(id)) => *id,
    };
    let boxes = match need(
        &d.boxes,
        here,
        ": missing required field 'boxes' (N×4 float64 xywh array)",
    ) {
        Ok(v) => v,
        Err(e) => return Err(e),
    };
    let n: usize = boxes.len() / 4;
    let scores = match need(
        &d.scores,
        here,
        ": missing required field 'scores' (length-N float64)",
    ) {
        Ok(v) => v,
        Err(e) => return Err(e),
    };
    if scores.len() != n {
        return Err(length_error(FieldPath::new(ann, ".scores"), scores.len(), n));
    }
    let labels = match need(
        &d.labels,
        here,
        ": missing required field 'labels' (length-N int64)",
    ) {
        Ok(v) => v,
        Err(e) => return Err(e),
    };
    if labels.len() != n {
        return Err(length_error(FieldPath::new(ann, ".labels"), labels.len(), n));
    }
    let mut slots = match read_masks(d, ann, iou, n) {
        Ok(slots) => slots,
        Err(e) => return Err(e),
    };
    let keypoints = match read_keypoints(d, ann, iou, n) {
        Ok(keypoints) => keypoints,
        Err(e) => return Err(e),
    };
    let ghost masks = dict_masks(*d, ann, iou, n as nat)->Ok_0;
    let ghost rows = dict_keypoints(*d, ann, iou, n as nat)->Ok_0;
    let ghost want = Seq::new(
        n as nat,
        |i: int| dict_row(image_id, boxes@, scores@, labels@, masks, rows, i),
    );
    let mut inputs: Vec<DetectionInput> = Vec::new();
    let mut i: usize = 0;
    while i < n
        invariant
            i <= n,
            n == boxes@.len() / 4,
            scores@.len() == n,
            labels@.len() == n,
            match masks {
                None => slots@.len() == 0,
                Some(m) => slots@.len() == n && m.len() == n && forall|k: int|
                    i <= k < n ==> (#[trigger] slots@[k] matches Some(s) && s@ == m[k]),
            },
            match keypoints {
                None => rows is None,
                Some((flat, stride)) => rows == Some((flat@, stride as nat)) && flat@.len() == n
                    * stride,
            },
            want == Seq::new(
                n as nat,
                |i: int| dict_row(image_id, boxes@, scores@, labels@, masks, rows, i),
            ),
            inputs@.len() == i,
            forall|k: int| 0 <= k < i ==> #[trigger] inputs@[k]@ == want[k],
        decreases n - i,
    {
        let segmentation = if i < slots.len() {
            slots[i].take()
        } else {
            None
        };
        let points = match keypoints {
            None => None,
            Some((flat, stride)) => {
                proof {
                    assert(i * stride + stride == (i + 1) * stride) by (nonlinear_arith);
                    assert((i + 1) * stride <= n * stride) by (nonlinear_arith)
                        requires
                            i + 1 <= n,
                    ;
                    assert(0 <= i * stride) by (nonlinear_arith);
                }
                let total: usize = flat.len();
                assert(total == n * stride);
                let start: usize = i * stride;
                Some(copy_range(flat, start, start + stride))
            },
        };
        let flat: usize = boxes.len();
        assert(4 * i + 3 < flat);
        let input = DetectionInput {
            id: None,
            image_id,
            category_id: labels[i],
            score: scores[i],
            bbox: Bbox {
                x: boxes[4 * i],
                y: boxes[4 * i + 1],
                w: boxes[4 * i + 2],
                h: boxes[4 * i + 3],
            },
            area: None,
            segmentation,
            keypoints: points,
            num_keypoints: None,
        };
        assert(input@ =~= want[i as int]);
        inputs.push(input);
        i += 1;
    }
    assert(detections_view(inputs@) =~= want);
    Ok(inputs)
}

/// The position that a refusal names: that of a dict in a sequence.
pub open spec fn named_position(indexed: bool, i: int) -> Option<usize> {
    if indexed {
        Some(i as usize)
    } else {
        None
    }
}

/// The detections of the first `k` dicts in order, or the first refusal
/// among them.
pub open spec fn all_inputs(
    dicts: Seq<DetectionsDict>,
    indexed: bool,
    iou: ArrayIouType,
    k: nat,
) -> Result<Seq<DetectionView>, FailureView>
    decreases k,
{
    if k == 0 {
        Ok(Seq::empty())
    } else {
        match all_inputs(dicts, indexed, iou, (k - 1) as nat) {
            Err(e) => Err(e),
            Ok(s) => match inputs_one(dicts[k - 1], named_position(indexed, k - 1), iou) {
                Err(e) => Err(e),
                Ok(t) => Ok(s + t),
            },
        }
    }
}

/// A refusal among the first dicts is the refusal of them all.
proof fn lemma_all_inputs_refusal(
    dicts: Seq<DetectionsDict>,
    indexed: bool,
    iou: ArrayIouType,
    k: nat,
    n: nat,
)
    requires
        k <= n,
        all_inputs(dicts, indexed, iou, k) is Err,
    ensures
        all_inputs(dicts, indexed, iou, n) == all_inputs(dicts, indexed, iou, k),
    decreases n,
{
    if k < n {
        lemma_all_inputs_refusal(dicts, indexed, iou, k, (n - 1) as nat);
    }
}

/// Read per-image dicts into one list. `indexed` where they came in a
/// sequence: every refusal then names the offending one.
pub fn dicts_to_inputs(dicts: &Vec<DetectionsDict>, indexed: bool, iou: ArrayIouType) -> (r: Result<
    Vec<DetectionInput>,
    Failure,
>)
    requires
        forall|i: int| 0 <= i < dicts@.len() ==> keypoints_fit(#[trigger] dicts@[i], iou),
    ensures
        inputs_view(r) == all_inputs(dicts@, indexed, iou, dicts@.len()),
{
    let mut all: Vec<DetectionInput> = Vec::new();
    let mut i: usize = 0;
    assert(detections_view(all@) =~= Seq::empty());
    while i < dicts.len()
        invariant
            i <= dicts.len(),
            forall|i: int| 0 <= i < dicts@.len() ==> keypoints_fit(#[trigger] dicts@[i], iou),
            all_inputs(dicts@, indexed, iou, i as nat) == Ok::<Seq<DetectionView>, FailureView>(
                detections_view(all@),
            ),
        decreases dicts.len() - i,
    {
        let ann: Option<usize> = if indexed {
            Some(i)
        } else {
            None
        };
        match extract_inputs_one(&dicts[i], ann, iou) {
            Ok(mut inputs) => {
                let ghost (before, more) = (all@, inputs@);
                all.append(&mut inputs);
                assert(detections_view(all@) =~= detections_view(before) + detections_view(more));
            },
            Err(e) => {
                proof {
                    lemma_all_inputs_refusal(
                        dicts@,
                        indexed,
                        iou,
                        (i + 1) as nat,
                        dicts@.len(),
                    );
                }
                return Err(e);
            },
        }
        i += 1;
    }
    Ok(all)
}

/// A dict that is accepted gives exactly one detection for each box, and
/// each takes its box, score, label and image from its own row.
pub proof fn law_one_detection_per_box(d: DetectionsDict, ann: Option<usize>, iou: ArrayIouType)
    requires
        inputs_one(d, ann, iou) is Ok,
    ensures
        ({
            let out = inputs_one(d, ann, iou)->Ok_0;
            let boxes = (d.boxes->0)->Ok_0@;
            let scores = (d.scores->0)->Ok_0@;
            let labels = (d.labels->0)->Ok_0@;
            &&& out.len() == boxes.len() / 4
            &&& scores.len() == out.len() && labels.len() == out.len()
            &&& forall|i: int|
                0 <= i < out.len() ==> {
                    &&& (#[trigger] out[i]).image_id == (d.image_id->0)->Ok_0
                    &&& out[i].score == scores[i]
                    &&& out[i].category_id == labels[i]
                    &&& out[i].bbox.x == boxes[4 * i]
                    &&& out[i].id is None
                    &&& out[i].segmentation is Some == iou.needs_masks()
                    &&& out[i].keypoints is Some == (iou is Keypoints)
                }
        }),
{
    reveal(inputs_one);
}

// ---------------------------------------------------------------------------
// Mask areas
// ---------------------------------------------------------------------------

/// Each area, or its refusal under its position.
pub open spec fn area_reader(areas: Seq<Result<u64, String>>) -> spec_fn(int) -> Result<
    u64,
    FailureView,
> {
    |i: int|
        match areas[i] {
            Ok(area) => Ok(area),
            Err(reason) => Err(value_error("rles["@ + nat_text(i as nat) + "]: "@ + reason@)),
        }
}

/// The foreground pixel counts of a list of masks, given each one's count or
/// why it has none: all of them, or the first that has none, by its
/// position.
pub fn rle_area(areas: &Vec<Result<u64, String>>) -> (r: Result<Vec<u64>, Failure>)
    ensures
        match r {
            Ok(v) => collected(area_reader(areas@), areas@.len()) == Ok::<Seq<u64>, FailureView>(
                v@,
            ),
            Err(e) => collected(area_reader(areas@), areas@.len()) == Err::<Seq<u64>, FailureView>(
                e@,
            ),
        },
{
    let ghost f = area_reader(areas@);
    let mut out: Vec<u64> = Vec::new();
    let mut i: usize = 0;
    while i < areas.len()
        invariant
            i <= areas.len(),
            f == area_reader(areas@),
            collected(f, i as nat) == Ok::<Seq<u64>, FailureView>(out@),
        decreases areas.len() - i,
    {
        match &areas[i] {
            Ok(area) => {
                out.push(*area);
                assert(f(i as int) == Ok::<u64, FailureView>(*area));
            },
            Err(reason) => {
                let mut m = String::from_str("rles[");
                m.append(usize_text(i).as_str());
                m.append("]: ");
                m.append(reason.as_str());
                let e = Failure::value_error(m);
                proof {
                    assert(f(i as int) == Err::<u64, FailureView>(e@));
                    lemma_collected_refusal(f, (i + 1) as nat, areas@.len());
                }
                return Err(e);
            },
        }
        i += 1;
    }
    Ok(out)
}

// ---------------------------------------------------------------------------
// What reading is for
// ---------------------------------------------------------------------------

/// A dict is a result annotation exactly where it has no `boxes` and has a
/// `bbox` or a `category_id`; and the first dict of a sequence decides for
/// all.
pub proof fn law_routes_go_by_the_keys(keys: DictKeys, items: Seq<Result<DictKeys, String>>)
    ensures
        is_result_annotation(keys) <==> !keys.boxes && (keys.bbox || keys.category_id),
        items.len() == 0 ==> sequence_route(items) == (DetectionsArg::Dicts { indexed: true }),
        items.len() > 0 && items[0] == Ok::<DictKeys, String>(keys) ==> (sequence_route(items)
            is AnnList <==> !keys.boxes && (keys.bbox || keys.category_id)),
        !(sequence_route(items) is AnnList) ==> sequence_route(items) == (DetectionsArg::Dicts {
            indexed: true,
        }),
{
}

/// Each comparison goes by its own name, and masks are compared for `segm`
/// and `boundary`.
pub proof fn law_comparisons_have_their_names(t: ArrayIouType)
    ensures
        t is Bbox <==> t.name() == "bbox"@,
        t is Segm <==> t.name() == "segm"@,
        t is Boundary <==> t.name() == "boundary"@,
        t is Keypoints <==> t.name() == "keypoints"@,
        t.needs_masks() <==> t is Segm || t is Boundary,
{
    reveal_strlit("bbox");
    reveal_strlit("segm");
    reveal_strlit("boundary");
    reveal_strlit("keypoints");
    assert("bbox"@[0] != "segm"@[0]);
    assert("bbox"@.len() == 4 && "segm"@.len() == 4 && "boundary"@.len() == 8 && "keypoints"@.len()
        == 9);
}

/// Every detection of a per-image dict has the values of its own row: the box
/// from the four numbers of the row, the score, the label, the mask and the
/// keypoints.
pub proof fn law_detections_have_their_own_row(
    d: DetectionsDict,
    ann: Option<usize>,
    iou: ArrayIouType,
    out: Seq<DetectionInput>,
)
    requires
        inputs_one(d, ann, iou) == Ok::<Seq<DetectionView>, FailureView>(detections_view(out)),
    ensures
        d.image_id matches Some(Ok(image_id)) && d.boxes matches Some(Ok(boxes)) && d.scores matches Some(
            Ok(scores),
        ) && d.labels matches Some(Ok(labels)) && {
            &&& out.len() == boxes@.len() / 4
            &&& scores@.len() == out.len()
            &&& labels@.len() == out.len()
            &&& forall|i: int|
                0 <= i < out.len() ==> {
                    &&& (#[trigger] out[i]).image_id == image_id
                    &&& out[i].category_id == labels@[i]
                    &&& out[i].score == scores@[i]
                    &&& out[i].bbox.x == boxes@[4 * i]
                    &&& out[i].bbox.y == boxes@[4 * i + 1]
                    &&& out[i].bbox.w == boxes@[4 * i + 2]
                    &&& out[i].bbox.h == boxes@[4 * i + 3]
                    &&& out[i].id is None
                    &&& out[i].area is None
                    &&& out[i].num_keypoints is None
                }
        },
        iou is Segm || iou is Boundary ==> (d.rles matches Some(Ok(items)) && items@.len()
            == out.len() && forall|i: int|
            0 <= i < out.len() ==> ((#[trigger] out[i]).segmentation matches Some(s) && one_rle(
                items@[i],
                path_text("detections"@, ann, ".rles"@, Some(i as usize)),
                CountsShapes::InMemory,
            ) == Ok::<SegmentationView, FailureView>(s@))),
        iou is Bbox || iou is Keypoints ==> forall|i: int|
            0 <= i < out.len() ==> (#[trigger] out[i]).segmentation is None,
        iou is Keypoints ==> (d.keypoints matches Some(Ok((flat, k))) && forall|i: int|
            0 <= i < out.len() ==> ((#[trigger] out[i]).keypoints matches Some(v) && v@
                == flat@.subrange(i * (k * 3), (i + 1) * (k * 3)))),
        !(iou is Keypoints) ==> forall|i: int|
            0 <= i < out.len() ==> (#[trigger] out[i]).keypoints is None,
{
    reveal(inputs_one);
    let read = detections_view(out);
    assert(read.len() == out.len());
    let image_id = (d.image_id->0)->Ok_0;
    let boxes = (d.boxes->0)->Ok_0@;
    let scores = (d.scores->0)->Ok_0@;
    let labels = (d.labels->0)->Ok_0@;
    assert forall|i: int| 0 <= i < out.len() implies {
        &&& (#[trigger] out[i]).image_id == image_id
        &&& out[i].category_id == labels[i]
        &&& out[i].score == scores[i]
        &&& out[i].bbox.x == boxes[4 * i]
        &&& out[i].bbox.y == boxes[4 * i + 1]
        &&& out[i].bbox.w == boxes[4 * i + 2]
        &&& out[i].bbox.h == boxes[4 * i + 3]
        &&& out[i].id is None
        &&& out[i].area is None
        &&& out[i].num_keypoints is None
    } by {
        assert(out[i]@ == read[i]);
    }
    if iou.needs_masks() {
        let items = d.rles->0;
        let path = FieldPath { root: "detections", ann, name: ".rles", item: None };
        let masks = rles_outcome(items, path, out.len())->Ok_0;
        assert forall|i: int| 0 <= i < out.len() implies ((
        #[trigger] out[i]).segmentation matches Some(s) && one_rle(
            items->Ok_0@[i],
            path_text("detections"@, ann, ".rles"@, Some(i as usize)),
            CountsShapes::InMemory,
        ) == Ok::<SegmentationView, FailureView>(s@)) by {
            assert(out[i]@ == read[i]);
            law_mask_columns_keep_their_places(items, path, out.len(), masks, i);
        }
        assert(out.len() > 0 ==> items->Ok_0@.len() == out.len());
    }
    assert forall|i: int| 0 <= i < out.len() && !iou.needs_masks() implies (
    #[trigger] out[i]).segmentation is None by {
        assert(out[i]@ == read[i]);
    }
    assert forall|i: int| 0 <= i < out.len() && !(iou is Keypoints) implies (
    #[trigger] out[i]).keypoints is None by {
        assert(out[i]@ == read[i]);
    }
    if iou is Keypoints {
        let (flat, k) = (d.keypoints->0)->Ok_0;
        assert forall|i: int| 0 <= i < out.len() implies ((
        #[trigger] out[i]).keypoints matches Some(v) && v@ == flat@.subrange(
            i * (k * 3),
            (i + 1) * (k * 3),
        )) by {
            assert(out[i]@ == read[i]);
        }
    }
}

/// How many boxes the first dicts hold together.
pub open spec fn boxes_before(dicts: Seq<DetectionsDict>, k: int) -> int
    decreases k,
{
    if k <= 0 {
        0
    } else {
        boxes_before(dicts, k - 1) + (dicts[k - 1].boxes->0)->Ok_0@.len() / 4
    }
}

/// The detections of a sequence of dicts stand dict after dict: those of each
/// dict come after those of the dicts before it, and are those of its own
/// rows.
pub proof fn law_dicts_stand_one_after_the_other(
    dicts: Seq<DetectionsDict>,
    indexed: bool,
    iou: ArrayIouType,
    n: nat,
    k: int,
    i: int,
)
    requires
        n <= dicts.len(),
        all_inputs(dicts, indexed, iou, n) is Ok,
    ensures
        all_inputs(dicts, indexed, iou, n)->Ok_0.len() == boxes_before(dicts, n as int),
        0 <= k < n && 0 <= i < (dicts[k].boxes->0)->Ok_0@.len() / 4 ==> {
            let d = all_inputs(dicts, indexed, iou, n)->Ok_0[boxes_before(dicts, k) + i];
            &&& 0 <= boxes_before(dicts, k) + i < boxes_before(dicts, n as int)
            &&& dicts[k].image_id matches Some(Ok(image_id)) && d.image_id == image_id
            &&& d.score == (dicts[k].scores->0)->Ok_0@[i]
            &&& d.category_id == (dicts[k].labels->0)->Ok_0@[i]
            &&& d.bbox.x == (dicts[k].boxes->0)->Ok_0@[4 * i]
            &&& d.bbox.y == (dicts[k].boxes->0)->Ok_0@[4 * i + 1]
            &&& d.bbox.w == (dicts[k].boxes->0)->Ok_0@[4 * i + 2]
            &&& d.bbox.h == (dicts[k].boxes->0)->Ok_0@[4 * i + 3]
        },
    decreases n,
{
    if n > 0 {
        law_dicts_stand_one_after_the_other(dicts, indexed, iou, (n - 1) as nat, k, i);
        lemma_boxes_grow(dicts, n - 1);
        reveal(inputs_one);
    }
}

proof fn lemma_boxes_grow(dicts: Seq<DetectionsDict>, k: int)
    ensures
        0 <= boxes_before(dicts, k),
    decreases k,
{
    if k > 0 {
        lemma_boxes_grow(dicts, k - 1);
    }
}

/// The areas of masks are handed out one for one.
pub proof fn law_areas_are_kept(areas: Seq<Result<u64, String>>, out: Seq<u64>)
    requires
        collected(area_reader(areas), areas.len()) == Ok::<Seq<u64>, FailureView>(out),
    ensures
        out.len() == areas.len(),
        forall|i: int| 0 <= i < out.len() ==> areas[i] == Ok::<u64, String>(#[trigger] out[i]),
{
    let f = area_reader(areas);
    lemma_collected_items(f, areas.len());
    assert forall|i: int| 0 <= i < out.len() implies areas[i] == Ok::<u64, String>(
        #[trigger] out[i],
    ) by {
        assert(f(i) == Ok::<u64, FailureView>(out[i]));
    }
}

/// A per-image dict with an image id and with a score and a label for each of
/// its boxes is taken, where boxes are compared.
pub proof fn law_whole_dicts_are_taken(
    d: DetectionsDict,
    ann: Option<usize>,
    boxes: Vec<u64>,
    scores: Vec<u64>,
    labels: Vec<i64>,
)
    requires
        d.image_id matches Some(Ok(_)),
        d.boxes == Some(Ok::<Vec<u64>, Failure>(boxes)),
        d.scores == Some(Ok::<Vec<u64>, Failure>(scores)),
        d.labels == Some(Ok::<Vec<i64>, Failure>(labels)),
        scores@.len() == boxes@.len() / 4,
        labels@.len() == boxes@.len() / 4,
    ensures
        inputs_one(d, ann, ArrayIouType::Bbox) is Ok,
        inputs_one(d, ann, ArrayIouType::Bbox)->Ok_0.len() == boxes@.len() / 4,
{
    reveal(inputs_one);
}

/// The item that a refusal is about is the first that is no dict, and there is
/// one such item only.
pub proof fn law_first_non_dict_is_told(items: Seq<Result<DictKeys, String>>, i: int, j: int)
    requires
        first_non_dict(items, i),
    ensures
        0 <= i < items.len(),
        items[i] is Err,
        0 <= j < i ==> items[j] is Ok,
        first_non_dict(items, j) ==> i == j,
{
    if first_non_dict(items, j) {
        if j < i {
            assert(items[j] is Ok);
        }
        if i < j {
            assert(items[i] is Ok);
        }
    }
}

} // verus!
