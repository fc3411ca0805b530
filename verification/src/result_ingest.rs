//! Detections given in the shape of COCO results.
//!
//! Two routes end in the same list of detections: a list of per-annotation
//! result dicts, and an `(N, 7)` float64 array laid out as
//! `image_id, x, y, w, h, score, category_id`.

use crate::array_ingest::{
    any_segmentation, extract_segmentation, inputs_view, ArrayIouType,
};
use crate::collect::{
    collected, law_first_refusal_counts, lemma_collected_items, lemma_collected_refusal,
};
use crate::failure::{refused, value_error, with_real, ErrorKind, Failure, FailureView};
use crate::field_path::{path_text, FieldPath};
use crate::float_bits::{classified, classify, exact_limit, is_whole, whole_value, Whole};
use crate::model::{
    detections_view, opt_segmentation, opt_seq, Bbox, DetectionInput, DetectionView, Held,
    MaskObject, Segmentation, SegmentationView,
};
use crate::text::{nat_text, usize_text};
use vstd::prelude::*;

verus! {

/// The number of columns of the array route.
pub const MATRIX_COLS: usize = 7;

/// The columns of the array route in order.
pub const COL_NAMES: [&'static str; 7] = [
    "image_id",
    "x",
    "y",
    "w",
    "h",
    "score",
    "category_id",
];

/// The refusal of a field of one annotation.
pub open spec fn field_refusal(i: int, name: Seq<char>, detail: Seq<char>) -> FailureView {
    value_error("detections["@ + nat_text(i as nat) + "]."@ + name + ": "@ + detail)
}

/// The refusal of a field of one annotation.
fn field_err(i: usize, name: &str, detail: &str) -> (e: Failure)
    ensures
        e@ == field_refusal(i as int, name@, detail@),
{
    let mut m = String::from_str("detections[");
    m.append(usize_text(i).as_str());
    m.append("].");
    m.append(name);
    m.append(": ");
    m.append(detail);
    Failure::value_error(m)
}

// ---------------------------------------------------------------------------
// The array route
// ---------------------------------------------------------------------------

/// Where the value of an id column stands in a message.
pub open spec fn cell_text(col: int, row: int) -> Seq<char> {
    "detections["@ + nat_text(row as nat) + "]."@ + COL_NAMES@[col]@
}

/// An id given as a float64: the integer that it denotes exactly, or why it
/// is refused.
pub open spec fn exact_id(bits: u64, col: int, row: int) -> Result<i64, FailureView> {
    match classified(bits) {
        Whole::Exact(id) => Ok(id),
        Whole::NotFinite => Err(
            with_real(
                ErrorKind::ValueError,
                cell_text(col, row) + ": expected an integer, got "@,
                bits,
                ""@,
            ),
        ),
        Whole::Fractional => Err(
            with_real(
                ErrorKind::ValueError,
                cell_text(col, row) + ": "@,
                bits,
                " is not an integer; \
             the (N, 7) float64 route will not truncate an id"@,
            ),
        ),
        Whole::Beyond => Err(
            with_real(
                ErrorKind::ValueError,
                cell_text(col, row) + ": "@,
                bits,
                " exceeds 2^53, beyond which float64 \
             cannot represent every integer exactly; pass this dataset as a \
             list of result dicts or as JSON"@,
            ),
        ),
    }
}

/// Read an id from a float64 column without ever changing it.
pub fn exact_int(bits: u64, col: usize, row: usize) -> (r: Result<i64, Failure>)
    requires
        col < MATRIX_COLS,
    ensures
        refused(r) == exact_id(bits, col as int, row as int),
{
    let w = classify(bits);
    if let Whole::Exact(id) = w {
        return Ok(id);
    }
    let mut m = String::from_str("detections[");
    m.append(usize_text(row).as_str());
    m.append("].");
    m.append(COL_NAMES[col]);
    match w {
        Whole::Exact(id) => Ok(id),
        Whole::NotFinite => {
            m.append(": expected an integer, got ");
            Err(Failure::with_real(ErrorKind::ValueError, m, bits, String::from_str("")))
        },
        Whole::Fractional => {
            m.append(": ");
            Err(
                Failure::with_real(
                    ErrorKind::ValueError,
                    m,
                    bits,
                    String::from_str(
                        " is not an integer; \
             the (N, 7) float64 route will not truncate an id",
                    ),
                ),
            )
        },
        Whole::Beyond => {
            m.append(": ");
            Err(
                Failure::with_real(
                    ErrorKind::ValueError,
                    m,
                    bits,
                    String::from_str(
                        " exceeds 2^53, beyond which float64 \
             cannot represent every integer exactly; pass this dataset as a \
             list of result dicts or as JSON",
                    ),
                ),
            )
        },
    }
}

/// An id that is accepted is the number that was given: whole, within 2^53,
/// and unchanged. Any other number is refused.
pub proof fn law_ids_are_never_truncated(bits: u64, col: int, row: int)
    ensures
        exact_id(bits, col, row) is Ok <==> is_whole(bits) && -exact_limit() <= whole_value(bits)
            <= exact_limit(),
        exact_id(bits, col, row) is Ok ==> exact_id(bits, col, row)->Ok_0 == whole_value(bits),
{
}

/// Each row of the array.
pub open spec fn matrix_reader(flat: Seq<u64>) -> spec_fn(int) -> Result<
    DetectionView,
    FailureView,
> {
    |i: int|
        match (exact_id(flat[7 * i], 0, i), exact_id(flat[7 * i + 6], 6, i)) {
            (Err(e), _) => Err(e),
            (Ok(_), Err(e)) => Err(e),
            (Ok(image_id), Ok(category_id)) => Ok(
                DetectionView {
                    id: None,
                    image_id,
                    category_id,
                    score: flat[7 * i + 5],
                    bbox: Bbox {
                        x: flat[7 * i + 1],
                        y: flat[7 * i + 2],
                        w: flat[7 * i + 3],
                        h: flat[7 * i + 4],
                    },
                    area: None,
                    segmentation: None,
                    keypoints: None,
                    num_keypoints: None,
                },
            ),
        }
}

/// Read a flat `(N, 7)` array.
pub fn matrix_to_inputs(flat: &Vec<u64>) -> (r: Result<Vec<DetectionInput>, Failure>)
    ensures
        inputs_view(r) == collected(matrix_reader(flat@), flat@.len() / 7),
        r matches Ok(out) ==> out@.len() == flat@.len() / 7 && forall|i: int|
            0 <= i < out@.len() ==> {
                &&& (#[trigger] out@[i]).bbox.x == flat@[7 * i + 1]
                &&& out@[i].bbox.y == flat@[7 * i + 2]
                &&& out@[i].bbox.w == flat@[7 * i + 3]
                &&& out@[i].bbox.h == flat@[7 * i + 4]
                &&& out@[i].score == flat@[7 * i + 5]
                &&& out@[i].image_id == whole_value(flat@[7 * i])
                &&& out@[i].category_id == whole_value(flat@[7 * i + 6])
            },
{
    let n: usize = flat.len() / 7;
    let total: usize = flat.len();
    let ghost f = matrix_reader(flat@);
    let mut inputs: Vec<DetectionInput> = Vec::new();
    let mut i: usize = 0;
    assert(detections_view(inputs@) =~= Seq::empty());
    while i < n
        invariant
            i <= n,
            n == flat@.len() / 7,
            total == flat@.len(),
            f == matrix_reader(flat@),
            collected(f, i as nat) == Ok::<Seq<DetectionView>, FailureView>(
                detections_view(inputs@),
            ),
        decreases n - i,
    {
        assert(7 * i + 6 < total);
        let base: usize = 7 * i;
        let image_id: i64 = match exact_int(flat[base], 0, i) {
            Ok(id) => id,
            Err(e) => {
                proof {
                    assert(f(i as int) == Err::<DetectionView, FailureView>(e@));
                    lemma_collected_refusal(f, (i + 1) as nat, n as nat);
                }
                return Err(e);
            },
        };
        let category_id: i64 = match exact_int(flat[base + 6], 6, i) {
            Ok(id) => id,
            Err(e) => {
                proof {
                    assert(f(i as int) == Err::<DetectionView, FailureView>(e@));
                    lemma_collected_refusal(f, (i + 1) as nat, n as nat);
                }
                return Err(e);
            },
        };
        let input = DetectionInput {
            id: None,
            image_id,
            category_id,
            score: flat[base + 5],
            bbox: Bbox {
                x: flat[base + 1],
                y: flat[base + 2],
                w: flat[base + 3],
                h: flat[base + 4],
            },
            area: None,
            segmentation: None,
            keypoints: None,
            num_keypoints: None,
        };
        let ghost before = inputs@;
        inputs.push(input);
        proof {
            assert(f(i as int) == Ok::<DetectionView, FailureView>(input@));
            assert(detections_view(inputs@) =~= detections_view(before).push(input@));
        }
        i += 1;
    }
    proof {
        law_rows_keep_their_columns(flat@, inputs@);
    }
    Ok(inputs)
}

/// A row of the array is one detection, with each number under its own name:
/// the image, the corner and the extent of the box, the score and the
/// category, in the order of the columns.
pub proof fn law_rows_keep_their_columns(flat: Seq<u64>, out: Seq<DetectionInput>)
    requires
        collected(matrix_reader(flat), flat.len() / 7) == Ok::<Seq<DetectionView>, FailureView>(
            detections_view(out),
        ),
    ensures
        out.len() == flat.len() / 7,
        forall|i: int|
            0 <= i < out.len() ==> {
                &&& (#[trigger] out[i]).bbox.x == flat[7 * i + 1]
                &&& out[i].bbox.y == flat[7 * i + 2]
                &&& out[i].bbox.w == flat[7 * i + 3]
                &&& out[i].bbox.h == flat[7 * i + 4]
                &&& out[i].score == flat[7 * i + 5]
                &&& is_whole(flat[7 * i]) && out[i].image_id == whole_value(flat[7 * i])
                &&& is_whole(flat[7 * i + 6]) && out[i].category_id == whole_value(flat[7 * i + 6])
                &&& out[i].id is None
                &&& out[i].area is None
                &&& out[i].segmentation is None
                &&& out[i].keypoints is None
                &&& out[i].num_keypoints is None
            },
{
    let f = matrix_reader(flat);
    let n = flat.len() / 7;
    let read = detections_view(out);
    lemma_collected_items(f, n);
    assert(read.len() == out.len());
    assert forall|i: int| 0 <= i < out.len() implies {
        &&& (#[trigger] out[i]).bbox.x == flat[7 * i + 1]
        &&& out[i].bbox.y == flat[7 * i + 2]
        &&& out[i].bbox.w == flat[7 * i + 3]
        &&& out[i].bbox.h == flat[7 * i + 4]
        &&& out[i].score == flat[7 * i + 5]
        &&& is_whole(flat[7 * i]) && out[i].image_id == whole_value(flat[7 * i])
        &&& is_whole(flat[7 * i + 6]) && out[i].category_id == whole_value(flat[7 * i + 6])
        &&& out[i].id is None
        &&& out[i].area is None
        &&& out[i].segmentation is None
        &&& out[i].keypoints is None
        &&& out[i].num_keypoints is None
    } by {
        assert(f(i) == Ok::<DetectionView, FailureView>(read[i]));
        assert(read[i] == out[i]@);
        law_ids_are_never_truncated(flat[7 * i], 0, i);
        law_ids_are_never_truncated(flat[7 * i + 6], 6, i);
    }
}

// ---------------------------------------------------------------------------
// The dict route
// ---------------------------------------------------------------------------

/// A segmentation found under a key: whether it is `None`, and what it is.
#[derive(Debug)]
pub struct HeldMask {
    pub is_none: bool,
    pub object: MaskObject,
}

/// A sequence of floats: each entry, or why it is none; or why the object is
/// no sequence.
pub type FloatItems = Result<Vec<Result<u64, String>>, String>;

/// A per-annotation result dict: under each key, what came of reading it, or
/// nothing where the key is missing.
#[derive(Debug)]
pub struct ResultDict {
    pub image_id: Option<Result<i64, String>>,
    pub category_id: Option<Result<i64, String>>,
    pub score: Option<Result<u64, String>>,
    pub bbox: Option<FloatItems>,
    pub id: Option<Held<i64, String>>,
    pub segmentation: Option<HeldMask>,
    pub keypoints: Option<FloatItems>,
    pub num_keypoints: Option<Held<u32, String>>,
}

/// A field that has to be there.
pub open spec fn required<T>(
    field: Option<Result<T, String>>,
    i: int,
    name: Seq<char>,
    expected: Seq<char>,
) -> Result<T, FailureView> {
    match field {
        None => Err(field_refusal(i, name, "missing required field"@)),
        Some(Err(reason)) => Err(field_refusal(i, name, expected + reason@)),
        Some(Ok(v)) => Ok(v),
    }
}

/// Read a field that has to be there.
fn require<T: Copy>(
    field: &Option<Result<T, String>>,
    i: usize,
    name: &str,
    expected: &str,
) -> (r: Result<T, Failure>)
    ensures
        refused(r) == required(*field, i as int, name@, expected@),
{
    match field {
        None => Err(field_err(i, name, "missing required field")),
        Some(Err(reason)) => {
            let mut detail = String::from_str(expected);
            detail.append(reason.as_str());
            Err(field_err(i, name, detail.as_str()))
        },
        Some(Ok(v)) => Ok(*v),
    }
}

/// A field that may be missing or `None`.
pub open spec fn optional<T>(field: Option<Held<T, String>>, i: int, name: Seq<char>) -> Result<
    Option<T>,
    FailureView,
> {
    match field {
        Some(held) if !held.is_none => match held.read {
            Ok(v) => Ok(Some(v)),
            Err(reason) => Err(field_refusal(i, name, "expected int: "@ + reason@)),
        },
        _ => Ok(None),
    }
}

/// Read a field that may be missing or `None`.
fn read_optional<T: Copy>(field: &Option<Held<T, String>>, i: usize, name: &str) -> (r: Result<
    Option<T>,
    Failure,
>)
    ensures
        refused(r) == optional(*field, i as int, name@),
{
    match field {
        None => Ok(None),
        Some(held) => if held.is_none {
            Ok(None)
        } else {
            match &held.read {
                Ok(v) => Ok(Some(*v)),
                Err(reason) => {
                    let mut detail = String::from_str("expected int: ");
                    detail.append(reason.as_str());
                    Err(field_err(i, name, detail.as_str()))
                },
            }
        },
    }
}

/// Each entry of a sequence of floats.
pub open spec fn float_reader(
    items: Seq<Result<u64, String>>,
    i: int,
    name: Seq<char>,
) -> spec_fn(int) -> Result<u64, FailureView> {
    |j: int|
        match items[j] {
            Ok(bits) => Ok(bits),
            Err(reason) => Err(
                field_refusal(
                    i,
                    name,
                    "element "@ + nat_text(j as nat) + " is not a float: "@ + reason@,
                ),
            ),
        }
}

/// Read every entry of a sequence of floats.
fn read_floats(items: &Vec<Result<u64, String>>, i: usize, name: &str) -> (r: Result<
    Vec<u64>,
    Failure,
>)
    ensures
        match r {
            Ok(v) => collected(float_reader(items@, i as int, name@), items@.len()) == Ok::<
                Seq<u64>,
                FailureView,
            >(v@) && v@.len() == items@.len(),
            Err(e) => collected(float_reader(items@, i as int, name@), items@.len()) == Err::<
                Seq<u64>,
                FailureView,
            >(e@),
        },
{
    let ghost f = float_reader(items@, i as int, name@);
    let mut out: Vec<u64> = Vec::new();
    let mut j: usize = 0;
    while j < items.len()
        invariant
            j <= items.len(),
            f == float_reader(items@, i as int, name@),
            out@.len() == j,
            collected(f, j as nat) == Ok::<Seq<u64>, FailureView>(out@),
        decreases items.len() - j,
    {
        match &items[j] {
            Ok(bits) => {
                out.push(*bits);
                assert(f(j as int) == Ok::<u64, FailureView>(*bits));
            },
            Err(reason) => {
                let mut detail = String::from_str("element ");
                detail.append(usize_text(j).as_str());
                detail.append(" is not a float: ");
                detail.append(reason.as_str());
                let e = field_err(i, name, detail.as_str());
                proof {
                    assert(f(j as int) == Err::<u64, FailureView>(e@));
                    lemma_collected_refusal(f, (j + 1) as nat, items@.len());
                }
                return Err(e);
            },
        }
        j += 1;
    }
    Ok(out)
}

/// A box of four floats, or why it is refused.
pub open spec fn bbox_outcome(items: FloatItems, i: int) -> Result<Bbox, FailureView> {
    match items {
        Err(reason) => Err(
            field_refusal(i, "bbox"@, "expected a 4-element sequence: "@ + reason@),
        ),
        Ok(items) => if items@.len() != 4 {
            Err(
                field_refusal(
                    i,
                    "bbox"@,
                    "expected length-4 [x, y, w, h], got length "@ + nat_text(items@.len()),
                ),
            )
        } else {
            match collected(float_reader(items@, i, "bbox"@), 4) {
                Err(e) => Err(e),
                Ok(v) => Ok(Bbox { x: v[0], y: v[1], w: v[2], h: v[3] }),
            }
        },
    }
}

/// Read a box of four floats.
fn extract_bbox(items: &FloatItems, i: usize) -> (r: Result<Bbox, Failure>)
    ensures
        refused(r) == bbox_outcome(*items, i as int),
{
    match items {
        Err(reason) => {
            let mut detail = String::from_str("expected a 4-element sequence: ");
            detail.append(reason.as_str());
            Err(field_err(i, "bbox", detail.as_str()))
        },
        Ok(items) => {
            if items.len() != 4 {
                let mut detail = String::from_str("expected length-4 [x, y, w, h], got length ");
                detail.append(usize_text(items.len()).as_str());
                return Err(field_err(i, "bbox", detail.as_str()));
            }
            match read_floats(items, i, "bbox") {
                Err(e) => Err(e),
                Ok(v) => Ok(Bbox { x: v[0], y: v[1], w: v[2], h: v[3] }),
            }
        },
    }
}

/// Flat keypoint triplets, or why they are refused.
pub open spec fn keypoints_outcome(items: FloatItems, i: int) -> Result<Seq<u64>, FailureView> {
    match items {
        Err(reason) => Err(
            field_refusal(
                i,
                "keypoints"@,
                "expected a flat [x, y, v, ...] sequence: "@ + reason@,
            ),
        ),
        Ok(items) => if items@.len() % 3 != 0 {
            Err(
                field_refusal(
                    i,
                    "keypoints"@,
                    "length "@ + nat_text(items@.len())
                        + " is not a multiple of 3 (x, y, v triplets)"@,
                ),
            )
        } else {
            collected(float_reader(items@, i, "keypoints"@), items@.len())
        },
    }
}

/// Read flat keypoint triplets.
fn extract_keypoints(items: &FloatItems, i: usize) -> (r: Result<Vec<u64>, Failure>)
    ensures
        match r {
            Ok(v) => keypoints_outcome(*items, i as int) == Ok::<Seq<u64>, FailureView>(v@),
            Err(e) => keypoints_outcome(*items, i as int) == Err::<Seq<u64>, FailureView>(e@),
        },
{
    match items {
        Err(reason) => {
            let mut detail = String::from_str("expected a flat [x, y, v, ...] sequence: ");
            detail.append(reason.as_str());
            Err(field_err(i, "keypoints", detail.as_str()))
        },
        Ok(items) => {
            if items.len() % 3 != 0 {
                let mut detail = String::from_str("length ");
                detail.append(usize_text(items.len()).as_str());
                detail.append(" is not a multiple of 3 (x, y, v triplets)");
                return Err(field_err(i, "keypoints", detail.as_str()));
            }
            read_floats(items, i, "keypoints")
        },
    }
}

/// The segmentation of an annotation: required where the IoU type needs
/// masks, and otherwise read where it is there.
pub open spec fn ann_segmentation(field: Option<HeldMask>, i: int, iou: ArrayIouType) -> Result<
    Option<SegmentationView>,
    FailureView,
> {
    let path = path_text("detections"@, Some(i as usize), ".segmentation"@, None);
    match field {
        None => if iou.needs_masks() {
            Err(field_refusal(i, "segmentation"@, "missing required field"@))
        } else {
            Ok(None)
        },
        Some(held) => if !iou.needs_masks() && held.is_none {
            Ok(None)
        } else {
            match any_segmentation(held.object, path) {
                Ok(s) => Ok(Some(s)),
                Err(e) => Err(e),
            }
        },
    }
}

/// Read the segmentation of an annotation.
fn read_segmentation(field: &Option<HeldMask>, i: usize, iou: ArrayIouType) -> (r: Result<
    Option<Segmentation>,
    Failure,
>)
    ensures
        match r {
            Ok(s) => ann_segmentation(*field, i as int, iou) == Ok::<
                Option<SegmentationView>,
                FailureView,
            >(opt_segmentation(s)),
            Err(e) => ann_segmentation(*field, i as int, iou) == Err::<
                Option<SegmentationView>,
                FailureView,
            >(e@),
        },
{
    let needs: bool = iou == ArrayIouType::Segm || iou == ArrayIouType::Boundary;
    match field {
        None => if needs {
            Err(field_err(i, "segmentation", "missing required field"))
        } else {
            Ok(None)
        },
        Some(held) => {
            if !needs && held.is_none {
                return Ok(None);
            }
            match extract_segmentation(&held.object, FieldPath::new(Some(i), ".segmentation")) {
                Ok(s) => Ok(Some(s)),
                Err(e) => Err(e),
            }
        },
    }
}

/// The keypoints of an annotation, required by the IoU type that compares
/// them and otherwise not read.
pub open spec fn ann_keypoints(field: Option<FloatItems>, i: int, iou: ArrayIouType) -> Result<
    Option<Seq<u64>>,
    FailureView,
> {
    if !(iou is Keypoints) {
        Ok(None)
    } else {
        match field {
            None => Err(field_refusal(i, "keypoints"@, "missing required field"@)),
            Some(items) => match keypoints_outcome(items, i) {
                Ok(v) => Ok(Some(v)),
                Err(e) => Err(e),
            },
        }
    }
}

/// Read the keypoints of an annotation.
fn read_keypoints(field: &Option<FloatItems>, i: usize, iou: ArrayIouType) -> (r: Result<
    Option<Vec<u64>>,
    Failure,
>)
    ensures
        match r {
            Ok(v) => ann_keypoints(*field, i as int, iou) == Ok::<Option<Seq<u64>>, FailureView>(
                opt_seq(v),
            ),
            Err(e) => ann_keypoints(*field, i as int, iou) == Err::<Option<Seq<u64>>, FailureView>(
                e@,
            ),
        },
{
    if iou != ArrayIouType::Keypoints {
        return Ok(None);
    }
    match field {
        None => Err(field_err(i, "keypoints", "missing required field")),
        Some(items) => match extract_keypoints(items, i) {
            Ok(v) => Ok(Some(v)),
            Err(e) => Err(e),
        },
    }
}

/// The box of an annotation, which has to be there.
pub open spec fn ann_bbox(field: Option<FloatItems>, i: int) -> Result<Bbox, FailureView> {
    match field {
        None => Err(field_refusal(i, "bbox"@, "missing required field"@)),
        Some(items) => bbox_outcome(items, i),
    }
}

/// The detection of annotation `i`, or the first refusal that it meets.
pub open spec fn ann_outcome(d: ResultDict, i: int, iou: ArrayIouType) -> Result<
    DetectionView,
    FailureView,
> {
    match required(d.image_id, i, "image_id"@, "expected int: "@) {
        Err(e) => Err(e),
        Ok(image_id) => match required(d.category_id, i, "category_id"@, "expected int: "@) {
            Err(e) => Err(e),
            Ok(category_id) => match required(d.score, i, "score"@, "expected float: "@) {
                Err(e) => Err(e),
                Ok(score) => match ann_bbox(d.bbox, i) {
                    Err(e) => Err(e),
                    Ok(bbox) => match optional(d.id, i, "id"@) {
                        Err(e) => Err(e),
                        Ok(id) => match ann_segmentation(d.segmentation, i, iou) {
                            Err(e) => Err(e),
                            Ok(segmentation) => match ann_keypoints(d.keypoints, i, iou) {
                                Err(e) => Err(e),
                                Ok(keypoints) => match optional(
                                    d.num_keypoints,
                                    i,
                                    "num_keypoints"@,
                                ) {
                                    Err(e) => Err(e),
                                    Ok(num_keypoints) => Ok(
                                        DetectionView {
                                            id,
                                            image_id,
                                            category_id,
                                            score,
                                            bbox,
                                            area: None,
                                            segmentation,
                                            keypoints,
                                            num_keypoints,
                                        },
                                    ),
                                },
                            },
                        },
                    },
                },
            },
        },
    }
}

/// Read one annotation.
fn ann_dict_to_input(d: &ResultDict, i: usize, iou: ArrayIouType) -> (r: Result<
    DetectionInput,
    Failure,
>)
    ensures
        match r {
            Ok(input) => ann_outcome(*d, i as int, iou) == Ok::<DetectionView, FailureView>(input@),
            Err(e) => ann_outcome(*d, i as int, iou) == Err::<DetectionView, FailureView>(e@),
        },
{
    let image_id: i64 = match require(&d.image_id, i, "image_id", "expected int: ") {
        Ok(v) => v,
        Err(e) => return Err(e),
    };
    let category_id: i64 = match require(&d.category_id, i, "category_id", "expected int: ") {
        Ok(v) => v,
        Err(e) => return Err(e),
    };
    let score: u64 = match require(&d.score, i, "score", "expected float: ") {
        Ok(v) => v,
        Err(e) => return Err(e),
    };
    let bbox = match &d.bbox {
        None => return Err(field_err(i, "bbox", "missing required field")),
        Some(items) => match extract_bbox(items, i) {
            Ok(v) => v,
            Err(e) => return Err(e),
        },
    };
    let id: Option<i64> = match read_optional(&d.id, i, "id") {
        Ok(v) => v,
        Err(e) => return Err(e),
    };
    let segmentation = match read_segmentation(&d.segmentation, i, iou) {
        Ok(v) => v,
        Err(e) => return Err(e),
    };
    let keypoints = match read_keypoints(&d.keypoints, i, iou) {
        Ok(v) => v,
        Err(e) => return Err(e),
    };
    let num_keypoints: Option<u32> = match read_optional(&d.num_keypoints, i, "num_keypoints") {
        Ok(v) => v,
        Err(e) => return Err(e),
    };
    Ok(
        DetectionInput {
            id,
            image_id,
            category_id,
            score,
            bbox,
            area: None,
            segmentation,
            keypoints,
            num_keypoints,
        },
    )
}

/// Each annotation of a list.
pub open spec fn ann_reader(dicts: Seq<ResultDict>, iou: ArrayIouType) -> spec_fn(int) -> Result<
    DetectionView,
    FailureView,
> {
    |i: int| ann_outcome(dicts[i], i, iou)
}

/// Read a list of per-annotation result dicts: one detection for each, or
/// the first refusal.
pub fn ann_dicts_to_inputs(dicts: &Vec<ResultDict>, iou: ArrayIouType) -> (r: Result<
    Vec<DetectionInput>,
    Failure,
>)
    ensures
        inputs_view(r) == collected(ann_reader(dicts@, iou), dicts@.len()),
{
    let ghost f = ann_reader(dicts@, iou);
    let mut inputs: Vec<DetectionInput> = Vec::new();
    let mut i: usize = 0;
    assert(detections_view(inputs@) =~= Seq::empty());
    while i < dicts.len()
        invariant
            i <= dicts.len(),
            f == ann_reader(dicts@, iou),
            collected(f, i as nat) == Ok::<Seq<DetectionView>, FailureView>(
                detections_view(inputs@),
            ),
        decreases dicts.len() - i,
    {
        match ann_dict_to_input(&dicts[i], i, iou) {
            Ok(input) => {
                let ghost before = inputs@;
                inputs.push(input);
                proof {
                    assert(f(i as int) == Ok::<DetectionView, FailureView>(input@));
                    assert(detections_view(inputs@) =~= detections_view(before).push(input@));
                }
            },
            Err(e) => {
                proof {
                    assert(f(i as int) == Err::<DetectionView, FailureView>(e@));
                    lemma_collected_refusal(f, (i + 1) as nat, dicts@.len());
                }
                return Err(e);
            },
        }
        i += 1;
    }
    Ok(inputs)
}

/// A list that is accepted gives one detection for each annotation, in
/// order, and a supplied id is kept.
pub proof fn law_annotations_keep_order_and_ids(dicts: Seq<ResultDict>, iou: ArrayIouType)
    requires
        collected(ann_reader(dicts, iou), dicts.len()) is Ok,
    ensures
        ({
            let out = collected(ann_reader(dicts, iou), dicts.len())->Ok_0;
            &&& out.len() == dicts.len()
            &&& forall|i: int|
                0 <= i < out.len() ==> {
                    &&& (#[trigger] out[i]).image_id == (dicts[i].image_id->0)->Ok_0
                    &&& out[i].category_id == (dicts[i].category_id->0)->Ok_0
                    &&& out[i].score == (dicts[i].score->0)->Ok_0
                    &&& out[i].id == (match dicts[i].id {
                        Some(held) if !held.is_none => Some(held.read->Ok_0),
                        _ => None,
                    })
                }
        }),
{
    let f = ann_reader(dicts, iou);
    lemma_collected_items(f, dicts.len());
    let out = collected(f, dicts.len())->Ok_0;
    assert forall|i: int| 0 <= i < out.len() implies {
        &&& (#[trigger] out[i]).image_id == (dicts[i].image_id->0)->Ok_0
        &&& out[i].category_id == (dicts[i].category_id->0)->Ok_0
        &&& out[i].score == (dicts[i].score->0)->Ok_0
        &&& out[i].id == (match dicts[i].id {
            Some(held) if !held.is_none => Some(held.read->Ok_0),
            _ => None,
        })
    } by {
        assert(f(i) == Ok::<DetectionView, FailureView>(out[i]));
    }
}

/// The numbers of a sequence are its entries, one for one.
proof fn lemma_floats_are_kept(
    items: Seq<Result<u64, String>>,
    i: int,
    name: Seq<char>,
    out: Seq<u64>,
)
    requires
        collected(float_reader(items, i, name), items.len()) == Ok::<Seq<u64>, FailureView>(out),
    ensures
        out.len() == items.len(),
        forall|j: int| 0 <= j < out.len() ==> items[j] == Ok::<u64, String>(#[trigger] out[j]),
{
    let f = float_reader(items, i, name);
    lemma_collected_items(f, items.len());
    assert forall|j: int| 0 <= j < out.len() implies items[j] == Ok::<u64, String>(
        #[trigger] out[j],
    ) by {
        assert(f(j) == Ok::<u64, FailureView>(out[j]));
    }
}

/// A result dict is one detection with the values of its own fields: the box
/// as `[x, y, w, h]`, the score, the image and the category, and the id, the
/// segmentation, the keypoints and their number where they are there and
/// asked for.
pub proof fn law_annotations_keep_their_fields(d: ResultDict, i: int, iou: ArrayIouType, out: DetectionInput)
    requires
        ann_outcome(d, i, iou) == Ok::<DetectionView, FailureView>(out@),
    ensures
        d.image_id == Some(Ok::<i64, String>(out.image_id)),
        d.category_id == Some(Ok::<i64, String>(out.category_id)),
        d.score == Some(Ok::<u64, String>(out.score)),
        d.bbox matches Some(Ok(items)) && {
            &&& items@.len() == 4
            &&& items@[0] == Ok::<u64, String>(out.bbox.x)
            &&& items@[1] == Ok::<u64, String>(out.bbox.y)
            &&& items@[2] == Ok::<u64, String>(out.bbox.w)
            &&& items@[3] == Ok::<u64, String>(out.bbox.h)
        },
        match d.id {
            Some(held) if !held.is_none => out.id is Some && held.read == Ok::<i64, String>(
                out.id->0,
            ),
            _ => out.id is None,
        },
        match d.num_keypoints {
            Some(held) if !held.is_none => out.num_keypoints is Some && held.read == Ok::<
                u32,
                String,
            >(out.num_keypoints->0),
            _ => out.num_keypoints is None,
        },
        out.area is None,
        iou is Keypoints ==> (d.keypoints matches Some(Ok(items)) && out.keypoints matches Some(v)
            && v@.len() == items@.len() && v@.len() % 3 == 0 && forall|j: int|
            0 <= j < v@.len() ==> items@[j] == Ok::<u64, String>(#[trigger] v@[j])),
        !(iou is Keypoints) ==> out.keypoints is None,
        match d.segmentation {
            None => out.segmentation is None && !(iou is Segm) && !(iou is Boundary),
            Some(held) => if held.is_none && !(iou is Segm) && !(iou is Boundary) {
                out.segmentation is None
            } else {
                out.segmentation matches Some(s) && any_segmentation(
                    held.object,
                    path_text("detections"@, Some(i as usize), ".segmentation"@, None),
                ) == Ok::<SegmentationView, FailureView>(s@)
            },
        },
{
    if let Some(Ok(items)) = d.bbox {
        let v = collected(float_reader(items@, i, "bbox"@), 4)->Ok_0;
        lemma_floats_are_kept(items@, i, "bbox"@, v);
        assert(items@[0] == Ok::<u64, String>(v[0]));
        assert(items@[1] == Ok::<u64, String>(v[1]));
        assert(items@[2] == Ok::<u64, String>(v[2]));
        assert(items@[3] == Ok::<u64, String>(v[3]));
    }
    if iou is Keypoints {
        if let (Some(Ok(items)), Some(v)) = (d.keypoints, out.keypoints) {
            lemma_floats_are_kept(items@, i, "keypoints"@, v@);
        }
    }
}

/// Where one list is given, one detection stands for each annotation, read
/// from that annotation alone.
pub proof fn law_annotations_stand_in_order(
    dicts: Seq<ResultDict>,
    iou: ArrayIouType,
    out: Seq<DetectionInput>,
    i: int,
)
    requires
        collected(ann_reader(dicts, iou), dicts.len()) == Ok::<Seq<DetectionView>, FailureView>(
            detections_view(out),
        ),
        0 <= i < out.len(),
    ensures
        out.len() == dicts.len(),
        ann_outcome(dicts[i], i, iou) == Ok::<DetectionView, FailureView>(out[i]@),
{
    let f = ann_reader(dicts, iou);
    let read = detections_view(out);
    lemma_collected_items(f, dicts.len());
    assert(read.len() == out.len());
    assert(f(i) == Ok::<DetectionView, FailureView>(read[i]));
}

/// A row of the array is taken exactly where both of its ids are whole numbers
/// of at most 2^53.
pub proof fn law_whole_ids_are_taken(flat: Seq<u64>, i: int)
    ensures
        matrix_reader(flat)(i) is Ok <==> classified(flat[7 * i]) is Exact && classified(
            flat[7 * i + 6],
        ) is Exact,
        (forall|k: int|
            0 <= k < flat.len() / 7 ==> classified(#[trigger] flat[7 * k]) is Exact) && (forall|
            k: int,
        |
            0 <= k < flat.len() / 7 ==> classified(#[trigger] flat[7 * k + 6]) is Exact)
            ==> collected(matrix_reader(flat), flat.len() / 7) is Ok,
{
    let f = matrix_reader(flat);
    if (forall|k: int| 0 <= k < flat.len() / 7 ==> classified(#[trigger] flat[7 * k]) is Exact) && (
    forall|k: int| 0 <= k < flat.len() / 7 ==> classified(#[trigger] flat[7 * k + 6]) is Exact) {
        assert forall|k: int| 0 <= k < flat.len() / 7 implies #[trigger] f(k) is Ok by {
            assert(classified(flat[7 * k]) is Exact);
            assert(classified(flat[7 * k + 6]) is Exact);
        }
        law_first_refusal_counts(f, flat.len() / 7, 0);
    }
}

/// Four floats are a box, in the order of its corner and its extent.
pub proof fn law_four_floats_are_a_box(items: Vec<Result<u64, String>>, i: int)
    requires
        items@.len() == 4,
        forall|j: int| 0 <= j < 4 ==> (#[trigger] items@[j]) is Ok,
    ensures
        bbox_outcome(Ok(items), i) matches Ok(b) && items@[0] == Ok::<u64, String>(b.x) && items@[1]
            == Ok::<u64, String>(b.y) && items@[2] == Ok::<u64, String>(b.w) && items@[3] == Ok::<
            u64,
            String,
        >(b.h),
{
    let f = float_reader(items@, i, "bbox"@);
    assert forall|k: int| 0 <= k < 4 implies #[trigger] f(k) is Ok by {
        assert(items@[k] is Ok);
    }
    law_first_refusal_counts(f, 4, 0);
    lemma_collected_items(f, 4);
    assert(f(0) is Ok && f(1) is Ok && f(2) is Ok && f(3) is Ok);
}

/// Triplets of floats are keypoints, number by number.
pub proof fn law_triplets_are_keypoints(items: Vec<Result<u64, String>>, i: int)
    requires
        items@.len() % 3 == 0,
        forall|j: int| 0 <= j < items@.len() ==> (#[trigger] items@[j]) is Ok,
    ensures
        keypoints_outcome(Ok(items), i) matches Ok(v) && v.len() == items@.len() && forall|j: int|
            0 <= j < v.len() ==> items@[j] == Ok::<u64, String>(#[trigger] v[j]),
{
    let f = float_reader(items@, i, "keypoints"@);
    assert forall|k: int| 0 <= k < items@.len() implies #[trigger] f(k) is Ok by {
        assert(items@[k] is Ok);
    }
    law_first_refusal_counts(f, items@.len(), 0);
    lemma_collected_items(f, items@.len());
    let v = collected(f, items@.len())->Ok_0;
    assert forall|j: int| 0 <= j < v.len() implies items@[j] == Ok::<u64, String>(
        #[trigger] v[j],
    ) by {
        assert(f(j) == Ok::<u64, FailureView>(v[j]));
    }
}

/// An annotation with its ids, its score and its box is a detection, where
/// nothing else is asked of it and nothing else is given.
pub proof fn law_whole_annotations_are_taken(d: ResultDict, i: int, iou: ArrayIouType)
    requires
        d.image_id matches Some(Ok(_)),
        d.category_id matches Some(Ok(_)),
        d.score matches Some(Ok(_)),
        ann_bbox(d.bbox, i) is Ok,
        d.id matches Some(held) ==> held.is_none || held.read is Ok,
        d.num_keypoints matches Some(held) ==> held.is_none || held.read is Ok,
        iou is Bbox,
        d.segmentation matches Some(held) ==> held.is_none,
    ensures
        ann_outcome(d, i, iou) is Ok,
        ann_outcome(d, i, iou)->Ok_0.segmentation is None,
        ann_outcome(d, i, iou)->Ok_0.keypoints is None,
{
}

} // verus!
