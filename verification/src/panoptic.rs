//! Panoptic evaluation: segments and categories as they come, images and
//! slices of them, and results as they go out.

use crate::collect::{collected, lemma_collected_items, lemma_collected_refusal};
use crate::config::{submit_timeout_outcome, validate_submit_timeout, ParityMode};
use crate::errors::{bare, partial_error_to_pyerr, partial_raised, ExceptionClass, PartialError,
    Raised, RaisedView, Refusal, RefusalView};
use crate::failure::{refused, value_error, with_real, ErrorKind, Failure, FailureView};
use crate::float_bits::{above_zero, finite, is_finite, scaled};
use crate::label_maps::{maps_view, LabelMap, LabelMapView};
use crate::semantic::{kept, slice_ids, slices_summed, SliceSpec};
use crate::streaming::{buffers_outcome, buffers_view, byte_buffers};
use crate::tables::PanopticSliceRow;
use crate::text::{debug_text, i64_text, int_text, nat_text, quoted, same_text, u64_text,
    usize_text};
use crate::threads::{digits_value, is_digit, lemma_digits_grow, lemma_nat_text_value};
use std::collections::HashMap;
use std::collections::HashSet;
use vstd::prelude::*;

verus! {

broadcast use vstd::std_specs::hash::group_hash_axioms;

// ---------------------------------------------------------------------------
// Errors
// ---------------------------------------------------------------------------

/// What went wrong in a panoptic evaluation.
#[derive(Debug)]
pub enum PanopticFault {
    Partial { error: PartialError, text: String },
    DuplicateImageId { image_id: i64 },
    ShapeMismatch { image_id: i64, gt_shape: (u32, u32), dt_shape: (u32, u32) },
    UnknownPredSegmentId { image_id: i64, segment_id: u32 },
    MissingPredSegmentInPng { image_id: i64, segment_id: u32 },
    DuplicateSegmentId { image_id: i64, segment_id: u32, side: String },
    MissingPanopticImage { image_id: i64, path: String },
    MissingPredictionsForImage { image_id: i64 },
    NonRgbPng { image_id: i64, mode: String },
    EmptyCategoryFilter { context: String },
    Json { reason: String },
    Png { reason: String },
    InvalidInput { detail: String },
    Other { text: String },
}

/// A pair of numbers in brackets.
pub open spec fn shape_text(shape: (u32, u32)) -> Seq<char> {
    "("@ + nat_text(shape.0 as nat) + ", "@ + nat_text(shape.1 as nat) + ")"@
}

/// A pair of numbers in brackets.
fn write_shape(shape: (u32, u32)) -> (s: String)
    ensures
        s@ == shape_text(shape),
{
    let mut s = String::from_str("(");
    s.append(u64_text(shape.0 as u64).as_str());
    s.append(", ");
    s.append(u64_text(shape.1 as u64).as_str());
    s.append(")");
    s
}

/// The message of a fault that is no fault of a partial result.
pub open spec fn fault_text(f: PanopticFault) -> Seq<char> {
    match f {
        PanopticFault::Partial { text, .. } => text@,
        PanopticFault::DuplicateImageId { image_id } => "duplicate panoptic image_id="@ + int_text(
            image_id as int,
        ) + " in streaming evaluator"@,
        PanopticFault::ShapeMismatch { image_id, gt_shape, dt_shape } =>
            "panoptic shape mismatch on image_id="@ + int_text(image_id as int) + ": gt="@
                + shape_text(gt_shape) + ", dt="@ + shape_text(dt_shape),
        PanopticFault::UnknownPredSegmentId { image_id, segment_id } =>
            "unknown panoptic prediction segment id "@ + nat_text(segment_id as nat)
                + " on image_id="@ + int_text(image_id as int),
        PanopticFault::MissingPredSegmentInPng { image_id, segment_id } =>
            "panoptic prediction segment id "@ + nat_text(segment_id as nat)
                + " declared in segments_info missing from PNG (image_id="@ + int_text(
                image_id as int,
            ) + ")"@,
        PanopticFault::DuplicateSegmentId { image_id, segment_id, side } =>
            "duplicate panoptic segment id "@ + nat_text(segment_id as nat) + " on image_id="@
                + int_text(image_id as int) + " (side="@ + side@ + ")"@,
        PanopticFault::MissingPanopticImage { image_id, path } =>
            "missing panoptic PNG for image_id="@ + int_text(image_id as int) + ": "@ + path@,
        PanopticFault::MissingPredictionsForImage { image_id } =>
            "missing panoptic prediction for image_id="@ + int_text(image_id as int),
        PanopticFault::NonRgbPng { image_id, mode } => "panoptic PNG for image_id="@ + int_text(
            image_id as int,
        ) + " is not RGB (mode="@ + mode@ + ")"@,
        PanopticFault::EmptyCategoryFilter { context } => "panoptic category filter for "@
            + context@ + " is empty (W6 strict)"@,
        PanopticFault::Json { reason } => "panoptic JSON parse error: "@ + reason@,
        PanopticFault::Png { reason } => "panoptic PNG decode error: "@ + reason@,
        PanopticFault::InvalidInput { detail } => "invalid panoptic input: "@ + detail@,
        PanopticFault::Other { text } => text@,
    }
}

/// The exception for a fault.
pub open spec fn fault_raised(f: PanopticFault) -> RaisedView {
    match f {
        PanopticFault::Partial { error, text } => partial_raised(error, text@),
        _ => bare(ExceptionClass::ValueError, fault_text(f)),
    }
}

/// The exception for a fault.
pub fn panoptic_error_to_pyerr(f: PanopticFault) -> (x: Raised)
    ensures
        x@ == fault_raised(f),
{
    let message = match f {
        PanopticFault::Partial { error, text } => {
            return partial_error_to_pyerr(error, text);
        },
        PanopticFault::DuplicateImageId { image_id } => {
            let mut m = String::from_str("duplicate panoptic image_id=");
            m.append(i64_text(image_id).as_str());
            m.append(" in streaming evaluator");
            m
        },
        PanopticFault::ShapeMismatch { image_id, gt_shape, dt_shape } => {
            let mut m = String::from_str("panoptic shape mismatch on image_id=");
            m.append(i64_text(image_id).as_str());
            m.append(": gt=");
            m.append(write_shape(gt_shape).as_str());
            m.append(", dt=");
            m.append(write_shape(dt_shape).as_str());
            m
        },
        PanopticFault::UnknownPredSegmentId { image_id, segment_id } => {
            let mut m = String::from_str("unknown panoptic prediction segment id ");
            m.append(u64_text(segment_id as u64).as_str());
            m.append(" on image_id=");
            m.append(i64_text(image_id).as_str());
            m
        },
        PanopticFault::MissingPredSegmentInPng { image_id, segment_id } => {
            let mut m = String::from_str("panoptic prediction segment id ");
            m.append(u64_text(segment_id as u64).as_str());
            m.append(" declared in segments_info missing from PNG (image_id=");
            m.append(i64_text(image_id).as_str());
            m.append(")");
            m
        },
        PanopticFault::DuplicateSegmentId { image_id, segment_id, side } => {
            let mut m = String::from_str("duplicate panoptic segment id ");
            m.append(u64_text(segment_id as u64).as_str());
            m.append(" on image_id=");
            m.append(i64_text(image_id).as_str());
            m.append(" (side=");
            m.append(side.as_str());
            m.append(")");
            m
        },
        PanopticFault::MissingPanopticImage { image_id, path } => {
            let mut m = String::from_str("missing panoptic PNG for image_id=");
            m.append(i64_text(image_id).as_str());
            m.append(": ");
            m.append(path.as_str());
            m
        },
        PanopticFault::MissingPredictionsForImage { image_id } => {
            let mut m = String::from_str("missing panoptic prediction for image_id=");
            m.append(i64_text(image_id).as_str());
            m
        },
        PanopticFault::NonRgbPng { image_id, mode } => {
            let mut m = String::from_str("panoptic PNG for image_id=");
            m.append(i64_text(image_id).as_str());
            m.append(" is not RGB (mode=");
            m.append(mode.as_str());
            m.append(")");
            m
        },
        PanopticFault::EmptyCategoryFilter { context } => {
            let mut m = String::from_str("panoptic category filter for ");
            m.append(context.as_str());
            m.append(" is empty (W6 strict)");
            m
        },
        PanopticFault::Json { reason } => {
            let mut m = String::from_str("panoptic JSON parse error: ");
            m.append(reason.as_str());
            m
        },
        PanopticFault::Png { reason } => {
            let mut m = String::from_str("panoptic PNG decode error: ");
            m.append(reason.as_str());
            m
        },
        PanopticFault::InvalidInput { detail } => {
            let mut m = String::from_str("invalid panoptic input: ");
            m.append(detail.as_str());
            m
        },
        PanopticFault::Other { text } => text,
    };
    Raised::bare(ExceptionClass::ValueError, message)
}

// ---------------------------------------------------------------------------
// Settings
// ---------------------------------------------------------------------------

/// What the word for a rule book stands for.
pub open spec fn panoptic_parity_outcome(s: Seq<char>) -> Result<ParityMode, FailureView> {
    if s == "strict"@ {
        Ok(ParityMode::Strict)
    } else if s == "corrected"@ {
        Ok(ParityMode::Corrected)
    } else {
        Err(
            value_error(
                "unknown panoptic parity_mode "@ + debug_text(s)
                    + "; expected 'strict' or 'corrected'"@,
            ),
        )
    }
}

/// Read the word for a rule book.
pub fn parse_panoptic_parity_mode(s: &str) -> (r: Result<ParityMode, Failure>)
    ensures
        refused(r) == panoptic_parity_outcome(s@),
{
    if same_text(s, "strict") {
        Ok(ParityMode::Strict)
    } else if same_text(s, "corrected") {
        Ok(ParityMode::Corrected)
    } else {
        let mut m = String::from_str("unknown panoptic parity_mode ");
        m.append(quoted(s).as_str());
        m.append("; expected 'strict' or 'corrected'");
        Err(Failure::value_error(m))
    }
}

/// How outlines are compared.
#[derive(Clone, Copy, Debug, PartialEq, Eq, Structural)]
pub struct BoundaryConfig {
    pub dilation_ratio: u64,
    pub parity_mode: ParityMode,
}

/// What checking the settings for outlines gives. Without outlines the width
/// of the band is not looked at.
pub open spec fn boundary_outcome(
    boundary: bool,
    dilation_ratio: u64,
    parity_mode: ParityMode,
) -> Result<Option<BoundaryConfig>, FailureView> {
    if !boundary {
        Ok(None)
    } else if is_finite(dilation_ratio) && scaled(dilation_ratio) > 0 {
        Ok(Some(BoundaryConfig { dilation_ratio, parity_mode }))
    } else {
        Err(
            with_real(
                ErrorKind::ValueError,
                "dilation_ratio must be a positive finite float when boundary=True, got "@,
                dilation_ratio,
                ""@,
            ),
        )
    }
}

/// Check the settings for outlines.
pub fn boundary_cfg_from_ffi(boundary: bool, dilation_ratio: u64, parity_mode: ParityMode) -> (r:
    Result<Option<BoundaryConfig>, Failure>)
    ensures
        refused(r) == boundary_outcome(boundary, dilation_ratio, parity_mode),
{
    if !boundary {
        return Ok(None);
    }
    if !finite(dilation_ratio) || !above_zero(dilation_ratio) {
        return Err(
            Failure::with_real(
                ErrorKind::ValueError,
                String::from_str(
                    "dilation_ratio must be a positive finite float when boundary=True, got ",
                ),
                dilation_ratio,
                String::from_str(""),
            ),
        );
    }
    Ok(Some(BoundaryConfig { dilation_ratio, parity_mode }))
}

/// What an evaluation may be asked for beyond the defaults.
#[derive(Debug)]
pub struct PanopticOptions {
    /// Where a match begins.
    pub pq_iou_threshold: Option<u64>,
    /// The categories that are summed up.
    pub category_filter: Option<Vec<u32>>,
    /// Groups of categories that are summed up together.
    pub class_grouping: Option<Vec<(String, Vec<u32>)>>,
    /// The categories that count as stuff, and those that count as things.
    pub stuff_thing_partition: Option<(Vec<u32>, Vec<u32>)>,
}

/// No option.
pub open spec fn no_options() -> PanopticOptions {
    PanopticOptions {
        pq_iou_threshold: None,
        category_filter: None,
        class_grouping: None,
        stuff_thing_partition: None,
    }
}

/// What the matching of a dataset with its predictions is asked for.
#[derive(Debug)]
pub struct PanopticRequest {
    pub mode: ParityMode,
    pub things_stuff_split: bool,
    pub boundary: Option<BoundaryConfig>,
    pub options: PanopticOptions,
}

/// What checking a request gives: the rule book first, then the outlines.
pub open spec fn request_outcome(
    parity_mode: Seq<char>,
    things_stuff_split: bool,
    options: PanopticOptions,
    boundary: bool,
    dilation_ratio: u64,
) -> Result<PanopticRequest, FailureView> {
    match panoptic_parity_outcome(parity_mode) {
        Err(e) => Err(e),
        Ok(mode) => match boundary_outcome(boundary, dilation_ratio, mode) {
            Err(e) => Err(e),
            Ok(boundary) => Ok(PanopticRequest { mode, things_stuff_split, boundary, options }),
        },
    }
}

/// Check the request of an evaluation.
pub fn plan_panoptic(
    parity_mode: &str,
    things_stuff_split: bool,
    options: PanopticOptions,
    boundary: bool,
    dilation_ratio: u64,
) -> (r: Result<PanopticRequest, Failure>)
    ensures
        refused(r) == request_outcome(
            parity_mode@,
            things_stuff_split,
            options,
            boundary,
            dilation_ratio,
        ),
{
    match parse_panoptic_parity_mode(parity_mode) {
        Err(e) => Err(e),
        Ok(mode) => match boundary_cfg_from_ffi(boundary, dilation_ratio, mode) {
            Err(e) => Err(e),
            Ok(boundary) => Ok(PanopticRequest { mode, things_stuff_split, boundary, options }),
        },
    }
}

/// Check the request of a partitioned evaluation: it is that of an evaluation
/// without options, and neither the manifest nor the number of threads has a
/// say in it.
pub fn plan_partitioned(
    parity_mode: &str,
    things_stuff_split: bool,
    boundary: bool,
    dilation_ratio: u64,
) -> (r: Result<PanopticRequest, Failure>)
    ensures
        refused(r) == request_outcome(
            parity_mode@,
            things_stuff_split,
            no_options(),
            boundary,
            dilation_ratio,
        ),
{
    let options = PanopticOptions {
        pq_iou_threshold: None,
        category_filter: None,
        class_grouping: None,
        stuff_thing_partition: None,
    };
    plan_panoptic(parity_mode, things_stuff_split, options, boundary, dilation_ratio)
}

// ---------------------------------------------------------------------------
// Segments and categories
// ---------------------------------------------------------------------------

/// A value in a JSON document that stands for yes or no.
#[derive(Clone, Copy, Debug, PartialEq, Eq, Structural)]
pub enum JsonFlag {
    Bool(bool),
    /// A number that an `i64` holds.
    Integer(i64),
    /// Any other number.
    OtherNumber,
    /// Anything else, or nothing.
    Other,
}

/// Yes is `true` or a whole number other than zero.
pub open spec fn flag_of(v: JsonFlag) -> bool {
    match v {
        JsonFlag::Bool(b) => b,
        JsonFlag::Integer(n) => n != 0,
        _ => false,
    }
}

/// Read a value that stands for yes or no.
pub fn parse_bool_or_int(v: JsonFlag) -> (b: bool)
    ensures
        b == flag_of(v),
{
    match v {
        JsonFlag::Bool(b) => b,
        JsonFlag::Integer(n) => n != 0,
        JsonFlag::OtherNumber => false,
        JsonFlag::Other => false,
    }
}

/// A segment as a JSON document describes it.
#[derive(Clone, Copy, Debug, PartialEq, Eq, Structural)]
pub struct SegmentJson {
    pub id: u32,
    pub category_id: i64,
    pub iscrowd: JsonFlag,
    pub area: u64,
}

/// A segment.
#[derive(Clone, Copy, Debug, PartialEq, Eq, Structural)]
pub struct SegmentInfo {
    pub id: u32,
    pub category_id: i64,
    pub iscrowd: bool,
    pub area: u64,
}

/// The segment that a JSON document describes.
pub open spec fn segment_of(s: SegmentJson) -> SegmentInfo {
    SegmentInfo {
        id: s.id,
        category_id: s.category_id,
        iscrowd: flag_of(s.iscrowd),
        area: s.area,
    }
}

/// The segments that a JSON document describes.
pub open spec fn segments_of(s: Seq<SegmentJson>) -> Seq<SegmentInfo> {
    s.map_values(|x: SegmentJson| segment_of(x))
}

/// Read the segments of an image.
pub fn read_segments(raw: &Vec<SegmentJson>) -> (out: Vec<SegmentInfo>)
    ensures
        out@ == segments_of(raw@),
        out@.len() == raw@.len(),
        forall|i: int|
            0 <= i < out@.len() ==> {
                &&& (#[trigger] out@[i]).id == raw@[i].id
                &&& out@[i].category_id == raw@[i].category_id
                &&& out@[i].area == raw@[i].area
                &&& out@[i].iscrowd <==> (raw@[i].iscrowd == JsonFlag::Bool(true) || (
                raw@[i].iscrowd matches JsonFlag::Integer(n) && n != 0))
            },
{
    let mut out: Vec<SegmentInfo> = Vec::new();
    let mut i: usize = 0;
    while i < raw.len()
        invariant
            i <= raw.len(),
            out@.len() == i,
            forall|k: int| 0 <= k < i ==> #[trigger] out@[k] == segment_of(raw@[k]),
        decreases raw.len() - i,
    {
        let s = raw[i];
        out.push(
            SegmentInfo {
                id: s.id,
                category_id: s.category_id,
                iscrowd: parse_bool_or_int(s.iscrowd),
                area: s.area,
            },
        );
        i += 1;
    }
    assert(out@ =~= segments_of(raw@));
    out
}

/// What comes of a JSON document with the segments of an image.
pub open spec fn image_segments_outcome(
    parsed: Result<Vec<SegmentJson>, String>,
    image_id: i64,
) -> Result<Seq<SegmentInfo>, RaisedView> {
    match parsed {
        Err(reason) => Err(
            bare(
                ExceptionClass::ValueError,
                "invalid panoptic input: "@ + ("segments_info JSON for image_id="@ + int_text(
                    image_id as int,
                ) + " is invalid: "@ + reason@),
            ),
        ),
        Ok(raw) => Ok(segments_of(raw@)),
    }
}

/// Read the segments of an image from a JSON document that was parsed, or
/// not.
pub fn parse_segments_info(parsed: Result<Vec<SegmentJson>, String>, image_id: i64) -> (r: Result<
    Vec<SegmentInfo>,
    Raised,
>)
    ensures
        match r {
            Ok(v) => image_segments_outcome(parsed, image_id) == Ok::<
                Seq<SegmentInfo>,
                RaisedView,
            >(v@),
            Err(x) => image_segments_outcome(parsed, image_id) == Err::<
                Seq<SegmentInfo>,
                RaisedView,
            >(x@),
        },
{
    match parsed {
        Err(reason) => {
            let mut m = String::from_str("segments_info JSON for image_id=");
            m.append(i64_text(image_id).as_str());
            m.append(" is invalid: ");
            m.append(reason.as_str());
            Err(panoptic_error_to_pyerr(PanopticFault::InvalidInput { detail: m }))
        },
        Ok(raw) => Ok(read_segments(&raw)),
    }
}

/// A text without the sign that it may start with.
pub open spec fn signless(s: Seq<char>) -> Seq<char> {
    if s.len() > 0 && (s[0] == '-' || s[0] == '+') {
        s.skip(1)
    } else {
        s
    }
}

/// The number that a text writes: digits, at least one, after an optional
/// sign, within what an `i64` holds.
pub open spec fn parsed_i64(s: Seq<char>) -> Option<i64> {
    let minus = s.len() > 0 && s[0] == '-';
    let digits = signless(s);
    let value = if minus {
        -(digits_value(digits) as int)
    } else {
        digits_value(digits) as int
    };
    if digits.len() > 0 && (forall|i: int| 0 <= i < digits.len() ==> is_digit(#[trigger] digits[i]))
        && i64::MIN <= value <= i64::MAX {
        Some(value as i64)
    } else {
        None
    }
}

/// Read an image id.
pub fn read_image_id(text: &str) -> (r: Option<i64>)
    ensures
        r == parsed_i64(text@),
{
    let len: usize = text.unicode_len();
    let minus = len > 0 && text.get_char(0) == '-';
    let start: usize = if len > 0 && (text.get_char(0) == '-' || text.get_char(0) == '+') {
        1
    } else {
        0
    };
    let ghost digits = signless(text@);
    assert(digits =~= text@.skip(start as int));
    if start == len {
        return None;
    }
    let mut value: u64 = 0;
    let mut i: usize = start;
    assert(digits.take(0) =~= Seq::empty());
    #[verifier::loop_isolation(false)]
    while i < len
        invariant
            start <= i <= len == text@.len(),
            digits == signless(text@),
            digits == text@.skip(start as int),
            forall|k: int| 0 <= k < i - start ==> is_digit(#[trigger] digits[k]),
            value == digits_value(digits.take(i - start)),
        decreases len - i,
    {
        let c: char = text.get_char(i);
        let v: u32 = c as u32;
        assert(digits[i - start] == c);
        if v < 48 || v > 57 {
            assert(!is_digit(digits[i - start]));
            return None;
        }
        let ghost next = digits.take(i + 1 - start);
        proof {
            assert(next.drop_last() =~= digits.take(i - start));
            assert(next.last() == c);
            lemma_digits_grow(digits, i + 1 - start);
        }
        match value.checked_mul(10) {
            None => return None,
            Some(tens) => match tens.checked_add((v - 48) as u64) {
                None => return None,
                Some(sum) => {
                    value = sum;
                },
            },
        }
        i += 1;
    }
    assert(digits.take(i - start) =~= digits);
    if minus {
        if value <= 0x7FFF_FFFF_FFFF_FFFF {
            Some(-(value as i64))
        } else if value == 0x8000_0000_0000_0000 {
            Some(i64::MIN)
        } else {
            None
        }
    } else if value <= 0x7FFF_FFFF_FFFF_FFFF {
        Some(value as i64)
    } else {
        None
    }
}

/// The segments of an image under its key.
#[derive(Debug)]
pub struct SegmentsEntry {
    pub key: String,
    pub segments: Vec<SegmentJson>,
}

/// Each entry of a dict of segments, or why it is refused.
pub open spec fn segments_reader(entries: Seq<SegmentsEntry>) -> spec_fn(int) -> Result<
    (i64, Seq<SegmentInfo>),
    FailureView,
> {
    |i: int|
        match parsed_i64(entries[i].key@) {
            None => Err(
                value_error(
                    "invalid panoptic input: "@ + ("segments_info key "@ + debug_text(
                        entries[i].key@,
                    ) + " is not an integer image id"@),
                ),
            ),
            Some(id) => Ok((id, segments_of(entries[i].segments@))),
        }
}

/// The segments of images by their mathematical value.
pub open spec fn segments_view(s: Seq<(i64, Vec<SegmentInfo>)>) -> Seq<(i64, Seq<SegmentInfo>)> {
    s.map_values(|p: (i64, Vec<SegmentInfo>)| (p.0, p.1@))
}

/// Read a dict of segments.
pub fn parse_segments_map(entries: &Vec<SegmentsEntry>) -> (r: Result<
    Vec<(i64, Vec<SegmentInfo>)>,
    Failure,
>)
    ensures
        match r {
            Ok(v) => collected(segments_reader(entries@), entries@.len()) == Ok::<
                Seq<(i64, Seq<SegmentInfo>)>,
                FailureView,
            >(segments_view(v@)),
            Err(e) => collected(segments_reader(entries@), entries@.len()) == Err::<
                Seq<(i64, Seq<SegmentInfo>)>,
                FailureView,
            >(e@),
        },
{
    let ghost f = segments_reader(entries@);
    let mut out: Vec<(i64, Vec<SegmentInfo>)> = Vec::new();
    let mut i: usize = 0;
    assert(segments_view(out@) =~= Seq::empty());
    while i < entries.len()
        invariant
            i <= entries.len(),
            f == segments_reader(entries@),
            collected(f, i as nat) == Ok::<Seq<(i64, Seq<SegmentInfo>)>, FailureView>(
                segments_view(out@),
            ),
        decreases entries.len() - i,
    {
        let ghost before = segments_view(out@);
        let key = &entries[i].key;
        match read_image_id(key.as_str()) {
            None => {
                let mut d = String::from_str("segments_info key ");
                d.append(quoted(key.as_str()).as_str());
                d.append(" is not an integer image id");
                let mut m = String::from_str("invalid panoptic input: ");
                m.append(d.as_str());
                let e = Failure::value_error(m);
                proof {
                    assert(f(i as int) == Err::<(i64, Seq<SegmentInfo>), FailureView>(e@));
                    lemma_collected_refusal(f, (i + 1) as nat, entries@.len());
                }
                return Err(e);
            },
            Some(id) => {
                let segments = read_segments(&entries[i].segments);
                let ghost read = segments@;
                out.push((id, segments));
                proof {
                    assert(segments_view(out@) =~= before.push((id, read)));
                    assert(f(i as int) == Ok::<(i64, Seq<SegmentInfo>), FailureView>((id, read)));
                }
            },
        }
        i += 1;
    }
    Ok(out)
}

/// A category as a JSON document describes it.
#[derive(Clone, Copy, Debug, PartialEq, Eq, Structural)]
pub struct CategoryJson {
    pub id: i64,
    pub isthing: JsonFlag,
}

/// Categories and whether each is a thing: of two with one id the later
/// stands.
pub open spec fn categories_map(s: Seq<CategoryJson>) -> Map<i64, bool>
    decreases s.len(),
{
    if s.len() == 0 {
        Map::empty()
    } else {
        categories_map(s.drop_last()).insert(s.last().id, flag_of(s.last().isthing))
    }
}

/// Read categories.
pub fn read_categories(raw: &Vec<CategoryJson>) -> (m: HashMap<i64, bool>)
    ensures
        m@ == categories_map(raw@),
{
    let mut m: HashMap<i64, bool> = HashMap::new();
    let mut i: usize = 0;
    assert(raw@.take(0) =~= Seq::empty());
    assert(m@ =~= Map::<i64, bool>::empty());
    while i < raw.len()
        invariant
            i <= raw.len(),
            m@ == categories_map(raw@.take(i as int)),
        decreases raw.len() - i,
    {
        proof {
            let next = raw@.take(i + 1);
            assert(next.drop_last() =~= raw@.take(i as int));
            assert(next.last() == raw@[i as int]);
        }
        m.insert(raw[i].id, parse_bool_or_int(raw[i].isthing));
        i += 1;
    }
    assert(raw@.take(i as int) =~= raw@);
    m
}

/// Read categories from a JSON document that was parsed, or not.
pub fn parse_categories(parsed: Result<Vec<CategoryJson>, String>) -> (r: Result<
    HashMap<i64, bool>,
    Raised,
>)
    ensures
        match (parsed, r) {
            (Ok(raw), Ok(m)) => m@ == categories_map(raw@),
            (Err(reason), Err(x)) => x@ == categories_raised(reason@),
            _ => false,
        },
{
    match parsed {
        Err(reason) => Err(panoptic_error_to_pyerr(PanopticFault::Json { reason })),
        Ok(raw) => Ok(read_categories(&raw)),
    }
}

/// Categories after moving some among things or stuff: those that are named
/// and known change, and one that is named as both becomes a thing.
pub open spec fn repartitioned(
    categories: Map<i64, bool>,
    stuff: Seq<u32>,
    things: Seq<u32>,
) -> Map<i64, bool> {
    Map::new(
        |id: i64| categories.dom().contains(id),
        |id: i64|
            if exists|k: int| 0 <= k < things.len() && #[trigger] things[k] as i64 == id {
                true
            } else if exists|k: int| 0 <= k < stuff.len() && #[trigger] stuff[k] as i64 == id {
                false
            } else {
                categories[id]
            },
    )
}

/// Move the categories that are named and known.
fn mark(categories: HashMap<i64, bool>, named: &Vec<u32>, isthing: bool) -> (out: HashMap<
    i64,
    bool,
>)
    ensures
        out@ == Map::new(
            |id: i64| categories@.dom().contains(id),
            |id: i64|
                if exists|k: int| 0 <= k < named@.len() && #[trigger] named@[k] as i64 == id {
                    isthing
                } else {
                    categories@[id]
                },
        ),
{
    let ghost given = categories@;
    let mut out = categories;
    let mut i: usize = 0;
    while i < named.len()
        invariant
            i <= named.len(),
            out@.dom() == given.dom(),
            forall|id: i64|
                given.dom().contains(id) ==> #[trigger] out@[id] == (if exists|k: int|
                    0 <= k < i && #[trigger] named@[k] as i64 == id {
                    isthing
                } else {
                    given[id]
                }),
        decreases named.len() - i,
    {
        let id: i64 = named[i] as i64;
        let ghost was = out@;
        if out.contains_key(&id) {
            out.insert(id, isthing);
        }
        proof {
            assert(out@.dom() =~= given.dom());
            assert(named@[i as int] as i64 == id);
            assert forall|x: i64| given.dom().contains(x) implies #[trigger] out@[x] == (if exists|
                k: int,
            |
                0 <= k < i + 1 && #[trigger] named@[k] as i64 == x {
                isthing
            } else {
                given[x]
            }) by {
                if x != id {
                    assert(out@[x] == was[x]);
                    if exists|k: int| 0 <= k < i + 1 && #[trigger] named@[k] as i64 == x {
                        let k = choose|k: int|
                            0 <= k < i + 1 && #[trigger] named@[k] as i64 == x;
                        assert(k < i);
                    }
                }
            }
        }
        i += 1;
    }
    assert(out@ =~= Map::new(
        |id: i64| given.dom().contains(id),
        |id: i64|
            if exists|k: int| 0 <= k < named@.len() && #[trigger] named@[k] as i64 == id {
                isthing
            } else {
                given[id]
            },
    ));
    out
}

/// Move categories among things or stuff.
pub fn override_partition(
    categories: HashMap<i64, bool>,
    stuff: &Vec<u32>,
    things: &Vec<u32>,
) -> (out: HashMap<i64, bool>)
    ensures
        out@ == repartitioned(categories@, stuff@, things@),
{
    let ghost given = categories@;
    let marked = mark(categories, stuff, false);
    let out = mark(marked, things, true);
    assert(out@ =~= repartitioned(given, stuff@, things@));
    out
}

/// Moving categories neither adds nor drops one, and one that is not named
/// stays what it is.
pub proof fn law_partition_keeps_the_taxonomy(
    categories: Map<i64, bool>,
    stuff: Seq<u32>,
    things: Seq<u32>,
    id: i64,
)
    ensures
        repartitioned(categories, stuff, things).dom() == categories.dom(),
        categories.dom().contains(id) && (forall|k: int|
            0 <= k < stuff.len() ==> #[trigger] stuff[k] as i64 != id) && (forall|k: int|
            0 <= k < things.len() ==> #[trigger] things[k] as i64 != id) ==> repartitioned(
            categories,
            stuff,
            things,
        )[id] == categories[id],
{
    assert(repartitioned(categories, stuff, things).dom() =~= categories.dom());
}

// ---------------------------------------------------------------------------
// Images
// ---------------------------------------------------------------------------

/// Which side of an evaluation an image is on.
#[derive(Clone, Copy, Debug, PartialEq, Eq, Structural)]
pub enum Side {
    GroundTruth,
    Prediction,
}

impl Side {
    /// Its name.
    pub open spec fn name(self) -> Seq<char> {
        match self {
            Side::GroundTruth => "gt"@,
            Side::Prediction => "dt"@,
        }
    }

    /// Its name.
    pub fn as_str(self) -> (s: &'static str)
        ensures
            s@ == self.name(),
    {
        match self {
            Side::GroundTruth => "gt",
            Side::Prediction => "dt",
        }
    }

    /// Are the areas of segments counted anew? Those of a prediction always
    /// are.
    pub fn recounts_areas(self) -> (b: bool)
        ensures
            b == (self is Prediction),
    {
        matches!(self, Side::Prediction)
    }
}

/// An image with its segments.
#[derive(Debug)]
pub struct PanopticImage {
    pub image_id: i64,
    pub map: LabelMap,
    pub segments: Vec<SegmentInfo>,
}

/// The mathematical value of a [`PanopticImage`].
#[verifier::ext_equal]
pub struct ImageView {
    pub image_id: i64,
    pub map: LabelMapView,
    pub segments: Seq<SegmentInfo>,
}

impl View for PanopticImage {
    type V = ImageView;

    open spec fn view(&self) -> ImageView {
        ImageView { image_id: self.image_id, map: self.map@, segments: self.segments@ }
    }
}

/// Images by their mathematical value.
pub open spec fn images_view(images: Seq<PanopticImage>) -> Seq<ImageView> {
    images.map_values(|i: PanopticImage| i@)
}

/// Label maps under their image ids.
pub open spec fn map_of(maps: Seq<(i64, LabelMapView)>) -> Map<i64, LabelMapView>
    decreases maps.len(),
{
    if maps.len() == 0 {
        Map::empty()
    } else {
        map_of(maps.drop_last()).insert(maps.last().0, maps.last().1)
    }
}

/// The segments of an image stand in an earlier entry too.
pub open spec fn entry_repeats(segs: Seq<(i64, Seq<SegmentInfo>)>, i: int) -> bool {
    exists|k: int| 0 <= k < i && #[trigger] segs[k].0 == segs[i].0
}

/// The images of the first `n` entries, each once.
pub open spec fn joined_images(
    segs: Seq<(i64, Seq<SegmentInfo>)>,
    maps: Map<i64, LabelMapView>,
    n: nat,
) -> Seq<ImageView>
    decreases n,
{
    if n == 0 {
        Seq::empty()
    } else {
        let before = joined_images(segs, maps, (n - 1) as nat);
        let (id, segments) = segs[n - 1];
        if entry_repeats(segs, n - 1) {
            before
        } else {
            before.push(ImageView { image_id: id, map: maps[id], segments })
        }
    }
}

/// The refusal of segments without a label map.
pub open spec fn no_label_map(side: Side, image_id: i64) -> FailureView {
    value_error(
        "panoptic "@ + side.name() + ": segments_info has image_id="@ + int_text(image_id as int)
            + " but label_maps does not"@,
    )
}

/// Entry `i` is the first whose image has no label map.
pub open spec fn first_without_map(
    segs: Seq<(i64, Seq<SegmentInfo>)>,
    maps: Map<i64, LabelMapView>,
    i: int,
) -> bool {
    0 <= i < segs.len() && !maps.dom().contains(segs[i].0) && forall|k: int|
        0 <= k < i ==> maps.dom().contains((#[trigger] segs[k]).0)
}

/// Put label maps under their image ids.
fn index_maps(maps: Vec<(i64, LabelMap)>) -> (m: HashMap<i64, LabelMap>)
    ensures
        m@.map_values(|l: LabelMap| l@) == map_of(maps_view(maps@)),
{
    let ghost given = maps@;
    let ghost views = maps_view(given);
    let mut m: HashMap<i64, LabelMap> = HashMap::new();
    assert(views.take(0) =~= Seq::empty());
    assert(m@.map_values(|l: LabelMap| l@) =~= Map::<i64, LabelMapView>::empty());
    for pair in iter: maps
        invariant
            iter.seq() == given,
            views == maps_view(given),
            m@.map_values(|l: LabelMap| l@) == map_of(views.take(iter.index() as int)),
    {
        let ghost n = iter.index() as int;
        let ghost was = m@;
        let ghost added = pair.1@;
        proof {
            let next = views.take(n + 1);
            assert(next.drop_last() =~= views.take(n));
            assert(next.last() == (pair.0, pair.1@));
        }
        let (id, map) = pair;
        m.insert(id, map);
        assert(m@.map_values(|l: LabelMap| l@) =~= was.map_values(|l: LabelMap| l@).insert(
            id,
            added,
        ));
    }
    assert(views.take(views.len() as int) =~= views);
    m
}

/// Join segments with the label maps of their images. A label map without
/// segments is left out.
pub fn join_images(
    segs: Vec<(i64, Vec<SegmentInfo>)>,
    maps: Vec<(i64, LabelMap)>,
    side: Side,
) -> (r: Result<Vec<PanopticImage>, Failure>)
    ensures
        match r {
            Ok(images) => {
                &&& forall|i: int|
                    0 <= i < segs@.len() ==> map_of(maps_view(maps@)).dom().contains(
                        (#[trigger] segs@[i]).0,
                    )
                &&& images_view(images@) == joined_images(
                    segments_view(segs@),
                    map_of(maps_view(maps@)),
                    segs@.len(),
                )
            },
            Err(e) => exists|i: int| #[trigger]
                first_without_map(segments_view(segs@), map_of(maps_view(maps@)), i) && e@
                    == no_label_map(side, segs@[i].0),
        },
{
    let ghost given = segs@;
    let ghost views = segments_view(given);
    let ghost all = map_of(maps_view(maps@));
    let mut left = index_maps(maps);
    let ghost held = left@;
    let mut seen: HashSet<i64> = HashSet::new();
    let mut images: Vec<PanopticImage> = Vec::new();
    proof {
        assert(images_view(images@) =~= Seq::empty());
        assert(all.dom() =~= held.dom());
    }
    #[verifier::loop_isolation(false)]
    for entry in iter: segs
        invariant
            iter.seq() == given,
            all.dom() == held.dom(),
            all == held.map_values(|l: LabelMap| l@),
            forall|i: int| 0 <= i < iter.index() ==> all.dom().contains((#[trigger] views[i]).0),
            forall|id: i64|
                seen@.contains(id) <==> exists|k: int|
                    0 <= k < iter.index() && #[trigger] views[k].0 == id,
            forall|id: i64|
                #[trigger] left@.dom().contains(id) <==> all.dom().contains(id) && !seen@.contains(
                    id,
                ),
            forall|id: i64| left@.dom().contains(id) ==> #[trigger] left@[id] == held[id],
            images_view(images@) == joined_images(views, all, iter.index() as nat),
    {
        let ghost n = iter.index() as int;
        let ghost before = images_view(images@);
        let (id, segments) = entry;
        assert(views[n] == (id, segments@));
        if seen.contains(&id) {
            proof {
                let k = choose|k: int| 0 <= k < n && #[trigger] views[k].0 == id;
                assert(views[k].0 == views[n].0);
                assert(entry_repeats(views, n));
                assert(all.dom().contains(views[k].0));
            }
        } else {
            assert(!entry_repeats(views, n));
            match left.remove(&id) {
                None => {
                    let mut m = String::from_str("panoptic ");
                    m.append(side.as_str());
                    m.append(": segments_info has image_id=");
                    m.append(i64_text(id).as_str());
                    m.append(" but label_maps does not");
                    assert(first_without_map(views, all, n));
                    return Err(Failure::value_error(m));
                },
                Some(map) => {
                    let ghost added = ImageView { image_id: id, map: map@, segments: segments@ };
                    assert(map == held[id]);
                    seen.insert(id);
                    images.push(PanopticImage { image_id: id, map, segments });
                    proof {
                        assert(all[id] == added.map);
                        assert(images_view(images@) =~= before.push(added));
                    }
                },
            }
        }
    }
    proof {
        assert forall|i: int| 0 <= i < given.len() implies all.dom().contains(
            (#[trigger] given[i]).0,
        ) by {
            assert(views[i].0 == given[i].0);
        }
    }
    Ok(images)
}

/// The images whose ids are named, in order.
pub open spec fn subset_of<T>(images: Seq<(i64, T)>, ids: Set<i64>) -> Seq<(i64, T)> {
    images.filter(|p: (i64, T)| ids.contains(p.0))
}

/// Keep the images whose ids are named. An id without an image is passed
/// over.
pub fn subset_by_image_ids<T>(images: Vec<(i64, T)>, ids: &Vec<i64>) -> (out: Vec<(i64, T)>)
    ensures
        out@ == subset_of(images@, ids@.to_set()),
{
    let keep = slice_ids(ids);
    let ghost given = images@;
    let ghost wanted = |p: (i64, T)| ids@.to_set().contains(p.0);
    let mut out: Vec<(i64, T)> = Vec::new();
    proof {
        assert(given.take(0) =~= Seq::empty());
        assert(given.take(0).filter(wanted) =~= Seq::empty()) by {
            reveal(Seq::filter);
        }
    }
    for image in iter: images
        invariant
            iter.seq() == given,
            keep@ == ids@.to_set(),
            wanted == (|p: (i64, T)| ids@.to_set().contains(p.0)),
            out@ == given.take(iter.index() as int).filter(wanted),
    {
        proof {
            let next = given.take(iter.index() + 1);
            assert(next.drop_last() =~= given.take(iter.index() as int));
            assert(next.last() == image);
            reveal(Seq::filter);
        }
        if keep.contains(&image.0) {
            out.push(image);
        }
    }
    assert(given.take(given.len() as int) =~= given);
    out
}

/// Keeping the same images again changes nothing, and keeping first some and
/// then others keeps those that are named both times.
pub proof fn law_subsets_compose<T>(images: Seq<(i64, T)>, a: Set<i64>, b: Set<i64>)
    ensures
        subset_of(subset_of(images, a), a) == subset_of(images, a),
        subset_of(subset_of(images, a), b) == subset_of(images, a.intersect(b)),
    decreases images.len(),
{
    reveal(Seq::filter);
    if images.len() > 0 {
        let rest = images.drop_last();
        law_subsets_compose(rest, a, b);
        let inner = subset_of(rest, a);
        if a.contains(images.last().0) {
            let grown = inner.push(images.last());
            assert(grown.drop_last() =~= inner);
            assert(grown.last() == images.last());
        }
    }
}

/// The number of segments of the images of a set.
pub open spec fn segments_in(counts: Seq<(i64, u64)>, ids: Set<i64>) -> nat
    decreases counts.len(),
{
    if counts.len() == 0 {
        0
    } else {
        segments_in(counts.drop_last(), ids) + (if ids.contains(counts.last().0) {
            counts.last().1 as nat
        } else {
            0
        })
    }
}

/// The number of segments of all images.
pub open spec fn all_segments(counts: Seq<(i64, u64)>) -> nat {
    segments_in(counts, Set::full())
}

/// The segments of some of the first images are no more than those of all.
proof fn lemma_segments_bound(counts: Seq<(i64, u64)>, ids: Set<i64>, k: nat)
    requires
        k <= counts.len(),
    ensures
        segments_in(counts.take(k as int), ids) <= all_segments(counts),
    decreases counts.len() + k,
{
    if k < counts.len() {
        let rest = counts.drop_last();
        lemma_segments_bound(rest, ids, k);
        assert(rest.take(k as int) =~= counts.take(k as int));
    } else {
        assert(counts.take(k as int) =~= counts);
        if k > 0 {
            let rest = counts.drop_last();
            lemma_segments_bound(rest, ids, (k - 1) as nat);
            assert(rest.take(k - 1) =~= rest);
        }
    }
}

/// Count the segments of images: of all, or of those of a set.
fn count_segments(counts: &Vec<(i64, u64)>, keep: &Option<HashSet<i64>>) -> (n: u64)
    requires
        all_segments(counts@) <= u64::MAX,
    ensures
        n == segments_in(counts@, kept(*keep)),
{
    let ghost ids = kept(*keep);
    let mut n: u64 = 0;
    let mut i: usize = 0;
    assert(counts@.take(0) =~= Seq::empty());
    while i < counts.len()
        invariant
            i <= counts.len(),
            ids == kept(*keep),
            all_segments(counts@) <= u64::MAX,
            n == segments_in(counts@.take(i as int), ids),
        decreases counts.len() - i,
    {
        let (id, count) = counts[i];
        let wanted = match keep {
            None => true,
            Some(set) => set.contains(&id),
        };
        proof {
            let next = counts@.take(i + 1);
            assert(next.drop_last() =~= counts@.take(i as int));
            assert(next.last() == (id, count));
            assert(wanted == ids.contains(id));
            lemma_segments_bound(counts@, ids, (i + 1) as nat);
        }
        if wanted {
            n += count;
        }
        i += 1;
    }
    assert(counts@.take(i as int) =~= counts@);
    n
}

/// The number of segments of all images.
pub fn num_segments(counts: &Vec<(i64, u64)>) -> (n: u64)
    requires
        all_segments(counts@) <= u64::MAX,
    ensures
        n == all_segments(counts@),
{
    count_segments(counts, &None)
}

/// The number of segments of the images that are named.
pub fn num_segments_for(counts: &Vec<(i64, u64)>, ids: &Vec<i64>) -> (n: u64)
    requires
        all_segments(counts@) <= u64::MAX,
    ensures
        n == segments_in(counts@, ids@.to_set()),
{
    let keep = Some(slice_ids(ids));
    count_segments(counts, &keep)
}

/// Counting the segments of named images is counting those of the images
/// that are kept.
pub proof fn law_counting_agrees_with_keeping(counts: Seq<(i64, u64)>, ids: Set<i64>)
    ensures
        all_segments(subset_of(counts, ids)) == segments_in(counts, ids),
    decreases counts.len(),
{
    reveal(Seq::filter);
    if counts.len() > 0 {
        let rest = counts.drop_last();
        law_counting_agrees_with_keeping(rest, ids);
        if ids.contains(counts.last().0) {
            let inner = subset_of(rest, ids);
            assert(inner.push(counts.last()).drop_last() =~= inner);
        }
    }
}

// ---------------------------------------------------------------------------
// Slices
// ---------------------------------------------------------------------------

/// The numbers that sum a panoptic evaluation up.
#[derive(Clone, Copy, Debug, PartialEq, Eq, Structural)]
pub struct PanopticMetrics {
    pub pq: u64,
    pub sq: u64,
    pub rq: u64,
}

/// The row of a slice: all zeros where it has no images.
pub open spec fn is_slice_row(
    row: PanopticSliceRow,
    slice: SliceSpec,
    counts: Seq<(i64, u64)>,
    metrics: Option<PanopticMetrics>,
) -> bool {
    &&& row.axis@ == slice.axis@
    &&& row.value@ == slice.value@
    &&& row.n_images == slice.image_ids@.to_set().len()
    &&& row.n_detections == segments_in(counts, slice.image_ids@.to_set())
    &&& if slice.image_ids@.len() == 0 {
        row.pq == 0 && row.sq == 0 && row.rq == 0
    } else {
        metrics matches Some(m) && row.pq == m.pq && row.sq == m.sq && row.rq == m.rq
    }
}

/// The rows of slices, with what each was summed up to.
pub fn slice_rows(
    slices: &Vec<SliceSpec>,
    counts: &Vec<(i64, u64)>,
    metrics: &Vec<Option<PanopticMetrics>>,
) -> (rows: Vec<PanopticSliceRow>)
    requires
        slices_summed(slices@, metrics@),
        all_segments(counts@) <= u64::MAX,
    ensures
        rows@.len() == slices@.len(),
        forall|k: int|
            0 <= k < rows@.len() ==> is_slice_row(
                #[trigger] rows@[k],
                slices@[k],
                counts@,
                metrics@[k],
            ),
{
    let zero = PanopticMetrics { pq: 0, sq: 0, rq: 0 };
    let mut rows: Vec<PanopticSliceRow> = Vec::new();
    let mut k: usize = 0;
    while k < slices.len()
        invariant
            k <= slices.len(),
            slices_summed(slices@, metrics@),
            all_segments(counts@) <= u64::MAX,
            zero == (PanopticMetrics { pq: 0, sq: 0, rq: 0 }),
            rows@.len() == k,
            forall|j: int|
                0 <= j < k ==> is_slice_row(#[trigger] rows@[j], slices@[j], counts@, metrics@[j]),
        decreases slices.len() - k,
    {
        let slice = &slices[k];
        let m = match metrics[k] {
            Some(m) if slice.image_ids.len() > 0 => m,
            _ => zero,
        };
        let n_images: usize = slice_ids(&slice.image_ids).len();
        rows.push(
            PanopticSliceRow {
                axis: slice.axis.clone(),
                value: slice.value.clone(),
                n_images: n_images as u64,
                n_detections: num_segments_for(counts, &slice.image_ids),
                pq: m.pq,
                sq: m.sq,
                rq: m.rq,
            },
        );
        k += 1;
    }
    rows
}

/// Is a slice summed up? One without images is not: it gets a row of zeros.
pub fn slice_needs_summary(slice: &SliceSpec) -> (b: bool)
    ensures
        b == (slice.image_ids@.len() > 0),
{
    slice.image_ids.len() > 0
}

/// A slice without images has no segments.
pub proof fn law_empty_slice_is_zero(counts: Seq<(i64, u64)>)
    ensures
        segments_in(counts, Seq::<i64>::empty().to_set()) == 0,
        Seq::<i64>::empty().to_set().len() == 0,
    decreases counts.len(),
{
    assert(Seq::<i64>::empty().to_set() =~= Set::<i64>::empty());
    if counts.len() > 0 {
        law_empty_slice_is_zero(counts.drop_last());
    }
}

/// What a partitioned evaluation reports: the figures of the whole dataset,
/// and the row of each slice.
#[derive(Debug)]
pub struct PartitionedPanopticReport<S> {
    pub overall: S,
    pub overall_n_images: u64,
    pub overall_n_detections: u64,
    pub rows: Vec<PanopticSliceRow>,
}

/// The figures of the whole dataset: its summary, the number of its images
/// and the number of all predicted segments.
pub open spec fn overall_figures<S>(
    overall: S,
    image_ids: Seq<i64>,
    counts: Seq<(i64, u64)>,
) -> (S, nat, nat) {
    (overall, image_ids.len(), all_segments(counts))
}

impl<S> PartitionedPanopticReport<S> {
    /// The figures of the whole dataset that are reported.
    pub open spec fn figures(self) -> (S, nat, nat) {
        (self.overall, self.overall_n_images as nat, self.overall_n_detections as nat)
    }
}

/// A report is that of these slices.
pub open spec fn is_report<S>(
    r: PartitionedPanopticReport<S>,
    overall: S,
    image_ids: Seq<i64>,
    counts: Seq<(i64, u64)>,
    slices: Seq<SliceSpec>,
    metrics: Seq<Option<PanopticMetrics>>,
) -> bool {
    &&& r.figures() == overall_figures(overall, image_ids, counts)
    &&& r.rows@.len() == slices.len()
    &&& forall|k: int|
        0 <= k < r.rows@.len() ==> is_slice_row(
            #[trigger] r.rows@[k],
            slices[k],
            counts,
            metrics[k],
        )
}

/// Report a partitioned evaluation: the summary of the whole dataset as it
/// is, over the images and the segments of the whole dataset, and a row for
/// each slice.
pub fn partitioned_report<S>(
    overall: S,
    image_ids: &Vec<i64>,
    counts: &Vec<(i64, u64)>,
    slices: &Vec<SliceSpec>,
    metrics: &Vec<Option<PanopticMetrics>>,
) -> (r: PartitionedPanopticReport<S>)
    requires
        slices_summed(slices@, metrics@),
        all_segments(counts@) <= u64::MAX,
    ensures
        is_report(r, overall, image_ids@, counts@, slices@, metrics@),
{
    PartitionedPanopticReport {
        overall,
        overall_n_images: image_ids.len() as u64,
        overall_n_detections: num_segments(counts),
        rows: slice_rows(slices, counts, metrics),
    }
}

/// Whatever the manifest makes of a dataset, the figures of the whole are the
/// same: the summary of all images, their number, and the number of all
/// predicted segments.
pub proof fn law_overall_ignores_the_manifest<S>(
    a: PartitionedPanopticReport<S>,
    b: PartitionedPanopticReport<S>,
    overall: S,
    image_ids: Seq<i64>,
    counts: Seq<(i64, u64)>,
    slices: (Seq<SliceSpec>, Seq<SliceSpec>),
    metrics: (Seq<Option<PanopticMetrics>>, Seq<Option<PanopticMetrics>>),
)
    requires
        is_report(a, overall, image_ids, counts, slices.0, metrics.0),
        is_report(b, overall, image_ids, counts, slices.1, metrics.1),
    ensures
        a.overall == overall,
        b.overall == overall,
        a.overall_n_images == b.overall_n_images == image_ids.len(),
        a.overall_n_detections == b.overall_n_detections == all_segments(counts),
{
}

/// A short description of a partitioned evaluation.
pub fn partitioned_repr(overall_n_images: u64, overall_n_detections: u64, n_slices: usize) -> (s:
    String)
    ensures
        s@ == "PartitionedPanopticReport(overall_n_images="@ + nat_text(overall_n_images as nat)
            + ", overall_n_detections="@ + nat_text(overall_n_detections as nat) + ", n_slices="@
            + nat_text(n_slices as nat) + ")"@,
{
    let mut s = String::from_str("PartitionedPanopticReport(overall_n_images=");
    s.append(u64_text(overall_n_images).as_str());
    s.append(", overall_n_detections=");
    s.append(u64_text(overall_n_detections).as_str());
    s.append(", n_slices=");
    s.append(usize_text(n_slices).as_str());
    s.append(")");
    s
}

// ---------------------------------------------------------------------------
// Requests
// ---------------------------------------------------------------------------

/// The settings of a panoptic evaluator.
#[derive(Debug)]
pub struct PanopticSettings {
    pub mode: ParityMode,
    pub categories: HashMap<i64, bool>,
    pub boundary: Option<BoundaryConfig>,
}

/// The mathematical value of [`PanopticSettings`].
#[verifier::ext_equal]
pub struct SettingsView {
    pub mode: ParityMode,
    pub categories: Map<i64, bool>,
    pub boundary: Option<BoundaryConfig>,
}

impl View for PanopticSettings {
    type V = SettingsView;

    open spec fn view(&self) -> SettingsView {
        SettingsView { mode: self.mode, categories: self.categories@, boundary: self.boundary }
    }
}

/// The exception for categories that are no JSON.
pub open spec fn categories_raised(reason: Seq<char>) -> RaisedView {
    bare(ExceptionClass::ValueError, "panoptic JSON parse error: "@ + reason)
}

/// What checking the settings gives: the rule book first, then the
/// categories, then the outlines.
pub open spec fn panoptic_settings_outcome(
    parity_mode: Seq<char>,
    categories: Result<Vec<CategoryJson>, String>,
    boundary: bool,
    dilation_ratio: u64,
) -> Result<SettingsView, RefusalView> {
    match panoptic_parity_outcome(parity_mode) {
        Err(e) => Err(RefusalView::Argument(e)),
        Ok(mode) => match categories {
            Err(reason) => Err(RefusalView::Raised(categories_raised(reason@))),
            Ok(raw) => match boundary_outcome(boundary, dilation_ratio, mode) {
                Err(e) => Err(RefusalView::Argument(e)),
                Ok(cfg) => Ok(
                    SettingsView { mode, categories: categories_map(raw@), boundary: cfg },
                ),
            },
        },
    }
}

/// Check the settings of a panoptic evaluator.
pub fn panoptic_settings(
    parity_mode: &str,
    categories: Result<Vec<CategoryJson>, String>,
    boundary: bool,
    dilation_ratio: u64,
) -> (r: Result<PanopticSettings, Refusal>)
    ensures
        match r {
            Ok(s) => panoptic_settings_outcome(parity_mode@, categories, boundary, dilation_ratio)
                == Ok::<SettingsView, RefusalView>(s@),
            Err(e) => panoptic_settings_outcome(parity_mode@, categories, boundary, dilation_ratio)
                == Err::<SettingsView, RefusalView>(e@),
        },
{
    let mode = match parse_panoptic_parity_mode(parity_mode) {
        Err(e) => return Err(Refusal::Argument(e)),
        Ok(m) => m,
    };
    let categories = match parse_categories(categories) {
        Err(x) => return Err(Refusal::Raised(x)),
        Ok(m) => m,
    };
    match boundary_cfg_from_ffi(boundary, dilation_ratio, mode) {
        Err(e) => Err(Refusal::Argument(e)),
        Ok(boundary) => Ok(PanopticSettings { mode, categories, boundary }),
    }
}

/// What is said of partial results that are no byte strings.
pub const PARTIALS_REFUSED: &'static str = "merge_panoptic_partials expects a list of bytes objects";

/// Check a request to merge partial results: the settings first.
pub fn prepare_merge(
    parity_mode: &str,
    categories: Result<Vec<CategoryJson>, String>,
    boundary: bool,
    dilation_ratio: u64,
    partials: Vec<Option<Vec<u8>>>,
) -> (r: Result<(PanopticSettings, Vec<Vec<u8>>), Refusal>)
    ensures
        match panoptic_settings_outcome(parity_mode@, categories, boundary, dilation_ratio) {
            Err(e) => r matches Err(f) && f@ == e,
            Ok(settings) => match buffers_outcome(partials@, PARTIALS_REFUSED@) {
                Err(e) => r matches Err(f) && f@ == RefusalView::Argument(e),
                Ok(buffers) => r matches Ok(w) && w.0@ == settings && buffers_view(w.1@)
                    == buffers,
            },
        },
{
    let settings = match panoptic_settings(parity_mode, categories, boundary, dilation_ratio) {
        Err(e) => return Err(e),
        Ok(s) => s,
    };
    match byte_buffers(partials, PARTIALS_REFUSED) {
        Err(e) => Err(Refusal::Argument(e)),
        Ok(buffers) => Ok((settings, buffers)),
    }
}

/// What checking an entry of a list of images gives: `len` is the number of
/// its parts, where it is a tuple.
pub open spec fn image_tuple_outcome(len: Option<usize>) -> Result<(), FailureView> {
    match len {
        None => Err(
            value_error(
                "evaluate_panoptic_to_partial expects a list of 5-tuples (image_id, gt_label_map, gt_segments_info, dt_label_map, dt_segments_info)"@,
            ),
        ),
        Some(n) => if n == 5 {
            Ok(())
        } else {
            Err(
                value_error(
                    "evaluate_panoptic_to_partial expects 5-tuples; got "@ + nat_text(n as nat)
                        + "-tuple"@,
                ),
            )
        },
    }
}

/// Check an entry of a list of images.
pub fn check_image_tuple(len: Option<usize>) -> (r: Result<(), Failure>)
    ensures
        refused(r) == image_tuple_outcome(len),
{
    match len {
        None => Err(
            Failure::value_error(
                String::from_str(
                    "evaluate_panoptic_to_partial expects a list of 5-tuples (image_id, gt_label_map, gt_segments_info, dt_label_map, dt_segments_info)",
                ),
            ),
        ),
        Some(n) => {
            if n == 5 {
                Ok(())
            } else {
                let mut m = String::from_str("evaluate_panoptic_to_partial expects 5-tuples; got ");
                m.append(usize_text(n).as_str());
                m.append("-tuple");
                Err(Failure::value_error(m))
            }
        },
    }
}

/// An image of one request: its label map with the segments that a JSON
/// document describes.
pub fn build_image_entry(image_id: i64, map: LabelMap, parsed: Result<Vec<SegmentJson>, String>) -> (
    r: Result<PanopticImage, Raised>)
    ensures
        match r {
            Ok(image) => parsed is Ok && image@ == (ImageView {
                image_id,
                map: map@,
                segments: segments_of(parsed->Ok_0@),
            }),
            Err(x) => image_segments_outcome(parsed, image_id) == Err::<
                Seq<SegmentInfo>,
                RaisedView,
            >(x@),
        },
{
    match parse_segments_info(parsed, image_id) {
        Err(x) => Err(x),
        Ok(segments) => Ok(PanopticImage { image_id, map, segments }),
    }
}

/// An image pair that waits for the worker.
#[derive(Debug)]
pub enum PanopticUpdate<E> {
    /// Both sides are decoded.
    Decoded { image_id: i64, gt: E, dt: E },
    /// Both sides are PNG files, which the worker decodes.
    RawPng {
        image_id: i64,
        gt_bytes: Vec<u8>,
        gt_segments: Vec<SegmentInfo>,
        dt_bytes: Vec<u8>,
        dt_segments: Vec<SegmentInfo>,
    },
}

/// Check a request with decoded images: both sides, then how long to wait.
pub fn prepare_submit<E>(
    image_id: i64,
    gt: Result<E, Raised>,
    dt: Result<E, Raised>,
    timeout: Option<u64>,
) -> (r: Result<(PanopticUpdate<E>, Option<u64>), Refusal>)
    ensures
        match (gt, dt) {
            (Err(x), _) => r matches Err(e) && e@ == RefusalView::Raised(x@),
            (Ok(_), Err(x)) => r matches Err(e) && e@ == RefusalView::Raised(x@),
            (Ok(g), Ok(d)) => match submit_timeout_outcome(timeout) {
                Err(f) => r matches Err(e) && e@ == RefusalView::Argument(f),
                Ok(t) => r == Ok::<_, Refusal>(
                    (PanopticUpdate::Decoded { image_id, gt: g, dt: d }, t),
                ),
            },
        },
{
    let gt = match gt {
        Err(x) => return Err(Refusal::Raised(x)),
        Ok(g) => g,
    };
    let dt = match dt {
        Err(x) => return Err(Refusal::Raised(x)),
        Ok(d) => d,
    };
    match validate_submit_timeout(timeout) {
        Err(f) => Err(Refusal::Argument(f)),
        Ok(t) => Ok((PanopticUpdate::Decoded { image_id, gt, dt }, t)),
    }
}

/// A request with PNG files, checked.
#[derive(Debug)]
pub struct PngWork {
    pub timeout: Option<u64>,
    pub gt_segments: Vec<SegmentInfo>,
    pub dt_segments: Vec<SegmentInfo>,
    /// Does the worker decode the files? It does where it has a pool to
    /// decode them in.
    pub decode_in_worker: bool,
}

/// Check a request with PNG files: how long to wait, then the segments of
/// both sides.
pub fn prepare_png(
    image_id: i64,
    gt: Result<Vec<SegmentJson>, String>,
    dt: Result<Vec<SegmentJson>, String>,
    timeout: Option<u64>,
    num_threads: Option<usize>,
) -> (r: Result<PngWork, Refusal>)
    ensures
        match submit_timeout_outcome(timeout) {
            Err(f) => r matches Err(e) && e@ == RefusalView::Argument(f),
            Ok(t) => match image_segments_outcome(gt, image_id) {
                Err(x) => r matches Err(e) && e@ == RefusalView::Raised(x),
                Ok(g) => match image_segments_outcome(dt, image_id) {
                    Err(x) => r matches Err(e) && e@ == RefusalView::Raised(x),
                    Ok(d) => {
                        &&& r matches Ok(w)
                        &&& w.timeout == t
                        &&& w.gt_segments@ == g
                        &&& w.dt_segments@ == d
                        &&& w.decode_in_worker == (num_threads is Some)
                    },
                },
            },
        },
{
    let timeout = match validate_submit_timeout(timeout) {
        Err(f) => return Err(Refusal::Argument(f)),
        Ok(t) => t,
    };
    let gt_segments = match parse_segments_info(gt, image_id) {
        Err(x) => return Err(Refusal::Raised(x)),
        Ok(g) => g,
    };
    let dt_segments = match parse_segments_info(dt, image_id) {
        Err(x) => return Err(Refusal::Raised(x)),
        Ok(d) => d,
    };
    Ok(PngWork { timeout, gt_segments, dt_segments, decode_in_worker: num_threads.is_some() })
}

// ---------------------------------------------------------------------------
// Results
// ---------------------------------------------------------------------------

/// The results of a class.
#[derive(Clone, Copy, Debug, PartialEq, Eq, Structural)]
pub struct ClassPanopticStats {
    pub pq: u64,
    pub sq: u64,
    pub rq: u64,
    pub n_tp: u64,
    pub n_fp: u64,
    pub n_fn: u64,
}

/// What a panoptic evaluation sums up to. Things and stuff are there where
/// they were told apart.
#[derive(Debug)]
pub struct PanopticSummary {
    pub pq: u64,
    pub sq: u64,
    pub rq: u64,
    pub n: usize,
    pub pq_things: Option<u64>,
    pub sq_things: Option<u64>,
    pub rq_things: Option<u64>,
    pub n_things: Option<usize>,
    pub pq_stuff: Option<u64>,
    pub sq_stuff: Option<u64>,
    pub rq_stuff: Option<u64>,
    pub n_stuff: Option<usize>,
    pub per_class: Vec<(i64, ClassPanopticStats)>,
}

/// The numbers of one group of classes.
#[derive(Clone, Copy, Debug, PartialEq, Eq, Structural)]
pub struct SummaryBucket {
    pub pq: u64,
    pub sq: u64,
    pub rq: u64,
    pub n: usize,
}

/// The numbers of one class; how often it was found, missed or made up only
/// where they are wanted.
#[derive(Clone, Copy, Debug, PartialEq, Eq, Structural)]
pub struct ClassBucket {
    pub pq: u64,
    pub sq: u64,
    pub rq: u64,
    pub n_tp: Option<u64>,
    pub n_fp: Option<u64>,
    pub n_fn: Option<u64>,
}

/// A summary as a dict: `All`, `Things`, `Stuff` and `per_class`.
#[derive(Debug)]
pub struct SummaryDict {
    pub all: SummaryBucket,
    pub things: Option<SummaryBucket>,
    pub stuff: Option<SummaryBucket>,
    pub per_class: Vec<(i64, ClassBucket)>,
}

/// A group is there where all of its numbers are.
pub open spec fn bucket_of(
    pq: Option<u64>,
    sq: Option<u64>,
    rq: Option<u64>,
    n: Option<usize>,
) -> Option<SummaryBucket> {
    if pq is Some && sq is Some && rq is Some && n is Some {
        Some(SummaryBucket { pq: pq->0, sq: sq->0, rq: rq->0, n: n->0 })
    } else {
        None
    }
}

/// A class as an entry of the dict.
pub open spec fn class_entry(row: (i64, ClassPanopticStats), strict: bool) -> (i64, ClassBucket) {
    (
        row.0,
        ClassBucket {
            pq: row.1.pq,
            sq: row.1.sq,
            rq: row.1.rq,
            n_tp: if strict {
                None
            } else {
                Some(row.1.n_tp)
            },
            n_fp: if strict {
                None
            } else {
                Some(row.1.n_fp)
            },
            n_fn: if strict {
                None
            } else {
                Some(row.1.n_fn)
            },
        },
    )
}

/// Classes as entries of the dict.
pub open spec fn class_entries(rows: Seq<(i64, ClassPanopticStats)>, strict: bool) -> Seq<
    (i64, ClassBucket),
> {
    Seq::new(rows.len(), |i: int| class_entry(rows[i], strict))
}

fn optional_bucket(pq: Option<u64>, sq: Option<u64>, rq: Option<u64>, n: Option<usize>) -> (b:
    Option<SummaryBucket>)
    ensures
        b == bucket_of(pq, sq, rq, n),
{
    match (pq, sq, rq, n) {
        (Some(pq), Some(sq), Some(rq), Some(n)) => Some(SummaryBucket { pq, sq, rq, n }),
        _ => None,
    }
}

impl PanopticSummary {
    /// The summary as a dict. A strict dict leaves out how often each class
    /// was found, missed or made up.
    pub fn to_dict(&self, strict: bool) -> (d: SummaryDict)
        ensures
            d.all == (SummaryBucket { pq: self.pq, sq: self.sq, rq: self.rq, n: self.n }),
            d.things == bucket_of(self.pq_things, self.sq_things, self.rq_things, self.n_things),
            d.stuff == bucket_of(self.pq_stuff, self.sq_stuff, self.rq_stuff, self.n_stuff),
            d.per_class@ == class_entries(self.per_class@, strict),
    {
        let mut per_class: Vec<(i64, ClassBucket)> = Vec::new();
        let mut i: usize = 0;
        while i < self.per_class.len()
            invariant
                i <= self.per_class.len(),
                per_class@.len() == i,
                forall|j: int|
                    0 <= j < i ==> #[trigger] per_class@[j] == class_entry(
                        self.per_class@[j],
                        strict,
                    ),
            decreases self.per_class.len() - i,
        {
            let (category, row) = self.per_class[i];
            let (n_tp, n_fp, n_fn) = if strict {
                (None, None, None)
            } else {
                (Some(row.n_tp), Some(row.n_fp), Some(row.n_fn))
            };
            per_class.push(
                (category, ClassBucket { pq: row.pq, sq: row.sq, rq: row.rq, n_tp, n_fp, n_fn }),
            );
            i += 1;
        }
        assert(per_class@ =~= class_entries(self.per_class@, strict));
        SummaryDict {
            all: SummaryBucket { pq: self.pq, sq: self.sq, rq: self.rq, n: self.n },
            things: optional_bucket(self.pq_things, self.sq_things, self.rq_things, self.n_things),
            stuff: optional_bucket(self.pq_stuff, self.sq_stuff, self.rq_stuff, self.n_stuff),
            per_class,
        }
    }
}

/// A strict dict has the classes and the numbers of the other one, and
/// differs from it only in what it leaves out.
pub proof fn law_strict_dict_agrees(rows: Seq<(i64, ClassPanopticStats)>, i: int)
    requires
        0 <= i < rows.len(),
    ensures
        class_entries(rows, true).len() == class_entries(rows, false).len(),
        class_entries(rows, true)[i].0 == class_entries(rows, false)[i].0,
        class_entries(rows, true)[i].1 == (ClassBucket {
            n_tp: None,
            n_fp: None,
            n_fn: None,
            ..class_entries(rows, false)[i].1
        }),
{
}

/// A short description of a dataset.
pub fn dataset_repr(images: usize, categories: usize) -> (s: String)
    ensures
        s@ == "PanopticDataset(images="@ + nat_text(images as nat) + ", categories="@ + nat_text(
            categories as nat,
        ) + ")"@,
{
    let mut s = String::from_str("PanopticDataset(images=");
    s.append(usize_text(images).as_str());
    s.append(", categories=");
    s.append(usize_text(categories).as_str());
    s.append(")");
    s
}

/// A short description of predictions.
pub fn predictions_repr(images: usize) -> (s: String)
    ensures
        s@ == "PanopticPredictions(images="@ + nat_text(images as nat) + ")"@,
{
    let mut s = String::from_str("PanopticPredictions(images=");
    s.append(usize_text(images).as_str());
    s.append(")");
    s
}

/// A short description of a background evaluator.
pub fn background_repr(n_categories: usize) -> (s: String)
    ensures
        s@ == "BackgroundPanopticEvaluator(n_categories="@ + nat_text(n_categories as nat) + ")"@,
{
    let mut s = String::from_str("BackgroundPanopticEvaluator(n_categories=");
    s.append(usize_text(n_categories).as_str());
    s.append(")");
    s
}

// ---------------------------------------------------------------------------
// What reading and reporting are for
// ---------------------------------------------------------------------------

/// Every segment is read with all of its fields: its id, the category that it
/// belongs to, its area, and whether it is a crowd.
pub proof fn law_segments_are_kept(raw: Seq<SegmentJson>, out: Seq<SegmentInfo>)
    requires
        out == segments_of(raw),
    ensures
        out.len() == raw.len(),
        forall|i: int|
            0 <= i < out.len() ==> {
                &&& (#[trigger] out[i]).id == raw[i].id
                &&& out[i].category_id == raw[i].category_id
                &&& out[i].area == raw[i].area
                &&& out[i].iscrowd <==> (raw[i].iscrowd == JsonFlag::Bool(true) || (
                raw[i].iscrowd matches JsonFlag::Integer(n) && n != 0))
            },
{
}

/// A document with the segments of an image is taken exactly where it could
/// be parsed.
pub proof fn law_parsed_segments_are_taken(
    parsed: Result<Vec<SegmentJson>, String>,
    image_id: i64,
    out: Seq<SegmentInfo>,
)
    requires
        image_segments_outcome(parsed, image_id) == Ok::<Seq<SegmentInfo>, RaisedView>(out),
    ensures
        parsed matches Ok(raw) && out.len() == raw@.len() && forall|i: int|
            0 <= i < out.len() ==> {
                &&& (#[trigger] out[i]).id == raw@[i].id
                &&& out[i].category_id == raw@[i].category_id
                &&& out[i].area == raw@[i].area
                &&& out[i].iscrowd <==> (raw@[i].iscrowd == JsonFlag::Bool(true) || (
                raw@[i].iscrowd matches JsonFlag::Integer(n) && n != 0))
            },
{
}

/// An image id that is written in decimal is read back as that id, with a
/// plus sign before it or without.
pub proof fn law_image_id_reads_back(n: i64)
    ensures
        parsed_i64(int_text(n as int)) == Some(n),
        n >= 0 ==> parsed_i64("+"@ + int_text(n as int)) == Some(n),
{
    reveal_strlit("-");
    reveal_strlit("+");
    let t = int_text(n as int);
    if n < 0 {
        lemma_nat_text_value((-n) as nat);
        assert(t.skip(1) =~= nat_text((-n) as nat));
    } else {
        lemma_nat_text_value(n as nat);
        let plus = "+"@ + t;
        assert(is_digit(t[0]));
        assert(plus.skip(1) =~= t);
    }
}

/// The segments of a dict are those of its entries, in order and each under
/// the image id that its key writes.
pub proof fn law_segments_stay_with_their_image(
    entries: Seq<SegmentsEntry>,
    out: Seq<(i64, Vec<SegmentInfo>)>,
)
    requires
        collected(segments_reader(entries), entries.len()) == Ok::<
            Seq<(i64, Seq<SegmentInfo>)>,
            FailureView,
        >(segments_view(out)),
    ensures
        out.len() == entries.len(),
        forall|i: int|
            0 <= i < out.len() ==> {
                &&& parsed_i64(entries[i].key@) == Some((#[trigger] out[i]).0)
                &&& out[i].1@.len() == entries[i].segments@.len()
            },
        forall|i: int, k: int|
            0 <= i < out.len() && 0 <= k < out[i].1@.len() ==> {
                let s = #[trigger] out[i].1@[k];
                let raw = entries[i].segments@[k];
                &&& s.id == raw.id
                &&& s.category_id == raw.category_id
                &&& s.area == raw.area
                &&& s.iscrowd <==> (raw.iscrowd == JsonFlag::Bool(true) || (
                raw.iscrowd matches JsonFlag::Integer(n) && n != 0))
            },
{
    let f = segments_reader(entries);
    let read = segments_view(out);
    lemma_collected_items(f, entries.len());
    assert(read.len() == out.len());
    assert forall|i: int| 0 <= i < out.len() implies parsed_i64(entries[i].key@) == Some(
        (#[trigger] out[i]).0,
    ) && out[i].1@ == segments_of(entries[i].segments@) by {
        assert(f(i) == Ok::<(i64, Seq<SegmentInfo>), FailureView>(read[i]));
        assert(read[i] == (out[i].0, out[i].1@));
    }
}

/// A category is known exactly where an entry names it, and it is a thing
/// exactly where the last entry that names it says so.
pub proof fn law_categories_are_kept(raw: Seq<CategoryJson>, id: i64, i: int)
    ensures
        categories_map(raw).dom().contains(id) ==> exists|k: int|
            0 <= k < raw.len() && (#[trigger] raw[k]).id == id,
        0 <= i < raw.len() && raw[i].id == id ==> categories_map(raw).dom().contains(id),
        0 <= i < raw.len() && raw[i].id == id && (forall|k: int|
            i < k < raw.len() ==> (#[trigger] raw[k]).id != id) ==> (categories_map(raw)[id] <==> (
        raw[i].isthing == JsonFlag::Bool(true) || (raw[i].isthing matches JsonFlag::Integer(n) && n
            != 0))),
    decreases raw.len(),
{
    if raw.len() > 0 {
        let rest = raw.drop_last();
        law_categories_are_kept(rest, id, i);
        assert(raw[raw.len() - 1] == raw.last());
        if categories_map(rest).dom().contains(id) {
            let k = choose|k: int| 0 <= k < rest.len() && (#[trigger] rest[k]).id == id;
            assert(raw[k].id == id);
        }
        if 0 <= i < rest.len() && raw[i].id == id && (forall|k: int|
            i < k < raw.len() ==> (#[trigger] raw[k]).id != id) {
            assert(raw[raw.len() - 1].id != id);
            assert forall|k: int| i < k < rest.len() implies (#[trigger] rest[k]).id != id by {
                assert(raw[k].id != id);
            }
        }
    }
}

/// A known category that is named among the things is a thing, and one that
/// is named among the stuff alone is none.
pub proof fn law_partition_moves_what_is_named(
    categories: Map<i64, bool>,
    stuff: Seq<u32>,
    things: Seq<u32>,
    k: int,
)
    ensures
        0 <= k < things.len() && categories.dom().contains(things[k] as i64) ==> repartitioned(
            categories,
            stuff,
            things,
        )[things[k] as i64],
        0 <= k < stuff.len() && categories.dom().contains(stuff[k] as i64) && (forall|j: int|
            0 <= j < things.len() ==> #[trigger] things[j] != stuff[k]) ==> !repartitioned(
            categories,
            stuff,
            things,
        )[stuff[k] as i64],
{
}

/// The label map of an image is that of the last entry under its id.
pub proof fn law_label_maps_stay_with_their_image(maps: Seq<(i64, LabelMapView)>, id: i64, i: int)
    ensures
        map_of(maps).dom().contains(id) ==> exists|k: int|
            0 <= k < maps.len() && (#[trigger] maps[k]).0 == id,
        0 <= i < maps.len() && maps[i].0 == id ==> map_of(maps).dom().contains(id),
        0 <= i < maps.len() && maps[i].0 == id && (forall|k: int|
            i < k < maps.len() ==> (#[trigger] maps[k]).0 != id) ==> map_of(maps)[id] == maps[i].1,
    decreases maps.len(),
{
    if maps.len() > 0 {
        let rest = maps.drop_last();
        law_label_maps_stay_with_their_image(rest, id, i);
        assert(maps[maps.len() - 1] == maps.last());
        if map_of(rest).dom().contains(id) {
            let k = choose|k: int| 0 <= k < rest.len() && (#[trigger] rest[k]).0 == id;
            assert(maps[k].0 == id);
        }
        if 0 <= i < rest.len() && maps[i].0 == id && (forall|k: int|
            i < k < maps.len() ==> (#[trigger] maps[k]).0 != id) {
            assert(maps[maps.len() - 1].0 != id);
            assert forall|k: int| i < k < rest.len() implies (#[trigger] rest[k]).0 != id by {
                assert(maps[k].0 != id);
            }
        }
    }
}

/// An image that is joined has its own label map and the segments of the
/// first entry under its id, which is given back.
pub proof fn law_joined_images_are_whole(
    segs: Seq<(i64, Seq<SegmentInfo>)>,
    maps: Map<i64, LabelMapView>,
    n: nat,
    k: int,
) -> (i: int)
    requires
        n <= segs.len(),
        0 <= k < joined_images(segs, maps, n).len(),
    ensures
        0 <= i < n,
        joined_images(segs, maps, n)[k].image_id == segs[i].0,
        joined_images(segs, maps, n)[k].segments == segs[i].1,
        joined_images(segs, maps, n)[k].map == maps[segs[i].0],
        forall|j: int| 0 <= j < i ==> (#[trigger] segs[j]).0 != segs[i].0,
    decreases n,
{
    let before = joined_images(segs, maps, (n - 1) as nat);
    if k < before.len() {
        law_joined_images_are_whole(segs, maps, (n - 1) as nat, k)
    } else {
        assert(!entry_repeats(segs, n - 1));
        assert forall|j: int| 0 <= j < n - 1 implies (#[trigger] segs[j]).0 != segs[n - 1].0 by {
            if segs[j].0 == segs[n - 1].0 {
                assert(entry_repeats(segs, n - 1));
            }
        }
        n - 1
    }
}

/// No image is joined twice.
pub proof fn law_joined_images_are_distinct(
    segs: Seq<(i64, Seq<SegmentInfo>)>,
    maps: Map<i64, LabelMapView>,
    n: nat,
    a: int,
    b: int,
)
    requires
        n <= segs.len(),
        0 <= a < b < joined_images(segs, maps, n).len(),
    ensures
        joined_images(segs, maps, n)[a].image_id != joined_images(segs, maps, n)[b].image_id,
    decreases n,
{
    let before = joined_images(segs, maps, (n - 1) as nat);
    if b < before.len() {
        law_joined_images_are_distinct(segs, maps, (n - 1) as nat, a, b);
    } else {
        let i = law_joined_images_are_whole(segs, maps, (n - 1) as nat, a);
        if segs[i].0 == segs[n - 1].0 {
            assert(entry_repeats(segs, n - 1));
        }
    }
}

/// Every entry has its image among those that are joined; its place is given
/// back.
pub proof fn law_no_entry_is_left_out(
    segs: Seq<(i64, Seq<SegmentInfo>)>,
    maps: Map<i64, LabelMapView>,
    n: nat,
    i: int,
) -> (k: int)
    requires
        n <= segs.len(),
        0 <= i < n,
    ensures
        0 <= k < joined_images(segs, maps, n).len(),
        joined_images(segs, maps, n)[k].image_id == segs[i].0,
    decreases n,
{
    let before = joined_images(segs, maps, (n - 1) as nat);
    if i < n - 1 {
        law_no_entry_is_left_out(segs, maps, (n - 1) as nat, i)
    } else if entry_repeats(segs, n - 1) {
        let e = choose|e: int| 0 <= e < n - 1 && #[trigger] segs[e].0 == segs[n - 1].0;
        law_no_entry_is_left_out(segs, maps, (n - 1) as nat, e)
    } else {
        before.len() as int
    }
}

/// Exactly the images that are named are kept.
pub proof fn law_named_images_are_kept<T>(images: Seq<(i64, T)>, ids: Set<i64>, p: (i64, T))
    ensures
        subset_of(images, ids).contains(p) <==> images.contains(p) && ids.contains(p.0),
    decreases images.len(),
{
    reveal(Seq::filter);
    if images.len() > 0 {
        let rest = images.drop_last();
        law_named_images_are_kept(rest, ids, p);
        let inner = subset_of(rest, ids);
        let all = subset_of(images, ids);
        if images.contains(p) {
            let i = choose|i: int| 0 <= i < images.len() && images[i] == p;
            if i < rest.len() {
                assert(rest[i] == p);
            }
        }
        if rest.contains(p) {
            let i = choose|i: int| 0 <= i < rest.len() && rest[i] == p;
            assert(images[i] == p);
        }
        assert(images[images.len() - 1] == images.last());
        if ids.contains(images.last().0) {
            assert(all == inner.push(images.last()));
            assert(all[inner.len() as int] == images.last());
            if inner.contains(p) {
                let i = choose|i: int| 0 <= i < inner.len() && inner[i] == p;
                assert(all[i] == p);
            }
            if all.contains(p) {
                let i = choose|i: int| 0 <= i < all.len() && all[i] == p;
                if i < inner.len() {
                    assert(inner[i] == p);
                }
            }
        }
    }
}

/// The segments of two sets of images without a common one add up, and those
/// of no image are none.
pub proof fn law_segments_add_up(counts: Seq<(i64, u64)>, a: Set<i64>, b: Set<i64>)
    requires
        a.disjoint(b),
    ensures
        segments_in(counts, a.union(b)) == segments_in(counts, a) + segments_in(counts, b),
        segments_in(counts, Set::empty()) == 0,
    decreases counts.len(),
{
    if counts.len() > 0 {
        law_segments_add_up(counts.drop_last(), a, b);
    }
}

/// Where an image has one entry, its segments are those of that entry.
pub proof fn law_an_image_has_its_own_segments(counts: Seq<(i64, u64)>, i: int, ids: Set<i64>)
    requires
        0 <= i < counts.len(),
        forall|k: int|
            0 <= k < counts.len() && ids.contains((#[trigger] counts[k]).0) ==> k == i,
    ensures
        segments_in(counts, ids) == if ids.contains(counts[i].0) {
            counts[i].1 as nat
        } else {
            0
        },
    decreases counts.len(),
{
    let rest = counts.drop_last();
    assert(counts[counts.len() - 1] == counts.last());
    if i < rest.len() {
        assert forall|k: int| 0 <= k < rest.len() && ids.contains(
            (#[trigger] rest[k]).0,
        ) implies k == i by {
            assert(counts[k] == rest[k]);
        }
        law_an_image_has_its_own_segments(rest, i, ids);
        if ids.contains(counts.last().0) {
            assert(counts.len() - 1 == i);
        }
    } else {
        assert forall|k: int| 0 <= k < rest.len() implies !ids.contains((#[trigger] rest[k]).0) by {
            assert(counts[k] == rest[k]);
        }
        lemma_no_segments(rest, ids);
    }
}

proof fn lemma_no_segments(counts: Seq<(i64, u64)>, ids: Set<i64>)
    requires
        forall|k: int| 0 <= k < counts.len() ==> !ids.contains((#[trigger] counts[k]).0),
    ensures
        segments_in(counts, ids) == 0,
    decreases counts.len(),
{
    if counts.len() > 0 {
        let rest = counts.drop_last();
        assert forall|k: int| 0 <= k < rest.len() implies !ids.contains((#[trigger] rest[k]).0) by {
            assert(counts[k] == rest[k]);
        }
        lemma_no_segments(rest, ids);
        assert(counts[counts.len() - 1] == counts.last());
    }
}

/// The row of a slice is about that slice: its axis and value, its images,
/// the segments of those images, and the numbers that they were summed up to.
pub proof fn law_slice_row_is_about_its_slice(
    row: PanopticSliceRow,
    slice: SliceSpec,
    counts: Seq<(i64, u64)>,
    metrics: Option<PanopticMetrics>,
)
    requires
        is_slice_row(row, slice, counts, metrics),
    ensures
        row.axis@ == slice.axis@,
        row.value@ == slice.value@,
        row.n_images == slice.image_ids@.to_set().len(),
        row.n_detections == segments_in(counts, slice.image_ids@.to_set()),
        slice.image_ids@.len() > 0 ==> (metrics matches Some(m) && row.pq == m.pq && row.sq == m.sq
            && row.rq == m.rq),
        slice.image_ids@.len() == 0 ==> row.pq == 0 && row.sq == 0 && row.rq == 0,
{
}

/// A rule book is followed exactly where its own word is given.
pub proof fn law_panoptic_parity_words(s: Seq<char>)
    ensures
        (panoptic_parity_outcome(s) matches Ok(m) && m is Strict) <==> s == "strict"@,
        (panoptic_parity_outcome(s) matches Ok(m) && m is Corrected) <==> s == "corrected"@,
        panoptic_parity_outcome(s) is Err <==> s != "strict"@ && s != "corrected"@,
{
    reveal_strlit("strict");
    reveal_strlit("corrected");
    assert("strict"@.len() != "corrected"@.len());
}

/// Outlines are compared exactly where that is asked for, in a band of the
/// width that was given and under the same rule book.
pub proof fn law_outlines_are_as_asked(boundary: bool, ratio: u64, mode: ParityMode)
    ensures
        boundary_outcome(boundary, ratio, mode) is Err <==> boundary && (!is_finite(ratio) || scaled(
            ratio,
        ) <= 0),
        boundary_outcome(boundary, ratio, mode) matches Ok(c) ==> (c is Some <==> boundary),
        boundary_outcome(boundary, ratio, mode) matches Ok(Some(c)) ==> c.dilation_ratio == ratio
            && c.parity_mode == mode,
{
}

/// A request is the one that was asked for: every argument is found again in
/// it, at its own place.
pub proof fn law_request_is_the_one_asked_for(
    parity_mode: Seq<char>,
    split: bool,
    options: PanopticOptions,
    boundary: bool,
    ratio: u64,
    r: PanopticRequest,
)
    requires
        request_outcome(parity_mode, split, options, boundary, ratio) == Ok::<
            PanopticRequest,
            FailureView,
        >(r),
    ensures
        r.mode is Strict <==> parity_mode == "strict"@,
        r.mode is Corrected <==> parity_mode == "corrected"@,
        r.things_stuff_split == split,
        r.options == options,
        r.boundary is Some <==> boundary,
        r.boundary matches Some(c) ==> c.dilation_ratio == ratio && c.parity_mode == r.mode,
{
    law_panoptic_parity_words(parity_mode);
}

/// A request without options has none.
pub proof fn law_no_options_are_none()
    ensures
        no_options().pq_iou_threshold is None,
        no_options().category_filter is None,
        no_options().class_grouping is None,
        no_options().stuff_thing_partition is None,
{
}

/// Settings are those that were asked for.
pub proof fn law_panoptic_settings_are_those_asked_for(
    parity_mode: Seq<char>,
    categories: Result<Vec<CategoryJson>, String>,
    boundary: bool,
    ratio: u64,
    s: PanopticSettings,
)
    requires
        panoptic_settings_outcome(parity_mode, categories, boundary, ratio) == Ok::<
            SettingsView,
            RefusalView,
        >(s@),
    ensures
        s.mode is Strict <==> parity_mode == "strict"@,
        s.mode is Corrected <==> parity_mode == "corrected"@,
        categories matches Ok(raw) && s.categories@ == categories_map(raw@),
        s.boundary is Some <==> boundary,
        s.boundary matches Some(c) ==> c.dilation_ratio == ratio && c.parity_mode == s.mode,
{
    law_panoptic_parity_words(parity_mode);
}

/// An entry of a list of images is taken exactly where it has five parts.
pub proof fn law_images_have_five_parts(len: Option<usize>)
    ensures
        image_tuple_outcome(len) is Ok <==> len == Some(5usize),
{
}

/// Each side goes by its own name.
pub proof fn law_sides_have_their_names(side: Side)
    ensures
        side is GroundTruth <==> side.name() == "gt"@,
        side is Prediction <==> side.name() == "dt"@,
{
    reveal_strlit("gt");
    reveal_strlit("dt");
    assert("gt"@[0] != "dt"@[0]);
}

/// A dict holds the numbers of the summary, each under its own name: those of
/// all classes, of things, of stuff, and of each class in order.
pub proof fn law_dict_holds_the_summary(s: PanopticSummary, strict: bool, d: SummaryDict)
    requires
        d.things == bucket_of(s.pq_things, s.sq_things, s.rq_things, s.n_things),
        d.stuff == bucket_of(s.pq_stuff, s.sq_stuff, s.rq_stuff, s.n_stuff),
        d.per_class@ == class_entries(s.per_class@, strict),
    ensures
        d.things matches Some(b) ==> s.pq_things == Some(b.pq) && s.sq_things == Some(b.sq)
            && s.rq_things == Some(b.rq) && s.n_things == Some(b.n),
        d.things is None ==> s.pq_things is None || s.sq_things is None || s.rq_things is None
            || s.n_things is None,
        d.stuff matches Some(b) ==> s.pq_stuff == Some(b.pq) && s.sq_stuff == Some(b.sq)
            && s.rq_stuff == Some(b.rq) && s.n_stuff == Some(b.n),
        d.stuff is None ==> s.pq_stuff is None || s.sq_stuff is None || s.rq_stuff is None
            || s.n_stuff is None,
        d.per_class@.len() == s.per_class@.len(),
        forall|i: int|
            0 <= i < d.per_class@.len() ==> {
                let entry = #[trigger] d.per_class@[i];
                let row = s.per_class@[i];
                &&& entry.0 == row.0
                &&& entry.1.pq == row.1.pq
                &&& entry.1.sq == row.1.sq
                &&& entry.1.rq == row.1.rq
                &&& entry.1.n_tp == (if strict {
                    None
                } else {
                    Some(row.1.n_tp)
                })
                &&& entry.1.n_fp == (if strict {
                    None
                } else {
                    Some(row.1.n_fp)
                })
                &&& entry.1.n_fn == (if strict {
                    None
                } else {
                    Some(row.1.n_fn)
                })
            },
{
}

/// A fault of a partial result is raised as such, and every other one as a
/// wrong value.
pub proof fn law_faults_are_wrong_values(f: PanopticFault)
    ensures
        !(f is Partial) ==> fault_raised(f).class is ValueError,
        f matches PanopticFault::Partial { error, text } ==> fault_raised(f) == partial_raised(
            error,
            text@,
        ),
{
}

/// The entry that a missing label map is told of is the first whose image has
/// none, and there is one such entry only.
pub proof fn law_first_missing_map_is_told(
    segs: Seq<(i64, Seq<SegmentInfo>)>,
    maps: Map<i64, LabelMapView>,
    i: int,
    j: int,
)
    requires
        first_without_map(segs, maps, i),
    ensures
        0 <= i < segs.len(),
        !maps.dom().contains(segs[i].0),
        0 <= j < i ==> maps.dom().contains(segs[j].0),
        first_without_map(segs, maps, j) ==> i == j,
{
    if first_without_map(segs, maps, j) {
        if j < i {
            assert(maps.dom().contains(segs[j].0));
        }
        if i < j {
            assert(maps.dom().contains(segs[i].0));
        }
    }
}

} // verus!
