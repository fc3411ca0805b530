//! Detections, segmentations and the objects they are read from.
//!
//! A float64 is its bit pattern throughout.

use crate::failure::Failure;
use vstd::prelude::*;

verus! {

/// A box as its corner and its extent.
#[derive(Clone, Copy, Debug, PartialEq, Eq, Structural)]
pub struct Bbox {
    pub x: u64,
    pub y: u64,
    pub w: u64,
    pub h: u64,
}

/// The run lengths of a mask.
#[derive(Debug)]
pub enum RleCounts {
    /// The COCO 6-bit string.
    Compressed(String),
    /// Plain run lengths.
    Uncompressed(Vec<u32>),
}

/// The mathematical value of [`RleCounts`].
#[verifier::ext_equal]
pub enum RleCountsView {
    Compressed(Seq<char>),
    Uncompressed(Seq<u32>),
}

impl View for RleCounts {
    type V = RleCountsView;

    open spec fn view(&self) -> RleCountsView {
        match self {
            RleCounts::Compressed(s) => RleCountsView::Compressed(s@),
            RleCounts::Uncompressed(v) => RleCountsView::Uncompressed(v@),
        }
    }
}

/// A run-length encoded mask.
#[derive(Debug)]
pub struct SegmentationRle {
    pub h: u32,
    pub w: u32,
    pub counts: RleCounts,
}

/// A segmentation.
#[derive(Debug)]
pub enum Segmentation {
    Rle(SegmentationRle),
    /// Rings of flat coordinates.
    Polygons(Vec<Vec<u64>>),
}

/// The mathematical value of a [`Segmentation`].
#[verifier::ext_equal]
pub enum SegmentationView {
    Rle { h: u32, w: u32, counts: RleCountsView },
    Polygons(Seq<Seq<u64>>),
}

impl View for SegmentationRle {
    type V = SegmentationView;

    open spec fn view(&self) -> SegmentationView {
        SegmentationView::Rle { h: self.h, w: self.w, counts: self.counts@ }
    }
}

impl View for Segmentation {
    type V = SegmentationView;

    open spec fn view(&self) -> SegmentationView {
        match self {
            Segmentation::Rle(rle) => rle@,
            Segmentation::Polygons(rings) => SegmentationView::Polygons(
                rings@.map_values(|r: Vec<u64>| r@),
            ),
        }
    }
}

/// An optional vector by its contents.
pub open spec fn opt_seq<T>(v: Option<Vec<T>>) -> Option<Seq<T>> {
    match v {
        Some(v) => Some(v@),
        None => None,
    }
}

/// An optional string by its contents.
pub open spec fn opt_text(v: Option<String>) -> Option<Seq<char>> {
    match v {
        Some(v) => Some(v@),
        None => None,
    }
}

/// An optional segmentation by its mathematical value.
pub open spec fn opt_segmentation(v: Option<Segmentation>) -> Option<SegmentationView> {
    match v {
        Some(v) => Some(v@),
        None => None,
    }
}

/// One detection, as the evaluator takes it.
#[derive(Debug)]
pub struct DetectionInput {
    pub id: Option<i64>,
    pub image_id: i64,
    pub category_id: i64,
    pub score: u64,
    pub bbox: Bbox,
    pub area: Option<u64>,
    pub segmentation: Option<Segmentation>,
    pub keypoints: Option<Vec<u64>>,
    pub num_keypoints: Option<u32>,
}

/// The mathematical value of a [`DetectionInput`].
#[verifier::ext_equal]
pub struct DetectionView {
    pub id: Option<i64>,
    pub image_id: i64,
    pub category_id: i64,
    pub score: u64,
    pub bbox: Bbox,
    pub area: Option<u64>,
    pub segmentation: Option<SegmentationView>,
    pub keypoints: Option<Seq<u64>>,
    pub num_keypoints: Option<u32>,
}

impl View for DetectionInput {
    type V = DetectionView;

    open spec fn view(&self) -> DetectionView {
        DetectionView {
            id: self.id,
            image_id: self.image_id,
            category_id: self.category_id,
            score: self.score,
            bbox: self.bbox,
            area: self.area,
            segmentation: opt_segmentation(self.segmentation),
            keypoints: opt_seq(self.keypoints),
            num_keypoints: self.num_keypoints,
        }
    }
}

/// A list of detections by its mathematical value.
pub open spec fn detections_view(v: Seq<DetectionInput>) -> Seq<DetectionView> {
    v.map_values(|d: DetectionInput| d@)
}

/// A value found under a key: whether it is `None`, and what came of
/// reading it as a `T`.
#[derive(Debug)]
pub struct Held<T, E> {
    pub is_none: bool,
    pub read: Result<T, E>,
}

/// The `counts` of an RLE dict.
#[derive(Debug)]
pub struct CountsObject {
    pub kind: CountsKind,
    /// What came of reading it as a uint32 array.
    pub array: Result<Vec<u32>, Failure>,
}

/// What kind of object the `counts` of an RLE dict is.
#[derive(Debug)]
pub enum CountsKind {
    /// A `bytes` object: its text, where it is UTF-8.
    Bytes(Option<String>),
    /// A `str`.
    Text(String),
    /// A `bytearray` or a `memoryview`: the name of its type.
    Buffer(String),
    /// A `list` or a `tuple`: each entry read as an unsigned integer, or why
    /// it is none.
    Items(Vec<Result<u32, String>>),
    /// Anything else.
    Other,
}

/// A dict that describes a mask.
#[derive(Debug)]
pub struct RleDict {
    pub counts: Option<CountsObject>,
    /// The `size`: its entries read as unsigned integers, or why it is no
    /// sequence.
    pub size: Option<Result<Vec<Result<u32, String>>, String>>,
}

/// An object that stands where a mask is expected.
#[derive(Debug)]
pub enum MaskObject {
    Dict(RleDict),
    /// An array: what came of encoding it.
    Bitmask(Result<SegmentationRle, Failure>),
    /// A list of flat coordinate lists, and the name of its type.
    Rings(Vec<Vec<u64>>, String),
    /// Anything else: the name of its type.
    Other(String),
}

/// Copy a vector of run lengths.
pub fn copy_runs(v: &Vec<u32>) -> (r: Vec<u32>)
    ensures
        r@ == v@,
{
    let r = v.clone();
    assert(r@ =~= v@);
    r
}

/// Copy a vector of bit patterns.
pub fn copy_u64s(v: &Vec<u64>) -> (r: Vec<u64>)
    ensures
        r@ == v@,
{
    let r = v.clone();
    assert(r@ =~= v@);
    r
}

/// Copy the bit patterns from `start` up to `end`.
pub fn copy_range(v: &Vec<u64>, start: usize, end: usize) -> (r: Vec<u64>)
    requires
        start <= end <= v@.len(),
    ensures
        r@ == v@.subrange(start as int, end as int),
{
    let mut r: Vec<u64> = Vec::new();
    let mut i: usize = start;
    while i < end
        invariant
            start <= i <= end <= v@.len(),
            r@ == v@.subrange(start as int, i as int),
        decreases end - i,
    {
        r.push(v[i]);
        proof {
            assert(v@.subrange(start as int, i + 1) =~= v@.subrange(start as int, i as int).push(
                v@[i as int],
            ));
        }
        i += 1;
    }
    r
}

impl SegmentationRle {
    /// An equal mask.
    pub fn copy(&self) -> (r: SegmentationRle)
        ensures
            r@ == self@,
    {
        let counts = match &self.counts {
            RleCounts::Compressed(s) => RleCounts::Compressed(s.clone()),
            RleCounts::Uncompressed(v) => RleCounts::Uncompressed(copy_runs(v)),
        };
        SegmentationRle { h: self.h, w: self.w, counts }
    }
}

/// Copy a list of rings.
pub fn copy_rings(rings: &Vec<Vec<u64>>) -> (r: Vec<Vec<u64>>)
    ensures
        r@.map_values(|x: Vec<u64>| x@) == rings@.map_values(|x: Vec<u64>| x@),
{
    let mut r: Vec<Vec<u64>> = Vec::new();
    let mut i: usize = 0;
    while i < rings.len()
        invariant
            i <= rings.len(),
            r@.len() == i,
            forall|k: int| 0 <= k < i ==> #[trigger] r@[k]@ == rings@[k]@,
        decreases rings.len() - i,
    {
        let ring = copy_range(&rings[i], 0, rings[i].len());
        proof {
            assert(ring@ =~= rings@[i as int]@);
        }
        r.push(ring);
        i += 1;
    }
    assert(r@.map_values(|x: Vec<u64>| x@) =~= rings@.map_values(|x: Vec<u64>| x@));
    r
}

/// What a detection shows is what it holds, field by field.
pub proof fn law_detections_show_what_they_hold(d: DetectionInput)
    ensures
        d@.id == d.id,
        d@.image_id == d.image_id,
        d@.category_id == d.category_id,
        d@.score == d.score,
        d@.bbox.x == d.bbox.x,
        d@.bbox.y == d.bbox.y,
        d@.bbox.w == d.bbox.w,
        d@.bbox.h == d.bbox.h,
        d@.area == d.area,
        d@.num_keypoints == d.num_keypoints,
        match d.segmentation {
            Some(s) => d@.segmentation == Some(s@),
            None => d@.segmentation is None,
        },
        match d.keypoints {
            Some(v) => d@.keypoints == Some(v@),
            None => d@.keypoints is None,
        },
{
}

/// What a segmentation shows is what it holds: the height, the width and the
/// counts of a mask, or the rings one by one.
pub proof fn law_segmentations_show_what_they_hold(s: Segmentation, i: int)
    ensures
        match s {
            Segmentation::Rle(r) => {
                &&& s@ matches SegmentationView::Rle { h, w, counts }
                &&& h == r.h
                &&& w == r.w
                &&& match r.counts {
                    RleCounts::Compressed(t) => counts == RleCountsView::Compressed(t@),
                    RleCounts::Uncompressed(v) => counts == RleCountsView::Uncompressed(v@),
                }
            },
            Segmentation::Polygons(rings) => {
                &&& s@ matches SegmentationView::Polygons(v)
                &&& v.len() == rings@.len()
                &&& 0 <= i < v.len() ==> v[i] == rings@[i]@
            },
        },
{
}

} // verus!
