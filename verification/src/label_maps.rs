//! Label maps: an image as one class or segment id per pixel.

use crate::collect::{
    collected, law_first_refusal_counts, lemma_collected_items, lemma_collected_refusal,
};
use crate::failure::{refused, value_error, Failure, FailureView};
use crate::text::{i64_text, int_text, nat_text, usize_text};
use std::collections::HashMap;
use std::collections::HashSet;
use vstd::prelude::*;

verus! {

broadcast use vstd::std_specs::hash::group_hash_axioms;

// ---------------------------------------------------------------------------
// Pixels
// ---------------------------------------------------------------------------

/// Pixels in the width in which they came.
#[derive(Debug)]
pub enum PixelBuf {
    U8(Vec<u8>),
    U16(Vec<u16>),
    U32(Vec<u32>),
}

/// The mathematical value of a [`PixelBuf`].
#[verifier::ext_equal]
pub enum PixelsView {
    U8(Seq<u8>),
    U16(Seq<u16>),
    U32(Seq<u32>),
}

impl View for PixelBuf {
    type V = PixelsView;

    open spec fn view(&self) -> PixelsView {
        match self {
            PixelBuf::U8(v) => PixelsView::U8(v@),
            PixelBuf::U16(v) => PixelsView::U16(v@),
            PixelBuf::U32(v) => PixelsView::U32(v@),
        }
    }
}

impl PixelsView {
    /// The ids of the pixels, whatever their width.
    pub open spec fn ids(self) -> Seq<u32> {
        match self {
            PixelsView::U8(v) => v.map_values(|x: u8| x as u32),
            PixelsView::U16(v) => v.map_values(|x: u16| x as u32),
            PixelsView::U32(v) => v,
        }
    }
}

/// The ids of pixels.
pub fn pixels_to_u32(buf: &PixelBuf) -> (v: Vec<u32>)
    ensures
        v@ == buf@.ids(),
{
    match buf {
        PixelBuf::U8(p) => {
            let mut v: Vec<u32> = Vec::new();
            let mut i: usize = 0;
            while i < p.len()
                invariant
                    i <= p.len(),
                    v@.len() == i,
                    forall|k: int| 0 <= k < i ==> #[trigger] v@[k] == p@[k] as u32,
                decreases p.len() - i,
            {
                v.push(p[i] as u32);
                i += 1;
            }
            assert(v@ =~= buf@.ids());
            v
        },
        PixelBuf::U16(p) => {
            let mut v: Vec<u32> = Vec::new();
            let mut i: usize = 0;
            while i < p.len()
                invariant
                    i <= p.len(),
                    v@.len() == i,
                    forall|k: int| 0 <= k < i ==> #[trigger] v@[k] == p@[k] as u32,
                decreases p.len() - i,
            {
                v.push(p[i] as u32);
                i += 1;
            }
            assert(v@ =~= buf@.ids());
            v
        },
        PixelBuf::U32(p) => {
            let v = p.clone();
            assert(v@ =~= p@);
            v
        },
    }
}

/// An id after renaming: one without a new name keeps its own.
pub open spec fn renamed(remap: Map<u32, u32>, id: u32) -> u32 {
    if remap.dom().contains(id) {
        remap[id]
    } else {
        id
    }
}

/// Ids after renaming.
pub open spec fn remapped(remap: Map<u32, u32>, ids: Seq<u32>) -> Seq<u32> {
    ids.map_values(|id: u32| renamed(remap, id))
}

/// Rename the ids of pixels. The new ones can be of any width.
pub fn apply_remap_promote_u32(buf: &PixelBuf, remap: &HashMap<u32, u32>) -> (out: PixelBuf)
    ensures
        out@ == PixelsView::U32(remapped(remap@, buf@.ids())),
{
    let ids = pixels_to_u32(buf);
    let mut out: Vec<u32> = Vec::new();
    let mut i: usize = 0;
    while i < ids.len()
        invariant
            i <= ids.len(),
            out@.len() == i,
            forall|k: int| 0 <= k < i ==> #[trigger] out@[k] == renamed(remap@, ids@[k]),
        decreases ids.len() - i,
    {
        let id: u32 = ids[i];
        match remap.get(&id) {
            Some(new) => out.push(*new),
            None => out.push(id),
        }
        i += 1;
    }
    assert(out@ =~= remapped(remap@, ids@));
    PixelBuf::U32(out)
}

/// Two buffers of one width.
#[derive(Debug)]
pub enum PixelPair {
    U8(Vec<u8>, Vec<u8>),
    U16(Vec<u16>, Vec<u16>),
    U32(Vec<u32>, Vec<u32>),
}

impl PixelPair {
    /// The ids of the first buffer.
    pub open spec fn first(self) -> PixelsView {
        match self {
            PixelPair::U8(a, _) => PixelsView::U8(a@),
            PixelPair::U16(a, _) => PixelsView::U16(a@),
            PixelPair::U32(a, _) => PixelsView::U32(a@),
        }
    }

    /// The ids of the second buffer.
    pub open spec fn second(self) -> PixelsView {
        match self {
            PixelPair::U8(_, b) => PixelsView::U8(b@),
            PixelPair::U16(_, b) => PixelsView::U16(b@),
            PixelPair::U32(_, b) => PixelsView::U32(b@),
        }
    }
}

/// The buffers have one width.
pub open spec fn same_width(a: PixelsView, b: PixelsView) -> bool {
    (a is U8 && b is U8) || (a is U16 && b is U16) || (a is U32 && b is U32)
}

/// Bring two buffers to one width. Those of one width stay as they are, and
/// others take the largest. No id changes.
pub fn pair_pixels(a: PixelBuf, b: PixelBuf) -> (p: PixelPair)
    ensures
        p.first().ids() == a@.ids(),
        p.second().ids() == b@.ids(),
        same_width(a@, b@) ==> p.first() == a@ && p.second() == b@,
        !same_width(a@, b@) ==> p.first() == PixelsView::U32(a@.ids()) && p.second()
            == PixelsView::U32(b@.ids()),
        match (a, b, p) {
            (PixelBuf::U8(x), PixelBuf::U8(y), PixelPair::U8(s, t)) => s@ == x@ && t@ == y@,
            (PixelBuf::U16(x), PixelBuf::U16(y), PixelPair::U16(s, t)) => s@ == x@ && t@ == y@,
            (PixelBuf::U32(x), PixelBuf::U32(y), PixelPair::U32(s, t)) => s@ == x@ && t@ == y@,
            (_, _, PixelPair::U32(s, t)) => s@ == a@.ids() && t@ == b@.ids(),
            _ => false,
        },
{
    match (a, b) {
        (PixelBuf::U8(a), PixelBuf::U8(b)) => PixelPair::U8(a, b),
        (PixelBuf::U16(a), PixelBuf::U16(b)) => PixelPair::U16(a, b),
        (PixelBuf::U32(a), PixelBuf::U32(b)) => PixelPair::U32(a, b),
        (a, b) => PixelPair::U32(pixels_to_u32(&a), pixels_to_u32(&b)),
    }
}

// ---------------------------------------------------------------------------
// Reading label maps
// ---------------------------------------------------------------------------

/// A label map.
#[derive(Debug)]
pub struct LabelMap {
    pub height: u32,
    pub width: u32,
    pub pixels: PixelBuf,
}

/// The mathematical value of a [`LabelMap`].
#[verifier::ext_equal]
pub struct LabelMapView {
    pub height: u32,
    pub width: u32,
    pub pixels: PixelsView,
}

impl View for LabelMap {
    type V = LabelMapView;

    open spec fn view(&self) -> LabelMapView {
        LabelMapView { height: self.height, width: self.width, pixels: self.pixels@ }
    }
}

/// An object that stands for a label map: a two-dimensional array of ids, or
/// why it is none.
#[derive(Debug)]
pub enum LabelObject {
    Array(usize, usize, PixelBuf),
    Other(String),
}

/// An entry of a dict of label maps.
#[derive(Debug)]
pub struct LabelEntry {
    /// Its key as an image id, or why it is none.
    pub key: Result<i64, String>,
    pub value: LabelObject,
}

/// Where among the label maps a refusal points.
pub open spec fn map_text(context: Seq<char>, image_id: i64) -> Seq<char> {
    context + " label_maps["@ + int_text(image_id as int) + "]"@
}

/// Where among the label maps a refusal points.
fn map_path(context: &str, image_id: i64) -> (s: String)
    ensures
        s@ == map_text(context@, image_id),
{
    let mut s = String::from_str(context);
    s.append(" label_maps[");
    s.append(i64_text(image_id).as_str());
    s.append("]");
    s
}

/// What checking the shape of an array gives.
pub open spec fn shape_outcome(image_id: i64, context: Seq<char>, h: usize, w: usize) -> Result<
    (u32, u32),
    FailureView,
> {
    if h > u32::MAX || w > u32::MAX {
        Err(
            value_error(
                map_text(context, image_id) + " shape ("@ + nat_text(h as nat) + ", "@ + nat_text(
                    w as nat,
                ) + ") exceeds u32 bounds"@,
            ),
        )
    } else {
        Ok((h as u32, w as u32))
    }
}

/// Check the shape of an array.
pub fn check_shape(image_id: i64, context: &str, h: usize, w: usize) -> (r: Result<
    (u32, u32),
    Failure,
>)
    ensures
        refused(r) == shape_outcome(image_id, context@, h, w),
{
    if h > u32::MAX as usize || w > u32::MAX as usize {
        let mut m = map_path(context, image_id);
        m.append(" shape (");
        m.append(usize_text(h).as_str());
        m.append(", ");
        m.append(usize_text(w).as_str());
        m.append(") exceeds u32 bounds");
        return Err(Failure::value_error(m));
    }
    Ok((h as u32, w as u32))
}

/// Which arrays a dict of label maps holds.
#[derive(Clone, Copy, Debug, PartialEq, Eq, Structural)]
pub enum LabelWidths {
    /// Ids of 32 bits, and a refusal that gives the reason.
    Only32,
    /// Ids of 8, 16 or 32 bits.
    Any,
}

/// The refusal of an object that is no label map.
pub open spec fn object_refusal(
    widths: LabelWidths,
    context: Seq<char>,
    image_id: i64,
    reason: Seq<char>,
) -> FailureView {
    match widths {
        LabelWidths::Only32 => value_error(
            map_text(context, image_id) + " must be a 2-D uint32 ndarray: "@ + reason,
        ),
        LabelWidths::Any => value_error(
            map_text(context, image_id) + " must be a 2-D uint8/uint16/uint32 ndarray"@,
        ),
    }
}

/// What reading an object as a label map gives.
pub open spec fn object_outcome(
    o: LabelObject,
    widths: LabelWidths,
    context: Seq<char>,
    image_id: i64,
) -> Result<LabelMapView, FailureView> {
    match o {
        LabelObject::Other(reason) => Err(object_refusal(widths, context, image_id, reason@)),
        LabelObject::Array(h, w, pixels) => match shape_outcome(image_id, context, h, w) {
            Err(e) => Err(e),
            Ok((height, width)) => Ok(LabelMapView { height, width, pixels: pixels@ }),
        },
    }
}

/// Read an object as a label map.
pub fn extract_label_map(
    o: LabelObject,
    widths: LabelWidths,
    context: &str,
    image_id: i64,
) -> (r: Result<LabelMap, Failure>)
    ensures
        match r {
            Ok(m) => object_outcome(o, widths, context@, image_id) == Ok::<
                LabelMapView,
                FailureView,
            >(m@),
            Err(e) => object_outcome(o, widths, context@, image_id) == Err::<
                LabelMapView,
                FailureView,
            >(e@),
        },
{
    match o {
        LabelObject::Other(reason) => {
            let mut m = map_path(context, image_id);
            match widths {
                LabelWidths::Only32 => {
                    m.append(" must be a 2-D uint32 ndarray: ");
                    m.append(reason.as_str());
                },
                LabelWidths::Any => m.append(" must be a 2-D uint8/uint16/uint32 ndarray"),
            }
            Err(Failure::value_error(m))
        },
        LabelObject::Array(h, w, pixels) => match check_shape(image_id, context, h, w) {
            Err(e) => Err(e),
            Ok((height, width)) => Ok(LabelMap { height, width, pixels }),
        },
    }
}

/// The image id of an entry stands before it already.
pub open spec fn key_seen(entries: Seq<LabelEntry>, i: int) -> bool {
    exists|k: int| 0 <= k < i && #[trigger] entries[k].key == entries[i].key
}

/// Each entry of a dict of label maps, or why it is refused: the key first,
/// then the array, then an image id that stands before it already.
pub open spec fn map_reader(
    entries: Seq<LabelEntry>,
    widths: LabelWidths,
    context: Seq<char>,
) -> spec_fn(int) -> Result<(i64, LabelMapView), FailureView> {
    |i: int|
        match entries[i].key {
            Err(reason) => Err(
                value_error(
                    context + " label_maps dict key must be an integer image id: "@ + reason@,
                ),
            ),
            Ok(id) => match object_outcome(entries[i].value, widths, context, id) {
                Err(e) => Err(e),
                Ok(m) => if key_seen(entries, i) {
                    Err(
                        value_error(
                            context + " label_maps has duplicate image_id="@ + int_text(id as int),
                        ),
                    )
                } else {
                    Ok((id, m))
                },
            },
        }
}

/// Label maps by their mathematical value.
pub open spec fn maps_view(maps: Seq<(i64, LabelMap)>) -> Seq<(i64, LabelMapView)> {
    maps.map_values(|p: (i64, LabelMap)| (p.0, p.1@))
}

/// What reading a dict of label maps gives.
pub open spec fn maps_outcome(
    entries: Seq<LabelEntry>,
    widths: LabelWidths,
    context: Seq<char>,
) -> Result<Seq<(i64, LabelMapView)>, FailureView> {
    collected(map_reader(entries, widths, context), entries.len())
}

/// Read a dict of label maps.
pub fn parse_label_maps(entries: Vec<LabelEntry>, widths: LabelWidths, context: &str) -> (r: Result<
    Vec<(i64, LabelMap)>,
    Failure,
>)
    ensures
        match r {
            Ok(maps) => maps_outcome(entries@, widths, context@) == Ok::<
                Seq<(i64, LabelMapView)>,
                FailureView,
            >(maps_view(maps@)),
            Err(e) => maps_outcome(entries@, widths, context@) == Err::<
                Seq<(i64, LabelMapView)>,
                FailureView,
            >(e@),
        },
{
    let ghost given = entries@;
    let ghost f = map_reader(given, widths, context@);
    let mut maps: Vec<(i64, LabelMap)> = Vec::new();
    let mut seen: HashSet<i64> = HashSet::new();
    assert(maps_view(maps@) =~= Seq::empty());
    #[verifier::loop_isolation(false)]
    for entry in iter: entries
        invariant
            iter.seq() == given,
            collected(f, iter.index() as nat) == Ok::<Seq<(i64, LabelMapView)>, FailureView>(
                maps_view(maps@),
            ),
            forall|id: i64|
                seen@.contains(id) <==> exists|k: int|
                    0 <= k < iter.index() && #[trigger] given[k].key == Ok::<i64, String>(id),
    {
        let ghost i = iter.index() as int;
        let ghost before = maps_view(maps@);
        assert(entry == given[i]);
        match entry.key {
            Err(reason) => {
                let mut m = String::from_str(context);
                m.append(" label_maps dict key must be an integer image id: ");
                m.append(reason.as_str());
                let e = Failure::value_error(m);
                proof {
                    assert(f(i) == Err::<(i64, LabelMapView), FailureView>(e@));
                    lemma_collected_refusal(f, (i + 1) as nat, given.len());
                }
                return Err(e);
            },
            Ok(id) => match extract_label_map(entry.value, widths, context, id) {
                Err(e) => {
                    proof {
                        assert(f(i) == Err::<(i64, LabelMapView), FailureView>(e@));
                        lemma_collected_refusal(f, (i + 1) as nat, given.len());
                    }
                    return Err(e);
                },
                Ok(map) => {
                    assert(given[i].key == Ok::<i64, String>(id));
                    let fresh = seen.insert(id);
                    if !fresh {
                        let mut m = String::from_str(context);
                        m.append(" label_maps has duplicate image_id=");
                        m.append(i64_text(id).as_str());
                        let e = Failure::value_error(m);
                        proof {
                            assert(key_seen(given, i));
                            assert(f(i) == Err::<(i64, LabelMapView), FailureView>(e@));
                            lemma_collected_refusal(f, (i + 1) as nat, given.len());
                        }
                        return Err(e);
                    }
                    let ghost read = map@;
                    maps.push((id, map));
                    proof {
                        assert(!key_seen(given, i));
                        assert(f(i) == Ok::<(i64, LabelMapView), FailureView>((id, read)));
                        assert(maps_view(maps@) =~= before.push((id, read)));
                    }
                },
            },
        }
    }
    Ok(maps)
}

/// No image has two label maps.
pub open spec fn distinct_ids(maps: Seq<(i64, LabelMapView)>) -> bool {
    forall|i: int, j: int|
        0 <= i < j < maps.len() ==> (#[trigger] maps[i]).0 != (#[trigger] maps[j]).0
}

/// Label maps that were read are those of different images.
pub proof fn law_images_are_distinct(
    entries: Seq<LabelEntry>,
    widths: LabelWidths,
    context: Seq<char>,
)
    ensures
        maps_outcome(entries, widths, context) matches Ok(maps) ==> distinct_ids(maps),
{
    let f = map_reader(entries, widths, context);
    if maps_outcome(entries, widths, context) is Ok {
        lemma_collected_items(f, entries.len());
        let maps = collected(f, entries.len())->Ok_0;
        assert forall|i: int, j: int| 0 <= i < j < maps.len() implies (#[trigger] maps[i]).0 != (
        #[trigger] maps[j]).0 by {
            assert(f(i) == Ok::<(i64, LabelMapView), FailureView>(maps[i]));
            assert(f(j) == Ok::<(i64, LabelMapView), FailureView>(maps[j]));
            if maps[i].0 == maps[j].0 {
                assert(entries[i].key == entries[j].key);
                assert(key_seen(entries, j));
            }
        }
    }
}

/// The ids of pixels are the numbers that are held, whatever their width: one
/// id for each pixel, and none changed.
pub proof fn law_ids_are_those_held(buf: PixelBuf)
    ensures
        match buf {
            PixelBuf::U8(v) => buf@.ids().len() == v@.len() && forall|i: int|
                0 <= i < v@.len() ==> #[trigger] buf@.ids()[i] == v@[i],
            PixelBuf::U16(v) => buf@.ids().len() == v@.len() && forall|i: int|
                0 <= i < v@.len() ==> #[trigger] buf@.ids()[i] == v@[i],
            PixelBuf::U32(v) => buf@.ids() == v@,
        },
{
}

/// Renaming goes pixel by pixel: an id with a new name gets it, every other
/// id stays.
pub proof fn law_renaming_goes_pixel_by_pixel(names: Map<u32, u32>, ids: Seq<u32>, i: int)
    requires
        0 <= i < ids.len(),
    ensures
        remapped(names, ids).len() == ids.len(),
        names.dom().contains(ids[i]) ==> remapped(names, ids)[i] == names[ids[i]],
        !names.dom().contains(ids[i]) ==> remapped(names, ids)[i] == ids[i],
{
}

/// Renaming without names changes nothing, and ids that were one stay one.
pub proof fn law_renaming_keeps_what_is_equal(names: Map<u32, u32>, ids: Seq<u32>, i: int, j: int)
    requires
        0 <= i < ids.len(),
        0 <= j < ids.len(),
    ensures
        remapped(Map::empty(), ids) == ids,
        ids[i] == ids[j] ==> remapped(names, ids)[i] == remapped(names, ids)[j],
{
    assert(remapped(Map::empty(), ids) =~= ids);
}

/// Two buffers of one width are told from others by their widths alone.
pub proof fn law_widths_are_compared(a: PixelBuf, b: PixelBuf)
    ensures
        same_width(a@, b@) <==> match (a, b) {
            (PixelBuf::U8(_), PixelBuf::U8(_)) => true,
            (PixelBuf::U16(_), PixelBuf::U16(_)) => true,
            (PixelBuf::U32(_), PixelBuf::U32(_)) => true,
            _ => false,
        },
{
}

/// The two sides of a pair of buffers are the two that it holds, in order.
pub proof fn law_pairs_keep_their_sides(p: PixelPair)
    ensures
        match p {
            PixelPair::U8(a, b) => p.first() == PixelsView::U8(a@) && p.second()
                == PixelsView::U8(b@),
            PixelPair::U16(a, b) => p.first() == PixelsView::U16(a@) && p.second()
                == PixelsView::U16(b@),
            PixelPair::U32(a, b) => p.first() == PixelsView::U32(a@) && p.second()
                == PixelsView::U32(b@),
        },
{
}

/// A buffer holds the pixels of another.
pub open spec fn same_pixels(a: PixelBuf, b: PixelBuf) -> bool {
    match (a, b) {
        (PixelBuf::U8(x), PixelBuf::U8(y)) => x@ == y@,
        (PixelBuf::U16(x), PixelBuf::U16(y)) => x@ == y@,
        (PixelBuf::U32(x), PixelBuf::U32(y)) => x@ == y@,
        _ => false,
    }
}

/// A label map is the array that it was read from: its height and its width,
/// in this order, and its pixels in the width in which they came. An array is
/// taken exactly where both sides fit.
pub proof fn law_label_maps_are_those_held(
    o: LabelObject,
    widths: LabelWidths,
    context: Seq<char>,
    image_id: i64,
    m: LabelMap,
)
    ensures
        object_outcome(o, widths, context, image_id) == Ok::<LabelMapView, FailureView>(m@) ==> (
        o matches LabelObject::Array(h, w, pixels) && m.height == h && m.width == w && same_pixels(
            m.pixels,
            pixels,
        )),
        object_outcome(o, widths, context, image_id) is Ok <==> (o matches LabelObject::Array(
            h,
            w,
            _,
        ) && h <= u32::MAX && w <= u32::MAX),
{
}

/// Every label map stands under its own key, and there is one for each entry.
pub proof fn law_label_maps_stand_under_their_keys(
    entries: Seq<LabelEntry>,
    widths: LabelWidths,
    context: Seq<char>,
    maps: Seq<(i64, LabelMap)>,
)
    requires
        maps_outcome(entries, widths, context) == Ok::<Seq<(i64, LabelMapView)>, FailureView>(
            maps_view(maps),
        ),
    ensures
        maps.len() == entries.len(),
        forall|i: int|
            0 <= i < maps.len() ==> {
                &&& entries[i].key == Ok::<i64, String>((#[trigger] maps[i]).0)
                &&& entries[i].value matches LabelObject::Array(h, w, pixels)
                &&& maps[i].1.height == h
                &&& maps[i].1.width == w
                &&& same_pixels(maps[i].1.pixels, pixels)
            },
        forall|i: int, j: int|
            0 <= i < j < maps.len() ==> (#[trigger] entries[i]).key != (#[trigger] entries[j]).key,
{
    let f = map_reader(entries, widths, context);
    lemma_collected_items(f, entries.len());
    law_images_are_distinct(entries, widths, context);
    let read = maps_view(maps);
    assert(read.len() == maps.len());
    assert forall|i: int| 0 <= i < maps.len() implies {
        &&& entries[i].key == Ok::<i64, String>((#[trigger] maps[i]).0)
        &&& entries[i].value matches LabelObject::Array(h, w, pixels)
        &&& maps[i].1.height == h
        &&& maps[i].1.width == w
        &&& same_pixels(maps[i].1.pixels, pixels)
    } by {
        assert(read[i] == (maps[i].0, maps[i].1@));
        assert(f(i) == Ok::<(i64, LabelMapView), FailureView>(read[i]));
        law_label_maps_are_those_held(entries[i].value, widths, context, maps[i].0, maps[i].1);
    }
    assert forall|i: int, j: int| 0 <= i < j < maps.len() implies (#[trigger] entries[i]).key != (
    #[trigger] entries[j]).key by {
        assert(read[i].0 == maps[i].0 && read[j].0 == maps[j].0);
        assert(read[i].0 != read[j].0);
    }
}

/// Label maps of different images whose sides fit are taken.
pub proof fn law_fitting_label_maps_are_taken(
    entries: Seq<LabelEntry>,
    widths: LabelWidths,
    context: Seq<char>,
)
    requires
        forall|i: int|
            0 <= i < entries.len() ==> (#[trigger] entries[i]).key is Ok && (
            entries[i].value matches LabelObject::Array(h, w, _) && h <= u32::MAX && w
                <= u32::MAX),
        forall|i: int, j: int|
            0 <= i < j < entries.len() ==> (#[trigger] entries[i]).key != (
            #[trigger] entries[j]).key,
    ensures
        maps_outcome(entries, widths, context) is Ok,
{
    let f = map_reader(entries, widths, context);
    assert forall|k: int| 0 <= k < entries.len() implies #[trigger] f(k) is Ok by {
        assert(entries[k].key is Ok);
        if key_seen(entries, k) {
            let j = choose|j: int| 0 <= j < k && #[trigger] entries[j].key == entries[k].key;
            assert(entries[j].key != entries[k].key);
        }
    }
    law_first_refusal_counts(f, entries.len(), 0);
}

} // verus!
