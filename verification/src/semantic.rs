//! Semantic evaluation: pairs of label maps, and confusion matrices over the
//! images and over slices of them.

use crate::collect::{
    collected, law_first_refusal_counts, lemma_collected_items, lemma_collected_refusal,
};
use crate::config::{
    law_parity_words, law_waits_are_kept, parity_outcome, parse_parity_mode,
    submit_timeout_outcome, validate_submit_timeout, ParityMode,
};
use crate::errors::{bare, partial_error_to_pyerr, partial_raised, ExceptionClass, PartialError,
    Raised, RaisedView};
use crate::failure::{refused, value_error, Failure, FailureView};
use crate::label_maps::{
    apply_remap_promote_u32, distinct_ids, extract_label_map, law_images_are_distinct,
    law_renaming_goes_pixel_by_pixel, same_pixels,
    maps_outcome, maps_view, object_outcome, pair_pixels, parse_label_maps, remapped, same_width,
    LabelEntry, LabelMap, LabelMapView, LabelObject, LabelWidths, PixelBuf, PixelPair, PixelsView,
};
use crate::streaming::{buffers_outcome, buffers_view, byte_buffers};
use crate::tables::SemanticSliceRow;
use crate::text::{nat_text, u64_text, usize_text};
use std::collections::HashMap;
use std::collections::HashSet;
use vstd::prelude::*;
use vstd::seq_lib::to_multiset_insert;

verus! {

broadcast use vstd::std_specs::hash::group_hash_axioms;

// ---------------------------------------------------------------------------
// Settings
// ---------------------------------------------------------------------------

/// What checking the number of classes and the rule book gives, for a caller
/// of this name.
pub open spec fn settings_outcome(
    who: Seq<char>,
    n_classes: u32,
    parity_mode: Seq<char>,
) -> Result<ParityMode, FailureView> {
    if n_classes == 0 {
        Err(value_error(who + " requires n_classes >= 1"@))
    } else {
        parity_outcome(parity_mode)
    }
}

/// Check the number of classes and the rule book.
pub fn semantic_settings(who: &str, n_classes: u32, parity_mode: &str) -> (r: Result<
    ParityMode,
    Failure,
>)
    ensures
        refused(r) == settings_outcome(who@, n_classes, parity_mode@),
{
    if n_classes == 0 {
        let mut m = String::from_str(who);
        m.append(" requires n_classes >= 1");
        return Err(Failure::value_error(m));
    }
    parse_parity_mode(parity_mode)
}

/// An entry of a dict of new names for ids, or why it is none.
#[derive(Debug)]
pub struct RemapEntry {
    pub key: Result<u32, String>,
    pub value: Result<u32, String>,
}

/// Each entry of a dict of new names, or why it is refused: the key first.
pub open spec fn remap_reader(entries: Seq<RemapEntry>) -> spec_fn(int) -> Result<
    (u32, u32),
    FailureView,
> {
    |i: int|
        match (entries[i].key, entries[i].value) {
            (Err(reason), _) => Err(
                value_error("label_remap key must be uint32: "@ + reason@),
            ),
            (Ok(_), Err(reason)) => Err(
                value_error("label_remap value must be uint32: "@ + reason@),
            ),
            (Ok(from), Ok(to)) => Ok((from, to)),
        }
}

/// New names as a map: of two for one id the later stands.
pub open spec fn names_map(s: Seq<(u32, u32)>) -> Map<u32, u32>
    decreases s.len(),
{
    if s.len() == 0 {
        Map::empty()
    } else {
        names_map(s.drop_last()).insert(s.last().0, s.last().1)
    }
}

/// What reading a dict of new names gives.
pub open spec fn remap_outcome(entries: Option<Vec<RemapEntry>>) -> Result<
    Option<Map<u32, u32>>,
    FailureView,
> {
    match entries {
        None => Ok(None),
        Some(v) => match collected(remap_reader(v@), v@.len()) {
            Err(e) => Err(e),
            Ok(s) => Ok(Some(names_map(s))),
        },
    }
}

/// New names by their contents.
pub open spec fn opt_names(m: Option<HashMap<u32, u32>>) -> Option<Map<u32, u32>> {
    match m {
        None => None,
        Some(m) => Some(m@),
    }
}

/// Read a dict of new names for ids.
pub fn parse_label_remap(entries: Option<Vec<RemapEntry>>) -> (r: Result<
    Option<HashMap<u32, u32>>,
    Failure,
>)
    ensures
        match r {
            Ok(m) => remap_outcome(entries) == Ok::<Option<Map<u32, u32>>, FailureView>(
                opt_names(m),
            ),
            Err(e) => remap_outcome(entries) == Err::<Option<Map<u32, u32>>, FailureView>(e@),
        },
{
    let entries = match entries {
        None => return Ok(None),
        Some(v) => v,
    };
    let ghost given = entries@;
    let ghost f = remap_reader(given);
    let mut out: HashMap<u32, u32> = HashMap::new();
    assert(out@ =~= Map::<u32, u32>::empty());
    #[verifier::loop_isolation(false)]
    for entry in iter: entries
        invariant
            iter.seq() == given,
            collected(f, iter.index() as nat) is Ok,
            out@ == names_map(collected(f, iter.index() as nat)->Ok_0),
    {
        let ghost i = iter.index() as int;
        let ghost before = collected(f, i as nat)->Ok_0;
        assert(entry == given[i]);
        match entry.key {
            Err(reason) => {
                let mut m = String::from_str("label_remap key must be uint32: ");
                m.append(reason.as_str());
                let e = Failure::value_error(m);
                proof {
                    assert(f(i) == Err::<(u32, u32), FailureView>(e@));
                    lemma_collected_refusal(f, (i + 1) as nat, given.len());
                }
                return Err(e);
            },
            Ok(from) => match entry.value {
                Err(reason) => {
                    let mut m = String::from_str("label_remap value must be uint32: ");
                    m.append(reason.as_str());
                    let e = Failure::value_error(m);
                    proof {
                        assert(f(i) == Err::<(u32, u32), FailureView>(e@));
                        lemma_collected_refusal(f, (i + 1) as nat, given.len());
                    }
                    return Err(e);
                },
                Ok(to) => {
                    out.insert(from, to);
                    proof {
                        assert(f(i) == Ok::<(u32, u32), FailureView>((from, to)));
                        let after = before.push((from, to));
                        assert(after.drop_last() =~= before);
                        assert(collected(f, (i + 1) as nat)->Ok_0 == after);
                    }
                },
            },
        }
    }
    Ok(Some(out))
}

// ---------------------------------------------------------------------------
// Pairs of images
// ---------------------------------------------------------------------------

/// Why label maps cannot be compared.
#[derive(Clone, Copy, Debug, PartialEq, Eq)]
pub enum SemanticFault {
    MissingPrediction { image_id: i64 },
    EmptyDataset,
    ShapeMismatch { image_id: i64, gt_shape: (u32, u32), dt_shape: (u32, u32) },
}

/// The two label maps of an image.
#[derive(Debug)]
pub struct ImagePair {
    pub image_id: i64,
    pub gt: LabelMap,
    pub dt: LabelMap,
}

/// The mathematical value of an [`ImagePair`].
#[verifier::ext_equal]
pub struct PairView {
    pub image_id: i64,
    pub gt: LabelMapView,
    pub dt: LabelMapView,
}

impl View for ImagePair {
    type V = PairView;

    open spec fn view(&self) -> PairView {
        PairView { image_id: self.image_id, gt: self.gt@, dt: self.dt@ }
    }
}

/// Pairs by their mathematical value.
pub open spec fn pairs_view(pairs: Seq<ImagePair>) -> Seq<PairView> {
    pairs.map_values(|p: ImagePair| p@)
}

/// A label map after renaming.
pub open spec fn remapped_map(remap: Option<Map<u32, u32>>, m: LabelMapView) -> LabelMapView {
    match remap {
        None => m,
        Some(names) => LabelMapView {
            pixels: PixelsView::U32(remapped(names, m.pixels.ids())),
            ..m
        },
    }
}

/// There is a label map of this image.
pub open spec fn has_image(maps: Seq<(i64, LabelMapView)>, id: i64) -> bool {
    exists|i: int| 0 <= i < maps.len() && #[trigger] maps[i].0 == id
}

/// Every image has a prediction.
pub open spec fn all_predicted(
    gt: Seq<(i64, LabelMapView)>,
    dt: Seq<(i64, LabelMapView)>,
) -> bool {
    forall|i: int| 0 <= i < gt.len() ==> has_image(dt, (#[trigger] gt[i]).0)
}

/// The image ids of pairs.
pub open spec fn pair_ids(pairs: Seq<PairView>) -> Seq<i64> {
    pairs.map_values(|p: PairView| p.image_id)
}

/// The image ids of label maps.
pub open spec fn map_ids(maps: Seq<(i64, LabelMapView)>) -> Seq<i64> {
    maps.map_values(|p: (i64, LabelMapView)| p.0)
}

/// A pair holds the label map of an image and its prediction after
/// renaming.
pub open spec fn pair_holds(
    p: PairView,
    gt: Seq<(i64, LabelMapView)>,
    dt: Seq<(i64, LabelMapView)>,
    remap: Option<Map<u32, u32>>,
) -> bool {
    &&& gt.contains((p.image_id, p.gt))
    &&& exists|j: int|
        0 <= j < dt.len() && #[trigger] dt[j].0 == p.image_id && p.dt == remapped_map(
            remap,
            dt[j].1,
        )
}

/// The pairs are those of all images, in ascending order of their ids.
pub open spec fn pairs_of(
    pairs: Seq<PairView>,
    gt: Seq<(i64, LabelMapView)>,
    dt: Seq<(i64, LabelMapView)>,
    remap: Option<Map<u32, u32>>,
) -> bool {
    &&& pair_ids(pairs).to_multiset() == map_ids(gt).to_multiset()
    &&& pairs.len() == gt.len()
    &&& forall|i: int, j: int|
        0 <= i < j < pairs.len() ==> (#[trigger] pairs[i]).image_id < (
        #[trigger] pairs[j]).image_id
    &&& forall|k: int| 0 <= k < pairs.len() ==> pair_holds(#[trigger] pairs[k], gt, dt, remap)
}

/// Rename the ids of a label map.
fn remap_map(map: LabelMap, remap: &Option<HashMap<u32, u32>>) -> (r: LabelMap)
    ensures
        r@ == remapped_map(opt_names(*remap), map@),
{
    match remap {
        None => map,
        Some(names) => LabelMap {
            height: map.height,
            width: map.width,
            pixels: apply_remap_promote_u32(&map.pixels, names),
        },
    }
}

/// Where each image stands among label maps.
fn index_of(maps: &Vec<(i64, LabelMap)>) -> (index: HashMap<i64, usize>)
    requires
        distinct_ids(maps_view(maps@)),
    ensures
        forall|id: i64|
            index@.dom().contains(id) <==> has_image(maps_view(maps@), id),
        forall|id: i64|
            index@.dom().contains(id) ==> (#[trigger] index@[id]) < maps@.len()
                && maps@[index@[id] as int].0 == id,
{
    let ghost views = maps_view(maps@);
    let mut index: HashMap<i64, usize> = HashMap::new();
    let mut i: usize = 0;
    while i < maps.len()
        invariant
            i <= maps.len(),
            views == maps_view(maps@),
            distinct_ids(views),
            forall|id: i64|
                index@.dom().contains(id) <==> exists|k: int|
                    0 <= k < i && #[trigger] views[k].0 == id,
            forall|id: i64|
                index@.dom().contains(id) ==> (#[trigger] index@[id]) < i
                    && maps@[index@[id] as int].0 == id,
        decreases maps.len() - i,
    {
        let ghost was = index@;
        let id: i64 = maps[i].0;
        index.insert(id, i);
        proof {
            assert(views[i as int].0 == id);
            assert forall|x: i64| index@.dom().contains(x) <==> exists|k: int|
                0 <= k < i + 1 && #[trigger] views[k].0 == x by {
                if x == id {
                    assert(views[i as int].0 == x);
                } else if was.dom().contains(x) {
                    let k = choose|k: int| 0 <= k < i && #[trigger] views[k].0 == x;
                    assert(views[k].0 == x);
                }
            }
        }
        i += 1;
    }
    index
}

/// Pair the label maps of images with their predictions.
pub fn pair_images(
    gt: Vec<(i64, LabelMap)>,
    dt: Vec<(i64, LabelMap)>,
    remap: &Option<HashMap<u32, u32>>,
) -> (r: Result<Vec<ImagePair>, SemanticFault>)
    requires
        distinct_ids(maps_view(gt@)),
        distinct_ids(maps_view(dt@)),
    ensures
        match r {
            Ok(pairs) => all_predicted(maps_view(gt@), maps_view(dt@)) && pairs_of(
                pairs_view(pairs@),
                maps_view(gt@),
                maps_view(dt@),
                opt_names(*remap),
            ),
            Err(SemanticFault::MissingPrediction { image_id }) => has_image(
                maps_view(gt@),
                image_id,
            ) && !has_image(maps_view(dt@), image_id),
            Err(_) => false,
        },
{
    let ghost gts = maps_view(gt@);
    let ghost dts = maps_view(dt@);
    let ghost given = gt@;
    let ghost names = opt_names(*remap);
    let index = index_of(&dt);
    let ghost dt_given = dt@;
    let mut slots: Vec<Option<LabelMap>> = Vec::new();
    for entry in iter: dt
        invariant
            iter.seq() == dt_given,
            slots@.len() == iter.index(),
            forall|k: int|
                0 <= k < slots@.len() ==> (#[trigger] slots@[k]) == Some(dt_given[k].1),
    {
        slots.push(Some(entry.1));
    }
    let mut pairs: Vec<ImagePair> = Vec::new();
    proof {
        assert(pair_ids(pairs_view(pairs@)) =~= map_ids(gts.take(0)));
    }
    #[verifier::loop_isolation(false)]
    for entry in iter: gt
        invariant
            iter.seq() == given,
            slots@.len() == dt_given.len(),
            pairs@.len() == iter.index(),
            forall|i: int| 0 <= i < iter.index() ==> has_image(dts, (#[trigger] gts[i]).0),
            pair_ids(pairs_view(pairs@)).to_multiset() == map_ids(
                gts.take(iter.index() as int),
            ).to_multiset(),
            forall|i: int, j: int|
                0 <= i < j < pairs@.len() ==> (#[trigger] pairs@[i]).image_id < (
                #[trigger] pairs@[j]).image_id,
            forall|k: int|
                0 <= k < pairs@.len() ==> pair_holds((#[trigger] pairs@[k])@, gts, dts, names),
            forall|k: int|
                0 <= k < slots@.len() ==> (#[trigger] slots@[k]) == Some(dt_given[k].1) || exists|
                    i: int,
                |
                    0 <= i < iter.index() && #[trigger] gts[i].0 == dt_given[k].0,
    {
        let ghost n = iter.index() as int;
        let id: i64 = entry.0;
        assert(gts[n] == (entry.0, entry.1@));
        let at: usize = match index.get(&id) {
            None => {
                proof {
                    assert(!index@.dom().contains(id));
                    assert(gts[n].0 == id);
                    assert(has_image(gts, id));
                }
                return Err(SemanticFault::MissingPrediction { image_id: id });
            },
            Some(at) => *at,
        };
        proof {
            assert(index@.dom().contains(id));
            assert(dt_given[at as int].0 == id);
            assert(dts[at as int] == (id, dt_given[at as int].1@));
            assert(has_image(dts, id));
            if slots@[at as int] != Some(dt_given[at as int].1) {
                let i = choose|i: int| 0 <= i < n && #[trigger] gts[i].0 == dt_given[at as int].0;
                assert(gts[i].0 != gts[n].0);
            }
        }
        let dt_map = slots[at].take().unwrap();
        let pair = ImagePair { image_id: id, gt: entry.1, dt: remap_map(dt_map, remap) };
        let ghost was = pairs@;
        proof {
            assert(gts.contains((id, pair.gt@))) by {
                assert(gts[n] == (id, pair.gt@));
            }
            assert(pair_holds(pair@, gts, dts, names)) by {
                assert(dts[at as int].0 == pair@.image_id);
            }
            assert forall|k: int| 0 <= k < was.len() implies (#[trigger] was[k]).image_id != id by {
                broadcast use vstd::seq_lib::group_to_multiset_ensures;

                let ids = pair_ids(pairs_view(was));
                assert(ids[k] == was[k].image_id);
                assert(ids.contains(was[k].image_id));
                assert(map_ids(gts.take(n)).to_multiset().count(was[k].image_id) > 0);
                assert(map_ids(gts.take(n)).contains(was[k].image_id));
                let i = choose|i: int|
                    0 <= i < n && map_ids(gts.take(n))[i] == was[k].image_id;
                assert(gts[i].0 == was[k].image_id);
                assert(gts[i].0 != gts[n].0);
            }
        }
        let mut k: usize = pairs.len();
        while k > 0 && pairs[k - 1].image_id > id
            invariant
                k <= pairs.len(),
                pairs@ == was,
                forall|j: int| k <= j < was.len() ==> (#[trigger] was[j]).image_id > id,
            decreases k,
        {
            k -= 1;
        }
        let ghost added = pair@;
        pairs.insert(k, pair);
        proof {
            let ids = pair_ids(pairs_view(was));
            to_multiset_insert(ids, k as int, id);
            assert(pair_ids(pairs_view(pairs@)) =~= ids.insert(k as int, id));
            let before = map_ids(gts.take(n));
            to_multiset_insert(before, n, id);
            assert(before.insert(n, id) =~= map_ids(gts.take(n + 1)));
            assert forall|i: int, j: int| 0 <= i < j < pairs@.len() implies (
            #[trigger] pairs@[i]).image_id < (#[trigger] pairs@[j]).image_id by {
                let ii = if i < k { i } else { i - 1 };
                let jj = if j < k { j } else { j - 1 };
                if i == k {
                    assert(was[j - 1].image_id > id);
                } else if j == k {
                    assert(was[k - 1].image_id <= id);
                    assert(was[k - 1].image_id != id);
                    if i < k - 1 {
                        assert(was[i].image_id < was[k - 1].image_id);
                    }
                } else {
                    assert(was[ii].image_id < was[jj].image_id);
                }
            }
            assert forall|j: int| 0 <= j < pairs@.len() implies pair_holds(
                (#[trigger] pairs@[j])@,
                gts,
                dts,
                names,
            ) by {
                if j == k {
                    assert(pairs@[j]@ == added);
                } else {
                    let jj = if j < k { j } else { j - 1 };
                    assert(pairs@[j] == was[jj]);
                }
            }
            assert forall|s: int| 0 <= s < slots@.len() implies (#[trigger] slots@[s]) == Some(
                dt_given[s].1,
            ) || exists|i: int| 0 <= i < n + 1 && #[trigger] gts[i].0 == dt_given[s].0 by {
                if s == at {
                    assert(gts[n].0 == dt_given[s].0);
                }
            }
        }
    }
    proof {
        assert(gts.take(gts.len() as int) =~= gts);
        let views = pairs_view(pairs@);
        assert(pairs_of(views, gts, dts, names));
    }
    Ok(pairs)
}

/// The two label maps have one shape.
pub open spec fn same_shape(p: PairView) -> bool {
    p.gt.height == p.dt.height && p.gt.width == p.dt.width
}

/// Pair `k` is the first whose label maps differ in shape.
pub open spec fn first_mismatch(pairs: Seq<PairView>, k: int) -> bool {
    0 <= k < pairs.len() && !same_shape(pairs[k]) && forall|j: int|
        0 <= j < k ==> same_shape(#[trigger] pairs[j])
}

/// The refusal of a pair whose label maps differ in shape.
pub open spec fn mismatch_of(p: PairView) -> SemanticFault {
    SemanticFault::ShapeMismatch {
        image_id: p.image_id,
        gt_shape: (p.gt.height, p.gt.width),
        dt_shape: (p.dt.height, p.dt.width),
    }
}

/// Refuse a pair whose label maps differ in shape.
pub fn check_pair_shape(pair: &ImagePair) -> (r: Result<(), SemanticFault>)
    ensures
        r == (if same_shape(pair@) {
            Ok(())
        } else {
            Err(mismatch_of(pair@))
        }),
{
    if pair.gt.height != pair.dt.height || pair.gt.width != pair.dt.width {
        return Err(
            SemanticFault::ShapeMismatch {
                image_id: pair.image_id,
                gt_shape: (pair.gt.height, pair.gt.width),
                dt_shape: (pair.dt.height, pair.dt.width),
            },
        );
    }
    Ok(())
}

/// Refuse the first pair whose label maps differ in shape.
pub fn check_shapes(pairs: &Vec<ImagePair>) -> (r: Result<(), SemanticFault>)
    ensures
        match r {
            Ok(()) => forall|k: int|
                0 <= k < pairs@.len() ==> same_shape(#[trigger] pairs_view(pairs@)[k]),
            Err(fault) => exists|k: int| #[trigger]
                first_mismatch(pairs_view(pairs@), k) && fault == mismatch_of(
                    pairs_view(pairs@)[k],
                ),
        },
{
    let ghost views = pairs_view(pairs@);
    let mut i: usize = 0;
    while i < pairs.len()
        invariant
            i <= pairs.len(),
            views == pairs_view(pairs@),
            forall|j: int| 0 <= j < i ==> same_shape(#[trigger] views[j]),
        decreases pairs.len() - i,
    {
        assert(views[i as int] == pairs@[i as int]@);
        match check_pair_shape(&pairs[i]) {
            Err(fault) => {
                assert(first_mismatch(views, i as int));
                return Err(fault);
            },
            Ok(()) => {},
        }
        i += 1;
    }
    Ok(())
}

/// Why label maps are not evaluated.
#[derive(Debug)]
pub enum SemanticRefusal {
    Argument(Failure),
    Data(SemanticFault),
}

/// The inputs of a semantic evaluation, checked.
#[derive(Debug)]
pub struct SemanticWork {
    pub mode: ParityMode,
    pub pairs: Vec<ImagePair>,
}

/// The arguments of a semantic evaluation.
#[derive(Debug)]
pub struct SemanticArguments {
    pub n_classes: u32,
    pub parity_mode: String,
    pub gt: Vec<LabelEntry>,
    pub dt: Vec<LabelEntry>,
    pub label_remap: Option<Vec<RemapEntry>>,
}

/// The arguments of a semantic evaluation after reading them.
pub struct ReadArguments {
    pub mode: ParityMode,
    pub gt: Seq<(i64, LabelMapView)>,
    pub dt: Seq<(i64, LabelMapView)>,
    pub remap: Option<Map<u32, u32>>,
}

/// What reading the arguments gives: the number of classes first, then the
/// rule book, the label maps of both sides, and the new names.
pub open spec fn arguments_outcome(a: SemanticArguments) -> Result<ReadArguments, FailureView> {
    match settings_outcome("semantic evaluator"@, a.n_classes, a.parity_mode@) {
        Err(e) => Err(e),
        Ok(mode) => match maps_outcome(a.gt@, LabelWidths::Any, "semantic gt"@) {
            Err(e) => Err(e),
            Ok(gt) => match maps_outcome(a.dt@, LabelWidths::Any, "semantic dt"@) {
                Err(e) => Err(e),
                Ok(dt) => match remap_outcome(a.label_remap) {
                    Err(e) => Err(e),
                    Ok(remap) => Ok(ReadArguments { mode, gt, dt, remap }),
                },
            },
        },
    }
}

/// The images of a semantic evaluation, paired: an image without a
/// prediction is refused, and so is a dataset without images.
pub fn prepare_pairs(a: SemanticArguments) -> (r: Result<SemanticWork, SemanticRefusal>)
    ensures
        match arguments_outcome(a) {
            Err(e) => r matches Err(SemanticRefusal::Argument(f)) && f@ == e,
            Ok(read) => match r {
                Ok(work) => {
                    &&& work.mode == read.mode
                    &&& read.gt.len() > 0
                    &&& all_predicted(read.gt, read.dt)
                    &&& pairs_of(pairs_view(work.pairs@), read.gt, read.dt, read.remap)
                },
                Err(SemanticRefusal::Data(SemanticFault::MissingPrediction { image_id })) => {
                    has_image(read.gt, image_id) && !has_image(read.dt, image_id)
                },
                Err(SemanticRefusal::Data(SemanticFault::EmptyDataset)) => read.gt.len() == 0,
                Err(_) => false,
            },
        },
{
    let ghost given = a;
    let mode = match semantic_settings("semantic evaluator", a.n_classes, a.parity_mode.as_str()) {
        Err(e) => return Err(SemanticRefusal::Argument(e)),
        Ok(m) => m,
    };
    let gt = match parse_label_maps(a.gt, LabelWidths::Any, "semantic gt") {
        Err(e) => return Err(SemanticRefusal::Argument(e)),
        Ok(m) => m,
    };
    let dt = match parse_label_maps(a.dt, LabelWidths::Any, "semantic dt") {
        Err(e) => return Err(SemanticRefusal::Argument(e)),
        Ok(m) => m,
    };
    let remap = match parse_label_remap(a.label_remap) {
        Err(e) => return Err(SemanticRefusal::Argument(e)),
        Ok(m) => m,
    };
    proof {
        law_images_are_distinct(given.gt@, LabelWidths::Any, "semantic gt"@);
        law_images_are_distinct(given.dt@, LabelWidths::Any, "semantic dt"@);
    }
    let pairs = match pair_images(gt, dt, &remap) {
        Err(fault) => return Err(SemanticRefusal::Data(fault)),
        Ok(p) => p,
    };
    if pairs.len() == 0 {
        return Err(SemanticRefusal::Data(SemanticFault::EmptyDataset));
    }
    Ok(SemanticWork { mode, pairs })
}

/// The inputs of a semantic evaluation, checked: label maps that differ in
/// shape are refused too.
pub fn prepare_semantic(a: SemanticArguments) -> (r: Result<SemanticWork, SemanticRefusal>)
    ensures
        match arguments_outcome(a) {
            Err(e) => r matches Err(SemanticRefusal::Argument(f)) && f@ == e,
            Ok(read) => match r {
                Ok(work) => {
                    &&& work.mode == read.mode
                    &&& read.gt.len() > 0
                    &&& all_predicted(read.gt, read.dt)
                    &&& pairs_of(pairs_view(work.pairs@), read.gt, read.dt, read.remap)
                    &&& forall|k: int|
                        0 <= k < work.pairs@.len() ==> same_shape(
                            #[trigger] pairs_view(work.pairs@)[k],
                        )
                },
                Err(SemanticRefusal::Data(SemanticFault::MissingPrediction { image_id })) => {
                    has_image(read.gt, image_id) && !has_image(read.dt, image_id)
                },
                Err(SemanticRefusal::Data(SemanticFault::EmptyDataset)) => read.gt.len() == 0,
                Err(SemanticRefusal::Data(fault)) => {
                    &&& read.gt.len() > 0
                    &&& all_predicted(read.gt, read.dt)
                    &&& exists|pairs: Seq<PairView>, k: int| #[trigger]
                        pairs_of(pairs, read.gt, read.dt, read.remap) && #[trigger] first_mismatch(
                            pairs,
                            k,
                        ) && fault == mismatch_of(pairs[k])
                },
                Err(_) => false,
            },
        },
{
    let work = match prepare_pairs(a) {
        Err(e) => return Err(e),
        Ok(w) => w,
    };
    match check_shapes(&work.pairs) {
        Err(fault) => {
            proof {
                let views = pairs_view(work.pairs@);
                let read = arguments_outcome(a)->Ok_0;
                assert(pairs_of(views, read.gt, read.dt, read.remap));
                let k = choose|k: int| #[trigger]
                    first_mismatch(views, k) && fault == mismatch_of(views[k]);
                assert(first_mismatch(views, k));
            }
            Err(SemanticRefusal::Data(fault))
        },
        Ok(()) => Ok(work),
    }
}

/// The images of a rank of a distributed evaluation, paired. A rank may have
/// no images.
pub fn prepare_rank(
    n_classes: u32,
    parity_mode: &str,
    gt: Vec<LabelEntry>,
    dt: Vec<LabelEntry>,
) -> (r: Result<SemanticWork, SemanticRefusal>)
    ensures
        match settings_outcome("evaluate_semantic_to_partial"@, n_classes, parity_mode@) {
            Err(e) => r matches Err(SemanticRefusal::Argument(f)) && f@ == e,
            Ok(mode) => match maps_outcome(gt@, LabelWidths::Any, "semantic gt"@) {
                Err(e) => r matches Err(SemanticRefusal::Argument(f)) && f@ == e,
                Ok(gts) => match maps_outcome(dt@, LabelWidths::Any, "semantic dt"@) {
                    Err(e) => r matches Err(SemanticRefusal::Argument(f)) && f@ == e,
                    Ok(dts) => match r {
                        Ok(work) => {
                            &&& work.mode == mode
                            &&& all_predicted(gts, dts)
                            &&& pairs_of(pairs_view(work.pairs@), gts, dts, None)
                        },
                        Err(
                            SemanticRefusal::Data(SemanticFault::MissingPrediction { image_id }),
                        ) => has_image(gts, image_id) && !has_image(dts, image_id),
                        Err(_) => false,
                    },
                },
            },
        },
{
    let ghost gt_given = gt@;
    let ghost dt_given = dt@;
    let mode = match semantic_settings("evaluate_semantic_to_partial", n_classes, parity_mode) {
        Err(e) => return Err(SemanticRefusal::Argument(e)),
        Ok(m) => m,
    };
    let gt = match parse_label_maps(gt, LabelWidths::Any, "semantic gt") {
        Err(e) => return Err(SemanticRefusal::Argument(e)),
        Ok(m) => m,
    };
    let dt = match parse_label_maps(dt, LabelWidths::Any, "semantic dt") {
        Err(e) => return Err(SemanticRefusal::Argument(e)),
        Ok(m) => m,
    };
    proof {
        law_images_are_distinct(gt_given, LabelWidths::Any, "semantic gt"@);
        law_images_are_distinct(dt_given, LabelWidths::Any, "semantic dt"@);
    }
    match pair_images(gt, dt, &None) {
        Err(fault) => Err(SemanticRefusal::Data(fault)),
        Ok(pairs) => Ok(SemanticWork { mode, pairs }),
    }
}

// ---------------------------------------------------------------------------
// Confusion matrices
// ---------------------------------------------------------------------------

/// How many pixels of each class were taken for each class, row by row.
#[derive(Debug)]
pub struct ConfusionMatrix {
    pub n_classes: u32,
    pub counts: Vec<u64>,
}

/// The sum of numbers.
pub open spec fn sum_of(s: Seq<u64>) -> nat
    decreases s.len(),
{
    if s.len() == 0 {
        0
    } else {
        sum_of(s.drop_last()) + s.last() as nat
    }
}

/// The sum of the first `k` numbers on the diagonal of a square of `n` rows.
pub open spec fn diagonal_sum(s: Seq<u64>, n: nat, k: nat) -> nat
    decreases k,
{
    if k == 0 {
        0
    } else {
        diagonal_sum(s, n, (k - 1) as nat) + s[(k - 1) * n + (k - 1)] as nat
    }
}

/// A cell of a square of `n` rows is in it.
proof fn lemma_cell(n: nat, g: nat, d: nat)
    requires
        g < n,
        d < n,
    ensures
        g * n + d < n * n,
        g * n <= g * n + d,
{
    assert(g * n + d < n * n) by (nonlinear_arith)
        requires
            g < n,
            d < n,
    ;
}

/// The diagonal is part of the whole.
proof fn lemma_diagonal(s: Seq<u64>, n: nat, k: nat)
    requires
        k <= n,
        s.len() == n * n,
    ensures
        diagonal_sum(s, n, k) <= sum_of(s.take(if k == 0 {
            0
        } else {
            (k - 1) * n + (k - 1) + 1
        })),
    decreases k,
{
    if k > 0 {
        let at = (k - 1) * n + (k - 1);
        lemma_cell(n, (k - 1) as nat, (k - 1) as nat);
        lemma_diagonal(s, n, (k - 1) as nat);
        assert(s.take(at + 1).drop_last() =~= s.take(at));
        let before: int = if k == 1 {
            0
        } else {
            (k - 2) * n + (k - 2) + 1
        };
        assert(before <= at) by (nonlinear_arith)
            requires
                k >= 1,
                n >= 1,
                at == (k - 1) * n + (k - 1),
                before == if k == 1 { 0 } else { (k - 2) * n + (k - 2) + 1 },
        ;
        assert(0 <= before) by (nonlinear_arith)
            requires
                k >= 1,
                before == if k == 1 { 0 } else { (k - 2) * n + (k - 2) + 1 },
        ;
        lemma_sum_grows(s, before, at);
    } else {
        assert(s.take(0) =~= Seq::empty());
    }
}

/// A longer start sums up to no less.
proof fn lemma_sum_grows(s: Seq<u64>, i: int, j: int)
    requires
        0 <= i <= j <= s.len(),
    ensures
        sum_of(s.take(i)) <= sum_of(s.take(j)),
    decreases j - i,
{
    if i < j {
        lemma_sum_grows(s, i, j - 1);
        assert(s.take(j).drop_last() =~= s.take(j - 1));
    }
}

impl ConfusionMatrix {
    /// There is one number for each pair of classes.
    pub open spec fn wf(self) -> bool {
        self.counts@.len() == self.n_classes as nat * self.n_classes as nat
    }

    /// All pixels.
    pub open spec fn pixels(self) -> nat {
        sum_of(self.counts@)
    }

    /// The pixels whose class was found.
    pub open spec fn correct(self) -> nat {
        diagonal_sum(self.counts@, self.n_classes as nat, self.n_classes as nat)
    }

    /// A matrix without pixels.
    pub fn zeros(n_classes: u32) -> (m: ConfusionMatrix)
        requires
            n_classes as nat * n_classes as nat <= usize::MAX,
        ensures
            m.wf(),
            m.n_classes == n_classes,
            forall|i: int| 0 <= i < m.counts@.len() ==> #[trigger] m.counts@[i] == 0,
    {
        let cells: usize = (n_classes as usize) * (n_classes as usize);
        let mut counts: Vec<u64> = Vec::new();
        let mut i: usize = 0;
        while i < cells
            invariant
                i <= cells,
                counts@.len() == i,
                forall|k: int| 0 <= k < i ==> #[trigger] counts@[k] == 0,
            decreases cells - i,
        {
            counts.push(0);
            i += 1;
        }
        ConfusionMatrix { n_classes, counts }
    }

    /// All pixels.
    pub fn total(&self) -> (n: u64)
        requires
            self.pixels() <= u64::MAX,
        ensures
            n == self.pixels(),
    {
        let mut n: u64 = 0;
        let mut i: usize = 0;
        assert(self.counts@.take(0) =~= Seq::empty());
        while i < self.counts.len()
            invariant
                i <= self.counts.len(),
                sum_of(self.counts@) <= u64::MAX,
                n == sum_of(self.counts@.take(i as int)),
            decreases self.counts.len() - i,
        {
            proof {
                assert(self.counts@.take(i + 1).drop_last() =~= self.counts@.take(i as int));
                lemma_sum_grows(self.counts@, i + 1, self.counts@.len() as int);
                assert(self.counts@.take(self.counts@.len() as int) =~= self.counts@);
            }
            n += self.counts[i];
            i += 1;
        }
        assert(self.counts@.take(i as int) =~= self.counts@);
        n
    }

    /// The pixels whose class was found.
    pub fn trace(&self) -> (t: u64)
        requires
            self.wf(),
            self.pixels() <= u64::MAX,
        ensures
            t == self.correct(),
    {
        let n: usize = self.n_classes as usize;
        let cells: usize = self.counts.len();
        let mut t: u64 = 0;
        let mut c: usize = 0;
        while c < n
            invariant
                c <= n,
                cells == self.counts@.len(),
                n == self.n_classes,
                self.wf(),
                self.pixels() <= u64::MAX,
                t == diagonal_sum(self.counts@, n as nat, c as nat),
            decreases n - c,
        {
            proof {
                lemma_cell(n as nat, c as nat, c as nat);
                lemma_diagonal(self.counts@, n as nat, (c + 1) as nat);
                lemma_sum_grows(self.counts@, c * n + c + 1, self.counts@.len() as int);
                assert(self.counts@.take(self.counts@.len() as int) =~= self.counts@);
            }
            t += self.counts[c * n + c];
            c += 1;
        }
        t
    }

    /// The pixels of one class that were taken for another.
    pub fn get(&self, g: u32, d: u32) -> (r: Result<u64, Failure>)
        requires
            self.wf(),
        ensures
            refused(r) == (if g >= self.n_classes || d >= self.n_classes {
                Err(
                    value_error(
                        "ConfusionMatrix.get index out of range: ("@ + nat_text(g as nat) + ", "@
                            + nat_text(d as nat) + ") for n_classes="@ + nat_text(
                            self.n_classes as nat,
                        ),
                    ),
                )
            } else {
                Ok(self.counts@[g as int * self.n_classes as int + d as int])
            }),
    {
        if g >= self.n_classes || d >= self.n_classes {
            let mut m = String::from_str("ConfusionMatrix.get index out of range: (");
            m.append(u64_text(g as u64).as_str());
            m.append(", ");
            m.append(u64_text(d as u64).as_str());
            m.append(") for n_classes=");
            m.append(u64_text(self.n_classes as u64).as_str());
            return Err(Failure::value_error(m));
        }
        proof {
            lemma_cell(self.n_classes as nat, g as nat, d as nat);
        }
        let n: usize = self.n_classes as usize;
        let cells: usize = self.counts.len();
        let row: usize = g as usize;
        assert(row * n + d < cells);
        Ok(self.counts[row * n + d as usize])
    }

    /// The numbers row by row, each row a list of its own.
    pub fn rows(&self) -> (rows: Vec<Vec<u64>>)
        requires
            self.wf(),
        ensures
            rows@.len() == self.n_classes,
            forall|g: int|
                0 <= g < rows@.len() ==> (#[trigger] rows@[g])@ == self.counts@.subrange(
                    g * self.n_classes as int,
                    g * self.n_classes as int + self.n_classes as int,
                ),
    {
        let n: usize = self.n_classes as usize;
        let cells: usize = self.counts.len();
        let mut rows: Vec<Vec<u64>> = Vec::new();
        let mut g: usize = 0;
        while g < n
            invariant
                g <= n,
                cells == self.counts@.len(),
                n == self.n_classes,
                self.wf(),
                rows@.len() == g,
                forall|k: int|
                    0 <= k < g ==> (#[trigger] rows@[k])@ == self.counts@.subrange(
                        k * n as int,
                        k * n as int + n as int,
                    ),
            decreases n - g,
        {
            proof {
                assert(g * n + n <= n * n) by (nonlinear_arith)
                    requires
                        g < n,
                ;
                assert(0 <= g * n) by (nonlinear_arith);
            }
            let start: usize = g * n;
            rows.push(crate::model::copy_range(&self.counts, start, start + n));
            g += 1;
        }
        rows
    }

    /// A short description.
    pub fn repr(&self) -> (s: String)
        requires
            self.wf(),
            self.pixels() <= u64::MAX,
        ensures
            s@ == "ConfusionMatrix(n_classes="@ + nat_text(self.n_classes as nat) + ", total="@
                + nat_text(self.pixels()) + ", trace="@ + nat_text(self.correct()) + ")"@,
    {
        let mut s = String::from_str("ConfusionMatrix(n_classes=");
        s.append(u64_text(self.n_classes as u64).as_str());
        s.append(", total=");
        s.append(u64_text(self.total()).as_str());
        s.append(", trace=");
        s.append(u64_text(self.trace()).as_str());
        s.append(")");
        s
    }

    /// Add another matrix of as many classes.
    pub fn add_assign(&mut self, other: &ConfusionMatrix)
        requires
            old(self).wf(),
            other.wf(),
            other.n_classes == old(self).n_classes,
            forall|i: int|
                0 <= i < other.counts@.len() ==> old(self).counts@[i] + #[trigger] other.counts@[i]
                    <= u64::MAX,
        ensures
            final(self).wf(),
            final(self).n_classes == old(self).n_classes,
            forall|i: int|
                0 <= i < other.counts@.len() ==> #[trigger] final(self).counts@[i] == old(
                    self,
                ).counts@[i] + other.counts@[i],
    {
        let mut i: usize = 0;
        while i < other.counts.len()
            invariant
                i <= other.counts.len(),
                self.counts@.len() == other.counts@.len(),
                old(self).counts@.len() == other.counts@.len(),
                self.n_classes == old(self).n_classes,
                forall|k: int|
                    0 <= k < other.counts@.len() ==> old(self).counts@[k]
                        + #[trigger] other.counts@[k] <= u64::MAX,
                forall|k: int|
                    0 <= k < i ==> #[trigger] self.counts@[k] == old(self).counts@[k]
                        + other.counts@[k],
                forall|k: int|
                    i <= k < other.counts@.len() ==> #[trigger] self.counts@[k] == old(
                        self,
                    ).counts@[k],
            decreases other.counts.len() - i,
        {
            assert(old(self).counts@[i as int] + other.counts@[i as int] <= u64::MAX);
            let sum: u64 = self.counts[i] + other.counts[i];
            self.counts.set(i, sum);
            i += 1;
        }
    }
}

// ---------------------------------------------------------------------------
// Sums over images
// ---------------------------------------------------------------------------

/// The matrix of one image.
#[derive(Debug)]
pub struct ImageMatrix {
    pub image_id: i64,
    pub matrix: ConfusionMatrix,
}

/// The sum of one cell over the images of a set.
pub open spec fn cell_sum(per_image: Seq<ImageMatrix>, ids: Set<i64>, i: int) -> nat
    decreases per_image.len(),
{
    if per_image.len() == 0 {
        0
    } else {
        let last = per_image.last();
        cell_sum(per_image.drop_last(), ids, i) + (if ids.contains(last.image_id) {
            last.matrix.counts@[i] as nat
        } else {
            0
        })
    }
}

/// Matrices of one size whose sums a `u64` holds.
pub open spec fn summable(per_image: Seq<ImageMatrix>, n_classes: u32) -> bool {
    &&& n_classes as nat * n_classes as nat <= usize::MAX
    &&& forall|k: int|
        0 <= k < per_image.len() ==> (#[trigger] per_image[k]).matrix.wf()
            && per_image[k].matrix.n_classes == n_classes
    &&& forall|i: int|
        0 <= i < n_classes as nat * n_classes as nat ==> #[trigger] cell_sum(
            per_image,
            Set::full(),
            i,
        ) <= u64::MAX
}

/// The matrix is the sum over the images of a set.
pub open spec fn sums_up(
    m: ConfusionMatrix,
    per_image: Seq<ImageMatrix>,
    ids: Set<i64>,
    n_classes: u32,
) -> bool {
    &&& m.wf()
    &&& m.n_classes == n_classes
    &&& forall|i: int|
        0 <= i < m.counts@.len() ==> #[trigger] m.counts@[i] == cell_sum(per_image, ids, i)
}

/// A sum over some of the first images is no more than that over all.
proof fn lemma_cell_sum_bound(per_image: Seq<ImageMatrix>, ids: Set<i64>, k: nat, i: int)
    requires
        k <= per_image.len(),
    ensures
        cell_sum(per_image.take(k as int), ids, i) <= cell_sum(per_image, Set::full(), i),
    decreases per_image.len() + k,
{
    if k < per_image.len() {
        let rest = per_image.drop_last();
        lemma_cell_sum_bound(rest, ids, k, i);
        assert(rest.take(k as int) =~= per_image.take(k as int));
    } else {
        assert(per_image.take(k as int) =~= per_image);
        if k > 0 {
            let rest = per_image.drop_last();
            lemma_cell_sum_bound(rest, ids, (k - 1) as nat, i);
            assert(rest.take(k - 1) =~= rest);
        }
    }
}

/// The images that a sum takes in: those of a set, or all.
pub open spec fn kept(keep: Option<HashSet<i64>>) -> Set<i64> {
    match keep {
        None => Set::full(),
        Some(ids) => ids@,
    }
}

/// Add up the matrices of images: those of a set, or all.
pub fn sum_images(per_image: &Vec<ImageMatrix>, keep: &Option<HashSet<i64>>, n_classes: u32) -> (m:
    ConfusionMatrix)
    requires
        summable(per_image@, n_classes),
    ensures
        sums_up(m, per_image@, kept(*keep), n_classes),
{
    let ghost ids = kept(*keep);
    let mut m = ConfusionMatrix::zeros(n_classes);
    let mut k: usize = 0;
    assert(per_image@.take(0) =~= Seq::empty());
    while k < per_image.len()
        invariant
            k <= per_image.len(),
            summable(per_image@, n_classes),
            ids == kept(*keep),
            sums_up(m, per_image@.take(k as int), ids, n_classes),
        decreases per_image.len() - k,
    {
        let image = &per_image[k];
        let wanted = match keep {
            None => true,
            Some(set) => set.contains(&image.image_id),
        };
        let ghost was = m;
        proof {
            let next = per_image@.take(k + 1);
            assert(next.drop_last() =~= per_image@.take(k as int));
            assert(next.last() == *image);
            assert(wanted == ids.contains(image.image_id));
            assert forall|i: int| 0 <= i < image.matrix.counts@.len() implies m.counts@[i]
                + #[trigger] image.matrix.counts@[i] <= u64::MAX by {
                if wanted {
                    lemma_cell_sum_bound(per_image@, ids, (k + 1) as nat, i);
                } else {
                    lemma_cell_sum_bound(per_image@, Set::full(), (k + 1) as nat, i);
                    lemma_cell_sum_subset(per_image@.take(k as int), ids, i);
                }
                assert(m.counts@[i] == cell_sum(per_image@.take(k as int), ids, i));
                assert(cell_sum(per_image@, Set::full(), i) <= u64::MAX);
            }
        }
        if wanted {
            m.add_assign(&image.matrix);
        }
        proof {
            let next = per_image@.take(k + 1);
            assert forall|i: int| 0 <= i < m.counts@.len() implies #[trigger] m.counts@[i]
                == cell_sum(next, ids, i) by {
                assert(was.counts@[i] == cell_sum(per_image@.take(k as int), ids, i));
            }
        }
        k += 1;
    }
    assert(per_image@.take(k as int) =~= per_image@);
    m
}

/// A sum over some images is no more than that over all.
proof fn lemma_cell_sum_subset(per_image: Seq<ImageMatrix>, ids: Set<i64>, i: int)
    ensures
        cell_sum(per_image, ids, i) <= cell_sum(per_image, Set::full(), i),
{
    lemma_cell_sum_bound(per_image, ids, per_image.len(), i);
    assert(per_image.take(per_image.len() as int) =~= per_image);
}

/// A slice of a dataset: the images with one value on one axis.
#[derive(Debug)]
pub struct SliceSpec {
    pub axis: String,
    pub value: String,
    pub image_ids: Vec<i64>,
}

/// The images of a slice.
pub fn slice_ids(image_ids: &Vec<i64>) -> (ids: HashSet<i64>)
    ensures
        ids@ == image_ids@.to_set(),
{
    let mut ids: HashSet<i64> = HashSet::new();
    let mut i: usize = 0;
    assert(image_ids@.take(0).to_set() =~= Set::<i64>::empty());
    while i < image_ids.len()
        invariant
            i <= image_ids.len(),
            ids@ == image_ids@.take(i as int).to_set(),
        decreases image_ids.len() - i,
    {
        let ghost was = ids@;
        ids.insert(image_ids[i]);
        proof {
            let next = image_ids@.take(i + 1);
            assert(next =~= image_ids@.take(i as int).push(image_ids@[i as int]));
            assert forall|x: i64| next.to_set().contains(x) <==> was.insert(
                image_ids@[i as int],
            ).contains(x) by {
                if next.contains(x) {
                    let k = choose|k: int| 0 <= k < next.len() && next[k] == x;
                    if k < i {
                        assert(image_ids@.take(i as int)[k] == x);
                    }
                }
                if was.contains(x) {
                    let k = choose|k: int|
                        0 <= k < i && image_ids@.take(i as int)[k] == x;
                    assert(next[k] == x);
                }
                assert(next[i as int] == image_ids@[i as int]);
            }
            assert(ids@ =~= next.to_set());
        }
        i += 1;
    }
    assert(image_ids@.take(i as int) =~= image_ids@);
    ids
}

/// The matrix of each slice: none for a slice without images.
pub fn slice_matrices(per_image: &Vec<ImageMatrix>, slices: &Vec<SliceSpec>, n_classes: u32) -> (
    out: Vec<Option<ConfusionMatrix>>)
    requires
        summable(per_image@, n_classes),
    ensures
        out@.len() == slices@.len(),
        forall|k: int|
            0 <= k < out@.len() ==> match #[trigger] out@[k] {
                None => slices@[k].image_ids@.len() == 0,
                Some(m) => slices@[k].image_ids@.len() > 0 && sums_up(
                    m,
                    per_image@,
                    slices@[k].image_ids@.to_set(),
                    n_classes,
                ),
            },
{
    let mut out: Vec<Option<ConfusionMatrix>> = Vec::new();
    let mut k: usize = 0;
    while k < slices.len()
        invariant
            k <= slices.len(),
            summable(per_image@, n_classes),
            out@.len() == k,
            forall|j: int|
                0 <= j < k ==> match #[trigger] out@[j] {
                    None => slices@[j].image_ids@.len() == 0,
                    Some(m) => slices@[j].image_ids@.len() > 0 && sums_up(
                        m,
                        per_image@,
                        slices@[j].image_ids@.to_set(),
                        n_classes,
                    ),
                },
        decreases slices.len() - k,
    {
        if slices[k].image_ids.len() == 0 {
            out.push(None);
        } else {
            let keep = Some(slice_ids(&slices[k].image_ids));
            out.push(Some(sum_images(per_image, &keep, n_classes)));
        }
        k += 1;
    }
    out
}

/// The numbers that sum a semantic evaluation up.
#[derive(Clone, Copy, Debug, PartialEq, Eq, Structural)]
pub struct SemanticMetrics {
    pub miou: u64,
    pub fwiou: u64,
    pub pixel_accuracy: u64,
    pub mean_accuracy: u64,
}

/// The row of a slice: all zeros where it has no images.
pub open spec fn is_slice_row(
    row: SemanticSliceRow,
    slice: SliceSpec,
    metrics: Option<SemanticMetrics>,
) -> bool {
    &&& row.axis@ == slice.axis@
    &&& row.value@ == slice.value@
    &&& row.n_images == slice.image_ids@.to_set().len()
    &&& row.n_detections == 0
    &&& if slice.image_ids@.len() == 0 {
        row.miou == 0 && row.fwiou == 0 && row.pixel_accuracy == 0 && row.mean_accuracy == 0
    } else {
        metrics matches Some(m) && row.miou == m.miou && row.fwiou == m.fwiou && row.pixel_accuracy
            == m.pixel_accuracy && row.mean_accuracy == m.mean_accuracy
    }
}

/// Every slice with images was summed up.
pub open spec fn slices_summed<M>(slices: Seq<SliceSpec>, metrics: Seq<Option<M>>) -> bool {
    &&& metrics.len() == slices.len()
    &&& forall|k: int|
        0 <= k < slices.len() && (#[trigger] slices[k]).image_ids@.len() > 0 ==> metrics[k] is Some
}

/// The rows of slices, with what each was summed up to.
pub fn slice_rows(slices: &Vec<SliceSpec>, metrics: &Vec<Option<SemanticMetrics>>) -> (rows: Vec<
    SemanticSliceRow,
>)
    requires
        slices_summed(slices@, metrics@),
    ensures
        rows@.len() == slices@.len(),
        forall|k: int|
            0 <= k < rows@.len() ==> is_slice_row(#[trigger] rows@[k], slices@[k], metrics@[k]),
{
    let zero = SemanticMetrics { miou: 0, fwiou: 0, pixel_accuracy: 0, mean_accuracy: 0 };
    let mut rows: Vec<SemanticSliceRow> = Vec::new();
    let mut k: usize = 0;
    while k < slices.len()
        invariant
            k <= slices.len(),
            slices_summed(slices@, metrics@),
            zero == (SemanticMetrics { miou: 0, fwiou: 0, pixel_accuracy: 0, mean_accuracy: 0 }),
            rows@.len() == k,
            forall|j: int|
                0 <= j < k ==> is_slice_row(#[trigger] rows@[j], slices@[j], metrics@[j]),
        decreases slices.len() - k,
    {
        let slice = &slices[k];
        let m = match metrics[k] {
            Some(m) if slice.image_ids.len() > 0 => m,
            _ => zero,
        };
        let n_images: usize = slice_ids(&slice.image_ids).len();
        rows.push(
            SemanticSliceRow {
                axis: slice.axis.clone(),
                value: slice.value.clone(),
                n_images: n_images as u64,
                n_detections: 0,
                miou: m.miou,
                fwiou: m.fwiou,
                pixel_accuracy: m.pixel_accuracy,
                mean_accuracy: m.mean_accuracy,
            },
        );
        k += 1;
    }
    rows
}

/// A short description of a partitioned evaluation.
pub fn partitioned_repr(overall_n_images: u64, n_slices: usize) -> (s: String)
    ensures
        s@ == "PartitionedSemanticReport(overall_n_images="@ + nat_text(overall_n_images as nat)
            + ", n_slices="@ + nat_text(n_slices as nat) + ")"@,
{
    let mut s = String::from_str("PartitionedSemanticReport(overall_n_images=");
    s.append(u64_text(overall_n_images).as_str());
    s.append(", n_slices=");
    s.append(usize_text(n_slices).as_str());
    s.append(")");
    s
}

/// A slice that takes in every image has the sums of the whole dataset.
pub proof fn law_whole_slice_is_overall(per_image: Seq<ImageMatrix>, ids: Set<i64>, i: int)
    requires
        forall|k: int| 0 <= k < per_image.len() ==> ids.contains((#[trigger] per_image[k]).image_id),
    ensures
        cell_sum(per_image, ids, i) == cell_sum(per_image, Set::full(), i),
    decreases per_image.len(),
{
    if per_image.len() > 0 {
        let rest = per_image.drop_last();
        assert forall|k: int| 0 <= k < rest.len() implies ids.contains(
            (#[trigger] rest[k]).image_id,
        ) by {
            assert(ids.contains(per_image[k].image_id));
        }
        law_whole_slice_is_overall(rest, ids, i);
        assert(ids.contains(per_image[per_image.len() - 1].image_id));
    }
}

/// The sums of two slices without a common image are those of the two
/// together.
pub proof fn law_disjoint_slices_add_up(
    per_image: Seq<ImageMatrix>,
    a: Set<i64>,
    b: Set<i64>,
    i: int,
)
    requires
        a.disjoint(b),
    ensures
        cell_sum(per_image, a.union(b), i) == cell_sum(per_image, a, i) + cell_sum(
            per_image,
            b,
            i,
        ),
    decreases per_image.len(),
{
    if per_image.len() > 0 {
        law_disjoint_slices_add_up(per_image.drop_last(), a, b, i);
    }
}

/// The sums over one list of images and then another are those of the two
/// together.
pub proof fn law_images_add_up(
    first: Seq<ImageMatrix>,
    second: Seq<ImageMatrix>,
    ids: Set<i64>,
    i: int,
)
    ensures
        cell_sum(first + second, ids, i) == cell_sum(first, ids, i) + cell_sum(second, ids, i),
    decreases second.len(),
{
    if second.len() > 0 {
        law_images_add_up(first, second.drop_last(), ids, i);
        assert((first + second).drop_last() =~= first + second.drop_last());
    } else {
        assert(first + second =~= first);
    }
}

// ---------------------------------------------------------------------------
// Label maps in files
// ---------------------------------------------------------------------------

/// An entry of a dict of paths: its key as an image id and its value as a
/// path, or why they are none.
#[derive(Debug)]
pub struct PathEntry<P> {
    pub key: Result<i64, String>,
    pub value: Result<P, String>,
}

/// Each entry of a dict of paths, or why it is refused: the key first.
pub open spec fn path_reader<P>(entries: Seq<PathEntry<P>>, label: Seq<char>) -> spec_fn(
    int,
) -> Result<(i64, P), FailureView> {
    |i: int|
        match (entries[i].key, entries[i].value) {
            (Err(reason), _) => Err(value_error(label + ": image_id keys must be int: "@ + reason@)),
            (Ok(_), Err(reason)) => Err(
                value_error(label + ": values must be str or os.PathLike: "@ + reason@),
            ),
            (Ok(id), Ok(path)) => Ok((id, path)),
        }
}

/// What reading a dict of paths gives, in its own order.
pub open spec fn paths_outcome<P>(entries: Seq<PathEntry<P>>, label: Seq<char>) -> Result<
    Seq<(i64, P)>,
    FailureView,
> {
    collected(path_reader(entries, label), entries.len())
}

/// Read an entry of a dict of paths.
fn read_path<P>(entry: PathEntry<P>, label: &str) -> (r: Result<(i64, P), Failure>)
    ensures
        refused(r) == path_reader(seq![entry], label@)(0),
{
    match entry.key {
        Err(reason) => {
            let mut m = String::from_str(label);
            m.append(": image_id keys must be int: ");
            m.append(reason.as_str());
            Err(Failure::value_error(m))
        },
        Ok(id) => match entry.value {
            Err(reason) => {
                let mut m = String::from_str(label);
                m.append(": values must be str or os.PathLike: ");
                m.append(reason.as_str());
                Err(Failure::value_error(m))
            },
            Ok(path) => Ok((id, path)),
        },
    }
}

/// Read the entries of a dict of paths in their own order.
fn read_paths<P>(entries: Vec<PathEntry<P>>, label: &str) -> (r: Result<Vec<(i64, P)>, Failure>)
    ensures
        match r {
            Ok(v) => paths_outcome(entries@, label@) == Ok::<Seq<(i64, P)>, FailureView>(v@),
            Err(e) => paths_outcome(entries@, label@) == Err::<Seq<(i64, P)>, FailureView>(e@),
        },
{
    let ghost given = entries@;
    let ghost f = path_reader(given, label@);
    let mut out: Vec<(i64, P)> = Vec::new();
    #[verifier::loop_isolation(false)]
    for entry in iter: entries
        invariant
            iter.seq() == given,
            collected(f, iter.index() as nat) == Ok::<Seq<(i64, P)>, FailureView>(out@),
    {
        let ghost i = iter.index() as int;
        assert(entry == given[i]);
        match read_path(entry, label) {
            Err(e) => {
                proof {
                    assert(f(i) == Err::<(i64, P), FailureView>(e@));
                    lemma_collected_refusal(f, (i + 1) as nat, given.len());
                }
                return Err(e);
            },
            Ok(pair) => {
                assert(f(i) == Ok::<(i64, P), FailureView>(pair));
                out.push(pair);
            },
        }
    }
    Ok(out)
}

/// Ascending by image id.
pub open spec fn ids_ascend<P>(s: Seq<(i64, P)>) -> bool {
    forall|i: int, j: int| 0 <= i < j < s.len() ==> (#[trigger] s[i]).0 <= (#[trigger] s[j]).0
}

/// Read a dict of paths, in ascending order of the image ids.
pub fn parse_path_dict<P>(entries: Vec<PathEntry<P>>, label: &str) -> (r: Result<
    Vec<(i64, P)>,
    Failure,
>)
    ensures
        match r {
            Ok(v) => {
                &&& paths_outcome(entries@, label@) is Ok
                &&& ids_ascend(v@)
                &&& v@.to_multiset() == paths_outcome(entries@, label@)->Ok_0.to_multiset()
            },
            Err(e) => paths_outcome(entries@, label@) == Err::<Seq<(i64, P)>, FailureView>(e@),
        },
{
    let read = match read_paths(entries, label) {
        Err(e) => return Err(e),
        Ok(v) => v,
    };
    let ghost given = read@;
    let mut out: Vec<(i64, P)> = Vec::new();
    assert(given.take(0) =~= out@);
    for pair in iter: read
        invariant
            iter.seq() == given,
            out@.len() == iter.index(),
            ids_ascend(out@),
            out@.to_multiset() == given.take(iter.index() as int).to_multiset(),
    {
        let ghost n = iter.index() as int;
        let ghost was = out@;
        let mut k: usize = out.len();
        while k > 0 && out[k - 1].0 > pair.0
            invariant
                k <= out.len(),
                out@ == was,
                forall|j: int| k <= j < was.len() ==> (#[trigger] was[j]).0 > pair.0,
            decreases k,
        {
            k -= 1;
        }
        proof {
            to_multiset_insert(was, k as int, pair);
            let before = given.take(n);
            to_multiset_insert(before, n, pair);
            assert(before.insert(n, pair) =~= given.take(n + 1));
        }
        let ghost added = pair;
        out.insert(k, pair);
        proof {
            assert forall|i: int, j: int| 0 <= i < j < out@.len() implies (#[trigger] out@[i]).0 <= (
            #[trigger] out@[j]).0 by {
                if i == k {
                    assert(was[j - 1].0 > added.0);
                } else if j == k {
                    if i < k - 1 {
                        assert(was[i].0 <= was[k - 1].0);
                    }
                } else {
                    let ii = if i < k { i } else { i - 1 };
                    let jj = if j < k { j } else { j - 1 };
                    assert(was[ii].0 <= was[jj].0);
                }
            }
        }
    }
    assert(given.take(given.len() as int) =~= given);
    Ok(out)
}

/// Paths under their image ids: of two with one id the later stands.
pub open spec fn paths_map<P>(s: Seq<(i64, P)>) -> Map<i64, P>
    decreases s.len(),
{
    if s.len() == 0 {
        Map::empty()
    } else {
        paths_map(s.drop_last()).insert(s.last().0, s.last().1)
    }
}

/// Read a dict of paths, each to be found by its image id.
pub fn parse_path_dict_to_hashmap<P>(entries: Vec<PathEntry<P>>, label: &str) -> (r: Result<
    HashMap<i64, P>,
    Failure,
>)
    ensures
        match r {
            Ok(m) => paths_outcome(entries@, label@) is Ok && m@ == paths_map(
                paths_outcome(entries@, label@)->Ok_0,
            ),
            Err(e) => paths_outcome(entries@, label@) == Err::<Seq<(i64, P)>, FailureView>(e@),
        },
{
    let read = match read_paths(entries, label) {
        Err(e) => return Err(e),
        Ok(v) => v,
    };
    let ghost given = read@;
    let mut out: HashMap<i64, P> = HashMap::new();
    assert(given.take(0) =~= Seq::empty());
    assert(out@ =~= Map::<i64, P>::empty());
    for pair in iter: read
        invariant
            iter.seq() == given,
            out@ == paths_map(given.take(iter.index() as int)),
    {
        proof {
            let next = given.take(iter.index() + 1);
            assert(next.drop_last() =~= given.take(iter.index() as int));
            assert(next.last() == pair);
        }
        out.insert(pair.0, pair.1);
    }
    assert(given.take(given.len() as int) =~= given);
    Ok(out)
}

// ---------------------------------------------------------------------------
// Requests
// ---------------------------------------------------------------------------

/// An error of a semantic evaluation.
#[derive(Debug)]
pub enum SemanticError {
    /// A partial result could not be read or merged.
    Partial { error: PartialError, text: String },
    Other { text: String },
}

/// The exception for an error of a semantic evaluation. Those of partial
/// results are shared with the other evaluations.
pub open spec fn semantic_raised(e: SemanticError) -> RaisedView {
    match e {
        SemanticError::Partial { error, text } => partial_raised(error, text@),
        SemanticError::Other { text } => bare(ExceptionClass::ValueError, text@),
    }
}

/// The exception for an error of a semantic evaluation.
pub fn semantic_error_to_pyerr(e: SemanticError) -> (x: Raised)
    ensures
        x@ == semantic_raised(e),
{
    match e {
        SemanticError::Partial { error, text } => partial_error_to_pyerr(error, text),
        SemanticError::Other { text } => Raised::bare(ExceptionClass::ValueError, text),
    }
}

/// What is said of partial results that are no byte strings.
pub const PARTIALS_REFUSED: &'static str = "merge_semantic_partials expects a list of bytes objects";

/// Check a request to merge partial results: the settings first.
pub fn prepare_merge(n_classes: u32, parity_mode: &str, partials: Vec<Option<Vec<u8>>>) -> (r:
    Result<(ParityMode, Vec<Vec<u8>>), Failure>)
    ensures
        match settings_outcome("merge_semantic_partials"@, n_classes, parity_mode@) {
            Err(e) => r matches Err(f) && f@ == e,
            Ok(mode) => match buffers_outcome(partials@, PARTIALS_REFUSED@) {
                Err(e) => r matches Err(f) && f@ == e,
                Ok(buffers) => r matches Ok(w) && w.0 == mode && buffers_view(w.1@) == buffers,
            },
        },
{
    let mode = match semantic_settings("merge_semantic_partials", n_classes, parity_mode) {
        Err(e) => return Err(e),
        Ok(m) => m,
    };
    match byte_buffers(partials, PARTIALS_REFUSED) {
        Err(e) => Err(e),
        Ok(buffers) => Ok((mode, buffers)),
    }
}

/// The files of a semantic evaluation.
#[derive(Debug)]
pub struct PngWork<P> {
    pub mode: ParityMode,
    pub gt: Vec<(i64, P)>,
    pub dt: HashMap<i64, P>,
}

/// Check a request with files: the settings first, then the paths of both
/// sides.
pub fn prepare_pngs<P>(
    n_classes: u32,
    parity_mode: &str,
    gt: Vec<PathEntry<P>>,
    dt: Vec<PathEntry<P>>,
) -> (r: Result<PngWork<P>, Failure>)
    ensures
        match settings_outcome("evaluate_semantic_from_pngs"@, n_classes, parity_mode@) {
            Err(e) => r matches Err(f) && f@ == e,
            Ok(mode) => match paths_outcome(gt@, "semantic gt"@) {
                Err(e) => r matches Err(f) && f@ == e,
                Ok(g) => match paths_outcome(dt@, "semantic dt"@) {
                    Err(e) => r matches Err(f) && f@ == e,
                    Ok(d) => {
                        &&& r matches Ok(w)
                        &&& w.mode == mode
                        &&& ids_ascend(w.gt@)
                        &&& w.gt@.to_multiset() == g.to_multiset()
                        &&& w.dt@ == paths_map(d)
                    },
                },
            },
        },
{
    let mode = match semantic_settings("evaluate_semantic_from_pngs", n_classes, parity_mode) {
        Err(e) => return Err(e),
        Ok(m) => m,
    };
    let gt = match parse_path_dict(gt, "semantic gt") {
        Err(e) => return Err(e),
        Ok(v) => v,
    };
    match parse_path_dict_to_hashmap(dt, "semantic dt") {
        Err(e) => Err(e),
        Ok(dt) => Ok(PngWork { mode, gt, dt }),
    }
}

/// A pair of label maps of one shape and one width, on its way to the
/// worker.
#[derive(Debug)]
pub struct SemanticUpdate {
    pub image_id: i64,
    pub pixels: PixelPair,
}

/// What checking a request with one image gives: the label map of each side
/// first, then their shapes, then how long to wait.
pub open spec fn submit_outcome(
    image_id: i64,
    gt: LabelObject,
    dt: LabelObject,
    timeout: Option<u64>,
) -> Result<(PairView, Option<u64>), Result<SemanticFault, FailureView>> {
    match object_outcome(gt, LabelWidths::Any, "BackgroundSemanticEvaluator gt"@, image_id) {
        Err(e) => Err(Err(e)),
        Ok(g) => match object_outcome(
            dt,
            LabelWidths::Any,
            "BackgroundSemanticEvaluator dt"@,
            image_id,
        ) {
            Err(e) => Err(Err(e)),
            Ok(d) => {
                let pair = PairView { image_id, gt: g, dt: d };
                if !same_shape(pair) {
                    Err(Ok(mismatch_of(pair)))
                } else {
                    match submit_timeout_outcome(timeout) {
                        Err(e) => Err(Err(e)),
                        Ok(t) => Ok((pair, t)),
                    }
                }
            },
        },
    }
}

/// Check a request with one image. No id of a pixel changes, and maps of
/// different widths are brought to 32 bits.
pub fn prepare_submit(image_id: i64, gt: LabelObject, dt: LabelObject, timeout: Option<u64>) -> (r:
    Result<(SemanticUpdate, Option<u64>), SemanticRefusal>)
    ensures
        match submit_outcome(image_id, gt, dt, timeout) {
            Err(Err(e)) => r matches Err(SemanticRefusal::Argument(f)) && f@ == e,
            Err(Ok(fault)) => r matches Err(SemanticRefusal::Data(f)) && f == fault,
            Ok((pair, t)) => {
                &&& r matches Ok(w)
                &&& w.1 == t
                &&& w.0.image_id == image_id
                &&& w.0.pixels.first().ids() == pair.gt.pixels.ids()
                &&& w.0.pixels.second().ids() == pair.dt.pixels.ids()
                &&& same_width(pair.gt.pixels, pair.dt.pixels) ==> w.0.pixels.first()
                    == pair.gt.pixels && w.0.pixels.second() == pair.dt.pixels
                &&& !same_width(pair.gt.pixels, pair.dt.pixels) ==> w.0.pixels.first()
                    == PixelsView::U32(pair.gt.pixels.ids()) && w.0.pixels.second()
                    == PixelsView::U32(pair.dt.pixels.ids())
            },
        },
{
    let gt = match extract_label_map(
        gt,
        LabelWidths::Any,
        "BackgroundSemanticEvaluator gt",
        image_id,
    ) {
        Err(e) => return Err(SemanticRefusal::Argument(e)),
        Ok(m) => m,
    };
    let dt = match extract_label_map(
        dt,
        LabelWidths::Any,
        "BackgroundSemanticEvaluator dt",
        image_id,
    ) {
        Err(e) => return Err(SemanticRefusal::Argument(e)),
        Ok(m) => m,
    };
    let pair = ImagePair { image_id, gt, dt };
    match check_pair_shape(&pair) {
        Err(fault) => return Err(SemanticRefusal::Data(fault)),
        Ok(()) => {},
    }
    match validate_submit_timeout(timeout) {
        Err(e) => Err(SemanticRefusal::Argument(e)),
        Ok(t) => {
            let pixels = pair_pixels(pair.gt.pixels, pair.dt.pixels);
            Ok((SemanticUpdate { image_id, pixels }, t))
        },
    }
}

/// A short description of a background evaluator.
pub fn background_repr(n_classes: u32) -> (s: String)
    ensures
        s@ == "BackgroundSemanticEvaluator(n_classes="@ + nat_text(n_classes as nat) + ")"@,
{
    let mut s = String::from_str("BackgroundSemanticEvaluator(n_classes=");
    s.append(u64_text(n_classes as u64).as_str());
    s.append(")");
    s
}

// ---------------------------------------------------------------------------
// Laws
// ---------------------------------------------------------------------------

/// The rule book is the one named, and at least one class is asked for.
pub proof fn law_settings_are_those_named(who: Seq<char>, n_classes: u32, word: Seq<char>)
    ensures
        (settings_outcome(who, n_classes, word) matches Ok(m) && m is Strict) <==> n_classes >= 1
            && word == "strict"@,
        (settings_outcome(who, n_classes, word) matches Ok(m) && m is Corrected) <==> n_classes >= 1
            && word == "corrected"@,
        settings_outcome(who, n_classes, word) is Err <==> n_classes == 0 || (word != "strict"@
            && word != "corrected"@),
{
    law_parity_words(word);
}

/// The last name that is given for an id stands.
pub proof fn law_last_name_stands(s: Seq<(u32, u32)>, i: int)
    requires
        0 <= i < s.len(),
    ensures
        names_map(s).dom().contains(s[i].0),
        (forall|j: int| i < j < s.len() ==> (#[trigger] s[j]).0 != s[i].0) ==> names_map(s)[s[i].0]
            == s[i].1,
    decreases s.len(),
{
    if i < s.len() - 1 {
        let rest = s.drop_last();
        law_last_name_stands(rest, i);
        if forall|j: int| i < j < s.len() ==> (#[trigger] s[j]).0 != s[i].0 {
            assert(s[s.len() - 1].0 != s[i].0);
            assert forall|j: int| i < j < rest.len() implies (#[trigger] rest[j]).0
                != rest[i].0 by {
                assert(s[j].0 != s[i].0);
            }
        }
    }
}

/// No id gets a new name that none was given for.
pub proof fn law_names_come_from_entries(s: Seq<(u32, u32)>, id: u32) -> (i: int)
    requires
        names_map(s).dom().contains(id),
    ensures
        0 <= i < s.len(),
        s[i].0 == id,
        names_map(s)[id] == s[i].1,
    decreases s.len(),
{
    if s.last().0 == id {
        s.len() - 1
    } else {
        law_names_come_from_entries(s.drop_last(), id)
    }
}

/// A dict of new names gives each id the name of its own entry, and no other
/// id gets one.
pub proof fn law_new_names_are_those_given(entries: Vec<RemapEntry>, names: Map<u32, u32>, i: int)
    requires
        remap_outcome(Some(entries)) == Ok::<Option<Map<u32, u32>>, FailureView>(Some(names)),
        0 <= i < entries@.len(),
    ensures
        entries@[i].key matches Ok(from) && entries@[i].value matches Ok(to) && names.dom().contains(
            from,
        ) && ((forall|j: int|
            i < j < entries@.len() ==> (#[trigger] entries@[j]).key != entries@[i].key)
            ==> names[from] == to),
{
    let f = remap_reader(entries@);
    lemma_collected_items(f, entries@.len());
    let s = collected(f, entries@.len())->Ok_0;
    assert(f(i) == Ok::<(u32, u32), FailureView>(s[i]));
    law_last_name_stands(s, i);
    if forall|j: int| i < j < entries@.len() ==> (#[trigger] entries@[j]).key != entries@[i].key {
        assert forall|j: int| i < j < s.len() implies (#[trigger] s[j]).0 != s[i].0 by {
            assert(f(j) == Ok::<(u32, u32), FailureView>(s[j]));
            assert(entries@[j].key != entries@[i].key);
        }
    }
}

/// An id that no entry names gets no new name.
pub proof fn law_other_ids_get_no_name(entries: Vec<RemapEntry>, names: Map<u32, u32>, id: u32)
    requires
        remap_outcome(Some(entries)) == Ok::<Option<Map<u32, u32>>, FailureView>(Some(names)),
        forall|j: int|
            0 <= j < entries@.len() ==> (#[trigger] entries@[j]).key != Ok::<u32, String>(id),
    ensures
        !names.dom().contains(id),
{
    let f = remap_reader(entries@);
    lemma_collected_items(f, entries@.len());
    let s = collected(f, entries@.len())->Ok_0;
    if names.dom().contains(id) {
        let i = law_names_come_from_entries(s, id);
        assert(f(i) == Ok::<(u32, u32), FailureView>(s[i]));
        assert(entries@[i].key != Ok::<u32, String>(id));
    }
}

/// Without a dict there are no new names, and one of whole numbers is taken.
pub proof fn law_whole_names_are_taken(entries: Vec<RemapEntry>)
    ensures
        remap_outcome(None) matches Ok(names) && names is None,
        remap_outcome(Some(entries)) is Ok <==> forall|i: int|
            0 <= i < entries@.len() ==> (#[trigger] entries@[i]).key is Ok && entries@[i].value is Ok,
        remap_outcome(Some(entries)) matches Ok(names) ==> names is Some,
{
    let f = remap_reader(entries@);
    if remap_outcome(Some(entries)) is Ok {
        lemma_collected_items(f, entries@.len());
        assert forall|i: int| 0 <= i < entries@.len() implies (#[trigger] entries@[i]).key is Ok
            && entries@[i].value is Ok by {
            assert(f(i) is Ok);
        }
    }
    if forall|i: int|
        0 <= i < entries@.len() ==> (#[trigger] entries@[i]).key is Ok && entries@[i].value is Ok {
        assert forall|k: int| 0 <= k < entries@.len() implies #[trigger] f(k) is Ok by {
            assert(entries@[k].key is Ok);
        }
        law_first_refusal_counts(f, entries@.len(), 0);
    }
}

/// The pairs stand in the order of their image ids, one for each label map of
/// the ground truth.
pub proof fn law_pairs_stand_in_order(
    pairs: Seq<ImagePair>,
    gt: Seq<(i64, LabelMap)>,
    dt: Seq<(i64, LabelMap)>,
    remap: Option<Map<u32, u32>>,
)
    requires
        pairs_of(pairs_view(pairs), maps_view(gt), maps_view(dt), remap),
    ensures
        pairs.len() == gt.len(),
        forall|i: int, j: int|
            0 <= i < j < pairs.len() ==> (#[trigger] pairs[i]).image_id < (
            #[trigger] pairs[j]).image_id,
{
    let read = pairs_view(pairs);
    assert(read.len() == pairs.len());
    assert(maps_view(gt).len() == gt.len());
    assert forall|i: int, j: int| 0 <= i < j < pairs.len() implies (#[trigger] pairs[i]).image_id < (
    #[trigger] pairs[j]).image_id by {
        assert(read[i].image_id < read[j].image_id);
    }
}

/// The two sides of a pair are the label maps of its own image: that of the
/// ground truth as it is, and the prediction pixel by pixel after renaming.
/// Given back are their places on the two sides.
pub proof fn law_pairs_hold_their_own_images(
    pairs: Seq<ImagePair>,
    gt: Seq<(i64, LabelMap)>,
    dt: Seq<(i64, LabelMap)>,
    remap: Option<Map<u32, u32>>,
    k: int,
) -> (places: (int, int))
    requires
        pairs_of(pairs_view(pairs), maps_view(gt), maps_view(dt), remap),
        0 <= k < pairs.len(),
    ensures
        ({
            let (i, j) = places;
            &&& 0 <= i < gt.len()
            &&& 0 <= j < dt.len()
            &&& gt[i].0 == pairs[k].image_id
            &&& dt[j].0 == pairs[k].image_id
            &&& pairs[k].gt.height == gt[i].1.height
            &&& pairs[k].gt.width == gt[i].1.width
            &&& same_pixels(pairs[k].gt.pixels, gt[i].1.pixels)
            &&& pairs[k].dt.height == dt[j].1.height
            &&& pairs[k].dt.width == dt[j].1.width
            &&& remap is None ==> same_pixels(pairs[k].dt.pixels, dt[j].1.pixels)
            &&& remap matches Some(names) ==> {
                &&& pairs[k].dt.pixels matches PixelBuf::U32(v)
                &&& v@.len() == dt[j].1.pixels@.ids().len()
                &&& forall|x: int|
                    0 <= x < v@.len() ==> #[trigger] v@[x] == if names.dom().contains(
                        dt[j].1.pixels@.ids()[x],
                    ) {
                        names[dt[j].1.pixels@.ids()[x]]
                    } else {
                        dt[j].1.pixels@.ids()[x]
                    }
            }
        }),
{
    let read = pairs_view(pairs);
    let gts = maps_view(gt);
    let dts = maps_view(dt);
    assert(read.len() == pairs.len());
    assert(read[k] == pairs[k]@);
    assert(pair_holds(read[k], gts, dts, remap));
    let p = read[k];
    let i = choose|i: int| 0 <= i < gts.len() && gts[i] == (p.image_id, p.gt);
    assert(gts[i] == (gt[i].0, gt[i].1@));
    let j = choose|j: int|
        0 <= j < dts.len() && #[trigger] dts[j].0 == p.image_id && p.dt == remapped_map(
            remap,
            dts[j].1,
        );
    assert(dts[j] == (dt[j].0, dt[j].1@));
    if let Some(names) = remap {
        let ids = dt[j].1.pixels@.ids();
        assert(pairs[k].dt.pixels@ == PixelsView::U32(remapped(names, ids)));
        if let PixelBuf::U32(v) = pairs[k].dt.pixels {
            assert(v@ == remapped(names, ids));
            assert forall|x: int| 0 <= x < v@.len() implies #[trigger] v@[x]
                == if names.dom().contains(ids[x]) {
                names[ids[x]]
            } else {
                ids[x]
            } by {
                law_renaming_goes_pixel_by_pixel(names, ids, x);
            }
        }
    }
    (i, j)
}

/// Every image of the ground truth is in one of the pairs. Given back is its
/// place.
pub proof fn law_no_image_is_left_out(
    pairs: Seq<ImagePair>,
    gt: Seq<(i64, LabelMap)>,
    dt: Seq<(i64, LabelMap)>,
    remap: Option<Map<u32, u32>>,
    i: int,
) -> (k: int)
    requires
        pairs_of(pairs_view(pairs), maps_view(gt), maps_view(dt), remap),
        0 <= i < gt.len(),
    ensures
        0 <= k < pairs.len(),
        pairs[k].image_id == gt[i].0,
{
    let ids = pair_ids(pairs_view(pairs));
    let want = map_ids(maps_view(gt));
    assert(want[i] == gt[i].0);
    want.to_multiset_ensures();
    ids.to_multiset_ensures();
    assert(want.contains(want[i]));
    assert(want.to_multiset().count(want[i]) > 0);
    assert(ids.contains(want[i]));
    let k = choose|k: int| 0 <= k < ids.len() && ids[k] == want[i];
    assert(pairs_view(pairs)[k] == pairs[k]@);
    k
}

/// Shapes are compared height by height and width by width, and a refusal
/// names the image and both shapes, those of the ground truth first.
pub proof fn law_shapes_are_compared(p: ImagePair)
    ensures
        same_shape(p@) <==> p.gt.height == p.dt.height && p.gt.width == p.dt.width,
        mismatch_of(p@) == (SemanticFault::ShapeMismatch {
            image_id: p.image_id,
            gt_shape: (p.gt.height, p.gt.width),
            dt_shape: (p.dt.height, p.dt.width),
        }),
{
}

/// An image has a prediction exactly where one stands under its id.
pub proof fn law_predictions_are_found_by_id(
    gt: Seq<(i64, LabelMap)>,
    dt: Seq<(i64, LabelMap)>,
    i: int,
    j: int,
)
    ensures
        0 <= j < dt.len() ==> has_image(maps_view(dt), dt[j].0),
        all_predicted(maps_view(gt), maps_view(dt)) && 0 <= i < gt.len() ==> exists|k: int|
            0 <= k < dt.len() && (#[trigger] dt[k]).0 == gt[i].0,
{
    let gts = maps_view(gt);
    let dts = maps_view(dt);
    if 0 <= j < dt.len() {
        assert(dts[j].0 == dt[j].0);
    }
    if all_predicted(gts, dts) && 0 <= i < gt.len() {
        assert(has_image(dts, gts[i].0));
        let k = choose|k: int| 0 <= k < dts.len() && #[trigger] dts[k].0 == gts[i].0;
        assert(dt[k].0 == gt[i].0);
    }
}

/// The sum of numbers goes with each of them: with one replaced it changes by
/// the difference.
pub proof fn law_sum_goes_with_each_number(s: Seq<u64>, i: int, x: u64)
    requires
        0 <= i < s.len(),
    ensures
        sum_of(s.update(i, x)) + s[i] == sum_of(s) + x,
    decreases s.len(),
{
    let t = s.update(i, x);
    if i == s.len() - 1 {
        assert(t.drop_last() =~= s.drop_last());
    } else {
        law_sum_goes_with_each_number(s.drop_last(), i, x);
        assert(t.drop_last() =~= s.drop_last().update(i, x));
    }
}

/// Numbers without any are none, and one number is its own sum.
pub proof fn law_one_number_is_its_sum(x: u64)
    ensures
        sum_of(Seq::empty()) == 0,
        sum_of(seq![x]) == x,
{
    reveal_with_fuel(sum_of, 2);
    assert(seq![x].drop_last() =~= Seq::<u64>::empty());
}

/// The diagonal goes with the numbers on it: with one of them replaced it
/// changes by the difference.
pub proof fn law_diagonal_goes_with_its_numbers(s: Seq<u64>, n: nat, k: nat, c: nat, x: u64)
    requires
        c < k <= n,
        s.len() == n * n,
    ensures
        diagonal_sum(s.update((c * n + c) as int, x), n, k) + s[(c * n + c) as int] == diagonal_sum(s, n, k)
            + x,
    decreases k,
{
    let t = s.update((c * n + c) as int, x);
    let m = (k - 1) as nat;
    lemma_cell(n, m, m);
    lemma_cell(n, c, c);
    if c == m {
        assert forall|a: nat| a < m implies c * n + c != #[trigger] (a * n) + a by {
            assert(a * n + a < c * n + c) by (nonlinear_arith)
                requires
                    a < c,
            ;
        }
        law_diagonal_leaves_others_out(s, n, m, (c * n + c) as int, x);
    } else {
        law_diagonal_goes_with_its_numbers(s, n, m, c, x);
        assert(c * n + c < m * n + m) by (nonlinear_arith)
            requires
                c < m,
        ;
    }
}

/// What is off the diagonal, or beyond its start, does not count on it.
pub proof fn law_diagonal_leaves_others_out(s: Seq<u64>, n: nat, k: nat, i: int, x: u64)
    requires
        k <= n,
        s.len() == n * n,
        0 <= i < s.len(),
        forall|c: nat| c < k ==> i != #[trigger] (c * n) + c,
    ensures
        diagonal_sum(s.update(i, x), n, k) == diagonal_sum(s, n, k),
    decreases k,
{
    if k > 0 {
        let m = (k - 1) as nat;
        law_diagonal_leaves_others_out(s, n, m, i, x);
        lemma_cell(n, m, m);
        assert(i != (m * n) + m);
    }
}

/// An image counts once where it is taken in, and else not at all.
pub proof fn law_one_image_counts_once(image: ImageMatrix, ids: Set<i64>, i: int)
    ensures
        cell_sum(Seq::empty(), ids, i) == 0,
        cell_sum(seq![image], ids, i) == if ids.contains(image.image_id) {
            image.matrix.counts@[i] as nat
        } else {
            0
        },
{
    reveal_with_fuel(cell_sum, 2);
    assert(seq![image].drop_last() =~= Seq::<ImageMatrix>::empty());
}

/// A sum without a set of images takes them all in, and one with a set those
/// of the set.
pub proof fn law_sums_keep_what_is_asked_for(ids: HashSet<i64>, id: i64)
    ensures
        kept(None).contains(id),
        kept(Some(ids)).contains(id) <==> ids@.contains(id),
{
}

/// The matrix of a sum has one number for each pair of classes, and each is
/// the sum of that pair over the images.
pub proof fn law_matrix_is_the_sum(
    m: ConfusionMatrix,
    per_image: Seq<ImageMatrix>,
    ids: Set<i64>,
    n_classes: u32,
    g: int,
    d: int,
)
    requires
        sums_up(m, per_image, ids, n_classes),
        0 <= g < n_classes,
        0 <= d < n_classes,
    ensures
        m.n_classes == n_classes,
        m.counts@.len() == n_classes * n_classes,
        m.counts@[g * n_classes + d] == cell_sum(per_image, ids, g * n_classes + d),
{
    lemma_cell(n_classes as nat, g as nat, d as nat);
}

/// The row of a slice is about its slice, with its own numbers in their own
/// places; a slice without images has zeros.
pub proof fn law_slice_row_is_about_its_slice(
    row: SemanticSliceRow,
    slice: SliceSpec,
    metrics: Option<SemanticMetrics>,
)
    requires
        is_slice_row(row, slice, metrics),
    ensures
        row.axis@ == slice.axis@,
        row.value@ == slice.value@,
        row.n_images == slice.image_ids@.to_set().len(),
        row.n_detections == 0,
        slice.image_ids@.len() > 0 ==> (metrics matches Some(m) && row.miou == m.miou && row.fwiou
            == m.fwiou && row.pixel_accuracy == m.pixel_accuracy && row.mean_accuracy
            == m.mean_accuracy),
        slice.image_ids@.len() == 0 ==> row.miou == 0 && row.fwiou == 0 && row.pixel_accuracy == 0
            && row.mean_accuracy == 0,
{
}

/// Every path stands with its own image id, in the order of the dict.
pub proof fn law_paths_stay_with_their_image<P>(
    entries: Seq<PathEntry<P>>,
    label: Seq<char>,
    read: Seq<(i64, P)>,
)
    requires
        paths_outcome(entries, label) == Ok::<Seq<(i64, P)>, FailureView>(read),
    ensures
        read.len() == entries.len(),
        forall|i: int|
            0 <= i < read.len() ==> entries[i].key == Ok::<i64, String>((#[trigger] read[i]).0)
                && entries[i].value == Ok::<P, String>(read[i].1),
{
    let f = path_reader(entries, label);
    lemma_collected_items(f, entries.len());
    assert forall|i: int| 0 <= i < read.len() implies entries[i].key == Ok::<i64, String>(
        (#[trigger] read[i]).0,
    ) && entries[i].value == Ok::<P, String>(read[i].1) by {
        assert(f(i) == Ok::<(i64, P), FailureView>(read[i]));
    }
}

/// A dict of paths is taken exactly where every key is an id and every value
/// a path.
pub proof fn law_whole_paths_are_taken<P>(entries: Seq<PathEntry<P>>, label: Seq<char>)
    ensures
        paths_outcome(entries, label) is Ok <==> forall|i: int|
            0 <= i < entries.len() ==> (#[trigger] entries[i]).key is Ok && entries[i].value is Ok,
{
    let f = path_reader(entries, label);
    if paths_outcome(entries, label) is Ok {
        lemma_collected_items(f, entries.len());
        assert forall|i: int| 0 <= i < entries.len() implies (#[trigger] entries[i]).key is Ok
            && entries[i].value is Ok by {
            assert(f(i) is Ok);
        }
    }
    if forall|i: int|
        0 <= i < entries.len() ==> (#[trigger] entries[i]).key is Ok && entries[i].value is Ok {
        assert forall|k: int| 0 <= k < entries.len() implies #[trigger] f(k) is Ok by {
            assert(entries[k].key is Ok);
        }
        law_first_refusal_counts(f, entries.len(), 0);
    }
}

/// The last path that is given for an image stands.
pub proof fn law_last_path_stands<P>(s: Seq<(i64, P)>, i: int)
    requires
        0 <= i < s.len(),
    ensures
        paths_map(s).dom().contains(s[i].0),
        (forall|j: int| i < j < s.len() ==> (#[trigger] s[j]).0 != s[i].0) ==> paths_map(s)[s[i].0]
            == s[i].1,
    decreases s.len(),
{
    if i < s.len() - 1 {
        let rest = s.drop_last();
        law_last_path_stands(rest, i);
        if forall|j: int| i < j < s.len() ==> (#[trigger] s[j]).0 != s[i].0 {
            assert(s[s.len() - 1].0 != s[i].0);
            assert forall|j: int| i < j < rest.len() implies (#[trigger] rest[j]).0
                != rest[i].0 by {
                assert(s[j].0 != s[i].0);
            }
        }
    }
}

/// A path stands under no image id that none was given for.
pub proof fn law_paths_come_from_entries<P>(s: Seq<(i64, P)>, id: i64) -> (i: int)
    requires
        paths_map(s).dom().contains(id),
    ensures
        0 <= i < s.len(),
        s[i].0 == id,
        paths_map(s)[id] == s[i].1,
    decreases s.len(),
{
    if s.last().0 == id {
        s.len() - 1
    } else {
        law_paths_come_from_entries(s.drop_last(), id)
    }
}

/// What is asked for with one image is what was given: the arrays of the two
/// sides, of one shape, under the id, and the time to wait.
pub proof fn law_submitted_images_are_those_given(
    image_id: i64,
    gt: LabelObject,
    dt: LabelObject,
    timeout: Option<u64>,
)
    ensures
        submit_outcome(image_id, gt, dt, timeout) matches Ok((pair, t)) ==> {
            &&& pair.image_id == image_id
            &&& t == timeout
            &&& gt matches LabelObject::Array(h, w, p)
            &&& dt matches LabelObject::Array(k, v, q)
            &&& h == k
            &&& w == v
            &&& pair.gt == (LabelMapView { height: h as u32, width: w as u32, pixels: p@ })
            &&& pair.dt == (LabelMapView { height: k as u32, width: v as u32, pixels: q@ })
        },
        submit_outcome(image_id, gt, dt, timeout) matches Err(Ok(fault)) ==> {
            &&& gt matches LabelObject::Array(h, w, _)
            &&& dt matches LabelObject::Array(k, v, _)
            &&& h != k || w != v
            &&& fault == (SemanticFault::ShapeMismatch {
                image_id,
                gt_shape: (h as u32, w as u32),
                dt_shape: (k as u32, v as u32),
            })
        },
{
    if let Some(seconds) = timeout {
        law_waits_are_kept(seconds);
    } else {
        law_waits_are_kept(0);
    }
}

/// Arrays of one shape that fit are taken, whatever their widths.
pub proof fn law_fitting_images_are_submitted(
    image_id: i64,
    h: usize,
    w: usize,
    gt: PixelBuf,
    dt: PixelBuf,
)
    requires
        h <= u32::MAX,
        w <= u32::MAX,
    ensures
        submit_outcome(
            image_id,
            LabelObject::Array(h, w, gt),
            LabelObject::Array(h, w, dt),
            None,
        ) is Ok,
{
    law_waits_are_kept(0);
}

/// Only errors of partial results are raised as such; every other is a wrong
/// value with its own text.
pub proof fn law_semantic_errors_keep_their_text(error: PartialError, text: String)
    ensures
        semantic_raised(SemanticError::Partial { error, text }) == partial_raised(error, text@),
        semantic_raised(SemanticError::Other { text }).class is ValueError,
        semantic_raised(SemanticError::Other { text }).message == text@,
{
}

/// The pair that a refusal is about is the first whose label maps differ in
/// shape, and there is one such pair only.
pub proof fn law_first_mismatch_is_told(pairs: Seq<PairView>, i: int, j: int)
    requires
        first_mismatch(pairs, i),
    ensures
        0 <= i < pairs.len(),
        pairs[i].gt.height != pairs[i].dt.height || pairs[i].gt.width != pairs[i].dt.width,
        0 <= j < i ==> pairs[j].gt.height == pairs[j].dt.height && pairs[j].gt.width
            == pairs[j].dt.width,
        first_mismatch(pairs, j) ==> i == j,
{
    if 0 <= j < i {
        assert(same_shape(pairs[j]));
    }
    if first_mismatch(pairs, j) && i < j {
        assert(same_shape(pairs[i]));
    }
}

/// Pairs of which the last alone differs in shape are refused for the last.
pub proof fn law_every_mismatch_is_told(pairs: Seq<PairView>)
    requires
        pairs.len() > 0,
        forall|k: int| 0 <= k < pairs.len() - 1 ==> same_shape(#[trigger] pairs[k]),
        !same_shape(pairs.last()),
    ensures
        first_mismatch(pairs, pairs.len() - 1),
{
}

} // verus!
