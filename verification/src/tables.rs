//! Result tables as record batches.
//!
//! Every table has a fixed list of columns. Every schema here is stamped
//! with the version of its layout and the name of its table, and that of a
//! slice table also with its paradigm and its metric, so that a reader can
//! tell the tables apart without looking at column names.

use crate::batch::{
    batch_columns, batch_metadata, build_batch, columns_agree, columns_view, keys_in_range,
    label_cells, opt_int_cells, opt_real_cells, pairs_map, quad_cells, text_bytes, text_cells,
    Batch, CellView, Cells, ColumnView, KindView, TableColumn,
};
use crate::model::Bbox;
use vstd::prelude::*;

verus! {

/// The key of the layout's version.
pub const META_SCHEMA_VERSION: &'static str = "vernier.schema_version";

/// The key of the table's name.
pub const META_TABLE: &'static str = "vernier.table";

/// The key of a slice table's paradigm.
pub const META_PARADIGM: &'static str = "vernier.paradigm";

/// The key of a slice table's metric.
pub const META_METRIC: &'static str = "vernier.metric";

/// The bit pattern of the float64 that is written where a number is missing.
pub const NAN_BITS: u64 = 0x7FF8_0000_0000_0000;

/// The stamp of a result table.
pub open spec fn table_stamp(name: Seq<char>) -> Map<Seq<char>, Seq<char>> {
    Map::<Seq<char>, Seq<char>>::empty().insert(META_SCHEMA_VERSION@, "1"@).insert(
        META_TABLE@,
        name,
    )
}

/// The stamp of a slice table.
pub open spec fn slices_stamp(paradigm: Seq<char>, metric: Seq<char>) -> Map<Seq<char>, Seq<char>> {
    table_stamp("slices"@).insert(META_PARADIGM@, paradigm).insert(META_METRIC@, metric)
}

/// Adds one entry to a stamp.
fn stamp(m: &mut Vec<(String, String)>, key: &str, value: &str)
    ensures
        pairs_map(final(m)@) == pairs_map(old(m)@).insert(key@, value@),
{
    m.push((String::from_str(key), String::from_str(value)));
    assert(m@.drop_last() =~= old(m)@);
}

/// The stamp of a result table.
pub fn table_metadata(name: &str) -> (m: Vec<(String, String)>)
    ensures
        pairs_map(m@) == table_stamp(name@),
{
    let mut m: Vec<(String, String)> = Vec::new();
    stamp(&mut m, META_SCHEMA_VERSION, "1");
    stamp(&mut m, META_TABLE, name);
    m
}

/// The stamp of a slice table.
pub fn slices_metadata(paradigm: &str, metric: &str) -> (m: Vec<(String, String)>)
    ensures
        pairs_map(m@) == slices_stamp(paradigm@, metric@),
{
    let mut m = table_metadata("slices");
    stamp(&mut m, META_PARADIGM, paradigm);
    stamp(&mut m, META_METRIC, metric);
    m
}

/// What building a batch of these columns with this stamp gives: the batch
/// that holds them, or a refusal exactly where two columns differ in length
/// or a null stands where none is declared.
pub open spec fn builds(
    r: Result<Batch, String>,
    columns: Seq<ColumnView>,
    stamp: Map<Seq<char>, Seq<char>>,
) -> bool {
    &&& r is Ok <==> columns_agree(columns)
    &&& r matches Ok(b) ==> batch_columns(b) == columns && batch_metadata(b) == stamp
}

// ---------------------------------------------------------------------------
// Columns
// ---------------------------------------------------------------------------

pub open spec fn i64_column(name: Seq<char>, v: Seq<i64>) -> ColumnView {
    ColumnView {
        name,
        nullable: false,
        kind: KindView::Int64,
        cells: v.map_values(|n: i64| CellView::Int(n as int)),
    }
}

pub open spec fn opt_i64_column(name: Seq<char>, v: Seq<Option<i64>>) -> ColumnView {
    ColumnView { name, nullable: true, kind: KindView::Int64, cells: opt_int_cells(v) }
}

pub open spec fn u32_column(name: Seq<char>, v: Seq<u32>) -> ColumnView {
    ColumnView {
        name,
        nullable: false,
        kind: KindView::UInt32,
        cells: v.map_values(|n: u32| CellView::Int(n as int)),
    }
}

pub open spec fn u64_column(name: Seq<char>, v: Seq<u64>) -> ColumnView {
    ColumnView {
        name,
        nullable: false,
        kind: KindView::UInt64,
        cells: v.map_values(|n: u64| CellView::Int(n as int)),
    }
}

pub open spec fn real_column(name: Seq<char>, v: Seq<u64>) -> ColumnView {
    ColumnView {
        name,
        nullable: false,
        kind: KindView::Float64,
        cells: v.map_values(|bits: u64| CellView::Real(bits)),
    }
}

pub open spec fn opt_real_column(name: Seq<char>, v: Seq<Option<u64>>) -> ColumnView {
    ColumnView { name, nullable: true, kind: KindView::Float64, cells: opt_real_cells(v) }
}

pub open spec fn text_column(name: Seq<char>, v: Seq<String>) -> ColumnView {
    ColumnView { name, nullable: false, kind: KindView::Utf8, cells: text_cells(v) }
}

pub(crate) fn i64s(name: &'static str, v: Vec<i64>) -> (c: TableColumn)
    ensures
        c@ == i64_column(name@, v@),
        c.cells.fits() && c.cells.labelled(),
{
    TableColumn { name, nullable: false, cells: Cells::Int64(v) }
}

pub(crate) fn opt_i64s(name: &'static str, v: Vec<Option<i64>>) -> (c: TableColumn)
    ensures
        c@ == opt_i64_column(name@, v@),
        c.cells.fits() && c.cells.labelled(),
{
    TableColumn { name, nullable: true, cells: Cells::OptInt64(v) }
}

pub(crate) fn u32s(name: &'static str, v: Vec<u32>) -> (c: TableColumn)
    ensures
        c@ == u32_column(name@, v@),
        c.cells.fits() && c.cells.labelled(),
{
    TableColumn { name, nullable: false, cells: Cells::UInt32(v) }
}

pub(crate) fn u64s(name: &'static str, v: Vec<u64>) -> (c: TableColumn)
    ensures
        c@ == u64_column(name@, v@),
        c.cells.fits() && c.cells.labelled(),
{
    TableColumn { name, nullable: false, cells: Cells::UInt64(v) }
}

pub(crate) fn reals(name: &'static str, v: Vec<u64>) -> (c: TableColumn)
    ensures
        c@ == real_column(name@, v@),
        c.cells.fits() && c.cells.labelled(),
{
    TableColumn { name, nullable: false, cells: Cells::Float64(v) }
}

pub(crate) fn opt_reals(name: &'static str, v: Vec<Option<u64>>) -> (c: TableColumn)
    ensures
        c@ == opt_real_column(name@, v@),
        c.cells.fits() && c.cells.labelled(),
{
    TableColumn { name, nullable: true, cells: Cells::OptFloat64(v) }
}

pub(crate) fn texts(name: &'static str, v: Vec<String>) -> (c: TableColumn)
    requires
        text_bytes(v@) <= i32::MAX,
    ensures
        c@ == text_column(name@, v@),
        c.cells.fits() && c.cells.labelled(),
{
    TableColumn { name, nullable: false, cells: Cells::Text(v) }
}

// ---------------------------------------------------------------------------
// Instance tables
// ---------------------------------------------------------------------------

/// Results by category.
#[derive(Debug)]
pub struct PerClassTable {
    pub category_id: Vec<i64>,
    pub category_name: Vec<String>,
    pub ap: Vec<Option<u64>>,
    pub ap50: Vec<Option<u64>>,
    pub ap75: Vec<Option<u64>>,
    pub ap_s: Vec<Option<u64>>,
    pub ap_m: Vec<Option<u64>>,
    pub ap_l: Vec<Option<u64>>,
    pub ar_max_1: Vec<Option<u64>>,
    pub ar_max_10: Vec<Option<u64>>,
    pub ar_max_100: Vec<Option<u64>>,
    pub n_gt: Vec<u32>,
    pub n_dt: Vec<u32>,
}

pub open spec fn per_class_columns(t: PerClassTable) -> Seq<ColumnView> {
    seq![
        i64_column("category_id"@, t.category_id@),
        text_column("category_name"@, t.category_name@),
        opt_real_column("ap"@, t.ap@),
        opt_real_column("ap50"@, t.ap50@),
        opt_real_column("ap75"@, t.ap75@),
        opt_real_column("ap_s"@, t.ap_s@),
        opt_real_column("ap_m"@, t.ap_m@),
        opt_real_column("ap_l"@, t.ap_l@),
        opt_real_column("ar_max_1"@, t.ar_max_1@),
        opt_real_column("ar_max_10"@, t.ar_max_10@),
        opt_real_column("ar_max_100"@, t.ar_max_100@),
        u32_column("n_gt"@, t.n_gt@),
        u32_column("n_dt"@, t.n_dt@),
    ]
}

/// The batch of results by category.
pub fn per_class_record_batch(t: PerClassTable) -> (r: Result<Batch, String>)
    requires
        text_bytes(t.category_name@) <= i32::MAX,
    ensures
        builds(r, per_class_columns(t), table_stamp("per_class"@)),
{
    let ghost want = per_class_columns(t);
    let columns: Vec<TableColumn> = vec![
        i64s("category_id", t.category_id),
        texts("category_name", t.category_name),
        opt_reals("ap", t.ap),
        opt_reals("ap50", t.ap50),
        opt_reals("ap75", t.ap75),
        opt_reals("ap_s", t.ap_s),
        opt_reals("ap_m", t.ap_m),
        opt_reals("ap_l", t.ap_l),
        opt_reals("ar_max_1", t.ar_max_1),
        opt_reals("ar_max_10", t.ar_max_10),
        opt_reals("ar_max_100", t.ar_max_100),
        u32s("n_gt", t.n_gt),
        u32s("n_dt", t.n_dt),
    ];
    assert(columns_view(columns@) =~= want);
    build_batch(columns, table_metadata("per_class"))
}

/// Results by image.
#[derive(Debug)]
pub struct PerImageTable {
    pub image_id: Vec<i64>,
    pub n_gt: Vec<u32>,
    pub n_dt: Vec<u32>,
    pub tp_at_50: Vec<u32>,
    pub fp_at_50: Vec<u32>,
    pub fn_at_50: Vec<u32>,
    pub tp_at_75: Vec<u32>,
    pub fp_at_75: Vec<u32>,
    pub fn_at_75: Vec<u32>,
    pub tp_mean_iou: Vec<u32>,
}

/// There is no average precision here: that of one image is degenerate.
pub open spec fn per_image_columns(t: PerImageTable) -> Seq<ColumnView> {
    seq![
        i64_column("image_id"@, t.image_id@),
        u32_column("n_gt"@, t.n_gt@),
        u32_column("n_dt"@, t.n_dt@),
        u32_column("tp_at_50"@, t.tp_at_50@),
        u32_column("fp_at_50"@, t.fp_at_50@),
        u32_column("fn_at_50"@, t.fn_at_50@),
        u32_column("tp_at_75"@, t.tp_at_75@),
        u32_column("fp_at_75"@, t.fp_at_75@),
        u32_column("fn_at_75"@, t.fn_at_75@),
        u32_column("tp_mean_iou"@, t.tp_mean_iou@),
    ]
}

/// The batch of results by image.
pub fn per_image_record_batch(t: PerImageTable) -> (r: Result<Batch, String>)
    ensures
        builds(r, per_image_columns(t), table_stamp("per_image"@)),
{
    let ghost want = per_image_columns(t);
    let columns: Vec<TableColumn> = vec![
        i64s("image_id", t.image_id),
        u32s("n_gt", t.n_gt),
        u32s("n_dt", t.n_dt),
        u32s("tp_at_50", t.tp_at_50),
        u32s("fp_at_50", t.fp_at_50),
        u32s("fn_at_50", t.fn_at_50),
        u32s("tp_at_75", t.tp_at_75),
        u32s("fp_at_75", t.fp_at_75),
        u32s("fn_at_75", t.fn_at_75),
        u32s("tp_mean_iou", t.tp_mean_iou),
    ];
    assert(columns_view(columns@) =~= want);
    build_batch(columns, table_metadata("per_image"))
}

/// Results by detection.
#[derive(Debug)]
pub struct PerDetectionTable {
    pub detection_id: Vec<i64>,
    pub image_id: Vec<i64>,
    pub category_id: Vec<i64>,
    pub score: Vec<u64>,
    pub area: Vec<u64>,
    /// The number of each detection's status.
    pub match_status_at_50: Vec<i32>,
    /// The statuses that the numbers stand for.
    pub status_labels: Vec<String>,
    pub matched_gt_id_at_50: Vec<Option<i64>>,
    pub best_iou: Vec<Option<u64>>,
    /// The boxes, where geometry was asked for.
    pub bbox: Option<Vec<Bbox>>,
}

/// Boxes as cells of four floats.
pub open spec fn box_cells(boxes: Seq<Bbox>) -> Seq<CellView> {
    boxes.map_values(|b: Bbox| CellView::Quad(b.x, b.y, b.w, b.h))
}

pub open spec fn label_column(name: Seq<char>, keys: Seq<i32>, values: Seq<String>) -> ColumnView {
    ColumnView {
        name,
        nullable: false,
        kind: KindView::Labels,
        cells: label_cells(keys, values),
    }
}

pub open spec fn box_column(name: Seq<char>, boxes: Seq<Bbox>) -> ColumnView {
    ColumnView { name, nullable: false, kind: KindView::Quads, cells: box_cells(boxes) }
}

/// The boxes come last, and only where geometry was asked for.
pub open spec fn per_detection_columns(t: PerDetectionTable) -> Seq<ColumnView> {
    let base = seq![
        i64_column("detection_id"@, t.detection_id@),
        i64_column("image_id"@, t.image_id@),
        i64_column("category_id"@, t.category_id@),
        real_column("score"@, t.score@),
        real_column("area"@, t.area@),
        label_column("match_status_at_50"@, t.match_status_at_50@, t.status_labels@),
        opt_i64_column("matched_gt_id_at_50"@, t.matched_gt_id_at_50@),
        opt_real_column("best_iou"@, t.best_iou@),
    ];
    match t.bbox {
        None => base,
        Some(boxes) => base.push(box_column("bbox_xywh"@, boxes@)),
    }
}

/// Boxes as one flat list.
fn flatten_boxes(boxes: &Vec<Bbox>) -> (flat: Vec<u64>)
    ensures
        flat@.len() == 4 * boxes@.len(),
        quad_cells(flat@) == box_cells(boxes@),
{
    let mut flat: Vec<u64> = Vec::new();
    let mut i: usize = 0;
    while i < boxes.len()
        invariant
            i <= boxes.len(),
            flat@.len() == 4 * i,
            forall|k: int|
                0 <= k < i ==> {
                    &&& flat@[4 * k] == (#[trigger] boxes@[k]).x
                    &&& flat@[4 * k + 1] == boxes@[k].y
                    &&& flat@[4 * k + 2] == boxes@[k].w
                    &&& flat@[4 * k + 3] == boxes@[k].h
                },
        decreases boxes.len() - i,
    {
        let b = boxes[i];
        flat.push(b.x);
        flat.push(b.y);
        flat.push(b.w);
        flat.push(b.h);
        i += 1;
    }
    assert(quad_cells(flat@) =~= box_cells(boxes@));
    flat
}

/// The batch of results by detection. A status number without a label is
/// refused.
pub fn per_detection_record_batch(t: PerDetectionTable) -> (r: Result<Batch, String>)
    requires
        text_bytes(t.status_labels@) <= i32::MAX,
    ensures
        keys_in_range(t.match_status_at_50@, t.status_labels@) ==> builds(
            r,
            per_detection_columns(t),
            table_stamp("per_detection"@),
        ),
        !keys_in_range(t.match_status_at_50@, t.status_labels@) ==> r is Err,
{
    let ghost want = per_detection_columns(t);
    let ghost given = t;
    let mut columns: Vec<TableColumn> = vec![
        i64s("detection_id", t.detection_id),
        i64s("image_id", t.image_id),
        i64s("category_id", t.category_id),
        reals("score", t.score),
        reals("area", t.area),
        TableColumn {
            name: "match_status_at_50",
            nullable: false,
            cells: Cells::Labels(t.match_status_at_50, t.status_labels),
        },
        opt_i64s("matched_gt_id_at_50", t.matched_gt_id_at_50),
        opt_reals("best_iou", t.best_iou),
    ];
    if let Some(boxes) = &t.bbox {
        let flat = flatten_boxes(boxes);
        columns.push(
            TableColumn { name: "bbox_xywh", nullable: false, cells: Cells::Quads(flat) },
        );
    }
    proof {
        assert(columns_view(columns@) =~= want);
        assert(columns@[5].cells.labelled() <==> keys_in_range(
            given.match_status_at_50@,
            given.status_labels@,
        ));
    }
    build_batch(columns, table_metadata("per_detection"))
}

/// Overlaps by pair.
#[derive(Debug)]
pub struct PerPairTable {
    pub detection_id: Vec<i64>,
    pub ground_truth_id: Vec<i64>,
    pub image_id: Vec<i64>,
    pub category_id: Vec<i64>,
    pub iou: Vec<u64>,
}

pub open spec fn per_pair_columns(t: PerPairTable) -> Seq<ColumnView> {
    seq![
        i64_column("detection_id"@, t.detection_id@),
        i64_column("ground_truth_id"@, t.ground_truth_id@),
        i64_column("image_id"@, t.image_id@),
        i64_column("category_id"@, t.category_id@),
        real_column("iou"@, t.iou@),
    ]
}

/// The batch of overlaps by pair.
pub fn per_pair_record_batch(t: PerPairTable) -> (r: Result<Batch, String>)
    ensures
        builds(r, per_pair_columns(t), table_stamp("per_pair"@)),
{
    let ghost want = per_pair_columns(t);
    let columns: Vec<TableColumn> = vec![
        i64s("detection_id", t.detection_id),
        i64s("ground_truth_id", t.ground_truth_id),
        i64s("image_id", t.image_id),
        i64s("category_id", t.category_id),
        reals("iou", t.iou),
    ];
    assert(columns_view(columns@) =~= want);
    build_batch(columns, table_metadata("per_pair"))
}

// ---------------------------------------------------------------------------
// Slice tables
// ---------------------------------------------------------------------------

/// The detection results of one slice.
#[derive(Debug)]
pub struct InstanceSliceRow {
    pub axis: String,
    pub value: String,
    pub n_images: u64,
    pub n_detections: u64,
    pub stats: Vec<u64>,
}

/// One statistic of a slice, not a number where the slice has too few.
pub open spec fn stat_at(stats: Seq<u64>, j: int) -> u64 {
    if 0 <= j < stats.len() {
        stats[j]
    } else {
        NAN_BITS
    }
}

/// One statistic of every slice.
pub open spec fn stats_at(rows: Seq<InstanceSliceRow>, j: int) -> Seq<u64> {
    rows.map_values(|r: InstanceSliceRow| stat_at(r.stats@, j))
}

/// The columns of the detection results: the twelve statistics side by side.
pub open spec fn slices_instance_ap_columns(rows: Seq<InstanceSliceRow>) -> Seq<ColumnView> {
    seq![
        text_column("axis"@, rows.map_values(|r: InstanceSliceRow| r.axis)),
        text_column("value"@, rows.map_values(|r: InstanceSliceRow| r.value)),
        u64_column("n_images"@, rows.map_values(|r: InstanceSliceRow| r.n_images)),
        u64_column("n_detections"@, rows.map_values(|r: InstanceSliceRow| r.n_detections)),
        real_column("ap"@, stats_at(rows, 0)),
        real_column("ap50"@, stats_at(rows, 1)),
        real_column("ap75"@, stats_at(rows, 2)),
        real_column("ap_s"@, stats_at(rows, 3)),
        real_column("ap_m"@, stats_at(rows, 4)),
        real_column("ap_l"@, stats_at(rows, 5)),
        real_column("ar_max_1"@, stats_at(rows, 6)),
        real_column("ar_max_10"@, stats_at(rows, 7)),
        real_column("ar_max_100"@, stats_at(rows, 8)),
        real_column("ar_s"@, stats_at(rows, 9)),
        real_column("ar_m"@, stats_at(rows, 10)),
        real_column("ar_l"@, stats_at(rows, 11)),
    ]
}

/// One statistic of every slice.
fn stat_column(stats: &Vec<Vec<u64>>, j: usize) -> (column: Vec<u64>)
    ensures
        column@ == stats@.map_values(|s: Vec<u64>| stat_at(s@, j as int)),
{
    let mut column: Vec<u64> = Vec::new();
    let mut i: usize = 0;
    while i < stats.len()
        invariant
            i <= stats.len(),
            column@ == stats@.take(i as int).map_values(|s: Vec<u64>| stat_at(s@, j as int)),
        decreases stats.len() - i,
    {
        assert(stats@.take(i + 1) == stats@.take(i as int).push(stats@[i as int]));
        if j < stats[i].len() {
            column.push(stats[i][j]);
        } else {
            column.push(NAN_BITS);
        }
        i += 1;
    }
    assert(stats@.take(stats@.len() as int) == stats@);
    column
}

/// The batch of detection results, one row per slice.
pub fn slices_record_batch_instance_ap(rows: Vec<InstanceSliceRow>) -> (r: Result<Batch, String>)
    requires
        text_bytes(rows@.map_values(|r: InstanceSliceRow| r.axis)) <= i32::MAX,
        text_bytes(rows@.map_values(|r: InstanceSliceRow| r.value)) <= i32::MAX,
    ensures
        builds(r, slices_instance_ap_columns(rows@), slices_stamp("instance"@, "ap"@)),
{
    let ghost given = rows@;
    let mut axis: Vec<String> = Vec::new();
    let mut value: Vec<String> = Vec::new();
    let mut n_images: Vec<u64> = Vec::new();
    let mut n_detections: Vec<u64> = Vec::new();
    let mut stats: Vec<Vec<u64>> = Vec::new();
    for row in iter: rows
        invariant
            iter.seq() == given,
            axis@ == given.take(iter.index() as int).map_values(|r: InstanceSliceRow| r.axis),
            value@ == given.take(iter.index() as int).map_values(|r: InstanceSliceRow| r.value),
            n_images@ == given.take(iter.index() as int).map_values(
                |r: InstanceSliceRow| r.n_images,
            ),
            n_detections@ == given.take(iter.index() as int).map_values(
                |r: InstanceSliceRow| r.n_detections,
            ),
            stats@ == given.take(iter.index() as int).map_values(|r: InstanceSliceRow| r.stats),
    {
        let ghost next = given.take(iter.index() + 1);
        assert(next == given.take(iter.index() as int).push(row));
        axis.push(row.axis);
        value.push(row.value);
        n_images.push(row.n_images);
        n_detections.push(row.n_detections);
        stats.push(row.stats);
    }
    assert(given.take(given.len() as int) == given);
    let columns: Vec<TableColumn> = vec![
        texts("axis", axis),
        texts("value", value),
        u64s("n_images", n_images),
        u64s("n_detections", n_detections),
        reals("ap", stat_column(&stats, 0)),
        reals("ap50", stat_column(&stats, 1)),
        reals("ap75", stat_column(&stats, 2)),
        reals("ap_s", stat_column(&stats, 3)),
        reals("ap_m", stat_column(&stats, 4)),
        reals("ap_l", stat_column(&stats, 5)),
        reals("ar_max_1", stat_column(&stats, 6)),
        reals("ar_max_10", stat_column(&stats, 7)),
        reals("ar_max_100", stat_column(&stats, 8)),
        reals("ar_s", stat_column(&stats, 9)),
        reals("ar_m", stat_column(&stats, 10)),
        reals("ar_l", stat_column(&stats, 11)),
    ];
    proof {
        assert forall|j: int| stats@.map_values(|s: Vec<u64>| stat_at(s@, j)) == #[trigger] stats_at(
            given,
            j,
        ) by {
            assert(stats@.map_values(|s: Vec<u64>| stat_at(s@, j)) =~= stats_at(given, j));
        }
        assert(columns_view(columns@) =~= slices_instance_ap_columns(given));
    }
    build_batch(columns, slices_metadata("instance", "ap"))
}

/// The panoptic results of one slice.
#[derive(Debug)]
pub struct PanopticSliceRow {
    pub axis: String,
    pub value: String,
    pub n_images: u64,
    pub n_detections: u64,
    pub pq: u64,
    pub sq: u64,
    pub rq: u64,
}

pub open spec fn slices_panoptic_columns(rows: Seq<PanopticSliceRow>) -> Seq<ColumnView> {
    seq![
        text_column("axis"@, rows.map_values(|r: PanopticSliceRow| r.axis)),
        text_column("value"@, rows.map_values(|r: PanopticSliceRow| r.value)),
        u64_column("n_images"@, rows.map_values(|r: PanopticSliceRow| r.n_images)),
        u64_column("n_detections"@, rows.map_values(|r: PanopticSliceRow| r.n_detections)),
        real_column("pq"@, rows.map_values(|r: PanopticSliceRow| r.pq)),
        real_column("sq"@, rows.map_values(|r: PanopticSliceRow| r.sq)),
        real_column("rq"@, rows.map_values(|r: PanopticSliceRow| r.rq)),
    ]
}

/// The batch of panoptic results, one row per slice.
pub fn slices_record_batch_panoptic(rows: Vec<PanopticSliceRow>) -> (r: Result<Batch, String>)
    requires
        text_bytes(rows@.map_values(|r: PanopticSliceRow| r.axis)) <= i32::MAX,
        text_bytes(rows@.map_values(|r: PanopticSliceRow| r.value)) <= i32::MAX,
    ensures
        builds(r, slices_panoptic_columns(rows@), slices_stamp("panoptic"@, "pq"@)),
{
    let ghost given = rows@;
    let mut axis: Vec<String> = Vec::new();
    let mut value: Vec<String> = Vec::new();
    let mut n_images: Vec<u64> = Vec::new();
    let mut n_detections: Vec<u64> = Vec::new();
    let mut pq: Vec<u64> = Vec::new();
    let mut sq: Vec<u64> = Vec::new();
    let mut rq: Vec<u64> = Vec::new();
    for row in iter: rows
        invariant
            iter.seq() == given,
            axis@ == given.take(iter.index() as int).map_values(|r: PanopticSliceRow| r.axis),
            value@ == given.take(iter.index() as int).map_values(|r: PanopticSliceRow| r.value),
            n_images@ == given.take(iter.index() as int).map_values(|r: PanopticSliceRow| r.n_images),
            n_detections@ == given.take(iter.index() as int).map_values(|r: PanopticSliceRow| r.n_detections),
            pq@ == given.take(iter.index() as int).map_values(|r: PanopticSliceRow| r.pq),
            sq@ == given.take(iter.index() as int).map_values(|r: PanopticSliceRow| r.sq),
            rq@ == given.take(iter.index() as int).map_values(|r: PanopticSliceRow| r.rq),
    {
        let ghost next = given.take(iter.index() + 1);
        assert(next == given.take(iter.index() as int).push(row));
        axis.push(row.axis);
        value.push(row.value);
        n_images.push(row.n_images);
        n_detections.push(row.n_detections);
        pq.push(row.pq);
        sq.push(row.sq);
        rq.push(row.rq);
    }
    assert(given.take(given.len() as int) == given);
    let columns: Vec<TableColumn> = vec![
        texts("axis", axis),
        texts("value", value),
        u64s("n_images", n_images),
        u64s("n_detections", n_detections),
        reals("pq", pq),
        reals("sq", sq),
        reals("rq", rq),
    ];
    assert(columns_view(columns@) =~= slices_panoptic_columns(given));
    build_batch(columns, slices_metadata("panoptic", "pq"))
}

/// The semantic results of one slice.
#[derive(Debug)]
pub struct SemanticSliceRow {
    pub axis: String,
    pub value: String,
    pub n_images: u64,
    pub n_detections: u64,
    pub miou: u64,
    pub fwiou: u64,
    pub pixel_accuracy: u64,
    pub mean_accuracy: u64,
}

pub open spec fn slices_semantic_columns(rows: Seq<SemanticSliceRow>) -> Seq<ColumnView> {
    seq![
        text_column("axis"@, rows.map_values(|r: SemanticSliceRow| r.axis)),
        text_column("value"@, rows.map_values(|r: SemanticSliceRow| r.value)),
        u64_column("n_images"@, rows.map_values(|r: SemanticSliceRow| r.n_images)),
        u64_column("n_detections"@, rows.map_values(|r: SemanticSliceRow| r.n_detections)),
        real_column("miou"@, rows.map_values(|r: SemanticSliceRow| r.miou)),
        real_column("fwiou"@, rows.map_values(|r: SemanticSliceRow| r.fwiou)),
        real_column("pixel_accuracy"@, rows.map_values(|r: SemanticSliceRow| r.pixel_accuracy)),
        real_column("mean_accuracy"@, rows.map_values(|r: SemanticSliceRow| r.mean_accuracy)),
    ]
}

/// The batch of semantic results, one row per slice.
pub fn slices_record_batch_semantic(rows: Vec<SemanticSliceRow>) -> (r: Result<Batch, String>)
    requires
        text_bytes(rows@.map_values(|r: SemanticSliceRow| r.axis)) <= i32::MAX,
        text_bytes(rows@.map_values(|r: SemanticSliceRow| r.value)) <= i32::MAX,
    ensures
        builds(r, slices_semantic_columns(rows@), slices_stamp("semantic"@, "miou"@)),
{
    let ghost given = rows@;
    let mut axis: Vec<String> = Vec::new();
    let mut value: Vec<String> = Vec::new();
    let mut n_images: Vec<u64> = Vec::new();
    let mut n_detections: Vec<u64> = Vec::new();
    let mut miou: Vec<u64> = Vec::new();
    let mut fwiou: Vec<u64> = Vec::new();
    let mut pixel_accuracy: Vec<u64> = Vec::new();
    let mut mean_accuracy: Vec<u64> = Vec::new();
    for row in iter: rows
        invariant
            iter.seq() == given,
            axis@ == given.take(iter.index() as int).map_values(|r: SemanticSliceRow| r.axis),
            value@ == given.take(iter.index() as int).map_values(|r: SemanticSliceRow| r.value),
            n_images@ == given.take(iter.index() as int).map_values(|r: SemanticSliceRow| r.n_images),
            n_detections@ == given.take(iter.index() as int).map_values(|r: SemanticSliceRow| r.n_detections),
            miou@ == given.take(iter.index() as int).map_values(|r: SemanticSliceRow| r.miou),
            fwiou@ == given.take(iter.index() as int).map_values(|r: SemanticSliceRow| r.fwiou),
            pixel_accuracy@ == given.take(iter.index() as int).map_values(|r: SemanticSliceRow| r.pixel_accuracy),
            mean_accuracy@ == given.take(iter.index() as int).map_values(|r: SemanticSliceRow| r.mean_accuracy),
    {
        let ghost next = given.take(iter.index() + 1);
        assert(next == given.take(iter.index() as int).push(row));
        axis.push(row.axis);
        value.push(row.value);
        n_images.push(row.n_images);
        n_detections.push(row.n_detections);
        miou.push(row.miou);
        fwiou.push(row.fwiou);
        pixel_accuracy.push(row.pixel_accuracy);
        mean_accuracy.push(row.mean_accuracy);
    }
    assert(given.take(given.len() as int) == given);
    let columns: Vec<TableColumn> = vec![
        texts("axis", axis),
        texts("value", value),
        u64s("n_images", n_images),
        u64s("n_detections", n_detections),
        reals("miou", miou),
        reals("fwiou", fwiou),
        reals("pixel_accuracy", pixel_accuracy),
        reals("mean_accuracy", mean_accuracy),
    ];
    assert(columns_view(columns@) =~= slices_semantic_columns(given));
    build_batch(columns, slices_metadata("semantic", "miou"))
}

/// Every result table is stamped with the version of its layout and with its
/// own name, and with nothing else.
pub proof fn law_tables_are_stamped(name: Seq<char>)
    ensures
        table_stamp(name).dom() == set![META_SCHEMA_VERSION@, META_TABLE@],
        table_stamp(name)[META_SCHEMA_VERSION@] == "1"@,
        table_stamp(name)[META_TABLE@] == name,
{
    reveal_strlit("vernier.schema_version");
    reveal_strlit("vernier.table");
    assert(META_SCHEMA_VERSION@.len() != META_TABLE@.len());
}

/// Slice tables are told apart by their stamps alone: equal stamps have equal
/// paradigms and equal metrics.
pub proof fn law_slice_tables_are_told_apart(
    paradigm: Seq<char>,
    metric: Seq<char>,
    other_paradigm: Seq<char>,
    other_metric: Seq<char>,
)
    ensures
        slices_stamp(paradigm, metric) == slices_stamp(other_paradigm, other_metric) <==> paradigm
            == other_paradigm && metric == other_metric,
        slices_stamp(paradigm, metric)[META_SCHEMA_VERSION@] == "1"@,
        slices_stamp(paradigm, metric)[META_TABLE@] == "slices"@,
        slices_stamp(paradigm, metric)[META_PARADIGM@] == paradigm,
        slices_stamp(paradigm, metric)[META_METRIC@] == metric,
{
    reveal_strlit("vernier.schema_version");
    reveal_strlit("vernier.table");
    reveal_strlit("vernier.paradigm");
    reveal_strlit("vernier.metric");
    assert(META_SCHEMA_VERSION@.len() == 22 && META_TABLE@.len() == 13);
    assert(META_PARADIGM@.len() == 16 && META_METRIC@.len() == 14);
    let a = slices_stamp(paradigm, metric);
    let b = slices_stamp(other_paradigm, other_metric);
    assert(a[META_PARADIGM@] == paradigm && a[META_METRIC@] == metric);
    assert(b[META_PARADIGM@] == other_paradigm && b[META_METRIC@] == other_metric);
}

/// The table of slices can always be built, whatever the rows.
pub proof fn law_slice_tables_can_be_built(
    ap: Seq<InstanceSliceRow>,
    pq: Seq<PanopticSliceRow>,
    miou: Seq<SemanticSliceRow>,
)
    ensures
        columns_agree(slices_instance_ap_columns(ap)),
        columns_agree(slices_panoptic_columns(pq)),
        columns_agree(slices_semantic_columns(miou)),
{
}

// ---------------------------------------------------------------------------
// What the columns hold
// ---------------------------------------------------------------------------

/// A column without nulls that holds these whole numbers under this name.
pub open spec fn whole_cells(
    c: ColumnView,
    name: Seq<char>,
    kind: KindView,
    n: nat,
    value: spec_fn(int) -> int,
) -> bool {
    &&& c.name == name
    &&& c.kind == kind
    &&& !c.nullable
    &&& c.cells.len() == n
    &&& forall|i: int| 0 <= i < n ==> #[trigger] c.cells[i] == CellView::Int(value(i))
}

/// A column that holds these whole numbers under this name, and a null where
/// there is none.
pub open spec fn opt_whole_cells(
    c: ColumnView,
    name: Seq<char>,
    kind: KindView,
    n: nat,
    value: spec_fn(int) -> Option<i64>,
) -> bool {
    &&& c.name == name
    &&& c.kind == kind
    &&& c.nullable
    &&& c.cells.len() == n
    &&& forall|i: int|
        0 <= i < n ==> match value(i) {
            Some(x) => #[trigger] c.cells[i] == CellView::Int(x as int),
            None => c.cells[i] is Null,
        }
}

/// A column without nulls that holds these floats under this name.
pub open spec fn real_cells(
    c: ColumnView,
    name: Seq<char>,
    kind: KindView,
    n: nat,
    value: spec_fn(int) -> u64,
) -> bool {
    &&& c.name == name
    &&& c.kind == kind
    &&& !c.nullable
    &&& c.cells.len() == n
    &&& forall|i: int| 0 <= i < n ==> #[trigger] c.cells[i] == CellView::Real(value(i))
}

/// A column that holds these floats under this name, and a null where there
/// is none.
pub open spec fn opt_real_number_cells(
    c: ColumnView,
    name: Seq<char>,
    kind: KindView,
    n: nat,
    value: spec_fn(int) -> Option<u64>,
) -> bool {
    &&& c.name == name
    &&& c.kind == kind
    &&& c.nullable
    &&& c.cells.len() == n
    &&& forall|i: int|
        0 <= i < n ==> match value(i) {
            Some(x) => #[trigger] c.cells[i] == CellView::Real(x),
            None => c.cells[i] is Null,
        }
}

/// A column without nulls that holds these texts under this name.
pub open spec fn named_cells(
    c: ColumnView,
    name: Seq<char>,
    kind: KindView,
    n: nat,
    value: spec_fn(int) -> Seq<char>,
) -> bool {
    &&& c.name == name
    &&& c.kind == kind
    &&& !c.nullable
    &&& c.cells.len() == n
    &&& forall|i: int| 0 <= i < n ==> #[trigger] c.cells[i] == CellView::Text(value(i))
}

/// A column without nulls that holds the labels of these numbers under this
/// name.
pub open spec fn labelled_cells(
    c: ColumnView,
    name: Seq<char>,
    keys: Seq<i32>,
    labels: Seq<String>,
) -> bool {
    &&& c.name == name
    &&& c.kind is Labels
    &&& !c.nullable
    &&& c.cells.len() == keys.len()
    &&& forall|i: int|
        0 <= i < keys.len() ==> #[trigger] c.cells[i] == CellView::Text(labels[keys[i] as int]@)
}

/// The table by category has each of its lists in a column of its own, under its
/// own name.
pub proof fn law_per_class_columns_are_its_own(t: PerClassTable)
    ensures
        ({
            let c = per_class_columns(t);
            &&& c.len() == 13
            &&& whole_cells(
                c[0],
                "category_id"@,
                KindView::Int64,
                t.category_id@.len(),
                |i: int| t.category_id@[i] as int,
            )
            &&& named_cells(
                c[1],
                "category_name"@,
                KindView::Utf8,
                t.category_name@.len(),
                |i: int| t.category_name@[i]@,
            )
            &&& opt_real_number_cells(
                c[2],
                "ap"@,
                KindView::Float64,
                t.ap@.len(),
                |i: int| t.ap@[i],
            )
            &&& opt_real_number_cells(
                c[3],
                "ap50"@,
                KindView::Float64,
                t.ap50@.len(),
                |i: int| t.ap50@[i],
            )
            &&& opt_real_number_cells(
                c[4],
                "ap75"@,
                KindView::Float64,
                t.ap75@.len(),
                |i: int| t.ap75@[i],
            )
            &&& opt_real_number_cells(
                c[5],
                "ap_s"@,
                KindView::Float64,
                t.ap_s@.len(),
                |i: int| t.ap_s@[i],
            )
            &&& opt_real_number_cells(
                c[6],
                "ap_m"@,
                KindView::Float64,
                t.ap_m@.len(),
                |i: int| t.ap_m@[i],
            )
            &&& opt_real_number_cells(
                c[7],
                "ap_l"@,
                KindView::Float64,
                t.ap_l@.len(),
                |i: int| t.ap_l@[i],
            )
            &&& opt_real_number_cells(
                c[8],
                "ar_max_1"@,
                KindView::Float64,
                t.ar_max_1@.len(),
                |i: int| t.ar_max_1@[i],
            )
            &&& opt_real_number_cells(
                c[9],
                "ar_max_10"@,
                KindView::Float64,
                t.ar_max_10@.len(),
                |i: int| t.ar_max_10@[i],
            )
            &&& opt_real_number_cells(
                c[10],
                "ar_max_100"@,
                KindView::Float64,
                t.ar_max_100@.len(),
                |i: int| t.ar_max_100@[i],
            )
            &&& whole_cells(
                c[11],
                "n_gt"@,
                KindView::UInt32,
                t.n_gt@.len(),
                |i: int| t.n_gt@[i] as int,
            )
            &&& whole_cells(
                c[12],
                "n_dt"@,
                KindView::UInt32,
                t.n_dt@.len(),
                |i: int| t.n_dt@[i] as int,
            )
        }),
{
}

/// The table by image has each of its lists in a column of its own, under its own
/// name.
pub proof fn law_per_image_columns_are_its_own(t: PerImageTable)
    ensures
        ({
            let c = per_image_columns(t);
            &&& c.len() == 10
            &&& whole_cells(
                c[0],
                "image_id"@,
                KindView::Int64,
                t.image_id@.len(),
                |i: int| t.image_id@[i] as int,
            )
            &&& whole_cells(
                c[1],
                "n_gt"@,
                KindView::UInt32,
                t.n_gt@.len(),
                |i: int| t.n_gt@[i] as int,
            )
            &&& whole_cells(
                c[2],
                "n_dt"@,
                KindView::UInt32,
                t.n_dt@.len(),
                |i: int| t.n_dt@[i] as int,
            )
            &&& whole_cells(
                c[3],
                "tp_at_50"@,
                KindView::UInt32,
                t.tp_at_50@.len(),
                |i: int| t.tp_at_50@[i] as int,
            )
            &&& whole_cells(
                c[4],
                "fp_at_50"@,
                KindView::UInt32,
                t.fp_at_50@.len(),
                |i: int| t.fp_at_50@[i] as int,
            )
            &&& whole_cells(
                c[5],
                "fn_at_50"@,
                KindView::UInt32,
                t.fn_at_50@.len(),
                |i: int| t.fn_at_50@[i] as int,
            )
            &&& whole_cells(
                c[6],
                "tp_at_75"@,
                KindView::UInt32,
                t.tp_at_75@.len(),
                |i: int| t.tp_at_75@[i] as int,
            )
            &&& whole_cells(
                c[7],
                "fp_at_75"@,
                KindView::UInt32,
                t.fp_at_75@.len(),
                |i: int| t.fp_at_75@[i] as int,
            )
            &&& whole_cells(
                c[8],
                "fn_at_75"@,
                KindView::UInt32,
                t.fn_at_75@.len(),
                |i: int| t.fn_at_75@[i] as int,
            )
            &&& whole_cells(
                c[9],
                "tp_mean_iou"@,
                KindView::UInt32,
                t.tp_mean_iou@.len(),
                |i: int| t.tp_mean_iou@[i] as int,
            )
        }),
{
}

/// The table by detection has each of its lists in a column of its own, under its
/// own name; the boxes come last, and only where there are any.
pub proof fn law_per_detection_columns_are_its_own(t: PerDetectionTable)
    ensures
        ({
            let c = per_detection_columns(t);
            &&& c.len() == if t.bbox is Some {
                9nat
            } else {
                8
            }
            &&& whole_cells(
                c[0],
                "detection_id"@,
                KindView::Int64,
                t.detection_id@.len(),
                |i: int| t.detection_id@[i] as int,
            )
            &&& whole_cells(
                c[1],
                "image_id"@,
                KindView::Int64,
                t.image_id@.len(),
                |i: int| t.image_id@[i] as int,
            )
            &&& whole_cells(
                c[2],
                "category_id"@,
                KindView::Int64,
                t.category_id@.len(),
                |i: int| t.category_id@[i] as int,
            )
            &&& real_cells(
                c[3],
                "score"@,
                KindView::Float64,
                t.score@.len(),
                |i: int| t.score@[i],
            )
            &&& real_cells(
                c[4],
                "area"@,
                KindView::Float64,
                t.area@.len(),
                |i: int| t.area@[i],
            )
            &&& labelled_cells(c[5], "match_status_at_50"@, t.match_status_at_50@, t.status_labels@)
            &&& opt_whole_cells(
                c[6],
                "matched_gt_id_at_50"@,
                KindView::Int64,
                t.matched_gt_id_at_50@.len(),
                |i: int| t.matched_gt_id_at_50@[i],
            )
            &&& opt_real_number_cells(
                c[7],
                "best_iou"@,
                KindView::Float64,
                t.best_iou@.len(),
                |i: int| t.best_iou@[i],
            )
            &&& t.bbox matches Some(boxes) ==> {
                &&& c[8].name == "bbox_xywh"@
                &&& c[8].kind is Quads
                &&& c[8].cells.len() == boxes@.len()
                &&& forall|i: int|
                    0 <= i < boxes@.len() ==> #[trigger] c[8].cells[i] == CellView::Quad(
                        boxes@[i].x,
                        boxes@[i].y,
                        boxes@[i].w,
                        boxes@[i].h,
                    )
            }
        }),
{
}

/// The table by pair has each of its lists in a column of its own, under its own
/// name.
pub proof fn law_per_pair_columns_are_its_own(t: PerPairTable)
    ensures
        ({
            let c = per_pair_columns(t);
            &&& c.len() == 5
            &&& whole_cells(
                c[0],
                "detection_id"@,
                KindView::Int64,
                t.detection_id@.len(),
                |i: int| t.detection_id@[i] as int,
            )
            &&& whole_cells(
                c[1],
                "ground_truth_id"@,
                KindView::Int64,
                t.ground_truth_id@.len(),
                |i: int| t.ground_truth_id@[i] as int,
            )
            &&& whole_cells(
                c[2],
                "image_id"@,
                KindView::Int64,
                t.image_id@.len(),
                |i: int| t.image_id@[i] as int,
            )
            &&& whole_cells(
                c[3],
                "category_id"@,
                KindView::Int64,
                t.category_id@.len(),
                |i: int| t.category_id@[i] as int,
            )
            &&& real_cells(
                c[4],
                "iou"@,
                KindView::Float64,
                t.iou@.len(),
                |i: int| t.iou@[i],
            )
        }),
{
}

/// The table of detection results has one row per slice, with each number of the
/// slice under its own name. A statistic that a slice lacks is not a number.
pub proof fn law_instance_slices_have_their_own_row(rows: Seq<InstanceSliceRow>)
    ensures
        ({
            let c = slices_instance_ap_columns(rows);
            &&& c.len() == 16
            &&& named_cells(
                c[0],
                "axis"@,
                KindView::Utf8,
                rows.len(),
                |i: int| rows[i].axis@,
            )
            &&& named_cells(
                c[1],
                "value"@,
                KindView::Utf8,
                rows.len(),
                |i: int| rows[i].value@,
            )
            &&& whole_cells(
                c[2],
                "n_images"@,
                KindView::UInt64,
                rows.len(),
                |i: int| rows[i].n_images as int,
            )
            &&& whole_cells(
                c[3],
                "n_detections"@,
                KindView::UInt64,
                rows.len(),
                |i: int| rows[i].n_detections as int,
            )
            &&& real_cells(
                c[4],
                "ap"@,
                KindView::Float64,
                rows.len(),
                |i: int| if 0 < rows[i].stats@.len() {
                    rows[i].stats@[0]
                } else {
                    NAN_BITS
                },
            )
            &&& real_cells(
                c[5],
                "ap50"@,
                KindView::Float64,
                rows.len(),
                |i: int| if 1 < rows[i].stats@.len() {
                    rows[i].stats@[1]
                } else {
                    NAN_BITS
                },
            )
            &&& real_cells(
                c[6],
                "ap75"@,
                KindView::Float64,
                rows.len(),
                |i: int| if 2 < rows[i].stats@.len() {
                    rows[i].stats@[2]
                } else {
                    NAN_BITS
                },
            )
            &&& real_cells(
                c[7],
                "ap_s"@,
                KindView::Float64,
                rows.len(),
                |i: int| if 3 < rows[i].stats@.len() {
                    rows[i].stats@[3]
                } else {
                    NAN_BITS
                },
            )
            &&& real_cells(
                c[8],
                "ap_m"@,
                KindView::Float64,
                rows.len(),
                |i: int| if 4 < rows[i].stats@.len() {
                    rows[i].stats@[4]
                } else {
                    NAN_BITS
                },
            )
            &&& real_cells(
                c[9],
                "ap_l"@,
                KindView::Float64,
                rows.len(),
                |i: int| if 5 < rows[i].stats@.len() {
                    rows[i].stats@[5]
                } else {
                    NAN_BITS
                },
            )
            &&& real_cells(
                c[10],
                "ar_max_1"@,
                KindView::Float64,
                rows.len(),
                |i: int| if 6 < rows[i].stats@.len() {
                    rows[i].stats@[6]
                } else {
                    NAN_BITS
                },
            )
            &&& real_cells(
                c[11],
                "ar_max_10"@,
                KindView::Float64,
                rows.len(),
                |i: int| if 7 < rows[i].stats@.len() {
                    rows[i].stats@[7]
                } else {
                    NAN_BITS
                },
            )
            &&& real_cells(
                c[12],
                "ar_max_100"@,
                KindView::Float64,
                rows.len(),
                |i: int| if 8 < rows[i].stats@.len() {
                    rows[i].stats@[8]
                } else {
                    NAN_BITS
                },
            )
            &&& real_cells(
                c[13],
                "ar_s"@,
                KindView::Float64,
                rows.len(),
                |i: int| if 9 < rows[i].stats@.len() {
                    rows[i].stats@[9]
                } else {
                    NAN_BITS
                },
            )
            &&& real_cells(
                c[14],
                "ar_m"@,
                KindView::Float64,
                rows.len(),
                |i: int| if 10 < rows[i].stats@.len() {
                    rows[i].stats@[10]
                } else {
                    NAN_BITS
                },
            )
            &&& real_cells(
                c[15],
                "ar_l"@,
                KindView::Float64,
                rows.len(),
                |i: int| if 11 < rows[i].stats@.len() {
                    rows[i].stats@[11]
                } else {
                    NAN_BITS
                },
            )
        }),
{
}

/// The table of panoptic results has one row per slice, with each number of the
/// slice under its own name.
pub proof fn law_panoptic_slices_have_their_own_row(rows: Seq<PanopticSliceRow>)
    ensures
        ({
            let c = slices_panoptic_columns(rows);
            &&& c.len() == 7
            &&& named_cells(
                c[0],
                "axis"@,
                KindView::Utf8,
                rows.len(),
                |i: int| rows[i].axis@,
            )
            &&& named_cells(
                c[1],
                "value"@,
                KindView::Utf8,
                rows.len(),
                |i: int| rows[i].value@,
            )
            &&& whole_cells(
                c[2],
                "n_images"@,
                KindView::UInt64,
                rows.len(),
                |i: int| rows[i].n_images as int,
            )
            &&& whole_cells(
                c[3],
                "n_detections"@,
                KindView::UInt64,
                rows.len(),
                |i: int| rows[i].n_detections as int,
            )
            &&& real_cells(
                c[4],
                "pq"@,
                KindView::Float64,
                rows.len(),
                |i: int| rows[i].pq,
            )
            &&& real_cells(
                c[5],
                "sq"@,
                KindView::Float64,
                rows.len(),
                |i: int| rows[i].sq,
            )
            &&& real_cells(
                c[6],
                "rq"@,
                KindView::Float64,
                rows.len(),
                |i: int| rows[i].rq,
            )
        }),
{
}

/// The table of semantic results has one row per slice, with each number of the
/// slice under its own name.
pub proof fn law_semantic_slices_have_their_own_row(rows: Seq<SemanticSliceRow>)
    ensures
        ({
            let c = slices_semantic_columns(rows);
            &&& c.len() == 8
            &&& named_cells(
                c[0],
                "axis"@,
                KindView::Utf8,
                rows.len(),
                |i: int| rows[i].axis@,
            )
            &&& named_cells(
                c[1],
                "value"@,
                KindView::Utf8,
                rows.len(),
                |i: int| rows[i].value@,
            )
            &&& whole_cells(
                c[2],
                "n_images"@,
                KindView::UInt64,
                rows.len(),
                |i: int| rows[i].n_images as int,
            )
            &&& whole_cells(
                c[3],
                "n_detections"@,
                KindView::UInt64,
                rows.len(),
                |i: int| rows[i].n_detections as int,
            )
            &&& real_cells(
                c[4],
                "miou"@,
                KindView::Float64,
                rows.len(),
                |i: int| rows[i].miou,
            )
            &&& real_cells(
                c[5],
                "fwiou"@,
                KindView::Float64,
                rows.len(),
                |i: int| rows[i].fwiou,
            )
            &&& real_cells(
                c[6],
                "pixel_accuracy"@,
                KindView::Float64,
                rows.len(),
                |i: int| rows[i].pixel_accuracy,
            )
            &&& real_cells(
                c[7],
                "mean_accuracy"@,
                KindView::Float64,
                rows.len(),
                |i: int| rows[i].mean_accuracy,
            )
        }),
{
}

/// A batch is built exactly where its columns agree, and holds the columns and
/// the stamp that were given.
pub proof fn law_batches_hold_what_is_given(
    b: Batch,
    columns: Seq<ColumnView>,
    stamp: Map<Seq<char>, Seq<char>>,
    i: int,
)
    requires
        builds(Ok(b), columns, stamp),
        0 <= i < columns.len(),
    ensures
        batch_metadata(b) == stamp,
        batch_columns(b).len() == columns.len(),
        batch_columns(b)[i] == columns[i],
        columns[i].cells.len() == columns[0].cells.len(),
        !columns[i].nullable ==> forall|k: int|
            0 <= k < columns[i].cells.len() ==> !((#[trigger] columns[i].cells[k]) is Null),
{
}

/// Columns of one length without a null that is not declared are built.
pub proof fn law_agreeing_columns_are_built(r: Result<Batch, String>, columns: Seq<ColumnView>, stamp:
    Map<Seq<char>, Seq<char>>)
    requires
        builds(r, columns, stamp),
        forall|i: int|
            0 <= i < columns.len() ==> (#[trigger] columns[i]).cells.len()
                == columns[0].cells.len() && (columns[i].nullable || forall|k: int|
                0 <= k < columns[i].cells.len() ==> !((#[trigger] columns[i].cells[k]) is Null)),
    ensures
        r is Ok,
{
}

} // verus!
