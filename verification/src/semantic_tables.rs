//! Results by class of a semantic evaluation.

use crate::batch::{build_batch, columns_view, Batch, ColumnView, KindView, TableColumn};
use crate::tables::{
    builds, i64_column, i64s, real_cells, real_column, reals, u64_column, u64s, whole_cells,
};
use vstd::prelude::*;

verus! {

/// Results by class, counted in pixels.
#[derive(Debug)]
pub struct PerClassTable {
    pub category_id: Vec<i64>,
    pub iou: Vec<u64>,
    pub accuracy: Vec<u64>,
    pub precision: Vec<u64>,
    pub n_gt_pixels: Vec<u64>,
    pub n_dt_pixels: Vec<u64>,
    pub tp_pixels: Vec<u64>,
    pub fp_pixels: Vec<u64>,
    pub fn_pixels: Vec<u64>,
}

pub open spec fn per_class_columns(t: PerClassTable) -> Seq<ColumnView> {
    seq![
        i64_column("category_id"@, t.category_id@),
        real_column("iou"@, t.iou@),
        real_column("accuracy"@, t.accuracy@),
        real_column("precision"@, t.precision@),
        u64_column("n_gt_pixels"@, t.n_gt_pixels@),
        u64_column("n_dt_pixels"@, t.n_dt_pixels@),
        u64_column("tp_pixels"@, t.tp_pixels@),
        u64_column("fp_pixels"@, t.fp_pixels@),
        u64_column("fn_pixels"@, t.fn_pixels@),
    ]
}

/// The batch of results by class, counted in pixels. Its schema carries no stamp.
pub fn per_class_record_batch(t: PerClassTable) -> (r: Result<Batch, String>)
    ensures
        builds(r, per_class_columns(t), Map::empty()),
{
    let ghost want = per_class_columns(t);
    let columns: Vec<TableColumn> = vec![
        i64s("category_id", t.category_id),
        reals("iou", t.iou),
        reals("accuracy", t.accuracy),
        reals("precision", t.precision),
        u64s("n_gt_pixels", t.n_gt_pixels),
        u64s("n_dt_pixels", t.n_dt_pixels),
        u64s("tp_pixels", t.tp_pixels),
        u64s("fp_pixels", t.fp_pixels),
        u64s("fn_pixels", t.fn_pixels),
    ];
    assert(columns_view(columns@) =~= want);
    build_batch(columns, Vec::new())
}

/// The table by class has each of its lists in a column of its own, under its own
/// name.
pub proof fn law_per_class_columns_are_its_own(t: PerClassTable)
    ensures
        ({
            let c = per_class_columns(t);
            &&& c.len() == 9
            &&& whole_cells(
                c[0],
                "category_id"@,
                KindView::Int64,
                t.category_id@.len(),
                |i: int| t.category_id@[i] as int,
            )
            &&& real_cells(
                c[1],
                "iou"@,
                KindView::Float64,
                t.iou@.len(),
                |i: int| t.iou@[i],
            )
            &&& real_cells(
                c[2],
                "accuracy"@,
                KindView::Float64,
                t.accuracy@.len(),
                |i: int| t.accuracy@[i],
            )
            &&& real_cells(
                c[3],
                "precision"@,
                KindView::Float64,
                t.precision@.len(),
                |i: int| t.precision@[i],
            )
            &&& whole_cells(
                c[4],
                "n_gt_pixels"@,
                KindView::UInt64,
                t.n_gt_pixels@.len(),
                |i: int| t.n_gt_pixels@[i] as int,
            )
            &&& whole_cells(
                c[5],
                "n_dt_pixels"@,
                KindView::UInt64,
                t.n_dt_pixels@.len(),
                |i: int| t.n_dt_pixels@[i] as int,
            )
            &&& whole_cells(
                c[6],
                "tp_pixels"@,
                KindView::UInt64,
                t.tp_pixels@.len(),
                |i: int| t.tp_pixels@[i] as int,
            )
            &&& whole_cells(
                c[7],
                "fp_pixels"@,
                KindView::UInt64,
                t.fp_pixels@.len(),
                |i: int| t.fp_pixels@[i] as int,
            )
            &&& whole_cells(
                c[8],
                "fn_pixels"@,
                KindView::UInt64,
                t.fn_pixels@.len(),
                |i: int| t.fn_pixels@[i] as int,
            )
        }),
{
}

} // verus!
