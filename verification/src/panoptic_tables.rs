//! Results by class of a panoptic evaluation.

use crate::batch::{build_batch, columns_view, Batch, ColumnView, KindView, TableColumn};
use crate::tables::{
    builds, i64_column, i64s, real_cells, real_column, reals, u64_column, u64s, whole_cells,
};
use vstd::prelude::*;

verus! {

/// Results by class, counted in segments.
#[derive(Debug)]
pub struct PerClassTable {
    pub category_id: Vec<i64>,
    pub pq: Vec<u64>,
    pub sq: Vec<u64>,
    pub rq: Vec<u64>,
    pub n_tp: Vec<u64>,
    pub n_fp: Vec<u64>,
    pub n_fn: Vec<u64>,
    pub iou_sum: Vec<u64>,
}

pub open spec fn per_class_columns(t: PerClassTable) -> Seq<ColumnView> {
    seq![
        i64_column("category_id"@, t.category_id@),
        real_column("pq"@, t.pq@),
        real_column("sq"@, t.sq@),
        real_column("rq"@, t.rq@),
        u64_column("n_tp"@, t.n_tp@),
        u64_column("n_fp"@, t.n_fp@),
        u64_column("n_fn"@, t.n_fn@),
        real_column("iou_sum"@, t.iou_sum@),
    ]
}

/// The batch of results by class, counted in segments. Its schema carries no stamp.
pub fn per_class_record_batch(t: PerClassTable) -> (r: Result<Batch, String>)
    ensures
        builds(r, per_class_columns(t), Map::empty()),
{
    let ghost want = per_class_columns(t);
    let columns: Vec<TableColumn> = vec![
        i64s("category_id", t.category_id),
        reals("pq", t.pq),
        reals("sq", t.sq),
        reals("rq", t.rq),
        u64s("n_tp", t.n_tp),
        u64s("n_fp", t.n_fp),
        u64s("n_fn", t.n_fn),
        reals("iou_sum", t.iou_sum),
    ];
    assert(columns_view(columns@) =~= want);
    build_batch(columns, Vec::new())
}

/// The table by class has each of its lists in a column of its own, under its own
/// name.
pub proof fn law_per_class_columns_are_its_own(t: PerClassTable)
    ensures
        ({
            let c = per_class_columns(t);
            &&& c.len() == 8
            &&& whole_cells(
                c[0],
                "category_id"@,
                KindView::Int64,
                t.category_id@.len(),
                |i: int| t.category_id@[i] as int,
            )
            &&& real_cells(
                c[1],
                "pq"@,
                KindView::Float64,
                t.pq@.len(),
                |i: int| t.pq@[i],
            )
            &&& real_cells(
                c[2],
                "sq"@,
                KindView::Float64,
                t.sq@.len(),
                |i: int| t.sq@[i],
            )
            &&& real_cells(
                c[3],
                "rq"@,
                KindView::Float64,
                t.rq@.len(),
                |i: int| t.rq@[i],
            )
            &&& whole_cells(
                c[4],
                "n_tp"@,
                KindView::UInt64,
                t.n_tp@.len(),
                |i: int| t.n_tp@[i] as int,
            )
            &&& whole_cells(
                c[5],
                "n_fp"@,
                KindView::UInt64,
                t.n_fp@.len(),
                |i: int| t.n_fp@[i] as int,
            )
            &&& whole_cells(
                c[6],
                "n_fn"@,
                KindView::UInt64,
                t.n_fn@.len(),
                |i: int| t.n_fn@[i] as int,
            )
            &&& real_cells(
                c[7],
                "iou_sum"@,
                KindView::Float64,
                t.iou_sum@.len(),
                |i: int| t.iou_sum@[i],
            )
        }),
{
}

} // verus!
