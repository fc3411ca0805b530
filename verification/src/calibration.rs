//! Calibration of scores: the cells that it is computed from, its settings,
//! and its tables.

use crate::batch::{
    build_batch, build_refusal, columns_agree, columns_view, export, exports, ArrowRecordBatch,
    Batch, ColumnView, KindView, TableColumn,
};
use crate::collect::{
    collected, law_first_refusal_counts, lemma_collected_items, lemma_collected_refusal,
};
use crate::config::ParityMode;
use crate::failure::{refused, value_error, with_list, with_real, ErrorKind, Failure, FailureView};
use crate::float_bits::{finite, is_finite};
use crate::model::{copy_runs, copy_u64s};
use crate::tables::{
    builds, real_cells, real_column, reals, table_metadata, table_stamp, u32_column, u32s,
    u64_column, u64s, whole_cells,
};
use crate::text::{debug_text, nat_text, quoted, same_text, usize_text};
use vstd::prelude::*;

verus! {

// ---------------------------------------------------------------------------
// Cells
// ---------------------------------------------------------------------------

/// The matches of the detections of one image, category and range of sizes.
#[derive(Debug)]
pub struct PerImageEval {
    pub dt_scores: Vec<u64>,
    /// For each threshold, whether each detection is matched.
    pub dt_matched: Vec<Vec<bool>>,
    /// For each threshold, whether each detection is left out.
    pub dt_ignore: Vec<Vec<bool>>,
    pub gt_ignore: Vec<bool>,
}

/// Rows of flags by their contents.
pub open spec fn rows_view(rows: Seq<Vec<bool>>) -> Seq<Seq<bool>> {
    rows.map_values(|r: Vec<bool>| r@)
}

/// The mathematical value of a [`PerImageEval`].
#[verifier::ext_equal]
pub struct CellView {
    pub dt_scores: Seq<u64>,
    pub dt_matched: Seq<Seq<bool>>,
    pub dt_ignore: Seq<Seq<bool>>,
    pub gt_ignore: Seq<bool>,
}

impl View for PerImageEval {
    type V = CellView;

    open spec fn view(&self) -> CellView {
        CellView {
            dt_scores: self.dt_scores@,
            dt_matched: rows_view(self.dt_matched@),
            dt_ignore: rows_view(self.dt_ignore@),
            gt_ignore: self.gt_ignore@,
        }
    }
}

impl CellView {
    /// There is one row of flags per threshold, and each has one flag per
    /// detection.
    pub open spec fn wf(self, thresholds: nat) -> bool {
        &&& self.dt_matched.len() == thresholds
        &&& self.dt_ignore.len() == thresholds
        &&& forall|t: int|
            0 <= t < thresholds ==> (#[trigger] self.dt_matched[t]).len() == self.dt_scores.len()
        &&& forall|t: int|
            0 <= t < thresholds ==> (#[trigger] self.dt_ignore[t]).len() == self.dt_scores.len()
    }
}

/// The cells of an evaluation, by category, range of sizes and image.
#[derive(Debug)]
pub struct EvalCells {
    pub cells: Vec<Option<PerImageEval>>,
    pub n_categories: usize,
    pub n_area_ranges: usize,
    pub iou_thresholds: Vec<u64>,
    pub parity_mode: ParityMode,
}

/// The mathematical value of an [`EvalCells`].
#[verifier::ext_equal]
pub struct EvalCellsView {
    pub cells: Seq<Option<CellView>>,
    pub n_categories: nat,
    pub n_area_ranges: nat,
    pub iou_thresholds: Seq<u64>,
    pub parity_mode: ParityMode,
}

/// A cell by its mathematical value.
pub open spec fn cell_of(c: Option<PerImageEval>) -> Option<CellView> {
    match c {
        Some(c) => Some(c@),
        None => None,
    }
}

/// Cells by their mathematical value.
pub open spec fn cells_view(cells: Seq<Option<PerImageEval>>) -> Seq<Option<CellView>> {
    cells.map_values(|c: Option<PerImageEval>| cell_of(c))
}

impl View for EvalCells {
    type V = EvalCellsView;

    open spec fn view(&self) -> EvalCellsView {
        EvalCellsView {
            cells: cells_view(self.cells@),
            n_categories: self.n_categories as nat,
            n_area_ranges: self.n_area_ranges as nat,
            iou_thresholds: self.iou_thresholds@,
            parity_mode: self.parity_mode,
        }
    }
}

impl EvalCellsView {
    /// Every cell fits the thresholds.
    pub open spec fn wf(self) -> bool {
        forall|i: int|
            0 <= i < self.cells.len() ==> ((#[trigger] self.cells[i]) matches Some(c) ==> c.wf(
                self.iou_thresholds.len(),
            ))
    }
}

/// How many cells of a list are there.
pub open spec fn populated(cells: Seq<Option<CellView>>) -> nat
    decreases cells.len(),
{
    if cells.len() == 0 {
        0
    } else {
        populated(cells.drop_last()) + (if cells.last() is Some {
            1nat
        } else {
            0nat
        })
    }
}

/// The first place at which a flag is set.
pub open spec fn first_set(flags: Seq<bool>, i: int) -> bool {
    0 <= i < flags.len() && flags[i] && forall|k: int| 0 <= k < i ==> !(#[trigger] flags[k])
}

/// The refusal of an overlap that is no threshold.
pub open spec fn no_threshold(iou: u64, thresholds: Seq<u64>) -> FailureView {
    with_list(
        ErrorKind::ValueError,
        "iou "@,
        iou,
        " does not match any pinned threshold within PARITY_EPS \
             (2.220446049250313e-16); available: "@,
        thresholds,
    )
}

impl EvalCells {
    /// The cells of an evaluation.
    pub fn new(
        cells: Vec<Option<PerImageEval>>,
        n_categories: usize,
        n_area_ranges: usize,
        iou_thresholds: Vec<u64>,
        parity_mode: ParityMode,
    ) -> (c: EvalCells)
        ensures
            c@ == (EvalCellsView {
                cells: cells_view(cells@),
                n_categories: n_categories as nat,
                n_area_ranges: n_area_ranges as nat,
                iou_thresholds: iou_thresholds@,
                parity_mode,
            }),
    {
        EvalCells { cells, n_categories, n_area_ranges, iou_thresholds, parity_mode }
    }

    /// The place of an overlap among the thresholds: the first that it is
    /// close to. `close` says of each threshold whether the two are within
    /// the tolerance of each other.
    pub fn iou_to_index(&self, iou: u64, close: &Vec<bool>) -> (r: Result<usize, Failure>)
        requires
            close@.len() == self@.iou_thresholds.len(),
        ensures
            match r {
                Ok(i) => is_finite(iou) && first_set(close@, i as int),
                Err(e) => if !is_finite(iou) {
                    e@ == with_real(ErrorKind::ValueError, "iou must be finite, got "@, iou, ""@)
                } else {
                    &&& forall|i: int| 0 <= i < close@.len() ==> !(#[trigger] close@[i])
                    &&& e@ == no_threshold(iou, self@.iou_thresholds)
                },
            },
    {
        if !finite(iou) {
            return Err(
                Failure::with_real(
                    ErrorKind::ValueError,
                    String::from_str("iou must be finite, got "),
                    iou,
                    String::from_str(""),
                ),
            );
        }
        let mut i: usize = 0;
        while i < close.len()
            invariant
                i <= close.len(),
                is_finite(iou),
                forall|k: int| 0 <= k < i ==> !(#[trigger] close@[k]),
            decreases close.len() - i,
        {
            if close[i] {
                return Ok(i);
            }
            i += 1;
        }
        let listed = self.iou_thresholds.clone();
        assert(listed@ =~= self.iou_thresholds@);
        Err(
            Failure::with_list(
                ErrorKind::ValueError,
                String::from_str("iou "),
                iou,
                String::from_str(
                    " does not match any pinned threshold within PARITY_EPS \
             (2.220446049250313e-16); available: ",
                ),
                listed,
            ),
        )
    }

    /// A short description.
    pub fn repr(&self) -> (s: String)
        ensures
            s@ == "EvalCells(n_categories="@ + nat_text(self@.n_categories) + ", n_area_ranges="@
                + nat_text(self@.n_area_ranges) + ", n_cells="@ + nat_text(self@.cells.len())
                + ", populated="@ + nat_text(populated(self@.cells)) + ")"@,
    {
        let mut n: usize = 0;
        let mut i: usize = 0;
        assert(self@.cells.take(0) =~= Seq::empty());
        while i < self.cells.len()
            invariant
                i <= self.cells.len(),
                n <= i,
                n == populated(self@.cells.take(i as int)),
            decreases self.cells.len() - i,
        {
            proof {
                let next = self@.cells.take(i + 1);
                assert(next.drop_last() =~= self@.cells.take(i as int));
                assert(next.last() == cell_of(self.cells@[i as int]));
            }
            if self.cells[i].is_some() {
                n += 1;
            }
            i += 1;
        }
        assert(self@.cells.take(i as int) =~= self@.cells);
        let mut s = String::from_str("EvalCells(n_categories=");
        s.append(usize_text(self.n_categories).as_str());
        s.append(", n_area_ranges=");
        s.append(usize_text(self.n_area_ranges).as_str());
        s.append(", n_cells=");
        s.append(usize_text(self.cells.len()).as_str());
        s.append(", populated=");
        s.append(usize_text(n).as_str());
        s.append(")");
        s
    }
}

// ---------------------------------------------------------------------------
// Reading cells
// ---------------------------------------------------------------------------

/// A dict that describes one cell: under each key nothing, or what came of
/// reading it.
#[derive(Debug)]
pub struct CellDict {
    pub dt_scores: Option<Result<Vec<u64>, Failure>>,
    pub dt_matched: Option<Result<Vec<Vec<bool>>, Failure>>,
    pub dt_ignore: Option<Result<Vec<Vec<bool>>, Failure>>,
}

/// An object in a list of cells.
#[derive(Debug)]
pub enum CellObject {
    Nothing,
    Dict(CellDict),
    Other,
}

/// What is found under the key of the cells.
#[derive(Debug)]
pub enum CellsList {
    List(Vec<CellObject>),
    Other,
}

/// A dict that describes the cells of an evaluation.
#[derive(Debug)]
pub struct CellsDict {
    pub n_categories: Option<Result<usize, Failure>>,
    pub n_area_ranges: Option<Result<usize, Failure>>,
    pub n_images: Option<Result<usize, Failure>>,
    pub iou_thresholds: Option<Result<Vec<u64>, Failure>>,
    pub parity_mode: Option<Result<String, Failure>>,
    pub cells: Option<Result<CellsList, Failure>>,
}

/// What is under a key that has to be there.
pub open spec fn required<T>(held: Option<Result<T, Failure>>, key: Seq<char>) -> Result<
    T,
    FailureView,
> {
    match held {
        None => Err(value_error("from_python_cells: missing key "@ + debug_text(key))),
        Some(r) => refused(r),
    }
}

/// What is under a key that has to be there.
pub fn get_required<T>(held: Option<Result<T, Failure>>, key: &str) -> (r: Result<T, Failure>)
    ensures
        refused(r) == required(held, key@),
{
    match held {
        None => {
            let mut m = String::from_str("from_python_cells: missing key ");
            m.append(quoted(key).as_str());
            Err(Failure::value_error(m))
        },
        Some(r) => r,
    }
}

/// Where among the cells a refusal points.
pub open spec fn cell_text(idx: int) -> Seq<char> {
    "from_python_cells: cells["@ + nat_text(idx as nat) + "]"@
}

/// Where among the cells a refusal points.
fn cell_path(idx: usize) -> (s: String)
    ensures
        s@ == cell_text(idx as int),
{
    let mut s = String::from_str("from_python_cells: cells[");
    s.append(usize_text(idx).as_str());
    s.append("]");
    s
}

/// The refusal of rows that are not one per threshold.
pub open spec fn rows_refusal(idx: int, field: Seq<char>, found: nat, want: nat) -> FailureView {
    value_error(
        cell_text(idx) + field + " outer len "@ + nat_text(found) + " != n_iou_thresholds "@
            + nat_text(want),
    )
}

/// The refusal of rows that are not one per threshold.
fn bad_rows(idx: usize, field: &str, found: usize, want: usize) -> (e: Failure)
    ensures
        e@ == rows_refusal(idx as int, field@, found as nat, want as nat),
{
    let mut m = cell_path(idx);
    m.append(field);
    m.append(" outer len ");
    m.append(usize_text(found).as_str());
    m.append(" != n_iou_thresholds ");
    m.append(usize_text(want).as_str());
    Failure::value_error(m)
}

/// Each row of flags, refused where it has not one flag per detection.
pub open spec fn row_reader(
    rows: Seq<Vec<bool>>,
    idx: int,
    field: Seq<char>,
    d: nat,
) -> spec_fn(int) -> Result<Seq<bool>, FailureView> {
    |t: int|
        if rows[t]@.len() != d {
            Err(
                value_error(
                    cell_text(idx) + field + "["@ + nat_text(t as nat) + "] len "@ + nat_text(
                        rows[t]@.len(),
                    ) + " != D "@ + nat_text(d),
                ),
            )
        } else {
            Ok(rows[t]@)
        }
}

/// Check rows of flags.
fn check_rows(rows: &Vec<Vec<bool>>, idx: usize, field: &str, d: usize) -> (r: Result<(), Failure>)
    ensures
        match r {
            Ok(()) => collected(row_reader(rows@, idx as int, field@, d as nat), rows@.len()) == Ok::<
                Seq<Seq<bool>>,
                FailureView,
            >(rows_view(rows@)),
            Err(e) => collected(row_reader(rows@, idx as int, field@, d as nat), rows@.len())
                == Err::<Seq<Seq<bool>>, FailureView>(e@),
        },
{
    let ghost f = row_reader(rows@, idx as int, field@, d as nat);
    let mut t: usize = 0;
    assert(rows_view(rows@).take(0) =~= Seq::empty());
    while t < rows.len()
        invariant
            t <= rows.len(),
            f == row_reader(rows@, idx as int, field@, d as nat),
            collected(f, t as nat) == Ok::<Seq<Seq<bool>>, FailureView>(
                rows_view(rows@).take(t as int),
            ),
        decreases rows.len() - t,
    {
        if rows[t].len() != d {
            let mut m = cell_path(idx);
            m.append(field);
            m.append("[");
            m.append(usize_text(t).as_str());
            m.append("] len ");
            m.append(usize_text(rows[t].len()).as_str());
            m.append(" != D ");
            m.append(usize_text(d).as_str());
            let e = Failure::value_error(m);
            proof {
                assert(f(t as int) == Err::<Seq<bool>, FailureView>(e@));
                lemma_collected_refusal(f, (t + 1) as nat, rows@.len());
            }
            return Err(e);
        }
        proof {
            assert(f(t as int) == Ok::<Seq<bool>, FailureView>(rows@[t as int]@));
            assert(rows_view(rows@).take(t + 1) =~= rows_view(rows@).take(t as int).push(
                rows@[t as int]@,
            ));
        }
        t += 1;
    }
    assert(rows_view(rows@).take(t as int) =~= rows_view(rows@));
    Ok(())
}

/// What reading one cell gives: its parts first, then the numbers of its
/// rows, then their lengths.
pub open spec fn cell_outcome(cell: CellDict, t: nat, idx: int) -> Result<CellView, FailureView> {
    match required(cell.dt_scores, "dt_scores"@) {
        Err(e) => Err(e),
        Ok(scores) => match required(cell.dt_matched, "dt_matched"@) {
            Err(e) => Err(e),
            Ok(matched) => match required(cell.dt_ignore, "dt_ignore"@) {
                Err(e) => Err(e),
                Ok(ignore) => if matched@.len() != t {
                    Err(rows_refusal(idx, ".dt_matched"@, matched@.len(), t))
                } else if ignore@.len() != t {
                    Err(rows_refusal(idx, ".dt_ignore"@, ignore@.len(), t))
                } else {
                    match collected(row_reader(matched@, idx, ".dt_matched"@, scores@.len()), t) {
                        Err(e) => Err(e),
                        Ok(dt_matched) => match collected(
                            row_reader(ignore@, idx, ".dt_ignore"@, scores@.len()),
                            t,
                        ) {
                            Err(e) => Err(e),
                            Ok(dt_ignore) => Ok(
                                CellView {
                                    dt_scores: scores@,
                                    dt_matched,
                                    dt_ignore,
                                    gt_ignore: Seq::empty(),
                                },
                            ),
                        },
                    }
                },
            },
        },
    }
}

/// Read one cell.
pub fn decode_one_cell(cell: CellDict, t: usize, idx: usize) -> (r: Result<PerImageEval, Failure>)
    ensures
        match r {
            Ok(c) => cell_outcome(cell, t as nat, idx as int) == Ok::<CellView, FailureView>(c@),
            Err(e) => cell_outcome(cell, t as nat, idx as int) == Err::<CellView, FailureView>(e@),
        },
{
    let scores = match get_required(cell.dt_scores, "dt_scores") {
        Err(e) => return Err(e),
        Ok(v) => v,
    };
    let matched = match get_required(cell.dt_matched, "dt_matched") {
        Err(e) => return Err(e),
        Ok(v) => v,
    };
    let ignore = match get_required(cell.dt_ignore, "dt_ignore") {
        Err(e) => return Err(e),
        Ok(v) => v,
    };
    if matched.len() != t {
        return Err(bad_rows(idx, ".dt_matched", matched.len(), t));
    }
    if ignore.len() != t {
        return Err(bad_rows(idx, ".dt_ignore", ignore.len(), t));
    }
    match check_rows(&matched, idx, ".dt_matched", scores.len()) {
        Err(e) => return Err(e),
        Ok(()) => {},
    }
    match check_rows(&ignore, idx, ".dt_ignore", scores.len()) {
        Err(e) => return Err(e),
        Ok(()) => {},
    }
    let c = PerImageEval {
        dt_scores: scores,
        dt_matched: matched,
        dt_ignore: ignore,
        gt_ignore: Vec::new(),
    };
    assert(c@.gt_ignore =~= Seq::empty());
    Ok(c)
}

/// Each cell of a list, or why it is refused.
pub open spec fn cell_reader(items: Seq<CellObject>, t: nat) -> spec_fn(int) -> Result<
    Option<CellView>,
    FailureView,
> {
    |i: int|
        match items[i] {
            CellObject::Nothing => Ok(None),
            CellObject::Other => Err(value_error(cell_text(i) + " must be None or a dict"@)),
            CellObject::Dict(d) => match cell_outcome(d, t, i) {
                Err(e) => Err(e),
                Ok(c) => Ok(Some(c)),
            },
        }
}

/// A product that stops at the largest number.
pub open spec fn saturated(a: int, b: int) -> usize {
    if a * b > usize::MAX {
        usize::MAX
    } else {
        (a * b) as usize
    }
}

/// A product that stops at the largest number.
fn saturating_product(a: usize, b: usize) -> (p: usize)
    ensures
        p == saturated(a as int, b as int),
{
    match a.checked_mul(b) {
        Some(p) => p,
        None => usize::MAX,
    }
}

/// How many cells there have to be.
pub open spec fn expected_cells(k: usize, a: usize, i: usize) -> usize {
    saturated(saturated(k as int, a as int) as int, i as int)
}

/// What the word for a rule book stands for in a dict of cells.
pub open spec fn cells_parity(s: Seq<char>) -> Result<ParityMode, FailureView> {
    if s == "strict"@ {
        Ok(ParityMode::Strict)
    } else if s == "corrected"@ {
        Ok(ParityMode::Corrected)
    } else {
        Err(
            value_error("parity_mode must be 'strict' or 'corrected', got "@ + debug_text(s)),
        )
    }
}

/// Read the word for a rule book in a dict of cells.
fn decode_parity(s: &str) -> (r: Result<ParityMode, Failure>)
    ensures
        refused(r) == cells_parity(s@),
{
    if same_text(s, "strict") {
        Ok(ParityMode::Strict)
    } else if same_text(s, "corrected") {
        Ok(ParityMode::Corrected)
    } else {
        let mut m = String::from_str("parity_mode must be 'strict' or 'corrected', got ");
        m.append(quoted(s).as_str());
        Err(Failure::value_error(m))
    }
}

/// The refusal of a wrong number of cells.
pub open spec fn count_refusal(found: nat, k: usize, a: usize, i: usize) -> FailureView {
    value_error(
        "from_python_cells: cells len "@ + nat_text(found) + " != n_categories("@ + nat_text(
            k as nat,
        ) + ") * n_area_ranges("@ + nat_text(a as nat) + ") * n_images("@ + nat_text(i as nat)
            + ") = "@ + nat_text(expected_cells(k, a, i) as nat),
    )
}

/// The sizes of a dict of cells, its thresholds and its rule book.
pub open spec fn cells_head(d: CellsDict) -> Result<
    (usize, usize, usize, Seq<u64>, ParityMode),
    FailureView,
> {
    match required(d.n_categories, "n_categories"@) {
        Err(e) => Err(e),
        Ok(k) => match required(d.n_area_ranges, "n_area_ranges"@) {
            Err(e) => Err(e),
            Ok(a) => match required(d.n_images, "n_images"@) {
                Err(e) => Err(e),
                Ok(i) => match required(d.iou_thresholds, "iou_thresholds"@) {
                    Err(e) => Err(e),
                    Ok(thresholds) => match required(d.parity_mode, "parity_mode"@) {
                        Err(e) => Err(e),
                        Ok(word) => match cells_parity(word@) {
                            Err(e) => Err(e),
                            Ok(parity) => Ok((k, a, i, thresholds@, parity)),
                        },
                    },
                },
            },
        },
    }
}

/// What reading the cells of an evaluation gives.
pub open spec fn cells_outcome(obj: Option<CellsDict>) -> Result<EvalCellsView, FailureView> {
    match obj {
        None => Err(value_error("from_python_cells: expected a dict argument"@)),
        Some(d) => match cells_head(d) {
            Err(e) => Err(e),
            Ok((k, a, i, thresholds, parity_mode)) => match required(d.cells, "cells"@) {
                Err(e) => Err(e),
                Ok(CellsList::Other) => Err(
                    value_error("from_python_cells: 'cells' must be a list"@),
                ),
                Ok(CellsList::List(items)) => if items@.len() != expected_cells(k, a, i) {
                    Err(count_refusal(items@.len(), k, a, i))
                } else {
                    match collected(cell_reader(items@, thresholds.len()), items@.len()) {
                        Err(e) => Err(e),
                        Ok(cells) => Ok(
                            EvalCellsView {
                                cells,
                                n_categories: k as nat,
                                n_area_ranges: a as nat,
                                iou_thresholds: thresholds,
                                parity_mode,
                            },
                        ),
                    }
                },
            },
        },
    }
}

/// Read the cells of a list.
fn decode_cells(items: Vec<CellObject>, t: usize) -> (r: Result<Vec<Option<PerImageEval>>, Failure>)
    ensures
        match r {
            Ok(cells) => collected(cell_reader(items@, t as nat), items@.len()) == Ok::<
                Seq<Option<CellView>>,
                FailureView,
            >(cells_view(cells@)),
            Err(e) => collected(cell_reader(items@, t as nat), items@.len()) == Err::<
                Seq<Option<CellView>>,
                FailureView,
            >(e@),
        },
{
    let ghost given = items@;
    let ghost f = cell_reader(given, t as nat);
    let mut cells: Vec<Option<PerImageEval>> = Vec::new();
    assert(cells_view(cells@) =~= Seq::empty());
    #[verifier::loop_isolation(false)]
    for item in iter: items
        invariant
            iter.seq() == given,
            cells@.len() == iter.index(),
            collected(f, iter.index() as nat) == Ok::<Seq<Option<CellView>>, FailureView>(
                cells_view(cells@),
            ),
    {
        let ghost i = iter.index() as int;
        let ghost before = cells_view(cells@);
        assert(item == given[i]);
        let idx: usize = cells.len();
        match item {
            CellObject::Nothing => {
                cells.push(None);
                assert(cells_view(cells@) =~= before.push(None));
                assert(f(i) == Ok::<Option<CellView>, FailureView>(None));
            },
            CellObject::Other => {
                let mut m = cell_path(idx);
                m.append(" must be None or a dict");
                let e = Failure::value_error(m);
                proof {
                    assert(f(i) == Err::<Option<CellView>, FailureView>(e@));
                    lemma_collected_refusal(f, (i + 1) as nat, given.len());
                }
                return Err(e);
            },
            CellObject::Dict(d) => match decode_one_cell(d, t, idx) {
                Err(e) => {
                    proof {
                        assert(f(i) == Err::<Option<CellView>, FailureView>(e@));
                        lemma_collected_refusal(f, (i + 1) as nat, given.len());
                    }
                    return Err(e);
                },
                Ok(c) => {
                    let ghost read = c@;
                    cells.push(Some(c));
                    assert(cells_view(cells@) =~= before.push(Some(read)));
                    assert(f(i) == Ok::<Option<CellView>, FailureView>(Some(read)));
                },
            },
        }
    }
    Ok(cells)
}

/// Read the cells of an evaluation from a dict, or from no dict.
pub fn decode_cells_dict(obj: Option<CellsDict>) -> (r: Result<EvalCells, Failure>)
    ensures
        match r {
            Ok(c) => cells_outcome(obj) == Ok::<EvalCellsView, FailureView>(c@),
            Err(e) => cells_outcome(obj) == Err::<EvalCellsView, FailureView>(e@),
        },
{
    let d = match obj {
        None => return Err(
            Failure::value_error(String::from_str("from_python_cells: expected a dict argument")),
        ),
        Some(d) => d,
    };
    let n_categories: usize = match get_required(d.n_categories, "n_categories") {
        Err(e) => return Err(e),
        Ok(n) => n,
    };
    let n_area_ranges: usize = match get_required(d.n_area_ranges, "n_area_ranges") {
        Err(e) => return Err(e),
        Ok(n) => n,
    };
    let n_images: usize = match get_required(d.n_images, "n_images") {
        Err(e) => return Err(e),
        Ok(n) => n,
    };
    let iou_thresholds = match get_required(d.iou_thresholds, "iou_thresholds") {
        Err(e) => return Err(e),
        Ok(v) => v,
    };
    let word = match get_required(d.parity_mode, "parity_mode") {
        Err(e) => return Err(e),
        Ok(w) => w,
    };
    let parity_mode = match decode_parity(word.as_str()) {
        Err(e) => return Err(e),
        Ok(p) => p,
    };
    let items = match get_required(d.cells, "cells") {
        Err(e) => return Err(e),
        Ok(CellsList::Other) => return Err(
            Failure::value_error(String::from_str("from_python_cells: 'cells' must be a list")),
        ),
        Ok(CellsList::List(items)) => items,
    };
    let expected: usize = saturating_product(
        saturating_product(n_categories, n_area_ranges),
        n_images,
    );
    if items.len() != expected {
        let mut m = String::from_str("from_python_cells: cells len ");
        m.append(usize_text(items.len()).as_str());
        m.append(" != n_categories(");
        m.append(usize_text(n_categories).as_str());
        m.append(") * n_area_ranges(");
        m.append(usize_text(n_area_ranges).as_str());
        m.append(") * n_images(");
        m.append(usize_text(n_images).as_str());
        m.append(") = ");
        m.append(usize_text(expected).as_str());
        return Err(Failure::value_error(m));
    }
    let cells = match decode_cells(items, iou_thresholds.len()) {
        Err(e) => return Err(e),
        Ok(c) => c,
    };
    Ok(EvalCells::new(cells, n_categories, n_area_ranges, iou_thresholds, parity_mode))
}

/// Cells that were read fit the thresholds, and there are as many as the
/// sizes say.
pub proof fn law_cells_are_rectangular(obj: Option<CellsDict>)
    ensures
        cells_outcome(obj) matches Ok(c) ==> c.wf() && c.cells.len() == expected_cells(
            c.n_categories as usize,
            c.n_area_ranges as usize,
            (obj->0).n_images->0->Ok_0,
        ),
{
    if cells_outcome(obj) is Ok {
        let d = obj->0;
        let (k, a, i, thresholds, _) = cells_head(d)->Ok_0;
        let t = thresholds.len();
        let items = d.cells->0->Ok_0->List_0@;
        let f = cell_reader(items, t);
        lemma_collected_items(f, items.len());
        let cells = collected(f, items.len())->Ok_0;
        assert forall|n: int| 0 <= n < cells.len() implies ((#[trigger] cells[n]) matches Some(c)
            ==> c.wf(t)) by {
            assert(f(n) == Ok::<Option<CellView>, FailureView>(cells[n]));
            if cells[n] is Some {
                let cell = items[n]->Dict_0;
                let scores = required(cell.dt_scores, "dt_scores"@)->Ok_0;
                let matched = required(cell.dt_matched, "dt_matched"@)->Ok_0;
                let ignore = required(cell.dt_ignore, "dt_ignore"@)->Ok_0;
                let g = row_reader(matched@, n, ".dt_matched"@, scores@.len());
                let h = row_reader(ignore@, n, ".dt_ignore"@, scores@.len());
                lemma_collected_items(g, t);
                lemma_collected_items(h, t);
                let c = cells[n]->0;
                assert forall|j: int| 0 <= j < t implies (#[trigger] c.dt_matched[j]).len()
                    == c.dt_scores.len() by {
                    assert(g(j) == Ok::<Seq<bool>, FailureView>(c.dt_matched[j]));
                }
                assert forall|j: int| 0 <= j < t implies (#[trigger] c.dt_ignore[j]).len()
                    == c.dt_scores.len() by {
                    assert(h(j) == Ok::<Seq<bool>, FailureView>(c.dt_ignore[j]));
                }
            }
        }
    }
}

// ---------------------------------------------------------------------------
// Settings
// ---------------------------------------------------------------------------

/// How scores are put into bins.
#[derive(Clone, Copy, Debug, PartialEq, Eq, Structural)]
pub enum Binning {
    Quantile,
    EqualWidth,
}

/// What the word for it stands for.
pub open spec fn binning_outcome(s: Seq<char>) -> Result<Binning, FailureView> {
    if s == "quantile"@ {
        Ok(Binning::Quantile)
    } else if s == "equal_width"@ {
        Ok(Binning::EqualWidth)
    } else {
        Err(value_error("binning must be 'quantile' or 'equal_width', got "@ + debug_text(s)))
    }
}

/// Read the word for it.
pub fn parse_binning(s: &str) -> (r: Result<Binning, Failure>)
    ensures
        refused(r) == binning_outcome(s@),
{
    if same_text(s, "quantile") {
        Ok(Binning::Quantile)
    } else if same_text(s, "equal_width") {
        Ok(Binning::EqualWidth)
    } else {
        let mut m = String::from_str("binning must be 'quantile' or 'equal_width', got ");
        m.append(quoted(s).as_str());
        Err(Failure::value_error(m))
    }
}

/// Which confidence interval is given.
#[derive(Clone, Copy, Debug, PartialEq, Eq, Structural)]
pub enum ConfidenceKind {
    Wilson,
    ClopperPearson,
}

/// What the word for it stands for.
pub open spec fn confidence_outcome(s: Seq<char>) -> Result<ConfidenceKind, FailureView> {
    if s == "wilson"@ {
        Ok(ConfidenceKind::Wilson)
    } else if s == "clopper_pearson"@ {
        Ok(ConfidenceKind::ClopperPearson)
    } else {
        Err(value_error("confidence must be 'wilson' or 'clopper_pearson', got "@ + debug_text(s)))
    }
}

/// Read the word for it.
pub fn parse_confidence(s: &str) -> (r: Result<ConfidenceKind, Failure>)
    ensures
        refused(r) == confidence_outcome(s@),
{
    if same_text(s, "wilson") {
        Ok(ConfidenceKind::Wilson)
    } else if same_text(s, "clopper_pearson") {
        Ok(ConfidenceKind::ClopperPearson)
    } else {
        let mut m = String::from_str("confidence must be 'wilson' or 'clopper_pearson', got ");
        m.append(quoted(s).as_str());
        Err(Failure::value_error(m))
    }
}

/// How classes are taken together.
#[derive(Clone, Copy, Debug, PartialEq, Eq, Structural)]
pub enum Aggregation {
    Macro,
    Micro,
}

/// What the word for it stands for.
pub open spec fn aggregation_outcome(s: Seq<char>) -> Result<Aggregation, FailureView> {
    if s == "macro"@ {
        Ok(Aggregation::Macro)
    } else if s == "micro"@ {
        Ok(Aggregation::Micro)
    } else {
        Err(value_error("per_class_aggregation must be 'macro' or 'micro', got "@ + debug_text(s)))
    }
}

/// Read the word for it.
pub fn parse_aggregation(s: &str) -> (r: Result<Aggregation, Failure>)
    ensures
        refused(r) == aggregation_outcome(s@),
{
    if same_text(s, "macro") {
        Ok(Aggregation::Macro)
    } else if same_text(s, "micro") {
        Ok(Aggregation::Micro)
    } else {
        let mut m = String::from_str("per_class_aggregation must be 'macro' or 'micro', got ");
        m.append(quoted(s).as_str());
        Err(Failure::value_error(m))
    }
}

/// The settings of a calibration.
#[derive(Clone, Copy, Debug, PartialEq, Eq, Structural)]
pub struct CalibrationParams {
    pub iou_index: usize,
    pub n_bins: usize,
    pub binning: Binning,
    pub min_score: u64,
    pub confidence: ConfidenceKind,
    pub per_class: bool,
    pub per_class_aggregation: Aggregation,
}

/// The settings of a calibration: the first unknown word is refused.
pub fn calibration_params(
    iou_index: usize,
    n_bins: usize,
    binning: &str,
    min_score: u64,
    confidence: &str,
    per_class: bool,
    per_class_aggregation: &str,
) -> (r: Result<CalibrationParams, Failure>)
    ensures
        refused(r) == (match binning_outcome(binning@) {
            Err(e) => Err(e),
            Ok(b) => match confidence_outcome(confidence@) {
                Err(e) => Err(e),
                Ok(c) => match aggregation_outcome(per_class_aggregation@) {
                    Err(e) => Err(e),
                    Ok(a) => Ok(
                        (CalibrationParams {
                            iou_index,
                            n_bins,
                            binning: b,
                            min_score,
                            confidence: c,
                            per_class,
                            per_class_aggregation: a,
                        }),
                    ),
                },
            },
        }),
{
    let binning = match parse_binning(binning) {
        Err(e) => return Err(e),
        Ok(b) => b,
    };
    let confidence = match parse_confidence(confidence) {
        Err(e) => return Err(e),
        Ok(c) => c,
    };
    let per_class_aggregation = match parse_aggregation(per_class_aggregation) {
        Err(e) => return Err(e),
        Ok(a) => a,
    };
    Ok(
        CalibrationParams {
            iou_index,
            n_bins,
            binning,
            min_score,
            confidence,
            per_class,
            per_class_aggregation,
        },
    )
}

// ---------------------------------------------------------------------------
// Tables
// ---------------------------------------------------------------------------

/// The bins of a calibration, one row per bin. The floats of an empty bin are
/// not numbers.
#[derive(Debug)]
pub struct ReliabilityTable {
    pub bin_id: Vec<u32>,
    pub score_lo: Vec<u64>,
    pub score_hi: Vec<u64>,
    pub mean_score: Vec<u64>,
    pub accuracy: Vec<u64>,
    pub count: Vec<u64>,
    pub gap: Vec<u64>,
    pub ci_lo: Vec<u64>,
    pub ci_hi: Vec<u64>,
}

/// The calibration of each class.
#[derive(Debug)]
pub struct PerClassTable {
    pub class_id: Vec<u32>,
    pub ece: Vec<u64>,
    pub mce: Vec<u64>,
    pub n: Vec<u64>,
}

/// What a calibration gives.
#[derive(Debug)]
pub struct CalibrationSummary {
    pub ece: u64,
    pub mce: u64,
    pub n_detections: u64,
    pub effective_n_bins: usize,
    pub reliability: ReliabilityTable,
    pub per_class: Option<PerClassTable>,
}

pub open spec fn reliability_columns(t: ReliabilityTable) -> Seq<ColumnView> {
    seq![
        u32_column("bin_id"@, t.bin_id@),
        real_column("score_lo"@, t.score_lo@),
        real_column("score_hi"@, t.score_hi@),
        real_column("mean_score"@, t.mean_score@),
        real_column("accuracy"@, t.accuracy@),
        u64_column("count"@, t.count@),
        real_column("gap"@, t.gap@),
        real_column("ci_lo"@, t.ci_lo@),
        real_column("ci_hi"@, t.ci_hi@),
    ]
}

/// The batch of the bins of a calibration.
pub fn reliability_to_arrow(cal: &CalibrationSummary) -> (r: Result<Batch, String>)
    ensures
        builds(r, reliability_columns(cal.reliability), table_stamp("calibration_reliability"@)),
{
    let t = &cal.reliability;
    let columns: Vec<TableColumn> = vec![
        u32s("bin_id", copy_runs(&t.bin_id)),
        reals("score_lo", copy_u64s(&t.score_lo)),
        reals("score_hi", copy_u64s(&t.score_hi)),
        reals("mean_score", copy_u64s(&t.mean_score)),
        reals("accuracy", copy_u64s(&t.accuracy)),
        u64s("count", copy_u64s(&t.count)),
        reals("gap", copy_u64s(&t.gap)),
        reals("ci_lo", copy_u64s(&t.ci_lo)),
        reals("ci_hi", copy_u64s(&t.ci_hi)),
    ];
    assert(columns_view(columns@) =~= reliability_columns(cal.reliability));
    build_batch(columns, table_metadata("calibration_reliability"))
}

pub open spec fn per_class_columns(t: PerClassTable) -> Seq<ColumnView> {
    seq![
        u32_column("class_id"@, t.class_id@),
        real_column("ece"@, t.ece@),
        real_column("mce"@, t.mce@),
        u64_column("n"@, t.n@),
    ]
}

/// The batch of the calibration of each class.
pub fn per_class_calibration_to_arrow(t: &PerClassTable) -> (r: Result<Batch, String>)
    ensures
        builds(r, per_class_columns(*t), table_stamp("calibration_per_class"@)),
{
    let columns: Vec<TableColumn> = vec![
        u32s("class_id", copy_runs(&t.class_id)),
        reals("ece", copy_u64s(&t.ece)),
        reals("mce", copy_u64s(&t.mce)),
        u64s("n", copy_u64s(&t.n)),
    ];
    assert(columns_view(columns@) =~= per_class_columns(*t));
    build_batch(columns, table_metadata("calibration_per_class"))
}

/// The numbers of a calibration and its tables: that of the classes where
/// there is one.
#[derive(Debug)]
pub struct CalibrateOutput {
    pub ece: u64,
    pub mce: u64,
    pub n_detections: u64,
    pub effective_n_bins: usize,
    pub reliability: ArrowRecordBatch,
    pub per_class: Option<ArrowRecordBatch>,
}

/// The table of the classes, where there is one, has columns of one length.
pub open spec fn classes_agree(t: Option<PerClassTable>) -> bool {
    t matches Some(t) ==> columns_agree(per_class_columns(t))
}

/// Hand a calibration out.
pub fn calibrate_output(summary: &CalibrationSummary) -> (r: Result<CalibrateOutput, Failure>)
    ensures
        r is Ok <==> columns_agree(reliability_columns(summary.reliability)) && classes_agree(
            summary.per_class,
        ),
        match r {
            Ok(out) => {
                &&& out.ece == summary.ece
                &&& out.mce == summary.mce
                &&& out.n_detections == summary.n_detections
                &&& out.effective_n_bins == summary.effective_n_bins
                &&& exports(
                    out.reliability,
                    reliability_columns(summary.reliability),
                    table_stamp("calibration_reliability"@),
                )
                &&& out.per_class is Some <==> summary.per_class is Some
                &&& summary.per_class matches Some(t) ==> exports(
                    out.per_class->0,
                    per_class_columns(t),
                    table_stamp("calibration_per_class"@),
                )
            },
            Err(e) => exists|reason: Seq<char>| e@ == value_error(build_refusal(reason)),
        },
{
    let reliability = match export(reliability_to_arrow(summary)) {
        Err(e) => return Err(e),
        Ok(w) => w,
    };
    let per_class = match &summary.per_class {
        None => None,
        Some(t) => match export(per_class_calibration_to_arrow(t)) {
            Err(e) => return Err(e),
            Ok(w) => Some(w),
        },
    };
    Ok(
        CalibrateOutput {
            ece: summary.ece,
            mce: summary.mce,
            n_detections: summary.n_detections,
            effective_n_bins: summary.effective_n_bins,
            reliability,
            per_class,
        },
    )
}

/// The table of bins has each of its lists in a column of its own, under its own
/// name.
pub proof fn law_reliability_columns_are_its_own(t: ReliabilityTable)
    ensures
        ({
            let c = reliability_columns(t);
            &&& c.len() == 9
            &&& whole_cells(
                c[0],
                "bin_id"@,
                KindView::UInt32,
                t.bin_id@.len(),
                |i: int| t.bin_id@[i] as int,
            )
            &&& real_cells(
                c[1],
                "score_lo"@,
                KindView::Float64,
                t.score_lo@.len(),
                |i: int| t.score_lo@[i],
            )
            &&& real_cells(
                c[2],
                "score_hi"@,
                KindView::Float64,
                t.score_hi@.len(),
                |i: int| t.score_hi@[i],
            )
            &&& real_cells(
                c[3],
                "mean_score"@,
                KindView::Float64,
                t.mean_score@.len(),
                |i: int| t.mean_score@[i],
            )
            &&& real_cells(
                c[4],
                "accuracy"@,
                KindView::Float64,
                t.accuracy@.len(),
                |i: int| t.accuracy@[i],
            )
            &&& whole_cells(
                c[5],
                "count"@,
                KindView::UInt64,
                t.count@.len(),
                |i: int| t.count@[i] as int,
            )
            &&& real_cells(
                c[6],
                "gap"@,
                KindView::Float64,
                t.gap@.len(),
                |i: int| t.gap@[i],
            )
            &&& real_cells(
                c[7],
                "ci_lo"@,
                KindView::Float64,
                t.ci_lo@.len(),
                |i: int| t.ci_lo@[i],
            )
            &&& real_cells(
                c[8],
                "ci_hi"@,
                KindView::Float64,
                t.ci_hi@.len(),
                |i: int| t.ci_hi@[i],
            )
        }),
{
}

/// The table of classes has each of its lists in a column of its own, under its
/// own name.
pub proof fn law_per_class_columns_are_its_own(t: PerClassTable)
    ensures
        ({
            let c = per_class_columns(t);
            &&& c.len() == 4
            &&& whole_cells(
                c[0],
                "class_id"@,
                KindView::UInt32,
                t.class_id@.len(),
                |i: int| t.class_id@[i] as int,
            )
            &&& real_cells(
                c[1],
                "ece"@,
                KindView::Float64,
                t.ece@.len(),
                |i: int| t.ece@[i],
            )
            &&& real_cells(
                c[2],
                "mce"@,
                KindView::Float64,
                t.mce@.len(),
                |i: int| t.mce@[i],
            )
            &&& whole_cells(
                c[3],
                "n"@,
                KindView::UInt64,
                t.n@.len(),
                |i: int| t.n@[i] as int,
            )
        }),
{
}

/// Rows of flags that are taken are those that were given, one per threshold
/// and each with one flag per detection.
pub proof fn law_rows_are_kept(
    rows: Seq<Vec<bool>>,
    idx: int,
    field: Seq<char>,
    d: nat,
    t: nat,
    out: Seq<Vec<bool>>,
)
    requires
        collected(row_reader(rows, idx, field, d), t) == Ok::<Seq<Seq<bool>>, FailureView>(
            rows_view(out),
        ),
    ensures
        out.len() == t,
        forall|k: int| 0 <= k < t ==> (#[trigger] out[k])@ == rows[k]@ && out[k]@.len() == d,
{
    let f = row_reader(rows, idx, field, d);
    lemma_collected_items(f, t);
    let got = rows_view(out);
    assert(got.len() == out.len());
    assert forall|k: int| 0 <= k < t implies (#[trigger] out[k])@ == rows[k]@ && out[k]@.len()
        == d by {
        assert(got[k] == out[k]@);
        assert(f(k) == Ok::<Seq<bool>, FailureView>(got[k]));
    }
}

/// A cell is the one that was described: its scores, and row by row which
/// detections are matched and which are left out. There is one row per
/// threshold and one flag per detection.
pub proof fn law_cells_are_those_described(cell: CellDict, t: nat, idx: int, c: PerImageEval)
    requires
        cell_outcome(cell, t, idx) == Ok::<CellView, FailureView>(c@),
    ensures
        cell.dt_scores matches Some(Ok(scores)) && scores@ == c.dt_scores@,
        cell.dt_matched matches Some(Ok(rows)) && rows@.len() == t && c.dt_matched@.len() == t
            && forall|k: int|
            0 <= k < t ==> (#[trigger] c.dt_matched@[k])@ == rows@[k]@ && c.dt_matched@[k]@.len()
                == c.dt_scores@.len(),
        cell.dt_ignore matches Some(Ok(rows)) && rows@.len() == t && c.dt_ignore@.len() == t
            && forall|k: int|
            0 <= k < t ==> (#[trigger] c.dt_ignore@[k])@ == rows@[k]@ && c.dt_ignore@[k]@.len()
                == c.dt_scores@.len(),
        c.gt_ignore@.len() == 0,
{
    let scores = cell.dt_scores->0->Ok_0;
    let matched = cell.dt_matched->0->Ok_0;
    let ignore = cell.dt_ignore->0->Ok_0;
    law_rows_are_kept(matched@, idx, ".dt_matched"@, scores@.len(), t, c.dt_matched@);
    law_rows_are_kept(ignore@, idx, ".dt_ignore"@, scores@.len(), t, c.dt_ignore@);
}

/// A cell whose rows fit is taken.
pub proof fn law_fitting_cells_are_taken(
    scores: Vec<u64>,
    matched: Vec<Vec<bool>>,
    ignore: Vec<Vec<bool>>,
    t: nat,
    idx: int,
)
    requires
        matched@.len() == t,
        ignore@.len() == t,
        forall|k: int| 0 <= k < t ==> (#[trigger] matched@[k])@.len() == scores@.len(),
        forall|k: int| 0 <= k < t ==> (#[trigger] ignore@[k])@.len() == scores@.len(),
    ensures
        cell_outcome(
            (CellDict {
                dt_scores: Some(Ok(scores)),
                dt_matched: Some(Ok(matched)),
                dt_ignore: Some(Ok(ignore)),
            }),
            t,
            idx,
        ) is Ok,
{
    let f = row_reader(matched@, idx, ".dt_matched"@, scores@.len());
    let g = row_reader(ignore@, idx, ".dt_ignore"@, scores@.len());
    assert forall|k: int| 0 <= k < t implies #[trigger] f(k) is Ok by {
        assert(matched@[k]@.len() == scores@.len());
    }
    assert forall|k: int| 0 <= k < t implies #[trigger] g(k) is Ok by {
        assert(ignore@[k]@.len() == scores@.len());
    }
    law_first_refusal_counts(f, t, 0);
    law_first_refusal_counts(g, t, 0);
}

/// The cells of an evaluation are those that were described: its sizes, its
/// thresholds and its rule book each from their own key, and a cell in the
/// place of each that is no `None`.
pub proof fn law_evaluations_are_those_described(d: CellsDict, c: EvalCells)
    requires
        cells_outcome(Some(d)) == Ok::<EvalCellsView, FailureView>(c@),
    ensures
        d.n_categories == Some(Ok::<usize, Failure>(c.n_categories)),
        d.n_area_ranges == Some(Ok::<usize, Failure>(c.n_area_ranges)),
        d.iou_thresholds matches Some(Ok(thresholds)) && thresholds@ == c.iou_thresholds@,
        d.parity_mode matches Some(Ok(word)) && match c.parity_mode {
            ParityMode::Strict => word@ == "strict"@,
            ParityMode::Corrected => word@ == "corrected"@,
        },
        d.cells matches Some(Ok(CellsList::List(items))) && items@.len() == c.cells@.len()
            && forall|i: int|
            0 <= i < items@.len() ==> match #[trigger] c.cells@[i] {
                None => items@[i] is Nothing,
                Some(cell) => items@[i] matches CellObject::Dict(described) && cell_outcome(
                    described,
                    c.iou_thresholds@.len(),
                    i,
                ) == Ok::<CellView, FailureView>(cell@),
            },
{
    reveal_strlit("strict");
    reveal_strlit("corrected");
    let items = d.cells->0->Ok_0->List_0;
    let t = c.iou_thresholds@.len();
    let f = cell_reader(items@, t);
    lemma_collected_items(f, items@.len());
    let got = cells_view(c.cells@);
    assert(got.len() == c.cells@.len());
    assert forall|i: int| 0 <= i < items@.len() implies match #[trigger] c.cells@[i] {
        None => items@[i] is Nothing,
        Some(cell) => items@[i] matches CellObject::Dict(described) && cell_outcome(
            described,
            t,
            i,
        ) == Ok::<CellView, FailureView>(cell@),
    } by {
        assert(got[i] == cell_of(c.cells@[i]));
        assert(f(i) == Ok::<Option<CellView>, FailureView>(got[i]));
    }
}

/// There are as many cells as the three sizes multiply to, where a `usize`
/// holds that.
pub proof fn law_sizes_multiply(k: usize, a: usize, i: usize)
    requires
        k * a * i <= usize::MAX,
        i >= 1,
    ensures
        expected_cells(k, a, i) == k * a * i,
{
    assert(k * a <= k * a * i) by (nonlinear_arith)
        requires
            i >= 1,
            0 <= k * a,
    ;
}

/// A product that a `usize` does not hold stops at the largest.
pub proof fn law_products_stop_at_the_largest(a: usize, b: usize)
    ensures
        a * b <= usize::MAX ==> saturated(a as int, b as int) == a * b,
        a * b > usize::MAX ==> saturated(a as int, b as int) == usize::MAX,
{
    assert(0 <= a * b) by (nonlinear_arith)
        requires
            0 <= a,
            0 <= b,
    ;
}

/// The words for the rule book, the bins, the interval and the aggregation
/// stand for what they say, and no other word stands for anything.
pub proof fn law_calibration_words(s: Seq<char>)
    ensures
        (cells_parity(s) matches Ok(m) && m is Strict) <==> s == "strict"@,
        (cells_parity(s) matches Ok(m) && m is Corrected) <==> s == "corrected"@,
        (binning_outcome(s) matches Ok(b) && b is Quantile) <==> s == "quantile"@,
        (binning_outcome(s) matches Ok(b) && b is EqualWidth) <==> s == "equal_width"@,
        (confidence_outcome(s) matches Ok(c) && c is Wilson) <==> s == "wilson"@,
        (confidence_outcome(s) matches Ok(c) && c is ClopperPearson) <==> s == "clopper_pearson"@,
        (aggregation_outcome(s) matches Ok(a) && a is Macro) <==> s == "macro"@,
        (aggregation_outcome(s) matches Ok(a) && a is Micro) <==> s == "micro"@,
{
    reveal_strlit("strict");
    reveal_strlit("corrected");
    reveal_strlit("quantile");
    reveal_strlit("equal_width");
    reveal_strlit("wilson");
    reveal_strlit("clopper_pearson");
    reveal_strlit("macro");
    reveal_strlit("micro");
    assert("strict"@.len() != "corrected"@.len());
    assert("quantile"@.len() != "equal_width"@.len());
    assert("wilson"@.len() != "clopper_pearson"@.len());
    assert("macro"@[1] != "micro"@[1]);
}

/// The cells that are there are counted one by one.
pub proof fn law_cells_are_counted(cells: Seq<Option<CellView>>, c: CellView)
    ensures
        populated(Seq::empty()) == 0,
        populated(cells.push(Some(c))) == populated(cells) + 1,
        populated(cells.push(None)) == populated(cells),
        populated(cells) <= cells.len(),
    decreases cells.len(),
{
    assert(cells.push(Some(c)).drop_last() =~= cells);
    assert(cells.push(None).drop_last() =~= cells);
    if cells.len() > 0 {
        law_cells_are_counted(cells.drop_last(), c);
    }
}

/// An overlap stands at the first threshold that it is close to, and there is
/// one such place at most.
pub proof fn law_first_threshold_counts(close: Seq<bool>, i: int, j: int)
    requires
        first_set(close, i),
    ensures
        0 <= i < close.len(),
        close[i],
        0 <= j < i ==> !close[j],
        first_set(close, j) ==> i == j,
{
    if first_set(close, j) {
        if j < i {
            assert(!close[j]);
        }
        if i < j {
            assert(!close[i]);
        }
    }
}

/// What the cells of an evaluation show is what they hold.
pub proof fn law_evaluations_show_what_they_hold(c: EvalCells, i: int)
    ensures
        c@.n_categories == c.n_categories,
        c@.n_area_ranges == c.n_area_ranges,
        c@.iou_thresholds == c.iou_thresholds@,
        c@.parity_mode == c.parity_mode,
        c@.cells.len() == c.cells@.len(),
        0 <= i < c.cells@.len() ==> match c.cells@[i] {
            None => c@.cells[i] is None,
            Some(cell) => c@.cells[i] matches Some(v) && v.dt_scores == cell.dt_scores@
                && v.gt_ignore == cell.gt_ignore@ && v.dt_matched.len() == cell.dt_matched@.len()
                && v.dt_ignore.len() == cell.dt_ignore@.len(),
        },
{
}

/// A key that has to be there gives what was read under it.
pub proof fn law_required_keys_are_read<T>(held: Option<Result<T, Failure>>, key: Seq<char>)
    ensures
        required(held, key) is Ok <==> (held matches Some(r) && r is Ok),
        required(held, key) matches Ok(v) ==> held == Some(Ok::<T, Failure>(v)),
        held matches Some(Err(e)) ==> required(held, key) == Err::<T, FailureView>(e@),
{
}

} // verus!
