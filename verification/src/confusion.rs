//! Confusion matrices in long form: one row per pair of classes.
//!
//! A class is written as its id in decimal, so that a column holds text
//! throughout. Where a row is a false positive or a missed object the class
//! that is not there is written as a word that no id is written as.

use crate::config::{
    dilation_outcome, law_parity_words, parity_outcome, parse_parity_mode, validate_dilation_ratio, ParityMode,
};
use crate::failure::{refused, value_error, with_real, ErrorKind, Failure, FailureView};
use crate::float_bits::{in_unit_interval, is_finite, one, scaled};
use crate::text::{i64_text, int_text, nat_text};
use crate::threads::{is_digit, lemma_nat_text_value};
use vstd::prelude::*;
use vstd::relations::total_ordering;
use vstd::seq_lib::{lemma_sorted_unique, to_multiset_insert};

verus! {

/// The word for no class.
pub const NONE_SENTINEL: &'static str = "__none__";

// ---------------------------------------------------------------------------
// Checking a request
// ---------------------------------------------------------------------------

/// What checking a request for a confusion matrix gives.
pub open spec fn request_outcome(
    parity_mode: Seq<char>,
    iou_threshold: u64,
    max_dets_per_image: usize,
    use_cats: bool,
) -> Result<ParityMode, FailureView> {
    match parity_outcome(parity_mode) {
        Err(e) => Err(e),
        Ok(parity) => if !(is_finite(iou_threshold) && 0 <= scaled(iou_threshold) <= one()) {
            Err(
                with_real(
                    ErrorKind::ValueError,
                    "iou_threshold must be a finite float in [0, 1], got "@,
                    iou_threshold,
                    ""@,
                ),
            )
        } else if max_dets_per_image == 0 {
            Err(
                value_error(
                    "max_dets_per_image must be >= 1 (matches the matching path's per-image cap)"@,
                ),
            )
        } else if !use_cats {
            Err(
                value_error(
                    "use_cats=False is not supported for confusion_matrix — \
             a category-collapsed evaluation collapses every cell to a \
             single virtual class and so has no meaningful confusion matrix"@,
                ),
            )
        } else {
            Ok(parity)
        },
    }
}

/// Check a request for a confusion matrix.
pub fn check_confusion_pass(
    parity_mode: &str,
    iou_threshold: u64,
    max_dets_per_image: usize,
    use_cats: bool,
) -> (r: Result<ParityMode, Failure>)
    ensures
        refused(r) == request_outcome(parity_mode@, iou_threshold, max_dets_per_image, use_cats),
{
    let parity = match parse_parity_mode(parity_mode) {
        Err(e) => return Err(e),
        Ok(p) => p,
    };
    if !in_unit_interval(iou_threshold) {
        return Err(
            Failure::with_real(
                ErrorKind::ValueError,
                String::from_str("iou_threshold must be a finite float in [0, 1], got "),
                iou_threshold,
                String::from_str(""),
            ),
        );
    }
    if max_dets_per_image == 0 {
        return Err(
            Failure::value_error(
                String::from_str(
                    "max_dets_per_image must be >= 1 (matches the matching path's per-image cap)",
                ),
            ),
        );
    }
    if !use_cats {
        return Err(
            Failure::value_error(
                String::from_str(
                    "use_cats=False is not supported for confusion_matrix — \
             a category-collapsed evaluation collapses every cell to a \
             single virtual class and so has no meaningful confusion matrix",
                ),
            ),
        );
    }
    Ok(parity)
}

/// Check a request for a confusion matrix by outlines: the width of the band
/// first.
pub fn check_boundary_confusion_pass(
    dilation_ratio: u64,
    parity_mode: &str,
    iou_threshold: u64,
    max_dets_per_image: usize,
    use_cats: bool,
) -> (r: Result<ParityMode, Failure>)
    ensures
        refused(r) == (match dilation_outcome(dilation_ratio) {
            Err(e) => Err(e),
            Ok(()) => request_outcome(parity_mode@, iou_threshold, max_dets_per_image, use_cats),
        }),
{
    match validate_dilation_ratio(dilation_ratio) {
        Err(e) => Err(e),
        Ok(()) => check_confusion_pass(parity_mode, iou_threshold, max_dets_per_image, use_cats),
    }
}

// ---------------------------------------------------------------------------
// Rows
// ---------------------------------------------------------------------------

/// A pair of classes by their numbers, and how often it occurs.
pub type CountRow = ((Option<usize>, Option<usize>), u64);

/// The place of a class in the order of rows: no class comes after every
/// class.
pub open spec fn idx_rank(idx: Option<usize>) -> int {
    match idx {
        Some(i) => i as int,
        None => usize::MAX + 1,
    }
}

/// The order of rows: by the first class, then by the second.
pub open spec fn key_leq(a: CountRow, b: CountRow) -> bool {
    let (ga, da) = (idx_rank(a.0.0), idx_rank(a.0.1));
    let (gb, db) = (idx_rank(b.0.0), idx_rank(b.0.1));
    ga < gb || (ga == gb && da <= db)
}

/// Rows in order.
pub open spec fn rows_sorted(rows: Seq<CountRow>) -> bool {
    forall|i: int, j: int| 0 <= i < j < rows.len() ==> key_leq(rows[i], rows[j])
}

/// No pair of classes occurs in two entries.
pub open spec fn distinct_keys(entries: Seq<CountRow>) -> bool {
    forall|i: int, j: int|
        0 <= i < j < entries.len() ==> (#[trigger] entries[i]).0 != (#[trigger] entries[j]).0
}

/// What a class is written as.
pub open spec fn label_of(idx: Option<usize>, category_ids: Seq<i64>) -> Seq<char> {
    match idx {
        Some(i) => if i < category_ids.len() {
            int_text(category_ids[i as int] as int)
        } else {
            NONE_SENTINEL@
        },
        None => NONE_SENTINEL@,
    }
}

/// What a class is written as.
pub fn class_label(idx: Option<usize>, category_ids: &Vec<i64>) -> (s: String)
    ensures
        s@ == label_of(idx, category_ids@),
{
    match idx {
        Some(i) => if i < category_ids.len() {
            i64_text(category_ids[i])
        } else {
            String::from_str(NONE_SENTINEL)
        },
        None => String::from_str(NONE_SENTINEL),
    }
}

/// A confusion matrix as columns.
#[derive(Debug)]
pub struct ConfusionTable {
    pub gt_class: Vec<String>,
    pub dt_class: Vec<String>,
    pub count: Vec<u64>,
}

impl ConfusionTable {
    /// The columns hold these rows in order.
    pub open spec fn holds(self, rows: Seq<CountRow>, category_ids: Seq<i64>) -> bool {
        &&& self.gt_class@.len() == rows.len()
        &&& self.dt_class@.len() == rows.len()
        &&& self.count@.len() == rows.len()
        &&& forall|i: int|
            0 <= i < rows.len() ==> {
                &&& (#[trigger] self.gt_class@[i])@ == label_of(rows[i].0.0, category_ids)
                &&& self.dt_class@[i]@ == label_of(rows[i].0.1, category_ids)
                &&& self.count@[i] == rows[i].1
            }
    }
}

/// A total order of entries that refines the order of rows.
pub open spec fn entry_leq() -> spec_fn(CountRow, CountRow) -> bool {
    |a: CountRow, b: CountRow| key_leq(a, b) && (a.0 == b.0 ==> a.1 <= b.1)
}

proof fn lemma_entry_leq_total()
    ensures
        total_ordering(entry_leq()),
{
    let leq = entry_leq();
    assert forall|a: CountRow, b: CountRow| #[trigger] leq(a, b) && #[trigger] leq(b, a) implies a
        == b by {
        assert(idx_rank(a.0.0) == idx_rank(b.0.0));
        assert(idx_rank(a.0.1) == idx_rank(b.0.1));
        assert(a.0.0 == b.0.0);
        assert(a.0.1 == b.0.1);
        assert(a.0 == b.0);
    }
    assert forall|a: CountRow, b: CountRow| #[trigger] leq(a, b) || #[trigger] leq(b, a) by {
        if idx_rank(a.0.0) == idx_rank(b.0.0) && idx_rank(a.0.1) == idx_rank(b.0.1) {
            assert(a.0.0 == b.0.0);
            assert(a.0.1 == b.0.1);
            assert(a.0 == b.0);
        }
    }
}

/// The rows of a confusion matrix: its entries in order.
pub open spec fn matrix_rows(entries: Seq<CountRow>) -> Seq<CountRow> {
    entries.sort_by(entry_leq())
}

/// Rows in order that hold the entries, no pair of classes twice, are the
/// rows of the matrix.
proof fn lemma_matrix_rows(entries: Seq<CountRow>, rows: Seq<CountRow>)
    requires
        rows.to_multiset() == entries.to_multiset(),
        rows_sorted(rows),
        distinct_keys(entries),
    ensures
        rows == matrix_rows(entries),
{
    broadcast use vstd::seq_lib::group_to_multiset_ensures;

    lemma_entry_leq_total();
    let leq = entry_leq();
    entries.lemma_sort_by_ensures(leq);
    assert forall|i: int, j: int| 0 <= i < j < rows.len() implies #[trigger] leq(
        rows[i],
        rows[j],
    ) by {
        lemma_keys_stay_distinct(entries, rows, i, j);
    }
    lemma_sorted_unique(rows, matrix_rows(entries), leq);
}

/// Where no pair of classes occurs in two entries, none occurs in two rows.
proof fn lemma_keys_stay_distinct(entries: Seq<CountRow>, rows: Seq<CountRow>, i: int, j: int)
    requires
        rows.to_multiset() == entries.to_multiset(),
        distinct_keys(entries),
        0 <= i < j < rows.len(),
    ensures
        rows[i].0 != rows[j].0,
{
    broadcast use vstd::seq_lib::group_to_multiset_ensures;

    assert(rows.contains(rows[i]));
    assert(rows.contains(rows[j]));
    assert(entries.to_multiset().count(rows[i]) > 0);
    assert(entries.to_multiset().count(rows[j]) > 0);
    assert(entries.contains(rows[i]));
    assert(entries.contains(rows[j]));
    let a = choose|k: int| 0 <= k < entries.len() && entries[k] == rows[i];
    let b = choose|k: int| 0 <= k < entries.len() && entries[k] == rows[j];
    if a == b {
        assert(entries.no_duplicates()) by {
            assert forall|x: int, y: int|
                0 <= x < entries.len() && 0 <= y < entries.len() && x != y implies entries[x]
                != entries[y] by {
                if x < y {
                    assert(entries[x].0 != entries[y].0);
                } else {
                    assert(entries[y].0 != entries[x].0);
                }
            }
        }
        entries.lemma_multiset_has_no_duplicates();
        rows.lemma_multiset_has_no_duplicates_conv();
    } else if a < b {
        assert(entries[a].0 != entries[b].0);
    } else {
        assert(entries[b].0 != entries[a].0);
    }
}

/// Does one row stand at or before the other?
fn row_leq(a: CountRow, b: CountRow) -> (r: bool)
    ensures
        r == key_leq(a, b),
{
    let first = idx_leq(a.0.0, b.0.0);
    let back = idx_leq(b.0.0, a.0.0);
    if first && back {
        idx_leq(a.0.1, b.0.1)
    } else {
        first
    }
}

/// Does one class stand at or before the other?
fn idx_leq(a: Option<usize>, b: Option<usize>) -> (r: bool)
    ensures
        r == (idx_rank(a) <= idx_rank(b)),
{
    match (a, b) {
        (Some(i), Some(j)) => i <= j,
        (_, None) => true,
        (None, Some(_)) => false,
    }
}

/// Put entries in order.
fn sort_rows(entries: &Vec<CountRow>) -> (rows: Vec<CountRow>)
    ensures
        rows_sorted(rows@),
        rows@.to_multiset() == entries@.to_multiset(),
{
    let mut rows: Vec<CountRow> = Vec::new();
    let mut i: usize = 0;
    assert(entries@.take(0) =~= rows@);
    while i < entries.len()
        invariant
            i <= entries.len(),
            rows@.len() == i,
            rows_sorted(rows@),
            rows@.to_multiset() == entries@.take(i as int).to_multiset(),
        decreases entries.len() - i,
    {
        let x = entries[i];
        let mut k: usize = rows.len();
        while k > 0 && !row_leq(rows[k - 1], x)
            invariant
                k <= rows.len(),
                rows_sorted(rows@),
                forall|j: int| k <= j < rows@.len() ==> !key_leq(#[trigger] rows@[j], x),
            decreases k,
        {
            k -= 1;
        }
        proof {
            to_multiset_insert(rows@, k as int, x);
            let before = entries@.take(i as int);
            to_multiset_insert(before, i as int, x);
            assert(before.insert(i as int, x) =~= entries@.take(i + 1));
        }
        let ghost was = rows@;
        rows.insert(k, x);
        proof {
            assert forall|a: int, b: int| 0 <= a < b < rows@.len() implies key_leq(
                rows@[a],
                rows@[b],
            ) by {
                if a == k {
                    assert(!key_leq(was[b - 1], x));
                } else if b == k {
                    assert(key_leq(was[k - 1], x));
                    if a < k - 1 {
                        assert(key_leq(was[a], was[k - 1]));
                    }
                } else {
                    let ia = if a < k { a } else { a - 1 };
                    let ib = if b < k { b } else { b - 1 };
                    assert(key_leq(was[ia], was[ib]));
                }
            }
        }
        i += 1;
    }
    assert(entries@.take(i as int) =~= entries@);
    rows
}

/// A confusion matrix as columns. Its rows are in order, whatever order the
/// entries come in.
pub fn counts_to_table(entries: &Vec<CountRow>, category_ids: &Vec<i64>) -> (t: ConfusionTable)
    ensures
        distinct_keys(entries@) ==> t.holds(matrix_rows(entries@), category_ids@),
        exists|rows: Seq<CountRow>| #[trigger]
            t.holds(rows, category_ids@) && rows_sorted(rows) && rows.to_multiset()
                == entries@.to_multiset(),
{
    let rows = sort_rows(entries);
    let mut gt_class: Vec<String> = Vec::new();
    let mut dt_class: Vec<String> = Vec::new();
    let mut count: Vec<u64> = Vec::new();
    let mut i: usize = 0;
    while i < rows.len()
        invariant
            i <= rows.len(),
            gt_class@.len() == i,
            dt_class@.len() == i,
            count@.len() == i,
            forall|k: int|
                0 <= k < i ==> {
                    &&& (#[trigger] gt_class@[k])@ == label_of(rows@[k].0.0, category_ids@)
                    &&& dt_class@[k]@ == label_of(rows@[k].0.1, category_ids@)
                    &&& count@[k] == rows@[k].1
                },
        decreases rows.len() - i,
    {
        let (pair, n) = rows[i];
        gt_class.push(class_label(pair.0, category_ids));
        dt_class.push(class_label(pair.1, category_ids));
        count.push(n);
        i += 1;
    }
    let t = ConfusionTable { gt_class, dt_class, count };
    proof {
        assert(t.holds(rows@, category_ids@));
        if distinct_keys(entries@) {
            lemma_matrix_rows(entries@, rows@);
        }
    }
    t
}

// ---------------------------------------------------------------------------
// What holds of every matrix
// ---------------------------------------------------------------------------

/// The order in which the entries come makes no difference.
pub proof fn law_rows_are_deterministic(entries: Seq<CountRow>, other: Seq<CountRow>)
    requires
        entries.to_multiset() == other.to_multiset(),
    ensures
        matrix_rows(entries) == matrix_rows(other),
{
    lemma_entry_leq_total();
    entries.lemma_sort_by_ensures(entry_leq());
    other.lemma_sort_by_ensures(entry_leq());
    lemma_sorted_unique(matrix_rows(entries), matrix_rows(other), entry_leq());
}

/// The rows of a matrix hold its entries, and those without a class trail.
pub proof fn law_rows_hold_the_entries(entries: Seq<CountRow>)
    ensures
        matrix_rows(entries).to_multiset() == entries.to_multiset(),
        rows_sorted(matrix_rows(entries)),
        forall|i: int, j: int|
            0 <= i < j < matrix_rows(entries).len() && (#[trigger] matrix_rows(entries)[i]).0.0
                is None ==> (#[trigger] matrix_rows(entries)[j]).0.0 is None,
{
    lemma_entry_leq_total();
    entries.lemma_sort_by_ensures(entry_leq());
    let rows = matrix_rows(entries);
    assert forall|i: int, j: int| 0 <= i < j < rows.len() implies key_leq(rows[i], rows[j]) by {
        assert(entry_leq()(rows[i], rows[j]));
    }
    assert forall|i: int, j: int|
        0 <= i < j < rows.len() && (#[trigger] rows[i]).0.0 is None implies (
    #[trigger] rows[j]).0.0 is None by {
        assert(key_leq(rows[i], rows[j]));
    }
}

/// The decimal text of a number starts with a digit or a minus sign, and no
/// two numbers have the same.
proof fn lemma_int_text(n: int, m: int)
    ensures
        int_text(n).len() > 0,
        int_text(n)[0] == '-' || is_digit(int_text(n)[0]),
        int_text(n) == int_text(m) ==> n == m,
{
    reveal_strlit("-");
    let a = if n < 0 {
        (-n) as nat
    } else {
        n as nat
    };
    let b = if m < 0 {
        (-m) as nat
    } else {
        m as nat
    };
    lemma_nat_text_value(a);
    lemma_nat_text_value(b);
    assert(is_digit(nat_text(a)[0]));
    assert(is_digit(nat_text(b)[0]));
    if int_text(n) == int_text(m) {
        if n < 0 {
            assert(int_text(m)[0] == '-');
            assert(nat_text(a) =~= int_text(n).skip(1));
            assert(nat_text(b) =~= int_text(m).skip(1));
        }
    }
}

/// Classes with different ids are written differently, and no id is written
/// as the word for no class.
pub proof fn law_labels_do_not_collide(i: usize, j: usize, category_ids: Seq<i64>)
    requires
        i < category_ids.len(),
        j < category_ids.len(),
    ensures
        label_of(Some(i), category_ids) != label_of(None, category_ids),
        label_of(Some(i), category_ids) == label_of(Some(j), category_ids) ==> category_ids[i as int]
            == category_ids[j as int],
{
    reveal_strlit("__none__");
    lemma_int_text(category_ids[i as int] as int, category_ids[j as int] as int);
    assert(NONE_SENTINEL@[0] == '_');
}

/// A request is taken exactly where it names a rule book, gives a threshold
/// from zero to one, at least one detection per image, and categories; and the
/// rule book is the one named.
pub proof fn law_requests_are_taken(
    word: Seq<char>,
    iou_threshold: u64,
    max_dets_per_image: usize,
    use_cats: bool,
)
    ensures
        request_outcome(word, iou_threshold, max_dets_per_image, use_cats) is Ok <==> (word
            == "strict"@ || word == "corrected"@) && is_finite(iou_threshold) && 0 <= scaled(
            iou_threshold,
        ) <= one() && max_dets_per_image >= 1 && use_cats,
        request_outcome(word, iou_threshold, max_dets_per_image, use_cats) matches Ok(mode) ==> (
        mode is Strict <==> word == "strict"@) && (mode is Corrected <==> word == "corrected"@),
{
    law_parity_words(word);
}

/// Rows in order ascend by the first class and then by the second, and no
/// class comes after every class.
pub proof fn law_rows_ascend(rows: Seq<CountRow>, i: int, j: int)
    requires
        rows_sorted(rows),
        0 <= i < j < rows.len(),
    ensures
        match (rows[i].0.0, rows[j].0.0) {
            (Some(a), Some(b)) => a <= b,
            (None, Some(_)) => false,
            (_, None) => true,
        },
        rows[i].0.0 == rows[j].0.0 ==> match (rows[i].0.1, rows[j].0.1) {
            (Some(a), Some(b)) => a <= b,
            (None, Some(_)) => false,
            (_, None) => true,
        },
{
    assert(key_leq(rows[i], rows[j]));
}

/// A table holds its rows one by one: the first class, the second and the
/// count of each in their own columns.
pub proof fn law_tables_hold_their_rows(
    t: ConfusionTable,
    rows: Seq<CountRow>,
    category_ids: Seq<i64>,
    i: int,
)
    requires
        t.holds(rows, category_ids),
        0 <= i < rows.len(),
    ensures
        t.gt_class@.len() == rows.len(),
        t.dt_class@.len() == rows.len(),
        t.count@.len() == rows.len(),
        t.count@[i] == rows[i].1,
        match rows[i].0.0 {
            Some(g) => g < category_ids.len() ==> t.gt_class@[i]@ == int_text(
                category_ids[g as int] as int,
            ),
            None => t.gt_class@[i]@ == "__none__"@,
        },
        match rows[i].0.1 {
            Some(d) => d < category_ids.len() ==> t.dt_class@[i]@ == int_text(
                category_ids[d as int] as int,
            ),
            None => t.dt_class@[i]@ == "__none__"@,
        },
{
    assert(t.gt_class@[i]@ == label_of(rows[i].0.0, category_ids));
}

/// A number without a class is written as the word for no class.
pub proof fn law_unknown_classes_are_none(i: usize, category_ids: Seq<i64>)
    requires
        i >= category_ids.len(),
    ensures
        label_of(Some(i), category_ids) == "__none__"@,
        label_of(None, category_ids) == "__none__"@,
{
}

} // verus!
