//! Breakdowns of results: by closed ranges of a number, or by named groups
//! of class ids.
//!
//! A range breakdown holds labelled intervals, closed on both ends. A group
//! breakdown is a strict partition: no class id stands in it twice.

use crate::collect::{
    collected, law_first_refusal_counts, lemma_collected_items, lemma_collected_refusal,
};
use crate::failure::{
    plain, value_error, with_real, with_two_reals, ErrorKind, Failure, FailureView,
};
use crate::float_bits::{below_zero, finite, is_finite, less, scaled};
use crate::model::copy_runs;
use crate::text::{debug_text, nat_text, quoted, u64_text, usize_text};
use std::collections::HashSet;
use vstd::prelude::*;

verus! {

broadcast use vstd::std_specs::hash::group_hash_axioms;

/// A labelled interval, closed on both ends, and its place on the axis.
#[derive(Debug)]
pub struct Bucket {
    pub index: usize,
    pub label: String,
    pub lo: u64,
    pub hi: u64,
}

/// A named set of class ids and its place on the axis.
#[derive(Debug)]
pub struct ClassGroup {
    pub index: usize,
    pub label: String,
    pub class_ids: Vec<u32>,
}

/// Labelled intervals on a named axis.
#[derive(Debug)]
pub struct Breakdown {
    pub axis: String,
    pub buckets: Vec<Bucket>,
}

/// Named groups of class ids on a named axis.
#[derive(Debug)]
pub struct ClassGroupBreakdown {
    pub axis: String,
    pub groups: Vec<ClassGroup>,
}

/// Which of the two a breakdown is.
#[derive(Debug)]
pub enum BreakdownInner {
    Range(Breakdown),
    ClassGroups(ClassGroupBreakdown),
}

/// A breakdown of either kind.
#[derive(Debug)]
pub struct PyBreakdown {
    pub inner: BreakdownInner,
}

/// The mathematical value of a [`Bucket`].
#[verifier::ext_equal]
pub struct BucketView {
    pub index: nat,
    pub label: Seq<char>,
    pub lo: u64,
    pub hi: u64,
}

/// The mathematical value of a [`ClassGroup`].
#[verifier::ext_equal]
pub struct GroupView {
    pub index: nat,
    pub label: Seq<char>,
    pub class_ids: Seq<u32>,
}

/// The mathematical value of a [`PyBreakdown`].
#[verifier::ext_equal]
pub enum BreakdownView {
    Range { axis: Seq<char>, buckets: Seq<BucketView> },
    ClassGroups { axis: Seq<char>, groups: Seq<GroupView> },
}

impl View for Bucket {
    type V = BucketView;

    open spec fn view(&self) -> BucketView {
        BucketView { index: self.index as nat, label: self.label@, lo: self.lo, hi: self.hi }
    }
}

impl View for ClassGroup {
    type V = GroupView;

    open spec fn view(&self) -> GroupView {
        GroupView { index: self.index as nat, label: self.label@, class_ids: self.class_ids@ }
    }
}

/// Buckets by their mathematical value.
pub open spec fn buckets_view(v: Seq<Bucket>) -> Seq<BucketView> {
    v.map_values(|b: Bucket| b@)
}

/// Groups by their mathematical value.
pub open spec fn groups_view(v: Seq<ClassGroup>) -> Seq<GroupView> {
    v.map_values(|g: ClassGroup| g@)
}

impl View for PyBreakdown {
    type V = BreakdownView;

    open spec fn view(&self) -> BreakdownView {
        match self.inner {
            BreakdownInner::Range(b) => BreakdownView::Range {
                axis: b.axis@,
                buckets: buckets_view(b.buckets@),
            },
            BreakdownInner::ClassGroups(g) => BreakdownView::ClassGroups {
                axis: g.axis@,
                groups: groups_view(g.groups@),
            },
        }
    }
}

// ---------------------------------------------------------------------------
// Ranges
// ---------------------------------------------------------------------------

/// The label of entry `i` stands before it already.
pub open spec fn range_label_seen(buckets: Seq<(String, u64, u64)>, i: int) -> bool {
    exists|k: int| 0 <= k < i && #[trigger] buckets[k].0@ == buckets[i].0@
}

/// Where in a range breakdown a refusal points.
pub open spec fn bucket_text(i: int) -> Seq<char> {
    "Breakdown.from_ranges: bucket["@ + nat_text(i as nat)
}

/// Each bucket, or why it is refused.
pub open spec fn bucket_reader(buckets: Seq<(String, u64, u64)>) -> spec_fn(int) -> Result<
    BucketView,
    FailureView,
> {
    |i: int|
        {
            let (label, lo, hi) = buckets[i];
            if !is_finite(lo) {
                Err(
                    with_real(
                        ErrorKind::ValueError,
                        bucket_text(i) + "] lo must be finite, got "@,
                        lo,
                        ""@,
                    ),
                )
            } else if !is_finite(hi) {
                Err(
                    with_real(
                        ErrorKind::ValueError,
                        bucket_text(i) + "] hi must be finite, got "@,
                        hi,
                        ""@,
                    ),
                )
            } else if scaled(lo) < 0 {
                Err(
                    with_real(
                        ErrorKind::ValueError,
                        bucket_text(i) + "] lo must be >= 0, got "@,
                        lo,
                        ""@,
                    ),
                )
            } else if scaled(lo) > scaled(hi) {
                Err(
                    with_two_reals(
                        ErrorKind::ValueError,
                        bucket_text(i) + "] requires lo <= hi, got lo="@,
                        lo,
                        ", hi="@,
                        hi,
                        ""@,
                    ),
                )
            } else if range_label_seen(buckets, i) {
                Err(
                    value_error(
                        "Breakdown.from_ranges: duplicate bucket label "@ + debug_text(label@),
                    ),
                )
            } else {
                Ok(BucketView { index: i as nat, label: label@, lo, hi })
            }
        }
}

/// The buckets of a range breakdown in the order given, or the first
/// refusal.
pub open spec fn ranges_outcome(buckets: Seq<(String, u64, u64)>) -> Result<
    Seq<BucketView>,
    FailureView,
> {
    if buckets.len() == 0 {
        Err(value_error("Breakdown.from_ranges: buckets must be non-empty"@))
    } else {
        collected(bucket_reader(buckets), buckets.len())
    }
}

/// Does the label of entry `i` stand before it already?
fn is_range_label_seen(buckets: &Vec<(String, u64, u64)>, i: usize) -> (b: bool)
    requires
        i < buckets@.len(),
    ensures
        b == range_label_seen(buckets@, i as int),
{
    let mut k: usize = 0;
    while k < i
        invariant
            k <= i < buckets@.len(),
            forall|j: int| 0 <= j < k ==> #[trigger] buckets@[j].0@ != buckets@[i as int].0@,
        decreases i - k,
    {
        if buckets[k].0 == buckets[i].0 {
            assert(buckets@[k as int].0@ == buckets@[i as int].0@);
            return true;
        }
        k += 1;
    }
    false
}

/// Check one bucket of a range breakdown.
fn read_bucket(buckets: &Vec<(String, u64, u64)>, i: usize) -> (r: Result<Bucket, Failure>)
    requires
        i < buckets@.len(),
    ensures
        match r {
            Ok(b) => bucket_reader(buckets@)(i as int) == Ok::<BucketView, FailureView>(b@),
            Err(e) => bucket_reader(buckets@)(i as int) == Err::<BucketView, FailureView>(e@),
        },
{
    let lo: u64 = buckets[i].1;
    let hi: u64 = buckets[i].2;
    let mut m = String::from_str("Breakdown.from_ranges: bucket[");
    m.append(usize_text(i).as_str());
    let nothing = String::from_str("");
    if !finite(lo) {
        m.append("] lo must be finite, got ");
        return Err(Failure::with_real(ErrorKind::ValueError, m, lo, nothing));
    }
    if !finite(hi) {
        m.append("] hi must be finite, got ");
        return Err(Failure::with_real(ErrorKind::ValueError, m, hi, nothing));
    }
    if below_zero(lo) {
        m.append("] lo must be >= 0, got ");
        return Err(Failure::with_real(ErrorKind::ValueError, m, lo, nothing));
    }
    if less(hi, lo) {
        m.append("] requires lo <= hi, got lo=");
        return Err(
            Failure::with_two_reals(
                ErrorKind::ValueError,
                m,
                lo,
                String::from_str(", hi="),
                hi,
                nothing,
            ),
        );
    }
    if is_range_label_seen(buckets, i) {
        let mut d = String::from_str("Breakdown.from_ranges: duplicate bucket label ");
        d.append(quoted(buckets[i].0.as_str()).as_str());
        return Err(Failure::value_error(d));
    }
    Ok(Bucket { index: i, label: buckets[i].0.clone(), lo, hi })
}

// ---------------------------------------------------------------------------
// Class groups
// ---------------------------------------------------------------------------

/// The label of entry `i` stands before it already.
pub open spec fn group_label_seen(groups: Seq<(String, Vec<u32>)>, i: int) -> bool {
    exists|k: int| 0 <= k < i && #[trigger] groups[k].0@ == groups[i].0@
}

/// The class ids of the first `i` groups in order.
pub open spec fn ids_before(groups: Seq<(String, Vec<u32>)>, i: int) -> Seq<u32>
    decreases i,
{
    if i <= 0 {
        Seq::empty()
    } else {
        ids_before(groups, i - 1) + groups[i - 1].1@
    }
}

/// Each class id of a group, refused where it stands before already: in the
/// group or in an earlier one.
pub open spec fn id_reader(before: Seq<u32>, ids: Seq<u32>) -> spec_fn(int) -> Result<
    u32,
    FailureView,
> {
    |j: int|
        if (before + ids.take(j)).contains(ids[j]) {
            Err(
                value_error(
                    "Breakdown.from_class_groups: class id "@ + nat_text(ids[j] as nat)
                        + " appears in multiple \
                         groups (partition discipline)"@,
                ),
            )
        } else {
            Ok(ids[j])
        }
}

/// Each group, or why it is refused.
pub open spec fn group_reader(groups: Seq<(String, Vec<u32>)>) -> spec_fn(int) -> Result<
    GroupView,
    FailureView,
> {
    |i: int|
        {
            let label = groups[i].0@;
            let ids = groups[i].1@;
            if ids.len() == 0 {
                Err(
                    value_error(
                        "Breakdown.from_class_groups: group["@ + nat_text(i as nat) + "] "@
                            + debug_text(label) + " has empty class_ids"@,
                    ),
                )
            } else if group_label_seen(groups, i) {
                Err(
                    value_error(
                        "Breakdown.from_class_groups: duplicate group label "@ + debug_text(label),
                    ),
                )
            } else {
                match collected(id_reader(ids_before(groups, i), ids), ids.len()) {
                    Err(e) => Err(e),
                    Ok(class_ids) => Ok(GroupView { index: i as nat, label, class_ids }),
                }
            }
        }
}

/// The groups of a group breakdown in the order given, or the first refusal.
pub open spec fn groups_outcome(groups: Seq<(String, Vec<u32>)>) -> Result<
    Seq<GroupView>,
    FailureView,
> {
    if groups.len() == 0 {
        Err(value_error("Breakdown.from_class_groups: groups must be non-empty"@))
    } else {
        collected(group_reader(groups), groups.len())
    }
}

/// Does the label of entry `i` stand before it already?
fn is_group_label_seen(groups: &Vec<(String, Vec<u32>)>, i: usize) -> (b: bool)
    requires
        i < groups@.len(),
    ensures
        b == group_label_seen(groups@, i as int),
{
    let mut k: usize = 0;
    while k < i
        invariant
            k <= i < groups@.len(),
            forall|j: int| 0 <= j < k ==> #[trigger] groups@[j].0@ != groups@[i as int].0@,
        decreases i - k,
    {
        if groups[k].0 == groups[i].0 {
            assert(groups@[k as int].0@ == groups@[i as int].0@);
            return true;
        }
        k += 1;
    }
    false
}

/// Note the class ids of a group as seen, up to the first that was.
fn read_ids(ids: &Vec<u32>, seen: &mut HashSet<u32>, before: Ghost<Seq<u32>>) -> (r: Result<
    (),
    Failure,
>)
    requires
        forall|c: u32| old(seen)@.contains(c) <==> before@.contains(c),
    ensures
        match r {
            Ok(()) => {
                &&& collected(id_reader(before@, ids@), ids@.len()) == Ok::<
                    Seq<u32>,
                    FailureView,
                >(ids@)
                &&& forall|c: u32| final(seen)@.contains(c) <==> (before@ + ids@).contains(c)
            },
            Err(e) => collected(id_reader(before@, ids@), ids@.len()) == Err::<
                Seq<u32>,
                FailureView,
            >(e@),
        },
{
    let ghost f = id_reader(before@, ids@);
    let mut j: usize = 0;
    proof {
        assert(ids@.take(0) =~= Seq::empty());
        assert(before@ + ids@.take(0) =~= before@);
    }
    while j < ids.len()
        invariant
            j <= ids.len(),
            f == id_reader(before@, ids@),
            collected(f, j as nat) == Ok::<Seq<u32>, FailureView>(ids@.take(j as int)),
            forall|c: u32|
                #![trigger seen@.contains(c)]
                seen@.contains(c) <==> (before@ + ids@.take(j as int)).contains(c),
        decreases ids.len() - j,
    {
        let cid: u32 = ids[j];
        let ghost had = before@ + ids@.take(j as int);
        let ghost now = before@ + ids@.take(j + 1);
        let fresh: bool = seen.insert(cid);
        proof {
            assert(now =~= had.push(cid));
            assert(ids@.take(j + 1) =~= ids@.take(j as int).push(cid));
        }
        if !fresh {
            let mut m = String::from_str("Breakdown.from_class_groups: class id ");
            m.append(u64_text(cid as u64).as_str());
            m.append(
                " appears in multiple \
                         groups (partition discipline)",
            );
            let e = Failure::value_error(m);
            proof {
                assert(f(j as int) == Err::<u32, FailureView>(e@));
                lemma_collected_refusal(f, (j + 1) as nat, ids@.len());
            }
            return Err(e);
        }
        proof {
            assert(f(j as int) == Ok::<u32, FailureView>(cid));
            assert forall|c: u32|
                #![trigger seen@.contains(c)]
                seen@.contains(c) <==> now.contains(c) by {
                if now.contains(c) && c != cid {
                    let w = choose|w: int| 0 <= w < now.len() && now[w] == c;
                    assert(had[w] == c);
                }
                if had.contains(c) {
                    let w = choose|w: int| 0 <= w < had.len() && had[w] == c;
                    assert(now[w] == c);
                }
                assert(now[now.len() - 1] == cid);
            }
        }
        j += 1;
    }
    assert(ids@.take(j as int) =~= ids@);
    Ok(())
}

impl PyBreakdown {
    /// A breakdown by ranges.
    pub fn from_inner(inner: Breakdown) -> (b: PyBreakdown)
        ensures
            b@ == (BreakdownView::Range {
                axis: inner.axis@,
                buckets: buckets_view(inner.buckets@),
            }),
    {
        PyBreakdown { inner: BreakdownInner::Range(inner) }
    }

    /// A breakdown by class groups.
    pub fn from_inner_class_groups(inner: ClassGroupBreakdown) -> (b: PyBreakdown)
        ensures
            b@ == (BreakdownView::ClassGroups {
                axis: inner.axis@,
                groups: groups_view(inner.groups@),
            }),
    {
        PyBreakdown { inner: BreakdownInner::ClassGroups(inner) }
    }

    /// A breakdown by `(label, lo, hi)` ranges.
    pub fn from_ranges(axis: String, buckets: &Vec<(String, u64, u64)>) -> (r: Result<
        PyBreakdown,
        Failure,
    >)
        ensures
            match r {
                Ok(b) => {
                    &&& ranges_outcome(buckets@) is Ok
                    &&& b@ == (BreakdownView::Range {
                        axis: axis@,
                        buckets: ranges_outcome(buckets@)->Ok_0,
                    })
                },
                Err(e) => ranges_outcome(buckets@) == Err::<Seq<BucketView>, FailureView>(e@),
            },
    {
        if buckets.is_empty() {
            return Err(
                Failure::value_error(
                    String::from_str("Breakdown.from_ranges: buckets must be non-empty"),
                ),
            );
        }
        let ghost f = bucket_reader(buckets@);
        let mut converted: Vec<Bucket> = Vec::new();
        let mut i: usize = 0;
        assert(buckets_view(converted@) =~= Seq::empty());
        #[verifier::loop_isolation(false)]
        while i < buckets.len()
            invariant
                i <= buckets.len(),
                collected(f, i as nat) == Ok::<Seq<BucketView>, FailureView>(
                    buckets_view(converted@),
                ),
            decreases buckets.len() - i,
        {
            match read_bucket(buckets, i) {
                Ok(bucket) => {
                    let ghost before = converted@;
                    converted.push(bucket);
                    assert(buckets_view(converted@) =~= buckets_view(before).push(bucket@));
                },
                Err(e) => {
                    proof {
                        lemma_collected_refusal(f, (i + 1) as nat, buckets@.len());
                    }
                    return Err(e);
                },
            }
            i += 1;
        }
        Ok(PyBreakdown::from_inner(Breakdown { axis, buckets: converted }))
    }

    /// A breakdown by `(label, class_ids)` groups.
    pub fn from_class_groups(axis: String, groups: &Vec<(String, Vec<u32>)>) -> (r: Result<
        PyBreakdown,
        Failure,
    >)
        ensures
            match r {
                Ok(b) => {
                    &&& groups_outcome(groups@) is Ok
                    &&& b@ == (BreakdownView::ClassGroups {
                        axis: axis@,
                        groups: groups_outcome(groups@)->Ok_0,
                    })
                },
                Err(e) => groups_outcome(groups@) == Err::<Seq<GroupView>, FailureView>(e@),
            },
    {
        if groups.is_empty() {
            return Err(
                Failure::value_error(
                    String::from_str("Breakdown.from_class_groups: groups must be non-empty"),
                ),
            );
        }
        let ghost f = group_reader(groups@);
        let mut seen: HashSet<u32> = HashSet::new();
        let mut converted: Vec<ClassGroup> = Vec::new();
        let mut i: usize = 0;
        assert(groups_view(converted@) =~= Seq::empty());
        #[verifier::loop_isolation(false)]
        while i < groups.len()
            invariant
                i <= groups.len(),
                collected(f, i as nat) == Ok::<Seq<GroupView>, FailureView>(
                    groups_view(converted@),
                ),
                forall|c: u32|
                    #![trigger seen@.contains(c)]
                    seen@.contains(c) <==> ids_before(groups@, i as int).contains(c),
            decreases groups.len() - i,
        {
            let ghost n = groups@.len();
            let ids = &groups[i].1;
            if ids.is_empty() {
                let mut m = String::from_str("Breakdown.from_class_groups: group[");
                m.append(usize_text(i).as_str());
                m.append("] ");
                m.append(quoted(groups[i].0.as_str()).as_str());
                m.append(" has empty class_ids");
                let e = Failure::value_error(m);
                proof {
                    assert(f(i as int) == Err::<GroupView, FailureView>(e@));
                    lemma_collected_refusal(f, (i + 1) as nat, n);
                }
                return Err(e);
            }
            if is_group_label_seen(groups, i) {
                let mut m = String::from_str(
                    "Breakdown.from_class_groups: duplicate group label ",
                );
                m.append(quoted(groups[i].0.as_str()).as_str());
                let e = Failure::value_error(m);
                proof {
                    assert(f(i as int) == Err::<GroupView, FailureView>(e@));
                    lemma_collected_refusal(f, (i + 1) as nat, n);
                }
                return Err(e);
            }
            if let Err(e) = read_ids(ids, &mut seen, Ghost(ids_before(groups@, i as int))) {
                proof {
                    assert(f(i as int) == Err::<GroupView, FailureView>(e@));
                    lemma_collected_refusal(f, (i + 1) as nat, n);
                }
                return Err(e);
            }
            let group = ClassGroup {
                index: i,
                label: groups[i].0.clone(),
                class_ids: copy_runs(ids),
            };
            let ghost before = converted@;
            converted.push(group);
            proof {
                assert(f(i as int) == Ok::<GroupView, FailureView>(group@));
                assert(groups_view(converted@) =~= groups_view(before).push(group@));
                assert(ids_before(groups@, i + 1) == ids_before(groups@, i as int)
                    + groups@[i as int].1@);
            }
            i += 1;
        }
        Ok(PyBreakdown::from_inner_class_groups(ClassGroupBreakdown { axis, groups: converted }))
    }
}

// ---------------------------------------------------------------------------
// Reading a breakdown
// ---------------------------------------------------------------------------

impl BreakdownView {
    /// The name of the axis.
    pub open spec fn axis(self) -> Seq<char> {
        match self {
            BreakdownView::Range { axis, .. } => axis,
            BreakdownView::ClassGroups { axis, .. } => axis,
        }
    }

    /// The name of the kind.
    pub open spec fn kind(self) -> Seq<char> {
        match self {
            BreakdownView::Range { .. } => "range"@,
            BreakdownView::ClassGroups { .. } => "class_groups"@,
        }
    }

    /// The number of buckets or groups.
    pub open spec fn count(self) -> nat {
        match self {
            BreakdownView::Range { buckets, .. } => buckets.len(),
            BreakdownView::ClassGroups { groups, .. } => groups.len(),
        }
    }
}

impl PyBreakdown {
    /// The name of the axis.
    pub fn axis(&self) -> (s: String)
        ensures
            s@ == self@.axis(),
    {
        match &self.inner {
            BreakdownInner::Range(b) => b.axis.clone(),
            BreakdownInner::ClassGroups(g) => g.axis.clone(),
        }
    }

    /// The name of the kind.
    pub fn kind(&self) -> (s: &'static str)
        ensures
            s@ == self@.kind(),
    {
        match &self.inner {
            BreakdownInner::Range(_) => "range",
            BreakdownInner::ClassGroups(_) => "class_groups",
        }
    }

    /// The number of buckets or groups.
    pub fn len(&self) -> (n: usize)
        ensures
            n == self@.count(),
    {
        match &self.inner {
            BreakdownInner::Range(b) => b.buckets.len(),
            BreakdownInner::ClassGroups(g) => g.groups.len(),
        }
    }

    /// The buckets of a range breakdown in order.
    pub fn buckets(&self) -> (r: Result<Vec<(String, u64, u64)>, Failure>)
        ensures
            match self@ {
                BreakdownView::Range { buckets, .. } => {
                    &&& r is Ok
                    &&& r->Ok_0@.len() == buckets.len()
                    &&& forall|i: int|
                        0 <= i < buckets.len() ==> {
                            &&& (#[trigger] r->Ok_0@[i]).0@ == buckets[i].label
                            &&& r->Ok_0@[i].1 == buckets[i].lo
                            &&& r->Ok_0@[i].2 == buckets[i].hi
                        }
                },
                BreakdownView::ClassGroups { .. } => r matches Err(e) && e@ == plain(
                    ErrorKind::AttributeError,
                    "Breakdown.buckets is only available on range breakdowns; \
                 this breakdown was built via from_class_groups — use \
                 .class_groups instead"@,
                ),
            },
    {
        match &self.inner {
            BreakdownInner::Range(b) => {
                let mut out: Vec<(String, u64, u64)> = Vec::new();
                let mut i: usize = 0;
                while i < b.buckets.len()
                    invariant
                        i <= b.buckets.len(),
                        out@.len() == i,
                        forall|k: int|
                            0 <= k < i ==> {
                                &&& (#[trigger] out@[k]).0@ == b.buckets@[k].label@
                                &&& out@[k].1 == b.buckets@[k].lo
                                &&& out@[k].2 == b.buckets@[k].hi
                            },
                    decreases b.buckets.len() - i,
                {
                    let bucket = &b.buckets[i];
                    out.push((bucket.label.clone(), bucket.lo, bucket.hi));
                    i += 1;
                }
                Ok(out)
            },
            BreakdownInner::ClassGroups(_) => Err(
                Failure::plain(
                    ErrorKind::AttributeError,
                    String::from_str(
                        "Breakdown.buckets is only available on range breakdowns; \
                 this breakdown was built via from_class_groups — use \
                 .class_groups instead",
                    ),
                ),
            ),
        }
    }

    /// The groups of a group breakdown in order.
    pub fn class_groups(&self) -> (r: Result<Vec<(String, Vec<u32>)>, Failure>)
        ensures
            match self@ {
                BreakdownView::ClassGroups { groups, .. } => {
                    &&& r is Ok
                    &&& r->Ok_0@.len() == groups.len()
                    &&& forall|i: int|
                        0 <= i < groups.len() ==> {
                            &&& (#[trigger] r->Ok_0@[i]).0@ == groups[i].label
                            &&& r->Ok_0@[i].1@ == groups[i].class_ids
                        }
                },
                BreakdownView::Range { .. } => r matches Err(e) && e@ == plain(
                    ErrorKind::AttributeError,
                    "Breakdown.class_groups is only available on class-group \
                 breakdowns; this breakdown was built via from_ranges — \
                 use .buckets instead"@,
                ),
            },
    {
        match &self.inner {
            BreakdownInner::ClassGroups(g) => {
                let mut out: Vec<(String, Vec<u32>)> = Vec::new();
                let mut i: usize = 0;
                while i < g.groups.len()
                    invariant
                        i <= g.groups.len(),
                        out@.len() == i,
                        forall|k: int|
                            0 <= k < i ==> {
                                &&& (#[trigger] out@[k]).0@ == g.groups@[k].label@
                                &&& out@[k].1@ == g.groups@[k].class_ids@
                            },
                    decreases g.groups.len() - i,
                {
                    let group = &g.groups[i];
                    out.push((group.label.clone(), copy_runs(&group.class_ids)));
                    i += 1;
                }
                Ok(out)
            },
            BreakdownInner::Range(_) => Err(
                Failure::plain(
                    ErrorKind::AttributeError,
                    String::from_str(
                        "Breakdown.class_groups is only available on class-group \
                 breakdowns; this breakdown was built via from_ranges — \
                 use .buckets instead",
                    ),
                ),
            ),
        }
    }

    /// A short description.
    pub fn repr(&self) -> (s: String)
        ensures
            s@ == "Breakdown(kind="@ + debug_text(self@.kind()) + ", axis="@ + debug_text(
                self@.axis(),
            ) + ", len="@ + nat_text(self@.count()) + ")"@,
    {
        let mut s = String::from_str("Breakdown(kind=");
        s.append(quoted(self.kind()).as_str());
        s.append(", axis=");
        s.append(quoted(self.axis().as_str()).as_str());
        s.append(", len=");
        s.append(usize_text(self.len()).as_str());
        s.append(")");
        s
    }
}

// ---------------------------------------------------------------------------
// Laws
// ---------------------------------------------------------------------------

/// The buckets of an accepted range breakdown are the ranges that were given,
/// in order and numbered; each is finite, starts at or above zero and ends
/// no lower; and no label stands twice.
pub proof fn law_ranges_are_kept(buckets: Seq<(String, u64, u64)>)
    requires
        ranges_outcome(buckets) is Ok,
    ensures
        ({
            let out = ranges_outcome(buckets)->Ok_0;
            &&& out.len() == buckets.len()
            &&& forall|i: int|
                0 <= i < out.len() ==> {
                    &&& #[trigger] out[i] == (BucketView {
                        index: i as nat,
                        label: buckets[i].0@,
                        lo: buckets[i].1,
                        hi: buckets[i].2,
                    })
                    &&& is_finite(out[i].lo) && is_finite(out[i].hi)
                    &&& 0 <= scaled(out[i].lo) <= scaled(out[i].hi)
                }
            &&& forall|i: int, k: int|
                0 <= k < i < out.len() ==> (#[trigger] out[i]).label != (#[trigger] out[k]).label
        }),
{
    let f = bucket_reader(buckets);
    let out = ranges_outcome(buckets)->Ok_0;
    lemma_collected_items(f, buckets.len());
    assert forall|i: int| 0 <= i < out.len() implies {
        &&& #[trigger] out[i] == (BucketView {
            index: i as nat,
            label: buckets[i].0@,
            lo: buckets[i].1,
            hi: buckets[i].2,
        })
        &&& is_finite(out[i].lo) && is_finite(out[i].hi)
        &&& 0 <= scaled(out[i].lo) <= scaled(out[i].hi)
    } by {
        assert(f(i) == Ok::<BucketView, FailureView>(out[i]));
    }
    assert forall|i: int, k: int| 0 <= k < i < out.len() implies (#[trigger] out[i]).label != (
    #[trigger] out[k]).label by {
        assert(f(i) == Ok::<BucketView, FailureView>(out[i]));
        assert(buckets[k].0@ == out[k].label);
    }
}

/// An id of an earlier group stands among those that come before.
proof fn lemma_earlier_ids(groups: Seq<(String, Vec<u32>)>, a: int, x: int, i: int)
    requires
        0 <= a < i <= groups.len(),
        0 <= x < groups[a].1@.len(),
    ensures
        ids_before(groups, i).contains(groups[a].1@[x]),
    decreases i,
{
    let prior = ids_before(groups, i - 1);
    let whole = ids_before(groups, i);
    let c = groups[a].1@[x];
    if a == i - 1 {
        assert(whole[prior.len() + x] == c);
    } else {
        lemma_earlier_ids(groups, a, x, i - 1);
        let w = choose|w: int| 0 <= w < prior.len() && prior[w] == c;
        assert(whole[w] == c);
    }
}

/// The groups of an accepted group breakdown are those that were given, in
/// order and numbered, none empty and no label twice; and they are a
/// partition: a class id stands in one place only.
pub proof fn law_class_groups_partition(groups: Seq<(String, Vec<u32>)>)
    requires
        groups_outcome(groups) is Ok,
    ensures
        ({
            let out = groups_outcome(groups)->Ok_0;
            &&& out.len() == groups.len()
            &&& forall|i: int|
                0 <= i < out.len() ==> {
                    &&& #[trigger] out[i] == (GroupView {
                        index: i as nat,
                        label: groups[i].0@,
                        class_ids: groups[i].1@,
                    })
                    &&& out[i].class_ids.len() > 0
                }
            &&& forall|i: int, k: int|
                0 <= k < i < out.len() ==> (#[trigger] out[i]).label != (#[trigger] out[k]).label
            &&& forall|a: int, x: int, b: int, y: int|
                0 <= a < out.len() && 0 <= x < out[a].class_ids.len() && 0 <= b < out.len() && 0
                    <= y < out[b].class_ids.len() && #[trigger] out[a].class_ids[x]
                    == #[trigger] out[b].class_ids[y] ==> a == b && x == y
        }),
{
    let f = group_reader(groups);
    let out = groups_outcome(groups)->Ok_0;
    lemma_collected_items(f, groups.len());
    assert forall|i: int| 0 <= i < out.len() implies {
        &&& #[trigger] out[i] == (GroupView {
            index: i as nat,
            label: groups[i].0@,
            class_ids: groups[i].1@,
        })
        &&& out[i].class_ids.len() > 0
    } by {
        assert(f(i) == Ok::<GroupView, FailureView>(out[i]));
        let g = id_reader(ids_before(groups, i), groups[i].1@);
        lemma_collected_items(g, groups[i].1@.len());
        assert forall|j: int| 0 <= j < groups[i].1@.len() implies out[i].class_ids[j]
            == groups[i].1@[j] by {
            assert(g(j) is Ok);
        }
        assert(out[i].class_ids =~= groups[i].1@);
    }
    assert forall|i: int, k: int| 0 <= k < i < out.len() implies (#[trigger] out[i]).label != (
    #[trigger] out[k]).label by {
        assert(f(i) == Ok::<GroupView, FailureView>(out[i]));
        assert(groups[k].0@ == out[k].label);
    }
    assert forall|a: int, x: int, b: int, y: int|
        0 <= a < out.len() && 0 <= x < out[a].class_ids.len() && 0 <= b < out.len() && 0 <= y
            < out[b].class_ids.len() && #[trigger] out[a].class_ids[x]
            == #[trigger] out[b].class_ids[y] implies a == b && x == y by {
        if a < b || (a == b && x < y) {
            lemma_no_repeat(groups, a, x, b, y);
        }
        if b < a || (a == b && y < x) {
            lemma_no_repeat(groups, b, y, a, x);
        }
    }
}

/// In an accepted group breakdown the id at `(b, y)` stands at no earlier
/// place `(a, x)`.
proof fn lemma_no_repeat(groups: Seq<(String, Vec<u32>)>, a: int, x: int, b: int, y: int)
    requires
        groups_outcome(groups) is Ok,
        0 <= a <= b < groups.len(),
        0 <= x < groups[a].1@.len(),
        0 <= y < groups[b].1@.len(),
        a < b || x < y,
    ensures
        groups[a].1@[x] != groups[b].1@[y],
{
    let f = group_reader(groups);
    lemma_collected_items(f, groups.len());
    assert(f(b) is Ok);
    let before = ids_before(groups, b);
    let ids = groups[b].1@;
    let g = id_reader(before, ids);
    lemma_collected_items(g, ids.len());
    assert(g(y) is Ok);
    let seen = before + ids.take(y);
    if groups[a].1@[x] == ids[y] {
        if a < b {
            lemma_earlier_ids(groups, a, x, b);
            let w = choose|w: int| 0 <= w < before.len() && before[w] == ids[y];
            assert(seen[w] == ids[y]);
        } else {
            assert(seen[before.len() + x] == ids[y]);
        }
        assert(false);
    }
}

/// What a breakdown shows is what it holds, bucket by bucket or group by
/// group, and its name, its kind and its size are its own.
pub proof fn law_breakdowns_show_what_they_hold(b: PyBreakdown)
    ensures
        match b.inner {
            BreakdownInner::Range(r) => {
                &&& b@.axis() == r.axis@
                &&& b@.kind() == "range"@
                &&& b@.count() == r.buckets@.len()
                &&& b@ is Range
                &&& forall|i: int|
                    0 <= i < r.buckets@.len() ==> {
                        &&& (#[trigger] b@->buckets[i]).index == r.buckets@[i].index
                        &&& b@->buckets[i].label == r.buckets@[i].label@
                        &&& b@->buckets[i].lo == r.buckets@[i].lo
                        &&& b@->buckets[i].hi == r.buckets@[i].hi
                    }
            },
            BreakdownInner::ClassGroups(g) => {
                &&& b@.axis() == g.axis@
                &&& b@.kind() == "class_groups"@
                &&& b@.count() == g.groups@.len()
                &&& b@ is ClassGroups
                &&& forall|i: int|
                    0 <= i < g.groups@.len() ==> {
                        &&& (#[trigger] b@->groups[i]).index == g.groups@[i].index
                        &&& b@->groups[i].label == g.groups@[i].label@
                        &&& b@->groups[i].class_ids == g.groups@[i].class_ids@
                    }
            },
        },
{
}

/// A breakdown by ranges holds the ranges that were given under the axis that
/// was given: each with its own label and its own two ends, in order.
pub proof fn law_range_breakdowns_hold_their_ranges(
    axis: Seq<char>,
    buckets: Seq<(String, u64, u64)>,
    b: PyBreakdown,
)
    requires
        ranges_outcome(buckets) is Ok,
        b@ == (BreakdownView::Range { axis, buckets: ranges_outcome(buckets)->Ok_0 }),
    ensures
        b.inner matches BreakdownInner::Range(r) && r.axis@ == axis && r.buckets@.len()
            == buckets.len() && forall|i: int|
            0 <= i < buckets.len() ==> {
                &&& (#[trigger] r.buckets@[i]).index == i
                &&& r.buckets@[i].label@ == buckets[i].0@
                &&& r.buckets@[i].lo == buckets[i].1
                &&& r.buckets@[i].hi == buckets[i].2
            },
{
    law_ranges_are_kept(buckets);
    let out = ranges_outcome(buckets)->Ok_0;
    if let BreakdownInner::Range(r) = b.inner {
        let got = buckets_view(r.buckets@);
        assert(got == out);
        assert(got.len() == r.buckets@.len());
        assert forall|i: int| 0 <= i < buckets.len() implies {
            &&& (#[trigger] r.buckets@[i]).index == i
            &&& r.buckets@[i].label@ == buckets[i].0@
            &&& r.buckets@[i].lo == buckets[i].1
            &&& r.buckets@[i].hi == buckets[i].2
        } by {
            assert(got[i] == r.buckets@[i]@);
            assert(out[i].label == buckets[i].0@);
        }
    }
}

/// A breakdown by groups holds the groups that were given under the axis that
/// was given: each with its own label and its own class ids, in order.
pub proof fn law_group_breakdowns_hold_their_groups(
    axis: Seq<char>,
    groups: Seq<(String, Vec<u32>)>,
    b: PyBreakdown,
)
    requires
        groups_outcome(groups) is Ok,
        b@ == (BreakdownView::ClassGroups { axis, groups: groups_outcome(groups)->Ok_0 }),
    ensures
        b.inner matches BreakdownInner::ClassGroups(g) && g.axis@ == axis && g.groups@.len()
            == groups.len() && forall|i: int|
            0 <= i < groups.len() ==> {
                &&& (#[trigger] g.groups@[i]).index == i
                &&& g.groups@[i].label@ == groups[i].0@
                &&& g.groups@[i].class_ids@ == groups[i].1@
            },
{
    law_class_groups_partition(groups);
    let out = groups_outcome(groups)->Ok_0;
    if let BreakdownInner::ClassGroups(g) = b.inner {
        let got = groups_view(g.groups@);
        assert(got == out);
        assert(got.len() == g.groups@.len());
        assert forall|i: int| 0 <= i < groups.len() implies {
            &&& (#[trigger] g.groups@[i]).index == i
            &&& g.groups@[i].label@ == groups[i].0@
            &&& g.groups@[i].class_ids@ == groups[i].1@
        } by {
            assert(got[i] == g.groups@[i]@);
            assert(out[i].label == groups[i].0@);
        }
    }
}

/// Finite ranges that start at or above zero, end no lower and have labels of
/// their own are taken.
pub proof fn law_fitting_ranges_are_taken(buckets: Seq<(String, u64, u64)>)
    requires
        buckets.len() > 0,
        forall|i: int|
            0 <= i < buckets.len() ==> is_finite((#[trigger] buckets[i]).1) && is_finite(
                buckets[i].2,
            ) && 0 <= scaled(buckets[i].1) <= scaled(buckets[i].2),
        forall|i: int, k: int|
            0 <= k < i < buckets.len() ==> (#[trigger] buckets[i]).0@ != (#[trigger] buckets[k]).0@,
    ensures
        ranges_outcome(buckets) is Ok,
{
    let f = bucket_reader(buckets);
    assert forall|i: int| 0 <= i < buckets.len() implies #[trigger] f(i) is Ok by {
        assert(is_finite(buckets[i].1));
        if range_label_seen(buckets, i) {
            let k = choose|k: int| 0 <= k < i && #[trigger] buckets[k].0@ == buckets[i].0@;
            assert(buckets[i].0@ != buckets[k].0@);
        }
    }
    law_first_refusal_counts(f, buckets.len(), 0);
}

/// Where an id that comes before stands. Given back are its group and its
/// place there.
proof fn lemma_ids_before_come_from(groups: Seq<(String, Vec<u32>)>, i: int, c: u32) -> (place: (
    int,
    int,
))
    requires
        0 <= i <= groups.len(),
        ids_before(groups, i).contains(c),
    ensures
        0 <= place.0 < i,
        0 <= place.1 < groups[place.0].1@.len(),
        groups[place.0].1@[place.1] == c,
    decreases i,
{
    let before = ids_before(groups, i - 1);
    let ids = groups[i - 1].1@;
    let x = choose|x: int| 0 <= x < ids_before(groups, i).len() && ids_before(groups, i)[x] == c;
    if x < before.len() {
        assert(before[x] == c);
        lemma_ids_before_come_from(groups, i - 1, c)
    } else {
        assert(ids[x - before.len()] == c);
        (i - 1, x - before.len())
    }
}

/// Groups with labels of their own, none empty and no class id twice, are
/// taken.
pub proof fn law_partitions_are_taken(groups: Seq<(String, Vec<u32>)>)
    requires
        groups.len() > 0,
        forall|i: int| 0 <= i < groups.len() ==> (#[trigger] groups[i]).1@.len() > 0,
        forall|i: int, k: int|
            0 <= k < i < groups.len() ==> (#[trigger] groups[i]).0@ != (#[trigger] groups[k]).0@,
        forall|a: int, x: int, b: int, y: int|
            0 <= a < groups.len() && 0 <= x < groups[a].1@.len() && 0 <= b < groups.len() && 0 <= y
                < groups[b].1@.len() && #[trigger] groups[a].1@[x] == #[trigger] groups[b].1@[y]
                ==> a == b && x == y,
    ensures
        groups_outcome(groups) is Ok,
{
    let f = group_reader(groups);
    assert forall|i: int| 0 <= i < groups.len() implies #[trigger] f(i) is Ok by {
        assert(groups[i].1@.len() > 0);
        if group_label_seen(groups, i) {
            let k = choose|k: int| 0 <= k < i && #[trigger] groups[k].0@ == groups[i].0@;
            assert(groups[i].0@ != groups[k].0@);
        }
        let ids = groups[i].1@;
        let before = ids_before(groups, i);
        let g = id_reader(before, ids);
        assert forall|j: int| 0 <= j < ids.len() implies #[trigger] g(j) is Ok by {
            let seen = before + ids.take(j);
            if seen.contains(ids[j]) {
                let z = choose|z: int| 0 <= z < seen.len() && seen[z] == ids[j];
                if z < before.len() {
                    assert(before[z] == ids[j]);
                    let (a, x) = lemma_ids_before_come_from(groups, i, ids[j]);
                    assert(groups[a].1@[x] == groups[i].1@[j]);
                } else {
                    let x = z - before.len();
                    assert(groups[i].1@[x] == groups[i].1@[j]);
                }
            }
        }
        law_first_refusal_counts(g, ids.len(), 0);
    }
    law_first_refusal_counts(f, groups.len(), 0);
}

} // verus!
