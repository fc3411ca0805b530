//! Ground truth given as columns.
//!
//! The three sections of a ground-truth document arrive as columns and end
//! as the parts that a file would have given: images, annotations and
//! categories. Nothing is computed and nothing is repaired: an area is
//! carried as it is, ids are supplied and never assigned, and a value that
//! does not fit is refused.
//!
//! Two fields mean something else when absent than when zero: `ignore` and
//! `num_keypoints`. In a signed column a negative entry says that the field
//! is absent on that annotation.

use crate::array_ingest::{any_segmentation, extract_segmentation, law_segmentations_are_those_held};
use crate::collect::{
    collected, law_first_refusal_counts, lemma_collected_items, lemma_collected_refusal,
};
use crate::failure::{refused, type_error, value_error, with_real, ErrorKind, Failure, FailureView};
use crate::field_path::{path_text, FieldPath};
use crate::float_bits::{finite as finite_bits, is_finite};
use crate::model::{
    copy_range, opt_segmentation, opt_seq, opt_text, Bbox, Held, MaskObject, Segmentation,
    SegmentationView,
};
use crate::result_ingest::HeldMask;
use crate::text::{i64_text, int_text, nat_text, usize_text};
use vstd::prelude::*;

verus! {

pub const IMAGES: &'static str = "images";

pub const ANNOTATIONS: &'static str = "annotations";

pub const CATEGORIES: &'static str = "categories";

// ---------------------------------------------------------------------------
// The parts
// ---------------------------------------------------------------------------

/// An image.
#[derive(Debug)]
pub struct ImageMeta {
    pub id: i64,
    pub width: u32,
    pub height: u32,
    pub file_name: Option<String>,
}

/// The mathematical value of an [`ImageMeta`].
#[verifier::ext_equal]
pub struct ImageView {
    pub id: i64,
    pub width: u32,
    pub height: u32,
    pub file_name: Option<Seq<char>>,
}

impl View for ImageMeta {
    type V = ImageView;

    open spec fn view(&self) -> ImageView {
        ImageView {
            id: self.id,
            width: self.width,
            height: self.height,
            file_name: opt_text(self.file_name),
        }
    }
}

/// A category.
#[derive(Debug)]
pub struct CategoryMeta {
    pub id: i64,
    pub name: String,
    pub supercategory: Option<String>,
}

/// The mathematical value of a [`CategoryMeta`].
#[verifier::ext_equal]
pub struct CategoryView {
    pub id: i64,
    pub name: Seq<char>,
    pub supercategory: Option<Seq<char>>,
}

impl View for CategoryMeta {
    type V = CategoryView;

    open spec fn view(&self) -> CategoryView {
        CategoryView {
            id: self.id,
            name: self.name@,
            supercategory: opt_text(self.supercategory),
        }
    }
}

/// A ground-truth annotation.
#[derive(Debug)]
pub struct CocoAnnotation {
    pub id: i64,
    pub image_id: i64,
    pub category_id: i64,
    pub area: u64,
    pub is_crowd: bool,
    pub ignore_flag: Option<bool>,
    pub bbox: Bbox,
    pub segmentation: Option<Segmentation>,
    pub keypoints: Option<Vec<u64>>,
    pub num_keypoints: Option<u32>,
}

/// The mathematical value of a [`CocoAnnotation`].
#[verifier::ext_equal]
pub struct AnnotationView {
    pub id: i64,
    pub image_id: i64,
    pub category_id: i64,
    pub area: u64,
    pub is_crowd: bool,
    pub ignore_flag: Option<bool>,
    pub bbox: Bbox,
    pub segmentation: Option<SegmentationView>,
    pub keypoints: Option<Seq<u64>>,
    pub num_keypoints: Option<u32>,
}

impl View for CocoAnnotation {
    type V = AnnotationView;

    open spec fn view(&self) -> AnnotationView {
        AnnotationView {
            id: self.id,
            image_id: self.image_id,
            category_id: self.category_id,
            area: self.area,
            is_crowd: self.is_crowd,
            ignore_flag: self.ignore_flag,
            bbox: self.bbox,
            segmentation: opt_segmentation(self.segmentation),
            keypoints: opt_seq(self.keypoints),
            num_keypoints: self.num_keypoints,
        }
    }
}

// ---------------------------------------------------------------------------
// Column helpers
// ---------------------------------------------------------------------------

/// A column under a key: absent, or found, with what came of reading it.
pub type Column<T> = Option<Held<T, Failure>>;

/// An object that should hold one Python object for each entry.
#[derive(Debug)]
pub enum ObjectSequence<T> {
    /// A string or an array: the name of its type.
    Flat(String),
    /// No sequence: the name of its type.
    Other(String),
    Items(Vec<T>),
}

/// A sequence found under a key: whether it is `None`, and what it is.
#[derive(Debug)]
pub struct HeldSequence<T> {
    pub is_none: bool,
    pub object: ObjectSequence<T>,
}

/// The refusal of a column that is missing or `None`.
pub open spec fn missing_column(root: Seq<char>, name: Seq<char>) -> FailureView {
    value_error(root + ": missing required column '"@ + name + "'"@)
}

/// A column that has to be there.
pub open spec fn required_view<T>(
    column: Column<Vec<T>>,
    root: Seq<char>,
    name: Seq<char>,
) -> Result<Seq<T>, FailureView> {
    match column {
        Some(held) if !held.is_none => match held.read {
            Ok(v) => Ok(v@),
            Err(e) => Err(e@),
        },
        _ => Err(missing_column(root, name)),
    }
}

/// The refusal of a column that is missing or `None`.
fn missing_column_error(root: &str, name: &str) -> (e: Failure)
    ensures
        e@ == missing_column(root@, name@),
{
    let mut m = String::from_str(root);
    m.append(": missing required column '");
    m.append(name);
    m.append("'");
    Failure::value_error(m)
}

/// Read a column that has to be there.
fn required_column<'b, T>(column: &'b Column<Vec<T>>, root: &str, name: &str) -> (r: Result<
    &'b Vec<T>,
    Failure,
>)
    ensures
        match r {
            Ok(v) => required_view(*column, root@, name@) == Ok::<Seq<T>, FailureView>(v@),
            Err(e) => required_view(*column, root@, name@) == Err::<Seq<T>, FailureView>(e@),
        },
{
    match column {
        None => Err(missing_column_error(root, name)),
        Some(held) => if held.is_none {
            Err(missing_column_error(root, name))
        } else {
            match &held.read {
                Ok(v) => Ok(v),
                Err(e) => Err(e.copy()),
            }
        },
    }
}

/// The refusal of a column of another length than the ids.
pub open spec fn len_refusal(
    got: nat,
    want: nat,
    root: Seq<char>,
    name: Seq<char>,
    against: Seq<char>,
) -> FailureView {
    value_error(
        path_text(root, None, name, None) + ": length "@ + nat_text(got) + " disagrees with "@
            + root + "['"@ + against + "'] (N="@ + nat_text(want) + ")"@,
    )
}

/// Check the length of a column.
pub fn check_len(got: usize, want: usize, root: &str, name: &str, against: &str) -> (r: Result<
    (),
    Failure,
>)
    ensures
        r is Ok <==> got == want,
        r matches Err(e) ==> e@ == len_refusal(
            got as nat,
            want as nat,
            root@,
            name@,
            against@,
        ),
{
    if got == want {
        return Ok(());
    }
    let mut m = FieldPath::rooted(root, None, name).to_text();
    m.append(": length ");
    m.append(usize_text(got).as_str());
    m.append(" disagrees with ");
    m.append(root);
    m.append("['");
    m.append(against);
    m.append("'] (N=");
    m.append(usize_text(want).as_str());
    m.append(")");
    Err(Failure::value_error(m))
}

/// The items of an object that should be a plain sequence, or why it is
/// refused. Strings and arrays are sequences too, and are refused.
pub open spec fn sequence_items<T>(obj: ObjectSequence<T>, path: Seq<char>) -> Result<
    Seq<T>,
    FailureView,
> {
    match obj {
        ObjectSequence::Flat(class_name) => Err(
            type_error(
                path + ": expected a list, got "@ + class_name@ + "; this column holds one \
             Python object per entry and is not an array column"@,
            ),
        ),
        ObjectSequence::Other(class_name) => Err(
            type_error(path + ": expected a sequence, got "@ + class_name@),
        ),
        ObjectSequence::Items(items) => Ok(items@),
    }
}

/// The items of an object that should be a plain sequence.
fn as_object_sequence<'b, T>(obj: &'b ObjectSequence<T>, root: &str, name: &str) -> (r: Result<
    &'b Vec<T>,
    Failure,
>)
    ensures
        match r {
            Ok(v) => sequence_items(*obj, path_text(root@, None, name@, None)) == Ok::<
                Seq<T>,
                FailureView,
            >(v@),
            Err(e) => sequence_items(*obj, path_text(root@, None, name@, None)) == Err::<
                Seq<T>,
                FailureView,
            >(e@),
        },
{
    match obj {
        ObjectSequence::Items(items) => Ok(items),
        ObjectSequence::Flat(class_name) => {
            let mut m = FieldPath::rooted(root, None, name).to_text();
            m.append(": expected a list, got ");
            m.append(class_name.as_str());
            m.append(
                "; this column holds one \
             Python object per entry and is not an array column",
            );
            Err(Failure::type_error(m))
        },
        ObjectSequence::Other(class_name) => {
            let mut m = FieldPath::rooted(root, None, name).to_text();
            m.append(": expected a sequence, got ");
            m.append(class_name.as_str());
            Err(Failure::type_error(m))
        },
    }
}

/// The refusal of a section that is no dict of columns.
pub open spec fn section_refusal(root: Seq<char>, class_name: Seq<char>) -> FailureView {
    type_error(root + ": expected a dict of columns, got "@ + class_name)
}

/// The refusal of a section that is no dict of columns.
fn section_error(root: &str, class_name: &str) -> (e: Failure)
    ensures
        e@ == section_refusal(root@, class_name@),
{
    let mut m = String::from_str(root);
    m.append(": expected a dict of columns, got ");
    m.append(class_name);
    Failure::type_error(m)
}

/// The refusal of a number that is no pixel dimension.
pub open spec fn dimension_refusal(
    v: int,
    root: Seq<char>,
    i: usize,
    name: Seq<char>,
) -> FailureView {
    value_error(
        path_text(root, Some(i), name, None) + ": "@ + int_text(v)
            + " is out of range for a pixel dimension (0..=4294967295)"@,
    )
}

/// A pixel dimension without truncation.
pub fn exact_u32(v: i64, root: &str, i: usize, name: &str) -> (r: Result<u32, Failure>)
    ensures
        refused(r) == if 0 <= v <= u32::MAX {
            Ok(v as u32)
        } else {
            Err(dimension_refusal(v as int, root@, i, name@))
        },
{
    if 0 <= v && v <= u32::MAX as i64 {
        return Ok(v as u32);
    }
    let mut m = FieldPath::rooted(root, Some(i), name).to_text();
    m.append(": ");
    m.append(i64_text(v).as_str());
    m.append(" is out of range for a pixel dimension (0..=4294967295)");
    Err(Failure::value_error(m))
}

/// The refusal of an infinity or a NaN.
pub open spec fn finite_refusal(
    bits: u64,
    root: Seq<char>,
    i: usize,
    name: Seq<char>,
    elem: Option<usize>,
) -> FailureView {
    with_real(
        ErrorKind::ValueError,
        path_text(root, Some(i), name, elem) + ": expected a finite float, got "@,
        bits,
        "; a GT JSON file cannot \
         carry NaN or Infinity, so neither does this route"@,
    )
}

/// Refuse an infinity or a NaN by the place of its entry.
pub fn finite(bits: u64, root: &str, i: usize, name: &str, elem: Option<usize>) -> (r: Result<
    (),
    Failure,
>)
    ensures
        r is Ok <==> is_finite(bits),
        r matches Err(e) ==> e@ == finite_refusal(bits, root@, i, name@, elem),
{
    if finite_bits(bits) {
        return Ok(());
    }
    let mut path = FieldPath::rooted(root, Some(i), name);
    if let Some(j) = elem {
        path = path.item(j);
    }
    let mut m = path.to_text();
    m.append(": expected a finite float, got ");
    Err(
        Failure::with_real(
            ErrorKind::ValueError,
            m,
            bits,
            String::from_str(
                "; a GT JSON file cannot \
         carry NaN or Infinity, so neither does this route",
            ),
        ),
    )
}

/// The width of a row of `k` keypoints.
pub fn k3(k: usize) -> (w: usize)
    requires
        k * 3 <= usize::MAX,
    ensures
        w == k * 3,
{
    k * 3
}

// ---------------------------------------------------------------------------
// Flag columns
// ---------------------------------------------------------------------------

/// A column of flags, in the form in which it came.
#[derive(Debug)]
pub enum FlagColumn {
    /// One byte for each entry: every entry is present.
    Bytes(Vec<u8>),
    /// Signed: a negative entry is absent.
    Signed(Vec<i64>),
}

/// The flag at `i` of a column of bytes.
pub open spec fn byte_flag(v: u8) -> bool {
    v != 0
}

/// The flag of a signed entry: absent where it is negative.
pub open spec fn signed_flag(v: i64) -> Option<bool> {
    if v < 0 {
        None
    } else {
        Some(v != 0)
    }
}

impl FlagColumn {
    /// The number of entries.
    pub open spec fn count(&self) -> nat {
        match self {
            FlagColumn::Bytes(v) => v@.len(),
            FlagColumn::Signed(v) => v@.len(),
        }
    }

    /// The flag at `i`, or absent.
    pub open spec fn flag(&self, i: int) -> Option<bool> {
        match self {
            FlagColumn::Bytes(v) => Some(byte_flag(v@[i])),
            FlagColumn::Signed(v) => signed_flag(v@[i]),
        }
    }

    /// Read a column of flags, given what came of reading it as bytes and as
    /// signed integers. Bytes come first.
    pub fn extract(
        bytes: Option<Vec<u8>>,
        signed: Option<Vec<i64>>,
        class_name: &str,
        root: &str,
        name: &str,
    ) -> (r: Result<FlagColumn, Failure>)
        ensures
            refused(r) == (match (bytes, signed) {
                (Some(v), _) => Ok(FlagColumn::Bytes(v)),
                (None, Some(v)) => Ok(FlagColumn::Signed(v)),
                (None, None) => Err(
                    type_error(
                        path_text(root@, None, name@, None)
                            + ": expected a 1-D bool, uint8 or int64 array, got "@ + class_name@
                            + "; \
                 int64 is the spelling that can also carry \"absent\" \
                 (a negative entry)"@,
                    ),
                ),
            }),
    {
        match bytes {
            Some(v) => Ok(FlagColumn::Bytes(v)),
            None => match signed {
                Some(v) => Ok(FlagColumn::Signed(v)),
                None => {
                    let mut m = FieldPath::rooted(root, None, name).to_text();
                    m.append(": expected a 1-D bool, uint8 or int64 array, got ");
                    m.append(class_name);
                    m.append(
                        "; \
                 int64 is the spelling that can also carry \"absent\" \
                 (a negative entry)",
                    );
                    Err(Failure::type_error(m))
                },
            },
        }
    }

    /// The number of entries.
    pub fn len(&self) -> (n: usize)
        ensures
            n == self.count(),
    {
        match self {
            FlagColumn::Bytes(v) => v.len(),
            FlagColumn::Signed(v) => v.len(),
        }
    }

    /// The flag at `i`, where absent is the same as false.
    pub fn get(&self, i: usize) -> (b: bool)
        requires
            i < self.count(),
        ensures
            b == (self.flag(i as int) == Some(true)),
    {
        match self {
            FlagColumn::Bytes(v) => v[i] != 0,
            FlagColumn::Signed(v) => v[i] > 0,
        }
    }

    /// The flag at `i`, with absence kept.
    pub fn get_optional(&self, i: usize) -> (b: Option<bool>)
        requires
            i < self.count(),
        ensures
            b == self.flag(i as int),
    {
        match self {
            FlagColumn::Bytes(v) => Some(v[i] != 0),
            FlagColumn::Signed(v) => {
                let x: i64 = v[i];
                if x < 0 {
                    None
                } else {
                    Some(x != 0)
                }
            },
        }
    }
}

/// Every state of an optional flag can be written in a signed column, absence
/// by a negative entry and by no other; a column of bytes has none absent.
pub proof fn law_signed_column_expresses_absence(flag: Option<bool>, column: FlagColumn, i: int)
    ensures
        exists|v: i64| signed_flag(v) == flag,
        forall|v: i64| #[trigger] signed_flag(v) is None <==> v < 0,
        column is Bytes ==> column.flag(i) is Some,
{
    assert(signed_flag((-1) as i64) == None::<bool>);
    assert(signed_flag(0) == Some(false));
    assert(signed_flag(1) == Some(true));
}

// ---------------------------------------------------------------------------
// Images
// ---------------------------------------------------------------------------

/// The columns of the `images` section.
#[derive(Debug)]
pub struct ImageColumns {
    pub id: Column<Vec<i64>>,
    pub width: Column<Vec<i64>>,
    pub height: Column<Vec<i64>>,
    pub file_name: Option<HeldSequence<Held<String, String>>>,
}

/// A required column with one entry for each id.
pub open spec fn sized_view<T>(
    column: Column<Vec<T>>,
    root: Seq<char>,
    name: Seq<char>,
    path: Seq<char>,
    n: nat,
) -> Result<Seq<T>, FailureView> {
    match required_view(column, root, name) {
        Err(e) => Err(e),
        Ok(v) => if v.len() != n {
            Err(len_refusal(v.len(), n, root, path, "id"@))
        } else {
            Ok(v)
        },
    }
}

/// Read a required column with one entry for each id.
fn sized_column<'b, T>(
    column: &'b Column<Vec<T>>,
    root: &str,
    name: &str,
    path: &str,
    n: usize,
) -> (r: Result<&'b Vec<T>, Failure>)
    ensures
        match r {
            Ok(v) => sized_view(*column, root@, name@, path@, n as nat) == Ok::<
                Seq<T>,
                FailureView,
            >(v@) && v@.len() == n,
            Err(e) => sized_view(*column, root@, name@, path@, n as nat) == Err::<
                Seq<T>,
                FailureView,
            >(e@),
        },
{
    match required_column(column, root, name) {
        Err(e) => Err(e),
        Ok(v) => match check_len(v.len(), n, root, path, "id") {
            Err(e) => Err(e),
            Ok(()) => Ok(v),
        },
    }
}

/// Each file name of a list, or absent.
pub open spec fn name_reader(items: Seq<Held<String, String>>) -> spec_fn(int) -> Result<
    Option<Seq<char>>,
    FailureView,
> {
    |i: int|
        if items[i].is_none {
            Ok(None)
        } else {
            match items[i].read {
                Ok(s) => Ok(Some(s@)),
                Err(reason) => Err(
                    type_error(
                        path_text(IMAGES@, Some(i as usize), ".file_name"@, None)
                            + ": expected a str or None: "@ + reason@,
                    ),
                ),
            }
        }
}

/// The file names, where the column is there.
pub open spec fn file_names_view(
    column: Option<HeldSequence<Held<String, String>>>,
    n: nat,
) -> Result<Option<Seq<Option<Seq<char>>>>, FailureView> {
    match column {
        Some(held) if !held.is_none => match sequence_items(
            held.object,
            path_text(IMAGES@, None, ".file_name"@, None),
        ) {
            Err(e) => Err(e),
            Ok(items) => if items.len() != n {
                Err(len_refusal(items.len(), n, IMAGES@, ".file_name"@, "id"@))
            } else {
                match collected(name_reader(items), n) {
                    Ok(names) => Ok(Some(names)),
                    Err(e) => Err(e),
                }
            },
        },
        _ => Ok(None),
    }
}

/// A list of optional strings by its contents.
pub open spec fn names_view(v: Seq<Option<String>>) -> Seq<Option<Seq<char>>> {
    v.map_values(|s: Option<String>| opt_text(s))
}

/// Read the file names, where the column is there.
fn read_file_names(column: &Option<HeldSequence<Held<String, String>>>, n: usize) -> (r: Result<
    Option<Vec<Option<String>>>,
    Failure,
>)
    ensures
        match r {
            Ok(None) => file_names_view(*column, n as nat) == Ok::<
                Option<Seq<Option<Seq<char>>>>,
                FailureView,
            >(None),
            Ok(Some(v)) => file_names_view(*column, n as nat) == Ok::<
                Option<Seq<Option<Seq<char>>>>,
                FailureView,
            >(Some(names_view(v@))) && v@.len() == n,
            Err(e) => file_names_view(*column, n as nat) == Err::<
                Option<Seq<Option<Seq<char>>>>,
                FailureView,
            >(e@),
        },
{
    let held = match column {
        None => return Ok(None),
        Some(held) => held,
    };
    if held.is_none {
        return Ok(None);
    }
    let items = match as_object_sequence(&held.object, IMAGES, ".file_name") {
        Ok(items) => items,
        Err(e) => return Err(e),
    };
    if let Err(e) = check_len(items.len(), n, IMAGES, ".file_name", "id") {
        return Err(e);
    }
    let ghost f = name_reader(items@);
    let mut names: Vec<Option<String>> = Vec::new();
    let mut i: usize = 0;
    assert(names_view(names@) =~= Seq::empty());
    #[verifier::loop_isolation(false)]
    while i < n
        invariant
            i <= n == items.len(),
            f == name_reader(items@),
            names@.len() == i,
            collected(f, i as nat) == Ok::<Seq<Option<Seq<char>>>, FailureView>(
                names_view(names@),
            ),
        decreases n - i,
    {
        let ghost before = names@;
        if items[i].is_none {
            names.push(None);
            assert(f(i as int) == Ok::<Option<Seq<char>>, FailureView>(None));
        } else {
            match &items[i].read {
                Ok(s) => {
                    names.push(Some(s.clone()));
                    assert(f(i as int) == Ok::<Option<Seq<char>>, FailureView>(Some(s@)));
                },
                Err(reason) => {
                    let mut m = FieldPath::rooted(IMAGES, Some(i), ".file_name").to_text();
                    m.append(": expected a str or None: ");
                    m.append(reason.as_str());
                    let e = Failure::type_error(m);
                    proof {
                        assert(f(i as int) == Err::<Option<Seq<char>>, FailureView>(e@));
                        lemma_collected_refusal(f, (i + 1) as nat, n as nat);
                    }
                    return Err(e);
                },
            }
        }
        assert(names_view(names@) =~= names_view(before).push(opt_text(names@[i as int])));
        i += 1;
    }
    Ok(Some(names))
}

/// Each image of the columns.
pub open spec fn image_reader(
    ids: Seq<i64>,
    widths: Seq<i64>,
    heights: Seq<i64>,
    names: Option<Seq<Option<Seq<char>>>>,
) -> spec_fn(int) -> Result<ImageView, FailureView> {
    |i: int|
        if !(0 <= widths[i] <= u32::MAX) {
            Err(dimension_refusal(widths[i] as int, IMAGES@, i as usize, ".width"@))
        } else if !(0 <= heights[i] <= u32::MAX) {
            Err(dimension_refusal(heights[i] as int, IMAGES@, i as usize, ".height"@))
        } else {
            Ok(
                ImageView {
                    id: ids[i],
                    width: widths[i] as u32,
                    height: heights[i] as u32,
                    file_name: match names {
                        None => None,
                        Some(v) => v[i],
                    },
                },
            )
        }
}

/// The images of the section, one for each id, or the first refusal.
pub open spec fn images_outcome(section: Result<ImageColumns, String>) -> Result<
    Seq<ImageView>,
    FailureView,
> {
    match section {
        Err(class_name) => Err(section_refusal(IMAGES@, class_name@)),
        Ok(c) => match required_view(c.id, IMAGES@, "id"@) {
            Err(e) => Err(e),
            Ok(ids) => match sized_view(c.width, IMAGES@, "width"@, ".width"@, ids.len()) {
                Err(e) => Err(e),
                Ok(widths) => match sized_view(
                    c.height,
                    IMAGES@,
                    "height"@,
                    ".height"@,
                    ids.len(),
                ) {
                    Err(e) => Err(e),
                    Ok(heights) => match file_names_view(c.file_name, ids.len()) {
                        Err(e) => Err(e),
                        Ok(names) => collected(
                            image_reader(ids, widths, heights, names),
                            ids.len(),
                        ),
                    },
                },
            },
        },
    }
}

/// Images by their mathematical value.
pub open spec fn images_view(v: Seq<ImageMeta>) -> Seq<ImageView> {
    v.map_values(|m: ImageMeta| m@)
}

/// Read the `images` section: the columns, or the name of the type of what
/// is no dict.
pub fn extract_images(section: &Result<ImageColumns, String>) -> (r: Result<
    Vec<ImageMeta>,
    Failure,
>)
    ensures
        match r {
            Ok(v) => images_outcome(*section) == Ok::<Seq<ImageView>, FailureView>(
                images_view(v@),
            ),
            Err(e) => images_outcome(*section) == Err::<Seq<ImageView>, FailureView>(e@),
        },
{
    let c = match section {
        Err(class_name) => return Err(section_error(IMAGES, class_name.as_str())),
        Ok(c) => c,
    };
    let ids = match required_column(&c.id, IMAGES, "id") {
        Ok(v) => v,
        Err(e) => return Err(e),
    };
    let n: usize = ids.len();
    let widths = match sized_column(&c.width, IMAGES, "width", ".width", n) {
        Ok(v) => v,
        Err(e) => return Err(e),
    };
    let heights = match sized_column(&c.height, IMAGES, "height", ".height", n) {
        Ok(v) => v,
        Err(e) => return Err(e),
    };
    let names = match read_file_names(&c.file_name, n) {
        Ok(v) => v,
        Err(e) => return Err(e),
    };
    let ghost shown = match &names {
        None => None,
        Some(v) => Some(names_view(v@)),
    };
    let ghost f = image_reader(ids@, widths@, heights@, shown);
    let mut out: Vec<ImageMeta> = Vec::new();
    let mut i: usize = 0;
    assert(images_view(out@) =~= Seq::empty());
    #[verifier::loop_isolation(false)]
    while i < n
        invariant
            i <= n,
            collected(f, i as nat) == Ok::<Seq<ImageView>, FailureView>(images_view(out@)),
        decreases n - i,
    {
        let width: u32 = match exact_u32(widths[i], IMAGES, i, ".width") {
            Ok(w) => w,
            Err(e) => {
                proof {
                    assert(f(i as int) == Err::<ImageView, FailureView>(e@));
                    lemma_collected_refusal(f, (i + 1) as nat, n as nat);
                }
                return Err(e);
            },
        };
        let height: u32 = match exact_u32(heights[i], IMAGES, i, ".height") {
            Ok(h) => h,
            Err(e) => {
                proof {
                    assert(f(i as int) == Err::<ImageView, FailureView>(e@));
                    lemma_collected_refusal(f, (i + 1) as nat, n as nat);
                }
                return Err(e);
            },
        };
        let file_name = match &names {
            None => None,
            Some(v) => match &v[i] {
                None => None,
                Some(s) => Some(s.clone()),
            },
        };
        let image = ImageMeta { id: ids[i], width, height, file_name };
        let ghost before = out@;
        out.push(image);
        proof {
            assert(f(i as int) == Ok::<ImageView, FailureView>(image@));
            assert(images_view(out@) =~= images_view(before).push(image@));
        }
        i += 1;
    }
    Ok(out)
}

// ---------------------------------------------------------------------------
// Categories
// ---------------------------------------------------------------------------

/// A dict of the `categories` section.
#[derive(Debug)]
pub struct CategoryDict {
    pub id: Option<Result<i64, String>>,
    pub name: Option<Result<String, String>>,
    pub supercategory: Option<Held<String, String>>,
}

/// The refusal of a field of one category.
pub open spec fn category_refusal(i: int, name: Seq<char>, detail: Seq<char>) -> FailureView {
    value_error(path_text(CATEGORIES@, Some(i as usize), name, None) + ": "@ + detail)
}

/// The refusal of a field of one category: `detail` and then `reason`.
fn cat_err(i: usize, name: &str, detail: &str, reason: &str) -> (e: Failure)
    ensures
        e@ == category_refusal(i as int, name@, detail@ + reason@),
{
    let mut d = String::from_str(detail);
    d.append(reason);
    let mut m = FieldPath::rooted(CATEGORIES, Some(i), name).to_text();
    m.append(": ");
    m.append(d.as_str());
    Failure::value_error(m)
}

/// The refusal of a missing field of one category.
fn cat_missing(i: usize, name: &str) -> (e: Failure)
    ensures
        e@ == category_refusal(i as int, name@, "missing required field"@),
{
    let mut m = FieldPath::rooted(CATEGORIES, Some(i), name).to_text();
    m.append(": ");
    m.append("missing required field");
    Failure::value_error(m)
}

/// Each category of a list: a dict, or the name of the type of what is none.
pub open spec fn category_reader(items: Seq<Result<CategoryDict, String>>) -> spec_fn(
    int,
) -> Result<CategoryView, FailureView> {
    |i: int|
        match items[i] {
            Err(class_name) => Err(
                type_error(
                    path_text(CATEGORIES@, Some(i as usize), ""@, None)
                        + ": expected a dict with 'id' and 'name', got "@ + class_name@,
                ),
            ),
            Ok(d) => category_outcome(d, i),
        }
}

/// The category of a dict, or the first refusal that it meets.
pub open spec fn category_outcome(d: CategoryDict, i: int) -> Result<CategoryView, FailureView> {
    match d.id {
        None => Err(category_refusal(i, ".id"@, "missing required field"@)),
        Some(Err(reason)) => Err(category_refusal(i, ".id"@, "expected int: "@ + reason@)),
        Some(Ok(id)) => match d.name {
            None => Err(category_refusal(i, ".name"@, "missing required field"@)),
            Some(Err(reason)) => Err(category_refusal(i, ".name"@, "expected str: "@ + reason@)),
            Some(Ok(name)) => match d.supercategory {
                Some(held) if !held.is_none => match held.read {
                    Err(reason) => Err(
                        category_refusal(i, ".supercategory"@, "expected str: "@ + reason@),
                    ),
                    Ok(s) => Ok(
                        CategoryView { id, name: name@, supercategory: Some(s@) },
                    ),
                },
                _ => Ok(CategoryView { id, name: name@, supercategory: None }),
            },
        },
    }
}

/// Read a dict of the `categories` section.
fn read_category(d: &CategoryDict, i: usize) -> (r: Result<CategoryMeta, Failure>)
    ensures
        match r {
            Ok(c) => category_outcome(*d, i as int) == Ok::<CategoryView, FailureView>(c@),
            Err(e) => category_outcome(*d, i as int) == Err::<CategoryView, FailureView>(e@),
        },
{
    let id: i64 = match &d.id {
        None => return Err(cat_missing(i, ".id")),
        Some(Err(reason)) => return Err(cat_err(i, ".id", "expected int: ", reason.as_str())),
        Some(Ok(id)) => *id,
    };
    let name = match &d.name {
        None => return Err(cat_missing(i, ".name")),
        Some(Err(reason)) => return Err(cat_err(i, ".name", "expected str: ", reason.as_str())),
        Some(Ok(name)) => name.clone(),
    };
    let supercategory = match &d.supercategory {
        None => None,
        Some(held) => if held.is_none {
            None
        } else {
            match &held.read {
                Ok(s) => Some(s.clone()),
                Err(reason) => return Err(
                    cat_err(i, ".supercategory", "expected str: ", reason.as_str()),
                ),
            }
        },
    };
    Ok(CategoryMeta { id, name, supercategory })
}

/// Categories by their mathematical value.
pub open spec fn categories_view(v: Seq<CategoryMeta>) -> Seq<CategoryView> {
    v.map_values(|m: CategoryMeta| m@)
}

/// The categories of the section, one for each dict, or the first refusal.
pub open spec fn categories_outcome(
    section: ObjectSequence<Result<CategoryDict, String>>,
) -> Result<Seq<CategoryView>, FailureView> {
    match sequence_items(section, path_text(CATEGORIES@, None, ""@, None)) {
        Err(e) => Err(e),
        Ok(items) => collected(category_reader(items), items.len()),
    }
}

/// Read the `categories` section.
pub fn extract_categories(section: &ObjectSequence<Result<CategoryDict, String>>) -> (r: Result<
    Vec<CategoryMeta>,
    Failure,
>)
    ensures
        match r {
            Ok(v) => categories_outcome(*section) == Ok::<Seq<CategoryView>, FailureView>(
                categories_view(v@),
            ),
            Err(e) => categories_outcome(*section) == Err::<Seq<CategoryView>, FailureView>(e@),
        },
{
    let items = match as_object_sequence(section, CATEGORIES, "") {
        Ok(items) => items,
        Err(e) => return Err(e),
    };
    let ghost f = category_reader(items@);
    let mut out: Vec<CategoryMeta> = Vec::new();
    let mut i: usize = 0;
    assert(categories_view(out@) =~= Seq::empty());
    #[verifier::loop_isolation(false)]
    while i < items.len()
        invariant
            i <= items.len(),
            collected(f, i as nat) == Ok::<Seq<CategoryView>, FailureView>(
                categories_view(out@),
            ),
        decreases items.len() - i,
    {
        let category = match &items[i] {
            Err(class_name) => {
                let mut m = FieldPath::rooted(CATEGORIES, Some(i), "").to_text();
                m.append(": expected a dict with 'id' and 'name', got ");
                m.append(class_name.as_str());
                let e = Failure::type_error(m);
                proof {
                    assert(f(i as int) == Err::<CategoryView, FailureView>(e@));
                    lemma_collected_refusal(f, (i + 1) as nat, items@.len());
                }
                return Err(e);
            },
            Ok(d) => match read_category(d, i) {
                Ok(c) => c,
                Err(e) => {
                    proof {
                        assert(f(i as int) == Err::<CategoryView, FailureView>(e@));
                        lemma_collected_refusal(f, (i + 1) as nat, items@.len());
                    }
                    return Err(e);
                },
            },
        };
        let ghost before = out@;
        out.push(category);
        proof {
            assert(f(i as int) == Ok::<CategoryView, FailureView>(category@));
            assert(categories_view(out@) =~= categories_view(before).push(category@));
        }
        i += 1;
    }
    Ok(out)
}

// ---------------------------------------------------------------------------
// Annotations
// ---------------------------------------------------------------------------

/// The columns of the `annotations` section.
#[derive(Debug)]
pub struct AnnotationColumns {
    pub id: Column<Vec<i64>>,
    pub image_id: Column<Vec<i64>>,
    pub category_id: Column<Vec<i64>>,
    /// Flat `(N, 4)` float64.
    pub bbox: Column<Vec<u64>>,
    pub area: Column<Vec<u64>>,
    pub iscrowd: Column<FlagColumn>,
    pub ignore: Column<FlagColumn>,
    pub segmentation: Option<HeldSequence<HeldMask>>,
    /// Flat `(N, K, 3)` float64, and K.
    pub keypoints: Column<(Vec<u64>, usize)>,
    pub num_keypoints: Column<Vec<i64>>,
}

/// The columns of the `annotations` section once they have been checked.
pub struct AnnColumns {
    pub ids: Seq<i64>,
    pub image_ids: Seq<i64>,
    pub cat_ids: Seq<i64>,
    pub bboxes: Seq<u64>,
    pub areas: Seq<u64>,
    pub crowds: FlagColumn,
    pub ignores: Option<FlagColumn>,
    pub segmentations: Option<Seq<Option<SegmentationView>>>,
    pub keypoints: Option<(Seq<u64>, nat)>,
    pub num_keypoints: Option<Seq<i64>>,
}

/// The boxes: four numbers for each id.
pub open spec fn boxes_view(column: Column<Vec<u64>>, n: nat) -> Result<Seq<u64>, FailureView> {
    match required_view(column, ANNOTATIONS@, "bbox"@) {
        Err(e) => Err(e),
        Ok(v) => if v.len() / 4 != n {
            Err(len_refusal(v.len() / 4, n, ANNOTATIONS@, ".bbox"@, "id"@))
        } else {
            Ok(v)
        },
    }
}

/// Read the boxes.
fn read_boxes(column: &Column<Vec<u64>>, n: usize) -> (r: Result<&Vec<u64>, Failure>)
    ensures
        match r {
            Ok(v) => boxes_view(*column, n as nat) == Ok::<Seq<u64>, FailureView>(v@) && v@.len()
                / 4 == n,
            Err(e) => boxes_view(*column, n as nat) == Err::<Seq<u64>, FailureView>(e@),
        },
{
    match required_column(column, ANNOTATIONS, "bbox") {
        Err(e) => Err(e),
        Ok(v) => match check_len(v.len() / 4, n, ANNOTATIONS, ".bbox", "id") {
            Err(e) => Err(e),
            Ok(()) => Ok(v),
        },
    }
}

/// The `iscrowd` flags: required, one for each id.
pub open spec fn crowds_view(column: Column<FlagColumn>, n: nat) -> Result<
    FlagColumn,
    FailureView,
> {
    match column {
        Some(held) if !held.is_none => match held.read {
            Err(e) => Err(e@),
            Ok(flags) => if flags.count() != n {
                Err(len_refusal(flags.count(), n, ANNOTATIONS@, ".iscrowd"@, "id"@))
            } else {
                Ok(flags)
            },
        },
        _ => Err(missing_column(ANNOTATIONS@, "iscrowd"@)),
    }
}

/// Read the `iscrowd` flags.
fn read_crowds(column: &Column<FlagColumn>, n: usize) -> (r: Result<&FlagColumn, Failure>)
    ensures
        match r {
            Ok(v) => crowds_view(*column, n as nat) == Ok::<FlagColumn, FailureView>(*v)
                && v.count() == n,
            Err(e) => crowds_view(*column, n as nat) == Err::<FlagColumn, FailureView>(e@),
        },
{
    match column {
        None => Err(missing_column_error(ANNOTATIONS, "iscrowd")),
        Some(held) => if held.is_none {
            Err(missing_column_error(ANNOTATIONS, "iscrowd"))
        } else {
            match &held.read {
                Err(e) => Err(e.copy()),
                Ok(flags) => match check_len(flags.len(), n, ANNOTATIONS, ".iscrowd", "id") {
                    Err(e) => Err(e),
                    Ok(()) => Ok(flags),
                },
            }
        },
    }
}

/// The `ignore` flags, where the column is there: one for each id.
pub open spec fn ignores_view(column: Column<FlagColumn>, n: nat) -> Result<
    Option<FlagColumn>,
    FailureView,
> {
    match column {
        Some(held) if !held.is_none => match held.read {
            Err(e) => Err(e@),
            Ok(flags) => if flags.count() != n {
                Err(len_refusal(flags.count(), n, ANNOTATIONS@, ".ignore"@, "id"@))
            } else {
                Ok(Some(flags))
            },
        },
        _ => Ok(None),
    }
}

/// Read the `ignore` flags.
fn read_ignores(column: &Column<FlagColumn>, n: usize) -> (r: Result<Option<&FlagColumn>, Failure>)
    ensures
        match r {
            Ok(None) => ignores_view(*column, n as nat) == Ok::<Option<FlagColumn>, FailureView>(
                None,
            ),
            Ok(Some(v)) => ignores_view(*column, n as nat) == Ok::<
                Option<FlagColumn>,
                FailureView,
            >(Some(*v)) && v.count() == n,
            Err(e) => ignores_view(*column, n as nat) == Err::<Option<FlagColumn>, FailureView>(e@),
        },
{
    match column {
        None => Ok(None),
        Some(held) => if held.is_none {
            Ok(None)
        } else {
            match &held.read {
                Err(e) => Err(e.copy()),
                Ok(flags) => match check_len(flags.len(), n, ANNOTATIONS, ".ignore", "id") {
                    Err(e) => Err(e),
                    Ok(()) => Ok(Some(flags)),
                },
            }
        },
    }
}

/// Each segmentation of a column, or absent.
pub open spec fn segmentation_reader(items: Seq<HeldMask>) -> spec_fn(int) -> Result<
    Option<SegmentationView>,
    FailureView,
> {
    |i: int|
        if items[i].is_none {
            Ok(None)
        } else {
            match any_segmentation(
                items[i].object,
                path_text(ANNOTATIONS@, Some(i as usize), ".segmentation"@, None),
            ) {
                Ok(s) => Ok(Some(s)),
                Err(e) => Err(e),
            }
        }
}

/// The segmentations, where the column is there: one entry for each id.
pub open spec fn segmentations_view(column: Option<HeldSequence<HeldMask>>, n: nat) -> Result<
    Option<Seq<Option<SegmentationView>>>,
    FailureView,
> {
    match column {
        Some(held) if !held.is_none => match sequence_items(
            held.object,
            path_text(ANNOTATIONS@, None, ".segmentation"@, None),
        ) {
            Err(e) => Err(e),
            Ok(items) => if items.len() != n {
                Err(len_refusal(items.len(), n, ANNOTATIONS@, ".segmentation"@, "id"@))
            } else {
                match collected(segmentation_reader(items), n) {
                    Ok(v) => Ok(Some(v)),
                    Err(e) => Err(e),
                }
            },
        },
        _ => Ok(None),
    }
}

/// Optional segmentations by their mathematical value.
pub open spec fn slots_view(v: Seq<Option<Segmentation>>) -> Seq<Option<SegmentationView>> {
    v.map_values(|s: Option<Segmentation>| opt_segmentation(s))
}

/// Read the segmentations.
fn extract_segmentation_column(column: &Option<HeldSequence<HeldMask>>, n: usize) -> (r: Result<
    Option<Vec<Option<Segmentation>>>,
    Failure,
>)
    ensures
        match r {
            Ok(None) => segmentations_view(*column, n as nat) == Ok::<
                Option<Seq<Option<SegmentationView>>>,
                FailureView,
            >(None),
            Ok(Some(v)) => segmentations_view(*column, n as nat) == Ok::<
                Option<Seq<Option<SegmentationView>>>,
                FailureView,
            >(Some(slots_view(v@))) && v@.len() == n,
            Err(e) => segmentations_view(*column, n as nat) == Err::<
                Option<Seq<Option<SegmentationView>>>,
                FailureView,
            >(e@),
        },
{
    let held = match column {
        None => return Ok(None),
        Some(held) => held,
    };
    if held.is_none {
        return Ok(None);
    }
    let items = match as_object_sequence(&held.object, ANNOTATIONS, ".segmentation") {
        Ok(items) => items,
        Err(e) => return Err(e),
    };
    if let Err(e) = check_len(items.len(), n, ANNOTATIONS, ".segmentation", "id") {
        return Err(e);
    }
    let ghost f = segmentation_reader(items@);
    let mut out: Vec<Option<Segmentation>> = Vec::new();
    let mut i: usize = 0;
    assert(slots_view(out@) =~= Seq::empty());
    #[verifier::loop_isolation(false)]
    while i < n
        invariant
            i <= n,
            out@.len() == i,
            collected(f, i as nat) == Ok::<Seq<Option<SegmentationView>>, FailureView>(
                slots_view(out@),
            ),
        decreases n - i,
    {
        let ghost before = out@;
        if items[i].is_none {
            out.push(None);
            assert(f(i as int) == Ok::<Option<SegmentationView>, FailureView>(None));
        } else {
            let path = FieldPath::rooted(ANNOTATIONS, Some(i), ".segmentation");
            match extract_segmentation(&items[i].object, path) {
                Ok(s) => {
                    out.push(Some(s));
                    assert(f(i as int) == Ok::<Option<SegmentationView>, FailureView>(Some(s@)));
                },
                Err(e) => {
                    proof {
                        assert(f(i as int) == Err::<Option<SegmentationView>, FailureView>(e@));
                        lemma_collected_refusal(f, (i + 1) as nat, n as nat);
                    }
                    return Err(e);
                },
            }
        }
        assert(slots_view(out@) =~= slots_view(before).push(opt_segmentation(out@[i as int])));
        i += 1;
    }
    Ok(Some(out))
}

/// The width of a row of keypoints, counted as at least one.
pub open spec fn row_divisor(k: nat) -> nat {
    if k == 0 {
        1
    } else {
        k * 3
    }
}

/// The keypoints and their K, where the column is there: K triplets for each
/// id.
pub open spec fn keypoints_view(column: Column<(Vec<u64>, usize)>, n: nat) -> Result<
    Option<(Seq<u64>, nat)>,
    FailureView,
> {
    match column {
        Some(held) if !held.is_none => match held.read {
            Err(e) => Err(e@),
            Ok((flat, k)) => if flat@.len() / row_divisor(k as nat) != n {
                Err(
                    len_refusal(
                        flat@.len() / row_divisor(k as nat),
                        n,
                        ANNOTATIONS@,
                        ".keypoints"@,
                        "id"@,
                    ),
                )
            } else {
                Ok(Some((flat@, k as nat)))
            },
        },
        _ => Ok(None),
    }
}

/// A keypoint column whose row width fits in a `usize`.
pub open spec fn keypoint_column_fits(column: Column<(Vec<u64>, usize)>) -> bool {
    column matches Some(held) ==> (held.read matches Ok((flat, k)) ==> k * 3 <= usize::MAX)
}

/// Read the keypoints.
fn read_keypoint_column(column: &Column<(Vec<u64>, usize)>, n: usize) -> (r: Result<
    Option<(&Vec<u64>, usize)>,
    Failure,
>)
    requires
        keypoint_column_fits(*column),
    ensures
        match r {
            Ok(None) => keypoints_view(*column, n as nat) == Ok::<
                Option<(Seq<u64>, nat)>,
                FailureView,
            >(None),
            Ok(Some((flat, k))) => {
                &&& keypoints_view(*column, n as nat) == Ok::<
                    Option<(Seq<u64>, nat)>,
                    FailureView,
                >(Some((flat@, k as nat)))
                &&& k * 3 <= usize::MAX
                &&& n * (k * 3) <= flat@.len()
            },
            Err(e) => keypoints_view(*column, n as nat) == Err::<
                Option<(Seq<u64>, nat)>,
                FailureView,
            >(e@),
        },
{
    match column {
        None => Ok(None),
        Some(held) => if held.is_none {
            Ok(None)
        } else {
            match &held.read {
                Err(e) => Err(e.copy()),
                Ok((flat, k)) => {
                    let k: usize = *k;
                    let width: usize = k3(k);
                    let divisor: usize = if width == 0 {
                        1
                    } else {
                        width
                    };
                    let rows: usize = flat.len() / divisor;
                    match check_len(rows, n, ANNOTATIONS, ".keypoints", "id") {
                        Err(e) => Err(e),
                        Ok(()) => {
                            proof {
                                assert(n * divisor <= flat@.len()) by (nonlinear_arith)
                                    requires
                                        n == flat@.len() / (divisor as nat),
                                        divisor > 0,
                                ;
                                assert(n * width <= n * divisor) by (nonlinear_arith)
                                    requires
                                        width <= divisor,
                                ;
                            }
                            Ok(Some((flat, k)))
                        },
                    }
                },
            }
        },
    }
}

/// The keypoint counts, where the column is there: one for each id.
pub open spec fn counts_view(column: Column<Vec<i64>>, n: nat) -> Result<
    Option<Seq<i64>>,
    FailureView,
> {
    match column {
        Some(held) if !held.is_none => match held.read {
            Err(e) => Err(e@),
            Ok(v) => if v@.len() != n {
                Err(len_refusal(v@.len(), n, ANNOTATIONS@, ".num_keypoints"@, "id"@))
            } else {
                Ok(Some(v@))
            },
        },
        _ => Ok(None),
    }
}

/// Read the keypoint counts.
fn read_counts(column: &Column<Vec<i64>>, n: usize) -> (r: Result<Option<&Vec<i64>>, Failure>)
    ensures
        match r {
            Ok(None) => counts_view(*column, n as nat) == Ok::<Option<Seq<i64>>, FailureView>(None),
            Ok(Some(v)) => counts_view(*column, n as nat) == Ok::<Option<Seq<i64>>, FailureView>(
                Some(v@),
            ) && v@.len() == n,
            Err(e) => counts_view(*column, n as nat) == Err::<Option<Seq<i64>>, FailureView>(e@),
        },
{
    match column {
        None => Ok(None),
        Some(held) => if held.is_none {
            Ok(None)
        } else {
            match &held.read {
                Err(e) => Err(e.copy()),
                Ok(v) => match check_len(v.len(), n, ANNOTATIONS, ".num_keypoints", "id") {
                    Err(e) => Err(e),
                    Ok(()) => Ok(Some(v)),
                },
            }
        },
    }
}

/// The columns of the section, or the first refusal that they meet.
pub open spec fn columns_outcome(c: AnnotationColumns) -> Result<AnnColumns, FailureView> {
    match required_view(c.id, ANNOTATIONS@, "id"@) {
        Err(e) => Err(e),
        Ok(ids) => match sized_view(
            c.image_id,
            ANNOTATIONS@,
            "image_id"@,
            ".image_id"@,
            ids.len(),
        ) {
            Err(e) => Err(e),
            Ok(image_ids) => match sized_view(
                c.category_id,
                ANNOTATIONS@,
                "category_id"@,
                ".category_id"@,
                ids.len(),
            ) {
                Err(e) => Err(e),
                Ok(cat_ids) => match boxes_view(c.bbox, ids.len()) {
                    Err(e) => Err(e),
                    Ok(bboxes) => match sized_view(
                        c.area,
                        ANNOTATIONS@,
                        "area"@,
                        ".area"@,
                        ids.len(),
                    ) {
                        Err(e) => Err(e),
                        Ok(areas) => match crowds_view(c.iscrowd, ids.len()) {
                            Err(e) => Err(e),
                            Ok(crowds) => match ignores_view(c.ignore, ids.len()) {
                                Err(e) => Err(e),
                                Ok(ignores) => match segmentations_view(
                                    c.segmentation,
                                    ids.len(),
                                ) {
                                    Err(e) => Err(e),
                                    Ok(segmentations) => match keypoints_view(
                                        c.keypoints,
                                        ids.len(),
                                    ) {
                                        Err(e) => Err(e),
                                        Ok(keypoints) => match counts_view(
                                            c.num_keypoints,
                                            ids.len(),
                                        ) {
                                            Err(e) => Err(e),
                                            Ok(num_keypoints) => Ok(
                                                AnnColumns {
                                                    ids,
                                                    image_ids,
                                                    cat_ids,
                                                    bboxes,
                                                    areas,
                                                    crowds,
                                                    ignores,
                                                    segmentations,
                                                    keypoints,
                                                    num_keypoints,
                                                },
                                            ),
                                        },
                                    },
                                },
                            },
                        },
                    },
                },
            },
        },
    }
}

/// Each number of a row, refused where it is not finite.
pub open spec fn finite_reader(row: Seq<u64>, i: int, name: Seq<char>) -> spec_fn(int) -> Result<
    u64,
    FailureView,
> {
    |j: int|
        if is_finite(row[j]) {
            Ok(row[j])
        } else {
            Err(finite_refusal(row[j], ANNOTATIONS@, i as usize, name, Some(j as usize)))
        }
}

/// A row of numbers, or the first of them that is not finite.
pub open spec fn finite_row(row: Seq<u64>, i: int, name: Seq<char>) -> Result<
    Seq<u64>,
    FailureView,
> {
    collected(finite_reader(row, i, name), row.len())
}

/// Check that the numbers from `start` up to `end` are finite.
fn check_finite_row(v: &Vec<u64>, start: usize, end: usize, i: usize, name: &str) -> (r: Result<
    (),
    Failure,
>)
    requires
        start <= end <= v@.len(),
    ensures
        match r {
            Ok(()) => finite_row(v@.subrange(start as int, end as int), i as int, name@) == Ok::<
                Seq<u64>,
                FailureView,
            >(v@.subrange(start as int, end as int)),
            Err(e) => finite_row(v@.subrange(start as int, end as int), i as int, name@) == Err::<
                Seq<u64>,
                FailureView,
            >(e@),
        },
{
    let ghost row = v@.subrange(start as int, end as int);
    let ghost f = finite_reader(row, i as int, name@);
    let mut j: usize = 0;
    assert(row.take(0) =~= Seq::empty());
    #[verifier::loop_isolation(false)]
    while j < end - start
        invariant
            start <= end <= v@.len(),
            j <= end - start,
            collected(f, j as nat) == Ok::<Seq<u64>, FailureView>(row.take(j as int)),
        decreases end - start - j,
    {
        assert(row[j as int] == v@[start + j]);
        if let Err(e) = finite(v[start + j], ANNOTATIONS, i, name, Some(j)) {
            proof {
                assert(f(j as int) == Err::<u64, FailureView>(e@));
                lemma_collected_refusal(f, (j + 1) as nat, row.len());
            }
            return Err(e);
        }
        proof {
            assert(f(j as int) == Ok::<u64, FailureView>(row[j as int]));
            assert(row.take(j + 1) =~= row.take(j as int).push(row[j as int]));
        }
        j += 1;
    }
    assert(row.take(j as int) =~= row);
    Ok(())
}

/// The keypoints of annotation `i`, or the first number that is not finite.
pub open spec fn row_keypoints(keypoints: Option<(Seq<u64>, nat)>, i: int) -> Result<
    Option<Seq<u64>>,
    FailureView,
> {
    match keypoints {
        None => Ok(None),
        Some((flat, k)) => match finite_row(
            flat.subrange(i * (k * 3), (i + 1) * (k * 3)),
            i,
            ".keypoints"@,
        ) {
            Ok(row) => Ok(Some(row)),
            Err(e) => Err(e),
        },
    }
}

/// The keypoint count of annotation `i`: absent where it is negative.
pub open spec fn row_count(counts: Option<Seq<i64>>, i: int) -> Result<Option<u32>, FailureView> {
    match counts {
        None => Ok(None),
        Some(v) => if v[i] < 0 {
            Ok(None)
        } else if v[i] > u32::MAX {
            Err(
                value_error(
                    path_text(ANNOTATIONS@, Some(i as usize), ".num_keypoints"@, None) + ": "@
                        + int_text(v[i] as int) + " does not fit in a u32 count"@,
                ),
            )
        } else {
            Ok(Some(v[i] as u32))
        },
    }
}

/// Read the keypoint count of annotation `i`.
fn read_count(counts: Option<&Vec<i64>>, i: usize) -> (r: Result<Option<u32>, Failure>)
    requires
        counts matches Some(v) ==> i < v@.len(),
    ensures
        refused(r) == row_count(
            match counts {
                Some(v) => Some(v@),
                None => None,
            },
            i as int,
        ),
{
    match counts {
        None => Ok(None),
        Some(v) => {
            let x: i64 = v[i];
            if x < 0 {
                Ok(None)
            } else if x > u32::MAX as i64 {
                let mut m = FieldPath::rooted(ANNOTATIONS, Some(i), ".num_keypoints").to_text();
                m.append(": ");
                m.append(i64_text(x).as_str());
                m.append(" does not fit in a u32 count");
                Err(Failure::value_error(m))
            } else {
                Ok(Some(x as u32))
            }
        },
    }
}

/// The annotation in row `i` of the columns, or the first refusal that it
/// meets.
pub open spec fn annotation_row(c: AnnColumns, i: int) -> Result<AnnotationView, FailureView> {
    match finite_row(c.bboxes.subrange(4 * i, 4 * i + 4), i, ".bbox"@) {
        Err(e) => Err(e),
        Ok(b) => if !is_finite(c.areas[i]) {
            Err(finite_refusal(c.areas[i], ANNOTATIONS@, i as usize, ".area"@, None))
        } else {
            match row_keypoints(c.keypoints, i) {
                Err(e) => Err(e),
                Ok(keypoints) => match row_count(c.num_keypoints, i) {
                    Err(e) => Err(e),
                    Ok(num_keypoints) => Ok(
                        AnnotationView {
                            id: c.ids[i],
                            image_id: c.image_ids[i],
                            category_id: c.cat_ids[i],
                            area: c.areas[i],
                            is_crowd: c.crowds.flag(i) == Some(true),
                            ignore_flag: match c.ignores {
                                None => None,
                                Some(flags) => flags.flag(i),
                            },
                            bbox: Bbox { x: b[0], y: b[1], w: b[2], h: b[3] },
                            segmentation: match c.segmentations {
                                None => None,
                                Some(v) => v[i],
                            },
                            keypoints,
                            num_keypoints,
                        },
                    ),
                },
            }
        },
    }
}

/// Each annotation of the columns.
pub open spec fn annotation_reader(c: AnnColumns) -> spec_fn(int) -> Result<
    AnnotationView,
    FailureView,
> {
    |i: int| annotation_row(c, i)
}

/// The annotations of the section, one for each id, or the first refusal.
pub open spec fn annotations_outcome(section: Result<AnnotationColumns, String>) -> Result<
    Seq<AnnotationView>,
    FailureView,
> {
    match section {
        Err(class_name) => Err(section_refusal(ANNOTATIONS@, class_name@)),
        Ok(columns) => match columns_outcome(columns) {
            Err(e) => Err(e),
            Ok(c) => collected(annotation_reader(c), c.ids.len()),
        },
    }
}

/// Annotations by their mathematical value.
pub open spec fn annotations_view(v: Seq<CocoAnnotation>) -> Seq<AnnotationView> {
    v.map_values(|a: CocoAnnotation| a@)
}

/// Read the `annotations` section: the columns, or the name of the type of
/// what is no dict.
#[verifier::rlimit(40)]
pub fn extract_annotations(section: &Result<AnnotationColumns, String>) -> (r: Result<
    Vec<CocoAnnotation>,
    Failure,
>)
    requires
        section matches Ok(c) ==> keypoint_column_fits(c.keypoints),
    ensures
        match r {
            Ok(v) => annotations_outcome(*section) == Ok::<Seq<AnnotationView>, FailureView>(
                annotations_view(v@),
            ),
            Err(e) => annotations_outcome(*section) == Err::<Seq<AnnotationView>, FailureView>(e@),
        },
{
    let c = match section {
        Err(class_name) => return Err(section_error(ANNOTATIONS, class_name.as_str())),
        Ok(c) => c,
    };
    let ids = match required_column(&c.id, ANNOTATIONS, "id") {
        Ok(v) => v,
        Err(e) => return Err(e),
    };
    let n: usize = ids.len();
    let image_ids = match sized_column(&c.image_id, ANNOTATIONS, "image_id", ".image_id", n) {
        Ok(v) => v,
        Err(e) => return Err(e),
    };
    let cat_ids = match sized_column(
        &c.category_id,
        ANNOTATIONS,
        "category_id",
        ".category_id",
        n,
    ) {
        Ok(v) => v,
        Err(e) => return Err(e),
    };
    let bboxes = match read_boxes(&c.bbox, n) {
        Ok(v) => v,
        Err(e) => return Err(e),
    };
    let areas = match sized_column(&c.area, ANNOTATIONS, "area", ".area", n) {
        Ok(v) => v,
        Err(e) => return Err(e),
    };
    let crowds = match read_crowds(&c.iscrowd, n) {
        Ok(v) => v,
        Err(e) => return Err(e),
    };
    let ignores = match read_ignores(&c.ignore, n) {
        Ok(v) => v,
        Err(e) => return Err(e),
    };
    let mut segmentations = match extract_segmentation_column(&c.segmentation, n) {
        Ok(v) => v,
        Err(e) => return Err(e),
    };
    let keypoints = match read_keypoint_column(&c.keypoints, n) {
        Ok(v) => v,
        Err(e) => return Err(e),
    };
    let counts = match read_counts(&c.num_keypoints, n) {
        Ok(v) => v,
        Err(e) => return Err(e),
    };
    let ghost cols = columns_outcome(*c)->Ok_0;
    let ghost f = annotation_reader(cols);
    let mut out: Vec<CocoAnnotation> = Vec::new();
    let mut i: usize = 0;
    assert(annotations_view(out@) =~= Seq::empty());
    while i < n
        invariant
            *section == Ok::<AnnotationColumns, String>(*c),
            columns_outcome(*c) == Ok::<AnnColumns, FailureView>(cols),
            f == annotation_reader(cols),
            i <= n,
            cols.ids == ids@ && ids@.len() == n,
            cols.image_ids == image_ids@ && image_ids@.len() == n,
            cols.cat_ids == cat_ids@ && cat_ids@.len() == n,
            cols.bboxes == bboxes@ && bboxes@.len() / 4 == n,
            cols.areas == areas@ && areas@.len() == n,
            cols.crowds == *crowds && crowds.count() == n,
            match ignores {
                None => cols.ignores is None,
                Some(v) => cols.ignores == Some(*v) && v.count() == n,
            },
            match segmentations {
                None => cols.segmentations is None,
                Some(v) => {
                    &&& cols.segmentations is Some
                    &&& v@.len() == n
                    &&& cols.segmentations->0.len() == n
                    &&& forall|k: int|
                        i <= k < n ==> opt_segmentation(#[trigger] v@[k])
                            == cols.segmentations->0[k]
                },
            },
            match keypoints {
                None => cols.keypoints is None,
                Some((flat, k)) => {
                    &&& cols.keypoints == Some((flat@, k as nat))
                    &&& k * 3 <= usize::MAX
                    &&& n * (k * 3) <= flat@.len()
                },
            },
            match counts {
                None => cols.num_keypoints is None,
                Some(v) => cols.num_keypoints == Some(v@) && v@.len() == n,
            },
            collected(f, i as nat) == Ok::<Seq<AnnotationView>, FailureView>(
                annotations_view(out@),
            ),
        decreases n - i,
    {
        let ghost outcome = annotation_row(cols, i as int);
        let flat_len: usize = bboxes.len();
        assert(4 * i + 4 <= flat_len);
        let base: usize = 4 * i;
        if let Err(e) = check_finite_row(bboxes, base, base + 4, i, ".bbox") {
            proof {
                assert(f(i as int) == Err::<AnnotationView, FailureView>(e@));
                lemma_collected_refusal(f, (i + 1) as nat, n as nat);
            }
            return Err(e);
        }
        if let Err(e) = finite(areas[i], ANNOTATIONS, i, ".area", None) {
            proof {
                assert(f(i as int) == Err::<AnnotationView, FailureView>(e@));
                lemma_collected_refusal(f, (i + 1) as nat, n as nat);
            }
            return Err(e);
        }
        let points: Option<Vec<u64>> = match keypoints {
            None => None,
            Some((flat, k)) => {
                let width: usize = k3(k);
                let total: usize = flat.len();
                proof {
                    assert(i * width + width == (i + 1) * width) by (nonlinear_arith);
                    assert((i + 1) * width <= n * width) by (nonlinear_arith)
                        requires
                            i + 1 <= n,
                    ;
                    assert(0 <= i * width) by (nonlinear_arith);
                }
                let start: usize = i * width;
                if let Err(e) = check_finite_row(flat, start, start + width, i, ".keypoints") {
                    proof {
                        assert(f(i as int) == Err::<AnnotationView, FailureView>(e@));
                        lemma_collected_refusal(f, (i + 1) as nat, n as nat);
                    }
                    return Err(e);
                }
                Some(copy_range(flat, start, start + width))
            },
        };
        let num_keypoints: Option<u32> = match read_count(counts, i) {
            Ok(v) => v,
            Err(e) => {
                proof {
                    assert(f(i as int) == Err::<AnnotationView, FailureView>(e@));
                    lemma_collected_refusal(f, (i + 1) as nat, n as nat);
                }
                return Err(e);
            },
        };
        let segmentation = match &mut segmentations {
            None => None,
            Some(v) => v[i].take(),
        };
        let annotation = CocoAnnotation {
            id: ids[i],
            image_id: image_ids[i],
            category_id: cat_ids[i],
            area: areas[i],
            is_crowd: crowds.get(i),
            ignore_flag: match ignores {
                None => None,
                Some(flags) => flags.get_optional(i),
            },
            bbox: Bbox {
                x: bboxes[base],
                y: bboxes[base + 1],
                w: bboxes[base + 2],
                h: bboxes[base + 3],
            },
            segmentation,
            keypoints: points,
            num_keypoints,
        };
        let ghost before = out@;
        out.push(annotation);
        proof {
            assert(f(i as int) == Ok::<AnnotationView, FailureView>(annotation@));
            assert(annotations_view(out@) =~= annotations_view(before).push(annotation@));
        }
        i += 1;
    }
    Ok(out)
}

// ---------------------------------------------------------------------------
// The whole document
// ---------------------------------------------------------------------------

/// The parts that a ground-truth document is made of.
#[derive(Debug)]
pub struct GtParts {
    pub images: Vec<ImageMeta>,
    pub annotations: Vec<CocoAnnotation>,
    pub categories: Vec<CategoryMeta>,
}

/// Read the three sections. A refusal is that of the images, then of the
/// categories, then of the annotations.
pub fn gt_parts_from_arrays(
    images: &Result<ImageColumns, String>,
    annotations: &Result<AnnotationColumns, String>,
    categories: &ObjectSequence<Result<CategoryDict, String>>,
) -> (r: Result<GtParts, Failure>)
    requires
        annotations matches Ok(c) ==> keypoint_column_fits(c.keypoints),
    ensures
        match r {
            Ok(parts) => {
                &&& images_outcome(*images) == Ok::<Seq<ImageView>, FailureView>(
                    images_view(parts.images@),
                )
                &&& categories_outcome(*categories) == Ok::<Seq<CategoryView>, FailureView>(
                    categories_view(parts.categories@),
                )
                &&& annotations_outcome(*annotations) == Ok::<Seq<AnnotationView>, FailureView>(
                    annotations_view(parts.annotations@),
                )
            },
            Err(e) => e@ == if images_outcome(*images) is Err {
                images_outcome(*images)->Err_0
            } else if categories_outcome(*categories) is Err {
                categories_outcome(*categories)->Err_0
            } else {
                annotations_outcome(*annotations)->Err_0
            } && (images_outcome(*images) is Err || categories_outcome(*categories) is Err
                || annotations_outcome(*annotations) is Err),
        },
{
    let images = match extract_images(images) {
        Ok(v) => v,
        Err(e) => return Err(e),
    };
    let categories = match extract_categories(categories) {
        Ok(v) => v,
        Err(e) => return Err(e),
    };
    let annotations = match extract_annotations(annotations) {
        Ok(v) => v,
        Err(e) => return Err(e),
    };
    Ok(GtParts { images, annotations, categories })
}

/// Annotations that are accepted carry what the columns hold, row by row:
/// ids and areas as they were supplied, boxes finite and as they were given.
pub proof fn law_annotations_are_verbatim(columns: AnnotationColumns)
    requires
        annotations_outcome(Ok(columns)) is Ok,
    ensures
        ({
            let out = annotations_outcome(Ok(columns))->Ok_0;
            let c = columns_outcome(columns)->Ok_0;
            &&& out.len() == c.ids.len()
            &&& forall|i: int|
                0 <= i < out.len() ==> {
                    &&& (#[trigger] out[i]).id == c.ids[i]
                    &&& out[i].image_id == c.image_ids[i]
                    &&& out[i].category_id == c.cat_ids[i]
                    &&& out[i].area == c.areas[i] && is_finite(out[i].area)
                    &&& out[i].bbox == (Bbox {
                        x: c.bboxes[4 * i],
                        y: c.bboxes[4 * i + 1],
                        w: c.bboxes[4 * i + 2],
                        h: c.bboxes[4 * i + 3],
                    })
                    &&& is_finite(out[i].bbox.x) && is_finite(out[i].bbox.y) && is_finite(
                        out[i].bbox.w,
                    ) && is_finite(out[i].bbox.h)
                }
        }),
{
    let c = columns_outcome(columns)->Ok_0;
    let f = annotation_reader(c);
    let out = annotations_outcome(Ok(columns))->Ok_0;
    lemma_collected_items(f, c.ids.len());
    assert forall|i: int| 0 <= i < out.len() implies {
        &&& (#[trigger] out[i]).id == c.ids[i]
        &&& out[i].image_id == c.image_ids[i]
        &&& out[i].category_id == c.cat_ids[i]
        &&& out[i].area == c.areas[i] && is_finite(out[i].area)
        &&& out[i].bbox == (Bbox {
            x: c.bboxes[4 * i],
            y: c.bboxes[4 * i + 1],
            w: c.bboxes[4 * i + 2],
            h: c.bboxes[4 * i + 3],
        })
        &&& is_finite(out[i].bbox.x) && is_finite(out[i].bbox.y) && is_finite(out[i].bbox.w)
            && is_finite(out[i].bbox.h)
    } by {
        assert(f(i) == Ok::<AnnotationView, FailureView>(out[i]));
        assert(c.bboxes.len() / 4 == c.ids.len());
        let row = c.bboxes.subrange(4 * i, 4 * i + 4);
        let g = finite_reader(row, i, ".bbox"@);
        lemma_collected_items(g, row.len());
        assert(g(0) is Ok && g(1) is Ok && g(2) is Ok && g(3) is Ok);
    }
}

/// Images that are accepted have the dimensions that the columns hold: none
/// is wrapped or cut.
pub proof fn law_dimensions_are_never_truncated(
    ids: Seq<i64>,
    widths: Seq<i64>,
    heights: Seq<i64>,
    names: Option<Seq<Option<Seq<char>>>>,
)
    requires
        collected(image_reader(ids, widths, heights, names), ids.len()) is Ok,
    ensures
        ({
            let out = collected(image_reader(ids, widths, heights, names), ids.len())->Ok_0;
            &&& out.len() == ids.len()
            &&& forall|i: int|
                0 <= i < out.len() ==> {
                    &&& (#[trigger] out[i]).id == ids[i]
                    &&& out[i].width == widths[i]
                    &&& out[i].height == heights[i]
                }
        }),
{
    let f = image_reader(ids, widths, heights, names);
    lemma_collected_items(f, ids.len());
    let out = collected(f, ids.len())->Ok_0;
    assert forall|i: int| 0 <= i < out.len() implies {
        &&& (#[trigger] out[i]).id == ids[i]
        &&& out[i].width == widths[i]
        &&& out[i].height == heights[i]
    } by {
        assert(f(i) == Ok::<ImageView, FailureView>(out[i]));
    }
}

/// Every annotation has the values of its own row: each id, the box and the
/// area come from the entry of their own column at that place, and there is
/// one annotation for each id.
pub proof fn law_annotations_have_their_own_row(columns: AnnotationColumns, out: Seq<CocoAnnotation>)
    requires
        annotations_outcome(Ok(columns)) == Ok::<Seq<AnnotationView>, FailureView>(
            annotations_view(out),
        ),
    ensures
        columns.id matches Some(id) && columns.image_id matches Some(image_id)
            && columns.category_id matches Some(category_id) && columns.bbox matches Some(bbox)
            && columns.area matches Some(area) && id.read matches Ok(ids)
            && image_id.read matches Ok(image_ids) && category_id.read matches Ok(category_ids)
            && bbox.read matches Ok(boxes) && area.read matches Ok(areas) && {
            &&& ids@.len() == out.len()
            &&& forall|i: int|
                0 <= i < out.len() ==> {
                    &&& (#[trigger] out[i]).id == ids@[i]
                    &&& out[i].image_id == image_ids@[i]
                    &&& out[i].category_id == category_ids@[i]
                    &&& out[i].bbox.x == boxes@[4 * i]
                    &&& out[i].bbox.y == boxes@[4 * i + 1]
                    &&& out[i].bbox.w == boxes@[4 * i + 2]
                    &&& out[i].bbox.h == boxes@[4 * i + 3]
                    &&& out[i].area == areas@[i]
                }
        },
{
    law_annotations_are_verbatim(columns);
    let read = annotations_view(out);
    assert(read.len() == out.len());
    let c = columns_outcome(columns)->Ok_0;
    assert forall|i: int| 0 <= i < out.len() implies {
        &&& (#[trigger] out[i]).id == c.ids[i]
        &&& out[i].image_id == c.image_ids[i]
        &&& out[i].category_id == c.cat_ids[i]
        &&& out[i].bbox.x == c.bboxes[4 * i]
        &&& out[i].bbox.y == c.bboxes[4 * i + 1]
        &&& out[i].bbox.w == c.bboxes[4 * i + 2]
        &&& out[i].bbox.h == c.bboxes[4 * i + 3]
        &&& out[i].area == c.areas[i]
    } by {
        assert(out[i]@ == read[i]);
    }
}

/// The row of the columns that an annotation was read from.
proof fn lemma_annotation_is_its_row(
    columns: AnnotationColumns,
    out: Seq<CocoAnnotation>,
    i: int,
)
    requires
        annotations_outcome(Ok(columns)) == Ok::<Seq<AnnotationView>, FailureView>(
            annotations_view(out),
        ),
        0 <= i < out.len(),
    ensures
        columns_outcome(columns) is Ok,
        out.len() == columns_outcome(columns)->Ok_0.ids.len(),
        annotation_row(columns_outcome(columns)->Ok_0, i) == Ok::<AnnotationView, FailureView>(
            out[i]@,
        ),
{
    let c = columns_outcome(columns)->Ok_0;
    let f = annotation_reader(c);
    lemma_collected_items(f, c.ids.len());
    let read = annotations_view(out);
    assert(read.len() == out.len());
    assert(out[i]@ == read[i]);
    assert(f(i) == Ok::<AnnotationView, FailureView>(read[i]));
}

/// The flags of an annotation are those at its place. A crowd is marked by
/// what is not zero, and a negative entry marks none; whether it is ignored is
/// left open where the column is missing or the entry is negative.
pub proof fn law_annotations_have_their_own_flags(
    columns: AnnotationColumns,
    out: Seq<CocoAnnotation>,
    i: int,
)
    requires
        annotations_outcome(Ok(columns)) == Ok::<Seq<AnnotationView>, FailureView>(
            annotations_view(out),
        ),
        0 <= i < out.len(),
    ensures
        columns.iscrowd matches Some(crowd) && crowd.read matches Ok(flags) && !crowd.is_none
            && match flags {
            FlagColumn::Bytes(v) => v@.len() == out.len() && out[i].is_crowd == (v@[i] != 0),
            FlagColumn::Signed(v) => v@.len() == out.len() && out[i].is_crowd == (v@[i] > 0),
        },
        match columns.ignore {
            Some(ignore) if !ignore.is_none => ignore.read matches Ok(flags) && match flags {
                FlagColumn::Bytes(v) => v@.len() == out.len() && out[i].ignore_flag == Some(
                    v@[i] != 0,
                ),
                FlagColumn::Signed(v) => v@.len() == out.len() && out[i].ignore_flag == if v@[i]
                    < 0 {
                    None
                } else {
                    Some(v@[i] > 0)
                },
            },
            _ => out[i].ignore_flag is None,
        },
{
    lemma_annotation_is_its_row(columns, out, i);
}

/// The segmentation of an annotation is the one read from its own entry of the
/// column: absent exactly where the column is missing or the entry is `None`.
pub proof fn law_annotations_have_their_own_segmentation(
    columns: AnnotationColumns,
    out: Seq<CocoAnnotation>,
    i: int,
)
    requires
        annotations_outcome(Ok(columns)) == Ok::<Seq<AnnotationView>, FailureView>(
            annotations_view(out),
        ),
        0 <= i < out.len(),
    ensures
        match columns.segmentation {
            Some(held) if !held.is_none => held.object matches ObjectSequence::Items(items)
                && items@.len() == out.len() && match out[i].segmentation {
                Some(s) => !items@[i].is_none && any_segmentation(
                    items@[i].object,
                    path_text(ANNOTATIONS@, Some(i as usize), ".segmentation"@, None),
                ) == Ok::<SegmentationView, FailureView>(s@),
                None => items@[i].is_none,
            },
            _ => out[i].segmentation is None,
        },
{
    lemma_annotation_is_its_row(columns, out, i);
    match columns.segmentation {
        Some(held) if !held.is_none => {
            if let ObjectSequence::Items(items) = held.object {
                let g = segmentation_reader(items@);
                lemma_collected_items(g, out.len());
                assert(g(i) is Ok);
            }
        },
        _ => {},
    }
}

/// Rings that are held for an annotation are its segmentation, number by
/// number.
pub proof fn law_annotations_keep_their_rings(
    columns: AnnotationColumns,
    out: Seq<CocoAnnotation>,
    i: int,
    items: Vec<HeldMask>,
    rings: Vec<Vec<u64>>,
    class_name: String,
)
    requires
        annotations_outcome(Ok(columns)) == Ok::<Seq<AnnotationView>, FailureView>(
            annotations_view(out),
        ),
        0 <= i < out.len(),
        columns.segmentation == Some(
            (HeldSequence { is_none: false, object: ObjectSequence::Items(items) }),
        ),
        items@[i] == (HeldMask { is_none: false, object: MaskObject::Rings(rings, class_name) }),
    ensures
        out[i].segmentation matches Some(Segmentation::Polygons(v)) && v@.len() == rings@.len()
            && forall|j: int| 0 <= j < v@.len() ==> (#[trigger] v@[j])@ == rings@[j]@,
{
    law_annotations_have_their_own_segmentation(columns, out, i);
    law_segmentations_are_those_held(
        items@[i].object,
        path_text(ANNOTATIONS@, Some(i as usize), ".segmentation"@, None),
        out[i].segmentation->0,
    );
}

/// The keypoints of an annotation are its own stretch of the flat column, all
/// finite, and their count is its own entry: absent exactly where the column
/// is missing or the count is negative.
pub proof fn law_annotations_have_their_own_keypoints(
    columns: AnnotationColumns,
    out: Seq<CocoAnnotation>,
    i: int,
)
    requires
        annotations_outcome(Ok(columns)) == Ok::<Seq<AnnotationView>, FailureView>(
            annotations_view(out),
        ),
        0 <= i < out.len(),
    ensures
        match columns.keypoints {
            Some(held) if !held.is_none => held.read matches Ok((flat, k))
                && out[i].keypoints matches Some(v) && (i + 1) * (k * 3) <= flat@.len() && v@.len()
                == k * 3 && forall|j: int|
                0 <= j < v@.len() ==> #[trigger] v@[j] == flat@[i * (k * 3) + j] && is_finite(
                    v@[j],
                ),
            _ => out[i].keypoints is None,
        },
        match columns.num_keypoints {
            Some(held) if !held.is_none => held.read matches Ok(counts) && counts@.len()
                == out.len() && match out[i].num_keypoints {
                Some(n) => n == counts@[i],
                None => counts@[i] < 0,
            },
            _ => out[i].num_keypoints is None,
        },
{
    lemma_annotation_is_its_row(columns, out, i);
    let c = columns_outcome(columns)->Ok_0;
    if let Some((flat, k)) = c.keypoints {
        let n = out.len();
        let width: nat = k * 3;
        let d = row_divisor(k);
        let q: nat = flat.len() / d;
        assert(q == n);
        assert(n * d <= flat.len()) by {
            vstd::arithmetic::div_mod::lemma_fundamental_div_mod(flat.len() as int, d as int);
            assert(d * q == q * d) by (nonlinear_arith);
        }
        assert((i + 1) * width <= n * d) by (nonlinear_arith)
            requires
                0 <= i,
                i + 1 <= n,
                width <= d,
        ;
        assert((i + 1) * width == i * width + width) by (nonlinear_arith);
        assert(0 <= i * width) by (nonlinear_arith)
            requires
                0 <= i,
        ;
        let row = flat.subrange(i * width, (i + 1) * width);
        let g = finite_reader(row, i, ".keypoints"@);
        lemma_collected_items(g, row.len());
        let v = out[i].keypoints->0;
        assert(v@.len() == row.len());
        assert forall|j: int| 0 <= j < v@.len() implies #[trigger] v@[j] == flat[i * width + j]
            && is_finite(v@[j]) by {
            assert(g(j) == Ok::<u64, FailureView>(v@[j]));
        }
    }
}

/// A flag column has as many flags as entries, and the `iscrowd` and `ignore`
/// readings of one entry agree wherever the entry is no absence.
pub proof fn law_flags_go_by_sign(column: FlagColumn, i: int)
    ensures
        match column {
            FlagColumn::Bytes(v) => column.count() == v@.len() && (column.flag(i) == Some(
                true,
            ) <==> v@[i] > 0) && (column.flag(i) == Some(false) <==> v@[i] == 0),
            FlagColumn::Signed(v) => column.count() == v@.len() && (column.flag(i) == Some(
                true,
            ) <==> v@[i] > 0) && (column.flag(i) == Some(false) <==> v@[i] == 0) && (column.flag(
                i,
            ) is None <==> v@[i] < 0),
        },
{
}

/// Every image has the values of its own row, and there is one image for each
/// id. A file name is absent exactly where the column is missing or the entry
/// is `None`.
pub proof fn law_images_have_their_own_row(columns: ImageColumns, out: Seq<ImageMeta>)
    requires
        images_outcome(Ok(columns)) == Ok::<Seq<ImageView>, FailureView>(images_view(out)),
    ensures
        columns.id matches Some(id) && columns.width matches Some(width)
            && columns.height matches Some(height) && id.read matches Ok(ids)
            && width.read matches Ok(widths) && height.read matches Ok(heights) && {
            &&& ids@.len() == out.len()
            &&& widths@.len() == out.len()
            &&& heights@.len() == out.len()
            &&& forall|i: int|
                0 <= i < out.len() ==> {
                    &&& (#[trigger] out[i]).id == ids@[i]
                    &&& out[i].width == widths@[i]
                    &&& out[i].height == heights@[i]
                }
        },
        match columns.file_name {
            Some(held) if !held.is_none => held.object matches ObjectSequence::Items(items)
                && items@.len() == out.len() && forall|i: int|
                0 <= i < out.len() ==> match (#[trigger] out[i]).file_name {
                    Some(name) => !items@[i].is_none && (items@[i].read matches Ok(s) && s@
                        == name@),
                    None => items@[i].is_none,
                },
            _ => forall|i: int| 0 <= i < out.len() ==> (#[trigger] out[i]).file_name is None,
        },
{
    let ids = required_view(columns.id, IMAGES@, "id"@)->Ok_0;
    let widths = sized_view(columns.width, IMAGES@, "width"@, ".width"@, ids.len())->Ok_0;
    let heights = sized_view(columns.height, IMAGES@, "height"@, ".height"@, ids.len())->Ok_0;
    let names = file_names_view(columns.file_name, ids.len())->Ok_0;
    law_dimensions_are_never_truncated(ids, widths, heights, names);
    let f = image_reader(ids, widths, heights, names);
    lemma_collected_items(f, ids.len());
    let read = images_view(out);
    assert(read.len() == out.len());
    assert forall|i: int| 0 <= i < out.len() implies {
        &&& (#[trigger] out[i]).id == ids[i]
        &&& out[i].width == widths[i]
        &&& out[i].height == heights[i]
    } by {
        assert(out[i]@ == read[i]);
    }
    match columns.file_name {
        Some(held) if !held.is_none => {
            if let ObjectSequence::Items(items) = held.object {
                let g = name_reader(items@);
                lemma_collected_items(g, out.len());
                assert forall|i: int| 0 <= i < out.len() implies match (
                #[trigger] out[i]).file_name {
                    Some(name) => !items@[i].is_none && (items@[i].read matches Ok(s) && s@
                        == name@),
                    None => items@[i].is_none,
                } by {
                    assert(out[i]@ == read[i]);
                    assert(f(i) == Ok::<ImageView, FailureView>(read[i]));
                    assert(g(i) is Ok);
                }
            }
        },
        _ => {
            assert forall|i: int| 0 <= i < out.len() implies (
            #[trigger] out[i]).file_name is None by {
                assert(out[i]@ == read[i]);
                assert(f(i) == Ok::<ImageView, FailureView>(read[i]));
            }
        },
    }
}

/// Columns of images are taken where they are there, of one length and within
/// the range of a dimension.
pub proof fn law_fitting_images_are_taken(
    columns: ImageColumns,
    ids: Seq<i64>,
    widths: Seq<i64>,
    heights: Seq<i64>,
)
    requires
        columns.id matches Some(held) && held.read matches Ok(v) && !held.is_none && v@ == ids,
        columns.width matches Some(held) && held.read matches Ok(v) && !held.is_none && v@
            == widths,
        columns.height matches Some(held) && held.read matches Ok(v) && !held.is_none && v@
            == heights,
        widths.len() == ids.len(),
        heights.len() == ids.len(),
        forall|i: int| 0 <= i < ids.len() ==> 0 <= #[trigger] widths[i] <= u32::MAX,
        forall|i: int| 0 <= i < ids.len() ==> 0 <= #[trigger] heights[i] <= u32::MAX,
        columns.file_name is None,
    ensures
        images_outcome(Ok(columns)) is Ok,
{
    let f = image_reader(ids, widths, heights, None);
    assert forall|k: int| 0 <= k < ids.len() implies #[trigger] f(k) is Ok by {
        assert(0 <= widths[k] <= u32::MAX && 0 <= heights[k] <= u32::MAX);
    }
    law_first_refusal_counts(f, ids.len(), 0);
}

/// Every category has the fields of its own dict, and there is one category
/// for each dict.
pub proof fn law_categories_have_their_own_fields(
    section: ObjectSequence<Result<CategoryDict, String>>,
    out: Seq<CategoryMeta>,
)
    requires
        categories_outcome(section) == Ok::<Seq<CategoryView>, FailureView>(categories_view(out)),
    ensures
        section matches ObjectSequence::Items(items) && items@.len() == out.len() && forall|i: int|
            0 <= i < out.len() ==> (items@[i] matches Ok(d) && {
                &&& d.id == Some(Ok::<i64, String>((#[trigger] out[i]).id))
                &&& d.name matches Some(Ok(name))
                &&& name@ == out[i].name@
                &&& match out[i].supercategory {
                    Some(above) => d.supercategory matches Some(held) && held.read matches Ok(s)
                        && !held.is_none && s@ == above@,
                    None => d.supercategory matches Some(held) ==> held.is_none,
                }
            }),
{
    if let ObjectSequence::Items(items) = section {
        let f = category_reader(items@);
        lemma_collected_items(f, items@.len());
        let read = categories_view(out);
        assert(read.len() == out.len());
        assert forall|i: int| 0 <= i < out.len() implies (items@[i] matches Ok(d) && {
            &&& d.id == Some(Ok::<i64, String>((#[trigger] out[i]).id))
            &&& d.name matches Some(Ok(name))
            &&& name@ == out[i].name@
            &&& match out[i].supercategory {
                Some(above) => d.supercategory matches Some(held) && held.read matches Ok(s)
                    && !held.is_none && s@ == above@,
                None => d.supercategory matches Some(held) ==> held.is_none,
            }
        }) by {
            assert(out[i]@ == read[i]);
            assert(f(i) == Ok::<CategoryView, FailureView>(read[i]));
        }
    }
}

/// A dict with an id and a name is a category.
pub proof fn law_named_categories_are_taken(d: CategoryDict, i: int)
    requires
        d.id matches Some(Ok(_)),
        d.name matches Some(Ok(_)),
        d.supercategory matches Some(held) ==> held.is_none || held.read is Ok,
    ensures
        category_outcome(d, i) is Ok,
{
}

/// A row of finite numbers is taken as an annotation, whatever else the
/// columns leave absent.
pub proof fn law_finite_rows_are_taken(c: AnnColumns, i: int)
    requires
        0 <= i,
        4 * i + 4 <= c.bboxes.len(),
        forall|j: int| 4 * i <= j < 4 * i + 4 ==> is_finite(#[trigger] c.bboxes[j]),
        is_finite(c.areas[i]),
        c.keypoints is None,
        c.num_keypoints matches Some(v) ==> v[i] <= u32::MAX,
    ensures
        annotation_row(c, i) is Ok,
{
    let row = c.bboxes.subrange(4 * i, 4 * i + 4);
    let g = finite_reader(row, i, ".bbox"@);
    assert forall|k: int| 0 <= k < row.len() implies #[trigger] g(k) is Ok by {
        assert(row[k] == c.bboxes[4 * i + k]);
    }
    law_first_refusal_counts(g, row.len(), 0);
}

/// Columns of annotations are taken where each that has to be there is, and
/// each that is there has an entry for each id.
pub proof fn law_fitting_columns_are_taken(
    c: AnnotationColumns,
    ids: Vec<i64>,
    image_ids: Vec<i64>,
    category_ids: Vec<i64>,
    boxes: Vec<u64>,
    areas: Vec<u64>,
    crowds: FlagColumn,
)
    requires
        c.id == Some((Held::<Vec<i64>, Failure> { is_none: false, read: Ok(ids) })),
        c.image_id == Some((Held::<Vec<i64>, Failure> { is_none: false, read: Ok(image_ids) })),
        c.category_id == Some(
            (Held::<Vec<i64>, Failure> { is_none: false, read: Ok(category_ids) }),
        ),
        c.bbox == Some((Held::<Vec<u64>, Failure> { is_none: false, read: Ok(boxes) })),
        c.area == Some((Held::<Vec<u64>, Failure> { is_none: false, read: Ok(areas) })),
        c.iscrowd == Some((Held::<FlagColumn, Failure> { is_none: false, read: Ok(crowds) })),
        image_ids@.len() == ids@.len(),
        category_ids@.len() == ids@.len(),
        boxes@.len() == 4 * ids@.len(),
        areas@.len() == ids@.len(),
        match crowds {
            FlagColumn::Bytes(v) => v@.len() == ids@.len(),
            FlagColumn::Signed(v) => v@.len() == ids@.len(),
        },
        c.ignore matches Some(held) ==> held.is_none || (held.read matches Ok(flags) && match flags {
            FlagColumn::Bytes(v) => v@.len() == ids@.len(),
            FlagColumn::Signed(v) => v@.len() == ids@.len(),
        }),
        c.segmentation matches Some(held) ==> held.is_none || (
        held.object matches ObjectSequence::Items(items) && items@.len() == ids@.len() && forall|
            i: int,
        |
            0 <= i < items@.len() ==> (#[trigger] items@[i]).is_none || any_segmentation(
                items@[i].object,
                path_text(ANNOTATIONS@, Some(i as usize), ".segmentation"@, None),
            ) is Ok),
        c.keypoints matches Some(held) ==> held.is_none,
        c.num_keypoints matches Some(held) ==> held.is_none || (held.read matches Ok(v) && v@.len()
            == ids@.len()),
    ensures
        columns_outcome(c) is Ok,
{
    match c.segmentation {
        Some(held) if !held.is_none => {
            if let ObjectSequence::Items(items) = held.object {
                let g = segmentation_reader(items@);
                assert forall|k: int| 0 <= k < items@.len() implies #[trigger] g(k) is Ok by {
                    assert(items@[k].is_none || any_segmentation(
                        items@[k].object,
                        path_text(ANNOTATIONS@, Some(k as usize), ".segmentation"@, None),
                    ) is Ok);
                }
                law_first_refusal_counts(g, items@.len(), 0);
            }
        },
        _ => {},
    }
}

} // verus!
