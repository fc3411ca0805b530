//! Manifests: which image or label belongs to which slice.
//!
//! A manifest comes as a dict, as a path to a JSON file, or as a table. A
//! table is written out here as the JSON document that a file would hold.

use crate::batch::{
    array_cells, array_len, array_type, array_type_text, cell_fits, cells_view, column_cells,
    column_type_text, read_column, readable, same_type, Cell, KindView, ReadView,
};
use crate::collect::{
    collected, law_first_refusal_counts, lemma_collected_items, lemma_collected_refusal,
};
use crate::failure::{refused, type_error, value_error, Failure, FailureView};
use crate::text::{debug_text, quoted, same_text};
use arrow_data::ArrayData;
use serde_json::Value;
use vstd::prelude::*;

verus! {

// ---------------------------------------------------------------------------
// What kind of object a manifest is
// ---------------------------------------------------------------------------

/// How a manifest is read.
#[derive(Clone, Copy, Debug, PartialEq, Eq, Structural)]
pub enum ManifestRoute {
    Dict,
    Path,
    Stream,
    Array,
}

/// What can be said of an object that stands for a manifest.
#[derive(Clone, Copy, Debug, PartialEq, Eq, Structural)]
pub struct ManifestObject {
    pub is_dict: bool,
    /// It is a string, or something that gives one as its path.
    pub is_path: bool,
    pub has_stream: bool,
    pub has_array: bool,
}

/// How an object is read: as a dict, else as a path, else as a stream of
/// tables, else as one table.
pub open spec fn route_outcome(m: ManifestObject) -> Result<ManifestRoute, FailureView> {
    if m.is_dict {
        Ok(ManifestRoute::Dict)
    } else if m.is_path {
        Ok(ManifestRoute::Path)
    } else if m.has_stream {
        Ok(ManifestRoute::Stream)
    } else if m.has_array {
        Ok(ManifestRoute::Array)
    } else {
        Err(
            type_error(
                "manifest= must be one of: a dict, a file path (str / PathLike), \
         or an object exposing the Arrow PyCapsule Interface \
         (__arrow_c_array__ / __arrow_c_stream__)"@,
            ),
        )
    }
}

/// Decide how an object is read.
pub fn manifest_route(m: ManifestObject) -> (r: Result<ManifestRoute, Failure>)
    ensures
        refused(r) == route_outcome(m),
{
    if m.is_dict {
        Ok(ManifestRoute::Dict)
    } else if m.is_path {
        Ok(ManifestRoute::Path)
    } else if m.has_stream {
        Ok(ManifestRoute::Stream)
    } else if m.has_array {
        Ok(ManifestRoute::Array)
    } else {
        Err(
            Failure::type_error(
                String::from_str(
                    "manifest= must be one of: a dict, a file path (str / PathLike), \
         or an object exposing the Arrow PyCapsule Interface \
         (__arrow_c_array__ / __arrow_c_stream__)",
                ),
            ),
        )
    }
}

/// A capital letter of ASCII as its small letter.
pub open spec fn ascii_lower(c: char) -> char {
    if 'A' as int <= c as int <= 'Z' as int {
        (c as int + 32) as char
    } else {
        c
    }
}

/// A text with the capital letters of ASCII as small letters.
pub open spec fn lower_text(s: Seq<char>) -> Seq<char> {
    s.map_values(|c: char| ascii_lower(c))
}

/// The small letter of a capital letter of ASCII.
fn small_letter(c: char) -> (s: &'static str)
    requires
        'A' as int <= c as int <= 'Z' as int,
    ensures
        s@ == seq![ascii_lower(c)],
{
    proof {
        reveal_strlit("a");
        reveal_strlit("b");
        reveal_strlit("c");
        reveal_strlit("d");
        reveal_strlit("e");
        reveal_strlit("f");
        reveal_strlit("g");
        reveal_strlit("h");
        reveal_strlit("i");
        reveal_strlit("j");
        reveal_strlit("k");
        reveal_strlit("l");
        reveal_strlit("m");
        reveal_strlit("n");
        reveal_strlit("o");
        reveal_strlit("p");
        reveal_strlit("q");
        reveal_strlit("r");
        reveal_strlit("s");
        reveal_strlit("t");
        reveal_strlit("u");
        reveal_strlit("v");
        reveal_strlit("w");
        reveal_strlit("x");
        reveal_strlit("y");
        reveal_strlit("z");
    }
    let s = match c {
        'A' => "a",
        'B' => "b",
        'C' => "c",
        'D' => "d",
        'E' => "e",
        'F' => "f",
        'G' => "g",
        'H' => "h",
        'I' => "i",
        'J' => "j",
        'K' => "k",
        'L' => "l",
        'M' => "m",
        'N' => "n",
        'O' => "o",
        'P' => "p",
        'Q' => "q",
        'R' => "r",
        'S' => "s",
        'T' => "t",
        'U' => "u",
        'V' => "v",
        'W' => "w",
        'X' => "x",
        'Y' => "y",
        _ => "z",
    };
    assert(s@ =~= seq![ascii_lower(c)]);
    s
}

/// A text with the capital letters of ASCII as small letters.
fn lowercase(s: &str) -> (r: String)
    ensures
        r@ == lower_text(s@),
{
    let n: usize = s.unicode_len();
    let mut r = String::new();
    let mut i: usize = 0;
    while i < n
        invariant
            i <= n == s@.len(),
            r@ == lower_text(s@.take(i as int)),
        decreases n - i,
    {
        let c: char = s.get_char(i);
        let code: u32 = c as u32;
        if 65 <= code && code <= 90 {
            r.append(small_letter(c));
        } else {
            let same = s.substring_char(i, i + 1);
            assert(same@ =~= seq![ascii_lower(c)]);
            r.append(same);
        }
        proof {
            let done = lower_text(s@.take(i as int));
            assert(lower_text(s@.take(i + 1)) =~= done + seq![ascii_lower(c)]);
        }
        i += 1;
    }
    assert(s@.take(i as int) =~= s@);
    r
}

/// What is said of a path by its extension.
pub open spec fn extension_outcome(extension: Option<Seq<char>>) -> Result<(), FailureView> {
    match extension {
        None => Err(
            value_error("manifest file path is missing an extension; expected .json"@),
        ),
        Some(e) => {
            let e = lower_text(e);
            if e == "json"@ {
                Ok(())
            } else if e == "csv"@ {
                Err(
                    value_error(
                        "manifest CSV ingest is a follow-up; convert to the canonical \
             JSON shape (`{{\"manifest_version\": \"1\", \"key_kind\": ..., \
             \"rows\": [...]}}`) for now"@,
                    ),
                )
            } else {
                Err(
                    value_error(
                        "unknown manifest file extension ."@ + e + "; expected .json"@,
                    ),
                )
            }
        },
    }
}

/// Refuse a path that names no JSON file.
pub fn check_extension(extension: Option<&str>) -> (r: Result<(), Failure>)
    ensures
        refused(r) == extension_outcome(
            match extension {
                Some(e) => Some(e@),
                None => None,
            },
        ),
{
    match extension {
        None => Err(
            Failure::value_error(
                String::from_str("manifest file path is missing an extension; expected .json"),
            ),
        ),
        Some(e) => {
            let e = lowercase(e);
            if same_text(e.as_str(), "json") {
                Ok(())
            } else if same_text(e.as_str(), "csv") {
                Err(
                    Failure::value_error(
                        String::from_str(
                            "manifest CSV ingest is a follow-up; convert to the canonical \
             JSON shape (`{{\"manifest_version\": \"1\", \"key_kind\": ..., \
             \"rows\": [...]}}`) for now",
                        ),
                    ),
                )
            } else {
                let mut m = String::from_str("unknown manifest file extension .");
                m.append(e.as_str());
                m.append("; expected .json");
                Err(Failure::value_error(m))
            }
        },
    }
}

// ---------------------------------------------------------------------------
// Tables as rows
// ---------------------------------------------------------------------------

/// A column of a table.
#[derive(Debug)]
pub struct ManifestColumn {
    pub name: String,
    /// It has the type of the column at its place in the first table.
    pub like_first: bool,
    /// Its type, as a refusal names it.
    pub type_text: String,
    pub cells: Vec<Cell>,
}

/// A table.
#[derive(Debug)]
pub struct ManifestBatch {
    pub rows: usize,
    pub columns: Vec<ManifestColumn>,
}

/// The mathematical value of a [`ManifestColumn`].
#[verifier::ext_equal]
pub struct ColumnView {
    pub name: Seq<char>,
    pub like_first: bool,
    pub type_text: Seq<char>,
    pub cells: Seq<ReadView>,
}

/// The mathematical value of a [`ManifestBatch`].
#[verifier::ext_equal]
pub struct BatchView {
    pub rows: nat,
    pub columns: Seq<ColumnView>,
}

impl View for ManifestColumn {
    type V = ColumnView;

    open spec fn view(&self) -> ColumnView {
        ColumnView {
            name: self.name@,
            like_first: self.like_first,
            type_text: self.type_text@,
            cells: cells_view(self.cells@),
        }
    }
}

impl View for ManifestBatch {
    type V = BatchView;

    open spec fn view(&self) -> BatchView {
        BatchView {
            rows: self.rows as nat,
            columns: self.columns@.map_values(|c: ManifestColumn| c@),
        }
    }
}

impl BatchView {
    /// Every column has a cell for every row.
    pub open spec fn wf(self) -> bool {
        forall|c: int|
            0 <= c < self.columns.len() ==> (#[trigger] self.columns[c]).cells.len() == self.rows
    }

    /// The names of the columns.
    pub open spec fn names(self) -> Seq<Seq<char>> {
        self.columns.map_values(|c: ColumnView| c.name)
    }
}

/// Tables by their mathematical value.
pub open spec fn batches_view(batches: Seq<ManifestBatch>) -> Seq<BatchView> {
    batches.map_values(|b: ManifestBatch| b@)
}

/// A value in a row.
#[derive(Debug)]
pub enum Scalar {
    Null,
    Bool(bool),
    Int(i64),
    UInt(u64),
    Text(String),
}

/// The mathematical value of a [`Scalar`].
#[verifier::ext_equal]
pub enum ScalarView {
    Null,
    Bool(bool),
    Int(i64),
    UInt(u64),
    Text(Seq<char>),
}

impl View for Scalar {
    type V = ScalarView;

    open spec fn view(&self) -> ScalarView {
        match self {
            Scalar::Null => ScalarView::Null,
            Scalar::Bool(b) => ScalarView::Bool(*b),
            Scalar::Int(n) => ScalarView::Int(*n),
            Scalar::UInt(n) => ScalarView::UInt(*n),
            Scalar::Text(t) => ScalarView::Text(t@),
        }
    }
}

/// A row by its mathematical value: its values under their names.
pub open spec fn row_view(row: Seq<(String, Scalar)>) -> Seq<(Seq<char>, ScalarView)> {
    row.map_values(|p: (String, Scalar)| (p.0@, p.1@))
}

/// Rows by their mathematical value.
pub open spec fn rows_view(rows: Seq<Vec<(String, Scalar)>>) -> Seq<Seq<(Seq<char>, ScalarView)>> {
    rows.map_values(|r: Vec<(String, Scalar)>| row_view(r@))
}

/// What a cell is in a row. A value of a type that is not read is refused.
pub open spec fn value_outcome(c: ReadView, name: Seq<char>, type_text: Seq<char>) -> Result<
    ScalarView,
    FailureView,
> {
    match c {
        ReadView::Null => Ok(ScalarView::Null),
        ReadView::Bool(b) => Ok(ScalarView::Bool(b)),
        ReadView::Int(n) => Ok(ScalarView::Int(n)),
        ReadView::UInt(n) => Ok(ScalarView::UInt(n)),
        ReadView::Text(t) => Ok(ScalarView::Text(t)),
        ReadView::Opaque => Err(
            value_error(
                "Arrow manifest column "@ + debug_text(name) + " has unsupported type "@ + type_text
                    + "; \
             use Utf8 for axis values and Int64/Utf8 for the `key` column"@,
            ),
        ),
    }
}

/// Read a cell.
pub fn column_value(cell: &Cell, name: &str, type_text: &str) -> (r: Result<Scalar, Failure>)
    ensures
        match r {
            Ok(v) => value_outcome(cell@, name@, type_text@) == Ok::<ScalarView, FailureView>(v@),
            Err(e) => value_outcome(cell@, name@, type_text@) == Err::<ScalarView, FailureView>(e@),
        },
{
    match cell {
        Cell::Null => Ok(Scalar::Null),
        Cell::Bool(b) => Ok(Scalar::Bool(*b)),
        Cell::Int(n) => Ok(Scalar::Int(*n)),
        Cell::UInt(n) => Ok(Scalar::UInt(*n)),
        Cell::Text(t) => Ok(Scalar::Text(t.clone())),
        Cell::Opaque => {
            let mut m = String::from_str("Arrow manifest column ");
            m.append(quoted(name).as_str());
            m.append(" has unsupported type ");
            m.append(type_text);
            m.append(
                "; \
             use Utf8 for axis values and Int64/Utf8 for the `key` column",
            );
            Err(Failure::value_error(m))
        },
    }
}

/// Whole numbers, truth values and text are taken, and so is a null of any
/// type: a cell is refused exactly where it holds a value of another type.
pub proof fn law_common_types_are_taken(
    k: KindView,
    c: ReadView,
    name: Seq<char>,
    type_text: Seq<char>,
)
    requires
        cell_fits(k, c),
    ensures
        value_outcome(c, name, type_text) is Ok <==> c is Null || readable(k),
{
}

/// Each value of a row under its name, or why it is refused.
pub open spec fn cell_reader(names: Seq<Seq<char>>, b: BatchView, r: int) -> spec_fn(int) -> Result<
    (Seq<char>, ScalarView),
    FailureView,
> {
    |c: int|
        match value_outcome(b.columns[c].cells[r], names[c], b.columns[c].type_text) {
            Err(e) => Err(e),
            Ok(v) => Ok((names[c], v)),
        }
}

/// Each row of a table, or why it is refused.
pub open spec fn row_reader(names: Seq<Seq<char>>, b: BatchView) -> spec_fn(int) -> Result<
    Seq<(Seq<char>, ScalarView)>,
    FailureView,
> {
    |r: int| collected(cell_reader(names, b, r), names.len())
}

/// The tables have columns of the same names and types in the same order.
pub open spec fn shares_schema(first: BatchView, b: BatchView) -> bool {
    &&& first.columns.len() == b.columns.len()
    &&& forall|c: int|
        0 <= c < b.columns.len() ==> (#[trigger] b.columns[c]).name == first.columns[c].name
            && b.columns[c].like_first
}

/// The rows of each table, or why it is refused.
pub open spec fn batch_reader(batches: Seq<BatchView>) -> spec_fn(int) -> Result<
    Seq<Seq<(Seq<char>, ScalarView)>>,
    FailureView,
> {
    |i: int|
        if !shares_schema(batches[0], batches[i]) {
            Err(
                value_error(
                    "Arrow manifest stream emitted batches with differing schemas; \
                 manifests must be uniformly columnar"@,
                ),
            )
        } else {
            collected(row_reader(batches[0].names(), batches[i]), batches[i].rows)
        }
}

/// Lists one after the other.
pub open spec fn joined<T>(s: Seq<Seq<T>>) -> Seq<T>
    decreases s.len(),
{
    if s.len() == 0 {
        Seq::empty()
    } else {
        joined(s.drop_last()) + s.last()
    }
}

/// The rows of a manifest that comes as tables: those of each table in
/// order. One of the columns is called `key`.
pub open spec fn rows_outcome(batches: Seq<BatchView>) -> Result<
    Seq<Seq<(Seq<char>, ScalarView)>>,
    FailureView,
> {
    if batches.len() == 0 {
        Ok(Seq::empty())
    } else if !batches[0].names().contains("key"@) {
        Err(
            value_error(
                "Arrow manifest must carry a column named `key`; \
             rename your image-id / label column to `key`"@,
            ),
        )
    } else {
        match collected(batch_reader(batches), batches.len()) {
            Err(e) => Err(e),
            Ok(s) => Ok(joined(s)),
        }
    }
}

/// Is there a column of this name?
fn has_column(b: &ManifestBatch, name: &str) -> (r: bool)
    ensures
        r == b@.names().contains(name@),
{
    let ghost names = b@.names();
    let mut i: usize = 0;
    while i < b.columns.len()
        invariant
            i <= b.columns.len(),
            names == b@.names(),
            forall|k: int| 0 <= k < i ==> #[trigger] names[k] != name@,
        decreases b.columns.len() - i,
    {
        if same_text(b.columns[i].name.as_str(), name) {
            assert(names[i as int] == name@);
            return true;
        }
        assert(names[i as int] != name@);
        i += 1;
    }
    false
}

/// Do two tables have the same columns?
pub fn batches_share_schema(first: &ManifestBatch, b: &ManifestBatch) -> (r: bool)
    ensures
        r == shares_schema(first@, b@),
{
    if first.columns.len() != b.columns.len() {
        return false;
    }
    let mut i: usize = 0;
    while i < b.columns.len()
        invariant
            i <= b.columns.len(),
            first@.columns.len() == b@.columns.len(),
            b@.columns.len() == b.columns@.len(),
            forall|c: int|
                0 <= c < i ==> (#[trigger] b@.columns[c]).name == first@.columns[c].name
                    && b@.columns[c].like_first,
        decreases b.columns.len() - i,
    {
        if !same_text(b.columns[i].name.as_str(), first.columns[i].name.as_str())
            || !b.columns[i].like_first {
            assert(!(b@.columns[i as int].name == first@.columns[i as int].name
                && b@.columns[i as int].like_first));
            return false;
        }
        i += 1;
    }
    true
}

/// Read one row of a table.
fn read_row(first: &ManifestBatch, b: &ManifestBatch, r: usize) -> (out: Result<
    Vec<(String, Scalar)>,
    Failure,
>)
    requires
        b@.wf(),
        shares_schema(first@, b@),
        r < b.rows,
    ensures
        match out {
            Ok(row) => row_reader(first@.names(), b@)(r as int) == Ok::<
                Seq<(Seq<char>, ScalarView)>,
                FailureView,
            >(row_view(row@)),
            Err(e) => row_reader(first@.names(), b@)(r as int) == Err::<
                Seq<(Seq<char>, ScalarView)>,
                FailureView,
            >(e@),
        },
{
    let ghost names = first@.names();
    let ghost f = cell_reader(names, b@, r as int);
    let mut row: Vec<(String, Scalar)> = Vec::new();
    let mut c: usize = 0;
    assert(row_view(row@) =~= Seq::empty());
    while c < b.columns.len()
        invariant
            c <= b.columns.len(),
            b@.wf(),
            shares_schema(first@, b@),
            r < b.rows,
            names == first@.names(),
            f == cell_reader(names, b@, r as int),
            collected(f, c as nat) == Ok::<Seq<(Seq<char>, ScalarView)>, FailureView>(
                row_view(row@),
            ),
        decreases b.columns.len() - c,
    {
        let column = &b.columns[c];
        let name = &first.columns[c].name;
        assert(b@.columns[c as int] == column@);
        assert(b@.columns[c as int].cells.len() == b@.rows);
        assert(names[c as int] == name@);
        assert(column@.cells[r as int] == column.cells@[r as int]@);
        let ghost before = row_view(row@);
        match column_value(&column.cells[r], name.as_str(), column.type_text.as_str()) {
            Err(e) => {
                proof {
                    assert(f(c as int) == Err::<(Seq<char>, ScalarView), FailureView>(e@));
                    lemma_collected_refusal(f, (c + 1) as nat, names.len());
                }
                return Err(e);
            },
            Ok(v) => {
                let ghost read = v@;
                row.push((name.clone(), v));
                proof {
                    assert(row_view(row@) =~= before.push((name@, read)));
                    assert(f(c as int) == Ok::<(Seq<char>, ScalarView), FailureView>(
                        (name@, read),
                    ));
                }
            },
        }
        c += 1;
    }
    Ok(row)
}

/// Read the rows of a table.
fn read_batch(first: &ManifestBatch, b: &ManifestBatch) -> (out: Result<
    Vec<Vec<(String, Scalar)>>,
    Failure,
>)
    requires
        b@.wf(),
        shares_schema(first@, b@),
    ensures
        match out {
            Ok(rows) => collected(row_reader(first@.names(), b@), b@.rows) == Ok::<
                Seq<Seq<(Seq<char>, ScalarView)>>,
                FailureView,
            >(rows_view(rows@)),
            Err(e) => collected(row_reader(first@.names(), b@), b@.rows) == Err::<
                Seq<Seq<(Seq<char>, ScalarView)>>,
                FailureView,
            >(e@),
        },
{
    let ghost f = row_reader(first@.names(), b@);
    let mut rows: Vec<Vec<(String, Scalar)>> = Vec::new();
    let mut r: usize = 0;
    assert(rows_view(rows@) =~= Seq::empty());
    while r < b.rows
        invariant
            r <= b.rows,
            b@.wf(),
            shares_schema(first@, b@),
            f == row_reader(first@.names(), b@),
            collected(f, r as nat) == Ok::<Seq<Seq<(Seq<char>, ScalarView)>>, FailureView>(
                rows_view(rows@),
            ),
        decreases b.rows - r,
    {
        let ghost before = rows_view(rows@);
        match read_row(first, b, r) {
            Err(e) => {
                proof {
                    assert(f(r as int) is Err);
                    lemma_collected_refusal(f, (r + 1) as nat, b@.rows);
                }
                return Err(e);
            },
            Ok(row) => {
                let ghost read = row_view(row@);
                rows.push(row);
                assert(rows_view(rows@) =~= before.push(read));
            },
        }
        r += 1;
    }
    Ok(rows)
}

/// The rows of a manifest that comes as tables.
pub fn manifest_rows(batches: &Vec<ManifestBatch>) -> (out: Result<
    Vec<Vec<(String, Scalar)>>,
    Failure,
>)
    requires
        forall|i: int| 0 <= i < batches@.len() ==> (#[trigger] batches@[i])@.wf(),
    ensures
        match out {
            Ok(rows) => rows_outcome(batches_view(batches@)) == Ok::<
                Seq<Seq<(Seq<char>, ScalarView)>>,
                FailureView,
            >(rows_view(rows@)),
            Err(e) => rows_outcome(batches_view(batches@)) == Err::<
                Seq<Seq<(Seq<char>, ScalarView)>>,
                FailureView,
            >(e@),
        },
{
    let ghost views = batches_view(batches@);
    let ghost f = batch_reader(views);
    let mut rows: Vec<Vec<(String, Scalar)>> = Vec::new();
    assert(rows_view(rows@) =~= Seq::empty());
    if batches.len() == 0 {
        return Ok(rows);
    }
    assert(views[0] == batches@[0]@);
    if !has_column(&batches[0], "key") {
        return Err(
            Failure::value_error(
                String::from_str(
                    "Arrow manifest must carry a column named `key`; \
             rename your image-id / label column to `key`",
                ),
            ),
        );
    }
    let mut i: usize = 0;
    while i < batches.len()
        invariant
            0 < batches.len(),
            i <= batches.len(),
            forall|k: int| 0 <= k < batches@.len() ==> (#[trigger] batches@[k])@.wf(),
            views == batches_view(batches@),
            views[0] == batches@[0]@,
            views[0].names().contains("key"@),
            f == batch_reader(views),
            collected(f, i as nat) is Ok,
            rows_view(rows@) == joined(collected(f, i as nat)->Ok_0),
        decreases batches.len() - i,
    {
        let ghost done = collected(f, i as nat)->Ok_0;
        assert(views[i as int] == batches@[i as int]@);
        if !batches_share_schema(&batches[0], &batches[i]) {
            let e = Failure::value_error(
                String::from_str(
                    "Arrow manifest stream emitted batches with differing schemas; \
                 manifests must be uniformly columnar",
                ),
            );
            proof {
                assert(f(i as int) == Err::<Seq<Seq<(Seq<char>, ScalarView)>>, FailureView>(e@));
                lemma_collected_refusal(f, (i + 1) as nat, views.len());
            }
            return Err(e);
        }
        match read_batch(&batches[0], &batches[i]) {
            Err(e) => {
                proof {
                    assert(f(i as int) == Err::<Seq<Seq<(Seq<char>, ScalarView)>>, FailureView>(
                        e@,
                    ));
                    lemma_collected_refusal(f, (i + 1) as nat, views.len());
                }
                return Err(e);
            },
            Ok(more) => {
                let ghost read = rows_view(more@);
                let ghost before = rows@;
                let ghost added = more@;
                let mut more = more;
                rows.append(&mut more);
                proof {
                    assert(f(i as int) == Ok::<Seq<Seq<(Seq<char>, ScalarView)>>, FailureView>(
                        read,
                    ));
                    assert(rows@ == before + added);
                    assert(rows_view(rows@) =~= rows_view(before) + read);
                    let next = done.push(read);
                    assert(next.drop_last() =~= done);
                    assert(collected(f, (i + 1) as nat)->Ok_0 == next);
                }
            },
        }
        i += 1;
    }
    Ok(rows)
}

/// Every row names the columns of the first table in order.
pub proof fn law_rows_name_every_column(batches: Seq<BatchView>)
    ensures
        rows_outcome(batches) matches Ok(rows) ==> forall|r: int|
            0 <= r < rows.len() ==> (#[trigger] rows[r]).map_values(
                |p: (Seq<char>, ScalarView)| p.0,
            ) == batches[0].names(),
{
    if batches.len() > 0 && rows_outcome(batches) is Ok {
        let f = batch_reader(batches);
        let names = batches[0].names();
        let parts = collected(f, batches.len())->Ok_0;
        lemma_collected_items(f, batches.len());
        assert forall|i: int, r: int| 0 <= i < parts.len() && 0 <= r < parts[i].len() implies (
        #[trigger] parts[i][r]).map_values(|p: (Seq<char>, ScalarView)| p.0) == names by {
            assert(f(i) == Ok::<Seq<Seq<(Seq<char>, ScalarView)>>, FailureView>(parts[i]));
            let g = row_reader(names, batches[i]);
            lemma_collected_items(g, batches[i].rows);
            assert(g(r) == Ok::<Seq<(Seq<char>, ScalarView)>, FailureView>(parts[i][r]));
            let h = cell_reader(names, batches[i], r);
            lemma_collected_items(h, names.len());
            let row = parts[i][r];
            assert forall|c: int| 0 <= c < names.len() implies (#[trigger] row[c]).0 == names[c] by {
                assert(h(c) == Ok::<(Seq<char>, ScalarView), FailureView>(row[c]));
            }
            assert(row.map_values(|p: (Seq<char>, ScalarView)| p.0) =~= names);
        }
        lemma_joined_all(parts, |row: Seq<(Seq<char>, ScalarView)>|
            row.map_values(|p: (Seq<char>, ScalarView)| p.0) == names);
        let rows = joined(parts);
        let named = |row: Seq<(Seq<char>, ScalarView)>|
            row.map_values(|p: (Seq<char>, ScalarView)| p.0) == names;
        assert forall|r: int| 0 <= r < rows.len() implies (#[trigger] rows[r]).map_values(
            |p: (Seq<char>, ScalarView)| p.0,
        ) == names by {
            assert(named(rows[r]));
        }
    }
}

/// What holds of every item of every list holds of every item of the lists
/// one after the other.
proof fn lemma_joined_all<T>(s: Seq<Seq<T>>, p: spec_fn(T) -> bool)
    requires
        forall|i: int, r: int| 0 <= i < s.len() && 0 <= r < s[i].len() ==> p(#[trigger] s[i][r]),
    ensures
        forall|r: int| 0 <= r < joined(s).len() ==> p(#[trigger] joined(s)[r]),
    decreases s.len(),
{
    if s.len() > 0 {
        let rest = s.drop_last();
        assert forall|i: int, r: int| 0 <= i < rest.len() && 0 <= r < rest[i].len() implies p(
            #[trigger] rest[i][r],
        ) by {
            assert(p(s[i][r]));
        }
        lemma_joined_all(rest, p);
        assert forall|r: int| 0 <= r < joined(s).len() implies p(#[trigger] joined(s)[r]) by {
            let n = joined(rest).len() as int;
            if r < n {
                assert(p(joined(rest)[r]));
            } else {
                assert(p(s[s.len() - 1][r - n]));
            }
        }
    }
}

/// How many rows tables have together.
pub open spec fn total_rows(batches: Seq<BatchView>) -> nat
    decreases batches.len(),
{
    if batches.len() == 0 {
        0
    } else {
        total_rows(batches.drop_last()) + batches.last().rows
    }
}

/// No row is lost and none is added.
pub proof fn law_rows_are_those_of_the_tables(batches: Seq<BatchView>)
    ensures
        rows_outcome(batches) matches Ok(rows) ==> rows.len() == total_rows(batches),
{
    if batches.len() > 0 && rows_outcome(batches) is Ok {
        lemma_joined_rows(batches, batches.len());
        assert(batches.take(batches.len() as int) =~= batches);
    }
}

proof fn lemma_joined_rows(batches: Seq<BatchView>, n: nat)
    requires
        n <= batches.len(),
        collected(batch_reader(batches), n) is Ok,
    ensures
        joined(collected(batch_reader(batches), n)->Ok_0).len() == total_rows(
            batches.take(n as int),
        ),
    decreases n,
{
    let f = batch_reader(batches);
    let parts = collected(f, n)->Ok_0;
    if n > 0 {
        let before = collected(f, (n - 1) as nat)->Ok_0;
        lemma_joined_rows(batches, (n - 1) as nat);
        let last = f(n - 1)->Ok_0;
        assert(parts == before.push(last));
        assert(parts.drop_last() =~= before);
        let g = row_reader(batches[0].names(), batches[n - 1]);
        lemma_collected_items(g, batches[n - 1].rows);
        assert(last.len() == batches[n - 1].rows);
        assert(batches.take(n as int).drop_last() =~= batches.take(n - 1));
    } else {
        assert(parts =~= Seq::empty());
        assert(batches.take(0) =~= Seq::empty());
    }
}

// ---------------------------------------------------------------------------
// The document
// ---------------------------------------------------------------------------

/// The bytes of a JSON document: an object of strings, and under one key a
/// list of objects.
pub uninterp spec fn json_document(
    head: Seq<(Seq<char>, Seq<char>)>,
    list_key: Seq<char>,
    rows: Seq<Seq<(Seq<char>, ScalarView)>>,
) -> Seq<u8>;

/// Strings under their keys by their contents.
pub open spec fn head_view(head: Seq<(String, String)>) -> Seq<(Seq<char>, Seq<char>)> {
    head.map_values(|p: (String, String)| (p.0@, p.1@))
}

/// `serde_json::to_vec` of an object of strings, and under one key a list of
/// objects. Values of `serde_json` are always written, and equal documents
/// are written equally. What the bytes are is not stated.
#[verifier::external_body]
fn encode_document(
    head: Vec<(String, String)>,
    list_key: String,
    rows: Vec<Vec<(String, Scalar)>>,
) -> (r: Result<Vec<u8>, String>)
    ensures
        r is Ok,
        r->Ok_0@ == json_document(head_view(head@), list_key@, rows_view(rows@)),
{
    let value = |v: Scalar| match v {
        Scalar::Null => Value::Null,
        Scalar::Bool(b) => b.into(),
        Scalar::Int(n) => n.into(),
        Scalar::UInt(n) => n.into(),
        Scalar::Text(t) => t.into(),
    };
    let objects = rows.into_iter().map(|r| r.into_iter().map(|(k, v)| (k, value(v))).collect());
    let list = Value::Array(objects.collect());
    let doc: Value =
        head.into_iter().map(|(k, v)| (k, v.into())).chain([(list_key, list)]).collect();
    serde_json::to_vec(&doc).map_err(|e| e.to_string())
}

/// The bytes of the manifest with these rows, whose keys are of this kind.
pub open spec fn document_bytes(
    key_kind: Seq<char>,
    rows: Seq<Seq<(Seq<char>, ScalarView)>>,
) -> Seq<u8> {
    json_document(
        seq![("manifest_version"@, "1"@), ("key_kind"@, key_kind)],
        "rows"@,
        rows,
    )
}

/// Write a manifest out.
pub fn manifest_document(key_kind: &str, rows: Vec<Vec<(String, Scalar)>>) -> (r: Result<
    Vec<u8>,
    Failure,
>)
    ensures
        r matches Ok(b) && b@ == document_bytes(key_kind@, rows_view(rows@)),
{
    let head: Vec<(String, String)> = vec![
        (String::from_str("manifest_version"), String::from_str("1")),
        (String::from_str("key_kind"), String::from_str(key_kind)),
    ];
    assert(head_view(head@) =~= seq![("manifest_version"@, "1"@), ("key_kind"@, key_kind@)]);
    match encode_document(head, String::from_str("rows"), rows) {
        Ok(b) => Ok(b),
        Err(reason) => {
            let mut m = String::from_str("manifest serialize failed: ");
            m.append(reason.as_str());
            Err(Failure::value_error(m))
        },
    }
}

// ---------------------------------------------------------------------------
// Arrow tables
// ---------------------------------------------------------------------------

/// A table of the Arrow crates: its columns and their names.
#[derive(Debug)]
pub struct ArrowBatch {
    rows: usize,
    names: Vec<String>,
    columns: Vec<ArrayData>,
}

impl ArrowBatch {
    #[verifier::type_invariant]
    spec fn wf(self) -> bool {
        &&& self.names@.len() == self.columns@.len()
        &&& forall|i: int|
            0 <= i < self.columns@.len() ==> array_cells(#[trigger] self.columns@[i]).len()
                == self.rows
    }

    /// The names of the columns.
    pub closed spec fn names(self) -> Seq<Seq<char>> {
        self.names@.map_values(|n: String| n@)
    }

    /// The columns.
    pub closed spec fn columns(self) -> Seq<ArrayData> {
        self.columns@
    }

    /// The number of rows.
    pub closed spec fn rows(self) -> nat {
        self.rows as nat
    }

    /// A table of these columns, where each has a name and a cell for every
    /// row.
    pub fn new(rows: usize, names: Vec<String>, columns: Vec<ArrayData>) -> (r: Option<ArrowBatch>)
        ensures
            r is Some <==> names@.len() == columns@.len() && forall|i: int|
                0 <= i < columns@.len() ==> array_cells(#[trigger] columns@[i]).len() == rows,
            r matches Some(b) ==> b.rows() == rows && b.columns() == columns@ && b.names()
                == names@.map_values(|n: String| n@),
    {
        if names.len() != columns.len() {
            return None;
        }
        let mut i: usize = 0;
        while i < columns.len()
            invariant
                i <= columns.len(),
                forall|k: int| 0 <= k < i ==> array_cells(#[trigger] columns@[k]).len() == rows,
            decreases columns.len() - i,
        {
            if array_len(&columns[i]) != rows {
                assert(array_cells(columns@[i as int]).len() != rows);
                return None;
            }
            i += 1;
        }
        Some(ArrowBatch { rows, names, columns })
    }
}

/// What a table holds, next to the first table.
pub open spec fn plain_batch(first: ArrowBatch, b: ArrowBatch) -> BatchView {
    BatchView {
        rows: b.rows(),
        columns: Seq::new(
            b.columns().len(),
            |i: int|
                ColumnView {
                    name: b.names()[i],
                    like_first: i < first.columns().len() && array_type(b.columns()[i])
                        == array_type(first.columns()[i]),
                    type_text: array_type_text(b.columns()[i]),
                    cells: read_column(b.columns()[i]),
                },
        ),
    }
}

/// What tables hold.
pub open spec fn plain_batches(batches: Seq<ArrowBatch>) -> Seq<BatchView> {
    batches.map_values(|b: ArrowBatch| plain_batch(batches[0], b))
}

/// Read what a table holds.
fn read_plain(first: &ArrowBatch, b: &ArrowBatch) -> (p: ManifestBatch)
    ensures
        p@ == plain_batch(*first, *b),
        p@.wf(),
{
    proof {
        use_type_invariant(first);
        use_type_invariant(b);
    }
    let mut columns: Vec<ManifestColumn> = Vec::new();
    let mut i: usize = 0;
    while i < b.columns.len()
        invariant
            i <= b.columns.len(),
            b.wf(),
            columns@.len() == i,
            forall|k: int|
                0 <= k < i ==> (#[trigger] columns@[k])@ == plain_batch(*first, *b).columns[k],
        decreases b.columns.len() - i,
    {
        let like_first = i < first.columns.len() && same_type(&b.columns[i], &first.columns[i]);
        let column = ManifestColumn {
            name: b.names[i].clone(),
            like_first,
            type_text: column_type_text(&b.columns[i]),
            cells: column_cells(&b.columns[i]),
        };
        assert(column@ == plain_batch(*first, *b).columns[i as int]);
        columns.push(column);
        i += 1;
    }
    let p = ManifestBatch { rows: b.rows, columns };
    proof {
        assert(p@.columns =~= plain_batch(*first, *b).columns);
        assert forall|c: int| 0 <= c < p@.columns.len() implies (
        #[trigger] p@.columns[c]).cells.len() == p@.rows by {
            assert(array_cells(b.columns@[c]).len() == b.rows);
        }
    }
    p
}

/// Write a manifest that comes as tables out as JSON.
pub fn record_batches_to_json_bytes(batches: &Vec<ArrowBatch>, key_kind: &str) -> (r: Result<
    Vec<u8>,
    Failure,
>)
    ensures
        match r {
            Ok(bytes) => {
                &&& rows_outcome(plain_batches(batches@)) is Ok
                &&& bytes@ == document_bytes(
                    key_kind@,
                    rows_outcome(plain_batches(batches@))->Ok_0,
                )
            },
            Err(e) => rows_outcome(plain_batches(batches@)) == Err::<
                Seq<Seq<(Seq<char>, ScalarView)>>,
                FailureView,
            >(e@),
        },
{
    let mut plain: Vec<ManifestBatch> = Vec::new();
    let mut i: usize = 0;
    while i < batches.len()
        invariant
            i <= batches.len(),
            plain@.len() == i,
            forall|k: int|
                0 <= k < i ==> (#[trigger] plain@[k])@ == plain_batches(batches@)[k]
                    && plain@[k]@.wf(),
        decreases batches.len() - i,
    {
        plain.push(read_plain(&batches[0], &batches[i]));
        i += 1;
    }
    assert(batches_view(plain@) =~= plain_batches(batches@));
    match manifest_rows(&plain) {
        Err(e) => Err(e),
        Ok(rows) => manifest_document(key_kind, rows),
    }
}

// ---------------------------------------------------------------------------
// What holds of every manifest
// ---------------------------------------------------------------------------

/// A manifest is read in the first form that it has, of a dict, a path, a
/// stream and a table, and refused where it has none.
pub proof fn law_first_form_counts(m: ManifestObject)
    ensures
        (route_outcome(m) matches Ok(r) && r is Dict) <==> m.is_dict,
        (route_outcome(m) matches Ok(r) && r is Path) <==> !m.is_dict && m.is_path,
        (route_outcome(m) matches Ok(r) && r is Stream) <==> !m.is_dict && !m.is_path
            && m.has_stream,
        (route_outcome(m) matches Ok(r) && r is Array) <==> !m.is_dict && !m.is_path
            && !m.has_stream && m.has_array,
        route_outcome(m) is Err <==> !m.is_dict && !m.is_path && !m.has_stream && !m.has_array,
{
}

/// A path is taken exactly where its extension spells `json`, in capital
/// letters or small ones.
pub proof fn law_json_files_are_taken(e: Seq<char>)
    ensures
        extension_outcome(None) is Err,
        extension_outcome(Some(e)) is Ok <==> e.len() == 4 && (e[0] == 'j' || e[0] == 'J') && (e[1]
            == 's' || e[1] == 'S') && (e[2] == 'o' || e[2] == 'O') && (e[3] == 'n' || e[3] == 'N'),
{
    reveal_strlit("json");
    reveal_strlit("csv");
    let low = lower_text(e);
    assert(low.len() == e.len());
    if e.len() == 4 {
        assert(low[0] == ascii_lower(e[0]));
        assert(low[1] == ascii_lower(e[1]));
        assert(low[2] == ascii_lower(e[2]));
        assert(low[3] == ascii_lower(e[3]));
        if (e[0] == 'j' || e[0] == 'J') && (e[1] == 's' || e[1] == 'S') && (e[2] == 'o' || e[2]
            == 'O') && (e[3] == 'n' || e[3] == 'N') {
            assert(low =~= "json"@);
        }
    }
}

/// Only the capital letters of ASCII change, each to the small letter that
/// stands 32 places after it.
pub proof fn law_small_letters_stay(s: Seq<char>, i: int)
    requires
        0 <= i < s.len(),
    ensures
        lower_text(s).len() == s.len(),
        'A' <= s[i] <= 'Z' ==> lower_text(s)[i] as int == s[i] as int + 32,
        !('A' <= s[i] <= 'Z') ==> lower_text(s)[i] == s[i],
{
}

/// A value in a row is the one that its cell holds.
pub proof fn law_values_are_those_held(
    cell: Cell,
    name: Seq<char>,
    type_text: Seq<char>,
    v: Scalar,
)
    requires
        value_outcome(cell@, name, type_text) == Ok::<ScalarView, FailureView>(v@),
    ensures
        match (cell, v) {
            (Cell::Null, Scalar::Null) => true,
            (Cell::Bool(a), Scalar::Bool(b)) => a == b,
            (Cell::Int(a), Scalar::Int(b)) => a == b,
            (Cell::UInt(a), Scalar::UInt(b)) => a == b,
            (Cell::Text(a), Scalar::Text(b)) => a@ == b@,
            _ => false,
        },
{
}

/// A row has one value for each column, under the name of the column, and the
/// value is the one that the column holds in that row.
pub proof fn law_rows_hold_their_cells(
    names: Seq<Seq<char>>,
    b: BatchView,
    r: int,
    row: Seq<(String, Scalar)>,
    c: int,
)
    requires
        row_reader(names, b)(r) == Ok::<Seq<(Seq<char>, ScalarView)>, FailureView>(row_view(row)),
        0 <= c < names.len(),
    ensures
        row.len() == names.len(),
        row[c].0@ == names[c],
        match b.columns[c].cells[r] {
            ReadView::Null => row[c].1 is Null,
            ReadView::Bool(x) => row[c].1 == Scalar::Bool(x),
            ReadView::Int(n) => row[c].1 == Scalar::Int(n),
            ReadView::UInt(n) => row[c].1 == Scalar::UInt(n),
            ReadView::Text(t) => row[c].1 matches Scalar::Text(s) && s@ == t,
            ReadView::Opaque => false,
        },
{
    let f = cell_reader(names, b, r);
    lemma_collected_items(f, names.len());
    let got = row_view(row);
    assert(got.len() == row.len());
    assert(got[c] == (row[c].0@, row[c].1@));
    assert(f(c) == Ok::<(Seq<char>, ScalarView), FailureView>(got[c]));
}

/// Tables share their columns where the names and the types agree, one by
/// one.
pub proof fn law_columns_agree_one_by_one(first: BatchView, b: BatchView, c: int)
    requires
        shares_schema(first, b),
        0 <= c < b.columns.len(),
    ensures
        first.columns.len() == b.columns.len(),
        first.columns[c].name == b.columns[c].name,
        b.columns[c].like_first,
{
}

/// Lists one after the other keep every item: that at place `r` of list `i`
/// comes after all items of the lists before.
pub proof fn law_lists_stand_one_after_the_other<T>(s: Seq<Seq<T>>, i: int, r: int)
    requires
        0 <= i < s.len(),
        0 <= r < s[i].len(),
    ensures
        joined(s.take(i)).len() + r < joined(s).len(),
        joined(s)[joined(s.take(i)).len() + r] == s[i][r],
    decreases s.len(),
{
    let rest = s.drop_last();
    if i == s.len() - 1 {
        assert(s.take(i) =~= rest);
    } else {
        law_lists_stand_one_after_the_other(rest, i, r);
        assert(rest.take(i) =~= s.take(i));
    }
}

/// The rows of tables stand in the order of the tables: row `r` of table `i`
/// comes after all rows of the tables before, and is read from that table
/// under the names of the first.
pub proof fn law_rows_stand_in_the_order_of_the_tables(batches: Seq<BatchView>, i: int, r: int)
    requires
        rows_outcome(batches) is Ok,
        0 <= i < batches.len(),
        0 <= r < batches[i].rows,
    ensures
        ({
            let rows = rows_outcome(batches)->Ok_0;
            let place = total_rows(batches.take(i)) + r;
            &&& place < rows.len()
            &&& row_reader(batches[0].names(), batches[i])(r) == Ok::<
                Seq<(Seq<char>, ScalarView)>,
                FailureView,
            >(rows[place as int])
        }),
{
    let f = batch_reader(batches);
    let n = batches.len();
    lemma_collected_items(f, n);
    let s = collected(f, n)->Ok_0;
    assert(f(i) == Ok::<Seq<Seq<(Seq<char>, ScalarView)>>, FailureView>(s[i]));
    let g = row_reader(batches[0].names(), batches[i]);
    lemma_collected_items(g, batches[i].rows);
    assert(g(r) == Ok::<Seq<(Seq<char>, ScalarView)>, FailureView>(s[i][r]));
    law_lists_stand_one_after_the_other(s, i, r);
    lemma_collected_start(f, i as nat, n);
    lemma_joined_rows(batches, i as nat);
    assert(s.take(i) == collected(f, i as nat)->Ok_0);
}

/// What is collected up to a place is the start of what is collected beyond.
proof fn lemma_collected_start<T>(f: spec_fn(int) -> Result<T, FailureView>, k: nat, n: nat)
    requires
        k <= n,
        collected(f, n) is Ok,
    ensures
        collected(f, k) is Ok,
        collected(f, k)->Ok_0 == collected(f, n)->Ok_0.take(k as int),
{
    if collected(f, k) is Err {
        lemma_collected_refusal(f, k, n);
    }
    lemma_collected_items(f, k);
    lemma_collected_items(f, n);
    let a = collected(f, k)->Ok_0;
    let b = collected(f, n)->Ok_0.take(k as int);
    assert forall|i: int| 0 <= i < k implies a[i] == b[i] by {
        assert(f(i) == Ok::<T, FailureView>(a[i]));
        assert(f(i) == Ok::<T, FailureView>(collected(f, n)->Ok_0[i]));
    }
    assert(a =~= b);
}

/// Tables without a column called `key` are refused, and no tables at all are
/// no rows.
pub proof fn law_tables_need_a_key(batches: Seq<BatchView>)
    ensures
        batches.len() == 0 ==> rows_outcome(batches) == Ok::<
            Seq<Seq<(Seq<char>, ScalarView)>>,
            FailureView,
        >(Seq::empty()),
        batches.len() > 0 && (forall|c: int|
            0 <= c < batches[0].columns.len() ==> (#[trigger] batches[0].columns[c]).name
                != "key"@) ==> rows_outcome(batches) is Err,
{
    if batches.len() > 0 && (forall|c: int|
        0 <= c < batches[0].columns.len() ==> (#[trigger] batches[0].columns[c]).name != "key"@) {
        let names = batches[0].names();
        assert forall|c: int| 0 <= c < names.len() implies names[c] != "key"@ by {
            assert(batches[0].columns[c].name != "key"@);
        }
    }
}

/// Tables that share the columns of the first, one of them called `key`, and
/// hold nothing that is not read are taken.
pub proof fn law_readable_tables_are_taken(batches: Seq<BatchView>, key: int)
    requires
        batches.len() > 0,
        0 <= key < batches[0].columns.len(),
        batches[0].columns[key].name == "key"@,
        forall|i: int| 0 <= i < batches.len() ==> shares_schema(batches[0], #[trigger] batches[i]),
        forall|i: int, c: int, r: int|
            0 <= i < batches.len() && 0 <= c < batches[0].columns.len() && 0 <= r < batches[i].rows
                ==> !((#[trigger] batches[i].columns[c].cells[r]) is Opaque),
    ensures
        rows_outcome(batches) is Ok,
{
    let names = batches[0].names();
    assert(names[key] == "key"@);
    let f = batch_reader(batches);
    assert forall|i: int| 0 <= i < batches.len() implies #[trigger] f(i) is Ok by {
        assert(shares_schema(batches[0], batches[i]));
        let g = row_reader(names, batches[i]);
        assert forall|r: int| 0 <= r < batches[i].rows implies #[trigger] g(r) is Ok by {
            let h = cell_reader(names, batches[i], r);
            assert forall|c: int| 0 <= c < names.len() implies #[trigger] h(c) is Ok by {
                assert(!(batches[i].columns[c].cells[r] is Opaque));
            }
            law_first_refusal_counts(h, names.len(), 0);
        }
        law_first_refusal_counts(g, batches[i].rows, 0);
    }
    law_first_refusal_counts(f, batches.len(), 0);
}

/// What a table of the Arrow crates holds is read column by column: its name,
/// its cells, and whether its type is that of the first table's column.
pub proof fn law_arrow_columns_are_read_one_by_one(first: ArrowBatch, b: ArrowBatch, i: int)
    requires
        0 <= i < b.columns().len(),
    ensures
        plain_batch(first, b).rows == b.rows(),
        plain_batch(first, b).columns.len() == b.columns().len(),
        plain_batch(first, b).columns[i].name == b.names()[i],
        plain_batch(first, b).columns[i].cells == read_column(b.columns()[i]),
        plain_batch(first, b).columns[i].type_text == array_type_text(b.columns()[i]),
        plain_batch(first, b).columns[i].like_first <==> i < first.columns().len() && array_type(
            b.columns()[i],
        ) == array_type(first.columns()[i]),
{
}

/// A document says its version and the kind of its keys, and holds the rows
/// under their own key.
pub proof fn law_documents_say_their_version(
    key_kind: Seq<char>,
    rows: Seq<Seq<(Seq<char>, ScalarView)>>,
)
    ensures
        document_bytes(key_kind, rows) == json_document(
            seq![("manifest_version"@, "1"@), ("key_kind"@, key_kind)],
            "rows"@,
            rows,
        ),
{
}

/// Every table is read next to the first, whatever its place.
pub proof fn law_tables_are_read_next_to_the_first(batches: Seq<ArrowBatch>, i: int, c: int)
    requires
        0 <= i < batches.len(),
        0 <= c < batches[i].columns().len(),
    ensures
        plain_batches(batches).len() == batches.len(),
        plain_batches(batches)[i].rows == batches[i].rows(),
        plain_batches(batches)[i].columns[c].name == batches[i].names()[c],
        plain_batches(batches)[i].columns[c].cells == read_column(batches[i].columns()[c]),
        plain_batches(batches)[i].columns[c].like_first <==> c < batches[0].columns().len()
            && array_type(batches[i].columns()[c]) == array_type(batches[0].columns()[c]),
{
}

/// An extension that is neither of the two known ones is named in the refusal,
/// in small letters.
pub proof fn law_unknown_extensions_are_named(e: Seq<char>)
    requires
        lower_text(e) != "json"@,
        lower_text(e) != "csv"@,
    ensures
        extension_outcome(Some(e)) == Err::<(), FailureView>(
            value_error("unknown manifest file extension ."@ + lower_text(e) + "; expected .json"@),
        ),
{
}

} // verus!
