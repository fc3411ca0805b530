//! Arrow record batches.
//!
//! A record batch belongs to the Arrow crates. What it holds is given here
//! as plain values: its columns, each with a name, a type and its cells, and
//! its metadata. A float64 is its bit pattern.

use crate::failure::{value_error, Failure};
use crate::text::{nat_text, usize_text};
use arrow_array::cast::AsArray;
use arrow_array::types::{
    Int16Type, Int32Type, Int64Type, Int8Type, UInt16Type, UInt32Type, UInt64Type, UInt8Type,
};
use arrow_array::{
    Array, ArrayRef, DictionaryArray, FixedSizeListArray, Int32Array, Int64Array, RecordBatch,
    StringArray, UInt32Array, UInt64Array,
};
use arrow_data::ArrayData;
use arrow_schema::{DataType, Field, Schema};
use std::collections::HashMap;
use std::sync::Arc;
use vstd::prelude::*;
use vstd::utf8::encode_utf8;

verus! {

#[verifier::external_type_specification]
#[verifier::external_body]
pub struct ExSchema(Schema);

/// A record batch of the Arrow crates.
#[verifier::external_body]
pub struct Batch {
    inner: RecordBatch,
}

#[verifier::external_type_specification]
#[verifier::external_body]
pub struct ExArrayData(ArrayData);

// ---------------------------------------------------------------------------
// What a batch holds
// ---------------------------------------------------------------------------

/// The type of a column whose cells can be read.
#[derive(Clone, Copy, Debug, PartialEq, Eq, Structural)]
pub enum Kind {
    Boolean,
    Int8,
    Int16,
    Int32,
    Int64,
    UInt8,
    UInt16,
    UInt32,
    UInt64,
    Utf8,
    LargeUtf8,
    Utf8View,
}

/// The type of a column.
pub enum KindView {
    Boolean,
    Int8,
    Int16,
    Int32,
    Int64,
    UInt8,
    UInt16,
    UInt32,
    UInt64,
    Float64,
    Utf8,
    LargeUtf8,
    Utf8View,
    /// Text from a fixed list, by its number.
    Labels,
    /// Four float64 in one cell.
    Quads,
    /// Any other type.
    Other,
}

impl View for Kind {
    type V = KindView;

    open spec fn view(&self) -> KindView {
        match self {
            Kind::Boolean => KindView::Boolean,
            Kind::Int8 => KindView::Int8,
            Kind::Int16 => KindView::Int16,
            Kind::Int32 => KindView::Int32,
            Kind::Int64 => KindView::Int64,
            Kind::UInt8 => KindView::UInt8,
            Kind::UInt16 => KindView::UInt16,
            Kind::UInt32 => KindView::UInt32,
            Kind::UInt64 => KindView::UInt64,
            Kind::Utf8 => KindView::Utf8,
            Kind::LargeUtf8 => KindView::LargeUtf8,
            Kind::Utf8View => KindView::Utf8View,
        }
    }
}

/// What a cell holds.
#[verifier::ext_equal]
pub enum CellView {
    Null,
    Bool(bool),
    Int(int),
    Real(u64),
    Text(Seq<char>),
    Quad(u64, u64, u64, u64),
    /// A value of a type that is not read here.
    Opaque,
}

/// What a column holds.
#[verifier::ext_equal]
pub struct ColumnView {
    pub name: Seq<char>,
    pub nullable: bool,
    pub kind: KindView,
    pub cells: Seq<CellView>,
}

/// The columns of a record batch in order.
pub uninterp spec fn batch_columns(b: Batch) -> Seq<ColumnView>;

/// The metadata of a record batch's schema.
pub uninterp spec fn batch_metadata(b: Batch) -> Map<Seq<char>, Seq<char>>;

/// The cells of an array in order.
pub uninterp spec fn array_cells(a: ArrayData) -> Seq<CellView>;

/// The type of an array.
pub uninterp spec fn array_kind(a: ArrayData) -> KindView;

/// How many bytes a list of strings takes.
pub open spec fn text_bytes(v: Seq<String>) -> nat
    decreases v.len(),
{
    if v.len() == 0 {
        0
    } else {
        text_bytes(v.drop_last()) + encode_utf8(v.last()@).len()
    }
}

/// The cells of a list of optional numbers.
pub open spec fn opt_int_cells(v: Seq<Option<i64>>) -> Seq<CellView> {
    v.map_values(
        |n: Option<i64>|
            match n {
                None => CellView::Null,
                Some(n) => CellView::Int(n as int),
            },
    )
}

/// The cells of a list of optional floats.
pub open spec fn opt_real_cells(v: Seq<Option<u64>>) -> Seq<CellView> {
    v.map_values(
        |n: Option<u64>|
            match n {
                None => CellView::Null,
                Some(bits) => CellView::Real(bits),
            },
    )
}

/// The cells of a list of strings.
pub open spec fn text_cells(v: Seq<String>) -> Seq<CellView> {
    v.map_values(|t: String| CellView::Text(t@))
}

/// The cells that numbered labels stand for.
pub open spec fn label_cells(keys: Seq<i32>, values: Seq<String>) -> Seq<CellView> {
    keys.map_values(|k: i32| CellView::Text(values[k as int]@))
}

/// Every number stands for a label.
pub open spec fn keys_in_range(keys: Seq<i32>, values: Seq<String>) -> bool {
    forall|i: int| 0 <= i < keys.len() ==> 0 <= #[trigger] keys[i] < values.len()
}

/// A null stands among the cells.
pub open spec fn has_null(cells: Seq<CellView>) -> bool {
    exists|i: int| 0 <= i < cells.len() && #[trigger] cells[i] is Null
}

/// The cells of a flat list of floats taken four by four.
pub open spec fn quad_cells(flat: Seq<u64>) -> Seq<CellView> {
    Seq::new(
        flat.len() / 4,
        |i: int|
            CellView::Quad(flat[4 * i], flat[4 * i + 1], flat[4 * i + 2], flat[4 * i + 3]),
    )
}

// ---------------------------------------------------------------------------
// Arrays
// ---------------------------------------------------------------------------

/// `Int64Array::from` a list of numbers: one cell for each.
#[verifier::external_body]
fn int64_array(v: Vec<i64>) -> (a: ArrayData)
    ensures
        array_kind(a) == KindView::Int64,
        array_cells(a) == v@.map_values(|n: i64| CellView::Int(n as int)),
{
    Int64Array::from(v).into_data()
}

/// `Int64Array::from` a list of optional numbers: one cell for each, null
/// where there is none.
#[verifier::external_body]
fn opt_int64_array(v: Vec<Option<i64>>) -> (a: ArrayData)
    ensures
        array_kind(a) == KindView::Int64,
        array_cells(a) == opt_int_cells(v@),
{
    Int64Array::from(v).into_data()
}

/// `UInt32Array::from` a list of numbers: one cell for each.
#[verifier::external_body]
fn uint32_array(v: Vec<u32>) -> (a: ArrayData)
    ensures
        array_kind(a) == KindView::UInt32,
        array_cells(a) == v@.map_values(|n: u32| CellView::Int(n as int)),
{
    UInt32Array::from(v).into_data()
}

/// `UInt64Array::from` a list of numbers: one cell for each.
#[verifier::external_body]
fn uint64_array(v: Vec<u64>) -> (a: ArrayData)
    ensures
        array_kind(a) == KindView::UInt64,
        array_cells(a) == v@.map_values(|n: u64| CellView::Int(n as int)),
{
    UInt64Array::from(v).into_data()
}

/// A float64 array over a list of bit patterns: one cell for each. The array
/// data of `UInt64Array::from` is given the type `Float64` by
/// `ArrayDataBuilder`, which has the same width, so the builder accepts it.
#[verifier::external_body]
fn float64_array(v: Vec<u64>) -> (a: ArrayData)
    ensures
        array_kind(a) == KindView::Float64,
        array_cells(a) == v@.map_values(|bits: u64| CellView::Real(bits)),
{
    let words = UInt64Array::from(v).into_data();
    words.into_builder().data_type(DataType::Float64).build().unwrap()
}

/// A float64 array over a list of optional bit patterns: one cell for each,
/// null where there is none. It is made as the one without nulls is.
#[verifier::external_body]
fn opt_float64_array(v: Vec<Option<u64>>) -> (a: ArrayData)
    ensures
        array_kind(a) == KindView::Float64,
        array_cells(a) == opt_real_cells(v@),
{
    let words = UInt64Array::from(v).into_data();
    words.into_builder().data_type(DataType::Float64).build().unwrap()
}

/// `StringArray::from` a list of strings: one cell for each. The call panics
/// where their bytes together are more than an `i32` counts.
#[verifier::external_body]
fn text_array(v: Vec<String>) -> (a: ArrayData)
    requires
        text_bytes(v@) <= i32::MAX,
    ensures
        array_kind(a) == KindView::Utf8,
        array_cells(a) == text_cells(v@),
{
    StringArray::from(v).into_data()
}

/// `DictionaryArray::try_new` over numbers and the labels that they stand
/// for: it fails exactly where a number stands for none. An error is its
/// display text.
#[verifier::external_body]
fn labels_array(keys: Vec<i32>, values: Vec<String>) -> (r: Result<ArrayData, String>)
    requires
        text_bytes(values@) <= i32::MAX,
    ensures
        r is Ok <==> keys_in_range(keys@, values@),
        r matches Ok(a) ==> array_kind(a) == KindView::Labels && array_cells(a) == label_cells(
            keys@,
            values@,
        ),
{
    let labels: ArrayRef = Arc::new(StringArray::from(values));
    let keyed = DictionaryArray::<Int32Type>::try_new(Int32Array::from(keys), labels);
    keyed.map(|d| d.into_data()).map_err(|e| e.to_string())
}

/// The cells of a float64 column taken four by four.
pub open spec fn quads_of(cells: Seq<CellView>) -> Seq<CellView> {
    Seq::new(
        cells.len() / 4,
        |i: int|
            CellView::Quad(
                cells[4 * i]->Real_0,
                cells[4 * i + 1]->Real_0,
                cells[4 * i + 2]->Real_0,
                cells[4 * i + 3]->Real_0,
            ),
    )
}

/// `FixedSizeListArray::new` of four float64 in each cell, over a float64
/// array. The call panics where the array is no multiple of four long or
/// holds a null, for the items are declared not to.
#[verifier::external_body]
fn quads_array(values: ArrayData) -> (a: ArrayData)
    requires
        array_kind(values) == KindView::Float64,
        array_cells(values).len() % 4 == 0,
        !has_null(array_cells(values)),
    ensures
        array_kind(a) == KindView::Quads,
        array_cells(a) == quads_of(array_cells(values)),
{
    let item = Arc::new(Field::new("item", DataType::Float64, false));
    FixedSizeListArray::new(item, 4, arrow_array::make_array(values), None).into_data()
}

// ---------------------------------------------------------------------------
// Building a batch
// ---------------------------------------------------------------------------

/// Columns that make a batch: all of one length, and nulls only where they
/// are declared.
pub open spec fn columns_agree(columns: Seq<ColumnView>) -> bool {
    forall|i: int|
        0 <= i < columns.len() ==> {
            &&& (#[trigger] columns[i]).cells.len() == columns[0].cells.len()
            &&& !columns[i].nullable ==> !has_null(columns[i].cells)
        }
}

/// Pairs of strings as a map: of two with one key the later counts.
pub open spec fn pairs_map(pairs: Seq<(String, String)>) -> Map<Seq<char>, Seq<char>>
    decreases pairs.len(),
{
    if pairs.len() == 0 {
        Map::empty()
    } else {
        pairs_map(pairs.drop_last()).insert(pairs.last().0@, pairs.last().1@)
    }
}

/// Columns made of names, nullability and arrays.
pub open spec fn zipped_columns(
    names: Seq<String>,
    nullable: Seq<bool>,
    arrays: Seq<ArrayData>,
) -> Seq<ColumnView> {
    Seq::new(
        names.len(),
        |i: int|
            ColumnView {
                name: names[i]@,
                nullable: nullable[i],
                kind: array_kind(arrays[i]),
                cells: array_cells(arrays[i]),
            },
    )
}

/// A type that a column which is being built can have.
pub open spec fn buildable_kind(k: KindView) -> bool {
    match k {
        KindView::Int64 | KindView::UInt32 | KindView::UInt64 | KindView::Float64 => true,
        KindView::Utf8 | KindView::Labels | KindView::Quads => true,
        _ => false,
    }
}

/// `RecordBatch::try_new` over a schema of these names, the arrays' own types
/// and this nullability and metadata.
///
/// With as many fields as columns and the columns' own types, it fails
/// exactly where two columns differ in length or a column that is not
/// nullable holds a null. An error is its display text. The arrays come by
/// `make_array`, which panics on array data of some other types.
#[verifier::external_body]
fn record_batch(
    names: Vec<String>,
    nullable: Vec<bool>,
    arrays: Vec<ArrayData>,
    metadata: Vec<(String, String)>,
) -> (r: Result<Batch, String>)
    requires
        names@.len() == nullable@.len() == arrays@.len(),
        names@.len() >= 1,
        forall|i: int| 0 <= i < arrays@.len() ==> buildable_kind(array_kind(#[trigger] arrays@[i])),
    ensures
        r is Ok <==> columns_agree(zipped_columns(names@, nullable@, arrays@)),
        r matches Ok(b) ==> batch_columns(b) == zipped_columns(names@, nullable@, arrays@)
            && batch_metadata(b) == pairs_map(metadata@),
{
    let arrays: Vec<ArrayRef> = arrays.into_iter().map(arrow_array::make_array).collect();
    let headers = names.into_iter().zip(nullable).zip(&arrays);
    let fields: Vec<Field> = headers
        .map(|((name, nullable), a)| Field::new(name, a.data_type().clone(), nullable))
        .collect();
    let schema = Schema::new(fields).with_metadata(metadata.into_iter().collect::<HashMap<_, _>>());
    let built = RecordBatch::try_new(Arc::new(schema), arrays);
    built.map(|inner| Batch { inner }).map_err(|e| e.to_string())
}

/// The cells of a column that is being built.
#[derive(Debug)]
pub enum Cells {
    Int64(Vec<i64>),
    OptInt64(Vec<Option<i64>>),
    UInt32(Vec<u32>),
    UInt64(Vec<u64>),
    Float64(Vec<u64>),
    OptFloat64(Vec<Option<u64>>),
    Text(Vec<String>),
    /// Numbers and the labels that they stand for.
    Labels(Vec<i32>, Vec<String>),
    /// Floats, four for each cell.
    Quads(Vec<u64>),
}

impl Cells {
    /// The type of the column.
    pub open spec fn kind(self) -> KindView {
        match self {
            Cells::Int64(_) => KindView::Int64,
            Cells::OptInt64(_) => KindView::Int64,
            Cells::UInt32(_) => KindView::UInt32,
            Cells::UInt64(_) => KindView::UInt64,
            Cells::Float64(_) => KindView::Float64,
            Cells::OptFloat64(_) => KindView::Float64,
            Cells::Text(_) => KindView::Utf8,
            Cells::Labels(_, _) => KindView::Labels,
            Cells::Quads(_) => KindView::Quads,
        }
    }

    /// The cells in order.
    pub open spec fn cells(self) -> Seq<CellView> {
        match self {
            Cells::Int64(v) => v@.map_values(|n: i64| CellView::Int(n as int)),
            Cells::OptInt64(v) => opt_int_cells(v@),
            Cells::UInt32(v) => v@.map_values(|n: u32| CellView::Int(n as int)),
            Cells::UInt64(v) => v@.map_values(|n: u64| CellView::Int(n as int)),
            Cells::Float64(v) => v@.map_values(|bits: u64| CellView::Real(bits)),
            Cells::OptFloat64(v) => opt_real_cells(v@),
            Cells::Text(v) => text_cells(v@),
            Cells::Labels(keys, values) => label_cells(keys@, values@),
            Cells::Quads(flat) => quad_cells(flat@),
        }
    }

    /// Text that an `i32` counts, and floats in fours.
    pub open spec fn fits(self) -> bool {
        match self {
            Cells::Text(v) => text_bytes(v@) <= i32::MAX,
            Cells::Labels(_, values) => text_bytes(values@) <= i32::MAX,
            Cells::Quads(flat) => flat@.len() % 4 == 0,
            _ => true,
        }
    }

    /// Every number stands for a label.
    pub open spec fn labelled(self) -> bool {
        self matches Cells::Labels(keys, values) ==> keys_in_range(keys@, values@)
    }

    /// The array of these cells.
    fn into_array(self) -> (r: Result<ArrayData, String>)
        requires
            self.fits(),
        ensures
            r is Ok <==> self.labelled(),
            r matches Ok(a) ==> array_kind(a) == self.kind() && array_cells(a) == self.cells(),
    {
        match self {
            Cells::Int64(v) => Ok(int64_array(v)),
            Cells::OptInt64(v) => Ok(opt_int64_array(v)),
            Cells::UInt32(v) => Ok(uint32_array(v)),
            Cells::UInt64(v) => Ok(uint64_array(v)),
            Cells::Float64(v) => Ok(float64_array(v)),
            Cells::OptFloat64(v) => Ok(opt_float64_array(v)),
            Cells::Text(v) => Ok(text_array(v)),
            Cells::Labels(keys, values) => labels_array(keys, values),
            Cells::Quads(flat) => {
                let ghost floats = flat@;
                let values = float64_array(flat);
                let ghost cells = array_cells(values);
                let a = quads_array(values);
                proof {
                    assert forall|i: int| 0 <= i < floats.len() implies #[trigger] cells[i]
                        == CellView::Real(floats[i]) by {}
                    assert(quads_of(cells) =~= quad_cells(floats));
                }
                Ok(a)
            },
        }
    }
}

/// A column that is being built.
#[derive(Debug)]
pub struct TableColumn {
    pub name: &'static str,
    pub nullable: bool,
    pub cells: Cells,
}

impl View for TableColumn {
    type V = ColumnView;

    open spec fn view(&self) -> ColumnView {
        ColumnView {
            name: self.name@,
            nullable: self.nullable,
            kind: self.cells.kind(),
            cells: self.cells.cells(),
        }
    }
}

/// Columns by what they hold.
pub open spec fn columns_view(columns: Seq<TableColumn>) -> Seq<ColumnView> {
    columns.map_values(|c: TableColumn| c@)
}

/// The columns make a batch.
pub open spec fn buildable(columns: Seq<TableColumn>) -> bool {
    &&& forall|i: int| 0 <= i < columns.len() ==> (#[trigger] columns[i]).cells.labelled()
    &&& columns_agree(columns_view(columns))
}

/// Build a batch of these columns and metadata, or say why it cannot be
/// built.
pub fn build_batch(columns: Vec<TableColumn>, metadata: Vec<(String, String)>) -> (r: Result<
    Batch,
    String,
>)
    requires
        columns@.len() >= 1,
        forall|i: int| 0 <= i < columns@.len() ==> (#[trigger] columns@[i]).cells.fits(),
    ensures
        r is Ok <==> buildable(columns@),
        r matches Ok(b) ==> batch_columns(b) == columns_view(columns@) && batch_metadata(b)
            == pairs_map(metadata@),
{
    let ghost given = columns@;
    let mut names: Vec<String> = Vec::new();
    let mut nullable: Vec<bool> = Vec::new();
    let mut arrays: Vec<ArrayData> = Vec::new();
    for column in iter: columns
        invariant
            iter.seq() == given,
            forall|i: int| 0 <= i < given.len() ==> (#[trigger] given[i]).cells.fits(),
            names@.len() == nullable@.len() == arrays@.len() == iter.index(),
            forall|i: int|
                0 <= i < names@.len() ==> {
                    &&& (#[trigger] given[i]).cells.labelled()
                    &&& names@[i]@ == given[i].name@
                    &&& nullable@[i] == given[i].nullable
                    &&& array_kind(arrays@[i]) == given[i].cells.kind()
                    &&& array_cells(arrays@[i]) == given[i].cells.cells()
                },
    {
        let ghost at = names@.len() as int;
        names.push(String::from_str(column.name));
        nullable.push(column.nullable);
        assert(given[at] == column);
        match column.cells.into_array() {
            Ok(array) => arrays.push(array),
            Err(reason) => {
                assert(!given[at].cells.labelled());
                return Err(reason);
            },
        }
    }
    proof {
        assert(zipped_columns(names@, nullable@, arrays@) =~= columns_view(given));
        assert forall|i: int| 0 <= i < arrays@.len() implies buildable_kind(
            array_kind(#[trigger] arrays@[i]),
        ) by {
            assert(array_kind(arrays@[i]) == given[i].cells.kind());
        }
    }
    record_batch(names, nullable, arrays, metadata)
}

// ---------------------------------------------------------------------------
// Handing a batch out
// ---------------------------------------------------------------------------

/// The children of an array in order: the columns, where it is a struct.
pub uninterp spec fn struct_columns(a: ArrayData) -> Seq<ColumnView>;

/// The fields of a schema in order: name, nullability and type.
pub uninterp spec fn schema_fields(s: Schema) -> Seq<(Seq<char>, bool, KindView)>;

/// The metadata of a schema.
pub uninterp spec fn schema_metadata(s: Schema) -> Map<Seq<char>, Seq<char>>;

/// The fields of columns: name, nullability and type.
pub open spec fn fields_of(columns: Seq<ColumnView>) -> Seq<(Seq<char>, bool, KindView)> {
    columns.map_values(|c: ColumnView| (c.name, c.nullable, c.kind))
}

/// `StructArray::from` a record batch, as array data: the same columns, and
/// as many cells as a column has.
#[verifier::external_body]
fn struct_data(b: &Batch) -> (a: ArrayData)
    ensures
        struct_columns(a) == batch_columns(*b),
        batch_columns(*b).len() > 0 ==> array_cells(a).len() == batch_columns(*b)[0].cells.len(),
{
    arrow_array::StructArray::from(b.inner.clone()).into_data()
}

/// `RecordBatch::schema`: the fields and the metadata of the batch.
#[verifier::external_body]
fn schema_of(b: &Batch) -> (s: Schema)
    ensures
        schema_fields(s) == fields_of(batch_columns(*b)),
        schema_metadata(s) == batch_metadata(*b),
{
    b.inner.schema().as_ref().clone()
}

/// `ArrayData::len`: the number of cells.
#[verifier::external_body]
pub(crate) fn array_len(a: &ArrayData) -> (n: usize)
    ensures
        n == array_cells(*a).len(),
{
    a.len()
}

/// `ArrayData::child_data`: the number of children.
#[verifier::external_body]
fn struct_width(a: &ArrayData) -> (n: usize)
    ensures
        n == struct_columns(*a).len(),
{
    a.child_data().len()
}

/// A batch in the form in which it is exported: as one struct array, and
/// with its schema, because array data carries no metadata.
#[derive(Debug)]
pub struct ArrowRecordBatch {
    pub data: ArrayData,
    pub schema: Schema,
}

/// Put a batch into the form in which it is exported.
pub fn wrap_batch(b: Batch) -> (w: ArrowRecordBatch)
    ensures
        struct_columns(w.data) == batch_columns(b),
        batch_columns(b).len() > 0 ==> array_cells(w.data).len() == batch_columns(b)[0].cells.len(),
        schema_fields(w.schema) == fields_of(batch_columns(b)),
        schema_metadata(w.schema) == batch_metadata(b),
{
    ArrowRecordBatch { data: struct_data(&b), schema: schema_of(&b) }
}

/// What is said of a batch that could not be built.
pub open spec fn build_refusal(reason: Seq<char>) -> Seq<char> {
    "arrow record batch build failed: "@ + reason
}

/// The refusal of a batch that could not be built.
pub fn arrow_err(reason: &str) -> (e: Failure)
    ensures
        e@ == value_error(build_refusal(reason@)),
{
    let mut m = String::from_str("arrow record batch build failed: ");
    m.append(reason);
    Failure::value_error(m)
}

/// A batch in the form in which it is exported holds these columns and this
/// metadata.
pub open spec fn exports(
    w: ArrowRecordBatch,
    columns: Seq<ColumnView>,
    metadata: Map<Seq<char>, Seq<char>>,
) -> bool {
    &&& struct_columns(w.data) == columns
    &&& columns.len() > 0 ==> array_cells(w.data).len() == columns[0].cells.len()
    &&& schema_fields(w.schema) == fields_of(columns)
    &&& schema_metadata(w.schema) == metadata
}

/// Put a batch that was built into the form in which it is exported, and
/// refuse one that could not be built.
pub fn export(built: Result<Batch, String>) -> (r: Result<ArrowRecordBatch, Failure>)
    ensures
        match (built, r) {
            (Ok(b), Ok(w)) => exports(w, batch_columns(b), batch_metadata(b)),
            (Err(reason), Err(e)) => e@ == value_error(build_refusal(reason@)),
            _ => false,
        },
{
    match built {
        Ok(b) => Ok(wrap_batch(b)),
        Err(reason) => Err(arrow_err(reason.as_str())),
    }
}

/// The description of a batch with so many rows and columns.
pub open spec fn batch_text(rows: nat, columns: nat) -> Seq<char> {
    "ArrowRecordBatch(rows="@ + nat_text(rows) + ", columns="@ + nat_text(columns) + ")"@
}

/// The description of a batch with so many rows and columns.
pub fn batch_repr(rows: usize, columns: usize) -> (s: String)
    ensures
        s@ == batch_text(rows as nat, columns as nat),
{
    let mut s = String::from_str("ArrowRecordBatch(rows=");
    s.append(usize_text(rows).as_str());
    s.append(", columns=");
    s.append(usize_text(columns).as_str());
    s.append(")");
    s
}

impl ArrowRecordBatch {
    /// A short description.
    pub fn repr(&self) -> (s: String)
        ensures
            s@ == batch_text(array_cells(self.data).len(), struct_columns(self.data).len()),
    {
        batch_repr(array_len(&self.data), struct_width(&self.data))
    }
}

// ---------------------------------------------------------------------------
// Reading a column
// ---------------------------------------------------------------------------

/// What a cell of a column that is read holds.
#[derive(Debug)]
pub enum Cell {
    Null,
    Bool(bool),
    Int(i64),
    UInt(u64),
    Text(String),
    /// A value of a type that is not read.
    Opaque,
}

/// The mathematical value of a [`Cell`].
#[verifier::ext_equal]
pub enum ReadView {
    Null,
    Bool(bool),
    Int(i64),
    UInt(u64),
    Text(Seq<char>),
    Opaque,
}

impl View for Cell {
    type V = ReadView;

    open spec fn view(&self) -> ReadView {
        match self {
            Cell::Null => ReadView::Null,
            Cell::Bool(b) => ReadView::Bool(*b),
            Cell::Int(n) => ReadView::Int(*n),
            Cell::UInt(n) => ReadView::UInt(*n),
            Cell::Text(t) => ReadView::Text(t@),
            Cell::Opaque => ReadView::Opaque,
        }
    }
}

/// Cells by their mathematical value.
pub open spec fn cells_view(cells: Seq<Cell>) -> Seq<ReadView> {
    cells.map_values(|c: Cell| c@)
}

/// A type whose cells are read.
pub open spec fn readable(k: KindView) -> bool {
    match k {
        KindView::Int8 | KindView::Int16 | KindView::Int32 | KindView::Int64 => true,
        KindView::UInt8 | KindView::UInt16 | KindView::UInt32 | KindView::UInt64 => true,
        KindView::Boolean | KindView::Utf8 | KindView::LargeUtf8 | KindView::Utf8View => true,
        _ => false,
    }
}

/// What reading a cell of a column of this type gives: numbers of 64 bits
/// without a sign as such, other numbers with a sign.
pub open spec fn read_cell(k: KindView, c: CellView) -> ReadView {
    if c is Null {
        ReadView::Null
    } else if !readable(k) {
        ReadView::Opaque
    } else {
        match c {
            CellView::Bool(b) => ReadView::Bool(b),
            CellView::Int(n) => if k is UInt64 {
                ReadView::UInt(n as u64)
            } else {
                ReadView::Int(n as i64)
            },
            CellView::Text(t) => ReadView::Text(t),
            _ => ReadView::Opaque,
        }
    }
}

/// What a cell of a column of this type reads as: null, or a value of the
/// column's sort.
pub open spec fn cell_fits(k: KindView, c: ReadView) -> bool {
    match c {
        ReadView::Null => true,
        ReadView::Bool(_) => k is Boolean,
        ReadView::Int(_) => match k {
            KindView::Int8 | KindView::Int16 | KindView::Int32 | KindView::Int64 => true,
            KindView::UInt8 | KindView::UInt16 | KindView::UInt32 => true,
            _ => false,
        },
        ReadView::UInt(_) => k is UInt64,
        ReadView::Text(_) => k is Utf8 || k is LargeUtf8 || k is Utf8View,
        ReadView::Opaque => !readable(k),
    }
}

/// What reading a column gives.
pub open spec fn read_column(a: ArrayData) -> Seq<ReadView> {
    array_cells(a).map_values(|c: CellView| read_cell(array_kind(a), c))
}

/// A number for the type of an array: equal types have equal numbers.
pub uninterp spec fn array_type(a: ArrayData) -> nat;

/// The debug rendering of the type of an array.
pub uninterp spec fn array_type_text(a: ArrayData) -> Seq<char>;

/// An optional string as a cell.
pub open spec fn text_cell(t: Option<String>) -> CellView {
    match t {
        None => CellView::Null,
        Some(t) => CellView::Text(t@),
    }
}

/// `ArrayData::data_type`: the type of a column where it is one that is
/// read.
#[verifier::external_body]
fn column_kind(a: &ArrayData) -> (k: Option<Kind>)
    ensures
        match k {
            Some(k) => array_kind(*a) == k@,
            None => !readable(array_kind(*a)),
        },
{
    match a.data_type() {
        DataType::Boolean => Some(Kind::Boolean),
        DataType::Int8 => Some(Kind::Int8),
        DataType::Int16 => Some(Kind::Int16),
        DataType::Int32 => Some(Kind::Int32),
        DataType::Int64 => Some(Kind::Int64),
        DataType::UInt8 => Some(Kind::UInt8),
        DataType::UInt16 => Some(Kind::UInt16),
        DataType::UInt32 => Some(Kind::UInt32),
        DataType::UInt64 => Some(Kind::UInt64),
        DataType::Utf8 => Some(Kind::Utf8),
        DataType::LargeUtf8 => Some(Kind::LargeUtf8),
        DataType::Utf8View => Some(Kind::Utf8View),
        _ => None,
    }
}

/// The debug rendering of a `DataType`. The contract claims only that the
/// same array gives the same text.
#[verifier::external_body]
pub(crate) fn column_type_text(a: &ArrayData) -> (s: String)
    ensures
        s@ == array_type_text(*a),
{
    format!("{:?}", a.data_type())
}

/// Equality of two `DataType`s.
#[verifier::external_body]
pub(crate) fn same_type(a: &ArrayData, b: &ArrayData) -> (r: bool)
    ensures
        r == (array_type(*a) == array_type(*b)),
{
    a.data_type() == b.data_type()
}

/// `BooleanArray::iter`: the cells of such a column in order. The call panics
/// on a column of another type.
#[verifier::external_body]
fn bool_cells(a: &ArrayData) -> (v: Vec<Option<bool>>)
    requires
        array_kind(*a) == KindView::Boolean,
    ensures
        v@.map_values(
            |b: Option<bool>|
                match b {
                    None => CellView::Null,
                    Some(b) => CellView::Bool(b),
                },
        ) == array_cells(*a),
{
    arrow_array::make_array(a.clone()).as_boolean().iter().collect()
}

/// `PrimitiveArray::<Int8Type>::iter`: the cells of such a column in order. The
/// call panics on a column of another type.
#[verifier::external_body]
fn int8_cells(a: &ArrayData) -> (v: Vec<Option<i64>>)
    requires
        array_kind(*a) == KindView::Int8,
    ensures
        opt_int_cells(v@) == array_cells(*a),
{
    let array = arrow_array::make_array(a.clone());
    array.as_primitive::<Int8Type>().iter().map(|n| n.map(i64::from)).collect()
}

/// `PrimitiveArray::<Int16Type>::iter`: the cells of such a column in order. The
/// call panics on a column of another type.
#[verifier::external_body]
fn int16_cells(a: &ArrayData) -> (v: Vec<Option<i64>>)
    requires
        array_kind(*a) == KindView::Int16,
    ensures
        opt_int_cells(v@) == array_cells(*a),
{
    let array = arrow_array::make_array(a.clone());
    array.as_primitive::<Int16Type>().iter().map(|n| n.map(i64::from)).collect()
}

/// `PrimitiveArray::<Int32Type>::iter`: the cells of such a column in order. The
/// call panics on a column of another type.
#[verifier::external_body]
fn int32_cells(a: &ArrayData) -> (v: Vec<Option<i64>>)
    requires
        array_kind(*a) == KindView::Int32,
    ensures
        opt_int_cells(v@) == array_cells(*a),
{
    let array = arrow_array::make_array(a.clone());
    array.as_primitive::<Int32Type>().iter().map(|n| n.map(i64::from)).collect()
}

/// `PrimitiveArray::<Int64Type>::iter`: the cells of such a column in order. The
/// call panics on a column of another type.
#[verifier::external_body]
fn int64_cells(a: &ArrayData) -> (v: Vec<Option<i64>>)
    requires
        array_kind(*a) == KindView::Int64,
    ensures
        opt_int_cells(v@) == array_cells(*a),
{
    arrow_array::make_array(a.clone()).as_primitive::<Int64Type>().iter().collect()
}

/// `PrimitiveArray::<UInt8Type>::iter`: the cells of such a column in order. The
/// call panics on a column of another type.
#[verifier::external_body]
fn uint8_cells(a: &ArrayData) -> (v: Vec<Option<i64>>)
    requires
        array_kind(*a) == KindView::UInt8,
    ensures
        opt_int_cells(v@) == array_cells(*a),
{
    let array = arrow_array::make_array(a.clone());
    array.as_primitive::<UInt8Type>().iter().map(|n| n.map(i64::from)).collect()
}

/// `PrimitiveArray::<UInt16Type>::iter`: the cells of such a column in order. The
/// call panics on a column of another type.
#[verifier::external_body]
fn uint16_cells(a: &ArrayData) -> (v: Vec<Option<i64>>)
    requires
        array_kind(*a) == KindView::UInt16,
    ensures
        opt_int_cells(v@) == array_cells(*a),
{
    let array = arrow_array::make_array(a.clone());
    array.as_primitive::<UInt16Type>().iter().map(|n| n.map(i64::from)).collect()
}

/// `PrimitiveArray::<UInt32Type>::iter`: the cells of such a column in order. The
/// call panics on a column of another type.
#[verifier::external_body]
fn uint32_cells(a: &ArrayData) -> (v: Vec<Option<i64>>)
    requires
        array_kind(*a) == KindView::UInt32,
    ensures
        opt_int_cells(v@) == array_cells(*a),
{
    let array = arrow_array::make_array(a.clone());
    array.as_primitive::<UInt32Type>().iter().map(|n| n.map(i64::from)).collect()
}

/// `PrimitiveArray::<UInt64Type>::iter`: the cells of such a column in order. The
/// call panics on a column of another type.
#[verifier::external_body]
fn uint64_cells(a: &ArrayData) -> (v: Vec<Option<u64>>)
    requires
        array_kind(*a) == KindView::UInt64,
    ensures
        v@.map_values(
            |n: Option<u64>|
                match n {
                    None => CellView::Null,
                    Some(n) => CellView::Int(n as int),
                },
        ) == array_cells(*a),
{
    arrow_array::make_array(a.clone()).as_primitive::<UInt64Type>().iter().collect()
}

/// `StringArray::iter`: the cells of such a column in order. The call panics on
/// a column of another type.
#[verifier::external_body]
fn utf8_cells(a: &ArrayData) -> (v: Vec<Option<String>>)
    requires
        array_kind(*a) == KindView::Utf8,
    ensures
        v@.map_values(|t: Option<String>| text_cell(t)) == array_cells(*a),
{
    let array = arrow_array::make_array(a.clone());
    array.as_string::<i32>().iter().map(|t| t.map(str::to_owned)).collect()
}

/// `LargeStringArray::iter`: the cells of such a column in order. The call panics on
/// a column of another type.
#[verifier::external_body]
fn large_utf8_cells(a: &ArrayData) -> (v: Vec<Option<String>>)
    requires
        array_kind(*a) == KindView::LargeUtf8,
    ensures
        v@.map_values(|t: Option<String>| text_cell(t)) == array_cells(*a),
{
    let array = arrow_array::make_array(a.clone());
    array.as_string::<i64>().iter().map(|t| t.map(str::to_owned)).collect()
}

/// `StringViewArray::iter`: the cells of such a column in order. The call panics on
/// a column of another type.
#[verifier::external_body]
fn utf8_view_cells(a: &ArrayData) -> (v: Vec<Option<String>>)
    requires
        array_kind(*a) == KindView::Utf8View,
    ensures
        v@.map_values(|t: Option<String>| text_cell(t)) == array_cells(*a),
{
    let array = arrow_array::make_array(a.clone());
    array.as_string_view().iter().map(|t| t.map(str::to_owned)).collect()
}

/// `ArrayData::is_null`: whether a cell is null. The call panics on a place
/// past the cells.
#[verifier::external_body]
fn cell_is_null(a: &ArrayData, i: usize) -> (null: bool)
    requires
        i < array_cells(*a).len(),
    ensures
        null == (array_cells(*a)[i as int] is Null),
{
    a.is_null(i)
}

/// Cells of optional truth values.
fn from_bools(v: Vec<Option<bool>>) -> (cells: Vec<Cell>)
    ensures
        cells_view(cells@) == v@.map_values(
            |b: Option<bool>|
                match b {
                    None => ReadView::Null,
                    Some(b) => ReadView::Bool(b),
                },
        ),
{
    let mut cells: Vec<Cell> = Vec::new();
    let mut i: usize = 0;
    while i < v.len()
        invariant
            i <= v.len(),
            cells@.len() == i,
            forall|k: int|
                0 <= k < i ==> (#[trigger] cells@[k])@ == (match v@[k] {
                    None => ReadView::Null,
                    Some(b) => ReadView::Bool(b),
                }),
        decreases v.len() - i,
    {
        match v[i] {
            None => cells.push(Cell::Null),
            Some(b) => cells.push(Cell::Bool(b)),
        }
        i += 1;
    }
    cells
}

/// Cells of optional numbers.
fn from_i64s(v: Vec<Option<i64>>) -> (cells: Vec<Cell>)
    ensures
        cells_view(cells@) == v@.map_values(
            |n: Option<i64>|
                match n {
                    None => ReadView::Null,
                    Some(n) => ReadView::Int(n),
                },
        ),
{
    let mut cells: Vec<Cell> = Vec::new();
    let mut i: usize = 0;
    while i < v.len()
        invariant
            i <= v.len(),
            cells@.len() == i,
            forall|k: int|
                0 <= k < i ==> (#[trigger] cells@[k])@ == (match v@[k] {
                    None => ReadView::Null,
                    Some(n) => ReadView::Int(n as i64),
                }),
        decreases v.len() - i,
    {
        match v[i] {
            None => cells.push(Cell::Null),
            Some(n) => cells.push(Cell::Int(n as i64)),
        }
        i += 1;
    }
    cells
}

/// Cells of optional numbers.
fn from_u64s(v: Vec<Option<u64>>) -> (cells: Vec<Cell>)
    ensures
        cells_view(cells@) == v@.map_values(
            |n: Option<u64>|
                match n {
                    None => ReadView::Null,
                    Some(n) => ReadView::UInt(n as u64),
                },
        ),
{
    let mut cells: Vec<Cell> = Vec::new();
    let mut i: usize = 0;
    while i < v.len()
        invariant
            i <= v.len(),
            cells@.len() == i,
            forall|k: int|
                0 <= k < i ==> (#[trigger] cells@[k])@ == (match v@[k] {
                    None => ReadView::Null,
                    Some(n) => ReadView::UInt(n as u64),
                }),
        decreases v.len() - i,
    {
        match v[i] {
            None => cells.push(Cell::Null),
            Some(n) => cells.push(Cell::UInt(n as u64)),
        }
        i += 1;
    }
    cells
}

/// Cells of optional strings.
fn from_texts(v: Vec<Option<String>>) -> (cells: Vec<Cell>)
    ensures
        cells_view(cells@) == v@.map_values(
            |t: Option<String>|
                match t {
                    None => ReadView::Null,
                    Some(t) => ReadView::Text(t@),
                },
        ),
{
    let ghost given = v@;
    let mut cells: Vec<Cell> = Vec::new();
    for t in iter: v
        invariant
            iter.seq() == given,
            cells@.len() == iter.index(),
            forall|k: int|
                0 <= k < cells@.len() ==> (#[trigger] cells@[k])@ == (match given[k] {
                    None => ReadView::Null,
                    Some(t) => ReadView::Text(t@),
                }),
    {
        match t {
            None => cells.push(Cell::Null),
            Some(t) => cells.push(Cell::Text(t)),
        }
    }
    cells
}

/// Cells of a column that is not read.
fn opaque_column(a: &ArrayData) -> (cells: Vec<Cell>)
    requires
        !readable(array_kind(*a)),
    ensures
        cells_view(cells@) == read_column(*a),
        forall|i: int| 0 <= i < cells@.len() ==> cell_fits(array_kind(*a), (#[trigger] cells@[i])@),
{
    let n: usize = array_len(a);
    let mut cells: Vec<Cell> = Vec::new();
    let mut i: usize = 0;
    while i < n
        invariant
            i <= n == array_cells(*a).len(),
            !readable(array_kind(*a)),
            cells@.len() == i,
            forall|k: int|
                0 <= k < i ==> (#[trigger] cells@[k])@ == read_cell(
                    array_kind(*a),
                    array_cells(*a)[k],
                ),
        decreases n - i,
    {
        if cell_is_null(a, i) {
            cells.push(Cell::Null);
        } else {
            cells.push(Cell::Opaque);
        }
        i += 1;
    }
    assert(cells_view(cells@) =~= read_column(*a));
    cells
}

/// Cells of a column of whole numbers, given the numbers.
fn int_column(a: &ArrayData, v: Vec<Option<i64>>) -> (cells: Vec<Cell>)
    requires
        opt_int_cells(v@) == array_cells(*a),
        cell_fits(array_kind(*a), ReadView::Int(0)),
    ensures
        cells_view(cells@) == read_column(*a),
        forall|i: int| 0 <= i < cells@.len() ==> cell_fits(array_kind(*a), (#[trigger] cells@[i])@),
{
    proof {
        let held = array_cells(*a);
        assert forall|i: int| 0 <= i < v@.len() implies #[trigger] held[i] == (match v@[i] {
            None => CellView::Null,
            Some(n) => CellView::Int(n as int),
        }) by {}
        assert(v@.len() == held.len());
    }
    let cells = from_i64s(v);
    proof {
        assert(cells_view(cells@) =~= read_column(*a));
        assert forall|i: int| 0 <= i < cells@.len() implies cell_fits(
            array_kind(*a),
            (#[trigger] cells@[i])@,
        ) by {
            assert(cells_view(cells@)[i] == cells@[i]@);
        }
    }
    cells
}

/// Cells of a column of text, given the strings.
fn text_column(a: &ArrayData, v: Vec<Option<String>>) -> (cells: Vec<Cell>)
    requires
        v@.map_values(|t: Option<String>| text_cell(t)) == array_cells(*a),
        cell_fits(array_kind(*a), ReadView::Text(Seq::empty())),
    ensures
        cells_view(cells@) == read_column(*a),
        forall|i: int| 0 <= i < cells@.len() ==> cell_fits(array_kind(*a), (#[trigger] cells@[i])@),
{
    proof {
        let held = array_cells(*a);
        assert forall|i: int| 0 <= i < v@.len() implies #[trigger] held[i] == text_cell(
            v@[i],
        ) by {}
        assert(v@.len() == held.len());
    }
    let cells = from_texts(v);
    proof {
        assert(cells_view(cells@) =~= read_column(*a));
        assert forall|i: int| 0 <= i < cells@.len() implies cell_fits(
            array_kind(*a),
            (#[trigger] cells@[i])@,
        ) by {
            assert(cells_view(cells@)[i] == cells@[i]@);
        }
    }
    cells
}

/// Read the cells of a column.
pub fn column_cells(a: &ArrayData) -> (cells: Vec<Cell>)
    ensures
        cells_view(cells@) == read_column(*a),
        forall|i: int| 0 <= i < cells@.len() ==> cell_fits(array_kind(*a), (#[trigger] cells@[i])@),
{
    let ghost held = array_cells(*a);
    let ghost want = read_column(*a);
    match column_kind(a) {
        Some(Kind::Boolean) => {
            let v = bool_cells(a);
            proof {
                assert forall|i: int| 0 <= i < v@.len() implies #[trigger] held[i] == (match v@[i] {
                    None => CellView::Null,
                    Some(b) => CellView::Bool(b),
                }) by {}
                assert(v@.len() == held.len());
            }
            let cells = from_bools(v);
            proof {
                assert(cells_view(cells@) =~= want);
                assert forall|i: int| 0 <= i < cells@.len() implies cell_fits(
                    array_kind(*a),
                    (#[trigger] cells@[i])@,
                ) by {
                    assert(cells_view(cells@)[i] == cells@[i]@);
                }
            }
            cells
        },
        Some(Kind::Int8) => int_column(a, int8_cells(a)),
        Some(Kind::Int16) => int_column(a, int16_cells(a)),
        Some(Kind::Int32) => int_column(a, int32_cells(a)),
        Some(Kind::Int64) => int_column(a, int64_cells(a)),
        Some(Kind::UInt8) => int_column(a, uint8_cells(a)),
        Some(Kind::UInt16) => int_column(a, uint16_cells(a)),
        Some(Kind::UInt32) => int_column(a, uint32_cells(a)),
        Some(Kind::UInt64) => {
            let v = uint64_cells(a);
            proof {
                assert forall|i: int| 0 <= i < v@.len() implies #[trigger] held[i] == (match v@[i] {
                    None => CellView::Null,
                    Some(n) => CellView::Int(n as int),
                }) by {}
                assert(v@.len() == held.len());
            }
            let cells = from_u64s(v);
            proof {
                assert(cells_view(cells@) =~= want);
                assert forall|i: int| 0 <= i < cells@.len() implies cell_fits(
                    array_kind(*a),
                    (#[trigger] cells@[i])@,
                ) by {
                    assert(cells_view(cells@)[i] == cells@[i]@);
                }
            }
            cells
        },
        Some(Kind::Utf8) => text_column(a, utf8_cells(a)),
        Some(Kind::LargeUtf8) => text_column(a, large_utf8_cells(a)),
        Some(Kind::Utf8View) => text_column(a, utf8_view_cells(a)),
        None => opaque_column(a),
    }
}

// ---------------------------------------------------------------------------
// What is written and read
// ---------------------------------------------------------------------------

/// A column that is being built has its name, says whether it has nulls, and
/// holds in each cell what was given for it.
pub proof fn law_columns_hold_what_is_given(c: TableColumn, i: int)
    ensures
        c@.name == c.name@,
        c@.nullable == c.nullable,
        match c.cells {
            Cells::Int64(v) => c@.kind is Int64 && c@.cells.len() == v@.len() && (0 <= i < v@.len()
                ==> c@.cells[i] == CellView::Int(v@[i] as int)),
            Cells::OptInt64(v) => c@.kind is Int64 && c@.cells.len() == v@.len() && (0 <= i
                < v@.len() ==> match v@[i] {
                Some(n) => c@.cells[i] == CellView::Int(n as int),
                None => c@.cells[i] is Null,
            }),
            Cells::UInt32(v) => c@.kind is UInt32 && c@.cells.len() == v@.len() && (0 <= i
                < v@.len() ==> c@.cells[i] == CellView::Int(v@[i] as int)),
            Cells::UInt64(v) => c@.kind is UInt64 && c@.cells.len() == v@.len() && (0 <= i
                < v@.len() ==> c@.cells[i] == CellView::Int(v@[i] as int)),
            Cells::Float64(v) => c@.kind is Float64 && c@.cells.len() == v@.len() && (0 <= i
                < v@.len() ==> c@.cells[i] == CellView::Real(v@[i])),
            Cells::OptFloat64(v) => c@.kind is Float64 && c@.cells.len() == v@.len() && (0 <= i
                < v@.len() ==> match v@[i] {
                Some(bits) => c@.cells[i] == CellView::Real(bits),
                None => c@.cells[i] is Null,
            }),
            Cells::Text(v) => c@.kind is Utf8 && c@.cells.len() == v@.len() && (0 <= i < v@.len()
                ==> c@.cells[i] == CellView::Text(v@[i]@)),
            Cells::Labels(keys, values) => c@.kind is Labels && c@.cells.len() == keys@.len() && (0
                <= i < keys@.len() ==> c@.cells[i] == CellView::Text(
                values@[keys@[i] as int]@,
            )),
            Cells::Quads(flat) => c@.kind is Quads && c@.cells.len() == flat@.len() / 4 && (0 <= i
                < flat@.len() / 4 ==> c@.cells[i] == CellView::Quad(
                flat@[4 * i],
                flat@[4 * i + 1],
                flat@[4 * i + 2],
                flat@[4 * i + 3],
            )),
        },
{
}

/// The last value that is given for a key stands.
pub proof fn law_last_pair_stands(pairs: Seq<(String, String)>, i: int)
    requires
        0 <= i < pairs.len(),
    ensures
        pairs_map(pairs).dom().contains(pairs[i].0@),
        (forall|j: int| i < j < pairs.len() ==> (#[trigger] pairs[j]).0@ != pairs[i].0@)
            ==> pairs_map(pairs)[pairs[i].0@] == pairs[i].1@,
    decreases pairs.len(),
{
    if i < pairs.len() - 1 {
        let rest = pairs.drop_last();
        law_last_pair_stands(rest, i);
        if forall|j: int| i < j < pairs.len() ==> (#[trigger] pairs[j]).0@ != pairs[i].0@ {
            assert(pairs[pairs.len() - 1].0@ != pairs[i].0@);
            assert forall|j: int| i < j < rest.len() implies (#[trigger] rest[j]).0@
                != rest[i].0@ by {
                assert(pairs[j].0@ != pairs[i].0@);
            }
        }
    }
}

/// No key is there that none was given for.
pub proof fn law_keys_come_from_pairs(pairs: Seq<(String, String)>, key: Seq<char>) -> (i: int)
    requires
        pairs_map(pairs).dom().contains(key),
    ensures
        0 <= i < pairs.len(),
        pairs[i].0@ == key,
        pairs_map(pairs)[key] == pairs[i].1@,
    decreases pairs.len(),
{
    if pairs.last().0@ == key {
        pairs.len() - 1
    } else {
        law_keys_come_from_pairs(pairs.drop_last(), key)
    }
}

/// Each cell that is read is the one that the column holds: a null as a null,
/// a truth value, a number or a text as itself, and what is of another type as
/// opaque.
pub proof fn law_cells_are_read_as_held(a: ArrayData, cells: Seq<Cell>, i: int)
    requires
        cells_view(cells) == read_column(a),
        0 <= i < cells.len(),
    ensures
        cells.len() == array_cells(a).len(),
        cells[i] is Null <==> array_cells(a)[i] is Null,
        array_kind(a) is Boolean ==> (array_cells(a)[i] matches CellView::Bool(b) ==> cells[i]
            == Cell::Bool(b)),
        array_kind(a) is UInt64 ==> (array_cells(a)[i] matches CellView::Int(n) ==> (0 <= n
            <= u64::MAX ==> (cells[i] matches Cell::UInt(m) && m == n))),
        (array_kind(a) is Int8 || array_kind(a) is Int16 || array_kind(a) is Int32 || array_kind(
            a,
        ) is Int64 || array_kind(a) is UInt8 || array_kind(a) is UInt16 || array_kind(
            a,
        ) is UInt32) ==> (array_cells(a)[i] matches CellView::Int(n) ==> (i64::MIN <= n <= i64::MAX
            ==> (cells[i] matches Cell::Int(m) && m == n))),
        (array_kind(a) is Utf8 || array_kind(a) is LargeUtf8 || array_kind(a) is Utf8View) ==> (
        array_cells(a)[i] matches CellView::Text(t) ==> (cells[i] matches Cell::Text(s) && s@
            == t)),
        (array_kind(a) is Float64 || array_kind(a) is Labels || array_kind(a) is Quads
            || array_kind(a) is Other) ==> cells[i] is Null || cells[i] is Opaque,
{
    let read = cells_view(cells);
    assert(read.len() == cells.len());
    assert(read[i] == cells[i]@);
}

/// A batch that is handed out has a field for each column, with its name, its
/// nullability and its type.
pub proof fn law_fields_are_those_of_the_columns(columns: Seq<ColumnView>, i: int)
    requires
        0 <= i < columns.len(),
    ensures
        fields_of(columns).len() == columns.len(),
        fields_of(columns)[i].0 == columns[i].name,
        fields_of(columns)[i].1 == columns[i].nullable,
        fields_of(columns)[i].2 == columns[i].kind,
{
}

/// A batch that is handed out holds the columns and the metadata, and has as
/// many rows as a column.
pub proof fn law_exports_hold_the_batch(
    w: ArrowRecordBatch,
    columns: Seq<ColumnView>,
    metadata: Map<Seq<char>, Seq<char>>,
)
    requires
        exports(w, columns, metadata),
        columns.len() > 0,
    ensures
        struct_columns(w.data) == columns,
        array_cells(w.data).len() == columns[0].cells.len(),
        schema_metadata(w.schema) == metadata,
{
}

/// Every type that is read is told from the others.
pub proof fn law_kinds_are_told_apart(a: Kind, b: Kind)
    ensures
        a@ == b@ <==> a == b,
        readable(a@),
        a is Boolean <==> a@ is Boolean,
        a is Int64 <==> a@ is Int64,
        a is UInt64 <==> a@ is UInt64,
        a is Utf8 <==> a@ is Utf8,
{
}

/// The bytes of two lists of strings add up.
pub proof fn law_text_bytes_add_up(first: Seq<String>, second: Seq<String>)
    ensures
        text_bytes(first + second) == text_bytes(first) + text_bytes(second),
    decreases second.len(),
{
    if second.len() == 0 {
        assert(first + second =~= first);
    } else {
        law_text_bytes_add_up(first, second.drop_last());
        assert((first + second).drop_last() =~= first + second.drop_last());
    }
}

} // verus!
