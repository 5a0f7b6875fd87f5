//! The Arrow builders that columns are collected in, and the record batches that
//! are made of them.

use crate::cell::Cells;
use crate::schema::{DataType, Field, FieldView, Schema};
use arrow_array::builder::{BinaryBuilder, BooleanBuilder, Int64Builder, StringBuilder, UInt64Builder};
use arrow_array::{Array, ArrayRef, RecordBatch};
use arrow_schema::{ArrowError, Field as ArrowField, Schema as ArrowSchema};
use std::sync::Arc;
use vstd::prelude::*;
use vstd::utf8::encode_utf8;

verus! {

// ---------------------------------------------------------------------------
// Builders
// ---------------------------------------------------------------------------

/// A builder of `arrow_array` for a column of integers.
#[verifier::external_body]
pub struct Int64Column {
    builder: Int64Builder,
}

/// The cells that a column of integers holds.
pub uninterp spec fn int64_cells(column: Int64Column) -> Seq<Option<i64>>;

/// A builder of `arrow_array` for a column of doubles, which holds their bits as
/// unsigned integers.
#[verifier::external_body]
pub struct Float64Column {
    builder: UInt64Builder,
}

/// The cells that a column of doubles holds.
pub uninterp spec fn float64_cells(column: Float64Column) -> Seq<Option<u64>>;

/// The builder of `arrow_array` for a column of truth values.
#[verifier::external_type_specification]
#[verifier::external_body]
pub struct ExBooleanBuilder(BooleanBuilder);

/// The cells that a column of truth values holds.
pub uninterp spec fn boolean_cells(column: BooleanBuilder) -> Seq<Option<bool>>;

/// A builder of `arrow_array` for a column of byte strings.
#[verifier::external_body]
pub struct BinaryColumn {
    builder: BinaryBuilder,
}

/// The cells that a column of byte strings holds.
pub uninterp spec fn binary_cells(column: BinaryColumn) -> Seq<Option<Seq<u8>>>;

/// A builder of `arrow_array` for a column of texts.
#[verifier::external_body]
pub struct Utf8Column {
    builder: StringBuilder,
}

/// The cells that a column of texts holds.
pub uninterp spec fn utf8_cells(column: Utf8Column) -> Seq<Option<Seq<char>>>;

/// A finished column: an array of `arrow_array`.
#[verifier::external_body]
pub struct FinishedColumn {
    array: ArrayRef,
}

/// The cells of a finished column.
pub uninterp spec fn finished_cells(column: FinishedColumn) -> Cells;

/// How many bytes the byte strings of a column take together.
pub open spec fn binary_size(cells: Seq<Option<Seq<u8>>>) -> nat
    decreases cells.len(),
{
    if cells.len() == 0 {
        0
    } else {
        binary_size(cells.drop_last()) + (match cells.last() {
            Some(bytes) => bytes.len(),
            None => 0,
        })
    }
}

/// How many bytes the texts of a column take together in UTF-8.
pub open spec fn utf8_size(cells: Seq<Option<Seq<char>>>) -> nat
    decreases cells.len(),
{
    if cells.len() == 0 {
        0
    } else {
        utf8_size(cells.drop_last()) + (match cells.last() {
            Some(text) => encode_utf8(text).len(),
            None => 0,
        })
    }
}

/// How many bytes the byte strings or the texts of a column take together.
pub open spec fn payload(cells: Cells) -> nat {
    match cells {
        Cells::Binary(byte_strings) => binary_size(byte_strings),
        Cells::Utf8(texts) => utf8_size(texts),
        _ => 0,
    }
}

impl Int64Column {
    /// `Int64Builder::with_capacity` makes a builder without cells. The room it
    /// reserves must not exceed what one allocation can have.
    #[verifier::external_body]
    pub(crate) fn with_capacity(capacity: usize) -> (r: Int64Column)
        requires
            8 * capacity <= isize::MAX,
        ensures
            int64_cells(r) == Seq::<Option<i64>>::empty(),
    {
        Int64Column { builder: Int64Builder::with_capacity(capacity) }
    }

    /// `Int64Builder::append_option` adds one cell, which is null for no value.
    #[verifier::external_body]
    pub(crate) fn append(&mut self, cell: Option<i64>)
        ensures
            int64_cells(*final(self)) == int64_cells(*old(self)).push(cell),
    {
        self.builder.append_option(cell)
    }

    /// `Int64Builder::finish` hands the cells out as an array, and leaves the
    /// builder without any.
    #[verifier::external_body]
    pub(crate) fn finish(&mut self) -> (r: FinishedColumn)
        ensures
            finished_cells(r) == Cells::Int64(int64_cells(*old(self))),
            int64_cells(*final(self)) == Seq::<Option<i64>>::empty(),
    {
        FinishedColumn { array: Arc::new(self.builder.finish()) }
    }
}

impl Float64Column {
    /// `UInt64Builder::with_capacity` makes a builder without cells. The room it
    /// reserves must not exceed what one allocation can have.
    #[verifier::external_body]
    pub(crate) fn with_capacity(capacity: usize) -> (r: Float64Column)
        requires
            8 * capacity <= isize::MAX,
        ensures
            float64_cells(r) == Seq::<Option<u64>>::empty(),
    {
        Float64Column { builder: UInt64Builder::with_capacity(capacity) }
    }

    /// `UInt64Builder::append_option` adds one cell, which is null for no value.
    #[verifier::external_body]
    pub(crate) fn append(&mut self, cell: Option<u64>)
        ensures
            float64_cells(*final(self)) == float64_cells(*old(self)).push(cell),
    {
        self.builder.append_option(cell)
    }

    /// `UInt64Builder::finish` hands the cells out as an array, and leaves the
    /// builder without any. `ArrayDataBuilder::data_type` and `build` then declare
    /// the 64-bit values of the array to be doubles, without changing a bit of
    /// them, and `make_array` makes it an array of that type.
    #[verifier::external_body]
    pub(crate) fn finish(&mut self) -> (r: FinishedColumn)
        ensures
            finished_cells(r) == Cells::Float64(float64_cells(*old(self))),
            float64_cells(*final(self)) == Seq::<Option<u64>>::empty(),
    {
        let bits = self.builder.finish().into_data().into_builder();
        let data = bits.data_type(arrow_schema::DataType::Float64).build();
        FinishedColumn { array: arrow_array::make_array(data.expect("64-bit values")) }
    }
}

/// `BooleanBuilder::with_capacity` makes a builder without cells. The room it
/// reserves must not exceed what one allocation can have.
pub assume_specification[ BooleanBuilder::with_capacity ](capacity: usize) -> (r: BooleanBuilder)
    requires
        capacity <= isize::MAX,
    ensures
        boolean_cells(r) == Seq::<Option<bool>>::empty(),
;

/// `BooleanBuilder::append_option` adds one cell, which is null for no value.
pub assume_specification[ BooleanBuilder::append_option ](builder: &mut BooleanBuilder, v: Option<bool>)
    ensures
        boolean_cells(*final(builder)) == boolean_cells(*old(builder)).push(v),
;

/// `BooleanBuilder::finish` hands the cells out as an array, and leaves the
/// builder without any.
#[verifier::external_body]
pub(crate) fn finish_boolean(builder: &mut BooleanBuilder) -> (r: FinishedColumn)
    ensures
        finished_cells(r) == Cells::Boolean(boolean_cells(*old(builder))),
        boolean_cells(*final(builder)) == Seq::<Option<bool>>::empty(),
{
    FinishedColumn { array: Arc::new(builder.finish()) }
}

impl BinaryColumn {
    /// `BinaryBuilder::with_capacity` makes a builder without cells. The room it
    /// reserves, for that many cells and that many bytes of them, must not exceed
    /// what one allocation can have.
    #[verifier::external_body]
    pub(crate) fn with_capacity(cells: usize, bytes: usize) -> (r: BinaryColumn)
        requires
            4 * (cells + 1) <= isize::MAX,
            bytes <= isize::MAX,
        ensures
            binary_cells(r) == Seq::<Option<Seq<u8>>>::empty(),
    {
        BinaryColumn { builder: BinaryBuilder::with_capacity(cells, bytes) }
    }

    /// `BinaryBuilder::append_option` adds one cell, which is null for no value.
    /// The bytes of all cells together must not exceed the range of the 32-bit
    /// offsets that the builder keeps.
    #[verifier::external_body]
    pub(crate) fn append(&mut self, cell: Option<&[u8]>)
        requires
            binary_size(binary_cells(*old(self))) + (match cell {
                Some(bytes) => bytes@.len(),
                None => 0,
            }) <= i32::MAX,
        ensures
            binary_cells(*final(self)) == binary_cells(*old(self)).push(
                match cell {
                    Some(bytes) => Some(bytes@),
                    None => None,
                },
            ),
    {
        self.builder.append_option(cell)
    }

    /// `BinaryBuilder::finish` hands the cells out as an array, and leaves the
    /// builder without any.
    #[verifier::external_body]
    pub(crate) fn finish(&mut self) -> (r: FinishedColumn)
        ensures
            finished_cells(r) == Cells::Binary(binary_cells(*old(self))),
            binary_cells(*final(self)) == Seq::<Option<Seq<u8>>>::empty(),
    {
        FinishedColumn { array: Arc::new(self.builder.finish()) }
    }
}

impl Utf8Column {
    /// `StringBuilder::with_capacity` makes a builder without cells. The room it
    /// reserves, for that many cells and that many bytes of them, must not exceed
    /// what one allocation can have.
    #[verifier::external_body]
    pub(crate) fn with_capacity(cells: usize, bytes: usize) -> (r: Utf8Column)
        requires
            4 * (cells + 1) <= isize::MAX,
            bytes <= isize::MAX,
        ensures
            utf8_cells(r) == Seq::<Option<Seq<char>>>::empty(),
    {
        Utf8Column { builder: StringBuilder::with_capacity(cells, bytes) }
    }

    /// `StringBuilder::append_option` adds one cell, which is null for no value.
    /// The bytes of all cells together must not exceed the range of the 32-bit
    /// offsets that the builder keeps.
    #[verifier::external_body]
    pub(crate) fn append(&mut self, cell: Option<&str>)
        requires
            utf8_size(utf8_cells(*old(self))) + (match cell {
                Some(text) => encode_utf8(text@).len(),
                None => 0,
            }) <= i32::MAX,
        ensures
            utf8_cells(*final(self)) == utf8_cells(*old(self)).push(
                match cell {
                    Some(text) => Some(text@),
                    None => None,
                },
            ),
    {
        self.builder.append_option(cell)
    }

    /// `StringBuilder::finish` hands the cells out as an array, and leaves the
    /// builder without any.
    #[verifier::external_body]
    pub(crate) fn finish(&mut self) -> (r: FinishedColumn)
        ensures
            finished_cells(r) == Cells::Utf8(utf8_cells(*old(self))),
            utf8_cells(*final(self)) == Seq::<Option<Seq<char>>>::empty(),
    {
        FinishedColumn { array: Arc::new(self.builder.finish()) }
    }
}

// ---------------------------------------------------------------------------
// Schemas
// ---------------------------------------------------------------------------

/// A column of a schema of `arrow_schema`.
#[verifier::external_type_specification]
#[verifier::external_body]
pub struct ExArrowField(ArrowField);

/// What a column of a schema of `arrow_schema` is: none where it has another
/// type than a [`DataType`], or carries metadata.
pub uninterp spec fn arrow_field(field: ArrowField) -> Option<FieldView>;

/// A schema of `arrow_schema`.
#[verifier::external_type_specification]
#[verifier::external_body]
pub struct ExArrowSchema(ArrowSchema);

/// The columns of a schema of `arrow_schema`: none where one of them is none, or
/// the schema carries metadata.
pub uninterp spec fn arrow_fields(schema: ArrowSchema) -> Option<Seq<FieldView>>;

/// An error of `arrow_schema`.
#[verifier::external_type_specification]
#[verifier::external_body]
pub struct ExArrowError(ArrowError);

/// `arrow_schema::Field::new` makes a column of the given name, type and
/// nullability.
#[verifier::external_body]
fn new_arrow_field(name: &str, data_type: DataType, nullable: bool) -> (r: ArrowField)
    ensures
        arrow_field(r) == Some(FieldView { name: name@, data_type, nullable }),
{
    let arrow_type = match data_type {
        DataType::Int64 => arrow_schema::DataType::Int64,
        DataType::Float64 => arrow_schema::DataType::Float64,
        DataType::Boolean => arrow_schema::DataType::Boolean,
        DataType::Binary => arrow_schema::DataType::Binary,
        DataType::Utf8 => arrow_schema::DataType::Utf8,
    };
    ArrowField::new(name, arrow_type, nullable)
}

/// `arrow_schema::Schema::new` makes a schema of the given columns, in order and
/// without metadata.
#[verifier::external_body]
fn new_arrow_schema(fields: Vec<ArrowField>) -> (r: Arc<ArrowSchema>)
    requires
        forall|i: int| 0 <= i < fields@.len() ==> arrow_field(#[trigger] fields@[i]) is Some,
    ensures
        arrow_fields(*r) == Some(
            fields@.map_values(|field: ArrowField| arrow_field(field)->Some_0),
        ),
{
    Arc::new(ArrowSchema::new(fields))
}

/// The Arrow form of a schema.
pub fn arrow_schema_of(schema: &Schema) -> (r: Arc<ArrowSchema>)
    ensures
        arrow_fields(*r) == Some(schema@),
{
    let mut fields: Vec<ArrowField> = Vec::new();
    let mut i: usize = 0;
    while i < schema.fields.len()
        invariant
            i <= schema.fields@.len(),
            fields@.len() == i,
            forall|j: int| 0 <= j < i ==> arrow_field(#[trigger] fields@[j]) == Some(schema@[j]),
        decreases schema.fields@.len() - i,
    {
        let field: &Field = &schema.fields[i];
        fields.push(new_arrow_field(field.name.as_str(), field.data_type, field.nullable));
        i = i + 1;
    }
    assert(fields@.map_values(|field: ArrowField| arrow_field(field)->Some_0) =~= schema@);
    new_arrow_schema(fields)
}

// ---------------------------------------------------------------------------
// Record batches
// ---------------------------------------------------------------------------

/// A record batch of `arrow_array`.
#[verifier::external_body]
pub struct ArrowBatch {
    pub(crate) batch: RecordBatch,
}

/// What a record batch is.
pub struct BatchView {
    /// Its schema.
    pub fields: Seq<FieldView>,
    /// Its columns.
    pub columns: Seq<Cells>,
}

/// The schema and the columns of a record batch.
pub uninterp spec fn arrow_batch(batch: ArrowBatch) -> BatchView;

/// Whether columns make a record batch of a schema: there is at least one, they
/// are as many as the schema has, of its types and of the same length, and none
/// holds a null that the schema does not allow.
pub open spec fn batch_accepted(fields: Seq<FieldView>, columns: Seq<Cells>) -> bool {
    &&& columns.len() > 0
    &&& columns.len() == fields.len()
    &&& forall|i: int|
        0 <= i < columns.len() ==> {
            &&& (#[trigger] columns[i]).data_type() == fields[i].data_type
            &&& columns[i].len() == columns[0].len()
            &&& fields[i].nullable || !columns[i].has_null()
        }
}

/// The cells of finished columns.
pub open spec fn all_finished_cells(columns: Seq<FinishedColumn>) -> Seq<Cells> {
    columns.map_values(|column: FinishedColumn| finished_cells(column))
}

/// `RecordBatch::try_new` makes a batch of the columns where they fit together
/// and fit the schema, and only there.
#[verifier::external_body]
pub(crate) fn new_arrow_batch(
    schema: &Arc<ArrowSchema>,
    columns: Vec<FinishedColumn>,
) -> (r: Result<ArrowBatch, ArrowError>)
    requires
        arrow_fields(**schema) is Some,
    ensures
        r is Ok <==> batch_accepted(arrow_fields(**schema)->Some_0, all_finished_cells(columns@)),
        r matches Ok(batch) ==> arrow_batch(batch) == (BatchView {
            fields: arrow_fields(**schema)->Some_0,
            columns: all_finished_cells(columns@),
        }),
{
    let arrays = columns.into_iter().map(|column| column.array).collect();
    match RecordBatch::try_new(schema.clone(), arrays) {
        Ok(batch) => Ok(ArrowBatch { batch }),
        Err(error) => Err(error),
    }
}

} // verus!
