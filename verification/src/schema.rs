//! Column types and the inference of a schema from a query's columns.

use crate::text::{ascii_upper, contains, contains_text, to_uppercase, uppercase};
use crate::value::{row_data, Datum, ValueRef};
use std::sync::Arc;
use vstd::prelude::*;
use vstd::utf8::{encode_utf8, is_ascii_chars};

verus! {

/// The Arrow types that a column can have.
#[derive(Debug, Clone, Copy, PartialEq, Eq, Structural)]
pub enum DataType {
    /// 64-bit integers.
    Int64,
    /// Double-precision numbers.
    Float64,
    /// Truth values.
    Boolean,
    /// Byte strings.
    Binary,
    /// UTF-8 text.
    Utf8,
}

/// Column metadata consisting of column name and optional declared type.
pub type ColumnMetadata = (String, Option<String>);

/// A column of a schema.
#[derive(Debug)]
pub struct Field {
    /// The name of the column.
    pub name: String,
    /// The type of its cells.
    pub data_type: DataType,
    /// Whether a cell may be null.
    pub nullable: bool,
}

/// The columns of a table, in order.
#[derive(Debug)]
pub struct Schema {
    /// The columns.
    pub fields: Vec<Field>,
}

/// A shared schema.
pub type SchemaRef = Arc<Schema>;

/// What a column of a schema is.
pub struct FieldView {
    /// The name of the column.
    pub name: Seq<char>,
    /// The type of its cells.
    pub data_type: DataType,
    /// Whether a cell may be null.
    pub nullable: bool,
}

impl View for Field {
    type V = FieldView;

    open spec fn view(&self) -> FieldView {
        FieldView { name: self.name@, data_type: self.data_type, nullable: self.nullable }
    }
}

impl View for Schema {
    type V = Seq<FieldView>;

    open spec fn view(&self) -> Seq<FieldView> {
        self.fields@.map_values(|field: Field| field@)
    }
}

/// The type that a declaration in capitals asks for: the first of these that has
/// one of its words in the declaration, and text where none has.
pub open spec fn declared_type(upper: Seq<char>) -> DataType {
    if contains(upper, "INT"@) {
        DataType::Int64
    } else if contains(upper, "REAL"@) || contains(upper, "FLOA"@) || contains(upper, "DOUB"@)
        || contains(upper, "NUM"@) || contains(upper, "DEC"@) {
        DataType::Float64
    } else if contains(upper, "BOOL"@) {
        DataType::Boolean
    } else if contains(upper, "BLOB"@) || contains(upper, "BINARY"@) {
        DataType::Binary
    } else {
        DataType::Utf8
    }
}

/// The type that suits a value.
pub open spec fn sampled_type(datum: Datum) -> DataType {
    match datum {
        Datum::Integer(_) => DataType::Int64,
        Datum::Real { .. } => DataType::Float64,
        Datum::Blob(_) => DataType::Binary,
        Datum::Text { .. } => DataType::Utf8,
        Datum::Null => DataType::Utf8,
    }
}

/// The type of a column: what its declaration asks for, or else what suits its
/// sample value, or else text.
pub open spec fn column_type(declaration: Option<Seq<char>>, sample: Option<Datum>) -> DataType {
    match declaration {
        Some(declared) => declared_type(uppercase(declared)),
        None => match sample {
            Some(datum) => sampled_type(datum),
            None => DataType::Utf8,
        },
    }
}

/// Computes [`declared_type`] of a declaration that is already in capitals.
pub fn type_of_declaration(upper: &str) -> (r: DataType)
    ensures
        r == declared_type(upper@),
{
    if contains_text(upper, "INT") {
        DataType::Int64
    } else if contains_text(upper, "REAL") || contains_text(upper, "FLOA") || contains_text(
        upper,
        "DOUB",
    ) || contains_text(upper, "NUM") || contains_text(upper, "DEC") {
        DataType::Float64
    } else if contains_text(upper, "BOOL") {
        DataType::Boolean
    } else if contains_text(upper, "BLOB") || contains_text(upper, "BINARY") {
        DataType::Binary
    } else {
        DataType::Utf8
    }
}

/// Infers an Arrow [`DataType`] from a column's declared SQLite type and/or sample value.
pub fn infer_arrow_type(decl_type: Option<&str>, sample_value: Option<&ValueRef<'_>>) -> (r:
    DataType)
    ensures
        r == column_type(
            match decl_type {
                Some(declared) => Some(declared@),
                None => None,
            },
            match sample_value {
                Some(value) => Some(value@),
                None => None,
            },
        ),
        decl_type matches Some(declared) ==> (is_ascii_chars(declared@) ==> r == declared_type(
            declared@.map_values(|c: char| ascii_upper(c)),
        )),
{
    if let Some(declared) = decl_type {
        let upper: String = to_uppercase(declared);
        return type_of_declaration(upper.as_str());
    }
    match sample_value {
        Some(value) => match value {
            ValueRef::Integer(_) => DataType::Int64,
            ValueRef::Real(_) => DataType::Float64,
            ValueRef::Blob(_) => DataType::Binary,
            ValueRef::Text(_) => DataType::Utf8,
            ValueRef::Null => DataType::Utf8,
        },
        None => DataType::Utf8,
    }
}

/// What the metadata of a column says: its name and its declared type.
pub open spec fn column_parts(column: ColumnMetadata) -> (Seq<char>, Option<Seq<char>>) {
    (
        column.0@,
        match column.1 {
            Some(declared) => Some(declared@),
            None => None,
        },
    )
}

/// What the metadata of all the columns says.
pub open spec fn all_column_parts(columns: Seq<ColumnMetadata>) -> Seq<
    (Seq<char>, Option<Seq<char>>),
> {
    columns.map_values(|column: ColumnMetadata| column_parts(column))
}

/// The schema of columns: each keeps its name, takes its type from its
/// declaration or from its value in the sample row, and may hold nulls.
pub open spec fn inferred_fields(
    columns: Seq<(Seq<char>, Option<Seq<char>>)>,
    sample_row: Option<Seq<Datum>>,
) -> Seq<FieldView> {
    Seq::new(
        columns.len(),
        |i: int|
            FieldView {
                name: columns[i].0,
                data_type: column_type(
                    columns[i].1,
                    match sample_row {
                        Some(row) => if i < row.len() {
                            Some(row[i])
                        } else {
                            None
                        },
                        None => None,
                    },
                ),
                nullable: true,
            },
    )
}

/// Infers the [`Schema`] from extracted column metadata and an optional sample row.
pub fn infer_schema_from_metadata(
    columns: &[ColumnMetadata],
    sample_row: Option<&[ValueRef<'_>]>,
) -> (r: SchemaRef)
    ensures
        r@ == inferred_fields(
            all_column_parts(columns@),
            match sample_row {
                Some(row) => Some(row_data(row@)),
                None => None,
            },
        ),
{
    let mut fields: Vec<Field> = Vec::new();
    let mut i: usize = 0;
    let ghost sample = match sample_row {
        Some(row) => Some(row_data(row@)),
        None => None,
    };
    let ghost expected = inferred_fields(all_column_parts(columns@), sample);
    while i < columns.len()
        invariant
            i <= columns@.len(),
            fields@.len() == i,
            sample == (match sample_row {
                Some(row) => Some(row_data(row@)),
                None => None,
            }),
            expected == inferred_fields(all_column_parts(columns@), sample),
            forall|j: int| 0 <= j < i ==> (#[trigger] fields@[j])@ == expected[j],
        decreases columns@.len() - i,
    {
        let value: Option<&ValueRef<'_>> = match sample_row {
            Some(row) => if i < row.len() {
                Some(&row[i])
            } else {
                None
            },
            None => None,
        };
        let declared: Option<&str> = match &columns[i].1 {
            Some(text) => Some(text.as_str()),
            None => None,
        };
        let data_type: DataType = infer_arrow_type(declared, value);
        fields.push(Field { name: columns[i].0.clone(), data_type, nullable: true });
        assert(fields@[i as int]@ == expected[i as int]);
        i = i + 1;
    }
    let schema: Schema = Schema { fields };
    assert(schema@ =~= expected);
    Arc::new(schema)
}

/// The names of the columns of a schema.
pub open spec fn field_names(fields: Seq<FieldView>) -> Seq<Seq<char>> {
    fields.map_values(|field: FieldView| field.name)
}

/// The names of columns.
pub open spec fn column_names(columns: Seq<ColumnMetadata>) -> Seq<Seq<char>> {
    columns.map_values(|column: ColumnMetadata| column.0@)
}

/// How many bytes names take together in UTF-8.
pub open spec fn names_size(names: Seq<Seq<char>>) -> nat
    decreases names.len(),
{
    if names.len() == 0 {
        0
    } else {
        names_size(names.drop_last()) + encode_utf8(names.last()).len()
    }
}

/// How many bytes a column takes besides its name in the schema that a Parquet file
/// carries, at most.
pub const COLUMN_ROOM: u64 = 256;

/// The most bytes of the schema that a Parquet file carries, with something to spare
/// for what is not a column.
pub const SCHEMA_ROOM: u64 = 0x7fff_f000;

/// Whether the schema of columns with these names fits into a Parquet file.
pub open spec fn schema_fits(names: Seq<Seq<char>>) -> bool {
    names_size(names) + COLUMN_ROOM * names.len() <= SCHEMA_ROOM
}

/// More names take no less than fewer.
proof fn lemma_names_size_grows(names: Seq<Seq<char>>, count: int)
    requires
        0 <= count <= names.len(),
    ensures
        names_size(names.take(count)) <= names_size(names),
    decreases names.len(),
{
    if count < names.len() {
        lemma_names_size_grows(names.drop_last(), count);
        assert(names.drop_last().take(count) =~= names.take(count));
    } else {
        assert(names.take(count) =~= names);
    }
}

/// Whether the schema of columns fits into a Parquet file.
pub fn columns_fit(columns: &[ColumnMetadata]) -> (r: bool)
    ensures
        r == schema_fits(column_names(columns@)),
{
    let ghost names = column_names(columns@);
    let mut size: u64 = 0;
    let mut i: usize = 0;
    assert(names.take(0) =~= seq![]);
    while i < columns.len()
        invariant
            i <= columns@.len(),
            names == column_names(columns@),
            size == names_size(names.take(i as int)) + COLUMN_ROOM * i,
            size <= SCHEMA_ROOM,
        decreases columns@.len() - i,
    {
        let name: &str = columns[i].0.as_str();
        let length: usize = name.as_bytes().len();
        proof {
            lemma_names_size_grows(names, i + 1);
            assert(names.take(i + 1).drop_last() =~= names.take(i as int));
            assert(names[i as int] == name@);
        }
        if length > SCHEMA_ROOM as usize || size + length as u64 + COLUMN_ROOM > SCHEMA_ROOM {
            return false;
        }
        size = size + length as u64 + COLUMN_ROOM;
        i = i + 1;
    }
    assert(names.take(i as int) =~= names);
    true
}

/// The schema of columns has a column for each, of the same name and in the same
/// order, and allows nulls in all of them.
pub proof fn law_schema_keeps_columns(
    columns: Seq<(Seq<char>, Option<Seq<char>>)>,
    sample_row: Option<Seq<Datum>>,
)
    ensures
        inferred_fields(columns, sample_row).len() == columns.len(),
        forall|i: int|
            0 <= i < columns.len() ==> {
                &&& (#[trigger] inferred_fields(columns, sample_row)[i]).name == columns[i].0
                &&& inferred_fields(columns, sample_row)[i].nullable
            },
{
}

/// A declared type decides, whatever the sample is.
pub proof fn law_declaration_decides(
    declaration: Seq<char>,
    sample: Option<Datum>,
    other: Option<Datum>,
)
    ensures
        column_type(Some(declaration), sample) == column_type(Some(declaration), other),
{
}

} // verus!
