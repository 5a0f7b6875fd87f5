//! The types of columns.

use crate::cell::Cells;
use crate::laws::texts::{holds_word, law_contains};
use crate::schema::{
    column_type, declared_type, infer_arrow_type, inferred_fields, type_of_declaration, DataType,
};
use crate::text::uppercase;
use crate::value::{Datum, ValueRef};
use vstd::prelude::*;
use vstd::utf8::{encode_utf8, is_ascii_chars};

verus! {

/// Whether a declaration in capitals has one of the words of a number with a point.
pub open spec fn declares_real(capitals: Seq<char>) -> bool {
    holds_word(capitals, seq!['R', 'E', 'A', 'L']) || holds_word(
        capitals,
        seq!['F', 'L', 'O', 'A'],
    ) || holds_word(capitals, seq!['D', 'O', 'U', 'B']) || holds_word(capitals, seq!['N', 'U', 'M'])
        || holds_word(capitals, seq!['D', 'E', 'C'])
}

/// Whether a declaration in capitals has one of the words of byte strings.
pub open spec fn declares_bytes(capitals: Seq<char>) -> bool {
    holds_word(capitals, seq!['B', 'L', 'O', 'B']) || holds_word(
        capitals,
        seq!['B', 'I', 'N', 'A', 'R', 'Y'],
    )
}

/// A declaration in capitals makes a column of integers where INT stands in it, and only
/// there; else of doubles where REAL, FLOA, DOUB, NUM or DEC does; else of truth values
/// where BOOL does; else of byte strings where BLOB or BINARY does; and else of texts.
pub proof fn law_declared_types(capitals: Seq<char>)
    ensures
        ({
            let data_type = declared_type(capitals);
            let whole = holds_word(capitals, seq!['I', 'N', 'T']);
            let truth = holds_word(capitals, seq!['B', 'O', 'O', 'L']);
            &&& data_type == DataType::Int64 <==> whole
            &&& data_type == DataType::Float64 <==> !whole && declares_real(capitals)
            &&& data_type == DataType::Boolean <==> !whole && !declares_real(capitals) && truth
            &&& data_type == DataType::Binary <==> !whole && !declares_real(capitals) && !truth
                && declares_bytes(capitals)
            &&& data_type == DataType::Utf8 <==> !whole && !declares_real(capitals) && !truth
                && !declares_bytes(capitals)
        }),
{
    reveal_strlit("INT");
    reveal_strlit("REAL");
    reveal_strlit("FLOA");
    reveal_strlit("DOUB");
    reveal_strlit("NUM");
    reveal_strlit("DEC");
    reveal_strlit("BOOL");
    reveal_strlit("BLOB");
    reveal_strlit("BINARY");
    assert("INT"@ =~= seq!['I', 'N', 'T']);
    assert("REAL"@ =~= seq!['R', 'E', 'A', 'L']);
    assert("FLOA"@ =~= seq!['F', 'L', 'O', 'A']);
    assert("DOUB"@ =~= seq!['D', 'O', 'U', 'B']);
    assert("NUM"@ =~= seq!['N', 'U', 'M']);
    assert("DEC"@ =~= seq!['D', 'E', 'C']);
    assert("BOOL"@ =~= seq!['B', 'O', 'O', 'L']);
    assert("BLOB"@ =~= seq!['B', 'L', 'O', 'B']);
    assert("BINARY"@ =~= seq!['B', 'I', 'N', 'A', 'R', 'Y']);
    law_contains(capitals, "INT"@);
    law_contains(capitals, "REAL"@);
    law_contains(capitals, "FLOA"@);
    law_contains(capitals, "DOUB"@);
    law_contains(capitals, "NUM"@);
    law_contains(capitals, "DEC"@);
    law_contains(capitals, "BOOL"@);
    law_contains(capitals, "BLOB"@);
    law_contains(capitals, "BINARY"@);
}

/// The type of a column that declares one goes by its declaration in capitals alone,
/// which for ASCII is the declaration with every small letter as its capital.
pub proof fn law_inferred_type_of_declaration(
    declared: &str,
    sample: Option<&ValueRef<'_>>,
    r: DataType,
)
    requires
        call_ensures(infer_arrow_type, (Some(declared), sample), r),
    ensures
        r == declared_type(uppercase(declared@)),
        is_ascii_chars(declared@) ==> r == declared_type(
            declared@.map_values(
                |c: char|
                    if 'a' <= c <= 'z' {
                        (c as u8 - 32) as char
                    } else {
                        c
                    },
            ),
        ),
{
    assert(declared@.map_values(|c: char| crate::text::ascii_upper(c)) =~= declared@.map_values(
        |c: char|
            if 'a' <= c <= 'z' {
                (c as u8 - 32) as char
            } else {
                c
            },
    ));
}

/// A column without a declared type has the type in which its sample value is kept: the
/// integer, the bits of the double, the bytes of the blob and the characters of the text.
pub proof fn law_undeclared_types_keep_the_sample(
    i: i64,
    bits: u64,
    real_text: Seq<char>,
    bytes: Seq<u8>,
    text: Seq<char>,
    number: Option<u64>,
)
    ensures
        ({
            let kept = |datum: Datum| Cells::none(column_type(None, Some(datum))).with(datum);
            &&& kept(Datum::Integer(i)) == Cells::Int64(seq![Some(i)])
            &&& kept(Datum::Real { bits, text: real_text }) == Cells::Float64(seq![Some(bits)])
            &&& kept(Datum::Blob(bytes)) == Cells::Binary(seq![Some(bytes)])
            &&& kept(Datum::Text { bytes: encode_utf8(text), number }) == Cells::Utf8(
                seq![Some(text)],
            )
            &&& kept(Datum::Null) == Cells::Utf8(seq![None])
            &&& column_type(None, None) == DataType::Utf8
        }),
{
    crate::laws::cells::law_integer_cells(i);
    crate::laws::cells::law_double_cells(bits, real_text);
    crate::laws::cells::law_blob_cells(bytes);
    crate::laws::cells::law_text_cells(text, number);
    crate::laws::cells::law_null_cells();
}

/// Each column of a schema has its own name, goes by its own declaration, or by its own
/// value in the sample row, and may hold nulls. Without a declaration and without such a
/// value it is a column of texts.
pub proof fn law_schema_of_columns(
    columns: Seq<(Seq<char>, Option<Seq<char>>)>,
    row: Option<Seq<Datum>>,
    c: int,
)
    requires
        0 <= c < columns.len(),
    ensures
        ({
            let fields = inferred_fields(columns, row);
            let field = fields[c];
            &&& fields.len() == columns.len()
            &&& field.name == columns[c].0
            &&& field.nullable
            &&& match columns[c].1 {
                Some(declared) => field.data_type == declared_type(uppercase(declared)),
                None => match row {
                    Some(values) if c < values.len() => match values[c] {
                        Datum::Integer(_) => field.data_type == DataType::Int64,
                        Datum::Real { .. } => field.data_type == DataType::Float64,
                        Datum::Blob(_) => field.data_type == DataType::Binary,
                        _ => field.data_type == DataType::Utf8,
                    },
                    _ => field.data_type == DataType::Utf8,
                },
            }
        }),
{
}

/// The type of a declaration in capitals is found by its words.
pub proof fn law_type_of_declaration(capitals: &str, r: DataType)
    requires
        call_ensures(type_of_declaration, (capitals,), r),
    ensures
        ({
            let whole = holds_word(capitals@, seq!['I', 'N', 'T']);
            let double = declares_real(capitals@);
            let truth = holds_word(capitals@, seq!['B', 'O', 'O', 'L']);
            let bytes = declares_bytes(capitals@);
            &&& r == DataType::Int64 <==> whole
            &&& r == DataType::Float64 <==> !whole && double
            &&& r == DataType::Boolean <==> !whole && !double && truth
            &&& r == DataType::Binary <==> !whole && !double && !truth && bytes
            &&& r == DataType::Utf8 <==> !whole && !double && !truth && !bytes
        }),
{
    law_declared_types(capitals@);
}

/// Without a declaration, the type is that of the sample, and that of texts without one.
pub proof fn law_inferred_type_of_sample<'a, 'b>(sample: Option<&'b ValueRef<'a>>, r: DataType)
    requires
        call_ensures(infer_arrow_type, (None, sample), r),
    ensures
        r == (match sample {
            Some(ValueRef::Integer(_)) => DataType::Int64,
            Some(ValueRef::Real(_)) => DataType::Float64,
            Some(ValueRef::Blob(_)) => DataType::Binary,
            Some(ValueRef::Text(_)) => DataType::Utf8,
            Some(ValueRef::Null) => DataType::Utf8,
            None => DataType::Utf8,
        }),
{
}

} // verus!
