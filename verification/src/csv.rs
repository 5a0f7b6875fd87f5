//! CSV formatting utilities conforming to RFC 4180 for escaping and streaming
//! values and records.

use crate::text::{joined, lossy_text, signed_decimal, utf8_text, utf8_text_lossy};
use crate::value::{row_data, Datum, RowError, ValueRef};
use vstd::prelude::*;
use vstd::utf8::{decode_utf8, valid_utf8};

verus! {

/// Whether a character forces the field that holds it into quotes.
pub open spec fn special(c: char) -> bool {
    c == ',' || c == '"' || c == '\r' || c == '\n'
}

/// Whether a field holds no character that would force it into quotes.
pub open spec fn plain(field: Seq<char>) -> bool {
    forall|i: int| 0 <= i < field.len() ==> !special(#[trigger] field[i])
}

/// A field with each of its quotes doubled.
pub open spec fn quotes_doubled(field: Seq<char>) -> Seq<char>
    decreases field.len(),
{
    if field.len() == 0 {
        seq![]
    } else if field.last() == '"' {
        quotes_doubled(field.drop_last()).push('"').push('"')
    } else {
        quotes_doubled(field.drop_last()).push(field.last())
    }
}

/// A field as it stands in a record: itself, or in quotes where it holds a
/// comma, a quote or a line break.
pub open spec fn escaped(field: Seq<char>) -> Seq<char> {
    if plain(field) {
        field
    } else {
        seq!['"'] + quotes_doubled(field) + seq!['"']
    }
}

/// A record: its fields, separated by commas and closed by a line break.
pub open spec fn record(fields: Seq<Seq<char>>) -> Seq<char> {
    joined(fields, seq![',']) + seq!['\r', '\n']
}

/// The text of a column value, before it is escaped.
pub open spec fn field_text(datum: Datum) -> Seq<char> {
    match datum {
        Datum::Null => seq![],
        Datum::Integer(i) => signed_decimal(i as int),
        Datum::Real { bits, text } => text,
        Datum::Text { bytes, number } => if valid_utf8(bytes) {
            decode_utf8(bytes)
        } else {
            lossy_text(bytes)
        },
        Datum::Blob(bytes) => if valid_utf8(bytes) {
            decode_utf8(bytes)
        } else {
            lossy_text(bytes)
        },
    }
}

/// A column value as it stands in a record. Numbers are written as they are,
/// text and blobs are escaped.
pub open spec fn value_field(datum: Datum) -> Seq<char> {
    match datum {
        Datum::Text { .. } => escaped(field_text(datum)),
        Datum::Blob(_) => escaped(field_text(datum)),
        _ => field_text(datum),
    }
}

/// The fields of a row, each as it stands in a record.
pub open spec fn row_fields(row: Seq<Datum>) -> Seq<Seq<char>> {
    row.map_values(|datum: Datum| value_field(datum))
}

/// The names of the columns, each as it stands in a record.
pub open spec fn header_fields(names: Seq<Seq<char>>) -> Seq<Seq<char>> {
    names.map_values(|name: Seq<char>| escaped(name))
}

/// Decides whether a field has to stand in quotes.
fn needs_quotes(field: &str) -> (r: bool)
    ensures
        r == !plain(field@),
{
    let mut found: bool = false;
    for c in it: field.chars()
        invariant
            it.seq() == field@,
            found == exists|i: int| 0 <= i < it.index() && special(#[trigger] field@[i]),
    {
        if c == ',' || c == '"' || c == '\r' || c == '\n' {
            found = true;
            assert(special(field@[it.index()]));
        }
    }
    found
}

/// Escapes and writes a string field into a CSV buffer according to RFC 4180.
///
/// Fields containing commas, double quotes, or newlines are enclosed in double quotes.
pub fn write_escaped_field(output: &mut String, field: &str)
    ensures
        final(output)@ == old(output)@ + escaped(field@),
{
    let ghost before = output@;
    if needs_quotes(field) {
        output.push('"');
        assert(output@ =~= before + seq!['"'] + quotes_doubled(field@.take(0)));
        for c in it: field.chars()
            invariant
                it.seq() == field@,
                output@ == before + seq!['"'] + quotes_doubled(field@.take(it.index())),
        {
            let ghost longer = field@.take(it.index() + 1);
            assert(longer.drop_last() =~= field@.take(it.index()));
            assert(longer.last() == c);
            if c == '"' {
                output.push('"');
            }
            output.push(c);
            assert(output@ =~= before + seq!['"'] + quotes_doubled(longer));
        }
        output.push('"');
        assert(field@.take(field@.len() as int) =~= field@);
        assert(output@ =~= before + escaped(field@));
    } else {
        output.push_str(field);
    }
}

/// The buffer of the `itoa` crate that integers are formatted in.
#[verifier::external_type_specification]
#[verifier::external_body]
pub struct ExItoaBuffer(itoa::Buffer);

/// `itoa::Buffer::new` makes an empty buffer.
pub assume_specification[ itoa::Buffer::new ]() -> (r: itoa::Buffer)
;

/// `itoa::Buffer::format` writes a 64-bit integer in decimal digits, with a
/// minus sign before a negative one.
#[verifier::external_body]
pub(crate) fn format_integer(buffer: &mut itoa::Buffer, value: i64) -> (r: &str)
    ensures
        r@ == signed_decimal(value as int),
{
    buffer.format(value)
}

/// Reusable formatting buffers for CSV serialization across rows and columns.
pub struct CsvFormatter {
    itoa_buffer: itoa::Buffer,
}

impl Default for CsvFormatter {
    fn default() -> (r: CsvFormatter) {
        CsvFormatter::new()
    }
}

impl CsvFormatter {
    /// Creates a new `CsvFormatter` with an initialized `itoa` buffer.
    pub fn new() -> (r: CsvFormatter) {
        CsvFormatter { itoa_buffer: itoa::Buffer::new() }
    }

    /// Formats and writes a column value into a CSV buffer reusing internal buffers.
    pub fn write_value(&mut self, output: &mut String, value: &ValueRef<'_>)
        ensures
            final(output)@ == old(output)@ + value_field(value@),
    {
        match value {
            ValueRef::Null => {
                assert(output@ =~= output@ + value_field(value@));
            },
            ValueRef::Integer(integer) => {
                output.push_str(format_integer(&mut self.itoa_buffer, *integer));
            },
            ValueRef::Real(number) => {
                output.push_str(number.text.as_str());
            },
            ValueRef::Text(text) => {
                write_bytes(output, text.bytes);
            },
            ValueRef::Blob(bytes) => {
                write_bytes(output, bytes);
            },
        }
    }

    /// Formats the first `column_count` values of a row into a CSV record.
    ///
    /// Where the row has fewer values, those it has are written, each followed by
    /// a comma, and the index of the first missing one is the error.
    pub fn write_row(
        &mut self,
        output: &mut String,
        row: &[ValueRef<'_>],
        column_count: usize,
    ) -> (r: Result<(), RowError>)
        ensures
            column_count <= row@.len() ==> r is Ok && final(output)@ == old(output)@ + record(
                row_fields(row_data(row@).take(column_count as int)),
            ),
            column_count > row@.len() ==> r == Err::<(), RowError>(
                RowError::InvalidColumnIndex(row@.len() as usize),
            ) && final(output)@ == old(output)@ + joined(
                row_fields(row_data(row@)),
                seq![','],
            ) + (if row@.len() > 0 {
                seq![',']
            } else {
                seq![]
            }),
    {
        let ghost before = output@;
        let ghost fields = row_fields(row_data(row@));
        let mut column: usize = 0;
        assert(output@ =~= before + joined(fields.take(0), seq![',']));
        while column < column_count
            invariant
                column <= column_count,
                column <= row@.len(),
                fields == row_fields(row_data(row@)),
                output@ == before + joined(fields.take(column as int), seq![',']),
                before == old(output)@,
            decreases column_count - column,
        {
            if column > 0 {
                output.push(',');
            }
            if column >= row.len() {
                assert(fields.take(column as int) =~= fields);
                assert(output@ =~= before + joined(fields, seq![',']) + (if row@.len() > 0 {
                    seq![',']
                } else {
                    seq![]
                }));
                return Err(RowError::InvalidColumnIndex(column));
            }
            self.write_value(output, &row[column]);
            proof {
                let piece = fields[column as int];
                assert(piece == value_field(row@[column as int]@));
                assert(fields.take(column + 1) =~= fields.take(column as int).push(piece));
                crate::text::lemma_joined_push(fields.take(column as int), piece, seq![',']);
                assert(output@ =~= before + joined(fields.take(column + 1), seq![',']));
            }
            column = column + 1;
        }
        proof {
            reveal_strlit("\r\n");
            assert("\r\n"@ =~= seq!['\r', '\n']);
            assert(fields.take(column_count as int) =~= row_fields(
                row_data(row@).take(column_count as int),
            ));
        }
        output.push_str("\r\n");
        assert(output@ =~= before + record(fields.take(column_count as int)));
        Ok(())
    }
}

/// Writes the text that bytes encode, escaped.
fn write_bytes(output: &mut String, bytes: &[u8])
    ensures
        final(output)@ == old(output)@ + escaped(field_text(Datum::Blob(bytes@))),
{
    match utf8_text(bytes) {
        Some(text) => write_escaped_field(output, text),
        None => {
            let text: String = utf8_text_lossy(bytes);
            write_escaped_field(output, text.as_str());
        },
    }
}

/// Formats and writes a column value into a CSV buffer.
pub fn write_value(output: &mut String, value: &ValueRef<'_>)
    ensures
        final(output)@ == old(output)@ + value_field(value@),
{
    let mut formatter: CsvFormatter = CsvFormatter::new();
    formatter.write_value(output, value);
}

/// Writes a CSV header record from the column names.
pub fn write_header(output: &mut String, fields: &[&str])
    ensures
        final(output)@ == old(output)@ + record(
            header_fields(fields@.map_values(|name: &str| name@)),
        ),
{
    let ghost before = output@;
    let ghost names = fields@.map_values(|name: &str| name@);
    let ghost pieces = header_fields(names);
    let mut column: usize = 0;
    assert(output@ =~= before + joined(pieces.take(0), seq![',']));
    while column < fields.len()
        invariant
            column <= fields@.len(),
            names == fields@.map_values(|name: &str| name@),
            pieces == header_fields(names),
            output@ == before + joined(pieces.take(column as int), seq![',']),
        decreases fields@.len() - column,
    {
        if column > 0 {
            output.push(',');
        }
        write_escaped_field(output, fields[column]);
        proof {
            let piece = pieces[column as int];
            assert(piece == escaped(fields@[column as int]@));
            assert(pieces.take(column + 1) =~= pieces.take(column as int).push(piece));
            crate::text::lemma_joined_push(pieces.take(column as int), piece, seq![',']);
            assert(output@ =~= before + joined(pieces.take(column + 1), seq![',']));
        }
        column = column + 1;
    }
    proof {
        reveal_strlit("\r\n");
        assert("\r\n"@ =~= seq!['\r', '\n']);
        assert(pieces.take(column as int) =~= pieces);
    }
    output.push_str("\r\n");
    assert(output@ =~= before + record(pieces));
}

/// Formats the first `column_count` values of a row into a CSV record.
pub fn write_row(output: &mut String, row: &[ValueRef<'_>], column_count: usize) -> (r: Result<
    (),
    RowError,
>)
    ensures
        column_count <= row@.len() ==> r is Ok && final(output)@ == old(output)@ + record(
            row_fields(row_data(row@).take(column_count as int)),
        ),
        column_count > row@.len() ==> r == Err::<(), RowError>(
            RowError::InvalidColumnIndex(row@.len() as usize),
        ) && final(output)@ == old(output)@ + joined(row_fields(row_data(row@)), seq![',']) + (
        if row@.len() > 0 {
            seq![',']
        } else {
            seq![]
        }),
{
    let mut formatter: CsvFormatter = CsvFormatter::new();
    formatter.write_row(output, row, column_count)
}

/// Writes CSV records into a buffer.
pub struct CsvWriter {
    output: String,
    formatter: CsvFormatter,
}

impl View for CsvWriter {
    type V = Seq<char>;

    /// What is in the buffer.
    closed spec fn view(&self) -> Seq<char> {
        self.output@
    }
}

impl CsvWriter {
    /// Creates a new `CsvWriter` with an empty buffer.
    pub fn new() -> (r: CsvWriter)
        ensures
            r@.len() == 0,
    {
        CsvWriter { output: String::new(), formatter: CsvFormatter::new() }
    }

    /// Writes a CSV header record from the column names.
    pub fn write_header(&mut self, fields: &[&str])
        ensures
            final(self)@ == old(self)@ + record(
                header_fields(fields@.map_values(|name: &str| name@)),
            ),
    {
        write_header(&mut self.output, fields);
    }

    /// Writes the first `column_count` values of a row as a CSV record. A row with
    /// fewer values leaves part of a record in the buffer.
    pub fn write_row(&mut self, row: &[ValueRef<'_>], column_count: usize) -> (r: Result<
        (),
        RowError,
    >)
        ensures
            column_count <= row@.len() ==> r is Ok && final(self)@ == old(self)@ + record(
                row_fields(row_data(row@).take(column_count as int)),
            ),
            column_count > row@.len() ==> r == Err::<(), RowError>(
                RowError::InvalidColumnIndex(row@.len() as usize),
            ) && final(self)@ == old(self)@ + joined(row_fields(row_data(row@)), seq![',']) + (
            if row@.len() > 0 {
                seq![',']
            } else {
                seq![]
            }),
    {
        self.formatter.write_row(&mut self.output, row, column_count)
    }

    /// What is in the buffer.
    pub fn get_ref(&self) -> (r: &str)
        ensures
            r@ == self@,
    {
        self.output.as_str()
    }

    /// Empties the buffer, and returns what was in it.
    pub fn take(&mut self) -> (r: String)
        ensures
            r@ == old(self)@,
            final(self)@.len() == 0,
    {
        let mut taken: String = String::new();
        std::mem::swap(&mut self.output, &mut taken);
        taken
    }
}

} // verus!
