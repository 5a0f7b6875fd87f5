//! What stands in CSV.

use crate::csv::{
    escaped, field_text, header_fields, plain, quotes_doubled, record, row_fields, special,
    value_field, write_escaped_field, write_header, write_row, write_value, CsvFormatter, CsvWriter,
};
use crate::export::rows_complete;
use crate::rfc4180::read_document;
use crate::stream::{
    csv_text, law_csv_result_reads_back, numbers_plain, result_records, CsvExport, CsvStream,
};
use crate::text::{i64_value, joined, law_integer_text_reads_back, lossy_text, signed_decimal};
use crate::value::{row_data, Datum, RowError, ValueRef};
use vstd::prelude::*;
use vstd::utf8::{decode_utf8, encode_utf8, valid_utf8};

verus! {

/// Whether a character is a comma, a quote, a carriage return or a line feed.
pub open spec fn needs_quotes(c: char) -> bool {
    c as int == 44 || c as int == 34 || c as int == 13 || c as int == 10
}

/// A field without commas, quotes and line breaks stands as it is. One with any of them
/// stands in quotes, with its own quotes doubled.
pub proof fn law_escaped_fields(field: Seq<char>, at: int)
    ensures
        (forall|i: int| 0 <= i < field.len() ==> !needs_quotes(#[trigger] field[i])) ==> escaped(
            field,
        ) == field,
        0 <= at < field.len() && needs_quotes(field[at]) ==> escaped(field) == seq!['"']
            + quotes_doubled(field) + seq!['"'],
{
    assert forall|i: int| 0 <= i < field.len() implies special(#[trigger] field[i])
        == needs_quotes(field[i]) by {}
    if forall|i: int| 0 <= i < field.len() ==> !needs_quotes(#[trigger] field[i]) {
        assert(plain(field));
    }
    if 0 <= at < field.len() && needs_quotes(field[at]) {
        assert(special(field[at]));
        assert(!plain(field));
    }
}

/// A quote is written twice, and every other character once, in its place.
pub proof fn law_doubled_quotes(field: Seq<char>, c: char)
    ensures
        quotes_doubled(seq![]) == Seq::<char>::empty(),
        quotes_doubled(field.push(c)) == (if c == '"' {
            quotes_doubled(field) + seq!['"', '"']
        } else {
            quotes_doubled(field) + seq![c]
        }),
{
    assert(field.push(c).drop_last() =~= field);
    assert(quotes_doubled(field.push(c)) =~= (if c == '"' {
        quotes_doubled(field) + seq!['"', '"']
    } else {
        quotes_doubled(field) + seq![c]
    }));
}

/// No value is an empty field, an integer its decimal digits, and a double its decimal
/// text, neither of them in quotes. The text that bytes encode is escaped and otherwise
/// kept character by character, whether they are those of a text or of a blob, and what
/// stands in for ill-formed bytes is escaped too.
pub proof fn law_value_fields(
    i: i64,
    bits: u64,
    real_text: Seq<char>,
    text: Seq<char>,
    number: Option<u64>,
    broken: Seq<u8>,
)
    ensures
        value_field(Datum::Null) == Seq::<char>::empty(),
        value_field(Datum::Integer(i)) == signed_decimal(i as int),
        value_field(Datum::Real { bits, text: real_text }) == real_text,
        value_field(Datum::Text { bytes: encode_utf8(text), number }) == escaped(text),
        value_field(Datum::Blob(encode_utf8(text))) == escaped(text),
        !valid_utf8(broken) ==> value_field(Datum::Text { bytes: broken, number }) == escaped(
            lossy_text(broken),
        ),
        !valid_utf8(broken) ==> value_field(Datum::Blob(broken)) == escaped(lossy_text(broken)),
{
    vstd::utf8::encode_utf8_valid_utf8(text);
    vstd::utf8::encode_utf8_decode_utf8(text);
}

/// The fields of a record stand in order, with a comma between each two, and are followed
/// by a carriage return and a line feed.
pub proof fn law_records(fields: Seq<Seq<char>>, field: Seq<char>)
    ensures
        record(seq![]) == seq!['\r', '\n'],
        record(seq![field]) == field + seq!['\r', '\n'],
        fields.len() > 0 ==> record(fields.push(field)) == record(fields).take(
            record(fields).len() - 2,
        ) + seq![','] + field + seq!['\r', '\n'],
{
    assert(record(seq![]) =~= seq!['\r', '\n']);
    if fields.len() > 0 {
        crate::text::lemma_joined_push(fields, field, seq![',']);
        assert(record(fields).take(record(fields).len() - 2) =~= joined(fields, seq![',']));
    }
}

/// The text of a result begins with a record of the column names, where there are any,
/// and goes on with a record for each row, of the fields of its first values, as many as
/// there are columns.
pub proof fn law_csv_text(names: Seq<Seq<char>>, rows: Seq<Seq<Datum>>, row: Seq<Datum>, c: int)
    ensures
        names.len() == 0 ==> csv_text(names, seq![]) == Seq::<char>::empty(),
        names.len() > 0 ==> csv_text(names, seq![]) == record(header_fields(names)),
        header_fields(names).len() == names.len(),
        0 <= c < names.len() ==> header_fields(names)[c] == escaped(names[c]),
        csv_text(names, rows.push(row)) == csv_text(names, rows) + record(
            row_fields(row.take(names.len() as int)),
        ),
        names.len() <= row.len() ==> row_fields(row.take(names.len() as int)).len() == names.len(),
        0 <= c < names.len() <= row.len() ==> row_fields(row.take(names.len() as int))[c]
            == value_field(row[c]),
{
    assert(rows.push(row).drop_last() =~= rows);
}

/// Who reads a result by RFC 4180 gets as many records as there are rows and one more,
/// with as many fields as there are columns: first the names of the columns, and then of
/// each row every value in its place. No value reads as an empty field, an integer as a
/// text that denotes it, a double as its decimal text, and a text or a blob as the
/// characters that its bytes encode, none added, dropped or changed.
pub proof fn law_every_value_reads_back(
    names: Seq<Seq<char>>,
    rows: Seq<Seq<Datum>>,
    i: int,
    c: int,
)
    requires
        names.len() > 0,
        rows_complete(rows, names.len()),
        numbers_plain(rows),
        0 <= i < rows.len(),
        0 <= c < names.len(),
    ensures
        ({
            let records = read_document(csv_text(names, rows));
            let field = records[i + 1][c];
            &&& records.len() == rows.len() + 1
            &&& records[0] == names
            &&& records[i + 1].len() == names.len()
            &&& match rows[i][c] {
                Datum::Null => field.len() == 0,
                Datum::Integer(n) => i64_value(field) == Some(n) && field == signed_decimal(
                    n as int,
                ),
                Datum::Real { bits, text } => field == text,
                Datum::Text { bytes, number } => if valid_utf8(bytes) {
                    field == decode_utf8(bytes) && encode_utf8(field) == bytes
                } else {
                    field == lossy_text(bytes)
                },
                Datum::Blob(bytes) => if valid_utf8(bytes) {
                    field == decode_utf8(bytes) && encode_utf8(field) == bytes
                } else {
                    field == lossy_text(bytes)
                },
            }
        }),
{
    law_csv_result_reads_back(names, rows);
    let records = result_records(names, rows);
    assert(records[0] =~= names);
    assert(rows[i].len() >= names.len());
    assert(records[i + 1] =~= rows[i].take(names.len() as int).map_values(
        |datum: Datum| field_text(datum),
    ));
    assert(records[i + 1][c] == field_text(rows[i][c]));
    match rows[i][c] {
        Datum::Integer(n) => {
            law_integer_text_reads_back(n);
        },
        Datum::Text { bytes, number } => {
            if valid_utf8(bytes) {
                vstd::utf8::decode_utf8_encode_utf8(bytes);
            }
        },
        Datum::Blob(bytes) => {
            if valid_utf8(bytes) {
                vstd::utf8::decode_utf8_encode_utf8(bytes);
            }
        },
        _ => {},
    }
}

/// A field is written behind what was there, escaped.
pub proof fn law_written_fields(output: &mut String, field: &str)
    requires
        call_ensures(write_escaped_field, (output, field), ()),
    ensures
        final(output)@ == old(output)@ + escaped(field@),
{
}

/// A value is written behind what was there. A text or a blob of well-formed bytes adds the
/// characters that these encode, escaped and otherwise unchanged, and one of ill-formed
/// bytes what stands in for them. No value adds nothing, an integer its digits, and a
/// double its decimal text.
pub proof fn law_written_values<'a>(
    formatter: &mut CsvFormatter,
    output: &mut String,
    alone: &mut String,
    value: &ValueRef<'a>,
    text: Seq<char>,
)
    requires
        call_ensures(CsvFormatter::write_value, (formatter, output, value), ()),
        call_ensures(write_value, (alone, value), ()),
    ensures
        ({
            let added = match value@ {
                Datum::Null => Seq::<char>::empty(),
                Datum::Integer(i) => signed_decimal(i as int),
                Datum::Real { bits, text } => text,
                Datum::Text { bytes, number } => if valid_utf8(bytes) {
                    escaped(decode_utf8(bytes))
                } else {
                    escaped(lossy_text(bytes))
                },
                Datum::Blob(bytes) => if valid_utf8(bytes) {
                    escaped(decode_utf8(bytes))
                } else {
                    escaped(lossy_text(bytes))
                },
            };
            &&& final(output)@ == old(output)@ + added
            &&& final(alone)@ == old(alone)@ + added
        }),
        value@ == Datum::Blob(encode_utf8(text)) ==> final(output)@ == old(output)@ + escaped(text),
{
    vstd::utf8::encode_utf8_valid_utf8(text);
    vstd::utf8::encode_utf8_decode_utf8(text);
}

/// A header is written behind what was there, as a record of the names in order, each of
/// them escaped.
pub proof fn law_written_headers(
    writer: &mut CsvWriter,
    output: &mut String,
    names: &[&str],
    fields: Seq<Seq<char>>,
)
    requires
        call_ensures(CsvWriter::write_header, (writer, names), ()),
        call_ensures(write_header, (output, names), ()),
        fields.len() == names@.len(),
        forall|c: int| 0 <= c < fields.len() ==> #[trigger] fields[c] == escaped(names@[c]@),
    ensures
        final(writer)@ == old(writer)@ + record(fields),
        final(output)@ == old(output)@ + record(fields),
{
    assert(header_fields(names@.map_values(|name: &str| name@)) =~= fields);
}

/// A row with enough values is written behind what was there, as a record of the fields of
/// its values in order, as many as there are columns. A shorter one is refused, and the
/// first column without a value is told.
pub proof fn law_written_rows<'a>(
    writer: &mut CsvWriter,
    output: &mut String,
    row: &[ValueRef<'a>],
    column_count: usize,
    r: Result<(), RowError>,
    s: Result<(), RowError>,
    fields: Seq<Seq<char>>,
)
    requires
        call_ensures(CsvWriter::write_row, (writer, row, column_count), r),
        call_ensures(write_row, (output, row, column_count), s),
        fields.len() == column_count,
        forall|c: int|
            0 <= c < fields.len() && c < row@.len() ==> #[trigger] fields[c] == value_field(
                row@[c]@,
            ),
    ensures
        column_count <= row@.len() ==> {
            &&& r is Ok
            &&& s is Ok
            &&& final(writer)@ == old(writer)@ + record(fields)
            &&& final(output)@ == old(output)@ + record(fields)
        },
        column_count > row@.len() ==> r == Err::<(), RowError>(
            RowError::InvalidColumnIndex(row@.len() as usize),
        ) && s == r,
{
    if column_count <= row@.len() {
        assert(row_fields(row_data(row@).take(column_count as int)) =~= fields);
    }
}

/// What is taken out of a writer is all that was written, and nothing is left.
pub proof fn law_taken_texts(writer: &mut CsvWriter, text: String)
    requires
        call_ensures(CsvWriter::take, (writer,), text),
    ensures
        text@ == old(writer)@,
        final(writer)@ == Seq::<char>::empty(),
{
}

/// A result that is sent as CSV row by row is the text of the result. A row with too few
/// values is refused, and the first column without a value is told. All that was not sent
/// is sent once it has 64 KiB, and nothing before.
pub proof fn law_sent_rows<'a>(
    stream: &mut CsvStream,
    row: &[ValueRef<'a>],
    r: Result<Option<Vec<u8>>, RowError>,
)
    requires
        old(stream).valid(),
        call_ensures(CsvStream::push_row, (stream, row), r),
    ensures
        row@.len() < old(stream)@.names.len() ==> r == Err::<Option<Vec<u8>>, RowError>(
            RowError::InvalidColumnIndex(row@.len() as usize),
        ),
        row@.len() >= old(stream)@.names.len() ==> {
            let rows = old(stream)@.rows.push(row_data(row@));
            let due = encode_utf8(csv_text(old(stream)@.names, rows));
            &&& final(stream)@.names == old(stream)@.names
            &&& final(stream)@.rows == rows
            &&& final(stream).sent().is_prefix_of(due)
            &&& r matches Ok(chunk) && match chunk {
                Some(bytes) => bytes@.len() >= 65536 && final(stream).sent() == due && due == old(
                    stream,
                ).sent() + bytes@,
                None => final(stream).sent() == old(stream).sent() && due.len() - old(
                    stream,
                ).sent().len() < 65536,
            }
        },
{
    if let Ok(chunk) = r {
        let due = encode_utf8(csv_text(final(stream)@.names, final(stream)@.rows));
        if chunk is Some {
            assert(encode_utf8(final(stream)@.waiting) =~= seq![]);
            assert(final(stream).sent() =~= due);
        }
    }
}

/// What is sent at the end of a CSV result makes it the whole text of the result.
pub proof fn law_sent_ends(stream: CsvStream, r: Option<Vec<u8>>)
    requires
        stream.valid(),
        call_ensures(CsvStream::finish, (stream,), r),
    ensures
        encode_utf8(csv_text(stream@.names, stream@.rows)) == stream.sent() + (match r {
            Some(bytes) => bytes@,
            None => seq![],
        }),
        r matches Some(bytes) ==> bytes@.len() > 0,
{
    assert(stream.sent() + seq![] =~= stream.sent());
}

/// A CSV result begins with nothing sent, no rows, and the names of its columns in order.
pub proof fn law_sent_beginnings(names: &[&str], stream: CsvStream, c: int)
    requires
        call_ensures(CsvStream::start, (names,), stream),
        0 <= c < names@.len(),
    ensures
        stream.valid(),
        stream.sent().len() == 0,
        stream@.rows.len() == 0,
        stream@.names.len() == names@.len(),
        stream@.names[c] == names@[c]@,
{
}

/// A result that is exported as CSV row by row gives its text in parts: what was taken, with
/// what waits, is the text of the result. A row with too few values is refused, and the
/// first column without a value is told.
pub proof fn law_exported_rows<'a>(
    export: &mut CsvExport,
    row: &[ValueRef<'a>],
    r: Result<(), RowError>,
    fields: Seq<Seq<char>>,
)
    requires
        old(export).valid(),
        call_ensures(CsvExport::push_row, (export, row), r),
        fields.len() == old(export)@.names.len(),
        forall|c: int|
            0 <= c < fields.len() && c < row@.len() ==> #[trigger] fields[c] == value_field(
                row@[c]@,
            ),
    ensures
        row@.len() < old(export)@.names.len() ==> r == Err::<(), RowError>(
            RowError::InvalidColumnIndex(row@.len() as usize),
        ),
        row@.len() >= old(export)@.names.len() ==> {
            &&& r is Ok
            &&& final(export)@.names == old(export)@.names
            &&& final(export)@.rows == old(export)@.rows.push(row_data(row@))
            &&& final(export)@.taken == old(export)@.taken
            &&& final(export)@.waiting == old(export)@.waiting + record(fields)
        },
{
    if row@.len() >= old(export)@.names.len() {
        assert(row_fields(row_data(row@).take(fields.len() as int)) =~= fields);
    }
}

/// What is taken of an export is all that waits, and at the end nothing is left out.
pub proof fn law_exported_texts(
    export: &mut CsvExport,
    part: String,
    other: CsvExport,
    rest: String,
    size: usize,
)
    requires
        old(export).valid(),
        other.valid(),
        call_ensures(CsvExport::take, (export,), part),
        call_ensures(CsvExport::finish, (other,), rest),
        call_ensures(CsvExport::waiting_size, (&other,), size),
    ensures
        part@ == old(export)@.waiting,
        final(export)@.waiting.len() == 0,
        final(export)@.taken == old(export)@.taken + part@,
        final(export)@.rows == old(export)@.rows,
        csv_text(other@.names, other@.rows) == other@.taken + rest@,
        size == encode_utf8(other@.waiting).len(),
{
}

/// An export begins with nothing taken, and with the names of its columns waiting.
pub proof fn law_exported_beginnings(names: &[&str], export: CsvExport, fields: Seq<Seq<char>>)
    requires
        call_ensures(CsvExport::start, (names,), export),
        fields.len() == names@.len(),
        fields.len() > 0,
        forall|c: int| 0 <= c < fields.len() ==> #[trigger] fields[c] == escaped(names@[c]@),
    ensures
        export.valid(),
        export@.rows.len() == 0,
        export@.taken.len() == 0,
        export@.waiting == record(fields),
{
    assert(header_fields(names@.map_values(|name: &str| name@)) =~= fields);
}

} // verus!
