//! What stands in Parquet files.

use crate::body::result_fields;
use crate::cell::{reads_real_text, reads_text_number, Cells};
use crate::columns::{batch_accepted, payload};
use crate::export::{
    batches, columns_of, exported, law_batch_sizes, law_batches_hold_every_row,
    law_columns_hold_every_value, lemma_columns_of, rows_complete, waiting_rows, ExportError,
    ParquetExport,
};
use crate::parquet_file::{columns_in, magic, parquet_file, Compression};
use crate::parquet_format::{
    concatenation, create_parquet_writer, has_room, ChunkWriter, ColumnMetadata, Delivery,
    Disconnected, ParquetWriter, RecordBatch, RecordBatchAccumulator,
};
use crate::schema::{
    all_column_parts, columns_fit, declared_type, infer_schema_from_metadata, names_size,
    schema_fits, DataType, FieldView, Schema, SchemaRef,
};
use crate::stream::ParquetStream;
use crate::text::uppercase;
use crate::value::{row_data, Datum, RowError, ValueRef};
use arrow_schema::ArrowError;
use parquet::errors::ParquetError;
use vstd::prelude::*;
use vstd::utf8::{encode_utf8, valid_utf8};

verus! {

/// Whether a cell of a column is the only cell of another column of the same type.
pub open spec fn same_cell(cells: Cells, i: int, alone: Cells) -> bool {
    match (cells, alone) {
        (Cells::Int64(all), Cells::Int64(one)) => 0 <= i < all.len() && one.len() == 1 && all[i]
            == one[0],
        (Cells::Float64(all), Cells::Float64(one)) => 0 <= i < all.len() && one.len() == 1 && all[i]
            == one[0],
        (Cells::Boolean(all), Cells::Boolean(one)) => 0 <= i < all.len() && one.len() == 1 && all[i]
            == one[0],
        (Cells::Binary(all), Cells::Binary(one)) => 0 <= i < all.len() && one.len() == 1 && all[i]
            == one[0],
        (Cells::Utf8(all), Cells::Utf8(one)) => 0 <= i < all.len() && one.len() == 1 && all[i]
            == one[0],
        _ => false,
    }
}

/// How many cells a column has.
pub open spec fn cell_count(cells: Cells) -> nat {
    match cells {
        Cells::Int64(all) => all.len(),
        Cells::Float64(all) => all.len(),
        Cells::Boolean(all) => all.len(),
        Cells::Binary(all) => all.len(),
        Cells::Utf8(all) => all.len(),
    }
}

proof fn lemma_same_cell(fields: Seq<FieldView>, rows: Seq<Seq<Datum>>, i: int, c: int)
    requires
        rows_complete(rows, fields.len()),
        0 <= i < rows.len(),
        0 <= c < fields.len(),
    ensures
        same_cell(columns_of(fields, rows)[c], i, Cells::none(fields[c].data_type).with(rows[i][c])),
{
    lemma_columns_of(fields, rows);
    law_columns_hold_every_value(fields, rows, i, c);
    let alone = Cells::none(fields[c].data_type).with(rows[i][c]);
    match columns_of(fields, rows)[c].only(i) {
        Cells::Int64(one) => {
            assert(one[0] == (alone->Int64_0)[0]);
        },
        Cells::Float64(one) => {
            assert(one[0] == (alone->Float64_0)[0]);
        },
        Cells::Boolean(one) => {
            assert(one[0] == (alone->Boolean_0)[0]);
        },
        Cells::Binary(one) => {
            assert(one[0] == (alone->Binary_0)[0]);
        },
        Cells::Utf8(one) => {
            assert(one[0] == (alone->Utf8_0)[0]);
        },
    }
}

/// Rows make a column for each field. It has a cell for each row, and the cell is the one
/// that the value of that row and column makes in a column of that type.
pub proof fn law_columns_of_rows(fields: Seq<FieldView>, rows: Seq<Seq<Datum>>, i: int, c: int)
    requires
        forall|k: int| 0 <= k < rows.len() ==> (#[trigger] rows[k]).len() >= fields.len(),
        0 <= i < rows.len(),
        0 <= c < fields.len(),
    ensures
        columns_of(fields, rows).len() == fields.len(),
        cell_count(columns_of(fields, rows)[c]) == rows.len(),
        same_cell(columns_of(fields, rows)[c], i, Cells::none(fields[c].data_type).with(rows[i][c])),
{
    lemma_columns_of(fields, rows);
    lemma_same_cell(fields, rows, i, c);
}

/// A query result is a file compressed with Zstandard, of batches of 8192 rows, of which
/// only the last can have fewer, and never more than it takes. Every row is in its place:
/// what a batch has in a row and a column is the cell that the value makes there. A result
/// without rows is one batch without rows.
pub proof fn law_files_of_results(
    fields: Seq<FieldView>,
    rows: Seq<Seq<Datum>>,
    b: int,
    j: int,
    c: int,
)
    requires
        forall|k: int| 0 <= k < rows.len() ==> (#[trigger] rows[k]).len() >= fields.len(),
        0 <= b < batches(fields, rows).len(),
        0 <= c < fields.len(),
    ensures
        exported(fields, rows) == parquet_file(Compression::Zstd, fields, batches(fields, rows)),
        ({
            let all = batches(fields, rows);
            let rest = rows.len() - b * 8192;
            &&& rows.len() == 0 ==> all.len() == 1
            &&& rows.len() > 0 ==> (all.len() - 1) * 8192 < rows.len() <= all.len() * 8192
            &&& all[b].len() == fields.len()
            &&& cell_count(all[b][c]) == (if rest >= 8192 {
                8192
            } else {
                rest
            })
            &&& 0 <= j < cell_count(all[b][c]) ==> same_cell(
                all[b][c],
                j,
                Cells::none(fields[c].data_type).with(rows[b * 8192 + j][c]),
            )
        }),
{
    law_batch_sizes(rows, b);
    law_batches_hold_every_row(rows);
    let part = crate::export::batch_rows(rows, b);
    assert(rows_complete(part, fields.len()));
    lemma_columns_of(fields, part);
    if 0 <= j < part.len() {
        assert(part[j] == rows[b * 8192 + j]);
        lemma_same_cell(fields, part, j, c);
    }
}

/// What the batches of a file hold, one after the other, is what the rows make.
pub proof fn law_files_hold_all_rows(fields: Seq<FieldView>, rows: Seq<Seq<Datum>>, i: int, c: int)
    requires
        forall|k: int| 0 <= k < rows.len() ==> (#[trigger] rows[k]).len() >= fields.len(),
        0 <= i < rows.len(),
        0 <= c < fields.len(),
    ensures
        ({
            let column = columns_in(fields, batches(fields, rows))[c];
            &&& cell_count(column) == rows.len()
            &&& same_cell(column, i, Cells::none(fields[c].data_type).with(rows[i][c]))
        }),
{
    crate::export::law_batches_make_up_the_columns(fields, rows);
    law_columns_of_rows(fields, rows, i, c);
}

/// The columns of a file have the names of the columns of the result, in order, and may
/// all hold nulls. A declared type decides, and else the value in the first row, whatever
/// comes after it.
pub proof fn law_fields_of_results(
    columns: Seq<(Seq<char>, Option<Seq<char>>)>,
    rows: Seq<Seq<Datum>>,
    c: int,
)
    requires
        0 <= c < columns.len(),
        rows.len() > 0 ==> rows[0].len() >= columns.len(),
    ensures
        ({
            let fields = result_fields(columns, rows);
            &&& fields.len() == columns.len()
            &&& fields[c].name == columns[c].0
            &&& fields[c].nullable
            &&& fields[c].data_type == (match columns[c].1 {
                Some(declared) => declared_type(uppercase(declared)),
                None => if rows.len() == 0 {
                    DataType::Utf8
                } else {
                    match rows[0][c] {
                        Datum::Integer(_) => DataType::Int64,
                        Datum::Real { .. } => DataType::Float64,
                        Datum::Blob(_) => DataType::Binary,
                        Datum::Text { .. } => DataType::Utf8,
                        Datum::Null => DataType::Utf8,
                    }
                },
            })
        }),
{
}

/// What the metadata of columns says comes in order, the name first.
pub proof fn law_column_parts(columns: Seq<ColumnMetadata>, c: int)
    requires
        0 <= c < columns.len(),
    ensures
        all_column_parts(columns).len() == columns.len(),
        all_column_parts(columns)[c].0 == columns[c].0@,
        all_column_parts(columns)[c].1 is Some <==> columns[c].1 is Some,
        columns[c].1 matches Some(declared) ==> all_column_parts(columns)[c].1 == Some(declared@),
{
}

/// What a value is told of: an integer, the bits and the decimal text of a double, the
/// bytes of a text with the double that it denotes, and the bytes of a blob.
pub proof fn law_values_of_rows<'a>(row: Seq<ValueRef<'a>>, c: int)
    requires
        0 <= c < row.len(),
    ensures
        row_data(row).len() == row.len(),
        row_data(row)[c] == (match row[c] {
            ValueRef::Null => Datum::Null,
            ValueRef::Integer(i) => Datum::Integer(i),
            ValueRef::Real(number) => Datum::Real { bits: number.bits, text: number.text@ },
            ValueRef::Text(text) => Datum::Text { bytes: text.bytes@, number: text.number },
            ValueRef::Blob(bytes) => Datum::Blob(bytes@),
        }),
{
}

/// The decimal text of a double is asked for exactly where another text would make another
/// cell.
pub proof fn law_needed_real_texts(
    data_type: DataType,
    needed: bool,
    bits: u64,
    text: Seq<char>,
    other: Seq<char>,
)
    requires
        call_ensures(reads_real_text, (data_type,), needed),
        text != other,
    ensures
        needed <==> Cells::none(data_type).with(Datum::Real { bits, text }) != Cells::none(
            data_type,
        ).with(Datum::Real { bits, text: other }),
{
    crate::laws::cells::law_double_cells(bits, text);
    crate::laws::cells::law_double_cells(bits, other);
    assert(seq![Some(text)][0] != seq![Some(other)][0]);
}

/// The double that a well-formed text denotes is asked for exactly where another double
/// would make another cell.
pub proof fn law_needed_text_numbers(
    data_type: DataType,
    needed: bool,
    bytes: Seq<u8>,
    number: Option<u64>,
    other: Option<u64>,
)
    requires
        call_ensures(reads_text_number, (data_type,), needed),
        valid_utf8(bytes),
        number != other,
    ensures
        needed <==> Cells::none(data_type).with(Datum::Text { bytes, number }) != Cells::none(
            data_type,
        ).with(Datum::Text { bytes, number: other }),
{
    let text = vstd::utf8::decode_utf8(bytes);
    vstd::utf8::decode_utf8_encode_utf8(bytes);
    crate::laws::cells::law_text_cells(text, number);
    crate::laws::cells::law_text_cells(text, other);
    match data_type {
        DataType::Float64 => {
            assert(Cells::none(data_type).with(Datum::Text { bytes, number })->Float64_0[0]
                == number);
            assert(Cells::none(data_type).with(Datum::Text { bytes, number: other })->Float64_0[0]
                == other);
        },
        _ => {},
    }
}

/// How many bytes the only cell of a column takes beside its offset.
pub open spec fn cell_bytes(alone: Cells) -> nat {
    match alone {
        Cells::Binary(one) => match one[0] {
            Some(bytes) => bytes.len(),
            None => 0,
        },
        Cells::Utf8(one) => match one[0] {
            Some(text) => encode_utf8(text).len(),
            None => 0,
        },
        _ => 0,
    }
}

/// A column without cells takes no bytes, and a value adds as many as its byte string or
/// its text in UTF-8 has. There is room for it as long as they are less than 2 GiB in all.
pub proof fn law_room_for_values(cells: Cells, datum: Datum)
    ensures
        payload(Cells::none(cells.data_type())) == 0,
        payload(cells.with(datum)) == payload(cells) + cell_bytes(
            Cells::none(cells.data_type()).with(datum),
        ),
        has_room(cells, datum) <==> payload(cells) + cell_bytes(
            Cells::none(cells.data_type()).with(datum),
        ) < 0x8000_0000,
{
    match cells {
        Cells::Binary(all) => {
            let after = cells.with(datum)->Binary_0;
            assert(after.drop_last() =~= all);
        },
        Cells::Utf8(all) => {
            let after = cells.with(datum)->Utf8_0;
            assert(after.drop_last() =~= all);
        },
        _ => {},
    }
}

/// The names of columns take the bytes that they have in UTF-8, together.
pub proof fn law_size_of_names(names: Seq<Seq<char>>, name: Seq<char>)
    ensures
        names_size(seq![]) == 0,
        names_size(names.push(name)) == names_size(names) + encode_utf8(name).len(),
{
    assert(names.push(name).drop_last() =~= names);
}

/// A schema fits into a file as long as the names of the columns, with 256 bytes more for
/// each column, leave 4 KiB of the 2 GiB that a message can have.
pub proof fn law_schemas_fit(names: Seq<Seq<char>>)
    ensures
        schema_fits(names) <==> names_size(names) + 256 * names.len() + 4096 <= 0x8000_0000,
{
}

/// The answer whether columns fit goes by their names alone.
pub proof fn law_columns_fit(columns: &[ColumnMetadata], r: bool)
    requires
        call_ensures(columns_fit, (columns,), r),
    ensures
        r <==> schema_fits(Seq::new(columns@.len(), |c: int| columns@[c].0@)),
{
    assert(crate::schema::column_names(columns@) =~= Seq::new(
        columns@.len(),
        |c: int| columns@[c].0@,
    ));
}

/// A file begins with the letters PAR1.
pub proof fn law_files_begin()
    ensures
        magic() == seq!['P' as u8, 'A' as u8, 'R' as u8, '1' as u8],
{
}

/// The rows that wait for their batch are those behind the last full batch of 8192.
pub proof fn law_waiting_rows(rows: Seq<Seq<Datum>>, full: nat)
    requires
        full * 8192 <= rows.len() < (full + 1) * 8192,
    ensures
        waiting_rows(rows) == rows.skip(full as int * 8192),
{
    assert(rows.len() % 8192 == rows.len() - full * 8192);
    assert(waiting_rows(rows) =~= rows.skip(full as int * 8192));
}

/// The columns of a record batch are as many as its fields. All have the type of their
/// field and as many cells as the first, and where a field does not allow nulls there are
/// none.
pub proof fn law_record_batches(fields: Seq<FieldView>, columns: Seq<Cells>, c: int, i: int)
    requires
        batch_accepted(fields, columns),
        0 <= c < columns.len(),
        0 <= i < cell_count(columns[c]),
    ensures
        columns.len() == fields.len(),
        columns[c].data_type() == fields[c].data_type,
        cell_count(columns[c]) == cell_count(columns[0]),
        !fields[c].nullable ==> match columns[c] {
            Cells::Int64(all) => all[i] is Some,
            Cells::Float64(all) => all[i] is Some,
            Cells::Boolean(all) => all[i] is Some,
            Cells::Binary(all) => all[i] is Some,
            Cells::Utf8(all) => all[i] is Some,
        },
{
}

/// A write takes all of its bytes, and a write or a flush fails exactly where the client is
/// gone.
pub proof fn law_replies_to_writes(
    bytes: &[u8],
    delivery: Delivery,
    written: Result<usize, Disconnected>,
    flushed: Result<(), Disconnected>,
)
    requires
        call_ensures(ChunkWriter::write_reply, (bytes, delivery), written),
        call_ensures(ChunkWriter::flush_reply, (delivery,), flushed),
    ensures
        written is Err <==> delivery is Refused,
        flushed is Err <==> delivery is Refused,
        written matches Ok(count) ==> count == bytes@.len(),
{
}

/// A row that is appended adds to each column the cell that its value there makes, and
/// counts once. A row that is too short is refused, and the first column without a value
/// is told.
pub proof fn law_appended_rows<'a>(
    batch: &mut RecordBatchAccumulator,
    row: &[ValueRef<'a>],
    r: Result<(), RowError>,
    c: int,
)
    requires
        old(batch).valid(),
        call_ensures(RecordBatchAccumulator::append_row, (batch, row), r),
        0 <= c < old(batch).fields().len(),
    ensures
        final(batch).fields() == old(batch).fields(),
        final(batch).capacity() == old(batch).capacity(),
        final(batch).columns().len() == old(batch).columns().len(),
        c < row@.len() ==> final(batch).columns()[c] == old(batch).columns()[c].with(row@[c]@),
        row@.len() >= old(batch).fields().len() ==> r is Ok && final(batch).count() == old(
            batch,
        ).count() + 1,
        row@.len() < old(batch).fields().len() ==> r == Err::<(), RowError>(
            RowError::InvalidColumnIndex(row@.len() as usize),
        ) && final(batch).count() == old(batch).count(),
{
}

/// A batch that is finished has the schema and all the cells, and a new one begins without
/// any.
pub proof fn law_finished_batches(
    batch: &mut RecordBatchAccumulator,
    r: Result<RecordBatch, ArrowError>,
    c: int,
)
    requires
        old(batch).valid(),
        call_ensures(RecordBatchAccumulator::finish_batch, (batch,), r),
        0 <= c < old(batch).fields().len(),
    ensures
        final(batch).fields() == old(batch).fields(),
        final(batch).capacity() == old(batch).capacity(),
        final(batch).count() == 0,
        cell_count(final(batch).columns()[c]) == 0,
        final(batch).columns()[c].data_type() == old(batch).fields()[c].data_type,
        r is Ok <==> batch_accepted(old(batch).fields(), old(batch).columns()),
        r matches Ok(finished) ==> finished@.fields == old(batch).fields() && finished@.columns
            == old(batch).columns(),
{
}

/// A batch is full from its capacity on, is empty without rows, and tells how many it has.
pub proof fn law_batch_counts(
    batch: &RecordBatchAccumulator,
    full: bool,
    empty: bool,
    count: usize,
)
    requires
        call_ensures(RecordBatchAccumulator::is_full, (batch,), full),
        call_ensures(RecordBatchAccumulator::is_empty, (batch,), empty),
        call_ensures(RecordBatchAccumulator::len, (batch,), count),
    ensures
        count == batch.count(),
        full <==> count >= batch.capacity(),
        empty <==> count == 0,
{
}

/// The schema that is inferred has for each column its name, and the type that its
/// declaration and its value in the sample row are given.
pub proof fn law_inferred_schemas<'a, 'b>(
    columns: &[ColumnMetadata],
    sample_row: Option<&'b [ValueRef<'a>]>,
    schema: SchemaRef,
    c: int,
)
    requires
        call_ensures(infer_schema_from_metadata, (columns, sample_row), schema),
        0 <= c < columns@.len(),
    ensures
        schema@.len() == columns@.len(),
        schema@[c].name == columns@[c].0@,
        schema@[c].nullable,
        schema@[c].data_type == (match columns@[c].1 {
            Some(declared) => declared_type(uppercase(declared@)),
            None => match sample_row {
                Some(row) if c < row@.len() => match row@[c]@ {
                    Datum::Integer(_) => DataType::Int64,
                    Datum::Real { .. } => DataType::Float64,
                    Datum::Blob(_) => DataType::Binary,
                    Datum::Text { .. } => DataType::Utf8,
                    Datum::Null => DataType::Utf8,
                },
                _ => DataType::Utf8,
            },
        }),
{
}

/// Bytes that are written are kept in order until they make a chunk, which is all that was
/// kept, and then nothing is kept.
pub proof fn law_written_bytes(writer: &mut ChunkWriter, bytes: &[u8], r: Option<Vec<u8>>)
    requires
        call_ensures(ChunkWriter::write, (writer, bytes), r),
    ensures
        final(writer).chunk_size() == old(writer).chunk_size(),
        r is Some <==> old(writer)@.len() + bytes@.len() >= old(writer).chunk_size(),
        old(writer)@ + bytes@ == (match r {
            Some(chunk) => chunk@,
            None => seq![],
        }) + final(writer)@,
        r is Some ==> final(writer)@.len() == 0,
{
    if let Some(chunk) = r {
        assert(chunk@ + final(writer)@ =~= chunk@);
    } else {
        assert(seq![] + final(writer)@ =~= final(writer)@);
    }
}

/// A flush gives all that was kept, if anything was, and keeps nothing.
pub proof fn law_flushed_bytes(writer: &mut ChunkWriter, r: Option<Vec<u8>>)
    requires
        call_ensures(ChunkWriter::flush, (writer,), r),
    ensures
        final(writer)@.len() == 0,
        r is Some <==> old(writer)@.len() > 0,
        r matches Some(chunk) ==> chunk@ == old(writer)@,
{
}

/// The chunks of bytes that are written piece by piece, with what is kept, are what was
/// kept with the bytes.
pub proof fn law_written_pieces(writer: &mut ChunkWriter, bytes: &[u8], r: Vec<Vec<u8>>, i: int)
    requires
        call_ensures(ChunkWriter::write_pieces, (writer, bytes), r),
    ensures
        final(writer)@.len() < final(writer).chunk_size(),
        final(writer).chunk_size() == old(writer).chunk_size(),
        concatenation(r@) + final(writer)@ == old(writer)@ + bytes@,
        0 <= i < r@.len() ==> old(writer).chunk_size() <= r@[i]@.len() < old(writer).chunk_size()
            + 4096,
{
}

/// A writer of chunks begins with nothing, and a client that is gone is told as one that
/// disconnected.
pub proof fn law_new_chunk_writers(size: usize, writer: ChunkWriter, message: &str)
    requires
        call_ensures(ChunkWriter::new, (size,), writer),
        call_ensures(Disconnected::message, (&Disconnected,), message),
    ensures
        writer@.len() == 0,
        writer.chunk_size() == size,
        message@ == "Client disconnected"@,
{
}

/// A file that is begun is compressed with Zstandard, has the schema, and nothing else yet.
pub proof fn law_begun_files(schema: &Schema, r: Result<ParquetWriter, ParquetError>)
    requires
        schema_fits(Seq::new(schema@.len(), |c: int| schema@[c].name)),
        call_ensures(create_parquet_writer, (schema,), r),
    ensures
        r matches Ok(writer) && {
            &&& writer@.compression == Compression::Zstd
            &&& writer@.fields == schema@
            &&& writer@.batches.len() == 0
            &&& writer@.taken.len() == 0
            &&& !writer@.failed
        },
{
}

/// A file takes batches in order, and what is taken of its bytes comes in order.
pub proof fn law_growing_files(
    writer: &mut ParquetWriter,
    batch: &RecordBatch,
    written: Result<(), ParquetError>,
    other: &mut ParquetWriter,
    bytes: Vec<u8>,
)
    requires
        call_ensures(ParquetWriter::write, (writer, batch), written),
        call_ensures(ParquetWriter::take_written, (other,), bytes),
    ensures
        written is Ok ==> final(writer)@.batches == old(writer)@.batches.push(batch@.columns),
        written is Ok ==> final(writer)@.fields == old(writer)@.fields,
        written is Ok ==> final(writer)@.compression == old(writer)@.compression,
        written is Ok ==> final(writer)@.taken == old(writer)@.taken,
        bytes@ == old(other)@.ready,
        final(other)@.taken == old(other)@.taken + bytes@,
        final(other)@.ready.len() == 0,
        final(other)@.batches == old(other)@.batches,
{
}

/// A row that is streamed or exported comes behind the earlier ones. Nothing is sent for it
/// unless it is the last of 8192. A row that is too short is refused, and the first column
/// without a value is told. No other row is refused unless it completes a batch.
pub proof fn law_streamed_rows<'a>(
    stream: &mut ParquetStream,
    export: &mut ParquetExport,
    row: &[ValueRef<'a>],
    sent: Result<Vec<Vec<u8>>, ExportError>,
    complete: Result<bool, ExportError>,
)
    requires
        old(stream).valid(),
        old(export).valid(),
        call_ensures(ParquetStream::push_row, (stream, row), sent),
        call_ensures(ParquetExport::push_row, (export, row), complete),
    ensures
        sent matches Ok(chunks) ==> {
            &&& final(stream)@.fields == old(stream)@.fields
            &&& final(stream)@.rows == old(stream)@.rows.push(row_data(row@))
            &&& final(stream)@.sent == old(stream)@.sent + concatenation(chunks@)
            &&& (old(stream)@.rows.len() + 1) % 8192 != 0 ==> chunks@.len() == 0
        },
        complete matches Ok(full) ==> {
            &&& final(export)@.fields == old(export)@.fields
            &&& final(export)@.rows == old(export)@.rows.push(row_data(row@))
            &&& final(export)@.taken == old(export)@.taken
            &&& full <==> (old(export)@.rows.len() + 1) % 8192 == 0
        },
        row@.len() < old(stream)@.fields.len() ==> sent == Err::<Vec<Vec<u8>>, ExportError>(
            ExportError::Row(RowError::InvalidColumnIndex(row@.len() as usize)),
        ),
        row@.len() < old(export)@.fields.len() ==> complete == Err::<bool, ExportError>(
            ExportError::Row(RowError::InvalidColumnIndex(row@.len() as usize)),
        ),
        row@.len() >= old(stream)@.fields.len() && (old(stream)@.rows.len() + 1) % 8192 != 0
            ==> sent is Ok,
        row@.len() >= old(export)@.fields.len() && (old(export)@.rows.len() + 1) % 8192 != 0
            ==> complete is Ok,
{
}

/// What is sent and what is exported in all is the file of the batches of all rows,
/// compressed with Zstandard. It fails without columns, and a result with columns and
/// without rows does not fail.
pub proof fn law_streamed_files(
    stream: ParquetStream,
    export: ParquetExport,
    sent: Result<Vec<Vec<u8>>, ExportError>,
    rest: Result<Vec<u8>, ExportError>,
)
    requires
        stream.valid(),
        export.valid(),
        call_ensures(ParquetStream::finish, (stream,), sent),
        call_ensures(ParquetExport::finish, (export,), rest),
    ensures
        sent matches Ok(chunks) ==> parquet_file(
            Compression::Zstd,
            stream@.fields,
            batches(stream@.fields, stream@.rows),
        ) == Some(stream@.sent + concatenation(chunks@)),
        rest matches Ok(bytes) ==> parquet_file(
            Compression::Zstd,
            export@.fields,
            batches(export@.fields, export@.rows),
        ) == Some(export@.taken + bytes@),
        stream@.fields.len() == 0 <==> (sent matches Err(error) && error is Arrow),
        export@.fields.len() == 0 <==> (rest matches Err(error) && error is Arrow),
        0 < stream@.fields.len() < i32::MAX && stream@.rows.len() == 0 ==> sent is Ok,
        0 < export@.fields.len() < i32::MAX && export@.rows.len() == 0 ==> rest is Ok,
{
}

/// A file that is finished is what was taken of it and the rest, and begins as a file does.
pub proof fn law_finished_files(writer: ParquetWriter, r: Result<Vec<u8>, ParquetError>)
    requires
        call_ensures(ParquetWriter::finish, (writer,), r),
    ensures
        r is Ok <==> parquet_file(
            writer@.compression,
            writer@.fields,
            writer@.batches,
        ) is Some,
        r matches Ok(rest) ==> parquet_file(
            writer@.compression,
            writer@.fields,
            writer@.batches,
        ) == Some(writer@.taken + rest@) && magic().is_prefix_of(writer@.taken + rest@),
{
}

/// There is room for a row where each of its values has room in its column.
pub proof fn law_room_for_rows<'a>(
    batch: &RecordBatchAccumulator,
    row: &[ValueRef<'a>],
    r: bool,
    c: int,
)
    requires
        batch.valid(),
        call_ensures(RecordBatchAccumulator::has_room_for, (batch, row), r),
    ensures
        r && 0 <= c < row@.len() && c < batch.columns().len() ==> has_room(
            batch.columns()[c],
            row@[c]@,
        ),
        !r ==> exists|k: int|
            0 <= k < row@.len() && k < batch.columns().len() && !has_room(
                #[trigger] batch.columns()[k],
                row@[k]@,
            ),
{
    if !r {
        let data = row_data(row@);
        let k = choose|k: int|
            0 <= k < batch.columns().len() && k < data.len() && !has_room(
                #[trigger] batch.columns()[k],
                data[k],
            );
        assert(!has_room(batch.columns()[k], row@[k]@));
    }
}

/// A stream and an export begin with nothing, and with a column for each column of the
/// result.
pub proof fn law_begun_streams<'a, 'b>(
    columns: &[ColumnMetadata],
    first_row: Option<&'b [ValueRef<'a>]>,
    stream: Result<ParquetStream, ExportError>,
    export: Result<ParquetExport, ExportError>,
    c: int,
)
    requires
        call_ensures(ParquetStream::start, (columns, first_row), stream),
        call_ensures(ParquetExport::start, (columns, first_row), export),
        0 <= c < columns@.len(),
    ensures
        stream matches Ok(begun) && {
            &&& begun.valid()
            &&& begun@.rows.len() == 0
            &&& begun@.sent.len() == 0
            &&& begun@.fields.len() == columns@.len()
            &&& begun@.fields[c].name == columns@[c].0@
        },
        export matches Ok(begun) && {
            &&& begun.valid()
            &&& begun@.rows.len() == 0
            &&& begun@.taken.len() == 0
            &&& begun@.fields.len() == columns@.len()
            &&& begun@.fields[c].name == columns@[c].0@
        },
{
}

/// A batch tells how many rows its columns have.
pub proof fn law_counted_rows(batch: &RecordBatch, count: usize)
    requires
        call_ensures(RecordBatch::num_rows, (batch,), count),
    ensures
        count == cell_count(batch@.columns[0]),
{
}

} // verus!
