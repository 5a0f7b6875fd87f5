//! Query results as streams of chunks.

use crate::cell::Cells;
use crate::columns::BatchView;
use crate::csv::{field_text, header_fields, plain, record, row_fields, CsvWriter};
use crate::export::{
    batches_full, columns_of, exported, last_batch_written, result_readable, result_writable,
    rows_complete, waiting_rows, ExportError, ParquetExport,
};
use crate::parquet_file::{magic, parquet_contents};
use crate::parquet_format::{
    concatenation, empty_columns, row_fits, ChunkWriter, ColumnMetadata, DataType, PIECE_SIZE,
};
use crate::rfc4180::{
    document, law_document_reads_back, law_row_fields_are_escaped_texts, read_document,
};
use crate::schema::{all_column_parts, column_names, inferred_fields, schema_fits, FieldView};
use crate::value::{row_data, Datum, RowError, ValueRef};
use vstd::prelude::*;
use vstd::string::StrSliceExecFns;
use vstd::utf8::encode_utf8;

verus! {

/// The size of a chunk in bytes.
pub const CHUNK_SIZE: usize = 65536;

// ---------------------------------------------------------------------------
// CSV
// ---------------------------------------------------------------------------

/// The CSV text of a query result: a record of the column names, where there are
/// any, and a record for each row.
pub open spec fn csv_text(names: Seq<Seq<char>>, rows: Seq<Seq<Datum>>) -> Seq<char>
    decreases rows.len(),
{
    if rows.len() > 0 {
        csv_text(names, rows.drop_last()) + record(row_fields(rows.last().take(names.len() as int)))
    } else if names.len() > 0 {
        record(header_fields(names))
    } else {
        seq![]
    }
}

/// The text of records, one after the other.
pub open spec fn records_text(records: Seq<Seq<Seq<char>>>) -> Seq<char>
    decreases records.len(),
{
    if records.len() == 0 {
        seq![]
    } else {
        records_text(records.drop_last()) + record(records.last())
    }
}

/// Whether a text is made of whole records.
pub open spec fn whole_records(text: Seq<char>) -> bool {
    exists|records: Seq<Seq<Seq<char>>>| text == #[trigger] records_text(records)
}

/// No text, and whole records with one more record after them, are whole records.
proof fn lemma_whole_records(text: Seq<char>, fields: Seq<Seq<char>>)
    ensures
        whole_records(seq![]),
        whole_records(record(fields)),
        whole_records(text) ==> whole_records(text + record(fields)),
{
    let none: Seq<Seq<Seq<char>>> = seq![];
    assert(records_text(none) =~= seq![]);
    let one = seq![fields];
    assert(one.drop_last() =~= none);
    assert(records_text(one) =~= record(fields));
    if whole_records(text) {
        let records = choose|records: Seq<Seq<Seq<char>>>| text == #[trigger] records_text(records);
        assert(records.push(fields).drop_last() =~= records);
        assert(records_text(records.push(fields)) == text + record(fields));
    }
}

/// A query result that is being written as CSV.
pub struct CsvExport {
    writer: CsvWriter,
    column_count: usize,
    names: Ghost<Seq<Seq<char>>>,
    rows: Ghost<Seq<Seq<Datum>>>,
    taken: Ghost<Seq<char>>,
}

/// What was done with a CSV export.
pub struct CsvView {
    /// The names of the columns.
    pub names: Seq<Seq<char>>,
    /// The rows so far.
    pub rows: Seq<Seq<Datum>>,
    /// The text that was taken out.
    pub taken: Seq<char>,
    /// The text that was not.
    pub waiting: Seq<char>,
}

impl View for CsvExport {
    type V = CsvView;

    closed spec fn view(&self) -> CsvView {
        CsvView {
            names: self.names@,
            rows: self.rows@,
            taken: self.taken@,
            waiting: self.writer@,
        }
    }
}

impl CsvExport {
    /// Whether what was taken and what was not make up the text of the rows so far, and
    /// no record was taken in part.
    pub closed spec fn valid(&self) -> bool {
        &&& self.column_count == self.names@.len()
        &&& self.taken@ + self.writer@ == csv_text(self.names@, self.rows@)
        &&& whole_records(self.writer@)
    }

    /// Starts the export of a query result with the given columns.
    pub fn start(names: &[&str]) -> (r: CsvExport)
        ensures
            r.valid(),
            r@.names == names@.map_values(|name: &str| name@),
            r@.rows.len() == 0,
            r@.taken.len() == 0,
            r@.waiting == csv_text(r@.names, seq![]),
    {
        let mut writer: CsvWriter = CsvWriter::new();
        if names.len() > 0 {
            writer.write_header(names);
        }
        let export: CsvExport = CsvExport {
            writer,
            column_count: names.len(),
            names: Ghost(names@.map_values(|name: &str| name@)),
            rows: Ghost(Seq::empty()),
            taken: Ghost(Seq::empty()),
        };
        assert(export.writer@ =~= csv_text(export.names@, export.rows@));
        proof {
            lemma_whole_records(seq![], header_fields(export.names@));
        }
        export
    }

    /// Adds a row. One that has no value for some column fails the export.
    pub fn push_row(&mut self, row: &[ValueRef<'_>]) -> (r: Result<(), RowError>)
        requires
            old(self).valid(),
        ensures
            r is Ok ==> {
                &&& final(self).valid()
                &&& final(self)@ == (CsvView {
                    rows: old(self)@.rows.push(row_data(row@)),
                    waiting: old(self)@.waiting + record(
                        row_fields(row_data(row@).take(old(self)@.names.len() as int)),
                    ),
                    ..old(self)@
                })
            },
            r == (if row@.len() < old(self)@.names.len() {
                Err::<(), RowError>(RowError::InvalidColumnIndex(row@.len() as usize))
            } else {
                Ok(())
            }),
    {
        match self.writer.write_row(row, self.column_count) {
            Ok(()) => {},
            Err(error) => {
                return Err(error);
            },
        }
        self.rows = Ghost(self.rows@.push(row_data(row@)));
        proof {
            lemma_whole_records(
                old(self).writer@,
                row_fields(row_data(row@).take(self.names@.len() as int)),
            );
        }
        assert(self.rows@.drop_last() =~= old(self).rows@);
        assert(self.taken@ + self.writer@ =~= csv_text(self.names@, self.rows@));
        Ok(())
    }

    /// How many bytes the text takes that was not taken.
    pub fn waiting_size(&self) -> (r: usize)
        ensures
            r == encode_utf8(self@.waiting).len(),
    {
        self.writer.get_ref().as_bytes().len()
    }

    /// Takes out the text that was not taken.
    pub fn take(&mut self) -> (r: String)
        requires
            old(self).valid(),
        ensures
            final(self).valid(),
            r@ == old(self)@.waiting,
            whole_records(r@),
            final(self)@ == (CsvView {
                taken: old(self)@.taken + old(self)@.waiting,
                waiting: seq![],
                ..old(self)@
            }),
    {
        let text: String = self.writer.take();
        self.taken = Ghost(self.taken@ + text@);
        proof {
            lemma_whole_records(seq![], seq![]);
        }
        assert(self.taken@ + self.writer@ =~= csv_text(self.names@, self.rows@));
        assert(self.writer@ =~= seq![]);
        text
    }

    /// Ends the export, and returns the text that was not taken.
    pub fn finish(self) -> (r: String)
        requires
            self.valid(),
        ensures
            r@ == self@.waiting,
            whole_records(r@),
            self@.taken + r@ == csv_text(self@.names, self@.rows),
    {
        let mut export: CsvExport = self;
        export.take()
    }
}

/// The encoding of a text is that of its parts, one after the other.
pub proof fn lemma_encode_utf8_concat(left: Seq<char>, right: Seq<char>)
    ensures
        encode_utf8(left + right) == encode_utf8(left) + encode_utf8(right),
    decreases left.len(),
{
    if left.len() == 0 {
        assert(left + right =~= right);
        assert(encode_utf8(left) + encode_utf8(right) =~= encode_utf8(right));
    } else {
        lemma_encode_utf8_concat(left.drop_first(), right);
        assert((left + right).drop_first() =~= left.drop_first() + right);
        assert(encode_utf8(left + right) =~= encode_utf8(left) + encode_utf8(right));
    }
}

/// The records of a query result: the column names, and the texts of each row.
pub open spec fn result_records(names: Seq<Seq<char>>, rows: Seq<Seq<Datum>>) -> Seq<
    Seq<Seq<char>>,
> {
    seq![names] + rows.map_values(
        |row: Seq<Datum>|
            row.take(names.len() as int).map_values(|datum: Datum| field_text(datum)),
    )
}

/// Whether the decimal texts of all numbers need no quotes.
pub open spec fn numbers_plain(rows: Seq<Seq<Datum>>) -> bool {
    forall|i: int, c: int|
        0 <= i < rows.len() && 0 <= c < rows[i].len() ==> (#[trigger] rows[i][c] matches Datum::Real {
            bits,
            text,
        } ==> plain(text))
}

proof fn lemma_csv_text_is_document(names: Seq<Seq<char>>, rows: Seq<Seq<Datum>>)
    requires
        names.len() > 0,
        rows_complete(rows, names.len()),
        numbers_plain(rows),
    ensures
        csv_text(names, rows) == document(result_records(names, rows)),
    decreases rows.len(),
{
    let records = result_records(names, rows);
    if rows.len() > 0 {
        let row = rows.last().take(names.len() as int);
        let earlier = rows.drop_last();
        assert forall|i: int, c: int|
            0 <= i < earlier.len() && 0 <= c < earlier[i].len() implies (#[trigger] earlier[i][c] matches Datum::Real {
            bits,
            text,
        } ==> plain(text)) by {
            assert(earlier[i][c] == rows[i][c]);
        }
        lemma_csv_text_is_document(names, earlier);
        assert(records.drop_last() =~= result_records(names, earlier));
        assert forall|c: int| 0 <= c < row.len() implies (#[trigger] row[c] matches Datum::Real {
            bits,
            text,
        } ==> plain(text)) by {
            assert(row[c] == rows[rows.len() - 1][c]);
        }
        law_row_fields_are_escaped_texts(row);
    } else {
        assert(records =~= seq![names]);
        assert(records.drop_last() =~= seq![]);
        assert(document(records.drop_last()) =~= seq![]);
        assert(document(records) =~= record(header_fields(names)));
    }
}

/// Whoever reads the CSV text of a query result by RFC 4180 gets back the column
/// names and the text of every value, whatever characters these hold.
pub proof fn law_csv_result_reads_back(names: Seq<Seq<char>>, rows: Seq<Seq<Datum>>)
    requires
        names.len() > 0,
        rows_complete(rows, names.len()),
        numbers_plain(rows),
    ensures
        read_document(csv_text(names, rows)) == result_records(names, rows),
{
    lemma_csv_text_is_document(names, rows);
    law_document_reads_back(result_records(names, rows));
}

/// Whole records end with a line break.
pub proof fn law_whole_records_end_a_line(text: Seq<char>)
    requires
        whole_records(text),
        text.len() > 0,
    ensures
        text.len() >= 2,
        text.skip(text.len() - 2) == seq!['\r', '\n'],
{
    let records = choose|records: Seq<Seq<Seq<char>>>| text == #[trigger] records_text(records);
    assert(text.skip(text.len() - 2) =~= seq!['\r', '\n']);
}

/// A query result as a stream of CSV chunks.
pub struct CsvStream {
    export: CsvExport,
}

impl View for CsvStream {
    type V = CsvView;

    closed spec fn view(&self) -> CsvView {
        self.export@
    }
}

impl CsvStream {
    /// Whether the chunks and what waits make up the text of the rows so far.
    pub closed spec fn valid(&self) -> bool {
        self.export.valid()
    }

    /// The bytes of the chunks so far.
    pub open spec fn sent(&self) -> Seq<u8> {
        encode_utf8(self@.taken)
    }

    /// Starts the stream of a query result with the given columns.
    pub fn start(names: &[&str]) -> (r: CsvStream)
        ensures
            r.valid(),
            r@.names == names@.map_values(|name: &str| name@),
            r@.rows.len() == 0,
            r@.waiting == csv_text(r@.names, seq![]),
            r.sent().len() == 0,
    {
        CsvStream { export: CsvExport::start(names) }
    }

    /// Adds a row. Returns a chunk of all that waits once that is enough for one. A
    /// chunk holds whole records.
    pub fn push_row(&mut self, row: &[ValueRef<'_>]) -> (r: Result<Option<Vec<u8>>, RowError>)
        requires
            old(self).valid(),
        ensures
            r is Err <==> row@.len() < old(self)@.names.len(),
            r matches Err(error) ==> error == RowError::InvalidColumnIndex(row@.len() as usize),
            r matches Ok(chunk) ==> {
                let waiting = old(self)@.waiting + record(
                    row_fields(row_data(row@).take(old(self)@.names.len() as int)),
                );
                &&& final(self).valid()
                &&& final(self)@.names == old(self)@.names
                &&& final(self)@.rows == old(self)@.rows.push(row_data(row@))
                &&& final(self).sent() + encode_utf8(final(self)@.waiting) == encode_utf8(
                    csv_text(final(self)@.names, final(self)@.rows),
                )
                &&& chunk is Some <==> encode_utf8(waiting).len() >= CHUNK_SIZE
                &&& match chunk {
                    Some(bytes) => {
                        &&& bytes@ == encode_utf8(waiting)
                        &&& whole_records(waiting)
                        &&& final(self).sent() == old(self).sent() + bytes@
                        &&& final(self)@.waiting.len() == 0
                    },
                    None => {
                        &&& final(self).sent() == old(self).sent()
                        &&& final(self)@.waiting == waiting
                    },
                }
            },
    {
        match self.export.push_row(row) {
            Ok(()) => {},
            Err(error) => {
                return Err(error);
            },
        }
        proof {
            lemma_encode_utf8_concat(self.export@.taken, self.export@.waiting);
        }
        if self.export.waiting_size() >= CHUNK_SIZE {
            let text: String = self.export.take();
            assert(self.sent() + encode_utf8(self@.waiting) =~= self.sent());
            Ok(Some(text.as_str().as_bytes_vec()))
        } else {
            Ok(None)
        }
    }

    /// Ends the stream. Returns a last chunk of what waits, if anything does, which is
    /// whole records too.
    pub fn finish(self) -> (r: Option<Vec<u8>>)
        requires
            self.valid(),
        ensures
            match r {
                Some(bytes) => {
                    &&& bytes@.len() > 0
                    &&& bytes@ == encode_utf8(self@.waiting)
                    &&& whole_records(self@.waiting)
                    &&& self.sent() + bytes@ == encode_utf8(csv_text(self@.names, self@.rows))
                },
                None => self.sent() == encode_utf8(csv_text(self@.names, self@.rows)),
            },
    {
        let ghost names = self@.names;
        let ghost rows = self@.rows;
        let ghost taken = self@.taken;
        let text: String = self.export.finish();
        proof {
            lemma_encode_utf8_concat(taken, text@);
        }
        if text.as_str().as_bytes().len() > 0 {
            Some(text.as_str().as_bytes_vec())
        } else {
            assert(encode_utf8(taken) + encode_utf8(text@) =~= encode_utf8(taken));
            None
        }
    }
}

// ---------------------------------------------------------------------------
// Parquet
// ---------------------------------------------------------------------------

/// A query result as a stream of Parquet chunks.
pub struct ParquetStream {
    export: ParquetExport,
    chunks: ChunkWriter,
    sent: Ghost<Seq<u8>>,
}

/// What was done with a Parquet stream.
pub struct ParquetStreamView {
    /// The schema of the file.
    pub fields: Seq<FieldView>,
    /// The rows so far.
    pub rows: Seq<Seq<Datum>>,
    /// The bytes of the chunks so far.
    pub sent: Seq<u8>,
}

impl View for ParquetStream {
    type V = ParquetStreamView;

    closed spec fn view(&self) -> ParquetStreamView {
        ParquetStreamView {
            fields: self.export@.fields,
            rows: self.export@.rows,
            sent: self.sent@,
        }
    }
}

/// Whether chunks are as large as they have to be, and larger by less than what is
/// written at a time.
pub open spec fn chunks_sized(chunks: Seq<Vec<u8>>) -> bool {
    forall|i: int|
        0 <= i < chunks.len() ==> CHUNK_SIZE <= (#[trigger] chunks[i])@.len() < CHUNK_SIZE
            + PIECE_SIZE
}

impl ParquetStream {
    /// Whether the chunks and what waits make up what was taken of the file.
    pub closed spec fn valid(&self) -> bool {
        &&& self.export.valid()
        &&& self.chunks.chunk_size() == CHUNK_SIZE
        &&& self.chunks@.len() < CHUNK_SIZE
        &&& self.sent@ + self.chunks@ == self.export@.taken
    }

    /// The cells that wait for their batch to be full.
    pub open spec fn waiting(&self) -> Seq<Cells> {
        columns_of(self@.fields, waiting_rows(self@.rows))
    }

    /// The bytes of the file that the writer has ready.
    pub closed spec fn ready(&self) -> Seq<u8> {
        self.export@.ready
    }

    /// The bytes of the file that wait for the next chunk.
    pub closed spec fn held(&self) -> Seq<u8> {
        self.chunks@
    }

    /// Starts the stream of a query result with the given columns. The types of
    /// columns without a declared type are those of the first row.
    pub fn start(columns: &[ColumnMetadata], first_row: Option<&[ValueRef<'_>]>) -> (r: Result<
        ParquetStream,
        ExportError,
    >)
        requires
            schema_fits(column_names(columns@)),
        ensures
            r is Ok,
            r matches Ok(stream) ==> {
                &&& stream.valid()
                &&& stream@.fields == inferred_fields(
                    all_column_parts(columns@),
                    match first_row {
                        Some(row) => Some(row_data(row@)),
                        None => None,
                    },
                )
                &&& stream@.rows.len() == 0
                &&& stream@.sent.len() == 0
                &&& stream.waiting() == empty_columns(stream@.fields)
                &&& stream.held().len() == 0
                &&& stream.ready().is_prefix_of(magic())
            },
    {
        match ParquetExport::start(columns, first_row) {
            Ok(export) => {
                let chunks: ChunkWriter = ChunkWriter::new(CHUNK_SIZE);
                assert(Seq::<u8>::empty() + chunks@ =~= export@.taken);
                Ok(ParquetStream { export, chunks, sent: Ghost(Seq::empty()) })
            },
            Err(error) => Err(error),
        }
    }

    /// The types of the columns.
    pub fn data_types(&self) -> (r: Vec<DataType>)
        ensures
            r@ == self@.fields.map_values(|field: FieldView| field.data_type),
    {
        self.export.data_types()
    }

    /// Whether the batch has room for a row.
    pub fn has_room_for(&self, row: &[ValueRef<'_>]) -> (r: bool)
        requires
            self.valid(),
        ensures
            r == row_fits(self.waiting(), row_data(row@)),
    {
        self.export.has_room_for(row)
    }

    /// Adds a row. Once that completes a batch, all that is ready of the file goes into
    /// chunks, and those that are large enough are returned.
    ///
    /// A row that is too short ends the stream. So does a full batch that cannot be
    /// made, for want of columns, or that the Parquet writer refuses, which it does not
    /// as long as the rows are not too large for a file.
    pub fn push_row(&mut self, row: &[ValueRef<'_>]) -> (r: Result<Vec<Vec<u8>>, ExportError>)
        requires
            old(self).valid(),
            row_fits(old(self).waiting(), row_data(row@)),
        ensures
            r matches Ok(chunks) ==> {
                &&& final(self).valid()
                &&& final(self)@ == (ParquetStreamView {
                    rows: old(self)@.rows.push(row_data(row@)),
                    sent: old(self)@.sent + concatenation(chunks@),
                    ..old(self)@
                })
                &&& chunks_sized(chunks@)
                &&& final(self).held().len() < CHUNK_SIZE
                &&& if batches_full(old(self)@.rows.len() + 1) {
                    &&& final(self).ready().len() == 0
                    &&& (old(self).held() + old(self).ready()).is_prefix_of(
                        concatenation(chunks@) + final(self).held(),
                    )
                } else {
                    &&& chunks@.len() == 0
                    &&& final(self).ready() == old(self).ready()
                    &&& final(self).held() == old(self).held()
                }
            },
            row@.len() < old(self)@.fields.len() <==> (r matches Err(error) && error is Row),
            row@.len() < old(self)@.fields.len() ==> (r matches Err(error) && error
                == ExportError::Row(RowError::InvalidColumnIndex(row@.len() as usize))),
            (r matches Err(error) && error is Arrow) <==> old(self)@.fields.len() == 0
                && batches_full(old(self)@.rows.len() + 1),
            (r matches Err(error) && error is Parquet) <==> 0 < old(self)@.fields.len()
                <= row@.len() && batches_full(old(self)@.rows.len() + 1) && !last_batch_written(
                old(self)@.fields,
                old(self)@.rows.push(row_data(row@)),
            ),
            result_writable(old(self)@.fields, old(self)@.rows.push(row_data(row@)))
                ==> !(r matches Err(error) && error is Parquet),
    {
        match self.export.push_row(row) {
            Ok(complete) => {
                if !complete {
                    let none: Vec<Vec<u8>> = Vec::new();
                    assert(self.sent@ + concatenation(none@) =~= self.sent@);
                    return Ok(none);
                }
            },
            Err(error) => {
                return Err(error);
            },
        }
        let ghost sent = self.sent@;
        let ghost waiting = self.chunks@;
        let bytes: Vec<u8> = self.export.take_written();
        let chunks: Vec<Vec<u8>> = self.chunks.write_pieces(bytes.as_slice());
        self.sent = Ghost(self.sent@ + concatenation(chunks@));
        assert(self.sent@ + self.chunks@ =~= sent + (concatenation(chunks@) + self.chunks@));
        assert(sent + (waiting + bytes@) =~= sent + waiting + bytes@);
        Ok(chunks)
    }

    /// Ends the stream. Returns the chunks that are left: the last can be small,
    /// but none is empty. Who reads all the chunks gets back the schema and all the
    /// rows.
    pub fn finish(self) -> (r: Result<Vec<Vec<u8>>, ExportError>)
        requires
            self.valid(),
        ensures
            r matches Ok(chunks) ==> {
                &&& exported(self@.fields, self@.rows) == Some(self@.sent + concatenation(chunks@))
                &&& (self.held() + self.ready()).is_prefix_of(concatenation(chunks@))
                &&& magic().is_prefix_of(self@.sent + concatenation(chunks@))
                &&& result_readable(self@.fields, self@.rows) ==> parquet_contents(
                    self@.sent + concatenation(chunks@),
                ) == (BatchView {
                    fields: self@.fields,
                    columns: columns_of(self@.fields, self@.rows),
                })
                &&& chunks_sized(chunks@) || chunks@.len() > 0 && chunks_sized(
                    chunks@.drop_last(),
                ) && 0 < chunks@.last()@.len() < CHUNK_SIZE
            },
            r matches Err(error) ==> !(error is Row),
            (r matches Err(error) && error is Arrow) <==> self@.fields.len() == 0,
            self@.fields.len() > 0 ==> (r is Ok <==> (self@.rows.len() > 0 && batches_full(
                self@.rows.len(),
            ) || last_batch_written(self@.fields, self@.rows)) && exported(
                self@.fields,
                self@.rows,
            ) is Some),
            self@.fields.len() > 0 && result_writable(self@.fields, self@.rows) ==> r is Ok,
            self@.rows.len() == 0 && 0 < self@.fields.len() < i32::MAX ==> r is Ok,
    {
        let ghost sent = self@.sent;
        let ghost taken = self.export@.taken;
        let mut writer: ChunkWriter = self.chunks;
        let ghost waiting = writer@;
        match self.export.finish() {
            Ok(rest) => {
                let mut chunks: Vec<Vec<u8>> = writer.write_pieces(rest.as_slice());
                let ghost full = chunks@;
                assert(sent + (waiting + rest@) =~= taken + rest@);
                let last: Option<Vec<u8>> = writer.flush();
                match last {
                    Some(chunk) => {
                        chunks.push(chunk);
                        assert(chunks@.drop_last() =~= full);
                    },
                    None => {
                        assert(concatenation(full) =~= waiting + rest@);
                    },
                }
                Ok(chunks)
            },
            Err(error) => Err(error),
        }
    }
}

} // verus!
