//! The export of query results as Parquet: how rows are grouped into batches, and
//! how the file is handed out.

use crate::cell::Cells;
use crate::columns::{batch_accepted, BatchView};
use crate::limits::{readable, writable};
use crate::parquet_file::{
    batch_written, column_in, columns_in, magic, parquet_contents, parquet_file, Compression,
    FileLog,
};
use crate::parquet_format::{
    appended, capacity_fits, create_parquet_writer, empty_columns, infer_schema_from_metadata,
    row_fits, ColumnMetadata, DataType, ParquetWriter, RecordBatchAccumulator, SchemaRef,
};
use crate::schema::{
    all_column_parts, column_names, field_names, inferred_fields, schema_fits, FieldView,
};
use crate::value::{row_data, Datum, RowError, ValueRef};
use arrow_schema::ArrowError;
use parquet::errors::ParquetError;
use vstd::prelude::*;

verus! {

/// The most rows of a record batch.
pub const ROW_BATCH_SIZE: usize = 8192;

/// Why an export failed.
#[derive(Debug)]
pub enum ExportError {
    /// A row has no value for a column.
    Row(RowError),
    /// The rows make no record batch.
    Arrow(ArrowError),
    /// The Parquet writer failed.
    Parquet(ParquetError),
}

/// The cells of rows, column by column.
pub open spec fn columns_of(fields: Seq<FieldView>, rows: Seq<Seq<Datum>>) -> Seq<Cells>
    decreases rows.len(),
{
    if rows.len() == 0 {
        empty_columns(fields)
    } else {
        appended(columns_of(fields, rows.drop_last()), rows.last())
    }
}

/// How many batches so many rows make. No rows make one batch, which is empty.
pub open spec fn batch_count(row_count: nat) -> nat {
    if row_count == 0 {
        1
    } else {
        ((row_count + ROW_BATCH_SIZE - 1) / ROW_BATCH_SIZE as int) as nat
    }
}

/// Whether so many rows leave no batch incomplete.
pub open spec fn batches_full(row_count: nat) -> bool {
    row_count % (ROW_BATCH_SIZE as nat) == 0
}

/// The rows of a batch: all batches but the last are full.
pub open spec fn batch_rows(rows: Seq<Seq<Datum>>, i: int) -> Seq<Seq<Datum>> {
    rows.subrange(
        i * ROW_BATCH_SIZE,
        if (i + 1) * ROW_BATCH_SIZE <= rows.len() {
            (i + 1) * ROW_BATCH_SIZE
        } else {
            rows.len() as int
        },
    )
}

/// The batches that rows make.
pub open spec fn batches(fields: Seq<FieldView>, rows: Seq<Seq<Datum>>) -> Seq<Seq<Cells>> {
    Seq::new(batch_count(rows.len()), |i: int| columns_of(fields, batch_rows(rows, i)))
}

/// The Parquet file of a query result, unless it cannot be completed.
pub open spec fn exported(fields: Seq<FieldView>, rows: Seq<Seq<Datum>>) -> Option<Seq<u8>> {
    parquet_file(Compression::Zstd, fields, batches(fields, rows))
}

/// Whether the Parquet writer takes the last batch of a query result.
pub open spec fn last_batch_written(fields: Seq<FieldView>, rows: Seq<Seq<Datum>>) -> bool {
    batch_written(Compression::Zstd, fields, batches(fields, rows))
}

/// Whether a query result is not too large for a Parquet file to be written.
pub open spec fn result_writable(fields: Seq<FieldView>, rows: Seq<Seq<Datum>>) -> bool {
    writable(fields, columns_of(fields, rows))
}

/// Whether a query result is not too large for its Parquet file to be read.
pub open spec fn result_readable(fields: Seq<FieldView>, rows: Seq<Seq<Datum>>) -> bool {
    readable(fields, columns_of(fields, rows))
}

/// Whether every row has a value for each of so many columns.
pub open spec fn rows_complete(rows: Seq<Seq<Datum>>, column_count: nat) -> bool {
    forall|i: int| 0 <= i < rows.len() ==> (#[trigger] rows[i]).len() >= column_count
}

/// The shape of the columns of rows.
pub proof fn lemma_columns_of(fields: Seq<FieldView>, rows: Seq<Seq<Datum>>)
    requires
        rows_complete(rows, fields.len()),
    ensures
        columns_of(fields, rows).len() == fields.len(),
        forall|c: int|
            0 <= c < fields.len() ==> {
                &&& (#[trigger] columns_of(fields, rows)[c]).data_type() == fields[c].data_type
                &&& columns_of(fields, rows)[c].len() == rows.len()
            },
    decreases rows.len(),
{
    if rows.len() > 0 {
        lemma_columns_of(fields, rows.drop_last());
    }
}

/// The columns of rows that are followed by others.
proof fn lemma_columns_of_concat(
    fields: Seq<FieldView>,
    rows: Seq<Seq<Datum>>,
    more: Seq<Seq<Datum>>,
    c: int,
)
    requires
        rows_complete(rows, fields.len()),
        rows_complete(more, fields.len()),
        0 <= c < fields.len(),
    ensures
        columns_of(fields, rows + more)[c] == columns_of(fields, rows)[c].followed_by(
            columns_of(fields, more)[c],
        ),
    decreases more.len(),
{
    lemma_columns_of(fields, rows);
    lemma_columns_of(fields, more);
    let column = columns_of(fields, rows)[c];
    if more.len() == 0 {
        assert(rows + more =~= rows);
        assert(column.followed_by(Cells::none(fields[c].data_type)) =~~= column);
    } else {
        let earlier = more.drop_last();
        lemma_columns_of_concat(fields, rows, earlier, c);
        lemma_columns_of(fields, earlier);
        assert(rows_complete(rows + earlier, fields.len()));
        lemma_columns_of(fields, rows + earlier);
        assert((rows + more).drop_last() =~= rows + earlier);
        let added = more.last()[c];
        let tail = columns_of(fields, earlier)[c];
        assert(column.followed_by(tail).with(added) =~~= column.followed_by(tail.with(added)));
    }
}

/// How many rows the first so many batches have.
spec fn rows_in_batches(row_count: nat, batch_count: nat) -> int {
    if batch_count * ROW_BATCH_SIZE <= row_count {
        batch_count * ROW_BATCH_SIZE
    } else {
        row_count as int
    }
}

/// The columns of the first so many batches are those of their rows.
proof fn lemma_columns_in_batches(
    fields: Seq<FieldView>,
    rows: Seq<Seq<Datum>>,
    count: nat,
    c: int,
)
    requires
        rows_complete(rows, fields.len()),
        0 <= c < fields.len(),
        count <= batch_count(rows.len()),
    ensures
        column_in(fields[c].data_type, batches(fields, rows).take(count as int), c) == columns_of(
            fields,
            rows.take(rows_in_batches(rows.len(), count)),
        )[c],
    decreases count,
{
    let taken = batches(fields, rows).take(count as int);
    if count == 0 {
        assert(rows.take(0) =~= seq![]);
    } else {
        let earlier = (count - 1) as nat;
        lemma_columns_in_batches(fields, rows, earlier, c);
        assert(taken.drop_last() =~= batches(fields, rows).take(earlier as int));
        let group = batch_rows(rows, earlier as int);
        let before = rows.take(rows_in_batches(rows.len(), earlier));
        assert(before + group =~= rows.take(rows_in_batches(rows.len(), count)));
        assert(rows_complete(group, fields.len()));
        assert(rows_complete(before, fields.len()));
        lemma_columns_of_concat(fields, before, group, c);
    }
}

/// The batches, one after the other, have the columns of the rows.
pub proof fn law_batches_make_up_the_columns(fields: Seq<FieldView>, rows: Seq<Seq<Datum>>)
    requires
        rows_complete(rows, fields.len()),
    ensures
        columns_in(fields, batches(fields, rows)) == columns_of(fields, rows),
{
    let count = batch_count(rows.len());
    let all = batches(fields, rows);
    lemma_columns_of(fields, rows);
    assert(all.take(count as int) =~= all);
    assert(rows.take(rows_in_batches(rows.len(), count)) =~= rows);
    assert forall|c: int| 0 <= c < fields.len() implies columns_in(fields, all)[c] == columns_of(
        fields,
        rows,
    )[c] by {
        lemma_columns_in_batches(fields, rows, count, c);
    }
    assert(columns_in(fields, all) =~= columns_of(fields, rows));
}

/// A query result that is being written to a Parquet file.
pub struct ParquetExport {
    accumulator: RecordBatchAccumulator,
    writer: ParquetWriter,
    started: bool,
    rows: Ghost<Seq<Seq<Datum>>>,
}

/// What was done with an export.
pub struct ExportView {
    /// The schema of the file.
    pub fields: Seq<FieldView>,
    /// The rows so far.
    pub rows: Seq<Seq<Datum>>,
    /// The bytes of the file that were taken out.
    pub taken: Seq<u8>,
    /// The bytes of the file that can be taken out, which come after those.
    pub ready: Seq<u8>,
}

impl View for ParquetExport {
    type V = ExportView;

    closed spec fn view(&self) -> ExportView {
        ExportView {
            fields: self.accumulator.fields(),
            rows: self.rows@,
            taken: self.writer@.taken,
            ready: self.writer@.ready,
        }
    }
}

/// The rows that wait for their batch to be full.
pub open spec fn waiting_rows(rows: Seq<Seq<Datum>>) -> Seq<Seq<Datum>> {
    rows.subrange(rows.len() - rows.len() % (ROW_BATCH_SIZE as nat), rows.len() as int)
}

impl ParquetExport {
    /// Whether the batches written and the rows that wait are those of the rows so
    /// far.
    pub closed spec fn valid(&self) -> bool {
        let rows = self.rows@;
        let fields = self.accumulator.fields();
        &&& self.accumulator.valid()
        &&& self.accumulator.capacity() == ROW_BATCH_SIZE
        &&& self.accumulator.count() == rows.len() % (ROW_BATCH_SIZE as nat)
        &&& self.accumulator.columns() == columns_of(fields, waiting_rows(rows))
        &&& self.started == (rows.len() > 0)
        &&& rows_complete(rows, fields.len())
        &&& fields.len() == 0 ==> rows.len() < ROW_BATCH_SIZE
        &&& forall|c: int| 0 <= c < fields.len() ==> (#[trigger] fields[c]).nullable
        &&& self.writer@.compression == Compression::Zstd
        &&& self.writer@.fields == fields
        &&& !self.writer@.failed
        &&& self.writer@.batches == Seq::new(
            rows.len() / (ROW_BATCH_SIZE as nat),
            |i: int| columns_of(fields, batch_rows(rows, i)),
        )
    }

    /// The cells that wait for their batch to be full.
    pub open spec fn waiting(&self) -> Seq<Cells> {
        columns_of(self@.fields, waiting_rows(self@.rows))
    }

    /// Starts the export of a query result with the given columns. The types of
    /// columns without a declared type are those of the first row.
    pub fn start(columns: &[ColumnMetadata], first_row: Option<&[ValueRef<'_>]>) -> (r: Result<
        ParquetExport,
        ExportError,
    >)
        requires
            schema_fits(column_names(columns@)),
        ensures
            r is Ok,
            r matches Ok(export) ==> {
                &&& export.valid()
                &&& export@.fields == inferred_fields(
                    all_column_parts(columns@),
                    match first_row {
                        Some(row) => Some(row_data(row@)),
                        None => None,
                    },
                )
                &&& export@.rows.len() == 0
                &&& export@.taken.len() == 0
                &&& export@.ready.is_prefix_of(magic())
                &&& export.waiting() == empty_columns(export@.fields)
            },
    {
        let schema: SchemaRef = infer_schema_from_metadata(columns, first_row);
        assert(forall|c: int|
            0 <= c < schema@.len() ==> capacity_fits(
                (#[trigger] schema@[c]).data_type,
                ROW_BATCH_SIZE,
            ));
        assert(field_names(schema@) =~= column_names(columns@));
        match create_parquet_writer(&schema) {
            Ok(writer) => {
                let accumulator: RecordBatchAccumulator = RecordBatchAccumulator::new(
                    schema,
                    ROW_BATCH_SIZE,
                );
                let export: ParquetExport = ParquetExport {
                    accumulator,
                    writer,
                    started: false,
                    rows: Ghost(Seq::empty()),
                };
                assert(export.writer@.batches =~= Seq::new(
                    0,
                    |i: int| columns_of(export@.fields, batch_rows(export.rows@, i)),
                ));
                Ok(export)
            },
            Err(error) => Err(ExportError::Parquet(error)),
        }
    }

    /// The types of the columns.
    pub fn data_types(&self) -> (r: Vec<DataType>)
        ensures
            r@ == self@.fields.map_values(|field: FieldView| field.data_type),
    {
        self.accumulator.data_types()
    }

    /// Whether the batch has room for a row.
    pub fn has_room_for(&self, row: &[ValueRef<'_>]) -> (r: bool)
        requires
            self.valid(),
        ensures
            r == row_fits(self.waiting(), row_data(row@)),
    {
        self.accumulator.has_room_for(row)
    }

    /// Hands the rows that wait to the writer as a batch.
    fn write_batch(&mut self) -> (r: Result<(), ExportError>)
        requires
            old(self).accumulator.valid(),
            old(self).writer@.fields == old(self).accumulator.fields(),
            !old(self).writer@.failed,
        ensures
            final(self).accumulator.valid(),
            final(self).accumulator.fields() == old(self).accumulator.fields(),
            final(self).accumulator.capacity() == old(self).accumulator.capacity(),
            final(self).accumulator.columns() == empty_columns(old(self).accumulator.fields()),
            final(self).accumulator.count() == 0,
            final(self).started == old(self).started,
            final(self).rows == old(self).rows,
            r is Ok ==> final(self).writer@ == (FileLog {
                batches: old(self).writer@.batches.push(old(self).accumulator.columns()),
                ready: final(self).writer@.ready,
                ..old(self).writer@
            }),
            r is Ok ==> old(self).writer@.ready.is_prefix_of(final(self).writer@.ready),
            batch_accepted(old(self).accumulator.fields(), old(self).accumulator.columns()) && old(
                self,
            ).accumulator.columns()[0].len() == 0 ==> r is Ok,
            r matches Err(error) ==> !(error is Row),
            (r matches Err(error) && error is Arrow) <==> !batch_accepted(
                old(self).accumulator.fields(),
                old(self).accumulator.columns(),
            ),
            (r matches Err(error) && error is Parquet) <==> batch_accepted(
                old(self).accumulator.fields(),
                old(self).accumulator.columns(),
            ) && !batch_written(
                old(self).writer@.compression,
                old(self).writer@.fields,
                old(self).writer@.batches.push(old(self).accumulator.columns()),
            ),
            writable(
                old(self).writer@.fields,
                columns_in(
                    old(self).writer@.fields,
                    old(self).writer@.batches.push(old(self).accumulator.columns()),
                ),
            ) ==> !(r matches Err(error) && error is Parquet),
    {
        match self.accumulator.finish_batch() {
            Ok(batch) => match self.writer.write(&batch) {
                Ok(()) => Ok(()),
                Err(error) => Err(ExportError::Parquet(error)),
            },
            Err(error) => Err(ExportError::Arrow(error)),
        }
    }

    /// Adds a row. Returns whether it completed a batch, which was then written, so
    /// that more of the file may be ready.
    ///
    /// A row that is too short fails the export. So does a full batch that cannot
    /// be made, for want of columns, or that the Parquet writer refuses, which it does
    /// not as long as the rows are not too large for a file.
    pub fn push_row(&mut self, row: &[ValueRef<'_>]) -> (r: Result<bool, ExportError>)
        requires
            old(self).valid(),
            row_fits(old(self).waiting(), row_data(row@)),
        ensures
            r matches Ok(complete) ==> {
                &&& final(self).valid()
                &&& final(self)@ == (ExportView {
                    rows: old(self)@.rows.push(row_data(row@)),
                    ready: final(self)@.ready,
                    ..old(self)@
                })
                &&& complete == batches_full(old(self)@.rows.len() + 1)
                &&& old(self)@.ready.is_prefix_of(final(self)@.ready)
                &&& !complete ==> final(self)@.ready == old(self)@.ready
            },
            row@.len() < old(self)@.fields.len() <==> (r matches Err(error) && error is Row),
            row@.len() < old(self)@.fields.len() ==> (r matches Err(error) && error
                == ExportError::Row(RowError::InvalidColumnIndex(row@.len() as usize))),
            (r matches Err(error) && error is Arrow) <==> old(self)@.fields.len() == 0
                && batches_full(old(self)@.rows.len() + 1),
            (r matches Err(error) && error is Parquet) <==> 0 < old(self)@.fields.len()
                <= row@.len() && batches_full(old(self)@.rows.len() + 1) && !last_batch_written(
                old(self)@.fields,
                old(self)@.rows.push(row_data(row@)),
            ),
            result_writable(old(self)@.fields, old(self)@.rows.push(row_data(row@)))
                ==> !(r matches Err(error) && error is Parquet),
    {
        let ghost earlier = self.rows@;
        let ghost data = row_data(row@);
        let ghost rows = earlier.push(data);
        let ghost fields = self.accumulator.fields();
        let ghost size = ROW_BATCH_SIZE as int;
        match self.accumulator.append_row(row) {
            Ok(()) => {},
            Err(error) => {
                return Err(ExportError::Row(error));
            },
        }
        self.started = true;
        self.rows = Ghost(rows);
        let ghost group = rows.subrange(
            earlier.len() - earlier.len() % (size as nat),
            rows.len() as int,
        );
        proof {
            assert(group.drop_last() =~= waiting_rows(earlier));
            assert(rows_complete(rows, fields.len())) by {
                assert(forall|i: int|
                    0 <= i < rows.len() - 1 ==> #[trigger] rows[i] == earlier[i]);
            }
            assert(rows_complete(group, fields.len()));
            lemma_columns_of(fields, group);
            assert(self.accumulator.columns() == columns_of(fields, group));
            assert forall|i: int| 0 <= i < earlier.len() / (size as nat) implies #[trigger] batch_rows(
                rows,
                i,
            ) == batch_rows(earlier, i) by {
                assert((i + 1) * size <= earlier.len());
                assert(batch_rows(rows, i) =~= batch_rows(earlier, i));
            }
        }
        if self.accumulator.is_full() {
            assert(rows.len() % (size as nat) == 0);
            assert(rows.len() / (size as nat) == earlier.len() / (size as nat) + 1);
            assert(batch_rows(rows, earlier.len() as int / size) =~= group);
            proof {
                assert(batch_count(rows.len()) == rows.len() / (size as nat));
                assert(self.writer@.batches.push(self.accumulator.columns()) =~= batches(
                    fields,
                    rows,
                ));
                law_batches_make_up_the_columns(fields, rows);
            }
            match self.write_batch() {
                Ok(()) => {},
                Err(error) => {
                    return Err(error);
                },
            }
            assert(waiting_rows(rows) =~= seq![]);
            assert(self.writer@.batches =~= Seq::new(
                rows.len() / (ROW_BATCH_SIZE as nat),
                |i: int| columns_of(fields, batch_rows(rows, i)),
            ));
            Ok(true)
        } else {
            assert(rows.len() / (size as nat) == earlier.len() / (size as nat));
            assert(waiting_rows(rows) =~= group);
            assert(self.writer@.batches =~= Seq::new(
                rows.len() / (ROW_BATCH_SIZE as nat),
                |i: int| columns_of(fields, batch_rows(rows, i)),
            ));
            Ok(false)
        }
    }

    /// Takes out all that is ready of the file.
    pub fn take_written(&mut self) -> (r: Vec<u8>)
        requires
            old(self).valid(),
        ensures
            final(self).valid(),
            r@ == old(self)@.ready,
            final(self)@ == (ExportView {
                taken: old(self)@.taken + r@,
                ready: seq![],
                ..old(self)@
            }),
    {
        self.writer.take_written()
    }

    /// Completes the file, and returns what was not taken of it. Who reads the file
    /// gets back the schema and all the rows.
    ///
    /// A result without columns fails, as it makes no batch. One with columns succeeds
    /// if it has no rows or is not too large for a file, and otherwise unless the Parquet
    /// writer refuses the last batch or cannot complete the file.
    pub fn finish(self) -> (r: Result<Vec<u8>, ExportError>)
        requires
            self.valid(),
        ensures
            r matches Ok(rest) ==> {
                &&& exported(self@.fields, self@.rows) == Some(self@.taken + rest@)
                &&& self@.ready.is_prefix_of(rest@)
                &&& magic().is_prefix_of(self@.taken + rest@)
                &&& result_readable(self@.fields, self@.rows) ==> parquet_contents(
                    self@.taken + rest@,
                ) == (BatchView {
                    fields: self@.fields,
                    columns: columns_of(self@.fields, self@.rows),
                })
            },
            r matches Err(error) ==> !(error is Row),
            (r matches Err(error) && error is Arrow) <==> self@.fields.len() == 0,
            self@.fields.len() > 0 ==> (r is Ok <==> (self@.rows.len() > 0 && batches_full(
                self@.rows.len(),
            ) || last_batch_written(self@.fields, self@.rows)) && exported(
                self@.fields,
                self@.rows,
            ) is Some),
            self@.fields.len() > 0 && result_writable(self@.fields, self@.rows) ==> r is Ok,
            self@.rows.len() == 0 && 0 < self@.fields.len() < i32::MAX ==> r is Ok,
    {
        let ghost rows = self.rows@;
        let ghost fields = self.accumulator.fields();
        let ghost size = ROW_BATCH_SIZE as int;
        let mut export: ParquetExport = self;
        proof {
            assert(rows_complete(waiting_rows(rows), fields.len()));
            lemma_columns_of(fields, waiting_rows(rows));
            law_batches_make_up_the_columns(fields, rows);
        }
        if !export.accumulator.is_empty() || !export.started {
            assert(batch_count(rows.len()) == rows.len() / (size as nat) + 1);
            assert(batch_rows(rows, rows.len() as int / size) =~= waiting_rows(rows));
            assert(export.writer@.batches.push(export.accumulator.columns()) =~= batches(
                fields,
                rows,
            ));
            match export.write_batch() {
                Ok(()) => {},
                Err(error) => {
                    return Err(error);
                },
            }
        } else {
            assert(batch_count(rows.len()) == rows.len() / (size as nat));
        }
        assert(export.writer@.batches =~= batches(fields, rows));
        match export.writer.finish() {
            Ok(rest) => Ok(rest),
            Err(error) => Err(ExportError::Parquet(error)),
        }
    }
}

// ---------------------------------------------------------------------------
// Laws
// ---------------------------------------------------------------------------

/// Every row goes into exactly one batch, and the batches keep the rows in order:
/// the batches, one after the other, are the rows.
pub proof fn law_batches_hold_every_row(rows: Seq<Seq<Datum>>)
    ensures
        forall|i: int|
            0 <= i < rows.len() ==> {
                let b = i / (ROW_BATCH_SIZE as int);
                let j = i % (ROW_BATCH_SIZE as int);
                &&& 0 <= b < batch_count(rows.len())
                &&& 0 <= j < batch_rows(rows, b).len()
                &&& batch_rows(rows, b)[j] == #[trigger] rows[i]
            },
        forall|b: int, j: int|
            0 <= b < batch_count(rows.len()) && 0 <= j < batch_rows(rows, b).len() ==> 0 <= b
                * ROW_BATCH_SIZE + j < rows.len() && (#[trigger] batch_rows(rows, b)[j]) == rows[b
                * ROW_BATCH_SIZE + j],
{
}

/// No batch has more rows than a batch may have, all but the last have as many,
/// and only the batch of a result without rows is empty.
pub proof fn law_batch_sizes(rows: Seq<Seq<Datum>>, b: int)
    requires
        0 <= b < batch_count(rows.len()),
    ensures
        batch_rows(rows, b).len() <= ROW_BATCH_SIZE,
        b + 1 < batch_count(rows.len()) ==> batch_rows(rows, b).len() == ROW_BATCH_SIZE,
        batch_rows(rows, b).len() == 0 ==> rows.len() == 0,
{
}

/// Every cell of the columns of rows is what the value of its row and column becomes
/// in a column of that type.
pub proof fn law_columns_hold_every_value(fields: Seq<FieldView>, rows: Seq<Seq<Datum>>, i: int, c: int)
    requires
        rows_complete(rows, fields.len()),
        0 <= i < rows.len(),
        0 <= c < fields.len(),
    ensures
        columns_of(fields, rows)[c].only(i) == Cells::none(fields[c].data_type).with(rows[i][c]),
    decreases rows.len(),
{
    let earlier = rows.drop_last();
    lemma_columns_of(fields, earlier);
    lemma_columns_of(fields, rows);
    let column = columns_of(fields, earlier)[c];
    assert(columns_of(fields, rows)[c] == column.with(rows.last()[c]));
    if i < rows.len() - 1 {
        law_columns_hold_every_value(fields, earlier, i, c);
        assert(column.with(rows.last()[c]).only(i) =~~= column.only(i));
    } else {
        assert(column.with(rows.last()[c]).only(i) =~~= Cells::none(fields[c].data_type).with(
            rows[i][c],
        ));
    }
}

/// Every value is in its place in the file: the cell of row `i` in column `c` is
/// what the value becomes in a column of that type.
pub proof fn law_every_value_is_in_its_place(
    fields: Seq<FieldView>,
    rows: Seq<Seq<Datum>>,
    i: int,
    c: int,
)
    requires
        rows_complete(rows, fields.len()),
        0 <= i < rows.len(),
        0 <= c < fields.len(),
    ensures
        batches(fields, rows)[i / (ROW_BATCH_SIZE as int)][c].only(i % (ROW_BATCH_SIZE as int))
            == Cells::none(fields[c].data_type).with(rows[i][c]),
{
    law_batches_hold_every_row(rows);
    let b = i / (ROW_BATCH_SIZE as int);
    let j = i % (ROW_BATCH_SIZE as int);
    assert(batch_rows(rows, b)[j] == rows[i]);
    law_columns_hold_every_value(fields, batch_rows(rows, b), j, c);
}

/// Every batch of a result with columns is a record batch of the schema.
pub proof fn law_batches_are_accepted(fields: Seq<FieldView>, rows: Seq<Seq<Datum>>, b: int)
    requires
        rows_complete(rows, fields.len()),
        0 < fields.len(),
        forall|c: int| 0 <= c < fields.len() ==> (#[trigger] fields[c]).nullable,
        0 <= b < batch_count(rows.len()),
    ensures
        batch_accepted(fields, batches(fields, rows)[b]),
{
    assert(rows_complete(batch_rows(rows, b), fields.len()));
    lemma_columns_of(fields, batch_rows(rows, b));
}

} // verus!
