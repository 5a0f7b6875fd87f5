//! Parquet serialization, schema inference, and record batch building for SQLite rows.

use crate::cell::{
    binary_cell, to_binary, to_boolean, to_float64, to_int64, to_utf8, utf8_cell, Cells,
};
use crate::columns::{
    all_finished_cells, arrow_batch, arrow_fields, arrow_schema_of, batch_accepted, binary_cells,
    boolean_cells, finish_boolean, finished_cells, float64_cells, int64_cells, new_arrow_batch,
    payload, utf8_cells, ArrowBatch, BatchView, BinaryColumn, FinishedColumn, Float64Column,
    Int64Column, Utf8Column,
};
use crate::limits::{readable, writable};
use crate::parquet_file::{
    batch_written, columns_in, file_log, magic, parquet_contents, parquet_file, without_rows,
    Compression, FileLog, FileWriter,
};
use crate::schema::{field_names, schema_fits};
use crate::value::{row_data, Datum, RowError, ValueRef};
use arrow_array::builder::BooleanBuilder;
use arrow_schema::{ArrowError, Schema as ArrowSchema};
use parquet::errors::ParquetError;
use std::sync::Arc;
use vstd::prelude::*;

pub use crate::schema::{
    columns_fit, infer_arrow_type, infer_schema_from_metadata, ColumnMetadata, DataType, Field,
    FieldView, Schema, SchemaRef,
};

verus! {

// ---------------------------------------------------------------------------
// Columns
// ---------------------------------------------------------------------------

/// A column that is being filled.
pub enum ColumnAppender {
    /// A column of integers.
    Int64(Int64Column),
    /// A column of doubles.
    Float64(Float64Column),
    /// A column of truth values.
    Boolean(BooleanBuilder),
    /// A column of byte strings, and how many bytes they take.
    Binary(BinaryColumn, usize),
    /// A column of texts, and how many bytes they take.
    Utf8(Utf8Column, usize),
}

impl View for ColumnAppender {
    type V = Cells;

    open spec fn view(&self) -> Cells {
        match self {
            ColumnAppender::Int64(column) => Cells::Int64(int64_cells(*column)),
            ColumnAppender::Float64(column) => Cells::Float64(float64_cells(*column)),
            ColumnAppender::Boolean(column) => Cells::Boolean(boolean_cells(*column)),
            ColumnAppender::Binary(column, _) => Cells::Binary(binary_cells(*column)),
            ColumnAppender::Utf8(column, _) => Cells::Utf8(utf8_cells(*column)),
        }
    }
}

/// Whether a column stays within the range of its 32-bit offsets when a value is
/// added.
pub open spec fn has_room(cells: Cells, datum: Datum) -> bool {
    payload(cells.with(datum)) <= i32::MAX
}

/// Whether the room for this many cells can be reserved.
pub open spec fn capacity_fits(data_type: DataType, capacity: usize) -> bool {
    match data_type {
        DataType::Int64 => 8 * capacity <= isize::MAX,
        DataType::Float64 => 8 * capacity <= isize::MAX,
        DataType::Boolean => capacity <= isize::MAX,
        DataType::Binary => 64 * capacity <= isize::MAX,
        DataType::Utf8 => 32 * capacity <= isize::MAX,
    }
}

impl ColumnAppender {
    /// Whether the byte count is right, and within the range of the offsets.
    pub open spec fn valid(&self) -> bool {
        match self {
            ColumnAppender::Binary(_, used) => *used == payload(self@) && *used <= i32::MAX,
            ColumnAppender::Utf8(_, used) => *used == payload(self@) && *used <= i32::MAX,
            _ => true,
        }
    }

    /// An empty column of a type.
    pub fn with_capacity(data_type: &DataType, capacity: usize) -> (r: ColumnAppender)
        requires
            capacity_fits(*data_type, capacity),
        ensures
            r.valid(),
            r@ == Cells::none(*data_type),
    {
        match data_type {
            DataType::Int64 => ColumnAppender::Int64(Int64Column::with_capacity(capacity)),
            DataType::Float64 => ColumnAppender::Float64(Float64Column::with_capacity(capacity)),
            DataType::Boolean => ColumnAppender::Boolean(BooleanBuilder::with_capacity(capacity)),
            DataType::Binary => ColumnAppender::Binary(
                BinaryColumn::with_capacity(capacity, capacity * 64),
                0,
            ),
            DataType::Utf8 => ColumnAppender::Utf8(
                Utf8Column::with_capacity(capacity, capacity * 32),
                0,
            ),
        }
    }

    /// Whether the column has room for a value.
    pub fn has_room_for(&self, value: &ValueRef<'_>) -> (r: bool)
        requires
            self.valid(),
        ensures
            r == has_room(self@, value@),
    {
        match self {
            ColumnAppender::Binary(column, used) => {
                let ghost grown = binary_cells(*column).push(binary_cell(value@));
                assert(grown.drop_last() =~= binary_cells(*column));
                match to_binary(value) {
                    Some(bytes) => bytes.len() <= i32::MAX as usize - *used,
                    None => true,
                }
            },
            ColumnAppender::Utf8(column, used) => {
                let ghost grown = utf8_cells(*column).push(utf8_cell(value@));
                assert(grown.drop_last() =~= utf8_cells(*column));
                match to_utf8(value) {
                    Some(text) => text.as_str().as_bytes().len() <= i32::MAX as usize - *used,
                    None => true,
                }
            },
            _ => true,
        }
    }

    /// Adds the cell that a value becomes in the column.
    pub fn append_value(&mut self, value: &ValueRef<'_>)
        requires
            old(self).valid(),
            has_room(old(self)@, value@),
        ensures
            final(self).valid(),
            final(self)@ == old(self)@.with(value@),
    {
        match self {
            ColumnAppender::Int64(column) => column.append(to_int64(value)),
            ColumnAppender::Float64(column) => column.append(to_float64(value)),
            ColumnAppender::Boolean(column) => column.append_option(to_boolean(value)),
            ColumnAppender::Binary(column, used) => {
                let ghost grown = binary_cells(*column).push(binary_cell(value@));
                assert(grown.drop_last() =~= binary_cells(*column));
                let cell: Option<&[u8]> = to_binary(value);
                if let Some(bytes) = cell {
                    *used = *used + bytes.len();
                }
                column.append(cell);
            },
            ColumnAppender::Utf8(column, used) => {
                let ghost grown = utf8_cells(*column).push(utf8_cell(value@));
                assert(grown.drop_last() =~= utf8_cells(*column));
                match to_utf8(value) {
                    Some(text) => {
                        *used = *used + text.as_str().as_bytes().len();
                        column.append(Some(text.as_str()));
                    },
                    None => column.append(None),
                }
            },
        }
    }

    /// Hands the cells out, and leaves the column empty.
    pub fn finish(&mut self) -> (r: FinishedColumn)
        requires
            old(self).valid(),
        ensures
            finished_cells(r) == old(self)@,
            final(self).valid(),
            final(self)@ == Cells::none(old(self)@.data_type()),
    {
        match self {
            ColumnAppender::Int64(column) => column.finish(),
            ColumnAppender::Float64(column) => column.finish(),
            ColumnAppender::Boolean(column) => finish_boolean(column),
            ColumnAppender::Binary(column, used) => {
                *used = 0;
                column.finish()
            },
            ColumnAppender::Utf8(column, used) => {
                *used = 0;
                column.finish()
            },
        }
    }
}

// ---------------------------------------------------------------------------
// Record batches
// ---------------------------------------------------------------------------

/// A batch of rows, column by column.
pub struct RecordBatch {
    batch: ArrowBatch,
    rows: usize,
}

impl BatchView {
    /// How many rows the batch has.
    pub open spec fn rows(self) -> nat {
        self.columns[0].len()
    }
}

impl View for RecordBatch {
    type V = BatchView;

    closed spec fn view(&self) -> BatchView {
        arrow_batch(self.batch)
    }
}

impl RecordBatch {
    #[verifier::type_invariant]
    closed spec fn rows_counted(self) -> bool {
        self.rows == arrow_batch(self.batch).rows()
    }

    /// How many rows the batch has.
    pub fn num_rows(&self) -> (r: usize)
        ensures
            r == self@.rows(),
    {
        proof {
            use_type_invariant(self);
        }
        self.rows
    }
}

/// Columns without cells, one for each column of a schema.
pub open spec fn empty_columns(fields: Seq<FieldView>) -> Seq<Cells> {
    fields.map_values(|field: FieldView| Cells::none(field.data_type))
}

/// Columns to which the values of a row were added, as far as the row goes.
pub open spec fn appended(columns: Seq<Cells>, row: Seq<Datum>) -> Seq<Cells> {
    Seq::new(
        columns.len(),
        |i: int|
            if i < row.len() {
                columns[i].with(row[i])
            } else {
                columns[i]
            },
    )
}

/// Whether every column has room for its value of a row.
pub open spec fn row_fits(columns: Seq<Cells>, row: Seq<Datum>) -> bool {
    forall|i: int|
        0 <= i < columns.len() && i < row.len() ==> has_room(#[trigger] columns[i], row[i])
}

/// Helper for accumulating SQLite rows into [`RecordBatch`] instances.
pub struct RecordBatchAccumulator {
    schema: SchemaRef,
    arrow_schema: Arc<ArrowSchema>,
    appenders: Vec<ColumnAppender>,
    capacity: usize,
    count: usize,
}

impl RecordBatchAccumulator {
    /// The schema of the batches.
    pub closed spec fn fields(&self) -> Seq<FieldView> {
        self.schema@
    }

    /// The cells that wait for the next batch, column by column.
    pub closed spec fn columns(&self) -> Seq<Cells> {
        self.appenders@.map_values(|appender: ColumnAppender| appender@)
    }

    /// How many rows make a batch.
    pub closed spec fn capacity(&self) -> usize {
        self.capacity
    }

    /// How many rows wait for the next batch.
    pub closed spec fn count(&self) -> usize {
        self.count
    }

    /// Whether every part is in order by itself.
    pub closed spec fn parts_valid(&self) -> bool {
        &&& arrow_fields(*self.arrow_schema) == Some(self.schema@)
        &&& forall|i: int|
            0 <= i < self.appenders@.len() ==> (#[trigger] self.appenders@[i]).valid()
        &&& forall|i: int|
            0 <= i < self.schema@.len() ==> capacity_fits(
                (#[trigger] self.schema@[i]).data_type,
                self.capacity,
            )
    }

    /// Whether the columns are those of the schema, and the last of them has as
    /// many cells as there are rows.
    pub open spec fn valid(&self) -> bool {
        &&& self.columns().len() == self.fields().len()
        &&& forall|i: int|
            0 <= i < self.columns().len() ==> (#[trigger] self.columns()[i]).data_type()
                == self.fields()[i].data_type
        &&& self.columns().len() > 0 ==> self.columns().last().len() == self.count()
        &&& self.parts_valid()
    }

    /// Empty columns for a schema.
    fn new_appenders(schema: &Schema, capacity: usize) -> (r: Vec<ColumnAppender>)
        requires
            forall|i: int|
                0 <= i < schema@.len() ==> capacity_fits(
                    (#[trigger] schema@[i]).data_type,
                    capacity,
                ),
        ensures
            r@.map_values(|appender: ColumnAppender| appender@) == empty_columns(schema@),
            forall|i: int| 0 <= i < r@.len() ==> (#[trigger] r@[i]).valid(),
    {
        let mut appenders: Vec<ColumnAppender> = Vec::new();
        let mut i: usize = 0;
        while i < schema.fields.len()
            invariant
                i <= schema.fields@.len(),
                appenders@.len() == i,
                forall|j: int|
                    0 <= j < schema@.len() ==> capacity_fits(
                        (#[trigger] schema@[j]).data_type,
                        capacity,
                    ),
                forall|j: int|
                    0 <= j < i ==> (#[trigger] appenders@[j]).valid() && appenders@[j]@
                        == Cells::none(schema@[j].data_type),
            decreases schema.fields@.len() - i,
        {
            assert(capacity_fits(schema@[i as int].data_type, capacity));
            appenders.push(ColumnAppender::with_capacity(&schema.fields[i].data_type, capacity));
            i = i + 1;
        }
        assert(appenders@.map_values(|appender: ColumnAppender| appender@) =~= empty_columns(
            schema@,
        ));
        appenders
    }

    /// Creates a new accumulator with the given schema and batch capacity.
    pub fn new(schema: SchemaRef, capacity: usize) -> (r: RecordBatchAccumulator)
        requires
            forall|i: int|
                0 <= i < schema@.len() ==> capacity_fits(
                    (#[trigger] schema@[i]).data_type,
                    capacity,
                ),
        ensures
            r.valid(),
            r.fields() == schema@,
            r.columns() == empty_columns(schema@),
            r.capacity() == capacity,
            r.count() == 0,
    {
        let appenders: Vec<ColumnAppender> = Self::new_appenders(&schema, capacity);
        let arrow_schema: Arc<ArrowSchema> = arrow_schema_of(&schema);
        RecordBatchAccumulator { schema, arrow_schema, appenders, capacity, count: 0 }
    }

    /// The types of the columns.
    pub fn data_types(&self) -> (r: Vec<DataType>)
        ensures
            r@ == self.fields().map_values(|field: FieldView| field.data_type),
    {
        let mut types: Vec<DataType> = Vec::new();
        let mut i: usize = 0;
        while i < self.schema.fields.len()
            invariant
                i <= self.schema.fields@.len(),
                types@.len() == i,
                forall|j: int| 0 <= j < i ==> #[trigger] types@[j] == self.schema@[j].data_type,
            decreases self.schema.fields@.len() - i,
        {
            types.push(self.schema.fields[i].data_type);
            i = i + 1;
        }
        assert(types@ =~= self.fields().map_values(|field: FieldView| field.data_type));
        types
    }

    /// Whether every column has room for its value of a row.
    pub fn has_room_for(&self, row: &[ValueRef<'_>]) -> (r: bool)
        requires
            self.valid(),
        ensures
            r == row_fits(self.columns(), row_data(row@)),
    {
        let mut i: usize = 0;
        while i < self.appenders.len() && i < row.len()
            invariant
                self.valid(),
                i <= self.appenders@.len(),
                i <= row@.len(),
                forall|j: int|
                    0 <= j < i ==> has_room(#[trigger] self.columns()[j], row_data(row@)[j]),
            decreases row@.len() - i,
        {
            assert(self.columns()[i as int] == self.appenders@[i as int]@);
            if !self.appenders[i].has_room_for(&row[i]) {
                assert(!has_room(self.columns()[i as int], row_data(row@)[i as int]));
                return false;
            }
            i = i + 1;
        }
        true
    }

    /// Appends a row to the columns. A row that is too short fills the columns
    /// that it has values for, and is not counted.
    pub fn append_row(&mut self, row: &[ValueRef<'_>]) -> (r: Result<(), RowError>)
        requires
            old(self).valid(),
            row_fits(old(self).columns(), row_data(row@)),
            old(self).count() < usize::MAX,
        ensures
            final(self).valid(),
            final(self).fields() == old(self).fields(),
            final(self).capacity() == old(self).capacity(),
            final(self).columns() == appended(old(self).columns(), row_data(row@)),
            r == (if row@.len() < old(self).fields().len() {
                Err::<(), RowError>(RowError::InvalidColumnIndex(row@.len() as usize))
            } else {
                Ok(())
            }),
            final(self).count() == (if r is Ok {
                old(self).count() + 1
            } else {
                old(self).count() as int
            }),
    {
        let ghost before = self.columns();
        let ghost data = row_data(row@);
        let mut i: usize = 0;
        while i < self.appenders.len()
            invariant
                i <= self.appenders@.len(),
                i <= row@.len(),
                data == row_data(row@),
                before == old(self).columns(),
                old(self).valid(),
                row_fits(before, data),
                self.schema == old(self).schema,
                self.arrow_schema == old(self).arrow_schema,
                self.capacity == old(self).capacity,
                self.count == old(self).count,
                self.appenders@.len() == before.len(),
                forall|j: int|
                    0 <= j < self.appenders@.len() ==> (#[trigger] self.appenders@[j]).valid(),
                forall|j: int|
                    0 <= j < i ==> (#[trigger] self.appenders@[j])@ == before[j].with(data[j]),
                forall|j: int|
                    i <= j < self.appenders@.len() ==> (#[trigger] self.appenders@[j])@
                        == before[j],
            decreases self.appenders@.len() - i,
        {
            if i >= row.len() {
                assert(self.columns() =~= appended(before, data));
                return Err(RowError::InvalidColumnIndex(i));
            }
            assert(has_room(before[i as int], data[i as int]));
            self.appenders[i].append_value(&row[i]);
            i = i + 1;
        }
        self.count = self.count + 1;
        assert(self.columns() =~= appended(before, data));
        Ok(())
    }

    /// Returns `true` if the accumulator has reached its batch capacity.
    pub fn is_full(&self) -> (r: bool)
        ensures
            r == (self.count() >= self.capacity()),
    {
        self.count >= self.capacity
    }

    /// Returns `true` if no rows have been appended to the accumulator.
    pub fn is_empty(&self) -> (r: bool)
        ensures
            r == (self.count() == 0),
    {
        self.count == 0
    }

    /// Returns the number of accumulated rows.
    pub fn len(&self) -> (r: usize)
        ensures
            r == self.count(),
    {
        self.count
    }

    /// Finishes the current batch into a [`RecordBatch`] and resets the columns.
    /// The batch is refused where a schema without columns, or a row that was too
    /// short, left columns that make no batch.
    pub fn finish_batch(&mut self) -> (r: Result<RecordBatch, ArrowError>)
        requires
            old(self).valid(),
        ensures
            final(self).valid(),
            final(self).fields() == old(self).fields(),
            final(self).capacity() == old(self).capacity(),
            final(self).columns() == empty_columns(old(self).fields()),
            final(self).count() == 0,
            r is Ok <==> batch_accepted(old(self).fields(), old(self).columns()),
            r matches Ok(batch) ==> batch@ == (BatchView {
                fields: old(self).fields(),
                columns: old(self).columns(),
            }),
    {
        let ghost before = self.columns();
        let rows: usize = self.count;
        let mut columns: Vec<FinishedColumn> = Vec::new();
        let mut i: usize = 0;
        while i < self.appenders.len()
            invariant
                i <= self.appenders@.len(),
                before == old(self).columns(),
                self.schema == old(self).schema,
                self.arrow_schema == old(self).arrow_schema,
                self.capacity == old(self).capacity,
                self.appenders@.len() == before.len(),
                columns@.len() == i,
                forall|j: int|
                    0 <= j < self.appenders@.len() ==> (#[trigger] self.appenders@[j]).valid(),
                forall|j: int|
                    0 <= j < i ==> finished_cells(#[trigger] columns@[j]) == before[j],
                forall|j: int|
                    i <= j < self.appenders@.len() ==> (#[trigger] self.appenders@[j])@
                        == before[j],
            decreases self.appenders@.len() - i,
        {
            let column: FinishedColumn = self.appenders[i].finish();
            columns.push(column);
            i = i + 1;
        }
        assert(all_finished_cells(columns@) =~= before);
        self.count = 0;
        self.appenders = Self::new_appenders(&self.schema, self.capacity);
        match new_arrow_batch(&self.arrow_schema, columns) {
            Ok(batch) => Ok(RecordBatch { batch, rows }),
            Err(error) => Err(error),
        }
    }
}

// ---------------------------------------------------------------------------
// Parquet files
// ---------------------------------------------------------------------------

/// Writes record batches into a Parquet file in memory.
pub struct ParquetWriter {
    file: FileWriter,
}

impl View for ParquetWriter {
    type V = FileLog;

    closed spec fn view(&self) -> FileLog {
        file_log(self.file)
    }
}

/// Creates a [`ParquetWriter`] with Zstandard compression for writing Parquet data.
pub fn create_parquet_writer(schema: &Schema) -> (r: Result<ParquetWriter, ParquetError>)
    requires
        schema_fits(field_names(schema@)),
    ensures
        r is Ok,
        r matches Ok(writer) ==> writer@ == (FileLog {
            compression: Compression::Zstd,
            fields: schema@,
            batches: seq![],
            taken: seq![],
            ready: writer@.ready,
            failed: false,
        }),
        r matches Ok(writer) ==> writer@.ready.is_prefix_of(magic()),
{
    match FileWriter::new(&arrow_schema_of(schema), Compression::Zstd) {
        Ok(file) => Ok(ParquetWriter { file }),
        Err(error) => Err(error),
    }
}

impl ParquetWriter {
    /// Adds a batch to the file, of which more may be ready then. A batch without
    /// rows is always accepted, and so is one that keeps the file writable. A
    /// writer that failed is of no further use.
    pub fn write(&mut self, batch: &RecordBatch) -> (r: Result<(), ParquetError>)
        requires
            batch@.fields == old(self)@.fields,
            !old(self)@.failed,
        ensures
            r is Err <==> final(self)@.failed,
            r is Ok <==> batch_written(
                old(self)@.compression,
                old(self)@.fields,
                old(self)@.batches.push(batch@.columns),
            ),
            writable(
                old(self)@.fields,
                columns_in(old(self)@.fields, old(self)@.batches.push(batch@.columns)),
            ) ==> r is Ok,
            r is Ok ==> final(self)@ == (FileLog {
                batches: old(self)@.batches.push(batch@.columns),
                ready: final(self)@.ready,
                ..old(self)@
            }),
            r is Ok ==> old(self)@.ready.is_prefix_of(final(self)@.ready),
            batch@.columns.len() > 0 && batch@.rows() == 0 ==> r is Ok && final(self)@.ready == old(
                self,
            )@.ready,
    {
        self.file.write(&batch.batch)
    }

    /// Takes out all that is ready of the file.
    pub fn take_written(&mut self) -> (r: Vec<u8>)
        requires
            !old(self)@.failed,
        ensures
            r@ == old(self)@.ready,
            final(self)@ == (FileLog {
                taken: old(self)@.taken + r@,
                ready: seq![],
                ..old(self)@
            }),
    {
        self.file.take_written()
    }

    /// Completes the file, and returns what was not taken of it, beginning with what
    /// was ready. This succeeds where no batch had rows, and where the file is writable.
    pub fn finish(self) -> (r: Result<Vec<u8>, ParquetError>)
        requires
            !self@.failed,
        ensures
            r is Ok <==> parquet_file(self@.compression, self@.fields, self@.batches) is Some,
            r matches Ok(rest) ==> {
                &&& parquet_file(self@.compression, self@.fields, self@.batches) == Some(
                    self@.taken + rest@,
                )
                &&& self@.ready.is_prefix_of(rest@)
                &&& magic().is_prefix_of(self@.taken + rest@)
                &&& self@.fields.len() > 0 && readable(
                    self@.fields,
                    columns_in(self@.fields, self@.batches),
                ) ==> parquet_contents(self@.taken + rest@) == (BatchView {
                    fields: self@.fields,
                    columns: columns_in(self@.fields, self@.batches),
                })
            },
            writable(self@.fields, columns_in(self@.fields, self@.batches)) ==> r is Ok,
            without_rows(self@.batches) && self@.fields.len() < i32::MAX ==> r is Ok,
    {
        let ghost taken = self@.taken;
        match self.file.finish() {
            Ok(rest) => {
                assert(magic() =~= (taken + rest@).subrange(0, 4));
                Ok(rest)
            },
            Err(error) => Err(error),
        }
    }
}

// ---------------------------------------------------------------------------
// Chunks
// ---------------------------------------------------------------------------

/// The bytes of chunks, one after the other.
pub open spec fn concatenation(chunks: Seq<Vec<u8>>) -> Seq<u8>
    decreases chunks.len(),
{
    if chunks.len() == 0 {
        seq![]
    } else {
        concatenation(chunks.drop_last()) + chunks.last()@
    }
}

/// Buffers bytes and hands them out in chunks for streaming responses.
pub struct ChunkWriter {
    buffer: Vec<u8>,
    chunk_size: usize,
}

impl View for ChunkWriter {
    type V = Seq<u8>;

    /// The bytes that wait for the next chunk.
    closed spec fn view(&self) -> Seq<u8> {
        self.buffer@
    }
}

/// What became of the chunk of a write or of a flush.
#[derive(Debug, Clone, Copy, PartialEq, Eq, Structural)]
pub enum Delivery {
    /// There was none.
    Unneeded,
    /// The client takes it.
    Received,
    /// The client is gone.
    Refused,
}

/// A client that is gone.
#[derive(Debug, Clone, Copy, PartialEq, Eq, Structural)]
pub struct Disconnected;

impl Disconnected {
    /// The text of the error.
    pub fn message(&self) -> (r: &'static str)
        ensures
            r@ == "Client disconnected"@,
    {
        "Client disconnected"
    }
}

/// How much is written at a time, and by how much a chunk can exceed its size.
pub const PIECE_SIZE: usize = 4096;

impl ChunkWriter {
    /// How many bytes make a chunk.
    pub closed spec fn chunk_size(&self) -> usize {
        self.chunk_size
    }

    /// Creates a new `ChunkWriter` with the given chunk buffer size.
    pub fn new(chunk_size: usize) -> (r: ChunkWriter)
        requires
            chunk_size + PIECE_SIZE <= isize::MAX,
        ensures
            r@.len() == 0,
            r.chunk_size() == chunk_size,
    {
        ChunkWriter { buffer: Vec::with_capacity(chunk_size + PIECE_SIZE), chunk_size }
    }

    /// Buffers bytes. Returns all that is buffered once it makes a chunk.
    pub fn write(&mut self, bytes: &[u8]) -> (r: Option<Vec<u8>>)
        requires
            old(self).chunk_size() + PIECE_SIZE <= isize::MAX,
        ensures
            final(self).chunk_size() == old(self).chunk_size(),
            (old(self)@ + bytes@).len() >= old(self).chunk_size() ==> {
                &&& r matches Some(chunk) && chunk@ == old(self)@ + bytes@
                &&& final(self)@.len() == 0
            },
            (old(self)@ + bytes@).len() < old(self).chunk_size() ==> {
                &&& r is None
                &&& final(self)@ == old(self)@ + bytes@
            },
    {
        self.buffer.extend_from_slice(bytes);
        if self.buffer.len() >= self.chunk_size {
            let mut chunk: Vec<u8> = Vec::with_capacity(self.chunk_size + PIECE_SIZE);
            std::mem::swap(&mut self.buffer, &mut chunk);
            Some(chunk)
        } else {
            None
        }
    }

    /// What a write is answered, by what became of its chunk: it takes all of the bytes,
    /// unless the client is gone.
    pub fn write_reply(bytes: &[u8], delivery: Delivery) -> (r: Result<usize, Disconnected>)
        ensures
            r == (if delivery is Refused {
                Err::<usize, Disconnected>(Disconnected)
            } else {
                Ok(bytes@.len() as usize)
            }),
            r matches Ok(count) ==> count == bytes@.len(),
    {
        match delivery {
            Delivery::Refused => Err(Disconnected),
            _ => Ok(bytes.len()),
        }
    }

    /// What a flush is answered, by what became of its chunk.
    pub fn flush_reply(delivery: Delivery) -> (r: Result<(), Disconnected>)
        ensures
            r == (if delivery is Refused {
                Err::<(), Disconnected>(Disconnected)
            } else {
                Ok(())
            }),
    {
        match delivery {
            Delivery::Refused => Err(Disconnected),
            _ => Ok(()),
        }
    }

    /// Returns what is buffered, if anything.
    pub fn flush(&mut self) -> (r: Option<Vec<u8>>)
        ensures
            final(self).chunk_size() == old(self).chunk_size(),
            final(self)@.len() == 0,
            match r {
                Some(chunk) => chunk@ == old(self)@ && chunk@.len() > 0,
                None => old(self)@.len() == 0,
            },
    {
        if self.buffer.len() > 0 {
            let mut chunk: Vec<u8> = Vec::new();
            std::mem::swap(&mut self.buffer, &mut chunk);
            Some(chunk)
        } else {
            None
        }
    }

    /// Buffers bytes a piece at a time, and returns the chunks that they make
    /// together with what was buffered: all bytes in order, each chunk as large as
    /// it has to be, and larger by less than a piece.
    pub fn write_pieces(&mut self, bytes: &[u8]) -> (r: Vec<Vec<u8>>)
        requires
            0 < old(self).chunk_size(),
            old(self).chunk_size() + PIECE_SIZE <= isize::MAX,
            old(self)@.len() < old(self).chunk_size(),
        ensures
            final(self).chunk_size() == old(self).chunk_size(),
            final(self)@.len() < final(self).chunk_size(),
            concatenation(r@) + final(self)@ == old(self)@ + bytes@,
            forall|i: int|
                0 <= i < r@.len() ==> old(self).chunk_size() <= (#[trigger] r@[i])@.len() < old(
                    self,
                ).chunk_size() + PIECE_SIZE,
    {
        let mut chunks: Vec<Vec<u8>> = Vec::new();
        let mut at: usize = 0;
        assert(concatenation(chunks@) + self@ =~= old(self)@ + bytes@.subrange(0, 0));
        while at < bytes.len()
            invariant
                at <= bytes@.len(),
                0 < self.chunk_size(),
                self.chunk_size() == old(self).chunk_size(),
                self.chunk_size() + PIECE_SIZE <= isize::MAX,
                self@.len() < self.chunk_size(),
                concatenation(chunks@) + self@ == old(self)@ + bytes@.subrange(0, at as int),
                forall|i: int|
                    0 <= i < chunks@.len() ==> old(self).chunk_size() <= (#[trigger] chunks@[i])@.len()
                        < old(self).chunk_size() + PIECE_SIZE,
            decreases bytes@.len() - at,
        {
            let end: usize = if bytes.len() - at > PIECE_SIZE {
                at + PIECE_SIZE
            } else {
                bytes.len()
            };
            let ghost earlier = chunks@;
            let ghost waiting = self@;
            let piece: &[u8] = vstd::slice::slice_subrange(bytes, at, end);
            assert(bytes@.subrange(0, end as int) =~= bytes@.subrange(0, at as int) + piece@);
            let chunk: Option<Vec<u8>> = self.write(piece);
            if let Some(full) = chunk {
                chunks.push(full);
                assert(chunks@.drop_last() =~= earlier);
            }
            assert(concatenation(chunks@) + self@ =~= concatenation(earlier) + waiting + piece@);
            assert(concatenation(earlier) + waiting + piece@ =~= old(self)@ + bytes@.subrange(
                0,
                end as int,
            ));
            at = end;
        }
        assert(bytes@.subrange(0, at as int) =~= bytes@);
        chunks
    }
}

} // verus!
