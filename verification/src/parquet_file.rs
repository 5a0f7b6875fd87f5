//! The writer of Parquet files.

use crate::cell::Cells;
use crate::columns::{arrow_batch, arrow_fields, ArrowBatch, BatchView};
use crate::limits::{readable, writable};
use crate::schema::{field_names, schema_fits, DataType, FieldView};
use arrow_schema::Schema as ArrowSchema;
use parquet::arrow::ArrowWriter;
use parquet::errors::ParquetError;
use parquet::file::properties::WriterProperties;
use std::sync::Arc;
use vstd::prelude::*;

verus! {

/// How the pages of a Parquet file are compressed.
#[derive(Debug, Clone, Copy, PartialEq, Eq, Structural)]
pub enum Compression {
    /// They are not.
    Uncompressed,
    /// With Zstandard, at its default level.
    Zstd,
}

/// An error of `parquet`.
#[verifier::external_type_specification]
#[verifier::external_body]
pub struct ExParquetError(ParquetError);

/// A writer of `parquet` that collects record batches into a file in memory.
#[verifier::external_body]
pub struct FileWriter {
    writer: ArrowWriter<Vec<u8>>,
}

/// What was done with a writer.
pub struct FileLog {
    /// How it compresses.
    pub compression: Compression,
    /// The schema that it was made with.
    pub fields: Seq<FieldView>,
    /// The columns of each batch that it was given.
    pub batches: Seq<Seq<Cells>>,
    /// The bytes of the file that were taken out of it.
    pub taken: Seq<u8>,
    /// The bytes of the file that reached its sink and were not taken, which come
    /// after those that were.
    pub ready: Seq<u8>,
    /// Whether it failed to write a batch, after which it is of no use.
    pub failed: bool,
}

/// What was done with a writer so far.
pub uninterp spec fn file_log(writer: FileWriter) -> FileLog;

/// Whether `ArrowWriter::write` takes the last of batches, from a writer that was made
/// with a schema and a compression and took the others.
pub uninterp spec fn batch_written(
    compression: Compression,
    fields: Seq<FieldView>,
    batches: Seq<Seq<Cells>>,
) -> bool;

/// The Parquet file of batches: what `ArrowWriter` writes in all when it is made with a
/// schema and a compression, has taken the batches one after the other, and is closed.
/// There is none where it cannot be closed.
pub uninterp spec fn parquet_file(
    compression: Compression,
    fields: Seq<FieldView>,
    batches: Seq<Seq<Cells>>,
) -> Option<Seq<u8>>;

/// The cells of one column in batches, one batch after the other.
pub open spec fn column_in(data_type: DataType, batches: Seq<Seq<Cells>>, c: int) -> Cells
    decreases batches.len(),
{
    if batches.len() == 0 {
        Cells::none(data_type)
    } else {
        column_in(data_type, batches.drop_last(), c).followed_by(batches.last()[c])
    }
}

/// The cells of batches, one batch after the other.
pub open spec fn columns_in(fields: Seq<FieldView>, batches: Seq<Seq<Cells>>) -> Seq<Cells> {
    Seq::new(fields.len(), |c: int| column_in(fields[c].data_type, batches, c))
}

/// The schema of a Parquet file and the cells of all its rows: what
/// `ParquetRecordBatchReader` reads from it.
pub uninterp spec fn parquet_contents(file: Seq<u8>) -> BatchView;

/// Whether batches have no rows.
pub open spec fn without_rows(batches: Seq<Seq<Cells>>) -> bool {
    forall|b: int|
        0 <= b < batches.len() ==> (#[trigger] batches[b]).len() > 0 && batches[b][0].len() == 0
}

/// The four bytes that begin a Parquet file.
pub open spec fn magic() -> Seq<u8> {
    seq![0x50u8, 0x41u8, 0x52u8, 0x31u8]
}

impl FileWriter {
    /// `ArrowWriter::try_new` makes a writer without batches. It fails only for
    /// types that Parquet lacks and where the sink fails, and a `Vec` never does. It
    /// panics where the schema takes more than the 2 gigabytes of a FlatBuffers buffer.
    /// All that it writes is the beginning of the file, of which it is left open how
    /// much reaches the sink.
    #[verifier::external_body]
    pub(crate) fn new(schema: &Arc<ArrowSchema>, compression: Compression) -> (r: Result<
        FileWriter,
        ParquetError,
    >)
        requires
            arrow_fields(**schema) is Some,
            schema_fits(field_names(arrow_fields(**schema)->Some_0)),
        ensures
            r is Ok,
            r matches Ok(writer) ==> file_log(writer) == (FileLog {
                compression,
                fields: arrow_fields(**schema)->Some_0,
                batches: seq![],
                taken: seq![],
                ready: file_log(writer).ready,
                failed: false,
            }),
            r matches Ok(writer) ==> file_log(writer).ready.is_prefix_of(magic()),
    {
        let codec = match compression {
            Compression::Uncompressed => parquet::basic::Compression::UNCOMPRESSED,
            Compression::Zstd => parquet::basic::Compression::ZSTD(Default::default()),
        };
        let properties = WriterProperties::builder().set_compression(codec).build();
        match ArrowWriter::try_new(Vec::new(), schema.clone(), Some(properties)) {
            Ok(writer) => Ok(FileWriter { writer }),
            Err(error) => Err(error),
        }
    }

    /// `ArrowWriter::write` adds a batch of the writer's schema to the file. It does
    /// nothing for a batch without rows. Otherwise bytes may reach the sink, after
    /// those that are there, and it is left open how many.
    ///
    /// Whether it succeeds depends on the batches alone. It fails where a page takes
    /// more bytes than its header can count, or where there are more row groups than
    /// the footer can count. A page is closed once it has [`PAGE_ROWS`] rows or a
    /// megabyte, which is looked at after at most that many rows more, so it is their
    /// values that decide. It is left open what the writer holds after a failure.
    ///
    /// [`PAGE_ROWS`]: crate::limits::PAGE_ROWS
    #[verifier::external_body]
    pub(crate) fn write(&mut self, batch: &ArrowBatch) -> (r: Result<(), ParquetError>)
        requires
            arrow_batch(*batch).fields == file_log(*old(self)).fields,
            !file_log(*old(self)).failed,
        ensures
            r is Err <==> file_log(*final(self)).failed,
            r is Ok <==> batch_written(
                file_log(*old(self)).compression,
                file_log(*old(self)).fields,
                file_log(*old(self)).batches.push(arrow_batch(*batch).columns),
            ),
            writable(
                file_log(*old(self)).fields,
                columns_in(
                    file_log(*old(self)).fields,
                    file_log(*old(self)).batches.push(arrow_batch(*batch).columns),
                ),
            ) ==> r is Ok,
            r is Ok ==> file_log(*final(self)) == (FileLog {
                batches: file_log(*old(self)).batches.push(arrow_batch(*batch).columns),
                ready: file_log(*final(self)).ready,
                ..file_log(*old(self))
            }),
            r is Ok ==> file_log(*old(self)).ready.is_prefix_of(file_log(*final(self)).ready),
            arrow_batch(*batch).columns.len() > 0 && arrow_batch(*batch).columns[0].len() == 0
                ==> r is Ok && file_log(*final(self)).ready == file_log(*old(self)).ready,
    {
        self.writer.write(&batch.batch)
    }

    /// `ArrowWriter::inner_mut` gives access to the bytes that reached the sink and
    /// are still there, all of which are taken out of it.
    #[verifier::external_body]
    pub(crate) fn take_written(&mut self) -> (r: Vec<u8>)
        requires
            !file_log(*old(self)).failed,
        ensures
            r@ == file_log(*old(self)).ready,
            file_log(*final(self)) == (FileLog {
                taken: file_log(*old(self)).taken + r@,
                ready: seq![],
                ..file_log(*old(self))
            }),
    {
        std::mem::take(self.writer.inner_mut())
    }

    /// `ArrowWriter::into_inner` writes what is left of the file and hands out the
    /// bytes that were not taken before, beginning with those that had reached the
    /// sink. Without rows, all that is left to write is the footer, which succeeds
    /// for as many columns as the footer can count. With rows it fails where
    /// [`FileWriter::write`] does, for the pages that were still open.
    ///
    /// What `ParquetRecordBatchReader` reads from a file that is `readable` is what was
    /// written to it: the schema, and the cells of the batches in order. Of other files
    /// this is left open, as the length of a larger footer is cut off to 32 bits, the
    /// schema of more columns may be refused, and the texts that are read at a time have
    /// 32-bit offsets.
    #[verifier::external_body]
    pub(crate) fn finish(self) -> (r: Result<Vec<u8>, ParquetError>)
        requires
            !file_log(self).failed,
        ensures
            r is Ok <==> parquet_file(
                file_log(self).compression,
                file_log(self).fields,
                file_log(self).batches,
            ) is Some,
            r matches Ok(rest) ==> {
                let log = file_log(self);
                let columns = columns_in(log.fields, log.batches);
                &&& parquet_file(log.compression, log.fields, log.batches) == Some(
                    log.taken + rest@,
                )
                &&& log.ready.is_prefix_of(rest@)
                &&& (log.taken + rest@).len() >= 4
                &&& (log.taken + rest@).subrange(0, 4) == magic()
                &&& log.fields.len() > 0 && readable(log.fields, columns) ==> parquet_contents(
                    log.taken + rest@,
                ) == (BatchView { fields: log.fields, columns })
            },
            writable(
                file_log(self).fields,
                columns_in(file_log(self).fields, file_log(self).batches),
            ) ==> r is Ok,
            without_rows(file_log(self).batches) && file_log(self).fields.len() < i32::MAX
                ==> r is Ok,
    {
        self.writer.into_inner()
    }
}

} // verus!
