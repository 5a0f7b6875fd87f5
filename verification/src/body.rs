//! The body of a response: what is sent while a query is executed, and how it ends.
//!
//! A body is what its reader takes of it. Reading ends with the first error, so an error
//! is the last item of a body.

use crate::cell::Cells;
use crate::columns::BatchView;
use crate::csv::{record, row_fields};
use crate::export::{
    batches_full, columns_of, exported, last_batch_written, result_readable, result_writable,
    waiting_rows, ExportError,
};
use crate::parquet_file::parquet_contents;
use crate::parquet_format::{
    concatenation, infer_schema_from_metadata, row_fits, ColumnMetadata, DataType,
    RecordBatchAccumulator, SchemaRef, PIECE_SIZE,
};
use crate::schema::{
    all_column_parts, column_names, columns_fit, inferred_fields, schema_fits, FieldView,
};
use crate::stream::{
    chunks_sized, csv_text, whole_records, CsvStream, ParquetStream, CHUNK_SIZE,
};
use crate::value::{row_data, Datum, RowError, ValueRef};
use vstd::prelude::*;
use vstd::utf8::encode_utf8;

verus! {

/// Why the body of a response ends early.
#[derive(Debug)]
pub enum BodyError {
    /// The query failed, with this text.
    Query(String),
    /// The result could not be written.
    Export(ExportError),
}

/// What goes into the body of a response.
#[derive(Debug)]
pub enum BodyItem {
    /// Bytes that are sent.
    Chunk(Vec<u8>),
    /// An error, by which the client sees that the body is not complete.
    Error(BodyError),
}

/// What happens while a query is executed.
pub enum BodyEvent<'a, 'r> {
    /// The query gave a row.
    Row(&'r [ValueRef<'a>]),
    /// The query gave all its rows.
    End,
    /// The query failed, with this text.
    Failed(String),
    /// The client is gone.
    Disconnected,
}

/// What an event is.
pub enum EventView {
    /// The query gave a row.
    Row(Seq<Datum>),
    /// The query gave all its rows.
    End,
    /// The query failed, with this text.
    Failed(Seq<char>),
    /// The client is gone.
    Disconnected,
}

impl<'a, 'r> View for BodyEvent<'a, 'r> {
    type V = EventView;

    open spec fn view(&self) -> EventView {
        match self {
            BodyEvent::Row(row) => EventView::Row(row_data(row@)),
            BodyEvent::End => EventView::End,
            BodyEvent::Failed(text) => EventView::Failed(text@),
            BodyEvent::Disconnected => EventView::Disconnected,
        }
    }
}

/// How far a body has come.
pub enum Outcome {
    /// More may be sent.
    Open,
    /// The whole result was sent.
    Complete,
    /// It ended with an error.
    Failed,
    /// Nobody reads it any more.
    Abandoned,
}

/// The format of a result, and what is known of it before the first row.
pub enum ResultKind {
    /// CSV with these column names.
    Csv { names: Seq<Seq<char>> },
    /// Parquet with columns of these names and declared types.
    Parquet { columns: Seq<(Seq<char>, Option<Seq<char>>)> },
}

impl ResultKind {
    /// How many columns the result has.
    pub open spec fn width(self) -> nat {
        match self {
            ResultKind::Csv { names } => names.len(),
            ResultKind::Parquet { columns } => columns.len(),
        }
    }
}

/// What was done with a body.
pub struct BodyView {
    /// The format of the result.
    pub kind: ResultKind,
    /// The rows so far.
    pub rows: Seq<Seq<Datum>>,
    /// The bytes that were sent.
    pub sent: Seq<u8>,
    /// How far it has come.
    pub outcome: Outcome,
}

/// The schema of a Parquet result: columns without a declared type take theirs from
/// the first row.
pub open spec fn result_fields(
    columns: Seq<(Seq<char>, Option<Seq<char>>)>,
    rows: Seq<Seq<Datum>>,
) -> Seq<FieldView> {
    inferred_fields(
        columns,
        if rows.len() > 0 {
            Some(rows[0])
        } else {
            None
        },
    )
}

/// The whole body of a result, unless it cannot be completed.
pub open spec fn whole(kind: ResultKind, rows: Seq<Seq<Datum>>) -> Option<Seq<u8>> {
    match kind {
        ResultKind::Csv { names } => Some(encode_utf8(csv_text(names, rows))),
        ResultKind::Parquet { columns } => exported(result_fields(columns, rows), rows),
    }
}

/// Whether a result goes on after a row: the row has a value for every column, and a
/// Parquet batch that it completes can be written.
pub open spec fn takes_row(kind: ResultKind, rows: Seq<Seq<Datum>>, row: Seq<Datum>) -> bool {
    &&& row.len() >= kind.width()
    &&& match kind {
        ResultKind::Csv { .. } => true,
        ResultKind::Parquet { columns } => batches_full(rows.len() + 1) ==> columns.len() > 0
            && last_batch_written(result_fields(columns, rows.push(row)), rows.push(row)),
    }
}

/// Whether a result can be completed after these rows. One of CSV always can. One of
/// Parquet needs columns, and a writer that takes the last batch and the footer.
pub open spec fn can_complete(kind: ResultKind, rows: Seq<Seq<Datum>>) -> bool {
    match kind {
        ResultKind::Csv { .. } => true,
        ResultKind::Parquet { columns } => {
            let fields = result_fields(columns, rows);
            &&& columns.len() > 0
            &&& rows.len() > 0 && batches_full(rows.len()) || last_batch_written(fields, rows)
            &&& exported(fields, rows) is Some
        },
    }
}

/// The bytes of items, one after the other.
pub open spec fn sent_by(items: Seq<BodyItem>) -> Seq<u8>
    decreases items.len(),
{
    if items.len() == 0 {
        seq![]
    } else {
        sent_by(items.drop_last()) + (match items.last() {
            BodyItem::Chunk(chunk) => chunk@,
            BodyItem::Error(_) => seq![],
        })
    }
}

/// Whether items are chunks, none of them empty.
pub open spec fn only_chunks(items: Seq<BodyItem>) -> bool {
    forall|i: int|
        0 <= i < items.len() ==> (#[trigger] items[i] matches BodyItem::Chunk(chunk)
            && chunk@.len() > 0)
}

/// Whether items are one chunk of these bytes, which are whole CSV records.
pub open spec fn one_csv_chunk(items: Seq<BodyItem>, bytes: Seq<u8>) -> bool {
    &&& items.len() == 1
    &&& items[0] matches BodyItem::Chunk(chunk) && chunk@ == bytes
    &&& exists|text: Seq<char>| #[trigger] whole_records(text) && bytes == encode_utf8(text)
}

/// Whether items are chunks that are as large as they have to be, and larger by less than
/// what is written at a time.
pub open spec fn items_sized(items: Seq<BodyItem>) -> bool {
    forall|i: int|
        0 <= i < items.len() ==> (#[trigger] items[i] matches BodyItem::Chunk(chunk) && CHUNK_SIZE
            <= chunk@.len() < CHUNK_SIZE + PIECE_SIZE)
}

/// Whether these are the chunks of a row. CSV goes out in one chunk once what was not sent
/// is enough for one. Parquet goes out once a batch is full, in chunks of their size.
pub open spec fn row_chunks(before: BodyView, rows: Seq<Seq<Datum>>, items: Seq<BodyItem>) -> bool {
    match before.kind {
        ResultKind::Csv { names } => {
            let unsent = encode_utf8(csv_text(names, rows)).skip(before.sent.len() as int);
            if unsent.len() >= CHUNK_SIZE {
                one_csv_chunk(items, unsent)
            } else {
                items.len() == 0
            }
        },
        ResultKind::Parquet { .. } => items_sized(items) && (batches_full(rows.len()) || items.len()
            == 0),
    }
}

/// Whether these are the last chunks. Of CSV, one chunk is left at most. Of Parquet, only
/// the last chunk can be too small.
pub open spec fn last_chunks(before: BodyView, items: Seq<BodyItem>) -> bool {
    match before.kind {
        ResultKind::Csv { names } => {
            let unsent = encode_utf8(csv_text(names, before.rows)).skip(before.sent.len() as int);
            if unsent.len() > 0 {
                one_csv_chunk(items, unsent)
            } else {
                items.len() == 0
            }
        },
        ResultKind::Parquet { .. } => items_sized(items) || items.len() > 0 && items_sized(
            items.drop_last(),
        ) && (items.last() matches BodyItem::Chunk(chunk) && 0 < chunk@.len() < CHUNK_SIZE),
    }
}

/// Whether items are one error.
pub open spec fn one_error(items: Seq<BodyItem>) -> bool {
    items.len() == 1 && items[0] is Error
}

/// Whether the error is that of a row: it tells of the first column that the row has no
/// value for, if there is one, and otherwise of a batch that could not be made for want
/// of columns, or not written.
pub open spec fn tells_of_row(item: BodyItem, width: nat, row: Seq<Datum>) -> bool {
    item matches BodyItem::Error(BodyError::Export(error)) && if row.len() < width {
        error == ExportError::Row(RowError::InvalidColumnIndex(row.len() as usize))
    } else if width == 0 {
        error is Arrow
    } else {
        error is Parquet
    }
}

/// Whether the error is that of the end: that a batch could not be made for want of
/// columns, or that the file could not be completed.
pub open spec fn tells_of_end(item: BodyItem, width: nat) -> bool {
    item matches BodyItem::Error(BodyError::Export(error)) && if width == 0 {
        error is Arrow
    } else {
        error is Parquet
    }
}

/// Whether this is what an event does to a body, and these are the items that it puts
/// into it.
pub open spec fn body_step(
    before: BodyView,
    event: EventView,
    after: BodyView,
    items: Seq<BodyItem>,
) -> bool {
    &&& after.kind == before.kind
    &&& after.sent == before.sent + sent_by(items)
    &&& if !(before.outcome is Open) {
        after == before && items.len() == 0
    } else {
        match event {
            EventView::Row(row) => if takes_row(before.kind, before.rows, row) {
                &&& after.rows == before.rows.push(row)
                &&& after.outcome is Open
                &&& only_chunks(items)
                &&& row_chunks(before, after.rows, items)
            } else {
                &&& after.rows == before.rows
                &&& after.outcome is Failed
                &&& one_error(items)
                &&& tells_of_row(items[0], before.kind.width(), row)
            },
            EventView::End => {
                &&& after.rows == before.rows
                &&& if can_complete(before.kind, before.rows) {
                    &&& after.outcome is Complete
                    &&& only_chunks(items)
                    &&& last_chunks(before, items)
                    &&& whole(before.kind, before.rows) == Some(after.sent)
                } else {
                    &&& after.outcome is Failed
                    &&& one_error(items)
                    &&& tells_of_end(items[0], before.kind.width())
                }
            },
            EventView::Failed(text) => {
                &&& after.rows == before.rows
                &&& after.outcome is Failed
                &&& one_error(items)
                &&& items[0] matches BodyItem::Error(BodyError::Query(shown)) && shown@ == text
            },
            EventView::Disconnected => {
                &&& after.rows == before.rows
                &&& after.outcome is Abandoned
                &&& items.len() == 0
            },
        }
    }
}

/// How a body is made.
enum Phase {
    /// As CSV.
    Csv(CsvStream),
    /// As Parquet, before the first row is known.
    Columns(Vec<ColumnMetadata>),
    /// As Parquet.
    Parquet(ParquetStream),
    /// Nothing more is sent.
    Over,
}

/// The body of a response to a query, event by event.
pub struct Body {
    phase: Phase,
    log: Ghost<BodyView>,
}

impl View for Body {
    type V = BodyView;

    closed spec fn view(&self) -> BodyView {
        self.log@
    }
}

/// Turns chunks into items.
fn chunk_items(chunks: Vec<Vec<u8>>) -> (r: Vec<BodyItem>)
    requires
        forall|i: int| 0 <= i < chunks@.len() ==> (#[trigger] chunks@[i])@.len() > 0,
    ensures
        only_chunks(r@),
        sent_by(r@) == concatenation(chunks@),
        r@.len() == chunks@.len(),
        forall|i: int|
            0 <= i < r@.len() ==> #[trigger] r@[i] == BodyItem::Chunk(chunks@[i]),
{
    let mut items: Vec<BodyItem> = Vec::new();
    let ghost all = chunks@;
    assert(all.take(0) =~= seq![]);
    for chunk in it: chunks
        invariant
            it.seq() == all,
            forall|i: int| 0 <= i < all.len() ==> (#[trigger] all[i])@.len() > 0,
            only_chunks(items@),
            items@.len() == it.index(),
            forall|i: int|
                0 <= i < items@.len() ==> #[trigger] items@[i] == BodyItem::Chunk(all[i]),
            sent_by(items@) == concatenation(all.take(it.index())),
    {
        let ghost earlier = items@;
        assert(all.take(it.index() + 1).drop_last() =~= all.take(it.index()));
        assert(chunk == all[it.index()]);
        items.push(BodyItem::Chunk(chunk));
        assert(items@.drop_last() =~= earlier);
    }
    assert(all.take(all.len() as int) =~= all);
    items
}

/// The item of a chunk.
fn chunk_item(chunk: Vec<u8>) -> (r: Vec<BodyItem>)
    requires
        chunk@.len() > 0,
    ensures
        only_chunks(r@),
        sent_by(r@) == chunk@,
        r@.len() == 1,
        r@[0] == BodyItem::Chunk(chunk),
{
    let mut items: Vec<BodyItem> = Vec::new();
    let ghost bytes = chunk@;
    items.push(BodyItem::Chunk(chunk));
    assert(items@.drop_last() =~= seq![]);
    assert(sent_by(items@.drop_last()) =~= seq![]);
    assert(sent_by(items@) =~= bytes);
    items
}

/// The item of an error.
fn error_item(error: BodyError) -> (r: Vec<BodyItem>)
    ensures
        one_error(r@),
        r@[0] == BodyItem::Error(error),
        sent_by(r@) == Seq::<u8>::empty(),
{
    let mut items: Vec<BodyItem> = Vec::new();
    items.push(BodyItem::Error(error));
    assert(items@.drop_last() =~= seq![]);
    assert(sent_by(items@.drop_last()) =~= seq![]);
    assert(sent_by(items@) =~= seq![]);
    items
}

impl Body {
    /// Whether what is being made is what the events so far ask for.
    pub closed spec fn valid(&self) -> bool {
        let log = self.log@;
        match self.phase {
            Phase::Csv(stream) => {
                &&& stream.valid()
                &&& log.kind == (ResultKind::Csv { names: stream@.names })
                &&& log.rows == stream@.rows
                &&& log.sent == stream.sent()
                &&& log.outcome is Open
            },
            Phase::Columns(columns) => {
                &&& schema_fits(column_names(columns@))
                &&& log.kind == (ResultKind::Parquet { columns: all_column_parts(columns@) })
                &&& log.rows.len() == 0
                &&& log.sent.len() == 0
                &&& log.outcome is Open
            },
            Phase::Parquet(stream) => {
                &&& stream.valid()
                &&& log.kind matches ResultKind::Parquet { columns } && stream@.fields
                    == result_fields(columns, log.rows)
                &&& log.rows.len() > 0
                &&& log.rows == stream@.rows
                &&& log.sent == stream@.sent
                &&& log.outcome is Open
            },
            Phase::Over => !(log.outcome is Open),
        }
    }

    /// The columns to which a row is added: those that wait for their Parquet batch to be
    /// full, and none of CSV, which has room for every row.
    pub open spec fn waiting(&self, row: Seq<Datum>) -> Seq<Cells> {
        match self@.kind {
            ResultKind::Parquet { columns } if self@.outcome is Open => columns_of(
                result_fields(columns, self@.rows.push(row)),
                waiting_rows(self@.rows),
            ),
            _ => seq![],
        }
    }

    /// The bytes that the Parquet writer has ready.
    pub closed spec fn ready(&self) -> Seq<u8> {
        match self.phase {
            Phase::Parquet(stream) => stream.ready(),
            _ => seq![],
        }
    }

    /// The bytes of a Parquet file that wait for the next chunk.
    pub closed spec fn held(&self) -> Seq<u8> {
        match self.phase {
            Phase::Parquet(stream) => stream.held(),
            _ => seq![],
        }
    }

    /// Starts a body of CSV with the given columns.
    pub fn csv(names: &[&str]) -> (r: Body)
        ensures
            r.valid(),
            r@.kind == (ResultKind::Csv { names: names@.map_values(|name: &str| name@) }),
            r@.rows.len() == 0,
            r@.sent.len() == 0,
            r@.outcome is Open,
    {
        let stream: CsvStream = CsvStream::start(names);
        let ghost log = BodyView {
            kind: ResultKind::Csv { names: stream@.names },
            rows: stream@.rows,
            sent: stream.sent(),
            outcome: Outcome::Open,
        };
        Body { phase: Phase::Csv(stream), log: Ghost(log) }
    }

    /// Starts a body of Parquet with the given columns, unless their schema does not fit
    /// into a file.
    pub fn parquet(columns: Vec<ColumnMetadata>) -> (r: Option<Body>)
        ensures
            r is Some <==> schema_fits(column_names(columns@)),
            r matches Some(body) ==> {
                &&& body.valid()
                &&& body@.kind == (ResultKind::Parquet { columns: all_column_parts(columns@) })
                &&& body@.rows.len() == 0
                &&& body@.sent.len() == 0
                &&& body@.outcome is Open
            },
    {
        if !columns_fit(columns.as_slice()) {
            return None;
        }
        let ghost log = BodyView {
            kind: ResultKind::Parquet { columns: all_column_parts(columns@) },
            rows: seq![],
            sent: seq![],
            outcome: Outcome::Open,
        };
        Some(Body { phase: Phase::Columns(columns), log: Ghost(log) })
    }

    /// Whether nothing more is sent.
    pub fn is_over(&self) -> (r: bool)
        requires
            self.valid(),
        ensures
            r == !(self@.outcome is Open),
    {
        match self.phase {
            Phase::Over => true,
            _ => false,
        }
    }

    /// The types of the columns of a Parquet file, once the first row has decided them.
    pub fn data_types(&self) -> (r: Option<Vec<DataType>>)
        requires
            self.valid(),
        ensures
            r is Some <==> self@.outcome is Open && self@.kind is Parquet && self@.rows.len() > 0,
            r matches Some(types) ==> self@.kind matches ResultKind::Parquet { columns }
                && types@ == result_fields(columns, self@.rows).map_values(
                |field: FieldView| field.data_type,
            ),
    {
        match &self.phase {
            Phase::Parquet(stream) => Some(stream.data_types()),
            _ => None,
        }
    }

    /// Whether there is room for a row.
    pub fn has_room_for(&self, row: &[ValueRef<'_>]) -> (r: bool)
        requires
            self.valid(),
        ensures
            r == row_fits(self.waiting(row_data(row@)), row_data(row@)),
    {
        match &self.phase {
            Phase::Columns(columns) => {
                let schema: SchemaRef = infer_schema_from_metadata(columns.as_slice(), Some(row));
                let accumulator: RecordBatchAccumulator = RecordBatchAccumulator::new(schema, 0);
                accumulator.has_room_for(row)
            },
            Phase::Parquet(stream) => stream.has_room_for(row),
            _ => true,
        }
    }

    /// Adds a row to a body of CSV.
    fn csv_row(stream: CsvStream, row: &[ValueRef<'_>]) -> (r: (Phase, Vec<BodyItem>))
        requires
            stream.valid(),
        ensures
            row@.len() < stream@.names.len() ==> {
                &&& r.0 is Over
                &&& one_error(r.1@)
                &&& tells_of_row(r.1@[0], stream@.names.len(), row_data(row@))
                &&& sent_by(r.1@).len() == 0
            },
            row@.len() >= stream@.names.len() ==> {
                &&& only_chunks(r.1@)
                &&& r.0 matches Phase::Csv(after) && {
                    &&& after.valid()
                    &&& after@.names == stream@.names
                    &&& after@.rows == stream@.rows.push(row_data(row@))
                    &&& after.sent() == stream.sent() + sent_by(r.1@)
                    &&& ({
                        let unsent = encode_utf8(csv_text(after@.names, after@.rows)).skip(
                            stream.sent().len() as int,
                        );
                        if unsent.len() >= CHUNK_SIZE {
                            one_csv_chunk(r.1@, unsent)
                        } else {
                            r.1@.len() == 0
                        }
                    })
                }
            },
    {
        let mut stream: CsvStream = stream;
        let ghost sent = stream.sent();
        let ghost text = stream@.waiting + record(
            row_fields(row_data(row@).take(stream@.names.len() as int)),
        );
        match stream.push_row(row) {
            Ok(Some(chunk)) => {
                proof {
                    let all = encode_utf8(csv_text(stream@.names, stream@.rows));
                    assert(stream@.waiting =~= seq![]);
                    assert(all =~= sent + chunk@);
                    assert(all.skip(sent.len() as int) =~= chunk@);
                    assert(whole_records(text) && chunk@ == encode_utf8(text));
                }
                let items: Vec<BodyItem> = chunk_item(chunk);
                (Phase::Csv(stream), items)
            },
            Ok(None) => {
                proof {
                    let all = encode_utf8(csv_text(stream@.names, stream@.rows));
                    assert(all.skip(sent.len() as int) =~= encode_utf8(text));
                }
                assert(sent + sent_by(Seq::<BodyItem>::empty()) =~= sent);
                (Phase::Csv(stream), Vec::new())
            },
            Err(error) => (
                Phase::Over,
                error_item(BodyError::Export(ExportError::Row(error))),
            ),
        }
    }

    /// Adds a row to a body of Parquet.
    fn parquet_row(stream: ParquetStream, row: &[ValueRef<'_>]) -> (r: (Phase, Vec<BodyItem>))
        requires
            stream.valid(),
            row_fits(stream.waiting(), row_data(row@)),
        ensures
            ({
                let rows = stream@.rows.push(row_data(row@));
                let fails = row@.len() < stream@.fields.len() || batches_full(rows.len()) && !(
                stream@.fields.len() > 0 && last_batch_written(stream@.fields, rows));
                &&& stream@.fields.len() <= row@.len() && stream@.fields.len() > 0
                    && result_writable(stream@.fields, rows) ==> !fails
                &&& fails ==> {
                    &&& r.0 is Over
                    &&& one_error(r.1@)
                    &&& tells_of_row(r.1@[0], stream@.fields.len(), row_data(row@))
                    &&& sent_by(r.1@).len() == 0
                }
                &&& !fails ==> {
                    &&& only_chunks(r.1@)
                    &&& r.0 matches Phase::Parquet(after) && {
                        &&& after.valid()
                        &&& after@.fields == stream@.fields
                        &&& after@.rows == rows
                        &&& after@.sent == stream@.sent + sent_by(r.1@)
                        &&& items_sized(r.1@)
                        &&& batches_full(rows.len()) || r.1@.len() == 0
                        &&& after.held().len() < CHUNK_SIZE
                        &&& batches_full(rows.len()) ==> after.ready().len() == 0
                    }
                }
            }),
    {
        let mut stream: ParquetStream = stream;
        match stream.push_row(row) {
            Ok(chunks) => {
                let items: Vec<BodyItem> = chunk_items(chunks);
                (Phase::Parquet(stream), items)
            },
            Err(error) => (Phase::Over, error_item(BodyError::Export(error))),
        }
    }

    /// Ends a body of Parquet.
    fn parquet_end(stream: ParquetStream) -> (r: (bool, Vec<BodyItem>))
        requires
            stream.valid(),
        ensures
            r.0 == (stream@.fields.len() > 0 && (stream@.rows.len() > 0 && batches_full(
                stream@.rows.len(),
            ) || last_batch_written(stream@.fields, stream@.rows)) && exported(
                stream@.fields,
                stream@.rows,
            ) is Some),
            r.0 ==> {
                &&& only_chunks(r.1@)
                &&& exported(stream@.fields, stream@.rows) == Some(stream@.sent + sent_by(r.1@))
            },
            r.0 ==> items_sized(r.1@) || r.1@.len() > 0 && items_sized(r.1@.drop_last()) && (
            r.1@.last() matches BodyItem::Chunk(chunk) && 0 < chunk@.len() < CHUNK_SIZE),
            stream@.fields.len() > 0 && result_writable(stream@.fields, stream@.rows) ==> r.0,
            r.0 && result_readable(stream@.fields, stream@.rows)
                ==> parquet_contents(stream@.sent + sent_by(r.1@)) == (BatchView {
                fields: stream@.fields,
                columns: columns_of(stream@.fields, stream@.rows),
            }),
            !r.0 ==> {
                &&& one_error(r.1@)
                &&& tells_of_end(r.1@[0], stream@.fields.len())
                &&& sent_by(r.1@).len() == 0
            },
    {
        match stream.finish() {
            Ok(chunks) => {
                assert forall|i: int| 0 <= i < chunks@.len() implies (
                #[trigger] chunks@[i])@.len() > 0 by {
                    if !chunks_sized(chunks@) && i < chunks@.len() - 1 {
                        assert(chunks@.drop_last()[i] == chunks@[i]);
                    }
                }
                let ghost all = chunks@;
                let items: Vec<BodyItem> = chunk_items(chunks);
                proof {
                    if chunks_sized(all) {
                        assert(items_sized(items@));
                    } else {
                        assert forall|i: int| 0 <= i < items@.len() - 1 implies (
                        #[trigger] items@.drop_last()[i] matches BodyItem::Chunk(chunk)
                            && CHUNK_SIZE <= chunk@.len() < CHUNK_SIZE + PIECE_SIZE) by {
                            assert(items@[i] == BodyItem::Chunk(all[i]));
                            assert(all.drop_last()[i] == all[i]);
                        }
                        assert(items@[items@.len() - 1] == BodyItem::Chunk(all[all.len() - 1]));
                    }
                }
                (true, items)
            },
            Err(error) => (false, error_item(BodyError::Export(error))),
        }
    }

    /// Takes an event, and returns what it puts into the body.
    ///
    /// The body is complete only after the end of the query, and then holds the whole
    /// result. If anything fails it ends with an error, and nothing comes after that. No
    /// more than what makes a chunk is held back of what is known of it.
    ///
    /// A Parquet result with columns that is not too large for a file is not failed by the
    /// writer, and who can read it gets back the schema and all the rows.
    pub fn on(&mut self, event: BodyEvent<'_, '_>) -> (r: Vec<BodyItem>)
        requires
            old(self).valid(),
            event matches BodyEvent::Row(row) ==> row_fits(
                old(self).waiting(row_data(row@)),
                row_data(row@),
            ),
        ensures
            final(self).valid(),
            body_step(old(self)@, event@, final(self)@, r@),
            event is Row && final(self)@.outcome is Open && final(self)@.kind is Parquet
                ==> final(self).held().len() < CHUNK_SIZE && (batches_full(final(self)@.rows.len())
                ==> final(self).ready().len() == 0),
            old(self)@.outcome is Open && old(self)@.kind is Parquet && old(self)@.kind.width()
                > 0 ==> match event {
                BodyEvent::Row(row) => row@.len() >= old(self)@.kind.width() && result_writable(
                    result_fields(
                        old(self)@.kind->columns,
                        old(self)@.rows.push(row_data(row@)),
                    ),
                    old(self)@.rows.push(row_data(row@)),
                ) ==> final(self)@.outcome is Open,
                BodyEvent::End => {
                    let fields = result_fields(old(self)@.kind->columns, old(self)@.rows);
                    &&& result_writable(fields, old(self)@.rows)
                        ==> final(self)@.outcome is Complete
                    &&& final(self)@.outcome is Complete && result_readable(fields, old(self)@.rows)
                        ==> parquet_contents(final(self)@.sent) == (BatchView {
                        fields,
                        columns: columns_of(fields, old(self)@.rows),
                    })
                },
                _ => true,
            },
    {
        let ghost before = self.log@;
        let mut phase: Phase = Phase::Over;
        std::mem::swap(&mut self.phase, &mut phase);
        if let Phase::Over = phase {
            assert(before.sent + sent_by(Seq::<BodyItem>::empty()) =~= before.sent);
            return Vec::new();
        }
        match event {
            BodyEvent::Row(row) => {
                let ghost data = row_data(row@);
                let ghost rows = before.rows.push(data);
                let next: (Phase, Vec<BodyItem>) = match phase {
                    Phase::Csv(stream) => Self::csv_row(stream, row),
                    Phase::Columns(columns) => match ParquetStream::start(
                        columns.as_slice(),
                        Some(row),
                    ) {
                        Ok(stream) => {
                            assert(stream@.rows =~= before.rows);
                            assert(stream@.sent =~= before.sent);
                            Self::parquet_row(stream, row)
                        },
                        Err(error) => (Phase::Over, error_item(BodyError::Export(error))),
                    },
                    Phase::Parquet(stream) => {
                        assert(rows[0] == before.rows[0]);
                        Self::parquet_row(stream, row)
                    },
                    Phase::Over => (Phase::Over, Vec::new()),
                };
                self.phase = next.0;
                assert(sent_by(next.1@).len() == 0 ==> before.sent + sent_by(next.1@)
                    =~= before.sent);
                let ghost taken = takes_row(before.kind, before.rows, data);
                self.log = Ghost(
                    BodyView {
                        kind: before.kind,
                        rows: if taken {
                            rows
                        } else {
                            before.rows
                        },
                        sent: before.sent + sent_by(next.1@),
                        outcome: if taken {
                            Outcome::Open
                        } else {
                            Outcome::Failed
                        },
                    },
                );
                next.1
            },
            BodyEvent::End => {
                let next: (bool, Vec<BodyItem>) = match phase {
                    Phase::Csv(stream) => match stream.finish() {
                        Some(chunk) => {
                            let ghost all = encode_utf8(csv_text(stream@.names, stream@.rows));
                            assert(all.skip(before.sent.len() as int) =~= chunk@);
                            (true, chunk_item(chunk))
                        },
                        None => {
                            assert(before.sent + sent_by(Seq::<BodyItem>::empty()) =~= before.sent);
                            (true, Vec::new())
                        },
                    },
                    Phase::Columns(columns) => match ParquetStream::start(
                        columns.as_slice(),
                        None,
                    ) {
                        Ok(stream) => {
                            assert(stream@.rows =~= before.rows);
                            assert(stream@.sent =~= before.sent);
                            Self::parquet_end(stream)
                        },
                        Err(error) => (false, error_item(BodyError::Export(error))),
                    },
                    Phase::Parquet(stream) => Self::parquet_end(stream),
                    Phase::Over => (false, Vec::new()),
                };
                self.log = Ghost(
                    BodyView {
                        sent: before.sent + sent_by(next.1@),
                        outcome: if next.0 {
                            Outcome::Complete
                        } else {
                            Outcome::Failed
                        },
                        ..before
                    },
                );
                next.1
            },
            BodyEvent::Failed(text) => {
                let items: Vec<BodyItem> = error_item(BodyError::Query(text));
                self.log = Ghost(BodyView { outcome: Outcome::Failed, ..before });
                assert(before.sent + sent_by(items@) =~= before.sent);
                items
            },
            BodyEvent::Disconnected => {
                self.log = Ghost(BodyView { outcome: Outcome::Abandoned, ..before });
                assert(before.sent + sent_by(Seq::<BodyItem>::empty()) =~= before.sent);
                Vec::new()
            },
        }
    }
}

// ---------------------------------------------------------------------------
// Laws
// ---------------------------------------------------------------------------

/// Whether a body went through these states, one event after the other, and these are
/// the items that each event put into it.
pub open spec fn body_run(
    views: Seq<BodyView>,
    events: Seq<EventView>,
    items: Seq<Seq<BodyItem>>,
) -> bool {
    &&& views.len() == events.len() + 1
    &&& items.len() == events.len()
    &&& views[0].outcome is Open
    &&& views[0].rows.len() == 0
    &&& views[0].sent.len() == 0
    &&& forall|i: int|
        0 <= i < events.len() ==> #[trigger] body_step(views[i], events[i], views[i + 1], items[i])
}

/// All items of a run, in order.
pub open spec fn all_items(items: Seq<Seq<BodyItem>>) -> Seq<BodyItem>
    decreases items.len(),
{
    if items.len() == 0 {
        seq![]
    } else {
        all_items(items.drop_last()) + items.last()
    }
}

/// Whether a body ends with an error, and has no other.
pub open spec fn ends_in_error(items: Seq<BodyItem>) -> bool {
    items.len() > 0 && items.last() is Error && only_chunks(items.drop_last())
}

/// The bytes of items that are followed by others.
proof fn lemma_sent_by_concat(left: Seq<BodyItem>, right: Seq<BodyItem>)
    ensures
        sent_by(left + right) == sent_by(left) + sent_by(right),
    decreases right.len(),
{
    if right.len() == 0 {
        assert(left + right =~= left);
        assert(sent_by(left) + sent_by(right) =~= sent_by(left));
    } else {
        lemma_sent_by_concat(left, right.drop_last());
        assert((left + right).drop_last() =~= left + right.drop_last());
        assert(sent_by(left + right) =~= sent_by(left) + sent_by(right));
    }
}

/// A body that is complete holds the whole result and no error. One that failed ends
/// with an error, which is its only one. One that is still open, or that the client no
/// longer reads, has no error.
pub proof fn law_body_tells_how_it_ended(
    views: Seq<BodyView>,
    events: Seq<EventView>,
    items: Seq<Seq<BodyItem>>,
)
    requires
        body_run(views, events, items),
    ensures
        views.last().kind == views[0].kind,
        views.last().sent == sent_by(all_items(items)),
        match views.last().outcome {
            Outcome::Open => only_chunks(all_items(items)),
            Outcome::Abandoned => only_chunks(all_items(items)),
            Outcome::Complete => only_chunks(all_items(items)) && whole(
                views.last().kind,
                views.last().rows,
            ) == Some(sent_by(all_items(items))),
            Outcome::Failed => ends_in_error(all_items(items)),
        },
    decreases events.len(),
{
    if events.len() == 0 {
        assert(views.last().sent =~= sent_by(all_items(items)));
    } else {
        let n = events.len() - 1;
        let earlier = views.drop_last();
        assert forall|i: int| 0 <= i < n implies #[trigger] body_step(
            earlier[i],
            events.drop_last()[i],
            earlier[i + 1],
            items.drop_last()[i],
        ) by {
            assert(body_step(views[i], events[i], views[i + 1], items[i]));
        }
        law_body_tells_how_it_ended(earlier, events.drop_last(), items.drop_last());
        assert(body_step(views[n], events[n], views[n + 1], items[n]));
        let before = all_items(items.drop_last());
        let added = items[n];
        lemma_sent_by_concat(before, added);
        if one_error(added) {
            assert((before + added).drop_last() =~= before);
        }
        if added.len() == 0 {
            assert(before + added =~= before);
        }
    }
}

/// A query that fails while its result is being sent never looks complete, whatever
/// comes after: the body ends with an error.
pub proof fn law_failed_query_never_looks_complete(
    views: Seq<BodyView>,
    events: Seq<EventView>,
    items: Seq<Seq<BodyItem>>,
    at: int,
)
    requires
        body_run(views, events, items),
        0 <= at < events.len(),
        views[at].outcome is Open,
        events[at] is Failed,
    ensures
        views.last().outcome is Failed,
        ends_in_error(all_items(items)),
        sent_by(all_items(items)) == views[at].sent,
{
    law_body_tells_how_it_ended(views, events, items);
    lemma_failed_body_stays(views, events, items, at, events.len() as int);
}

/// A body that failed stays as it was.
proof fn lemma_failed_body_stays(
    views: Seq<BodyView>,
    events: Seq<EventView>,
    items: Seq<Seq<BodyItem>>,
    at: int,
    later: int,
)
    requires
        body_run(views, events, items),
        0 <= at < later <= events.len(),
        views[at].outcome is Open,
        events[at] is Failed,
    ensures
        views[later].outcome is Failed,
        views[later].sent == views[at].sent,
    decreases later - at,
{
    let previous = later - 1;
    assert(body_step(views[previous], events[previous], views[previous + 1], items[previous]));
    if later > at + 1 {
        lemma_failed_body_stays(views, events, items, at, previous);
    } else {
        let added = items[at];
        assert(added.drop_last() =~= seq![]);
        assert(sent_by(added.drop_last()) =~= seq![]);
        assert(views[at].sent + sent_by(added) =~= views[at].sent);
    }
}

/// Nothing is sent after a body is over, and it stays as it was.
pub proof fn law_nothing_follows_the_end(
    before: BodyView,
    event: EventView,
    after: BodyView,
    items: Seq<BodyItem>,
)
    requires
        body_step(before, event, after, items),
        !(before.outcome is Open),
    ensures
        after == before,
        items.len() == 0,
{
}

} // verus!
