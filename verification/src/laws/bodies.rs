//! What the bodies of responses hold, and how they end.

use crate::body::{
    body_step, result_fields, sent_by, Body, BodyError, BodyEvent, BodyItem, BodyView, EventView,
    Outcome, ResultKind,
};
use crate::cell::Cells;
use crate::export::{batches, result_readable, ExportError};
use crate::laws::files::{cell_count, law_columns_of_rows, same_cell};
use crate::parquet_file::{batch_written, parquet_contents, parquet_file, Compression};
use crate::parquet_format::{concatenation, ColumnMetadata};
use crate::schema::{schema_fits, DataType};
use crate::stream::csv_text;
use crate::value::{row_data, Datum, RowError};
use vstd::prelude::*;
use vstd::utf8::encode_utf8;

verus! {

/// The bytes that items send are those of their chunks, in order. An error sends none.
pub proof fn law_sent_bytes(items: Seq<BodyItem>, chunk: Vec<u8>, error: BodyError)
    ensures
        sent_by(seq![]) == Seq::<u8>::empty(),
        sent_by(items.push(BodyItem::Chunk(chunk))) == sent_by(items) + chunk@,
        sent_by(items.push(BodyItem::Error(error))) == sent_by(items),
{
    assert(items.push(BodyItem::Chunk(chunk)).drop_last() =~= items);
    assert(items.push(BodyItem::Error(error)).drop_last() =~= items);
    assert(sent_by(items) + Seq::<u8>::empty() =~= sent_by(items));
}

/// The bytes of chunks come in order.
pub proof fn law_bytes_of_chunks(chunks: Seq<Vec<u8>>, chunk: Vec<u8>)
    ensures
        concatenation(seq![]) == Seq::<u8>::empty(),
        concatenation(chunks.push(chunk)) == concatenation(chunks) + chunk@,
{
    assert(chunks.push(chunk).drop_last() =~= chunks);
}

/// A body of CSV begins open, with nothing in it, and with the names of its columns in
/// order.
pub proof fn law_csv_bodies_begin(names: &[&str], body: Body, c: int)
    requires
        call_ensures(Body::csv, (names,), body),
        0 <= c < names@.len(),
    ensures
        body@.outcome is Open,
        body@.rows.len() == 0,
        body@.sent.len() == 0,
        body@.kind matches ResultKind::Csv { names: shown } && shown.len() == names@.len()
            && shown[c] == names@[c]@,
{
}

/// A body of Parquet begins open, with nothing in it, and with the names and the declared
/// types of its columns in order. There is one wherever the schema fits into a file.
pub proof fn law_parquet_bodies_begin(columns: Vec<ColumnMetadata>, r: Option<Body>, c: int)
    requires
        call_ensures(Body::parquet, (columns,), r),
        0 <= c < columns@.len(),
    ensures
        r is Some <==> schema_fits(Seq::new(columns@.len(), |i: int| columns@[i].0@)),
        r matches Some(body) ==> {
            &&& body@.outcome is Open
            &&& body@.rows.len() == 0
            &&& body@.sent.len() == 0
            &&& body@.kind matches ResultKind::Parquet { columns: shown } && shown.len()
                == columns@.len() && shown[c].0 == columns@[c].0@ && (match columns@[c].1 {
                Some(declared) => shown[c].1 == Some(declared@),
                None => shown[c].1 is None,
            })
        },
{
    assert(crate::schema::column_names(columns@) =~= Seq::new(
        columns@.len(),
        |i: int| columns@[i].0@,
    ));
}

/// Whether items are one error of a row that has no value for some column.
pub open spec fn tells_missing_value(items: Seq<BodyItem>, row: Seq<Datum>) -> bool {
    items.len() == 1 && items[0] == BodyItem::Error(
        BodyError::Export(ExportError::Row(RowError::InvalidColumnIndex(row.len() as usize))),
    )
}

/// A row with a value for every column goes into the body of a CSV result, and nothing is
/// sent before 64 KiB are due. Then all that is known of the result is sent. A row that is
/// too short is the only one that ends the body, with an error that tells the first
/// column without a value.
pub proof fn law_csv_rows(
    names: Seq<Seq<char>>,
    before: BodyView,
    row: Seq<Datum>,
    after: BodyView,
    items: Seq<BodyItem>,
)
    requires
        body_step(before, EventView::Row(row), after, items),
        before.outcome is Open,
        before.kind == (ResultKind::Csv { names }),
        before.sent.is_prefix_of(encode_utf8(csv_text(names, before.rows.push(row)))),
    ensures
        after.kind == before.kind,
        row.len() < names.len() ==> {
            &&& after.outcome is Failed
            &&& after.rows == before.rows
            &&& after.sent == before.sent
            &&& tells_missing_value(items, row)
        },
        row.len() >= names.len() ==> {
            let due = encode_utf8(csv_text(names, before.rows.push(row)));
            &&& after.outcome is Open
            &&& after.rows == before.rows.push(row)
            &&& forall|i: int| 0 <= i < items.len() ==> (#[trigger] items[i]) is Chunk
            &&& due.len() - before.sent.len() < 65536 ==> items.len() == 0 && after.sent
                == before.sent
            &&& due.len() - before.sent.len() >= 65536 ==> items.len() == 1 && after.sent == due
        },
{
    let due = encode_utf8(csv_text(names, before.rows.push(row)));
    assert(due =~= before.sent + due.skip(before.sent.len() as int));
    if items.len() == 0 {
        assert(before.sent + sent_by(items) =~= before.sent);
    } else {
        assert(items.drop_last() =~= seq![]);
        assert(sent_by(items.drop_last()) =~= seq![]);
        assert(sent_by(items) =~= (match items[0] {
            BodyItem::Chunk(chunk) => chunk@,
            BodyItem::Error(_) => seq![],
        }));
        assert(items[0] is Error ==> before.sent + sent_by(items) =~= before.sent);
    }
}

/// The end of the query completes the body of a CSV result, which then is the result in
/// UTF-8.
pub proof fn law_csv_ends(
    names: Seq<Seq<char>>,
    before: BodyView,
    after: BodyView,
    items: Seq<BodyItem>,
)
    requires
        body_step(before, EventView::End, after, items),
        before.outcome is Open,
        before.kind == (ResultKind::Csv { names }),
    ensures
        after.kind == before.kind,
        after.rows == before.rows,
        after.outcome is Complete,
        after.sent == encode_utf8(csv_text(names, before.rows)),
        forall|i: int| 0 <= i < items.len() ==> (#[trigger] items[i]) is Chunk,
        items.len() <= 1,
{
}

/// A row with a value for every column goes into the body of a Parquet result. Unless it
/// is the last of 8192, nothing is sent for it, and then only chunks of 64 KiB and up to
/// 4 KiB more. It fails only where the file takes no such batch. A row that is too short
/// ends the body with an error that tells the first column without a value.
pub proof fn law_parquet_rows(
    columns: Seq<(Seq<char>, Option<Seq<char>>)>,
    before: BodyView,
    row: Seq<Datum>,
    after: BodyView,
    items: Seq<BodyItem>,
    i: int,
)
    requires
        body_step(before, EventView::Row(row), after, items),
        before.outcome is Open,
        before.kind == (ResultKind::Parquet { columns }),
        0 < columns.len(),
    ensures
        after.kind == before.kind,
        row.len() < columns.len() ==> {
            &&& after.outcome is Failed
            &&& after.rows == before.rows
            &&& tells_missing_value(items, row)
        },
        row.len() >= columns.len() ==> {
            let rows = before.rows.push(row);
            let fields = result_fields(columns, rows);
            let full = rows.len() % 8192 == 0;
            let taken = !full || batch_written(Compression::Zstd, fields, batches(fields, rows));
            &&& taken ==> after.outcome is Open && after.rows == rows
            &&& !taken ==> after.outcome is Failed && items.len() == 1 && (items[0] matches
                BodyItem::Error(BodyError::Export(error)) && error is Parquet)
            &&& !full ==> items.len() == 0
            &&& taken && 0 <= i < items.len() ==> (items[i] matches BodyItem::Chunk(chunk) && 65536
                <= chunk@.len() < 69632)
        },
{
}

/// The end of the query completes the body of a Parquet result with columns, unless the
/// file takes not all of its batches or has no end. The body then is that file. Without
/// columns there is none, and the body ends with an error.
pub proof fn law_parquet_ends(
    columns: Seq<(Seq<char>, Option<Seq<char>>)>,
    before: BodyView,
    after: BodyView,
    items: Seq<BodyItem>,
)
    requires
        body_step(before, EventView::End, after, items),
        before.outcome is Open,
        before.kind == (ResultKind::Parquet { columns }),
    ensures
        after.kind == before.kind,
        after.rows == before.rows,
        columns.len() == 0 ==> after.outcome is Failed && items.len() == 1 && (items[0] matches
            BodyItem::Error(BodyError::Export(error)) && error is Arrow),
        columns.len() > 0 ==> {
            let fields = result_fields(columns, before.rows);
            let all = batches(fields, before.rows);
            let file = parquet_file(Compression::Zstd, fields, all);
            &&& after.outcome is Complete || after.outcome is Failed
            &&& after.outcome is Complete ==> file == Some(after.sent)
            &&& after.outcome is Failed ==> items.len() == 1 && (items[0] matches BodyItem::Error(
                BodyError::Export(error),
            ) && error is Parquet)
            &&& batch_written(Compression::Zstd, fields, all) && file is Some
                ==> after.outcome is Complete
        },
{
}

/// A query that fails ends the body with its own words, and nothing is sent. Where the
/// client is gone nothing is put into the body any more.
pub proof fn law_other_endings(
    before: BodyView,
    event: EventView,
    after: BodyView,
    items: Seq<BodyItem>,
)
    requires
        body_step(before, event, after, items),
        before.outcome is Open,
        event is Failed || event is Disconnected,
    ensures
        after.kind == before.kind,
        after.rows == before.rows,
        after.sent == before.sent,
        event matches EventView::Failed(text) ==> after.outcome is Failed && items.len() == 1 && (
        items[0] matches BodyItem::Error(BodyError::Query(shown)) && shown@ == text),
        event is Disconnected ==> after.outcome == Outcome::Abandoned && items.len() == 0,
{
    if items.len() == 1 {
        assert(items.drop_last() =~= seq![]);
        assert(sent_by(items.drop_last()) =~= seq![]);
        assert(sent_by(items) =~= seq![]);
    }
    assert(before.sent + seq![] =~= before.sent);
}

/// What a body does with an event is a step of it, and what it returns are the items of
/// that step. A row is told by its values, and a failure by its text.
pub proof fn law_events<'a, 'r>(body: &mut Body, event: BodyEvent<'a, 'r>, items: Vec<BodyItem>)
    requires
        old(body).valid(),
        call_ensures(Body::on, (body, event), items),
    ensures
        final(body).valid(),
        event matches BodyEvent::Row(row) ==> body_step(
            old(body)@,
            EventView::Row(Seq::new(row@.len(), |c: int| row@[c]@)),
            final(body)@,
            items@,
        ),
        event is End ==> body_step(old(body)@, EventView::End, final(body)@, items@),
        event matches BodyEvent::Failed(text) ==> body_step(
            old(body)@,
            EventView::Failed(text@),
            final(body)@,
            items@,
        ),
        event is Disconnected ==> body_step(
            old(body)@,
            EventView::Disconnected,
            final(body)@,
            items@,
        ),
{
    if let BodyEvent::Row(row) = event {
        assert(row_data(row@) =~= Seq::new(row@.len(), |c: int| row@[c]@));
    }
}

/// Who reads a Parquet result that is complete, and not too large to be read, gets a
/// column for each of its columns, with a cell for each row, and the cell is the one that
/// the value of that row and column makes.
pub proof fn law_parquet_reads_back<'a, 'r>(
    body: &mut Body,
    event: BodyEvent<'a, 'r>,
    items: Vec<BodyItem>,
    columns: Seq<(Seq<char>, Option<Seq<char>>)>,
    i: int,
    c: int,
)
    requires
        old(body).valid(),
        call_ensures(Body::on, (body, event), items),
        event is End,
        old(body)@.kind == (ResultKind::Parquet { columns }),
        old(body)@.outcome is Open,
        final(body)@.outcome is Complete,
        result_readable(result_fields(columns, old(body)@.rows), old(body)@.rows),
        forall|k: int|
            0 <= k < old(body)@.rows.len() ==> (#[trigger] old(body)@.rows[k]).len()
                >= columns.len(),
        0 <= i < old(body)@.rows.len(),
        0 <= c < columns.len(),
    ensures
        ({
            let read = parquet_contents(final(body)@.sent);
            let fields = result_fields(columns, old(body)@.rows);
            &&& read.fields == fields
            &&& read.columns.len() == columns.len()
            &&& cell_count(read.columns[c]) == old(body)@.rows.len()
            &&& same_cell(
                read.columns[c],
                i,
                Cells::none(fields[c].data_type).with(old(body)@.rows[i][c]),
            )
        }),
{
    law_columns_of_rows(result_fields(columns, old(body)@.rows), old(body)@.rows, i, c);
}

/// A body tells that it is over exactly where nothing more is sent.
pub proof fn law_bodies_tell_their_end(body: &Body, over: bool)
    requires
        body.valid(),
        call_ensures(Body::is_over, (body,), over),
    ensures
        over <==> body@.outcome is Complete || body@.outcome is Failed
            || body@.outcome is Abandoned,
{
}

/// A body of Parquet tells the types of its columns once it has a row.
pub proof fn law_bodies_tell_their_types(body: &Body, types: Option<Vec<DataType>>, c: int)
    requires
        body.valid(),
        call_ensures(Body::data_types, (body,), types),
    ensures
        types is Some <==> body@.outcome is Open && body@.kind is Parquet && body@.rows.len() > 0,
        types matches Some(list) ==> {
            let fields = result_fields(body@.kind->columns, body@.rows);
            &&& list@.len() == fields.len()
            &&& 0 <= c < list@.len() ==> list@[c] == fields[c].data_type
        },
{
}

} // verus!
