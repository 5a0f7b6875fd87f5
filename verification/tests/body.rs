use bytes::Bytes;
use parquet::arrow::arrow_reader::ParquetRecordBatchReaderBuilder;
use readql::body::{Body, BodyError, BodyEvent, BodyItem};
use readql::export::{ExportError, ParquetExport, ROW_BATCH_SIZE};
use readql::parquet_format::{columns_fit, ColumnMetadata, DataType};
use readql::schema::{COLUMN_ROOM, SCHEMA_ROOM};
use readql::stream::{CsvExport, CHUNK_SIZE};
use readql::value::{RowError, ValueRef};

fn columns(parts: &[(&str, Option<&str>)]) -> Vec<ColumnMetadata> {
    parts.iter().map(|(name, declared)| (name.to_string(), declared.map(String::from))).collect()
}

fn push(sent: &mut Vec<Vec<u8>>, items: Vec<BodyItem>) {
    for item in items {
        match item {
            BodyItem::Chunk(chunk) => sent.push(chunk),
            BodyItem::Error(error) => panic!("{error:?}"),
        }
    }
}

#[test]
fn a_body_of_csv() {
    let mut body = Body::csv(&["id", "name"]);
    assert!(!body.is_over());
    let mut sent = Vec::new();
    for (id, name) in [(1, "apple"), (2, "a,b")] {
        let row = [ValueRef::Integer(id), ValueRef::text(name.as_bytes())];
        assert!(body.has_room_for(&row));
        push(&mut sent, body.on(BodyEvent::Row(&row)));
    }
    assert!(sent.is_empty());
    assert!(body.data_types().is_none());
    push(&mut sent, body.on(BodyEvent::End));
    assert!(body.is_over());
    assert_eq!(sent.concat(), b"id,name\r\n1,apple\r\n2,\"a,b\"\r\n");
}

#[test]
fn nothing_follows_the_end_of_a_body() {
    let mut complete = Body::csv(&["id"]);
    assert_eq!(complete.on(BodyEvent::End).len(), 1);
    let mut failed = Body::csv(&["id"]);
    assert_eq!(failed.on(BodyEvent::Failed("gone".to_string())).len(), 1);
    for body in [&mut complete, &mut failed] {
        assert!(body.is_over());
        assert!(body.on(BodyEvent::Row(&[ValueRef::Integer(1)])).is_empty());
        assert!(body.on(BodyEvent::End).is_empty());
        assert!(body.on(BodyEvent::Failed("again".to_string())).is_empty());
    }
}

#[test]
fn a_body_without_columns_or_rows() {
    let mut body = Body::csv(&[]);
    assert!(body.on(BodyEvent::End).is_empty());
    assert!(body.is_over());
}

#[test]
fn a_query_that_fails_after_some_rows() {
    let mut csv = Body::csv(&["id"]);
    let mut parquet = Body::parquet(columns(&[("id", Some("INTEGER"))])).unwrap();
    for body in [&mut csv, &mut parquet] {
        for id in 0..10 {
            assert!(body.on(BodyEvent::Row(&[ValueRef::Integer(id)])).is_empty());
        }
        let mut items = body.on(BodyEvent::Failed("disk I/O error".to_string()));
        assert_eq!(items.len(), 1);
        assert!(matches!(
            items.remove(0),
            BodyItem::Error(BodyError::Query(text)) if text == "disk I/O error"
        ));
        assert!(body.is_over());
    }
}

#[test]
fn a_query_that_fails_before_its_first_row() {
    let mut body = Body::parquet(columns(&[("id", None)])).unwrap();
    let items = body.on(BodyEvent::Failed("interrupted".to_string()));
    assert!(matches!(&items[..], [BodyItem::Error(BodyError::Query(text))] if text == "interrupted"));
    assert!(body.is_over());
}

#[test]
fn a_row_that_is_too_short_ends_a_body() {
    let mut csv = Body::csv(&["a", "b"]);
    let mut parquet = Body::parquet(columns(&[("a", None), ("b", None)])).unwrap();
    for body in [&mut csv, &mut parquet] {
        let items = body.on(BodyEvent::Row(&[ValueRef::Integer(1)]));
        assert!(matches!(
            &items[..],
            [BodyItem::Error(BodyError::Export(ExportError::Row(RowError::InvalidColumnIndex(1))))]
        ));
        assert!(body.is_over());
    }
}

#[test]
fn a_parquet_body_without_columns() {
    let mut empty = Body::parquet(Vec::new()).unwrap();
    let items = empty.on(BodyEvent::End);
    assert!(matches!(&items[..], [BodyItem::Error(BodyError::Export(ExportError::Arrow(_)))]));

    let mut full = Body::parquet(Vec::new()).unwrap();
    for _ in 0..ROW_BATCH_SIZE - 1 {
        assert!(full.on(BodyEvent::Row(&[])).is_empty());
    }
    let items = full.on(BodyEvent::Row(&[]));
    assert!(matches!(&items[..], [BodyItem::Error(BodyError::Export(ExportError::Arrow(_)))]));
    assert!(full.is_over());
}

#[test]
fn a_body_of_parquet() {
    for count in [0, 1, ROW_BATCH_SIZE, ROW_BATCH_SIZE + 1] {
        let metadata = columns(&[("n", None), ("label", Some("TEXT"))]);
        let mut body = Body::parquet(metadata.clone()).unwrap();
        assert!(body.data_types().is_none());
        let mut sent = Vec::new();
        let mut rows = Vec::new();
        for n in 0..count as i64 {
            rows.push([ValueRef::Integer(n), ValueRef::text(b"x")]);
        }
        for row in &rows {
            assert!(body.has_room_for(row));
            push(&mut sent, body.on(BodyEvent::Row(row)));
            assert_eq!(body.data_types().unwrap(), [DataType::Int64, DataType::Utf8]);
        }
        push(&mut sent, body.on(BodyEvent::End));
        assert!(body.is_over());
        assert!(body.data_types().is_none());

        let first = rows.first().map(|row| row.as_slice());
        let mut export = ParquetExport::start(&metadata, first).unwrap();
        for row in &rows {
            export.push_row(row).unwrap();
        }
        let file = sent.concat();
        assert!(file == export.finish().unwrap());
        let builder = ParquetRecordBatchReaderBuilder::try_new(Bytes::from(file)).unwrap();
        assert_eq!(builder.metadata().file_metadata().num_rows(), count as i64);
    }
}

#[test]
fn chunks_of_csv_hold_whole_records() {
    let mut body = Body::csv(&["n", "text"]);
    let mut export = CsvExport::start(&["n", "text"]);
    let text = "two\r\nlines, and \"quotes\" ".repeat(40);
    let mut sent = Vec::new();
    for n in 0..500 {
        let row = [ValueRef::Integer(n), ValueRef::text(text.as_bytes())];
        push(&mut sent, body.on(BodyEvent::Row(&row)));
        export.push_row(&row).unwrap();
    }
    push(&mut sent, body.on(BodyEvent::End));
    assert!(sent.len() > 3);
    for chunk in &sent[..sent.len() - 1] {
        assert!(chunk.len() >= CHUNK_SIZE);
    }
    for chunk in &sent {
        assert!(chunk.ends_with(b"\"\r\n"));
        let quotes = chunk.iter().filter(|byte| **byte == b'"').count();
        assert_eq!(quotes % 2, 0);
    }
    for chunk in &sent[1..] {
        let digits = chunk.iter().take_while(|byte| byte.is_ascii_digit()).count();
        assert!(digits > 0);
        assert!(chunk[digits..].starts_with(b",\"two\r\n"));
    }
    assert!(sent.concat() == export.finish().into_bytes());
}

#[test]
fn schemas_that_fit_into_a_file() {
    assert!(columns_fit(&[]));
    assert!(columns_fit(&columns(&[("id", Some("INTEGER")), ("name", None)])));

    let most = (SCHEMA_ROOM / COLUMN_ROOM) as usize;
    let mut many: Vec<ColumnMetadata> = Vec::with_capacity(most + 1);
    many.resize_with(most + 1, || (String::new(), None));
    assert!(columns_fit(&many[..most]));
    assert!(!columns_fit(&many));
    many.truncate(most);
    many[0].0.push('x');
    assert!(!columns_fit(&many));
    assert!(Body::parquet(many).is_none());
}

#[test]
fn a_body_that_nobody_reads() {
    let mut csv = Body::csv(&["id"]);
    let mut parquet = Body::parquet(columns(&[("id", None)])).unwrap();
    for body in [&mut csv, &mut parquet] {
        assert!(body.on(BodyEvent::Row(&[ValueRef::Integer(1)])).is_empty());
        assert!(body.on(BodyEvent::Disconnected).is_empty());
        assert!(body.is_over());
        assert!(body.on(BodyEvent::End).is_empty());
    }
}

#[test]
fn a_long_header_goes_out_with_the_first_row() {
    let name = "x".repeat(CHUNK_SIZE);
    let mut body = Body::csv(&[&name]);
    let mut sent = Vec::new();
    push(&mut sent, body.on(BodyEvent::Row(&[ValueRef::Integer(1)])));
    assert_eq!(sent.len(), 1);
    assert!(sent[0] == format!("{name}\r\n1\r\n").into_bytes());
    assert!(body.on(BodyEvent::End).is_empty());
    assert!(body.is_over());
}
