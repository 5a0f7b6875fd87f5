use bytes::Bytes;
use parquet::arrow::arrow_reader::ParquetRecordBatchReaderBuilder;
use readql::db::{stream_reply, Preparation};
use readql::error::AppError;
use readql::export::ParquetExport;
use readql::handlers::{resolve_request, OutputFormat, SqlParameters};
use readql::parquet_format::ColumnMetadata;
use readql::stream::{CsvExport, CsvStream, ParquetStream};
use readql::value::{Real, Text, ValueRef};
use tokio_rusqlite::rusqlite::types::ValueRef as SqlValue;
use tokio_rusqlite::rusqlite::{Connection, Row, Statement};

fn values<'a>(row: &'a Row<'_>, count: usize) -> Vec<ValueRef<'a>> {
    (0..count)
        .map(|i| match row.get_ref(i).unwrap() {
            SqlValue::Null => ValueRef::Null,
            SqlValue::Integer(integer) => ValueRef::Integer(integer),
            SqlValue::Real(number) => ValueRef::Real(Real {
                bits: number.to_bits(),
                text: ryu::Buffer::new().format(number).to_string(),
            }),
            SqlValue::Text(bytes) => ValueRef::Text(Text {
                bytes,
                number: std::str::from_utf8(bytes)
                    .ok()
                    .and_then(|text| text.parse::<f64>().ok())
                    .map(f64::to_bits),
            }),
            SqlValue::Blob(bytes) => ValueRef::Blob(bytes),
        })
        .collect()
}

fn names(statement: &Statement) -> Vec<String> {
    statement.column_names().into_iter().map(String::from).collect()
}

fn metadata(statement: &Statement) -> Vec<ColumnMetadata> {
    statement
        .columns()
        .into_iter()
        .map(|column| (column.name().to_string(), column.decl_type().map(String::from)))
        .collect()
}

fn query_as_csv(connection: &Connection, sql: &str) -> String {
    let mut statement = connection.prepare(sql).unwrap();
    let names = names(&statement);
    let header: Vec<&str> = names.iter().map(String::as_str).collect();
    let mut export = CsvExport::start(&header);
    let mut rows = statement.query([]).unwrap();
    while let Some(row) = rows.next().unwrap() {
        export.push_row(&values(row, names.len())).unwrap();
    }
    export.finish()
}

fn query_as_csv_stream(connection: &Connection, sql: &str) -> Vec<u8> {
    let mut statement = connection.prepare(sql).unwrap();
    let names = names(&statement);
    let header: Vec<&str> = names.iter().map(String::as_str).collect();
    let mut stream = CsvStream::start(&header);
    let mut sent = Vec::new();
    let mut rows = statement.query([]).unwrap();
    while let Some(row) = rows.next().unwrap() {
        sent.extend(stream.push_row(&values(row, names.len())).unwrap().unwrap_or_default());
    }
    sent.extend(stream.finish().unwrap_or_default());
    sent
}

fn query_as_parquet(connection: &Connection, sql: &str) -> Vec<u8> {
    let mut statement = connection.prepare(sql).unwrap();
    let columns = metadata(&statement);
    let mut rows = statement.query([]).unwrap();
    let first = rows.next().unwrap().map(|row| values(row, columns.len()));
    let mut export = ParquetExport::start(&columns, first.as_deref()).unwrap();
    if let Some(first) = &first {
        export.push_row(first).unwrap();
        while let Some(row) = rows.next().unwrap() {
            export.push_row(&values(row, columns.len())).unwrap();
        }
    }
    export.finish().unwrap()
}

fn query_as_parquet_stream(connection: &Connection, sql: &str) -> Vec<u8> {
    let mut statement = connection.prepare(sql).unwrap();
    let columns = metadata(&statement);
    let mut rows = statement.query([]).unwrap();
    let first = rows.next().unwrap().map(|row| values(row, columns.len()));
    let mut stream = ParquetStream::start(&columns, first.as_deref()).unwrap();
    let mut sent = Vec::new();
    if let Some(first) = &first {
        sent.extend(stream.push_row(first).unwrap().concat());
        while let Some(row) = rows.next().unwrap() {
            sent.extend(stream.push_row(&values(row, columns.len())).unwrap().concat());
        }
    }
    sent.extend(stream.finish().unwrap().concat());
    sent
}

fn preparation(connection: &Connection, sql: &str) -> Preparation {
    match connection.prepare(sql) {
        Ok(_) => Preparation::Prepared,
        Err(error) => Preparation::Refused(error.to_string()),
    }
}

#[test]
fn test_query_as_csv_and_stream() {
    let connection = Connection::open_in_memory().unwrap();
    connection
        .execute_batch(
            "CREATE TABLE items (id INTEGER, name TEXT, price REAL);
             INSERT INTO items VALUES (1, 'apple', 1.25);
             INSERT INTO items VALUES (2, 'banana', 0.75);",
        )
        .unwrap();

    let csv_output = query_as_csv(&connection, "SELECT * FROM items ORDER BY id");
    assert_eq!(csv_output, "id,name,price\r\n1,apple,1.25\r\n2,banana,0.75\r\n");

    let bytes = query_as_csv_stream(&connection, "SELECT * FROM items ORDER BY id");
    let text = String::from_utf8(bytes).unwrap();
    assert_eq!(text, "id,name,price\r\n1,apple,1.25\r\n2,banana,0.75\r\n");
}

#[test]
fn test_query_as_parquet_and_stream() {
    let connection = Connection::open_in_memory().unwrap();
    connection
        .execute_batch(
            "CREATE TABLE products (id INTEGER, name TEXT, price REAL, in_stock BOOLEAN);
             INSERT INTO products VALUES (1, 'widget', 19.99, 1);
             INSERT INTO products VALUES (2, 'gadget', 49.95, 0);",
        )
        .unwrap();

    let parquet_bytes = query_as_parquet(&connection, "SELECT * FROM products ORDER BY id");
    assert_eq!(&parquet_bytes[0..4], b"PAR1");

    let reader_builder =
        ParquetRecordBatchReaderBuilder::try_new(Bytes::from(parquet_bytes)).unwrap();
    let mut reader = reader_builder.build().unwrap();
    let batch = reader.next().unwrap().unwrap();
    assert_eq!(batch.num_rows(), 2);
    assert_eq!(batch.num_columns(), 4);

    let stream_bytes = query_as_parquet_stream(&connection, "SELECT * FROM products ORDER BY id");
    assert_eq!(&stream_bytes[0..4], b"PAR1");

    let stream_reader_builder =
        ParquetRecordBatchReaderBuilder::try_new(Bytes::from(stream_bytes)).unwrap();
    let mut stream_reader = stream_reader_builder.build().unwrap();
    let stream_batch = stream_reader.next().unwrap().unwrap();
    assert_eq!(stream_batch.num_rows(), 2);
    assert_eq!(stream_batch.num_columns(), 4);
}

#[test]
fn test_query_as_parquet_empty_result() {
    let connection = Connection::open_in_memory().unwrap();
    connection.execute_batch("CREATE TABLE empty_table (id INTEGER, label TEXT);").unwrap();

    let stream_bytes = query_as_parquet_stream(&connection, "SELECT * FROM empty_table");
    assert_eq!(&stream_bytes[0..4], b"PAR1");

    let stream_reader_builder =
        ParquetRecordBatchReaderBuilder::try_new(Bytes::from(stream_bytes)).unwrap();
    assert_eq!(stream_reader_builder.metadata().file_metadata().num_rows(), 0);
    assert_eq!(stream_reader_builder.schema().fields().len(), 2);
    let mut stream_reader = stream_reader_builder.build().unwrap();
    if let Some(batch_res) = stream_reader.next() {
        let stream_batch = batch_res.unwrap();
        assert_eq!(stream_batch.num_rows(), 0);
        assert_eq!(stream_batch.num_columns(), 2);
    }
}

#[test]
fn test_query_as_csv_stream_invalid_query() {
    let connection = Connection::open_in_memory().unwrap();
    let outcome = preparation(&connection, "SELECT * FROM nonexistent_table");
    let result = stream_reply(OutputFormat::Csv, outcome);
    assert!(result.is_err());
    assert!(matches!(
        result,
        Err(AppError::BadRequest(message))
            if message.starts_with("SQL query error: no such table: nonexistent_table")
                && message.ends_with("\r\n")
    ));
}

#[test]
fn test_query_as_parquet_stream_invalid_query() {
    let connection = Connection::open_in_memory().unwrap();
    let outcome = preparation(&connection, "SELECT * FROM nonexistent_table");
    let result = stream_reply(OutputFormat::Parquet, outcome);
    assert!(result.is_err());
}

#[test]
fn test_root_handler_preserves_string_literal_whitespace() {
    let connection = Connection::open_in_memory().unwrap();
    let parameters = SqlParameters {
        sql: Some("SELECT 'hello   world' AS message".to_string()),
        format: None,
    };
    let request = resolve_request(&parameters, None).unwrap();
    assert_eq!(query_as_csv(&connection, &request.sql), "message\r\nhello   world\r\n");
}

#[test]
fn a_query_without_declared_types() {
    let connection = Connection::open_in_memory().unwrap();
    let file = query_as_parquet(&connection, "SELECT 1 AS a, 2.5 AS b, 'x' AS c, x'00ff' AS d");
    let builder = ParquetRecordBatchReaderBuilder::try_new(Bytes::from(file)).unwrap();
    let types: Vec<String> =
        builder.schema().fields().iter().map(|field| field.data_type().to_string()).collect();
    assert_eq!(types, ["Int64", "Float64", "Utf8", "Binary"]);
}
