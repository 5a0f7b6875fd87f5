use arrow_array::cast::AsArray;
use arrow_array::types::{Float64Type, Int64Type};
use arrow_array::{Array, RecordBatch};
use bytes::Bytes;
use parquet::arrow::arrow_reader::ParquetRecordBatchReaderBuilder;
use parquet::basic::Compression;
use readql::cell::{parse_truth, reads_real_text, reads_text_number};
use readql::export::{ExportError, ParquetExport, ROW_BATCH_SIZE};
use readql::parquet_format::{
    create_parquet_writer, infer_arrow_type, infer_schema_from_metadata, ChunkWriter,
    ColumnMetadata, DataType, Delivery, Disconnected, RecordBatchAccumulator, PIECE_SIZE,
};
use readql::stream::{ParquetStream, CHUNK_SIZE};
use readql::value::{Real, RowError, Text, ValueRef};
use tokio_rusqlite::rusqlite::{self, Connection};

fn double(number: f64) -> ValueRef<'static> {
    let mut buffer = ryu::Buffer::new();
    ValueRef::Real(Real { bits: number.to_bits(), text: buffer.format(number).to_string() })
}

fn text(bytes: &[u8]) -> ValueRef<'_> {
    let number = std::str::from_utf8(bytes).ok().and_then(|s| s.parse::<f64>().ok());
    ValueRef::Text(Text { bytes, number: number.map(f64::to_bits) })
}

fn value(value: rusqlite::types::ValueRef<'_>) -> ValueRef<'_> {
    match value {
        rusqlite::types::ValueRef::Null => ValueRef::Null,
        rusqlite::types::ValueRef::Integer(i) => ValueRef::Integer(i),
        rusqlite::types::ValueRef::Real(f) => double(f),
        rusqlite::types::ValueRef::Text(t) => text(t),
        rusqlite::types::ValueRef::Blob(b) => ValueRef::Blob(b),
    }
}

fn columns(parts: &[(&str, &str)]) -> Vec<ColumnMetadata> {
    parts.iter().map(|(name, declared)| (name.to_string(), Some(declared.to_string()))).collect()
}

/// Reads the batches of a Parquet file.
fn read(file: Vec<u8>) -> Vec<RecordBatch> {
    let builder = ParquetRecordBatchReaderBuilder::try_new(Bytes::from(file)).unwrap();
    builder.with_batch_size(1 << 20).build().unwrap().map(|batch| batch.unwrap()).collect()
}

#[test]
fn test_infer_arrow_types() {
    assert_eq!(infer_arrow_type(Some("INTEGER"), None), DataType::Int64);
    assert_eq!(infer_arrow_type(Some("BIGINT"), None), DataType::Int64);
    assert_eq!(infer_arrow_type(Some("REAL"), None), DataType::Float64);
    assert_eq!(infer_arrow_type(Some("FLOAT"), None), DataType::Float64);
    assert_eq!(infer_arrow_type(Some("BOOLEAN"), None), DataType::Boolean);
    assert_eq!(infer_arrow_type(Some("BLOB"), None), DataType::Binary);
    assert_eq!(infer_arrow_type(Some("TEXT"), None), DataType::Utf8);
    assert_eq!(infer_arrow_type(Some("VARCHAR(255)"), None), DataType::Utf8);
    assert_eq!(infer_arrow_type(None, Some(&ValueRef::Integer(42))), DataType::Int64);
    assert_eq!(infer_arrow_type(None, Some(&double(3.14))), DataType::Float64);
    assert_eq!(infer_arrow_type(None, Some(&ValueRef::text(b"hello"))), DataType::Utf8);
}

#[test]
fn more_inferred_types() {
    assert_eq!(infer_arrow_type(Some("double precision"), None), DataType::Float64);
    assert_eq!(infer_arrow_type(Some("Numeric(10)"), None), DataType::Float64);
    assert_eq!(infer_arrow_type(Some("decimal"), None), DataType::Float64);
    assert_eq!(infer_arrow_type(Some("varbinary(3)"), None), DataType::Binary);
    assert_eq!(infer_arrow_type(Some("point"), None), DataType::Int64);
    assert_eq!(infer_arrow_type(Some(""), Some(&ValueRef::Integer(1))), DataType::Utf8);
    assert_eq!(infer_arrow_type(Some("\u{131}nt"), None), DataType::Int64);
    assert_eq!(infer_arrow_type(None, Some(&ValueRef::Blob(b""))), DataType::Binary);
    assert_eq!(infer_arrow_type(None, Some(&ValueRef::Null)), DataType::Utf8);
    assert_eq!(infer_arrow_type(None, None), DataType::Utf8);
}

#[test]
fn a_schema_from_a_sample_row() {
    let columns: Vec<ColumnMetadata> = vec![
        ("a".to_string(), Some("int".to_string())),
        ("b".to_string(), None),
        ("c".to_string(), None),
    ];
    let row = [ValueRef::Null, ValueRef::Blob(b"x")];
    let schema = infer_schema_from_metadata(&columns, Some(&row));
    let types: Vec<DataType> = schema.fields.iter().map(|field| field.data_type).collect();
    assert_eq!(types, [DataType::Int64, DataType::Binary, DataType::Utf8]);
    assert!(schema.fields.iter().all(|field| field.nullable));
    assert_eq!(schema.fields[1].name, "b");
}

#[test]
fn test_write_and_read_parquet_bytes() {
    let conn = Connection::open_in_memory().unwrap();
    conn.execute_batch(
        "CREATE TABLE users (id INTEGER, name TEXT, score REAL, active BOOLEAN, avatar BLOB);
         INSERT INTO users VALUES (1, 'Alice', 95.5, 1, X'010203');
         INSERT INTO users VALUES (2, 'Bob', 82.0, 0, NULL);
         INSERT INTO users VALUES (3, NULL, NULL, NULL, NULL);",
    )
    .unwrap();

    let mut stmt = conn.prepare("SELECT * FROM users ORDER BY id").unwrap();
    let metadata: Vec<ColumnMetadata> = stmt
        .columns()
        .into_iter()
        .map(|col| (col.name().to_string(), col.decl_type().map(String::from)))
        .collect();
    let schema = infer_schema_from_metadata(&metadata, None);
    assert_eq!(schema.fields.len(), 5);

    let mut writer = create_parquet_writer(&schema).unwrap();

    let mut accumulator = RecordBatchAccumulator::new(schema.clone(), 1024);
    let mut rows = stmt.query([]).unwrap();
    while let Some(row) = rows.next().unwrap() {
        let values: Vec<ValueRef> = (0..5).map(|i| value(row.get_ref(i).unwrap())).collect();
        accumulator.append_row(&values).unwrap();
    }

    let batch = accumulator.finish_batch().unwrap();
    assert_eq!(batch.num_rows(), 3);

    writer.write(&batch).unwrap();
    let buffer = writer.finish().unwrap();

    assert!(!buffer.is_empty());
    assert_eq!(&buffer[0..4], b"PAR1");

    // Verify Parquet file can be read back
    let bytes = Bytes::from(buffer);
    let reader_builder = ParquetRecordBatchReaderBuilder::try_new(bytes).unwrap();
    let mut reader = reader_builder.build().unwrap();
    let read_batch = reader.next().unwrap().unwrap();

    assert_eq!(read_batch.num_rows(), 3);
    assert_eq!(read_batch.num_columns(), 5);

    assert_eq!(read_batch.column(0).as_primitive::<Int64Type>().values(), &[1, 2, 3]);
    assert_eq!(read_batch.column(1).as_string::<i32>().value(1), "Bob");
    assert!(read_batch.column(1).is_null(2));
    assert_eq!(read_batch.column(2).as_primitive::<Float64Type>().value(0), 95.5);
    assert!(!read_batch.column(3).as_boolean().value(1));
    assert_eq!(read_batch.column(4).as_binary::<i32>().value(0), [1, 2, 3]);
    assert!(read_batch.column(4).is_null(1));
}

/// One value in a column of each type.
fn cells_of(value: ValueRef) -> RecordBatch {
    let metadata =
        columns(&[("i", "INT"), ("f", "REAL"), ("b", "BOOL"), ("x", "BLOB"), ("t", "TEXT")]);
    let schema = infer_schema_from_metadata(&metadata, None);
    let mut accumulator = RecordBatchAccumulator::new(schema.clone(), 4);
    let copy = |value: &ValueRef| match value {
        ValueRef::Null => (None, None, None),
        ValueRef::Integer(i) => (Some(*i), None, None),
        ValueRef::Real(number) => (None, Some(f64::from_bits(number.bits)), None),
        _ => (None, None, Some(())),
    };
    let again = || match (&value, copy(&value)) {
        (ValueRef::Text(t), _) => text(t.bytes),
        (ValueRef::Blob(b), _) => ValueRef::Blob(b),
        (_, (Some(i), _, _)) => ValueRef::Integer(i),
        (_, (_, Some(f), _)) => double(f),
        _ => ValueRef::Null,
    };
    let row = [again(), again(), again(), again(), again()];
    accumulator.append_row(&row).unwrap();
    let mut writer = create_parquet_writer(&schema).unwrap();
    writer.write(&accumulator.finish_batch().unwrap()).unwrap();
    read(writer.finish().unwrap()).remove(0)
}

type Cells = (Option<i64>, Option<f64>, Option<bool>, Option<Vec<u8>>, Option<String>);

fn cells(value: ValueRef) -> Cells {
    let batch = cells_of(value);
    let there = |i: usize| batch.column(i).is_valid(0);
    (
        there(0).then_some(batch.column(0).as_primitive::<Int64Type>().value(0)),
        there(1).then_some(batch.column(1).as_primitive::<Float64Type>().value(0)),
        there(2).then_some(batch.column(2).as_boolean().value(0)),
        there(3).then_some(batch.column(3).as_binary::<i32>().value(0).to_vec()),
        there(4).then_some(batch.column(4).as_string::<i32>().value(0).to_string()),
    )
}

#[test]
fn null_is_null_in_every_column() {
    assert_eq!(cells(ValueRef::Null), (None, None, None, None, None));
}

#[test]
fn integers_in_every_column() {
    let some = |s: &str| Some(s.to_string());
    assert_eq!(
        cells(ValueRef::Integer(-7)),
        (Some(-7), Some(-7.0), Some(true), None, some("-7"))
    );
    assert_eq!(
        cells(ValueRef::Integer(0)),
        (Some(0), Some(0.0), Some(false), None, some("0"))
    );
    assert_eq!(
        cells(ValueRef::Integer(i64::MAX)),
        (Some(i64::MAX), Some(i64::MAX as f64), Some(true), None, some("9223372036854775807"))
    );
}

#[test]
fn reals_in_every_column() {
    let some = |s: &str| Some(s.to_string());
    assert_eq!(cells(double(2.75)), (Some(2), Some(2.75), Some(true), None, some("2.75")));
    assert_eq!(cells(double(-0.0)), (Some(0), Some(-0.0), Some(false), None, some("-0.0")));
    assert_eq!(cells(double(1e300)), (Some(i64::MAX), Some(1e300), Some(true), None, some("1e300")));
    let not_a_number = cells(double(f64::NAN));
    assert_eq!(not_a_number.0, Some(0));
    assert!(not_a_number.1.unwrap().is_nan());
    assert_eq!(not_a_number.2, Some(true));
    assert_eq!(not_a_number.4, some("NaN"));
}

#[test]
fn texts_in_every_column() {
    let some = |s: &str| Some(s.to_string());
    assert_eq!(
        cells(text(b"12")),
        (Some(12), Some(12.0), None, Some(b"12".to_vec()), some("12"))
    );
    assert_eq!(
        cells(text(b" YES ")),
        (None, None, Some(true), Some(b" YES ".to_vec()), some(" YES "))
    );
    assert_eq!(
        cells(text(b"1e3")),
        (None, Some(1000.0), None, Some(b"1e3".to_vec()), some("1e3"))
    );
    assert_eq!(
        cells(text(&[0x31, 0xff])),
        (None, None, None, Some(vec![0x31, 0xff]), some(""))
    );
}

#[test]
fn blobs_in_every_column() {
    let some = |s: &str| Some(s.to_string());
    assert_eq!(
        cells(ValueRef::Blob(b"1")),
        (None, None, None, Some(b"1".to_vec()), some("1"))
    );
    assert_eq!(
        cells(ValueRef::Blob(&[0xff, 0xfe, 0xfd])),
        (None, None, None, Some(vec![0xff, 0xfe, 0xfd]), some("<blob 3 bytes>"))
    );
}

#[test]
fn words_for_truth_values() {
    for word in ["true", "1", "t", "yes", "y", "TRUE", "Yes", "\u{2003}T\n"] {
        assert_eq!(parse_truth(word), Some(true));
    }
    for word in ["false", "0", "f", "no", "n", "FALSE", " No ", "F"] {
        assert_eq!(parse_truth(word), Some(false));
    }
    for word in ["", "2", "tr", "ye s", "on"] {
        assert_eq!(parse_truth(word), None);
    }
    // No other letter becomes one of these words in lower case.
    for c in (0x80..=0x10ffffu32).filter_map(char::from_u32) {
        let lower: String = c.to_lowercase().collect();
        assert!(!lower.chars().any(|l| "trueyesfalson10".contains(l)));
    }
}

#[test]
fn what_a_column_reads_of_a_value() {
    assert!(reads_real_text(DataType::Utf8));
    assert!(!reads_real_text(DataType::Float64));
    assert!(reads_text_number(DataType::Float64));
    assert!(!reads_text_number(DataType::Int64));
}

#[test]
fn an_accumulator_counts_rows() {
    let schema = infer_schema_from_metadata(&columns(&[("a", "INT"), ("b", "TEXT")]), None);
    let mut accumulator = RecordBatchAccumulator::new(schema, 2);
    assert!(accumulator.is_empty());
    let row = [ValueRef::Integer(1), ValueRef::Null];
    assert!(accumulator.has_room_for(&row));
    accumulator.append_row(&row).unwrap();
    assert_eq!((accumulator.len(), accumulator.is_empty(), accumulator.is_full()), (1, false, false));
    accumulator.append_row(&row).unwrap();
    assert!(accumulator.is_full());
    assert_eq!(accumulator.finish_batch().unwrap().num_rows(), 2);
    assert!(accumulator.is_empty());
    assert_eq!(accumulator.finish_batch().unwrap().num_rows(), 0);
}

#[test]
fn a_short_row_spoils_the_batch() {
    let schema = infer_schema_from_metadata(&columns(&[("a", "INT"), ("b", "TEXT")]), None);
    let mut accumulator = RecordBatchAccumulator::new(schema, 2);
    assert_eq!(
        accumulator.append_row(&[ValueRef::Integer(1)]),
        Err(RowError::InvalidColumnIndex(1))
    );
    assert_eq!(accumulator.len(), 0);
    assert!(accumulator.finish_batch().is_err());
    assert_eq!(accumulator.finish_batch().unwrap().num_rows(), 0);
}

#[test]
fn no_columns_make_no_batch() {
    let schema = infer_schema_from_metadata(&[], None);
    let mut accumulator = RecordBatchAccumulator::new(schema, 2);
    assert!(accumulator.finish_batch().is_err());
}

#[test]
fn files_are_compressed_with_zstandard() {
    let mut export = ParquetExport::start(&columns(&[("a", "INT")]), None).ok().unwrap();
    assert!(export.push_row(&[ValueRef::Integer(1)]).is_ok());
    let file = export.finish().ok().unwrap();
    let builder = ParquetRecordBatchReaderBuilder::try_new(Bytes::from(file)).unwrap();
    let compression = builder.metadata().row_group(0).column(0).compression();
    assert!(matches!(compression, Compression::ZSTD(_)));
}

fn numbered(i: i64) -> [ValueRef<'static>; 2] {
    [ValueRef::Integer(i), if i % 3 == 0 { ValueRef::Null } else { double(i as f64 / 2.0) }]
}

#[test]
fn an_export_keeps_every_value_in_its_place() {
    let metadata = columns(&[("n", "INT"), ("half", "REAL")]);
    for count in [0, 1, ROW_BATCH_SIZE - 1, ROW_BATCH_SIZE, ROW_BATCH_SIZE + 1, 20_000] {
        let mut export = ParquetExport::start(&metadata, None).ok().unwrap();
        for i in 0..count {
            let row = numbered(i as i64);
            assert!(export.has_room_for(&row));
            let complete = export.push_row(&row).ok().unwrap();
            assert_eq!(complete, (i + 1) % ROW_BATCH_SIZE == 0);
        }
        let mut file = export.take_written();
        file.extend_from_slice(&export.finish().ok().unwrap());
        assert_eq!(&file[0..4], b"PAR1");
        let mut next = 0i64;
        for batch in read(file) {
            assert_eq!(batch.num_columns(), 2);
            assert_eq!(batch.schema().field(1).name(), "half");
            let numbers = batch.column(0).as_primitive::<Int64Type>();
            let halves = batch.column(1).as_primitive::<Float64Type>();
            for i in 0..batch.num_rows() {
                assert_eq!(numbers.value(i), next);
                assert_eq!(halves.is_null(i), next % 3 == 0);
                if next % 3 != 0 {
                    assert_eq!(halves.value(i), next as f64 / 2.0);
                }
                next += 1;
            }
        }
        assert_eq!(next as usize, count);
    }
}

#[test]
fn an_export_takes_its_types_from_the_first_row() {
    let metadata: Vec<ColumnMetadata> = vec![("x".to_string(), None)];
    let first = [ValueRef::Integer(5)];
    let mut export = ParquetExport::start(&metadata, Some(&first)).ok().unwrap();
    assert!(export.push_row(&first).is_ok());
    assert!(export.push_row(&[text(b"6")]).is_ok());
    assert!(export.push_row(&[text(b"six")]).is_ok());
    let batch = read(export.finish().ok().unwrap()).remove(0);
    let column = batch.column(0).as_primitive::<Int64Type>();
    assert_eq!((column.value(0), column.value(1)), (5, 6));
    assert!(column.is_null(2));
}

#[test]
fn how_an_export_fails() {
    let mut export = ParquetExport::start(&columns(&[("a", "INT")]), None).ok().unwrap();
    assert!(matches!(
        export.push_row(&[]),
        Err(ExportError::Row(RowError::InvalidColumnIndex(0)))
    ));

    let export = ParquetExport::start(&[], None).ok().unwrap();
    assert!(matches!(export.finish(), Err(ExportError::Arrow(_))));

    let stream = ParquetStream::start(&[], None).ok().unwrap();
    assert!(matches!(stream.finish(), Err(ExportError::Arrow(_))));
}

#[test]
fn chunks_of_a_parquet_stream_make_up_the_file() {
    let metadata = columns(&[("noise", "BLOB")]);
    let mut export = ParquetExport::start(&metadata, None).ok().unwrap();
    let mut stream = ParquetStream::start(&metadata, None).ok().unwrap();
    let mut sent: Vec<u8> = Vec::new();
    let mut chunks: Vec<Vec<u8>> = Vec::new();
    let mut state = 1u64;
    for _ in 0..20_000 {
        let mut noise = [0u8; 32];
        for byte in noise.iter_mut() {
            state = state.wrapping_mul(6364136223846793005).wrapping_add(1442695040888963407);
            *byte = (state >> 56) as u8;
        }
        let row = [ValueRef::Blob(&noise)];
        assert!(stream.has_room_for(&row));
        chunks.append(&mut stream.push_row(&row).ok().unwrap());
        assert!(export.push_row(&row).is_ok());
    }
    chunks.append(&mut stream.finish().ok().unwrap());
    assert!(chunks.len() > 5);
    for chunk in &chunks[..chunks.len() - 1] {
        assert!(chunk.len() >= CHUNK_SIZE);
        assert!(chunk.len() < CHUNK_SIZE + PIECE_SIZE);
    }
    assert!(!chunks[chunks.len() - 1].is_empty());
    for chunk in &chunks {
        sent.extend_from_slice(chunk);
    }
    assert!(sent == export.finish().ok().unwrap());
    assert_eq!(read(sent).iter().map(|batch| batch.num_rows()).sum::<usize>(), 20_000);
}

#[test]
fn an_empty_result_still_has_its_columns() {
    let metadata = columns(&[("id", "INTEGER"), ("label", "TEXT")]);
    let stream = ParquetStream::start(&metadata, None).ok().unwrap();
    let chunks = stream.finish().ok().unwrap();
    assert_eq!(chunks.len(), 1);
    assert_eq!(&chunks[0][0..4], b"PAR1");
    let builder = ParquetRecordBatchReaderBuilder::try_new(Bytes::from(chunks.concat())).unwrap();
    assert_eq!(builder.metadata().file_metadata().num_rows(), 0);
    assert_eq!(builder.schema().fields().len(), 2);
}

#[test]
fn a_chunk_writer_waits_for_a_chunk() {
    let mut writer = ChunkWriter::new(4);
    assert_eq!(writer.flush(), None);
    assert_eq!(writer.write(b"ab"), None);
    assert_eq!(writer.write(b"c"), None);
    assert_eq!(writer.write(b"def"), Some(b"abcdef".to_vec()));
    assert_eq!(writer.write(b"g"), None);
    assert_eq!(writer.flush(), Some(b"g".to_vec()));
    assert_eq!(writer.flush(), None);
    let chunks = writer.write_pieces(&[7; 10_000]);
    assert_eq!(chunks.iter().map(Vec::len).collect::<Vec<_>>(), [4096, 4096, 1808]);
}

#[test]
fn parts_that_are_not_read_do_not_matter() {
    let with = |declared: &str, value: ValueRef| {
        let mut export = ParquetExport::start(&columns(&[("x", declared)]), None).ok().unwrap();
        assert!(export.push_row(&[value]).is_ok());
        export.finish().ok().unwrap()
    };
    for declared in ["INT", "REAL", "BOOL", "BLOB"] {
        let bare = ValueRef::Real(Real { bits: 1.5f64.to_bits(), text: String::new() });
        assert!(with(declared, bare) == with(declared, double(1.5)));
    }
    for declared in ["INT", "BOOL", "BLOB", "TEXT"] {
        assert!(with(declared, ValueRef::text(b"12")) == with(declared, text(b"12")));
    }
    assert!(with("REAL", ValueRef::text(b"12")) != with("REAL", text(b"12")));
}

#[test]
fn the_types_of_an_export() {
    let metadata = columns(&[("a", "INT"), ("b", "TEXT"), ("c", "BLOB")]);
    let export = ParquetExport::start(&metadata, None).ok().unwrap();
    assert_eq!(export.data_types(), [DataType::Int64, DataType::Utf8, DataType::Binary]);
    let stream = ParquetStream::start(&metadata, None).ok().unwrap();
    assert_eq!(stream.data_types(), [DataType::Int64, DataType::Utf8, DataType::Binary]);
}

#[test]
fn the_text_of_a_row_error() {
    assert_eq!(RowError::InvalidColumnIndex(12).message(), "Invalid column index: 12");
    assert_eq!(
        RowError::InvalidColumnIndex(12).message(),
        rusqlite::Error::InvalidColumnIndex(12).to_string()
    );
}

#[test]
fn columns_of_the_same_name_read_back() {
    let metadata = columns(&[("x.y", "INT"), ("x.y", "TEXT"), ("", "REAL"), ("", "REAL")]);
    let mut export = ParquetExport::start(&metadata, None).unwrap();
    let not_a_number = f64::from_bits(0x7ff8_0000_dead_beef);
    let row =
        [ValueRef::Integer(1), text(b"one"), double(not_a_number), double(-0.0)];
    export.push_row(&row).unwrap();
    let batch = read(export.finish().unwrap()).remove(0);
    assert_eq!(batch.schema().field(0).name(), "x.y");
    assert_eq!(batch.schema().field(1).name(), "x.y");
    assert!(batch.schema().fields().iter().all(|field| field.is_nullable()));
    assert_eq!(batch.column(0).as_primitive::<Int64Type>().value(0), 1);
    assert_eq!(batch.column(1).as_string::<i32>().value(0), "one");
    let bits = |c: usize| batch.column(c).as_primitive::<Float64Type>().value(0).to_bits();
    assert_eq!(bits(2), 0x7ff8_0000_dead_beef);
    assert_eq!(bits(3), (-0.0f64).to_bits());
}

#[test]
fn a_file_without_rows_is_always_completed() {
    let metadata =
        columns(&[("i", "INT"), ("f", "REAL"), ("b", "BOOL"), ("x", "BLOB"), ("t", "TEXT")]);
    let schema = infer_schema_from_metadata(&metadata, None);
    let bare = create_parquet_writer(&schema).unwrap().finish().unwrap();
    assert_eq!(&bare[0..4], b"PAR1");

    let mut writer = create_parquet_writer(&schema).unwrap();
    let before = writer.take_written();
    assert!(b"PAR1".starts_with(&before));
    let mut accumulator = RecordBatchAccumulator::new(schema, 4);
    writer.write(&accumulator.finish_batch().unwrap()).unwrap();
    assert_eq!(writer.take_written(), b"");
    let mut file = before;
    file.extend_from_slice(&writer.finish().unwrap());
    assert!(file == bare);
    assert!(file == ParquetExport::start(&metadata, None).unwrap().finish().unwrap());
}

#[test]
fn what_is_ready_is_taken_once() {
    let metadata = columns(&[("n", "INT")]);
    let whole = {
        let mut export = ParquetExport::start(&metadata, None).unwrap();
        for i in 0..1_200_000 {
            export.push_row(&[ValueRef::Integer(i * i % 1_000_003)]).unwrap();
        }
        export.finish().unwrap()
    };
    let mut export = ParquetExport::start(&metadata, None).unwrap();
    let mut file = export.take_written();
    for i in 0..1_200_000 {
        if export.push_row(&[ValueRef::Integer(i * i % 1_000_003)]).unwrap() {
            file.extend_from_slice(&export.take_written());
            assert!(export.take_written().is_empty());
        }
    }
    assert!(file.len() > 1_000_000);
    file.extend_from_slice(&export.finish().unwrap());
    assert!(file == whole);
}

#[test]
fn a_file_with_many_columns() {
    const COUNT: usize = 2000;
    let metadata: Vec<ColumnMetadata> =
        (0..COUNT).map(|i| (format!("c{i}"), Some("INT".to_string()))).collect();
    let schema = infer_schema_from_metadata(&metadata, None);
    let mut writer = create_parquet_writer(&schema).unwrap();
    let mut accumulator = RecordBatchAccumulator::new(schema, 1);
    let row: Vec<ValueRef> = (0..COUNT).map(|i| ValueRef::Integer(i as i64)).collect();
    accumulator.append_row(&row).unwrap();
    writer.write(&accumulator.finish_batch().unwrap()).unwrap();
    let batch = read(writer.finish().unwrap()).remove(0);
    assert_eq!(batch.num_columns(), COUNT);
    for i in [0, 1, COUNT - 1] {
        assert_eq!(batch.schema().field(i).name(), &format!("c{i}"));
        assert_eq!(batch.column(i).as_primitive::<Int64Type>().value(0), i as i64);
    }
}

#[test]
fn a_large_text_reads_back() {
    let metadata = columns(&[("t", "TEXT")]);
    let mut export = ParquetExport::start(&metadata, None).unwrap();
    let large = "ab".repeat(32 * 1024 * 1024);
    for value in [large.as_bytes(), b"", b"small"] {
        let row = [text(value)];
        assert!(export.has_room_for(&row));
        export.push_row(&row).unwrap();
    }
    let batch = read(export.finish().unwrap()).remove(0);
    let column = batch.column(0).as_string::<i32>();
    assert!(column.value(0) == large);
    assert_eq!((column.value(1), column.value(2)), ("", "small"));
}

#[test]
fn a_write_fails_only_when_the_client_is_gone() {
    for delivery in [Delivery::Unneeded, Delivery::Received] {
        assert_eq!(ChunkWriter::write_reply(b"abc", delivery), Ok(3));
        assert_eq!(ChunkWriter::write_reply(b"", delivery), Ok(0));
        assert_eq!(ChunkWriter::flush_reply(delivery), Ok(()));
    }
    assert_eq!(ChunkWriter::write_reply(b"abc", Delivery::Refused), Err(Disconnected));
    assert_eq!(ChunkWriter::flush_reply(Delivery::Refused), Err(Disconnected));
    assert_eq!(Disconnected.message(), "Client disconnected");
}

#[test]
fn a_value_that_no_statistic_can_shorten_reads_back() {
    let metadata = columns(&[("b", "BLOB"), ("t", "TEXT")]);
    let mut export = ParquetExport::start(&metadata, None).unwrap();
    let bytes = vec![0xffu8; 100_000];
    let letters = "\u{10ffff}".repeat(10_000);
    export.push_row(&[ValueRef::Blob(&bytes), text(letters.as_bytes())]).unwrap();
    let batch = read(export.finish().unwrap()).remove(0);
    assert!(batch.column(0).as_binary::<i32>().value(0) == bytes);
    assert!(batch.column(1).as_string::<i32>().value(0) == letters);
}
