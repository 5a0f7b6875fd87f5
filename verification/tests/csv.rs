use readql::csv::{write_escaped_field, write_header, write_row, write_value, CsvFormatter, CsvWriter};
use readql::stream::{CsvExport, CsvStream, CHUNK_SIZE};
use readql::value::{Real, RowError, ValueRef};

fn double(number: f64) -> ValueRef<'static> {
    let mut buffer = ryu::Buffer::new();
    ValueRef::Real(Real { bits: number.to_bits(), text: buffer.format(number).to_string() })
}

#[test]
fn test_write_escaped_field() {
    let mut output = String::new();
    write_escaped_field(&mut output, "plain");
    assert_eq!(output, "plain");

    output.clear();
    write_escaped_field(&mut output, "hello, world");
    assert_eq!(output, "\"hello, world\"");

    output.clear();
    write_escaped_field(&mut output, "with \"quotes\"");
    assert_eq!(output, "\"with \"\"quotes\"\"\"");

    output.clear();
    write_escaped_field(&mut output, "line1\nline2");
    assert_eq!(output, "\"line1\nline2\"");

    output.clear();
    write_escaped_field(&mut output, "line1\r\nline2");
    assert_eq!(output, "\"line1\r\nline2\"");
}

#[test]
fn test_write_header() {
    let mut output = String::new();
    write_header(&mut output, &["id", "name", "desc with, comma"]);
    assert_eq!(output, "id,name,\"desc with, comma\"\r\n");
}

#[test]
fn test_write_value_formatting() {
    let mut output = String::new();
    write_value(&mut output, &ValueRef::Integer(42));
    assert_eq!(output, "42");

    output.clear();
    write_value(&mut output, &double(123.456));
    assert_eq!(output, "123.456");

    output.clear();
    write_value(&mut output, &ValueRef::Null);
    assert_eq!(output, "");

    output.clear();
    write_value(&mut output, &ValueRef::text(b"hello, world"));
    assert_eq!(output, "\"hello, world\"");
}

#[test]
fn test_csv_formatter_reuse() {
    let mut formatter = CsvFormatter::new();
    let mut output = String::new();

    formatter.write_value(&mut output, &ValueRef::Integer(100));
    assert_eq!(output, "100");

    output.push(',');
    formatter.write_value(&mut output, &double(456.789));
    assert_eq!(output, "100,456.789");

    output.push(',');
    formatter.write_value(&mut output, &ValueRef::Integer(-50));
    assert_eq!(output, "100,456.789,-50");

    output.push(',');
    formatter.write_value(&mut output, &ValueRef::Null);
    assert_eq!(output, "100,456.789,-50,");

    output.push(',');
    formatter.write_value(&mut output, &ValueRef::text(b"sample,text"));
    assert_eq!(output, "100,456.789,-50,,\"sample,text\"");
}

#[test]
fn integers_at_the_ends_of_their_range() {
    let mut output = String::new();
    write_value(&mut output, &ValueRef::Integer(i64::MIN));
    output.push(' ');
    write_value(&mut output, &ValueRef::Integer(i64::MAX));
    output.push(' ');
    write_value(&mut output, &ValueRef::Integer(0));
    assert_eq!(output, "-9223372036854775808 9223372036854775807 0");
}

#[test]
fn blobs_and_malformed_text() {
    let mut output = String::new();
    write_value(&mut output, &ValueRef::Blob(b"a\"b"));
    assert_eq!(output, "\"a\"\"b\"");

    output.clear();
    write_value(&mut output, &ValueRef::Blob(&[0x61, 0xff, 0x2c]));
    assert_eq!(output, "\"a\u{fffd},\"");

    output.clear();
    write_value(&mut output, &ValueRef::text(&[0xe2, 0x82, 0xac, 0xc3]));
    assert_eq!(output, "\u{20ac}\u{fffd}");
}

#[test]
fn a_row_that_is_too_short() {
    let mut output = String::new();
    let row = [ValueRef::Integer(1), ValueRef::Integer(2)];
    assert_eq!(write_row(&mut output, &row, 3), Err(RowError::InvalidColumnIndex(2)));
    assert_eq!(output, "1,2,");

    output.clear();
    assert_eq!(write_row(&mut output, &[], 1), Err(RowError::InvalidColumnIndex(0)));
    assert_eq!(output, "");

    output.clear();
    assert_eq!(write_row(&mut output, &row, 1), Ok(()));
    assert_eq!(output, "1\r\n");

    output.clear();
    assert_eq!(write_row(&mut output, &row, 0), Ok(()));
    assert_eq!(output, "\r\n");
}

#[test]
fn a_default_formatter_writes_rows() {
    let mut formatter = CsvFormatter::default();
    let mut output = String::new();
    let row = [ValueRef::Integer(7), ValueRef::text(b"x\ny"), ValueRef::Null];
    assert_eq!(formatter.write_row(&mut output, &row, 3), Ok(()));
    assert_eq!(output, "7,\"x\ny\",\r\n");
}

#[test]
fn a_writer_collects_records() {
    let mut writer = CsvWriter::new();
    assert_eq!(writer.get_ref(), "");
    writer.write_header(&["a", "b\""]);
    assert_eq!(writer.write_row(&[ValueRef::Integer(-1), ValueRef::Null], 2), Ok(()));
    assert_eq!(writer.get_ref(), "a,\"b\"\"\"\r\n-1,\r\n");
    assert_eq!(writer.take(), "a,\"b\"\"\"\r\n-1,\r\n");
    assert_eq!(writer.get_ref(), "");
}

/// Reads a document by RFC 4180.
fn read_document(text: &str) -> Vec<Vec<String>> {
    let mut records = Vec::new();
    let mut chars = text.chars().peekable();
    while chars.peek().is_some() {
        let mut record = Vec::new();
        loop {
            let mut field = String::new();
            if chars.peek() == Some(&'"') {
                chars.next();
                while let Some(c) = chars.next() {
                    if c != '"' {
                        field.push(c);
                    } else if chars.peek() == Some(&'"') {
                        chars.next();
                        field.push('"');
                    } else {
                        break;
                    }
                }
            } else {
                while let Some(c) = chars.peek() {
                    if *c == ',' || *c == '\r' {
                        break;
                    }
                    field.push(*c);
                    chars.next();
                }
            }
            record.push(field);
            if chars.next() != Some(',') {
                chars.next();
                break;
            }
        }
        records.push(record);
    }
    records
}

#[test]
fn a_result_reads_back() {
    let names = ["id", "note, \"quoted\"", ""];
    let texts = ["plain", "a,b", "\"", "\r\n", "", "x\"\",\"\ny", "\u{1f600}"];
    let mut export = CsvExport::start(&names);
    for (i, text) in texts.iter().enumerate() {
        let row = [ValueRef::Integer(i as i64), ValueRef::text(text.as_bytes()), ValueRef::Null];
        assert_eq!(export.push_row(&row), Ok(()));
    }
    let records = read_document(&export.finish());
    assert_eq!(records.len(), texts.len() + 1);
    assert_eq!(records[0], names);
    for (i, text) in texts.iter().enumerate() {
        assert_eq!(records[i + 1], [i.to_string(), text.to_string(), String::new()]);
    }
}

#[test]
fn an_export_without_columns_is_empty() {
    assert_eq!(CsvExport::start(&[]).finish(), "");
    assert!(CsvStream::start(&[]).finish().is_none());
}

#[test]
fn an_export_without_rows_is_its_header() {
    assert_eq!(CsvExport::start(&["id", "name"]).finish(), "id,name\r\n");
    assert_eq!(CsvStream::start(&["id"]).finish(), Some(b"id\r\n".to_vec()));
}

#[test]
fn an_export_fails_at_a_short_row() {
    let mut export = CsvExport::start(&["a", "b"]);
    assert_eq!(export.push_row(&[ValueRef::Null]), Err(RowError::InvalidColumnIndex(1)));
    let mut stream = CsvStream::start(&["a"]);
    assert_eq!(stream.push_row(&[]), Err(RowError::InvalidColumnIndex(0)));
}

#[test]
fn what_is_taken_of_an_export() {
    let mut export = CsvExport::start(&["a"]);
    assert_eq!(export.waiting_size(), 3);
    assert_eq!(export.take(), "a\r\n");
    assert_eq!(export.waiting_size(), 0);
    assert_eq!(export.push_row(&[ValueRef::text("\u{20ac}".as_bytes())]), Ok(()));
    assert_eq!(export.waiting_size(), 5);
    assert_eq!(export.finish(), "\u{20ac}\r\n");
}

#[test]
fn chunks_of_a_stream_make_up_the_result() {
    let text = "0123456789\u{20ac}".repeat(100);
    let mut export = CsvExport::start(&["id", "text"]);
    let mut stream = CsvStream::start(&["id", "text"]);
    let mut sent: Vec<u8> = Vec::new();
    let mut chunk_count = 0;
    for i in 0..300 {
        let row = [ValueRef::Integer(i), ValueRef::text(text.as_bytes())];
        assert_eq!(export.push_row(&row), Ok(()));
        if let Some(chunk) = stream.push_row(&row).unwrap() {
            assert!(chunk.len() >= CHUNK_SIZE);
            assert!(chunk.len() < CHUNK_SIZE + text.len() + 10);
            assert_eq!(chunk[chunk.len() - 2..], *b"\r\n");
            sent.extend_from_slice(&chunk);
            chunk_count += 1;
        }
    }
    let last = stream.finish().unwrap();
    assert!(last.len() < CHUNK_SIZE);
    sent.extend_from_slice(&last);
    assert_eq!(chunk_count, 5);
    assert_eq!(String::from_utf8(sent).unwrap(), export.finish());
}

#[test]
fn different_results_have_different_texts() {
    let document = |rows: &[[&str; 2]]| {
        let mut export = CsvExport::start(&["a", "b"]);
        for row in rows {
            let values = [ValueRef::text(row[0].as_bytes()), ValueRef::text(row[1].as_bytes())];
            assert_eq!(export.push_row(&values), Ok(()));
        }
        export.finish()
    };
    let texts = ["", ",", "\"", "\",\"", "a", "a,b", "\r\n"];
    let mut seen: Vec<String> = Vec::new();
    for left in texts {
        for right in texts {
            let text = document(&[[left, right]]);
            assert!(!seen.contains(&text));
            seen.push(text);
        }
    }
    assert_ne!(document(&[["a", "b"], ["c", "d"]]), document(&[["a", "b\r\nc,d"]]));
}
