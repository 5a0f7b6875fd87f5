use readql::db::{connection_count, stream_reply, ConnectionPool, Preparation};
use readql::error::AppError;
use readql::handlers::{
    format_query_for_logging, log_line, resolve_request, OutputFormat, QueryRequest, SqlParameters,
};
use readql::ui::{render_index, UiState};
use tokio_rusqlite::Connection;

#[test]
fn test_format_query_for_logging_basic() {
    assert_eq!(format_query_for_logging("SELECT * FROM users"), "SELECT * FROM users");
}

#[test]
fn test_format_query_for_logging_line_breaks_and_tabs() {
    let input = "SELECT\n    id,\n    name\nFROM\n    users\nWHERE\n    age > 20";
    assert_eq!(format_query_for_logging(input), "SELECT id, name FROM users WHERE age > 20");

    let input_crlf = "SELECT\r\n\tid,\r\n\tname\r\nFROM\r\n\tusers";
    assert_eq!(format_query_for_logging(input_crlf), "SELECT id, name FROM users");
}

#[test]
fn test_format_query_for_logging_extra_whitespace() {
    assert_eq!(
        format_query_for_logging("   SELECT    *    FROM    users   "),
        "SELECT * FROM users"
    );
}

#[test]
fn test_output_format_indicator() {
    assert_eq!(OutputFormat::Csv.indicator(), "C");
    assert_eq!(OutputFormat::Parquet.indicator(), "P");
}

#[test]
fn test_format_query_for_logging_empty_and_whitespace_only() {
    assert_eq!(format_query_for_logging(""), "");
    assert_eq!(format_query_for_logging("   \n\t\r\n   "), "");
}

#[test]
fn logging_splits_at_every_white_space() {
    let input = "a\u{a0}b\u{2003}c\u{85}d\u{200b}e\u{3000}";
    let expected: Vec<&str> = input.split_whitespace().collect();
    assert_eq!(format_query_for_logging(input), expected.join(" "));
    assert_eq!(format_query_for_logging(input), "a b c d\u{200b}e");
}

#[test]
fn logging_twice_changes_nothing() {
    let once = format_query_for_logging(" SELECT\t1 ,\n\n 2 ");
    assert_eq!(once, "SELECT 1 , 2");
    assert_eq!(format_query_for_logging(&once), once);
}

fn request(sql: Option<&str>, format: Option<&str>, accept: Option<&str>) -> Result<QueryRequest, AppError> {
    let parameters = SqlParameters { sql: sql.map(String::from), format: format.map(String::from) };
    resolve_request(&parameters, accept)
}

fn refusal(result: Result<QueryRequest, AppError>) -> String {
    match result {
        Ok(_) => panic!("not refused"),
        Err(error) => {
            let response = error.into_response();
            assert_eq!(response.status, 400);
            response.body
        }
    }
}

#[test]
fn a_request_needs_a_query() {
    let message = "Error: No SQL query provided\r\n";
    assert_eq!(refusal(request(None, None, None)), message);
    assert_eq!(refusal(request(Some(""), Some("csv"), None)), message);
    assert_eq!(refusal(request(Some(" \t\n"), Some("json"), None)), message);
}

#[test]
fn a_query_keeps_its_inner_white_space() {
    let resolved = request(Some("  SELECT 'hello   world' AS message\n"), None, None).unwrap();
    assert_eq!(resolved.sql, "SELECT 'hello   world' AS message");
    assert_eq!(resolved.format, OutputFormat::Csv);
}

#[test]
fn the_format_parameter_decides() {
    for name in ["csv", "CSV", "cSv"] {
        let resolved = request(Some("SELECT 1"), Some(name), Some("parquet")).unwrap();
        assert_eq!(resolved.format, OutputFormat::Csv);
    }
    for name in ["parquet", "Parquet", "pq", "PQ"] {
        let resolved = request(Some("SELECT 1"), Some(name), Some("text/csv")).unwrap();
        assert_eq!(resolved.format, OutputFormat::Parquet);
    }
}

#[test]
fn an_unsupported_format_is_refused() {
    assert_eq!(
        refusal(request(Some("SELECT 1"), Some("json"), None)),
        "Error: Unsupported format 'json'. Supported formats are 'csv' and 'parquet'.\r\n"
    );
    assert_eq!(
        refusal(request(Some("SELECT 1"), Some(""), Some("parquet"))),
        "Error: Unsupported format ''. Supported formats are 'csv' and 'parquet'.\r\n"
    );
}

#[test]
fn the_accept_header_decides_otherwise() {
    let format = |accept| request(Some("SELECT 1"), None, accept).unwrap().format;
    assert_eq!(format(None), OutputFormat::Csv);
    assert_eq!(format(Some("*/*")), OutputFormat::Csv);
    assert_eq!(format(Some(OutputFormat::Csv.content_type())), OutputFormat::Csv);
    assert_eq!(format(Some(OutputFormat::Parquet.content_type())), OutputFormat::Parquet);
    assert_eq!(format(Some("text/html, x/parquet;q=0.5")), OutputFormat::Parquet);
    assert_eq!(format(Some("PARQUET")), OutputFormat::Csv);
}

#[test]
fn the_default_format_is_csv() {
    assert_eq!(OutputFormat::default(), OutputFormat::Csv);
    assert_eq!(OutputFormat::Csv.content_type(), "text/csv; charset=utf-8");
    assert_eq!(OutputFormat::Parquet.content_type(), "application/vnd.apache.parquet");
}

#[test]
fn what_is_logged_of_a_request() {
    let resolved = request(Some("SELECT\n  1"), Some("pq"), None).unwrap();
    assert_eq!(log_line("127.0.0.1", &resolved), "127.0.0.1 | P | SELECT 1");
}

#[test]
fn errors_and_their_responses() {
    let response = AppError::BadRequest("no".to_string()).into_response();
    assert_eq!((response.status, response.body.as_str()), (400, "no"));
    let response = AppError::Database("Closed".to_string()).into_response();
    assert_eq!((response.status, response.body.as_str()), (500, "DB Query error: Closed\r\n"));
}

#[test]
fn replies_to_a_preparation() {
    let message = |format, preparation| match stream_reply(format, preparation) {
        Err(AppError::BadRequest(message)) => message,
        _ => panic!("not refused"),
    };
    assert!(stream_reply(OutputFormat::Csv, Preparation::Prepared).is_ok());
    assert!(stream_reply(OutputFormat::Parquet, Preparation::Prepared).is_ok());
    assert_eq!(
        message(OutputFormat::Csv, Preparation::Refused("no such table: t".to_string())),
        "SQL query error: no such table: t\r\n"
    );
    assert_eq!(
        message(OutputFormat::Parquet, Preparation::Refused("x".to_string())),
        "SQL query error: x\r\n"
    );
    assert_eq!(
        message(OutputFormat::Csv, Preparation::Lost),
        "Failed to initialize query stream\r\n"
    );
    assert_eq!(
        message(OutputFormat::Parquet, Preparation::Lost),
        "Failed to initialize Parquet query stream\r\n"
    );
}

#[test]
fn test_connection_pool_round_robin() {
    let runtime = tokio::runtime::Builder::new_current_thread().build().unwrap();
    let first_connection = runtime.block_on(Connection::open_in_memory()).unwrap();
    let second_connection = runtime.block_on(Connection::open_in_memory()).unwrap();

    let connection_pool = ConnectionPool::new(vec![first_connection, second_connection]);
    assert_eq!(connection_pool.size(), 2);
    assert!(!connection_pool.is_empty());

    let _first_acquired = connection_pool.get_connection();
    let _second_acquired = connection_pool.get_connection();
    let _third_acquired = connection_pool.get_connection();
}

#[test]
fn handles_of_a_pool_share_its_turns() {
    let pool = ConnectionPool::new(vec![10, 20, 30]);
    let other = pool.clone();
    assert_eq!(pool.get_connection(), 10);
    assert_eq!(other.get_connection(), 20);
    assert_eq!(pool.get_connection(), 30);
    assert_eq!(other.get_connection(), 10);
    assert_eq!(*pool.connection_at(7), 20);
    assert!(ConnectionPool::<u8>::new(Vec::new()).is_empty());
}

#[test]
fn how_many_connections_a_pool_has() {
    assert_eq!(connection_count(3, Some(8)), 3);
    assert_eq!(connection_count(0, Some(8)), 8);
    assert_eq!(connection_count(0, None), 1);
}

#[test]
fn the_page_knows_the_port() {
    let state = UiState { api_port: 8002 };
    assert_eq!(
        render_index("<a>{{API_PORT}}</a>{{{API_PORT}}}{{API_PORT", &state),
        "<a>8002</a>{8002}{{API_PORT"
    );
    assert_eq!(render_index("none", &UiState { api_port: 0 }), "none");
    assert_eq!(render_index("{{API_PORT}}", &UiState { api_port: 65535 }), "65535");
}
