//! What an HTTP request asks for, and what is logged of it.

use crate::error::AppError;
use crate::text::{
    contains, contains_text, eq_ignore_case, joined, lemma_joined_tidy, lemma_words_of_joined,
    lemma_words_solid, occurs_at, same_but_case, tidy, trim, trimmed, words, words_on_one_line,
};
use vstd::prelude::*;

verus! {

/// Supported query output formats.
#[derive(Debug, Clone, Copy, PartialEq, Eq, Structural)]
pub enum OutputFormat {
    /// RFC 4180 CSV text format.
    Csv,
    /// Apache Parquet binary columnar format.
    Parquet,
}

impl Default for OutputFormat {
    fn default() -> (r: OutputFormat)
        ensures
            r == OutputFormat::Csv,
    {
        OutputFormat::Csv
    }
}

impl OutputFormat {
    /// Returns the HTTP `Content-Type` corresponding to the output format.
    pub fn content_type(&self) -> (r: &'static str)
        ensures
            r@ == (match *self {
                OutputFormat::Csv => "text/csv; charset=utf-8"@,
                OutputFormat::Parquet => "application/vnd.apache.parquet"@,
            }),
    {
        match self {
            OutputFormat::Csv => "text/csv; charset=utf-8",
            OutputFormat::Parquet => "application/vnd.apache.parquet",
        }
    }

    /// Returns the single-character indicator for structured query logging.
    pub fn indicator(&self) -> (r: &'static str)
        ensures
            r@ == (match *self {
                OutputFormat::Csv => "C"@,
                OutputFormat::Parquet => "P"@,
            }),
    {
        match self {
            OutputFormat::Csv => "C",
            OutputFormat::Parquet => "P",
        }
    }
}

/// Query parameters extracted from the HTTP request URL.
pub struct SqlParameters {
    /// The SQL query string to execute.
    pub sql: Option<String>,
    /// Optional response output format (`csv` or `parquet`).
    pub format: Option<String>,
}

/// A text on one line: its words, separated by single spaces.
pub open spec fn one_line(text: Seq<char>) -> Seq<char> {
    joined(words(text), seq![' '])
}

/// Formats a SQL query as a single line for structured logging without mutating the underlying SQL query.
pub fn format_query_for_logging(sql_query: &str) -> (r: String)
    ensures
        r@ == one_line(sql_query@),
{
    words_on_one_line(sql_query)
}

/// The format that the `format` parameter asks for: either by its name, or Parquet
/// by its short name, in any case of letters.
pub open spec fn named_format(name: Seq<char>) -> Option<OutputFormat> {
    if same_but_case(name, "csv"@) {
        Some(OutputFormat::Csv)
    } else if same_but_case(name, "parquet"@) || same_but_case(name, "pq"@) {
        Some(OutputFormat::Parquet)
    } else {
        None
    }
}

/// The format that an `Accept` header asks for: Parquet where it mentions it, and
/// CSV otherwise.
pub open spec fn accepted_format(accept: Option<Seq<char>>) -> OutputFormat {
    match accept {
        Some(types) => if contains(types, "parquet"@) {
            OutputFormat::Parquet
        } else {
            OutputFormat::Csv
        },
        None => OutputFormat::Csv,
    }
}

/// The format of the response: what the parameter asks for, or else what the
/// `Accept` header does.
pub open spec fn requested_format(
    format: Option<Seq<char>>,
    accept: Option<Seq<char>>,
) -> Option<OutputFormat> {
    match format {
        Some(name) => named_format(name),
        None => Some(accepted_format(accept)),
    }
}

/// What a request without a query is told.
pub open spec fn no_query_message() -> Seq<char> {
    "Error: No SQL query provided\r\n"@
}

/// What a request for another format is told.
pub open spec fn unsupported_format_message(name: Seq<char>) -> Seq<char> {
    "Error: Unsupported format '"@ + name
        + "'. Supported formats are 'csv' and 'parquet'.\r\n"@
}

/// A query to execute.
pub struct QueryRequest {
    /// The SQL query.
    pub sql: String,
    /// The format of the response.
    pub format: OutputFormat,
}

/// The text of a parameter.
pub open spec fn parameter(value: Option<String>) -> Option<Seq<char>> {
    match value {
        Some(text) => Some(text@),
        None => None,
    }
}

/// The query of a request, without the white space around it.
pub open spec fn requested_query(sql: Option<Seq<char>>) -> Seq<char> {
    match sql {
        Some(text) => trimmed(text),
        None => seq![],
    }
}

/// Decides what a request asks for. `accept` is the text of its `Accept` header.
///
/// A request without a query is refused first, and one for an unsupported format
/// next.
pub fn resolve_request(parameters: &SqlParameters, accept: Option<&str>) -> (r: Result<
    QueryRequest,
    AppError,
>)
    ensures
        ({
            let query = requested_query(parameter(parameters.sql));
            let format = requested_format(
                parameter(parameters.format),
                match accept {
                    Some(types) => Some(types@),
                    None => None,
                },
            );
            if query.len() == 0 {
                r matches Err(error) && error matches AppError::BadRequest(message) && message@
                    == no_query_message()
            } else if format is None {
                r matches Err(error) && error matches AppError::BadRequest(message) && message@
                    == unsupported_format_message(parameters.format->Some_0@)
            } else {
                r matches Ok(request) && request.sql@ == query && request.format
                    == format->Some_0
            }
        }),
{
    let sql: String = match &parameters.sql {
        Some(text) => trim(text.as_str()),
        None => String::new(),
    };
    if sql.as_str().is_empty() {
        return Err(AppError::BadRequest("Error: No SQL query provided\r\n".to_owned()));
    }
    let format: OutputFormat = match &parameters.format {
        None => match accept {
            Some(types) => if contains_text(types, "parquet") {
                OutputFormat::Parquet
            } else {
                OutputFormat::Csv
            },
            None => OutputFormat::Csv,
        },
        Some(name) => {
            if eq_ignore_case(name.as_str(), "csv") {
                OutputFormat::Csv
            } else if eq_ignore_case(name.as_str(), "parquet") || eq_ignore_case(
                name.as_str(),
                "pq",
            ) {
                OutputFormat::Parquet
            } else {
                let mut message: String = String::new();
                message.push_str("Error: Unsupported format '");
                message.push_str(name.as_str());
                message.push_str("'. Supported formats are 'csv' and 'parquet'.\r\n");
                assert(message@ =~= unsupported_format_message(name@));
                return Err(AppError::BadRequest(message));
            }
        },
    };
    Ok(QueryRequest { sql, format })
}

/// What is logged of a request: the client, the format and the query on one line.
pub fn log_line(client_ip: &str, request: &QueryRequest) -> (r: String)
    ensures
        r@ == client_ip@ + " | "@ + (match request.format {
            OutputFormat::Csv => "C"@,
            OutputFormat::Parquet => "P"@,
        }) + " | "@ + one_line(request.sql@),
{
    let mut line: String = client_ip.to_owned();
    line.push_str(" | ");
    line.push_str(request.format.indicator());
    line.push_str(" | ");
    line.push_str(format_query_for_logging(request.sql.as_str()).as_str());
    line
}

// ---------------------------------------------------------------------------
// Laws
// ---------------------------------------------------------------------------

/// A logged query is on one line: its white space is single spaces between other
/// characters.
pub proof fn law_logged_query_is_tidy(sql: Seq<char>)
    ensures
        tidy(one_line(sql)),
{
    lemma_words_solid(sql);
    lemma_joined_tidy(words(sql));
}

/// A logged query has the words of the query, in order.
pub proof fn law_logged_query_keeps_words(sql: Seq<char>)
    ensures
        words(one_line(sql)) == words(sql),
{
    lemma_words_solid(sql);
    lemma_words_of_joined(words(sql));
}

/// To put a query on one line twice is to do so once.
pub proof fn law_one_line_is_stable(sql: Seq<char>)
    ensures
        one_line(one_line(sql)) == one_line(sql),
{
    law_logged_query_keeps_words(sql);
}

/// The `format` parameter decides, whatever the `Accept` header says.
pub proof fn law_parameter_decides(name: Seq<char>, accept: Option<Seq<char>>)
    ensures
        requested_format(Some(name), accept) == named_format(name),
{
}

/// Who accepts the content type of a format gets that format.
pub proof fn law_content_type_is_accepted(format: OutputFormat)
    ensures
        accepted_format(
            Some(
                match format {
                    OutputFormat::Csv => "text/csv; charset=utf-8"@,
                    OutputFormat::Parquet => "application/vnd.apache.parquet"@,
                },
            ),
        ) == format,
{
    reveal_strlit("parquet");
    match format {
        OutputFormat::Csv => {
            reveal_strlit("text/csv; charset=utf-8");
            let types = "text/csv; charset=utf-8"@;
            assert(forall|i: int| 0 <= i < types.len() ==> #[trigger] types[i] != 'p');
            assert forall|at: int| !occurs_at(types, "parquet"@, at) by {
                if occurs_at(types, "parquet"@, at) {
                    assert(types.subrange(at, at + "parquet"@.len())[0] == types[at]);
                }
            }
        },
        OutputFormat::Parquet => {
            reveal_strlit("application/vnd.apache.parquet");
            let types = "application/vnd.apache.parquet"@;
            assert(types.subrange(23, 30) =~= "parquet"@);
            assert(occurs_at(types, "parquet"@, 23));
        },
    }
}

} // verus!
