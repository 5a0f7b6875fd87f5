//! What requests ask for, and what they are told.

use crate::db::{connection_count, stream_reply, turn, ConnectionPool, Preparation};
use crate::error::{AppError, ErrorResponse};
use crate::handlers::{
    accepted_format, format_query_for_logging, log_line, named_format, one_line, resolve_request,
    OutputFormat, QueryRequest, SqlParameters,
};
use crate::laws::texts::{
    blank, holds_word, law_contains, law_replacing, law_same_but_case, law_trimming, spells,
    stands_at,
};
use crate::text::{decimal, law_trimming_keeps_the_rest, white_space};
use crate::ui::{page, render_index, UiState};
use crate::value::RowError;
use vstd::prelude::*;

verus! {

/// The query that is executed is a part of the `sql` parameter as it came: there is only
/// white space before it and after it, and none at its own ends.
pub proof fn law_query_is_part_of_the_parameter(
    parameters: &SqlParameters,
    accept: Option<&str>,
    r: Result<QueryRequest, AppError>,
) -> (ends: (int, int))
    requires
        call_ensures(resolve_request, (parameters, accept), r),
        r is Ok,
    ensures
        parameters.sql matches Some(text) && {
            &&& 0 <= ends.0 < ends.1 <= text@.len()
            &&& r->Ok_0.sql@ == text@.subrange(ends.0, ends.1)
            &&& forall|i: int|
                0 <= i < ends.0 || ends.1 <= i < text@.len() ==> white_space(#[trigger] text@[i])
            &&& !white_space(text@[ends.0])
            &&& !white_space(text@[ends.1 - 1])
        },
{
    law_trimming_keeps_the_rest(parameters.sql->Some_0@)
}

/// A query with white space around it is executed without that, and with all that is
/// between its first and its last other character.
pub proof fn law_query_without_white_space_around(
    parameters: &SqlParameters,
    accept: Option<&str>,
    r: Result<QueryRequest, AppError>,
    before: Seq<char>,
    query: Seq<char>,
    after: Seq<char>,
)
    requires
        call_ensures(resolve_request, (parameters, accept), r),
        parameters.sql matches Some(text) && text@ == before + query + after,
        blank(before),
        blank(after),
        query.len() > 0,
        !white_space(query[0]),
        !white_space(query.last()),
        parameters.format is None,
    ensures
        r matches Ok(request) && request.sql@ == query,
{
    law_trimming(before, query, after);
}

/// A request without the `sql` parameter, or with nothing but white space in it, is
/// refused, whatever else it asks for.
pub proof fn law_request_without_query(
    parameters: &SqlParameters,
    accept: Option<&str>,
    r: Result<QueryRequest, AppError>,
)
    requires
        call_ensures(resolve_request, (parameters, accept), r),
        parameters.sql matches Some(text) ==> blank(text@),
    ensures
        r matches Err(AppError::BadRequest(message)) && message@
            == "Error: No SQL query provided\r\n"@,
{
    if let Some(text) = parameters.sql {
        law_trimming(text@, seq![], seq![]);
        assert(text@ + seq![] + seq![] =~= text@);
    }
}

/// Whether a name is that of CSV.
pub open spec fn names_csv(name: Seq<char>) -> bool {
    spells(name, seq!['c', 's', 'v'])
}

/// Whether a name is one of Parquet.
pub open spec fn names_parquet(name: Seq<char>) -> bool {
    spells(name, seq!['p', 'a', 'r', 'q', 'u', 'e', 't']) || spells(name, seq!['p', 'q'])
}

proof fn lemma_named_format(name: Seq<char>)
    ensures
        named_format(name) == Some(OutputFormat::Csv) <==> names_csv(name),
        named_format(name) == Some(OutputFormat::Parquet) <==> names_parquet(name),
{
    reveal_strlit("csv");
    reveal_strlit("parquet");
    reveal_strlit("pq");
    assert("csv"@ =~= seq!['c', 's', 'v']);
    assert("parquet"@ =~= seq!['p', 'a', 'r', 'q', 'u', 'e', 't']);
    assert("pq"@ =~= seq!['p', 'q']);
    law_same_but_case(name, "csv"@);
    law_same_but_case(name, "parquet"@);
    law_same_but_case(name, "pq"@);
}

proof fn lemma_accepted_format(types: Seq<char>)
    ensures
        accepted_format(Some(types)) == OutputFormat::Parquet <==> holds_word(
            types,
            seq!['p', 'a', 'r', 'q', 'u', 'e', 't'],
        ),
{
    reveal_strlit("parquet");
    assert("parquet"@ =~= seq!['p', 'a', 'r', 'q', 'u', 'e', 't']);
    law_contains(types, "parquet"@);
}

/// A request with a query is answered in the format that its `format` parameter names, as
/// `csv`, `parquet` or `pq`, in capitals or not, and refused where that names no format,
/// with the name in the message. Without the parameter it is answered in Parquet where
/// the `Accept` header has that word, and else in CSV.
pub proof fn law_requested_formats(
    parameters: &SqlParameters,
    accept: Option<&str>,
    r: Result<QueryRequest, AppError>,
    at: int,
)
    requires
        call_ensures(resolve_request, (parameters, accept), r),
        parameters.sql matches Some(text) && 0 <= at < text@.len() && !white_space(text@[at]),
    ensures
        match parameters.format {
            Some(name) => {
                &&& names_csv(name@) ==> (r matches Ok(request) && request.format
                    == OutputFormat::Csv)
                &&& names_parquet(name@) ==> (r matches Ok(request) && request.format
                    == OutputFormat::Parquet)
                &&& !names_csv(name@) && !names_parquet(name@) ==> (r matches Err(
                    AppError::BadRequest(message),
                ) && message@ == "Error: Unsupported format '"@ + name@
                    + "'. Supported formats are 'csv' and 'parquet'.\r\n"@)
            },
            None => r matches Ok(request) && (request.format == OutputFormat::Parquet <==> (
            accept matches Some(types) && holds_word(
                types@,
                seq!['p', 'a', 'r', 'q', 'u', 'e', 't'],
            ))),
        },
{
    let text = parameters.sql->Some_0@;
    let ends = law_trimming_keeps_the_rest(text);
    assert(ends.0 <= at < ends.1);
    if let Some(name) = parameters.format {
        lemma_named_format(name@);
    } else if let Some(types) = accept {
        lemma_accepted_format(types@);
    }
}

/// CSV and Parquet are sent under their content types, and logged as C and P.
pub proof fn law_formats_are_told(format: OutputFormat, content: &'static str, mark: &'static str)
    requires
        call_ensures(OutputFormat::content_type, (&format,), content),
        call_ensures(OutputFormat::indicator, (&format,), mark),
    ensures
        format == OutputFormat::Csv ==> content@ == "text/csv; charset=utf-8"@ && mark@ == seq!['C'],
        format == OutputFormat::Parquet ==> content@ == "application/vnd.apache.parquet"@ && mark@
            == seq!['P'],
{
    reveal_strlit("C");
    reveal_strlit("P");
    assert("C"@ =~= seq!['C']);
    assert("P"@ =~= seq!['P']);
}

/// The log line of a request is the client, the mark of the format and the query on one
/// line, with bars between them.
pub proof fn law_log_lines(client_ip: &str, request: &QueryRequest, line: String)
    requires
        call_ensures(log_line, (client_ip, request), line),
    ensures
        line@ == client_ip@ + seq![' ', '|', ' ', match request.format {
            OutputFormat::Csv => 'C',
            OutputFormat::Parquet => 'P',
        }, ' ', '|', ' '] + one_line(request.sql@),
{
    reveal_strlit(" | ");
    reveal_strlit("C");
    reveal_strlit("P");
    let mark = match request.format {
        OutputFormat::Csv => "C"@,
        OutputFormat::Parquet => "P"@,
    };
    assert(" | "@ + mark + " | "@ =~= seq![' ', '|', ' ', match request.format {
        OutputFormat::Csv => 'C',
        OutputFormat::Parquet => 'P',
    }, ' ', '|', ' ']);
    assert(line@ =~= client_ip@ + (" | "@ + mark + " | "@) + one_line(request.sql@));
}

/// What is logged of a query by itself is the query on one line, too.
pub proof fn law_logged_queries(sql: &str, line: String)
    requires
        call_ensures(format_query_for_logging, (sql,), line),
    ensures
        line@ == one_line(sql@),
{
}

/// A bad request is answered with status 400 and its message, and a failure of the
/// database with status 500 and what failed.
pub proof fn law_error_responses(error: AppError, r: ErrorResponse)
    requires
        call_ensures(AppError::into_response, (error,), r),
    ensures
        error matches AppError::BadRequest(message) ==> r.status == 400 && r.body@ == message@,
        error matches AppError::Database(text) ==> r.status == 500 && r.body@
            == "DB Query error: "@ + text@ + "\r\n"@,
{
}

/// A query that was prepared is answered with a stream. One that was refused is told why,
/// word for word, and one whose connection went away that its stream could not begin.
pub proof fn law_stream_replies(
    format: OutputFormat,
    preparation: Preparation,
    r: Result<(), AppError>,
)
    requires
        call_ensures(stream_reply, (format, preparation), r),
    ensures
        r is Ok <==> preparation is Prepared,
        preparation matches Preparation::Refused(error) ==> (r matches Err(AppError::BadRequest(
            message,
        )) && message@ == "SQL query error: "@ + error@ + "\r\n"@),
        preparation is Lost ==> (r matches Err(AppError::BadRequest(message)) && message@ == (
        match format {
            OutputFormat::Csv => "Failed to initialize query stream\r\n"@,
            OutputFormat::Parquet => "Failed to initialize Parquet query stream\r\n"@,
        })),
{
}

/// A pool has as many connections as it is asked for, and where it is asked for none, as
/// many as there are threads, or one where that is not known.
pub proof fn law_pool_sizes(asked: usize, threads: Option<usize>, r: usize)
    requires
        call_ensures(connection_count, (asked, threads), r),
    ensures
        asked > 0 ==> r == asked,
        asked == 0 ==> (threads matches Some(count) ==> r == count),
        asked == 0 && threads is None ==> r == 1,
{
}

/// Turns begin with the first connection, go on with the next one, and begin anew after
/// the last.
pub proof fn law_turns(ticket: nat, size: nat)
    requires
        size > 0,
    ensures
        turn(0, size) == 0,
        turn(ticket, size) < size,
        turn(ticket + 1, size) == (if turn(ticket, size) + 1 == size {
            0
        } else {
            turn(ticket, size) + 1
        }),
{
    let round = ticket as int / size as int;
    let at = ticket as int % size as int;
    vstd::arithmetic::div_mod::lemma_fundamental_div_mod(ticket as int, size as int);
    vstd::arithmetic::div_mod::lemma_mod_bound(ticket as int, size as int);
    assert(size * round == round * size) by (nonlinear_arith);
    if at + 1 == size {
        assert((round + 1) * size == round * size + size) by (nonlinear_arith);
        vstd::arithmetic::div_mod::lemma_fundamental_div_mod_converse(
            (ticket + 1) as int,
            size as int,
            round + 1,
            0,
        );
    } else {
        vstd::arithmetic::div_mod::lemma_fundamental_div_mod_converse(
            (ticket + 1) as int,
            size as int,
            round,
            at + 1,
        );
    }
    vstd::arithmetic::div_mod::lemma_small_mod(0, size);
}

/// A row without a value for some column is told by the index of the column.
pub proof fn law_row_errors(index: usize, r: String)
    requires
        call_ensures(RowError::message, (&RowError::InvalidColumnIndex(index),), r),
    ensures
        r@ == "Invalid column index: "@ + decimal(index as nat),
{
}

/// The page of the web UI has the digits of the port where its template has the mark, and
/// is otherwise the template.
pub proof fn law_page(template: Seq<char>, port: u16, at: int)
    ensures
        !holds_word(template, "{{API_PORT}}"@) ==> page(template, port) == template,
        stands_at(template, "{{API_PORT}}"@, at) && (forall|i: int|
            0 <= i < at ==> !(#[trigger] stands_at(template, "{{API_PORT}}"@, i))) ==> page(
            template,
            port,
        ) == template.take(at) + decimal(port as nat) + page(template.skip(at + 12), port),
{
    reveal_strlit("{{API_PORT}}");
    law_replacing(template, "{{API_PORT}}"@, decimal(port as nat), at);
}

/// The page that is made is that of the template and the port.
pub proof fn law_rendered_page(template: &str, state: &UiState, r: String, at: int)
    requires
        call_ensures(render_index, (template, state), r),
    ensures
        !holds_word(template@, "{{API_PORT}}"@) ==> r@ == template@,
        stands_at(template@, "{{API_PORT}}"@, at) && (forall|i: int|
            0 <= i < at ==> !(#[trigger] stands_at(template@, "{{API_PORT}}"@, i))) ==> r@
            == template@.take(at) + decimal(state.api_port as nat) + page(
            template@.skip(at + 12),
            state.api_port,
        ),
{
    law_page(template@, state.api_port, at);
}

/// A pool keeps its connections in order, tells how many there are, and gives for a ticket
/// the one whose turn it is.
pub proof fn law_pools<C>(
    connections: Vec<C>,
    pool: ConnectionPool<C>,
    size: usize,
    empty: bool,
    ticket: usize,
    given: &C,
)
    requires
        call_ensures(ConnectionPool::<C>::new, (connections,), pool),
        call_ensures(ConnectionPool::<C>::size, (&pool,), size),
        call_ensures(ConnectionPool::<C>::is_empty, (&pool,), empty),
        connections@.len() > 0,
        call_ensures(ConnectionPool::<C>::connection_at, (&pool, ticket), given),
    ensures
        pool@ == connections@,
        size == connections@.len(),
        !empty,
        *given == connections@[ticket as int % connections@.len() as int],
{
}

/// The format of a response is CSV unless another is asked for.
pub proof fn law_default_format(r: OutputFormat)
    requires
        call_ensures(<OutputFormat as Default>::default, (), r),
    ensures
        r == OutputFormat::Csv,
{
}

} // verus!
