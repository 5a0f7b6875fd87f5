//! Server-wide throughput and performance statistics.

use crate::clients::{
    credited, known, lemma_total_remove, total, ClientAddress, ClientTable, ClientView, Quantity,
    Visit,
};
use crate::text::{digit, eq_ignore_case, same_but_case, to_uppercase, uppercase};
use std::collections::VecDeque;
use vstd::prelude::*;

verus! {

/// How many seconds the rolling history covers.
pub const RING_BUFFER_SIZE: usize = 60;

/// How many of the latest queries are kept.
pub const MAX_RECENT_QUERIES: usize = 30;

/// How many of the latest seconds the current rates are taken over.
pub const RATE_WINDOW: usize = 5;

/// A point in time.
#[derive(Debug, Clone, Copy, PartialEq, Eq, Structural)]
pub struct Moment {
    /// The time of day, in seconds since 1970.
    pub unix_sec: u64,
    /// The time since the start of the server, in nanoseconds.
    pub uptime_ns: u64,
}

/// Data describing a completed query request event.
#[derive(Debug, Clone, Copy)]
pub struct RequestEvent<'a> {
    /// The address of the client.
    pub client: ClientAddress,
    /// That address in its usual notation.
    pub client_ip: &'a str,
    /// The indicator of the output format.
    pub format_indicator: &'a str,
    /// How long the request took, in microseconds.
    pub duration_us: u128,
    /// The HTTP status of the response.
    pub status: u16,
    /// How many bytes were sent.
    pub bytes_sent: u64,
    /// How many rows were sent.
    pub rows_streamed: u64,
    /// The query.
    pub sql_query: &'a str,
}

/// Totals since the start of the server. They wrap around.
#[derive(Debug, Clone, Copy, PartialEq, Eq, Structural)]
pub struct Counters {
    /// Requests that were started.
    pub total_requests: u64,
    /// Requests that were answered.
    pub successful_requests: u64,
    /// Requests that were refused.
    pub failed_requests: u64,
    /// Requests that were started and not completed.
    pub active_requests: usize,
    /// Bytes of CSV that were sent.
    pub total_bytes_csv: u64,
    /// Bytes of Parquet that were sent.
    pub total_bytes_parquet: u64,
    /// Rows that were sent.
    pub total_rows_streamed: u64,
    /// How long the completed requests took, in microseconds.
    pub total_duration_us: u64,
}

/// One second of the rolling history: what was completed in it.
#[derive(Debug, Clone, Copy, PartialEq, Eq, Structural)]
pub struct HistoryPoint {
    /// The second, since 1970.
    pub timestamp_sec: u64,
    /// How many requests were completed.
    pub requests: u32,
    /// How many bytes they sent.
    pub bytes: u64,
    /// How many rows they sent.
    pub rows: u64,
    /// How long they took, in microseconds.
    pub duration_us: u64,
}

/// A completed query.
#[derive(Debug)]
pub struct RecentQueryLog {
    /// The time of day at which it was completed.
    pub timestamp: String,
    /// The address of the client.
    pub client_ip: String,
    /// The indicator of the output format, in capitals.
    pub format: String,
    /// How long it took, in microseconds.
    pub duration_us: u64,
    /// How many bytes were sent.
    pub bytes: u64,
    /// The HTTP status of the response.
    pub status: u16,
    /// The query.
    pub sql: String,
}

/// What a [`RecentQueryLog`] says.
pub struct QueryView {
    /// The time of day at which it was completed.
    pub timestamp: Seq<char>,
    /// The address of the client.
    pub client_ip: Seq<char>,
    /// The indicator of the output format, in capitals.
    pub format: Seq<char>,
    /// How long it took, in microseconds.
    pub duration_us: u64,
    /// How many bytes were sent.
    pub bytes: u64,
    /// The HTTP status of the response.
    pub status: u16,
    /// The query.
    pub sql: Seq<char>,
}

impl View for RecentQueryLog {
    type V = QueryView;

    open spec fn view(&self) -> QueryView {
        QueryView {
            timestamp: self.timestamp@,
            client_ip: self.client_ip@,
            format: self.format@,
            duration_us: self.duration_us,
            bytes: self.bytes,
            status: self.status,
            sql: self.sql@,
        }
    }
}

impl RecentQueryLog {
    /// A copy of the entry.
    pub fn duplicate(&self) -> (r: RecentQueryLog)
        ensures
            r@ == self@,
    {
        RecentQueryLog {
            timestamp: self.timestamp.clone(),
            client_ip: self.client_ip.clone(),
            format: self.format.clone(),
            duration_us: self.duration_us,
            bytes: self.bytes,
            status: self.status,
            sql: self.sql.clone(),
        }
    }
}

// ---------------------------------------------------------------------------
// Time of day
// ---------------------------------------------------------------------------

/// A number below one hundred in two digits.
pub open spec fn two_digits(n: nat) -> Seq<char> {
    seq![digit(n / 10), digit(n % 10)]
}

/// The time of day, in hours, minutes and seconds.
pub open spec fn time_of_day(unix_sec: u64) -> Seq<char> {
    two_digits(((unix_sec / 3600) % 24) as nat) + seq![':'] + two_digits(
        ((unix_sec / 60) % 60) as nat,
    ) + seq![':'] + two_digits((unix_sec % 60) as nat)
}

fn push_two_digits(out: &mut String, n: u64)
    requires
        n < 100,
    ensures
        final(out)@ == old(out)@ + two_digits(n as nat),
{
    out.push((('0' as u8) + (n / 10) as u8) as char);
    out.push((('0' as u8) + (n % 10) as u8) as char);
    assert(out@ =~= old(out)@ + two_digits(n as nat));
}

/// Writes the time of day of a second since 1970.
pub fn format_time_hms(unix_sec: u64) -> (r: String)
    ensures
        r@ == time_of_day(unix_sec),
{
    let mut out: String = String::new();
    push_two_digits(&mut out, (unix_sec / 3600) % 24);
    out.push(':');
    push_two_digits(&mut out, (unix_sec / 60) % 60);
    out.push(':');
    push_two_digits(&mut out, unix_sec % 60);
    assert(out@ =~= time_of_day(unix_sec));
    out
}

// ---------------------------------------------------------------------------
// What a request changes
// ---------------------------------------------------------------------------

/// What an event says, apart from the addresses and the query.
pub struct Completion {
    /// Whether Parquet was sent, rather than CSV.
    pub parquet: bool,
    /// The HTTP status of the response.
    pub status: u16,
    /// How many bytes were sent.
    pub bytes: u64,
    /// How many rows were sent.
    pub rows: u64,
    /// How long the request took, in microseconds.
    pub duration_us: u64,
}

impl Completion {
    /// How much the request adds to what is counted.
    pub open spec fn amount(self, quantity: Quantity) -> u64 {
        match quantity {
            Quantity::Requests => 1,
            Quantity::Bytes => self.bytes,
            Quantity::Rows => self.rows,
            Quantity::Duration => self.duration_us,
        }
    }
}

impl<'a> RequestEvent<'a> {
    /// What the event counts as. The indicator of Parquet is recognised in either
    /// case, and the duration keeps its lower 64 bits.
    pub open spec fn completion(self) -> Completion {
        Completion {
            parquet: same_but_case(self.format_indicator@, "P"@),
            status: self.status,
            bytes: self.bytes_sent,
            rows: self.rows_streamed,
            duration_us: self.duration_us as u64,
        }
    }
}

impl Counters {
    /// The totals after a request was started.
    pub open spec fn started(self) -> Counters {
        Counters {
            total_requests: self.total_requests.wrapping_add(1),
            active_requests: self.active_requests.wrapping_add(1),
            ..self
        }
    }

    /// The totals after a request was completed.
    pub open spec fn completed(self, completion: Completion) -> Counters {
        Counters {
            total_requests: self.total_requests,
            successful_requests: if completion.status < 400 {
                self.successful_requests.wrapping_add(1)
            } else {
                self.successful_requests
            },
            failed_requests: if completion.status < 400 {
                self.failed_requests
            } else {
                self.failed_requests.wrapping_add(1)
            },
            active_requests: self.active_requests.wrapping_sub(1),
            total_bytes_csv: if completion.parquet {
                self.total_bytes_csv
            } else {
                self.total_bytes_csv.wrapping_add(completion.bytes)
            },
            total_bytes_parquet: if completion.parquet {
                self.total_bytes_parquet.wrapping_add(completion.bytes)
            } else {
                self.total_bytes_parquet
            },
            total_rows_streamed: self.total_rows_streamed.wrapping_add(completion.rows),
            total_duration_us: self.total_duration_us.wrapping_add(completion.duration_us),
        }
    }
}

/// A second in which nothing was completed.
pub open spec fn quiet(second: u64) -> HistoryPoint {
    HistoryPoint { timestamp_sec: second, requests: 0, bytes: 0, rows: 0, duration_us: 0 }
}

/// The place of a second in the ring.
pub open spec fn slot(second: u64) -> int {
    (second % (RING_BUFFER_SIZE as u64)) as int
}

/// What the ring says of a second: nothing was completed in a second that is not
/// in its place.
pub open spec fn shown(buckets: Seq<HistoryPoint>, second: u64) -> HistoryPoint {
    if buckets[slot(second)].timestamp_sec == second {
        buckets[slot(second)]
    } else {
        quiet(second)
    }
}

/// A second with one more request.
pub open spec fn with_request(bucket: HistoryPoint, completion: Completion) -> HistoryPoint {
    HistoryPoint {
        timestamp_sec: bucket.timestamp_sec,
        requests: bucket.requests.wrapping_add(1),
        bytes: bucket.bytes.wrapping_add(completion.bytes),
        rows: bucket.rows.wrapping_add(completion.rows),
        duration_us: bucket.duration_us.wrapping_add(completion.duration_us),
    }
}

/// The ring after a request was completed.
pub open spec fn ring_after(
    buckets: Seq<HistoryPoint>,
    second: u64,
    completion: Completion,
) -> Seq<HistoryPoint> {
    buckets.update(slot(second), with_request(shown(buckets, second), completion))
}

/// The log after a query was completed: the latest comes first, and no more are
/// kept than may be.
pub open spec fn log_after(recent: Seq<QueryView>, entry: QueryView) -> Seq<QueryView> {
    seq![entry] + (if recent.len() >= MAX_RECENT_QUERIES {
        recent.drop_last()
    } else {
        recent
    })
}

/// What the statistics say.
pub struct MetricsView {
    /// The totals.
    pub counters: Counters,
    /// The ring of seconds.
    pub buckets: Seq<HistoryPoint>,
    /// The clients.
    pub clients: Map<ClientAddress, ClientView>,
    /// The latest queries, the latest first.
    pub recent: Seq<QueryView>,
}

/// The statistics after a request was completed.
pub open spec fn recorded<'a>(
    metrics: MetricsView,
    event: RequestEvent<'a>,
    now: Moment,
) -> MetricsView {
    let completion = event.completion();
    MetricsView {
        counters: metrics.counters.completed(completion),
        buckets: ring_after(metrics.buckets, now.unix_sec, completion),
        clients: metrics.clients.insert(
            event.client,
            credited(
                known(metrics.clients, event.client),
                event.client_ip@,
                Visit {
                    bytes: completion.bytes,
                    rows: completion.rows,
                    duration_us: completion.duration_us,
                    ended_ns: now.uptime_ns,
                },
            ),
        ),
        recent: log_after(
            metrics.recent,
            QueryView {
                timestamp: time_of_day(now.unix_sec),
                client_ip: event.client_ip@,
                format: uppercase(event.format_indicator@),
                duration_us: completion.duration_us,
                bytes: completion.bytes,
                status: completion.status,
                sql: event.sql_query@,
            },
        ),
    }
}

/// Metrics tracker for server-wide throughput and performance statistics.
pub struct ServerMetrics {
    counters: Counters,
    buckets: Vec<HistoryPoint>,
    clients: ClientTable,
    recent_queries: VecDeque<RecentQueryLog>,
}

impl View for ServerMetrics {
    type V = MetricsView;

    closed spec fn view(&self) -> MetricsView {
        MetricsView {
            counters: self.counters,
            buckets: self.buckets@,
            clients: self.clients@,
            recent: self.recent_queries@.map_values(|entry: RecentQueryLog| entry@),
        }
    }
}

/// At how many a count begins anew.
pub open spec fn count_range() -> int {
    0x1_0000_0000_0000_0000
}

impl Counters {
    /// How much was counted of the requests that were completed.
    pub open spec fn amount(self, quantity: Quantity) -> u64 {
        match quantity {
            Quantity::Requests => self.successful_requests.wrapping_add(self.failed_requests),
            Quantity::Bytes => self.total_bytes_csv.wrapping_add(self.total_bytes_parquet),
            Quantity::Rows => self.total_rows_streamed,
            Quantity::Duration => self.total_duration_us,
        }
    }
}

impl MetricsView {
    /// Whether what was counted of the clients adds up to the totals. Both wrap
    /// around.
    pub open spec fn adds_up(self) -> bool {
        &&& self.clients.dom().finite()
        &&& forall|quantity: Quantity| #[trigger]
            total(self.clients, quantity) as int % count_range() == self.counters.amount(quantity)
    }

    /// Whether the ring and the log have their sizes, and the clients add up to the
    /// totals.
    pub open spec fn valid(self) -> bool {
        &&& self.buckets.len() == RING_BUFFER_SIZE
        &&& self.recent.len() <= MAX_RECENT_QUERIES
        &&& self.adds_up()
    }

    /// The statistics at the start.
    pub open spec fn initial() -> MetricsView {
        MetricsView {
            counters: Counters {
                total_requests: 0,
                successful_requests: 0,
                failed_requests: 0,
                active_requests: 0,
                total_bytes_csv: 0,
                total_bytes_parquet: 0,
                total_rows_streamed: 0,
                total_duration_us: 0,
            },
            buckets: Seq::new(RING_BUFFER_SIZE as nat, |i: int| quiet(0)),
            clients: Map::empty(),
            recent: seq![],
        }
    }
}

impl Default for ServerMetrics {
    fn default() -> (r: ServerMetrics)
        ensures
            r@ == MetricsView::initial(),
            r@.valid(),
    {
        ServerMetrics::new()
    }
}

impl ServerMetrics {
    /// Creates a new `ServerMetrics` instance.
    pub fn new() -> (r: ServerMetrics)
        ensures
            r@ == MetricsView::initial(),
            r@.valid(),
    {
        let mut buckets: Vec<HistoryPoint> = Vec::with_capacity(RING_BUFFER_SIZE);
        let mut i: usize = 0;
        while i < RING_BUFFER_SIZE
            invariant
                i <= RING_BUFFER_SIZE,
                buckets@.len() == i,
                forall|j: int| 0 <= j < i ==> #[trigger] buckets@[j] == quiet(0),
            decreases RING_BUFFER_SIZE - i,
        {
            buckets.push(
                HistoryPoint { timestamp_sec: 0, requests: 0, bytes: 0, rows: 0, duration_us: 0 },
            );
            i = i + 1;
        }
        let metrics: ServerMetrics = ServerMetrics {
            counters: Counters {
                total_requests: 0,
                successful_requests: 0,
                failed_requests: 0,
                active_requests: 0,
                total_bytes_csv: 0,
                total_bytes_parquet: 0,
                total_rows_streamed: 0,
                total_duration_us: 0,
            },
            buckets,
            clients: ClientTable::new(),
            recent_queries: VecDeque::with_capacity(MAX_RECENT_QUERIES),
        };
        assert(metrics@.buckets =~= MetricsView::initial().buckets);
        assert(metrics@.recent =~= MetricsView::initial().recent);
        proof {
            lemma_no_clients_add_up();
        }
        metrics
    }

    /// The totals.
    pub fn counters(&self) -> (r: Counters)
        ensures
            r == self@.counters,
    {
        self.counters
    }

    /// Counts a request that was started.
    pub fn request_started(&mut self)
        ensures
            final(self)@ == (MetricsView { counters: old(self)@.counters.started(), ..old(self)@ }),
            old(self)@.valid() ==> final(self)@.valid(),
    {
        self.counters.total_requests = self.counters.total_requests.wrapping_add(1);
        self.counters.active_requests = self.counters.active_requests.wrapping_add(1);
    }

    /// Records the completion of a query request.
    pub fn record_request(&mut self, event: RequestEvent<'_>, now: Moment)
        requires
            old(self)@.valid(),
        ensures
            final(self)@ == recorded(old(self)@, event, now),
            final(self)@.valid(),
    {
        let ghost before = self@;
        let ghost completion = event.completion();
        let duration_us: u64 = #[verifier::truncate] (event.duration_us as u64);

        self.counters.active_requests = self.counters.active_requests.wrapping_sub(1);
        if event.status < 400 {
            self.counters.successful_requests = self.counters.successful_requests.wrapping_add(1);
        } else {
            self.counters.failed_requests = self.counters.failed_requests.wrapping_add(1);
        }
        if eq_ignore_case(event.format_indicator, "P") {
            self.counters.total_bytes_parquet =
            self.counters.total_bytes_parquet.wrapping_add(event.bytes_sent);
        } else {
            self.counters.total_bytes_csv =
            self.counters.total_bytes_csv.wrapping_add(event.bytes_sent);
        }
        self.counters.total_rows_streamed =
        self.counters.total_rows_streamed.wrapping_add(event.rows_streamed);
        self.counters.total_duration_us = self.counters.total_duration_us.wrapping_add(duration_us);

        let at: usize = (now.unix_sec % (RING_BUFFER_SIZE as u64)) as usize;
        let bucket: HistoryPoint = self.buckets[at];
        let next: HistoryPoint = if bucket.timestamp_sec != now.unix_sec {
            HistoryPoint {
                timestamp_sec: now.unix_sec,
                requests: 1,
                bytes: event.bytes_sent,
                rows: event.rows_streamed,
                duration_us,
            }
        } else {
            HistoryPoint {
                timestamp_sec: bucket.timestamp_sec,
                requests: bucket.requests.wrapping_add(1),
                bytes: bucket.bytes.wrapping_add(event.bytes_sent),
                rows: bucket.rows.wrapping_add(event.rows_streamed),
                duration_us: bucket.duration_us.wrapping_add(duration_us),
            }
        };
        assert(next == with_request(shown(before.buckets, now.unix_sec), completion));
        self.buckets.set(at, next);

        self.clients.record(
            event.client,
            event.client_ip,
            Visit {
                bytes: event.bytes_sent,
                rows: event.rows_streamed,
                duration_us,
                ended_ns: now.uptime_ns,
            },
        );

        if self.recent_queries.len() >= MAX_RECENT_QUERIES {
            self.recent_queries.pop_back();
        }
        self.recent_queries.push_front(
            RecentQueryLog {
                timestamp: format_time_hms(now.unix_sec),
                client_ip: event.client_ip.to_owned(),
                format: to_uppercase(event.format_indicator),
                duration_us,
                bytes: event.bytes_sent,
                status: event.status,
                sql: event.sql_query.to_owned(),
            },
        );
        assert(self@.recent =~= recorded(before, event, now).recent);
        assert(self@.buckets =~= recorded(before, event, now).buckets);
        proof {
            law_clients_add_up(before, event, now);
        }
    }
}

// ---------------------------------------------------------------------------
// Snapshots
// ---------------------------------------------------------------------------

/// What a client asked for, at some moment.
#[derive(Debug)]
pub struct ClientStats {
    /// The address of the client.
    pub address: ClientAddress,
    /// That address in its usual notation.
    pub ip: String,
    /// How many requests it made.
    pub requests: u64,
    /// How many bytes it was sent.
    pub bytes: u64,
    /// How many rows it was sent.
    pub rows: u64,
    /// How long its requests took, in microseconds.
    pub total_duration_us: u64,
    /// How long ago its last request ended, in milliseconds.
    pub last_seen_ms_ago: u64,
}

/// The whole milliseconds from one time to a later one, both in nanoseconds, and
/// none where the other is not later.
pub open spec fn ms_between(from_ns: u64, to_ns: u64) -> nat {
    if from_ns <= to_ns {
        ((to_ns - from_ns) / 1_000_000) as nat
    } else {
        0
    }
}

impl ClientStats {
    /// How much is shown of the client.
    pub open spec fn amount(&self, quantity: Quantity) -> u64 {
        match quantity {
            Quantity::Requests => self.requests,
            Quantity::Bytes => self.bytes,
            Quantity::Rows => self.rows,
            Quantity::Duration => self.total_duration_us,
        }
    }

    /// Whether this is what a client asked for, as of some time.
    pub open spec fn tells(&self, client: ClientView, now_ns: u64) -> bool {
        &&& self.ip@ == client.ip
        &&& self.requests == client.requests
        &&& self.bytes == client.bytes
        &&& self.rows == client.rows
        &&& self.total_duration_us == client.total_duration_us
        &&& self.last_seen_ms_ago == ms_between(client.last_seen_ns, now_ns)
    }
}

/// A point-in-time metrics snapshot for the dashboard.
#[derive(Debug)]
pub struct MetricsSnapshot {
    /// How long the server has been up.
    pub uptime_seconds: u64,
    /// Requests that were started.
    pub total_requests: u64,
    /// Requests that were answered.
    pub successful_requests: u64,
    /// Requests that were refused.
    pub failed_requests: u64,
    /// Requests that were started and not completed.
    pub active_requests: usize,
    /// Bytes that were sent in any format.
    pub total_bytes: u64,
    /// Bytes of CSV that were sent.
    pub total_bytes_csv: u64,
    /// Bytes of Parquet that were sent.
    pub total_bytes_parquet: u64,
    /// Rows that were sent.
    pub total_rows_streamed: u64,
    /// How long the completed requests took, in microseconds.
    pub total_duration_us: u64,
    /// Requests that were completed in the latest seconds.
    pub window_requests: u32,
    /// Bytes that were sent in the latest seconds.
    pub window_bytes: u64,
    /// Rows that were sent in the latest seconds.
    pub window_rows: u64,
    /// How many those latest seconds are.
    pub window_seconds: usize,
    /// The latest sixty seconds, the latest last.
    pub throughput_history_60s: Vec<HistoryPoint>,
    /// The clients, those with the most requests first.
    pub clients: Vec<ClientStats>,
    /// The latest queries, the latest first.
    pub recent_queries: Vec<RecentQueryLog>,
}

/// The second so many seconds before another, or the first of all.
pub open spec fn seconds_before(second: u64, count: int) -> u64 {
    if second >= count {
        (second - count) as u64
    } else {
        0
    }
}

/// The rolling history as of some second, which comes last.
pub open spec fn history(buckets: Seq<HistoryPoint>, now_sec: u64) -> Seq<HistoryPoint> {
    Seq::new(
        RING_BUFFER_SIZE as nat,
        |i: int| shown(buckets, seconds_before(now_sec, RING_BUFFER_SIZE - 1 - i)),
    )
}

/// The requests of some seconds together, which wrap around.
pub open spec fn requests_in(points: Seq<HistoryPoint>) -> u32
    decreases points.len(),
{
    if points.len() == 0 {
        0
    } else {
        requests_in(points.drop_last()).wrapping_add(points.last().requests)
    }
}

/// The bytes of some seconds together, which wrap around.
pub open spec fn bytes_in(points: Seq<HistoryPoint>) -> u64
    decreases points.len(),
{
    if points.len() == 0 {
        0
    } else {
        bytes_in(points.drop_last()).wrapping_add(points.last().bytes)
    }
}

/// The rows of some seconds together, which wrap around.
pub open spec fn rows_in(points: Seq<HistoryPoint>) -> u64
    decreases points.len(),
{
    if points.len() == 0 {
        0
    } else {
        rows_in(points.drop_last()).wrapping_add(points.last().rows)
    }
}

/// The latest seconds of the history.
pub open spec fn rate_window(points: Seq<HistoryPoint>) -> Seq<HistoryPoint> {
    points.skip(points.len() - RATE_WINDOW)
}

/// Whether a list tells of every client once, as of some time, those with the most
/// requests first.
pub open spec fn tells_all(
    list: Seq<ClientStats>,
    clients: Map<ClientAddress, ClientView>,
    now_ns: u64,
) -> bool {
    &&& forall|i: int|
        0 <= i < list.len() ==> clients.contains_key((#[trigger] list[i]).address)
            && list[i].tells(clients[list[i].address], now_ns)
    &&& forall|i: int, j: int|
        0 <= i < j < list.len() ==> (#[trigger] list[i]).address != (#[trigger] list[j]).address
    &&& forall|address: ClientAddress| #[trigger]
        clients.contains_key(address) ==> exists|i: int|
            0 <= i < list.len() && (#[trigger] list[i]).address == address
    &&& forall|i: int, j: int|
        0 <= i <= j < list.len() ==> (#[trigger] list[i]).requests >= (
        #[trigger] list[j]).requests
}

impl MetricsSnapshot {
    /// Whether this is what the statistics say at some moment.
    pub open spec fn tells(&self, metrics: MetricsView, now: Moment) -> bool {
        let points = history(metrics.buckets, now.unix_sec);
        &&& self.uptime_seconds == now.uptime_ns / 1_000_000_000
        &&& self.total_requests == metrics.counters.total_requests
        &&& self.successful_requests == metrics.counters.successful_requests
        &&& self.failed_requests == metrics.counters.failed_requests
        &&& self.active_requests == metrics.counters.active_requests
        &&& self.total_bytes_csv == metrics.counters.total_bytes_csv
        &&& self.total_bytes_parquet == metrics.counters.total_bytes_parquet
        &&& self.total_rows_streamed == metrics.counters.total_rows_streamed
        &&& self.total_duration_us == metrics.counters.total_duration_us
        &&& self.total_bytes == metrics.counters.total_bytes_csv.wrapping_add(
            metrics.counters.total_bytes_parquet,
        )
        &&& self.window_requests == requests_in(rate_window(points))
        &&& self.window_bytes == bytes_in(rate_window(points))
        &&& self.window_rows == rows_in(rate_window(points))
        &&& self.window_seconds == RATE_WINDOW
        &&& self.throughput_history_60s@ == points
        &&& tells_all(self.clients@, metrics.clients, now.uptime_ns)
        &&& self.recent_queries@.map_values(|entry: RecentQueryLog| entry@) == metrics.recent
    }
}

impl ServerMetrics {
    /// The rolling history as of some second.
    fn history_points(&self, now_sec: u64) -> (r: Vec<HistoryPoint>)
        requires
            self@.valid(),
        ensures
            r@ == history(self@.buckets, now_sec),
    {
        let mut points: Vec<HistoryPoint> = Vec::with_capacity(RING_BUFFER_SIZE);
        let mut i: usize = 0;
        while i < RING_BUFFER_SIZE
            invariant
                self@.valid(),
                i <= RING_BUFFER_SIZE,
                points@ == history(self@.buckets, now_sec).take(i as int),
            decreases RING_BUFFER_SIZE - i,
        {
            let offset: u64 = (RING_BUFFER_SIZE - 1 - i) as u64;
            let second: u64 = now_sec.saturating_sub(offset);
            assert(second == seconds_before(now_sec, RING_BUFFER_SIZE - 1 - i));
            let bucket: HistoryPoint = self.buckets[(second % (RING_BUFFER_SIZE as u64)) as usize];
            let point: HistoryPoint = if bucket.timestamp_sec == second {
                bucket
            } else {
                HistoryPoint { timestamp_sec: second, requests: 0, bytes: 0, rows: 0, duration_us: 0 }
            };
            points.push(point);
            assert(points@ =~= history(self@.buckets, now_sec).take(i + 1));
            i = i + 1;
        }
        assert(history(self@.buckets, now_sec).take(RING_BUFFER_SIZE as int) =~= history(
            self@.buckets,
            now_sec,
        ));
        points
    }

    /// What the clients asked for, as of some time.
    fn client_stats(&self, now_ns: u64) -> (r: Vec<ClientStats>)
        ensures
            tells_all(r@, self@.clients, now_ns),
    {
        let order: Vec<ClientAddress> = self.clients.ranked();
        let mut list: Vec<ClientStats> = Vec::with_capacity(order.len());
        let mut i: usize = 0;
        while i < order.len()
            invariant
                i <= order@.len(),
                list@.len() == i,
                forall|address: ClientAddress| #[trigger]
                    order@.contains(address) <==> self@.clients.contains_key(address),
                forall|j: int|
                    0 <= j < i ==> (#[trigger] list@[j]).address == order@[j] && list@[j].tells(
                        self@.clients[order@[j]],
                        now_ns,
                    ),
            decreases order@.len() - i,
        {
            let address: ClientAddress = order[i];
            assert(order@.contains(address));
            if let Some(client) = self.clients.get(address) {
                let elapsed_ns: u64 = now_ns.saturating_sub(client.last_seen_ns);
                list.push(
                    ClientStats {
                        address,
                        ip: client.ip.clone(),
                        requests: client.requests,
                        bytes: client.bytes,
                        rows: client.rows,
                        total_duration_us: client.total_duration_us,
                        last_seen_ms_ago: elapsed_ns / 1_000_000,
                    },
                );
            }
            i = i + 1;
        }
        assert forall|k: int| 0 <= k < list@.len() implies self@.clients.contains_key(
            (#[trigger] list@[k]).address,
        ) by {
            assert(order@.contains(order@[k]));
        }
        assert forall|address: ClientAddress| #[trigger]
            self@.clients.contains_key(address) implies exists|k: int|
            0 <= k < list@.len() && (#[trigger] list@[k]).address == address by {
            assert(order@.contains(address));
            let k = choose|k: int| 0 <= k < order@.len() && order@[k] == address;
            assert(list@[k].address == address);
        }
        list
    }

    /// The latest queries.
    fn recent_list(&self) -> (r: Vec<RecentQueryLog>)
        ensures
            r@.map_values(|entry: RecentQueryLog| entry@) == self@.recent,
    {
        let mut list: Vec<RecentQueryLog> = Vec::with_capacity(self.recent_queries.len());
        let mut i: usize = 0;
        while i < self.recent_queries.len()
            invariant
                i <= self.recent_queries@.len(),
                list@.len() == i,
                forall|j: int|
                    0 <= j < i ==> (#[trigger] list@[j])@ == self.recent_queries@[j]@,
            decreases self.recent_queries@.len() - i,
        {
            list.push(self.recent_queries[i].duplicate());
            i = i + 1;
        }
        assert(list@.map_values(|entry: RecentQueryLog| entry@) =~= self@.recent);
        list
    }

    /// Generates a point-in-time metrics snapshot for the dashboard / JSON endpoint.
    pub fn snapshot(&self, now: Moment) -> (r: MetricsSnapshot)
        requires
            self@.valid(),
        ensures
            r.tells(self@, now),
    {
        let points: Vec<HistoryPoint> = self.history_points(now.unix_sec);
        let mut window_requests: u32 = 0;
        let mut window_bytes: u64 = 0;
        let mut window_rows: u64 = 0;
        let mut i: usize = 0;
        let ghost window = rate_window(points@);
        assert(window.take(0) =~= seq![]);
        while i < RATE_WINDOW
            invariant
                i <= RATE_WINDOW,
                points@.len() == RING_BUFFER_SIZE,
                window == rate_window(points@),
                window_requests == requests_in(window.take(i as int)),
                window_bytes == bytes_in(window.take(i as int)),
                window_rows == rows_in(window.take(i as int)),
            decreases RATE_WINDOW - i,
        {
            let point: HistoryPoint = points[RING_BUFFER_SIZE - RATE_WINDOW + i];
            assert(window.take(i + 1).drop_last() =~= window.take(i as int));
            assert(window.take(i + 1).last() == point);
            window_requests = window_requests.wrapping_add(point.requests);
            window_bytes = window_bytes.wrapping_add(point.bytes);
            window_rows = window_rows.wrapping_add(point.rows);
            i = i + 1;
        }
        assert(window.take(RATE_WINDOW as int) =~= window);
        MetricsSnapshot {
            uptime_seconds: now.uptime_ns / 1_000_000_000,
            total_requests: self.counters.total_requests,
            successful_requests: self.counters.successful_requests,
            failed_requests: self.counters.failed_requests,
            active_requests: self.counters.active_requests,
            total_bytes_csv: self.counters.total_bytes_csv,
            total_bytes_parquet: self.counters.total_bytes_parquet,
            total_rows_streamed: self.counters.total_rows_streamed,
            total_duration_us: self.counters.total_duration_us,
            total_bytes: self.counters.total_bytes_csv.wrapping_add(
                self.counters.total_bytes_parquet,
            ),
            window_requests,
            window_bytes,
            window_rows,
            window_seconds: RATE_WINDOW,
            throughput_history_60s: points,
            clients: self.client_stats(now.uptime_ns),
            recent_queries: self.recent_list(),
        }
    }
}

// ---------------------------------------------------------------------------
// Laws
// ---------------------------------------------------------------------------

/// A request that is started and completed leaves as many requests active as there
/// were, and counts once, either as answered or as refused.
pub proof fn law_request_lifecycle(counters: Counters, completion: Completion)
    ensures
        ({
            let after = counters.started().completed(completion);
            &&& after.active_requests == counters.active_requests
            &&& after.total_requests == counters.total_requests.wrapping_add(1)
            &&& after.successful_requests.wrapping_add(after.failed_requests)
                == counters.successful_requests.wrapping_add(
                counters.failed_requests,
            ).wrapping_add(1)
        }),
{
}

/// Whether every request that was started was answered, was refused, or is active.
pub open spec fn accounted(counters: Counters) -> bool {
    counters.total_requests == counters.successful_requests.wrapping_add(
        counters.failed_requests,
    ).wrapping_add(counters.active_requests as u64)
}

/// No request gets lost: every one that was started was answered, was refused, or is
/// active, at the start, after one more is started, and after an active one is
/// completed.
pub proof fn law_requests_are_accounted_for(counters: Counters, completion: Completion)
    ensures
        accounted(MetricsView::initial().counters),
        accounted(counters) && counters.active_requests < usize::MAX ==> accounted(
            counters.started(),
        ),
        accounted(counters) && counters.active_requests > 0 ==> accounted(
            counters.completed(completion),
        ),
{
}

/// The bytes of a request count in the total of its format and in no other.
pub proof fn law_bytes_count_once(counters: Counters, completion: Completion)
    ensures
        ({
            let after = counters.completed(completion);
            &&& after.total_bytes_csv.wrapping_add(after.total_bytes_parquet)
                == counters.total_bytes_csv.wrapping_add(
                counters.total_bytes_parquet,
            ).wrapping_add(completion.bytes)
            &&& completion.parquet ==> after.total_bytes_csv == counters.total_bytes_csv
            &&& !completion.parquet ==> after.total_bytes_parquet == counters.total_bytes_parquet
        }),
{
}

/// Without clients, what was counted of them adds up to the totals at the start.
proof fn lemma_no_clients_add_up()
    ensures
        MetricsView::initial().adds_up(),
{
}

/// What the totals count of a request.
proof fn lemma_counters_amount(counters: Counters, completion: Completion, quantity: Quantity)
    ensures
        counters.completed(completion).amount(quantity) == counters.amount(quantity).wrapping_add(
            completion.amount(quantity),
        ),
{
}

/// A sum and its wrapped count stay in step when both grow by the same.
proof fn lemma_count_wraps(rest: nat, own: u64, added: u64, count: u64)
    requires
        (rest + own) % count_range() == count,
    ensures
        (rest + own.wrapping_add(added)) % count_range() == count.wrapping_add(added),
{
}

/// What was counted of the clients keeps adding up to the totals: a request counts
/// once in both, and starting one counts in neither.
pub proof fn law_clients_add_up<'a>(metrics: MetricsView, event: RequestEvent<'a>, now: Moment)
    requires
        metrics.adds_up(),
    ensures
        recorded(metrics, event, now).adds_up(),
        (MetricsView { counters: metrics.counters.started(), ..metrics }).adds_up(),
{
    let after = recorded(metrics, event, now);
    let before = metrics.clients;
    let others = before.remove(event.client);
    assert(after.clients.remove(event.client) =~= others);
    assert forall|quantity: Quantity| #[trigger]
        total(after.clients, quantity) as int % count_range() == after.counters.amount(
            quantity,
        ) by {
        let rest = total(others, quantity);
        let own = match known(before, event.client) {
            Some(client) => client.amount(quantity),
            None => 0,
        };
        assert(total(before, quantity) == rest + own) by {
            if before.contains_key(event.client) {
                lemma_total_remove(before, quantity, event.client);
            } else {
                assert(others =~= before);
            }
        }
        let added = event.completion().amount(quantity);
        lemma_counters_amount(metrics.counters, event.completion(), quantity);
        lemma_total_remove(after.clients, quantity, event.client);
        assert(after.clients[event.client].amount(quantity) == own.wrapping_add(added));
        assert(total(before, quantity) as int % count_range() == metrics.counters.amount(quantity));
        lemma_count_wraps(rest, own, added, metrics.counters.amount(quantity));
    }
    let started = MetricsView { counters: metrics.counters.started(), ..metrics };
    assert forall|quantity: Quantity| #[trigger]
        total(started.clients, quantity) as int % count_range() == started.counters.amount(
            quantity,
        ) by {
        assert(total(before, quantity) as int % count_range() == metrics.counters.amount(quantity));
    }
}

/// How much a snapshot shows of the listed clients together.
pub open spec fn listed_total(list: Seq<ClientStats>, quantity: Quantity) -> nat
    decreases list.len(),
{
    if list.len() == 0 {
        0
    } else {
        listed_total(list.drop_last(), quantity) + list.last().amount(quantity) as nat
    }
}

/// A list of all clients shows the total of them.
proof fn lemma_listed_total(
    list: Seq<ClientStats>,
    clients: Map<ClientAddress, ClientView>,
    now_ns: u64,
    quantity: Quantity,
)
    requires
        clients.dom().finite(),
        tells_all(list, clients, now_ns),
    ensures
        listed_total(list, quantity) == total(clients, quantity),
    decreases list.len(),
{
    if list.len() > 0 {
        let last = list.last().address;
        let fewer = clients.remove(last);
        let shorter = list.drop_last();
        assert(clients.contains_key(last));
        assert forall|address: ClientAddress| #[trigger]
            fewer.contains_key(address) implies exists|i: int|
            0 <= i < shorter.len() && (#[trigger] shorter[i]).address == address by {
            assert(clients.contains_key(address));
            let i = choose|i: int| 0 <= i < list.len() && (#[trigger] list[i]).address == address;
            assert(shorter[i].address == address);
        }
        assert forall|i: int| 0 <= i < shorter.len() implies fewer.contains_key(
            (#[trigger] shorter[i]).address,
        ) && shorter[i].tells(fewer[shorter[i].address], now_ns) by {
            assert(shorter[i] == list[i]);
        }
        assert forall|i: int, j: int| 0 <= i < j < shorter.len() implies (
        #[trigger] shorter[i]).address != (#[trigger] shorter[j]).address by {
            assert(list[i].address != list[j].address);
        }
        assert forall|i: int, j: int| 0 <= i <= j < shorter.len() implies (
        #[trigger] shorter[i]).requests >= (#[trigger] shorter[j]).requests by {
            assert(list[i].requests >= list[j].requests);
        }
        lemma_listed_total(shorter, fewer, now_ns, quantity);
        lemma_total_remove(clients, quantity, last);
    } else {
        assert(clients =~= Map::empty());
    }
}

/// The clients of a snapshot add up to its totals: their requests to those that were
/// answered or refused, their bytes, rows and durations to all that there were.
pub proof fn law_snapshot_adds_up(snapshot: MetricsSnapshot, metrics: MetricsView, now: Moment)
    requires
        metrics.valid(),
        snapshot.tells(metrics, now),
    ensures
        listed_total(snapshot.clients@, Quantity::Requests) as int % count_range()
            == snapshot.successful_requests.wrapping_add(snapshot.failed_requests),
        listed_total(snapshot.clients@, Quantity::Bytes) as int % count_range()
            == snapshot.total_bytes,
        listed_total(snapshot.clients@, Quantity::Rows) as int % count_range()
            == snapshot.total_rows_streamed,
        listed_total(snapshot.clients@, Quantity::Duration) as int % count_range()
            == snapshot.total_duration_us,
{
    lemma_listed_total(snapshot.clients@, metrics.clients, now.uptime_ns, Quantity::Requests);
    lemma_listed_total(snapshot.clients@, metrics.clients, now.uptime_ns, Quantity::Bytes);
    lemma_listed_total(snapshot.clients@, metrics.clients, now.uptime_ns, Quantity::Rows);
    lemma_listed_total(snapshot.clients@, metrics.clients, now.uptime_ns, Quantity::Duration);
}

/// The rolling history is made of consecutive seconds that end with the present
/// one.
pub proof fn law_history_is_consecutive(buckets: Seq<HistoryPoint>, now_sec: u64)
    requires
        now_sec >= RING_BUFFER_SIZE - 1,
    ensures
        history(buckets, now_sec).len() == RING_BUFFER_SIZE,
        forall|i: int|
            0 <= i < RING_BUFFER_SIZE ==> (#[trigger] history(buckets, now_sec)[i]).timestamp_sec
                == now_sec - (RING_BUFFER_SIZE - 1) + i,
{
}

/// A completed request shows in the history for sixty seconds, on top of what was
/// completed in the same second before.
pub proof fn law_request_stays_in_history(
    buckets: Seq<HistoryPoint>,
    second: u64,
    completion: Completion,
    later: u64,
)
    requires
        buckets.len() == RING_BUFFER_SIZE,
        second <= later < second + RING_BUFFER_SIZE,
    ensures
        history(ring_after(buckets, second, completion), later)[RING_BUFFER_SIZE - 1 - (later
            - second)] == with_request(shown(buckets, second), completion),
{
}

/// A completed request changes no other second of the history that it shows in.
pub proof fn law_other_seconds_are_kept(
    buckets: Seq<HistoryPoint>,
    second: u64,
    completion: Completion,
    other: u64,
)
    requires
        buckets.len() == RING_BUFFER_SIZE,
        other != second,
        second - RING_BUFFER_SIZE < other < second + RING_BUFFER_SIZE,
    ensures
        shown(ring_after(buckets, second, completion), other) == shown(buckets, other),
{
    assert(slot(second) != slot(other)) by {
        let size = RING_BUFFER_SIZE as int;
        vstd::arithmetic::div_mod::lemma_fundamental_div_mod(second as int, size);
        vstd::arithmetic::div_mod::lemma_fundamental_div_mod(other as int, size);
    }
}

/// A request changes what is known of its client and of no other.
pub proof fn law_other_clients_are_kept<'a>(
    metrics: MetricsView,
    event: RequestEvent<'a>,
    now: Moment,
    other: ClientAddress,
)
    requires
        other != event.client,
    ensures
        known(recorded(metrics, event, now).clients, other) == known(metrics.clients, other),
{
}

/// The log keeps as many of the latest queries as it may: after one more query it
/// begins with that query, and goes on with what it held.
pub proof fn law_log_keeps_the_latest(recent: Seq<QueryView>, entry: QueryView)
    requires
        recent.len() <= MAX_RECENT_QUERIES,
    ensures
        log_after(recent, entry)[0] == entry,
        log_after(recent, entry).len() == (if recent.len() < MAX_RECENT_QUERIES {
            recent.len() + 1
        } else {
            MAX_RECENT_QUERIES as nat
        }),
        log_after(recent, entry).skip(1).is_prefix_of(recent),
{
    assert(log_after(recent, entry).skip(1) =~= recent.take(
        log_after(recent, entry).len() - 1,
    ));
}

} // verus!
