//! The statistics of the server.

use crate::clients::{ClientAddress, ClientRecord, ClientTable, Visit};
use crate::metrics::{
    bytes_in, format_time_hms, history, rate_window, recorded, requests_in, rows_in, shown, slot,
    time_of_day, two_digits, Counters, MetricsSnapshot, MetricsView, Moment, RequestEvent,
    ServerMetrics,
};
use crate::text::{same_but_case, uppercase};
use vstd::prelude::*;

verus! {

/// The statistics begin with nothing counted, no clients, no queries, and sixty seconds
/// in which nothing happened.
pub proof fn law_beginning(second: u64, i: int)
    requires
        0 <= i < 60,
    ensures
        ({
            let metrics = MetricsView::initial();
            let point = history(metrics.buckets, second)[i];
            &&& metrics.counters.total_requests == 0
            &&& metrics.counters.successful_requests == 0
            &&& metrics.counters.failed_requests == 0
            &&& metrics.counters.active_requests == 0
            &&& metrics.counters.total_bytes_csv == 0
            &&& metrics.counters.total_bytes_parquet == 0
            &&& metrics.counters.total_rows_streamed == 0
            &&& metrics.counters.total_duration_us == 0
            &&& metrics.clients == Map::<ClientAddress, crate::clients::ClientView>::empty()
            &&& metrics.recent.len() == 0
            &&& point.requests == 0
            &&& point.bytes == 0
            &&& point.rows == 0
            &&& point.duration_us == 0
        }),
{
}

/// A request that is started counts as one more request, and as one more that is active.
pub proof fn law_started_requests(counters: Counters)
    ensures
        ({
            let after = counters.started();
            &&& after.total_requests == counters.total_requests.wrapping_add(1)
            &&& after.active_requests == counters.active_requests.wrapping_add(1)
            &&& after.successful_requests == counters.successful_requests
            &&& after.failed_requests == counters.failed_requests
            &&& after.total_bytes_csv == counters.total_bytes_csv
            &&& after.total_bytes_parquet == counters.total_bytes_parquet
            &&& after.total_rows_streamed == counters.total_rows_streamed
            &&& after.total_duration_us == counters.total_duration_us
        }),
{
}

/// Whether an event is that of a request that was sent Parquet.
pub open spec fn sent_parquet<'a>(event: RequestEvent<'a>) -> bool {
    event.format_indicator@ == seq!['P'] || event.format_indicator@ == seq!['p']
}

proof fn lemma_sent_parquet<'a>(event: RequestEvent<'a>)
    ensures
        event.completion().parquet == sent_parquet(event),
{
    let mark = event.format_indicator@;
    reveal_strlit("P");
    assert("P"@ =~= seq!['P']);
    if same_but_case(mark, "P"@) {
        assert(crate::text::ascii_lower(mark[0]) == crate::text::ascii_lower("P"@[0]));
        assert(mark =~= seq!['P'] || mark =~= seq!['p']);
    }
}

/// A request that is completed is no longer active. It counts as answered where its status
/// is below 400, and as refused otherwise. Its bytes count in the total of its format
/// alone, and its rows and the lower 64 bits of its duration in theirs, whatever its
/// format and its status are.
pub proof fn law_completed_requests<'a>(metrics: MetricsView, event: RequestEvent<'a>, now: Moment)
    ensures
        ({
            let before = metrics.counters;
            let after = recorded(metrics, event, now).counters;
            &&& after.total_requests == before.total_requests
            &&& after.active_requests == before.active_requests.wrapping_sub(1)
            &&& event.status < 400 ==> after.successful_requests
                == before.successful_requests.wrapping_add(1) && after.failed_requests
                == before.failed_requests
            &&& event.status >= 400 ==> after.failed_requests
                == before.failed_requests.wrapping_add(1) && after.successful_requests
                == before.successful_requests
            &&& sent_parquet(event) ==> after.total_bytes_parquet
                == before.total_bytes_parquet.wrapping_add(event.bytes_sent)
                && after.total_bytes_csv == before.total_bytes_csv
            &&& !sent_parquet(event) ==> after.total_bytes_csv
                == before.total_bytes_csv.wrapping_add(event.bytes_sent)
                && after.total_bytes_parquet == before.total_bytes_parquet
            &&& after.total_rows_streamed == before.total_rows_streamed.wrapping_add(
                event.rows_streamed,
            )
            &&& after.total_duration_us == before.total_duration_us.wrapping_add(
                event.duration_us as u64,
            )
        }),
{
    lemma_sent_parquet(event);
}

/// A second of the history as of some moment: the sixty seconds up to that moment come in
/// order, and the first of all stands for those before it.
pub open spec fn second_shown(later: u64, i: int) -> int {
    if later + i >= 59 {
        later + i - 59
    } else {
        0
    }
}

/// Every request shows in the history of the minute after it: its second has one more
/// request than before, and more bytes, rows and duration by exactly those of the
/// request, whatever its format and its status are. All other seconds are as they were.
pub proof fn law_history_gains_the_request<'a>(
    metrics: MetricsView,
    event: RequestEvent<'a>,
    now: Moment,
    later: u64,
    i: int,
)
    requires
        metrics.buckets.len() == 60,
        now.unix_sec <= later < now.unix_sec + 60,
        0 <= i < 60,
    ensures
        ({
            let before = history(metrics.buckets, later)[i];
            let after = history(recorded(metrics, event, now).buckets, later)[i];
            &&& history(metrics.buckets, later).len() == 60
            &&& before.timestamp_sec == second_shown(later, i)
            &&& after.timestamp_sec == second_shown(later, i)
            &&& second_shown(later, i) == now.unix_sec ==> {
                &&& after.requests == before.requests.wrapping_add(1)
                &&& after.bytes == before.bytes.wrapping_add(event.bytes_sent)
                &&& after.rows == before.rows.wrapping_add(event.rows_streamed)
                &&& after.duration_us == before.duration_us.wrapping_add(event.duration_us as u64)
            }
            &&& second_shown(later, i) != now.unix_sec ==> {
                &&& after.requests == before.requests
                &&& after.bytes == before.bytes
                &&& after.rows == before.rows
                &&& after.duration_us == before.duration_us
            }
        }),
{
    let second = second_shown(later, i) as u64;
    assert(history(metrics.buckets, later)[i] == shown(metrics.buckets, second));
    assert(history(recorded(metrics, event, now).buckets, later)[i] == shown(
        recorded(metrics, event, now).buckets,
        second,
    ));
    if second != now.unix_sec {
        assert(slot(second) != slot(now.unix_sec)) by {
            vstd::arithmetic::div_mod::lemma_fundamental_div_mod(second as int, 60);
            vstd::arithmetic::div_mod::lemma_fundamental_div_mod(now.unix_sec as int, 60);
        }
    }
}

/// A request adds to what is known of its client one request, its bytes, its rows and its
/// duration, and the time at which it ended. A client that is new begins with those and
/// with the notation of its address, which is kept from then on. What is known of all
/// other clients stays as it was.
pub proof fn law_client_is_credited<'a>(
    metrics: MetricsView,
    event: RequestEvent<'a>,
    now: Moment,
    other: ClientAddress,
)
    ensures
        ({
            let before = metrics.clients;
            let after = recorded(metrics, event, now).clients;
            let client = after[event.client];
            &&& after.contains_key(event.client)
            &&& client.last_seen_ns == now.uptime_ns
            &&& !before.contains_key(event.client) ==> {
                &&& client.ip == event.client_ip@
                &&& client.requests == 1
                &&& client.bytes == event.bytes_sent
                &&& client.rows == event.rows_streamed
                &&& client.total_duration_us == event.duration_us as u64
            }
            &&& before.contains_key(event.client) ==> {
                let earlier = before[event.client];
                &&& client.ip == earlier.ip
                &&& client.requests == earlier.requests.wrapping_add(1)
                &&& client.bytes == earlier.bytes.wrapping_add(event.bytes_sent)
                &&& client.rows == earlier.rows.wrapping_add(event.rows_streamed)
                &&& client.total_duration_us == earlier.total_duration_us.wrapping_add(
                    event.duration_us as u64,
                )
            }
            &&& other != event.client ==> (after.contains_key(other) <==> before.contains_key(other))
            &&& other != event.client && before.contains_key(other) ==> after[other]
                == before[other]
        }),
{
}

/// A request comes first in the log, with its query, client, status, bytes and duration,
/// and the queries that were there come after it in order, up to thirty in all.
pub proof fn law_query_is_logged<'a>(
    metrics: MetricsView,
    event: RequestEvent<'a>,
    now: Moment,
    i: int,
)
    requires
        metrics.recent.len() <= 30,
    ensures
        ({
            let before = metrics.recent;
            let after = recorded(metrics, event, now).recent;
            &&& after.len() == (if before.len() < 30 {
                before.len() + 1
            } else {
                30
            })
            &&& after[0].sql == event.sql_query@
            &&& after[0].client_ip == event.client_ip@
            &&& after[0].status == event.status
            &&& after[0].bytes == event.bytes_sent
            &&& after[0].duration_us == event.duration_us as u64
            &&& after[0].format == uppercase(event.format_indicator@)
            &&& after[0].timestamp == time_of_day(now.unix_sec)
            &&& 1 <= i < after.len() ==> after[i] == before[i - 1]
        }),
{
}

/// The value of two digits.
pub open spec fn two_digits_value(tens: char, ones: char) -> int {
    (tens as int - 48) * 10 + (ones as int - 48)
}

proof fn lemma_two_digits(n: nat)
    requires
        n < 100,
    ensures
        two_digits(n).len() == 2,
        48 <= two_digits(n)[0] as int <= 57,
        48 <= two_digits(n)[1] as int <= 57,
        two_digits_value(two_digits(n)[0], two_digits(n)[1]) == n,
{
}

proof fn lemma_parts_of_a_day(second: int)
    requires
        0 <= second,
    ensures
        (second / 3600) % 24 * 3600 + (second / 60) % 60 * 60 + second % 60 == second % 86400,
{
    let day = second / 86400;
    let rest = second % 86400;
    assert(second / 3600 == day * 24 + rest / 3600);
    assert(second / 60 == day * 1440 + rest / 60);
    assert(rest / 60 == rest / 3600 * 60 + (rest / 60) % 60);
}

/// The time of day is hours, minutes and seconds in two digits each, with colons between
/// them, and these make up the seconds since midnight.
pub proof fn law_times_of_day(second: u64, text: String)
    requires
        call_ensures(format_time_hms, (second,), text),
    ensures
        text@ == time_of_day(second),
        ({
            let t = text@;
            let hours = two_digits_value(t[0], t[1]);
            let minutes = two_digits_value(t[3], t[4]);
            let seconds = two_digits_value(t[6], t[7]);
            &&& t.len() == 8
            &&& t[2] == ':'
            &&& t[5] == ':'
            &&& 0 <= hours < 24
            &&& 0 <= minutes < 60
            &&& 0 <= seconds < 60
            &&& hours * 3600 + minutes * 60 + seconds == second as int % 86400
            &&& forall|k: int|
                0 <= k < 8 && k != 2 && k != 5 ==> 48 <= (#[trigger] t[k]) as int <= 57
        }),
{
    let hours = (second / 3600) % 24;
    let minutes = (second / 60) % 60;
    let seconds = second % 60;
    lemma_two_digits(hours as nat);
    lemma_two_digits(minutes as nat);
    lemma_two_digits(seconds as nat);
    lemma_parts_of_a_day(second as int);
    let t = text@;
    assert(seq![t[0], t[1]] =~= two_digits(hours as nat));
    assert(seq![t[3], t[4]] =~= two_digits(minutes as nat));
    assert(seq![t[6], t[7]] =~= two_digits(seconds as nat));
}

/// A snapshot shows the totals as they are, the bytes of both formats together, the whole
/// seconds that the server is up, and the history of the last sixty seconds. Its rates go
/// by the last five of these together.
pub proof fn law_snapshots(metrics: &ServerMetrics, now: Moment, r: MetricsSnapshot)
    requires
        metrics@.valid(),
        call_ensures(ServerMetrics::snapshot, (metrics, now), r),
    ensures
        ({
            let counters = metrics@.counters;
            let points = r.throughput_history_60s@;
            &&& r.total_requests == counters.total_requests
            &&& r.successful_requests == counters.successful_requests
            &&& r.failed_requests == counters.failed_requests
            &&& r.active_requests == counters.active_requests
            &&& r.total_bytes_csv == counters.total_bytes_csv
            &&& r.total_bytes_parquet == counters.total_bytes_parquet
            &&& r.total_bytes == counters.total_bytes_csv.wrapping_add(counters.total_bytes_parquet)
            &&& r.total_rows_streamed == counters.total_rows_streamed
            &&& r.total_duration_us == counters.total_duration_us
            &&& r.uptime_seconds * 1_000_000_000 <= now.uptime_ns < (r.uptime_seconds + 1)
                * 1_000_000_000
            &&& points.len() == 60
            &&& points == history(metrics@.buckets, now.unix_sec)
            &&& r.window_seconds == 5
            &&& r.window_requests == points[55].requests.wrapping_add(
                points[56].requests,
            ).wrapping_add(points[57].requests).wrapping_add(points[58].requests).wrapping_add(
                points[59].requests,
            )
            &&& r.window_bytes == points[55].bytes.wrapping_add(points[56].bytes).wrapping_add(
                points[57].bytes,
            ).wrapping_add(points[58].bytes).wrapping_add(points[59].bytes)
            &&& r.window_rows == points[55].rows.wrapping_add(points[56].rows).wrapping_add(
                points[57].rows,
            ).wrapping_add(points[58].rows).wrapping_add(points[59].rows)
        }),
{
    let points = r.throughput_history_60s@;
    let window = rate_window(points);
    assert(window =~= seq![points[55], points[56], points[57], points[58], points[59]]);
    let four = window.drop_last();
    let three = four.drop_last();
    let two = three.drop_last();
    let one = two.drop_last();
    assert(one.drop_last().len() == 0);
    reveal_with_fuel(requests_in, 6);
    reveal_with_fuel(bytes_in, 6);
    reveal_with_fuel(rows_in, 6);
    assert(requests_in(one) == points[55].requests);
    assert(bytes_in(one) == points[55].bytes);
    assert(rows_in(one) == points[55].rows);
    assert(two.last() == points[56]);
    assert(three.last() == points[57]);
    assert(four.last() == points[58]);
}

/// A snapshot lists every client, with what is known of it and the whole milliseconds since
/// its last request, those with more requests first, and no client twice.
pub proof fn law_snapshots_list_clients(
    metrics: &ServerMetrics,
    now: Moment,
    r: MetricsSnapshot,
    i: int,
    j: int,
    address: ClientAddress,
)
    requires
        metrics@.valid(),
        call_ensures(ServerMetrics::snapshot, (metrics, now), r),
    ensures
        ({
            let clients = metrics@.clients;
            let list = r.clients@;
            &&& 0 <= i < list.len() ==> clients.contains_key(list[i].address) && {
                let client = clients[list[i].address];
                &&& list[i].ip@ == client.ip
                &&& list[i].requests == client.requests
                &&& list[i].bytes == client.bytes
                &&& list[i].rows == client.rows
                &&& list[i].total_duration_us == client.total_duration_us
                &&& client.last_seen_ns <= now.uptime_ns ==> list[i].last_seen_ms_ago * 1_000_000
                    <= now.uptime_ns - client.last_seen_ns < (list[i].last_seen_ms_ago + 1)
                    * 1_000_000
                &&& client.last_seen_ns > now.uptime_ns ==> list[i].last_seen_ms_ago == 0
            }
            &&& 0 <= i < j < list.len() ==> list[i].requests >= list[j].requests
                && list[i].address != list[j].address
            &&& clients.contains_key(address) ==> exists|k: int|
                0 <= k < list.len() && (#[trigger] list[k]).address == address
        }),
{
}

/// A snapshot lists the latest queries as they were logged, the latest first.
pub proof fn law_snapshots_list_queries(
    metrics: &ServerMetrics,
    now: Moment,
    r: MetricsSnapshot,
    i: int,
)
    requires
        metrics@.valid(),
        call_ensures(ServerMetrics::snapshot, (metrics, now), r),
        0 <= i < metrics@.recent.len(),
    ensures
        r.recent_queries@.len() == metrics@.recent.len(),
        r.recent_queries@[i].sql@ == metrics@.recent[i].sql,
        r.recent_queries@[i].client_ip@ == metrics@.recent[i].client_ip,
        r.recent_queries@[i].format@ == metrics@.recent[i].format,
        r.recent_queries@[i].timestamp@ == metrics@.recent[i].timestamp,
        r.recent_queries@[i].status == metrics@.recent[i].status,
        r.recent_queries@[i].bytes == metrics@.recent[i].bytes,
        r.recent_queries@[i].duration_us == metrics@.recent[i].duration_us,
{
    let shown = r.recent_queries@.map_values(|entry: crate::metrics::RecentQueryLog| entry@);
    assert(shown[i] == metrics@.recent[i]);
}

/// Starting a request shows in every snapshot as one more request and one more that is
/// active. The other totals, the history, the clients and the queries are shown as before.
pub proof fn law_started_request_is_shown(
    metrics: &mut ServerMetrics,
    later: Moment,
    before: MetricsSnapshot,
    after: MetricsSnapshot,
)
    requires
        old(metrics)@.valid(),
        call_ensures(ServerMetrics::request_started, (metrics,), ()),
        call_ensures(ServerMetrics::snapshot, (&*old(metrics), later), before),
        call_ensures(ServerMetrics::snapshot, (&*final(metrics), later), after),
    ensures
        after.total_requests == before.total_requests.wrapping_add(1),
        after.active_requests == before.active_requests.wrapping_add(1),
        after.successful_requests == before.successful_requests,
        after.failed_requests == before.failed_requests,
        after.total_bytes == before.total_bytes,
        after.total_bytes_csv == before.total_bytes_csv,
        after.total_bytes_parquet == before.total_bytes_parquet,
        after.total_rows_streamed == before.total_rows_streamed,
        after.total_duration_us == before.total_duration_us,
        after.throughput_history_60s@ == before.throughput_history_60s@,
        after.window_requests == before.window_requests,
        after.window_bytes == before.window_bytes,
        after.window_rows == before.window_rows,
        final(metrics)@.clients == old(metrics)@.clients,
        final(metrics)@.recent == old(metrics)@.recent,
{
}

/// Completing a request shows in every snapshot of the minute after it. One request less
/// is active, and one more is answered or refused. The bytes count in the total of all, and
/// in that of the format alone. The second of the request gains one request, and its bytes,
/// rows and duration, whatever the format and the status are, and no other second does.
pub proof fn law_completed_request_is_shown<'a>(
    metrics: &mut ServerMetrics,
    event: RequestEvent<'a>,
    now: Moment,
    later: Moment,
    before: MetricsSnapshot,
    after: MetricsSnapshot,
    i: int,
)
    requires
        old(metrics)@.valid(),
        call_ensures(ServerMetrics::record_request, (metrics, event, now), ()),
        call_ensures(ServerMetrics::snapshot, (&*old(metrics), later), before),
        call_ensures(ServerMetrics::snapshot, (&*final(metrics), later), after),
        now.unix_sec <= later.unix_sec < now.unix_sec + 60,
        0 <= i < 60,
    ensures
        after.total_requests == before.total_requests,
        after.active_requests == before.active_requests.wrapping_sub(1),
        after.successful_requests == (if event.status < 400 {
            before.successful_requests.wrapping_add(1)
        } else {
            before.successful_requests
        }),
        after.failed_requests == (if event.status < 400 {
            before.failed_requests
        } else {
            before.failed_requests.wrapping_add(1)
        }),
        after.total_bytes == before.total_bytes.wrapping_add(event.bytes_sent),
        after.total_bytes_csv == (if sent_parquet(event) {
            before.total_bytes_csv
        } else {
            before.total_bytes_csv.wrapping_add(event.bytes_sent)
        }),
        after.total_bytes_parquet == (if sent_parquet(event) {
            before.total_bytes_parquet.wrapping_add(event.bytes_sent)
        } else {
            before.total_bytes_parquet
        }),
        after.total_rows_streamed == before.total_rows_streamed.wrapping_add(event.rows_streamed),
        after.total_duration_us == before.total_duration_us.wrapping_add(event.duration_us as u64),
        ({
            let earlier = before.throughput_history_60s@[i];
            let point = after.throughput_history_60s@[i];
            &&& point.timestamp_sec == second_shown(later.unix_sec, i)
            &&& earlier.timestamp_sec == second_shown(later.unix_sec, i)
            &&& if second_shown(later.unix_sec, i) == now.unix_sec {
                &&& point.requests == earlier.requests.wrapping_add(1)
                &&& point.bytes == earlier.bytes.wrapping_add(event.bytes_sent)
                &&& point.rows == earlier.rows.wrapping_add(event.rows_streamed)
                &&& point.duration_us == earlier.duration_us.wrapping_add(event.duration_us as u64)
            } else {
                &&& point.requests == earlier.requests
                &&& point.bytes == earlier.bytes
                &&& point.rows == earlier.rows
                &&& point.duration_us == earlier.duration_us
            }
        }),
{
    law_completed_requests(old(metrics)@, event, now);
    law_history_gains_the_request(old(metrics)@, event, now, later.unix_sec, i);
}

/// Completing a request shows at its client in every later snapshot: one request more, and
/// its bytes, rows and duration more, or just these where the client is new. What is shown
/// of other clients stays as it was, and so do the notations of addresses.
pub proof fn law_completed_request_shows_at_its_client<'a>(
    metrics: &mut ServerMetrics,
    event: RequestEvent<'a>,
    now: Moment,
    later: Moment,
    before: MetricsSnapshot,
    after: MetricsSnapshot,
    j: int,
    k: int,
)
    requires
        old(metrics)@.valid(),
        call_ensures(ServerMetrics::record_request, (metrics, event, now), ()),
        call_ensures(ServerMetrics::snapshot, (&*old(metrics), later), before),
        call_ensures(ServerMetrics::snapshot, (&*final(metrics), later), after),
        now.uptime_ns <= later.uptime_ns,
        0 <= k < after.clients@.len(),
    ensures
        ({
            let client = after.clients@[k];
            &&& client.address == event.client ==> client.last_seen_ms_ago * 1_000_000
                <= later.uptime_ns - now.uptime_ns < (client.last_seen_ms_ago + 1) * 1_000_000
            &&& client.address == event.client && (forall|l: int|
                0 <= l < before.clients@.len() ==> (#[trigger] before.clients@[l]).address
                    != event.client) ==> {
                &&& client.ip@ == event.client_ip@
                &&& client.requests == 1
                &&& client.bytes == event.bytes_sent
                &&& client.rows == event.rows_streamed
                &&& client.total_duration_us == event.duration_us as u64
            }
            &&& 0 <= j < before.clients@.len() && before.clients@[j].address == client.address ==> {
                let earlier = before.clients@[j];
                &&& client.ip@ == earlier.ip@
                &&& if client.address == event.client {
                    &&& client.requests == earlier.requests.wrapping_add(1)
                    &&& client.bytes == earlier.bytes.wrapping_add(event.bytes_sent)
                    &&& client.rows == earlier.rows.wrapping_add(event.rows_streamed)
                    &&& client.total_duration_us == earlier.total_duration_us.wrapping_add(
                        event.duration_us as u64,
                    )
                } else {
                    &&& client.requests == earlier.requests
                    &&& client.bytes == earlier.bytes
                    &&& client.rows == earlier.rows
                    &&& client.total_duration_us == earlier.total_duration_us
                    &&& client.last_seen_ms_ago == earlier.last_seen_ms_ago
                }
            }
        }),
        exists|l: int|
            0 <= l < after.clients@.len() && (#[trigger] after.clients@[l]).address == event.client,
{
    let address = after.clients@[k].address;
    law_client_is_credited(old(metrics)@, event, now, address);
    law_snapshots_list_clients(&*final(metrics), later, after, k, k, event.client);
    law_snapshots_list_clients(&*old(metrics), later, before, j, j, event.client);
}

/// Completing a request shows first among the queries of every later snapshot, as it was,
/// and those that were shown come after it, up to thirty in all.
pub proof fn law_completed_request_is_listed<'a>(
    metrics: &mut ServerMetrics,
    event: RequestEvent<'a>,
    now: Moment,
    later: Moment,
    before: MetricsSnapshot,
    after: MetricsSnapshot,
    i: int,
)
    requires
        old(metrics)@.valid(),
        call_ensures(ServerMetrics::record_request, (metrics, event, now), ()),
        call_ensures(ServerMetrics::snapshot, (&*old(metrics), later), before),
        call_ensures(ServerMetrics::snapshot, (&*final(metrics), later), after),
    ensures
        ({
            let query = after.recent_queries@[0];
            let earlier = before.recent_queries@;
            &&& after.recent_queries@.len() == (if earlier.len() < 30 {
                earlier.len() + 1
            } else {
                30
            })
            &&& query.sql@ == event.sql_query@
            &&& query.client_ip@ == event.client_ip@
            &&& query.status == event.status
            &&& query.bytes == event.bytes_sent
            &&& query.duration_us == event.duration_us as u64
            &&& query.format@ == uppercase(event.format_indicator@)
            &&& query.timestamp@ == time_of_day(now.unix_sec)
            &&& 1 <= i < after.recent_queries@.len() ==> {
                &&& after.recent_queries@[i].sql@ == earlier[i - 1].sql@
                &&& after.recent_queries@[i].client_ip@ == earlier[i - 1].client_ip@
                &&& after.recent_queries@[i].status == earlier[i - 1].status
                &&& after.recent_queries@[i].bytes == earlier[i - 1].bytes
                &&& after.recent_queries@[i].duration_us == earlier[i - 1].duration_us
                &&& after.recent_queries@[i].format@ == earlier[i - 1].format@
                &&& after.recent_queries@[i].timestamp@ == earlier[i - 1].timestamp@
            }
        }),
{
    law_query_is_logged(old(metrics)@, event, now, i);
    law_snapshots_list_queries(&*final(metrics), later, after, 0);
    if 1 <= i < after.recent_queries@.len() {
        law_snapshots_list_queries(&*final(metrics), later, after, i);
        law_snapshots_list_queries(&*old(metrics), later, before, i - 1);
    }
}

/// New statistics show nothing: no requests, bytes, rows, clients or queries, and sixty
/// seconds in which nothing happened.
pub proof fn law_new_statistics_show_nothing(
    metrics: ServerMetrics,
    now: Moment,
    r: MetricsSnapshot,
    i: int,
)
    requires
        call_ensures(ServerMetrics::new, (), metrics),
        call_ensures(ServerMetrics::snapshot, (&metrics, now), r),
        0 <= i < 60,
    ensures
        r.total_requests == 0,
        r.successful_requests == 0,
        r.failed_requests == 0,
        r.active_requests == 0,
        r.total_bytes == 0,
        r.total_bytes_csv == 0,
        r.total_bytes_parquet == 0,
        r.total_rows_streamed == 0,
        r.total_duration_us == 0,
        r.throughput_history_60s@[i].requests == 0,
        r.throughput_history_60s@[i].bytes == 0,
        r.throughput_history_60s@[i].rows == 0,
        r.throughput_history_60s@[i].duration_us == 0,
        r.clients@.len() == 0,
        r.recent_queries@.len() == 0,
{
    law_beginning(now.unix_sec, i);
    if r.clients@.len() > 0 {
        law_snapshots_list_clients(&metrics, now, r, 0, 0, r.clients@[0].address);
    }
}

/// The lower 64 bits of a duration are what is left of it by the next power of two.
pub proof fn law_durations<'a>(event: RequestEvent<'a>)
    ensures
        event.completion().duration_us as int == event.duration_us as int
            % 0x1_0000_0000_0000_0000,
{
    let duration = event.duration_us;
    assert((duration as u64) as u128 == duration % 0x1_0000_0000_0000_0000u128) by (bit_vector);
}

/// A table of clients counts a request for its client alone, finds what is known of a
/// client, and ranks every client once, those with more requests first.
pub proof fn law_tables_of_clients(
    table: &mut ClientTable,
    address: ClientAddress,
    ip: &str,
    visit: Visit,
    ranking: Vec<ClientAddress>,
    other: ClientAddress,
    found: Option<&ClientRecord>,
    i: int,
    j: int,
)
    requires
        call_ensures(ClientTable::record, (table, address, ip, visit), ()),
        call_ensures(ClientTable::ranked, (&*final(table),), ranking),
        call_ensures(ClientTable::get, (&*final(table), other), found),
    ensures
        ({
            let before = old(table)@;
            let after = final(table)@;
            let client = after[address];
            &&& after.contains_key(address)
            &&& client.last_seen_ns == visit.ended_ns
            &&& before.contains_key(address) ==> {
                &&& client.ip == before[address].ip
                &&& client.requests == before[address].requests.wrapping_add(1)
                &&& client.bytes == before[address].bytes.wrapping_add(visit.bytes)
                &&& client.rows == before[address].rows.wrapping_add(visit.rows)
                &&& client.total_duration_us == before[address].total_duration_us.wrapping_add(
                    visit.duration_us,
                )
            }
            &&& !before.contains_key(address) ==> {
                &&& client.ip == ip@
                &&& client.requests == 1
                &&& client.bytes == visit.bytes
                &&& client.rows == visit.rows
                &&& client.total_duration_us == visit.duration_us
            }
            &&& other != address ==> (after.contains_key(other) <==> before.contains_key(other))
            &&& other != address && before.contains_key(other) ==> after[other] == before[other]
            &&& found is Some <==> after.contains_key(other)
            &&& found matches Some(record) ==> {
                &&& record.ip@ == after[other].ip
                &&& record.requests == after[other].requests
                &&& record.bytes == after[other].bytes
                &&& record.rows == after[other].rows
                &&& record.total_duration_us == after[other].total_duration_us
                &&& record.last_seen_ns == after[other].last_seen_ns
            }
            &&& ranking@.contains(other) <==> after.contains_key(other)
            &&& 0 <= i < j < ranking@.len() ==> ranking@[i] != ranking@[j]
                && after[ranking@[i]].requests >= after[ranking@[j]].requests
        }),
{
}

} // verus!
