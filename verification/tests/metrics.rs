use readql::clients::ClientAddress;
use readql::metrics::{format_time_hms, Moment, RequestEvent, ServerMetrics};

fn event<'a>(client: ClientAddress, client_ip: &'a str) -> RequestEvent<'a> {
    RequestEvent {
        client,
        client_ip,
        format_indicator: "C",
        duration_us: 2000,
        status: 200,
        bytes_sent: 10,
        rows_streamed: 1,
        sql_query: "SELECT 1",
    }
}

fn at(unix_sec: u64) -> Moment {
    Moment { unix_sec, uptime_ns: 0 }
}

const HOME: ClientAddress = ClientAddress::V4(0x7f000001);

#[test]
fn test_metrics_lifecycle() {
    let mut metrics = ServerMetrics::new();
    let now = Moment { unix_sec: 1_700_000_000, uptime_ns: 5_000_000_000 };

    metrics.request_started();
    assert_eq!(metrics.counters().active_requests, 1);
    assert_eq!(metrics.counters().total_requests, 1);

    metrics.record_request(
        RequestEvent {
            client: HOME,
            client_ip: "127.0.0.1",
            format_indicator: "P",
            duration_us: 25 * 1000,
            status: 200,
            bytes_sent: 1024,
            rows_streamed: 500,
            sql_query: "SELECT * FROM users",
        },
        now,
    );

    assert_eq!(metrics.counters().active_requests, 0);
    assert_eq!(metrics.counters().successful_requests, 1);
    assert_eq!(metrics.counters().total_bytes_parquet, 1024);
    assert_eq!(metrics.counters().total_rows_streamed, 500);

    let snap = metrics.snapshot(now);
    assert_eq!(snap.total_requests, 1);
    assert_eq!(snap.successful_requests, 1);
    assert_eq!(snap.total_bytes_parquet, 1024);
    assert_eq!(snap.clients.len(), 1);
    assert_eq!(snap.clients[0].ip, "127.0.0.1");
    assert_eq!(snap.recent_queries.len(), 1);
    assert_eq!(snap.recent_queries[0].format, "P");

    assert_eq!(snap.uptime_seconds, 5);
    assert_eq!(snap.failed_requests, 0);
    assert_eq!(snap.total_bytes, 1024);
    assert_eq!(snap.total_duration_us, 25_000);
    assert_eq!(snap.recent_queries[0].sql, "SELECT * FROM users");
    assert_eq!(snap.recent_queries[0].timestamp, "22:13:20");
    assert_eq!(snap.recent_queries[0].duration_us, 25_000);
}

#[test]
fn the_time_of_day() {
    assert_eq!(format_time_hms(0), "00:00:00");
    assert_eq!(format_time_hms(86_399), "23:59:59");
    assert_eq!(format_time_hms(86_400), "00:00:00");
    assert_eq!(format_time_hms(3_661), "01:01:01");
    assert_eq!(format_time_hms(u64::MAX), "07:00:15");
}

#[test]
fn statuses_and_formats_are_told_apart() {
    let mut metrics = ServerMetrics::default();
    for (status, format_indicator) in [(200, "C"), (399, "p"), (400, "P"), (500, "x")] {
        metrics.request_started();
        let mut completed = event(HOME, "127.0.0.1");
        completed.status = status;
        completed.format_indicator = format_indicator;
        metrics.record_request(completed, at(100));
    }
    let counters = metrics.counters();
    assert_eq!(counters.total_requests, 4);
    assert_eq!(counters.active_requests, 0);
    assert_eq!(counters.successful_requests, 2);
    assert_eq!(counters.failed_requests, 2);
    assert_eq!(counters.total_bytes_csv, 20);
    assert_eq!(counters.total_bytes_parquet, 20);
    let formats: Vec<String> =
        metrics.snapshot(at(100)).recent_queries.iter().map(|entry| entry.format.clone()).collect();
    assert_eq!(formats, ["X", "P", "P", "C"]);
}

#[test]
fn a_completion_without_a_start_wraps_around() {
    let mut metrics = ServerMetrics::new();
    metrics.record_request(event(HOME, "127.0.0.1"), at(1));
    assert_eq!(metrics.counters().active_requests, usize::MAX);
    metrics.request_started();
    assert_eq!(metrics.counters().active_requests, 0);
}

#[test]
fn a_long_duration_keeps_its_lower_bits() {
    let mut metrics = ServerMetrics::new();
    let mut completed = event(HOME, "127.0.0.1");
    completed.duration_us = (1 << 64) + 7;
    metrics.record_request(completed, at(1));
    assert_eq!(metrics.counters().total_duration_us, 7);
}

#[test]
fn the_history_of_a_minute() {
    let mut metrics = ServerMetrics::new();
    let start = 1_000_000;
    metrics.record_request(event(HOME, "127.0.0.1"), at(start));
    metrics.record_request(event(HOME, "127.0.0.1"), at(start));
    metrics.record_request(event(HOME, "127.0.0.1"), at(start + 3));

    for later in 0..70 {
        let snap = metrics.snapshot(at(start + later));
        let points = &snap.throughput_history_60s;
        assert_eq!(points.len(), 60);
        for (i, point) in points.iter().enumerate() {
            let second = start + later - 59 + i as u64;
            assert_eq!(point.timestamp_sec, second);
            let requests = if second == start {
                2
            } else if second == start + 3 {
                1
            } else {
                0
            };
            assert_eq!(point.requests, requests);
            assert_eq!(point.bytes, 10 * requests as u64);
            assert_eq!(point.rows, requests as u64);
            assert_eq!(point.duration_us, 2000 * requests as u64);
        }
    }

    let snap = metrics.snapshot(at(start + 4));
    assert_eq!(snap.window_seconds, 5);
    assert_eq!((snap.window_requests, snap.window_bytes, snap.window_rows), (3, 30, 3));
    let snap = metrics.snapshot(at(start + 5));
    assert_eq!((snap.window_requests, snap.window_bytes, snap.window_rows), (1, 10, 1));
}

#[test]
fn a_second_takes_the_place_of_one_a_minute_before() {
    let mut metrics = ServerMetrics::new();
    metrics.record_request(event(HOME, "127.0.0.1"), at(1_000));
    metrics.record_request(event(HOME, "127.0.0.1"), at(1_060));
    let points = metrics.snapshot(at(1_060)).throughput_history_60s;
    assert_eq!(points[59].requests, 1);
    assert_eq!(points.iter().map(|point| point.requests).sum::<u32>(), 1);
    let points = metrics.snapshot(at(1_000)).throughput_history_60s;
    assert_eq!(points.iter().map(|point| point.requests).sum::<u32>(), 0);
}

#[test]
fn the_first_minute_of_all() {
    let mut metrics = ServerMetrics::new();
    metrics.record_request(event(HOME, "127.0.0.1"), at(0));
    let points = metrics.snapshot(at(2)).throughput_history_60s;
    assert_eq!(points[59].timestamp_sec, 2);
    assert_eq!(points[58].timestamp_sec, 1);
    assert_eq!((points[57].timestamp_sec, points[57].requests), (0, 1));
    assert_eq!((points[0].timestamp_sec, points[0].requests), (0, 1));
}

#[test]
fn clients_by_the_number_of_requests() {
    let mut metrics = ServerMetrics::new();
    let mut expected: Vec<(String, u64)> = Vec::new();
    for client in 0..40u32 {
        let count = (client as u64 * 7) % 40 + 1;
        let ip = format!("10.0.0.{client}");
        let address = if client % 2 == 0 {
            ClientAddress::V4(client)
        } else {
            ClientAddress::V6(client as u128)
        };
        for i in 0..count {
            let now = Moment { unix_sec: 10, uptime_ns: i * 1_000_000 };
            metrics.record_request(event(address, &ip), now);
        }
        expected.push((ip, count));
    }
    expected.sort_by_key(|(_, count)| std::cmp::Reverse(*count));

    let snap = metrics.snapshot(Moment { unix_sec: 10, uptime_ns: 100_999_999 });
    assert_eq!(snap.clients.len(), 40);
    for (stats, (ip, count)) in snap.clients.iter().zip(&expected) {
        assert_eq!(stats.ip, *ip);
        assert_eq!(stats.requests, *count);
        assert_eq!(stats.bytes, 10 * count);
        assert_eq!(stats.rows, *count);
        assert_eq!(stats.total_duration_us, 2000 * count);
        assert_eq!(stats.last_seen_ms_ago, 100 - (count - 1));
    }

    let snap = metrics.snapshot(at(10));
    assert_eq!(snap.clients[0].last_seen_ms_ago, 0);
}

#[test]
fn addresses_of_two_families_are_different_clients() {
    let mut metrics = ServerMetrics::new();
    metrics.record_request(event(ClientAddress::V4(1), "0.0.0.1"), at(1));
    metrics.record_request(event(ClientAddress::V6(1), "::1"), at(1));
    metrics.record_request(event(ClientAddress::V6(1), "::1"), at(1));
    let snap = metrics.snapshot(at(1));
    assert_eq!(snap.clients.len(), 2);
    assert_eq!((snap.clients[0].ip.as_str(), snap.clients[0].requests), ("::1", 2));
    assert_eq!((snap.clients[1].ip.as_str(), snap.clients[1].requests), ("0.0.0.1", 1));
}

#[test]
fn the_log_keeps_the_latest_thirty() {
    let mut metrics = ServerMetrics::new();
    for i in 0..50u64 {
        let sql = format!("SELECT {i}");
        let mut completed = event(HOME, "127.0.0.1");
        completed.sql_query = &sql;
        completed.bytes_sent = i;
        metrics.record_request(completed, at(i));
        let recent = metrics.snapshot(at(i)).recent_queries;
        assert_eq!(recent.len() as u64, (i + 1).min(30));
        for (age, entry) in recent.iter().enumerate() {
            assert_eq!(entry.sql, format!("SELECT {}", i - age as u64));
            assert_eq!(entry.bytes, i - age as u64);
            assert_eq!(entry.status, 200);
            assert_eq!(entry.client_ip, "127.0.0.1");
        }
    }
}

#[test]
fn no_request_gets_lost() {
    let mut metrics = ServerMetrics::new();
    for i in 0..100u16 {
        metrics.request_started();
        if i % 3 != 0 {
            let mut completed = event(HOME, "127.0.0.1");
            completed.status = 200 + i * 3;
            metrics.record_request(completed, at(i as u64));
        }
        let counters = metrics.counters();
        assert_eq!(
            counters.total_requests,
            counters.successful_requests
                + counters.failed_requests
                + counters.active_requests as u64
        );
    }
    assert_eq!(metrics.counters().active_requests, 34);
    assert_eq!(metrics.counters().successful_requests, 44);
    assert_eq!(metrics.counters().failed_requests, 22);
}

#[test]
fn clients_add_up_to_the_totals() {
    let mut metrics = ServerMetrics::new();
    for i in 0..20u32 {
        let client = ClientAddress::V4(i % 3);
        metrics.request_started();
        metrics.record_request(
            RequestEvent {
                format_indicator: if i % 2 == 0 { "P" } else { "C" },
                status: if i % 5 == 0 { 400 } else { 200 },
                bytes_sent: 100 + u64::from(i),
                rows_streamed: u64::from(i),
                ..event(client, "10.0.0.1")
            },
            at(1_000),
        );
    }
    metrics.request_started();
    let snap = metrics.snapshot(at(1_000));
    let sum = |count: fn(&readql::metrics::ClientStats) -> u64| -> u64 {
        snap.clients.iter().map(count).sum()
    };
    assert_eq!(snap.clients.len(), 3);
    assert_eq!(sum(|client| client.requests), 20);
    assert_eq!(snap.successful_requests + snap.failed_requests, 20);
    assert_eq!(sum(|client| client.bytes), snap.total_bytes);
    assert_eq!(snap.total_bytes, 2190);
    assert_eq!(sum(|client| client.rows), snap.total_rows_streamed);
    assert_eq!(snap.total_rows_streamed, 190);
    assert_eq!(sum(|client| client.total_duration_us), snap.total_duration_us);
    assert_eq!(snap.total_duration_us, 40_000);
}
