use joinmarket_directory_checker::dashboard::{
    details_label, format_timestamp, last_check_label, response_label, sorted_endpoints,
    stands_before, status_priority, status_summary, timestamp_label, StatusSummary,
};
use joinmarket_directory_checker::types::{Endpoint, EndpointInfo, EndpointStatus};

fn record(name: &str, status: EndpointStatus, last_check: Option<i64>) -> EndpointInfo {
    EndpointInfo {
        endpoint: Endpoint { name: name.to_string(), address: format!("{}.onion", name), port: 80 },
        status,
        last_check,
    }
}

fn online(ms: u64) -> EndpointStatus {
    EndpointStatus::Online { response_time_ms: ms }
}

fn offline(reason: &str) -> EndpointStatus {
    EndpointStatus::Offline { error: reason.to_string() }
}

fn sample() -> Vec<EndpointInfo> {
    vec![
        record("delta", offline("Connection timeout (2s)"), Some(10)),
        record("bravo", EndpointStatus::Unknown, None),
        record("echo", online(20), Some(11)),
        record("alpha", offline("IO error: reset"), Some(12)),
        record("charlie", EndpointStatus::Checking, None),
        record("Zulu", online(5), Some(13)),
        record("echo", online(7), Some(14)),
        record("ech", online(9), Some(15)),
        record("", EndpointStatus::Unknown, None),
    ]
}

#[test]
fn priority_of_each_status() {
    assert_eq!(status_priority(&online(1)), 0);
    assert_eq!(status_priority(&EndpointStatus::Checking), 1);
    assert_eq!(status_priority(&EndpointStatus::Unknown), 2);
    assert_eq!(status_priority(&offline("x")), 3);
}

#[test]
fn summary_counts_each_state() {
    assert_eq!(
        status_summary(&sample()),
        StatusSummary { online: 4, offline: 2, checking: 1, unknown: 2 }
    );
    assert_eq!(
        status_summary(&Vec::new()),
        StatusSummary { online: 0, offline: 0, checking: 0, unknown: 0 }
    );
}

#[test]
fn rows_are_ordered_by_status_then_name() {
    let rows = sorted_endpoints(&sample());
    let names: Vec<(&str, u8)> =
        rows.iter().map(|r| (r.endpoint.name.as_str(), status_priority(&r.status))).collect();
    assert_eq!(
        names,
        vec![
            ("Zulu", 0),
            ("ech", 0),
            ("echo", 0),
            ("echo", 0),
            ("charlie", 1),
            ("", 2),
            ("bravo", 2),
            ("alpha", 3),
            ("delta", 3),
        ]
    );
}

#[test]
fn rows_hold_the_same_records_as_the_snapshot() {
    let records = sample();
    let rows = sorted_endpoints(&records);
    assert_eq!(rows.len(), records.len());
    for r in &records {
        let before = records.iter().filter(|x| *x == r).count();
        let after = rows.iter().filter(|x| *x == r).count();
        assert_eq!(before, after);
    }
    assert_eq!(sorted_endpoints(&Vec::new()), Vec::new());
}

#[test]
fn rows_agree_with_the_order_of_strings() {
    let names = ["b", "a", "ab", "", "é", "z", "Z", "aa", "a b", "日本", "e"];
    let records: Vec<EndpointInfo> =
        names.iter().map(|n| record(n, EndpointStatus::Unknown, None)).collect();
    let rows = sorted_endpoints(&records);
    let got: Vec<String> = rows.iter().map(|r| r.endpoint.name.clone()).collect();
    let mut expected: Vec<String> = names.iter().map(|n| n.to_string()).collect();
    expected.sort();
    assert_eq!(got, expected);
    for a in &records {
        for b in &records {
            assert_eq!(stands_before(a, b), a.endpoint.name <= b.endpoint.name);
        }
    }
}

#[test]
fn timestamp_as_date_and_time() {
    assert_eq!(format_timestamp(0), "1970-01-01 00:00:00 UTC");
    assert_eq!(format_timestamp(1431648000), "2015-05-15 00:00:00 UTC");
    assert_eq!(format_timestamp(1700000000), "2023-11-14 22:13:20 UTC");
    assert_eq!(format_timestamp(-1), "1969-12-31 23:59:59 UTC");
}

#[test]
fn timestamp_outside_the_calendar_is_a_dash() {
    assert_eq!(format_timestamp(i64::MAX), "—");
    assert_eq!(format_timestamp(i64::MIN), "—");
    assert_eq!(timestamp_label(None), "—");
    assert_eq!(timestamp_label(Some("2015-05-15 00:00:00 UTC".to_string())), "2015-05-15 00:00:00 UTC");
}

#[test]
fn last_check_of_a_record() {
    assert_eq!(last_check_label(&record("a", EndpointStatus::Unknown, None)), "Never");
    assert_eq!(last_check_label(&record("a", EndpointStatus::Checking, None)), "Never");
    assert_eq!(
        last_check_label(&record("a", online(3), Some(1431648000))),
        "2015-05-15 00:00:00 UTC"
    );
}

#[test]
fn response_and_details_of_each_status() {
    assert_eq!(response_label(&online(0)), "0ms");
    assert_eq!(response_label(&online(1234)), "1234ms");
    assert_eq!(response_label(&offline("x")), "—");
    assert_eq!(response_label(&EndpointStatus::Checking), "—");
    assert_eq!(response_label(&EndpointStatus::Unknown), "—");
    assert_eq!(details_label(&offline("Connection timeout (2s)")), "Connection timeout (2s)");
    assert_eq!(details_label(&EndpointStatus::Checking), "Connecting...");
    assert_eq!(details_label(&online(5)), "—");
    assert_eq!(details_label(&EndpointStatus::Unknown), "—");
}
