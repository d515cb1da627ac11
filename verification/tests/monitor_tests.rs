use joinmarket_directory_checker::config::create_default_config;
use joinmarket_directory_checker::connection::Socks5Error;
use joinmarket_directory_checker::monitor::{
    status_from_outcome, ConfigError, CycleAction, CycleEvent, CyclePhase, MonitorService,
    ProbeOutcome,
};
use joinmarket_directory_checker::store::StatusStore;
use joinmarket_directory_checker::text::{decimal_string, host_port_string};
use joinmarket_directory_checker::types::{
    Config, Endpoint, EndpointInfo, EndpointStatus, MonitoringConfig, ProxyConfig, ServerConfig,
};

fn endpoint(name: &str, address: &str, port: u16) -> Endpoint {
    Endpoint { name: name.to_string(), address: address.to_string(), port }
}

fn offline(reason: &str) -> EndpointStatus {
    EndpointStatus::Offline { error: reason.to_string() }
}

fn config_with(endpoints: Vec<Endpoint>) -> Config {
    Config {
        server: ServerConfig { host: "127.0.0.1".to_string(), port: 3000 },
        proxy: ProxyConfig { host: "10.1.2.3".to_string(), port: 1080 },
        monitoring: MonitoringConfig { check_interval_seconds: 7, connection_timeout_seconds: 2 },
        endpoints,
    }
}

#[test]
fn default_config_values() {
    let config = create_default_config();
    assert_eq!(config.server, ServerConfig { host: "127.0.0.1".to_string(), port: 3000 });
    assert_eq!(config.proxy, ProxyConfig { host: "127.0.0.1".to_string(), port: 9050 });
    assert_eq!(
        config.monitoring,
        MonitoringConfig { check_interval_seconds: 30, connection_timeout_seconds: 10 }
    );
    assert_eq!(
        config.endpoints,
        vec![
            endpoint(
                "Example Hidden Service",
                "example1234567890abcdef1234567890abcdef12345678.onion",
                80
            ),
            endpoint(
                "Another Service",
                "another1234567890abcdef1234567890abcdef12345678.onion",
                8080
            ),
            endpoint("HTTPS Service", "secure1234567890abcdef1234567890abcdef12345678.onion", 443),
            endpoint(
                "RoboSats",
                "robosatsy56bwqn56qyadmcxkx767hnabg4mihxlmgyt6if5gnuxvzad.onion",
                80
            ),
        ]
    );
}

#[test]
fn status_words() {
    let online = EndpointStatus::Online { response_time_ms: 5 };
    assert_eq!(EndpointStatus::Unknown.status_text(), "Unknown");
    assert_eq!(EndpointStatus::Checking.status_text(), "Checking");
    assert_eq!(online.status_text(), "Online");
    assert_eq!(offline("x").status_text(), "Offline");
    assert_eq!(EndpointStatus::Unknown.status_emoji(), "⚪");
    assert_eq!(EndpointStatus::Checking.status_emoji(), "🟡");
    assert_eq!(online.status_emoji(), "🟢");
    assert_eq!(offline("x").status_emoji(), "🔴");
    assert_eq!(EndpointStatus::Unknown.css_class(), "status-unknown");
    assert_eq!(EndpointStatus::Checking.css_class(), "status-checking");
    assert_eq!(online.css_class(), "status-online");
    assert_eq!(offline("x").css_class(), "status-offline");
}

#[test]
fn status_fields() {
    let online = EndpointStatus::Online { response_time_ms: 5 };
    assert_eq!(online.response_time_ms(), Some(5));
    assert_eq!(online.error_text(), None);
    assert_eq!(offline("down").response_time_ms(), None);
    assert_eq!(offline("down").error_text(), Some("down"));
    assert_eq!(EndpointStatus::Checking.response_time_ms(), None);
    assert_eq!(EndpointStatus::Unknown.error_text(), None);
    assert_eq!(offline("down").duplicate(), offline("down"));
    assert_eq!(online.duplicate(), online);
}

#[test]
fn decimal_text_of_numbers() {
    assert_eq!(decimal_string(0), "0");
    assert_eq!(decimal_string(9), "9");
    assert_eq!(decimal_string(10), "10");
    assert_eq!(decimal_string(2048), "2048");
    assert_eq!(decimal_string(1234567890), "1234567890");
    assert_eq!(decimal_string(u64::MAX), "18446744073709551615");
}

#[test]
fn host_and_port_as_text() {
    assert_eq!(host_port_string("127.0.0.1", 9050), "127.0.0.1:9050");
    assert_eq!(host_port_string("abc.onion", 0), "abc.onion:0");
    assert_eq!(host_port_string("", 65535), ":65535");
}

#[test]
fn outcome_connected_is_online_with_the_time() {
    assert_eq!(
        status_from_outcome(ProbeOutcome::Connected { elapsed_ms: 1234 }, 10),
        EndpointStatus::Online { response_time_ms: 1234 }
    );
}

#[test]
fn outcome_timeout_of_two_seconds() {
    assert_eq!(status_from_outcome(ProbeOutcome::TimedOut, 2), offline("Connection timeout (2s)"));
    assert_eq!(status_from_outcome(ProbeOutcome::TimedOut, 10), offline("Connection timeout (10s)"));
    assert_eq!(status_from_outcome(ProbeOutcome::TimedOut, 0), offline("Connection timeout (0s)"));
}

#[test]
fn outcome_failure_is_offline_with_the_message() {
    assert_eq!(
        status_from_outcome(ProbeOutcome::Failed(Socks5Error::AuthenticationFailed), 2),
        offline("SOCKS5 authentication failed")
    );
    assert_eq!(
        status_from_outcome(
            ProbeOutcome::Failed(Socks5Error::ConnectionFailed("Connection refused".to_string())),
            2
        ),
        offline("SOCKS5 connection failed: Connection refused")
    );
    assert_eq!(
        status_from_outcome(ProbeOutcome::Failed(Socks5Error::Io("reset".to_string())), 2),
        offline("IO error: reset")
    );
    assert_eq!(
        status_from_outcome(ProbeOutcome::Failed(Socks5Error::InvalidResponse), 2),
        offline("Invalid SOCKS5 response")
    );
    assert_eq!(
        status_from_outcome(ProbeOutcome::Failed(Socks5Error::UnsupportedAddressType), 2),
        offline("Unsupported address type")
    );
}

#[test]
fn store_starts_with_one_unknown_record_per_endpoint() {
    let endpoints = vec![endpoint("a", "a.onion", 80), endpoint("b", "b.onion", 80), endpoint("c", "a.onion", 81)];
    let store = StatusStore::new(&endpoints);
    assert_eq!(store.len(), 3);
    for e in &endpoints {
        let record = store.get(&e.address, e.port).unwrap();
        assert_eq!(
            record,
            &EndpointInfo { endpoint: e.clone(), status: EndpointStatus::Unknown, last_check: None }
        );
    }
    assert_eq!(store.get(&"a.onion".to_string(), 82), None);
    assert_eq!(store.get(&"c.onion".to_string(), 80), None);
}

#[test]
fn store_of_no_endpoints_is_empty() {
    let store = StatusStore::new(&Vec::new());
    assert_eq!(store.len(), 0);
    assert_eq!(store.snapshot(), Vec::new());
}

#[test]
fn store_keeps_the_later_of_two_endpoints_with_one_key() {
    let endpoints = vec![endpoint("first", "a.onion", 80), endpoint("b", "b.onion", 80), endpoint("second", "a.onion", 80)];
    let store = StatusStore::new(&endpoints);
    assert_eq!(store.len(), 2);
    assert_eq!(store.get(&"a.onion".to_string(), 80).unwrap().endpoint.name, "second");
}

#[test]
fn store_marks_checking_without_touching_the_time() {
    let a = endpoint("a", "a.onion", 80);
    let b = endpoint("b", "b.onion", 80);
    let mut store = StatusStore::new(&vec![a.clone(), b.clone()]);
    store.mark_checking(&a);
    let record = store.get(&a.address, a.port).unwrap();
    assert_eq!(record.status, EndpointStatus::Checking);
    assert_eq!(record.last_check, None);
    assert_eq!(store.get(&b.address, b.port).unwrap().status, EndpointStatus::Unknown);

    store.record_result(&a, EndpointStatus::Online { response_time_ms: 40 }, 1_700_000_000);
    store.mark_checking(&a);
    let record = store.get(&a.address, a.port).unwrap();
    assert_eq!(record.status, EndpointStatus::Checking);
    assert_eq!(record.last_check, Some(1_700_000_000));
}

#[test]
fn store_records_status_and_time_together() {
    let a = endpoint("a", "a.onion", 80);
    let b = endpoint("b", "b.onion", 80);
    let mut store = StatusStore::new(&vec![a.clone(), b.clone()]);
    store.record_result(&b, offline("Connection timeout (2s)"), 99);
    assert_eq!(
        store.get(&b.address, b.port).unwrap(),
        &EndpointInfo { endpoint: b.clone(), status: offline("Connection timeout (2s)"), last_check: Some(99) }
    );
    assert_eq!(
        store.get(&a.address, a.port).unwrap(),
        &EndpointInfo { endpoint: a.clone(), status: EndpointStatus::Unknown, last_check: None }
    );
    assert_eq!(store.len(), 2);
}

#[test]
fn store_ignores_writes_to_a_key_it_does_not_hold() {
    let a = endpoint("a", "a.onion", 80);
    let mut store = StatusStore::new(&vec![a.clone()]);
    let before = store.snapshot();
    store.mark_checking(&endpoint("x", "x.onion", 80));
    store.record_result(&endpoint("a", "a.onion", 81), offline("no"), 5);
    assert_eq!(store.snapshot(), before);
    assert_eq!(store.len(), 1);
}

#[test]
fn store_write_goes_by_key_and_keeps_the_stored_name() {
    let a = endpoint("stored", "a.onion", 80);
    let mut store = StatusStore::new(&vec![a.clone()]);
    store.record_result(&endpoint("other", "a.onion", 80), EndpointStatus::Online { response_time_ms: 1 }, 5);
    let record = store.get(&a.address, a.port).unwrap();
    assert_eq!(record.endpoint.name, "stored");
    assert_eq!(record.status, EndpointStatus::Online { response_time_ms: 1 });
}

#[test]
fn store_keeps_exactly_its_keys_whatever_the_order_of_completion() {
    let mut endpoints = Vec::new();
    for i in 0..60u16 {
        endpoints.push(endpoint(&format!("service {}", i), &format!("host{}.onion", i % 30), 8000 + i / 30));
    }
    let mut store = StatusStore::new(&endpoints);
    assert_eq!(store.len(), 60);
    for e in &endpoints {
        store.mark_checking(e);
    }
    // Completions land in an order unrelated to the order of launch.
    for step in 0..60usize {
        let i = (step * 37 + 11) % 60;
        let status = if i % 2 == 0 {
            EndpointStatus::Online { response_time_ms: i as u64 }
        } else {
            offline("SOCKS5 connection failed: Host unreachable")
        };
        store.record_result(&endpoints[i], status, 1000 + step as i64);
    }
    assert_eq!(store.len(), 60);
    let snapshot = store.snapshot();
    assert_eq!(snapshot.len(), 60);
    for (i, e) in endpoints.iter().enumerate() {
        let record = store.get(&e.address, e.port).unwrap();
        assert_eq!(&record.endpoint, e);
        assert_eq!(snapshot.iter().filter(|r| r.endpoint.address == e.address && r.endpoint.port == e.port).count(), 1);
        assert!(record.last_check.is_some());
        if i % 2 == 0 {
            assert_eq!(record.status, EndpointStatus::Online { response_time_ms: i as u64 });
        } else {
            assert_eq!(record.status, offline("SOCKS5 connection failed: Host unreachable"));
        }
    }
}

#[test]
fn service_starts_with_every_endpoint_unknown() {
    let config = create_default_config();
    let service = MonitorService::new(config.clone());
    assert_eq!(service.config(), &config);
    assert_eq!(service.phase(), CyclePhase::Idle);
    let store = service.get_status_store();
    assert_eq!(store.len(), 4);
    for record in store.snapshot() {
        assert_eq!(record.status, EndpointStatus::Unknown);
        assert_eq!(record.last_check, None);
    }
    assert_eq!(service.proxy_address(), "127.0.0.1:9050");
}

#[test]
fn service_check_writes_checking_then_the_outcome() {
    let a = endpoint("a", "a.onion", 80);
    let b = endpoint("b", "b.onion", 443);
    let mut service = MonitorService::new(config_with(vec![a.clone(), b.clone()]));
    service.begin_check(&a);
    assert_eq!(service.get_status_store().get(&a.address, a.port).unwrap().status, EndpointStatus::Checking);
    assert_eq!(service.get_status_store().get(&a.address, a.port).unwrap().last_check, None);
    service.check_endpoint(&a, ProbeOutcome::TimedOut, 1234);
    assert_eq!(
        service.get_status_store().get(&a.address, a.port).unwrap(),
        &EndpointInfo { endpoint: a.clone(), status: offline("Connection timeout (2s)"), last_check: Some(1234) }
    );
    service.check_endpoint(&b, ProbeOutcome::Connected { elapsed_ms: 321 }, 1235);
    assert_eq!(
        service.get_status_store().get(&b.address, b.port).unwrap(),
        &EndpointInfo { endpoint: b.clone(), status: EndpointStatus::Online { response_time_ms: 321 }, last_check: Some(1235) }
    );
    assert_eq!(service.phase(), CyclePhase::Idle);
}

#[test]
fn scheduler_launches_waits_for_all_then_sleeps() {
    let endpoints = vec![endpoint("a", "a.onion", 80), endpoint("b", "b.onion", 80), endpoint("c", "c.onion", 80)];
    let mut service = MonitorService::new(config_with(endpoints));
    assert_eq!(service.start_monitoring(true), Ok(CycleAction::Launch { checks: 3, timeout_seconds: 2 }));
    assert_eq!(service.phase(), CyclePhase::Running { outstanding: 3 });
    assert_eq!(service.advance(CycleEvent::CheckFinished), CycleAction::Wait);
    assert_eq!(service.phase(), CyclePhase::Running { outstanding: 2 });
    assert_eq!(service.advance(CycleEvent::Wake), CycleAction::Wait);
    assert_eq!(service.phase(), CyclePhase::Running { outstanding: 2 });
    assert_eq!(service.advance(CycleEvent::CheckFinished), CycleAction::Wait);
    assert_eq!(service.advance(CycleEvent::CheckFinished), CycleAction::Sleep { seconds: 7 });
    assert_eq!(service.phase(), CyclePhase::Sleeping);
    assert_eq!(service.advance(CycleEvent::CheckFinished), CycleAction::Wait);
    assert_eq!(service.phase(), CyclePhase::Sleeping);
    assert_eq!(service.advance(CycleEvent::Wake), CycleAction::Launch { checks: 3, timeout_seconds: 2 });
    assert_eq!(service.phase(), CyclePhase::Running { outstanding: 3 });
}

#[test]
fn scheduler_without_endpoints_only_sleeps() {
    let mut service = MonitorService::new(config_with(Vec::new()));
    assert_eq!(service.start_monitoring(true), Ok(CycleAction::Sleep { seconds: 7 }));
    assert_eq!(service.phase(), CyclePhase::Sleeping);
    assert_eq!(service.advance(CycleEvent::Wake), CycleAction::Sleep { seconds: 7 });
}

#[test]
fn scheduler_with_one_endpoint() {
    let mut service = MonitorService::new(config_with(vec![endpoint("a", "a.onion", 80)]));
    assert_eq!(service.advance(CycleEvent::CheckFinished), CycleAction::Wait);
    assert_eq!(service.phase(), CyclePhase::Idle);
    assert_eq!(service.start_monitoring(true), Ok(CycleAction::Launch { checks: 1, timeout_seconds: 2 }));
    assert_eq!(service.advance(CycleEvent::CheckFinished), CycleAction::Sleep { seconds: 7 });
}

#[test]
fn scheduler_refuses_a_proxy_address_that_cannot_be_read() {
    let a = endpoint("a", "a.onion", 80);
    let mut config = config_with(vec![a.clone()]);
    config.proxy.host = "localhost".to_string();
    let mut service = MonitorService::new(config);
    assert_eq!(service.proxy_address(), "localhost:1080");
    let before = service.get_status_store().snapshot();
    assert_eq!(service.start_monitoring(false), Err(ConfigError::InvalidProxyAddress));
    assert_eq!(service.phase(), CyclePhase::Idle);
    assert_eq!(service.get_status_store().snapshot(), before);
    assert_eq!(ConfigError::InvalidProxyAddress.message(), "Invalid proxy address");
}
