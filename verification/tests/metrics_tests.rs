use alpha_proxy::metrics::{ConnectionMetrics, ProxyMetrics};

fn metric_value(name: &str, labels: &[(&str, &str)]) -> Option<f64> {
    for family in prometheus::gather() {
        if family.get_name() != name {
            continue;
        }
        for m in family.get_metric() {
            let matches = labels.iter().all(|(k, v)| {
                m.get_label().iter().any(|l| l.get_name() == *k && l.get_value() == *v)
            });
            if matches {
                if m.has_counter() {
                    return Some(m.get_counter().get_value());
                }
                if m.has_gauge() {
                    return Some(m.get_gauge().get_value());
                }
            }
        }
    }
    None
}

#[test]
fn test_connection_metrics() {
    let registered = ProxyMetrics::register().expect("the metrics register once");

    let metrics = ConnectionMetrics::new(&registered, "socks5", "testuser");
    assert_eq!(metrics.protocol(), "socks5");
    assert_eq!(metrics.username(), "testuser");

    // Test connection counting
    assert_eq!(
        Some(1.0),
        metric_value("proxy_active_connections", &[("protocol", "socks5"), ("user", "testuser")])
    );
    assert_eq!(
        Some(1.0),
        metric_value(
            "proxy_total_connections",
            &[("protocol", "socks5"), ("user", "testuser"), ("status", "connected")]
        )
    );

    // Test bytes tracking
    metrics.record_bytes_sent(1000);
    metrics.record_bytes_received(500);
    assert_eq!(
        Some(1000.0),
        metric_value(
            "proxy_bytes_transferred",
            &[("protocol", "socks5"), ("user", "testuser"), ("direction", "sent")]
        )
    );
    assert_eq!(
        Some(500.0),
        metric_value(
            "proxy_bytes_transferred",
            &[("protocol", "socks5"), ("user", "testuser"), ("direction", "received")]
        )
    );

    // Test auth metrics
    metrics.record_auth_success();
    assert_eq!(
        Some(1.0),
        metric_value("proxy_auth_attempts", &[("protocol", "socks5"), ("status", "success")])
    );
    metrics.record_auth_failure();
    assert_eq!(
        Some(1.0),
        metric_value("proxy_auth_attempts", &[("protocol", "socks5"), ("status", "failure")])
    );

    // Test rate limit metrics
    metrics.record_rate_limit_hit("rps");
    assert_eq!(
        Some(1.0),
        metric_value(
            "proxy_rate_limit_hits",
            &[("protocol", "socks5"), ("user", "testuser"), ("limit_type", "rps")]
        )
    );

    // Test error recording
    metrics.record_error("protocol_version");
    assert_eq!(
        Some(1.0),
        metric_value(
            "proxy_protocol_errors",
            &[("protocol", "socks5"), ("error_type", "protocol_version")]
        )
    );

    // Verify metrics are collected in the registry
    assert!(!prometheus::gather().is_empty());
    let help: Vec<(String, String)> = prometheus::gather()
        .iter()
        .map(|f| (f.get_name().to_string(), f.get_help().to_string()))
        .collect();
    assert!(help.contains(&(
        "proxy_bytes_transferred".to_string(),
        "Total bytes transferred".to_string()
    )));

    // Closing the connection updates the counters
    metrics.close();
    assert_eq!(
        Some(0.0),
        metric_value("proxy_active_connections", &[("protocol", "socks5"), ("user", "testuser")])
    );
    assert_eq!(
        Some(1.0),
        metric_value(
            "proxy_total_connections",
            &[("protocol", "socks5"), ("user", "testuser"), ("status", "disconnected")]
        )
    );

    // The same metrics cannot be registered twice.
    assert!(ProxyMetrics::register().is_none());
}
