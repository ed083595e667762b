use usm_core::{InstanceMetrics, SystemMetrics};

#[test]
fn test_instance_metrics() {
    let metrics = InstanceMetrics {
        cpu_percent_hundredths: 2550,
        memory_bytes: 256 * 1024 * 1024, // 256 MB
        memory_percent_hundredths: 320,
        threads: 10,
        open_files: 50,
        uptime_seconds: 3665, // 1h 1m 5s
    };

    assert_eq!(metrics.memory_mb(), 256);
    assert_eq!(metrics.uptime_string(), "1h 1m");
}

#[test]
fn test_uptime_formatting() {
    let cases = [
        (30, "30s"),
        (90, "1m 30s"),
        (3600, "1h 0m"),
        (3665, "1h 1m"),
        (86400, "1d 0h"),
        (90061, "1d 1h"),
    ];

    for (secs, expected) in cases {
        let metrics = InstanceMetrics {
            cpu_percent_hundredths: 0,
            memory_bytes: 0,
            memory_percent_hundredths: 0,
            threads: 0,
            open_files: 0,
            uptime_seconds: secs,
        };
        assert_eq!(
            metrics.uptime_string(),
            expected,
            "Failed for {} seconds",
            secs
        );
    }
}

#[test]
fn test_system_metrics_defaults_and_queries() {
    let zero = SystemMetrics::default();
    assert_eq!(zero.memory_total_bytes, 0);
    assert_eq!(zero.memory_available_bytes(), 0);

    let metrics = SystemMetrics {
        cpu_percent_hundredths: 1200,
        memory_total_bytes: 16_000,
        memory_used_bytes: 6_000,
        memory_percent_hundredths: 3750,
        load_one_hundredths: 150,
        load_five_hundredths: 120,
        load_fifteen_hundredths: 90,
    };
    assert_eq!(metrics.memory_available_bytes(), 10_000);
    assert_eq!(metrics.load_average_tuple(), (150, 120, 90));
}

#[test]
fn test_percent_hundredths() {
    assert_eq!(usm_core::metrics::percent_hundredths(512, 1024), 5000);
    assert_eq!(usm_core::metrics::percent_hundredths(1024, 1024), 10000);
    assert_eq!(usm_core::metrics::percent_hundredths(1, 0), 0);
    assert_eq!(usm_core::metrics::percent_hundredths(0, 7), 0);
}
