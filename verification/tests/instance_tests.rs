use usm_core::{InstanceConfig, ServiceInstance, ServiceStatus};

fn config(instance_id: &str, template_id: &str, port: Option<u16>, tags: Vec<String>) -> InstanceConfig {
    InstanceConfig {
        instance_id: instance_id.to_string(),
        template_id: template_id.to_string(),
        port,
        working_dir: None,
        config_path: None,
        version: None,
        git_branch: None,
        tags,
        auto_start: false,
        env_vars: Vec::new(),
    }
}

#[test]
fn test_instance_from_config() {
    let config = InstanceConfig {
        instance_id: "test-instance".to_string(),
        template_id: "test-template".to_string(),
        port: Some(8080),
        working_dir: Some("/opt/app".to_string()),
        config_path: None,
        version: Some("1.0.0".to_string()),
        git_branch: None,
        tags: vec!["production".to_string(), "stable".to_string()],
        auto_start: true,
        env_vars: Vec::new(),
    };

    let instance = ServiceInstance::from_config(config).unwrap();

    assert_eq!(instance.id, "test-instance");
    assert_eq!(instance.template_id, "test-template");
    assert_eq!(instance.port, 8080);
    assert_eq!(instance.status, ServiceStatus::Stopped);
    assert!(instance.has_tag("production"));
    assert!(instance.has_tag("stable"));
    assert!(!instance.has_tag("development"));
}

#[test]
fn test_instance_tags() {
    let config = config(
        "test",
        "test",
        None,
        vec!["production".to_string(), "api".to_string()],
    );

    let instance = ServiceInstance::from_config(config).unwrap();

    assert!(instance.matches_tags(&["production"]));
    assert!(instance.matches_tags(&["development", "production"]));
    assert!(!instance.matches_tags(&["development", "staging"]));
}

#[test]
fn test_status_display() {
    assert_eq!(ServiceStatus::Running.name(), "running");
    assert_eq!(ServiceStatus::Stopped.name(), "stopped");
    assert_eq!(ServiceStatus::Error.name(), "error");
}

#[test]
fn uptime_formatting_consistency() {
    // Various durations must format with the expected magnitude suffix.
    let test_cases = [
        (30i64, "s"), // seconds format
        (90, "m"),    // minutes format
        (3700, "h"),  // hours format
        (90000, "d"), // days format
    ];

    let now: i64 = 1_700_000_000;
    for (secs, expected_suffix) in test_cases {
        let mut instance = ServiceInstance::from_config(config("test", "test", Some(8080), vec![]))
            .unwrap();
        instance.started_at = Some(now - secs);

        let uptime_str = instance.uptime_string(now);
        assert!(
            uptime_str.is_some(),
            "Uptime string should be Some when started_at is set"
        );
        assert!(
            uptime_str.unwrap().contains(expected_suffix),
            "Uptime for {} secs should contain '{}'",
            secs,
            expected_suffix
        );
    }
}

#[test]
fn test_empty_instance_id_rejected() {
    let result = ServiceInstance::from_config(config("", "tpl", Some(8080), vec![]));
    assert_eq!(result.unwrap_err(), usm_core::UsmError::Validation);
}

#[test]
fn test_empty_template_id_rejected() {
    let result = ServiceInstance::from_config(config("inst", "", Some(8080), vec![]));
    assert_eq!(result.unwrap_err(), usm_core::UsmError::Validation);
}

#[test]
fn test_uptime_values() {
    let mut instance =
        ServiceInstance::from_config(config("t", "t", Some(8080), vec![])).unwrap();
    assert_eq!(instance.uptime(1_700_000_000), None);
    instance.started_at = Some(1_700_000_000);
    assert_eq!(instance.uptime(1_700_000_042), Some(42));
    assert_eq!(instance.uptime_string(1_700_000_030).unwrap(), "30s");
    assert_eq!(instance.uptime_string(1_700_000_090).unwrap(), "1m");
    assert_eq!(instance.uptime_string(1_700_003_700).unwrap(), "1h 1m");
    assert_eq!(instance.uptime_string(1_700_090_000).unwrap(), "1d 1h");
}

#[test]
fn test_status_codes_fixed() {
    assert_eq!(ServiceStatus::Stopped.to_code(), 0);
    assert_eq!(ServiceStatus::Running.to_code(), 1);
    assert_eq!(ServiceStatus::Error.to_code(), 2);
    assert_eq!(ServiceStatus::Starting.to_code(), 3);
    assert_eq!(ServiceStatus::Stopping.to_code(), 4);
    assert_eq!(ServiceStatus::Unknown.to_code(), 5);
}

#[test]
fn test_status_from_name() {
    assert_eq!(ServiceStatus::from_name("running"), Some(ServiceStatus::Running));
    assert_eq!(ServiceStatus::from_name("stopped"), Some(ServiceStatus::Stopped));
    assert_eq!(ServiceStatus::from_name("error"), Some(ServiceStatus::Error));
    assert_eq!(ServiceStatus::from_name("paused"), None);
}
