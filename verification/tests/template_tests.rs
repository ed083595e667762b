use usm_core::{ServiceCategory, ServiceInstance, ServiceStatus, ServiceTemplate};

fn create_test_template() -> ServiceTemplate {
    ServiceTemplate {
        id: "test-service".to_string(),
        display_name: "Test Service".to_string(),
        description: Some("A test service".to_string()),
        default_port: 8000,
        port_range: Some((8000, 8099)),
        start_command: "python3 {working_dir}/server.py --port {port} --config {config}"
            .to_string(),
        stop_command: Some("kill {pid}".to_string()),
        health_endpoint: Some("http://localhost:{port}/health".to_string()),
        health_timeout_ms: 5000,
        category: ServiceCategory::Core,
        supports_multiple: true,
        is_docker: false,
        default_env: Vec::new(),
    }
}

fn create_test_instance() -> ServiceInstance {
    ServiceInstance {
        id: "test-instance".to_string(),
        template_id: "test-service".to_string(),
        port: 8001,
        working_dir: Some("/opt/app".to_string()),
        config_path: Some("/etc/app/config.yaml".to_string()),
        version: Some("1.0.0".to_string()),
        git_branch: None,
        tags: vec!["production".to_string()],
        auto_start: false,
        env_vars: Vec::new(),
        status: ServiceStatus::Stopped,
        pid: None,
        started_at: None,
        created_at: 1_700_000_000,
        created_via: "config".to_string(),
    }
}

#[test]
fn test_build_start_command() {
    let template = create_test_template();
    let instance = create_test_instance();

    let cmd = template.build_start_command(&instance);
    assert_eq!(
        cmd,
        "python3 /opt/app/server.py --port 8001 --config /etc/app/config.yaml"
    );
}

#[test]
fn test_build_health_endpoint() {
    let template = create_test_template();
    let instance = create_test_instance();

    let endpoint = template.build_health_endpoint(&instance);
    assert_eq!(endpoint, Some("http://localhost:8001/health".to_string()));
}

#[test]
fn test_port_validation() {
    let template = create_test_template();

    assert!(template.is_port_valid(8000));
    assert!(template.is_port_valid(8050));
    assert!(template.is_port_valid(8099));
    assert!(!template.is_port_valid(7999));
    assert!(!template.is_port_valid(8100));
}

#[test]
fn test_next_available_port() {
    let template = create_test_template();

    // No ports used
    assert_eq!(template.next_available_port(&[]), Some(8000));

    // First port used
    assert_eq!(template.next_available_port(&[8000]), Some(8001));

    // Multiple ports used
    assert_eq!(
        template.next_available_port(&[8000, 8001, 8002]),
        Some(8003)
    );
}

#[test]
fn test_next_available_port_exhausted() {
    let mut template = create_test_template();
    template.port_range = Some((9000, 9002));
    assert_eq!(template.next_available_port(&[9000, 9001, 9002]), None);
    assert_eq!(template.next_available_port(&[9000, 9002]), Some(9001));
}

#[test]
fn test_start_command_defaults_for_missing_paths() {
    let template = create_test_template();
    let mut instance = create_test_instance();
    instance.working_dir = None;
    instance.config_path = None;

    let cmd = template.build_start_command(&instance);
    assert_eq!(cmd, "python3 ./server.py --port 8001 --config ");
}

#[test]
fn test_no_port_range_accepts_any_port() {
    let mut template = create_test_template();
    template.port_range = None;
    assert!(template.is_port_valid(1));
    assert!(template.is_port_valid(65535));
}
