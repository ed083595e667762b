use usm_core::{
    InstanceConfig, InstanceRegistry, ServiceCategory, ServiceInstance, ServiceStatus,
    ServiceTemplate, TemplateRegistry,
};

fn create_test_template(id: &str) -> ServiceTemplate {
    ServiceTemplate {
        id: id.to_string(),
        display_name: format!("Test {}", id),
        description: None,
        default_port: 8000,
        port_range: Some((8000, 8099)),
        start_command: "echo start".to_string(),
        stop_command: None,
        health_endpoint: None,
        health_timeout_ms: 5000,
        category: ServiceCategory::Core,
        supports_multiple: true,
        is_docker: false,
        default_env: Vec::new(),
    }
}

fn create_test_instance(id: &str, port: u16) -> ServiceInstance {
    ServiceInstance::from_config(InstanceConfig {
        instance_id: id.to_string(),
        template_id: "test".to_string(),
        port: Some(port),
        working_dir: None,
        config_path: None,
        version: None,
        git_branch: None,
        tags: vec!["test".to_string()],
        auto_start: false,
        env_vars: Vec::new(),
    })
    .unwrap()
}

#[test]
fn test_template_registry() {
    let mut registry = TemplateRegistry::new();

    // Add template
    registry.register(create_test_template("test1")).unwrap();
    assert_eq!(registry.len(), 1);

    // Get template
    let template = registry.get("test1").unwrap();
    assert_eq!(template.id, "test1");

    // Duplicate should fail
    let result = registry.register(create_test_template("test1"));
    assert!(result.is_err());

    // Remove template
    registry.remove("test1").unwrap();
    assert!(registry.is_empty());
}

#[test]
fn test_instance_registry() {
    let mut registry = InstanceRegistry::new();

    // Add instance
    registry.add(create_test_instance("inst1", 8001)).unwrap();
    assert_eq!(registry.len(), 1);

    // Port conflict should fail
    let result = registry.add(create_test_instance("inst2", 8001));
    assert!(result.is_err());

    // Different port should work
    registry.add(create_test_instance("inst2", 8002)).unwrap();
    assert_eq!(registry.len(), 2);

    // Find by port
    let found = registry.find_by_port(8001).unwrap();
    assert_eq!(found.id, "inst1");

    // Update status
    registry
        .update_status("inst1", ServiceStatus::Running, Some(12345))
        .unwrap();
    let instance = registry.get("inst1").unwrap();
    assert_eq!(instance.status, ServiceStatus::Running);
    assert_eq!(instance.pid, Some(12345));
}

#[test]
fn test_instance_filtering() {
    let mut registry = InstanceRegistry::new();

    let mut inst1 = create_test_instance("inst1", 8001);
    inst1.tags = vec!["production".to_string()];
    inst1.status = ServiceStatus::Running;

    let mut inst2 = create_test_instance("inst2", 8002);
    inst2.tags = vec!["development".to_string()];
    inst2.status = ServiceStatus::Stopped;

    registry.add(inst1).unwrap();
    registry.add(inst2).unwrap();

    // Filter by tag
    let prod = registry.list_by_tag("production");
    assert_eq!(prod.len(), 1);
    assert_eq!(prod[0].id, "inst1");

    // Filter by status
    let running = registry.list_by_status(ServiceStatus::Running);
    assert_eq!(running.len(), 1);
    assert_eq!(running[0].id, "inst1");

    // Status counts
    let counts = registry.status_counts();
    assert_eq!(counts.running, 1);
    assert_eq!(counts.stopped, 1);
}

#[test]
fn test_registry_queries() {
    let mut registry = InstanceRegistry::new();
    let mut a = create_test_instance("a", 9000);
    a.auto_start = true;
    registry.add(a).unwrap();
    registry.add(create_test_instance("b", 9001)).unwrap();

    assert_eq!(registry.used_ports(), vec![9000, 9001]);
    assert_eq!(registry.ids(), vec!["a".to_string(), "b".to_string()]);
    assert!(registry.has_instances_for_template("test"));
    assert!(!registry.has_instances_for_template("other"));

    let auto = registry.auto_start_instances();
    assert_eq!(auto.len(), 1);
    assert_eq!(auto[0].id, "a");

    let by_template = registry.list_by_template("test");
    assert_eq!(by_template.len(), 2);

    registry.remove("a").unwrap();
    assert_eq!(registry.len(), 1);
    assert_eq!(registry.remove("a").unwrap_err(), usm_core::UsmError::NotFound);
}

#[test]
fn test_update_status_derives_started_at() {
    let mut registry = InstanceRegistry::new();
    registry.add(create_test_instance("inst", 8800)).unwrap();

    assert!(registry.get("inst").unwrap().started_at.is_none());

    registry
        .update_status("inst", ServiceStatus::Running, Some(7))
        .unwrap();
    let running = registry.get("inst").unwrap();
    assert!(running.started_at.is_some());

    registry
        .update_status("inst", ServiceStatus::Stopped, None)
        .unwrap();
    let stopped = registry.get("inst").unwrap();
    assert!(stopped.started_at.is_none());
    assert!(stopped.pid.is_none());
}
