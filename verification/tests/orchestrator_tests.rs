use usm_core::orchestrator::{StartPlan, StopPlan};
use usm_core::{
    EventBus, InstanceConfig, ServiceCategory, ServiceEvent, ServiceStatus, ServiceTemplate,
    UsmCore, UsmError,
};

fn template(id: &str, default_port: u16, supports_multiple: bool) -> ServiceTemplate {
    ServiceTemplate {
        id: id.to_string(),
        display_name: format!("Template {}", id),
        description: None,
        default_port,
        port_range: None,
        start_command: "serve --port {port}".to_string(),
        stop_command: None,
        health_endpoint: None,
        health_timeout_ms: 5000,
        category: ServiceCategory::Core,
        supports_multiple,
        is_docker: false,
        default_env: Vec::new(),
    }
}

fn config(instance_id: &str, template_id: &str, port: Option<u16>) -> InstanceConfig {
    InstanceConfig {
        instance_id: instance_id.to_string(),
        template_id: template_id.to_string(),
        port,
        working_dir: None,
        config_path: None,
        version: None,
        git_branch: None,
        tags: Vec::new(),
        auto_start: false,
        env_vars: Vec::new(),
    }
}

#[test]
fn test_usm_core_creation() {
    let core = UsmCore::new();
    assert!(core.list_templates().is_empty());
    assert!(core.list_instances(None).is_empty());
}

#[test]
fn scenario_single_instance_template() {
    // Register template T (default_port 9000, supports_multiple false);
    // create instance A from T; creating instance B from T fails.
    let mut core = UsmCore::new();
    core.register_template(template("T", 9000, false)).unwrap();

    let a = core.create_instance(config("A", "T", None)).unwrap();
    assert_eq!(a, "A");
    assert_eq!(core.get_instance("A").unwrap().port, 9000);

    let b = core.create_instance(config("B", "T", Some(9500)));
    assert_eq!(b.unwrap_err(), UsmError::Conflict);
}

#[test]
fn scenario_port_conflict() {
    // Create A with explicit port 9000; B with the same port fails;
    // B with port 9001 succeeds.
    let mut core = UsmCore::new();
    core.register_template(template("T", 9000, true)).unwrap();

    core.create_instance(config("A", "T", Some(9000))).unwrap();

    let clash = core.create_instance(config("B", "T", Some(9000)));
    assert_eq!(clash.unwrap_err(), UsmError::Conflict);

    core.create_instance(config("B", "T", Some(9001))).unwrap();
    assert_eq!(core.get_instance("B").unwrap().port, 9001);
}

#[test]
fn scenario_start_stop() {
    // Start A: Running, pid set, started_at set.  Stop A: Stopped, pid
    // none, started_at none.
    let mut core = UsmCore::new();
    core.register_template(template("T", 9000, true)).unwrap();
    core.create_instance(config("A", "T", None)).unwrap();

    match core.start_plan("A").unwrap() {
        StartPlan::Launch { command, working_dir, port } => {
            assert_eq!(command, "serve --port 9000");
            assert_eq!(working_dir, None);
            assert_eq!(port, 9000);
        },
        StartPlan::AlreadyRunning { .. } => panic!("fresh instance reported running"),
    }
    core.finish_start("A", 4242).unwrap();

    let running = core.get_instance("A").unwrap();
    assert_eq!(running.status, ServiceStatus::Running);
    assert_eq!(running.pid, Some(4242));
    assert!(running.started_at.is_some());

    match core.stop_plan("A").unwrap() {
        StopPlan::Kill { pid } => assert_eq!(pid, 4242),
        _ => panic!("running instance should plan a kill"),
    }
    core.finish_stop("A").unwrap();

    let stopped = core.get_instance("A").unwrap();
    assert_eq!(stopped.status, ServiceStatus::Stopped);
    assert_eq!(stopped.pid, None);
    assert_eq!(stopped.started_at, None);
}

#[test]
fn scenario_publish() {
    // Zero subscribers: count 0.  Two subscribers: count 2, identical
    // payloads observed by both.
    let bus = EventBus::new(16);
    let none = bus.send(ServiceEvent::ConfigReloaded);
    assert_eq!(none, 0);

    let mut rx1 = bus.subscribe();
    let mut rx2 = bus.subscribe();
    let sent = bus.send(ServiceEvent::StatusChanged {
        instance_id: "A".to_string(),
        status: ServiceStatus::Running,
        pid: Some(7),
    });
    assert_eq!(sent, 2);

    let e1 = rx1.try_recv().unwrap();
    let e2 = rx2.try_recv().unwrap();
    assert_eq!(e1.event_type(), e2.event_type());
    assert_eq!(e1.instance_id(), e2.instance_id());
    match (e1, e2) {
        (
            ServiceEvent::StatusChanged { instance_id: i1, status: s1, pid: p1 },
            ServiceEvent::StatusChanged { instance_id: i2, status: s2, pid: p2 },
        ) => {
            assert_eq!(i1, i2);
            assert_eq!(s1, s2);
            assert_eq!(p1, p2);
        },
        _ => panic!("wrong event kinds"),
    }
}

#[test]
fn scenario_restart() {
    // A restart stops the instance, waits at least the configured
    // inter-phase delay, and starts it again: it ends Running with a
    // new pid.
    let mut core = UsmCore::new();
    core.register_template(template("T", 9000, true)).unwrap();
    core.create_instance(config("A", "T", None)).unwrap();
    core.finish_start("A", 1111).unwrap();

    // Stop phase.
    match core.stop_plan("A").unwrap() {
        StopPlan::Kill { pid } => assert_eq!(pid, 1111),
        _ => panic!("expected a kill plan"),
    }
    core.finish_stop("A").unwrap();
    assert_eq!(core.get_instance("A").unwrap().status, ServiceStatus::Stopped);

    // The driver sleeps the configured delay between the phases.
    assert_eq!(usm_core::monitor::RESTART_DELAY_MS, 2000);

    // Start phase, with the pid the monitor captured for the new process.
    match core.start_plan("A").unwrap() {
        StartPlan::Launch { command, .. } => assert_eq!(command, "serve --port 9000"),
        _ => panic!("expected a launch plan"),
    }
    core.finish_start("A", 2222).unwrap();

    let restarted = core.get_instance("A").unwrap();
    assert_eq!(restarted.status, ServiceStatus::Running);
    assert_eq!(restarted.pid, Some(2222));
    assert_ne!(restarted.pid, Some(1111));
}

#[test]
fn test_stop_already_stopped_is_noop() {
    // Stopping an instance already in Stopped status succeeds without
    // any monitor action and leaves state unchanged.
    let mut core = UsmCore::new();
    core.register_template(template("T", 9000, true)).unwrap();
    core.create_instance(config("A", "T", None)).unwrap();

    let before = core.get_instance("A").unwrap();
    match core.stop_plan("A").unwrap() {
        StopPlan::AlreadyStopped => {},
        _ => panic!("stopped instance must plan no action"),
    }
    let after = core.get_instance("A").unwrap();
    assert_eq!(after.status, before.status);
    assert_eq!(after.pid, before.pid);
    assert_eq!(after.started_at, before.started_at);
}

#[test]
fn test_start_already_running_is_noop() {
    let mut core = UsmCore::new();
    core.register_template(template("T", 9000, true)).unwrap();
    core.create_instance(config("A", "T", None)).unwrap();
    core.finish_start("A", 77).unwrap();

    match core.start_plan("A").unwrap() {
        StartPlan::AlreadyRunning { pid } => assert_eq!(pid, Some(77)),
        _ => panic!("running instance must report already running"),
    }
}

#[test]
fn test_custom_stop_command_takes_precedence() {
    let mut core = UsmCore::new();
    let mut tpl = template("T", 9000, true);
    tpl.stop_command = Some("shutdown --pid {pid}".to_string());
    core.register_template(tpl).unwrap();
    core.create_instance(config("A", "T", None)).unwrap();
    core.finish_start("A", 555).unwrap();

    match core.stop_plan("A").unwrap() {
        StopPlan::Run { command } => assert_eq!(command, "shutdown --pid 555"),
        _ => panic!("template stop command must take precedence"),
    }
}

#[test]
fn test_unknown_ids_give_not_found() {
    let mut core = UsmCore::new();
    assert_eq!(core.start_plan("ghost").unwrap_err(), UsmError::NotFound);
    assert_eq!(core.stop_plan("ghost").unwrap_err(), UsmError::NotFound);
    assert_eq!(core.finish_start("ghost", 1).unwrap_err(), UsmError::NotFound);
    assert_eq!(core.finish_stop("ghost").unwrap_err(), UsmError::NotFound);
    assert_eq!(core.remove_instance("ghost").unwrap_err(), UsmError::NotFound);
    assert_eq!(core.remove_template("ghost").unwrap_err(), UsmError::NotFound);
    assert_eq!(
        core.create_instance(config("A", "ghost", None)).unwrap_err(),
        UsmError::NotFound
    );
    assert_eq!(
        core.clone_instance("ghost", config("B", "", None)).unwrap_err(),
        UsmError::NotFound
    );
}

#[test]
fn test_create_rejects_empty_id() {
    let mut core = UsmCore::new();
    core.register_template(template("T", 9000, true)).unwrap();
    assert_eq!(
        core.create_instance(config("", "T", None)).unwrap_err(),
        UsmError::Validation
    );
}

#[test]
fn test_remove_template_with_instances_fails() {
    let mut core = UsmCore::new();
    core.register_template(template("T", 9000, true)).unwrap();
    core.create_instance(config("A", "T", None)).unwrap();

    assert_eq!(core.remove_template("T").unwrap_err(), UsmError::Conflict);

    core.remove_instance("A").unwrap();
    core.remove_template("T").unwrap();
    assert!(core.list_templates().is_empty());
}

#[test]
fn test_clone_inherits_template() {
    let mut core = UsmCore::new();
    core.register_template(template("T", 9000, true)).unwrap();
    core.create_instance(config("A", "T", Some(9000))).unwrap();

    let cloned = core
        .clone_instance("A", config("A2", "ignored", Some(9001)))
        .unwrap();
    assert_eq!(cloned, "A2");
    assert_eq!(core.get_instance("A2").unwrap().template_id, "T");
}

#[test]
fn test_ids_matching_tags() {
    let mut core = UsmCore::new();
    core.register_template(template("T", 9000, true)).unwrap();
    let mut blue = config("blue-1", "T", Some(9000));
    blue.tags = vec!["blue".to_string()];
    let mut green = config("green-1", "T", Some(9001));
    green.tags = vec!["green".to_string()];
    core.create_instance(blue).unwrap();
    core.create_instance(green).unwrap();

    assert_eq!(core.ids_matching_tags(&["blue"]), vec!["blue-1".to_string()]);
    assert_eq!(
        core.ids_matching_tags(&["blue", "green"]),
        vec!["blue-1".to_string(), "green-1".to_string()]
    );
    assert!(core.ids_matching_tags(&["red"]).is_empty());
    assert!(core.ids_matching_tags(&[]).is_empty());
}

#[test]
fn test_status_counts_through_core() {
    let mut core = UsmCore::new();
    core.register_template(template("T", 9000, true)).unwrap();
    core.create_instance(config("A", "T", Some(9000))).unwrap();
    core.create_instance(config("B", "T", Some(9001))).unwrap();
    core.finish_start("A", 9).unwrap();

    let counts = core.status_counts();
    assert_eq!(counts.running, 1);
    assert_eq!(counts.stopped, 1);
    assert_eq!(counts.error, 0);
}

#[test]
fn test_error_names() {
    assert_eq!(UsmError::NotFound.name(), "not_found");
    assert_eq!(UsmError::Conflict.name(), "conflict");
    assert_eq!(UsmError::Validation.name(), "validation");
    assert_eq!(UsmError::ProcessFailure.name(), "process_failure");
    assert_eq!(UsmError::PersistenceFailure.name(), "persistence_failure");
}
