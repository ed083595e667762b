use usm_core::{
    ConfigFile, InstanceConfigFile, ServiceCategory, TemplateConfig, UsmCore,
};
use usm_core::config::{
    instance_from_entry, instance_to_entry, resolve_path, snapshot_instances,
    template_config_with_defaults, template_from_entry, template_to_entry,
};

fn template_entry(display_name: &str, port: u16, multiple: bool) -> TemplateConfig {
    TemplateConfig {
        display_name: display_name.to_string(),
        description: None,
        default_port: port,
        port_range: None,
        start_command: "echo start".to_string(),
        stop_command: None,
        health_endpoint: None,
        health_timeout_ms: 5000,
        category: ServiceCategory::Core,
        supports_multiple: multiple,
        is_docker: false,
        default_env: Vec::new(),
    }
}

fn instance_entry(template: &str, port: Option<u16>, tags: Vec<String>) -> InstanceConfigFile {
    InstanceConfigFile {
        template: template.to_string(),
        port,
        working_dir: None,
        config: None,
        version: None,
        git_branch: None,
        tags,
        auto_start: false,
        env_vars: Vec::new(),
        created_at: None,
        created_via: None,
    }
}

#[test]
fn test_load_config() {
    let file = ConfigFile {
        templates: vec![(
            "test-service".to_string(),
            template_entry("Test Service", 8000, true),
        )],
        instances: vec![(
            "test-instance".to_string(),
            instance_entry("test-service", Some(8001), vec!["test".to_string()]),
        )],
    };

    let core = UsmCore::from_config(file).unwrap();

    assert_eq!(core.list_templates().len(), 1);
    assert_eq!(core.list_instances(None).len(), 1);

    let template = core.get_template("test-service").unwrap();
    assert_eq!(template.display_name, "Test Service");

    let instance = core.get_instance("test-instance").unwrap();
    assert_eq!(instance.port, 8001);
}

#[test]
fn default_health_timeout_is_reasonable() {
    let timeout = usm_core::template::default_health_timeout();
    assert!(timeout >= 1000, "Default timeout too short: {}ms", timeout);
    assert!(timeout <= 30000, "Default timeout too long: {}ms", timeout);
}

#[test]
fn template_config_defaults_are_safe() {
    // A minimal entry must come out with safe defaults everywhere else.
    let config = template_config_with_defaults(
        "Test".to_string(),
        8000,
        "echo start".to_string(),
    );

    assert_eq!(config.health_timeout_ms, 5000); // default
    assert!(!config.supports_multiple); // default false
    assert!(!config.is_docker); // default false
    assert!(config.default_env.is_empty()); // default empty
}

#[test]
fn test_load_uses_template_default_port() {
    let file = ConfigFile {
        templates: vec![("svc".to_string(), template_entry("Svc", 9100, true))],
        instances: vec![("svc-1".to_string(), instance_entry("svc", None, vec![]))],
    };
    let core = UsmCore::from_config(file).unwrap();
    assert_eq!(core.get_instance("svc-1").unwrap().port, 9100);
}

#[test]
fn test_load_rejects_unknown_template() {
    let file = ConfigFile {
        templates: vec![],
        instances: vec![("a".to_string(), instance_entry("ghost", Some(9000), vec![]))],
    };
    match UsmCore::from_config(file) {
        Err(e) => assert_eq!(e, usm_core::UsmError::NotFound),
        Ok(_) => panic!("an instance of an unknown template must be refused"),
    }
}

#[test]
fn test_load_rejects_duplicate_templates() {
    let file = ConfigFile {
        templates: vec![
            ("svc".to_string(), template_entry("A", 9000, true)),
            ("svc".to_string(), template_entry("B", 9001, true)),
        ],
        instances: vec![],
    };
    match UsmCore::from_config(file) {
        Err(e) => assert_eq!(e, usm_core::UsmError::Conflict),
        Ok(_) => panic!("a duplicate template id must be refused"),
    }
}

#[test]
fn test_load_rejects_single_instance_violation() {
    let file = ConfigFile {
        templates: vec![("solo".to_string(), template_entry("Solo", 9000, false))],
        instances: vec![
            ("a".to_string(), instance_entry("solo", Some(9000), vec![])),
            ("b".to_string(), instance_entry("solo", Some(9001), vec![])),
        ],
    };
    match UsmCore::from_config(file) {
        Err(e) => assert_eq!(e, usm_core::UsmError::Conflict),
        Ok(_) => panic!("two instances of a single-instance template must be refused"),
    }
}

#[test]
fn test_load_rejects_duplicate_ports() {
    let file = ConfigFile {
        templates: vec![("svc".to_string(), template_entry("Svc", 9000, true))],
        instances: vec![
            ("a".to_string(), instance_entry("svc", Some(9000), vec![])),
            ("b".to_string(), instance_entry("svc", None, vec![])),
        ],
    };
    match UsmCore::from_config(file) {
        Err(e) => assert_eq!(e, usm_core::UsmError::Conflict),
        Ok(_) => panic!("two instances on one port must be refused"),
    }
}

#[test]
fn test_template_entry_roundtrip_values() {
    let tc = template_entry("Round Trip", 8042, true);
    let template = template_from_entry("svc".to_string(), tc.clone());
    let (id, back) = template_to_entry(template);

    assert_eq!(id, "svc");
    assert_eq!(back.display_name, tc.display_name);
    assert_eq!(back.default_port, tc.default_port);
    assert_eq!(back.start_command, tc.start_command);
    assert_eq!(back.supports_multiple, tc.supports_multiple);
    assert_eq!(back.health_timeout_ms, tc.health_timeout_ms);
}

#[test]
fn test_instance_entry_roundtrip_values() {
    let mut entry = instance_entry("svc", Some(8042), vec!["blue".to_string()]);
    entry.working_dir = Some("/srv/app".to_string());
    entry.created_at = Some(1_600_000_000);
    entry.created_via = Some("config".to_string());

    let instance = instance_from_entry("a".to_string(), entry, 9999, 1_700_000_000).unwrap();
    assert_eq!(instance.port, 8042);
    assert_eq!(instance.created_at, 1_600_000_000);
    assert_eq!(instance.created_via, "config");

    let (id, back) = instance_to_entry(instance);
    assert_eq!(id, "a");
    assert_eq!(back.template, "svc");
    assert_eq!(back.port, Some(8042));
    assert_eq!(back.working_dir, Some("/srv/app".to_string()));
    assert_eq!(back.tags, vec!["blue".to_string()]);
    assert_eq!(back.created_at, Some(1_600_000_000));
    assert_eq!(back.created_via, Some("config".to_string()));
}

#[test]
fn test_snapshot_round() {
    let file = ConfigFile {
        templates: vec![("svc".to_string(), template_entry("Svc", 9100, true))],
        instances: vec![(
            "svc-1".to_string(),
            instance_entry("svc", Some(9101), vec![]),
        )],
    };
    let core = UsmCore::from_config(file).unwrap();

    // A snapshot taken from a loaded core names the same entries.
    let mut reg = usm_core::InstanceRegistry::new();
    for inst in core.list_instances(None) {
        reg.add(inst).unwrap();
    }
    let section = snapshot_instances(&reg);
    assert_eq!(section.len(), 1);
    assert_eq!(section[0].0, "svc-1");
    assert_eq!(section[0].1.template, "svc");
    assert_eq!(section[0].1.port, Some(9101));
}

#[test]
fn test_resolve_path() {
    assert_eq!(
        resolve_path("${PROJECT_ROOT}/server", "/srv/project", "/home/user"),
        "/srv/project/server"
    );
    assert_eq!(resolve_path("~/data", "/srv/project", "/home/user"), "/home/user/data");
    assert_eq!(resolve_path("/plain/path", "/srv/project", "/home/user"), "/plain/path");
}
