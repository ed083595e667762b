use usm_core::{EventBus, ServiceEvent, ServiceStatus};

#[test]
fn test_event_bus_send_receive() {
    let bus = EventBus::new(16);

    // Subscribe before sending
    let mut rx = bus.subscribe();

    // Send an event
    let event = ServiceEvent::StatusChanged {
        instance_id: "test".to_string(),
        status: ServiceStatus::Running,
        pid: Some(12345),
    };
    let sent = bus.send(event);
    assert_eq!(sent, 1);

    // Receive the event
    let received = rx.try_recv().unwrap();
    match received {
        ServiceEvent::StatusChanged {
            instance_id,
            status,
            pid,
        } => {
            assert_eq!(instance_id, "test");
            assert_eq!(status, ServiceStatus::Running);
            assert_eq!(pid, Some(12345));
        },
        _ => panic!("Wrong event type"),
    }
}

#[test]
fn test_multiple_subscribers() {
    let bus = EventBus::new(16);

    let mut rx1 = bus.subscribe();
    let mut rx2 = bus.subscribe();

    assert_eq!(bus.subscriber_count(), 2);

    // Send an event
    let event = ServiceEvent::InstanceCreated {
        instance_id: "test".to_string(),
        template_id: "template".to_string(),
    };
    bus.send(event);

    // Both should receive it
    let e1 = rx1.try_recv().unwrap();
    let e2 = rx2.try_recv().unwrap();

    assert_eq!(e1.event_type(), "instance_created");
    assert_eq!(e2.event_type(), "instance_created");
}

#[test]
fn test_no_subscribers() {
    let bus = EventBus::new(16);

    // Send without subscribers
    let event = ServiceEvent::Error {
        instance_id: None,
        message: "test error".to_string(),
    };
    let sent = bus.send(event);
    assert_eq!(sent, 0);
}

#[test]
fn test_slow_subscriber_observes_gap() {
    // Bounded buffering: a subscriber that does not consume loses the
    // oldest events and sees how many it missed; publishing never blocks.
    let bus = EventBus::new(2);
    let mut rx = bus.subscribe();
    for i in 0..5 {
        bus.send(ServiceEvent::InstanceRemoved { instance_id: format!("svc-{}", i) });
    }
    match rx.try_recv() {
        Err(tokio::sync::broadcast::error::TryRecvError::Lagged(n)) => assert_eq!(n, 3),
        other => panic!("expected a lag report, got {:?}", other),
    }
    // The two newest events are still delivered, in order.
    match rx.try_recv().unwrap() {
        ServiceEvent::InstanceRemoved { instance_id } => assert_eq!(instance_id, "svc-3"),
        _ => panic!("wrong event kind"),
    }
    match rx.try_recv().unwrap() {
        ServiceEvent::InstanceRemoved { instance_id } => assert_eq!(instance_id, "svc-4"),
        _ => panic!("wrong event kind"),
    }
}

#[test]
fn test_event_type_names() {
    let created = ServiceEvent::InstanceCreated {
        instance_id: "a".to_string(),
        template_id: "t".to_string(),
    };
    let removed = ServiceEvent::InstanceRemoved { instance_id: "a".to_string() };
    let reloaded = ServiceEvent::ConfigReloaded;
    assert_eq!(created.event_type(), "instance_created");
    assert_eq!(removed.event_type(), "instance_removed");
    assert_eq!(reloaded.event_type(), "config_reloaded");
}

#[test]
fn test_event_instance_ids() {
    let changed = ServiceEvent::StatusChanged {
        instance_id: "svc-1".to_string(),
        status: ServiceStatus::Stopped,
        pid: None,
    };
    assert_eq!(changed.instance_id(), Some("svc-1"));

    let anon = ServiceEvent::Error { instance_id: None, message: "boom".to_string() };
    assert_eq!(anon.instance_id(), None);

    let tpl = ServiceEvent::TemplateRegistered { template_id: "t".to_string() };
    assert_eq!(tpl.instance_id(), None);
}
