//! Lifecycle events and the bus that broadcasts them.
//!
//! Each event carries enough fields to reconstruct the transition without
//! consulting the registries.  The bus delivers to every live subscriber
//! without letting a slow one block senders: buffering per subscriber is
//! bounded, and a subscriber that falls behind observes a gap instead of
//! stalling the publisher.

use vstd::prelude::*;

use crate::instance::ServiceStatus;

verus! {

/// An event broadcast to subscribers.  CPU load travels in hundredths of
/// a percent so the payload stays integral.
#[derive(Debug)]
pub enum ServiceEvent {
    InstanceCreated { instance_id: String, template_id: String },
    InstanceRemoved { instance_id: String },
    StatusChanged { instance_id: String, status: ServiceStatus, pid: Option<u32> },
    MetricsUpdated { instance_id: String, cpu_percent_hundredths: u64, memory_mb: u64 },
    HealthChanged { instance_id: String, healthy: bool, message: Option<String> },
    Error { instance_id: Option<String>, message: String },
    TemplateRegistered { template_id: String },
    TemplateRemoved { template_id: String },
    ConfigReloaded,
}

impl Clone for ServiceEvent {
    fn clone(&self) -> (res: Self)
        ensures
            res == *self,
    {
        match self {
            ServiceEvent::InstanceCreated { instance_id, template_id } => {
                ServiceEvent::InstanceCreated {
                    instance_id: instance_id.clone(),
                    template_id: template_id.clone(),
                }
            },
            ServiceEvent::InstanceRemoved { instance_id } => {
                ServiceEvent::InstanceRemoved { instance_id: instance_id.clone() }
            },
            ServiceEvent::StatusChanged { instance_id, status, pid } => {
                ServiceEvent::StatusChanged {
                    instance_id: instance_id.clone(),
                    status: *status,
                    pid: *pid,
                }
            },
            ServiceEvent::MetricsUpdated {
                instance_id,
                cpu_percent_hundredths,
                memory_mb,
            } => {
                ServiceEvent::MetricsUpdated {
                    instance_id: instance_id.clone(),
                    cpu_percent_hundredths: *cpu_percent_hundredths,
                    memory_mb: *memory_mb,
                }
            },
            ServiceEvent::HealthChanged { instance_id, healthy, message } => {
                ServiceEvent::HealthChanged {
                    instance_id: instance_id.clone(),
                    healthy: *healthy,
                    message: crate::cloning::clone_opt_string(message),
                }
            },
            ServiceEvent::Error { instance_id, message } => {
                ServiceEvent::Error {
                    instance_id: crate::cloning::clone_opt_string(instance_id),
                    message: message.clone(),
                }
            },
            ServiceEvent::TemplateRegistered { template_id } => {
                ServiceEvent::TemplateRegistered { template_id: template_id.clone() }
            },
            ServiceEvent::TemplateRemoved { template_id } => {
                ServiceEvent::TemplateRemoved { template_id: template_id.clone() }
            },
            ServiceEvent::ConfigReloaded => ServiceEvent::ConfigReloaded,
        }
    }
}

impl ServiceEvent {
    /// The instance the event is about, when it is about one.
    pub open spec fn spec_instance_id(&self) -> Option<Seq<char>> {
        match self {
            ServiceEvent::InstanceCreated { instance_id, .. } => Some(instance_id@),
            ServiceEvent::InstanceRemoved { instance_id } => Some(instance_id@),
            ServiceEvent::StatusChanged { instance_id, .. } => Some(instance_id@),
            ServiceEvent::MetricsUpdated { instance_id, .. } => Some(instance_id@),
            ServiceEvent::HealthChanged { instance_id, .. } => Some(instance_id@),
            ServiceEvent::Error { instance_id, .. } => match instance_id {
                Some(id) => Some(id@),
                None => None,
            },
            ServiceEvent::TemplateRegistered { .. } => None,
            ServiceEvent::TemplateRemoved { .. } => None,
            ServiceEvent::ConfigReloaded => None,
        }
    }

    /// The id of the instance this event concerns, if any.
    pub fn instance_id(&self) -> (r: Option<&str>)
        ensures
            match (r, self.spec_instance_id()) {
                (Some(s), Some(t)) => s@ == t,
                (None, None) => true,
                _ => false,
            },
    {
        match self {
            ServiceEvent::InstanceCreated { instance_id, .. } => Some(instance_id.as_str()),
            ServiceEvent::InstanceRemoved { instance_id } => Some(instance_id.as_str()),
            ServiceEvent::StatusChanged { instance_id, .. } => Some(instance_id.as_str()),
            ServiceEvent::MetricsUpdated { instance_id, .. } => Some(instance_id.as_str()),
            ServiceEvent::HealthChanged { instance_id, .. } => Some(instance_id.as_str()),
            ServiceEvent::Error { instance_id, .. } => match instance_id {
                Some(id) => Some(id.as_str()),
                None => None,
            },
            ServiceEvent::TemplateRegistered { .. } => None,
            ServiceEvent::TemplateRemoved { .. } => None,
            ServiceEvent::ConfigReloaded => None,
        }
    }

    pub open spec fn spec_event_type(&self) -> Seq<char> {
        match self {
            ServiceEvent::InstanceCreated { .. } => "instance_created"@,
            ServiceEvent::InstanceRemoved { .. } => "instance_removed"@,
            ServiceEvent::StatusChanged { .. } => "status_changed"@,
            ServiceEvent::MetricsUpdated { .. } => "metrics_updated"@,
            ServiceEvent::HealthChanged { .. } => "health_changed"@,
            ServiceEvent::Error { .. } => "error"@,
            ServiceEvent::TemplateRegistered { .. } => "template_registered"@,
            ServiceEvent::TemplateRemoved { .. } => "template_removed"@,
            ServiceEvent::ConfigReloaded => "config_reloaded"@,
        }
    }

    /// The kind of the event as a short snake-case name.
    pub fn event_type(&self) -> (r: &'static str)
        ensures
            r@ == self.spec_event_type(),
    {
        match self {
            ServiceEvent::InstanceCreated { .. } => "instance_created",
            ServiceEvent::InstanceRemoved { .. } => "instance_removed",
            ServiceEvent::StatusChanged { .. } => "status_changed",
            ServiceEvent::MetricsUpdated { .. } => "metrics_updated",
            ServiceEvent::HealthChanged { .. } => "health_changed",
            ServiceEvent::Error { .. } => "error",
            ServiceEvent::TemplateRegistered { .. } => "template_registered",
            ServiceEvent::TemplateRemoved { .. } => "template_removed",
            ServiceEvent::ConfigReloaded => "config_reloaded",
        }
    }
}

#[verifier::external_type_specification]
#[verifier::external_body]
#[verifier::reject_recursive_types(T)]
pub struct ExSender<T>(tokio::sync::broadcast::Sender<T>);

#[verifier::external_type_specification]
#[verifier::external_body]
#[verifier::reject_recursive_types(T)]
pub struct ExReceiver<T>(tokio::sync::broadcast::Receiver<T>);

/// Relies on `tokio::sync::broadcast::channel`: creates a channel with
/// room for `capacity` buffered events per subscriber and returns its
/// sending half.  The call panics outside `1..=usize::MAX / 2`, so that
/// range is required here.
#[verifier::external_body]
fn broadcast_sender(capacity: usize) -> tokio::sync::broadcast::Sender<ServiceEvent>
    requires
        1 <= capacity <= usize::MAX / 2,
{
    tokio::sync::broadcast::channel(capacity).0
}

/// Relies on `tokio::sync::broadcast::Sender::send`: the event goes to
/// every receiver subscribed at the moment of the call, and the call
/// reports how many there were (an error means none).  Concurrent
/// subscribes and drops make the count time-dependent, so nothing is
/// assumed of the value.
#[verifier::external_body]
fn broadcast_send(
    sender: &tokio::sync::broadcast::Sender<ServiceEvent>,
    event: ServiceEvent,
) -> usize {
    match sender.send(event) {
        Ok(n) => n,
        Err(_) => 0,
    }
}

/// Relies on `tokio::sync::broadcast::Sender::subscribe`: a fresh
/// receiver that observes only events sent after this call.
#[verifier::external_body]
fn broadcast_subscribe(
    sender: &tokio::sync::broadcast::Sender<ServiceEvent>,
) -> tokio::sync::broadcast::Receiver<ServiceEvent> {
    sender.subscribe()
}

/// Relies on `tokio::sync::broadcast::Sender::receiver_count`: how many
/// receivers exist right now.  The value is stale as soon as it returns,
/// so nothing is assumed of it.
#[verifier::external_body]
fn broadcast_receiver_count(sender: &tokio::sync::broadcast::Sender<ServiceEvent>) -> usize {
    sender.receiver_count()
}

/// Broadcast bus for service events.
///
/// Publishing never blocks and never fails: a subscriber that does not
/// keep up loses its oldest buffered events and sees how many it missed,
/// while the sender proceeds.
pub struct EventBus {
    sender: tokio::sync::broadcast::Sender<ServiceEvent>,
}

impl EventBus {
    /// Create a bus whose subscribers each buffer up to `capacity`
    /// events.  A zero capacity is not meaningful (the underlying channel
    /// refuses it), so at least one is required.
    pub fn new(capacity: usize) -> EventBus
        requires
            1 <= capacity <= usize::MAX / 2,
    {
        EventBus { sender: broadcast_sender(capacity) }
    }

    /// Attempt delivery to all current subscribers; the count that
    /// received the event comes back, zero when none are subscribed.
    pub fn send(&self, event: ServiceEvent) -> usize {
        broadcast_send(&self.sender, event)
    }

    /// A new receive handle that observes only events published after
    /// this call; handles are independent of one another.
    pub fn subscribe(&self) -> tokio::sync::broadcast::Receiver<ServiceEvent> {
        broadcast_subscribe(&self.sender)
    }

    /// The number of live subscribers at the time of the call.
    pub fn subscriber_count(&self) -> usize {
        broadcast_receiver_count(&self.sender)
    }
}

} // verus!
