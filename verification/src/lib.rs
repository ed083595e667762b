//! Verified core of a local service manager.
//!
//! Services are described by templates (blueprints with a start command and
//! a default port) and run as instances (one process bound to one port).
//! This crate holds the registries with their uniqueness invariants, the
//! command-substitution engine, the instance lifecycle state machine, the
//! configuration conversion layer, and the decision logic of the process
//! monitor.  Everything that talks to the operating system (spawning,
//! signalling, reading metrics, file I/O) lives outside, driven through the
//! plans and verdicts this crate computes.

mod clock;
mod cloning;
pub mod config;
pub mod errors;
pub mod events;
pub mod instance;
pub mod metrics;
pub mod monitor;
pub mod orchestrator;
pub mod registry;
pub mod template;
pub mod text;

pub use config::{ConfigFile, InstanceConfigFile, TemplateConfig};
pub use errors::UsmError;
pub use events::{EventBus, ServiceEvent};
pub use instance::{InstanceConfig, ServiceInstance, ServiceStatus};
pub use metrics::{InstanceMetrics, MetricsSummary, SystemMetrics};
pub use orchestrator::UsmCore;
pub use registry::{InstanceRegistry, StatusCounts, TemplateRegistry};
pub use template::{ServiceCategory, ServiceTemplate};
