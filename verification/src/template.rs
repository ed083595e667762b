//! Service templates: blueprints describing how to start and stop a class
//! of service.
//!
//! Commands support placeholder substitution:
//! - `{port}` — the instance's port number
//! - `{config}` — the instance's config file path
//! - `{working_dir}` — the instance's working directory
//! - `{pid}` — the process id (stop commands only)

use vstd::prelude::*;

use crate::cloning;
use crate::instance::ServiceInstance;
use crate::text;

verus! {

/// Category used to organise services at the boundary.
#[derive(Clone, Copy, Debug, PartialEq, Eq, Structural)]
pub enum ServiceCategory {
    Core,
    Development,
    Database,
    Infrastructure,
    Custom,
}

impl Default for ServiceCategory {
    fn default() -> (r: Self)
        ensures
            r == ServiceCategory::Core,
    {
        ServiceCategory::Core
    }
}

/// A service template: how to start, stop and check one kind of service.
/// Immutable once registered, except through explicit replace or remove.
#[derive(Debug)]
pub struct ServiceTemplate {
    /// Unique identifier for this template.
    pub id: String,
    /// Human-readable name.
    pub display_name: String,
    /// Optional description.
    pub description: Option<String>,
    /// Default port for new instances.
    pub default_port: u16,
    /// Valid port range for instances (minimum, maximum).
    pub port_range: Option<(u16, u16)>,
    /// Command template that starts the service.
    pub start_command: String,
    /// Optional custom stop command; graceful kill applies otherwise.
    pub stop_command: Option<String>,
    /// Health check endpoint template.
    pub health_endpoint: Option<String>,
    /// Health check timeout in milliseconds.
    pub health_timeout_ms: u32,
    /// Category for organisation.
    pub category: ServiceCategory,
    /// Whether multiple instances may run at once.
    pub supports_multiple: bool,
    /// Whether this is a container-composed service.
    pub is_docker: bool,
    /// Default environment variables.
    pub default_env: Vec<(String, String)>,
}

impl ServiceTemplate {
    /// Field-wise equality, with the collection-valued field compared by
    /// contents.  A copy of a template is congruent to its original.
    pub open spec fn eqv(self, other: ServiceTemplate) -> bool {
        &&& self.id == other.id
        &&& self.display_name == other.display_name
        &&& self.description == other.description
        &&& self.default_port == other.default_port
        &&& self.port_range == other.port_range
        &&& self.start_command == other.start_command
        &&& self.stop_command == other.stop_command
        &&& self.health_endpoint == other.health_endpoint
        &&& self.health_timeout_ms == other.health_timeout_ms
        &&& self.category == other.category
        &&& self.supports_multiple == other.supports_multiple
        &&& self.is_docker == other.is_docker
        &&& self.default_env@ == other.default_env@
    }
}

impl Clone for ServiceTemplate {
    fn clone(&self) -> (res: Self)
        ensures
            res.eqv(*self),
    {
        ServiceTemplate {
            id: self.id.clone(),
            display_name: self.display_name.clone(),
            description: cloning::clone_opt_string(&self.description),
            default_port: self.default_port,
            port_range: self.port_range,
            start_command: self.start_command.clone(),
            stop_command: cloning::clone_opt_string(&self.stop_command),
            health_endpoint: cloning::clone_opt_string(&self.health_endpoint),
            health_timeout_ms: self.health_timeout_ms,
            category: self.category,
            supports_multiple: self.supports_multiple,
            is_docker: self.is_docker,
            default_env: cloning::clone_env(&self.default_env),
        }
    }
}

impl ServiceTemplate {
    /// The start command with `{port}`, `{config}` and `{working_dir}`
    /// substituted for the given instance.  A missing config path becomes
    /// the empty string; a missing working directory becomes `.`.
    pub open spec fn spec_start_command(self, inst: ServiceInstance) -> Seq<char> {
        let with_port = text::spec_replace(
            self.start_command@,
            "{port}"@,
            text::spec_dec(inst.port as nat),
        );
        let with_config = text::spec_replace(
            with_port,
            "{config}"@,
            match inst.config_path {
                Some(c) => c@,
                None => ""@,
            },
        );
        text::spec_replace(
            with_config,
            "{working_dir}"@,
            match inst.working_dir {
                Some(w) => w@,
                None => "."@,
            },
        )
    }

    /// Build the start command for a specific instance.
    pub fn build_start_command(&self, instance: &ServiceInstance) -> (r: String)
        ensures
            r@ == self.spec_start_command(*instance),
    {
        proof {
            reveal_strlit("{port}");
            reveal_strlit("{config}");
            reveal_strlit("{working_dir}");
            reveal_strlit("");
        }
        let port_str = text::u64_to_string(instance.port as u64);
        let with_port = text::replace_all(
            self.start_command.as_str(),
            "{port}",
            port_str.as_str(),
        );
        let with_config = match &instance.config_path {
            Some(c) => text::replace_all(with_port.as_str(), "{config}", c.as_str()),
            None => text::replace_all(with_port.as_str(), "{config}", ""),
        };
        match &instance.working_dir {
            Some(w) => text::replace_all(with_config.as_str(), "{working_dir}", w.as_str()),
            None => text::replace_all(with_config.as_str(), "{working_dir}", "."),
        }
    }

    /// The health endpoint with `{port}` substituted, when the template
    /// declares one.
    pub open spec fn spec_health_endpoint(self, inst: ServiceInstance) -> Option<Seq<char>> {
        match self.health_endpoint {
            None => None,
            Some(e) => Some(
                text::spec_replace(e@, "{port}"@, text::spec_dec(inst.port as nat)),
            ),
        }
    }

    /// Build the health endpoint address for a specific instance.
    pub fn build_health_endpoint(&self, instance: &ServiceInstance) -> (r: Option<String>)
        ensures
            match (r, self.spec_health_endpoint(*instance)) {
                (Some(s), Some(t)) => s@ == t,
                (None, None) => true,
                _ => false,
            },
    {
        proof {
            reveal_strlit("{port}");
        }
        match &self.health_endpoint {
            None => None,
            Some(e) => {
                let port_str = text::u64_to_string(instance.port as u64);
                Some(text::replace_all(e.as_str(), "{port}", port_str.as_str()))
            },
        }
    }

    pub open spec fn spec_port_valid(self, port: u16) -> bool {
        match self.port_range {
            Some(r) => r.0 <= port && port <= r.1,
            None => true,
        }
    }

    /// Whether a port lies within this template's valid range; templates
    /// without a range accept any port.
    pub fn is_port_valid(&self, port: u16) -> (r: bool)
        ensures
            r == self.spec_port_valid(port),
    {
        match self.port_range {
            Some((min, max)) => port >= min && port <= max,
            None => true,
        }
    }

    /// The range the next free port is drawn from: the declared range, or
    /// a window of one hundred ports above the default.
    pub open spec fn spec_alloc_range(self) -> (u16, u16) {
        match self.port_range {
            Some(r) => r,
            None => (
                self.default_port,
                if self.default_port + 100 > 65535 {
                    65535u16
                } else {
                    (self.default_port + 100) as u16
                },
            ),
        }
    }

    /// The lowest port of the allocation range that is not in
    /// `used_ports`, or `None` when every port of the range is taken.
    pub fn next_available_port(&self, used_ports: &[u16]) -> (r: Option<u16>)
        ensures
            match r {
                Some(p) => {
                    &&& self.spec_alloc_range().0 <= p <= self.spec_alloc_range().1
                    &&& !used_ports@.contains(p)
                    &&& forall|q: u16|
                        self.spec_alloc_range().0 <= q < p ==> used_ports@.contains(q)
                },
                None => forall|q: u16|
                    self.spec_alloc_range().0 <= q <= self.spec_alloc_range().1
                        ==> used_ports@.contains(q),
            },
    {
        let (min, max) = match self.port_range {
            Some((min, max)) => (min, max),
            None => (
                self.default_port,
                if self.default_port > 65435 {
                    65535
                } else {
                    self.default_port + 100
                },
            ),
        };
        if min > max {
            return None;
        }
        let mut p: u32 = min as u32;
        while p <= max as u32
            invariant
                min as u32 <= p <= max as u32 + 1,
                (min, max) == self.spec_alloc_range(),
                forall|q: u16| min <= q < p ==> used_ports@.contains(q),
            decreases max as u32 + 1 - p,
        {
            if !ports_contain(used_ports, p as u16) {
                return Some(p as u16);
            }
            p = p + 1;
        }
        None
    }
}

/// Whether `ports` holds `x`.
pub fn ports_contain(ports: &[u16], x: u16) -> (r: bool)
    ensures
        r == ports@.contains(x),
{
    let mut i: usize = 0;
    while i < ports.len()
        invariant
            i <= ports@.len(),
            forall|j: int| 0 <= j < i ==> ports@[j] != x,
        decreases ports@.len() - i,
    {
        if ports[i] == x {
            return true;
        }
        i = i + 1;
    }
    false
}

/// The health-check timeout applied when a template names none, in
/// milliseconds.
pub fn default_health_timeout() -> (r: u32)
    ensures
        r == 5000,
{
    5000
}

} // verus!
