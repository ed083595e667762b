//! Service instances: one concrete, independently started occurrence of a
//! template, bound to a port.

use vstd::prelude::*;

use crate::clock;
use crate::cloning;
use crate::errors::UsmError;
use crate::text;

verus! {

/// Status of a service instance.  The lifecycle logic of this crate only
/// ever assigns `Stopped` and `Running`; the remaining variants are
/// reserved for an external health subsystem that publishes status-changed
/// events.
#[derive(Clone, Copy, Debug, PartialEq, Eq, Hash, Structural)]
pub enum ServiceStatus {
    Stopped,
    Running,
    Starting,
    Stopping,
    Error,
    Unknown,
}

impl Default for ServiceStatus {
    fn default() -> (r: Self)
        ensures
            r == ServiceStatus::Stopped,
    {
        ServiceStatus::Stopped
    }
}

impl ServiceStatus {
    pub open spec fn spec_name(&self) -> Seq<char> {
        match self {
            ServiceStatus::Stopped => "stopped"@,
            ServiceStatus::Running => "running"@,
            ServiceStatus::Starting => "starting"@,
            ServiceStatus::Stopping => "stopping"@,
            ServiceStatus::Error => "error"@,
            ServiceStatus::Unknown => "unknown"@,
        }
    }

    /// The lower-case name of the status, as boundary layers print it.
    pub fn name(&self) -> (r: &'static str)
        ensures
            r@ == self.spec_name(),
    {
        match self {
            ServiceStatus::Stopped => "stopped",
            ServiceStatus::Running => "running",
            ServiceStatus::Starting => "starting",
            ServiceStatus::Stopping => "stopping",
            ServiceStatus::Error => "error",
            ServiceStatus::Unknown => "unknown",
        }
    }

    /// The status a query-string filter names.  Only the three states a
    /// listing can usefully filter on are recognised.
    pub fn from_name(s: &str) -> (r: Option<ServiceStatus>)
        ensures
            r == (if s@ == "running"@ {
                Some(ServiceStatus::Running)
            } else if s@ == "stopped"@ {
                Some(ServiceStatus::Stopped)
            } else if s@ == "error"@ {
                Some(ServiceStatus::Error)
            } else {
                None::<ServiceStatus>
            }),
    {
        if text::str_eq(s, "running") {
            Some(ServiceStatus::Running)
        } else if text::str_eq(s, "stopped") {
            Some(ServiceStatus::Stopped)
        } else if text::str_eq(s, "error") {
            Some(ServiceStatus::Error)
        } else {
            None
        }
    }

    /// The fixed small-integer encoding used across the C-callable
    /// boundary.
    pub fn to_code(&self) -> (r: i32)
        ensures
            r == self.spec_code(),
    {
        match self {
            ServiceStatus::Stopped => 0,
            ServiceStatus::Running => 1,
            ServiceStatus::Error => 2,
            ServiceStatus::Starting => 3,
            ServiceStatus::Stopping => 4,
            ServiceStatus::Unknown => 5,
        }
    }

    pub open spec fn spec_code(&self) -> i32 {
        match self {
            ServiceStatus::Stopped => 0,
            ServiceStatus::Running => 1,
            ServiceStatus::Error => 2,
            ServiceStatus::Starting => 3,
            ServiceStatus::Stopping => 4,
            ServiceStatus::Unknown => 5,
        }
    }
}

/// Configuration for creating a new service instance.
#[derive(Debug)]
pub struct InstanceConfig {
    /// Unique identifier for this instance.
    pub instance_id: String,
    /// Template to use for this instance.
    pub template_id: String,
    /// Port override; the template default applies if not specified.
    pub port: Option<u16>,
    /// Working directory for the service.
    pub working_dir: Option<String>,
    /// Path to a config file, if the service takes one.
    pub config_path: Option<String>,
    /// Version identifier (semantic version, git tag, and the like).
    pub version: Option<String>,
    /// Git branch, for development instances.
    pub git_branch: Option<String>,
    /// Tags for filtering and organisation.
    pub tags: Vec<String>,
    /// Whether to start automatically when the manager starts.
    pub auto_start: bool,
    /// Environment variable overrides.
    pub env_vars: Vec<(String, String)>,
}

impl InstanceConfig {
    /// Field-wise equality, with the collection-valued fields compared by
    /// contents.  A copy of a configuration is congruent to its original.
    pub open spec fn eqv(self, other: InstanceConfig) -> bool {
        &&& self.instance_id == other.instance_id
        &&& self.template_id == other.template_id
        &&& self.port == other.port
        &&& self.working_dir == other.working_dir
        &&& self.config_path == other.config_path
        &&& self.version == other.version
        &&& self.git_branch == other.git_branch
        &&& self.tags@ == other.tags@
        &&& self.auto_start == other.auto_start
        &&& self.env_vars@ == other.env_vars@
    }
}

impl Clone for InstanceConfig {
    fn clone(&self) -> (res: Self)
        ensures
            res.eqv(*self),
    {
        InstanceConfig {
            instance_id: self.instance_id.clone(),
            template_id: self.template_id.clone(),
            port: self.port,
            working_dir: cloning::clone_opt_string(&self.working_dir),
            config_path: cloning::clone_opt_string(&self.config_path),
            version: cloning::clone_opt_string(&self.version),
            git_branch: cloning::clone_opt_string(&self.git_branch),
            tags: cloning::clone_string_vec(&self.tags),
            auto_start: self.auto_start,
            env_vars: cloning::clone_env(&self.env_vars),
        }
    }
}

/// A service instance: identity, placement, and runtime state.
#[derive(Debug)]
pub struct ServiceInstance {
    /// Unique identifier.
    pub id: String,
    /// Template this instance was created from.
    pub template_id: String,
    /// Port this instance is bound to.
    pub port: u16,
    /// Working directory.
    pub working_dir: Option<String>,
    /// Config file path.
    pub config_path: Option<String>,
    /// Version identifier.
    pub version: Option<String>,
    /// Git branch.
    pub git_branch: Option<String>,
    /// Tags for filtering.
    pub tags: Vec<String>,
    /// Start automatically when the manager starts.
    pub auto_start: bool,
    /// Environment variables.
    pub env_vars: Vec<(String, String)>,
    /// Current status (runtime state, reset on load).
    pub status: ServiceStatus,
    /// Process id while running.
    pub pid: Option<u32>,
    /// Unix seconds at which the service was started, while running.
    pub started_at: Option<i64>,
    /// Unix seconds at which this instance was created (persisted).
    pub created_at: i64,
    /// How this instance was created: `"api"` or `"config"` (persisted).
    pub created_via: String,
}

impl Clone for ServiceInstance {
    fn clone(&self) -> (res: Self)
        ensures
            res.eqv(*self),
    {
        ServiceInstance {
            id: self.id.clone(),
            template_id: self.template_id.clone(),
            port: self.port,
            working_dir: cloning::clone_opt_string(&self.working_dir),
            config_path: cloning::clone_opt_string(&self.config_path),
            version: cloning::clone_opt_string(&self.version),
            git_branch: cloning::clone_opt_string(&self.git_branch),
            tags: cloning::clone_string_vec(&self.tags),
            auto_start: self.auto_start,
            env_vars: cloning::clone_env(&self.env_vars),
            status: self.status,
            pid: self.pid,
            started_at: self.started_at,
            created_at: self.created_at,
            created_via: self.created_via.clone(),
        }
    }
}

impl ServiceInstance {
    /// Field-wise equality, with the collection-valued fields compared by
    /// contents.  A copy of an instance is congruent to its original.
    pub open spec fn eqv(self, other: ServiceInstance) -> bool {
        &&& self.id == other.id
        &&& self.template_id == other.template_id
        &&& self.port == other.port
        &&& self.working_dir == other.working_dir
        &&& self.config_path == other.config_path
        &&& self.version == other.version
        &&& self.git_branch == other.git_branch
        &&& self.tags@ == other.tags@
        &&& self.auto_start == other.auto_start
        &&& self.env_vars@ == other.env_vars@
        &&& self.status == other.status
        &&& self.pid == other.pid
        &&& self.started_at == other.started_at
        &&& self.created_at == other.created_at
        &&& self.created_via == other.created_via
    }

    /// The fields a freshly created instance must carry, given its
    /// configuration: runtime state starts at `Stopped` with no process.
    pub open spec fn spec_fresh(
        self,
        config: InstanceConfig,
        port: u16,
        via: Seq<char>,
    ) -> bool {
        &&& self.id == config.instance_id
        &&& self.template_id == config.template_id
        &&& self.port == port
        &&& self.working_dir == config.working_dir
        &&& self.config_path == config.config_path
        &&& self.version == config.version
        &&& self.git_branch == config.git_branch
        &&& self.tags == config.tags
        &&& self.auto_start == config.auto_start
        &&& self.env_vars == config.env_vars
        &&& self.status == ServiceStatus::Stopped
        &&& self.pid is None
        &&& self.started_at is None
        &&& self.created_via@ == via
    }

    /// Create a new instance from configuration entered through the API.
    ///
    /// Both identifiers must be nonempty; the port defaults to 0 when the
    /// configuration names none (callers that know the template fill it in
    /// from the template's default port first).
    pub fn from_config(config: InstanceConfig) -> (r: Result<ServiceInstance, UsmError>)
        ensures
            (config.instance_id@.len() == 0 || config.template_id@.len() == 0) <==> r is Err,
            r is Err ==> r == Err::<ServiceInstance, UsmError>(UsmError::Validation),
            r matches Ok(i) ==> i.spec_fresh(
                config,
                match config.port {
                    Some(p) => p,
                    None => 0u16,
                },
                "api"@,
            ),
    {
        if config.instance_id.as_str().is_empty() {
            return Err(UsmError::Validation);
        }
        if config.template_id.as_str().is_empty() {
            return Err(UsmError::Validation);
        }
        let port = match config.port {
            Some(p) => p,
            None => 0,
        };
        Ok(ServiceInstance {
            id: config.instance_id,
            template_id: config.template_id,
            port,
            working_dir: config.working_dir,
            config_path: config.config_path,
            version: config.version,
            git_branch: config.git_branch,
            tags: config.tags,
            auto_start: config.auto_start,
            env_vars: config.env_vars,
            status: ServiceStatus::Stopped,
            pid: None,
            started_at: None,
            created_at: clock::now_timestamp(),
            created_via: String::from_str("api"),
        })
    }

    pub open spec fn spec_has_tag(&self, tag: Seq<char>) -> bool {
        exists|i: int| 0 <= i < self.tags@.len() && #[trigger] self.tags@[i]@ == tag
    }

    /// Whether this instance carries the given tag.
    pub fn has_tag(&self, tag: &str) -> (r: bool)
        ensures
            r == self.spec_has_tag(tag@),
    {
        let mut i: usize = 0;
        while i < self.tags.len()
            invariant
                i <= self.tags@.len(),
                forall|j: int| 0 <= j < i ==> #[trigger] self.tags@[j]@ != tag@,
            decreases self.tags@.len() - i,
        {
            if text::str_eq(self.tags[i].as_str(), tag) {
                return true;
            }
            i = i + 1;
        }
        false
    }

    pub open spec fn spec_matches_tags(&self, tags: Seq<&str>) -> bool {
        exists|i: int| 0 <= i < tags.len() && self.spec_has_tag(#[trigger] tags[i]@)
    }

    /// Whether this instance carries any of the given tags.
    pub fn matches_tags(&self, tags: &[&str]) -> (r: bool)
        ensures
            r == self.spec_matches_tags(tags@),
    {
        let mut i: usize = 0;
        while i < tags.len()
            invariant
                i <= tags@.len(),
                forall|j: int| 0 <= j < i ==> !self.spec_has_tag(#[trigger] tags@[j]@),
            decreases tags@.len() - i,
        {
            if self.has_tag(tags[i]) {
                return true;
            }
            i = i + 1;
        }
        false
    }

    /// Seconds from `started_at` to `now`, clamped into the `i64` range;
    /// `None` while the instance is not running.
    pub open spec fn spec_uptime(&self, now: i64) -> Option<i64> {
        match self.started_at {
            None => None,
            Some(s) => Some(clamp_i64(now as int - s as int)),
        }
    }

    /// Uptime in seconds relative to `now`, if the instance has been
    /// started.
    pub fn uptime(&self, now: i64) -> (r: Option<i64>)
        ensures
            r == self.spec_uptime(now),
    {
        match self.started_at {
            None => None,
            Some(s) => {
                let wide: i128 = now as i128 - s as i128;
                if wide > i64::MAX as i128 {
                    Some(i64::MAX)
                } else if wide < i64::MIN as i128 {
                    Some(i64::MIN)
                } else {
                    Some(wide as i64)
                }
            },
        }
    }

    /// The uptime rendered for humans, relative to `now`: seconds below a
    /// minute, whole minutes below an hour, hours and minutes below a day,
    /// days and hours beyond.  A clock that ran backwards reads as zero.
    pub open spec fn spec_uptime_string(&self, now: i64) -> Option<Seq<char>> {
        match self.spec_uptime(now) {
            None => None,
            Some(d) => Some(spec_uptime_text(if d < 0 {
                0
            } else {
                d as nat
            })),
        }
    }

    /// Human-readable uptime relative to `now`, if started.
    pub fn uptime_string(&self, now: i64) -> (r: Option<String>)
        ensures
            match (r, self.spec_uptime_string(now)) {
                (Some(s), Some(t)) => s@ == t,
                (None, None) => true,
                _ => false,
            },
    {
        match self.uptime(now) {
            None => None,
            Some(d) => {
                let secs: u64 = if d < 0 {
                    0
                } else {
                    d as u64
                };
                Some(uptime_text(secs))
            },
        }
    }
}

pub open spec fn clamp_i64(x: int) -> i64 {
    if x > i64::MAX {
        i64::MAX
    } else if x < i64::MIN {
        i64::MIN
    } else {
        x as i64
    }
}

/// The instance-uptime rendering: `37s`, `12m`, `3h 7m`, `2d 3h`.
pub open spec fn spec_uptime_text(secs: nat) -> Seq<char> {
    if secs < 60 {
        text::spec_dec(secs) + "s"@
    } else if secs < 3600 {
        text::spec_dec(secs / 60) + "m"@
    } else if secs < 86400 {
        text::spec_dec(secs / 3600) + "h "@ + text::spec_dec((secs % 3600) / 60) + "m"@
    } else {
        text::spec_dec(secs / 86400) + "d "@ + text::spec_dec((secs % 86400) / 3600) + "h"@
    }
}

pub(crate) fn uptime_text(secs: u64) -> (r: String)
    ensures
        r@ == spec_uptime_text(secs as nat),
{
    if secs < 60 {
        let mut s = text::u64_to_string(secs);
        s.append("s");
        s
    } else if secs < 3600 {
        let mut s = text::u64_to_string(secs / 60);
        s.append("m");
        s
    } else if secs < 86400 {
        let mut s = text::u64_to_string(secs / 3600);
        s.append("h ");
        s.append(text::u64_to_string((secs % 3600) / 60).as_str());
        s.append("m");
        s
    } else {
        let mut s = text::u64_to_string(secs / 86400);
        s.append("d ");
        s.append(text::u64_to_string((secs % 86400) / 3600).as_str());
        s.append("h");
        s
    }
}

/// The origin recorded on instances loaded from the configuration file.
pub fn default_created_via() -> (r: String)
    ensures
        r@ == "config"@,
{
    String::from_str("config")
}

} // verus!
