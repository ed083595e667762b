//! The persisted configuration model and its conversions.
//!
//! The configuration document holds two keyed collections: templates and
//! instances.  Reading and writing the document on disk, and its TOML
//! encoding, belong to the boundary; what is verified here is the
//! conversion between the document model and the live types, the
//! placeholder expansion in path-like fields, and the round-trip laws:
//! saving and loading a template or an instance preserves every
//! persisted field.

use vstd::prelude::*;

use crate::cloning;
use crate::errors::UsmError;
use crate::instance::{ServiceInstance, ServiceStatus};
use crate::registry::{InstanceRegistry, TemplateRegistry};
use crate::template::{ServiceCategory, ServiceTemplate};
use crate::text;

verus! {

/// A template as it stands in the configuration document.
#[derive(Debug)]
pub struct TemplateConfig {
    pub display_name: String,
    pub description: Option<String>,
    pub default_port: u16,
    pub port_range: Option<(u16, u16)>,
    pub start_command: String,
    pub stop_command: Option<String>,
    pub health_endpoint: Option<String>,
    pub health_timeout_ms: u32,
    pub category: ServiceCategory,
    pub supports_multiple: bool,
    pub is_docker: bool,
    pub default_env: Vec<(String, String)>,
}

impl TemplateConfig {
    /// Field-wise equality, with the collection-valued field compared by
    /// contents.
    pub open spec fn eqv(self, other: TemplateConfig) -> bool {
        &&& self.display_name == other.display_name
        &&& self.description == other.description
        &&& self.default_port == other.default_port
        &&& self.port_range == other.port_range
        &&& self.start_command == other.start_command
        &&& self.stop_command == other.stop_command
        &&& self.health_endpoint == other.health_endpoint
        &&& self.health_timeout_ms == other.health_timeout_ms
        &&& self.category == other.category
        &&& self.supports_multiple == other.supports_multiple
        &&& self.is_docker == other.is_docker
        &&& self.default_env@ == other.default_env@
    }
}

impl Clone for TemplateConfig {
    fn clone(&self) -> (res: Self)
        ensures
            res.eqv(*self),
    {
        TemplateConfig {
            display_name: self.display_name.clone(),
            description: cloning::clone_opt_string(&self.description),
            default_port: self.default_port,
            port_range: self.port_range,
            start_command: self.start_command.clone(),
            stop_command: cloning::clone_opt_string(&self.stop_command),
            health_endpoint: cloning::clone_opt_string(&self.health_endpoint),
            health_timeout_ms: self.health_timeout_ms,
            category: self.category,
            supports_multiple: self.supports_multiple,
            is_docker: self.is_docker,
            default_env: cloning::clone_env(&self.default_env),
        }
    }
}

/// A minimal template entry, with every optional field at its documented
/// default: no description, no range, no stop command, no health check,
/// a five-second health timeout, the core category, a single instance
/// only, not containerised, and no environment.
pub fn template_config_with_defaults(
    display_name: String,
    default_port: u16,
    start_command: String,
) -> (r: TemplateConfig)
    ensures
        r.display_name == display_name,
        r.description is None,
        r.default_port == default_port,
        r.port_range is None,
        r.start_command == start_command,
        r.stop_command is None,
        r.health_endpoint is None,
        r.health_timeout_ms == 5000,
        r.category == ServiceCategory::Core,
        !r.supports_multiple,
        !r.is_docker,
        r.default_env@.len() == 0,
{
    TemplateConfig {
        display_name,
        description: None,
        default_port,
        port_range: None,
        start_command,
        stop_command: None,
        health_endpoint: None,
        health_timeout_ms: crate::template::default_health_timeout(),
        category: ServiceCategory::Core,
        supports_multiple: false,
        is_docker: false,
        default_env: Vec::new(),
    }
}

/// An instance as it stands in the configuration document, with its
/// persisted creation metadata.
#[derive(Debug)]
pub struct InstanceConfigFile {
    pub template: String,
    pub port: Option<u16>,
    pub working_dir: Option<String>,
    pub config: Option<String>,
    pub version: Option<String>,
    pub git_branch: Option<String>,
    pub tags: Vec<String>,
    pub auto_start: bool,
    pub env_vars: Vec<(String, String)>,
    /// Unix seconds at which the instance was created.
    pub created_at: Option<i64>,
    /// `"api"` or `"config"`.
    pub created_via: Option<String>,
}

impl InstanceConfigFile {
    /// Field-wise equality, with the collection-valued fields compared
    /// by contents.
    pub open spec fn eqv(self, other: InstanceConfigFile) -> bool {
        &&& self.template == other.template
        &&& self.port == other.port
        &&& self.working_dir == other.working_dir
        &&& self.config == other.config
        &&& self.version == other.version
        &&& self.git_branch == other.git_branch
        &&& self.tags@ == other.tags@
        &&& self.auto_start == other.auto_start
        &&& self.env_vars@ == other.env_vars@
        &&& self.created_at == other.created_at
        &&& self.created_via == other.created_via
    }
}

impl Clone for InstanceConfigFile {
    fn clone(&self) -> (res: Self)
        ensures
            res.eqv(*self),
    {
        InstanceConfigFile {
            template: self.template.clone(),
            port: self.port,
            working_dir: cloning::clone_opt_string(&self.working_dir),
            config: cloning::clone_opt_string(&self.config),
            version: cloning::clone_opt_string(&self.version),
            git_branch: cloning::clone_opt_string(&self.git_branch),
            tags: cloning::clone_string_vec(&self.tags),
            auto_start: self.auto_start,
            env_vars: cloning::clone_env(&self.env_vars),
            created_at: self.created_at,
            created_via: cloning::clone_opt_string(&self.created_via),
        }
    }
}

/// The whole configuration document: keyed templates and instances.
#[derive(Debug)]
pub struct ConfigFile {
    pub templates: Vec<(String, TemplateConfig)>,
    pub instances: Vec<(String, InstanceConfigFile)>,
}

/// How a live template corresponds to a keyed document entry.
pub open spec fn template_matches_entry(t: ServiceTemplate, id: String, tc: TemplateConfig) -> bool {
    &&& t.id == id
    &&& t.display_name == tc.display_name
    &&& t.description == tc.description
    &&& t.default_port == tc.default_port
    &&& t.port_range == tc.port_range
    &&& t.start_command == tc.start_command
    &&& t.stop_command == tc.stop_command
    &&& t.health_endpoint == tc.health_endpoint
    &&& t.health_timeout_ms == tc.health_timeout_ms
    &&& t.category == tc.category
    &&& t.supports_multiple == tc.supports_multiple
    &&& t.is_docker == tc.is_docker
    &&& t.default_env@ == tc.default_env@
}

/// Build a live template from a document entry.
pub fn template_from_entry(id: String, tc: TemplateConfig) -> (r: ServiceTemplate)
    ensures
        template_matches_entry(r, id, tc),
{
    ServiceTemplate {
        id,
        display_name: tc.display_name,
        description: tc.description,
        default_port: tc.default_port,
        port_range: tc.port_range,
        start_command: tc.start_command,
        stop_command: tc.stop_command,
        health_endpoint: tc.health_endpoint,
        health_timeout_ms: tc.health_timeout_ms,
        category: tc.category,
        supports_multiple: tc.supports_multiple,
        is_docker: tc.is_docker,
        default_env: tc.default_env,
    }
}

/// Turn a live template into the document entry that persists it.
pub fn template_to_entry(t: ServiceTemplate) -> (r: (String, TemplateConfig))
    ensures
        template_matches_entry(t, r.0, r.1),
{
    (
        t.id,
        TemplateConfig {
            display_name: t.display_name,
            description: t.description,
            default_port: t.default_port,
            port_range: t.port_range,
            start_command: t.start_command,
            stop_command: t.stop_command,
            health_endpoint: t.health_endpoint,
            health_timeout_ms: t.health_timeout_ms,
            category: t.category,
            supports_multiple: t.supports_multiple,
            is_docker: t.is_docker,
            default_env: t.default_env,
        },
    )
}

/// Saving then loading a template yields one equal in all persisted
/// fields: any template read back from the entry a template was saved
/// to is congruent to the original.
pub proof fn lemma_template_roundtrip(
    t: ServiceTemplate,
    id: String,
    tc: TemplateConfig,
    t2: ServiceTemplate,
)
    requires
        template_matches_entry(t, id, tc),
        template_matches_entry(t2, id, tc),
    ensures
        t2.eqv(t),
{
}

/// Loading then saving a template entry yields one equal in all fields:
/// any entry a loaded template is saved to is congruent to the entry it
/// was loaded from.
pub proof fn lemma_template_entry_roundtrip(
    t: ServiceTemplate,
    id: String,
    tc: TemplateConfig,
    id2: String,
    tc2: TemplateConfig,
)
    requires
        template_matches_entry(t, id, tc),
        template_matches_entry(t, id2, tc2),
    ensures
        id2 == id,
        tc2.eqv(tc),
{
}

/// How a live instance corresponds to the document entry that persists
/// it: placement and metadata are written out; runtime state is not.
pub open spec fn instance_matches_entry(
    i: ServiceInstance,
    id: String,
    f: InstanceConfigFile,
) -> bool {
    &&& i.id == id
    &&& f.template == i.template_id
    &&& f.port == Some(i.port)
    &&& f.working_dir == i.working_dir
    &&& f.config == i.config_path
    &&& f.version == i.version
    &&& f.git_branch == i.git_branch
    &&& f.tags@ == i.tags@
    &&& f.auto_start == i.auto_start
    &&& f.env_vars@ == i.env_vars@
    &&& f.created_at == Some(i.created_at)
    &&& match f.created_via {
        Some(v) => v == i.created_via,
        None => false,
    }
}

/// What a load of a document entry must produce: the entry's fields,
/// the defaults where the entry is silent, and runtime state reset.
pub open spec fn instance_loaded_from(
    i: ServiceInstance,
    id: String,
    f: InstanceConfigFile,
    default_port: u16,
    now: i64,
) -> bool {
    &&& i.id == id
    &&& i.template_id == f.template
    &&& i.port == match f.port {
        Some(p) => p,
        None => default_port,
    }
    &&& i.working_dir == f.working_dir
    &&& i.config_path == f.config
    &&& i.version == f.version
    &&& i.git_branch == f.git_branch
    &&& i.tags@ == f.tags@
    &&& i.auto_start == f.auto_start
    &&& i.env_vars@ == f.env_vars@
    &&& i.status == ServiceStatus::Stopped
    &&& i.pid is None
    &&& i.started_at is None
    &&& i.created_at == match f.created_at {
        Some(t) => t,
        None => now,
    }
    &&& i.created_via@ == match f.created_via {
        Some(v) => v@,
        None => "config"@,
    }
}

/// Build a live instance from a document entry.  The port falls back to
/// the owning template's default; the creation metadata falls back to
/// `now` and `"config"`.  Empty identifiers are refused.
pub fn instance_from_entry(
    id: String,
    f: InstanceConfigFile,
    default_port: u16,
    now: i64,
) -> (r: Result<ServiceInstance, UsmError>)
    ensures
        (id@.len() == 0 || f.template@.len() == 0) <==> r is Err,
        r is Err ==> r == Err::<ServiceInstance, UsmError>(UsmError::Validation),
        r matches Ok(i) ==> instance_loaded_from(i, id, f, default_port, now),
{
    if id.as_str().is_empty() {
        return Err(UsmError::Validation);
    }
    if f.template.as_str().is_empty() {
        return Err(UsmError::Validation);
    }
    let port = match f.port {
        Some(p) => p,
        None => default_port,
    };
    let created_at = match f.created_at {
        Some(t) => t,
        None => now,
    };
    let created_via = match f.created_via {
        Some(v) => v,
        None => crate::instance::default_created_via(),
    };
    Ok(ServiceInstance {
        id,
        template_id: f.template,
        port,
        working_dir: f.working_dir,
        config_path: f.config,
        version: f.version,
        git_branch: f.git_branch,
        tags: f.tags,
        auto_start: f.auto_start,
        env_vars: f.env_vars,
        status: ServiceStatus::Stopped,
        pid: None,
        started_at: None,
        created_at,
        created_via,
    })
}

/// Turn a live instance into the document entry that persists it.
pub fn instance_to_entry(i: ServiceInstance) -> (r: (String, InstanceConfigFile))
    ensures
        instance_matches_entry(i, r.0, r.1),
{
    (
        i.id,
        InstanceConfigFile {
            template: i.template_id,
            port: Some(i.port),
            working_dir: i.working_dir,
            config: i.config_path,
            version: i.version,
            git_branch: i.git_branch,
            tags: i.tags,
            auto_start: i.auto_start,
            env_vars: i.env_vars,
            created_at: Some(i.created_at),
            created_via: Some(i.created_via),
        },
    )
}

/// Saving then loading an instance yields one equal in all persisted
/// fields: any instance read back from the entry an instance was saved
/// to agrees with the original everywhere but in the runtime state,
/// which a load resets.
pub proof fn lemma_instance_roundtrip(
    i: ServiceInstance,
    id: String,
    f: InstanceConfigFile,
    i2: ServiceInstance,
    default_port: u16,
    now: i64,
)
    requires
        instance_matches_entry(i, id, f),
        instance_loaded_from(i2, id, f, default_port, now),
    ensures
        i2.id == i.id,
        i2.template_id == i.template_id,
        i2.port == i.port,
        i2.working_dir == i.working_dir,
        i2.config_path == i.config_path,
        i2.version == i.version,
        i2.git_branch == i.git_branch,
        i2.tags@ == i.tags@,
        i2.auto_start == i.auto_start,
        i2.env_vars@ == i.env_vars@,
        i2.created_at == i.created_at,
        i2.created_via@ == i.created_via@,
        i2.status == ServiceStatus::Stopped,
        i2.pid is None,
        i2.started_at is None,
{
}

/// The persisted section for every registered template, in order.
pub fn snapshot_templates(reg: &TemplateRegistry) -> (r: Vec<(String, TemplateConfig)>)
    ensures
        r@.len() == reg@.len(),
        forall|k: int|
            0 <= k < r@.len() ==> template_matches_entry(
                reg@[k],
                (#[trigger] r@[k]).0,
                r@[k].1,
            ),
{
    let ts = reg.list();
    let mut r: Vec<(String, TemplateConfig)> = Vec::new();
    let mut i: usize = 0;
    while i < ts.len()
        invariant
            i <= ts@.len(),
            ts@.len() == reg@.len(),
            forall|k: int| 0 <= k < ts@.len() ==> (#[trigger] ts@[k]).eqv(reg@[k]),
            r@.len() == i,
            forall|k: int|
                0 <= k < i ==> template_matches_entry(reg@[k], (#[trigger] r@[k]).0, r@[k].1),
        decreases ts@.len() - i,
    {
        let entry = template_to_entry(ts[i].clone());
        r.push(entry);
        i = i + 1;
    }
    r
}

/// The persisted section for every instance, in order.
pub fn snapshot_instances(reg: &InstanceRegistry) -> (r: Vec<(String, InstanceConfigFile)>)
    ensures
        r@.len() == reg@.len(),
        forall|k: int|
            0 <= k < r@.len() ==> instance_matches_entry(
                reg@[k],
                (#[trigger] r@[k]).0,
                r@[k].1,
            ),
{
    let is = reg.list();
    let mut r: Vec<(String, InstanceConfigFile)> = Vec::new();
    let mut i: usize = 0;
    while i < is.len()
        invariant
            i <= is@.len(),
            is@.len() == reg@.len(),
            forall|k: int| 0 <= k < is@.len() ==> (#[trigger] is@[k]).eqv(reg@[k]),
            r@.len() == i,
            forall|k: int|
                0 <= k < i ==> instance_matches_entry(reg@[k], (#[trigger] r@[k]).0, r@[k].1),
        decreases is@.len() - i,
    {
        let entry = instance_to_entry(is[i].clone());
        r.push(entry);
        i = i + 1;
    }
    r
}

/// Expand the placeholder variables of a path-like field: the
/// project-root marker and the home-directory shorthand, both replaced
/// with the expansions the boundary looked up.
pub fn resolve_path(path: &str, project_root: &str, home: &str) -> (r: String)
    ensures
        r@ == text::spec_replace(
            text::spec_replace(path@, "${PROJECT_ROOT}"@, project_root@),
            "~"@,
            home@,
        ),
{
    proof {
        reveal_strlit("${PROJECT_ROOT}");
        reveal_strlit("~");
    }
    let step = text::replace_all(path, "${PROJECT_ROOT}", project_root);
    text::replace_all(step.as_str(), "~", home)
}

} // verus!
