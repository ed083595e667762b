//! The orchestrator: one object composing the two registries and the
//! event bus, enforcing the cross-registry invariants and driving the
//! instance state machine.
//!
//! Blocking OS work never happens here.  A mutation request is validated
//! against both registries and committed; starting and stopping are split
//! into a plan (what the monitor must do) and a commit (what the registry
//! records once it is done), so the caller performs the process work
//! between the two and persists and publishes after, in the order:
//! validate, mutate, persist, publish.

use vstd::prelude::*;

use crate::config::{self, ConfigFile};
use crate::errors::UsmError;
use crate::events::{EventBus, ServiceEvent};
use crate::instance::{InstanceConfig, ServiceInstance, ServiceStatus};
use crate::registry::{by_template, InstanceRegistry, StatusCounts, TemplateRegistry};
use crate::template::ServiceTemplate;
use crate::text;

verus! {

/// Whether some template of `ts` carries the given id.
pub open spec fn templates_contain(ts: Seq<ServiceTemplate>, id: Seq<char>) -> bool {
    exists|t: int| 0 <= t < ts.len() && #[trigger] ts[t].id@ == id
}

/// How many instances of `s` were created from the template named `id`.
pub open spec fn count_for_template(s: Seq<ServiceInstance>, id: Seq<char>) -> nat
    decreases s.len(),
{
    if s.len() == 0 {
        0
    } else {
        count_for_template(s.drop_last(), id) + (if s.last().template_id@ == id {
            1nat
        } else {
            0nat
        })
    }
}

proof fn lemma_count_push(s: Seq<ServiceInstance>, i: ServiceInstance, id: Seq<char>)
    ensures
        count_for_template(s.push(i), id) == count_for_template(s, id) + (
        if i.template_id@ == id {
            1nat
        } else {
            0nat
        }),
{
    assert(s.push(i).drop_last() =~= s);
    assert(s.push(i).last() == i);
}

proof fn lemma_count_zero(s: Seq<ServiceInstance>, id: Seq<char>)
    requires
        forall|k: int| 0 <= k < s.len() ==> #[trigger] s[k].template_id@ != id,
    ensures
        count_for_template(s, id) == 0,
    decreases s.len(),
{
    if s.len() > 0 {
        assert(forall|k: int|
            0 <= k < s.drop_last().len() ==> #[trigger] s.drop_last()[k].template_id@ != id);
        lemma_count_zero(s.drop_last(), id);
        assert(s.last() == s[s.len() - 1]);
    }
}

proof fn lemma_count_remove(s: Seq<ServiceInstance>, k: int, id: Seq<char>)
    requires
        0 <= k < s.len(),
    ensures
        count_for_template(s.remove(k), id) == count_for_template(s, id) - (
        if s[k].template_id@ == id {
            1nat
        } else {
            0nat
        }),
    decreases s.len(),
{
    if k == s.len() - 1 {
        assert(s.remove(k) =~= s.drop_last());
    } else {
        let s2 = s.drop_last();
        assert(s.remove(k).drop_last() =~= s2.remove(k));
        assert(s.remove(k).last() == s.last());
        lemma_count_remove(s2, k, id);
    }
}

proof fn lemma_count_same_templates(s1: Seq<ServiceInstance>, s2: Seq<ServiceInstance>, id: Seq<
    char,
>)
    requires
        s1.len() == s2.len(),
        forall|j: int| 0 <= j < s1.len() ==> s1[j].template_id@ == #[trigger] s2[j].template_id@,
    ensures
        count_for_template(s1, id) == count_for_template(s2, id),
    decreases s1.len(),
{
    if s1.len() > 0 {
        assert(forall|j: int|
            0 <= j < s1.drop_last().len() ==> s1.drop_last()[j].template_id@
                == #[trigger] s2.drop_last()[j].template_id@);
        lemma_count_same_templates(s1.drop_last(), s2.drop_last(), id);
        assert(s1.last().template_id@ == s2.last().template_id@);
    }
}

/// Two distinct positions both matching a template make the count at
/// least two.
proof fn lemma_count_two(s: Seq<ServiceInstance>, id: Seq<char>, i: int, j: int)
    requires
        0 <= i < j < s.len(),
        s[i].template_id@ == id,
        s[j].template_id@ == id,
    ensures
        count_for_template(s, id) >= 2,
    decreases s.len(),
{
    if j == s.len() - 1 {
        lemma_count_one(s.drop_last(), id, i);
    } else {
        lemma_count_two(s.drop_last(), id, i, j);
    }
}

/// One position matching a template makes the count at least one.
proof fn lemma_count_one(s: Seq<ServiceInstance>, id: Seq<char>, i: int)
    requires
        0 <= i < s.len(),
        s[i].template_id@ == id,
    ensures
        count_for_template(s, id) >= 1,
    decreases s.len(),
{
    if i < s.len() - 1 {
        lemma_count_one(s.drop_last(), id, i);
    }
}

/// The core object: templates, instances and the bus, under one owner.
pub struct UsmCore {
    templates: TemplateRegistry,
    instances: InstanceRegistry,
    bus: EventBus,
}

impl UsmCore {
    pub closed spec fn templates_reg(&self) -> TemplateRegistry {
        self.templates
    }

    pub closed spec fn instances_reg(&self) -> InstanceRegistry {
        self.instances
    }

    /// The templates the core holds, in registration order.
    pub open spec fn spec_templates(&self) -> Seq<ServiceTemplate> {
        self.templates_reg()@
    }

    /// The instances the core holds, in insertion order.
    pub open spec fn spec_instances(&self) -> Seq<ServiceInstance> {
        self.instances_reg()@
    }

    /// The template named `id`, when one is registered.
    pub open spec fn spec_template(&self, id: Seq<char>) -> Option<ServiceTemplate> {
        self.templates_reg().spec_get(id)
    }

    /// The instance named `id`, when one exists.
    pub open spec fn spec_instance(&self, id: Seq<char>) -> Option<ServiceInstance> {
        self.instances_reg().spec_get(id)
    }

    /// Every template that supports only one instance is referenced by
    /// at most one.
    pub open spec fn single_instance_ok(&self) -> bool {
        forall|t: int|
            0 <= t < self.spec_templates().len() && !(#[trigger] self.spec_templates()[t])
                .supports_multiple ==> count_for_template(
                self.spec_instances(),
                self.spec_templates()[t].id@,
            ) <= 1
    }

    /// Every instance references a registered template.
    pub open spec fn refs_ok(&self) -> bool {
        forall|i: int|
            0 <= i < self.spec_instances().len() ==> templates_contain(
                self.spec_templates(),
                (#[trigger] self.spec_instances()[i]).template_id@,
            )
    }

    /// The cross-registry invariant: both registries are well-formed,
    /// instances reference existing templates, and single-instance
    /// templates are respected.
    pub open spec fn wf(&self) -> bool {
        &&& self.templates_reg().wf()
        &&& self.instances_reg().wf()
        &&& self.refs_ok()
        &&& self.single_instance_ok()
    }

    /// A fresh core: no templates, no instances, an event bus with the
    /// default buffering.
    pub fn new() -> (r: UsmCore)
        ensures
            r.wf(),
            r.spec_templates().len() == 0,
            r.spec_instances().len() == 0,
    {
        UsmCore {
            templates: TemplateRegistry::new(),
            instances: InstanceRegistry::new(),
            bus: EventBus::new(1024),
        }
    }

    /// Copies of all registered templates.
    pub fn list_templates(&self) -> (r: Vec<ServiceTemplate>)
        ensures
            r@.len() == self.spec_templates().len(),
            forall|i: int| 0 <= i < r@.len() ==> (#[trigger] r@[i]).eqv(self.spec_templates()[i]),
    {
        self.templates.list()
    }

    /// A copy of the template with the given id, if registered.
    pub fn get_template(&self, id: &str) -> (r: Option<ServiceTemplate>)
        requires
            self.wf(),
        ensures
            match (r, self.spec_template(id@)) {
                (Some(a), Some(b)) => a.eqv(b),
                (None, None) => true,
                _ => false,
            },
    {
        self.templates.get(id)
    }

    /// Register a new template at runtime; refused with `Conflict` when
    /// the id is taken.
    pub fn register_template(&mut self, template: ServiceTemplate) -> (r: Result<(), UsmError>)
        requires
            old(self).wf(),
        ensures
            final(self).wf(),
            final(self).spec_instances() == old(self).spec_instances(),
            old(self).templates_reg().spec_contains_id(template.id@) ==> r == Err::<(), UsmError>(
                UsmError::Conflict,
            ) && final(self).spec_templates() == old(self).spec_templates(),
            !old(self).templates_reg().spec_contains_id(template.id@) ==> r == Ok::<(), UsmError>(
                (),
            ) && final(self).spec_templates() == old(self).spec_templates().push(template),
    {
        let ghost old_ts = self.spec_templates();
        let ghost insts = self.spec_instances();
        let ghost tid = template.id@;
        let ghost had = self.templates_reg().spec_contains_id(tid);
        let r = self.templates.register(template);
        proof {
            if !had {
                assert forall|t: int|
                    0 <= t < self.spec_templates().len() && !(#[trigger] self.spec_templates()[t])
                        .supports_multiple implies count_for_template(
                    insts,
                    self.spec_templates()[t].id@,
                ) <= 1 by {
                    if t < old_ts.len() {
                        assert(self.spec_templates()[t] == old_ts[t]);
                    } else {
                        assert(self.spec_templates()[t].id@ == tid);
                        assert forall|k: int| 0 <= k < insts.len() implies #[trigger] insts[k]
                            .template_id@ != tid by {
                            if insts[k].template_id@ == tid {
                                assert(templates_contain(old_ts, tid));
                            }
                        }
                        lemma_count_zero(insts, tid);
                    }
                }
                assert forall|i: int| 0 <= i < insts.len() implies templates_contain(
                    self.spec_templates(),
                    (#[trigger] insts[i]).template_id@,
                ) by {
                    let ghost w = choose|t: int|
                        0 <= t < old_ts.len() && #[trigger] old_ts[t].id@ == insts[i].template_id@;
                    assert(self.spec_templates()[w].id@ == insts[i].template_id@);
                }
            }
        }
        r
    }

    /// Remove a template.  Refused with `Conflict` while any instance
    /// references it, and with `NotFound` when it does not exist.
    pub fn remove_template(&mut self, id: &str) -> (r: Result<(), UsmError>)
        requires
            old(self).wf(),
        ensures
            final(self).wf(),
            final(self).spec_instances() == old(self).spec_instances(),
            old(self).instances_reg().spec_has_for_template(id@) ==> r == Err::<(), UsmError>(
                UsmError::Conflict,
            ) && final(self).spec_templates() == old(self).spec_templates(),
            !old(self).instances_reg().spec_has_for_template(id@)
                && !old(self).templates_reg().spec_contains_id(id@) ==> r == Err::<(), UsmError>(
                UsmError::NotFound,
            ) && final(self).spec_templates() == old(self).spec_templates(),
            !old(self).instances_reg().spec_has_for_template(id@)
                && old(self).templates_reg().spec_contains_id(id@) ==> r == Ok::<(), UsmError>(())
                && final(self).spec_templates() == old(self).spec_templates().remove(
                old(self).templates_reg().spec_index_of(id@),
            ),
    {
        if self.instances.has_instances_for_template(id) {
            return Err(UsmError::Conflict);
        }
        let ghost old_ts = self.spec_templates();
        let ghost insts = self.spec_instances();
        let ghost had = self.templates_reg().spec_contains_id(id@);
        let ghost k = self.templates_reg().spec_index_of(id@);
        let r = self.templates.remove(id);
        proof {
            if had {
                old_ts.remove_ensures(k);
                assert(old_ts[k].id@ == id@);
                assert forall|t: int|
                    0 <= t < self.spec_templates().len() && !(#[trigger] self.spec_templates()[t])
                        .supports_multiple implies count_for_template(
                    insts,
                    self.spec_templates()[t].id@,
                ) <= 1 by {
                    if t < k {
                        assert(self.spec_templates()[t] == old_ts[t]);
                    } else {
                        assert(self.spec_templates()[t] == old_ts[t + 1]);
                    }
                }
                assert forall|i: int| 0 <= i < insts.len() implies templates_contain(
                    self.spec_templates(),
                    (#[trigger] insts[i]).template_id@,
                ) by {
                    let iid = insts[i].template_id@;
                    let ghost w = choose|t: int|
                        0 <= t < old_ts.len() && #[trigger] old_ts[t].id@ == iid;
                    assert(iid != id@);
                    if w < k {
                        assert(self.spec_templates()[w].id@ == iid);
                    } else {
                        assert(self.spec_templates()[w - 1] == old_ts[w]);
                    }
                }
            }
        }
        r
    }
    /// A copy of the instance with the given id, if present.
    pub fn get_instance(&self, id: &str) -> (r: Option<ServiceInstance>)
        requires
            self.wf(),
        ensures
            match (r, self.spec_instance(id@)) {
                (Some(a), Some(b)) => a.eqv(b),
                (None, None) => true,
                _ => false,
            },
    {
        self.instances.get(id)
    }

    /// Copies of all instances, or of those created from one template.
    pub fn list_instances(&self, template_filter: Option<&str>) -> (r: Vec<ServiceInstance>)
        ensures
            match template_filter {
                None => r@.len() == self.spec_instances().len() && forall|i: int|
                    0 <= i < r@.len() ==> (#[trigger] r@[i]).eqv(self.spec_instances()[i]),
                Some(tid) => r@.len() == self.spec_instances().filter(by_template(tid@)).len()
                    && forall|k: int|
                    0 <= k < r@.len() ==> (#[trigger] r@[k]).eqv(
                        self.spec_instances().filter(by_template(tid@))[k],
                    ),
            },
    {
        match template_filter {
            None => self.instances.list(),
            Some(tid) => self.instances.list_by_template(tid),
        }
    }

    /// The number of instances in each status.
    pub fn status_counts(&self) -> (r: StatusCounts)
        ensures
            r.stopped == crate::registry::count_status(
                self.spec_instances(),
                ServiceStatus::Stopped,
            ),
            r.running == crate::registry::count_status(
                self.spec_instances(),
                ServiceStatus::Running,
            ),
            r.starting == crate::registry::count_status(
                self.spec_instances(),
                ServiceStatus::Starting,
            ),
            r.stopping == crate::registry::count_status(
                self.spec_instances(),
                ServiceStatus::Stopping,
            ),
            r.error == crate::registry::count_status(self.spec_instances(), ServiceStatus::Error),
            r.unknown == crate::registry::count_status(
                self.spec_instances(),
                ServiceStatus::Unknown,
            ),
    {
        self.instances.status_counts()
    }

    /// The port a new instance of a template takes: the configured one,
    /// or the template's default.
    pub open spec fn spec_resolved_port(config: InstanceConfig, t: ServiceTemplate) -> u16 {
        match config.port {
            Some(p) => p,
            None => t.default_port,
        }
    }

    /// The port `create_instance` would bind for a configuration, once
    /// its template is known to exist.
    pub open spec fn spec_new_port(&self, config: InstanceConfig) -> u16 {
        match self.spec_template(config.template_id@) {
            Some(t) => Self::spec_resolved_port(config, t),
            None => 0,
        }
    }

    /// Why `create_instance` refuses a configuration, if it does: an
    /// unknown template, a second instance of a single-instance
    /// template, an empty identifier, or a taken id or port — in that
    /// order of precedence.
    pub open spec fn spec_create_err(&self, config: InstanceConfig) -> Option<UsmError> {
        match self.spec_template(config.template_id@) {
            None => Some(UsmError::NotFound),
            Some(t) => if !t.supports_multiple && self.instances_reg().spec_has_for_template(
                config.template_id@,
            ) {
                Some(UsmError::Conflict)
            } else if config.instance_id@.len() == 0 || config.template_id@.len() == 0 {
                Some(UsmError::Validation)
            } else if self.instances_reg().spec_contains_id(config.instance_id@)
                || self.instances_reg().spec_uses_port(Self::spec_resolved_port(config, t)) {
                Some(UsmError::Conflict)
            } else {
                None
            },
        }
    }

    /// Create a new instance from a template.  The configuration's port
    /// falls back to the template's default.  Fails with `NotFound` for
    /// an unknown template, `Conflict` for a single-instance violation
    /// or a taken id or port, and `Validation` for an empty id.
    ///
    /// The single-instance check and the insertion happen under one
    /// exclusive borrow of the core, so two concurrent creation requests
    /// against a single-instance template can never both pass
    /// validation: there is no window between the check and the commit.
    pub fn create_instance(&mut self, config: InstanceConfig) -> (r: Result<String, UsmError>)
        requires
            old(self).wf(),
        ensures
            final(self).wf(),
            final(self).spec_templates() == old(self).spec_templates(),
            match old(self).spec_create_err(config) {
                Some(e) => r == Err::<String, UsmError>(e) && final(self).spec_instances() == old(
                    self,
                ).spec_instances(),
                None => {
                    &&& r matches Ok(rid) && rid@ == config.instance_id@
                    &&& final(self).spec_instances().len() == old(self).spec_instances().len() + 1
                    &&& final(self).spec_instances() == old(self).spec_instances().push(
                        final(self).spec_instances().last(),
                    )
                    &&& final(self).spec_instances().last().spec_fresh(
                        config,
                        old(self).spec_new_port(config),
                        "api"@,
                    )
                },
            },
    {
        let template = match self.templates.get(config.template_id.as_str()) {
            None => {
                return Err(UsmError::NotFound);
            },
            Some(t) => t,
        };
        if !template.supports_multiple && self.instances.has_instances_for_template(
            config.template_id.as_str(),
        ) {
            return Err(UsmError::Conflict);
        }
        let port = match config.port {
            Some(p) => p,
            None => template.default_port,
        };
        let mut cfg = config;
        cfg.port = Some(port);
        let ghost old_insts = self.spec_instances();
        let ghost tid = cfg.template_id@;
        let instance = match ServiceInstance::from_config(cfg) {
            Err(e) => {
                return Err(e);
            },
            Ok(i) => i,
        };
        let instance_id = instance.id.clone();
        let ghost inst = instance;
        match self.instances.add(instance) {
            Err(e) => {
                return Err(e);
            },
            Ok(()) => {},
        }
        proof {
            lemma_count_push(old_insts, inst, tid);
            let ts = self.spec_templates();
            assert forall|t: int|
                0 <= t < ts.len() && !(#[trigger] ts[t]).supports_multiple implies
                count_for_template(self.spec_instances(), ts[t].id@) <= 1 by {
                lemma_count_push(old_insts, inst, ts[t].id@);
                if ts[t].id@ == tid {
                    let w = self.templates_reg().spec_index_of(tid);
                    assert(0 <= w < ts.len() && ts[w].id@ == tid);
                    assert(w == t);
                    assert forall|m: int| 0 <= m < old_insts.len() implies #[trigger] old_insts[m]
                        .template_id@ != tid by {}
                    lemma_count_zero(old_insts, tid);
                }
            }
            assert forall|i: int| 0 <= i < self.spec_instances().len() implies templates_contain(
                self.spec_templates(),
                (#[trigger] self.spec_instances()[i]).template_id@,
            ) by {
                if i < old_insts.len() {
                    assert(self.spec_instances()[i] == old_insts[i]);
                } else {
                    assert(self.spec_instances()[i] == inst);
                    let w = self.templates_reg().spec_index_of(tid);
                    assert(self.spec_templates()[w].id@ == tid);
                }
            }
        }
        Ok(instance_id)
    }

    /// Remove an instance; refused with `NotFound` when it does not
    /// exist.  A caller that wants the process stopped first drives the
    /// stop plan before removing, and proceeds with the removal even if
    /// the stop failed.
    pub fn remove_instance(&mut self, id: &str) -> (r: Result<(), UsmError>)
        requires
            old(self).wf(),
        ensures
            final(self).wf(),
            final(self).spec_templates() == old(self).spec_templates(),
            !old(self).instances_reg().spec_contains_id(id@) ==> r == Err::<(), UsmError>(
                UsmError::NotFound,
            ) && final(self).spec_instances() == old(self).spec_instances(),
            old(self).instances_reg().spec_contains_id(id@) ==> r == Ok::<(), UsmError>(())
                && final(self).spec_instances() == old(self).spec_instances().remove(
                old(self).instances_reg().spec_index_of(id@),
            ),
    {
        let ghost old_insts = self.spec_instances();
        let ghost had = self.instances_reg().spec_contains_id(id@);
        let ghost k = self.instances_reg().spec_index_of(id@);
        let r = self.instances.remove(id);
        proof {
            if had {
                old_insts.remove_ensures(k);
                let ts = self.spec_templates();
                assert forall|t: int|
                    0 <= t < ts.len() && !(#[trigger] ts[t]).supports_multiple implies
                    count_for_template(self.spec_instances(), ts[t].id@) <= 1 by {
                    lemma_count_remove(old_insts, k, ts[t].id@);
                }
                assert forall|i: int|
                    0 <= i < self.spec_instances().len() implies templates_contain(
                    ts,
                    (#[trigger] self.spec_instances()[i]).template_id@,
                ) by {
                    if i < k {
                        assert(self.spec_instances()[i] == old_insts[i]);
                    } else {
                        assert(self.spec_instances()[i] == old_insts[i + 1]);
                    }
                }
            }
        }
        r
    }

    /// Create a copy of an existing instance under a new configuration,
    /// inheriting the source's template.  Fails with `NotFound` when the
    /// source does not exist, then as `create_instance` does.
    pub fn clone_instance(&mut self, source_id: &str, new_config: InstanceConfig) -> (r: Result<
        String,
        UsmError,
    >)
        requires
            old(self).wf(),
        ensures
            final(self).wf(),
            final(self).spec_templates() == old(self).spec_templates(),
            old(self).spec_instance(source_id@) is None ==> r == Err::<String, UsmError>(
                UsmError::NotFound,
            ) && final(self).spec_instances() == old(self).spec_instances(),
            match old(self).spec_instance(source_id@) {
                Some(src) => {
                    let cfg2 = (InstanceConfig { template_id: src.template_id, ..new_config });
                    match old(self).spec_create_err(cfg2) {
                        Some(e) => r == Err::<String, UsmError>(e) && final(self).spec_instances()
                            == old(self).spec_instances(),
                        None => {
                            &&& r matches Ok(rid) && rid@ == cfg2.instance_id@
                            &&& final(self).spec_instances() == old(self).spec_instances().push(
                                final(self).spec_instances().last(),
                            )
                            &&& final(self).spec_instances().len() == old(
                                self,
                            ).spec_instances().len() + 1
                            &&& final(self).spec_instances().last().spec_fresh(
                                cfg2,
                                old(self).spec_new_port(cfg2),
                                "api"@,
                            )
                        },
                    }
                },
                None => true,
            },
    {
        let source = match self.instances.get(source_id) {
            None => {
                return Err(UsmError::NotFound);
            },
            Some(s) => s,
        };
        let mut cfg = new_config;
        cfg.template_id = source.template_id;
        self.create_instance(cfg)
    }

    /// Plan the start of an instance: nothing to do when it already
    /// runs, otherwise the command the monitor must launch, with the
    /// working directory and the port for pid-capture fallback.
    ///
    /// Starting an instance already in `Running` status is an idempotent
    /// no-op: the plan says so, no process is spawned, and no state
    /// changes (this function does not mutate at all).
    pub fn start_plan(&self, id: &str) -> (r: Result<StartPlan, UsmError>)
        requires
            self.wf(),
        ensures
            self.spec_instance(id@) is None ==> r == Err::<StartPlan, UsmError>(UsmError::NotFound),
            match self.spec_instance(id@) {
                Some(inst) => {
                    &&& inst.status == ServiceStatus::Running ==> r == Ok::<StartPlan, UsmError>(
                        StartPlan::AlreadyRunning { pid: inst.pid },
                    )
                    &&& inst.status != ServiceStatus::Running ==> match self.spec_template(
                        inst.template_id@,
                    ) {
                        None => r == Err::<StartPlan, UsmError>(UsmError::NotFound),
                        Some(t) => match r {
                            Ok(StartPlan::Launch { command, working_dir, port }) => {
                                &&& command@ == t.spec_start_command(inst)
                                &&& working_dir == inst.working_dir
                                &&& port == inst.port
                            },
                            _ => false,
                        },
                    }
                },
                None => true,
            },
    {
        let instance = match self.instances.get(id) {
            None => {
                return Err(UsmError::NotFound);
            },
            Some(i) => i,
        };
        if instance.status == ServiceStatus::Running {
            return Ok(StartPlan::AlreadyRunning { pid: instance.pid });
        }
        let template = match self.templates.get(instance.template_id.as_str()) {
            None => {
                return Err(UsmError::NotFound);
            },
            Some(t) => t,
        };
        let command = template.build_start_command(&instance);
        let port = instance.port;
        Ok(StartPlan::Launch { command, working_dir: instance.working_dir, port })
    }

    /// Commit a successful start: the instance becomes `Running` under
    /// the pid the monitor verified, and its start time is stamped.
    /// After the commit, that instance's pid and start time are set —
    /// exactly because it is running.
    pub fn finish_start(&mut self, id: &str, pid: u32) -> (r: Result<(), UsmError>)
        requires
            old(self).wf(),
        ensures
            final(self).wf(),
            final(self).spec_templates() == old(self).spec_templates(),
            !old(self).instances_reg().spec_contains_id(id@) ==> r == Err::<(), UsmError>(
                UsmError::NotFound,
            ) && final(self).spec_instances() == old(self).spec_instances(),
            old(self).instances_reg().spec_contains_id(id@) ==> {
                let k = old(self).instances_reg().spec_index_of(id@);
                &&& r == Ok::<(), UsmError>(())
                &&& final(self).spec_instances().len() == old(self).spec_instances().len()
                &&& forall|j: int|
                    0 <= j < old(self).spec_instances().len() && j != k ==> final(self).spec_instances()[j] == old(self).spec_instances()[j]
                &&& InstanceRegistry::spec_status_updated(
                    old(self).spec_instances()[k],
                    final(self).spec_instances()[k],
                    ServiceStatus::Running,
                    Some(pid),
                )
                &&& final(self).spec_instances()[k].pid is Some
                &&& final(self).spec_instances()[k].started_at is Some
            },
    {
        let r = self.instances.update_status(id, ServiceStatus::Running, Some(pid));
        proof {
            self.lemma_wf_after_update(*old(self), id@);
        }
        r
    }

    /// Plan the stop of an instance: nothing when it is not running
    /// (stopping a stopped instance is an idempotent success that never
    /// reaches the monitor — this function does not mutate at all), the
    /// template's custom stop command with `{pid}` substituted when one
    /// is declared, and a graceful kill otherwise.
    pub fn stop_plan(&self, id: &str) -> (r: Result<StopPlan, UsmError>)
        requires
            self.wf(),
        ensures
            self.spec_instance(id@) is None ==> r == Err::<StopPlan, UsmError>(UsmError::NotFound),
            match self.spec_instance(id@) {
                Some(inst) => {
                    &&& inst.status != ServiceStatus::Running ==> r == Ok::<StopPlan, UsmError>(
                        StopPlan::AlreadyStopped,
                    )
                    &&& inst.status == ServiceStatus::Running && inst.pid is None ==> r == Ok::<
                        StopPlan,
                        UsmError,
                    >(StopPlan::NoProcess)
                    &&& match inst.pid {
                        Some(p) => inst.status == ServiceStatus::Running ==> match self
                            .spec_template(inst.template_id@) {
                            Some(t) => match t.stop_command {
                                Some(sc) => match r {
                                    Ok(StopPlan::Run { command }) => command@ == text::spec_replace(
                                        sc@,
                                        "{pid}"@,
                                        text::spec_dec(p as nat),
                                    ),
                                    _ => false,
                                },
                                None => r == Ok::<StopPlan, UsmError>(StopPlan::Kill { pid: p }),
                            },
                            None => r == Ok::<StopPlan, UsmError>(StopPlan::Kill { pid: p }),
                        },
                        None => true,
                    }
                },
                None => true,
            },
    {
        let instance = match self.instances.get(id) {
            None => {
                return Err(UsmError::NotFound);
            },
            Some(i) => i,
        };
        if instance.status != ServiceStatus::Running {
            return Ok(StopPlan::AlreadyStopped);
        }
        let pid = match instance.pid {
            None => {
                return Ok(StopPlan::NoProcess);
            },
            Some(p) => p,
        };
        match self.templates.get(instance.template_id.as_str()) {
            Some(t) => match t.stop_command {
                Some(sc) => {
                    proof {
                        reveal_strlit("{pid}");
                    }
                    let pid_str = text::u64_to_string(pid as u64);
                    let command = text::replace_all(sc.as_str(), "{pid}", pid_str.as_str());
                    Ok(StopPlan::Run { command })
                },
                None => Ok(StopPlan::Kill { pid }),
            },
            None => Ok(StopPlan::Kill { pid }),
        }
    }

    /// Commit a stop: the instance becomes `Stopped`, its pid and start
    /// time are cleared.
    pub fn finish_stop(&mut self, id: &str) -> (r: Result<(), UsmError>)
        requires
            old(self).wf(),
        ensures
            final(self).wf(),
            final(self).spec_templates() == old(self).spec_templates(),
            !old(self).instances_reg().spec_contains_id(id@) ==> r == Err::<(), UsmError>(
                UsmError::NotFound,
            ) && final(self).spec_instances() == old(self).spec_instances(),
            old(self).instances_reg().spec_contains_id(id@) ==> {
                let k = old(self).instances_reg().spec_index_of(id@);
                &&& r == Ok::<(), UsmError>(())
                &&& final(self).spec_instances().len() == old(self).spec_instances().len()
                &&& forall|j: int|
                    0 <= j < old(self).spec_instances().len() && j != k ==> final(self).spec_instances()[j] == old(self).spec_instances()[j]
                &&& InstanceRegistry::spec_status_updated(
                    old(self).spec_instances()[k],
                    final(self).spec_instances()[k],
                    ServiceStatus::Stopped,
                    None,
                )
                &&& final(self).spec_instances()[k].status == ServiceStatus::Stopped
                &&& final(self).spec_instances()[k].pid is None
                &&& final(self).spec_instances()[k].started_at is None
            },
    {
        let r = self.instances.update_status(id, ServiceStatus::Stopped, None);
        proof {
            self.lemma_wf_after_update(*old(self), id@);
        }
        r
    }

    /// Set the status and pid of an instance directly, deriving the
    /// start time, for callers (such as an external health monitor)
    /// that observe states the lifecycle itself does not assign.
    pub fn update_status(&mut self, id: &str, status: ServiceStatus, pid: Option<u32>) -> (r:
        Result<(), UsmError>)
        requires
            old(self).wf(),
        ensures
            final(self).wf(),
            final(self).spec_templates() == old(self).spec_templates(),
            !old(self).instances_reg().spec_contains_id(id@) ==> r == Err::<(), UsmError>(
                UsmError::NotFound,
            ) && final(self).spec_instances() == old(self).spec_instances(),
            old(self).instances_reg().spec_contains_id(id@) ==> {
                let k = old(self).instances_reg().spec_index_of(id@);
                &&& r == Ok::<(), UsmError>(())
                &&& final(self).spec_instances().len() == old(self).spec_instances().len()
                &&& forall|j: int|
                    0 <= j < old(self).spec_instances().len() && j != k ==> final(self).spec_instances()[j] == old(self).spec_instances()[j]
                &&& InstanceRegistry::spec_status_updated(
                    old(self).spec_instances()[k],
                    final(self).spec_instances()[k],
                    status,
                    pid,
                )
            },
    {
        let r = self.instances.update_status(id, status, pid);
        proof {
            self.lemma_wf_after_update(*old(self), id@);
        }
        r
    }

    /// A status update never disturbs the cross-registry invariant:
    /// identities, ports and template references are all kept.
    proof fn lemma_wf_after_update(&self, prev: UsmCore, id: Seq<char>)
        requires
            prev.wf(),
            self.spec_templates() == prev.spec_templates(),
            self.instances_reg().wf(),
            !prev.instances_reg().spec_contains_id(id) ==> self.spec_instances()
                == prev.spec_instances(),
            prev.instances_reg().spec_contains_id(id) ==> self.spec_instances().len()
                == prev.spec_instances().len() && (forall|j: int|
                0 <= j < prev.spec_instances().len() && j != prev.instances_reg().spec_index_of(id)
                    ==> self.spec_instances()[j] == prev.spec_instances()[j]) && self
                .spec_instances()[prev.instances_reg().spec_index_of(id)].template_id@
                == prev.spec_instances()[prev.instances_reg().spec_index_of(id)].template_id@,
        ensures
            self.wf(),
    {
        if prev.instances_reg().spec_contains_id(id) {
            let insts = self.spec_instances();
            let old_insts = prev.spec_instances();
            assert(forall|j: int|
                0 <= j < insts.len() ==> insts[j].template_id@ == #[trigger] old_insts[j]
                    .template_id@);
            let ts = self.spec_templates();
            assert forall|t: int|
                0 <= t < ts.len() && !(#[trigger] ts[t]).supports_multiple implies
                count_for_template(insts, ts[t].id@) <= 1 by {
                lemma_count_same_templates(insts, old_insts, ts[t].id@);
            }
        }
    }

    /// Whether some template entry of the document carries the given id.
    pub open spec fn spec_has_template_entry(file: ConfigFile, id: Seq<char>) -> bool {
        exists|j: int| 0 <= j < file.templates@.len() && (#[trigger] file.templates@[j]).0@ == id
    }

    /// The position of the template entry carrying the given id (the
    /// positions coincide once duplicate ids have been ruled out).
    pub open spec fn spec_template_entry_index(file: ConfigFile, id: Seq<char>) -> int {
        choose|j: int| 0 <= j < file.templates@.len() && (#[trigger] file.templates@[j]).0@ == id
    }

    /// The port the instance entry at position `k` resolves to: its own,
    /// or the default port of its template's entry.
    pub open spec fn spec_entry_port(file: ConfigFile, k: int) -> u16 {
        match file.instances@[k].1.port {
            Some(p) => p,
            None => file.templates@[Self::spec_template_entry_index(
                file,
                file.instances@[k].1.template@,
            )].1.default_port,
        }
    }

    /// The first refusal among the first `k` template entries: a
    /// duplicate template id is a conflict.
    pub open spec fn spec_template_phase_err(file: ConfigFile, k: int) -> Option<UsmError>
        decreases k,
    {
        if k <= 0 {
            None
        } else if Self::spec_template_phase_err(file, k - 1) is Some {
            Self::spec_template_phase_err(file, k - 1)
        } else if exists|j: int|
            0 <= j < k - 1 && (#[trigger] file.templates@[j]).0@ == file.templates@[k - 1].0@ {
            Some(UsmError::Conflict)
        } else {
            None
        }
    }

    /// The first refusal among the first `k` instance entries, assuming
    /// the template entries all loaded: an unknown template, a second
    /// instance of a single-instance template, an empty identifier, a
    /// duplicate instance id, or a duplicate resolved port — in that
    /// order of precedence.
    pub open spec fn spec_instance_phase_err(file: ConfigFile, k: int) -> Option<UsmError>
        decreases k,
    {
        if k <= 0 {
            None
        } else if Self::spec_instance_phase_err(file, k - 1) is Some {
            Self::spec_instance_phase_err(file, k - 1)
        } else {
            let id = file.instances@[k - 1].0;
            let f = file.instances@[k - 1].1;
            if !Self::spec_has_template_entry(file, f.template@) {
                Some(UsmError::NotFound)
            } else if !file.templates@[Self::spec_template_entry_index(
                file,
                f.template@,
            )].1.supports_multiple && exists|j: int|
                0 <= j < k - 1 && (#[trigger] file.instances@[j]).1.template@ == f.template@ {
                Some(UsmError::Conflict)
            } else if id@.len() == 0 || f.template@.len() == 0 {
                Some(UsmError::Validation)
            } else if exists|j: int|
                0 <= j < k - 1 && (#[trigger] file.instances@[j]).0@ == id@ {
                Some(UsmError::Conflict)
            } else if exists|j: int|
                0 <= j < k - 1 && #[trigger] Self::spec_entry_port(file, j)
                    == Self::spec_entry_port(file, k - 1) {
                Some(UsmError::Conflict)
            } else {
                None
            }
        }
    }

    /// Why loading a document fails, if it does: the first refusal of
    /// the template phase, else the first refusal of the instance phase.
    pub open spec fn spec_load_err(file: ConfigFile) -> Option<UsmError> {
        match Self::spec_template_phase_err(file, file.templates@.len() as int) {
            Some(e) => Some(e),
            None => Self::spec_instance_phase_err(file, file.instances@.len() as int),
        }
    }

    /// A template-phase refusal stands for every longer prefix.
    proof fn lemma_template_phase_err_mono(file: ConfigFile, k: int, n: int)
        requires
            0 <= k <= n,
            Self::spec_template_phase_err(file, k) is Some,
        ensures
            Self::spec_template_phase_err(file, n) == Self::spec_template_phase_err(file, k),
        decreases n - k,
    {
        if n > k {
            Self::lemma_template_phase_err_mono(file, k, n - 1);
        }
    }

    /// An instance-phase refusal stands for every longer prefix.
    proof fn lemma_instance_phase_err_mono(file: ConfigFile, k: int, n: int)
        requires
            0 <= k <= n,
            Self::spec_instance_phase_err(file, k) is Some,
        ensures
            Self::spec_instance_phase_err(file, n) == Self::spec_instance_phase_err(file, k),
        decreases n - k,
    {
        if n > k {
            Self::lemma_instance_phase_err_mono(file, k, n - 1);
        }
    }

    /// Every instance of `c` holds what the corresponding document entry
    /// of `file` prescribes, with creation times defaulted to `now`.
    pub open spec fn instances_loaded_at(c: UsmCore, file: ConfigFile, now: i64) -> bool {
        forall|k: int|
            0 <= k < file.instances@.len() ==> match c.spec_template(
                (#[trigger] file.instances@[k]).1.template@,
            ) {
                Some(t) => config::instance_loaded_from(
                    c.spec_instances()[k],
                    file.instances@[k].0,
                    file.instances@[k].1,
                    t.default_port,
                    now,
                ),
                None => false,
            }
    }

    /// Build a core from a loaded configuration document: templates are
    /// registered in order, then instances are created in order, with
    /// their ports defaulted from their templates and their creation
    /// metadata restored.  Every invariant is enforced during the load
    /// (the single-instance rule included), and the first offending
    /// entry aborts it with the error the corresponding runtime
    /// operation would give.
    pub fn from_config(file: ConfigFile) -> (r: Result<UsmCore, UsmError>)
        ensures
            match r {
                Ok(c) => {
                    &&& Self::spec_load_err(file) is None
                    &&& c.wf()
                    &&& c.spec_templates().len() == file.templates@.len()
                    &&& forall|k: int|
                        0 <= k < file.templates@.len() ==> config::template_matches_entry(
                            c.spec_templates()[k],
                            (#[trigger] file.templates@[k]).0,
                            file.templates@[k].1,
                        )
                    &&& c.spec_instances().len() == file.instances@.len()
                    &&& exists|now: i64| #[trigger] Self::instances_loaded_at(c, file, now)
                },
                Err(e) => Self::spec_load_err(file) == Some(e),
            },
    {
        let mut core = UsmCore::new();
        let now = crate::clock::now_timestamp();
        let mut k: usize = 0;
        while k < file.templates.len()
            invariant
                k <= file.templates@.len(),
                core.wf(),
                core.spec_instances().len() == 0,
                core.spec_templates().len() == k,
                Self::spec_template_phase_err(file, k as int) is None,
                forall|j: int|
                    0 <= j < k ==> config::template_matches_entry(
                        core.spec_templates()[j],
                        (#[trigger] file.templates@[j]).0,
                        file.templates@[j].1,
                    ),
            decreases file.templates@.len() - k,
        {
            let entry = &file.templates[k];
            let ghost tid = file.templates@[k as int].0@;
            let ghost had = core.templates_reg().spec_contains_id(tid);
            proof {
                assert(had <==> exists|j: int|
                    0 <= j < k && (#[trigger] file.templates@[j]).0@ == tid) by {
                    if had {
                        let w = choose|i: int|
                            0 <= i < core.spec_templates().len()
                                && #[trigger] core.spec_templates()[i].id@ == tid;
                        assert(config::template_matches_entry(
                            core.spec_templates()[w],
                            (file.templates@[w]).0,
                            file.templates@[w].1,
                        ));
                        assert((file.templates@[w]).0@ == tid);
                    }
                    if exists|j: int| 0 <= j < k && (#[trigger] file.templates@[j]).0@ == tid {
                        let j = choose|j: int|
                            0 <= j < k && (#[trigger] file.templates@[j]).0@ == tid;
                        assert(core.spec_templates()[j].id@ == tid);
                    }
                }
            }
            let template = config::template_from_entry(entry.0.clone(), entry.1.clone());
            match core.register_template(template) {
                Err(e) => {
                    proof {
                        assert(Self::spec_template_phase_err(file, k + 1) == Some(
                            UsmError::Conflict,
                        ));
                        Self::lemma_template_phase_err_mono(
                            file,
                            k + 1,
                            file.templates@.len() as int,
                        );
                    }
                    return Err(e);
                },
                Ok(()) => {},
            }
            proof {
                assert(Self::spec_template_phase_err(file, k + 1) is None);
            }
            k = k + 1;
        }
        let ghost loaded_ts = core.spec_templates();
        let mut k2: usize = 0;
        while k2 < file.instances.len()
            invariant
                k2 <= file.instances@.len(),
                core.wf(),
                core.spec_templates() == loaded_ts,
                loaded_ts.len() == file.templates@.len(),
                Self::spec_template_phase_err(file, file.templates@.len() as int) is None,
                Self::spec_instance_phase_err(file, k2 as int) is None,
                forall|j: int|
                    0 <= j < file.templates@.len() ==> config::template_matches_entry(
                        loaded_ts[j],
                        (#[trigger] file.templates@[j]).0,
                        file.templates@[j].1,
                    ),
                core.spec_instances().len() == k2,
                forall|j: int|
                    0 <= j < k2 ==> match core.spec_template(
                        (#[trigger] file.instances@[j]).1.template@,
                    ) {
                        Some(t) => config::instance_loaded_from(
                            core.spec_instances()[j],
                            file.instances@[j].0,
                            file.instances@[j].1,
                            t.default_port,
                            now,
                        ),
                        None => false,
                    },
                forall|j: int|
                    0 <= j < k2 ==> (#[trigger] core.spec_instances()[j]).port
                        == Self::spec_entry_port(file, j),
            decreases file.instances@.len() - k2,
        {
            let entry = &file.instances[k2];
            let ghost idv = file.instances@[k2 as int].0;
            let ghost fent = file.instances@[k2 as int].1;
            let ghost tid = fent.template@;
            proof {
                assert(core.templates_reg().spec_contains_id(tid)
                    <==> Self::spec_has_template_entry(file, tid)) by {
                    if core.templates_reg().spec_contains_id(tid) {
                        let w = choose|i: int|
                            0 <= i < core.spec_templates().len()
                                && #[trigger] core.spec_templates()[i].id@ == tid;
                        assert(config::template_matches_entry(
                            core.spec_templates()[w],
                            (file.templates@[w]).0,
                            file.templates@[w].1,
                        ));
                        assert((file.templates@[w]).0@ == tid);
                    }
                    if Self::spec_has_template_entry(file, tid) {
                        let j = choose|j: int|
                            0 <= j < file.templates@.len() && (#[trigger] file.templates@[j]).0@
                                == tid;
                        assert(core.spec_templates()[j].id@ == tid);
                    }
                }
            }
            let template = match core.templates.get(entry.1.template.as_str()) {
                None => {
                    proof {
                        assert(Self::spec_instance_phase_err(file, k2 + 1) == Some(
                            UsmError::NotFound,
                        ));
                        Self::lemma_instance_phase_err_mono(
                            file,
                            k2 + 1,
                            file.instances@.len() as int,
                        );
                    }
                    return Err(UsmError::NotFound);
                },
                Some(t) => t,
            };
            let ghost w = core.templates_reg().spec_index_of(tid);
            let ghost jstar = Self::spec_template_entry_index(file, tid);
            proof {
                assert(0 <= w < core.spec_templates().len() && core.spec_templates()[w].id@
                    == tid);
                assert(0 <= jstar < file.templates@.len() && (file.templates@[jstar]).0@ == tid);
                assert(config::template_matches_entry(
                    core.spec_templates()[jstar],
                    (file.templates@[jstar]).0,
                    file.templates@[jstar].1,
                ));
                assert(core.spec_templates()[jstar].id@ == tid);
                assert(w == jstar);
                assert(template.supports_multiple == (file.templates@[jstar]).1.supports_multiple);
                assert(template.default_port == (file.templates@[jstar]).1.default_port);
                assert(core.instances_reg().spec_has_for_template(tid) <==> exists|j: int|
                    0 <= j < k2 && (#[trigger] file.instances@[j]).1.template@ == tid) by {
                    if core.instances_reg().spec_has_for_template(tid) {
                        let m = choose|i: int|
                            0 <= i < core.spec_instances().len()
                                && #[trigger] core.spec_instances()[i].template_id@ == tid;
                        assert(0 <= m < k2);
                        match core.spec_template((file.instances@[m]).1.template@) {
                            Some(t2) => {
                                assert(config::instance_loaded_from(
                                    core.spec_instances()[m],
                                    file.instances@[m].0,
                                    file.instances@[m].1,
                                    t2.default_port,
                                    now,
                                ));
                                assert((file.instances@[m]).1.template@ == tid);
                            },
                            None => {
                                assert(false);
                            },
                        }
                    }
                    if exists|j: int|
                        0 <= j < k2 && (#[trigger] file.instances@[j]).1.template@ == tid {
                        let m = choose|j: int|
                            0 <= j < k2 && (#[trigger] file.instances@[j]).1.template@ == tid;
                        match core.spec_template((file.instances@[m]).1.template@) {
                            Some(t2) => {
                                assert(config::instance_loaded_from(
                                    core.spec_instances()[m],
                                    file.instances@[m].0,
                                    file.instances@[m].1,
                                    t2.default_port,
                                    now,
                                ));
                                assert(core.spec_instances()[m].template_id@ == tid);
                            },
                            None => {
                                assert(false);
                            },
                        }
                    }
                }
            }
            if !template.supports_multiple && core.instances.has_instances_for_template(
                entry.1.template.as_str(),
            ) {
                proof {
                    assert(Self::spec_instance_phase_err(file, k2 + 1) == Some(
                        UsmError::Conflict,
                    ));
                    Self::lemma_instance_phase_err_mono(
                        file,
                        k2 + 1,
                        file.instances@.len() as int,
                    );
                }
                return Err(UsmError::Conflict);
            }
            let loaded = match config::instance_from_entry(
                entry.0.clone(),
                entry.1.clone(),
                template.default_port,
                now,
            ) {
                Err(e) => {
                    proof {
                        assert(idv@.len() == 0 || tid.len() == 0);
                        assert(Self::spec_instance_phase_err(file, k2 + 1) == Some(
                            UsmError::Validation,
                        ));
                        Self::lemma_instance_phase_err_mono(
                            file,
                            k2 + 1,
                            file.instances@.len() as int,
                        );
                    }
                    return Err(e);
                },
                Ok(i) => i,
            };
            proof {
                assert(loaded.id == idv);
                assert(loaded.template_id == fent.template);
                assert(loaded.port == Self::spec_entry_port(file, k2 as int));
                assert(core.instances_reg().spec_contains_id(idv@) <==> exists|j: int|
                    0 <= j < k2 && (#[trigger] file.instances@[j]).0@ == idv@) by {
                    if core.instances_reg().spec_contains_id(idv@) {
                        let m = choose|i: int|
                            0 <= i < core.spec_instances().len()
                                && #[trigger] core.spec_instances()[i].id@ == idv@;
                        match core.spec_template((file.instances@[m]).1.template@) {
                            Some(t2) => {
                                assert(config::instance_loaded_from(
                                    core.spec_instances()[m],
                                    file.instances@[m].0,
                                    file.instances@[m].1,
                                    t2.default_port,
                                    now,
                                ));
                                assert((file.instances@[m]).0@ == idv@);
                            },
                            None => {
                                assert(false);
                            },
                        }
                    }
                    if exists|j: int| 0 <= j < k2 && (#[trigger] file.instances@[j]).0@ == idv@ {
                        let m = choose|j: int|
                            0 <= j < k2 && (#[trigger] file.instances@[j]).0@ == idv@;
                        match core.spec_template((file.instances@[m]).1.template@) {
                            Some(t2) => {
                                assert(config::instance_loaded_from(
                                    core.spec_instances()[m],
                                    file.instances@[m].0,
                                    file.instances@[m].1,
                                    t2.default_port,
                                    now,
                                ));
                                assert(core.spec_instances()[m].id@ == idv@);
                            },
                            None => {
                                assert(false);
                            },
                        }
                    }
                }
                assert(core.instances_reg().spec_uses_port(loaded.port) <==> exists|j: int|
                    0 <= j < k2 && Self::spec_entry_port(file, j) == Self::spec_entry_port(
                        file,
                        k2 as int,
                    )) by {
                    if core.instances_reg().spec_uses_port(loaded.port) {
                        let m = choose|i: int|
                            0 <= i < core.spec_instances().len() && (
                            #[trigger] core.spec_instances()[i]).port == loaded.port;
                        assert(core.spec_instances()[m].port == Self::spec_entry_port(file, m));
                    }
                    if exists|j: int|
                        0 <= j < k2 && Self::spec_entry_port(file, j) == Self::spec_entry_port(
                            file,
                            k2 as int,
                        ) {
                        let m = choose|j: int|
                            0 <= j < k2 && Self::spec_entry_port(file, j)
                                == Self::spec_entry_port(file, k2 as int);
                        assert(core.spec_instances()[m].port == Self::spec_entry_port(file, m));
                    }
                }
            }
            let ghost old_insts = core.spec_instances();
            let ghost inst = loaded;
            match core.instances.add(loaded) {
                Err(e) => {
                    proof {
                        assert(Self::spec_instance_phase_err(file, k2 + 1) == Some(
                            UsmError::Conflict,
                        ));
                        Self::lemma_instance_phase_err_mono(
                            file,
                            k2 + 1,
                            file.instances@.len() as int,
                        );
                    }
                    return Err(e);
                },
                Ok(()) => {},
            }
            proof {
                assert(Self::spec_instance_phase_err(file, k2 + 1) is None);
                let ts = core.spec_templates();
                assert forall|t: int|
                    0 <= t < ts.len() && !(#[trigger] ts[t]).supports_multiple implies
                    count_for_template(core.spec_instances(), ts[t].id@) <= 1 by {
                    lemma_count_push(old_insts, inst, ts[t].id@);
                    if ts[t].id@ == tid {
                        let w = core.templates_reg().spec_index_of(tid);
                        assert(0 <= w < ts.len() && ts[w].id@ == tid);
                        assert(w == t);
                        lemma_count_zero(old_insts, tid);
                    }
                }
                assert forall|i: int|
                    0 <= i < core.spec_instances().len() implies templates_contain(
                    core.spec_templates(),
                    (#[trigger] core.spec_instances()[i]).template_id@,
                ) by {
                    if i < old_insts.len() {
                        assert(core.spec_instances()[i] == old_insts[i]);
                    } else {
                        assert(core.spec_instances()[i] == inst);
                        assert(core.spec_templates()[w].id@ == tid);
                    }
                }
                match core.spec_template(tid) {
                    Some(t2) => {
                        assert(t2 == core.spec_templates()[w]);
                        assert(t2.default_port == template.default_port);
                        assert(config::instance_loaded_from(inst, idv, fent, t2.default_port, now));
                    },
                    None => {
                        assert(false);
                    },
                }
                assert forall|j: int|
                    0 <= j < k2 + 1 implies match core.spec_template(
                    (#[trigger] file.instances@[j]).1.template@,
                ) {
                    Some(t) => config::instance_loaded_from(
                        core.spec_instances()[j],
                        file.instances@[j].0,
                        file.instances@[j].1,
                        t.default_port,
                        now,
                    ),
                    None => false,
                } by {
                    if j < k2 {
                        assert(core.spec_instances()[j] == old_insts[j]);
                    } else {
                        assert(core.spec_instances()[j] == inst);
                    }
                }
                assert forall|j: int|
                    0 <= j < k2 + 1 implies (#[trigger] core.spec_instances()[j]).port
                        == Self::spec_entry_port(file, j) by {
                    if j < k2 {
                        assert(core.spec_instances()[j] == old_insts[j]);
                    } else {
                        assert(core.spec_instances()[j] == inst);
                    }
                }
            }
            k2 = k2 + 1;
        }
        proof {
            assert(Self::instances_loaded_at(core, file, now));
        }
        Ok(core)
    }

    /// The persisted document for the core's current state: every
    /// template and every instance, with its creation metadata, in
    /// order.  This is what a caller writes out after a mutation, before
    /// publishing the corresponding event.
    pub fn snapshot(&self) -> (r: ConfigFile)
        ensures
            r.templates@.len() == self.spec_templates().len(),
            forall|k: int|
                0 <= k < r.templates@.len() ==> config::template_matches_entry(
                    self.spec_templates()[k],
                    (#[trigger] r.templates@[k]).0,
                    r.templates@[k].1,
                ),
            r.instances@.len() == self.spec_instances().len(),
            forall|k: int|
                0 <= k < r.instances@.len() ==> config::instance_matches_entry(
                    self.spec_instances()[k],
                    (#[trigger] r.instances@[k]).0,
                    r.instances@[k].1,
                ),
    {
        ConfigFile {
            templates: config::snapshot_templates(&self.templates),
            instances: config::snapshot_instances(&self.instances),
        }
    }

    /// The ids of the instances that carry any of the given tags, for
    /// bulk operations; the caller drives each id through its start or
    /// stop and collects a per-instance result list.
    pub fn ids_matching_tags(&self, tags: &[&str]) -> (r: Vec<String>)
        ensures
            r@.len() == self.spec_instances().filter(crate::registry::by_any_tag(tags@)).len(),
            forall|k: int|
                0 <= k < r@.len() ==> (#[trigger] r@[k])@ == self.spec_instances().filter(
                    crate::registry::by_any_tag(tags@),
                )[k].id@,
    {
        self.instances.ids_matching_tags(tags)
    }

    /// Publish a lifecycle event; the count of subscribers that received
    /// it comes back, zero when none are subscribed.
    pub fn publish(&self, event: ServiceEvent) -> usize {
        self.bus.send(event)
    }

    /// Subscribe to lifecycle events published after this call.
    pub fn subscribe(&self) -> tokio::sync::broadcast::Receiver<ServiceEvent> {
        self.bus.subscribe()
    }

    /// The number of live event subscribers.
    pub fn subscriber_count(&self) -> usize {
        self.bus.subscriber_count()
    }
}

/// What the monitor must do to start an instance.
#[derive(Debug)]
pub enum StartPlan {
    /// The instance already runs under this pid: an idempotent no-op.
    AlreadyRunning { pid: Option<u32> },
    /// Launch this command from this directory; the port serves the
    /// pid-capture fallback.
    Launch { command: String, working_dir: Option<String>, port: u16 },
}

/// What the monitor must do to stop an instance.
#[derive(Debug)]
pub enum StopPlan {
    /// The instance is not running: an idempotent success, no action.
    AlreadyStopped,
    /// Running but with no recorded process: nothing to signal, just
    /// commit the stop.
    NoProcess,
    /// Gracefully kill this pid, escalating if the signal fails.
    Kill { pid: u32 },
    /// Run the template's custom stop command.
    Run { command: String },
}

/// No two instances held by a well-formed core share a port, and no two
/// share an id.
pub proof fn lemma_no_port_sharing(c: &UsmCore, i: int, j: int)
    requires
        c.wf(),
        0 <= i < c.spec_instances().len(),
        0 <= j < c.spec_instances().len(),
        i != j,
    ensures
        c.spec_instances()[i].port != c.spec_instances()[j].port,
        c.spec_instances()[i].id@ != c.spec_instances()[j].id@,
{
}

/// For a template that does not support multiple instances, a
/// well-formed core holds at most one instance referencing it: any two
/// positions referencing it are the same position.
pub proof fn lemma_single_instance_per_template(c: &UsmCore, t: int, i: int, j: int)
    requires
        c.wf(),
        0 <= t < c.spec_templates().len(),
        !c.spec_templates()[t].supports_multiple,
        0 <= i < c.spec_instances().len(),
        0 <= j < c.spec_instances().len(),
        c.spec_instances()[i].template_id@ == c.spec_templates()[t].id@,
        c.spec_instances()[j].template_id@ == c.spec_templates()[t].id@,
    ensures
        i == j,
{
    let id = c.spec_templates()[t].id@;
    if i < j {
        lemma_count_two(c.spec_instances(), id, i, j);
    }
    if j < i {
        lemma_count_two(c.spec_instances(), id, j, i);
    }
}

} // verus!
