//! In-memory registries for templates and instances.
//!
//! The registries are the choke point for the uniqueness invariants:
//! template and instance identifiers are unique, and no two instances ever
//! hold the same port.  They only hand out copies, never mutable
//! references, so the invariants cannot be broken from outside.

use vstd::prelude::*;

use crate::errors::UsmError;
use crate::instance::{ServiceInstance, ServiceStatus};
use crate::template::ServiceTemplate;
use crate::text;

verus! {

/// Registry for service templates, keyed by template id.
#[derive(Debug)]
pub struct TemplateRegistry {
    templates: Vec<ServiceTemplate>,
}

impl View for TemplateRegistry {
    type V = Seq<ServiceTemplate>;

    closed spec fn view(&self) -> Seq<ServiceTemplate> {
        self.templates@
    }
}

impl TemplateRegistry {
    /// Well-formed: no two stored templates share an id.
    pub open spec fn wf(&self) -> bool {
        forall|i: int, j: int|
            #![trigger self@[i], self@[j]]
            0 <= i < j < self@.len() ==> self@[i].id@ != self@[j].id@
    }

    pub open spec fn spec_contains_id(&self, id: Seq<char>) -> bool {
        exists|i: int| 0 <= i < self@.len() && #[trigger] self@[i].id@ == id
    }

    pub open spec fn spec_index_of(&self, id: Seq<char>) -> int {
        choose|i: int| 0 <= i < self@.len() && #[trigger] self@[i].id@ == id
    }

    /// The stored template with the given id, when there is one.
    pub open spec fn spec_get(&self, id: Seq<char>) -> Option<ServiceTemplate> {
        if self.spec_contains_id(id) {
            Some(self@[self.spec_index_of(id)])
        } else {
            None
        }
    }

    /// Create a new empty registry.
    pub fn new() -> (r: TemplateRegistry)
        ensures
            r@ =~= Seq::<ServiceTemplate>::empty(),
            r.wf(),
    {
        TemplateRegistry { templates: Vec::new() }
    }

    fn index_of(&self, id: &str) -> (r: Option<usize>)
        ensures
            match r {
                Some(i) => 0 <= i < self@.len() && self@[i as int].id@ == id@,
                None => !self.spec_contains_id(id@),
            },
    {
        let mut i: usize = 0;
        while i < self.templates.len()
            invariant
                i <= self@.len(),
                forall|j: int| 0 <= j < i ==> #[trigger] self@[j].id@ != id@,
            decreases self@.len() - i,
        {
            if text::str_eq(self.templates[i].id.as_str(), id) {
                return Some(i);
            }
            i = i + 1;
        }
        None
    }

    /// Register a new template; refused with `Conflict` when a template
    /// with the same id already exists.
    pub fn register(&mut self, template: ServiceTemplate) -> (r: Result<(), UsmError>)
        requires
            old(self).wf(),
        ensures
            final(self).wf(),
            old(self).spec_contains_id(template.id@) ==> r == Err::<(), UsmError>(
                UsmError::Conflict,
            ) && final(self)@ == old(self)@,
            !old(self).spec_contains_id(template.id@) ==> r == Ok::<(), UsmError>(())
                && final(self)@ == old(self)@.push(template),
    {
        match self.index_of(template.id.as_str()) {
            Some(_) => Err(UsmError::Conflict),
            None => {
                self.templates.push(template);
                Ok(())
            },
        }
    }

    /// A copy of the template with the given id, if registered.
    pub fn get(&self, id: &str) -> (r: Option<ServiceTemplate>)
        requires
            self.wf(),
        ensures
            match (r, self.spec_get(id@)) {
                (Some(a), Some(b)) => a.eqv(b),
                (None, None) => true,
                _ => false,
            },
    {
        match self.index_of(id) {
            Some(i) => {
                proof {
                    let k = self.spec_index_of(id@);
                    assert(0 <= k < self@.len() && self@[k].id@ == id@);
                    assert(k == i);
                }
                Some(self.templates[i].clone())
            },
            None => None,
        }
    }

    /// Remove the template with the given id; refused with `NotFound` when
    /// no template carries it.
    pub fn remove(&mut self, id: &str) -> (r: Result<(), UsmError>)
        requires
            old(self).wf(),
        ensures
            final(self).wf(),
            !old(self).spec_contains_id(id@) ==> r == Err::<(), UsmError>(UsmError::NotFound)
                && final(self)@ == old(self)@,
            old(self).spec_contains_id(id@) ==> r == Ok::<(), UsmError>(()) && final(self)@
                == old(self)@.remove(old(self).spec_index_of(id@)),
    {
        match self.index_of(id) {
            None => Err(UsmError::NotFound),
            Some(i) => {
                proof {
                    let k = self.spec_index_of(id@);
                    assert(0 <= k < self@.len() && self@[k].id@ == id@);
                    assert(k == i);
                }
                self.templates.remove(i);
                Ok(())
            },
        }
    }

    /// Copies of all registered templates, in registration order.
    pub fn list(&self) -> (r: Vec<ServiceTemplate>)
        ensures
            r@.len() == self@.len(),
            forall|i: int| 0 <= i < r@.len() ==> (#[trigger] r@[i]).eqv(self@[i]),
    {
        let mut r: Vec<ServiceTemplate> = Vec::new();
        let mut i: usize = 0;
        while i < self.templates.len()
            invariant
                i <= self@.len(),
                r@.len() == i,
                forall|j: int| 0 <= j < i ==> (#[trigger] r@[j]).eqv(self@[j]),
            decreases self@.len() - i,
        {
            r.push(self.templates[i].clone());
            i = i + 1;
        }
        r
    }

    /// The number of registered templates.
    pub fn len(&self) -> (r: usize)
        ensures
            r == self@.len(),
    {
        self.templates.len()
    }

    /// Whether no template is registered.
    pub fn is_empty(&self) -> (r: bool)
        ensures
            r == (self@.len() == 0),
    {
        self.templates.is_empty()
    }

    /// The ids of all registered templates, in registration order.
    pub fn ids(&self) -> (r: Vec<String>)
        ensures
            r@.len() == self@.len(),
            forall|i: int| 0 <= i < r@.len() ==> (#[trigger] r@[i])@ == self@[i].id@,
    {
        let mut r: Vec<String> = Vec::new();
        let mut i: usize = 0;
        while i < self.templates.len()
            invariant
                i <= self@.len(),
                r@.len() == i,
                forall|j: int| 0 <= j < i ==> (#[trigger] r@[j])@ == self@[j].id@,
            decreases self@.len() - i,
        {
            r.push(self.templates[i].id.clone());
            i = i + 1;
        }
        r
    }
}

/// How many instances of `s` carry the given status.
pub open spec fn count_status(s: Seq<ServiceInstance>, st: ServiceStatus) -> nat
    decreases s.len(),
{
    if s.len() == 0 {
        0
    } else {
        count_status(s.drop_last(), st) + (if s.last().status == st {
            1nat
        } else {
            0nat
        })
    }
}

/// Counts of instances by status.  Only the states the lifecycle logic
/// assigns, plus the reserved ones, so every instance is counted exactly
/// once.
#[derive(Clone, Copy, Debug, PartialEq, Eq, Structural)]
pub struct StatusCounts {
    pub stopped: usize,
    pub running: usize,
    pub starting: usize,
    pub stopping: usize,
    pub error: usize,
    pub unknown: usize,
}

/// Membership in a template: the filter a template-scoped listing applies.
pub open spec fn by_template(template_id: Seq<char>) -> spec_fn(ServiceInstance) -> bool {
    |x: ServiceInstance| x.template_id@ == template_id
}

/// Carrying a tag: the filter a tag-scoped listing applies.
pub open spec fn by_tag(tag: Seq<char>) -> spec_fn(ServiceInstance) -> bool {
    |x: ServiceInstance| x.spec_has_tag(tag)
}

/// Being in a status: the filter a status-scoped listing applies.
pub open spec fn by_status(status: ServiceStatus) -> spec_fn(ServiceInstance) -> bool {
    |x: ServiceInstance| x.status == status
}

/// Being marked for automatic start.
pub open spec fn by_auto_start() -> spec_fn(ServiceInstance) -> bool {
    |x: ServiceInstance| x.auto_start
}

/// Carrying any of a set of tags: the filter bulk operations apply.
pub open spec fn by_any_tag(tags: Seq<&str>) -> spec_fn(ServiceInstance) -> bool {
    |x: ServiceInstance| x.spec_matches_tags(tags)
}

/// One step of filtering: extending the filtered prefix by one element
/// appends that element exactly when the predicate holds of it.
proof fn lemma_filter_step(s: Seq<ServiceInstance>, pred: spec_fn(ServiceInstance) -> bool, i: int)
    requires
        0 <= i < s.len(),
    ensures
        s.subrange(0, i + 1).filter(pred) == if pred(s[i]) {
            s.subrange(0, i).filter(pred).push(s[i])
        } else {
            s.subrange(0, i).filter(pred)
        },
{
    reveal_with_fuel(Seq::filter, 2);
    let sub1 = s.subrange(0, i + 1);
    assert(sub1.drop_last() =~= s.subrange(0, i));
    assert(sub1.last() == s[i]);
}

/// Registry for service instances, keyed by instance id, with ports
/// unique across all instances.
#[derive(Debug)]
pub struct InstanceRegistry {
    instances: Vec<ServiceInstance>,
}

impl View for InstanceRegistry {
    type V = Seq<ServiceInstance>;

    closed spec fn view(&self) -> Seq<ServiceInstance> {
        self.instances@
    }
}

impl InstanceRegistry {
    /// Well-formed: no two stored instances share an id, and no two share
    /// a port.
    pub open spec fn wf(&self) -> bool {
        forall|i: int, j: int|
            #![trigger self@[i], self@[j]]
            0 <= i < j < self@.len() ==> self@[i].id@ != self@[j].id@ && self@[i].port
                != self@[j].port
    }

    pub open spec fn spec_contains_id(&self, id: Seq<char>) -> bool {
        exists|i: int| 0 <= i < self@.len() && #[trigger] self@[i].id@ == id
    }

    pub open spec fn spec_index_of(&self, id: Seq<char>) -> int {
        choose|i: int| 0 <= i < self@.len() && #[trigger] self@[i].id@ == id
    }

    /// The stored instance with the given id, when there is one.
    pub open spec fn spec_get(&self, id: Seq<char>) -> Option<ServiceInstance> {
        if self.spec_contains_id(id) {
            Some(self@[self.spec_index_of(id)])
        } else {
            None
        }
    }

    pub open spec fn spec_uses_port(&self, port: u16) -> bool {
        exists|i: int| 0 <= i < self@.len() && (#[trigger] self@[i]).port == port
    }

    pub open spec fn spec_has_for_template(&self, template_id: Seq<char>) -> bool {
        exists|i: int| 0 <= i < self@.len() && #[trigger] self@[i].template_id@ == template_id
    }

    /// Create a new empty registry.
    pub fn new() -> (r: InstanceRegistry)
        ensures
            r@ =~= Seq::<ServiceInstance>::empty(),
            r.wf(),
    {
        InstanceRegistry { instances: Vec::new() }
    }

    fn index_of(&self, id: &str) -> (r: Option<usize>)
        ensures
            match r {
                Some(i) => 0 <= i < self@.len() && self@[i as int].id@ == id@,
                None => !self.spec_contains_id(id@),
            },
    {
        let mut i: usize = 0;
        while i < self.instances.len()
            invariant
                i <= self@.len(),
                forall|j: int| 0 <= j < i ==> #[trigger] self@[j].id@ != id@,
            decreases self@.len() - i,
        {
            if text::str_eq(self.instances[i].id.as_str(), id) {
                return Some(i);
            }
            i = i + 1;
        }
        None
    }

    fn index_of_port(&self, port: u16) -> (r: Option<usize>)
        ensures
            match r {
                Some(i) => 0 <= i < self@.len() && self@[i as int].port == port,
                None => !self.spec_uses_port(port),
            },
    {
        let mut i: usize = 0;
        while i < self.instances.len()
            invariant
                i <= self@.len(),
                forall|j: int| 0 <= j < i ==> (#[trigger] self@[j]).port != port,
            decreases self@.len() - i,
        {
            if self.instances[i].port == port {
                return Some(i);
            }
            i = i + 1;
        }
        None
    }

    /// Add a new instance; refused with `Conflict` when its id already
    /// exists or its port is already held by another instance.
    pub fn add(&mut self, instance: ServiceInstance) -> (r: Result<(), UsmError>)
        requires
            old(self).wf(),
        ensures
            final(self).wf(),
            old(self).spec_contains_id(instance.id@) || old(self).spec_uses_port(instance.port)
                ==> r == Err::<(), UsmError>(UsmError::Conflict) && final(self)@ == old(self)@,
            !(old(self).spec_contains_id(instance.id@) || old(self).spec_uses_port(
                instance.port,
            )) ==> r == Ok::<(), UsmError>(()) && final(self)@ == old(self)@.push(instance),
    {
        if let Some(_) = self.index_of(instance.id.as_str()) {
            return Err(UsmError::Conflict);
        }
        if let Some(_) = self.index_of_port(instance.port) {
            return Err(UsmError::Conflict);
        }
        self.instances.push(instance);
        Ok(())
    }

    /// A copy of the instance with the given id, if present.
    pub fn get(&self, id: &str) -> (r: Option<ServiceInstance>)
        requires
            self.wf(),
        ensures
            match (r, self.spec_get(id@)) {
                (Some(a), Some(b)) => a.eqv(b),
                (None, None) => true,
                _ => false,
            },
    {
        match self.index_of(id) {
            Some(i) => {
                proof {
                    let k = self.spec_index_of(id@);
                    assert(0 <= k < self@.len() && self@[k].id@ == id@);
                    assert(k == i);
                }
                Some(self.instances[i].clone())
            },
            None => None,
        }
    }

    /// Remove the instance with the given id; refused with `NotFound`
    /// when no instance carries it.
    pub fn remove(&mut self, id: &str) -> (r: Result<(), UsmError>)
        requires
            old(self).wf(),
        ensures
            final(self).wf(),
            !old(self).spec_contains_id(id@) ==> r == Err::<(), UsmError>(UsmError::NotFound)
                && final(self)@ == old(self)@,
            old(self).spec_contains_id(id@) ==> r == Ok::<(), UsmError>(()) && final(self)@
                == old(self)@.remove(old(self).spec_index_of(id@)),
    {
        match self.index_of(id) {
            None => Err(UsmError::NotFound),
            Some(i) => {
                proof {
                    let k = self.spec_index_of(id@);
                    assert(0 <= k < self@.len() && self@[k].id@ == id@);
                    assert(k == i);
                }
                self.instances.remove(i);
                Ok(())
            },
        }
    }

    /// How one instance relates to its pre-update value after
    /// `update_status`: identity and placement are kept; status and pid
    /// are replaced; `started_at` is stamped on entering `Running` (and
    /// kept if already set) and cleared on any other status.
    pub open spec fn spec_status_updated(
        o: ServiceInstance,
        n: ServiceInstance,
        status: ServiceStatus,
        pid: Option<u32>,
    ) -> bool {
        &&& n.id == o.id
        &&& n.template_id == o.template_id
        &&& n.port == o.port
        &&& n.working_dir == o.working_dir
        &&& n.config_path == o.config_path
        &&& n.version == o.version
        &&& n.git_branch == o.git_branch
        &&& n.tags@ == o.tags@
        &&& n.auto_start == o.auto_start
        &&& n.env_vars@ == o.env_vars@
        &&& n.created_at == o.created_at
        &&& n.created_via == o.created_via
        &&& n.status == status
        &&& n.pid == pid
        &&& (status == ServiceStatus::Running ==> if o.started_at is Some {
            n.started_at == o.started_at
        } else {
            n.started_at is Some
        })
        &&& (status != ServiceStatus::Running ==> n.started_at is None)
    }

    /// Set the status and pid of the instance with the given id, deriving
    /// `started_at`; refused with `NotFound` when no instance carries the
    /// id.
    pub fn update_status(&mut self, id: &str, status: ServiceStatus, pid: Option<u32>) -> (r:
        Result<(), UsmError>)
        requires
            old(self).wf(),
        ensures
            final(self).wf(),
            !old(self).spec_contains_id(id@) ==> r == Err::<(), UsmError>(UsmError::NotFound)
                && final(self)@ == old(self)@,
            old(self).spec_contains_id(id@) ==> {
                let k = old(self).spec_index_of(id@);
                &&& r == Ok::<(), UsmError>(())
                &&& final(self)@.len() == old(self)@.len()
                &&& forall|j: int|
                    0 <= j < old(self)@.len() && j != k ==> final(self)@[j] == old(self)@[j]
                &&& Self::spec_status_updated(old(self)@[k], final(self)@[k], status, pid)
            },
    {
        let i = match self.index_of(id) {
            None => {
                return Err(UsmError::NotFound);
            },
            Some(i) => i,
        };
        proof {
            let k = self.spec_index_of(id@);
            assert(0 <= k < self@.len() && self@[k].id@ == id@);
            assert(k == i);
        }
        let cur = self.instances[i].clone();
        let started_at = if status == ServiceStatus::Running {
            match cur.started_at {
                Some(t) => Some(t),
                None => Some(crate::clock::now_timestamp()),
            }
        } else {
            None
        };
        let updated = ServiceInstance {
            status,
            pid,
            started_at,
            ..cur
        };
        self.instances[i] = updated;
        Ok(())
    }

    /// Copies of all instances, in insertion order.
    pub fn list(&self) -> (r: Vec<ServiceInstance>)
        ensures
            r@.len() == self@.len(),
            forall|i: int| 0 <= i < r@.len() ==> (#[trigger] r@[i]).eqv(self@[i]),
    {
        let mut r: Vec<ServiceInstance> = Vec::new();
        let mut i: usize = 0;
        while i < self.instances.len()
            invariant
                i <= self@.len(),
                r@.len() == i,
                forall|j: int| 0 <= j < i ==> (#[trigger] r@[j]).eqv(self@[j]),
            decreases self@.len() - i,
        {
            r.push(self.instances[i].clone());
            i = i + 1;
        }
        r
    }

    /// Copies of the instances created from the given template, in
    /// insertion order.
    pub fn list_by_template(&self, template_id: &str) -> (r: Vec<ServiceInstance>)
        ensures
            r@.len() == self@.filter(by_template(template_id@)).len(),
            forall|k: int|
                0 <= k < r@.len() ==> (#[trigger] r@[k]).eqv(
                    self@.filter(by_template(template_id@))[k],
                ),
    {
        let ghost pred = by_template(template_id@);
        let mut r: Vec<ServiceInstance> = Vec::new();
        let mut i: usize = 0;
        proof {
            assert(self@.subrange(0, 0).filter(pred) =~= Seq::<ServiceInstance>::empty());
        }
        while i < self.instances.len()
            invariant
                i <= self@.len(),
                r@.len() == self@.subrange(0, i as int).filter(pred).len(),
                pred == by_template(template_id@),
                forall|k: int|
                    0 <= k < r@.len() ==> (#[trigger] r@[k]).eqv(
                        self@.subrange(0, i as int).filter(pred)[k],
                    ),
            decreases self@.len() - i,
        {
            proof {
                lemma_filter_step(self@, pred, i as int);
            }
            if text::str_eq(self.instances[i].template_id.as_str(), template_id) {
                r.push(self.instances[i].clone());
            }
            i = i + 1;
        }
        proof {
            assert(self@.subrange(0, self@.len() as int) =~= self@);
        }
        r
    }

    /// Copies of the instances that carry the given tag, in insertion
    /// order.
    pub fn list_by_tag(&self, tag: &str) -> (r: Vec<ServiceInstance>)
        ensures
            r@.len() == self@.filter(by_tag(tag@)).len(),
            forall|k: int|
                0 <= k < r@.len() ==> (#[trigger] r@[k]).eqv(self@.filter(by_tag(tag@))[k]),
    {
        let ghost pred = by_tag(tag@);
        let mut r: Vec<ServiceInstance> = Vec::new();
        let mut i: usize = 0;
        proof {
            assert(self@.subrange(0, 0).filter(pred) =~= Seq::<ServiceInstance>::empty());
        }
        while i < self.instances.len()
            invariant
                i <= self@.len(),
                r@.len() == self@.subrange(0, i as int).filter(pred).len(),
                pred == by_tag(tag@),
                forall|k: int|
                    0 <= k < r@.len() ==> (#[trigger] r@[k]).eqv(
                        self@.subrange(0, i as int).filter(pred)[k],
                    ),
            decreases self@.len() - i,
        {
            proof {
                lemma_filter_step(self@, pred, i as int);
            }
            if self.instances[i].has_tag(tag) {
                r.push(self.instances[i].clone());
            }
            i = i + 1;
        }
        proof {
            assert(self@.subrange(0, self@.len() as int) =~= self@);
        }
        r
    }

    /// Copies of the instances currently in the given status, in
    /// insertion order.
    pub fn list_by_status(&self, status: ServiceStatus) -> (r: Vec<ServiceInstance>)
        ensures
            r@.len() == self@.filter(by_status(status)).len(),
            forall|k: int|
                0 <= k < r@.len() ==> (#[trigger] r@[k]).eqv(self@.filter(by_status(status))[k]),
    {
        let ghost pred = by_status(status);
        let mut r: Vec<ServiceInstance> = Vec::new();
        let mut i: usize = 0;
        proof {
            assert(self@.subrange(0, 0).filter(pred) =~= Seq::<ServiceInstance>::empty());
        }
        while i < self.instances.len()
            invariant
                i <= self@.len(),
                r@.len() == self@.subrange(0, i as int).filter(pred).len(),
                pred == by_status(status),
                forall|k: int|
                    0 <= k < r@.len() ==> (#[trigger] r@[k]).eqv(
                        self@.subrange(0, i as int).filter(pred)[k],
                    ),
            decreases self@.len() - i,
        {
            proof {
                lemma_filter_step(self@, pred, i as int);
            }
            if self.instances[i].status == status {
                r.push(self.instances[i].clone());
            }
            i = i + 1;
        }
        proof {
            assert(self@.subrange(0, self@.len() as int) =~= self@);
        }
        r
    }

    /// Copies of the instances marked to start automatically, in
    /// insertion order.
    pub fn auto_start_instances(&self) -> (r: Vec<ServiceInstance>)
        ensures
            r@.len() == self@.filter(by_auto_start()).len(),
            forall|k: int|
                0 <= k < r@.len() ==> (#[trigger] r@[k]).eqv(self@.filter(by_auto_start())[k]),
    {
        let ghost pred = by_auto_start();
        let mut r: Vec<ServiceInstance> = Vec::new();
        let mut i: usize = 0;
        proof {
            assert(self@.subrange(0, 0).filter(pred) =~= Seq::<ServiceInstance>::empty());
        }
        while i < self.instances.len()
            invariant
                i <= self@.len(),
                r@.len() == self@.subrange(0, i as int).filter(pred).len(),
                pred == by_auto_start(),
                forall|k: int|
                    0 <= k < r@.len() ==> (#[trigger] r@[k]).eqv(
                        self@.subrange(0, i as int).filter(pred)[k],
                    ),
            decreases self@.len() - i,
        {
            proof {
                lemma_filter_step(self@, pred, i as int);
            }
            if self.instances[i].auto_start {
                r.push(self.instances[i].clone());
            }
            i = i + 1;
        }
        proof {
            assert(self@.subrange(0, self@.len() as int) =~= self@);
        }
        r
    }

    /// The ids of the instances carrying any of the given tags, in
    /// insertion order.
    pub fn ids_matching_tags(&self, tags: &[&str]) -> (r: Vec<String>)
        ensures
            r@.len() == self@.filter(by_any_tag(tags@)).len(),
            forall|k: int|
                0 <= k < r@.len() ==> (#[trigger] r@[k])@ == self@.filter(by_any_tag(tags@))[k].id@,
    {
        let ghost pred = by_any_tag(tags@);
        let mut r: Vec<String> = Vec::new();
        let mut i: usize = 0;
        proof {
            assert(self@.subrange(0, 0).filter(pred) =~= Seq::<ServiceInstance>::empty());
        }
        while i < self.instances.len()
            invariant
                i <= self@.len(),
                r@.len() == self@.subrange(0, i as int).filter(pred).len(),
                pred == by_any_tag(tags@),
                forall|k: int|
                    0 <= k < r@.len() ==> (#[trigger] r@[k])@ == self@.subrange(
                        0,
                        i as int,
                    ).filter(pred)[k].id@,
            decreases self@.len() - i,
        {
            proof {
                lemma_filter_step(self@, pred, i as int);
            }
            if self.instances[i].matches_tags(tags) {
                r.push(self.instances[i].id.clone());
            }
            i = i + 1;
        }
        proof {
            assert(self@.subrange(0, self@.len() as int) =~= self@);
        }
        r
    }

    /// Whether any instance was created from the given template.
    pub fn has_instances_for_template(&self, template_id: &str) -> (r: bool)
        ensures
            r == self.spec_has_for_template(template_id@),
    {
        let mut i: usize = 0;
        while i < self.instances.len()
            invariant
                i <= self@.len(),
                forall|j: int| 0 <= j < i ==> #[trigger] self@[j].template_id@ != template_id@,
            decreases self@.len() - i,
        {
            if text::str_eq(self.instances[i].template_id.as_str(), template_id) {
                return true;
            }
            i = i + 1;
        }
        false
    }

    /// The instance holding the given port, if any.
    pub fn find_by_port(&self, port: u16) -> (r: Option<&ServiceInstance>)
        ensures
            match r {
                Some(inst) => inst.port == port && exists|i: int|
                    0 <= i < self@.len() && *inst == #[trigger] self@[i],
                None => !self.spec_uses_port(port),
            },
    {
        match self.index_of_port(port) {
            Some(i) => Some(&self.instances[i]),
            None => None,
        }
    }

    /// The ports held by instances, in insertion order.
    pub fn used_ports(&self) -> (r: Vec<u16>)
        ensures
            r@.len() == self@.len(),
            forall|i: int| 0 <= i < r@.len() ==> r@[i] == (#[trigger] self@[i]).port,
    {
        let mut r: Vec<u16> = Vec::new();
        let mut i: usize = 0;
        while i < self.instances.len()
            invariant
                i <= self@.len(),
                r@.len() == i,
                forall|j: int| 0 <= j < i ==> r@[j] == (#[trigger] self@[j]).port,
            decreases self@.len() - i,
        {
            r.push(self.instances[i].port);
            i = i + 1;
        }
        r
    }

    /// The number of instances.
    pub fn len(&self) -> (r: usize)
        ensures
            r == self@.len(),
    {
        self.instances.len()
    }

    /// Whether the registry holds no instance.
    pub fn is_empty(&self) -> (r: bool)
        ensures
            r == (self@.len() == 0),
    {
        self.instances.is_empty()
    }

    /// The ids of all instances, in insertion order.
    pub fn ids(&self) -> (r: Vec<String>)
        ensures
            r@.len() == self@.len(),
            forall|i: int| 0 <= i < r@.len() ==> (#[trigger] r@[i])@ == self@[i].id@,
    {
        let mut r: Vec<String> = Vec::new();
        let mut i: usize = 0;
        while i < self.instances.len()
            invariant
                i <= self@.len(),
                r@.len() == i,
                forall|j: int| 0 <= j < i ==> (#[trigger] r@[j])@ == self@[j].id@,
            decreases self@.len() - i,
        {
            r.push(self.instances[i].id.clone());
            i = i + 1;
        }
        r
    }

    /// The number of instances in each status.
    pub fn status_counts(&self) -> (r: StatusCounts)
        ensures
            r.stopped == count_status(self@, ServiceStatus::Stopped),
            r.running == count_status(self@, ServiceStatus::Running),
            r.starting == count_status(self@, ServiceStatus::Starting),
            r.stopping == count_status(self@, ServiceStatus::Stopping),
            r.error == count_status(self@, ServiceStatus::Error),
            r.unknown == count_status(self@, ServiceStatus::Unknown),
    {
        let mut r = StatusCounts {
            stopped: 0,
            running: 0,
            starting: 0,
            stopping: 0,
            error: 0,
            unknown: 0,
        };
        let mut i: usize = 0;
        while i < self.instances.len()
            invariant
                i <= self@.len(),
                r.stopped == count_status(self@.subrange(0, i as int), ServiceStatus::Stopped),
                r.running == count_status(self@.subrange(0, i as int), ServiceStatus::Running),
                r.starting == count_status(self@.subrange(0, i as int), ServiceStatus::Starting),
                r.stopping == count_status(self@.subrange(0, i as int), ServiceStatus::Stopping),
                r.error == count_status(self@.subrange(0, i as int), ServiceStatus::Error),
                r.unknown == count_status(self@.subrange(0, i as int), ServiceStatus::Unknown),
                r.stopped + r.running + r.starting + r.stopping + r.error + r.unknown == i,
            decreases self@.len() - i,
        {
            proof {
                lemma_count_status_extend(self@, i as int);
            }
            match self.instances[i].status {
                ServiceStatus::Stopped => {
                    r.stopped = r.stopped + 1;
                },
                ServiceStatus::Running => {
                    r.running = r.running + 1;
                },
                ServiceStatus::Starting => {
                    r.starting = r.starting + 1;
                },
                ServiceStatus::Stopping => {
                    r.stopping = r.stopping + 1;
                },
                ServiceStatus::Error => {
                    r.error = r.error + 1;
                },
                ServiceStatus::Unknown => {
                    r.unknown = r.unknown + 1;
                },
            }
            i = i + 1;
        }
        proof {
            assert(self@.subrange(0, self@.len() as int) =~= self@);
        }
        r
    }
}

proof fn lemma_count_status_extend(s: Seq<ServiceInstance>, i: int)
    requires
        0 <= i < s.len(),
    ensures
        forall|st: ServiceStatus|
            count_status(s.subrange(0, i + 1), st) == count_status(s.subrange(0, i), st) + (
            if s[i].status == st {
                1nat
            } else {
                0nat
            }),
{
    assert forall|st: ServiceStatus|
        count_status(s.subrange(0, i + 1), st) == count_status(s.subrange(0, i), st) + (
        if s[i].status == st {
            1nat
        } else {
            0nat
        }) by {
        let p = s.subrange(0, i + 1);
        assert(p.drop_last() =~= s.subrange(0, i));
        assert(p.last() == s[i]);
    }
}

/// No two instances of a well-formed registry hold the same port: any two
/// distinct positions disagree on their ports (and on their ids).
pub proof fn lemma_ports_unique(r: &InstanceRegistry, i: int, j: int)
    requires
        r.wf(),
        0 <= i < r@.len(),
        0 <= j < r@.len(),
        i != j,
    ensures
        r@[i].port != r@[j].port,
        r@[i].id@ != r@[j].id@,
{
}

} // verus!
