//! Health of the service and its components: overall status and readiness.
use vstd::prelude::*;
use crate::json::JsonValue;
use crate::observability::{instant_elapsed, instant_now};
use crate::strmap::{StrMap, has_key};
use crate::text::owned;
use std::time::{Duration, Instant};

verus! {

/// The health of a service or component.
#[derive(Debug, Clone, Copy, PartialEq, Eq, Structural)]
pub enum HealthStatus {
    Healthy,
    Degraded,
    Unhealthy,
}

impl HealthStatus {
    /// `true` for healthy and degraded.
    pub fn is_operational(&self) -> (r: bool)
        ensures
            r == (*self != HealthStatus::Unhealthy),
    {
        match self {
            HealthStatus::Healthy | HealthStatus::Degraded => true,
            HealthStatus::Unhealthy => false,
        }
    }
}

/// The health of one component.
#[derive(Debug)]
pub struct ComponentHealth {
    pub name: String,
    pub status: HealthStatus,
    pub message: Option<String>,
    pub metrics: Option<JsonValue>,
}

impl ComponentHealth {
    /// A component with the given status, no message and no metrics.
    pub fn new(name: String, status: HealthStatus) -> (r: Self)
        ensures
            r.name == name,
            r.status == status,
            r.message is None,
            r.metrics is None,
    {
        ComponentHealth { name, status, message: None, metrics: None }
    }

    /// The same component with a message.
    pub fn with_message(self, message: String) -> (r: Self)
        ensures
            r == (ComponentHealth { message: Some(message), ..self }),
    {
        ComponentHealth { message: Some(message), ..self }
    }

    /// The same component with metrics.
    pub fn with_metrics(self, metrics: JsonValue) -> (r: Self)
        ensures
            r == (ComponentHealth { metrics: Some(metrics), ..self }),
    {
        ComponentHealth { metrics: Some(metrics), ..self }
    }
}

/// The answer to a readiness probe.
#[derive(Debug)]
pub struct ReadinessCheckResponse {
    pub ready: bool,
    pub message: Option<String>,
    /// Readiness of each dependency, by name.
    pub dependencies: Option<StrMap<bool>>,
}

impl ReadinessCheckResponse {
    /// A response with no message and no dependencies.
    pub fn new(ready: bool) -> (r: Self)
        ensures
            r.ready == ready,
            r.message is None,
            r.dependencies is None,
    {
        ReadinessCheckResponse { ready, message: None, dependencies: None }
    }

    /// The same response with a message.
    pub fn with_message(self, message: String) -> (r: Self)
        ensures
            r == (ReadinessCheckResponse { message: Some(message), ..self }),
    {
        ReadinessCheckResponse { message: Some(message), ..self }
    }

    /// The same response with dependencies.
    pub fn with_dependencies(self, dependencies: StrMap<bool>) -> (r: Self)
        ensures
            r == (ReadinessCheckResponse { dependencies: Some(dependencies), ..self }),
    {
        ReadinessCheckResponse { dependencies: Some(dependencies), ..self }
    }
}

/// The overall status of components: unhealthy if any is, else degraded if
/// any is, else healthy (also when there is none).
pub open spec fn overall(vals: Seq<ComponentHealth>) -> HealthStatus {
    if exists|i: int| 0 <= i < vals.len() && #[trigger] vals[i].status == HealthStatus::Unhealthy {
        HealthStatus::Unhealthy
    } else if exists|i: int| 0 <= i < vals.len() && #[trigger] vals[i].status == HealthStatus::Degraded {
        HealthStatus::Degraded
    } else {
        HealthStatus::Healthy
    }
}

/// Tracks the health of the service's components.
#[derive(Debug)]
pub struct HealthChecker {
    start_time: Instant,
    version: Option<String>,
    components: StrMap<ComponentHealth>,
}

impl HealthChecker {
    /// Components by name.
    pub closed spec fn components_view(&self) -> Map<Seq<char>, ComponentHealth> {
        self.components.map()
    }

    /// Components in name order.
    pub closed spec fn component_list(&self) -> Seq<ComponentHealth> {
        self.components.vals()
    }

    /// The service version.
    pub closed spec fn version_view(&self) -> Option<String> {
        self.version
    }

    /// The component table is well formed.
    pub closed spec fn wf(&self) -> bool {
        self.components.wf()
    }

    /// A checker with no component, started now.
    pub fn new() -> (r: Self)
        ensures
            r.wf(),
            r.components_view() == Map::<Seq<char>, ComponentHealth>::empty(),
            r.component_list().len() == 0,
            r.version_view() is None,
    {
        HealthChecker { start_time: instant_now(), version: None, components: StrMap::new() }
    }

    /// The same checker with a service version.
    pub fn with_version(self, version: String) -> (r: Self)
        ensures
            r.wf() == self.wf(),
            r.components_view() == self.components_view(),
            r.component_list() == self.component_list(),
            r.version_view() == Some(version),
    {
        HealthChecker { version: Some(version), ..self }
    }

    /// The service version.
    pub fn version(&self) -> (r: Option<&String>)
        ensures
            r == match self.version_view() { Some(v) => Some(&v), None => None },
    {
        match &self.version {
            Some(v) => Some(v),
            None => None,
        }
    }

    /// The time since the checker was made.
    pub fn uptime(&self) -> Duration {
        instant_elapsed(&self.start_time)
    }

    /// Registers (or replaces) a component.
    pub fn register_component(&mut self, name: String, status: HealthStatus)
        requires
            old(self).wf(),
        ensures
            final(self).wf(),
            final(self).version_view() == old(self).version_view(),
            final(self).components_view() == old(self).components_view().insert(
                name@,
                ComponentHealth { name: name, status, message: None, metrics: None },
            ),
    {
        let key = name.clone();
        self.components.insert(key, ComponentHealth::new(name, status));
    }

    /// Changes the status of a registered component; unknown names are ignored.
    pub fn update_component(&mut self, name: &str, status: HealthStatus)
        requires
            old(self).wf(),
        ensures
            final(self).wf(),
            final(self).version_view() == old(self).version_view(),
            final(self).components_view() == if old(self).components_view().contains_key(name@) {
                old(self).components_view().insert(name@, ComponentHealth { status, ..old(self).components_view()[name@] })
            } else {
                old(self).components_view()
            },
    {
        if let Some(c) = self.components.remove(name) {
            self.components.insert(owned(name), ComponentHealth { status, ..c });
        }
        proof {
            assert(self.components.map() =~= if old(self).components_view().contains_key(name@) {
                old(self).components_view().insert(name@, ComponentHealth { status, ..old(self).components_view()[name@] })
            } else {
                old(self).components_view()
            });
        }
    }

    /// Changes the status and message of a registered component.
    pub fn update_component_with_message(&mut self, name: &str, status: HealthStatus, message: String)
        requires
            old(self).wf(),
        ensures
            final(self).wf(),
            final(self).version_view() == old(self).version_view(),
            final(self).components_view() == if old(self).components_view().contains_key(name@) {
                old(self).components_view().insert(
                    name@,
                    ComponentHealth { status, message: Some(message), ..old(self).components_view()[name@] },
                )
            } else {
                old(self).components_view()
            },
    {
        if let Some(c) = self.components.remove(name) {
            self.components.insert(owned(name), ComponentHealth { status, message: Some(message), ..c });
        }
        proof {
            assert(self.components.map() =~= if old(self).components_view().contains_key(name@) {
                old(self).components_view().insert(
                    name@,
                    ComponentHealth { status, message: Some(message), ..old(self).components_view()[name@] },
                )
            } else {
                old(self).components_view()
            });
        }
    }

    /// Changes the status and metrics of a registered component.
    pub fn update_component_with_metrics(&mut self, name: &str, status: HealthStatus, metrics: JsonValue)
        requires
            old(self).wf(),
        ensures
            final(self).wf(),
            final(self).version_view() == old(self).version_view(),
            final(self).components_view() == if old(self).components_view().contains_key(name@) {
                old(self).components_view().insert(
                    name@,
                    ComponentHealth { status, metrics: Some(metrics), ..old(self).components_view()[name@] },
                )
            } else {
                old(self).components_view()
            },
    {
        if let Some(c) = self.components.remove(name) {
            self.components.insert(owned(name), ComponentHealth { status, metrics: Some(metrics), ..c });
        }
        proof {
            assert(self.components.map() =~= if old(self).components_view().contains_key(name@) {
                old(self).components_view().insert(
                    name@,
                    ComponentHealth { status, metrics: Some(metrics), ..old(self).components_view()[name@] },
                )
            } else {
                old(self).components_view()
            });
        }
    }

    /// The overall status of the registered components.
    pub fn get_health_status(&self) -> (r: HealthStatus)
        requires
            self.wf(),
        ensures
            r == overall(self.component_list()),
    {
        let comps = self.components.values();
        let ghost s = self.component_list();
        let mut unhealthy = false;
        let mut degraded = false;
        let mut i: usize = 0;
        while i < comps.len()
            invariant
                comps@.len() == s.len(),
                forall|j: int| 0 <= j < comps@.len() ==> *comps@[j] == s[j],
                i <= comps@.len(),
                unhealthy == exists|j: int| 0 <= j < i && #[trigger] s[j].status == HealthStatus::Unhealthy,
                degraded == exists|j: int| 0 <= j < i && #[trigger] s[j].status == HealthStatus::Degraded,
            decreases comps@.len() - i,
        {
            assert(comps@[i as int].status == s[i as int].status);
            match comps[i].status {
                HealthStatus::Unhealthy => {
                    unhealthy = true;
                },
                HealthStatus::Degraded => {
                    degraded = true;
                },
                HealthStatus::Healthy => {},
            }
            i = i + 1;
        }
        if unhealthy {
            HealthStatus::Unhealthy
        } else if degraded {
            HealthStatus::Degraded
        } else {
            HealthStatus::Healthy
        }
    }

    /// `true` iff every critical component is registered and operational.
    pub fn is_ready(&self, critical_components: &[String]) -> (r: bool)
        requires
            self.wf(),
        ensures
            r == forall|i: int| 0 <= i < critical_components@.len() ==> {
                let c = #[trigger] critical_components@[i]@;
                self.components_view().contains_key(c) && self.components_view()[c].status != HealthStatus::Unhealthy
            },
    {
        let mut i: usize = 0;
        while i < critical_components.len()
            invariant
                self.wf(),
                i <= critical_components@.len(),
                forall|j: int| 0 <= j < i ==> {
                    let c = #[trigger] critical_components@[j]@;
                    self.components_view().contains_key(c) && self.components_view()[c].status != HealthStatus::Unhealthy
                },
            decreases critical_components@.len() - i,
        {
            match self.components.get(critical_components[i].as_str()) {
                Some(component) => {
                    if !component.status.is_operational() {
                        return false;
                    }
                },
                None => {
                    return false;
                },
            }
            i = i + 1;
        }
        true
    }
}

} // verus!
