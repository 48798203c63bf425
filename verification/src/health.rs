//! The health registry: for each supervised component whether it is up, what
//! went wrong last, and how often it was restarted.

use vstd::prelude::*;
use vstd::string::*;
use crate::lookup::{
    distinct, first_index, lemma_first_index, lemma_first_index_is, lemma_first_index_none,
};
use crate::types::clone_opt_string;

verus! {

/// Whether a component is up.
#[derive(Clone, Copy, Debug, PartialEq, Eq, Structural)]
pub enum HealthStatus {
    /// Written `ok`.
    Healthy,
    /// Written `error`.
    Failing,
}

impl HealthStatus {
    /// The word the status is written as in the state file.
    pub open spec fn text(self) -> Seq<char> {
        match self {
            HealthStatus::Healthy => "ok"@,
            HealthStatus::Failing => "error"@,
        }
    }

    /// The word the status is written as in the state file.
    pub fn as_str(&self) -> (r: &'static str)
        ensures
            r@ == self.text(),
    {
        match self {
            HealthStatus::Healthy => "ok",
            HealthStatus::Failing => "error",
        }
    }
}

/// The health of one component.
#[derive(Debug, PartialEq, Eq)]
pub struct ComponentHealth {
    pub name: String,
    pub status: HealthStatus,
    pub last_error: Option<String>,
    pub restart_count: u64,
}

/// The health of one component as a mathematical value.
pub struct ComponentHealthView {
    pub name: Seq<char>,
    pub status: HealthStatus,
    pub last_error: Option<Seq<char>>,
    pub restart_count: u64,
}

impl View for ComponentHealth {
    type V = ComponentHealthView;

    open spec fn view(&self) -> ComponentHealthView {
        ComponentHealthView {
            name: self.name@,
            status: self.status,
            last_error: self.last_error.deep_view(),
            restart_count: self.restart_count,
        }
    }
}

impl DeepView for ComponentHealth {
    type V = ComponentHealthView;

    open spec fn deep_view(&self) -> ComponentHealthView {
        self@
    }
}

impl Clone for ComponentHealth {
    fn clone(&self) -> (r: Self)
        ensures
            r@ == self@,
    {
        ComponentHealth {
            name: self.name.clone(),
            status: self.status,
            last_error: clone_opt_string(&self.last_error),
            restart_count: self.restart_count,
        }
    }
}

/// The registry as a list of components, in the order they were first marked.
pub type HealthView = Seq<ComponentHealthView>;

/// The names of the components of a registry.
pub open spec fn component_names(health: HealthView) -> Seq<Seq<char>> {
    Seq::new(health.len(), |i: int| health[i].name)
}

/// No component stands twice in the registry.
pub open spec fn health_wf(health: HealthView) -> bool {
    distinct(component_names(health))
}

/// The health of the component `name`; that of a component that is up, was
/// never restarted and had no error where the registry does not hold it.
pub open spec fn health_of(health: HealthView, name: Seq<char>) -> ComponentHealthView {
    match first_index(component_names(health), name) {
        Some(k) => health[k],
        None => ComponentHealthView {
            name,
            status: HealthStatus::Healthy,
            last_error: None,
            restart_count: 0,
        },
    }
}

/// The registry with `entry` as the health of the component it names.
pub open spec fn with_health(health: HealthView, entry: ComponentHealthView) -> HealthView {
    match first_index(component_names(health), entry.name) {
        Some(k) => health.update(k, entry),
        None => health.push(entry),
    }
}

/// The registry after the component was marked as up: its last error is gone.
pub open spec fn marked_ok(health: HealthView, name: Seq<char>) -> HealthView {
    with_health(
        health,
        ComponentHealthView {
            status: HealthStatus::Healthy,
            last_error: None,
            ..health_of(health, name)
        },
    )
}

/// The registry after the component was marked as failed with `error`.
pub open spec fn marked_error(health: HealthView, name: Seq<char>, error: Seq<char>) -> HealthView {
    with_health(
        health,
        ComponentHealthView {
            status: HealthStatus::Failing,
            last_error: Some(error),
            ..health_of(health, name)
        },
    )
}

/// The registry after one more restart of the component was counted; the
/// count stays at the largest number it can hold.
pub open spec fn restarted(health: HealthView, name: Seq<char>) -> HealthView {
    let entry = health_of(health, name);
    with_health(
        health,
        ComponentHealthView {
            restart_count: if entry.restart_count < u64::MAX {
                (entry.restart_count + 1) as u64
            } else {
                entry.restart_count
            },
            ..entry
        },
    )
}

/// Putting the health of a component in keeps the names distinct, and the
/// registry then holds just that for the component.
pub proof fn lemma_with_health(health: HealthView, entry: ComponentHealthView)
    requires
        health_wf(health),
    ensures
        health_wf(with_health(health, entry)),
        health_of(with_health(health, entry), entry.name) == entry,
        forall|other: Seq<char>|
            other != entry.name ==> health_of(with_health(health, entry), other) == health_of(
                health,
                other,
            ),
{
    let names = component_names(health);
    let after = with_health(health, entry);
    let after_names = component_names(after);
    lemma_first_index(names, entry.name);
    match first_index(names, entry.name) {
        Some(k) => {
            assert(after_names =~= names);
        },
        None => {
            assert(after_names =~= names.push(entry.name));
        },
    }
    lemma_first_index(after_names, entry.name);
    assert forall|other: Seq<char>| other != entry.name implies health_of(after, other)
        == health_of(health, other) by {
        lemma_first_index(names, other);
        lemma_first_index(after_names, other);
        match first_index(names, other) {
            Some(i) => {
                assert(after_names[i] == other);
                assert(after[i] == health[i]);
            },
            None => {
                match first_index(after_names, other) {
                    Some(j) => {
                        if j < names.len() {
                            assert(names[j] == after_names[j]);
                        }
                    },
                    None => {},
                }
            },
        }
    }
}

/// The health registry.
pub struct HealthRegistry {
    components: Vec<ComponentHealth>,
}

impl View for HealthRegistry {
    type V = HealthView;

    closed spec fn view(&self) -> HealthView {
        self.components.deep_view()
    }
}

impl HealthRegistry {
    /// A registry that holds no component.
    pub fn new() -> (r: HealthRegistry)
        ensures
            r@ == Seq::<ComponentHealthView>::empty(),
            health_wf(r@),
    {
        let r = HealthRegistry { components: Vec::new() };
        assert(r@ =~= Seq::empty());
        r
    }

    /// Takes the health of the component `name` out, or makes that of a
    /// component that is up; with it comes the place it goes back to.
    fn take_entry(&mut self, name: &str) -> (r: (usize, ComponentHealth))
        ensures
            r.1@ == health_of(old(self)@, name@),
            r.0 <= final(self).components.len(),
            match first_index(component_names(old(self)@), name@) {
                Some(k) => r.0 == k && final(self)@ == old(self)@.remove(k),
                None => r.0 == old(self)@.len() && final(self)@ == old(self)@,
            },
    {
        let ghost names = component_names(self@);
        let mut i: usize = 0;
        while i < self.components.len()
            invariant
                i <= self.components.len(),
                names == component_names(self@),
                self@ == old(self)@,
                forall|j: int| 0 <= j < i ==> names[j] != name@,
            decreases self.components.len() - i,
        {
            if *self.components[i].name.as_str() == *name {
                proof {
                    lemma_first_index_is(names, name@, i as int);
                }
                let entry = self.components.remove(i);
                assert(self@ =~= old(self)@.remove(i as int));
                assert(entry@ == old(self)@[i as int]);
                return (i, entry);
            }
            i += 1;
        }
        proof {
            lemma_first_index_none(names, name@);
        }
        (
            self.components.len(),
            ComponentHealth {
                name: name.to_owned(),
                status: HealthStatus::Healthy,
                last_error: None,
                restart_count: 0,
            },
        )
    }

    /// Puts the health of a component back at its place.
    fn put_entry(&mut self, k: usize, entry: ComponentHealth)
        requires
            k <= old(self).components.len(),
        ensures
            final(self)@ == old(self)@.insert(k as int, entry@),
    {
        self.components.insert(k, entry);
        assert(self@ =~= old(self)@.insert(k as int, entry@));
    }

    /// Marks the component as up and forgets its last error.
    pub fn mark_ok(&mut self, name: &str)
        requires
            health_wf(old(self)@),
        ensures
            final(self)@ == marked_ok(old(self)@, name@),
            health_wf(final(self)@),
    {
        proof {
            lemma_first_index(component_names(self@), name@);
        }
        let (k, mut entry) = self.take_entry(name);
        entry.status = HealthStatus::Healthy;
        entry.last_error = None;
        self.put_entry(k, entry);
        proof {
            assert(self@ =~= marked_ok(old(self)@, name@));
            lemma_with_health(
                old(self)@,
                ComponentHealthView {
                    status: HealthStatus::Healthy,
                    last_error: None,
                    ..health_of(old(self)@, name@)
                },
            );
        }
    }

    /// Marks the component as failed and keeps `error` as its last error.
    pub fn mark_error(&mut self, name: &str, error: &str)
        requires
            health_wf(old(self)@),
        ensures
            final(self)@ == marked_error(old(self)@, name@, error@),
            health_wf(final(self)@),
    {
        proof {
            lemma_first_index(component_names(self@), name@);
        }
        let (k, mut entry) = self.take_entry(name);
        entry.status = HealthStatus::Failing;
        entry.last_error = Some(error.to_owned());
        self.put_entry(k, entry);
        proof {
            assert(self@ =~= marked_error(old(self)@, name@, error@));
            lemma_with_health(
                old(self)@,
                ComponentHealthView {
                    status: HealthStatus::Failing,
                    last_error: Some(error@),
                    ..health_of(old(self)@, name@)
                },
            );
        }
    }

    /// Counts one more restart of the component.
    pub fn bump_restart(&mut self, name: &str)
        requires
            health_wf(old(self)@),
        ensures
            final(self)@ == restarted(old(self)@, name@),
            health_wf(final(self)@),
    {
        proof {
            lemma_first_index(component_names(self@), name@);
        }
        let (k, mut entry) = self.take_entry(name);
        let ghost before = entry@;
        if entry.restart_count < u64::MAX {
            entry.restart_count = entry.restart_count + 1;
        }
        let ghost after = entry@;
        self.put_entry(k, entry);
        proof {
            assert(self@ =~= restarted(old(self)@, name@));
            lemma_with_health(old(self)@, after);
        }
    }

    /// The health of every component, in the order they were first marked.
    pub fn snapshot(&self) -> (r: Vec<ComponentHealth>)
        ensures
            r.deep_view() == self@,
    {
        let mut out: Vec<ComponentHealth> = Vec::new();
        let mut i: usize = 0;
        while i < self.components.len()
            invariant
                i <= self.components.len(),
                out.len() == i,
                forall|j: int| 0 <= j < i ==> out[j]@ == self.components[j]@,
            decreases self.components.len() - i,
        {
            out.push(self.components[i].clone());
            i += 1;
        }
        assert(out.deep_view() =~= self@);
        out
    }
}

} // verus!
