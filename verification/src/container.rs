//! The container: resolution of singleton components and transient
//! provider instances against a fixed set of bindings.
//!
//! Every instance the container ever constructs carries an identity stamp
//! (`id`) that is unique within the container: singletons keep theirs for
//! the container's whole lifetime, while each provider request stamps a
//! fresh one.  Shared ownership of a singleton is an explicit count of
//! outstanding [`SharedHandle`]s; the exclusive-mutation operation
//! succeeds only while that count is zero, so a mutable access can never
//! alias a live shared handle.

use vstd::prelude::*;
use crate::keyed::Keyed;
use crate::keyed::distinct_keys;
use crate::keyed::lemma_map_of_index;
use crate::keyed::lemma_map_of_update;
use crate::keyed::lemma_update_distinct;
use crate::keyed::map_of;
use crate::keyed::find_index;
use crate::module::ProviderBinding;
use crate::provider::ConstructionError;
use crate::provider::Provider;
use crate::provider::recipe_ok;

verus! {

/// A singleton slot: the component instance bound to one interface,
/// together with the count of shared handles to it currently outstanding.
#[derive(Clone, Copy, Debug, PartialEq, Eq, Structural)]
pub struct CompSlot {
    /// The interface the singleton is bound to.
    pub iface: u64,
    /// The instance's identity stamp, fixed for the container's lifetime.
    pub id: u64,
    /// The instance's current payload.
    pub data: u64,
    /// How many shared handles to this singleton are outstanding.
    pub handles: u64,
}

impl Keyed for CompSlot {
    open spec fn skey(&self) -> u64 {
        self.iface
    }

    fn key(&self) -> u64 {
        self.iface
    }
}

/// A shared-ownership handle to a singleton component.
///
/// Handles issued for the same interface all carry the identity stamp of
/// the one underlying instance.  A handle is counted by its container
/// until it is given back through [`Container::release`]; while any
/// handle is outstanding, the payload it snapshots cannot change, because
/// exclusive mutation is refused.
#[derive(Debug)]
pub struct SharedHandle {
    /// The interface the handle resolves.
    pub iface: u64,
    /// The identity stamp of the shared instance.
    pub id: u64,
    /// The instance's payload at the time the handle was issued.
    pub data: u64,
}

/// A freshly constructed, exclusively owned provider instance.
#[derive(Clone, Copy, Debug, PartialEq, Eq, Structural)]
pub struct Service {
    /// The interface the instance was provided for.
    pub iface: u64,
    /// The instance's identity stamp, distinct from that of every other
    /// instance of the same container.
    pub id: u64,
    /// The instance's payload.
    pub data: u64,
}

/// The mathematical content of a container.
#[verifier::ext_equal]
pub struct ContainerView {
    /// The singleton slots, by interface.
    pub comps: Map<u64, CompSlot>,
    /// The module's default provider bindings, by interface.
    pub defaults: Map<u64, ProviderBinding>,
    /// The provider overrides, by interface.
    pub overrides: Map<u64, ProviderBinding>,
    /// The identity stamp the next constructed instance will receive.
    pub next_id: u64,
}

impl ContainerView {
    /// The container binds a component to `i`.
    pub open spec fn has_component(self, i: u64) -> bool {
        self.comps.contains_key(i)
    }

    /// The container binds a provider to `i`.
    pub open spec fn has_provider(self, i: u64) -> bool {
        self.defaults.contains_key(i)
    }

    /// Well-formedness: slots are filed under their interface and carry
    /// identity stamps that are pairwise distinct and below `next_id`;
    /// the component and provider families are disjoint; every recipe's
    /// dependencies are bound, provider dependencies pointing strictly
    /// downward; and overrides exist only for bound providers.
    pub open spec fn wf(self) -> bool {
        &&& (forall|k: u64| #[trigger] self.comps.contains_key(k)
                ==> self.comps[k].iface == k && self.comps[k].id < self.next_id)
        &&& (forall|k1: u64, k2: u64|
                self.comps.contains_key(k1) && self.comps.contains_key(k2) && k1 != k2
                    ==> self.comps[k1].id != self.comps[k2].id)
        &&& self.comps.dom().disjoint(self.defaults.dom())
        &&& (forall|k: u64| #[trigger] self.defaults.contains_key(k)
                ==> self.defaults[k].iface == k
                    && recipe_ok(self.comps.dom(), self.defaults.dom(), k, self.defaults[k].recipe))
        &&& (forall|k: u64| #[trigger] self.overrides.contains_key(k)
                ==> self.overrides[k].iface == k && self.defaults.contains_key(k)
                    && recipe_ok(self.comps.dom(), self.defaults.dom(), k, self.overrides[k].recipe))
    }
}

/// The recipe that a `provide` request for `i` runs: the override if one
/// is registered, the module's default binding otherwise.  The override
/// store is keyed by the exact interface, so an override never bleeds
/// into any other interface's dispatch.
pub open spec fn effective(c: ContainerView, i: u64) -> Provider {
    if c.overrides.contains_key(i) {
        c.overrides[i].recipe
    } else {
        c.defaults[i].recipe
    }
}

/// The payload, or the construction error, that providing `i` produces.
/// A dependency's failure is passed through unchanged.
pub open spec fn provide_data(c: ContainerView, i: u64) -> Result<u64, u64>
    decreases i,
{
    match effective(c, i) {
        Provider::Value(d) => Result::Ok(d),
        Provider::Fail(e) => Result::Err(e),
        Provider::FromComponent(j) => Result::Ok(c.comps[j].data),
        Provider::FromProvider(j) => if j < i {
            provide_data(c, j)
        } else {
            arbitrary()
        },
    }
}

/// How many identity stamps providing `i` consumes: one per instance
/// constructed anywhere in the dependency chain.
pub open spec fn ids_spent(c: ContainerView, i: u64) -> nat
    decreases i,
{
    match effective(c, i) {
        Provider::Value(_) => 1,
        Provider::Fail(_) => 0,
        Provider::FromComponent(_) => 1,
        Provider::FromProvider(j) => if j < i {
            ids_spent(c, j) + (if provide_data(c, j) is Ok { 1nat } else { 0nat })
        } else {
            arbitrary()
        },
    }
}

/// The handle a `resolve` request for `i` returns.
pub open spec fn handle_of(c: ContainerView, i: u64) -> SharedHandle {
    SharedHandle { iface: i, id: c.comps[i].id, data: c.comps[i].data }
}

/// The container after a `resolve` request for `i`: one more shared
/// handle is outstanding, and nothing else changes.
pub open spec fn resolve_step(c: ContainerView, i: u64) -> ContainerView {
    let s = c.comps[i];
    ContainerView {
        comps: c.comps.insert(i, (CompSlot { handles: (s.handles + 1) as u64, ..s })),
        ..c
    }
}

/// The container after a shared handle to `i` is given back.
pub open spec fn release_step(c: ContainerView, i: u64) -> ContainerView {
    let s = c.comps[i];
    ContainerView {
        comps: c.comps.insert(i, (CompSlot { handles: (s.handles - 1) as u64, ..s })),
        ..c
    }
}

/// Exclusive mutation of `i`'s singleton is allowed exactly while no
/// shared handle to it is outstanding.
pub open spec fn mut_allowed(c: ContainerView, i: u64) -> bool {
    c.comps[i].handles == 0
}

/// The container after an exclusive-mutation request for `i` with the new
/// payload `data`: the write happens only if it is allowed, and the
/// instance keeps its identity either way.
pub open spec fn mut_step(c: ContainerView, i: u64, data: u64) -> ContainerView {
    if mut_allowed(c, i) {
        let s = c.comps[i];
        ContainerView { comps: c.comps.insert(i, (CompSlot { data, ..s })), ..c }
    } else {
        c
    }
}

/// The container after a `provide` request for `i`: the bindings are
/// untouched, and the consumed identity stamps are gone.
pub open spec fn provide_step(c: ContainerView, i: u64) -> ContainerView {
    ContainerView { next_id: (c.next_id + ids_spent(c, i)) as u64, ..c }
}

/// The identity stamp of the instance a successful `provide` request for
/// `i` returns: the last stamp the request consumed.
pub open spec fn provided_id(c: ContainerView, i: u64) -> int {
    c.next_id + ids_spent(c, i) - 1
}

/// Resolves services against a fixed set of bindings: singleton
/// components shared through counted handles, and transient provider
/// instances constructed anew on every request.
pub struct Container {
    /// The singleton slots, one per bound component interface.
    pub slots: Vec<CompSlot>,
    /// The module's default provider bindings.
    pub defaults: Vec<ProviderBinding>,
    /// The provider overrides the container was built with.
    pub provider_overrides: Vec<ProviderBinding>,
    /// The identity stamp the next constructed instance will receive.
    pub next_id: u64,
}

impl View for Container {
    type V = ContainerView;

    open spec fn view(&self) -> ContainerView {
        ContainerView {
            comps: map_of(self.slots@),
            defaults: map_of(self.defaults@),
            overrides: map_of(self.provider_overrides@),
            next_id: self.next_id,
        }
    }
}

impl Container {
    /// Each store holds one record per interface, and the mathematical
    /// content is well formed.
    pub open spec fn wf(self) -> bool {
        &&& distinct_keys(self.slots@)
        &&& distinct_keys(self.defaults@)
        &&& distinct_keys(self.provider_overrides@)
        &&& self@.wf()
    }

    /// Whether a component is bound to `iface`.
    pub fn has_component(&self, iface: u64) -> (r: bool)
        ensures
            r == self@.has_component(iface),
    {
        find_index(&self.slots, iface).is_some()
    }

    /// Whether a provider is bound to `iface`.
    pub fn has_provider(&self, iface: u64) -> (r: bool)
        ensures
            r == self@.has_provider(iface),
    {
        find_index(&self.defaults, iface).is_some()
    }

    /// Resolves the component bound to `iface` with shared ownership: the
    /// returned handle references the same underlying instance as every
    /// other handle ever issued for `iface`, and is counted until it is
    /// given back through [`Container::release`].
    pub fn resolve(&mut self, iface: u64) -> (h: SharedHandle)
        requires
            old(self).wf(),
            old(self)@.has_component(iface),
            old(self)@.comps[iface].handles < u64::MAX,
        ensures
            final(self).wf(),
            h == handle_of(old(self)@, iface),
            final(self)@ == resolve_step(old(self)@, iface),
    {
        let idx = find_index(&self.slots, iface).unwrap();
        proof {
            lemma_map_of_index(self.slots@, idx as int);
        }
        let s = self.slots[idx];
        let updated = CompSlot { iface: s.iface, id: s.id, data: s.data, handles: s.handles + 1 };
        proof {
            lemma_update_distinct(self.slots@, idx as int, updated);
            lemma_map_of_update(self.slots@, idx as int, updated);
            assert(old(self)@.comps.insert(iface, updated).dom() =~= old(self)@.comps.dom());
        }
        self.slots[idx] = updated;
        SharedHandle { iface, id: s.id, data: s.data }
    }

    /// Gives a shared handle back, ending its share of the ownership.
    pub fn release(&mut self, h: SharedHandle)
        requires
            old(self).wf(),
            old(self)@.has_component(h.iface),
            old(self)@.comps[h.iface].id == h.id,
            old(self)@.comps[h.iface].handles > 0,
        ensures
            final(self).wf(),
            final(self)@ == release_step(old(self)@, h.iface),
    {
        let idx = find_index(&self.slots, h.iface).unwrap();
        proof {
            lemma_map_of_index(self.slots@, idx as int);
        }
        let s = self.slots[idx];
        let updated = CompSlot { iface: s.iface, id: s.id, data: s.data, handles: s.handles - 1 };
        proof {
            lemma_update_distinct(self.slots@, idx as int, updated);
            lemma_map_of_update(self.slots@, idx as int, updated);
            assert(old(self)@.comps.insert(h.iface, updated).dom() =~= old(self)@.comps.dom());
        }
        self.slots[idx] = updated;
    }

    /// Borrows the current payload of the component bound to `iface`.
    /// No new instance is created and no handle is counted.
    pub fn resolve_ref(&self, iface: u64) -> (r: &u64)
        requires
            self.wf(),
            self@.has_component(iface),
        ensures
            *r == self@.comps[iface].data,
    {
        let idx = find_index(&self.slots, iface).unwrap();
        proof {
            lemma_map_of_index(self.slots@, idx as int);
        }
        &self.slots[idx].data
    }

    /// Requests exclusive mutable access to the component bound to
    /// `iface`, to write `data` into it.  The write happens, and the
    /// previous payload is returned, if and only if no shared handle to
    /// the singleton is outstanding; otherwise the container is left
    /// untouched and `None` signals the expected, recoverable refusal.
    /// The instance keeps its identity in either case.
    pub fn resolve_mut(&mut self, iface: u64, data: u64) -> (r: Option<u64>)
        requires
            old(self).wf(),
            old(self)@.has_component(iface),
        ensures
            final(self).wf(),
            final(self)@ == mut_step(old(self)@, iface, data),
            (r is Some) <==> mut_allowed(old(self)@, iface),
            (match r {
                Some(prev) => prev == old(self)@.comps[iface].data,
                None => true,
            }),
    {
        let idx = find_index(&self.slots, iface).unwrap();
        proof {
            lemma_map_of_index(self.slots@, idx as int);
        }
        let s = self.slots[idx];
        if s.handles != 0 {
            return None;
        }
        let updated = CompSlot { iface: s.iface, id: s.id, data, handles: s.handles };
        proof {
            lemma_update_distinct(self.slots@, idx as int, updated);
            lemma_map_of_update(self.slots@, idx as int, updated);
            assert(old(self)@.comps.insert(iface, updated).dom() =~= old(self)@.comps.dom());
        }
        self.slots[idx] = updated;
        Some(s.data)
    }

    /// Creates a service using the provider bound to `iface`: the
    /// override's recipe if one is registered, the module's default
    /// otherwise.  Every call constructs a brand-new, exclusively owned
    /// instance with a fresh identity stamp — nothing is cached — or
    /// forwards the construction error of the failing recipe unchanged,
    /// leaving the bindings and every singleton exactly as they were.
    pub fn provide(&mut self, iface: u64) -> (r: Result<Service, ConstructionError>)
        requires
            old(self).wf(),
            old(self)@.has_provider(iface),
            old(self)@.next_id + ids_spent(old(self)@, iface) <= u64::MAX,
        ensures
            final(self).wf(),
            final(self)@ == provide_step(old(self)@, iface),
            (match r {
                Ok(s) => provide_data(old(self)@, iface) == Result::<u64, u64>::Ok(s.data)
                    && s.iface == iface && s.id == provided_id(old(self)@, iface),
                Err(e) => provide_data(old(self)@, iface) == Result::<u64, u64>::Err(e.code),
            }),
        decreases iface,
    {
        let recipe = match find_index(&self.provider_overrides, iface) {
            Some(i) => {
                proof {
                    lemma_map_of_index(self.provider_overrides@, i as int);
                }
                self.provider_overrides[i].recipe
            }
            None => {
                let i = find_index(&self.defaults, iface).unwrap();
                proof {
                    lemma_map_of_index(self.defaults@, i as int);
                }
                self.defaults[i].recipe
            }
        };
        proof {
            assert(recipe == effective(self@, iface));
        }
        match recipe {
            Provider::Value(d) => {
                let id = self.next_id;
                self.next_id = id + 1;
                Ok(Service { iface, id, data: d })
            }
            Provider::Fail(e) => Err(ConstructionError { code: e }),
            Provider::FromComponent(j) => {
                let idx = find_index(&self.slots, j).unwrap();
                proof {
                    lemma_map_of_index(self.slots@, idx as int);
                }
                let d = self.slots[idx].data;
                let id = self.next_id;
                self.next_id = id + 1;
                Ok(Service { iface, id, data: d })
            }
            Provider::FromProvider(j) => {
                match self.provide(j) {
                    Ok(inner) => {
                        let id = self.next_id;
                        self.next_id = id + 1;
                        Ok(Service { iface, id, data: inner.data })
                    }
                    Err(e) => Err(e),
                }
            }
        }
    }
}

} // verus!
