//! The container builder: accumulates build-time overrides, validates
//! them against a module, and finalizes an immutable container.
//!
//! The builder is a strictly linear pipeline: it starts empty, takes zero
//! or more overrides (later overrides for the same interface replace
//! earlier ones), and is consumed by `build`.  No insertion path exists
//! once the container is produced.

use vstd::prelude::*;
use crate::container::CompSlot;
use crate::container::Container;
use crate::keyed::Keyed;
use crate::keyed::distinct_keys;
use crate::keyed::lemma_map_of_contains;
use crate::keyed::lemma_map_of_index;
use crate::keyed::lemma_map_of_lookup;
use crate::keyed::lemma_map_of_push;
use crate::keyed::lemma_map_of_update;
use crate::keyed::lemma_push_distinct;
use crate::keyed::lemma_update_distinct;
use crate::keyed::map_of;
use crate::keyed::find_index;
use crate::module::ComponentBinding;
use crate::module::Module;
use crate::module::ProviderBinding;
use crate::provider::Provider;
use crate::provider::recipe_ok;

verus! {

/// The singleton slot that `build` creates for the component binding at
/// position `j`: the instance is stamped with its position, starts with
/// no handles outstanding, and carries the override's payload if one was
/// registered for its interface, the binding's own payload otherwise.
pub open spec fn built_slot(
    bindings: Seq<ComponentBinding>,
    ovr: Map<u64, ComponentBinding>,
    j: int,
) -> CompSlot {
    CompSlot {
        iface: bindings[j].iface,
        id: j as u64,
        data: if ovr.contains_key(bindings[j].iface) {
            ovr[bindings[j].iface].data
        } else {
            bindings[j].data
        },
        handles: 0,
    }
}

/// Accumulates overrides and finalizes a [`Container`].
pub struct ContainerBuilder {
    /// Ready-made instances that replace component singletons, by
    /// interface.
    pub component_overrides: Vec<ComponentBinding>,
    /// Recipes that replace default providers, by interface.
    pub provider_overrides: Vec<ProviderBinding>,
}

impl ContainerBuilder {
    /// Each override store holds one record per interface.
    pub open spec fn wf(self) -> bool {
        &&& distinct_keys(self.component_overrides@)
        &&& distinct_keys(self.provider_overrides@)
    }

    /// The component overrides recorded so far, by interface.
    pub open spec fn covr(self) -> Map<u64, ComponentBinding> {
        map_of(self.component_overrides@)
    }

    /// The provider overrides recorded so far, by interface.
    pub open spec fn povr(self) -> Map<u64, ProviderBinding> {
        map_of(self.provider_overrides@)
    }

    /// Starts a builder with no overrides.
    pub fn new() -> (b: ContainerBuilder)
        ensures
            b.wf(),
            b.covr() == Map::<u64, ComponentBinding>::empty(),
            b.povr() == Map::<u64, ProviderBinding>::empty(),
    {
        ContainerBuilder { component_overrides: Vec::new(), provider_overrides: Vec::new() }
    }

    /// Records a ready instance payload that will take the place of
    /// `iface`'s default component singleton.  A later override for the
    /// same interface replaces an earlier one.
    pub fn with_component_override(self, iface: u64, data: u64) -> (b: ContainerBuilder)
        requires
            self.wf(),
        ensures
            b.wf(),
            b.covr() == self.covr().insert(iface, (ComponentBinding { iface, data })),
            b.povr() == self.povr(),
    {
        let mut b = self;
        let entry = ComponentBinding { iface, data };
        match find_index(&b.component_overrides, iface) {
            Some(i) => {
                proof {
                    lemma_update_distinct(b.component_overrides@, i as int, entry);
                    lemma_map_of_update(b.component_overrides@, i as int, entry);
                }
                b.component_overrides[i] = entry;
            }
            None => {
                proof {
                    lemma_push_distinct(b.component_overrides@, entry);
                    lemma_map_of_push(b.component_overrides@, entry);
                }
                b.component_overrides.push(entry);
            }
        }
        b
    }

    /// Records a recipe that will take the place of `iface`'s default
    /// provider.  A later override for the same interface replaces an
    /// earlier one.
    pub fn with_provider_override(self, iface: u64, recipe: Provider) -> (b: ContainerBuilder)
        requires
            self.wf(),
        ensures
            b.wf(),
            b.povr() == self.povr().insert(iface, (ProviderBinding { iface, recipe })),
            b.covr() == self.covr(),
    {
        let mut b = self;
        let entry = ProviderBinding { iface, recipe };
        match find_index(&b.provider_overrides, iface) {
            Some(i) => {
                proof {
                    lemma_update_distinct(b.provider_overrides@, i as int, entry);
                    lemma_map_of_update(b.provider_overrides@, i as int, entry);
                }
                b.provider_overrides[i] = entry;
            }
            None => {
                proof {
                    lemma_push_distinct(b.provider_overrides@, entry);
                    lemma_map_of_push(b.provider_overrides@, entry);
                }
                b.provider_overrides.push(entry);
            }
        }
        b
    }

    /// Finalizes the overrides against `module` and produces an immutable
    /// container.  Every override must be for an interface the module
    /// actually binds, in the matching family; a provider override's
    /// dependencies must satisfy the same build-time validation as the
    /// module's own recipes.  The module's singletons are materialized
    /// once, here, each stamped with its registration position.
    pub fn build(self, module: Module) -> (c: Container)
        requires
            self.wf(),
            module.wf(),
            forall|k: u64| self.covr().contains_key(k) ==> module@.components.contains_key(k),
            forall|k: u64| #[trigger] self.povr().contains_key(k)
                ==> module@.providers.contains_key(k)
                    && recipe_ok(
                        module@.components.dom(),
                        module@.providers.dom(),
                        k,
                        self.povr()[k].recipe,
                    ),
        ensures
            c.wf(),
            c@.defaults == module@.providers,
            c@.overrides == self.povr(),
            c@.next_id == module.component_seq().len(),
            c@.comps.dom() == module@.components.dom(),
            forall|k: u64| #[trigger] c@.comps.contains_key(k)
                ==> c@.comps[k].handles == 0 && c@.comps[k].data == (
                    if self.covr().contains_key(k) {
                        self.covr()[k].data
                    } else {
                        module@.components[k].data
                    }
                ),
            forall|j: int| 0 <= j < module.component_seq().len()
                ==> c@.comps[#[trigger] module.component_seq()[j].iface].id == j,
    {
        let mut slots: Vec<CompSlot> = Vec::new();
        let n = module.components.len();
        let mut i: usize = 0;
        while i < n
            invariant
                i <= n,
                n == module.components@.len(),
                slots@.len() == i,
                distinct_keys(module.components@),
                distinct_keys(self.component_overrides@),
                forall|j: int| 0 <= j < i
                    ==> slots@[j] == built_slot(
                        module.components@,
                        map_of(self.component_overrides@),
                        j,
                    ),
            decreases n - i,
        {
            let binding = module.components[i];
            let data = match find_index(&self.component_overrides, binding.iface) {
                Some(x) => {
                    proof {
                        lemma_map_of_index(self.component_overrides@, x as int);
                    }
                    self.component_overrides[x].data
                }
                None => binding.data,
            };
            slots.push(CompSlot { iface: binding.iface, id: i as u64, data, handles: 0 });
            i += 1;
        }
        let c = Container {
            slots,
            defaults: module.providers,
            provider_overrides: self.provider_overrides,
            next_id: i as u64,
        };
        proof {
            let bindings = module.components@;
            let sl = c.slots@;
            assert(forall|j: int| 0 <= j < sl.len() ==> #[trigger] sl[j].iface == bindings[j].iface);
            assert(distinct_keys(sl));
            // Each bound interface has its slot, and only bound interfaces do.
            assert forall|k: u64| #[trigger] c@.comps.contains_key(k)
                    == module@.components.contains_key(k) by {
                lemma_map_of_contains(sl, k);
                lemma_map_of_contains(bindings, k);
                if c@.comps.contains_key(k) {
                    let j = choose|j: int| 0 <= j < sl.len() && sl[j].skey() == k;
                    assert(bindings[j].skey() == k);
                }
                if module@.components.contains_key(k) {
                    let j = choose|j: int| 0 <= j < bindings.len() && bindings[j].skey() == k;
                    assert(sl[j].skey() == k);
                }
            }
            assert(c@.comps.dom() =~= module@.components.dom());
            // Every slot carries the payload and the stamp build promises.
            assert forall|k: u64| #[trigger] c@.comps.contains_key(k)
                    implies c@.comps[k] == built_slot(bindings, self.covr(), choose|j: int|
                        0 <= j < sl.len() && sl[j].iface == k,
                    ) && c@.comps[k].iface == k && c@.comps[k].handles == 0 && c@.comps[k].data
                    == (if self.covr().contains_key(k) {
                        self.covr()[k].data
                    } else {
                        module@.components[k].data
                    }) && c@.comps[k].id < c@.next_id by {
                lemma_map_of_contains(sl, k);
                let j = choose|j: int| 0 <= j < sl.len() && sl[j].iface == k;
                lemma_map_of_index(sl, j);
                lemma_map_of_index(bindings, j);
            }
            // Stamps are pairwise distinct because they are positions.
            assert forall|k1: u64, k2: u64|
                c@.comps.contains_key(k1) && c@.comps.contains_key(k2) && k1 != k2
                    implies c@.comps[k1].id != c@.comps[k2].id by {
                lemma_map_of_contains(sl, k1);
                lemma_map_of_contains(sl, k2);
                let j1 = choose|j: int| 0 <= j < sl.len() && sl[j].iface == k1;
                let j2 = choose|j: int| 0 <= j < sl.len() && sl[j].iface == k2;
                lemma_map_of_index(sl, j1);
                lemma_map_of_index(sl, j2);
            }
            // The default bindings and the overrides keep the registry's
            // well-formedness, now phrased over the container's families.
            assert forall|k: u64| #[trigger] c@.defaults.contains_key(k)
                    implies c@.defaults[k].iface == k && recipe_ok(
                        c@.comps.dom(),
                        c@.defaults.dom(),
                        k,
                        c@.defaults[k].recipe,
                    ) by {
                assert(module@.providers.contains_key(k));
            }
            // Each singleton is stamped with its registration position.
            assert forall|j: int| 0 <= j < bindings.len()
                    implies c@.comps[#[trigger] bindings[j].iface].id == j by {
                lemma_map_of_index(sl, j);
            }
            assert forall|k: u64| #[trigger] c@.overrides.contains_key(k)
                    implies c@.overrides[k].iface == k && c@.defaults.contains_key(k)
                    && recipe_ok(c@.comps.dom(), c@.defaults.dom(), k, c@.overrides[k].recipe) by {
                lemma_map_of_lookup(c.provider_overrides@, k);
                assert(self.povr().contains_key(k));
                assert(c@.defaults.dom() =~= module@.providers.dom());
            }
        }
        c
    }
}

impl Default for Container {
    /// Builds a container over an empty registry, with no overrides: the
    /// same as finalizing a fresh builder against a fresh module.
    fn default() -> (c: Container)
        ensures
            c.wf(),
            c@.comps == Map::<u64, CompSlot>::empty(),
            c@.defaults == Map::<u64, ProviderBinding>::empty(),
            c@.overrides == Map::<u64, ProviderBinding>::empty(),
            c@.next_id == 0,
    {
        let c = ContainerBuilder::new().build(Module::new());
        proof {
            assert(c@.comps =~= Map::<u64, CompSlot>::empty());
        }
        c
    }
}

impl Container {
    /// Builds a container with no overrides: every interface resolves
    /// through the module's own bindings.
    pub fn new(module: Module) -> (c: Container)
        requires
            module.wf(),
        ensures
            c.wf(),
            c@.defaults == module@.providers,
            c@.overrides == Map::<u64, ProviderBinding>::empty(),
            c@.next_id == module.component_seq().len(),
            c@.comps.dom() == module@.components.dom(),
            forall|k: u64| #[trigger] c@.comps.contains_key(k)
                ==> c@.comps[k].handles == 0 && c@.comps[k].data == module@.components[k].data,
            forall|j: int| 0 <= j < module.component_seq().len()
                ==> c@.comps[#[trigger] module.component_seq()[j].iface].id == j,
    {
        ContainerBuilder::new().build(module)
    }
}

} // verus!
