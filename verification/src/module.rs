//! The binding registry: a closed set of interface-to-implementation
//! bindings, fixed before a container is built.
//!
//! An interface is identified by a `u64` tag.  The component and provider
//! families are disjoint: an interface is bound to a singleton component,
//! or to a transient provider, or not at all.  Registration happens once,
//! up front; the resolution operations never change the registry.

use vstd::prelude::*;
use crate::keyed::Keyed;
use crate::keyed::distinct_keys;
use crate::keyed::lemma_map_of_contains;
use crate::keyed::lemma_map_of_push;
use crate::keyed::lemma_push_distinct;
use crate::keyed::map_of;
use crate::keyed::find_index;
use crate::provider::Provider;
use crate::provider::recipe_ok;

verus! {

/// A component binding: the interface tag and the initial payload of the
/// singleton instance bound to it.
#[derive(Clone, Copy, Debug, PartialEq, Eq, Structural)]
pub struct ComponentBinding {
    /// The bound interface.
    pub iface: u64,
    /// The payload the singleton starts with.
    pub data: u64,
}

impl Keyed for ComponentBinding {
    open spec fn skey(&self) -> u64 {
        self.iface
    }

    fn key(&self) -> u64 {
        self.iface
    }
}

/// A provider binding: the interface tag and the construction recipe run
/// for each request.
#[derive(Clone, Copy, Debug, PartialEq, Eq, Structural)]
pub struct ProviderBinding {
    /// The bound interface.
    pub iface: u64,
    /// The recipe run on every request for this interface.
    pub recipe: Provider,
}

impl Keyed for ProviderBinding {
    open spec fn skey(&self) -> u64 {
        self.iface
    }

    fn key(&self) -> u64 {
        self.iface
    }
}

/// The mathematical content of a module: which interfaces are bound, and
/// to what.
pub struct ModuleView {
    /// Component bindings, by interface.
    pub components: Map<u64, ComponentBinding>,
    /// Provider bindings, by interface.
    pub providers: Map<u64, ProviderBinding>,
}

impl ModuleView {
    /// The registry is well formed: the two interface families are
    /// disjoint and every recipe's dependencies are bound, provider
    /// dependencies pointing strictly downward.
    pub open spec fn wf(self) -> bool {
        &&& self.components.dom().disjoint(self.providers.dom())
        &&& forall|k: u64| #[trigger] self.providers.contains_key(k)
                ==> self.providers[k].iface == k
                    && recipe_ok(self.components.dom(), self.providers.dom(), k, self.providers[k].recipe)
        &&& forall|k: u64| #[trigger] self.components.contains_key(k) ==> self.components[k].iface == k
    }
}

/// The closed registration of interface-to-implementation bindings.
pub struct Module {
    /// Component bindings, in registration order.
    pub components: Vec<ComponentBinding>,
    /// Provider bindings, in registration order.
    pub providers: Vec<ProviderBinding>,
}

impl View for Module {
    type V = ModuleView;

    open spec fn view(&self) -> ModuleView {
        ModuleView {
            components: map_of(self.components@),
            providers: map_of(self.providers@),
        }
    }
}

impl Module {
    /// Each binding family holds one record per interface.
    pub open spec fn wf(self) -> bool {
        &&& distinct_keys(self.components@)
        &&& distinct_keys(self.providers@)
        &&& self@.wf()
    }

    /// The component bindings in registration order.
    pub open spec fn component_seq(self) -> Seq<ComponentBinding> {
        self.components@
    }

    /// Starts an empty registry.
    pub fn new() -> (m: Module)
        ensures
            m.wf(),
            m@.components == Map::<u64, ComponentBinding>::empty(),
            m@.providers == Map::<u64, ProviderBinding>::empty(),
            m.component_seq() == Seq::<ComponentBinding>::empty(),
    {
        Module { components: Vec::new(), providers: Vec::new() }
    }

    /// Whether the module binds a component to `iface`.
    pub fn has_component(&self, iface: u64) -> (r: bool)
        ensures
            r == self@.components.contains_key(iface),
    {
        find_index(&self.components, iface).is_some()
    }

    /// Whether the module binds a provider to `iface`.
    pub fn has_provider(&self, iface: u64) -> (r: bool)
        ensures
            r == self@.providers.contains_key(iface),
    {
        find_index(&self.providers, iface).is_some()
    }

    /// Declares a component binding: `iface`'s singleton will start with
    /// payload `data`.  The interface must not be bound yet.
    pub fn add_component(&mut self, iface: u64, data: u64)
        requires
            old(self).wf(),
            !old(self)@.components.contains_key(iface),
            !old(self)@.providers.contains_key(iface),
        ensures
            final(self).wf(),
            final(self)@.components == old(self)@.components.insert(
                iface,
                (ComponentBinding { iface, data }),
            ),
            final(self)@.providers == old(self)@.providers,
            final(self).component_seq() == old(self).component_seq().push(
                (ComponentBinding { iface, data }),
            ),
    {
        let b = ComponentBinding { iface, data };
        proof {
            lemma_map_of_contains(self.components@, iface);
            lemma_push_distinct(self.components@, b);
            lemma_map_of_push(self.components@, b);
        }
        self.components.push(b);
    }

    /// Declares a provider binding: requests for `iface` will run
    /// `recipe`.  The interface must not be bound yet, and the recipe's
    /// dependencies must already be bound, a provider dependency under a
    /// strictly smaller tag.
    pub fn add_provider(&mut self, iface: u64, recipe: Provider)
        requires
            old(self).wf(),
            !old(self)@.components.contains_key(iface),
            !old(self)@.providers.contains_key(iface),
            recipe_ok(old(self)@.components.dom(), old(self)@.providers.dom(), iface, recipe),
        ensures
            final(self).wf(),
            final(self)@.components == old(self)@.components,
            final(self)@.providers == old(self)@.providers.insert(
                iface,
                (ProviderBinding { iface, recipe }),
            ),
            final(self).component_seq() == old(self).component_seq(),
    {
        let b = ProviderBinding { iface, recipe };
        proof {
            lemma_map_of_contains(self.providers@, iface);
            lemma_push_distinct(self.providers@, b);
            lemma_map_of_push(self.providers@, b);
            let post = self@.providers.insert(iface, b);
            assert forall|k: u64| #[trigger] post.contains_key(k)
                implies post[k].iface == k
                    && recipe_ok(self@.components.dom(), post.dom(), k, post[k].recipe) by {
                if k != iface {
                    assert(self@.providers.contains_key(k));
                }
            }
        }
        self.providers.push(b);
    }

    /// The default provider recipe bound to `iface`.
    pub fn provider_recipe(&self, iface: u64) -> (r: Option<Provider>)
        requires
            self.wf(),
        ensures
            match r {
                Some(p) => self@.providers.contains_key(iface) && p == self@.providers[iface].recipe,
                None => !self@.providers.contains_key(iface),
            },
    {
        match find_index(&self.providers, iface) {
            Some(i) => {
                proof {
                    crate::keyed::lemma_map_of_index(self.providers@, i as int);
                }
                Some(self.providers[i].recipe)
            }
            None => None,
        }
    }
}

} // verus!
