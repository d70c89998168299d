//! The container's resolution laws, stated over the mathematical model
//! and proved once and for all.
//!
//! Each law quantifies over every well-formed container state, so it
//! covers every container the builder can produce and every sequence of
//! operations, not just chosen examples.

use vstd::prelude::*;
use crate::container::ContainerView;
use crate::container::effective;
use crate::container::handle_of;
use crate::container::ids_spent;
use crate::container::mut_allowed;
use crate::container::mut_step;
use crate::container::provide_data;
use crate::container::provide_step;
use crate::container::provided_id;
use crate::container::release_step;
use crate::container::resolve_step;
use crate::module::ProviderBinding;
use crate::provider::Provider;

verus! {

/// The container after `n` further shared resolutions of interface `i`.
pub open spec fn resolve_n(c: ContainerView, i: u64, n: nat) -> ContainerView
    decreases n,
{
    if n == 0 {
        c
    } else {
        resolve_step(resolve_n(c, i, (n - 1) as nat), i)
    }
}

/// Singleton identity: however many times an interface bound to a
/// component is resolved, every call returns the very same handle — in
/// particular, every handle carries the identity stamp of the one
/// underlying instance.
pub proof fn lemma_singleton_identity(c: ContainerView, i: u64, n: nat)
    requires
        c.wf(),
        c.has_component(i),
    ensures
        handle_of(resolve_n(c, i, n), i) == handle_of(c, i),
    decreases n,
{
    if n > 0 {
        lemma_singleton_identity(c, i, (n - 1) as nat);
    }
}

/// Singleton permanence: no container operation — a shared resolution or
/// release of any interface, an exclusive mutation with any payload, or
/// a provision of any interface — ever replaces a singleton: the handle
/// later resolved for `i` carries the same identity stamp as before.
pub proof fn lemma_identity_stable(c: ContainerView, i: u64, j: u64, data: u64)
    ensures
        handle_of(resolve_step(c, j), i).id == handle_of(c, i).id,
        handle_of(release_step(c, j), i).id == handle_of(c, i).id,
        handle_of(mut_step(c, j, data), i).id == handle_of(c, i).id,
        handle_of(provide_step(c, j), i).id == handle_of(c, i).id,
{
}

/// A provider's outcome is a function of the bindings alone: the identity
/// counter plays no part in what is constructed or how it fails.
proof fn lemma_bindings_determine(c1: ContainerView, c2: ContainerView, i: u64)
    requires
        c1.comps == c2.comps,
        c1.defaults == c2.defaults,
        c1.overrides == c2.overrides,
    ensures
        provide_data(c1, i) == provide_data(c2, i),
        ids_spent(c1, i) == ids_spent(c2, i),
    decreases i,
{
    match effective(c1, i) {
        Provider::FromProvider(j) => {
            if j < i {
                lemma_bindings_determine(c1, c2, j);
            }
        }
        _ => {},
    }
}

/// A successful provision consumes at least one identity stamp: the one
/// carried by the instance it returns.
proof fn lemma_ok_spends(c: ContainerView, i: u64)
    requires
        c.wf(),
        c.has_provider(i),
        provide_data(c, i) is Ok,
    ensures
        ids_spent(c, i) >= 1,
{
}

/// Transient non-identity: two successive provisions of the same
/// interface, however deep their dependency chains, return instances
/// with different identity stamps — nothing is cached.
pub proof fn lemma_transient_non_identity(c: ContainerView, i: u64)
    requires
        c.wf(),
        c.has_provider(i),
        provide_data(c, i) is Ok,
        c.next_id + ids_spent(c, i) <= u64::MAX,
    ensures
        provided_id(provide_step(c, i), i) != provided_id(c, i),
    decreases i,
{
    lemma_ok_spends(c, i);
    lemma_bindings_determine(c, provide_step(c, i), i);
}

/// Exclusive-mutation exclusivity: as soon as a shared handle is
/// resolved, exclusive mutation is refused; and once that handle is
/// released — the count having returned to zero — it is allowed again.
pub proof fn lemma_exclusive_mutation(c: ContainerView, i: u64)
    requires
        c.wf(),
        c.has_component(i),
        c.comps[i].handles < u64::MAX,
    ensures
        !mut_allowed(resolve_step(c, i), i),
        c.comps[i].handles == 0 ==> mut_allowed(release_step(resolve_step(c, i), i), i),
{
}

/// Providing any interface below `x` — or `x` itself while it is
/// overridden — never reads `x`'s default binding, so a change confined
/// to that default cannot change the outcome.
proof fn lemma_provide_skips_default(c1: ContainerView, c2: ContainerView, x: u64, i: u64)
    requires
        c1.wf(),
        c1.has_provider(i),
        c1.comps == c2.comps,
        c1.overrides == c2.overrides,
        c1.defaults.dom() == c2.defaults.dom(),
        forall|k: u64| k != x && #[trigger] c1.defaults.contains_key(k)
            ==> c1.defaults[k] == c2.defaults[k],
        i < x || c1.overrides.contains_key(x),
    ensures
        provide_data(c1, i) == provide_data(c2, i),
        ids_spent(c1, i) == ids_spent(c2, i),
    decreases i,
{
    match effective(c1, i) {
        Provider::FromProvider(j) => {
            if j < i {
                lemma_provide_skips_default(c1, c2, x, j);
            }
        }
        _ => {},
    }
}

/// Override precedence: while a provider override is registered for an
/// interface, providing it runs the override and never invokes the
/// module's default provider — any change confined to that default
/// binding leaves every outcome of the interface untouched.
pub proof fn lemma_override_precedence(c1: ContainerView, c2: ContainerView, i: u64)
    requires
        c1.wf(),
        c1.has_provider(i),
        c1.overrides.contains_key(i),
        c1.comps == c2.comps,
        c1.overrides == c2.overrides,
        c1.defaults.dom() == c2.defaults.dom(),
        forall|k: u64| k != i && #[trigger] c1.defaults.contains_key(k)
            ==> c1.defaults[k] == c2.defaults[k],
    ensures
        provide_data(c1, i) == provide_data(c2, i),
        ids_spent(c1, i) == ids_spent(c2, i),
        provide_data(c1, i) == (match c1.overrides[i].recipe {
            Provider::Value(d) => Result::<u64, u64>::Ok(d),
            Provider::Fail(e) => Result::<u64, u64>::Err(e),
            Provider::FromComponent(j) => Result::<u64, u64>::Ok(c1.comps[j].data),
            Provider::FromProvider(j) => provide_data(c1, j),
        }),
{
    lemma_provide_skips_default(c1, c2, i, i);
}

/// The dependency chain that providing `i` walks never passes through
/// interface `x`.
pub open spec fn avoids(c: ContainerView, i: u64, x: u64) -> bool
    decreases i,
{
    i != x && (match effective(c, i) {
        Provider::FromProvider(j) => j < i ==> avoids(c, j, x),
        _ => true,
    })
}

/// Override scoping: registering a provider override for interface `x`
/// changes nothing about any other interface whose dependency chain does
/// not pass through `x` — and changes no singleton at all.
pub proof fn lemma_override_scoping(c: ContainerView, x: u64, b: ProviderBinding, j: u64)
    requires
        c.wf(),
        c.has_provider(j),
        avoids(c, j, x),
    ensures
        ({
            let c2 = ContainerView { overrides: c.overrides.insert(x, b), ..c };
            provide_data(c2, j) == provide_data(c, j) && ids_spent(c2, j) == ids_spent(c, j)
                && (forall|k: u64| handle_of(c2, k) == handle_of(c, k))
        }),
    decreases j,
{
    match effective(c, j) {
        Provider::FromProvider(k) => {
            if k < j {
                lemma_override_scoping(c, x, b, k);
            }
        }
        _ => {},
    }
}

/// Error transparency: when a provider's dependency fails, the provider
/// fails with the very same error value — each link of a recursive chain
/// forwards it unchanged, so it reaches the top-level caller untouched.
pub proof fn lemma_error_transparency(c: ContainerView, i: u64, j: u64, e: u64)
    requires
        effective(c, i) == Provider::FromProvider(j),
        j < i,
        provide_data(c, j) == Result::<u64, u64>::Err(e),
    ensures
        provide_data(c, i) == Result::<u64, u64>::Err(e),
{
}

} // verus!
