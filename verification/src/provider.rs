//! Provider recipes and construction failures.
//!
//! A provider is a construction recipe, not an instance: every request
//! executes the recipe bound (or overridden) for the interface and yields
//! a brand-new instance, or a construction error that is forwarded to the
//! caller unchanged.

use vstd::prelude::*;

verus! {

/// A construction recipe for a transient service.
///
/// Recipes are interpreted by the container.  A recipe may depend on other
/// bindings of the same container: `FromComponent` reads the singleton
/// bound to another interface, and `FromProvider` runs another provider
/// recursively, so chains of providers (and failures several levels deep)
/// arise from chained bindings.
#[derive(Clone, Copy, Debug, PartialEq, Eq, Structural)]
pub enum Provider {
    /// Construct an instance carrying this payload.
    Value(u64),
    /// Fail with this construction error code.
    Fail(u64),
    /// Construct an instance carrying the current payload of the component
    /// bound to the given interface.
    FromComponent(u64),
    /// Run the provider bound to the given interface and construct an
    /// instance carrying the payload of the instance it produced; its
    /// failure is forwarded unchanged.
    FromProvider(u64),
}

/// The error a provider's construction routine failed with.
///
/// The container never wraps, retries or suppresses it: the code reaching
/// the caller is exactly the code the failing recipe produced.
#[derive(Clone, Copy, Debug, PartialEq, Eq, Structural)]
pub struct ConstructionError {
    /// The error value, forwarded unchanged from the point of failure.
    pub code: u64,
}

/// Whether a recipe's dependencies are satisfied by the given interface
/// families: a component dependency must be a bound component, and a
/// provider dependency must be a bound provider with a strictly smaller
/// interface tag, which is how the registry's build-time validation
/// rules out cyclic provider graphs.
pub open spec fn recipe_ok(components: Set<u64>, providers: Set<u64>, iface: u64, r: Provider) -> bool {
    match r {
        Provider::Value(_) => true,
        Provider::Fail(_) => true,
        Provider::FromComponent(j) => components.contains(j),
        Provider::FromProvider(j) => j < iface && providers.contains(j),
    }
}

} // verus!
