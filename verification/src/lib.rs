//! A dependency-injection resolution core.
//!
//! A [`Module`] is a closed set of interface-to-implementation bindings,
//! fixed before any resolution happens: singleton components and
//! transient providers, with the two families disjoint.  A [`Container`],
//! produced by a [`ContainerBuilder`] (which may register build-time
//! overrides) or by [`Container::new`], resolves services against those
//! bindings: each component is constructed once and shared through
//! counted handles, while every provider request constructs a brand-new
//! instance or forwards its construction error unchanged.
//!
//! The laws the resolution operations obey — singleton identity,
//! transient non-identity, exclusive-mutation exclusivity, override
//! precedence and scoping, and error transparency — are stated and
//! proved in [`laws`].

pub mod builder;
pub mod container;
pub mod keyed;
pub mod laws;
pub mod module;
pub mod provider;

pub use builder::ContainerBuilder;
pub use container::Container;
pub use container::Service;
pub use container::SharedHandle;
pub use module::Module;
pub use provider::ConstructionError;
pub use provider::Provider;
