//! Build-time overrides: precedence, scoping, replacement, and the
//! end-to-end scenario.

use shaku::Container;
use shaku::ContainerBuilder;
use shaku::Module;
use shaku::Provider;

const GREETER: u64 = 1;
const FORMATTER: u64 = 2;
const ARCHIVER: u64 = 3;

fn two_provider_module() -> Module {
    let mut m = Module::new();
    m.add_component(GREETER, 100);
    m.add_provider(FORMATTER, Provider::Value(55));
    m.add_provider(ARCHIVER, Provider::Value(66));
    m
}

#[test]
fn provider_override_takes_precedence() {
    let c0 = ContainerBuilder::new()
        .with_provider_override(FORMATTER, Provider::Value(700))
        .build(two_provider_module());
    let mut c = c0;
    // Every call during the container's lifetime runs the override, never
    // the default: the default's payload is nowhere to be seen.
    for _ in 0..5 {
        let s = c.provide(FORMATTER).unwrap();
        assert_eq!(s.data, 700);
    }
}

#[test]
fn provider_override_is_scoped_to_its_interface() {
    let c0 = ContainerBuilder::new()
        .with_provider_override(FORMATTER, Provider::Value(66))
        .build(two_provider_module());
    let mut c = c0;
    // ARCHIVER's own binding is structurally identical to the override's
    // value, yet its dispatch is untouched: exact-key matching only.
    let s = c.provide(ARCHIVER).unwrap();
    assert_eq!(s.data, 66);
    let f = c.provide(FORMATTER).unwrap();
    assert_eq!(f.data, 66);
    // And the component family is untouched by provider overrides.
    let h = c.resolve(GREETER);
    assert_eq!(h.data, 100);
    c.release(h);
}

#[test]
fn component_override_replaces_the_singleton() {
    let c0 = ContainerBuilder::new()
        .with_component_override(GREETER, 999)
        .build(two_provider_module());
    let mut c = c0;
    // The override instance took the singleton's place, with the same
    // sharing semantics.
    let h1 = c.resolve(GREETER);
    let h2 = c.resolve(GREETER);
    assert_eq!(h1.data, 999);
    assert_eq!(h1.id, h2.id);
    assert_eq!(*c.resolve_ref(GREETER), 999);
    c.release(h1);
    c.release(h2);
}

#[test]
fn later_override_replaces_earlier_one() {
    let c0 = ContainerBuilder::new()
        .with_provider_override(FORMATTER, Provider::Value(1))
        .with_provider_override(FORMATTER, Provider::Value(2))
        .build(two_provider_module());
    let mut c = c0;
    let s = c.provide(FORMATTER).unwrap();
    assert_eq!(s.data, 2);
}

#[test]
fn override_may_depend_on_other_bindings() {
    let c0 = ContainerBuilder::new()
        .with_provider_override(ARCHIVER, Provider::FromProvider(FORMATTER))
        .build(two_provider_module());
    let mut c = c0;
    let s = c.provide(ARCHIVER).unwrap();
    assert_eq!(s.data, 55);
}

#[test]
fn failing_override_forwards_the_injected_error() {
    let c0 = ContainerBuilder::new()
        .with_provider_override(FORMATTER, Provider::Fail(13))
        .build(two_provider_module());
    let mut c = c0;
    let r = c.provide(FORMATTER);
    assert_eq!(r.unwrap_err().code, 13);
}

#[test]
fn default_container_binds_nothing() {
    let c = Container::default();
    assert!(!c.has_component(GREETER));
    assert!(!c.has_provider(FORMATTER));
}

#[test]
fn override_may_read_a_singleton() {
    let c0 = ContainerBuilder::new()
        .with_provider_override(ARCHIVER, Provider::FromComponent(GREETER))
        .build(two_provider_module());
    let mut c = c0;
    let s = c.provide(ARCHIVER).unwrap();
    assert_eq!(s.data, 100);
    // The override tracks the singleton's current payload.
    assert_eq!(c.resolve_mut(GREETER, 250), Some(100));
    let s2 = c.provide(ARCHIVER).unwrap();
    assert_eq!(s2.data, 250);
}

#[test]
fn end_to_end_scenario() {
    // Bind Greeter to a component and Formatter to a provider; build with
    // no overrides.
    let mut module = Module::new();
    module.add_component(GREETER, 100);
    module.add_provider(FORMATTER, Provider::Value(55));
    let mut c = Container::new(module);

    // Two shared resolutions: the identical instance both times.
    let g1 = c.resolve(GREETER);
    let g2 = c.resolve(GREETER);
    assert_eq!(g1.id, g2.id);
    assert_eq!(g1.data, g2.data);

    // Two provisions: two distinct instances, both well formed per the
    // provider's construction logic.
    let f1 = c.provide(FORMATTER).unwrap();
    let f2 = c.provide(FORMATTER).unwrap();
    assert_ne!(f1.id, f2.id);
    assert_eq!(f1.data, 55);
    assert_eq!(f2.data, 55);
    c.release(g1);
    c.release(g2);

    // A second container overriding Formatter's provider with a factory
    // that always fails: the injected failure comes back unchanged.
    let mut module2 = Module::new();
    module2.add_component(GREETER, 100);
    module2.add_provider(FORMATTER, Provider::Value(55));
    let c2 = ContainerBuilder::new()
        .with_provider_override(FORMATTER, Provider::Fail(31))
        .build(module2);
    let mut c2 = c2;
    let r = c2.provide(FORMATTER);
    assert_eq!(r.unwrap_err().code, 31);
}
