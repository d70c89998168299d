//! Resolution behaviour of a container built without overrides.

use shaku::Container;
use shaku::Module;
use shaku::Provider;

const GREETER: u64 = 1;
const FORMATTER: u64 = 2;

fn sample_module() -> Module {
    let mut m = Module::new();
    m.add_component(GREETER, 100);
    m.add_provider(FORMATTER, Provider::Value(55));
    m
}

#[test]
fn membership_checks() {
    let m = sample_module();
    assert!(m.has_component(GREETER));
    assert!(!m.has_component(FORMATTER));
    assert!(m.has_provider(FORMATTER));
    assert!(!m.has_provider(GREETER));
    let c = Container::new(m);
    assert!(c.has_component(GREETER));
    assert!(!c.has_component(FORMATTER));
    assert!(c.has_provider(FORMATTER));
    assert!(!c.has_provider(GREETER));
    assert!(!c.has_component(999));
    assert!(!c.has_provider(999));
}

#[test]
fn registry_hands_out_default_recipes() {
    let m = sample_module();
    assert_eq!(m.provider_recipe(FORMATTER), Some(Provider::Value(55)));
    assert_eq!(m.provider_recipe(GREETER), None);
    assert_eq!(m.provider_recipe(999), None);
}

#[test]
fn empty_module_binds_nothing() {
    let m = Module::new();
    assert!(!m.has_component(GREETER));
    assert!(!m.has_provider(FORMATTER));
    let c = Container::new(m);
    assert!(!c.has_component(GREETER));
    assert!(!c.has_provider(FORMATTER));
}

#[test]
fn singleton_identity_across_calls() {
    let mut c = Container::new(sample_module());
    let h1 = c.resolve(GREETER);
    let h2 = c.resolve(GREETER);
    let h3 = c.resolve(GREETER);
    assert_eq!(h1.id, h2.id);
    assert_eq!(h2.id, h3.id);
    assert_eq!(h1.data, 100);
    assert_eq!(h2.data, 100);
    assert_eq!(h1.iface, GREETER);
    c.release(h1);
    c.release(h2);
    c.release(h3);
    // Identity survives release and re-resolution.
    let h4 = c.resolve(GREETER);
    assert_eq!(h4.id, 0);
    c.release(h4);
}

#[test]
fn resolve_ref_reads_current_payload() {
    let mut c = Container::new(sample_module());
    assert_eq!(*c.resolve_ref(GREETER), 100);
    let prev = c.resolve_mut(GREETER, 123);
    assert_eq!(prev, Some(100));
    assert_eq!(*c.resolve_ref(GREETER), 123);
}

#[test]
fn transient_instances_are_distinct() {
    let mut c = Container::new(sample_module());
    let s1 = c.provide(FORMATTER).unwrap();
    let s2 = c.provide(FORMATTER).unwrap();
    let s3 = c.provide(FORMATTER).unwrap();
    assert_eq!(s1.data, 55);
    assert_eq!(s2.data, 55);
    assert_eq!(s3.data, 55);
    assert_eq!(s1.iface, FORMATTER);
    assert_ne!(s1.id, s2.id);
    assert_ne!(s2.id, s3.id);
    assert_ne!(s1.id, s3.id);
}

#[test]
fn provided_instances_never_collide_with_singletons() {
    let mut c = Container::new(sample_module());
    let h = c.resolve(GREETER);
    let s = c.provide(FORMATTER).unwrap();
    assert_ne!(s.id, h.id);
    c.release(h);
}

#[test]
fn exclusive_mutation_requires_sole_ownership() {
    let mut c = Container::new(sample_module());
    let h1 = c.resolve(GREETER);
    let h2 = c.resolve(GREETER);
    // Two shared handles outstanding: mutation refused.
    assert_eq!(c.resolve_mut(GREETER, 7), None);
    c.release(h1);
    // One still outstanding: still refused.
    assert_eq!(c.resolve_mut(GREETER, 7), None);
    assert_eq!(*c.resolve_ref(GREETER), 100);
    c.release(h2);
    // All handles dropped: the same call succeeds.
    assert_eq!(c.resolve_mut(GREETER, 7), Some(100));
    assert_eq!(*c.resolve_ref(GREETER), 7);
    // The singleton kept its identity through the mutation.
    let h3 = c.resolve(GREETER);
    assert_eq!(h3.id, 0);
    assert_eq!(h3.data, 7);
    c.release(h3);
}

#[test]
fn provider_reads_component_payload() {
    let mut m = Module::new();
    m.add_component(GREETER, 100);
    m.add_provider(FORMATTER, Provider::FromComponent(GREETER));
    let mut c = Container::new(m);
    let s1 = c.provide(FORMATTER).unwrap();
    assert_eq!(s1.data, 100);
    // A later request sees the singleton's current payload.
    assert_eq!(c.resolve_mut(GREETER, 41), Some(100));
    let s2 = c.provide(FORMATTER).unwrap();
    assert_eq!(s2.data, 41);
    assert_ne!(s1.id, s2.id);
}

#[test]
fn provider_chain_passes_payload_through() {
    let mut m = Module::new();
    m.add_provider(2, Provider::Value(9));
    m.add_provider(5, Provider::FromProvider(2));
    m.add_provider(8, Provider::FromProvider(5));
    let mut c = Container::new(m);
    let s = c.provide(8).unwrap();
    assert_eq!(s.data, 9);
    assert_eq!(s.iface, 8);
    // The chain constructed an instance per link: three stamps consumed.
    let s2 = c.provide(2).unwrap();
    assert_eq!(s2.id, 3);
}

#[test]
fn failing_provider_reports_its_error() {
    let mut m = Module::new();
    m.add_provider(FORMATTER, Provider::Fail(77));
    let mut c = Container::new(m);
    let r = c.provide(FORMATTER);
    assert_eq!(r.unwrap_err().code, 77);
}

#[test]
fn error_is_forwarded_unchanged_through_deep_chain() {
    let mut m = Module::new();
    m.add_provider(1, Provider::Fail(42));
    m.add_provider(3, Provider::FromProvider(1));
    m.add_provider(6, Provider::FromProvider(3));
    m.add_provider(9, Provider::FromProvider(6));
    let mut c = Container::new(m);
    let r = c.provide(9);
    assert_eq!(r.unwrap_err().code, 42);
    // A failed provision poisons nothing: the container still works.
    let r2 = c.provide(9);
    assert_eq!(r2.unwrap_err().code, 42);
}
