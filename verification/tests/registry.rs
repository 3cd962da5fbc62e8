use uikit::component::ComponentContext;
use uikit::service::ServiceContainer;

#[test]
fn fork_isolation() {
    let mut source = ServiceContainer::new();
    source.register(1, 10);
    source.register(2, 20);

    let mut fork = source.fork();
    // the fork agrees with the source as of fork time
    assert_eq!(fork.get(1), Some(10));
    assert_eq!(fork.get(2), Some(20));

    // a later registration on the source is invisible in the fork
    source.register(3, 30);
    assert_eq!(source.get(3), Some(30));
    assert_eq!(fork.get(3), None);

    // a registration on the fork is invisible in the source
    fork.register(4, 40);
    assert_eq!(fork.get(4), Some(40));
    assert_eq!(source.get(4), None);
}

#[test]
fn single_active_registration() {
    let mut registry = ServiceContainer::new();
    registry.register(7, 100);
    registry.register(7, 200);
    assert_eq!(registry.get(7), Some(200));
}

#[test]
fn lookup_miss_is_empty() {
    let registry = ServiceContainer::new();
    assert_eq!(registry.get(42), None);
}

#[test]
fn registry_tables() {
    let mut registry = ServiceContainer::new();
    registry.register(1, 10);
    assert_eq!(registry.services().len(), 1);
    registry.services_mut().insert(2, 20);
    assert_eq!(registry.get(2), Some(20));
}

#[test]
fn context_provide_inject() {
    let mut ctx = ComponentContext::new(5);
    assert_eq!(ctx.scope(), 5);
    assert_eq!(ctx.inject(1), None);
    ctx.provide(1, 10);
    assert_eq!(ctx.inject(1), Some(10));
    // a second registration under the same tag supersedes the first
    ctx.provide(1, 11);
    assert_eq!(ctx.inject(1), Some(11));
}

#[test]
fn child_context_snapshot() {
    let mut parent = ComponentContext::new(9);
    parent.provide(1, 10);

    let mut child = parent.create_child();
    assert_eq!(child.scope(), 9);
    assert_eq!(child.inject(1), Some(10));

    // after the fork, parent and child registries evolve apart
    parent.provide(2, 20);
    assert_eq!(child.inject(2), None);
    child.provide(3, 30);
    assert_eq!(parent.inject(3), None);
}
