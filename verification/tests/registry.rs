use netreactor::registry::{ListenerEntry, ListenerRegistry, RegistryError};

#[test]
fn new_registry_is_empty() {
    let registry = ListenerRegistry::new();
    assert_eq!(registry.len(), 0);
    assert_eq!(registry.lookup(0), None);
    assert_eq!(registry.lookup(3), None);
}

#[test]
fn listeners_are_numbered_in_the_order_of_registration() {
    let mut registry = ListenerRegistry::new();
    assert_eq!(registry.insert(7), Ok(ListenerEntry { descriptor: 7, server: 0 }));
    assert_eq!(registry.insert(4), Ok(ListenerEntry { descriptor: 4, server: 1 }));
    assert_eq!(registry.insert(0), Ok(ListenerEntry { descriptor: 0, server: 2 }));
    assert_eq!(registry.len(), 3);
    assert_eq!(registry.lookup(7), Some(ListenerEntry { descriptor: 7, server: 0 }));
    assert_eq!(registry.lookup(4), Some(ListenerEntry { descriptor: 4, server: 1 }));
    assert_eq!(registry.lookup(0), Some(ListenerEntry { descriptor: 0, server: 2 }));
    assert_eq!(registry.lookup(5), None);
}

#[test]
fn descriptor_is_registered_once() {
    let mut registry = ListenerRegistry::new();
    assert_eq!(registry.insert(7), Ok(ListenerEntry { descriptor: 7, server: 0 }));
    assert_eq!(registry.insert(7), Err(RegistryError::AlreadyRegistered));
    assert_eq!(registry.len(), 1);
    assert_eq!(registry.lookup(7), Some(ListenerEntry { descriptor: 7, server: 0 }));
    assert_eq!(registry.insert(8), Ok(ListenerEntry { descriptor: 8, server: 1 }));
}

#[test]
fn negative_descriptor_is_refused() {
    let mut registry = ListenerRegistry::new();
    assert_eq!(registry.insert(-1), Err(RegistryError::InvalidDescriptor));
    assert_eq!(registry.insert(i32::MIN), Err(RegistryError::InvalidDescriptor));
    assert_eq!(registry.len(), 0);
    assert_eq!(registry.lookup(-1), None);
}

#[test]
fn many_listeners() {
    let mut registry = ListenerRegistry::new();
    for k in 0..200usize {
        let descriptor = 1000 - (k as i32) * 3;
        assert_eq!(registry.insert(descriptor), Ok(ListenerEntry { descriptor, server: k }));
    }
    assert_eq!(registry.len(), 200);
    for k in 0..200usize {
        let descriptor = 1000 - (k as i32) * 3;
        assert_eq!(registry.lookup(descriptor), Some(ListenerEntry { descriptor, server: k }));
        assert_eq!(registry.lookup(descriptor + 1), None);
    }
}
