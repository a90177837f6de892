use anchor_contracts::address::Address;
use anchor_contracts::security_registry::{RegistryError, SecurityRegistry};

fn addr(n: u8) -> Address {
    Address::from_bytes(vec![0, 0, 0, 18, 0, 0, 0, 1, n])
}

#[test]
fn test_security_registry() {
    let mut client = SecurityRegistry::new();
    let admin = addr(1);
    client.initialize(addr(1)).unwrap();
    assert_eq!(client.is_paused(), false);
    assert!(client.get_admin().unwrap().same(&admin));
    client.set_paused(true).unwrap();
    assert_eq!(client.is_paused(), true);
    let new_admin = addr(2);
    client.transfer_admin(addr(2)).unwrap();
    assert!(client.get_admin().unwrap().same(&new_admin));
}

#[test]
fn test_uninitialized() {
    let mut client = SecurityRegistry::new();
    assert_eq!(client.is_paused(), false);
    assert_eq!(client.get_admin().err(), Some(RegistryError::NotInitialized));
    assert_eq!(client.set_paused(true), Err(RegistryError::NotInitialized));
    assert_eq!(client.transfer_admin(addr(3)), Err(RegistryError::NotInitialized));
    assert_eq!(client.is_paused(), false);
}

#[test]
fn registry_initializes_once() {
    let mut client = SecurityRegistry::new();
    client.initialize(addr(1)).unwrap();
    assert_eq!(client.initialize(addr(2)), Err(RegistryError::AlreadyInitialized));
    assert!(client.get_admin().unwrap().same(&addr(1)));
}
