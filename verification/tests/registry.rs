use new_swap::{Address, Registry};

fn addr(n: u8) -> Address {
    Address::new([n; 32])
}

#[test]
fn registry_starts_empty() {
    let r: Registry<Address, u64> = Registry::new();
    assert_eq!(r.get(&addr(1)), None);
    assert!(!r.contains(&addr(1)));
}

#[test]
fn registry_set_then_get() {
    let mut r: Registry<Address, u64> = Registry::new();
    r.set(addr(1), 10);
    r.set(addr(2), 20);
    assert_eq!(r.get(&addr(1)), Some(10));
    assert_eq!(r.get(&addr(2)), Some(20));
    assert_eq!(r.get(&addr(3)), None);
    assert!(r.contains(&addr(2)));
}

#[test]
fn registry_set_replaces() {
    let mut r: Registry<Address, u64> = Registry::new();
    r.set(addr(1), 10);
    r.set(addr(2), 20);
    r.set(addr(1), 11);
    assert_eq!(r.get(&addr(1)), Some(11));
    assert_eq!(r.get(&addr(2)), Some(20));
    assert_eq!(r.remove(&addr(1)), Some(11));
    assert_eq!(r.get(&addr(1)), None);
}

#[test]
fn registry_remove_returns_value_once() {
    let mut r: Registry<Address, u64> = Registry::new();
    r.set(addr(1), 10);
    r.set(addr(2), 20);
    r.set(addr(3), 30);
    assert_eq!(r.remove(&addr(2)), Some(20));
    assert_eq!(r.remove(&addr(2)), None);
    assert_eq!(r.get(&addr(1)), Some(10));
    assert_eq!(r.get(&addr(3)), Some(30));
}

#[test]
fn registry_duplicate_is_independent() {
    let mut r: Registry<Address, u64> = Registry::new();
    r.set(addr(1), 10);
    let mut copy = r.duplicate();
    copy.set(addr(1), 99);
    copy.set(addr(2), 5);
    assert_eq!(r.get(&addr(1)), Some(10));
    assert_eq!(r.get(&addr(2)), None);
    assert_eq!(copy.get(&addr(1)), Some(99));
}

#[test]
fn registry_keys_differ_in_one_byte() {
    let mut a = [0u8; 32];
    let mut b = [0u8; 32];
    a[31] = 1;
    b[31] = 2;
    let mut r: Registry<Address, u64> = Registry::new();
    r.set(Address::new(a), 1);
    r.set(Address::new(b), 2);
    assert_eq!(r.get(&Address::new(a)), Some(1));
    assert_eq!(r.get(&Address::new(b)), Some(2));
}

#[test]
fn address_reads_from_a_slice_at_an_offset() {
    let mut source = [0u8; 40];
    for (i, b) in source.iter_mut().enumerate() {
        *b = i as u8;
    }
    let a = Address::from_slice(&source, 8).unwrap();
    assert_eq!(a.bytes[0], 8);
    assert_eq!(a.bytes[31], 39);
    assert_eq!(a.to_vec(), source[8..40].to_vec());
    assert_eq!(Address::from_slice(&source, 0).unwrap().to_vec(), source[0..32].to_vec());
    assert_eq!(Address::from_slice(&source, 9), None);
    assert_eq!(Address::from_slice(&source, usize::MAX), None);
    assert_eq!(Address::from_slice(&source[0..31], 0), None);
}
