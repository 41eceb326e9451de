use faktor::address::Address;
use faktor::arena::Arena;
use faktor::state::Proof;

fn at(n: u8) -> Address {
    Address::from_bytes(vec![n, n + 1])
}

fn record(name: &str) -> Proof {
    Proof { name: name.to_string(), nonce: 0 }
}

#[test]
fn arena_starts_empty() {
    let arena: Arena<Proof> = Arena::new();
    assert!(!arena.contains(&at(1)));
    assert!(arena.get(&at(1)).is_none());
}

#[test]
fn address_is_allocated_once() {
    let mut arena: Arena<Proof> = Arena::new();
    assert!(arena.allocate(at(1), record("one")));
    assert!(arena.allocate(at(2), record("two")));
    assert!(!arena.allocate(at(1), record("other")));
    assert_eq!(arena.get(&at(1)).unwrap().name, "one");
    assert_eq!(arena.get(&at(2)).unwrap().name, "two");
    assert!(arena.contains(&at(2)));
    assert!(!arena.contains(&at(3)));
    assert!(!arena.contains(&Address::from_bytes(vec![1])));
}

#[test]
fn record_is_replaced_in_place() {
    let mut arena: Arena<Proof> = Arena::new();
    arena.allocate(at(1), record("one"));
    arena.allocate(at(2), record("two"));
    arena.replace(&at(1), record("uno"));
    assert_eq!(arena.get(&at(1)).unwrap().name, "uno");
    assert_eq!(arena.get(&at(2)).unwrap().name, "two");
    assert!(!arena.allocate(at(1), record("again")));
    assert_eq!(arena.get(&at(1)).unwrap().name, "uno");
}
