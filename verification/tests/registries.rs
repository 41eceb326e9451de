use faktor::address::Address;
use faktor::errors::ErrorCode;
use faktor::registry::{index_address, pointer_address, proof_address, Registry};

fn party(n: u8) -> Address {
    Address::from_bytes(vec![n; 32])
}

fn text(s: &str) -> Vec<u8> {
    s.as_bytes().to_vec()
}

fn code<T>(r: Result<T, ErrorCode>) -> Option<ErrorCode> {
    r.err()
}

#[test]
fn it_works() {
    assert_eq!(2 + 2, 4);
    let mut registry = Registry::new();
    let owner = party(1);
    let index = registry.create_index(&owner, &text("abc"), true, 0).unwrap();
    let record = registry.index_at(&index).unwrap();
    assert_eq!(record.owner.bytes, owner.bytes);
    assert_eq!(record.namespace, text("abc"));
    assert_eq!(record.count, 0);
    assert!(record.is_serial);
    assert_eq!(record.nonce, 0);
}

#[test]
fn index_is_created_once() {
    let mut registry = Registry::new();
    let owner = party(1);
    let first = registry.create_index(&owner, &text("books"), false, 0).unwrap();
    assert!(first.same(&index_address(&owner, &text("books")).0));
    assert_eq!(
        code(registry.create_index(&owner, &text("books"), false, 0)),
        Some(ErrorCode::AddressAlreadyAllocated)
    );
    assert_eq!(
        code(registry.create_index(&owner, &text("books"), true, 1)),
        Some(ErrorCode::AddressAlreadyAllocated)
    );
    let record = registry.index_at(&first).unwrap();
    assert!(!record.is_serial);
    assert_eq!(record.nonce, 0);
}

#[test]
fn distinct_pairs_get_distinct_indexes() {
    let mut registry = Registry::new();
    let a = registry.create_index(&party(1), &text("books"), false, 0).unwrap();
    let b = registry.create_index(&party(2), &text("books"), false, 0).unwrap();
    let c = registry.create_index(&party(1), &text("films"), false, 0).unwrap();
    let d = registry.create_index(&party(1), &party(9).bytes, false, 0).unwrap();
    assert!(!a.same(&b));
    assert!(!a.same(&c));
    assert!(!b.same(&c));
    assert!(!d.same(&a));
    assert!(registry.index_at(&a).is_some());
    assert!(registry.index_at(&b).is_some());
    assert!(registry.index_at(&c).is_some());
    assert!(registry.index_at(&d).is_some());
    assert!(registry.index_at(&party(1)).is_none());
}

#[test]
fn serial_index_takes_its_count_only() {
    let mut registry = Registry::new();
    let owner = party(1);
    let index = registry.create_index(&owner, &text("log"), true, 0).unwrap();
    for n in 0u8..12 {
        let name = n.to_string();
        let wrong = (n + 1).to_string();
        assert_eq!(
            code(registry.create_pointer(&index, &owner, wrong, party(100 + n), 0, 0)),
            Some(ErrorCode::SerialNameMismatch)
        );
        assert_eq!(registry.index_at(&index).unwrap().count, n as u128);
        registry.create_pointer(&index, &owner, name.clone(), party(100 + n), 0, 0).unwrap();
        assert_eq!(registry.index_at(&index).unwrap().count, n as u128 + 1);
        assert_eq!(
            code(registry.create_pointer(&index, &owner, name, party(200), 0, 0)),
            Some(ErrorCode::SerialNameMismatch)
        );
    }
    assert_eq!(registry.lookup(&index, "11").unwrap().value.bytes, party(111).bytes);
    assert!(registry.lookup(&index, "12").is_none());
}

#[test]
fn serial_index_refuses_names_that_are_not_numerals_of_the_count() {
    let mut registry = Registry::new();
    let owner = party(1);
    let index = registry.create_index(&owner, &text("log"), true, 0).unwrap();
    for bad in ["", "00", "1", " 0", "0 ", "zero", "+0"] {
        assert_eq!(
            code(registry.create_pointer(&index, &owner, bad.to_string(), party(5), 0, 0)),
            Some(ErrorCode::SerialNameMismatch)
        );
    }
    assert_eq!(registry.index_at(&index).unwrap().count, 0);
    assert!(!registry.holds(&index, &party(5)));
}

#[test]
fn freeform_index_takes_any_new_name() {
    let mut registry = Registry::new();
    let owner = party(1);
    let index = registry.create_index(&owner, &text("shelf"), false, 0).unwrap();
    let names = ["moby dick", "", "7", "0", "caf\u{e9}", "a/b"];
    for (i, name) in names.iter().enumerate() {
        let (pointer, _) = registry
            .create_pointer(&index, &owner, name.to_string(), party(10 + i as u8), 0, 0)
            .unwrap();
        assert!(pointer.same(&pointer_address(&index, name).0));
        assert_eq!(registry.index_at(&index).unwrap().count, i as u128 + 1);
    }
    let found = registry.lookup(&index, "caf\u{e9}").unwrap();
    assert_eq!(found.name, "caf\u{e9}");
    assert_eq!(found.value.bytes, party(14).bytes);
    assert_eq!(found.nonce, 0);
}

#[test]
fn repeated_name_is_refused() {
    let mut registry = Registry::new();
    let owner = party(1);
    let index = registry.create_index(&owner, &text("shelf"), false, 0).unwrap();
    registry.create_pointer(&index, &owner, "dune".to_string(), party(10), 0, 0).unwrap();
    assert_eq!(
        code(registry.create_pointer(&index, &owner, "dune".to_string(), party(11), 0, 0)),
        Some(ErrorCode::DuplicatePointerName)
    );
    assert_eq!(
        code(registry.create_pointer(&index, &owner, "dune".to_string(), party(10), 0, 0)),
        Some(ErrorCode::DuplicatePointerName)
    );
    assert_eq!(registry.index_at(&index).unwrap().count, 1);
    assert!(!registry.holds(&index, &party(11)));
    assert_eq!(registry.lookup(&index, "dune").unwrap().value.bytes, party(10).bytes);
}

#[test]
fn same_name_in_another_index_is_another_pointer() {
    let mut registry = Registry::new();
    let owner = party(1);
    let a = registry.create_index(&owner, &text("a"), false, 0).unwrap();
    let b = registry.create_index(&owner, &text("b"), false, 0).unwrap();
    registry.create_pointer(&a, &owner, "x".to_string(), party(10), 0, 0).unwrap();
    registry.create_pointer(&b, &owner, "x".to_string(), party(10), 0, 0).unwrap();
    assert_eq!(registry.index_at(&a).unwrap().count, 1);
    assert_eq!(registry.index_at(&b).unwrap().count, 1);
}

#[test]
fn value_is_held_once() {
    let mut registry = Registry::new();
    let owner = party(1);
    let index = registry.create_index(&owner, &text("shelf"), false, 0).unwrap();
    registry.create_pointer(&index, &owner, "dune".to_string(), party(10), 0, 0).unwrap();
    assert_eq!(
        code(registry.create_pointer(&index, &owner, "arrakis".to_string(), party(10), 0, 0)),
        Some(ErrorCode::AddressAlreadyAllocated)
    );
    assert!(registry.lookup(&index, "arrakis").is_none());
    assert_eq!(registry.index_at(&index).unwrap().count, 1);
}

#[test]
fn only_the_owner_adds() {
    let mut registry = Registry::new();
    let owner = party(1);
    let index = registry.create_index(&owner, &text("shelf"), false, 0).unwrap();
    assert_eq!(
        code(registry.create_pointer(&index, &party(2), "dune".to_string(), party(10), 0, 0)),
        Some(ErrorCode::NotIndexOwner)
    );
    assert_eq!(registry.index_at(&index).unwrap().count, 0);
    assert!(registry.lookup(&index, "dune").is_none());
    assert!(!registry.holds(&index, &party(10)));
}

#[test]
fn owner_is_checked_before_the_name() {
    let mut registry = Registry::new();
    let owner = party(1);
    let index = registry.create_index(&owner, &text("log"), true, 0).unwrap();
    assert_eq!(
        code(registry.create_pointer(&index, &party(2), "5".to_string(), party(10), 0, 0)),
        Some(ErrorCode::NotIndexOwner)
    );
}

#[test]
fn pointer_needs_its_index() {
    let mut registry = Registry::new();
    let nowhere = index_address(&party(1), &text("none")).0;
    assert_eq!(
        code(registry.create_pointer(&nowhere, &party(1), "0".to_string(), party(10), 0, 0)),
        Some(ErrorCode::AccountNotFound)
    );
    assert_eq!(
        registry.check_pointer(&nowhere, &party(1), "0", &party(10), 0, 0),
        Some(ErrorCode::AccountNotFound)
    );
}

#[test]
fn proof_stands_for_the_value_whatever_the_name() {
    let mut registry = Registry::new();
    let owner = party(1);
    let index = registry.create_index(&owner, &text("shelf"), false, 0).unwrap();
    let (_, proof) =
        registry.create_pointer(&index, &owner, "dune".to_string(), party(10), 0, 0).unwrap();
    assert!(proof.same(&proof_address(&index, &party(10)).0));
    assert!(registry.holds(&index, &party(10)));
    let record = registry.proof_at(&proof).unwrap();
    assert_eq!(record.name, "dune");
    assert_eq!(record.nonce, 0);
    let pointer = registry.pointer_at(&pointer_address(&index, "dune").0).unwrap();
    assert_eq!(pointer.nonce, 0);
    assert_eq!(pointer.name, "dune");
}

#[test]
fn no_proof_for_a_value_never_added() {
    let mut registry = Registry::new();
    let owner = party(1);
    let index = registry.create_index(&owner, &text("shelf"), false, 0).unwrap();
    let other = registry.create_index(&owner, &text("attic"), false, 0).unwrap();
    assert!(!registry.holds(&index, &party(10)));
    registry.create_pointer(&index, &owner, "dune".to_string(), party(10), 0, 0).unwrap();
    assert!(registry.holds(&index, &party(10)));
    assert!(!registry.holds(&index, &party(11)));
    assert!(!registry.holds(&other, &party(10)));
    assert!(registry.proof_at(&proof_address(&index, &party(11)).0).is_none());
}

#[test]
fn check_tells_what_create_would_do() {
    let mut registry = Registry::new();
    let owner = party(1);
    let index = registry.create_index(&owner, &text("log"), true, 0).unwrap();
    assert_eq!(registry.check_pointer(&index, &owner, "0", &party(10), 0, 0), None);
    assert_eq!(
        registry.check_pointer(&index, &owner, "1", &party(10), 0, 0),
        Some(ErrorCode::SerialNameMismatch)
    );
    assert_eq!(
        registry.check_pointer(&index, &party(3), "0", &party(10), 0, 0),
        Some(ErrorCode::NotIndexOwner)
    );
    assert_eq!(registry.index_at(&index).unwrap().count, 0);
    registry.create_pointer(&index, &owner, "0".to_string(), party(10), 0, 0).unwrap();
    assert_eq!(
        registry.check_pointer(&index, &owner, "1", &party(10), 0, 0),
        Some(ErrorCode::AddressAlreadyAllocated)
    );
}

#[test]
fn nonce_must_be_that_of_the_address() {
    let mut registry = Registry::new();
    let owner = party(1);
    let (address, nonce) = index_address(&owner, &text("shelf"));
    assert_eq!(
        code(registry.create_index(&owner, &text("shelf"), false, nonce + 1)),
        Some(ErrorCode::InvalidDerivation)
    );
    assert!(registry.index_at(&address).is_none());
    let index = registry.create_index(&owner, &text("shelf"), false, nonce).unwrap();
    assert!(index.same(&address));

    let pointer_nonce = pointer_address(&index, "dune").1;
    let proof_nonce = proof_address(&index, &party(10)).1;
    assert_eq!(
        code(registry.create_pointer(
            &index,
            &owner,
            "dune".to_string(),
            party(10),
            pointer_nonce + 1,
            proof_nonce
        )),
        Some(ErrorCode::InvalidDerivation)
    );
    assert_eq!(
        code(registry.create_pointer(
            &index,
            &owner,
            "dune".to_string(),
            party(10),
            pointer_nonce,
            proof_nonce + 1
        )),
        Some(ErrorCode::InvalidDerivation)
    );
    assert_eq!(registry.index_at(&index).unwrap().count, 0);
    assert!(!registry.holds(&index, &party(10)));
    registry
        .create_pointer(&index, &owner, "dune".to_string(), party(10), pointer_nonce, proof_nonce)
        .unwrap();
    assert!(registry.holds(&index, &party(10)));
}

#[test]
fn taken_address_is_told_before_a_wrong_nonce() {
    let mut registry = Registry::new();
    let owner = party(1);
    registry.create_index(&owner, &text("shelf"), false, 0).unwrap();
    assert_eq!(
        code(registry.create_index(&owner, &text("shelf"), false, 200)),
        Some(ErrorCode::AddressAlreadyAllocated)
    );
}

#[test]
fn index_with_a_key_like_address_gets_a_nonce() {
    // owner and namespace of 15 bytes in all derive 32 bytes
    let mut registry = Registry::new();
    let mut seen = [false, false];
    for n in 0u8..40 {
        let owner = Address::from_bytes(vec![n; 8]);
        let namespace = vec![n; 7];
        let (address, nonce) = index_address(&owner, &namespace);
        assert_eq!(address.bytes.len(), 32 + nonce as usize);
        assert!(nonce <= 1);
        seen[nonce as usize] = true;
        assert_eq!(
            code(registry.create_index(&owner, &namespace, false, 1 - nonce)),
            Some(ErrorCode::InvalidDerivation)
        );
        let created = registry.create_index(&owner, &namespace, false, nonce).unwrap();
        assert!(created.same(&address));
        assert_eq!(registry.index_at(&address).unwrap().nonce, nonce);
    }
    assert!(seen[0] && seen[1]);
}
