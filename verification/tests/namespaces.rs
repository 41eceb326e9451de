use faktor::address::Identity;
use faktor::namespace::{namespace_of_party, payment_index_namespace, task_index_namespace};
use faktor::state::Role;

#[test]
fn task_namespace_ends_in_the_decimal_time() {
    assert_eq!(task_index_namespace(1_700_000_040), "faktor.tasks.1700000040");
    assert_eq!(task_index_namespace(0), "faktor.tasks.0");
    assert_eq!(task_index_namespace(u64::MAX), "faktor.tasks.18446744073709551615");
}

#[test]
fn payment_namespace_names_role_and_party() {
    assert_eq!(namespace_of_party("alice", Role::Creditor), "faktor.payments.creditor.alice");
    assert_eq!(namespace_of_party("bob", Role::Debtor), "faktor.payments.debtor.bob");
}

#[test]
fn party_is_written_in_base_58() {
    let zero = Identity { key: [0u8; 32] };
    assert_eq!(
        payment_index_namespace(&zero, Role::Creditor),
        "faktor.payments.creditor.11111111111111111111111111111111"
    );
    let mut key = [0u8; 32];
    key[31] = 1;
    let one = Identity { key };
    assert_eq!(
        payment_index_namespace(&one, Role::Debtor),
        "faktor.payments.debtor.11111111111111111111111111111112"
    );
}
