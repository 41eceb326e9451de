//! The namespaces under which the ledger keeps its indexes.

use vstd::prelude::*;
use vstd::string::*;
use anchor_lang::prelude::Pubkey;
use crate::address::Identity;
use crate::decimal::{decimal, decimal_text};
use crate::state::Role;

verus! {

/// The text of a 32-byte key in base 58, as `Pubkey` writes itself.
pub uninterp spec fn base58(key: Seq<u8>) -> Seq<char>;

/// Calls `Pubkey::new_from_array` and then `to_string`, which goes through
/// `Pubkey`'s `Display`: the key's 32 bytes written in base 58. The text
/// depends on the bytes alone; the contract gives it the name `base58` and
/// claims nothing else of it.
#[verifier::external_body]
fn key_text(key: &[u8; 32]) -> (text: String)
    ensures
        text@ == base58(key@),
{
    Pubkey::new_from_array(*key).to_string()
}

/// What opens the namespace of the payments in which a party has a role.
pub open spec fn spec_role_prefix(role: Role) -> Seq<char> {
    match role {
        Role::Creditor => "faktor.payments.creditor."@,
        Role::Debtor => "faktor.payments.debtor."@,
    }
}

/// The namespace of the payments in which the party written `party_text` has `role`.
pub open spec fn spec_payment_index_namespace(party_text: Seq<char>, role: Role) -> Seq<char> {
    spec_role_prefix(role) + party_text
}

/// The namespace of the tasks to process at `process_at`.
pub open spec fn spec_task_index_namespace(process_at: u64) -> Seq<char> {
    "faktor.tasks."@ + decimal(process_at as nat)
}

/// The namespace of the payments in which the party written `party_text` has `role`.
pub fn namespace_of_party(party_text: &str, role: Role) -> (namespace: String)
    ensures
        namespace@ == spec_payment_index_namespace(party_text@, role),
{
    let mut namespace = match role {
        Role::Creditor => String::from_str("faktor.payments.creditor."),
        Role::Debtor => String::from_str("faktor.payments.debtor."),
    };
    namespace.append(party_text);
    namespace
}

/// The namespace of the payments in which `party` has `role`: one for each
/// party and role.
pub fn payment_index_namespace(party: &Identity, role: Role) -> (namespace: String)
    ensures
        namespace@ == spec_payment_index_namespace(base58(party@), role),
{
    let text = key_text(&party.key);
    namespace_of_party(text.as_str(), role)
}

/// The namespace of the tasks to process at `process_at`.
pub fn task_index_namespace(process_at: u64) -> (namespace: String)
    ensures
        namespace@ == spec_task_index_namespace(process_at),
{
    let mut namespace = String::from_str("faktor.tasks.");
    let numeral = decimal_text(process_at as u128);
    namespace.append(numeral.as_str());
    namespace
}

/// The namespaces of a creditor's payments, of a debtor's payments and of a
/// time bucket's tasks are three different texts, whoever the parties are.
pub proof fn lemma_namespaces_differ(creditor_text: Seq<char>, debtor_text: Seq<char>, process_at: u64)
    ensures
        spec_payment_index_namespace(creditor_text, Role::Creditor)
            != spec_payment_index_namespace(debtor_text, Role::Debtor),
        spec_payment_index_namespace(creditor_text, Role::Creditor) != spec_task_index_namespace(
            process_at,
        ),
        spec_payment_index_namespace(debtor_text, Role::Debtor) != spec_task_index_namespace(
            process_at,
        ),
{
    reveal_strlit("faktor.payments.creditor.");
    reveal_strlit("faktor.payments.debtor.");
    reveal_strlit("faktor.tasks.");
    let c = spec_payment_index_namespace(creditor_text, Role::Creditor);
    let d = spec_payment_index_namespace(debtor_text, Role::Debtor);
    let t = spec_task_index_namespace(process_at);
    assert(c[16] == 'c');
    assert(d[16] == 'd');
    assert(c[7] == 'p');
    assert(d[7] == 'p');
    assert(t[7] == 't');
}

} // verus!
