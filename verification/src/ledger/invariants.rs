//! How the records of the ledger fit together, and that every operation
//! keeps them so.

use vstd::prelude::*;
use vstd::utf8::*;
use crate::address::{
    SeedTag, all_framable, framable, lemma_address_injective, lemma_address_opens_with_tag,
};
use crate::ledger::{spec_authority_address, spec_payment_address, spec_task_address};
use crate::ledger::model::{LedgerView, PaymentIndexes, PaymentOrder};
use crate::registry::{name_framable, spec_pointer_address, spec_proof_address};
use crate::registry::invariants::{
    lemma_index_keeps_sound, lemma_numeral_framable, lemma_pointer_elsewhere,
    lemma_pointer_keeps_sound,
};
use crate::token::{TokenAccountView, WalletView};

verus! {

/// Two payments with one address have one debtor and one id.
pub proof fn lemma_payment_address_injective(
    d1: Seq<u8>,
    i1: Seq<char>,
    d2: Seq<u8>,
    i2: Seq<char>,
)
    requires
        framable(d1),
        name_framable(i1),
        framable(d2),
        name_framable(i2),
        spec_payment_address(d1, i1) == spec_payment_address(d2, i2),
    ensures
        d1 == d2,
        i1 == i2,
{
    let first = seq![d1, encode_utf8(i1)];
    let second = seq![d2, encode_utf8(i2)];
    assert(all_framable(first));
    assert(all_framable(second));
    lemma_address_injective(SeedTag::Payment, first, SeedTag::Payment, second);
    assert(first[0] == second[0]);
    assert(first[1] == second[1]);
    encode_utf8_decode_utf8(i1);
    encode_utf8_decode_utf8(i2);
}

/// Two tasks with one address are filed in one index under one id.
pub proof fn lemma_task_address_injective(
    t1: Seq<u8>,
    i1: Seq<char>,
    t2: Seq<u8>,
    i2: Seq<char>,
)
    requires
        framable(t1),
        name_framable(i1),
        framable(t2),
        name_framable(i2),
        spec_task_address(t1, i1) == spec_task_address(t2, i2),
    ensures
        t1 == t2,
        i1 == i2,
{
    let first = seq![t1, encode_utf8(i1)];
    let second = seq![t2, encode_utf8(i2)];
    assert(all_framable(first));
    assert(all_framable(second));
    lemma_address_injective(SeedTag::Task, first, SeedTag::Task, second);
    assert(first[0] == second[0]);
    assert(first[1] == second[1]);
    encode_utf8_decode_utf8(i1);
    encode_utf8_decode_utf8(i2);
}

/// A new index of the ledger's own keeps the records fitting together.
pub proof fn lemma_own_index_keeps_sound(s: LedgerView, namespace: Seq<char>, nonce: u8)
    requires
        s.sound(),
        name_framable(namespace),
        s.registry.create_index(spec_authority_address(), encode_utf8(namespace), true, nonce) is Ok,
    ensures
        (LedgerView {
            registry: s.registry.create_index(
                spec_authority_address(),
                encode_utf8(namespace),
                true,
                nonce,
            )->Ok_0,
            ..s
        }).sound(),
{
    let owner = spec_authority_address();
    assert(owner.len() == 1);
    lemma_index_keeps_sound(s.registry, owner, encode_utf8(namespace), true, nonce);
    let next = LedgerView {
        registry: s.registry.create_index(owner, encode_utf8(namespace), true, nonce)->Ok_0,
        ..s
    };
    assert forall|index: Seq<u8>, name: Seq<char>| #[trigger]
        next.registry.has_name(index, name) implies next.on_record(
        next.registry.pointers[spec_pointer_address(index, name)].value,
    ) by {
        assert(s.registry.has_name(index, name));
    }
}

/// A created payment keeps the records fitting together.
pub proof fn lemma_payment_keeps_sound(
    s: LedgerView,
    indexes: PaymentIndexes,
    debtor: WalletView,
    debtor_tokens: TokenAccountView,
    creditor_tokens: TokenAccountView,
    order: PaymentOrder,
)
    requires
        s.sound(),
        framable(indexes.creditor),
        framable(indexes.debtor),
        framable(indexes.task),
        framable(debtor.identity),
        framable(s.next_payment(indexes, debtor.identity)),
        framable(s.next_task(indexes)),
        s.create_payment_in(indexes, debtor, debtor_tokens, creditor_tokens, order) is Ok,
    ensures
        s.create_payment_in(
            indexes,
            debtor,
            debtor_tokens,
            creditor_tokens,
            order,
        )->Ok_0.ledger.sound(),
{
    let done = s.with_payment(indexes, debtor, debtor_tokens, creditor_tokens, order);
    let next = done.ledger;
    let payment = s.next_payment(indexes, debtor.identity);
    let task = s.next_task(indexes);
    let owner = spec_authority_address();
    let nonces = order.nonces;
    let creditor_name = s.next_name(indexes.creditor);
    let debtor_name = s.next_name(indexes.debtor);
    let task_name = s.next_name(indexes.task);
    lemma_numeral_framable(s.registry.indexes[indexes.creditor].count);
    lemma_numeral_framable(s.registry.indexes[indexes.debtor].count);
    lemma_numeral_framable(s.registry.indexes[indexes.task].count);
    lemma_address_opens_with_tag(
        SeedTag::Payment,
        seq![debtor.identity, encode_utf8(debtor_name)],
    );
    lemma_address_opens_with_tag(SeedTag::Task, seq![indexes.task, encode_utf8(task_name)]);
    let r0 = s.registry;
    let r1 = r0.with_pointer(
        indexes.creditor,
        creditor_name,
        payment,
        nonces.creditor_payment_pointer,
        nonces.creditor_payment_proof,
    );
    let r2 = r1.with_pointer(
        indexes.debtor,
        debtor_name,
        payment,
        nonces.debtor_payment_pointer,
        nonces.debtor_payment_proof,
    );
    let r3 = r2.with_pointer(
        indexes.task,
        task_name,
        task,
        nonces.task_pointer,
        nonces.task_proof,
    );
    assert(next.registry == r3);
    lemma_pointer_elsewhere(
        r0,
        indexes.creditor,
        creditor_name,
        payment,
        nonces.creditor_payment_pointer,
        nonces.creditor_payment_proof,
        indexes.debtor,
        owner,
        debtor_name,
        payment,
        nonces.debtor_payment_pointer,
        nonces.debtor_payment_proof,
    );
    lemma_pointer_elsewhere(
        r0,
        indexes.creditor,
        creditor_name,
        payment,
        nonces.creditor_payment_pointer,
        nonces.creditor_payment_proof,
        indexes.task,
        owner,
        task_name,
        task,
        nonces.task_pointer,
        nonces.task_proof,
    );
    lemma_pointer_elsewhere(
        r1,
        indexes.debtor,
        debtor_name,
        payment,
        nonces.debtor_payment_pointer,
        nonces.debtor_payment_proof,
        indexes.task,
        owner,
        task_name,
        task,
        nonces.task_pointer,
        nonces.task_proof,
    );
    lemma_pointer_keeps_sound(
        r0,
        indexes.creditor,
        owner,
        creditor_name,
        payment,
        nonces.creditor_payment_pointer,
        nonces.creditor_payment_proof,
    );
    lemma_pointer_keeps_sound(
        r1,
        indexes.debtor,
        owner,
        debtor_name,
        payment,
        nonces.debtor_payment_pointer,
        nonces.debtor_payment_proof,
    );
    lemma_pointer_keeps_sound(
        r2,
        indexes.task,
        owner,
        task_name,
        task,
        nonces.task_pointer,
        nonces.task_proof,
    );
    assert(r3.sound());
    assert forall|index: Seq<u8>| #[trigger]
        r3.indexes.dom().contains(index) implies r3.indexes[index].is_serial
        && r3.indexes[index].owner == owner by {
        assert(r0.indexes.dom().contains(index));
    }
    assert forall|index: Seq<u8>, name: Seq<char>| #[trigger]
        r3.has_name(index, name) implies next.on_record(
        r3.pointers[spec_pointer_address(index, name)].value,
    ) by {
        let at = spec_pointer_address(index, name);
        if at != spec_pointer_address(indexes.task, task_name) && at != spec_pointer_address(
            indexes.debtor,
            debtor_name,
        ) && at != spec_pointer_address(indexes.creditor, creditor_name) {
            assert(r0.has_name(index, name));
            assert(s.on_record(r0.pointers[at].value));
        }
    }
    assert forall|d: Seq<u8>, id: Seq<char>|
        framable(d) && name_framable(id) && #[trigger] next.payments.dom().contains(
            spec_payment_address(d, id),
        ) implies next.payment_in_order(d, id) by {
        if spec_payment_address(d, id) == payment {
            lemma_payment_address_injective(d, id, debtor.identity, debtor_name);
        } else {
            assert(s.payments.dom().contains(spec_payment_address(d, id)));
            assert(s.payment_in_order(d, id));
        }
    }
    assert forall|t: Seq<u8>, id: Seq<char>|
        framable(t) && name_framable(id) && #[trigger] next.tasks.dom().contains(
            spec_task_address(t, id),
        ) implies next.task_in_order(t, id) by {
        if spec_task_address(t, id) == task {
            lemma_task_address_injective(t, id, indexes.task, task_name);
        } else {
            assert(s.tasks.dom().contains(spec_task_address(t, id)));
            assert(s.task_in_order(t, id));
        }
    }
}

/// What the ledger's indexes hold is on record: no proof stands in them for
/// an address at which neither a payment nor a task stands.
pub proof fn lemma_nothing_registered_unrecorded(s: LedgerView, index: Seq<u8>, value: Seq<u8>)
    requires
        s.sound(),
        framable(index),
        framable(value),
        !s.on_record(value),
    ensures
        !s.registry.has_proof(index, value),
{
    if s.registry.has_proof(index, value) {
        assert(s.registry.proof_in_order(index, value));
        let name = s.registry.proofs[spec_proof_address(index, value)].name;
        assert(s.registry.has_name(index, name));
    }
}

} // verus!
