//! How the records of the registry fit together, and that every operation
//! keeps them so.

use vstd::prelude::*;
use vstd::utf8::*;
use crate::address::{SeedTag, all_framable, framable, lemma_address_injective};
use crate::decimal::{decimal, lemma_decimal_is_short};
use crate::registry::{name_framable, spec_index_address, spec_pointer_address, spec_proof_address};
use crate::registry::model::RegistryView;

verus! {

/// Two indexes with one address have one owner and one namespace.
pub proof fn lemma_index_address_injective(o1: Seq<u8>, n1: Seq<u8>, o2: Seq<u8>, n2: Seq<u8>)
    requires
        framable(o1),
        framable(n1),
        framable(o2),
        framable(n2),
        spec_index_address(o1, n1) == spec_index_address(o2, n2),
    ensures
        o1 == o2,
        n1 == n2,
{
    let first = seq![o1, n1];
    let second = seq![o2, n2];
    assert(all_framable(first));
    assert(all_framable(second));
    lemma_address_injective(SeedTag::Index, first, SeedTag::Index, second);
    assert(first[0] == second[0]);
    assert(first[1] == second[1]);
}

/// Two pointers with one address stand in one index under one name.
pub proof fn lemma_pointer_address_injective(
    i1: Seq<u8>,
    n1: Seq<char>,
    i2: Seq<u8>,
    n2: Seq<char>,
)
    requires
        framable(i1),
        name_framable(n1),
        framable(i2),
        name_framable(n2),
        spec_pointer_address(i1, n1) == spec_pointer_address(i2, n2),
    ensures
        i1 == i2,
        n1 == n2,
{
    let first = seq![i1, encode_utf8(n1)];
    let second = seq![i2, encode_utf8(n2)];
    assert(all_framable(first));
    assert(all_framable(second));
    lemma_address_injective(SeedTag::Pointer, first, SeedTag::Pointer, second);
    assert(first[0] == second[0]);
    assert(first[1] == second[1]);
    encode_utf8_decode_utf8(n1);
    encode_utf8_decode_utf8(n2);
}

/// Two proofs with one address stand in one index for one value.
pub proof fn lemma_proof_address_injective(i1: Seq<u8>, v1: Seq<u8>, i2: Seq<u8>, v2: Seq<u8>)
    requires
        framable(i1),
        framable(v1),
        framable(i2),
        framable(v2),
        spec_proof_address(i1, v1) == spec_proof_address(i2, v2),
    ensures
        i1 == i2,
        v1 == v2,
{
    let first = seq![i1, v1];
    let second = seq![i2, v2];
    assert(all_framable(first));
    assert(all_framable(second));
    lemma_address_injective(SeedTag::Proof, first, SeedTag::Proof, second);
    assert(first[0] == second[0]);
    assert(first[1] == second[1]);
}

/// In a registry whose records fit together, a proof stands for a value in
/// an index exactly if a pointer of the index refers to the value.
pub proof fn lemma_proof_follows_pointer(s: RegistryView, index: Seq<u8>, value: Seq<u8>)
    requires
        s.sound(),
        framable(index),
        framable(value),
    ensures
        s.has_proof(index, value) == s.points_to(index, value),
{
    if s.points_to(index, value) {
        let name = choose|name: Seq<char>|
            name_framable(name) && #[trigger] s.has_name(index, name)
                && s.pointers[spec_pointer_address(index, name)].value == value;
        assert(s.pointer_in_order(index, name));
    }
    if s.has_proof(index, value) {
        assert(s.proof_in_order(index, value));
        let name = s.proofs[spec_proof_address(index, value)].name;
        assert(s.has_name(index, name));
    }
}

/// Creating an index keeps the records fitting together.
pub proof fn lemma_index_keeps_sound(
    s: RegistryView,
    owner: Seq<u8>,
    namespace: Seq<u8>,
    is_serial: bool,
    nonce: u8,
)
    requires
        s.sound(),
        framable(owner),
        framable(namespace),
        s.create_index(owner, namespace, is_serial, nonce) is Ok,
    ensures
        s.create_index(owner, namespace, is_serial, nonce)->Ok_0.sound(),
{
    let next = s.create_index(owner, namespace, is_serial, nonce)->Ok_0;
    let created = spec_index_address(owner, namespace);
    assert forall|o: Seq<u8>, n: Seq<u8>|
        framable(o) && framable(n) && #[trigger] next.indexes.dom().contains(
            spec_index_address(o, n),
        ) implies next.index_in_order(o, n) by {
        if spec_index_address(o, n) == created {
            lemma_index_address_injective(o, n, owner, namespace);
        } else {
            assert(s.indexes.dom().contains(spec_index_address(o, n)));
            assert(s.index_in_order(o, n));
        }
    }
    assert forall|index: Seq<u8>, name: Seq<char>|
        framable(index) && name_framable(name) && #[trigger] next.has_name(
            index,
            name,
        ) implies next.pointer_in_order(index, name) by {
        assert(s.has_name(index, name));
        assert(s.pointer_in_order(index, name));
    }
    assert forall|index: Seq<u8>, value: Seq<u8>|
        framable(index) && framable(value) && #[trigger] next.has_proof(
            index,
            value,
        ) implies next.proof_in_order(index, value) by {
        assert(s.has_proof(index, value));
        assert(s.proof_in_order(index, value));
    }
    assert forall|index: Seq<u8>|
        framable(index) && #[trigger] next.indexes.dom().contains(index)
            && next.indexes[index].is_serial implies next.numbered(index) by {
        if index == created {
            assert forall|name: Seq<char>|
                name_framable(name) && #[trigger] next.has_name(index, name) implies exists|
                k: nat,
            |
                k < next.indexes[index].count && #[trigger] decimal(k) == name by {
                assert(s.has_name(index, name));
                assert(s.pointer_in_order(index, name));
            }
        } else {
            assert(s.indexes.dom().contains(index));
            assert(s.numbered(index));
            assert forall|k: nat| k < next.indexes[index].count implies #[trigger] next.has_name(
                index,
                decimal(k),
            ) by {
                assert(s.has_name(index, decimal(k)));
            }
            assert forall|name: Seq<char>|
                name_framable(name) && #[trigger] next.has_name(index, name) implies exists|
                k: nat,
            |
                k < next.indexes[index].count && #[trigger] decimal(k) == name by {
                assert(s.has_name(index, name));
                let k = choose|k: nat| k < s.indexes[index].count && #[trigger] decimal(k) == name;
                assert(k < next.indexes[index].count && decimal(k) == name);
            }
        }
    }
}

/// Creating a pointer keeps the records fitting together.
pub proof fn lemma_pointer_keeps_sound(
    s: RegistryView,
    index: Seq<u8>,
    owner: Seq<u8>,
    name: Seq<char>,
    value: Seq<u8>,
    pointer_nonce: u8,
    proof_nonce: u8,
)
    requires
        s.sound(),
        framable(index),
        framable(value),
        name_framable(name),
        s.create_pointer(index, owner, name, value, pointer_nonce, proof_nonce) is Ok,
    ensures
        s.create_pointer(index, owner, name, value, pointer_nonce, proof_nonce)->Ok_0.sound(),
{
    let next = s.with_pointer(index, name, value, pointer_nonce, proof_nonce);
    let pointer_key = spec_pointer_address(index, name);
    let proof_key = spec_proof_address(index, value);
    let count = s.indexes[index].count;
    assert(next.has_name(index, name));
    assert(next.has_proof(index, value));
    assert forall|o: Seq<u8>, n: Seq<u8>|
        framable(o) && framable(n) && #[trigger] next.indexes.dom().contains(
            spec_index_address(o, n),
        ) implies next.index_in_order(o, n) by {
        assert(s.indexes.dom().contains(spec_index_address(o, n)));
        assert(s.index_in_order(o, n));
    }
    assert forall|i: Seq<u8>, n: Seq<char>|
        framable(i) && name_framable(n) && #[trigger] next.has_name(
            i,
            n,
        ) implies next.pointer_in_order(i, n) by {
        if spec_pointer_address(i, n) == pointer_key {
            lemma_pointer_address_injective(i, n, index, name);
        } else {
            assert(s.has_name(i, n));
            assert(s.pointer_in_order(i, n));
            assert(s.has_proof(i, s.pointers[spec_pointer_address(i, n)].value));
        }
    }
    assert forall|i: Seq<u8>, v: Seq<u8>|
        framable(i) && framable(v) && #[trigger] next.has_proof(i, v) implies next.proof_in_order(
        i,
        v,
    ) by {
        if spec_proof_address(i, v) == proof_key {
            lemma_proof_address_injective(i, v, index, value);
        } else {
            assert(s.has_proof(i, v));
            assert(s.proof_in_order(i, v));
            let n = s.proofs[spec_proof_address(i, v)].name;
            assert(s.has_name(i, n));
            assert(next.has_name(i, n));
        }
    }
    assert forall|i: Seq<u8>|
        framable(i) && #[trigger] next.indexes.dom().contains(i)
            && next.indexes[i].is_serial implies next.numbered(i) by {
        assert(s.indexes.dom().contains(i));
        assert(s.indexes[i].is_serial);
        assert(s.numbered(i));
        assert forall|k: nat| k < next.indexes[i].count implies #[trigger] next.has_name(
            i,
            decimal(k),
        ) by {
            if i == index && k == count {
                assert(name == decimal(k));
            } else {
                assert(s.has_name(i, decimal(k)));
            }
        }
        assert forall|n: Seq<char>|
            name_framable(n) && #[trigger] next.has_name(i, n) implies exists|k: nat|
            k < next.indexes[i].count && #[trigger] decimal(k) == n by {
            if spec_pointer_address(i, n) == pointer_key {
                lemma_pointer_address_injective(i, n, index, name);
                assert(decimal(count as nat) == n);
                assert((count as nat) < next.indexes[i].count);
            } else {
                assert(s.has_name(i, n));
                let k = choose|k: nat| k < s.indexes[i].count && #[trigger] decimal(k) == n;
                assert(k < next.indexes[i].count && decimal(k) == n);
            }
        }
    }
}

/// Adding a pointer to one index changes nothing for another: what the other
/// index holds, and whether it would take a given pointer, stay as they were.
pub proof fn lemma_pointer_elsewhere(
    s: RegistryView,
    i1: Seq<u8>,
    n1: Seq<char>,
    v1: Seq<u8>,
    pointer_nonce: u8,
    proof_nonce: u8,
    i2: Seq<u8>,
    o2: Seq<u8>,
    n2: Seq<char>,
    v2: Seq<u8>,
    pointer_nonce2: u8,
    proof_nonce2: u8,
)
    requires
        i1 != i2,
        framable(i1),
        framable(i2),
        framable(v1),
        framable(v2),
        name_framable(n1),
        name_framable(n2),
    ensures
        s.with_pointer(i1, n1, v1, pointer_nonce, proof_nonce).pointer_refusal(
            i2,
            o2,
            n2,
            v2,
            pointer_nonce2,
            proof_nonce2,
        ) == s.pointer_refusal(i2, o2, n2, v2, pointer_nonce2, proof_nonce2),
        s.with_pointer(i1, n1, v1, pointer_nonce, proof_nonce).indexes.dom().contains(i2)
            == s.indexes.dom().contains(i2),
        s.with_pointer(i1, n1, v1, pointer_nonce, proof_nonce).indexes[i2] == s.indexes[i2],
{
    let next = s.with_pointer(i1, n1, v1, pointer_nonce, proof_nonce);
    if spec_pointer_address(i1, n1) == spec_pointer_address(i2, n2) {
        lemma_pointer_address_injective(i1, n1, i2, n2);
    }
    if spec_proof_address(i1, v1) == spec_proof_address(i2, v2) {
        lemma_proof_address_injective(i1, v1, i2, v2);
    }
    assert(next.has_name(i2, n2) == s.has_name(i2, n2));
    assert(next.has_proof(i2, v2) == s.has_proof(i2, v2));
}

/// The numeral of a count is short enough to be a key part.
pub proof fn lemma_numeral_framable(count: u128)
    ensures
        name_framable(decimal(count as nat)),
{
    lemma_decimal_is_short(count);
}

} // verus!
