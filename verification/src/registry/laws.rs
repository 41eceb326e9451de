//! What holds of the registry whatever is asked of it.

use vstd::prelude::*;
use crate::address::framable;
use crate::decimal::{decimal, lemma_decimal_injective};
use crate::errors::ErrorCode;
use crate::registry::{
    name_framable, spec_index_address, spec_pointer_address, spec_pointer_nonce, spec_proof_address,
    spec_proof_nonce,
};
use crate::registry::invariants::{
    lemma_index_address_injective, lemma_numeral_framable, lemma_pointer_address_injective,
    lemma_proof_follows_pointer,
};
use crate::registry::model::{PointerRequest, RegistryView};
use crate::state::{IndexView, PointerView, ProofView};

verus! {

/// Indexes of different owners, or about different namespaces, stand at
/// different addresses.
pub proof fn distinct_indexes_have_distinct_addresses(
    o1: Seq<u8>,
    n1: Seq<u8>,
    o2: Seq<u8>,
    n2: Seq<u8>,
)
    requires
        framable(o1),
        framable(n1),
        framable(o2),
        framable(n2),
        o1 != o2 || n1 != n2,
    ensures
        spec_index_address(o1, n1) != spec_index_address(o2, n2),
{
    if spec_index_address(o1, n1) == spec_index_address(o2, n2) {
        lemma_index_address_injective(o1, n1, o2, n2);
    }
}

/// An index is created once: where it exists, creating it again is refused
/// with `AddressAlreadyAllocated`, whatever else is asked for; and it exists
/// from its creation on, for creating an index takes nothing off the record.
pub proof fn index_is_created_once(
    s: RegistryView,
    owner: Seq<u8>,
    namespace: Seq<u8>,
    is_serial: bool,
    nonce: u8,
    again_serial: bool,
    again_nonce: u8,
)
    ensures
        s.indexes.dom().contains(spec_index_address(owner, namespace)) ==> s.create_index(
            owner,
            namespace,
            again_serial,
            again_nonce,
        ) == Err::<RegistryView, ErrorCode>(ErrorCode::AddressAlreadyAllocated),
        s.create_index(owner, namespace, is_serial, nonce) is Ok ==> s.create_index(
            owner,
            namespace,
            is_serial,
            nonce,
        )->Ok_0.create_index(owner, namespace, again_serial, again_nonce) == Err::<
            RegistryView,
            ErrorCode,
        >(ErrorCode::AddressAlreadyAllocated),
        s.create_index(owner, namespace, is_serial, nonce) is Ok ==> ({
            let next = s.create_index(owner, namespace, is_serial, nonce)->Ok_0;
            &&& next.indexes.dom().contains(spec_index_address(owner, namespace))
            &&& s.indexes.submap_of(next.indexes)
            &&& next.pointers == s.pointers
            &&& next.proofs == s.proofs
        }),
{
}

/// Creating one index does not stand in the way of another: an index with
/// another owner or namespace can be created after it exactly if it could
/// be created before.
pub proof fn indexes_do_not_collide(
    s: RegistryView,
    o1: Seq<u8>,
    n1: Seq<u8>,
    serial1: bool,
    nonce1: u8,
    o2: Seq<u8>,
    n2: Seq<u8>,
    serial2: bool,
    nonce2: u8,
)
    requires
        framable(o1),
        framable(n1),
        framable(o2),
        framable(n2),
        o1 != o2 || n1 != n2,
        s.create_index(o1, n1, serial1, nonce1) is Ok,
    ensures
        s.create_index(o1, n1, serial1, nonce1)->Ok_0.create_index(o2, n2, serial2, nonce2) is Ok
            == s.create_index(o2, n2, serial2, nonce2) is Ok,
{
    distinct_indexes_have_distinct_addresses(o1, n1, o2, n2);
}

/// Nothing is ever removed or changed but the count of an index: what the
/// registry holds before an operation, it holds after it.
pub proof fn records_stay(
    s: RegistryView,
    index: Seq<u8>,
    owner: Seq<u8>,
    name: Seq<char>,
    value: Seq<u8>,
    pointer_nonce: u8,
    proof_nonce: u8,
)
    requires
        s.create_pointer(index, owner, name, value, pointer_nonce, proof_nonce) is Ok,
    ensures
        ({
            let next = s.create_pointer(index, owner, name, value, pointer_nonce, proof_nonce)->Ok_0;
            &&& s.indexes.dom().subset_of(next.indexes.dom())
            &&& s.pointers.submap_of(next.pointers)
            &&& s.proofs.submap_of(next.proofs)
            &&& forall|i: Seq<u8>| #[trigger]
                s.indexes.dom().contains(i) && i != index ==> next.indexes[i] == s.indexes[i]
        }),
{
}

/// A serial index takes no name but its count, and counts up by one with each
/// pointer: the pointer that is accepted when the count is `n` is called by
/// the decimal numeral of `n`, and leaves the count at `n + 1`.
pub proof fn serial_names_follow_the_count(
    s: RegistryView,
    index: Seq<u8>,
    owner: Seq<u8>,
    name: Seq<char>,
    value: Seq<u8>,
    pointer_nonce: u8,
    proof_nonce: u8,
)
    requires
        s.indexes.dom().contains(index),
        s.indexes[index].is_serial,
    ensures
        ({
            let count = s.indexes[index].count;
            let outcome = s.create_pointer(index, owner, name, value, pointer_nonce, proof_nonce);
            &&& outcome is Ok ==> name == decimal(count as nat) && outcome->Ok_0.indexes[index].count
                == count + 1
            &&& name != decimal(count as nat) ==> outcome is Err
            &&& name != decimal(count as nat) && owner == s.indexes[index].owner ==> outcome
                == Err::<RegistryView, ErrorCode>(ErrorCode::SerialNameMismatch)
        }),
{
}

/// The names of a serial index are numbered: whatever requests are made, in
/// whatever order, those accepted into a serial index that stands at count
/// `c` are called `c`, `c + 1`, `c + 2` and so on in the order of their
/// acceptance, without gap or repeat, and the count ends that many higher.
pub proof fn serial_index_is_numbered(
    s: RegistryView,
    index: Seq<u8>,
    requests: Seq<PointerRequest>,
)
    requires
        s.indexes.dom().contains(index),
        s.indexes[index].is_serial,
    ensures
        ({
            let names = s.accepted_names(index, requests);
            let end = s.after_all(requests);
            &&& forall|k: int|
                0 <= k < names.len() ==> #[trigger] names[k] == decimal(
                    (s.indexes[index].count + k) as nat,
                )
            &&& end.indexes.dom().contains(index)
            &&& end.indexes[index] == (IndexView {
                count: (s.indexes[index].count + names.len()) as u128,
                ..s.indexes[index]
            })
            &&& s.indexes[index].count + names.len() <= u128::MAX
        }),
    decreases requests.len(),
{
    if requests.len() > 0 {
        let first = requests[0];
        let next = s.after(first);
        let rest = next.accepted_names(index, requests.drop_first());
        serial_index_is_numbered(next, index, requests.drop_first());
        let names = s.accepted_names(index, requests);
        if first.index == index && s.accepts(first) {
            assert(names =~= seq![first.name] + rest);
            assert forall|k: int| 0 <= k < names.len() implies #[trigger] names[k] == decimal(
                (s.indexes[index].count + k) as nat,
            ) by {
                if k > 0 {
                    assert(names[k] == rest[k - 1]);
                }
            }
        } else {
            assert(next.indexes[index] == s.indexes[index]);
        }
    }
}

/// In any index, an accepted pointer counts the index up by exactly one and
/// changes nothing else of it.
pub proof fn accepted_pointer_counts_once(
    s: RegistryView,
    index: Seq<u8>,
    owner: Seq<u8>,
    name: Seq<char>,
    value: Seq<u8>,
    pointer_nonce: u8,
    proof_nonce: u8,
)
    requires
        s.create_pointer(index, owner, name, value, pointer_nonce, proof_nonce) is Ok,
    ensures
        ({
            let next = s.create_pointer(index, owner, name, value, pointer_nonce, proof_nonce)->Ok_0;
            next.indexes[index] == (IndexView {
                count: (s.indexes[index].count + 1) as u128,
                ..s.indexes[index]
            }) && s.indexes[index].count < u128::MAX
        }),
{
}

/// A freeform index takes any name that it does not have yet, from its owner,
/// for a value that it does not hold yet, and with the nonces of the two
/// addresses.
pub proof fn freeform_index_takes_new_names(
    s: RegistryView,
    index: Seq<u8>,
    owner: Seq<u8>,
    name: Seq<char>,
    value: Seq<u8>,
    pointer_nonce: u8,
    proof_nonce: u8,
)
    requires
        s.indexes.dom().contains(index),
        !s.indexes[index].is_serial,
        s.indexes[index].owner == owner,
        s.indexes[index].count < u128::MAX,
        !s.has_name(index, name),
        !s.has_proof(index, value),
        pointer_nonce == spec_pointer_nonce(index, name),
        proof_nonce == spec_proof_nonce(index, value),
    ensures
        s.create_pointer(index, owner, name, value, pointer_nonce, proof_nonce) is Ok,
{
}

/// No index takes a name twice: once a pointer is accepted, its name is
/// taken for good. Whatever the value, a freeform index refuses the name
/// with `DuplicatePointerName`, and a serial index, which has counted on,
/// with `SerialNameMismatch`: of two equal requests, one is accepted at
/// most.
pub proof fn repeated_name_is_refused(
    s: RegistryView,
    index: Seq<u8>,
    owner: Seq<u8>,
    name: Seq<char>,
    value: Seq<u8>,
    pointer_nonce: u8,
    proof_nonce: u8,
    again_value: Seq<u8>,
    again_pointer_nonce: u8,
    again_proof_nonce: u8,
)
    requires
        s.create_pointer(index, owner, name, value, pointer_nonce, proof_nonce) is Ok,
    ensures
        ({
            let next = s.create_pointer(index, owner, name, value, pointer_nonce, proof_nonce)->Ok_0;
            let again = next.create_pointer(
                index,
                owner,
                name,
                again_value,
                again_pointer_nonce,
                again_proof_nonce,
            );
            &&& next.has_name(index, name)
            &&& again is Err
            &&& !s.indexes[index].is_serial ==> again == Err::<RegistryView, ErrorCode>(
                ErrorCode::DuplicatePointerName,
            )
            &&& s.indexes[index].is_serial ==> again == Err::<RegistryView, ErrorCode>(
                ErrorCode::SerialNameMismatch,
            )
        }),
{
    if s.indexes[index].is_serial {
        let count = s.indexes[index].count;
        if decimal(count as nat) == decimal((count + 1) as nat) {
            lemma_decimal_injective(count as nat, (count + 1) as nat);
        }
    }
}

/// Different names in one index, and any names in different indexes, are
/// different pointers: taking one name does not use up another.
pub proof fn distinct_names_have_distinct_addresses(
    i1: Seq<u8>,
    n1: Seq<char>,
    i2: Seq<u8>,
    n2: Seq<char>,
)
    requires
        framable(i1),
        name_framable(n1),
        framable(i2),
        name_framable(n2),
        i1 != i2 || n1 != n2,
    ensures
        spec_pointer_address(i1, n1) != spec_pointer_address(i2, n2),
{
    if spec_pointer_address(i1, n1) == spec_pointer_address(i2, n2) {
        lemma_pointer_address_injective(i1, n1, i2, n2);
    }
}

/// Once a pointer to a value is accepted, the proof that the index holds the
/// value stands where the index and the value alone say, whatever the
/// pointer is called; and it carries that name.
pub proof fn accepted_pointer_leaves_proof(
    s: RegistryView,
    index: Seq<u8>,
    owner: Seq<u8>,
    name: Seq<char>,
    value: Seq<u8>,
    pointer_nonce: u8,
    proof_nonce: u8,
)
    requires
        s.create_pointer(index, owner, name, value, pointer_nonce, proof_nonce) is Ok,
    ensures
        ({
            let next = s.create_pointer(index, owner, name, value, pointer_nonce, proof_nonce)->Ok_0;
            &&& next.has_proof(index, value)
            &&& next.proofs[spec_proof_address(index, value)] == (ProofView {
                name,
                nonce: proof_nonce,
            })
            &&& next.pointers[spec_pointer_address(index, name)] == (PointerView {
                name,
                value,
                nonce: pointer_nonce,
            })
        }),
{
}

/// No proof stands for a value that was never put into the index: in a
/// registry that started empty and grew by `create_index` and
/// `create_pointer` alone, a proof for a value in an index means that a
/// pointer of that index refers to the value.
pub proof fn no_proof_without_pointer(s: RegistryView, index: Seq<u8>, value: Seq<u8>)
    requires
        s.sound(),
        framable(index),
        framable(value),
        !s.points_to(index, value),
    ensures
        !s.has_proof(index, value),
{
    lemma_proof_follows_pointer(s, index, value);
}

/// In the empty registry the records fit together.
pub proof fn empty_registry_is_sound()
    ensures
        RegistryView::empty().sound(),
{
}

/// A serial index has room for its count: its owner can always add the
/// pointer that is called by the count, for a value that the index does not
/// hold yet and with the nonces of the two addresses.
pub proof fn serial_index_takes_its_count(
    s: RegistryView,
    index: Seq<u8>,
    value: Seq<u8>,
)
    requires
        s.sound(),
        framable(index),
        s.indexes.dom().contains(index),
        s.indexes[index].is_serial,
        s.indexes[index].count < u128::MAX,
        !s.has_proof(index, value),
    ensures
        ({
            let name = decimal(s.indexes[index].count as nat);
            &&& !s.has_name(index, name)
            &&& s.create_pointer(
                index,
                s.indexes[index].owner,
                name,
                value,
                spec_pointer_nonce(index, name),
                spec_proof_nonce(index, value),
            ) is Ok
        }),
{
    let count = s.indexes[index].count;
    let name = decimal(count as nat);
    lemma_numeral_framable(count);
    assert(s.numbered(index));
    if s.has_name(index, name) {
        let k = choose|k: nat| k < count && #[trigger] decimal(k) == name;
        lemma_decimal_injective(k, count as nat);
    }
}

} // verus!
