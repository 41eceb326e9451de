//! The registry in contracts: what it holds, and what each operation does
//! to it.

use vstd::prelude::*;
use crate::address::framable;
use crate::decimal::decimal;
use crate::errors::ErrorCode;
use crate::registry::{
    name_framable, spec_index_address, spec_index_nonce, spec_pointer_address, spec_pointer_nonce,
    spec_proof_address, spec_proof_nonce,
};
use crate::state::{IndexView, PointerView, ProofView};

verus! {

/// The registry in contracts: its records by address.
pub struct RegistryView {
    pub indexes: Map<Seq<u8>, IndexView>,
    pub pointers: Map<Seq<u8>, PointerView>,
    pub proofs: Map<Seq<u8>, ProofView>,
}

impl RegistryView {
    /// The registry that holds nothing.
    pub open spec fn empty() -> RegistryView {
        RegistryView { indexes: Map::empty(), pointers: Map::empty(), proofs: Map::empty() }
    }

    /// Whether the index at `index` has a pointer called `name`.
    pub open spec fn has_name(self, index: Seq<u8>, name: Seq<char>) -> bool {
        self.pointers.dom().contains(spec_pointer_address(index, name))
    }

    /// Whether a proof stands for `value` in the index at `index`.
    pub open spec fn has_proof(self, index: Seq<u8>, value: Seq<u8>) -> bool {
        self.proofs.dom().contains(spec_proof_address(index, value))
    }

    /// Whether some pointer of the index at `index` refers to `value`.
    pub open spec fn points_to(self, index: Seq<u8>, value: Seq<u8>) -> bool {
        exists|name: Seq<char>|
            name_framable(name) && #[trigger] self.has_name(index, name)
                && self.pointers[spec_pointer_address(index, name)].value == value
    }

    /// Whether the index that `owner` keeps about `namespace` is on record as
    /// what its address says.
    pub open spec fn index_in_order(self, owner: Seq<u8>, namespace: Seq<u8>) -> bool {
        let record = self.indexes[spec_index_address(owner, namespace)];
        &&& record.owner == owner
        &&& record.namespace == namespace
        &&& record.nonce == spec_index_nonce(owner, namespace)
    }

    /// Whether the pointer called `name` in the index at `index` is on record
    /// as what its address says, in an index that exists, with the proof of
    /// its value beside it.
    pub open spec fn pointer_in_order(self, index: Seq<u8>, name: Seq<char>) -> bool {
        let pointer = self.pointers[spec_pointer_address(index, name)];
        let marker = self.proofs[spec_proof_address(index, pointer.value)];
        &&& self.indexes.dom().contains(index)
        &&& pointer.name == name
        &&& pointer.nonce == spec_pointer_nonce(index, name)
        &&& self.has_proof(index, pointer.value)
        &&& marker.name == name
        &&& marker.nonce == spec_proof_nonce(index, pointer.value)
    }

    /// Whether the proof for `value` in the index at `index` carries the name
    /// of a pointer of that index that refers to `value`.
    pub open spec fn proof_in_order(self, index: Seq<u8>, value: Seq<u8>) -> bool {
        let name = self.proofs[spec_proof_address(index, value)].name;
        &&& name_framable(name)
        &&& self.has_name(index, name)
        &&& self.pointers[spec_pointer_address(index, name)].value == value
    }

    /// Whether the names in the index at `index` are the numerals below its
    /// count, each of them and no other.
    pub open spec fn numbered(self, index: Seq<u8>) -> bool {
        let count = self.indexes[index].count;
        &&& forall|k: nat| k < count ==> #[trigger] self.has_name(index, decimal(k))
        &&& forall|name: Seq<char>|
            name_framable(name) && #[trigger] self.has_name(index, name) ==> exists|k: nat|
                k < count && #[trigger] decimal(k) == name
    }

    /// The records fit together: every index, pointer and proof is on record
    /// as what its address says; pointers and proofs come in pairs; and every
    /// serial index is numbered without gap.
    pub open spec fn sound(self) -> bool {
        &&& forall|owner: Seq<u8>, namespace: Seq<u8>|
            framable(owner) && framable(namespace) && #[trigger] self.indexes.dom().contains(
                spec_index_address(owner, namespace),
            ) ==> self.index_in_order(owner, namespace)
        &&& forall|index: Seq<u8>, name: Seq<char>|
            framable(index) && name_framable(name) && #[trigger] self.has_name(index, name)
                ==> self.pointer_in_order(index, name)
        &&& forall|index: Seq<u8>, value: Seq<u8>|
            framable(index) && framable(value) && #[trigger] self.has_proof(index, value)
                ==> self.proof_in_order(index, value)
        &&& forall|index: Seq<u8>|
            framable(index) && #[trigger] self.indexes.dom().contains(index)
                && self.indexes[index].is_serial ==> self.numbered(index)
    }

    /// What creating an index does: the registry with the new index, or the
    /// reason for which it is refused.
    pub open spec fn create_index(
        self,
        owner: Seq<u8>,
        namespace: Seq<u8>,
        is_serial: bool,
        nonce: u8,
    ) -> Result<RegistryView, ErrorCode> {
        let address = spec_index_address(owner, namespace);
        if self.indexes.dom().contains(address) {
            Err(ErrorCode::AddressAlreadyAllocated)
        } else if nonce != spec_index_nonce(owner, namespace) {
            Err(ErrorCode::InvalidDerivation)
        } else {
            Ok(
                RegistryView {
                    indexes: self.indexes.insert(
                        address,
                        IndexView { owner, namespace, count: 0, is_serial, nonce },
                    ),
                    ..self
                },
            )
        }
    }

    /// The reason, if there is one, for which a pointer cannot be created.
    pub open spec fn pointer_refusal(
        self,
        index: Seq<u8>,
        owner: Seq<u8>,
        name: Seq<char>,
        value: Seq<u8>,
        pointer_nonce: u8,
        proof_nonce: u8,
    ) -> Option<ErrorCode> {
        if !self.indexes.dom().contains(index) {
            Some(ErrorCode::AccountNotFound)
        } else if self.indexes[index].owner != owner {
            Some(ErrorCode::NotIndexOwner)
        } else if self.indexes[index].is_serial && name != decimal(
            self.indexes[index].count as nat,
        ) {
            Some(ErrorCode::SerialNameMismatch)
        } else if self.has_name(index, name) {
            Some(ErrorCode::DuplicatePointerName)
        } else if self.has_proof(index, value) {
            Some(ErrorCode::AddressAlreadyAllocated)
        } else if pointer_nonce != spec_pointer_nonce(index, name) || proof_nonce
            != spec_proof_nonce(index, value) {
            Some(ErrorCode::InvalidDerivation)
        } else if self.indexes[index].count == u128::MAX {
            Some(ErrorCode::Overflow)
        } else {
            None
        }
    }

    /// The registry after a pointer and its proof have been added.
    pub open spec fn with_pointer(
        self,
        index: Seq<u8>,
        name: Seq<char>,
        value: Seq<u8>,
        pointer_nonce: u8,
        proof_nonce: u8,
    ) -> RegistryView {
        let old_index = self.indexes[index];
        RegistryView {
            indexes: self.indexes.insert(
                index,
                IndexView { count: (old_index.count + 1) as u128, ..old_index },
            ),
            pointers: self.pointers.insert(
                spec_pointer_address(index, name),
                PointerView { name, value, nonce: pointer_nonce },
            ),
            proofs: self.proofs.insert(
                spec_proof_address(index, value),
                ProofView { name, nonce: proof_nonce },
            ),
        }
    }

    /// What creating a pointer does: the registry with the pointer, its proof
    /// and the index counted up by one, or the reason for which it is refused.
    pub open spec fn create_pointer(
        self,
        index: Seq<u8>,
        owner: Seq<u8>,
        name: Seq<char>,
        value: Seq<u8>,
        pointer_nonce: u8,
        proof_nonce: u8,
    ) -> Result<RegistryView, ErrorCode> {
        match self.pointer_refusal(index, owner, name, value, pointer_nonce, proof_nonce) {
            Some(e) => Err(e),
            None => Ok(self.with_pointer(index, name, value, pointer_nonce, proof_nonce)),
        }
    }
}

/// One request to add a pointer, in contracts.
pub struct PointerRequest {
    pub index: Seq<u8>,
    pub owner: Seq<u8>,
    pub name: Seq<char>,
    pub value: Seq<u8>,
    pub pointer_nonce: u8,
    pub proof_nonce: u8,
}

impl RegistryView {
    /// Whether a request is accepted.
    pub open spec fn accepts(self, request: PointerRequest) -> bool {
        self.pointer_refusal(
            request.index,
            request.owner,
            request.name,
            request.value,
            request.pointer_nonce,
            request.proof_nonce,
        ) is None
    }

    /// The registry after a request: with the pointer if the request is
    /// accepted, as it was if it is refused.
    pub open spec fn after(self, request: PointerRequest) -> RegistryView {
        if self.accepts(request) {
            self.with_pointer(
                request.index,
                request.name,
                request.value,
                request.pointer_nonce,
                request.proof_nonce,
            )
        } else {
            self
        }
    }

    /// The registry after a run of requests, made one after the other.
    pub open spec fn after_all(self, requests: Seq<PointerRequest>) -> RegistryView
        decreases requests.len(),
    {
        if requests.len() == 0 {
            self
        } else {
            self.after(requests[0]).after_all(requests.drop_first())
        }
    }

    /// The names that a run of requests gets accepted into the index at
    /// `index`, in the order of their acceptance.
    pub open spec fn accepted_names(self, index: Seq<u8>, requests: Seq<PointerRequest>) -> Seq<
        Seq<char>,
    >
        decreases requests.len(),
    {
        if requests.len() == 0 {
            Seq::empty()
        } else {
            let rest = self.after(requests[0]).accepted_names(index, requests.drop_first());
            if requests[0].index == index && self.accepts(requests[0]) {
                seq![requests[0].name] + rest
            } else {
                rest
            }
        }
    }
}

} // verus!
