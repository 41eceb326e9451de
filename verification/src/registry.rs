//! The index registry: indexes, the pointers in them, and the proofs that an
//! index holds a value.

use vstd::prelude::*;
use vstd::slice::slice_to_vec;
use vstd::string::*;
use vstd::utf8::*;
use crate::address::{
    Address, SeedTag, copy_bytes, framable, key_of, lemma_address_framable, spec_address,
    spec_nonce,
};
use crate::arena::Arena;
use crate::decimal::decimal_text;
use crate::errors::ErrorCode;
use crate::registry::invariants::{
    lemma_index_keeps_sound, lemma_pointer_keeps_sound, lemma_proof_follows_pointer,
};
use crate::state::{Index, Pointer, Proof};

pub mod invariants;
pub mod laws;
pub mod model;

pub use crate::registry::model::{PointerRequest, RegistryView};

verus! {

/// The address of the index that `owner` keeps about `namespace`.
pub open spec fn spec_index_address(owner: Seq<u8>, namespace: Seq<u8>) -> Seq<u8> {
    spec_address(SeedTag::Index, seq![owner, namespace])
}

/// The nonce of that address.
pub open spec fn spec_index_nonce(owner: Seq<u8>, namespace: Seq<u8>) -> u8 {
    spec_nonce(SeedTag::Index, seq![owner, namespace])
}

/// The address of the pointer called `name` in the index at `index`.
pub open spec fn spec_pointer_address(index: Seq<u8>, name: Seq<char>) -> Seq<u8> {
    spec_address(SeedTag::Pointer, seq![index, encode_utf8(name)])
}

/// The nonce of that address.
pub open spec fn spec_pointer_nonce(index: Seq<u8>, name: Seq<char>) -> u8 {
    spec_nonce(SeedTag::Pointer, seq![index, encode_utf8(name)])
}

/// The address of the proof that the index at `index` holds `value`.
pub open spec fn spec_proof_address(index: Seq<u8>, value: Seq<u8>) -> Seq<u8> {
    spec_address(SeedTag::Proof, seq![index, value])
}

/// The nonce of that address.
pub open spec fn spec_proof_nonce(index: Seq<u8>, value: Seq<u8>) -> u8 {
    spec_nonce(SeedTag::Proof, seq![index, value])
}

/// Whether a name is short enough to be a key part.
pub open spec fn name_framable(name: Seq<char>) -> bool {
    framable(encode_utf8(name))
}

/// The address of the index that `owner` keeps about `namespace`, and its nonce.
pub fn index_address(owner: &Address, namespace: &Vec<u8>) -> (r: (Address, u8))
    ensures
        r.0@ == spec_index_address(owner@, namespace@),
        r.1 == spec_index_nonce(owner@, namespace@),
{
    let mut parts: Vec<Vec<u8>> = Vec::new();
    parts.push(copy_bytes(&owner.bytes));
    parts.push(copy_bytes(namespace));
    assert(key_of(&parts) =~= seq![owner@, namespace@]);
    crate::address::derive(SeedTag::Index, &parts)
}

/// The address of the pointer called `name` in the index at `index`, and its nonce.
pub fn pointer_address(index: &Address, name: &str) -> (r: (Address, u8))
    ensures
        r.0@ == spec_pointer_address(index@, name@),
        r.1 == spec_pointer_nonce(index@, name@),
        name_framable(name@),
{
    let mut parts: Vec<Vec<u8>> = Vec::new();
    parts.push(copy_bytes(&index.bytes));
    let bytes = slice_to_vec(name.as_bytes());
    assert(bytes.len() == bytes@.len());
    parts.push(bytes);
    assert(key_of(&parts) =~= seq![index@, encode_utf8(name@)]);
    crate::address::derive(SeedTag::Pointer, &parts)
}

/// The address of the proof that the index at `index` holds `value`, and its nonce.
pub fn proof_address(index: &Address, value: &Address) -> (r: (Address, u8))
    ensures
        r.0@ == spec_proof_address(index@, value@),
        r.1 == spec_proof_nonce(index@, value@),
{
    let mut parts: Vec<Vec<u8>> = Vec::new();
    parts.push(copy_bytes(&index.bytes));
    parts.push(copy_bytes(&value.bytes));
    assert(key_of(&parts) =~= seq![index@, value@]);
    crate::address::derive(SeedTag::Proof, &parts)
}

/// The registry of indexes.
pub struct Registry {
    indexes: Arena<Index>,
    pointers: Arena<Pointer>,
    proofs: Arena<Proof>,
}

impl View for Registry {
    type V = RegistryView;

    closed spec fn view(&self) -> RegistryView {
        RegistryView { indexes: self.indexes@, pointers: self.pointers@, proofs: self.proofs@ }
    }
}

impl Registry {
    /// The registry is in order: its records fit together.
    pub closed spec fn wf(&self) -> bool {
        &&& self.indexes.wf()
        &&& self.pointers.wf()
        &&& self.proofs.wf()
        &&& self@.sound()
    }

    /// What `wf` says of the registry's records.
    pub proof fn wf_means_sound(&self)
        requires
            self.wf(),
        ensures
            self@.sound(),
    {
    }

    /// A registry that holds nothing.
    pub fn new() -> (registry: Registry)
        ensures
            registry.wf(),
            registry@ == RegistryView::empty(),
    {
        Registry { indexes: Arena::new(), pointers: Arena::new(), proofs: Arena::new() }
    }

    /// The index at `address`, if there is one.
    pub fn index_at(&self, address: &Address) -> (r: Option<&Index>)
        requires
            self.wf(),
        ensures
            match r {
                Some(index) => self@.indexes.dom().contains(address@) && index@
                    == self@.indexes[address@],
                None => !self@.indexes.dom().contains(address@),
            },
    {
        self.indexes.get(address)
    }

    /// The pointer at `address`, if there is one.
    pub fn pointer_at(&self, address: &Address) -> (r: Option<&Pointer>)
        requires
            self.wf(),
        ensures
            match r {
                Some(pointer) => self@.pointers.dom().contains(address@) && pointer@
                    == self@.pointers[address@],
                None => !self@.pointers.dom().contains(address@),
            },
    {
        self.pointers.get(address)
    }

    /// The proof at `address`, if there is one.
    pub fn proof_at(&self, address: &Address) -> (r: Option<&Proof>)
        requires
            self.wf(),
        ensures
            match r {
                Some(record) => self@.proofs.dom().contains(address@) && record@
                    == self@.proofs[address@],
                None => !self@.proofs.dom().contains(address@),
            },
    {
        self.proofs.get(address)
    }

    /// The pointer called `name` in the index at `index`, if there is one.
    pub fn lookup(&self, index: &Address, name: &str) -> (r: Option<&Pointer>)
        requires
            self.wf(),
        ensures
            match r {
                Some(pointer) => self@.has_name(index@, name@) && pointer@
                    == self@.pointers[spec_pointer_address(index@, name@)],
                None => !self@.has_name(index@, name@),
            },
    {
        let address = pointer_address(index, name).0;
        self.pointers.get(&address)
    }

    /// Whether the index at `index` holds `value`: answered from the proof
    /// alone, without going through the pointers.
    pub fn holds(&self, index: &Address, value: &Address) -> (r: bool)
        requires
            self.wf(),
        ensures
            r == self@.has_proof(index@, value@),
            r == self@.points_to(index@, value@),
    {
        let address = proof_address(index, value).0;
        let r = self.proofs.contains(&address);
        proof {
            lemma_address_framable(index);
            lemma_address_framable(value);
            lemma_proof_follows_pointer(self@, index@, value@);
        }
        r
    }

    /// The reason, if there is one, for which `create_pointer` would refuse
    /// these arguments now.
    pub fn check_pointer(
        &self,
        index: &Address,
        owner: &Address,
        name: &str,
        value: &Address,
        pointer_nonce: u8,
        proof_nonce: u8,
    ) -> (r: Option<ErrorCode>)
        requires
            self.wf(),
        ensures
            r == self@.pointer_refusal(
                index@,
                owner@,
                name@,
                value@,
                pointer_nonce,
                proof_nonce,
            ),
            name_framable(name@),
    {
        let pointer_key = pointer_address(index, name);
        let found = self.indexes.get(index);
        if found.is_none() {
            return Some(ErrorCode::AccountNotFound);
        }
        let record = found.unwrap();
        if !record.owner.same(owner) {
            return Some(ErrorCode::NotIndexOwner);
        }
        if record.is_serial {
            let expected = decimal_text(record.count);
            let given = String::from_str(name);
            if !(given == expected) {
                return Some(ErrorCode::SerialNameMismatch);
            }
        }
        if self.pointers.contains(&pointer_key.0) {
            return Some(ErrorCode::DuplicatePointerName);
        }
        let proof_key = proof_address(index, value);
        if self.proofs.contains(&proof_key.0) {
            return Some(ErrorCode::AddressAlreadyAllocated);
        }
        if pointer_nonce != pointer_key.1 || proof_nonce != proof_key.1 {
            return Some(ErrorCode::InvalidDerivation);
        }
        if record.count == u128::MAX {
            return Some(ErrorCode::Overflow);
        }
        None
    }

    /// Creates the index that `owner` keeps about `namespace`, empty, and returns its address.
    /// It is refused if that index exists already.
    pub fn create_index(
        &mut self,
        owner: &Address,
        namespace: &Vec<u8>,
        is_serial: bool,
        nonce: u8,
    ) -> (r: Result<Address, ErrorCode>)
        requires
            old(self).wf(),
        ensures
            final(self).wf(),
            match old(self)@.create_index(owner@, namespace@, is_serial, nonce) {
                Ok(next) => r is Ok && r->Ok_0@ == spec_index_address(owner@, namespace@)
                    && final(self)@ == next,
                Err(e) => r == Err::<Address, ErrorCode>(e) && final(self)@ == old(self)@,
            },
    {
        let (address, canonical) = index_address(owner, namespace);
        if self.indexes.contains(&address) {
            return Err(ErrorCode::AddressAlreadyAllocated);
        }
        if nonce != canonical {
            return Err(ErrorCode::InvalidDerivation);
        }
        let record = Index {
            owner: owner.clone(),
            namespace: copy_bytes(namespace),
            count: 0,
            is_serial,
            nonce,
        };
        proof {
            lemma_address_framable(owner);
            assert(namespace.len() == namespace@.len());
            lemma_index_keeps_sound(self@, owner@, namespace@, is_serial, nonce);
        }
        self.indexes.allocate(address.clone(), record);
        Ok(address)
    }

    /// Adds to the index at `index` a pointer called `name` to `value`, and
    /// the proof that the index holds `value`; returns the addresses of the
    /// two. Only the owner of the index may do so; a serial index takes no
    /// name but its count; no index takes a name or a value twice.
    pub fn create_pointer(
        &mut self,
        index: &Address,
        owner: &Address,
        name: String,
        value: Address,
        pointer_nonce: u8,
        proof_nonce: u8,
    ) -> (r: Result<(Address, Address), ErrorCode>)
        requires
            old(self).wf(),
        ensures
            final(self).wf(),
            match old(self)@.create_pointer(
                index@,
                owner@,
                name@,
                value@,
                pointer_nonce,
                proof_nonce,
            ) {
                Ok(next) => r is Ok && r->Ok_0.0@ == spec_pointer_address(index@, name@)
                    && r->Ok_0.1@ == spec_proof_address(index@, value@) && final(self)@ == next,
                Err(e) => r == Err::<(Address, Address), ErrorCode>(e) && final(self)@ == old(self)@,
            },
    {
        match self.check_pointer(index, owner, name.as_str(), &value, pointer_nonce, proof_nonce) {
            Some(e) => {
                return Err(e);
            },
            None => {},
        }
        let pointer_key = pointer_address(index, name.as_str()).0;
        let proof_key = proof_address(index, &value).0;
        let record = self.indexes.get(index).unwrap();
        let counted = Index {
            owner: record.owner.clone(),
            namespace: copy_bytes(&record.namespace),
            count: record.count + 1,
            is_serial: record.is_serial,
            nonce: record.nonce,
        };
        proof {
            lemma_address_framable(index);
            lemma_address_framable(&value);
            lemma_pointer_keeps_sound(
                self@,
                index@,
                owner@,
                name@,
                value@,
                pointer_nonce,
                proof_nonce,
            );
        }
        self.indexes.replace(index, counted);
        let pointer = Pointer { name: name.clone(), value, nonce: pointer_nonce };
        let marker = Proof { name, nonce: proof_nonce };
        self.pointers.allocate(pointer_key.clone(), pointer);
        self.proofs.allocate(proof_key.clone(), marker);
        assert(self@ =~= old(self)@.with_pointer(
            index@,
            name@,
            value@,
            pointer_nonce,
            proof_nonce,
        ));
        Ok((pointer_key, proof_key))
    }
}

} // verus!
