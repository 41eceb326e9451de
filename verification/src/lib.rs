//! An append-only, owner-scoped index of named references, and a scheduler of
//! recurring payments that registers its work in such indexes.
//!
//! Records live in a key-addressed arena: the address of a record is a
//! function of a seed tag and of the key parts that name it, so that two
//! records with different keys never share an address, and no record stands
//! at an address under which a party could act by its key.
//!
//! - `address`: addresses, their derivation and its nonce.
//! - `arena`: records under addresses, allocated once.
//! - `registry`: indexes, pointers and proofs.
//! - `ledger`: payments, their escrow and their tasks.
//! - `schedule`, `namespace`, `decimal`, `token`, `state`, `errors`: the
//!   rules and the values that the two are built on.
//!
//! The registry and the ledger each come in four parts: the operations, in
//! the module itself; under `model`, what the operations do, in contracts;
//! under `invariants`, how the records fit together; under `laws`, what
//! follows for every use.

pub mod address;
pub mod arena;
pub mod decimal;
pub mod errors;
pub mod ledger;
pub mod namespace;
pub mod registry;
pub mod schedule;
pub mod state;
pub mod token;
