//! The records that the arena holds, and what each of them is in contracts.

use vstd::prelude::*;
use crate::address::Address;

verus! {

/// An owner-scoped, append-only collection of named references.
pub struct Index {
    /// Who alone may add to the index.
    pub owner: Address,
    /// What the index is about: free text, or the address of another record.
    pub namespace: Vec<u8>,
    /// How many pointers the index holds.
    pub count: u128,
    /// Whether names must follow the count.
    pub is_serial: bool,
    /// The derivation nonce that the creator supplied.
    pub nonce: u8,
}

/// An index in contracts.
pub struct IndexView {
    pub owner: Seq<u8>,
    pub namespace: Seq<u8>,
    pub count: u128,
    pub is_serial: bool,
    pub nonce: u8,
}

impl View for Index {
    type V = IndexView;

    open spec fn view(&self) -> IndexView {
        IndexView {
            owner: self.owner@,
            namespace: self.namespace@,
            count: self.count,
            is_serial: self.is_serial,
            nonce: self.nonce,
        }
    }
}

/// A named reference from an index to the address of another record.
pub struct Pointer {
    pub name: String,
    pub value: Address,
    pub nonce: u8,
}

/// A pointer in contracts.
pub struct PointerView {
    pub name: Seq<char>,
    pub value: Seq<u8>,
    pub nonce: u8,
}

impl View for Pointer {
    type V = PointerView;

    open spec fn view(&self) -> PointerView {
        PointerView { name: self.name@, value: self.value@, nonce: self.nonce }
    }
}

/// The mark that an index holds a value: it stands at an address derived from
/// the index and the value alone, and carries the name of the pointer made with it.
pub struct Proof {
    pub name: String,
    pub nonce: u8,
}

/// A proof in contracts.
pub struct ProofView {
    pub name: Seq<char>,
    pub nonce: u8,
}

impl View for Proof {
    type V = ProofView;

    open spec fn view(&self) -> ProofView {
        ProofView { name: self.name@, nonce: self.nonce }
    }
}

/// The side of a payment on which a party stands.
#[derive(Clone, Copy, Debug, PartialEq, Eq, Structural)]
pub enum Role {
    Creditor,
    Debtor,
}

/// Where a task stands in its life.
#[derive(Clone, Copy, Debug, PartialEq, Eq, Structural)]
pub enum TaskStatus {
    Pending,
    MarkedForRepetition,
}

/// The fees that each processed transfer costs.
#[derive(Clone, Copy, Debug, PartialEq, Eq, Structural)]
pub struct Config {
    /// The share of the treasury.
    pub transfer_fee_program: u64,
    /// The share of whoever processes the task.
    pub transfer_fee_distributor: u64,
    pub nonce: u8,
}

/// The identity under which the ledger owns every index that it creates.
#[derive(Clone, Copy, Debug, PartialEq, Eq, Structural)]
pub struct Authority {
    pub nonce: u8,
}

/// Where the ledger's own share of the fees is collected.
#[derive(Clone, Copy, Debug, PartialEq, Eq, Structural)]
pub struct Treasury {
    pub nonce: u8,
    /// What has been collected.
    pub balance: u64,
}

/// A time bucket as a key to look its tasks up by: when the bucket is to be
/// processed, and how many tasks are filed in it, under the numerals below
/// that count.
#[derive(Clone, Copy, Debug, PartialEq, Eq, Structural)]
pub struct TaskIndex {
    pub count: u64,
    /// The time of the bucket: a full minute.
    pub process_at: u64,
    pub nonce: u8,
}

/// A payment from a debtor to a creditor, once or at intervals, with the fees
/// of its transfers held in escrow in the record itself.
pub struct Payment {
    /// The count of the debtor's payment index when the payment was created.
    pub id: String,
    pub memo: String,
    pub debtor: Address,
    pub debtor_tokens: Address,
    pub creditor: Address,
    pub creditor_tokens: Address,
    pub mint: Address,
    /// Units of the token per transfer.
    pub amount: u64,
    /// Seconds between transfers; zero for a payment made once.
    pub recurrence_interval: u64,
    pub start_at: u64,
    pub end_at: u64,
    pub nonce: u8,
    /// The escrow: fees paid in by the debtor and not yet paid out.
    pub balance: u64,
}

/// A payment in contracts.
pub struct PaymentView {
    pub id: Seq<char>,
    pub memo: Seq<char>,
    pub debtor: Seq<u8>,
    pub debtor_tokens: Seq<u8>,
    pub creditor: Seq<u8>,
    pub creditor_tokens: Seq<u8>,
    pub mint: Seq<u8>,
    pub amount: u64,
    pub recurrence_interval: u64,
    pub start_at: u64,
    pub end_at: u64,
    pub nonce: u8,
    pub balance: u64,
}

impl View for Payment {
    type V = PaymentView;

    open spec fn view(&self) -> PaymentView {
        PaymentView {
            id: self.id@,
            memo: self.memo@,
            debtor: self.debtor@,
            debtor_tokens: self.debtor_tokens@,
            creditor: self.creditor@,
            creditor_tokens: self.creditor_tokens@,
            mint: self.mint@,
            amount: self.amount,
            recurrence_interval: self.recurrence_interval,
            start_at: self.start_at,
            end_at: self.end_at,
            nonce: self.nonce,
            balance: self.balance,
        }
    }
}

/// One scheduled transfer of a payment.
pub struct Task {
    /// The count of the time bucket's index when the task was created.
    pub id: String,
    /// The address of the payment to transfer for.
    pub payment: Address,
    pub status: TaskStatus,
    pub nonce: u8,
}

/// A task in contracts.
pub struct TaskView {
    pub id: Seq<char>,
    pub payment: Seq<u8>,
    pub status: TaskStatus,
    pub nonce: u8,
}

impl View for Task {
    type V = TaskView;

    open spec fn view(&self) -> TaskView {
        TaskView { id: self.id@, payment: self.payment@, status: self.status, nonce: self.nonce }
    }
}

} // verus!
