//! Why an operation was refused.

use vstd::prelude::*;
use vstd::string::*;

verus! {

/// The reasons for which an operation is refused. A refused operation changes
/// nothing.
#[derive(Clone, Copy, Debug, PartialEq, Eq, Structural)]
pub enum ErrorCode {
    /// The debtor's balance does not cover the transfer fees.
    InsufficientBalance,
    /// The start and end of a payment are not in order.
    InvalidChronology,
    /// A time bucket does not start on a full minute.
    InvalidProcessAtIntraMinute,
    /// A time bucket does not lie in the future.
    InvalidProcessAtPast,
    /// The caller is not the owner of the index.
    NotIndexOwner,
    /// The name offered to a serial index is not its count.
    SerialNameMismatch,
    /// The index already has a pointer of that name.
    DuplicatePointerName,
    /// A record already stands at the address of the record to create.
    AddressAlreadyAllocated,
    /// A nonce is not the nonce of the address that it was supplied for.
    InvalidDerivation,
    /// The escrow of a payment does not cover a fee.
    EscrowUnderflow,
    /// No record stands at an address that the operation names.
    AccountNotFound,
    /// An account handed to the operation is not the one that the records name.
    AccountMismatch,
    /// A counter or a balance would pass the largest number it can hold.
    Overflow,
}

impl ErrorCode {
    /// The message of each reason.
    pub open spec fn spec_message(self) -> Seq<char> {
        match self {
            ErrorCode::InsufficientBalance => "Insufficient SOL to pay transfer fees."@,
            ErrorCode::InvalidChronology => "The timestamps must be chronological."@,
            ErrorCode::InvalidProcessAtIntraMinute => {
                "Task sets cannot be scheduled for processing intra-minute."@
            },
            ErrorCode::InvalidProcessAtPast => "Task sets cannot be scheduled for processing in the past."@,
            ErrorCode::NotIndexOwner => "Only the owner of an index can add to it."@,
            ErrorCode::SerialNameMismatch => "The name in a serial index must be its count."@,
            ErrorCode::DuplicatePointerName => "The index already holds a pointer of that name."@,
            ErrorCode::AddressAlreadyAllocated => "The address is already allocated."@,
            ErrorCode::InvalidDerivation => "The nonce does not derive the address."@,
            ErrorCode::EscrowUnderflow => "The escrow does not cover the transfer fee."@,
            ErrorCode::AccountNotFound => "No record stands at the address."@,
            ErrorCode::AccountMismatch => "The account is not the one on record."@,
            ErrorCode::Overflow => "The number is too large."@,
        }
    }

    /// The message to show for this reason.
    pub fn message(&self) -> (s: String)
        ensures
            s@ == self.spec_message(),
    {
        match self {
            ErrorCode::InsufficientBalance => String::from_str(
                "Insufficient SOL to pay transfer fees.",
            ),
            ErrorCode::InvalidChronology => String::from_str(
                "The timestamps must be chronological.",
            ),
            ErrorCode::InvalidProcessAtIntraMinute => String::from_str(
                "Task sets cannot be scheduled for processing intra-minute.",
            ),
            ErrorCode::InvalidProcessAtPast => String::from_str(
                "Task sets cannot be scheduled for processing in the past.",
            ),
            ErrorCode::NotIndexOwner => String::from_str(
                "Only the owner of an index can add to it.",
            ),
            ErrorCode::SerialNameMismatch => String::from_str(
                "The name in a serial index must be its count.",
            ),
            ErrorCode::DuplicatePointerName => String::from_str(
                "The index already holds a pointer of that name.",
            ),
            ErrorCode::AddressAlreadyAllocated => String::from_str(
                "The address is already allocated.",
            ),
            ErrorCode::InvalidDerivation => String::from_str(
                "The nonce does not derive the address.",
            ),
            ErrorCode::EscrowUnderflow => String::from_str(
                "The escrow does not cover the transfer fee.",
            ),
            ErrorCode::AccountNotFound => String::from_str("No record stands at the address."),
            ErrorCode::AccountMismatch => String::from_str("The account is not the one on record."),
            ErrorCode::Overflow => String::from_str("The number is too large."),
        }
    }
}

} // verus!
