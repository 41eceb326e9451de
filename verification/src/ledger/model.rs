//! The ledger in contracts: what it holds, and what each operation does to it.

use vstd::prelude::*;
use vstd::utf8::*;
use crate::address::{SeedTag, framable, spec_nonce};
use crate::decimal::decimal;
use crate::errors::ErrorCode;
use crate::ledger::{
    PaymentNonces, spec_authority_address, spec_payment_address, spec_payment_index_address,
    spec_payment_nonce, spec_task_address, spec_task_index_address, spec_task_nonce,
};
use crate::namespace::{base58, spec_payment_index_namespace, spec_task_index_namespace};
use crate::registry::{
    RegistryView, name_framable, spec_pointer_address, spec_pointer_nonce, spec_proof_nonce,
};
use crate::schedule::{chronological, spec_check_process_at, spec_num_transfers, spec_transfer_fee};
use crate::state::{Authority, Config, PaymentView, Role, TaskIndex, TaskStatus, TaskView, Treasury};
use crate::token::{TokenAccountView, WalletView};

verus! {

/// What the creator of a payment asks for, in contracts.
pub struct PaymentOrder {
    pub creditor: Seq<u8>,
    pub mint: Seq<u8>,
    pub memo: Seq<char>,
    pub amount: u64,
    pub recurrence_interval: u64,
    pub start_at: u64,
    pub end_at: u64,
    pub nonces: PaymentNonces,
}

impl PaymentOrder {
    /// Whether the dates of the payment are in order.
    pub open spec fn chronological(self) -> bool {
        chronological(self.recurrence_interval, self.start_at, self.end_at)
    }

    /// How many transfers the payment makes.
    pub open spec fn num_transfers(self) -> nat {
        spec_num_transfers(self.recurrence_interval, self.start_at, self.end_at)
    }
}

/// The addresses of the three indexes in which a payment is registered: the
/// creditor's payments, the debtor's payments, and the tasks of the time
/// bucket in which the payment starts.
pub struct PaymentIndexes {
    pub creditor: Seq<u8>,
    pub debtor: Seq<u8>,
    pub task: Seq<u8>,
}

/// What the creation of a payment leaves behind.
pub struct PaymentCreated {
    pub ledger: LedgerView,
    pub debtor: WalletView,
    pub debtor_tokens: TokenAccountView,
    /// The address of the payment.
    pub payment: Seq<u8>,
    /// The address of its task.
    pub task: Seq<u8>,
}

/// The ledger in contracts.
pub struct LedgerView {
    pub registry: RegistryView,
    pub payments: Map<Seq<u8>, PaymentView>,
    pub tasks: Map<Seq<u8>, TaskView>,
    pub authority: Authority,
    pub config: Config,
    pub treasury: Treasury,
}

impl LedgerView {
    /// The ledger as it starts: the fees set, nothing recorded, nothing
    /// collected; or `InvalidDerivation`, if a nonce is not that of the
    /// record that it is supplied for.
    pub open spec fn initialize(
        transfer_fee_distributor: u64,
        transfer_fee_program: u64,
        authority_nonce: u8,
        config_nonce: u8,
        treasury_nonce: u8,
    ) -> Result<LedgerView, ErrorCode> {
        if authority_nonce != spec_nonce(SeedTag::Authority, Seq::empty()) || config_nonce
            != spec_nonce(SeedTag::Config, Seq::empty()) || treasury_nonce != spec_nonce(
            SeedTag::Treasury,
            Seq::empty(),
        ) {
            Err(ErrorCode::InvalidDerivation)
        } else {
            Ok(
                LedgerView {
                    registry: RegistryView::empty(),
                    payments: Map::empty(),
                    tasks: Map::empty(),
                    authority: Authority { nonce: authority_nonce },
                    config: Config {
                        transfer_fee_program,
                        transfer_fee_distributor,
                        nonce: config_nonce,
                    },
                    treasury: Treasury { nonce: treasury_nonce, balance: 0 },
                },
            )
        }
    }

    /// Whether a payment or a task stands at `address`.
    pub open spec fn on_record(self, address: Seq<u8>) -> bool {
        self.payments.dom().contains(address) || self.tasks.dom().contains(address)
    }

    /// Whether the payment that `debtor` created under `id` is on record as
    /// what its address says.
    pub open spec fn payment_in_order(self, debtor: Seq<u8>, id: Seq<char>) -> bool {
        let record = self.payments[spec_payment_address(debtor, id)];
        &&& record.debtor == debtor
        &&& record.id == id
        &&& record.nonce == spec_payment_nonce(debtor, id)
    }

    /// Whether the task filed under `id` in the index at `task_index` is on
    /// record as what its address says.
    pub open spec fn task_in_order(self, task_index: Seq<u8>, id: Seq<char>) -> bool {
        let record = self.tasks[spec_task_address(task_index, id)];
        &&& record.id == id
        &&& record.nonce == spec_task_nonce(task_index, id)
    }

    /// The records of the ledger fit together: those of the registry do; all
    /// its indexes are serial and owned by the authority, and their pointers
    /// refer to payments and tasks on record; every payment and task is on
    /// record as what its address says; every task has its payment; and the
    /// dates of every payment are in order.
    pub open spec fn sound(self) -> bool {
        &&& self.registry.sound()
        &&& forall|index: Seq<u8>| #[trigger]
            self.registry.indexes.dom().contains(index) ==> self.registry.indexes[index].is_serial
                && self.registry.indexes[index].owner == spec_authority_address()
        &&& forall|index: Seq<u8>, name: Seq<char>| #[trigger]
            self.registry.has_name(index, name) ==> self.on_record(
                self.registry.pointers[spec_pointer_address(index, name)].value,
            )
        &&& forall|payment: Seq<u8>| #[trigger]
            self.payments.dom().contains(payment) ==> payment.len() > 0 && payment[0]
                == SeedTag::Payment.code() && chronological(
                self.payments[payment].recurrence_interval,
                self.payments[payment].start_at,
                self.payments[payment].end_at,
            )
        &&& forall|task: Seq<u8>| #[trigger]
            self.tasks.dom().contains(task) ==> task.len() > 0 && task[0] == SeedTag::Task.code()
                && self.payments.dom().contains(self.tasks[task].payment)
        &&& forall|debtor: Seq<u8>, id: Seq<char>|
            framable(debtor) && name_framable(id) && #[trigger] self.payments.dom().contains(
                spec_payment_address(debtor, id),
            ) ==> self.payment_in_order(debtor, id)
        &&& forall|task_index: Seq<u8>, id: Seq<char>|
            framable(task_index) && name_framable(id) && #[trigger] self.tasks.dom().contains(
                spec_task_address(task_index, id),
            ) ==> self.task_in_order(task_index, id)
    }

    /// The time bucket at `process_at` as a key to look its tasks up by, if
    /// the bucket is open and its count is one that the key can hold.
    pub open spec fn task_index(self, process_at: u64) -> Option<TaskIndex> {
        let address = spec_task_index_address(process_at);
        if self.registry.indexes.dom().contains(address) && self.registry.indexes[address].count
            <= u64::MAX {
            Some(
                TaskIndex {
                    count: self.registry.indexes[address].count as u64,
                    process_at,
                    nonce: self.registry.indexes[address].nonce,
                },
            )
        } else {
            None
        }
    }

    /// What creating the index of a party's payments does.
    pub open spec fn create_payment_index(self, party: Seq<u8>, role: Role, nonce: u8) -> Result<
        LedgerView,
        ErrorCode,
    > {
        match self.registry.create_index(
            spec_authority_address(),
            encode_utf8(spec_payment_index_namespace(base58(party), role)),
            true,
            nonce,
        ) {
            Ok(registry) => Ok(LedgerView { registry, ..self }),
            Err(e) => Err(e),
        }
    }

    /// What opening a time bucket does.
    pub open spec fn create_task_index(self, now: i64, process_at: u64, nonce: u8) -> Result<
        LedgerView,
        ErrorCode,
    > {
        match spec_check_process_at(process_at, now) {
            Err(e) => Err(e),
            Ok(_) => match self.registry.create_index(
                spec_authority_address(),
                encode_utf8(spec_task_index_namespace(process_at)),
                true,
                nonce,
            ) {
                Ok(registry) => Ok(LedgerView { registry, ..self }),
                Err(e) => Err(e),
            },
        }
    }

    /// The indexes in which a payment of `debtor` to `creditor` that starts
    /// at `start_at` is registered.
    pub open spec fn indexes_for(debtor: Seq<u8>, creditor: Seq<u8>, start_at: u64) -> PaymentIndexes {
        PaymentIndexes {
            creditor: spec_payment_index_address(creditor, Role::Creditor),
            debtor: spec_payment_index_address(debtor, Role::Debtor),
            task: spec_task_index_address(start_at),
        }
    }

    /// The count of the index at `index`, as the name of its next pointer.
    pub open spec fn next_name(self, index: Seq<u8>) -> Seq<char> {
        decimal(self.registry.indexes[index].count as nat)
    }

    /// The address of the payment that `debtor` would create now.
    pub open spec fn next_payment(self, indexes: PaymentIndexes, debtor: Seq<u8>) -> Seq<u8> {
        spec_payment_address(debtor, self.next_name(indexes.debtor))
    }

    /// The address of the task that would be filed now.
    pub open spec fn next_task(self, indexes: PaymentIndexes) -> Seq<u8> {
        spec_task_address(indexes.task, self.next_name(indexes.task))
    }

    /// The nonces of the records that creating a payment allocates.
    pub open spec fn nonces_for(self, indexes: PaymentIndexes, debtor: Seq<u8>) -> PaymentNonces {
        let payment = self.next_payment(indexes, debtor);
        let task = self.next_task(indexes);
        PaymentNonces {
            creditor_payment_pointer: spec_pointer_nonce(
                indexes.creditor,
                self.next_name(indexes.creditor),
            ),
            creditor_payment_proof: spec_proof_nonce(indexes.creditor, payment),
            debtor_payment_pointer: spec_pointer_nonce(
                indexes.debtor,
                self.next_name(indexes.debtor),
            ),
            debtor_payment_proof: spec_proof_nonce(indexes.debtor, payment),
            payment: spec_payment_nonce(debtor, self.next_name(indexes.debtor)),
            task: spec_task_nonce(indexes.task, self.next_name(indexes.task)),
            task_pointer: spec_pointer_nonce(indexes.task, self.next_name(indexes.task)),
            task_proof: spec_proof_nonce(indexes.task, task),
        }
    }

    /// The reason, if there is one, for which a payment cannot be created.
    pub open spec fn payment_refusal(
        self,
        indexes: PaymentIndexes,
        debtor: WalletView,
        debtor_tokens: TokenAccountView,
        creditor_tokens: TokenAccountView,
        order: PaymentOrder,
    ) -> Option<ErrorCode> {
        let payment = self.next_payment(indexes, debtor.identity);
        let task = self.next_task(indexes);
        if indexes.creditor == indexes.debtor || indexes.creditor == indexes.task || indexes.debtor
            == indexes.task {
            Some(ErrorCode::AccountMismatch)
        } else if debtor_tokens.owner != debtor.identity || debtor_tokens.mint != order.mint
            || creditor_tokens.owner != order.creditor || creditor_tokens.mint != order.mint {
            Some(ErrorCode::AccountMismatch)
        } else if !self.registry.indexes.dom().contains(indexes.creditor)
            || !self.registry.indexes.dom().contains(indexes.debtor)
            || !self.registry.indexes.dom().contains(indexes.task) {
            Some(ErrorCode::AccountNotFound)
        } else if self.payments.dom().contains(payment) || self.tasks.dom().contains(task) {
            Some(ErrorCode::AddressAlreadyAllocated)
        } else if order.nonces.payment != spec_payment_nonce(
            debtor.identity,
            self.next_name(indexes.debtor),
        ) || order.nonces.task != spec_task_nonce(indexes.task, self.next_name(indexes.task)) {
            Some(ErrorCode::InvalidDerivation)
        } else if !order.chronological() {
            Some(ErrorCode::InvalidChronology)
        } else if debtor.balance < spec_transfer_fee(order.num_transfers(), self.config) {
            Some(ErrorCode::InsufficientBalance)
        } else if order.num_transfers() * order.amount > u64::MAX {
            Some(ErrorCode::Overflow)
        } else if self.creditor_refusal(indexes, debtor.identity, order.nonces) is Some {
            self.creditor_refusal(indexes, debtor.identity, order.nonces)
        } else if self.debtor_refusal(indexes, debtor.identity, order.nonces) is Some {
            self.debtor_refusal(indexes, debtor.identity, order.nonces)
        } else {
            self.bucket_refusal(indexes, order.nonces)
        }
    }

    /// The reason, if there is one, for which the payment cannot be
    /// registered in the creditor's index.
    pub open spec fn creditor_refusal(
        self,
        indexes: PaymentIndexes,
        debtor: Seq<u8>,
        nonces: PaymentNonces,
    ) -> Option<ErrorCode> {
        self.registry.pointer_refusal(
            indexes.creditor,
            spec_authority_address(),
            self.next_name(indexes.creditor),
            self.next_payment(indexes, debtor),
            nonces.creditor_payment_pointer,
            nonces.creditor_payment_proof,
        )
    }

    /// The reason, if there is one, for which the payment cannot be
    /// registered in the debtor's index.
    pub open spec fn debtor_refusal(
        self,
        indexes: PaymentIndexes,
        debtor: Seq<u8>,
        nonces: PaymentNonces,
    ) -> Option<ErrorCode> {
        self.registry.pointer_refusal(
            indexes.debtor,
            spec_authority_address(),
            self.next_name(indexes.debtor),
            self.next_payment(indexes, debtor),
            nonces.debtor_payment_pointer,
            nonces.debtor_payment_proof,
        )
    }

    /// The reason, if there is one, for which the task cannot be registered
    /// in the index of its time bucket.
    pub open spec fn bucket_refusal(self, indexes: PaymentIndexes, nonces: PaymentNonces) -> Option<
        ErrorCode,
    > {
        self.registry.pointer_refusal(
            indexes.task,
            spec_authority_address(),
            self.next_name(indexes.task),
            self.next_task(indexes),
            nonces.task_pointer,
            nonces.task_proof,
        )
    }

    /// The registry once a payment and its task have been registered: the
    /// payment in the creditor's index, then in the debtor's, then the task in
    /// the time bucket's, each under the count of its index.
    pub open spec fn registered(
        self,
        indexes: PaymentIndexes,
        debtor: Seq<u8>,
        nonces: PaymentNonces,
    ) -> RegistryView {
        let payment = self.next_payment(indexes, debtor);
        let task = self.next_task(indexes);
        self.registry.with_pointer(
            indexes.creditor,
            self.next_name(indexes.creditor),
            payment,
            nonces.creditor_payment_pointer,
            nonces.creditor_payment_proof,
        ).with_pointer(
            indexes.debtor,
            self.next_name(indexes.debtor),
            payment,
            nonces.debtor_payment_pointer,
            nonces.debtor_payment_proof,
        ).with_pointer(
            indexes.task,
            self.next_name(indexes.task),
            task,
            nonces.task_pointer,
            nonces.task_proof,
        )
    }

    /// What a created payment leaves behind: the payment recorded with the
    /// fee of all its transfers in escrow, its one task pending, both
    /// registered; the debtor's balance less by that fee; the payment named
    /// delegate of the debtor's tokens for the amount of all its transfers.
    pub open spec fn with_payment(
        self,
        indexes: PaymentIndexes,
        debtor: WalletView,
        debtor_tokens: TokenAccountView,
        creditor_tokens: TokenAccountView,
        order: PaymentOrder,
    ) -> PaymentCreated {
        let payment = self.next_payment(indexes, debtor.identity);
        let task = self.next_task(indexes);
        let fee = spec_transfer_fee(order.num_transfers(), self.config);
        PaymentCreated {
            ledger: LedgerView {
                registry: self.registered(indexes, debtor.identity, order.nonces),
                payments: self.payments.insert(
                    payment,
                    PaymentView {
                        id: self.next_name(indexes.debtor),
                        memo: order.memo,
                        debtor: debtor.identity,
                        debtor_tokens: debtor_tokens.address,
                        creditor: order.creditor,
                        creditor_tokens: creditor_tokens.address,
                        mint: order.mint,
                        amount: order.amount,
                        recurrence_interval: order.recurrence_interval,
                        start_at: order.start_at,
                        end_at: order.end_at,
                        nonce: order.nonces.payment,
                        balance: fee as u64,
                    },
                ),
                tasks: self.tasks.insert(
                    task,
                    TaskView {
                        id: self.next_name(indexes.task),
                        payment,
                        status: TaskStatus::Pending,
                        nonce: order.nonces.task,
                    },
                ),
                ..self
            },
            debtor: WalletView { balance: (debtor.balance - fee) as u64, ..debtor },
            debtor_tokens: debtor_tokens.approved(
                payment,
                (order.num_transfers() * order.amount) as u64,
            ),
            payment,
            task,
        }
    }

    /// What creating a payment does, given the indexes to register it in.
    pub open spec fn create_payment_in(
        self,
        indexes: PaymentIndexes,
        debtor: WalletView,
        debtor_tokens: TokenAccountView,
        creditor_tokens: TokenAccountView,
        order: PaymentOrder,
    ) -> Result<PaymentCreated, ErrorCode> {
        match self.payment_refusal(indexes, debtor, debtor_tokens, creditor_tokens, order) {
            Some(e) => Err(e),
            None => Ok(self.with_payment(indexes, debtor, debtor_tokens, creditor_tokens, order)),
        }
    }

    /// What creating a payment does.
    pub open spec fn create_payment(
        self,
        debtor: WalletView,
        debtor_tokens: TokenAccountView,
        creditor_tokens: TokenAccountView,
        order: PaymentOrder,
    ) -> Result<PaymentCreated, ErrorCode> {
        self.create_payment_in(
            Self::indexes_for(debtor.identity, order.creditor, order.start_at),
            debtor,
            debtor_tokens,
            creditor_tokens,
            order,
        )
    }

    /// The payment that the task at `task` transfers for.
    pub open spec fn payment_of(self, task: Seq<u8>) -> PaymentView {
        self.payments[self.tasks[task].payment]
    }

    /// Whether the transfer of a task can be made now: the payment is the
    /// delegate of the debtor's tokens, and neither the delegation nor the
    /// balance is below the amount of the payment.
    pub open spec fn transfer_due(self, task: Seq<u8>, debtor_tokens: TokenAccountView) -> bool {
        debtor_tokens.allows(self.tasks[task].payment, self.payment_of(task).amount)
    }

    /// The reason, if there is one, for which a task cannot be processed.
    pub open spec fn task_refusal(
        self,
        task: Seq<u8>,
        debtor_tokens: TokenAccountView,
        creditor_tokens: TokenAccountView,
        signer: WalletView,
    ) -> Option<ErrorCode> {
        let payment = self.payment_of(task);
        if !self.tasks.dom().contains(task) || !self.payments.dom().contains(
            self.tasks[task].payment,
        ) {
            Some(ErrorCode::AccountNotFound)
        } else if debtor_tokens.address != payment.debtor_tokens || debtor_tokens.owner
            != payment.debtor || debtor_tokens.mint != payment.mint || creditor_tokens.address
            != payment.creditor_tokens || creditor_tokens.owner != payment.creditor
            || creditor_tokens.mint != payment.mint {
            Some(ErrorCode::AccountMismatch)
        } else if self.transfer_due(task, debtor_tokens) && creditor_tokens.amount + payment.amount
            > u64::MAX {
            Some(ErrorCode::Overflow)
        } else if payment.balance < self.config.transfer_fee_distributor {
            Some(ErrorCode::EscrowUnderflow)
        } else if signer.balance + self.config.transfer_fee_distributor > u64::MAX {
            Some(ErrorCode::Overflow)
        } else if payment.balance - self.config.transfer_fee_distributor
            < self.config.transfer_fee_program {
            Some(ErrorCode::EscrowUnderflow)
        } else if self.treasury.balance + self.config.transfer_fee_program > u64::MAX {
            Some(ErrorCode::Overflow)
        } else {
            None
        }
    }

    /// The ledger once the fees of one transfer of the task at `task` have
    /// been paid out of the escrow of its payment: the distributor's share to
    /// whoever processed the task, the program's share to the treasury.
    pub open spec fn with_fees_paid(self, task: Seq<u8>) -> LedgerView {
        let payment = self.payment_of(task);
        LedgerView {
            payments: self.payments.insert(
                self.tasks[task].payment,
                PaymentView {
                    balance: (payment.balance - self.config.transfer_fee_distributor
                        - self.config.transfer_fee_program) as u64,
                    ..payment
                },
            ),
            treasury: Treasury {
                balance: (self.treasury.balance + self.config.transfer_fee_program) as u64,
                ..self.treasury
            },
            ..self
        }
    }
}

} // verus!
