//! The payment ledger: payments between debtors and creditors, the fees of
//! their transfers held in escrow, and the tasks that move the tokens, each
//! registered in the indexes that the ledger keeps under its own authority.

use vstd::prelude::*;
use vstd::slice::slice_to_vec;
use vstd::string::*;
use vstd::utf8::*;
use crate::address::{
    Address, Identity, SeedTag, copy_bytes, key_of, lemma_address_framable, spec_address,
    spec_nonce,
};
use crate::arena::Arena;
use crate::decimal::decimal_text;
use crate::errors::ErrorCode;
use crate::ledger::invariants::{lemma_own_index_keeps_sound, lemma_payment_keeps_sound};
use crate::namespace::{
    base58, payment_index_namespace, spec_payment_index_namespace, spec_task_index_namespace,
    task_index_namespace,
};
use crate::registry::{Registry, index_address, name_framable, spec_index_address, spec_index_nonce};
use crate::registry::invariants::lemma_pointer_elsewhere;
use crate::schedule::{check_process_at, num_transfers, total_amount, transfer_fee};
use crate::state::{Authority, Config, Payment, Role, Task, TaskIndex, TaskStatus, Treasury};
use crate::token::{TokenAccount, Wallet, WalletView};

pub mod invariants;
pub mod laws;
pub mod model;

pub use crate::ledger::model::{LedgerView, PaymentCreated, PaymentIndexes, PaymentOrder};

verus! {

/// The address of the authority under which the ledger owns its indexes.
pub open spec fn spec_authority_address() -> Seq<u8> {
    spec_address(SeedTag::Authority, Seq::empty())
}

/// The address of the index that the ledger keeps about `namespace`.
pub open spec fn spec_own_index_address(namespace: Seq<char>) -> Seq<u8> {
    spec_index_address(spec_authority_address(), encode_utf8(namespace))
}

/// The nonce of that address.
pub open spec fn spec_own_index_nonce(namespace: Seq<char>) -> u8 {
    spec_index_nonce(spec_authority_address(), encode_utf8(namespace))
}

/// The address of the index of the payments in which `party` has `role`.
pub open spec fn spec_payment_index_address(party: Seq<u8>, role: Role) -> Seq<u8> {
    spec_own_index_address(spec_payment_index_namespace(base58(party), role))
}

/// The address of the index of the tasks to process at `process_at`.
pub open spec fn spec_task_index_address(process_at: u64) -> Seq<u8> {
    spec_own_index_address(spec_task_index_namespace(process_at))
}

/// The address of the payment that `debtor` created under `id`.
pub open spec fn spec_payment_address(debtor: Seq<u8>, id: Seq<char>) -> Seq<u8> {
    spec_address(SeedTag::Payment, seq![debtor, encode_utf8(id)])
}

/// The nonce of that address.
pub open spec fn spec_payment_nonce(debtor: Seq<u8>, id: Seq<char>) -> u8 {
    spec_nonce(SeedTag::Payment, seq![debtor, encode_utf8(id)])
}

/// The address of the task filed under `id` in the index at `task_index`.
pub open spec fn spec_task_address(task_index: Seq<u8>, id: Seq<char>) -> Seq<u8> {
    spec_address(SeedTag::Task, seq![task_index, encode_utf8(id)])
}

/// The nonce of that address.
pub open spec fn spec_task_nonce(task_index: Seq<u8>, id: Seq<char>) -> u8 {
    spec_nonce(SeedTag::Task, seq![task_index, encode_utf8(id)])
}

/// The address of a record of which the ledger has one, and its nonce: the
/// authority, the fees or the treasury.
pub fn own_address(tag: SeedTag) -> (r: (Address, u8))
    ensures
        r.0@ == spec_address(tag, Seq::empty()),
        r.1 == spec_nonce(tag, Seq::empty()),
{
    let parts: Vec<Vec<u8>> = Vec::new();
    assert(key_of(&parts) =~= Seq::<Seq<u8>>::empty());
    crate::address::derive(tag, &parts)
}

/// The address of the authority under which the ledger owns its indexes.
pub fn authority_address() -> (a: Address)
    ensures
        a@ == spec_authority_address(),
{
    own_address(SeedTag::Authority).0
}

/// The address of the index that the ledger keeps about `namespace`, and its nonce.
pub fn own_index_address(namespace: &str) -> (r: (Address, u8))
    ensures
        r.0@ == spec_own_index_address(namespace@),
        r.1 == spec_own_index_nonce(namespace@),
        name_framable(namespace@),
{
    let bytes = slice_to_vec(namespace.as_bytes());
    assert(bytes.len() == bytes@.len());
    index_address(&authority_address(), &bytes)
}

/// The address of the index of the payments in which `party` has `role`.
pub fn payment_index_address(party: &Identity, role: Role) -> (a: Address)
    ensures
        a@ == spec_payment_index_address(party@, role),
        name_framable(spec_payment_index_namespace(base58(party@), role)),
{
    let namespace = payment_index_namespace(party, role);
    own_index_address(namespace.as_str()).0
}

/// The address of the index of the tasks to process at `process_at`.
pub fn task_index_address(process_at: u64) -> (a: Address)
    ensures
        a@ == spec_task_index_address(process_at),
        name_framable(spec_task_index_namespace(process_at)),
{
    let namespace = task_index_namespace(process_at);
    own_index_address(namespace.as_str()).0
}

/// The address of the payment that `debtor` created under `id`, and its nonce.
pub fn payment_address(debtor: &Address, id: &str) -> (r: (Address, u8))
    ensures
        r.0@ == spec_payment_address(debtor@, id@),
        r.1 == spec_payment_nonce(debtor@, id@),
{
    let mut parts: Vec<Vec<u8>> = Vec::new();
    parts.push(copy_bytes(&debtor.bytes));
    parts.push(slice_to_vec(id.as_bytes()));
    assert(key_of(&parts) =~= seq![debtor@, encode_utf8(id@)]);
    crate::address::derive(SeedTag::Payment, &parts)
}

/// The address of the task filed under `id` in the index at `task_index`,
/// and its nonce.
pub fn task_address(task_index: &Address, id: &str) -> (r: (Address, u8))
    ensures
        r.0@ == spec_task_address(task_index@, id@),
        r.1 == spec_task_nonce(task_index@, id@),
{
    let mut parts: Vec<Vec<u8>> = Vec::new();
    parts.push(copy_bytes(&task_index.bytes));
    parts.push(slice_to_vec(id.as_bytes()));
    assert(key_of(&parts) =~= seq![task_index@, encode_utf8(id@)]);
    crate::address::derive(SeedTag::Task, &parts)
}

/// The derivation nonces that the creator of a payment supplies, one for
/// each record that the creation allocates.
#[derive(Clone, Copy, Debug, PartialEq, Eq, Structural)]
pub struct PaymentNonces {
    pub creditor_payment_pointer: u8,
    pub creditor_payment_proof: u8,
    pub debtor_payment_pointer: u8,
    pub debtor_payment_proof: u8,
    pub payment: u8,
    pub task: u8,
    pub task_pointer: u8,
    pub task_proof: u8,
}

/// The payment ledger.
pub struct Ledger {
    registry: Registry,
    payments: Arena<Payment>,
    tasks: Arena<Task>,
    authority: Authority,
    config: Config,
    treasury: Treasury,
}

impl View for Ledger {
    type V = LedgerView;

    closed spec fn view(&self) -> LedgerView {
        LedgerView {
            registry: self.registry@,
            payments: self.payments@,
            tasks: self.tasks@,
            authority: self.authority,
            config: self.config,
            treasury: self.treasury,
        }
    }
}

impl Ledger {
    /// The ledger is in order, and so is its registry.
    pub closed spec fn wf(&self) -> bool {
        &&& self.registry.wf()
        &&& self.payments.wf()
        &&& self.tasks.wf()
        &&& self@.sound()
    }

    /// What `wf` says of the ledger's records.
    pub proof fn wf_means_sound(&self)
        requires
            self.wf(),
        ensures
            self@.sound(),
    {
    }

    /// Starts a ledger: sets the fee that each processed transfer pays to
    /// whoever processes it and the fee that it pays to the treasury. The
    /// nonces are those of the authority, of the fees and of the treasury.
    pub fn initialize_program(
        config_transfer_fee_distributor: u64,
        config_transfer_fee_program: u64,
        authority_nonce: u8,
        config_nonce: u8,
        treasury_nonce: u8,
    ) -> (r: Result<Ledger, ErrorCode>)
        ensures
            match LedgerView::initialize(
                config_transfer_fee_distributor,
                config_transfer_fee_program,
                authority_nonce,
                config_nonce,
                treasury_nonce,
            ) {
                Ok(start) => r is Ok && r->Ok_0.wf() && r->Ok_0@ == start,
                Err(e) => r is Err && r->Err_0 == e,
            },
    {
        if authority_nonce != own_address(SeedTag::Authority).1 || config_nonce != own_address(
            SeedTag::Config,
        ).1 || treasury_nonce != own_address(SeedTag::Treasury).1 {
            return Err(ErrorCode::InvalidDerivation);
        }
        Ok(
            Ledger {
                registry: Registry::new(),
                payments: Arena::new(),
                tasks: Arena::new(),
                authority: Authority { nonce: authority_nonce },
                config: Config {
                    transfer_fee_program: config_transfer_fee_program,
                    transfer_fee_distributor: config_transfer_fee_distributor,
                    nonce: config_nonce,
                },
                treasury: Treasury { nonce: treasury_nonce, balance: 0 },
            },
        )
    }

    /// The registry in which the ledger keeps its indexes.
    pub fn registry(&self) -> (r: &Registry)
        requires
            self.wf(),
        ensures
            r.wf(),
            r@ == self@.registry,
    {
        &self.registry
    }

    /// The authority under which the ledger owns its indexes.
    pub fn authority(&self) -> (a: Authority)
        ensures
            a == self@.authority,
    {
        self.authority
    }

    /// The fees in force.
    pub fn config(&self) -> (c: Config)
        ensures
            c == self@.config,
    {
        self.config
    }

    /// The treasury and what it has collected.
    pub fn treasury(&self) -> (t: Treasury)
        ensures
            t == self@.treasury,
    {
        self.treasury
    }

    /// The payment at `address`, if there is one.
    pub fn payment_at(&self, address: &Address) -> (r: Option<&Payment>)
        requires
            self.wf(),
        ensures
            match r {
                Some(payment) => self@.payments.dom().contains(address@) && payment@
                    == self@.payments[address@],
                None => !self@.payments.dom().contains(address@),
            },
    {
        self.payments.get(address)
    }

    /// The task at `address`, if there is one.
    pub fn task_at(&self, address: &Address) -> (r: Option<&Task>)
        requires
            self.wf(),
        ensures
            match r {
                Some(task) => self@.tasks.dom().contains(address@) && task@
                    == self@.tasks[address@],
                None => !self@.tasks.dom().contains(address@),
            },
    {
        self.tasks.get(address)
    }

    /// The time bucket at `process_at` as a key to look its tasks up by: the
    /// tasks of the bucket are those that its index holds under the numerals
    /// below the count.
    pub fn task_index(&self, process_at: u64) -> (r: Option<TaskIndex>)
        requires
            self.wf(),
        ensures
            r == self@.task_index(process_at),
    {
        let address = task_index_address(process_at);
        match self.registry.index_at(&address) {
            Some(index) => {
                if index.count <= u64::MAX as u128 {
                    Some(TaskIndex { count: index.count as u64, process_at, nonce: index.nonce })
                } else {
                    None
                }
            },
            None => None,
        }
    }

    /// Creates the index of the payments in which `party` has `role`: a
    /// serial index that the ledger owns. Returns its address.
    pub fn create_payment_index(&mut self, party: &Identity, role: Role, nonce: u8) -> (r: Result<
        Address,
        ErrorCode,
    >)
        requires
            old(self).wf(),
        ensures
            final(self).wf(),
            match old(self)@.create_payment_index(party@, role, nonce) {
                Ok(next) => r is Ok && r->Ok_0@ == spec_payment_index_address(party@, role)
                    && final(self)@ == next,
                Err(e) => r == Err::<Address, ErrorCode>(e) && final(self)@ == old(self)@,
            },
    {
        let namespace = payment_index_namespace(party, role);
        let bytes = slice_to_vec(namespace.as_str().as_bytes());
        proof {
            assert(bytes.len() == bytes@.len());
            if old(self)@.create_payment_index(party@, role, nonce) is Ok {
                lemma_own_index_keeps_sound(old(self)@, namespace@, nonce);
            }
        }
        self.registry.create_index(&authority_address(), &bytes, true, nonce)
    }

    /// Opens the time bucket at `process_at`: a serial index of tasks that
    /// the ledger owns. The bucket must start on a full minute and, with the
    /// time at `now`, lie in the future. Returns its address.
    pub fn create_task_index(&mut self, now: i64, process_at: u64, nonce: u8) -> (r: Result<
        Address,
        ErrorCode,
    >)
        requires
            old(self).wf(),
        ensures
            final(self).wf(),
            match old(self)@.create_task_index(now, process_at, nonce) {
                Ok(next) => r is Ok && r->Ok_0@ == spec_task_index_address(process_at)
                    && final(self)@ == next,
                Err(e) => r == Err::<Address, ErrorCode>(e) && final(self)@ == old(self)@,
            },
    {
        match check_process_at(process_at, now) {
            Err(e) => {
                return Err(e);
            },
            Ok(_) => {},
        }
        let namespace = task_index_namespace(process_at);
        let bytes = slice_to_vec(namespace.as_str().as_bytes());
        proof {
            assert(bytes.len() == bytes@.len());
            if old(self)@.create_task_index(now, process_at, nonce) is Ok {
                lemma_own_index_keeps_sound(old(self)@, namespace@, nonce);
            }
        }
        self.registry.create_index(&authority_address(), &bytes, true, nonce)
    }

    /// Creates a payment from `debtor` to `creditor` and its one task, and
    /// registers them in the three given indexes. See `create_payment`, which
    /// finds the indexes itself.
    pub fn create_payment_in(
        &mut self,
        creditor_index: &Address,
        debtor_index: &Address,
        task_index: &Address,
        debtor: &mut Wallet,
        creditor: &Identity,
        debtor_tokens: &mut TokenAccount,
        creditor_tokens: &TokenAccount,
        mint: &Address,
        memo: String,
        amount: u64,
        recurrence_interval: u64,
        start_at: u64,
        end_at: u64,
        nonces: PaymentNonces,
    ) -> (r: Result<(Address, Address), ErrorCode>)
        requires
            old(self).wf(),
        ensures
            final(self).wf(),
            match old(self)@.create_payment_in(
                (PaymentIndexes {
                    creditor: creditor_index@,
                    debtor: debtor_index@,
                    task: task_index@,
                }),
                old(debtor)@,
                old(debtor_tokens)@,
                creditor_tokens@,
                (PaymentOrder {
                    creditor: creditor@,
                    mint: mint@,
                    memo: memo@,
                    amount,
                    recurrence_interval,
                    start_at,
                    end_at,
                    nonces,
                }),
            ) {
                Ok(done) => {
                    &&& r is Ok
                    &&& r->Ok_0.0@ == done.payment
                    &&& r->Ok_0.1@ == done.task
                    &&& final(self)@ == done.ledger
                    &&& final(debtor)@ == done.debtor
                    &&& final(debtor_tokens)@ == done.debtor_tokens
                },
                Err(e) => {
                    &&& r == Err::<(Address, Address), ErrorCode>(e)
                    &&& final(self)@ == old(self)@
                    &&& final(debtor)@ == old(debtor)@
                    &&& final(debtor_tokens)@ == old(debtor_tokens)@
                },
            },
    {
        let ghost before = self@;
        let ghost indexes = PaymentIndexes {
            creditor: creditor_index@,
            debtor: debtor_index@,
            task: task_index@,
        };
        let ghost order = PaymentOrder {
            creditor: creditor@,
            mint: mint@,
            memo: memo@,
            amount,
            recurrence_interval,
            start_at,
            end_at,
            nonces,
        };
        if creditor_index.same(debtor_index) || creditor_index.same(task_index)
            || debtor_index.same(task_index) {
            return Err(ErrorCode::AccountMismatch);
        }
        let debtor_address = debtor.identity.address();
        let creditor_address = creditor.address();
        if !debtor_tokens.owner.same(&debtor_address) || !debtor_tokens.mint.same(mint)
            || !creditor_tokens.owner.same(&creditor_address) || !creditor_tokens.mint.same(mint) {
            return Err(ErrorCode::AccountMismatch);
        }
        let creditor_count: u128 = match self.registry.index_at(creditor_index) {
            Some(index) => index.count,
            None => {
                return Err(ErrorCode::AccountNotFound);
            },
        };
        let debtor_count: u128 = match self.registry.index_at(debtor_index) {
            Some(index) => index.count,
            None => {
                return Err(ErrorCode::AccountNotFound);
            },
        };
        let task_count: u128 = match self.registry.index_at(task_index) {
            Some(index) => index.count,
            None => {
                return Err(ErrorCode::AccountNotFound);
            },
        };
        let creditor_name = decimal_text(creditor_count);
        let payment_id = decimal_text(debtor_count);
        let task_id = decimal_text(task_count);
        let (payment_key, payment_nonce) = payment_address(&debtor_address, payment_id.as_str());
        let (task_key, task_nonce) = task_address(task_index, task_id.as_str());
        if self.payments.contains(&payment_key) || self.tasks.contains(&task_key) {
            return Err(ErrorCode::AddressAlreadyAllocated);
        }
        if nonces.payment != payment_nonce || nonces.task != task_nonce {
            return Err(ErrorCode::InvalidDerivation);
        }
        let transfers: u64 = match num_transfers(recurrence_interval, start_at, end_at) {
            Ok(n) => n,
            Err(e) => {
                return Err(e);
            },
        };
        let fee: u64 = match transfer_fee(transfers, &self.config) {
            Some(f) => f,
            None => {
                return Err(ErrorCode::InsufficientBalance);
            },
        };
        if debtor.balance < fee {
            return Err(ErrorCode::InsufficientBalance);
        }
        let delegated: u64 = match total_amount(transfers, amount) {
            Some(t) => t,
            None => {
                return Err(ErrorCode::Overflow);
            },
        };
        let owner = authority_address();
        match self.registry.check_pointer(
            creditor_index,
            &owner,
            creditor_name.as_str(),
            &payment_key,
            nonces.creditor_payment_pointer,
            nonces.creditor_payment_proof,
        ) {
            Some(e) => {
                return Err(e);
            },
            None => {},
        }
        match self.registry.check_pointer(
            debtor_index,
            &owner,
            payment_id.as_str(),
            &payment_key,
            nonces.debtor_payment_pointer,
            nonces.debtor_payment_proof,
        ) {
            Some(e) => {
                return Err(e);
            },
            None => {},
        }
        match self.registry.check_pointer(
            task_index,
            &owner,
            task_id.as_str(),
            &task_key,
            nonces.task_pointer,
            nonces.task_proof,
        ) {
            Some(e) => {
                return Err(e);
            },
            None => {},
        }
        assert(before.payment_refusal(
            indexes,
            old(debtor)@,
            old(debtor_tokens)@,
            creditor_tokens@,
            order,
        ) is None);
        proof {
            lemma_address_framable(creditor_index);
            lemma_address_framable(debtor_index);
            lemma_address_framable(task_index);
            lemma_address_framable(&payment_key);
            lemma_address_framable(&task_key);
            lemma_pointer_elsewhere(
                before.registry,
                creditor_index@,
                creditor_name@,
                payment_key@,
                nonces.creditor_payment_pointer,
                nonces.creditor_payment_proof,
                debtor_index@,
                owner@,
                payment_id@,
                payment_key@,
                nonces.debtor_payment_pointer,
                nonces.debtor_payment_proof,
            );
            lemma_pointer_elsewhere(
                before.registry,
                creditor_index@,
                creditor_name@,
                payment_key@,
                nonces.creditor_payment_pointer,
                nonces.creditor_payment_proof,
                task_index@,
                owner@,
                task_id@,
                task_key@,
                nonces.task_pointer,
                nonces.task_proof,
            );
        }
        let first = self.registry.create_pointer(
            creditor_index,
            &owner,
            creditor_name,
            payment_key.clone(),
            nonces.creditor_payment_pointer,
            nonces.creditor_payment_proof,
        );
        assert(first is Ok);
        proof {
            lemma_pointer_elsewhere(
                self@.registry,
                debtor_index@,
                payment_id@,
                payment_key@,
                nonces.debtor_payment_pointer,
                nonces.debtor_payment_proof,
                task_index@,
                owner@,
                task_id@,
                task_key@,
                nonces.task_pointer,
                nonces.task_proof,
            );
        }
        let second = self.registry.create_pointer(
            debtor_index,
            &owner,
            payment_id.clone(),
            payment_key.clone(),
            nonces.debtor_payment_pointer,
            nonces.debtor_payment_proof,
        );
        assert(second is Ok);
        let third = self.registry.create_pointer(
            task_index,
            &owner,
            task_id.clone(),
            task_key.clone(),
            nonces.task_pointer,
            nonces.task_proof,
        );
        assert(third is Ok);
        assert(self@.registry == before.registered(indexes, old(debtor)@.identity, nonces));
        proof {
            lemma_address_framable(&debtor_address);
            lemma_payment_keeps_sound(
                before,
                indexes,
                old(debtor)@,
                old(debtor_tokens)@,
                creditor_tokens@,
                order,
            );
        }
        let payment = Payment {
            id: payment_id,
            memo,
            debtor: debtor_address,
            debtor_tokens: debtor_tokens.address.clone(),
            creditor: creditor_address,
            creditor_tokens: creditor_tokens.address.clone(),
            mint: mint.clone(),
            amount,
            recurrence_interval,
            start_at,
            end_at,
            nonce: nonces.payment,
            balance: fee,
        };
        let task = Task {
            id: task_id,
            payment: payment_key.clone(),
            status: TaskStatus::Pending,
            nonce: nonces.task,
        };
        self.payments.allocate(payment_key.clone(), payment);
        self.tasks.allocate(task_key.clone(), task);
        debtor_tokens.approve(payment_key.clone(), delegated);
        debtor.balance = debtor.balance - fee;
        Ok((payment_key, task_key))
    }

    /// Creates a payment of `amount` tokens per transfer from `debtor` to
    /// `creditor`, once or every `recurrence_interval` seconds from
    /// `start_at` to `end_at`, and the task of its first transfer.
    ///
    /// The fee of all its transfers moves from the debtor's balance into the
    /// escrow of the payment; the payment becomes the delegate of the
    /// debtor's tokens for the amount of all its transfers; the payment is
    /// registered in the payment indexes of the creditor and of the debtor,
    /// and the task in the index of the time bucket at `start_at`. Either all
    /// of this happens, or nothing does. Returns the addresses of the payment
    /// and of the task.
    pub fn create_payment(
        &mut self,
        debtor: &mut Wallet,
        creditor: &Identity,
        debtor_tokens: &mut TokenAccount,
        creditor_tokens: &TokenAccount,
        mint: &Address,
        memo: String,
        amount: u64,
        recurrence_interval: u64,
        start_at: u64,
        end_at: u64,
        nonces: PaymentNonces,
    ) -> (r: Result<(Address, Address), ErrorCode>)
        requires
            old(self).wf(),
        ensures
            final(self).wf(),
            match old(self)@.create_payment(
                old(debtor)@,
                old(debtor_tokens)@,
                creditor_tokens@,
                (PaymentOrder {
                    creditor: creditor@,
                    mint: mint@,
                    memo: memo@,
                    amount,
                    recurrence_interval,
                    start_at,
                    end_at,
                    nonces,
                }),
            ) {
                Ok(done) => {
                    &&& r is Ok
                    &&& r->Ok_0.0@ == done.payment
                    &&& r->Ok_0.1@ == done.task
                    &&& final(self)@ == done.ledger
                    &&& final(debtor)@ == done.debtor
                    &&& final(debtor_tokens)@ == done.debtor_tokens
                },
                Err(e) => {
                    &&& r == Err::<(Address, Address), ErrorCode>(e)
                    &&& final(self)@ == old(self)@
                    &&& final(debtor)@ == old(debtor)@
                    &&& final(debtor_tokens)@ == old(debtor_tokens)@
                },
            },
    {
        let creditor_index = payment_index_address(creditor, Role::Creditor);
        let debtor_index = payment_index_address(&debtor.identity, Role::Debtor);
        let task_index = task_index_address(start_at);
        self.create_payment_in(
            &creditor_index,
            &debtor_index,
            &task_index,
            debtor,
            creditor,
            debtor_tokens,
            creditor_tokens,
            mint,
            memo,
            amount,
            recurrence_interval,
            start_at,
            end_at,
            nonces,
        )
    }

    /// Processes the task at `task`: makes the transfer of its payment if the
    /// delegation allows it, and pays the fees of the transfer out of the
    /// escrow in any case. Returns whether the transfer was made.
    ///
    /// The transfer moves the amount of the payment from the debtor's tokens to
    /// the creditor's. Of the fees, the distributor's share goes to `signer`
    /// and the program's share to the treasury. If the escrow does not cover
    /// them, or an account is not the one that the payment names, nothing
    /// happens at all.
    pub fn process_task(
        &mut self,
        task: &Address,
        debtor_tokens: &mut TokenAccount,
        creditor_tokens: &mut TokenAccount,
        signer: &mut Wallet,
    ) -> (r: Result<bool, ErrorCode>)
        requires
            old(self).wf(),
        ensures
            final(self).wf(),
            match old(self)@.task_refusal(
                task@,
                old(debtor_tokens)@,
                old(creditor_tokens)@,
                old(signer)@,
            ) {
                Some(e) => {
                    &&& r == Err::<bool, ErrorCode>(e)
                    &&& final(self)@ == old(self)@
                    &&& final(debtor_tokens)@ == old(debtor_tokens)@
                    &&& final(creditor_tokens)@ == old(creditor_tokens)@
                    &&& final(signer)@ == old(signer)@
                },
                None => {
                    let due = old(self)@.transfer_due(task@, old(debtor_tokens)@);
                    let amount = old(self)@.payment_of(task@).amount;
                    let fee = old(self)@.config.transfer_fee_distributor;
                    &&& r == Ok::<bool, ErrorCode>(due)
                    &&& final(self)@ == old(self)@.with_fees_paid(task@)
                    &&& final(signer)@ == (WalletView {
                        balance: (old(signer).balance + fee) as u64,
                        ..old(signer)@
                    })
                    &&& due ==> {
                        &&& final(debtor_tokens)@ == old(debtor_tokens)@.drawn(amount)
                        &&& final(creditor_tokens)@ == old(creditor_tokens)@.credited(amount)
                    }
                    &&& !due ==> {
                        &&& final(debtor_tokens)@ == old(debtor_tokens)@
                        &&& final(creditor_tokens)@ == old(creditor_tokens)@
                    }
                },
            },
    {
        let payment_key = match self.tasks.get(task) {
            Some(record) => record.payment.clone(),
            None => {
                return Err(ErrorCode::AccountNotFound);
            },
        };
        let payment = match self.payments.get(&payment_key) {
            Some(record) => record,
            None => {
                return Err(ErrorCode::AccountNotFound);
            },
        };
        if !debtor_tokens.address.same(&payment.debtor_tokens) || !debtor_tokens.owner.same(
            &payment.debtor,
        ) || !debtor_tokens.mint.same(&payment.mint) || !creditor_tokens.address.same(
            &payment.creditor_tokens,
        ) || !creditor_tokens.owner.same(&payment.creditor) || !creditor_tokens.mint.same(
            &payment.mint,
        ) {
            return Err(ErrorCode::AccountMismatch);
        }
        let amount: u64 = payment.amount;
        let due = debtor_tokens.allows(&payment_key, amount);
        if due && creditor_tokens.amount > u64::MAX - amount {
            return Err(ErrorCode::Overflow);
        }
        let fee_distributor: u64 = self.config.transfer_fee_distributor;
        let fee_program: u64 = self.config.transfer_fee_program;
        if payment.balance < fee_distributor {
            return Err(ErrorCode::EscrowUnderflow);
        }
        if signer.balance > u64::MAX - fee_distributor {
            return Err(ErrorCode::Overflow);
        }
        if payment.balance - fee_distributor < fee_program {
            return Err(ErrorCode::EscrowUnderflow);
        }
        if self.treasury.balance > u64::MAX - fee_program {
            return Err(ErrorCode::Overflow);
        }
        let settled = Payment {
            id: payment.id.clone(),
            memo: payment.memo.clone(),
            debtor: payment.debtor.clone(),
            debtor_tokens: payment.debtor_tokens.clone(),
            creditor: payment.creditor.clone(),
            creditor_tokens: payment.creditor_tokens.clone(),
            mint: payment.mint.clone(),
            amount: payment.amount,
            recurrence_interval: payment.recurrence_interval,
            start_at: payment.start_at,
            end_at: payment.end_at,
            nonce: payment.nonce,
            balance: payment.balance - fee_distributor - fee_program,
        };
        if due {
            debtor_tokens.draw(amount);
            creditor_tokens.credit(amount);
        }
        self.payments.replace(&payment_key, settled);
        signer.balance = signer.balance + fee_distributor;
        self.treasury.balance = self.treasury.balance + fee_program;
        Ok(due)
    }
}

} // verus!
