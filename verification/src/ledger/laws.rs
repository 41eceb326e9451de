//! What holds of the ledger whatever is asked of it.

use vstd::prelude::*;
use vstd::utf8::*;
use crate::address::{SeedTag, framable, lemma_address_opens_with_tag};
use crate::errors::ErrorCode;
use crate::ledger::{spec_authority_address, spec_own_index_address};
use crate::ledger::invariants::lemma_nothing_registered_unrecorded;
use crate::ledger::model::{LedgerView, PaymentCreated, PaymentIndexes, PaymentOrder};
use crate::namespace::{
    lemma_namespaces_differ, spec_payment_index_namespace, spec_task_index_namespace,
};
use crate::registry::name_framable;
use crate::registry::invariants::lemma_index_address_injective;
use crate::registry::laws::serial_index_takes_its_count;
use crate::schedule::{chronological, spec_num_transfers, spec_transfer_fee};
use crate::state::{PaymentView, Role, TaskStatus};
use crate::token::{TokenAccountView, WalletView};

verus! {

/// The three indexes in which a payment is registered are three different
/// indexes, however the parties are written and whenever the payment starts:
/// creating a payment is never refused for two of them being one.
pub proof fn payment_indexes_are_distinct(
    creditor_text: Seq<char>,
    debtor_text: Seq<char>,
    start_at: u64,
)
    ensures
        ({
            let c = spec_payment_index_namespace(creditor_text, Role::Creditor);
            let d = spec_payment_index_namespace(debtor_text, Role::Debtor);
            let t = spec_task_index_namespace(start_at);
            &&& name_framable(c) && name_framable(d) ==> spec_own_index_address(c)
                != spec_own_index_address(d)
            &&& name_framable(c) && name_framable(t) ==> spec_own_index_address(c)
                != spec_own_index_address(t)
            &&& name_framable(d) && name_framable(t) ==> spec_own_index_address(d)
                != spec_own_index_address(t)
        }),
{
    let owner = spec_authority_address();
    let c = spec_payment_index_namespace(creditor_text, Role::Creditor);
    let d = spec_payment_index_namespace(debtor_text, Role::Debtor);
    let t = spec_task_index_namespace(start_at);
    lemma_namespaces_differ(creditor_text, debtor_text, start_at);
    encode_utf8_decode_utf8(c);
    encode_utf8_decode_utf8(d);
    encode_utf8_decode_utf8(t);
    assert(owner.len() == 1);
    if name_framable(c) && name_framable(d) && spec_own_index_address(c)
        == spec_own_index_address(d) {
        lemma_index_address_injective(owner, encode_utf8(c), owner, encode_utf8(d));
    }
    if name_framable(c) && name_framable(t) && spec_own_index_address(c)
        == spec_own_index_address(t) {
        lemma_index_address_injective(owner, encode_utf8(c), owner, encode_utf8(t));
    }
    if name_framable(d) && name_framable(t) && spec_own_index_address(d)
        == spec_own_index_address(t) {
        lemma_index_address_injective(owner, encode_utf8(d), owner, encode_utf8(t));
    }
}

/// A payment made once has one transfer, and its dates are in order only if
/// it starts and ends at the same time; a recurring payment has as many
/// transfers as whole intervals fit between its start and its end.
pub proof fn transfers_of_a_payment(recurrence_interval: u64, start_at: u64, end_at: u64)
    ensures
        recurrence_interval == 0 ==> (chronological(recurrence_interval, start_at, end_at)
            <==> start_at == end_at),
        recurrence_interval == 0 ==> spec_num_transfers(recurrence_interval, start_at, end_at)
            == 1,
        recurrence_interval > 0 && start_at <= end_at ==> spec_num_transfers(
            recurrence_interval,
            start_at,
            end_at,
        ) * recurrence_interval <= end_at - start_at < (spec_num_transfers(
            recurrence_interval,
            start_at,
            end_at,
        ) + 1) * recurrence_interval,
{
    if recurrence_interval > 0 && start_at <= end_at {
        let span = end_at - start_at;
        let every = recurrence_interval as int;
        assert((span / every) * every <= span < (span / every + 1) * every) by (nonlinear_arith)
            requires
                span >= 0,
                every > 0,
        ;
    }
}

/// The fee decides: where nothing else stands against a payment, it is
/// refused with `InsufficientBalance` exactly if the debtor's balance is below
/// the fee of all its transfers. A payment that is created has taken exactly
/// that fee from the debtor's balance into its escrow.
pub proof fn fee_threshold(
    s: LedgerView,
    indexes: PaymentIndexes,
    debtor: WalletView,
    debtor_tokens: TokenAccountView,
    creditor_tokens: TokenAccountView,
    order: PaymentOrder,
)
    ensures
        ({
            let fee = spec_transfer_fee(order.num_transfers(), s.config);
            let insufficient = Err::<PaymentCreated, ErrorCode>(ErrorCode::InsufficientBalance);
            let outcome = s.create_payment_in(
                indexes,
                debtor,
                debtor_tokens,
                creditor_tokens,
                order,
            );
            let enough = WalletView { balance: u64::MAX, ..debtor };
            &&& outcome == insufficient ==> debtor.balance < fee
            &&& debtor.balance < fee ==> outcome is Err
            &&& debtor.balance < fee && s.create_payment_in(
                indexes,
                enough,
                debtor_tokens,
                creditor_tokens,
                order,
            ) is Ok ==> outcome == insufficient
            &&& outcome is Ok ==> {
                &&& debtor.balance >= fee
                &&& outcome->Ok_0.debtor.balance == debtor.balance - fee
                &&& outcome->Ok_0.ledger.payments[outcome->Ok_0.payment].balance == fee
                &&& outcome->Ok_0.ledger.payments.dom().contains(outcome->Ok_0.payment)
            }
        }),
{
}

/// A payment is created wherever nothing stands against it: in a ledger
/// whose records fit together, with token accounts that belong to the
/// parties, three different indexes on record that have room, no payment or
/// task yet at the addresses of the new ones, the nonces of the addresses,
/// dates in order, a balance that covers the fee and an amount in all that a
/// balance can hold.
pub proof fn payment_is_created(
    s: LedgerView,
    indexes: PaymentIndexes,
    debtor: WalletView,
    debtor_tokens: TokenAccountView,
    creditor_tokens: TokenAccountView,
    order: PaymentOrder,
)
    requires
        s.sound(),
        framable(indexes.creditor),
        framable(indexes.debtor),
        framable(indexes.task),
        framable(s.next_payment(indexes, debtor.identity)),
        framable(s.next_task(indexes)),
        indexes.creditor != indexes.debtor,
        indexes.creditor != indexes.task,
        indexes.debtor != indexes.task,
        debtor_tokens.owner == debtor.identity,
        debtor_tokens.mint == order.mint,
        creditor_tokens.owner == order.creditor,
        creditor_tokens.mint == order.mint,
        s.registry.indexes.dom().contains(indexes.creditor),
        s.registry.indexes.dom().contains(indexes.debtor),
        s.registry.indexes.dom().contains(indexes.task),
        s.registry.indexes[indexes.creditor].count < u128::MAX,
        s.registry.indexes[indexes.debtor].count < u128::MAX,
        s.registry.indexes[indexes.task].count < u128::MAX,
        !s.payments.dom().contains(s.next_payment(indexes, debtor.identity)),
        !s.tasks.dom().contains(s.next_task(indexes)),
        order.nonces == s.nonces_for(indexes, debtor.identity),
        order.chronological(),
        debtor.balance >= spec_transfer_fee(order.num_transfers(), s.config),
        order.num_transfers() * order.amount <= u64::MAX,
    ensures
        s.create_payment_in(indexes, debtor, debtor_tokens, creditor_tokens, order) is Ok,
{
    let payment = s.next_payment(indexes, debtor.identity);
    let task = s.next_task(indexes);
    lemma_address_opens_with_tag(
        SeedTag::Payment,
        seq![debtor.identity, encode_utf8(s.next_name(indexes.debtor))],
    );
    lemma_address_opens_with_tag(
        SeedTag::Task,
        seq![indexes.task, encode_utf8(s.next_name(indexes.task))],
    );
    lemma_nothing_registered_unrecorded(s, indexes.creditor, payment);
    lemma_nothing_registered_unrecorded(s, indexes.debtor, payment);
    lemma_nothing_registered_unrecorded(s, indexes.task, task);
    serial_index_takes_its_count(s.registry, indexes.creditor, payment);
    serial_index_takes_its_count(s.registry, indexes.debtor, payment);
    serial_index_takes_its_count(s.registry, indexes.task, task);
}

/// A created payment is registered and scheduled: the indexes of the creditor
/// and of the debtor hold it, each under the count that the index had; its
/// one task is on record as pending and the index of its time bucket holds
/// the task; and each of the three indexes has counted up by one.
pub proof fn created_payment_is_registered(
    s: LedgerView,
    indexes: PaymentIndexes,
    debtor: WalletView,
    debtor_tokens: TokenAccountView,
    creditor_tokens: TokenAccountView,
    order: PaymentOrder,
)
    requires
        s.create_payment_in(indexes, debtor, debtor_tokens, creditor_tokens, order) is Ok,
    ensures
        ({
            let done = s.create_payment_in(
                indexes,
                debtor,
                debtor_tokens,
                creditor_tokens,
                order,
            )->Ok_0;
            let registry = done.ledger.registry;
            &&& registry.has_proof(indexes.creditor, done.payment)
            &&& registry.has_proof(indexes.debtor, done.payment)
            &&& registry.has_proof(indexes.task, done.task)
            &&& registry.has_name(indexes.creditor, s.next_name(indexes.creditor))
            &&& registry.has_name(indexes.debtor, s.next_name(indexes.debtor))
            &&& registry.has_name(indexes.task, s.next_name(indexes.task))
            &&& registry.indexes[indexes.creditor].count
                == s.registry.indexes[indexes.creditor].count + 1
            &&& registry.indexes[indexes.debtor].count == s.registry.indexes[indexes.debtor].count
                + 1
            &&& registry.indexes[indexes.task].count == s.registry.indexes[indexes.task].count + 1
            &&& done.ledger.tasks.dom().contains(done.task)
            &&& done.ledger.tasks[done.task].payment == done.payment
            &&& done.ledger.tasks[done.task].status == TaskStatus::Pending
            &&& done.ledger.tasks.dom() == s.tasks.dom().insert(done.task)
            &&& done.debtor_tokens.allows(
                done.payment,
                (order.num_transfers() * order.amount) as u64,
            ) == (debtor_tokens.amount >= order.num_transfers() * order.amount)
        }),
{
    let done = s.with_payment(indexes, debtor, debtor_tokens, creditor_tokens, order);
    assert(done.ledger.tasks.dom() =~= s.tasks.dom().insert(done.task));
}

/// The fees of a transfer are paid whether or not the transfer is made: a
/// processed task takes the distributor's and the program's share out of the
/// escrow of its payment, and puts the program's share into the treasury,
/// and changes nothing else in the ledger.
pub proof fn fees_are_paid_either_way(s: LedgerView, task: Seq<u8>)
    requires
        s.tasks.dom().contains(task),
        s.payments.dom().contains(s.tasks[task].payment),
        s.payment_of(task).balance >= s.config.transfer_fee_distributor
            + s.config.transfer_fee_program,
        s.treasury.balance + s.config.transfer_fee_program <= u64::MAX,
    ensures
        ({
            let next = s.with_fees_paid(task);
            let payment = s.tasks[task].payment;
            &&& next.payments[payment].balance == s.payments[payment].balance - (
            s.config.transfer_fee_distributor + s.config.transfer_fee_program)
            &&& next.treasury.balance == s.treasury.balance + s.config.transfer_fee_program
            &&& next.payments[payment] == (PaymentView {
                balance: next.payments[payment].balance,
                ..s.payments[payment]
            })
            &&& next.payments.dom() == s.payments.dom()
            &&& next.tasks == s.tasks
            &&& next.registry == s.registry
            &&& next.config == s.config
        }),
{
    let next = s.with_fees_paid(task);
    assert(next.payments.dom() =~= s.payments.dom());
}

} // verus!
