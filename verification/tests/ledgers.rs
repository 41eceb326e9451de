use faktor::address::{Address, Identity};
use faktor::errors::ErrorCode;
use faktor::address::SeedTag;
use faktor::ledger::{
    authority_address, own_address, own_index_address, payment_address, payment_index_address,
    task_address, task_index_address, Ledger, PaymentNonces,
};
use faktor::registry::index_address;
use faktor::state::{Role, TaskIndex, TaskStatus};
use faktor::token::{TokenAccount, Wallet};

const FEE_DISTRIBUTOR: u64 = 7;
const FEE_PROGRAM: u64 = 5;
const NOW: i64 = 999;
const START: u64 = 1020;

fn identity(n: u8) -> Identity {
    Identity { key: [n; 32] }
}

fn account(n: u8) -> Address {
    Address::from_bytes(vec![n; 32])
}

fn nonces() -> PaymentNonces {
    PaymentNonces {
        creditor_payment_pointer: 0,
        creditor_payment_proof: 0,
        debtor_payment_pointer: 0,
        debtor_payment_proof: 0,
        payment: 0,
        task: 0,
        task_pointer: 0,
        task_proof: 0,
    }
}

struct World {
    ledger: Ledger,
    debtor: Wallet,
    creditor: Identity,
    debtor_tokens: TokenAccount,
    creditor_tokens: TokenAccount,
    mint: Address,
}

fn world(debtor_balance: u64, debtor_amount: u64) -> World {
    let mut ledger = Ledger::initialize_program(FEE_DISTRIBUTOR, FEE_PROGRAM, 0, 0, 0).unwrap();
    let debtor = identity(1);
    let creditor = identity(2);
    let mint = account(9);
    ledger.create_payment_index(&creditor, Role::Creditor, 0).unwrap();
    ledger.create_payment_index(&debtor, Role::Debtor, 0).unwrap();
    ledger.create_task_index(NOW, START, 0).unwrap();
    World {
        ledger,
        debtor: Wallet { identity: debtor, balance: debtor_balance },
        creditor,
        debtor_tokens: TokenAccount {
            address: account(11),
            owner: debtor.address(),
            mint: mint.clone(),
            amount: debtor_amount,
            delegate: None,
            delegated_amount: 0,
        },
        creditor_tokens: TokenAccount {
            address: account(12),
            owner: creditor.address(),
            mint: mint.clone(),
            amount: 40,
            delegate: None,
            delegated_amount: 0,
        },
        mint,
    }
}

fn pay(w: &mut World, amount: u64, every: u64, start: u64, end: u64) -> Result<(Address, Address), ErrorCode> {
    w.ledger.create_payment(
        &mut w.debtor,
        &w.creditor,
        &mut w.debtor_tokens,
        &w.creditor_tokens,
        &w.mint,
        "rent".to_string(),
        amount,
        every,
        start,
        end,
        nonces(),
    )
}

fn count(ledger: &Ledger, index: &Address) -> u128 {
    ledger.registry().index_at(index).unwrap().count
}

#[test]
fn program_starts_with_its_fees_and_nothing_else() {
    let ledger = Ledger::initialize_program(FEE_DISTRIBUTOR, FEE_PROGRAM, 0, 0, 0).unwrap();
    assert_eq!(ledger.config().transfer_fee_distributor, 7);
    assert_eq!(ledger.config().transfer_fee_program, 5);
    assert_eq!(ledger.config().nonce, 0);
    assert_eq!(ledger.treasury().balance, 0);
    assert_eq!(ledger.treasury().nonce, 0);
    assert_eq!(ledger.authority().nonce, 0);
    assert!(ledger.registry().index_at(&payment_index_address(&identity(1), Role::Debtor)).is_none());
    assert!(ledger.payment_at(&account(1)).is_none());
    assert!(ledger.task_at(&account(1)).is_none());
}

#[test]
fn payment_index_is_serial_and_owned_by_the_authority() {
    let mut ledger = Ledger::initialize_program(FEE_DISTRIBUTOR, FEE_PROGRAM, 0, 0, 0).unwrap();
    let party = identity(3);
    let index = ledger.create_payment_index(&party, Role::Creditor, 0).unwrap();
    assert!(index.same(&payment_index_address(&party, Role::Creditor)));
    let record = ledger.registry().index_at(&index).unwrap();
    assert!(record.owner.same(&authority_address()));
    assert!(record.is_serial);
    assert_eq!(record.count, 0);
    assert_eq!(record.nonce, 0);
    assert_eq!(
        record.namespace,
        b"faktor.payments.creditor.CktRuQ2mttgRGkXJtyksdKHjUdc2C4TgDzyB98oEzy8".to_vec()
    );
    let by_hand = index_address(&authority_address(), &record.namespace).0;
    assert!(index.same(&by_hand));
}

#[test]
fn payment_index_is_one_for_each_party_and_role() {
    let mut ledger = Ledger::initialize_program(FEE_DISTRIBUTOR, FEE_PROGRAM, 0, 0, 0).unwrap();
    let a = ledger.create_payment_index(&identity(3), Role::Creditor, 0).unwrap();
    let b = ledger.create_payment_index(&identity(3), Role::Debtor, 0).unwrap();
    let c = ledger.create_payment_index(&identity(4), Role::Creditor, 0).unwrap();
    assert!(!a.same(&b));
    assert!(!a.same(&c));
    assert_eq!(
        ledger.create_payment_index(&identity(3), Role::Creditor, 0).err(),
        Some(ErrorCode::AddressAlreadyAllocated)
    );
}

#[test]
fn time_bucket_must_start_on_a_full_minute() {
    let mut ledger = Ledger::initialize_program(FEE_DISTRIBUTOR, FEE_PROGRAM, 0, 0, 0).unwrap();
    assert_eq!(
        ledger.create_task_index(100, 1021, 0).err(),
        Some(ErrorCode::InvalidProcessAtIntraMinute)
    );
    assert_eq!(
        ledger.create_task_index(100, 61, 0).err(),
        Some(ErrorCode::InvalidProcessAtIntraMinute)
    );
    assert!(ledger.registry().index_at(&task_index_address(1021)).is_none());
}

#[test]
fn time_bucket_must_lie_in_the_future() {
    let mut ledger = Ledger::initialize_program(FEE_DISTRIBUTOR, FEE_PROGRAM, 0, 0, 0).unwrap();
    assert_eq!(ledger.create_task_index(1020, 1020, 0).err(), Some(ErrorCode::InvalidProcessAtPast));
    assert_eq!(ledger.create_task_index(5000, 1020, 0).err(), Some(ErrorCode::InvalidProcessAtPast));
    assert!(ledger.registry().index_at(&task_index_address(1020)).is_none());
    let index = ledger.create_task_index(1019, 1020, 0).unwrap();
    assert!(index.same(&task_index_address(1020)));
    let record = ledger.registry().index_at(&index).unwrap();
    assert_eq!(record.namespace, b"faktor.tasks.1020".to_vec());
    assert!(record.is_serial);
    assert!(record.owner.same(&authority_address()));
    assert_eq!(
        ledger.create_task_index(1019, 1020, 0).err(),
        Some(ErrorCode::AddressAlreadyAllocated)
    );
}

#[test]
fn created_payment_is_recorded_escrowed_and_registered() {
    let mut w = world(100, 500);
    let (payment, task) = pay(&mut w, 50, 300, START, START + 700).unwrap();

    // two transfers: the fee of both is in escrow, out of the debtor's balance
    assert_eq!(w.debtor.balance, 100 - 2 * (FEE_DISTRIBUTOR + FEE_PROGRAM));
    let record = w.ledger.payment_at(&payment).unwrap();
    assert_eq!(record.balance, 2 * (FEE_DISTRIBUTOR + FEE_PROGRAM));
    assert_eq!(record.id, "0");
    assert_eq!(record.memo, "rent");
    assert!(record.debtor.same(&identity(1).address()));
    assert!(record.creditor.same(&identity(2).address()));
    assert!(record.debtor_tokens.same(&account(11)));
    assert!(record.creditor_tokens.same(&account(12)));
    assert!(record.mint.same(&account(9)));
    assert_eq!(record.amount, 50);
    assert_eq!(record.recurrence_interval, 300);
    assert_eq!(record.start_at, START);
    assert_eq!(record.end_at, START + 700);
    assert_eq!(record.nonce, 0);
    assert!(payment.same(&payment_address(&identity(1).address(), "0").0));

    // the payment may move the tokens of both transfers
    assert!(w.debtor_tokens.delegate.as_ref().unwrap().same(&payment));
    assert_eq!(w.debtor_tokens.delegated_amount, 100);
    assert_eq!(w.debtor_tokens.amount, 500);

    // one task, pending
    let filed = w.ledger.task_at(&task).unwrap();
    assert_eq!(filed.id, "0");
    assert!(filed.payment.same(&payment));
    assert_eq!(filed.status, TaskStatus::Pending);
    assert_eq!(filed.nonce, 0);
    let bucket = task_index_address(START);
    assert!(task.same(&task_address(&bucket, "0").0));

    // registered three times, under the counts of the indexes
    let registry = w.ledger.registry();
    let creditor_index = payment_index_address(&identity(2), Role::Creditor);
    let debtor_index = payment_index_address(&identity(1), Role::Debtor);
    assert_eq!(registry.index_at(&creditor_index).unwrap().count, 1);
    assert_eq!(registry.index_at(&debtor_index).unwrap().count, 1);
    assert_eq!(registry.index_at(&bucket).unwrap().count, 1);
    assert!(registry.holds(&creditor_index, &payment));
    assert!(registry.holds(&debtor_index, &payment));
    assert!(registry.holds(&bucket, &task));
    assert!(!registry.holds(&bucket, &payment));
    assert!(registry.lookup(&creditor_index, "0").unwrap().value.same(&payment));
    assert!(registry.lookup(&debtor_index, "0").unwrap().value.same(&payment));
    assert!(registry.lookup(&bucket, "0").unwrap().value.same(&task));
}

#[test]
fn second_payment_takes_the_next_numbers() {
    let mut w = world(100, 500);
    pay(&mut w, 50, 0, START, START).unwrap();
    let (payment, task) = pay(&mut w, 20, 0, START, START).unwrap();
    assert_eq!(w.ledger.payment_at(&payment).unwrap().id, "1");
    assert_eq!(w.ledger.task_at(&task).unwrap().id, "1");
    assert_eq!(count(&w.ledger, &task_index_address(START)), 2);
    assert_eq!(w.debtor.balance, 100 - 2 * 12);
    // the later delegation stands in place of the earlier
    assert!(w.debtor_tokens.delegate.as_ref().unwrap().same(&payment));
    assert_eq!(w.debtor_tokens.delegated_amount, 20);
}

#[test]
fn fee_threshold_decides() {
    let fee = 2 * (FEE_DISTRIBUTOR + FEE_PROGRAM);
    let mut poor = world(fee - 1, 500);
    assert_eq!(pay(&mut poor, 50, 300, START, START + 700).err(), Some(ErrorCode::InsufficientBalance));
    assert_eq!(poor.debtor.balance, fee - 1);
    assert!(poor.debtor_tokens.delegate.is_none());
    assert_eq!(count(&poor.ledger, &payment_index_address(&identity(1), Role::Debtor)), 0);
    assert_eq!(count(&poor.ledger, &payment_index_address(&identity(2), Role::Creditor)), 0);
    assert_eq!(count(&poor.ledger, &task_index_address(START)), 0);

    let mut exact = world(fee, 500);
    let (payment, _) = pay(&mut exact, 50, 300, START, START + 700).unwrap();
    assert_eq!(exact.debtor.balance, 0);
    assert_eq!(exact.ledger.payment_at(&payment).unwrap().balance, fee);
}

#[test]
fn payment_made_once_pays_one_fee() {
    let mut w = world(12, 500);
    let (payment, _) = pay(&mut w, 50, 0, START, START).unwrap();
    assert_eq!(w.debtor.balance, 0);
    assert_eq!(w.ledger.payment_at(&payment).unwrap().balance, 12);
    assert_eq!(w.debtor_tokens.delegated_amount, 50);
}

#[test]
fn dates_out_of_order_are_refused() {
    let mut w = world(100, 500);
    assert_eq!(pay(&mut w, 50, 0, START, START + 60).err(), Some(ErrorCode::InvalidChronology));
    assert_eq!(pay(&mut w, 50, 300, START, START - 1).err(), Some(ErrorCode::InvalidChronology));
    assert_eq!(w.debtor.balance, 100);
    assert_eq!(count(&w.ledger, &task_index_address(START)), 0);
    assert!(w.ledger.payment_at(&payment_address(&identity(1).address(), "0").0).is_none());
}

#[test]
fn dates_are_checked_before_the_balance() {
    let mut w = world(0, 500);
    assert_eq!(pay(&mut w, 50, 0, START, START + 60).err(), Some(ErrorCode::InvalidChronology));
}

#[test]
fn payment_needs_its_three_indexes() {
    let mut w = world(100, 500);
    // no time bucket was opened at this start
    assert_eq!(pay(&mut w, 50, 0, START + 60, START + 60).err(), Some(ErrorCode::AccountNotFound));
    // this creditor has no index
    w.creditor = identity(7);
    w.creditor_tokens.owner = identity(7).address();
    assert_eq!(pay(&mut w, 50, 0, START, START).err(), Some(ErrorCode::AccountNotFound));
    assert_eq!(w.debtor.balance, 100);
}

#[test]
fn token_accounts_must_belong_to_the_parties() {
    let mut w = world(100, 500);
    w.debtor_tokens.owner = account(33);
    assert_eq!(pay(&mut w, 50, 0, START, START).err(), Some(ErrorCode::AccountMismatch));
    let mut w = world(100, 500);
    w.creditor_tokens.mint = account(34);
    assert_eq!(pay(&mut w, 50, 0, START, START).err(), Some(ErrorCode::AccountMismatch));
    let mut w = world(100, 500);
    w.creditor_tokens.owner = account(35);
    assert_eq!(pay(&mut w, 50, 0, START, START).err(), Some(ErrorCode::AccountMismatch));
    let mut w = world(100, 500);
    w.debtor_tokens.mint = account(36);
    assert_eq!(pay(&mut w, 50, 0, START, START).err(), Some(ErrorCode::AccountMismatch));
    assert_eq!(w.debtor.balance, 100);
}

#[test]
fn delegation_beyond_any_balance_is_refused() {
    let mut w = world(100, 500);
    assert_eq!(pay(&mut w, u64::MAX, 300, START, START + 700).err(), Some(ErrorCode::Overflow));
    assert_eq!(w.debtor.balance, 100);
    assert!(w.debtor_tokens.delegate.is_none());
    assert_eq!(count(&w.ledger, &task_index_address(START)), 0);
}

#[test]
fn recurring_payment_without_a_whole_interval_is_free_and_moves_nothing() {
    let mut w = world(0, 500);
    let (payment, task) = pay(&mut w, 50, 300, START, START + 299).unwrap();
    assert_eq!(w.ledger.payment_at(&payment).unwrap().balance, 0);
    assert_eq!(w.debtor_tokens.delegated_amount, 0);
    assert_eq!(w.ledger.task_at(&task).unwrap().status, TaskStatus::Pending);
}

#[test]
fn given_indexes_must_be_three() {
    let mut w = world(100, 500);
    let c = payment_index_address(&identity(2), Role::Creditor);
    let t = task_index_address(START);
    let r = w.ledger.create_payment_in(
        &c,
        &c,
        &t,
        &mut w.debtor,
        &w.creditor,
        &mut w.debtor_tokens,
        &w.creditor_tokens,
        &w.mint,
        "rent".to_string(),
        50,
        0,
        START,
        START,
        nonces(),
    );
    assert_eq!(r.err(), Some(ErrorCode::AccountMismatch));
    assert_eq!(count(&w.ledger, &c), 0);
}

#[test]
fn processed_task_moves_the_tokens_and_pays_the_fees() {
    let mut w = world(100, 500);
    let (payment, task) = pay(&mut w, 50, 300, START, START + 700).unwrap();
    let mut signer = Wallet { identity: identity(8), balance: 1000 };
    let moved = w
        .ledger
        .process_task(&task, &mut w.debtor_tokens, &mut w.creditor_tokens, &mut signer)
        .unwrap();
    assert!(moved);
    assert_eq!(w.debtor_tokens.amount, 450);
    assert_eq!(w.debtor_tokens.delegated_amount, 50);
    assert_eq!(w.creditor_tokens.amount, 90);
    assert_eq!(w.ledger.payment_at(&payment).unwrap().balance, 24 - 12);
    assert_eq!(signer.balance, 1000 + FEE_DISTRIBUTOR);
    assert_eq!(w.ledger.treasury().balance, FEE_PROGRAM);
    assert_eq!(w.debtor.balance, 100 - 24);
    // the task stays as it was filed
    assert_eq!(w.ledger.task_at(&task).unwrap().status, TaskStatus::Pending);
    assert_eq!(w.ledger.payment_at(&payment).unwrap().amount, 50);
    assert_eq!(w.ledger.payment_at(&payment).unwrap().memo, "rent");
}

#[test]
fn task_without_delegation_pays_the_fees_all_the_same() {
    let mut w = world(100, 500);
    let (payment, task) = pay(&mut w, 50, 300, START, START + 700).unwrap();
    w.debtor_tokens.delegate = None;
    let mut signer = Wallet { identity: identity(8), balance: 1000 };
    let moved = w
        .ledger
        .process_task(&task, &mut w.debtor_tokens, &mut w.creditor_tokens, &mut signer)
        .unwrap();
    assert!(!moved);
    assert_eq!(w.debtor_tokens.amount, 500);
    assert_eq!(w.debtor_tokens.delegated_amount, 100);
    assert_eq!(w.creditor_tokens.amount, 40);
    assert_eq!(w.ledger.payment_at(&payment).unwrap().balance, 12);
    assert_eq!(signer.balance, 1007);
    assert_eq!(w.ledger.treasury().balance, 5);
}

#[test]
fn transfer_is_skipped_when_delegation_or_balance_is_short() {
    // the balance of tokens is short
    let mut w = world(100, 49);
    let (_, task) = pay(&mut w, 50, 0, START, START).unwrap();
    let mut signer = Wallet { identity: identity(8), balance: 0 };
    assert_eq!(
        w.ledger.process_task(&task, &mut w.debtor_tokens, &mut w.creditor_tokens, &mut signer),
        Ok(false)
    );
    assert_eq!(w.debtor_tokens.amount, 49);
    assert_eq!(w.creditor_tokens.amount, 40);
    assert_eq!(signer.balance, 7);

    // the delegation is short
    let mut w = world(100, 500);
    let (_, task) = pay(&mut w, 50, 0, START, START).unwrap();
    w.debtor_tokens.delegated_amount = 49;
    assert_eq!(
        w.ledger.process_task(&task, &mut w.debtor_tokens, &mut w.creditor_tokens, &mut signer),
        Ok(false)
    );
    assert_eq!(w.debtor_tokens.amount, 500);

    // somebody else is the delegate
    let mut w = world(100, 500);
    let (_, task) = pay(&mut w, 50, 0, START, START).unwrap();
    w.debtor_tokens.delegate = Some(account(77));
    assert_eq!(
        w.ledger.process_task(&task, &mut w.debtor_tokens, &mut w.creditor_tokens, &mut signer),
        Ok(false)
    );
    assert_eq!(w.debtor_tokens.amount, 500);
    assert_eq!(w.ledger.treasury().balance, 5);
}

#[test]
fn escrow_that_is_spent_stops_the_task() {
    let mut w = world(100, 500);
    let (payment, task) = pay(&mut w, 50, 0, START, START).unwrap();
    let mut signer = Wallet { identity: identity(8), balance: 0 };
    w.debtor_tokens.delegated_amount = 500;
    assert_eq!(
        w.ledger.process_task(&task, &mut w.debtor_tokens, &mut w.creditor_tokens, &mut signer),
        Ok(true)
    );
    assert_eq!(w.ledger.payment_at(&payment).unwrap().balance, 0);
    assert_eq!(
        w.ledger.process_task(&task, &mut w.debtor_tokens, &mut w.creditor_tokens, &mut signer),
        Err(ErrorCode::EscrowUnderflow)
    );
    // nothing moved the second time
    assert_eq!(w.debtor_tokens.amount, 450);
    assert_eq!(w.debtor_tokens.delegated_amount, 450);
    assert_eq!(w.creditor_tokens.amount, 90);
    assert_eq!(signer.balance, 7);
    assert_eq!(w.ledger.treasury().balance, 5);
}

#[test]
fn task_must_exist_and_accounts_must_be_those_of_the_payment() {
    let mut w = world(100, 500);
    let (_, task) = pay(&mut w, 50, 0, START, START).unwrap();
    let mut signer = Wallet { identity: identity(8), balance: 0 };
    assert_eq!(
        w.ledger.process_task(&account(1), &mut w.debtor_tokens, &mut w.creditor_tokens, &mut signer),
        Err(ErrorCode::AccountNotFound)
    );
    let mut other = TokenAccount {
        address: account(13),
        owner: identity(2).address(),
        mint: account(9),
        amount: 0,
        delegate: None,
        delegated_amount: 0,
    };
    assert_eq!(
        w.ledger.process_task(&task, &mut w.debtor_tokens, &mut other, &mut signer),
        Err(ErrorCode::AccountMismatch)
    );
    assert_eq!(
        w.ledger.process_task(&task, &mut other, &mut w.creditor_tokens, &mut signer),
        Err(ErrorCode::AccountMismatch)
    );
    assert_eq!(signer.balance, 0);
    assert_eq!(w.ledger.treasury().balance, 0);
    assert_eq!(other.amount, 0);
}

#[test]
fn balances_that_would_overflow_stop_the_task() {
    let mut w = world(100, 500);
    let (payment, task) = pay(&mut w, 50, 0, START, START).unwrap();
    let mut signer = Wallet { identity: identity(8), balance: u64::MAX - 6 };
    assert_eq!(
        w.ledger.process_task(&task, &mut w.debtor_tokens, &mut w.creditor_tokens, &mut signer),
        Err(ErrorCode::Overflow)
    );
    assert_eq!(signer.balance, u64::MAX - 6);
    assert_eq!(w.debtor_tokens.amount, 500);
    assert_eq!(w.ledger.payment_at(&payment).unwrap().balance, 12);

    w.creditor_tokens.amount = u64::MAX - 49;
    let mut signer = Wallet { identity: identity(8), balance: 0 };
    assert_eq!(
        w.ledger.process_task(&task, &mut w.debtor_tokens, &mut w.creditor_tokens, &mut signer),
        Err(ErrorCode::Overflow)
    );
    assert_eq!(w.creditor_tokens.amount, u64::MAX - 49);
    assert_eq!(signer.balance, 0);
}

#[test]
fn token_account_knows_its_delegate() {
    let mut tokens = TokenAccount {
        address: account(11),
        owner: account(1),
        mint: account(9),
        amount: 30,
        delegate: None,
        delegated_amount: 0,
    };
    assert!(!tokens.allows(&account(5), 0));
    tokens.approve(account(5), 20);
    assert!(tokens.allows(&account(5), 20));
    assert!(!tokens.allows(&account(5), 21));
    assert!(!tokens.allows(&account(6), 1));
    tokens.draw(15);
    assert_eq!(tokens.amount, 15);
    assert_eq!(tokens.delegated_amount, 5);
    assert!(!tokens.allows(&account(5), 6));
    tokens.credit(10);
    assert_eq!(tokens.amount, 25);
    tokens.approve(account(6), 100);
    assert!(!tokens.allows(&account(6), 26));
    assert!(tokens.allows(&account(6), 25));
}

#[test]
fn every_reason_has_its_message() {
    assert_eq!(ErrorCode::InsufficientBalance.message(), "Insufficient SOL to pay transfer fees.");
    assert_eq!(ErrorCode::InvalidChronology.message(), "The timestamps must be chronological.");
    assert_eq!(
        ErrorCode::InvalidProcessAtIntraMinute.message(),
        "Task sets cannot be scheduled for processing intra-minute."
    );
    assert_eq!(
        ErrorCode::InvalidProcessAtPast.message(),
        "Task sets cannot be scheduled for processing in the past."
    );
    let all = [
        ErrorCode::InsufficientBalance,
        ErrorCode::InvalidChronology,
        ErrorCode::InvalidProcessAtIntraMinute,
        ErrorCode::InvalidProcessAtPast,
        ErrorCode::NotIndexOwner,
        ErrorCode::SerialNameMismatch,
        ErrorCode::DuplicatePointerName,
        ErrorCode::AddressAlreadyAllocated,
        ErrorCode::InvalidDerivation,
        ErrorCode::EscrowUnderflow,
        ErrorCode::AccountNotFound,
        ErrorCode::AccountMismatch,
        ErrorCode::Overflow,
    ];
    for (i, a) in all.iter().enumerate() {
        assert!(!a.message().is_empty());
        for b in all.iter().skip(i + 1) {
            assert_ne!(a.message(), b.message());
        }
    }
}

#[test]
fn ledger_takes_the_nonces_of_its_own_records_only() {
    assert_eq!(
        Ledger::initialize_program(1, 1, 1, 0, 0).err(),
        Some(ErrorCode::InvalidDerivation)
    );
    assert_eq!(
        Ledger::initialize_program(1, 1, 0, 9, 0).err(),
        Some(ErrorCode::InvalidDerivation)
    );
    assert_eq!(
        Ledger::initialize_program(1, 1, 0, 0, 255).err(),
        Some(ErrorCode::InvalidDerivation)
    );
    let mut ledger = Ledger::initialize_program(1, 1, 0, 0, 0).unwrap();
    assert_eq!(
        ledger.create_payment_index(&identity(3), Role::Debtor, 1).err(),
        Some(ErrorCode::InvalidDerivation)
    );
    assert_eq!(ledger.create_task_index(0, 60, 1).err(), Some(ErrorCode::InvalidDerivation));
    assert!(ledger.registry().index_at(&task_index_address(60)).is_none());
}

#[test]
fn payment_takes_the_nonces_of_its_records_only() {
    for wrong in 0..8 {
        let mut w = world(100, 500);
        let mut given = nonces();
        match wrong {
            0 => given.creditor_payment_pointer = 1,
            1 => given.creditor_payment_proof = 1,
            2 => given.debtor_payment_pointer = 1,
            3 => given.debtor_payment_proof = 1,
            4 => given.payment = 1,
            5 => given.task = 1,
            6 => given.task_pointer = 1,
            _ => given.task_proof = 1,
        }
        let r = w.ledger.create_payment(
            &mut w.debtor,
            &w.creditor,
            &mut w.debtor_tokens,
            &w.creditor_tokens,
            &w.mint,
            "rent".to_string(),
            50,
            0,
            START,
            START,
            given,
        );
        assert_eq!(r.err(), Some(ErrorCode::InvalidDerivation));
        assert_eq!(w.debtor.balance, 100);
        assert!(w.debtor_tokens.delegate.is_none());
        assert_eq!(count(&w.ledger, &payment_index_address(&identity(2), Role::Creditor)), 0);
        assert_eq!(count(&w.ledger, &payment_index_address(&identity(1), Role::Debtor)), 0);
        assert_eq!(count(&w.ledger, &task_index_address(START)), 0);
    }
}

#[test]
fn ledger_has_one_address_for_each_of_its_own_records() {
    assert_eq!(own_address(SeedTag::Authority).0.bytes, vec![0]);
    assert_eq!(own_address(SeedTag::Config).0.bytes, vec![1]);
    assert_eq!(own_address(SeedTag::Treasury).0.bytes, vec![2]);
    assert_eq!(own_address(SeedTag::Treasury).1, 0);
    assert!(authority_address().same(&own_address(SeedTag::Authority).0));
    let (index, nonce) = own_index_address("faktor.tasks.1020");
    assert!(index.same(&task_index_address(1020)));
    assert_eq!(nonce, 0);
    assert!(index.same(&index_address(&authority_address(), &b"faktor.tasks.1020".to_vec()).0));
}

#[test]
fn time_bucket_is_a_key_to_its_tasks() {
    let mut w = world(100, 500);
    assert_eq!(w.ledger.task_index(START + 60), None);
    assert_eq!(
        w.ledger.task_index(START),
        Some(TaskIndex { count: 0, process_at: START, nonce: 0 })
    );
    let (_, first) = pay(&mut w, 50, 0, START, START).unwrap();
    let (_, second) = pay(&mut w, 20, 0, START, START).unwrap();
    let bucket = w.ledger.task_index(START).unwrap();
    assert_eq!(bucket.count, 2);
    assert_eq!(bucket.process_at, START);
    let index = task_index_address(bucket.process_at);
    let registry = w.ledger.registry();
    assert!(registry.lookup(&index, "0").unwrap().value.same(&first));
    assert!(registry.lookup(&index, "1").unwrap().value.same(&second));
    assert!(registry.lookup(&index, "2").is_none());
}
