use ledger::account::Account;
use ledger::account::Overdraft;
use ledger::service::apply_to_account;
use ledger::service::invalid_payload_status;
use ledger::service::open_store;
use ledger::service::startup_limits;
use ledger::service::statement_of_account;
use ledger::service::ApplyOutcome;
use ledger::service::Ledger;
use ledger::service::StatementOutcome;
use ledger::store::AccountStore;
use ledger::transaction::InvalidPayload;
use ledger::transaction::Transaction;
use ledger::transaction::TransactionKind;

fn credit(value: u64, description: &str) -> Transaction {
    Transaction { value, kind: TransactionKind::Credit, description: description.to_string() }
}

fn debit(value: u64, description: &str) -> Transaction {
    Transaction { value, kind: TransactionKind::Debit, description: description.to_string() }
}

fn stamp() -> String {
    "2024-01-17T02:34:41.217753Z".to_string()
}

fn found(balance: i64, limit: i64, history: Vec<Transaction>) -> StatementOutcome {
    StatementOutcome::Found { balance, limit, history, as_of: stamp() }
}

#[test]
fn startup_table_is_fixed() {
    assert_eq!(
        startup_limits(),
        vec![(1, 100_000), (2, 80_000), (3, 1_000_000), (4, 10_000_000), (5, 500_000)]
    );
}

#[test]
fn startup_ledger_has_five_accounts() {
    let ledger = Ledger::startup();
    assert!(!ledger.contains(0));
    assert!(ledger.contains(1));
    assert!(ledger.contains(2));
    assert!(ledger.contains(3));
    assert!(ledger.contains(4));
    assert!(ledger.contains(5));
    assert!(!ledger.contains(6));
    assert!(!ledger.contains(99));
    assert!(!ledger.contains(255));
    assert_eq!(ledger.read_statement(1, stamp()), found(0, 100_000, vec![]));
    assert_eq!(ledger.read_statement(2, stamp()), found(0, 80_000, vec![]));
    assert_eq!(ledger.read_statement(3, stamp()), found(0, 1_000_000, vec![]));
    assert_eq!(ledger.read_statement(4, stamp()), found(0, 10_000_000, vec![]));
    assert_eq!(ledger.read_statement(5, stamp()), found(0, 500_000, vec![]));
}

#[test]
fn statement_of_unknown_account_is_not_found() {
    let ledger = Ledger::startup();
    assert_eq!(ledger.read_statement(99, stamp()), StatementOutcome::NotFound);
    assert_eq!(ledger.read_statement(0, stamp()), StatementOutcome::NotFound);
    assert_eq!(ledger.read_statement(6, stamp()), StatementOutcome::NotFound);
    assert_eq!(Ledger::new().read_statement(1, stamp()), StatementOutcome::NotFound);
}

#[test]
fn transaction_on_unknown_account_is_not_found() {
    let mut ledger = Ledger::startup();
    assert_eq!(ledger.apply_transaction(99, credit(10, "a")), ApplyOutcome::NotFound);
    assert_eq!(ledger.apply_transaction(0, debit(10, "a")), ApplyOutcome::NotFound);
    assert_eq!(ledger.read_statement(1, stamp()), found(0, 100_000, vec![]));
    assert_eq!(ledger.read_statement(5, stamp()), found(0, 500_000, vec![]));
}

#[test]
fn applied_transaction_shows_in_the_statement() {
    let mut ledger = Ledger::startup();
    assert_eq!(
        ledger.apply_transaction(2, debit(50_000, "rent")),
        ApplyOutcome::Applied { limit: 80_000, balance: -50_000 }
    );
    assert_eq!(
        ledger.apply_transaction(2, credit(20_000, "pay")),
        ApplyOutcome::Applied { limit: 80_000, balance: -30_000 }
    );
    assert_eq!(
        ledger.read_statement(2, stamp()),
        found(-30_000, 80_000, vec![credit(20_000, "pay"), debit(50_000, "rent")])
    );
}

#[test]
fn refused_transaction_changes_nothing() {
    let mut ledger = Ledger::startup();
    assert_eq!(ledger.apply_transaction(1, debit(150_000, "a")), ApplyOutcome::Rejected(Overdraft));
    assert_eq!(ledger.read_statement(1, stamp()), found(0, 100_000, vec![]));
    assert_eq!(
        ledger.apply_transaction(1, debit(100_000, "b")),
        ApplyOutcome::Applied { limit: 100_000, balance: -100_000 }
    );
    assert_eq!(ledger.apply_transaction(1, debit(1, "c")), ApplyOutcome::Rejected(Overdraft));
    assert_eq!(ledger.read_statement(1, stamp()), found(-100_000, 100_000, vec![debit(100_000, "b")]));
}

#[test]
fn accounts_do_not_touch_each_other() {
    let mut ledger = Ledger::startup();
    assert_eq!(
        ledger.apply_transaction(3, credit(7, "a")),
        ApplyOutcome::Applied { limit: 1_000_000, balance: 7 }
    );
    assert_eq!(
        ledger.apply_transaction(4, debit(9, "b")),
        ApplyOutcome::Applied { limit: 10_000_000, balance: -9 }
    );
    assert_eq!(ledger.read_statement(3, stamp()), found(7, 1_000_000, vec![credit(7, "a")]));
    assert_eq!(ledger.read_statement(4, stamp()), found(-9, 10_000_000, vec![debit(9, "b")]));
    assert_eq!(ledger.read_statement(5, stamp()), found(0, 500_000, vec![]));
}

#[test]
fn statement_carries_the_stamp_it_was_given() {
    let ledger = Ledger::startup();
    assert_eq!(
        ledger.read_statement(1, "now".to_string()),
        StatementOutcome::Found {
            balance: 0,
            limit: 100_000,
            history: vec![],
            as_of: "now".to_string()
        }
    );
}

#[test]
fn ledger_from_a_table_lets_later_entries_win() {
    let ledger = Ledger::with_accounts(&vec![(7, 10), (8, 20), (7, 30)]);
    assert!(ledger.contains(7));
    assert!(ledger.contains(8));
    assert!(!ledger.contains(1));
    assert_eq!(ledger.read_statement(7, stamp()), found(0, 30, vec![]));
    assert_eq!(ledger.read_statement(8, stamp()), found(0, 20, vec![]));
}

#[test]
fn opening_an_account_replaces_the_one_before() {
    let mut ledger = Ledger::new();
    ledger.open_account(9, 100);
    assert_eq!(
        ledger.apply_transaction(9, debit(60, "a")),
        ApplyOutcome::Applied { limit: 100, balance: -60 }
    );
    ledger.open_account(9, 50);
    assert_eq!(ledger.read_statement(9, stamp()), found(0, 50, vec![]));
}

#[test]
fn equal_debits_on_one_account_succeed_exactly_while_there_is_room() {
    // Account 2 bears two debits of 30000 and not a third.
    let mut ledger = Ledger::startup();
    let mut outcomes: Vec<ApplyOutcome> = Vec::new();
    let mut round: u32 = 0;
    while round < 5 {
        outcomes.push(ledger.apply_transaction(2, debit(30_000, "d")));
        round += 1;
    }
    assert_eq!(
        outcomes,
        vec![
            ApplyOutcome::Applied { limit: 80_000, balance: -30_000 },
            ApplyOutcome::Applied { limit: 80_000, balance: -60_000 },
            ApplyOutcome::Rejected(Overdraft),
            ApplyOutcome::Rejected(Overdraft),
            ApplyOutcome::Rejected(Overdraft),
        ]
    );
    assert_eq!(
        ledger.read_statement(2, stamp()),
        found(-60_000, 80_000, vec![debit(30_000, "d"), debit(30_000, "d")])
    );
}

#[test]
fn steps_on_one_account_do_what_the_ledger_does() {
    let mut account = Account::with_limit(100);
    assert_eq!(
        apply_to_account(&mut account, debit(70, "a")),
        ApplyOutcome::Applied { limit: 100, balance: -70 }
    );
    assert_eq!(apply_to_account(&mut account, debit(31, "b")), ApplyOutcome::Rejected(Overdraft));
    assert_eq!(
        apply_to_account(&mut account, credit(5, "c")),
        ApplyOutcome::Applied { limit: 100, balance: -65 }
    );
    assert_eq!(
        statement_of_account(&account, stamp()),
        found(-65, 100, vec![credit(5, "c"), debit(70, "a")])
    );
}

#[test]
fn outcomes_have_their_status() {
    assert_eq!(ApplyOutcome::Applied { limit: 1, balance: 2 }.status_code(), 200);
    assert_eq!(ApplyOutcome::Rejected(Overdraft).status_code(), 422);
    assert_eq!(ApplyOutcome::NotFound.status_code(), 404);
    assert_eq!(found(0, 0, vec![]).status_code(), 200);
    assert_eq!(StatementOutcome::NotFound.status_code(), 404);
    assert_eq!(invalid_payload_status(InvalidPayload::Description), 422);
    assert_eq!(invalid_payload_status(InvalidPayload::Kind), 422);
    assert_eq!(invalid_payload_status(InvalidPayload::Value), 422);
}

#[test]
fn store_finds_what_was_registered() {
    let mut store: AccountStore<&str> = AccountStore::new();
    assert_eq!(store.len(), 0);
    assert_eq!(store.insert(1, "one"), None);
    assert_eq!(store.insert(2, "two"), None);
    assert_eq!(store.insert(1, "uno"), Some("one"));
    assert_eq!(store.len(), 2);
    assert!(store.contains(1));
    assert!(!store.contains(3));
    assert_eq!(store.get(1), Some(&"uno"));
    assert_eq!(store.get(2), Some(&"two"));
    assert_eq!(store.get(99), None);
}

#[test]
fn store_hands_out_a_cell_for_changing() {
    let mut store: AccountStore<u32> = AccountStore::new();
    assert_eq!(store.insert(4, 40), None);
    assert_eq!(store.insert(5, 50), None);
    match store.get_mut(4) {
        Some(cell) => *cell += 1,
        None => panic!("account 4 was registered"),
    }
    assert!(store.get_mut(6).is_none());
    assert_eq!(store.get(4), Some(&41));
    assert_eq!(store.get(5), Some(&50));
    assert_eq!(store.len(), 2);
}

#[test]
fn open_store_encloses_each_account() {
    let store: AccountStore<(u8, Account)> =
        open_store(&vec![(1, 10), (2, 20), (1, 30)], |account| (7, account));
    assert_eq!(store.len(), 2);
    match store.get(1) {
        Some((tag, account)) => {
            assert_eq!(*tag, 7);
            assert_eq!(account.limit(), 30);
            assert_eq!(account.balance(), 0);
        }
        None => panic!("account 1 was in the table"),
    }
    match store.get(2) {
        Some((_, account)) => assert_eq!(account.limit(), 20),
        None => panic!("account 2 was in the table"),
    }
    assert!(store.get(3).is_none());
}

#[test]
fn ledger_tells_when_a_credit_is_too_large() {
    let mut ledger = Ledger::startup();
    assert!(ledger.can_hold(1, &credit(9_223_372_036_854_775_807, "a")));
    assert!(!ledger.can_hold(1, &credit(9_223_372_036_854_775_808, "a")));
    assert!(ledger.can_hold(99, &credit(u64::MAX, "a")));
    assert!(ledger.can_hold(1, &debit(u64::MAX, "a")));
    assert_eq!(
        ledger.apply_transaction(1, credit(9_223_372_036_854_775_807, "a")),
        ApplyOutcome::Applied { limit: 100_000, balance: i64::MAX }
    );
    assert!(!ledger.can_hold(1, &credit(1, "a")));
    assert!(ledger.can_hold(1, &credit(0, "a")));
    assert!(ledger.can_hold(2, &credit(1, "a")));
}
