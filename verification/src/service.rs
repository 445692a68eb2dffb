//! The two operations of the ledger, applying a transaction and reading a
//! statement, and the accounts that a ledger starts with.
//!
//! Each operation comes in two forms. One works on an account that the caller
//! has access to: exclusive access for applying, shared access for reading.
//! The other looks the account up in a store of plain accounts and does the
//! same.

use crate::account::Account;
use crate::account::AccountView;
use crate::account::Overdraft;
use crate::account::Statement;
use crate::store::AccountStore;
use crate::transaction::InvalidPayload;
use crate::transaction::Transaction;
use vstd::prelude::*;

verus! {

/// How an attempt to apply a transaction ended.
#[derive(Clone, Copy, Debug, PartialEq, Eq, Structural)]
pub enum ApplyOutcome {
    /// The transaction was applied; these are the limit and the new balance.
    Applied { limit: i64, balance: i64 },
    /// The transaction was a debit beyond the limit; nothing changed.
    Rejected(Overdraft),
    /// No account has the identifier.
    NotFound,
}

/// How an attempt to read a statement ended.
#[derive(Debug, PartialEq, Eq)]
pub enum StatementOutcome {
    /// The account as it was at `as_of`, its history newest first.
    Found { balance: i64, limit: i64, history: Vec<Transaction>, as_of: String },
    /// No account has the identifier.
    NotFound,
}

/// The status with which a transport answers an outcome: 200 where the
/// transaction was applied, 422 where it was refused, 404 where there is no
/// such account.
pub open spec fn apply_status(outcome: ApplyOutcome) -> u16 {
    match outcome {
        ApplyOutcome::Applied { .. } => 200,
        ApplyOutcome::Rejected(_) => 422,
        ApplyOutcome::NotFound => 404,
    }
}

/// The status with which a transport answers a statement: 200 where there is
/// one, 404 where there is no such account.
pub open spec fn statement_status(outcome: StatementOutcome) -> u16 {
    match outcome {
        StatementOutcome::Found { .. } => 200,
        StatementOutcome::NotFound => 404,
    }
}

impl ApplyOutcome {
    /// The status with which a transport answers this outcome.
    pub fn status_code(&self) -> (code: u16)
        ensures
            code == apply_status(*self),
    {
        match self {
            ApplyOutcome::Applied { .. } => 200,
            ApplyOutcome::Rejected(_) => 422,
            ApplyOutcome::NotFound => 404,
        }
    }
}

impl StatementOutcome {
    /// The status with which a transport answers this outcome.
    pub fn status_code(&self) -> (code: u16)
        ensures
            code == statement_status(*self),
    {
        match self {
            StatementOutcome::Found { .. } => 200,
            StatementOutcome::NotFound => 404,
        }
    }
}

/// The status with which a transport answers a payload that is no
/// transaction: 422, whatever is wrong with it.
pub fn invalid_payload_status(defect: InvalidPayload) -> (code: u16)
    ensures
        code == 422,
{
    let _ = defect;
    422
}

/// The accounts that a ledger starts with, each with its limit.
pub open spec fn startup_table() -> Seq<(u8, i64)> {
    seq![
        (1u8, 100_000i64),
        (2u8, 80_000i64),
        (3u8, 1_000_000i64),
        (4u8, 10_000_000i64),
        (5u8, 500_000i64),
    ]
}

/// The ledger that opening the accounts of `table` one by one gives,
/// `table[0]` first: a later entry replaces an earlier one with its identifier.
pub open spec fn opened_all(table: Seq<(u8, i64)>) -> Map<u8, AccountView>
    decreases table.len(),
{
    if table.len() == 0 {
        Map::empty()
    } else {
        opened_all(table.drop_last()).insert(
            table.last().0,
            AccountView::opened(table.last().1 as int),
        )
    }
}

/// A ledger at startup has the accounts 1 to 5 and no other, each with its
/// limit, a balance of zero and no history.
pub proof fn lemma_startup_accounts()
    ensures
        forall|id: u8| opened_all(startup_table()).contains_key(id) <==> 1 <= id <= 5,
        opened_all(startup_table())[1] == AccountView::opened(100_000),
        opened_all(startup_table())[2] == AccountView::opened(80_000),
        opened_all(startup_table())[3] == AccountView::opened(1_000_000),
        opened_all(startup_table())[4] == AccountView::opened(10_000_000),
        opened_all(startup_table())[5] == AccountView::opened(500_000),
{
    let t5 = startup_table();
    let t4 = t5.drop_last();
    let t3 = t4.drop_last();
    let t2 = t3.drop_last();
    let t1 = t2.drop_last();
    let t0 = t1.drop_last();
    assert(t0.len() == 0);
    assert(opened_all(t0) == Map::<u8, AccountView>::empty());
    assert(opened_all(t1) == opened_all(t0).insert(1, AccountView::opened(100_000)));
    assert(opened_all(t2) == opened_all(t1).insert(2, AccountView::opened(80_000)));
    assert(opened_all(t3) == opened_all(t2).insert(3, AccountView::opened(1_000_000)));
    assert(opened_all(t4) == opened_all(t3).insert(4, AccountView::opened(10_000_000)));
    assert(opened_all(t5) == opened_all(t4).insert(5, AccountView::opened(500_000)));
}

/// Whether `cell` is what `enclose` made of an account that is `account`.
pub open spec fn encloses<C, F: Fn(Account) -> C>(enclose: F, account: AccountView, cell: C) -> bool {
    exists|enclosed: Account| enclosed@ == account && #[trigger] enclose.ensures((enclosed,), cell)
}

/// A store with the accounts of `table`, each as it is opened with its limit
/// and enclosed in a cell by `enclose`. A server passes the constructor of
/// its lock.
pub fn open_store<C, F: Fn(Account) -> C>(table: &Vec<(u8, i64)>, enclose: F) -> (store:
    AccountStore<C>)
    requires
        forall|i: int| 0 <= i < table@.len() ==> table@[i].1 >= 0,
        forall|account: Account| enclose.requires((account,)),
    ensures
        store@.dom() == opened_all(table@).dom(),
        forall|id: u8| #[trigger]
            store@.contains_key(id) ==> encloses(enclose, opened_all(table@)[id], store@[id]),
{
    let mut store: AccountStore<C> = AccountStore::new();
    let mut i: usize = 0;
    while i < table.len()
        invariant
            i <= table@.len(),
            forall|i: int| 0 <= i < table@.len() ==> table@[i].1 >= 0,
            forall|account: Account| enclose.requires((account,)),
            store@.dom() =~= opened_all(table@.take(i as int)).dom(),
            forall|id: u8| #[trigger]
                store@.contains_key(id) ==> encloses(
                    enclose,
                    opened_all(table@.take(i as int))[id],
                    store@[id],
                ),
        decreases table@.len() - i,
    {
        let (id, limit) = table[i];
        let account = Account::with_limit(limit);
        let ghost opened = account;
        let cell = enclose(account);
        let ghost before = store@;
        store.insert(id, cell);
        proof {
            assert(table@.take(i + 1).drop_last() =~= table@.take(i as int));
            assert(encloses(enclose, opened@, cell));
            assert forall|other: u8| #[trigger] store@.contains_key(other) implies encloses(
                enclose,
                opened_all(table@.take(i + 1))[other],
                store@[other],
            ) by {
                if other != id {
                    assert(before.contains_key(other));
                }
            }
        }
        i += 1;
    }
    assert(table@.take(i as int) =~= table@);
    store
}

/// The accounts that a ledger starts with, each with its limit.
pub fn startup_limits() -> (table: Vec<(u8, i64)>)
    ensures
        table@ == startup_table(),
{
    let mut table: Vec<(u8, i64)> = Vec::new();
    table.push((1, 100_000));
    table.push((2, 80_000));
    table.push((3, 1_000_000));
    table.push((4, 10_000_000));
    table.push((5, 500_000));
    assert(table@ =~= startup_table());
    table
}

/// The outcome of offering `transaction` to `account`.
pub open spec fn applied_to(account: AccountView, transaction: Transaction) -> ApplyOutcome {
    if account.accepts(transaction) {
        ApplyOutcome::Applied {
            limit: account.limit as i64,
            balance: account.balance_with(transaction) as i64,
        }
    } else {
        ApplyOutcome::Rejected(Overdraft)
    }
}

/// Applies a transaction to an account to which the caller has exclusive access.
pub fn apply_to_account(account: &mut Account, transaction: Transaction) -> (outcome:
    ApplyOutcome)
    requires
        old(account)@.representable(transaction),
    ensures
        final(account)@ == old(account)@.after(transaction),
        final(account)@.wf(),
        outcome == applied_to(old(account)@, transaction),
{
    match account.apply(transaction) {
        Ok(status) => ApplyOutcome::Applied { limit: status.limit, balance: status.balance },
        Err(overdraft) => ApplyOutcome::Rejected(overdraft),
    }
}

/// Whether `outcome` is the statement of `account`, read at `as_of`.
pub open spec fn shows(outcome: StatementOutcome, account: AccountView, as_of: String) -> bool {
    match outcome {
        StatementOutcome::Found { balance, limit, history, as_of: stamp } => {
            &&& balance == account.balance
            &&& limit == account.limit
            &&& history@ == account.history
            &&& stamp == as_of
        },
        StatementOutcome::NotFound => false,
    }
}

/// Reads the statement of an account to which the caller has shared access.
pub fn statement_of_account(account: &Account, as_of: String) -> (outcome: StatementOutcome)
    ensures
        shows(outcome, account@, as_of),
        account@.wf(),
{
    let Statement { balance, limit, history } = account.statement();
    StatementOutcome::Found { balance, limit, history, as_of }
}

/// A ledger whose accounts are plain values: one caller at a time works on
/// it, with exclusive access to the whole for applying a transaction and
/// shared access for reading a statement.
pub struct Ledger {
    accounts: AccountStore<Account>,
}

impl View for Ledger {
    type V = Map<u8, AccountView>;

    closed spec fn view(&self) -> Map<u8, AccountView> {
        Map::new(|id: u8| self.accounts@.contains_key(id), |id: u8| self.accounts@[id]@)
    }
}

impl Ledger {
    /// A ledger without accounts.
    pub fn new() -> (ledger: Self)
        ensures
            ledger@ == Map::<u8, AccountView>::empty(),
    {
        let ledger = Ledger { accounts: AccountStore::new() };
        assert(ledger@ =~= Map::<u8, AccountView>::empty());
        ledger
    }

    /// A ledger with the accounts of `table`, each as it is opened with its
    /// limit.
    pub fn with_accounts(table: &Vec<(u8, i64)>) -> (ledger: Self)
        requires
            forall|i: int| 0 <= i < table@.len() ==> table@[i].1 >= 0,
        ensures
            ledger@ == opened_all(table@),
    {
        let plain = |account: Account| -> (cell: Account)
            ensures
                cell == account,
            { account };
        let ledger = Ledger { accounts: open_store(table, plain) };
        assert(ledger@ =~= opened_all(table@)) by {
            assert forall|id: u8| #[trigger]
                ledger.accounts@.contains_key(id) implies ledger.accounts@[id]@ == opened_all(
                table@,
            )[id] by {
                assert(encloses(plain, opened_all(table@)[id], ledger.accounts@[id]));
            }
        }
        ledger
    }

    /// A ledger as it is at startup: the accounts 1 to 5 with their limits.
    pub fn startup() -> (ledger: Self)
        ensures
            ledger@ == opened_all(startup_table()),
    {
        let table = startup_limits();
        Ledger::with_accounts(&table)
    }

    /// Opens account `id` with the given limit, a balance of zero and no
    /// history. An account that had the identifier before is replaced. This
    /// is for setting a ledger up.
    pub fn open_account(&mut self, id: u8, limit: i64)
        requires
            limit >= 0,
        ensures
            final(self)@ == old(self)@.insert(id, AccountView::opened(limit as int)),
    {
        self.accounts.insert(id, Account::with_limit(limit));
        assert(final(self)@ =~= old(self)@.insert(id, AccountView::opened(limit as int)));
    }

    /// Whether `id` names an account.
    pub fn contains(&self, id: u8) -> (found: bool)
        ensures
            found == self@.contains_key(id),
    {
        self.accounts.contains(id)
    }

    /// Whether `apply_transaction` can be called with these arguments:
    /// whether the account, if there is one, can hold the balance that the
    /// transaction leads to.
    pub fn can_hold(&self, id: u8, transaction: &Transaction) -> (fits: bool)
        ensures
            fits == (self@.contains_key(id) ==> self@[id].representable(*transaction)),
    {
        match self.accounts.get(id) {
            Some(account) => account.can_hold(transaction),
            None => true,
        }
    }

    /// Applies a transaction to account `id`. Where `id` names no account,
    /// nothing changes. No other account changes in any case.
    pub fn apply_transaction(&mut self, id: u8, transaction: Transaction) -> (outcome:
        ApplyOutcome)
        requires
            old(self)@.contains_key(id) ==> old(self)@[id].representable(transaction),
        ensures
            !old(self)@.contains_key(id) ==> outcome == ApplyOutcome::NotFound && final(self)@
                == old(self)@,
            old(self)@.contains_key(id) ==> outcome == applied_to(old(self)@[id], transaction)
                && final(self)@ == old(self)@.insert(id, old(self)@[id].after(transaction))
                && final(self)@[id].wf(),
    {
        match self.accounts.get_mut(id) {
            Some(account) => {
                let outcome = apply_to_account(account, transaction);
                assert(final(self)@ =~= old(self)@.insert(
                    id,
                    old(self)@[id].after(transaction),
                ));
                outcome
            },
            None => {
                assert(final(self)@ =~= old(self)@);
                ApplyOutcome::NotFound
            },
        }
    }

    /// Reads the statement of account `id`, stamped with `as_of`.
    pub fn read_statement(&self, id: u8, as_of: String) -> (outcome: StatementOutcome)
        ensures
            !self@.contains_key(id) ==> outcome == StatementOutcome::NotFound,
            self@.contains_key(id) ==> shows(outcome, self@[id], as_of) && self@[id].wf(),
    {
        match self.accounts.get(id) {
            Some(account) => statement_of_account(account, as_of),
            None => StatementOutcome::NotFound,
        }
    }
}

} // verus!
