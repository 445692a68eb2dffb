//! An account: a balance that never falls below the overdraft limit, and the
//! most recent transactions applied to it.

use crate::history::pushed;
use crate::history::RingBuffer;
use crate::transaction::Transaction;
use crate::transaction::TransactionKind;
use vstd::prelude::*;

verus! {

/// How many transactions an account remembers.
pub const HISTORY_CAPACITY: usize = 10;

/// An account as a mathematical value.
pub struct AccountView {
    pub balance: int,
    pub limit: int,
    /// The remembered transactions, newest first.
    pub history: Seq<Transaction>,
}

impl AccountView {
    /// An account as it is opened: the given limit, a balance of zero, no history.
    pub open spec fn opened(limit: int) -> AccountView {
        AccountView { balance: 0, limit, history: Seq::empty() }
    }

    /// What holds of every account: the limit is not negative, the balance is
    /// not below the negated limit, and the history is within its capacity.
    pub open spec fn wf(self) -> bool {
        &&& 0 <= self.limit <= i64::MAX
        &&& -self.limit <= self.balance <= i64::MAX
        &&& self.history.len() <= HISTORY_CAPACITY
    }

    /// Whether the account takes the transaction: a credit always, a debit
    /// when it leaves the balance at or above the negated limit.
    pub open spec fn accepts(self, transaction: Transaction) -> bool {
        match transaction.kind {
            TransactionKind::Credit => true,
            TransactionKind::Debit => self.balance - transaction.value >= -self.limit,
        }
    }

    /// The balance once the transaction is taken.
    pub open spec fn balance_with(self, transaction: Transaction) -> int {
        match transaction.kind {
            TransactionKind::Credit => self.balance + transaction.value,
            TransactionKind::Debit => self.balance - transaction.value,
        }
    }

    /// The account after the transaction was offered to it: changed when it
    /// takes the transaction, the same when it does not.
    pub open spec fn after(self, transaction: Transaction) -> AccountView {
        if self.accepts(transaction) {
            AccountView {
                balance: self.balance_with(transaction),
                limit: self.limit,
                history: pushed(self.history, HISTORY_CAPACITY as nat, transaction),
            }
        } else {
            self
        }
    }

    /// Whether the balance that the transaction leads to can be held in 64
    /// bits. Only a credit can lead beyond them.
    pub open spec fn representable(self, transaction: Transaction) -> bool {
        self.accepts(transaction) ==> self.balance_with(transaction) <= i64::MAX
    }
}

/// The limit and the balance of an account after a transaction was applied.
#[derive(Clone, Copy, Debug, PartialEq, Eq, Structural)]
pub struct Status {
    pub limit: i64,
    pub balance: i64,
}

/// A debit was refused: it would have taken the balance below the negated limit.
#[derive(Clone, Copy, Debug, PartialEq, Eq, Structural)]
pub struct Overdraft;

/// What an account shows of itself: balance, limit and the remembered
/// transactions, newest first.
#[derive(Debug, PartialEq, Eq)]
pub struct Statement {
    pub balance: i64,
    pub limit: i64,
    pub history: Vec<Transaction>,
}

/// An account of the ledger.
pub struct Account {
    balance: i64,
    limit: i64,
    history: RingBuffer<Transaction>,
}

impl View for Account {
    type V = AccountView;

    closed spec fn view(&self) -> AccountView {
        AccountView {
            balance: self.balance as int,
            limit: self.limit as int,
            history: self.history@,
        }
    }
}

impl Account {
    /// How many transactions the history keeps at most.
    pub closed spec fn remembers(&self) -> nat {
        self.history.spec_capacity()
    }

    /// What holds of every account at all times: the balance is not below
    /// the negated limit, and the history keeps the ten most recent
    /// transactions.
    #[verifier::type_invariant]
    pub open spec fn sound(&self) -> bool {
        &&& self@.wf()
        &&& self.remembers() == HISTORY_CAPACITY
    }

    /// A new account with the given limit, a balance of zero and no history.
    pub fn with_limit(limit: i64) -> (account: Self)
        requires
            limit >= 0,
        ensures
            account@ == AccountView::opened(limit as int),
            account@.wf(),
    {
        Account { balance: 0, limit, history: RingBuffer::with_capacity(HISTORY_CAPACITY) }
    }

    /// The current balance.
    pub fn balance(&self) -> (balance: i64)
        ensures
            balance == self@.balance,
    {
        self.balance
    }

    /// The overdraft limit.
    pub fn limit(&self) -> (limit: i64)
        ensures
            limit == self@.limit,
    {
        self.limit
    }

    /// The largest amount that a debit may take now. That it is a number at
    /// all says that the balance is not below the negated limit.
    pub fn available(&self) -> (amount: u64)
        ensures
            amount == self@.balance + self@.limit,
            self@.wf(),
    {
        proof {
            use_type_invariant(self);
        }
        (self.balance as i128 + self.limit as i128) as u64
    }

    /// Whether `apply` can be called with this transaction: whether the
    /// balance it leads to can be held.
    pub fn can_hold(&self, transaction: &Transaction) -> (fits: bool)
        ensures
            fits == self@.representable(*transaction),
    {
        match transaction.kind {
            TransactionKind::Credit => self.balance as i128 + transaction.value as i128
                <= i64::MAX as i128,
            TransactionKind::Debit => {
                proof {
                    use_type_invariant(self);
                }
                true
            },
        }
    }

    /// Applies a transaction. A credit is added to the balance. A debit is
    /// taken from it unless that would leave less than the negated limit: then
    /// nothing changes and the debit is refused. A transaction that was
    /// applied becomes the newest of the history.
    pub fn apply(&mut self, transaction: Transaction) -> (outcome: Result<Status, Overdraft>)
        requires
            old(self)@.representable(transaction),
        ensures
            final(self)@ == old(self)@.after(transaction),
            final(self)@.wf(),
            -final(self)@.limit <= final(self)@.balance,
            match outcome {
                Ok(status) => {
                    &&& old(self)@.accepts(transaction)
                    &&& status.limit == final(self)@.limit
                    &&& status.balance == final(self)@.balance
                },
                Err(_) => !old(self)@.accepts(transaction),
            },
    {
        proof {
            use_type_invariant(&*self);
        }
        let amount = transaction.value as i128;
        let balance = match transaction.kind {
            TransactionKind::Credit => self.balance as i128 + amount,
            TransactionKind::Debit => {
                if self.balance as i128 + self.limit as i128 >= amount {
                    self.balance as i128 - amount
                } else {
                    return Err(Overdraft);
                }
            },
        };
        // The history is rearranged outside `self`, an empty one standing in.
        let mut history: RingBuffer<Transaction> = RingBuffer::with_capacity(HISTORY_CAPACITY);
        core::mem::swap(&mut self.history, &mut history);
        history.push(transaction);
        core::mem::swap(&mut self.history, &mut history);
        self.balance = balance as i64;
        Ok(Status { limit: self.limit, balance: self.balance })
    }

    /// The balance, the limit and a copy of the history, newest first.
    pub fn statement(&self) -> (statement: Statement)
        ensures
            statement.balance == self@.balance,
            statement.limit == self@.limit,
            statement.history@ == self@.history,
            self@.wf(),
    {
        let held = self.history.len();
        let mut history: Vec<Transaction> = Vec::new();
        let mut i: usize = 0;
        while i < held
            invariant
                held == self.history@.len(),
                i <= held,
                history@ == self.history@.take(i as int),
            decreases held - i,
        {
            match self.history.get(i) {
                Some(transaction) => {
                    history.push(transaction.clone());
                },
                None => {},
            }
            assert(self.history@.take(i + 1) =~= self.history@.take(i as int).push(
                self.history@[i as int],
            ));
            i += 1;
        }
        assert(self.history@.take(held as int) =~= self.history@);
        proof {
            use_type_invariant(self);
        }
        Statement { balance: self.balance, limit: self.limit, history }
    }
}

/// The account after the transactions of `offered` were offered to it one by
/// one, `offered[0]` first.
pub open spec fn after_all(account: AccountView, offered: Seq<Transaction>) -> AccountView
    decreases offered.len(),
{
    if offered.len() == 0 {
        account
    } else {
        after_all(account, offered.drop_last()).after(offered.last())
    }
}

/// Those of `offered` that the account took, in the order in which they were offered.
pub open spec fn taken(account: AccountView, offered: Seq<Transaction>) -> Seq<Transaction>
    decreases offered.len(),
{
    if offered.len() == 0 {
        Seq::empty()
    } else {
        let earlier = taken(account, offered.drop_last());
        if after_all(account, offered.drop_last()).accepts(offered.last()) {
            earlier.push(offered.last())
        } else {
            earlier
        }
    }
}

/// The balance never falls below the negated limit: an account of which this
/// holds, and whose history is within its capacity, is so again after any
/// transaction whose result can be held.
pub proof fn lemma_limit_is_kept(account: AccountView, transaction: Transaction)
    requires
        account.wf(),
        account.representable(transaction),
    ensures
        account.after(transaction).wf(),
        account.after(transaction).balance >= -account.after(transaction).limit,
        account.after(transaction).limit == account.limit,
{
    crate::history::lemma_pushed_is_bounded(
        account.history,
        HISTORY_CAPACITY as nat,
        transaction,
    );
}

/// The same of any number of transactions, one after the other.
pub proof fn lemma_limit_is_kept_throughout(account: AccountView, offered: Seq<Transaction>)
    requires
        account.wf(),
        forall|n: int|
            0 <= n < offered.len() ==> (#[trigger] after_all(
                account,
                offered.take(n),
            )).representable(offered[n]),
    ensures
        after_all(account, offered).wf(),
        after_all(account, offered).balance >= -after_all(account, offered).limit,
        after_all(account, offered).limit == account.limit,
    decreases offered.len(),
{
    if offered.len() > 0 {
        let front = offered.drop_last();
        assert forall|n: int| 0 <= n < front.len() implies (#[trigger] after_all(
            account,
            front.take(n),
        )).representable(front[n]) by {
            assert(front.take(n) =~= offered.take(n));
        }
        lemma_limit_is_kept_throughout(account, front);
        assert(offered.take(offered.len() - 1) =~= front);
        lemma_limit_is_kept(after_all(account, front), offered.last());
    }
}

/// A credit is always taken, and adds exactly its value to the balance.
pub proof fn lemma_credit_adds_its_value(account: AccountView, transaction: Transaction)
    requires
        transaction.kind == TransactionKind::Credit,
    ensures
        account.accepts(transaction),
        account.after(transaction).balance == account.balance + transaction.value,
        account.after(transaction).limit == account.limit,
{
}

/// A debit is taken exactly when it leaves the balance at or above the negated
/// limit. Taken, it lowers the balance by its value; refused, it leaves the
/// account as it was, history included.
pub proof fn lemma_debit_within_limit(account: AccountView, transaction: Transaction)
    requires
        transaction.kind == TransactionKind::Debit,
    ensures
        account.accepts(transaction) <==> account.balance - transaction.value >= -account.limit,
        account.accepts(transaction) ==> account.after(transaction).balance == account.balance
            - transaction.value,
        !account.accepts(transaction) ==> account.after(transaction) == account,
{
}

/// The history after a run of transactions is what pushing the taken ones,
/// in their order, makes of the history before.
pub proof fn lemma_history_follows_taken(account: AccountView, offered: Seq<Transaction>)
    ensures
        after_all(account, offered).history == crate::history::pushed_all(
            account.history,
            HISTORY_CAPACITY as nat,
            taken(account, offered),
        ),
    decreases offered.len(),
{
    if offered.len() > 0 {
        let front = offered.drop_last();
        lemma_history_follows_taken(account, front);
        if after_all(account, front).accepts(offered.last()) {
            assert(taken(account, offered).drop_last() =~= taken(account, front));
        }
    }
}

/// The history of an account that started with none holds exactly the most
/// recent of the transactions it took, newest first: all of them while they
/// are ten or fewer, the last ten after that.
pub proof fn lemma_history_holds_most_recent(account: AccountView, offered: Seq<Transaction>)
    requires
        account.history.len() == 0,
    ensures
        after_all(account, offered).history == crate::history::newest_first(
            taken(account, offered),
            HISTORY_CAPACITY as nat,
        ),
        taken(account, offered).len() <= HISTORY_CAPACITY ==> after_all(account, offered).history
            == taken(account, offered).reverse(),
        taken(account, offered).len() > HISTORY_CAPACITY ==> after_all(account, offered).history
            == taken(account, offered).skip(
            taken(account, offered).len() - HISTORY_CAPACITY,
        ).reverse(),
{
    lemma_history_follows_taken(account, offered);
    assert(account.history =~= Seq::<Transaction>::empty());
    crate::history::lemma_history_keeps_most_recent(
        HISTORY_CAPACITY as nat,
        taken(account, offered),
    );
}

/// Debits of one value, offered one after the other to an account that can
/// bear exactly `bearable` of them, are taken until `bearable` were taken and
/// refused from then on; the balance falls by the value of those taken and by
/// nothing else. In whatever order concurrent debits of one value reach an
/// account, the outcome is therefore the same.
pub proof fn lemma_equal_debits(
    account: AccountView,
    debits: Seq<Transaction>,
    value: int,
    bearable: int,
)
    requires
        account.wf(),
        value > 0,
        forall|n: int|
            0 <= n < debits.len() ==> (#[trigger] debits[n]).kind == TransactionKind::Debit
                && debits[n].value == value,
        0 <= bearable,
        bearable * value <= account.balance + account.limit < (bearable + 1) * value,
    ensures
        debits.len() <= bearable ==> taken(account, debits).len() == debits.len(),
        debits.len() > bearable ==> taken(account, debits).len() == bearable,
        after_all(account, debits).balance == account.balance - taken(account, debits).len()
            * value,
        after_all(account, debits).balance >= -account.limit,
        after_all(account, debits).limit == account.limit,
    decreases debits.len(),
{
    if debits.len() > 0 {
        let front = debits.drop_last();
        let last = debits.last();
        lemma_equal_debits(account, front, value, bearable);
        let before = after_all(account, front);
        let count = taken(account, front).len() as int;
        assert(last.kind == TransactionKind::Debit && last.value == value);
        assert((count + 1) * value == count * value + value) by (nonlinear_arith);
        if front.len() < bearable {
            assert(count == front.len());
            assert((count + 1) * value <= bearable * value) by (nonlinear_arith)
                requires
                    count + 1 <= bearable,
                    value > 0,
            ;
            assert(before.accepts(last));
        } else {
            assert(count == bearable);
            assert(!before.accepts(last));
        }
    }
}

} // verus!
