//! The bank: a fixed store of accounts and a journal of what was done to
//! them, with deposit, withdraw and transfer as exact state transitions.

use vstd::prelude::*;
use crate::account::{Account, credited, transfer_between};

verus! {

/// What an operation asks for.
#[derive(Clone, Copy, Debug, PartialEq, Eq, Structural)]
pub enum OpKind {
    Deposit,
    Withdraw,
    Transfer,
}

/// The content of one log line: who ran which ledger entry, what it asked
/// for, and whether it went through. For a deposit or a withdrawal `dest`
/// repeats `account`; for a transfer `account` is the source.
#[derive(Clone, Copy, Debug, PartialEq, Eq, Structural)]
pub struct LogRecord {
    pub worker_id: u32,
    pub ledger_id: u32,
    pub kind: OpKind,
    pub amount: u32,
    pub account: usize,
    pub dest: usize,
    pub success: bool,
}

/// The number of successful records in a log.
pub open spec fn successes(log: Seq<LogRecord>) -> nat
    decreases log.len(),
{
    if log.len() == 0 {
        0
    } else {
        successes(log.drop_last()) + if log.last().success { 1nat } else { 0nat }
    }
}

/// Appending a record raises the number of successes by one exactly when
/// the record is a success.
pub proof fn lemma_successes_push(log: Seq<LogRecord>, rec: LogRecord)
    ensures
        successes(log.push(rec)) == successes(log) + if rec.success { 1nat } else { 0nat },
{
    assert(log.push(rec).drop_last() =~= log);
}

/// The outcome log with its two counters. The counters always agree with
/// the log: see `wf`.
#[derive(Debug)]
pub struct Journal {
    pub success_count: u64,
    pub failure_count: u64,
    pub log: Vec<LogRecord>,
}

impl Journal {
    /// The counters count the log: successes and failures separately.
    pub open spec fn wf(&self) -> bool {
        &&& self.success_count == successes(self.log@)
        &&& self.success_count + self.failure_count == self.log@.len()
    }

    /// An empty journal.
    pub fn new() -> (j: Journal)
        ensures
            j.wf(),
            j.log@ == Seq::<LogRecord>::empty(),
    {
        Journal { success_count: 0, failure_count: 0, log: Vec::new() }
    }

    /// Appends one record and raises the counter that matches its outcome.
    pub fn record(&mut self, rec: LogRecord)
        requires
            old(self).wf(),
        ensures
            final(self).wf(),
            final(self).log@ == old(self).log@.push(rec),
            final(self).success_count == old(self).success_count + if rec.success { 1int } else { 0int },
            final(self).failure_count == old(self).failure_count + if rec.success { 0int } else { 1int },
    {
        proof {
            lemma_successes_push(self.log@, rec);
        }
        self.log.push(rec);
        let n: usize = self.log.len();
        assert(n <= usize::MAX);
        if rec.success {
            self.success_count = self.success_count + 1;
        } else {
            self.failure_count = self.failure_count + 1;
        }
    }
}

/// What a bank is, mathematically: the balance of each account, by
/// identifier, and the log of outcomes so far.
pub struct BankView {
    pub balances: Seq<u32>,
    pub log: Seq<LogRecord>,
}

/// The record that a deposit leaves.
pub open spec fn deposit_record(worker_id: u32, ledger_id: u32, account: usize, amount: u32) -> LogRecord {
    LogRecord { worker_id, ledger_id, kind: OpKind::Deposit, amount, account, dest: account, success: true }
}

/// The record that a withdrawal leaves.
pub open spec fn withdraw_record(worker_id: u32, ledger_id: u32, account: usize, amount: u32, success: bool) -> LogRecord {
    LogRecord { worker_id, ledger_id, kind: OpKind::Withdraw, amount, account, dest: account, success }
}

/// The record that a transfer leaves.
pub open spec fn transfer_record(worker_id: u32, ledger_id: u32, src: usize, dest: usize, amount: u32, success: bool) -> LogRecord {
    LogRecord { worker_id, ledger_id, kind: OpKind::Transfer, amount, account: src, dest, success }
}

/// Whether a withdrawal of `amount` from `account` goes through.
pub open spec fn withdraw_succeeds(s: BankView, account: usize, amount: u32) -> bool {
    s.balances[account as int] >= amount
}

/// Whether a transfer of `amount` from `src` to `dest` goes through.
pub open spec fn transfer_succeeds(s: BankView, src: usize, dest: usize, amount: u32) -> bool {
    src != dest && s.balances[src as int] >= amount
}

/// The bank after a deposit: the account is credited, one success logged.
pub open spec fn after_deposit(s: BankView, worker_id: u32, ledger_id: u32, account: usize, amount: u32) -> BankView {
    BankView {
        balances: s.balances.update(account as int, credited(s.balances[account as int], amount)),
        log: s.log.push(deposit_record(worker_id, ledger_id, account, amount)),
    }
}

/// The bank after a withdrawal: debited and a success logged where the
/// balance covers the amount, untouched and a failure logged where not.
pub open spec fn after_withdraw(s: BankView, worker_id: u32, ledger_id: u32, account: usize, amount: u32) -> BankView {
    let ok = withdraw_succeeds(s, account, amount);
    BankView {
        balances: if ok {
            s.balances.update(account as int, (s.balances[account as int] - amount) as u32)
        } else {
            s.balances
        },
        log: s.log.push(withdraw_record(worker_id, ledger_id, account, amount, ok)),
    }
}

/// The bank after a transfer: the source debited and the destination
/// credited where the two differ and the source covers the amount;
/// untouched and a failure logged otherwise.
pub open spec fn after_transfer(s: BankView, worker_id: u32, ledger_id: u32, src: usize, dest: usize, amount: u32) -> BankView {
    let ok = transfer_succeeds(s, src, dest, amount);
    BankView {
        balances: if ok {
            s.balances.update(src as int, (s.balances[src as int] - amount) as u32).update(
                dest as int,
                credited(s.balances[dest as int], amount),
            )
        } else {
            s.balances
        },
        log: s.log.push(transfer_record(worker_id, ledger_id, src, dest, amount, ok)),
    }
}

/// The final dump: every account in identifier order, then the counters.
#[derive(Debug)]
pub struct Dump {
    pub accounts: Vec<Account>,
    pub success_count: u64,
    pub failure_count: u64,
}

/// Whether `dump` is the dump of a bank in state `s`: one entry for each
/// account, in identifier order, with that account's identifier and
/// balance; then the number of successes and of failures in the log.
pub open spec fn is_dump_of(dump: Dump, s: BankView) -> bool {
    &&& dump.accounts@.len() == s.balances.len()
    &&& forall|i: int|
        0 <= i < s.balances.len() ==> (#[trigger] dump.accounts@[i]).id == i && dump.accounts@[i].balance
            == s.balances[i]
    &&& dump.success_count == successes(s.log)
    &&& dump.failure_count == s.log.len() - successes(s.log)
}

/// The account store together with its journal.
#[derive(Debug)]
pub struct Bank {
    pub accounts: Vec<Account>,
    pub journal: Journal,
}

impl View for Bank {
    type V = BankView;

    open spec fn view(&self) -> BankView {
        BankView {
            balances: Seq::new(self.accounts@.len(), |i: int| self.accounts@[i].balance),
            log: self.journal.log@,
        }
    }
}

impl Bank {
    /// Account `i` carries identifier `i`, identifiers fit in `u32`, and the
    /// journal's counters agree with its log.
    pub open spec fn wf(&self) -> bool {
        &&& self.accounts@.len() <= u32::MAX
        &&& forall|i: int| 0 <= i < self.accounts@.len() ==> (#[trigger] self.accounts@[i]).id == i
        &&& self.journal.wf()
    }

    /// A bank of `n` accounts, numbered from zero, all empty, with nothing
    /// logged.
    pub fn new(n: u32) -> (bank: Bank)
        ensures
            bank.wf(),
            bank@.balances == Seq::new(n as nat, |i: int| 0u32),
            bank@.log == Seq::<LogRecord>::empty(),
            bank.journal.success_count == 0,
            bank.journal.failure_count == 0,
    {
        let mut accounts: Vec<Account> = Vec::new();
        let mut i: u32 = 0;
        while i < n
            invariant
                i <= n,
                accounts@.len() == i,
                forall|k: int| 0 <= k < i ==> (#[trigger] accounts@[k]).id == k && accounts@[k].balance == 0,
            decreases n - i,
        {
            accounts.push(Account::new(i));
            i = i + 1;
        }
        let bank = Bank { accounts, journal: Journal::new() };
        assert(bank@.balances =~= Seq::new(n as nat, |i: int| 0u32));
        bank
    }

    /// The number of accounts.
    pub fn len(&self) -> (n: usize)
        ensures
            n == self@.balances.len(),
    {
        self.accounts.len()
    }

    /// Reads the balance of one account.
    pub fn get_balance(&self, account_id: usize) -> (b: u32)
        requires
            account_id < self@.balances.len(),
        ensures
            b == self@.balances[account_id as int],
    {
        self.accounts[account_id].get_balance()
    }

    /// Credits `amount` to the account and records a success. Never fails:
    /// the result is always 0.
    pub fn deposit(&mut self, worker_id: u32, ledger_id: u32, account_id: usize, amount: u32) -> (r: i32)
        requires
            old(self).wf(),
            account_id < old(self)@.balances.len(),
        ensures
            final(self).wf(),
            r == 0,
            final(self)@ == after_deposit(old(self)@, worker_id, ledger_id, account_id, amount),
            final(self).journal.success_count == old(self).journal.success_count + 1,
            final(self).journal.failure_count == old(self).journal.failure_count,
    {
        let mut acc = self.accounts[account_id];
        acc.credit(amount);
        self.accounts[account_id] = acc;
        self.journal.record(
            LogRecord {
                worker_id,
                ledger_id,
                kind: OpKind::Deposit,
                amount,
                account: account_id,
                dest: account_id,
                success: true,
            },
        );
        assert(self@.balances =~= after_deposit(old(self)@, worker_id, ledger_id, account_id, amount).balances);
        0
    }

    /// Debits `amount` from the account if its balance covers it (a balance
    /// equal to `amount` does) and records a success, with result 0.
    /// Otherwise leaves every balance as it was and records a failure, with
    /// result -1.
    pub fn withdraw(&mut self, worker_id: u32, ledger_id: u32, account_id: usize, amount: u32) -> (r: i32)
        requires
            old(self).wf(),
            account_id < old(self)@.balances.len(),
        ensures
            final(self).wf(),
            r == if withdraw_succeeds(old(self)@, account_id, amount) { 0i32 } else { -1i32 },
            final(self)@ == after_withdraw(old(self)@, worker_id, ledger_id, account_id, amount),
            final(self).journal.success_count == old(self).journal.success_count + if r == 0 { 1int } else { 0int },
            final(self).journal.failure_count == old(self).journal.failure_count + if r == 0 { 0int } else { 1int },
    {
        let mut acc = self.accounts[account_id];
        let ok = acc.debit(amount);
        self.accounts[account_id] = acc;
        self.journal.record(
            LogRecord {
                worker_id,
                ledger_id,
                kind: OpKind::Withdraw,
                amount,
                account: account_id,
                dest: account_id,
                success: ok,
            },
        );
        assert(self@.balances =~= after_withdraw(old(self)@, worker_id, ledger_id, account_id, amount).balances);
        if ok {
            0
        } else {
            -1
        }
    }

    /// Moves `amount` from `src_id` to `dest_id` and records a success, with
    /// result 0, if the two accounts differ and the source covers the
    /// amount. Otherwise leaves every balance as it was and records a
    /// failure, with result -1; a transfer from an account to itself always
    /// ends so.
    pub fn transfer(&mut self, worker_id: u32, ledger_id: u32, src_id: usize, dest_id: usize, amount: u32) -> (r: i32)
        requires
            old(self).wf(),
            src_id < old(self)@.balances.len(),
            dest_id < old(self)@.balances.len(),
        ensures
            final(self).wf(),
            r == if transfer_succeeds(old(self)@, src_id, dest_id, amount) { 0i32 } else { -1i32 },
            final(self)@ == after_transfer(old(self)@, worker_id, ledger_id, src_id, dest_id, amount),
            final(self).journal.success_count == old(self).journal.success_count + if r == 0 { 1int } else { 0int },
            final(self).journal.failure_count == old(self).journal.failure_count + if r == 0 { 0int } else { 1int },
            src_id == dest_id ==> r == -1 && final(self)@.balances == old(self)@.balances,
    {
        let mut ok = false;
        if src_id != dest_id {
            let mut src = self.accounts[src_id];
            let mut dest = self.accounts[dest_id];
            ok = transfer_between(&mut src, &mut dest, amount);
            self.accounts[src_id] = src;
            self.accounts[dest_id] = dest;
        }
        self.journal.record(
            LogRecord {
                worker_id,
                ledger_id,
                kind: OpKind::Transfer,
                amount,
                account: src_id,
                dest: dest_id,
                success: ok,
            },
        );
        assert(self@.balances =~= after_transfer(old(self)@, worker_id, ledger_id, src_id, dest_id, amount).balances);
        if ok {
            0
        } else {
            -1
        }
    }

    /// The diagnostic dump: each account's identifier and balance, in
    /// identifier order, then the two counters. The bank is not changed, so
    /// two dumps with nothing in between are equal.
    pub fn print_account(&self) -> (dump: Dump)
        requires
            self.wf(),
        ensures
            is_dump_of(dump, self@),
    {
        let mut out: Vec<Account> = Vec::new();
        let mut i: usize = 0;
        while i < self.accounts.len()
            invariant
                i <= self.accounts@.len(),
                out@ == self.accounts@.take(i as int),
            decreases self.accounts@.len() - i,
        {
            out.push(self.accounts[i]);
            assert(self.accounts@.take(i as int).push(self.accounts@[i as int]) =~= self.accounts@.take(i + 1));
            i = i + 1;
        }
        assert(self.accounts@.take(i as int) =~= self.accounts@);
        Dump {
            accounts: out,
            success_count: self.journal.success_count,
            failure_count: self.journal.failure_count,
        }
    }
}

} // verus!
