//! The ledger: the queue of pending operations, and the workers that drain
//! it into the bank.

use std::collections::VecDeque;
use vstd::prelude::*;
use crate::account::{credited, lock_order, lock_pair, Account};
use crate::bank::{
    after_deposit, after_transfer, after_withdraw, transfer_succeeds, withdraw_succeeds, Bank,
    BankView, LogRecord, OpKind,
};

verus! {

/// One ledger entry. `sequence_id` is the entry's position in the source and
/// serves only to tell entries apart in the log. `to` matters for a transfer
/// only.
#[derive(Clone, Copy, Debug, PartialEq, Eq, Structural)]
pub struct Operation {
    pub sequence_id: u32,
    pub kind: OpKind,
    pub from: u32,
    pub to: u32,
    pub amount: u32,
}

/// The kind that a mode number stands for: 0 a deposit, 1 a withdrawal,
/// anything else a transfer.
pub open spec fn kind_of_mode(mode: u32) -> OpKind {
    if mode == 0 {
        OpKind::Deposit
    } else if mode == 1 {
        OpKind::Withdraw
    } else {
        OpKind::Transfer
    }
}

impl OpKind {
    /// Reads a mode number.
    pub fn from_mode(mode: u32) -> (kind: OpKind)
        ensures
            kind == kind_of_mode(mode),
    {
        if mode == 0 {
            OpKind::Deposit
        } else if mode == 1 {
            OpKind::Withdraw
        } else {
            OpKind::Transfer
        }
    }
}

impl Operation {
    /// Whether every account that the operation touches exists in a bank of
    /// `n` accounts.
    pub open spec fn valid_for(&self, n: nat) -> bool {
        &&& self.from < n
        &&& self.kind == OpKind::Transfer ==> self.to < n
    }

    /// Tests `valid_for`.
    pub fn is_valid_for(&self, n: usize) -> (ok: bool)
        ensures
            ok == self.valid_for(n as nat),
    {
        let from_ok = (self.from as usize) < n;
        match self.kind {
            OpKind::Transfer => from_ok && (self.to as usize) < n,
            _ => from_ok,
        }
    }
}

/// The accounts whose guards a worker takes to apply `op`, in the order in
/// which it takes them: the one account of a deposit or a withdrawal; both
/// accounts of a transfer, the smaller identifier first; none for a
/// transfer from an account to itself, which touches no balance.
pub open spec fn guards_of(op: Operation) -> Seq<usize> {
    match op.kind {
        OpKind::Transfer => if op.from == op.to {
            Seq::empty()
        } else {
            seq![lock_pair(op.from as usize, op.to as usize).0, lock_pair(op.from as usize, op.to as usize).1]
        },
        _ => seq![op.from as usize],
    }
}

/// The log record of `op`, applied by `worker_id` with the given outcome.
pub open spec fn record_of(worker_id: u32, op: Operation, success: bool) -> LogRecord {
    LogRecord {
        worker_id,
        ledger_id: op.sequence_id,
        kind: op.kind,
        amount: op.amount,
        account: op.from as usize,
        dest: if op.kind == OpKind::Transfer {
            op.to as usize
        } else {
            op.from as usize
        },
        success,
    }
}

impl Operation {
    /// Lists the accounts to guard, in acquisition order. Guards are
    /// released in the reverse order.
    pub fn guards(&self) -> (order: Vec<usize>)
        ensures
            order@ == guards_of(*self),
    {
        let mut order: Vec<usize> = Vec::new();
        match self.kind {
            OpKind::Transfer => {
                if self.from != self.to {
                    let (first, second) = lock_order(self.from as usize, self.to as usize);
                    order.push(first);
                    order.push(second);
                }
            },
            _ => {
                order.push(self.from as usize);
            },
        }
        assert(order@ =~= guards_of(*self));
        order
    }

    /// Builds the log record of this operation for a given outcome.
    pub fn outcome_record(&self, worker_id: u32, success: bool) -> (rec: LogRecord)
        ensures
            rec == record_of(worker_id, *self, success),
    {
        let dest = match self.kind {
            OpKind::Transfer => self.to as usize,
            _ => self.from as usize,
        };
        LogRecord {
            worker_id,
            ledger_id: self.sequence_id,
            kind: self.kind,
            amount: self.amount,
            account: self.from as usize,
            dest,
            success,
        }
    }

    /// Applies a deposit or a withdrawal to its account, which the caller
    /// holds, and says whether it went through. A deposit credits and
    /// always does; a withdrawal debits if the balance covers the amount.
    pub fn apply_to_account(&self, account: &mut Account) -> (ok: bool)
        requires
            self.kind != OpKind::Transfer,
        ensures
            final(account).id == old(account).id,
            self.kind == OpKind::Deposit ==> ok && final(account).balance == credited(
                old(account).balance,
                self.amount,
            ),
            self.kind == OpKind::Withdraw ==> ok == (old(account).balance >= self.amount),
            self.kind == OpKind::Withdraw && ok ==> final(account).balance == old(account).balance
                - self.amount,
            self.kind == OpKind::Withdraw && !ok ==> final(account).balance == old(account).balance,
    {
        match self.kind {
            OpKind::Withdraw => account.debit(self.amount),
            _ => {
                account.credit(self.amount);
                true
            },
        }
    }
}

/// The guards of an operation are at most two and strictly ascending, so
/// every worker takes the guards it shares with another in the same
/// relative order; and they are exactly the accounts whose balance the
/// operation reads or writes.
pub proof fn guards_are_ascending(op: Operation)
    ensures
        guards_of(op).len() <= 2,
        forall|i: int, j: int| 0 <= i < j < guards_of(op).len() ==> guards_of(op)[i] < guards_of(op)[j],
        op.kind != OpKind::Transfer ==> guards_of(op) == seq![op.from as usize],
        op.kind == OpKind::Transfer && op.from != op.to ==> guards_of(op).contains(op.from as usize)
            && guards_of(op).contains(op.to as usize),
{
    if op.kind == OpKind::Transfer && op.from != op.to {
        let g = guards_of(op);
        assert(g[0] == lock_pair(op.from as usize, op.to as usize).0);
        assert(g[1] == lock_pair(op.from as usize, op.to as usize).1);
    }
}

/// Whether the operation goes through in state `s`.
pub open spec fn operation_succeeds(s: BankView, op: Operation) -> bool {
    match op.kind {
        OpKind::Deposit => true,
        OpKind::Withdraw => withdraw_succeeds(s, op.from as usize, op.amount),
        OpKind::Transfer => transfer_succeeds(s, op.from as usize, op.to as usize, op.amount),
    }
}

/// The bank after `worker_id` has applied one operation.
pub open spec fn after_operation(s: BankView, worker_id: u32, op: Operation) -> BankView {
    match op.kind {
        OpKind::Deposit => after_deposit(s, worker_id, op.sequence_id, op.from as usize, op.amount),
        OpKind::Withdraw => after_withdraw(s, worker_id, op.sequence_id, op.from as usize, op.amount),
        OpKind::Transfer => after_transfer(
            s,
            worker_id,
            op.sequence_id,
            op.from as usize,
            op.to as usize,
            op.amount,
        ),
    }
}

/// One operation together with the worker that applies it.
pub struct Step {
    pub worker_id: u32,
    pub op: Operation,
}

/// The bank after the steps have been applied one after another, first to
/// last. Each operation runs under the guards of the accounts it touches,
/// so a run of several workers is such a sequence, in the order in which
/// the operations took effect.
pub open spec fn after_steps(s: BankView, steps: Seq<Step>) -> BankView
    decreases steps.len(),
{
    if steps.len() == 0 {
        s
    } else {
        after_operation(after_steps(s, steps.drop_last()), steps.last().worker_id, steps.last().op)
    }
}

/// The steps of one worker that applies `ops` in order.
pub open spec fn by_worker(worker_id: u32, ops: Seq<Operation>) -> Seq<Step> {
    Seq::new(ops.len(), |i: int| Step { worker_id, op: ops[i] })
}

/// The bank after `worker_id` alone has applied `ops`, first to last.
pub open spec fn after_all(s: BankView, worker_id: u32, ops: Seq<Operation>) -> BankView {
    after_steps(s, by_worker(worker_id, ops))
}

/// Whether every step's operation is valid for a bank of `n` accounts.
pub open spec fn all_steps_valid_for(steps: Seq<Step>, n: nat) -> bool {
    forall|i: int| 0 <= i < steps.len() ==> (#[trigger] steps[i]).op.valid_for(n)
}

/// Whether every operation of `ops` is valid for a bank of `n` accounts.
pub open spec fn all_valid_for(ops: Seq<Operation>, n: nat) -> bool {
    forall|i: int| 0 <= i < ops.len() ==> (#[trigger] ops[i]).valid_for(n)
}

/// Applying one operation never changes how many accounts there are.
pub proof fn lemma_after_operation_keeps_accounts(s: BankView, worker_id: u32, op: Operation)
    requires
        op.valid_for(s.balances.len()),
    ensures
        after_operation(s, worker_id, op).balances.len() == s.balances.len(),
{
}

/// Applying steps never changes how many accounts there are.
pub proof fn lemma_after_steps_keeps_accounts(s: BankView, steps: Seq<Step>)
    requires
        all_steps_valid_for(steps, s.balances.len()),
    ensures
        after_steps(s, steps).balances.len() == s.balances.len(),
    decreases steps.len(),
{
    if steps.len() > 0 {
        lemma_after_steps_keeps_accounts(s, steps.drop_last());
        lemma_after_operation_keeps_accounts(
            after_steps(s, steps.drop_last()),
            steps.last().worker_id,
            steps.last().op,
        );
    }
}

/// Applies one operation to the bank through the method that its kind
/// names. The result is 0 if it went through, -1 if not.
pub fn dispatch(bank: &mut Bank, worker_id: u32, op: Operation) -> (r: i32)
    requires
        old(bank).wf(),
        op.valid_for(old(bank)@.balances.len()),
    ensures
        final(bank).wf(),
        final(bank)@ == after_operation(old(bank)@, worker_id, op),
        r == if operation_succeeds(old(bank)@, op) { 0i32 } else { -1i32 },
{
    match op.kind {
        OpKind::Deposit => bank.deposit(worker_id, op.sequence_id, op.from as usize, op.amount),
        OpKind::Withdraw => bank.withdraw(worker_id, op.sequence_id, op.from as usize, op.amount),
        OpKind::Transfer => bank.transfer(
            worker_id,
            op.sequence_id,
            op.from as usize,
            op.to as usize,
            op.amount,
        ),
    }
}

/// The queue of pending operations, oldest first.
#[derive(Debug)]
pub struct LedgerQueue {
    pub entries: VecDeque<Operation>,
}

impl View for LedgerQueue {
    type V = Seq<Operation>;

    open spec fn view(&self) -> Seq<Operation> {
        self.entries@
    }
}

impl LedgerQueue {
    /// An empty queue.
    pub fn new() -> (q: LedgerQueue)
        ensures
            q@ == Seq::<Operation>::empty(),
    {
        LedgerQueue { entries: VecDeque::new() }
    }

    /// Appends an operation at the tail.
    pub fn push(&mut self, op: Operation)
        ensures
            final(self)@ == old(self)@.push(op),
    {
        self.entries.push_back(op);
    }

    /// The number of pending operations.
    pub fn len(&self) -> (n: usize)
        ensures
            n == self@.len(),
    {
        self.entries.len()
    }

    /// Whether nothing is pending.
    pub fn is_empty(&self) -> (e: bool)
        ensures
            e == (self@.len() == 0),
    {
        self.entries.len() == 0
    }

    /// Removes and returns the head, or returns `None` where the queue is
    /// empty. An operation handed out is gone from the queue, so no second
    /// caller can receive it.
    pub fn take_next(&mut self) -> (next: Option<Operation>)
        ensures
            old(self)@.len() == 0 ==> next.is_none() && final(self)@ == old(self)@,
            old(self)@.len() > 0 ==> next == Some(old(self)@[0]) && final(self)@ == old(self)@.skip(1),
    {
        self.entries.pop_front()
    }

    /// Tests whether every pending operation is valid for a bank of `n`
    /// accounts.
    pub fn is_valid_for(&self, n: usize) -> (ok: bool)
        ensures
            ok == all_valid_for(self@, n as nat),
    {
        let mut i: usize = 0;
        while i < self.entries.len()
            invariant
                i <= self@.len(),
                forall|k: int| 0 <= k < i ==> (#[trigger] self@[k]).valid_for(n as nat),
            decreases self@.len() - i,
        {
            if !self.entries[i].is_valid_for(n) {
                return false;
            }
            i = i + 1;
        }
        true
    }
}

/// One worker's run: takes operations from the head of the queue and
/// applies each to the bank until the queue is empty. Returns how many it
/// applied: each operation that was pending, once, in queue order.
pub fn worker(bank: &mut Bank, queue: &mut LedgerQueue, worker_id: u32) -> (dispatched: usize)
    requires
        old(bank).wf(),
        all_valid_for(old(queue)@, old(bank)@.balances.len()),
    ensures
        final(bank).wf(),
        final(queue)@.len() == 0,
        final(bank)@ == after_all(old(bank)@, worker_id, old(queue)@),
        dispatched == old(queue)@.len(),
{
    let ghost start = bank@;
    let ghost ops = queue@;
    let ghost steps = by_worker(worker_id, ops);
    let total: usize = queue.len();
    let mut dispatched: usize = 0;
    loop
        invariant
            bank.wf(),
            total == ops.len(),
            dispatched <= total,
            steps == by_worker(worker_id, ops),
            queue@ == ops.skip(dispatched as int),
            bank@ == after_steps(start, steps.take(dispatched as int)),
            bank@.balances.len() == start.balances.len(),
            all_valid_for(ops, start.balances.len()),
        ensures
            dispatched == total,
            queue@.len() == 0,
        decreases total - dispatched,
    {
        let next = queue.take_next();
        match next {
            None => {
                break ;
            },
            Some(op) => {
                proof {
                    assert(op == ops[dispatched as int]);
                    assert(steps.take(dispatched + 1).drop_last() =~= steps.take(dispatched as int));
                    assert(steps.take(dispatched + 1).last() == Step { worker_id, op });
                    assert(ops.skip(dispatched as int).skip(1) =~= ops.skip(dispatched + 1));
                }
                dispatch(bank, worker_id, op);
                dispatched = dispatched + 1;
            },
        }
    }
    proof {
        assert(steps.take(dispatched as int) =~= steps);
    }
    dispatched
}

/// Runs workers 1 to `num_workers` one after another on the same bank and
/// queue, and returns once the last has seen the queue empty. The first
/// worker drains the queue; with no worker nothing happens.
pub fn run_workers(bank: &mut Bank, queue: &mut LedgerQueue, num_workers: u32) -> (dispatched: usize)
    requires
        old(bank).wf(),
        all_valid_for(old(queue)@, old(bank)@.balances.len()),
    ensures
        final(bank).wf(),
        num_workers == 0 ==> final(bank)@ == old(bank)@ && final(queue)@ == old(queue)@ && dispatched == 0,
        num_workers > 0 ==> final(bank)@ == after_all(old(bank)@, 1, old(queue)@) && final(queue)@.len() == 0
            && dispatched == old(queue)@.len(),
{
    let ghost start = bank@;
    let ghost ops = queue@;
    let mut dispatched: usize = 0;
    let mut done: u32 = 0;
    while done < num_workers
        invariant
            bank.wf(),
            done <= num_workers,
            done == 0 ==> bank@ == start && queue@ == ops && dispatched == 0,
            done > 0 ==> bank@ == after_all(start, 1, ops) && queue@.len() == 0 && dispatched == ops.len(),
            all_valid_for(ops, start.balances.len()),
        decreases num_workers - done,
    {
        proof {
            lemma_after_steps_keeps_accounts(start, by_worker(1, ops));
            assert(queue@.len() == 0 ==> queue@ =~= Seq::<Operation>::empty());
            assert(by_worker((done + 1) as u32, Seq::<Operation>::empty()) =~= Seq::<Step>::empty());
        }
        let n = worker(bank, queue, done + 1);
        if done == 0 {
            dispatched = n;
        }
        done = done + 1;
    }
    dispatched
}

} // verus!
