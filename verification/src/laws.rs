//! What holds of every run: money is conserved, every ledger entry is
//! applied once, and a transfer from an account to itself does nothing.

use vstd::prelude::*;
use crate::account::credit_fits;
use crate::bank::{
    after_transfer, is_dump_of, successes, transfer_succeeds, BankView, Dump, LogRecord, OpKind,
};
use crate::ledger::{
    after_operation, after_steps, all_steps_valid_for, guards_of, lemma_after_steps_keeps_accounts,
    operation_succeeds, record_of, Operation, Step,
};

verus! {

/// The sum of all balances.
pub open spec fn total(balances: Seq<u32>) -> int
    decreases balances.len(),
{
    if balances.len() == 0 {
        0
    } else {
        total(balances.drop_last()) + balances.last()
    }
}

/// What one logged outcome adds to the sum of all balances: the amount of a
/// successful deposit, minus the amount of a successful withdrawal, and
/// nothing for a transfer or a failure.
pub open spec fn net(rec: LogRecord) -> int {
    if !rec.success {
        0
    } else {
        match rec.kind {
            OpKind::Deposit => rec.amount as int,
            OpKind::Withdraw => -(rec.amount as int),
            OpKind::Transfer => 0,
        }
    }
}

/// The sum of `net` over a log.
pub open spec fn net_total(log: Seq<LogRecord>) -> int
    decreases log.len(),
{
    if log.len() == 0 {
        0
    } else {
        net_total(log.drop_last()) + net(log.last())
    }
}

/// Whether applying `op` in state `s` would credit an account beyond the
/// largest representable balance, so that the credit is clipped.
pub open spec fn clips(s: BankView, op: Operation) -> bool {
    match op.kind {
        OpKind::Deposit => !credit_fits(s.balances[op.from as int], op.amount),
        OpKind::Withdraw => false,
        OpKind::Transfer => transfer_succeeds(s, op.from as usize, op.to as usize, op.amount)
            && !credit_fits(s.balances[op.to as int], op.amount),
    }
}

/// Whether no step, applied in turn from state `s`, clips.
pub open spec fn never_clips(s: BankView, steps: Seq<Step>) -> bool
    decreases steps.len(),
{
    if steps.len() == 0 {
        true
    } else {
        never_clips(s, steps.drop_last()) && !clips(after_steps(s, steps.drop_last()), steps.last().op)
    }
}

/// Replacing one balance changes the sum by the difference.
pub proof fn lemma_total_update(balances: Seq<u32>, i: int, v: u32)
    requires
        0 <= i < balances.len(),
    ensures
        total(balances.update(i, v)) == total(balances) - balances[i] + v,
    decreases balances.len(),
{
    if i == balances.len() - 1 {
        assert(balances.update(i, v).drop_last() =~= balances.drop_last());
    } else {
        assert(balances.update(i, v).drop_last() =~= balances.drop_last().update(i, v));
        lemma_total_update(balances.drop_last(), i, v);
    }
}

/// Conservation, one step: an operation that does not clip changes the sum
/// of all balances by exactly what its log record says. A deposit adds its
/// amount, a successful withdrawal removes its amount, and a transfer or a
/// failure leaves the sum as it was.
pub proof fn conservation_step(s: BankView, worker_id: u32, op: Operation)
    requires
        op.valid_for(s.balances.len()),
        !clips(s, op),
    ensures
        after_operation(s, worker_id, op).log == s.log.push(after_operation(s, worker_id, op).log.last()),
        after_operation(s, worker_id, op).log.last().success == operation_succeeds(s, op),
        total(after_operation(s, worker_id, op).balances) == total(s.balances) + net(
            after_operation(s, worker_id, op).log.last(),
        ),
{
    let from = op.from as int;
    let to = op.to as int;
    match op.kind {
        OpKind::Deposit => {
            lemma_total_update(s.balances, from, (s.balances[from] + op.amount) as u32);
        },
        OpKind::Withdraw => {
            if s.balances[from] >= op.amount {
                lemma_total_update(s.balances, from, (s.balances[from] - op.amount) as u32);
            }
        },
        OpKind::Transfer => {
            if transfer_succeeds(s, op.from as usize, op.to as usize, op.amount) {
                let debited = s.balances.update(from, (s.balances[from] - op.amount) as u32);
                lemma_total_update(s.balances, from, (s.balances[from] - op.amount) as u32);
                lemma_total_update(debited, to, (s.balances[to] + op.amount) as u32);
            }
        },
    }
}

/// Conservation: over any run in which no credit is clipped, whichever
/// workers applied the operations and in whatever order, the sum of all
/// balances moves by exactly the successful deposits minus the successful
/// withdrawals that the run logged. Transfers and failures move nothing.
pub proof fn conservation(s: BankView, steps: Seq<Step>)
    requires
        all_steps_valid_for(steps, s.balances.len()),
        never_clips(s, steps),
    ensures
        total(after_steps(s, steps).balances) - net_total(after_steps(s, steps).log) == total(
            s.balances,
        ) - net_total(s.log),
    decreases steps.len(),
{
    if steps.len() > 0 {
        let before = after_steps(s, steps.drop_last());
        let after = after_operation(before, steps.last().worker_id, steps.last().op);
        conservation(s, steps.drop_last());
        lemma_after_steps_keeps_accounts(s, steps.drop_last());
        conservation_step(before, steps.last().worker_id, steps.last().op);
        assert(after.log.drop_last() =~= before.log);
    }
}

/// What an operation appends to the log is its own record, with the
/// outcome that the state before it decides.
pub proof fn operation_logs_its_record(s: BankView, worker_id: u32, op: Operation)
    ensures
        after_operation(s, worker_id, op).log == s.log.push(
            record_of(worker_id, op, operation_succeeds(s, op)),
        ),
{
}

/// Exactly-once consumption: a run logs one record for each step, in
/// order, under that step's worker and its operation's sequence number and
/// kind, and leaves the earlier log as it was. So N operations make exactly
/// N dispatches, however they are shared among the workers.
pub proof fn each_entry_dispatched_once(s: BankView, steps: Seq<Step>)
    ensures
        after_steps(s, steps).log.len() == s.log.len() + steps.len(),
        after_steps(s, steps).log.take(s.log.len() as int) == s.log,
        forall|k: int|
            0 <= k < steps.len() ==> {
                let rec = #[trigger] after_steps(s, steps).log[s.log.len() + k];
                rec.ledger_id == steps[k].op.sequence_id && rec.worker_id == steps[k].worker_id
                    && rec.kind == steps[k].op.kind
            },
    decreases steps.len(),
{
    let done = after_steps(s, steps);
    if steps.len() == 0 {
        assert(done.log.take(s.log.len() as int) =~= s.log);
    } else {
        let before = after_steps(s, steps.drop_last());
        each_entry_dispatched_once(s, steps.drop_last());
        assert(done.log.drop_last() =~= before.log);
        assert(done.log.take(s.log.len() as int) =~= before.log.take(s.log.len() as int));
        assert forall|k: int| 0 <= k < steps.len() implies ({
            let rec = #[trigger] done.log[s.log.len() + k];
            rec.ledger_id == steps[k].op.sequence_id && rec.worker_id == steps[k].worker_id
                && rec.kind == steps[k].op.kind
        }) by {
            if k < steps.len() - 1 {
                assert(done.log[s.log.len() + k] == before.log[s.log.len() + k]);
                assert(steps[k] == steps.drop_last()[k]);
            }
        }
    }
}

/// A transfer from an account to itself never moves money: every balance
/// stays as it was, the number of successes stays, and the number of
/// failures rises by one.
pub proof fn self_transfer_always_fails(s: BankView, worker_id: u32, ledger_id: u32, account: usize, amount: u32)
    ensures
        !transfer_succeeds(s, account, account, amount),
        after_transfer(s, worker_id, ledger_id, account, account, amount).balances == s.balances,
        successes(after_transfer(s, worker_id, ledger_id, account, account, amount).log) == successes(s.log),
        after_transfer(s, worker_id, ledger_id, account, account, amount).log.len() - successes(
            after_transfer(s, worker_id, ledger_id, account, account, amount).log,
        ) == s.log.len() - successes(s.log) + 1,
{
    let after = after_transfer(s, worker_id, ledger_id, account, account, amount);
    assert(after.log.drop_last() =~= s.log);
}

/// No balance ever goes below zero: a withdrawal or a transfer goes through
/// only if the source covers the amount, and then leaves the source with
/// exactly the difference; one that does not go through changes no balance.
pub proof fn debits_never_wrap(s: BankView, worker_id: u32, op: Operation)
    requires
        op.valid_for(s.balances.len()),
        op.kind != OpKind::Deposit,
    ensures
        operation_succeeds(s, op) ==> s.balances[op.from as int] - op.amount >= 0
            && after_operation(s, worker_id, op).balances[op.from as int] == s.balances[op.from as int]
            - op.amount,
        !operation_succeeds(s, op) ==> after_operation(s, worker_id, op).balances == s.balances,
{
}

/// The dump is a function of the bank's state: two dumps of the same state
/// show the same accounts and the same counters.
pub proof fn dump_is_idempotent(s: BankView, first: Dump, second: Dump)
    requires
        is_dump_of(first, s),
        is_dump_of(second, s),
    ensures
        first.accounts@ == second.accounts@,
        first.success_count == second.success_count,
        first.failure_count == second.failure_count,
{
    assert(first.accounts@ =~= second.accounts@);
}

/// Whether two operations guard no account in common.
pub open spec fn guards_disjoint(a: Operation, b: Operation) -> bool {
    forall|i: int, j: int|
        0 <= i < guards_of(a).len() && 0 <= j < guards_of(b).len() ==> guards_of(a)[i] != guards_of(
            b,
        )[j]
}

/// Two operations that guard no account in common do not interfere: each
/// goes through or fails as it would alone, and the balances come out the
/// same whichever of the two takes effect first. So a worker that holds the
/// guards of its own operation needs no other.
pub proof fn disjoint_operations_commute(s: BankView, wa: u32, a: Operation, wb: u32, b: Operation)
    requires
        a.valid_for(s.balances.len()),
        b.valid_for(s.balances.len()),
        guards_disjoint(a, b),
    ensures
        operation_succeeds(after_operation(s, wa, a), b) == operation_succeeds(s, b),
        operation_succeeds(after_operation(s, wb, b), a) == operation_succeeds(s, a),
        after_operation(after_operation(s, wa, a), wb, b).balances == after_operation(
            after_operation(s, wb, b),
            wa,
            a,
        ).balances,
{
    let ga = guards_of(a);
    let gb = guards_of(b);
    if a.kind == OpKind::Transfer && a.from == a.to {
    } else if b.kind == OpKind::Transfer && b.from == b.to {
    } else {
        assert(ga.len() >= 1 && gb.len() >= 1);
        assert(ga[0] != gb[0]);
        if ga.len() == 2 {
            assert(ga[1] != gb[0]);
        }
        if gb.len() == 2 {
            assert(ga[0] != gb[1]);
        }
        if ga.len() == 2 && gb.len() == 2 {
            assert(ga[1] != gb[1]);
        }
    }
    assert(after_operation(after_operation(s, wa, a), wb, b).balances =~= after_operation(
        after_operation(s, wb, b),
        wa,
        a,
    ).balances);
}

} // verus!
