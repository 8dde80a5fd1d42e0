use ledger::account::Account;
use ledger::bank::{Bank, OpKind};
use ledger::ledger::{dispatch, run_workers, worker, LedgerQueue, Operation};
use ledger::parse::{load, parse_line, LoadError};

fn op(sequence_id: u32, kind: OpKind, from: u32, to: u32, amount: u32) -> Operation {
    Operation { sequence_id, kind, from, to, amount }
}

fn lines(text: &[&str]) -> Vec<Vec<u8>> {
    text.iter().map(|l| l.as_bytes().to_vec()).collect()
}

#[test]
fn mode_numbers_name_kinds() {
    assert_eq!(OpKind::from_mode(0), OpKind::Deposit);
    assert_eq!(OpKind::from_mode(1), OpKind::Withdraw);
    assert_eq!(OpKind::from_mode(2), OpKind::Transfer);
    assert_eq!(OpKind::from_mode(3), OpKind::Transfer);
    assert_eq!(OpKind::from_mode(u32::MAX), OpKind::Transfer);
}

#[test]
fn queue_hands_out_each_entry_once_in_order() {
    let mut q = LedgerQueue::new();
    assert!(q.is_empty());
    assert_eq!(q.take_next(), None);
    for i in 0..3 {
        q.push(op(i, OpKind::Deposit, i, 0, 10 + i));
    }
    assert_eq!(q.len(), 3);
    assert_eq!(q.take_next(), Some(op(0, OpKind::Deposit, 0, 0, 10)));
    assert_eq!(q.take_next(), Some(op(1, OpKind::Deposit, 1, 0, 11)));
    assert_eq!(q.len(), 1);
    assert_eq!(q.take_next(), Some(op(2, OpKind::Deposit, 2, 0, 12)));
    assert!(q.is_empty());
    assert_eq!(q.take_next(), None);
    assert_eq!(q.take_next(), None);
}

#[test]
fn validity_looks_at_the_accounts_an_operation_touches() {
    assert!(op(0, OpKind::Deposit, 1, 99, 5).is_valid_for(2));
    assert!(op(0, OpKind::Withdraw, 1, 99, 5).is_valid_for(2));
    assert!(!op(0, OpKind::Deposit, 2, 0, 5).is_valid_for(2));
    assert!(op(0, OpKind::Transfer, 1, 0, 5).is_valid_for(2));
    assert!(!op(0, OpKind::Transfer, 1, 2, 5).is_valid_for(2));
    assert!(!op(0, OpKind::Transfer, 2, 1, 5).is_valid_for(2));
    let mut q = LedgerQueue::new();
    assert!(q.is_valid_for(0));
    q.push(op(0, OpKind::Deposit, 1, 0, 5));
    q.push(op(1, OpKind::Transfer, 0, 3, 5));
    assert!(q.is_valid_for(4));
    assert!(!q.is_valid_for(3));
}

#[test]
fn guards_come_smaller_first() {
    assert_eq!(op(0, OpKind::Deposit, 4, 1, 5).guards(), vec![4]);
    assert_eq!(op(0, OpKind::Withdraw, 4, 9, 5).guards(), vec![4]);
    assert_eq!(op(0, OpKind::Transfer, 4, 1, 5).guards(), vec![1, 4]);
    assert_eq!(op(0, OpKind::Transfer, 1, 4, 5).guards(), vec![1, 4]);
    assert_eq!(op(0, OpKind::Transfer, 4, 4, 5).guards(), Vec::<usize>::new());
}

#[test]
fn outcome_records_name_the_operation() {
    let t = op(8, OpKind::Transfer, 4, 1, 5).outcome_record(3, false);
    assert_eq!((t.worker_id, t.ledger_id, t.amount, t.account, t.dest, t.success), (3, 8, 5, 4, 1, false));
    assert_eq!(t.kind, OpKind::Transfer);
    let d = op(9, OpKind::Deposit, 4, 1, 6).outcome_record(2, true);
    assert_eq!((d.worker_id, d.ledger_id, d.amount, d.account, d.dest, d.success), (2, 9, 6, 4, 4, true));
    assert_eq!(d.kind, OpKind::Deposit);
}

#[test]
fn outcome_record_is_what_the_bank_logs() {
    let mut bank = Bank::new(3);
    let ops = [
        op(0, OpKind::Deposit, 0, 7, 10),
        op(1, OpKind::Withdraw, 0, 7, 11),
        op(2, OpKind::Transfer, 0, 2, 4),
        op(3, OpKind::Transfer, 1, 1, 0),
    ];
    for o in ops.iter() {
        let r = dispatch(&mut bank, 5, *o);
        let logged = *bank.journal.log.last().unwrap();
        assert_eq!(logged, o.outcome_record(5, r == 0));
    }
    assert_eq!(bank.journal.success_count, 2);
    assert_eq!(bank.journal.failure_count, 2);
}

#[test]
fn apply_to_account_follows_the_kind() {
    let mut acc = Account { id: 0, balance: 10 };
    assert!(op(0, OpKind::Deposit, 0, 0, 5).apply_to_account(&mut acc));
    assert_eq!(acc.balance, 15);
    assert!(!op(1, OpKind::Withdraw, 0, 0, 16).apply_to_account(&mut acc));
    assert_eq!(acc.balance, 15);
    assert!(op(2, OpKind::Withdraw, 0, 0, 15).apply_to_account(&mut acc));
    assert_eq!(acc.balance, 0);
}

#[test]
fn dispatch_calls_the_method_of_the_kind() {
    let mut bank = Bank::new(2);
    assert_eq!(dispatch(&mut bank, 1, op(0, OpKind::Deposit, 0, 1, 100)), 0);
    assert_eq!(bank.get_balance(0), 100);
    assert_eq!(bank.get_balance(1), 0);
    assert_eq!(dispatch(&mut bank, 1, op(1, OpKind::Transfer, 0, 1, 30)), 0);
    assert_eq!((bank.get_balance(0), bank.get_balance(1)), (70, 30));
    assert_eq!(dispatch(&mut bank, 1, op(2, OpKind::Withdraw, 1, 0, 31)), -1);
    assert_eq!(dispatch(&mut bank, 1, op(3, OpKind::Withdraw, 1, 0, 30)), 0);
    assert_eq!((bank.get_balance(0), bank.get_balance(1)), (70, 0));
}

#[test]
fn worker_drains_the_queue_exactly_once() {
    let mut bank = Bank::new(2);
    let mut q = LedgerQueue::new();
    for i in 0..50u32 {
        q.push(op(i, OpKind::Deposit, i % 2, 0, 1));
    }
    assert_eq!(worker(&mut bank, &mut q, 4), 50);
    assert!(q.is_empty());
    assert_eq!(bank.journal.log.len(), 50);
    for (k, rec) in bank.journal.log.iter().enumerate() {
        assert_eq!(rec.ledger_id as usize, k);
        assert_eq!(rec.worker_id, 4);
    }
    assert_eq!((bank.get_balance(0), bank.get_balance(1)), (25, 25));
    assert_eq!(worker(&mut bank, &mut q, 5), 0);
    assert_eq!(bank.journal.log.len(), 50);
}

#[test]
fn concrete_scenario_from_text() {
    let source = lines(&["0 0 100 0\n", "1 0 50 0\n", "0 1 30 2\n", "1 0 1000 1\n"]);
    let mut q = load(&source).unwrap();
    assert_eq!(q.len(), 4);
    let mut bank = Bank::new(2);
    assert!(q.is_valid_for(bank.len()));
    assert_eq!(run_workers(&mut bank, &mut q, 3), 4);
    assert!(q.is_empty());
    assert_eq!(bank.get_balance(0), 70);
    assert_eq!(bank.get_balance(1), 80);
    assert_eq!(bank.journal.success_count, 3);
    assert_eq!(bank.journal.failure_count, 1);
    let failed = bank.journal.log[3];
    assert_eq!((failed.ledger_id, failed.worker_id, failed.success), (3, 1, false));
}

#[test]
fn no_workers_leave_everything_as_it_was() {
    let mut bank = Bank::new(1);
    let mut q = LedgerQueue::new();
    q.push(op(0, OpKind::Deposit, 0, 0, 1));
    assert_eq!(run_workers(&mut bank, &mut q, 0), 0);
    assert_eq!(q.len(), 1);
    assert_eq!(bank.get_balance(0), 0);
    assert!(bank.journal.log.is_empty());
}

#[test]
fn parse_line_reads_four_numbers() {
    assert_eq!(parse_line(b"3 7 250 2", 5), Some(op(5, OpKind::Transfer, 3, 7, 250)));
    assert_eq!(parse_line(b"3 7 250 0", 0), Some(op(0, OpKind::Deposit, 3, 7, 250)));
    assert_eq!(parse_line(b"3 7 250 1", 1), Some(op(1, OpKind::Withdraw, 3, 7, 250)));
    assert_eq!(parse_line(b"3 7 250 9", 1), Some(op(1, OpKind::Transfer, 3, 7, 250)));
    assert_eq!(
        parse_line(b"4294967295 0 4294967295 1", 2),
        Some(op(2, OpKind::Withdraw, u32::MAX, 0, u32::MAX))
    );
    assert_eq!(parse_line(b"007 00 010 01", 2), Some(op(2, OpKind::Withdraw, 7, 0, 10)));
}

#[test]
fn parse_line_strips_what_follows_the_last_digit() {
    assert_eq!(parse_line(b"3 7 250 2\n", 0), Some(op(0, OpKind::Transfer, 3, 7, 250)));
    assert_eq!(parse_line(b"3 7 250 2\r\n", 0), Some(op(0, OpKind::Transfer, 3, 7, 250)));
    assert_eq!(parse_line(b"3 7 250 2 \t;x\n", 0), Some(op(0, OpKind::Transfer, 3, 7, 250)));
}

#[test]
fn parse_line_takes_runs_of_blanks() {
    assert_eq!(parse_line(b"  3\t7   250 \t 2", 0), Some(op(0, OpKind::Transfer, 3, 7, 250)));
}

#[test]
fn parse_line_rejects_malformed_lines() {
    assert_eq!(parse_line(b"", 0), None);
    assert_eq!(parse_line(b"\n", 0), None);
    assert_eq!(parse_line(b"abc", 0), None);
    assert_eq!(parse_line(b"1 2 3", 0), None);
    assert_eq!(parse_line(b"1 2 3 4 5", 0), None);
    assert_eq!(parse_line(b"1 2 x3 0", 0), None);
    assert_eq!(parse_line(b"1 2 3x 0", 0), None);
    assert_eq!(parse_line(b"1 -2 3 0", 0), None);
    assert_eq!(parse_line(b"+1 2 3 0", 0), None);
    assert_eq!(parse_line(b"1,2,3,0", 0), None);
    assert_eq!(parse_line(b"1 2 4294967296 0", 0), None);
    assert_eq!(parse_line(b"1 2 99999999999999999999999 0", 0), None);
    assert_eq!(parse_line(b"x 1 2 3 0", 0), None);
}

#[test]
fn load_numbers_entries_from_zero() {
    let source = lines(&["0 1 5 0\n", "1 0 6 1\n", "1 0 7 2"]);
    let mut q = load(&source).unwrap();
    assert_eq!(q.take_next(), Some(op(0, OpKind::Deposit, 0, 1, 5)));
    assert_eq!(q.take_next(), Some(op(1, OpKind::Withdraw, 1, 0, 6)));
    assert_eq!(q.take_next(), Some(op(2, OpKind::Transfer, 1, 0, 7)));
    assert_eq!(q.take_next(), None);
}

#[test]
fn load_of_nothing_is_an_empty_queue() {
    let q = load(&Vec::new()).unwrap();
    assert!(q.is_empty());
}

#[test]
fn load_stops_at_the_first_malformed_line() {
    let source = lines(&["0 1 5 0\n", "1 0 6\n", "oops\n", "1 0 7 2\n"]);
    match load(&source) {
        Err(e) => assert_eq!(e, LoadError::Malformed { line: 1 }),
        Ok(_) => panic!("a malformed line was accepted"),
    }
    let blank = lines(&["0 1 5 0\n", "\n"]);
    match load(&blank) {
        Err(e) => assert_eq!(e, LoadError::Malformed { line: 1 }),
        Ok(_) => panic!("an empty line was accepted"),
    }
}
