//! A single account and the two mutations a balance admits.

use vstd::prelude::*;

verus! {

/// One account of the store: an identifier fixed at construction and a
/// balance that only `credit` and `debit` change.
#[derive(Clone, Copy, Debug, PartialEq, Eq, Structural)]
pub struct Account {
    pub id: u32,
    pub balance: u32,
}

/// The balance after crediting `amount`: the exact sum where it fits, the
/// largest representable balance otherwise.
pub open spec fn credited(balance: u32, amount: u32) -> u32 {
    if balance + amount <= u32::MAX {
        (balance + amount) as u32
    } else {
        u32::MAX
    }
}

/// Whether a credit of `amount` on `balance` is exact (nothing is clipped).
pub open spec fn credit_fits(balance: u32, amount: u32) -> bool {
    balance + amount <= u32::MAX
}

impl Account {
    /// A fresh account with balance zero.
    pub fn new(id: u32) -> (acc: Account)
        ensures
            acc.id == id,
            acc.balance == 0,
    {
        Account { id, balance: 0 }
    }

    /// Reads the balance.
    pub fn get_balance(&self) -> (b: u32)
        ensures
            b == self.balance,
    {
        self.balance
    }

    /// Adds `amount` to the balance, saturating at `u32::MAX`. Never fails.
    pub fn credit(&mut self, amount: u32)
        ensures
            final(self).id == old(self).id,
            final(self).balance == credited(old(self).balance, amount),
    {
        self.balance = self.balance.saturating_add(amount);
    }

    /// Removes `amount` from the balance if the balance covers it, and says
    /// whether it did. A balance equal to `amount` is enough.
    pub fn debit(&mut self, amount: u32) -> (ok: bool)
        ensures
            ok == (old(self).balance >= amount),
            final(self).id == old(self).id,
            ok ==> final(self).balance == old(self).balance - amount,
            !ok ==> final(self).balance == old(self).balance,
    {
        if self.balance < amount {
            false
        } else {
            self.balance = self.balance - amount;
            true
        }
    }
}

/// Moves `amount` from `src` to `dest` if `src` covers it, and says whether
/// it did. Both accounts are untouched on refusal. The caller holds both
/// accounts for the whole call, so no one sees the debit without the credit.
pub fn transfer_between(src: &mut Account, dest: &mut Account, amount: u32) -> (ok: bool)
    ensures
        ok == (old(src).balance >= amount),
        final(src).id == old(src).id,
        final(dest).id == old(dest).id,
        ok ==> final(src).balance == old(src).balance - amount,
        ok ==> final(dest).balance == credited(old(dest).balance, amount),
        !ok ==> *final(src) == *old(src) && *final(dest) == *old(dest),
{
    if src.debit(amount) {
        dest.credit(amount);
        true
    } else {
        false
    }
}

/// The order in which a transfer between `src` and `dest` takes the two
/// account guards: the smaller identifier first.
pub open spec fn lock_pair(src: usize, dest: usize) -> (usize, usize) {
    if src < dest {
        (src, dest)
    } else {
        (dest, src)
    }
}

/// Computes the acquisition order for the two guards of a transfer.
pub fn lock_order(src_id: usize, dest_id: usize) -> (order: (usize, usize))
    ensures
        order == lock_pair(src_id, dest_id),
{
    if src_id < dest_id {
        (src_id, dest_id)
    } else {
        (dest_id, src_id)
    }
}

/// Every transfer between two distinct accounts takes exactly their two
/// guards, in strictly ascending order of identifier.
pub proof fn lock_order_is_ascending(src: usize, dest: usize)
    requires
        src != dest,
    ensures
        lock_pair(src, dest).0 < lock_pair(src, dest).1,
        lock_pair(src, dest) == lock_pair(dest, src),
        lock_pair(src, dest) == (src, dest) || lock_pair(src, dest) == (dest, src),
{
}

/// No two transfers can wait on each other: if one takes the guard of `x`
/// and then that of `y`, no other takes `y` and then `x`.
pub proof fn no_circular_wait(a: usize, b: usize, c: usize, d: usize)
    requires
        a != b,
        c != d,
    ensures
        !(lock_pair(a, b).0 == lock_pair(c, d).1 && lock_pair(a, b).1 == lock_pair(c, d).0),
{
}

} // verus!
