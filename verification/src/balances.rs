//! The balance book behind the ledgers: for each account a free amount and
//! an amount held in reserve, with the three primitives that move them.
//!
//! An account that was never touched holds nothing. Free and reserved
//! amounts of one account always fit in a `u64` together. A payment may not
//! drain the payer below the book's minimum balance.

use std::collections::HashMap;
use vstd::prelude::*;

verus! {

broadcast use vstd::std_specs::hash::group_hash_axioms;

pub type AccountId = u64;

pub type Balance = u64;

/// The two amounts that an account holds.
#[derive(Clone, Copy, Debug, PartialEq, Eq, Structural)]
pub struct AccountData {
    pub free: Balance,
    pub reserved: Balance,
}

/// The book's one refusal: the account cannot cover the amount.
#[derive(Clone, Copy, Debug, PartialEq, Eq, Structural)]
pub struct InsufficientFunds;

/// The mathematical content of a balance book: what every account holds
/// (nothing, unless something was put there) and the minimum balance.
pub struct Book {
    pub accounts: Map<AccountId, AccountData>,
    pub minimum: Balance,
}

impl Book {
    /// A book in which no account holds anything.
    pub open spec fn empty(minimum: Balance) -> Book {
        Book { accounts: Map::total(|who: AccountId| AccountData { free: 0, reserved: 0 }), minimum }
    }

    pub open spec fn free(self, who: AccountId) -> int {
        self.accounts[who].free as int
    }

    pub open spec fn reserved(self, who: AccountId) -> int {
        self.accounts[who].reserved as int
    }

    /// Free and reserved amount together.
    pub open spec fn total(self, who: AccountId) -> int {
        self.free(who) + self.reserved(who)
    }

    /// The two amounts of every account fit in a `u64` together.
    pub open spec fn wf(self) -> bool {
        forall|who: AccountId| #[trigger] self.total(who) <= u64::MAX
    }

    /// The book with the two amounts of `who` replaced.
    pub open spec fn with_account(self, who: AccountId, free: int, reserved: int) -> Book {
        Book {
            accounts: self.accounts.insert(
                who,
                AccountData { free: free as u64, reserved: reserved as u64 },
            ),
            minimum: self.minimum,
        }
    }

    /// A reservation is accepted exactly when the free amount covers it.
    pub open spec fn can_reserve(self, who: AccountId, amount: Balance) -> bool {
        amount <= self.free(who)
    }

    /// The book after `amount` moved from free to reserved.
    pub open spec fn reserve(self, who: AccountId, amount: Balance) -> Book {
        self.with_account(who, self.free(who) - amount, self.reserved(who) + amount)
    }

    /// How much of `amount` a release can move: no more than is reserved.
    pub open spec fn releasable(self, who: AccountId, amount: Balance) -> int {
        if amount <= self.reserved(who) {
            amount as int
        } else {
            self.reserved(who)
        }
    }

    /// The book after as much of `amount` as is reserved moved back to free.
    pub open spec fn unreserve(self, who: AccountId, amount: Balance) -> Book {
        self.with_account(
            who,
            self.free(who) + self.releasable(who, amount),
            self.reserved(who) - self.releasable(who, amount),
        )
    }

    /// A payment is accepted exactly when the payer's free amount covers it,
    /// the payer keeps at least the minimum balance in total, and the
    /// payee's total still fits.
    pub open spec fn can_transfer(self, from: AccountId, to: AccountId, amount: Balance) -> bool {
        &&& amount <= self.free(from)
        &&& self.minimum <= self.total(from) - amount
        &&& (from != to ==> self.total(to) + amount <= u64::MAX)
    }

    /// The book after `amount` moved from the free amount of `from` to that
    /// of `to`. Paying oneself changes nothing.
    pub open spec fn transfer(self, from: AccountId, to: AccountId, amount: Balance) -> Book {
        if from == to {
            self
        } else {
            self.with_account(from, self.free(from) - amount, self.reserved(from)).with_account(
                to,
                self.free(to) + amount,
                self.reserved(to),
            )
        }
    }
}

/// The balance book.
pub struct Balances {
    accounts: HashMap<AccountId, AccountData>,
    minimum: Balance,
}

impl View for Balances {
    type V = Book;

    closed spec fn view(&self) -> Book {
        Book {
            accounts: Map::total(
                |who: AccountId|
                    if self.accounts@.contains_key(who) {
                        self.accounts@[who]
                    } else {
                        AccountData { free: 0, reserved: 0 }
                    },
            ),
            minimum: self.minimum,
        }
    }
}

impl Balances {
    /// An empty book with the given minimum balance.
    pub fn new(minimum: Balance) -> (book: Balances)
        ensures
            book@ == Book::empty(minimum),
            book@.wf(),
    {
        let book = Balances { accounts: HashMap::new(), minimum };
        proof {
            assert(book@.accounts =~= Book::empty(minimum).accounts);
        }
        book
    }

    /// The least total that a payer must keep.
    pub fn minimum_balance(&self) -> (minimum: Balance)
        ensures
            minimum == self@.minimum,
    {
        self.minimum
    }

    fn account(&self, who: AccountId) -> (data: AccountData)
        ensures
            data == self@.accounts[who],
    {
        match self.accounts.get(&who) {
            Some(data) => *data,
            None => AccountData { free: 0, reserved: 0 },
        }
    }

    fn put(&mut self, who: AccountId, free: Balance, reserved: Balance)
        ensures
            final(self)@ == old(self)@.with_account(who, free as int, reserved as int),
    {
        self.accounts.insert(who, AccountData { free, reserved });
        proof {
            assert(self@.accounts =~= old(self)@.with_account(
                who,
                free as int,
                reserved as int,
            ).accounts);
        }
    }

    /// The free amount of `who`.
    pub fn free_balance(&self, who: AccountId) -> (amount: Balance)
        ensures
            amount == self@.free(who),
    {
        self.account(who).free
    }

    /// The reserved amount of `who`.
    pub fn reserved_balance(&self, who: AccountId) -> (amount: Balance)
        ensures
            amount == self@.reserved(who),
    {
        self.account(who).reserved
    }

    /// Sets both amounts of `who`, unless they do not fit in a `u64`
    /// together: then the book stays as it is and the answer is `false`.
    pub fn set_balance(&mut self, who: AccountId, free: Balance, reserved: Balance) -> (done: bool)
        requires
            old(self)@.wf(),
        ensures
            final(self)@.wf(),
            done == (free + reserved <= u64::MAX),
            done ==> final(self)@ == old(self)@.with_account(who, free as int, reserved as int),
            !done ==> final(self)@ == old(self)@,
    {
        if free > u64::MAX - reserved {
            return false;
        }
        self.put(who, free, reserved);
        proof {
            assert forall|other: AccountId| #[trigger] self@.total(other) <= u64::MAX by {
                assert(old(self)@.total(other) <= u64::MAX);
            }
        }
        true
    }

    /// Whether a reservation of `amount` from `who` would be accepted.
    pub fn can_reserve(&self, who: AccountId, amount: Balance) -> (accepted: bool)
        ensures
            accepted == self@.can_reserve(who, amount),
    {
        amount <= self.account(who).free
    }

    /// Moves `amount` of `who` from free to reserved, or refuses and leaves
    /// the book as it is.
    pub fn reserve(&mut self, who: AccountId, amount: Balance) -> (result: Result<
        (),
        InsufficientFunds,
    >)
        requires
            old(self)@.wf(),
        ensures
            final(self)@.wf(),
            result is Ok <==> old(self)@.can_reserve(who, amount),
            result is Ok ==> final(self)@ == old(self)@.reserve(who, amount),
            result is Err ==> final(self)@ == old(self)@,
    {
        let data = self.account(who);
        if amount > data.free {
            return Err(InsufficientFunds);
        }
        proof {
            assert(old(self)@.total(who) <= u64::MAX);
        }
        self.put(who, data.free - amount, data.reserved + amount);
        proof {
            assert forall|other: AccountId| #[trigger] self@.total(other) <= u64::MAX by {
                assert(old(self)@.total(other) <= u64::MAX);
            }
        }
        Ok(())
    }

    /// Moves up to `amount` of `who` from reserved back to free: all of it
    /// where that much is reserved, else what is reserved. Returns the part
    /// of `amount` that was not there to release.
    pub fn unreserve(&mut self, who: AccountId, amount: Balance) -> (missing: Balance)
        requires
            old(self)@.wf(),
        ensures
            final(self)@.wf(),
            final(self)@ == old(self)@.unreserve(who, amount),
            missing == amount - old(self)@.releasable(who, amount),
    {
        let data = self.account(who);
        let moved: Balance = if amount <= data.reserved {
            amount
        } else {
            data.reserved
        };
        proof {
            assert(old(self)@.total(who) <= u64::MAX);
        }
        self.put(who, data.free + moved, data.reserved - moved);
        proof {
            assert forall|other: AccountId| #[trigger] self@.total(other) <= u64::MAX by {
                assert(old(self)@.total(other) <= u64::MAX);
            }
        }
        amount - moved
    }

    /// Whether a payment of `amount` from `from` to `to` would be accepted.
    pub fn can_transfer(&self, from: AccountId, to: AccountId, amount: Balance) -> (accepted: bool)
        requires
            self@.wf(),
        ensures
            accepted == self@.can_transfer(from, to, amount),
    {
        let payer = self.account(from);
        let payee = self.account(to);
        proof {
            assert(self@.total(from) <= u64::MAX);
            assert(self@.total(to) <= u64::MAX);
        }
        amount <= payer.free && self.minimum <= payer.free - amount + payer.reserved && (from == to
            || amount <= u64::MAX - (payee.free + payee.reserved))
    }

    /// Pays `amount` from the free amount of `from` into that of `to`, or
    /// refuses and leaves the book as it is.
    pub fn transfer(&mut self, from: AccountId, to: AccountId, amount: Balance) -> (result: Result<
        (),
        InsufficientFunds,
    >)
        requires
            old(self)@.wf(),
        ensures
            final(self)@.wf(),
            result is Ok <==> old(self)@.can_transfer(from, to, amount),
            result is Ok ==> final(self)@ == old(self)@.transfer(from, to, amount),
            result is Err ==> final(self)@ == old(self)@,
    {
        if !self.can_transfer(from, to, amount) {
            return Err(InsufficientFunds);
        }
        if from != to {
            let payer = self.account(from);
            let payee = self.account(to);
            proof {
                assert(old(self)@.total(to) <= u64::MAX);
            }
            self.put(from, payer.free - amount, payer.reserved);
            self.put(to, payee.free + amount, payee.reserved);
            proof {
                assert forall|other: AccountId| #[trigger] self@.total(other) <= u64::MAX by {
                    assert(old(self)@.total(other) <= u64::MAX);
                }
            }
        }
        Ok(())
    }
}

} // verus!
