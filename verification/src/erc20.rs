//! A fungible token: balances, allowances and the transfers between them.
//!
//! The whole supply is minted to the creator, and no transfer makes or
//! destroys a token: the balances always add up to the supply.

use std::collections::HashMap;
use vstd::prelude::*;

verus! {

broadcast use vstd::std_specs::hash::group_hash_axioms;

pub type AccountId = u64;

pub type Balance = u128;

/// Tokens moved: from nobody when they are minted.
#[derive(Clone, Copy, Debug, PartialEq, Eq, Structural)]
pub struct Transfer {
    pub from: Option<AccountId>,
    pub to: Option<AccountId>,
    pub value: Balance,
}

/// An owner allowed a spender to move up to `value` of the owner's tokens.
#[derive(Clone, Copy, Debug, PartialEq, Eq, Structural)]
pub struct Approval {
    pub owner: AccountId,
    pub spender: AccountId,
    pub value: Balance,
}

/// What the token reports of a successful operation.
#[derive(Clone, Copy, Debug, PartialEq, Eq, Structural)]
pub enum Event {
    Transfer(Transfer),
    Approval(Approval),
}

/// Why an operation was refused.
#[derive(Clone, Copy, Debug, PartialEq, Eq, Structural)]
pub enum Error {
    /// The payer holds less than the value.
    InsufficientBalance,
    /// The spender is allowed less than the value.
    InsufficientApproval,
}

/// The sum of all the balances of a finite book.
pub open spec fn sum_of(balances: Map<AccountId, Balance>) -> nat
    decreases balances.dom().len(),
    when balances.dom().finite()
{
    if balances.dom().is_empty() {
        0
    } else {
        let who = balances.dom().choose();
        balances[who] as nat + sum_of(balances.remove(who))
    }
}

/// The sum of a book is the balance of any one account plus the sum of the
/// rest.
pub proof fn lemma_sum_splits(balances: Map<AccountId, Balance>, who: AccountId)
    requires
        balances.dom().finite(),
        balances.contains_key(who),
    ensures
        sum_of(balances) == balances[who] + sum_of(balances.remove(who)),
    decreases balances.dom().len(),
{
    let first = balances.dom().choose();
    if first != who {
        lemma_sum_splits(balances.remove(first), who);
        lemma_sum_splits(balances.remove(who), first);
        assert(balances.remove(first).remove(who) =~= balances.remove(who).remove(first));
    }
}

/// Writing one balance changes the sum by the difference to what stood
/// there, an unlisted account counting as empty.
pub proof fn lemma_sum_after_insert(
    balances: Map<AccountId, Balance>,
    who: AccountId,
    value: Balance,
)
    requires
        balances.dom().finite(),
    ensures
        sum_of(balances.insert(who, value)) + (if balances.contains_key(who) {
            balances[who]
        } else {
            0
        }) == sum_of(balances) + value,
{
    lemma_sum_splits(balances.insert(who, value), who);
    assert(balances.insert(who, value).remove(who) =~= balances.remove(who));
    if balances.contains_key(who) {
        lemma_sum_splits(balances, who);
    } else {
        assert(balances.remove(who) =~= balances);
    }
}

/// The mathematical content of the token.
pub struct Token {
    pub total_supply: Balance,
    /// The balance of every account that ever held tokens.
    pub balances: Map<AccountId, Balance>,
    /// What each owner allows each spender, by `(owner, spender)`.
    pub allowances: Map<(AccountId, AccountId), Balance>,
    /// The events reported so far, oldest first.
    pub events: Seq<Event>,
}

impl Token {
    /// The balances add up to the supply.
    pub open spec fn wf(self) -> bool {
        &&& self.balances.dom().finite()
        &&& sum_of(self.balances) == self.total_supply
    }

    /// The token just after `caller` created it with `supply`.
    pub open spec fn minted(caller: AccountId, supply: Balance) -> Token {
        Token {
            total_supply: supply,
            balances: Map::empty().insert(caller, supply),
            allowances: Map::empty(),
            events: seq![
                Event::Transfer(Transfer { from: None, to: Some(caller), value: supply }),
            ],
        }
    }

    /// What `who` holds: nothing, unless tokens were moved there.
    pub open spec fn balance_of(self, who: AccountId) -> Balance {
        if self.balances.contains_key(who) {
            self.balances[who]
        } else {
            0
        }
    }

    /// What `owner` allows `spender`: nothing, unless it was approved.
    pub open spec fn allowance(self, owner: AccountId, spender: AccountId) -> Balance {
        if self.allowances.contains_key((owner, spender)) {
            self.allowances[(owner, spender)]
        } else {
            0
        }
    }

    /// The token after `value` moved from `from` to `to`.
    pub open spec fn moved(self, from: AccountId, to: AccountId, value: Balance) -> Token {
        let debited = self.balances.insert(from, (self.balance_of(from) - value) as Balance);
        let before = if debited.contains_key(to) {
            debited[to]
        } else {
            0
        };
        Token {
            total_supply: self.total_supply,
            balances: debited.insert(to, (before + value) as Balance),
            allowances: self.allowances,
            events: self.events.push(
                Event::Transfer(Transfer { from: Some(from), to: Some(to), value }),
            ),
        }
    }

    /// The token after `owner` allowed `spender` the amount `value`.
    pub open spec fn approved(self, owner: AccountId, spender: AccountId, value: Balance) -> Token {
        Token {
            total_supply: self.total_supply,
            balances: self.balances,
            allowances: self.allowances.insert((owner, spender), value),
            events: self.events.push(Event::Approval(Approval { owner, spender, value })),
        }
    }

    /// The token after the allowance of `spender` on `owner` was set to
    /// `value` without a report.
    pub open spec fn with_allowance(
        self,
        owner: AccountId,
        spender: AccountId,
        value: Balance,
    ) -> Token {
        Token {
            total_supply: self.total_supply,
            balances: self.balances,
            allowances: self.allowances.insert((owner, spender), value),
            events: self.events,
        }
    }
}

/// No account holds more than the supply, and a transfer that the payer can
/// cover leaves the balances adding up to the supply: the two accounts
/// apart, nothing moved; the payee's new balance fits.
pub proof fn lemma_transfer_conserves_supply(
    token: Token,
    from: AccountId,
    to: AccountId,
    value: Balance,
)
    requires
        token.wf(),
        value <= token.balance_of(from),
    ensures
        token.balance_of(from) <= token.total_supply,
        token.moved(from, to, value).wf(),
        from != to ==> token.balance_of(to) + value <= token.total_supply,
        from != to ==> token.moved(from, to, value).balance_of(from) == token.balance_of(from)
            - value,
        from != to ==> token.moved(from, to, value).balance_of(to) == token.balance_of(to)
            + value,
        from == to ==> token.moved(from, to, value).balance_of(from) == token.balance_of(from),
        forall|other: AccountId|
            other != from && other != to ==> #[trigger] token.moved(from, to, value).balance_of(
                other,
            ) == token.balance_of(other),
{
    let debited = token.balances.insert(from, (token.balance_of(from) - value) as Balance);
    if token.balances.contains_key(from) {
        lemma_sum_splits(token.balances, from);
    }
    lemma_sum_after_insert(token.balances, from, (token.balance_of(from) - value) as Balance);
    let before = if debited.contains_key(to) {
        debited[to]
    } else {
        0
    };
    if debited.contains_key(to) {
        lemma_sum_splits(debited, to);
    }
    lemma_sum_after_insert(debited, to, (before + value) as Balance);
}

/// The key under which the allowance of `spender` on `owner` is kept.
pub open spec fn pair_key(owner: AccountId, spender: AccountId) -> u128 {
    (owner * 0x1_0000_0000_0000_0000 + spender) as u128
}

/// The token.
pub struct Erc20 {
    total_supply: Balance,
    balances: HashMap<AccountId, Balance>,
    allowances: HashMap<u128, Balance>,
    events: Vec<Event>,
}

impl View for Erc20 {
    type V = Token;

    closed spec fn view(&self) -> Token {
        Token {
            total_supply: self.total_supply,
            balances: self.balances@,
            allowances: Map::new(
                |pair: (AccountId, AccountId)|
                    self.allowances@.contains_key(pair_key(pair.0, pair.1)),
                |pair: (AccountId, AccountId)| self.allowances@[pair_key(pair.0, pair.1)],
            ),
            events: self.events@,
        }
    }
}

fn allowance_key(owner: AccountId, spender: AccountId) -> (key: u128)
    ensures
        key == pair_key(owner, spender),
{
    let high: u128 = owner as u128;
    let low: u128 = spender as u128;
    high * 0x1_0000_0000_0000_0000u128 + low
}

impl Erc20 {
    /// A token whose whole `supply` belongs to `caller`.
    pub fn new(caller: AccountId, supply: Balance) -> (token: Erc20)
        ensures
            token@ == Token::minted(caller, supply),
            token@.wf(),
    {
        let mut balances: HashMap<AccountId, Balance> = HashMap::new();
        balances.insert(caller, supply);
        let mut events: Vec<Event> = Vec::new();
        events.push(Event::Transfer(Transfer { from: None, to: Some(caller), value: supply }));
        let token = Erc20 { total_supply: supply, balances, allowances: HashMap::new(), events };
        proof {
            assert(token@.allowances =~= Map::<(AccountId, AccountId), Balance>::empty());
            assert(token@.events =~= Token::minted(caller, supply).events);
            lemma_sum_after_insert(Map::<AccountId, Balance>::empty(), caller, supply);
        }
        token
    }

    /// The supply.
    pub fn total_supply(&self) -> (supply: Balance)
        ensures
            supply == self@.total_supply,
    {
        self.total_supply
    }

    /// What `who` holds.
    pub fn balance_of(&self, who: AccountId) -> (balance: Balance)
        ensures
            balance == self@.balance_of(who),
    {
        match self.balances.get(&who) {
            Some(balance) => *balance,
            None => 0,
        }
    }

    /// What `who` allows `spender` to move.
    pub fn allowance(&self, who: AccountId, spender: AccountId) -> (allowed: Balance)
        ensures
            allowed == self@.allowance(who, spender),
    {
        let key = allowance_key(who, spender);
        match self.allowances.get(&key) {
            Some(allowed) => *allowed,
            None => 0,
        }
    }

    /// The events reported so far, oldest first.
    pub fn events(&self) -> (log: &Vec<Event>)
        ensures
            log@ == self@.events,
    {
        &self.events
    }

    fn set_allowance(&mut self, owner: AccountId, spender: AccountId, value: Balance)
        ensures
            final(self)@ == old(self)@.with_allowance(owner, spender, value),
    {
        let key = allowance_key(owner, spender);
        self.allowances.insert(key, value);
        proof {
            assert forall|pair: (AccountId, AccountId)|
                pair != (owner, spender) implies #[trigger] pair_key(pair.0, pair.1) != key by {
                if pair.0 == owner {
                    assert(pair.1 != spender);
                }
            }
            assert(self@.allowances =~= old(self)@.allowances.insert((owner, spender), value));
        }
    }

    /// Moves `value` of the caller's tokens to `to`.
    pub fn transfer(&mut self, caller: AccountId, to: AccountId, value: Balance) -> (result:
        Result<(), Error>)
        requires
            old(self)@.wf(),
        ensures
            final(self)@.wf(),
            result is Ok <==> value <= old(self)@.balance_of(caller),
            result is Ok ==> final(self)@ == old(self)@.moved(caller, to, value),
            result is Err ==> {
                &&& result == Err::<(), Error>(Error::InsufficientBalance)
                &&& final(self)@ == old(self)@
            },
    {
        self.inner_transfer(caller, to, value)
    }

    /// Allows `to` to move up to `value` of the caller's tokens, in place
    /// of what was allowed before. Never refused.
    pub fn approve(&mut self, caller: AccountId, to: AccountId, value: Balance) -> (result:
        Result<(), Error>)
        ensures
            result is Ok,
            final(self)@ == old(self)@.approved(caller, to, value),
    {
        self.set_allowance(caller, to, value);
        self.events.push(Event::Approval(Approval { owner: caller, spender: to, value }));
        Ok(())
    }

    /// Moves `value` of the tokens of `from` to `to` on the caller's
    /// allowance, which shrinks by `value`.
    pub fn transfer_from(
        &mut self,
        caller: AccountId,
        from: AccountId,
        to: AccountId,
        value: Balance,
    ) -> (result: Result<(), Error>)
        requires
            old(self)@.wf(),
        ensures
            final(self)@.wf(),
            result == (if old(self)@.allowance(from, caller) < value {
                Err::<(), Error>(Error::InsufficientApproval)
            } else if old(self)@.balance_of(from) < value {
                Err(Error::InsufficientBalance)
            } else {
                Ok(())
            }),
            result is Ok ==> final(self)@ == old(self)@.moved(from, to, value).with_allowance(
                from,
                caller,
                (old(self)@.allowance(from, caller) - value) as Balance,
            ),
            result is Err ==> final(self)@ == old(self)@,
    {
        let allowance = self.allowance(from, caller);
        if allowance < value {
            return Err(Error::InsufficientApproval);
        }
        match self.inner_transfer(from, to, value) {
            Ok(()) => {},
            Err(error) => {
                return Err(error);
            },
        }
        self.set_allowance(from, caller, allowance - value);
        Ok(())
    }

    /// Moves `value` from `from` to `to`, if `from` holds that much.
    pub fn inner_transfer(&mut self, from: AccountId, to: AccountId, value: Balance) -> (result:
        Result<(), Error>)
        requires
            old(self)@.wf(),
        ensures
            final(self)@.wf(),
            result is Ok <==> value <= old(self)@.balance_of(from),
            result is Ok ==> final(self)@ == old(self)@.moved(from, to, value),
            result is Err ==> {
                &&& result == Err::<(), Error>(Error::InsufficientBalance)
                &&& final(self)@ == old(self)@
            },
    {
        let from_balance = self.balance_of(from);
        if from_balance < value {
            return Err(Error::InsufficientBalance);
        }
        proof {
            lemma_transfer_conserves_supply(old(self)@, from, to, value);
        }
        self.balances.insert(from, from_balance - value);
        let to_balance = self.balance_of(to);
        self.balances.insert(to, to_balance + value);
        self.events.push(Event::Transfer(Transfer { from: Some(from), to: Some(to), value }));
        proof {
            assert(self@.allowances =~= old(self)@.allowances);
        }
        Ok(())
    }
}

} // verus!
