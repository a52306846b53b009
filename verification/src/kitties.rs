//! The kitty ledger: who owns which kitty, what each kitty is, and the
//! escrow that backs every ownership.
//!
//! Identifiers start at one and are handed out in rising order. The counter
//! holds the last identifier handed out. Every operation either succeeds as
//! a whole or changes nothing. A purchase leaves the listing price in place.

use crate::balances::{AccountId, Balance, Balances, Book};
use crate::entropy::Randomness;
use std::collections::HashMap;
use vstd::prelude::*;

verus! {

broadcast use vstd::std_specs::hash::group_hash_axioms;

pub type KittyIndex = u32;

/// One kitty: its genome and, while it is for sale, its price.
#[derive(Clone, Copy, Debug, PartialEq, Eq)]
pub struct Kitty {
    pub dna: [u8; 16],
    pub list_price: Option<Balance>,
}

/// What the ledger reports of a successful operation.
#[derive(Clone, Copy, Debug, PartialEq, Eq, Structural)]
pub enum Event {
    /// A kitty came into being: its owner and its identifier.
    KittyCreated(AccountId, KittyIndex),
    /// A kitty changed hands: the old owner, the new one, the identifier.
    KittyTransferred(AccountId, AccountId, KittyIndex),
    /// A kitty was put up for sale: its owner, its identifier, the price.
    KittyOnSale(AccountId, KittyIndex, Balance),
}

/// Why an operation was refused.
#[derive(Clone, Copy, Debug, PartialEq, Eq, Structural)]
pub enum Error {
    /// No identifier is left.
    KittiesCountOverflow,
    /// The caller does not own the kitty.
    NotOwner,
    /// Both parents are the same kitty.
    SameParentIndex,
    /// No kitty has this identifier.
    InvalidKittyIndex,
    /// The buyer already owns the kitty.
    KittyAlreadyOwned,
    /// The kitty has no owner on record.
    KittyWithoutOwner,
    /// The kitty has no listing price.
    KittyNotForSale,
    /// The balance book refused the escrow reservation.
    InsufficientReserveBalance,
    /// The balance book refused the payment.
    InsufficientPaymentBalance,
}

/// One byte of a child's genome: each bit comes from `first` where the bit
/// of `selector` is set, and from `second` where it is clear.
pub open spec fn mix_byte(selector: u8, first: u8, second: u8) -> u8 {
    (selector & first) | (!selector & second)
}

/// The genome bred from two parents under a selector, byte by byte.
pub open spec fn mix(selector: Seq<u8>, first: Seq<u8>, second: Seq<u8>) -> Seq<u8> {
    Seq::new(16, |i: int| mix_byte(selector[i], first[i], second[i]))
}

/// The mathematical content of the ledger.
pub struct Ledger {
    /// The last identifier handed out, if any was.
    pub count: Option<KittyIndex>,
    pub kitties: Map<KittyIndex, Kitty>,
    pub owners: Map<KittyIndex, AccountId>,
    /// What every ownership holds in reserve.
    pub reserve_amount: Balance,
    /// The events reported so far, oldest first.
    pub events: Seq<Event>,
}

impl Ledger {
    /// A ledger without kitties.
    pub open spec fn empty(reserve_amount: Balance) -> Ledger {
        Ledger {
            count: None,
            kitties: Map::empty(),
            owners: Map::empty(),
            reserve_amount,
            events: Seq::empty(),
        }
    }

    /// The identifier that the next kitty gets. It may lie beyond what a
    /// `KittyIndex` can hold: then none is left.
    pub open spec fn next_id(self) -> int {
        match self.count {
            None => 1,
            Some(last) => last + 1,
        }
    }

    pub open spec fn kitty(self, id: KittyIndex) -> Option<Kitty> {
        if self.kitties.contains_key(id) {
            Some(self.kitties[id])
        } else {
            None
        }
    }

    pub open spec fn owner(self, id: KittyIndex) -> Option<AccountId> {
        if self.owners.contains_key(id) {
            Some(self.owners[id])
        } else {
            None
        }
    }

    /// The kitties that `who` owns.
    pub open spec fn owned_by(self, who: AccountId) -> Set<KittyIndex> {
        Set::new(|id: KittyIndex| self.owners.contains_key(id) && self.owners[id] == who)
    }

    /// Finitely many kitties have an owner, and every identifier on record
    /// lies below the one that the next kitty gets.
    pub open spec fn wf(self) -> bool {
        &&& self.owners.dom().finite()
        &&& forall|id: KittyIndex| #[trigger] self.kitties.contains_key(id) ==> id < self.next_id()
        &&& forall|id: KittyIndex| #[trigger] self.owners.contains_key(id) ==> id < self.next_id()
    }

    /// Every ownership is backed: the reserve of each account covers the
    /// reserve amount once for every kitty that the account owns.
    pub open spec fn backed_by(self, book: Book) -> bool {
        forall|who: AccountId|
            book.reserved(who) >= self.reserve_amount * (#[trigger] self.owned_by(who)).len()
    }

    /// Every reserve is spoken for: the reserve of each account is the
    /// reserve amount once for every kitty that the account owns, and no
    /// more.
    pub open spec fn matched_by(self, book: Book) -> bool {
        forall|who: AccountId|
            book.reserved(who) == self.reserve_amount * (#[trigger] self.owned_by(who)).len()
    }

    /// The ledger after `who` got the new kitty `id` with genome `dna`.
    pub open spec fn created(self, who: AccountId, id: KittyIndex, dna: [u8; 16]) -> Ledger {
        Ledger {
            count: Some(id),
            kitties: self.kitties.insert(id, Kitty { dna, list_price: None }),
            owners: self.owners.insert(id, who),
            reserve_amount: self.reserve_amount,
            events: self.events.push(Event::KittyCreated(who, id)),
        }
    }

    /// The ledger after kitty `id` went from `sender` to `recipient`.
    pub open spec fn transferred(
        self,
        sender: AccountId,
        recipient: AccountId,
        id: KittyIndex,
    ) -> Ledger {
        Ledger {
            count: self.count,
            kitties: self.kitties,
            owners: self.owners.insert(id, recipient),
            reserve_amount: self.reserve_amount,
            events: self.events.push(Event::KittyTransferred(sender, recipient, id)),
        }
    }

    /// The ledger after `who` listed kitty `id` at `price`.
    pub open spec fn listed(self, who: AccountId, id: KittyIndex, price: Balance) -> Ledger {
        Ledger {
            count: self.count,
            kitties: self.kitties.insert(
                id,
                Kitty { dna: self.kitties[id].dna, list_price: Some(price) },
            ),
            owners: self.owners,
            reserve_amount: self.reserve_amount,
            events: self.events.push(Event::KittyOnSale(who, id, price)),
        }
    }

    /// Why a creation by `who` is refused, if it is: first for want of an
    /// identifier, then for want of funds to reserve.
    pub open spec fn create_refusal(self, book: Book, who: AccountId) -> Option<Error> {
        if self.next_id() > u32::MAX {
            Some(Error::KittiesCountOverflow)
        } else if !book.can_reserve(who, self.reserve_amount) {
            Some(Error::InsufficientReserveBalance)
        } else {
            None
        }
    }

    /// Why a transfer of kitty `id` from `sender` to `recipient` is refused,
    /// if it is: first where `sender` is not the owner, then where
    /// `recipient` cannot fund the reserve.
    pub open spec fn transfer_refusal(
        self,
        book: Book,
        sender: AccountId,
        recipient: AccountId,
        id: KittyIndex,
    ) -> Option<Error> {
        if self.owner(id) != Some(sender) {
            Some(Error::NotOwner)
        } else if !book.can_reserve(recipient, self.reserve_amount) {
            Some(Error::InsufficientReserveBalance)
        } else {
            None
        }
    }

    /// Why breeding `first` with `second` for `who` is refused, if it is:
    /// first where both are one kitty, then where either is unknown, then
    /// as a creation is.
    pub open spec fn breed_refusal(
        self,
        book: Book,
        who: AccountId,
        first: KittyIndex,
        second: KittyIndex,
    ) -> Option<Error> {
        if first == second {
            Some(Error::SameParentIndex)
        } else if self.kitty(first) is None || self.kitty(second) is None {
            Some(Error::InvalidKittyIndex)
        } else {
            self.create_refusal(book, who)
        }
    }

    /// Why listing kitty `id` by `who` is refused, if it is: first where
    /// `who` is not the owner, then where the kitty is unknown.
    pub open spec fn sell_refusal(self, who: AccountId, id: KittyIndex) -> Option<Error> {
        if self.owner(id) != Some(who) {
            Some(Error::NotOwner)
        } else if self.kitty(id) is None {
            Some(Error::InvalidKittyIndex)
        } else {
            None
        }
    }

    /// Why the purchase of kitty `id` by `who` is refused, if it is. The
    /// tests come in this order: an owner is on record; it is not the
    /// buyer; the kitty is known; it is for sale; the buyer can pay the
    /// price; and, the price paid, the buyer can fund the reserve.
    pub open spec fn buy_refusal(self, book: Book, who: AccountId, id: KittyIndex) -> Option<
        Error,
    > {
        if self.owner(id) is None {
            Some(Error::KittyWithoutOwner)
        } else if self.owners[id] == who {
            Some(Error::KittyAlreadyOwned)
        } else if self.kitty(id) is None {
            Some(Error::InvalidKittyIndex)
        } else if self.kitties[id].list_price is None {
            Some(Error::KittyNotForSale)
        } else if !book.can_transfer(who, self.owners[id], self.kitties[id].list_price.unwrap()) {
            Some(Error::InsufficientPaymentBalance)
        } else {
            self.transfer_refusal(
                book.transfer(who, self.owners[id], self.kitties[id].list_price.unwrap()),
                self.owners[id],
                who,
                id,
            )
        }
    }
}

/// The kitty ledger.
pub struct Pallet {
    count: Option<KittyIndex>,
    kitties: HashMap<KittyIndex, Kitty>,
    owners: HashMap<KittyIndex, AccountId>,
    reserve_amount: Balance,
    events: Vec<Event>,
}

impl View for Pallet {
    type V = Ledger;

    closed spec fn view(&self) -> Ledger {
        Ledger {
            count: self.count,
            kitties: self.kitties@,
            owners: self.owners@,
            reserve_amount: self.reserve_amount,
            events: self.events@,
        }
    }
}

impl Pallet {
    /// A ledger without kitties, in which every ownership reserves
    /// `reserve_amount`.
    pub fn new(reserve_amount: Balance) -> (pallet: Pallet)
        ensures
            pallet@ == Ledger::empty(reserve_amount),
            pallet@.wf(),
    {
        Pallet {
            count: None,
            kitties: HashMap::new(),
            owners: HashMap::new(),
            reserve_amount,
            events: Vec::new(),
        }
    }

    /// The last identifier handed out, if any was.
    pub fn kitties_count(&self) -> (count: Option<KittyIndex>)
        ensures
            count == self@.count,
    {
        self.count
    }

    /// The kitty with this identifier, if there is one.
    pub fn kitties(&self, kitty_id: KittyIndex) -> (kitty: Option<Kitty>)
        ensures
            kitty == self@.kitty(kitty_id),
    {
        match self.kitties.get(&kitty_id) {
            Some(kitty) => Some(*kitty),
            None => None,
        }
    }

    /// The owner on record of this kitty, if there is one.
    pub fn owner(&self, kitty_id: KittyIndex) -> (owner: Option<AccountId>)
        ensures
            owner == self@.owner(kitty_id),
    {
        match self.owners.get(&kitty_id) {
            Some(owner) => Some(*owner),
            None => None,
        }
    }

    /// What every ownership holds in reserve.
    pub fn reserve_amount(&self) -> (amount: Balance)
        ensures
            amount == self@.reserve_amount,
    {
        self.reserve_amount
    }

    /// The events reported so far, oldest first.
    pub fn events(&self) -> (log: &Vec<Event>)
        ensures
            log@ == self@.events,
    {
        &self.events
    }

    /// The event reported last, if any was.
    pub fn last_event(&self) -> (event: Option<Event>)
        ensures
            event == (if self@.events.len() > 0 {
                Some(self@.events.last())
            } else {
                None
            }),
    {
        let n = self.events.len();
        if n > 0 {
            Some(self.events[n - 1])
        } else {
            None
        }
    }

    /// Moves the counter to `count`, as though that many identifiers had
    /// been handed out. Nothing else changes.
    pub fn set_kitty_count(&mut self, count: KittyIndex)
        ensures
            final(self)@ == (Ledger { count: Some(count), ..old(self)@ }),
    {
        self.count = Some(count);
    }

    /// Puts `owner` on record for kitty `kitty_id`, or with `None` strikes
    /// the record. Neither the kitty nor any balance changes.
    pub fn set_kitty_owner(&mut self, kitty_id: KittyIndex, owner: Option<AccountId>)
        ensures
            final(self)@ == (Ledger {
                owners: match owner {
                    Some(who) => old(self)@.owners.insert(kitty_id, who),
                    None => old(self)@.owners.remove(kitty_id),
                },
                ..old(self)@
            }),
    {
        match owner {
            Some(who) => {
                self.owners.insert(kitty_id, who);
            },
            None => {
                self.owners.remove(&kitty_id);
            },
        }
    }

    /// The identifier that the next kitty gets, unless none is left.
    pub fn next_kitty_id(&self) -> (result: Result<KittyIndex, Error>)
        ensures
            result == (if self@.next_id() <= u32::MAX {
                Ok::<KittyIndex, Error>(self@.next_id() as u32)
            } else {
                Err(Error::KittiesCountOverflow)
            }),
    {
        match self.count {
            None => Ok(1),
            Some(last) => match last.checked_add(1) {
                Some(id) => Ok(id),
                None => Err(Error::KittiesCountOverflow),
            },
        }
    }

    /// Sixteen bytes of entropy for `sender` from `source`.
    pub fn random_value(source: &Randomness, sender: &AccountId) -> (value: [u8; 16])
        ensures
            value == source.entropy(*sender),
    {
        source.random_value(*sender)
    }

    /// Reserves the escrow of `who` and then records the kitty `kitty_id`
    /// with genome `dna` as theirs, moving the counter to `kitty_id`. Where
    /// the reservation is refused, nothing changes.
    pub fn kitty_create(
        &mut self,
        bank: &mut Balances,
        who: AccountId,
        kitty_id: KittyIndex,
        dna: [u8; 16],
    ) -> (result: Result<(), Error>)
        requires
            old(bank)@.wf(),
        ensures
            final(bank)@.wf(),
            result is Ok <==> old(bank)@.can_reserve(who, old(self)@.reserve_amount),
            result is Ok ==> {
                &&& final(self)@ == old(self)@.created(who, kitty_id, dna)
                &&& final(bank)@ == old(bank)@.reserve(who, old(self)@.reserve_amount)
            },
            result is Err ==> {
                &&& result == Err::<(), Error>(Error::InsufficientReserveBalance)
                &&& final(self)@ == old(self)@
                &&& final(bank)@ == old(bank)@
            },
    {
        match bank.reserve(who, self.reserve_amount) {
            Ok(()) => {},
            Err(_) => {
                return Err(Error::InsufficientReserveBalance);
            },
        }
        self.kitties.insert(kitty_id, Kitty { dna, list_price: None });
        self.owners.insert(kitty_id, who);
        self.count = Some(kitty_id);
        self.events.push(Event::KittyCreated(who, kitty_id));
        Ok(())
    }

    /// Creates a kitty for `who`, with a genome drawn from `source`, and
    /// returns its identifier.
    pub fn create(&mut self, bank: &mut Balances, source: &Randomness, who: AccountId) -> (result:
        Result<KittyIndex, Error>)
        requires
            old(bank)@.wf(),
        ensures
            final(bank)@.wf(),
            old(self)@.wf() && old(self)@.backed_by(old(bank)@) ==> {
                &&& final(self)@.wf()
                &&& final(self)@.backed_by(final(bank)@)
            },
            match result {
                Ok(id) => {
                    &&& old(self)@.create_refusal(old(bank)@, who) is None
                    &&& id == old(self)@.next_id()
                    &&& final(self)@ == old(self)@.created(who, id, source.entropy(who))
                    &&& final(bank)@ == old(bank)@.reserve(who, old(self)@.reserve_amount)
                },
                Err(error) => {
                    &&& old(self)@.create_refusal(old(bank)@, who) == Some(error)
                    &&& final(self)@ == old(self)@
                    &&& final(bank)@ == old(bank)@
                },
            },
    {
        let kitty_id = match self.next_kitty_id() {
            Ok(id) => id,
            Err(error) => {
                return Err(error);
            },
        };
        let dna = Self::random_value(source, &who);
        proof {
            if old(self)@.wf() && old(self)@.backed_by(old(bank)@) && old(self)@.create_refusal(
                old(bank)@,
                who,
            ) is None {
                lemma_creation_keeps_escrow(old(self)@, old(bank)@, who, dna);
            }
        }
        match self.kitty_create(bank, who, kitty_id, dna) {
            Ok(()) => Ok(kitty_id),
            Err(error) => Err(error),
        }
    }

    /// Hands kitty `kitty_id` from `sender` to `recipient`: the recipient's
    /// escrow is reserved first, then the owner changes, then the sender's
    /// escrow is released.
    pub fn kitty_transfer(
        &mut self,
        bank: &mut Balances,
        sender: AccountId,
        recipient: AccountId,
        kitty_id: KittyIndex,
    ) -> (result: Result<(), Error>)
        requires
            old(bank)@.wf(),
        ensures
            final(bank)@.wf(),
            old(self)@.wf() && old(self)@.backed_by(old(bank)@) ==> {
                &&& final(self)@.wf()
                &&& final(self)@.backed_by(final(bank)@)
            },
            match result {
                Ok(()) => {
                    &&& old(self)@.transfer_refusal(old(bank)@, sender, recipient, kitty_id) is None
                    &&& final(self)@ == old(self)@.transferred(sender, recipient, kitty_id)
                    &&& final(bank)@ == old(bank)@.reserve(
                        recipient,
                        old(self)@.reserve_amount,
                    ).unreserve(sender, old(self)@.reserve_amount)
                },
                Err(error) => {
                    &&& old(self)@.transfer_refusal(old(bank)@, sender, recipient, kitty_id)
                        == Some(error)
                    &&& final(self)@ == old(self)@
                    &&& final(bank)@ == old(bank)@
                },
            },
    {
        if self.owner(kitty_id) != Some(sender) {
            return Err(Error::NotOwner);
        }
        match bank.reserve(recipient, self.reserve_amount) {
            Ok(()) => {},
            Err(_) => {
                return Err(Error::InsufficientReserveBalance);
            },
        }
        self.owners.insert(kitty_id, recipient);
        bank.unreserve(sender, self.reserve_amount);
        self.events.push(Event::KittyTransferred(sender, recipient, kitty_id));
        proof {
            if old(self)@.wf() && old(self)@.backed_by(old(bank)@) {
                lemma_transfer_keeps_escrow(old(self)@, old(bank)@, sender, recipient, kitty_id);
            }
        }
        Ok(())
    }

    /// Hands kitty `kitty_id` from its owner `who` to `recipient`, moving
    /// the escrow along.
    pub fn transfer(
        &mut self,
        bank: &mut Balances,
        who: AccountId,
        recipient: AccountId,
        kitty_id: KittyIndex,
    ) -> (result: Result<(), Error>)
        requires
            old(bank)@.wf(),
        ensures
            final(bank)@.wf(),
            old(self)@.wf() && old(self)@.backed_by(old(bank)@) ==> {
                &&& final(self)@.wf()
                &&& final(self)@.backed_by(final(bank)@)
            },
            match result {
                Ok(()) => {
                    &&& old(self)@.transfer_refusal(old(bank)@, who, recipient, kitty_id) is None
                    &&& final(self)@ == old(self)@.transferred(who, recipient, kitty_id)
                    &&& final(bank)@ == old(bank)@.reserve(
                        recipient,
                        old(self)@.reserve_amount,
                    ).unreserve(who, old(self)@.reserve_amount)
                },
                Err(error) => {
                    &&& old(self)@.transfer_refusal(old(bank)@, who, recipient, kitty_id) == Some(
                        error,
                    )
                    &&& final(self)@ == old(self)@
                    &&& final(bank)@ == old(bank)@
                },
            },
    {
        self.kitty_transfer(bank, who, recipient, kitty_id)
    }

    /// Breeds the kitties `kitty_id_1` and `kitty_id_2` for `who` under the
    /// given selector: every bit of the child's genome is the first
    /// parent's where the selector's bit is set, the second parent's where
    /// it is clear. Returns the child's identifier.
    pub fn breed_with_selector(
        &mut self,
        bank: &mut Balances,
        who: AccountId,
        kitty_id_1: KittyIndex,
        kitty_id_2: KittyIndex,
        selector: [u8; 16],
    ) -> (result: Result<KittyIndex, Error>)
        requires
            old(bank)@.wf(),
        ensures
            final(bank)@.wf(),
            old(self)@.wf() && old(self)@.backed_by(old(bank)@) ==> {
                &&& final(self)@.wf()
                &&& final(self)@.backed_by(final(bank)@)
            },
            match result {
                Ok(id) => {
                    &&& old(self)@.breed_refusal(old(bank)@, who, kitty_id_1, kitty_id_2) is None
                    &&& id == old(self)@.next_id()
                    &&& final(self)@.kitties.contains_key(id)
                    &&& final(self)@.kitties[id].dna@ == mix(
                        selector@,
                        old(self)@.kitties[kitty_id_1].dna@,
                        old(self)@.kitties[kitty_id_2].dna@,
                    )
                    &&& final(self)@ == old(self)@.created(who, id, final(self)@.kitties[id].dna)
                    &&& final(bank)@ == old(bank)@.reserve(who, old(self)@.reserve_amount)
                },
                Err(error) => {
                    &&& old(self)@.breed_refusal(old(bank)@, who, kitty_id_1, kitty_id_2) == Some(
                        error,
                    )
                    &&& final(self)@ == old(self)@
                    &&& final(bank)@ == old(bank)@
                },
            },
    {
        if kitty_id_1 == kitty_id_2 {
            return Err(Error::SameParentIndex);
        }
        let kitty_1 = match self.kitties(kitty_id_1) {
            Some(kitty) => kitty,
            None => {
                return Err(Error::InvalidKittyIndex);
            },
        };
        let kitty_2 = match self.kitties(kitty_id_2) {
            Some(kitty) => kitty,
            None => {
                return Err(Error::InvalidKittyIndex);
            },
        };
        let kitty_id = match self.next_kitty_id() {
            Ok(id) => id,
            Err(error) => {
                return Err(error);
            },
        };
        let new_dna = mix_dna(&selector, &kitty_1.dna, &kitty_2.dna);
        proof {
            if old(self)@.wf() && old(self)@.backed_by(old(bank)@) && old(self)@.create_refusal(
                old(bank)@,
                who,
            ) is None {
                lemma_creation_keeps_escrow(old(self)@, old(bank)@, who, new_dna);
            }
        }
        match self.kitty_create(bank, who, kitty_id, new_dna) {
            Ok(()) => Ok(kitty_id),
            Err(error) => Err(error),
        }
    }

    /// Breeds the kitties `kitty_id_1` and `kitty_id_2` for `who`, with a
    /// selector drawn from `source`, and returns the child's identifier.
    pub fn breed(
        &mut self,
        bank: &mut Balances,
        source: &Randomness,
        who: AccountId,
        kitty_id_1: KittyIndex,
        kitty_id_2: KittyIndex,
    ) -> (result: Result<KittyIndex, Error>)
        requires
            old(bank)@.wf(),
        ensures
            final(bank)@.wf(),
            old(self)@.wf() && old(self)@.backed_by(old(bank)@) ==> {
                &&& final(self)@.wf()
                &&& final(self)@.backed_by(final(bank)@)
            },
            match result {
                Ok(id) => {
                    &&& old(self)@.breed_refusal(old(bank)@, who, kitty_id_1, kitty_id_2) is None
                    &&& id == old(self)@.next_id()
                    &&& final(self)@.kitties.contains_key(id)
                    &&& final(self)@.kitties[id].dna@ == mix(
                        source.entropy(who)@,
                        old(self)@.kitties[kitty_id_1].dna@,
                        old(self)@.kitties[kitty_id_2].dna@,
                    )
                    &&& final(self)@ == old(self)@.created(who, id, final(self)@.kitties[id].dna)
                    &&& final(bank)@ == old(bank)@.reserve(who, old(self)@.reserve_amount)
                },
                Err(error) => {
                    &&& old(self)@.breed_refusal(old(bank)@, who, kitty_id_1, kitty_id_2) == Some(
                        error,
                    )
                    &&& final(self)@ == old(self)@
                    &&& final(bank)@ == old(bank)@
                },
            },
    {
        let selector = Self::random_value(source, &who);
        self.breed_with_selector(bank, who, kitty_id_1, kitty_id_2, selector)
    }

    /// Lists kitty `kitty_id` of `who` at `list_price`. Neither the owner
    /// nor any balance changes.
    pub fn sell(&mut self, who: AccountId, kitty_id: KittyIndex, list_price: Balance) -> (result:
        Result<(), Error>)
        ensures
            old(self)@.wf() ==> final(self)@.wf(),
            match result {
                Ok(()) => {
                    &&& old(self)@.sell_refusal(who, kitty_id) is None
                    &&& final(self)@ == old(self)@.listed(who, kitty_id, list_price)
                },
                Err(error) => {
                    &&& old(self)@.sell_refusal(who, kitty_id) == Some(error)
                    &&& final(self)@ == old(self)@
                },
            },
    {
        if self.owner(kitty_id) != Some(who) {
            return Err(Error::NotOwner);
        }
        let kitty = match self.kitties(kitty_id) {
            Some(kitty) => kitty,
            None => {
                return Err(Error::InvalidKittyIndex);
            },
        };
        self.kitties.insert(kitty_id, Kitty { dna: kitty.dna, list_price: Some(list_price) });
        self.events.push(Event::KittyOnSale(who, kitty_id, list_price));
        proof {
            if old(self)@.wf() {
                lemma_listing_keeps_escrow(old(self)@, Book::empty(0), who, kitty_id, list_price);
            }
        }
        Ok(())
    }

    /// Buys kitty `kitty_id` for `who` at its listing price: the price is
    /// paid to the owner, then the kitty and its escrow change hands. The
    /// listing price stays on the kitty.
    pub fn buy(&mut self, bank: &mut Balances, who: AccountId, kitty_id: KittyIndex) -> (result:
        Result<(), Error>)
        requires
            old(bank)@.wf(),
        ensures
            final(bank)@.wf(),
            old(self)@.wf() && old(self)@.backed_by(old(bank)@) ==> {
                &&& final(self)@.wf()
                &&& final(self)@.backed_by(final(bank)@)
            },
            match result {
                Ok(()) => {
                    &&& old(self)@.buy_refusal(old(bank)@, who, kitty_id) is None
                    &&& final(self)@ == old(self)@.transferred(
                        old(self)@.owners[kitty_id],
                        who,
                        kitty_id,
                    )
                    &&& final(bank)@ == old(bank)@.transfer(
                        who,
                        old(self)@.owners[kitty_id],
                        old(self)@.kitties[kitty_id].list_price.unwrap(),
                    ).reserve(who, old(self)@.reserve_amount).unreserve(
                        old(self)@.owners[kitty_id],
                        old(self)@.reserve_amount,
                    )
                },
                Err(error) => {
                    &&& old(self)@.buy_refusal(old(bank)@, who, kitty_id) == Some(error)
                    &&& final(self)@ == old(self)@
                    &&& final(bank)@ == old(bank)@
                },
            },
    {
        let seller = match self.owner(kitty_id) {
            Some(owner) => owner,
            None => {
                return Err(Error::KittyWithoutOwner);
            },
        };
        if who == seller {
            return Err(Error::KittyAlreadyOwned);
        }
        let kitty = match self.kitties(kitty_id) {
            Some(kitty) => kitty,
            None => {
                return Err(Error::InvalidKittyIndex);
            },
        };
        let kitty_price = match kitty.list_price {
            Some(price) => price,
            None => {
                return Err(Error::KittyNotForSale);
            },
        };
        if !bank.can_transfer(who, seller, kitty_price) {
            return Err(Error::InsufficientPaymentBalance);
        }
        if bank.free_balance(who) - kitty_price < self.reserve_amount {
            return Err(Error::InsufficientReserveBalance);
        }
        proof {
            if old(self)@.wf() && old(self)@.backed_by(old(bank)@) {
                lemma_purchase_keeps_escrow(old(self)@, old(bank)@, who, kitty_id);
            }
        }
        match bank.transfer(who, seller, kitty_price) {
            Ok(()) => {},
            Err(_) => {
                return Err(Error::InsufficientPaymentBalance);
            },
        }
        self.kitty_transfer(bank, seller, who, kitty_id)
    }
}

/// Mixes two genomes under a selector, bit by bit.
pub fn mix_dna(selector: &[u8; 16], first: &[u8; 16], second: &[u8; 16]) -> (child: [u8; 16])
    ensures
        child@ == mix(selector@, first@, second@),
{
    let mut child: [u8; 16] = [0u8; 16];
    let mut i: usize = 0;
    while i < 16
        invariant
            0 <= i <= 16,
            forall|j: int|
                0 <= j < i ==> child@[j] == mix_byte(selector@[j], first@[j], second@[j]),
        decreases 16 - i,
    {
        child[i] = (selector[i] & first[i]) | (!selector[i] & second[i]);
        i += 1;
    }
    proof {
        assert(child@ =~= mix(selector@, first@, second@));
    }
    child
}

/// Every bit of a bred byte is the first parent's where the selector's bit
/// is set, and the second parent's where it is clear.
pub proof fn lemma_mix_chooses_bitwise(selector: u8, first: u8, second: u8, bit: u8)
    requires
        bit < 8,
    ensures
        (mix_byte(selector, first, second) >> bit) & 1 == (if (selector >> bit) & 1 == 1 {
            (first >> bit) & 1
        } else {
            (second >> bit) & 1
        }),
{
    assert(bit < 8 ==> (((selector & first) | (!selector & second)) >> bit) & 1 == (if (selector
        >> bit) & 1 == 1 {
        (first >> bit) & 1
    } else {
        (second >> bit) & 1
    })) by (bit_vector);
}

/// A kitty that was just created has its creator, and nobody else, as its
/// owner; the creator's reserve has grown by exactly the reserve amount, at
/// the cost of the free amount, and no other account has changed.
pub proof fn lemma_creation_gives_owner_and_escrow(
    ledger: Ledger,
    book: Book,
    who: AccountId,
    id: KittyIndex,
    dna: [u8; 16],
)
    requires
        book.wf(),
        book.can_reserve(who, ledger.reserve_amount),
    ensures
        ledger.created(who, id, dna).owner(id) == Some(who),
        ledger.created(who, id, dna).kitty(id) == Some(Kitty { dna, list_price: None }),
        book.reserve(who, ledger.reserve_amount).reserved(who) == book.reserved(who)
            + ledger.reserve_amount,
        book.reserve(who, ledger.reserve_amount).free(who) == book.free(who)
            - ledger.reserve_amount,
        forall|other: AccountId|
            other != who ==> #[trigger] book.reserve(who, ledger.reserve_amount).accounts[other]
                == book.accounts[other],
{
    assert(book.total(who) <= u64::MAX);
}

/// After a transfer between two accounts the recipient owns the kitty, the
/// recipient's reserve has grown by the reserve amount, and the sender's
/// reserve has shrunk by it, provided the sender's reserve held that much.
pub proof fn lemma_transfer_moves_escrow(
    ledger: Ledger,
    book: Book,
    sender: AccountId,
    recipient: AccountId,
    id: KittyIndex,
)
    requires
        book.wf(),
        ledger.transfer_refusal(book, sender, recipient, id) is None,
        sender != recipient,
        book.reserved(sender) >= ledger.reserve_amount,
    ensures
        ledger.transferred(sender, recipient, id).owner(id) == Some(recipient),
        book.reserve(recipient, ledger.reserve_amount).unreserve(
            sender,
            ledger.reserve_amount,
        ).reserved(sender) == book.reserved(sender) - ledger.reserve_amount,
        book.reserve(recipient, ledger.reserve_amount).unreserve(
            sender,
            ledger.reserve_amount,
        ).reserved(recipient) == book.reserved(recipient) + ledger.reserve_amount,
{
    assert(book.total(sender) <= u64::MAX);
    assert(book.total(recipient) <= u64::MAX);
}

/// Identifiers rise and are never used twice: the identifier of a new kitty
/// lies above every identifier on record, no record holds it yet, and the
/// kitty created after it gets the next one up.
pub proof fn lemma_identifiers_rise(ledger: Ledger, who: AccountId, dna: [u8; 16])
    requires
        ledger.wf(),
        ledger.next_id() <= u32::MAX,
    ensures
        !ledger.kitties.contains_key(ledger.next_id() as u32),
        !ledger.owners.contains_key(ledger.next_id() as u32),
        forall|id: KittyIndex| #[trigger]
            ledger.kitties.contains_key(id) ==> id < ledger.next_id(),
        ledger.created(who, ledger.next_id() as u32, dna).next_id() == ledger.next_id() + 1,
        ledger.created(who, ledger.next_id() as u32, dna).wf(),
{
}

/// A purchase of a known kitty that has an owner other than the buyer and
/// no listing price is refused as not for sale, whatever the balances.
pub proof fn lemma_unlisted_kitty_is_not_for_sale(
    ledger: Ledger,
    book: Book,
    who: AccountId,
    id: KittyIndex,
)
    requires
        ledger.owner(id) is Some,
        ledger.owner(id) != Some(who),
        ledger.kitty(id) is Some,
        ledger.kitties[id].list_price is None,
    ensures
        ledger.buy_refusal(book, who, id) == Some(Error::KittyNotForSale),
{
}

/// Breeding a kitty with itself is refused for that reason, known or not;
/// breeding two distinct known kitties is never refused on account of the
/// parents.
pub proof fn lemma_breeding_parents(
    ledger: Ledger,
    book: Book,
    who: AccountId,
    first: KittyIndex,
    second: KittyIndex,
)
    ensures
        first == second ==> ledger.breed_refusal(book, who, first, second) == Some(
            Error::SameParentIndex,
        ),
        first != second && ledger.kitty(first) is Some && ledger.kitty(second) is Some ==> {
            &&& ledger.breed_refusal(book, who, first, second) != Some(Error::SameParentIndex)
            &&& ledger.breed_refusal(book, who, first, second) != Some(Error::InvalidKittyIndex)
        },
{
}

/// The kitties of one account are finitely many.
pub proof fn lemma_owned_is_finite(ledger: Ledger, who: AccountId)
    requires
        ledger.owners.dom().finite(),
    ensures
        ledger.owned_by(who).finite(),
{
    assert(ledger.owned_by(who).subset_of(ledger.owners.dom()));
    vstd::set_lib::lemma_set_subset_finite(ledger.owners.dom(), ledger.owned_by(who));
}

/// A creation under the next identifier uses an identifier that no record
/// holds yet, and keeps every ownership backed.
pub proof fn lemma_creation_keeps_escrow(ledger: Ledger, book: Book, who: AccountId, dna: [u8; 16])
    requires
        ledger.wf(),
        book.wf(),
        ledger.backed_by(book),
        ledger.create_refusal(book, who) is None,
    ensures
        !ledger.kitties.contains_key(ledger.next_id() as u32),
        !ledger.owners.contains_key(ledger.next_id() as u32),
        ledger.created(who, ledger.next_id() as u32, dna).wf(),
        ledger.created(who, ledger.next_id() as u32, dna).backed_by(
            book.reserve(who, ledger.reserve_amount),
        ),
        ledger.matched_by(book) ==> ledger.created(who, ledger.next_id() as u32, dna).matched_by(
            book.reserve(who, ledger.reserve_amount),
        ),
{
    let id = ledger.next_id() as u32;
    let after = ledger.created(who, id, dna);
    let paid = book.reserve(who, ledger.reserve_amount);
    assert(book.total(who) <= u64::MAX);
    if ledger.matched_by(book) {
        assert forall|other: AccountId|
            paid.reserved(other) == after.reserve_amount * (#[trigger] after.owned_by(
                other,
            )).len() by {
            lemma_owned_is_finite(ledger, other);
            assert(book.reserved(other) == ledger.reserve_amount * ledger.owned_by(other).len());
            if other == who {
                assert(after.owned_by(who) =~= ledger.owned_by(who).insert(id));
                let held = ledger.owned_by(who).len();
                assert(ledger.reserve_amount * (held + 1) == ledger.reserve_amount * held
                    + ledger.reserve_amount) by (nonlinear_arith);
            } else {
                assert(after.owned_by(other) =~= ledger.owned_by(other));
            }
        }
    }
    assert forall|other: AccountId|
        paid.reserved(other) >= after.reserve_amount * (#[trigger] after.owned_by(other)).len() by {
        lemma_owned_is_finite(ledger, other);
        assert(book.reserved(other) >= ledger.reserve_amount * ledger.owned_by(other).len());
        if other == who {
            assert(after.owned_by(who) =~= ledger.owned_by(who).insert(id));
            let held = ledger.owned_by(who).len();
            assert(ledger.reserve_amount * (held + 1) == ledger.reserve_amount * held
                + ledger.reserve_amount) by (nonlinear_arith);
        } else {
            assert(after.owned_by(other) =~= ledger.owned_by(other));
        }
    }
}

/// A transfer keeps every ownership backed.
pub proof fn lemma_transfer_keeps_escrow(
    ledger: Ledger,
    book: Book,
    sender: AccountId,
    recipient: AccountId,
    id: KittyIndex,
)
    requires
        ledger.wf(),
        book.wf(),
        ledger.backed_by(book),
        ledger.transfer_refusal(book, sender, recipient, id) is None,
    ensures
        ledger.transferred(sender, recipient, id).wf(),
        ledger.transferred(sender, recipient, id).backed_by(
            book.reserve(recipient, ledger.reserve_amount).unreserve(
                sender,
                ledger.reserve_amount,
            ),
        ),
        ledger.matched_by(book) ==> ledger.transferred(sender, recipient, id).matched_by(
            book.reserve(recipient, ledger.reserve_amount).unreserve(
                sender,
                ledger.reserve_amount,
            ),
        ),
{
    let amount = ledger.reserve_amount;
    let after = ledger.transferred(sender, recipient, id);
    let paid = book.reserve(recipient, amount);
    let settled = paid.unreserve(sender, amount);
    assert(book.total(sender) <= u64::MAX);
    assert(book.total(recipient) <= u64::MAX);
    lemma_owned_is_finite(ledger, sender);
    assert(ledger.owned_by(sender).contains(id));
    let held = ledger.owned_by(sender).len();
    assert(book.reserved(sender) >= amount * held);
    assert(held >= 1 ==> amount * held >= amount) by (nonlinear_arith);
    assert(after.owners.dom() =~= ledger.owners.dom());
    assert forall|other: AccountId|
        settled.reserved(other) >= after.reserve_amount * (#[trigger] after.owned_by(other)).len(
        ) by {
        lemma_owned_is_finite(ledger, other);
        assert(book.reserved(other) >= amount * ledger.owned_by(other).len());
        let had = ledger.owned_by(other).len();
        if sender == recipient {
            assert(after.owned_by(other) =~= ledger.owned_by(other));
        } else if other == sender {
            assert(after.owned_by(other) =~= ledger.owned_by(other).remove(id));
            assert(amount * (had - 1) == amount * had - amount) by (nonlinear_arith);
        } else if other == recipient {
            assert(after.owned_by(other) =~= ledger.owned_by(other).insert(id));
            assert(amount * (had + 1) == amount * had + amount) by (nonlinear_arith);
        } else {
            assert(after.owned_by(other) =~= ledger.owned_by(other));
        }
    }
    if ledger.matched_by(book) {
        assert forall|other: AccountId|
            settled.reserved(other) == after.reserve_amount * (#[trigger] after.owned_by(
                other,
            )).len() by {
            lemma_owned_is_finite(ledger, other);
            assert(book.reserved(other) == amount * ledger.owned_by(other).len());
            let had = ledger.owned_by(other).len();
            if sender == recipient {
                assert(after.owned_by(other) =~= ledger.owned_by(other));
            } else if other == sender {
                assert(after.owned_by(other) =~= ledger.owned_by(other).remove(id));
                assert(amount * (had - 1) == amount * had - amount) by (nonlinear_arith);
            } else if other == recipient {
                assert(after.owned_by(other) =~= ledger.owned_by(other).insert(id));
                assert(amount * (had + 1) == amount * had + amount) by (nonlinear_arith);
            } else {
                assert(after.owned_by(other) =~= ledger.owned_by(other));
            }
        }
    }
}

/// A listing changes no ownership, keeps the records in order, and leaves
/// backed what was backed.
pub proof fn lemma_listing_keeps_escrow(
    ledger: Ledger,
    book: Book,
    who: AccountId,
    id: KittyIndex,
    price: Balance,
)
    requires
        ledger.wf(),
        ledger.sell_refusal(who, id) is None,
    ensures
        ledger.listed(who, id, price).wf(),
        ledger.listed(who, id, price).owners == ledger.owners,
        ledger.backed_by(book) ==> ledger.listed(who, id, price).backed_by(book),
        ledger.matched_by(book) ==> ledger.listed(who, id, price).matched_by(book),
{
    let after = ledger.listed(who, id, price);
    if ledger.matched_by(book) {
        assert forall|other: AccountId|
            book.reserved(other) == after.reserve_amount * (#[trigger] after.owned_by(
                other,
            )).len() by {
            assert(after.owned_by(other) =~= ledger.owned_by(other));
        }
    }
    if ledger.backed_by(book) {
        assert forall|other: AccountId|
            book.reserved(other) >= after.reserve_amount * (#[trigger] after.owned_by(
                other,
            )).len() by {
            assert(after.owned_by(other) =~= ledger.owned_by(other));
        }
    }
}

/// A purchase keeps every ownership backed: the payment moves free amounts
/// only, and the handover that follows is a transfer.
pub proof fn lemma_purchase_keeps_escrow(ledger: Ledger, book: Book, who: AccountId, id: KittyIndex)
    requires
        ledger.wf(),
        book.wf(),
        ledger.backed_by(book),
        ledger.buy_refusal(book, who, id) is None,
    ensures
        ledger.transferred(ledger.owners[id], who, id).wf(),
        ledger.transferred(ledger.owners[id], who, id).backed_by(
            book.transfer(who, ledger.owners[id], ledger.kitties[id].list_price.unwrap()).reserve(
                who,
                ledger.reserve_amount,
            ).unreserve(ledger.owners[id], ledger.reserve_amount),
        ),
        ledger.matched_by(book) ==> ledger.transferred(ledger.owners[id], who, id).matched_by(
            book.transfer(who, ledger.owners[id], ledger.kitties[id].list_price.unwrap()).reserve(
                who,
                ledger.reserve_amount,
            ).unreserve(ledger.owners[id], ledger.reserve_amount),
        ),
{
    let owner = ledger.owners[id];
    let price = ledger.kitties[id].list_price.unwrap();
    let paid = book.transfer(who, owner, price);
    assert(book.total(who) <= u64::MAX);
    assert(book.total(owner) <= u64::MAX);
    assert forall|other: AccountId| #[trigger] paid.total(other) <= u64::MAX by {
        assert(book.total(other) <= u64::MAX);
    }
    assert forall|other: AccountId|
        paid.reserved(other) >= ledger.reserve_amount * (#[trigger] ledger.owned_by(other)).len(
        ) by {
        assert(book.reserved(other) >= ledger.reserve_amount * ledger.owned_by(other).len());
    }
    if ledger.matched_by(book) {
        assert forall|other: AccountId|
            paid.reserved(other) == ledger.reserve_amount * (#[trigger] ledger.owned_by(
                other,
            )).len() by {
            assert(book.reserved(other) == ledger.reserve_amount * ledger.owned_by(other).len());
        }
    }
    lemma_transfer_keeps_escrow(ledger, paid, owner, who, id);
}

/// A ledger without kitties is in order, and any book backs it; a book
/// without reserves matches it.
pub proof fn lemma_empty_ledger_is_backed(reserve_amount: Balance, book: Book)
    ensures
        Ledger::empty(reserve_amount).wf(),
        Ledger::empty(reserve_amount).backed_by(book),
        (forall|who: AccountId| #[trigger] book.reserved(who) == 0) ==> Ledger::empty(
            reserve_amount,
        ).matched_by(book),
{
    let ledger = Ledger::empty(reserve_amount);
    assert forall|who: AccountId|
        book.reserved(who) >= ledger.reserve_amount * (#[trigger] ledger.owned_by(who)).len(
        ) by {
        assert(ledger.owned_by(who) =~= Set::<KittyIndex>::empty());
    }
    if forall|who: AccountId| #[trigger] book.reserved(who) == 0 {
        assert forall|who: AccountId|
            book.reserved(who) == ledger.reserve_amount * (#[trigger] ledger.owned_by(
                who,
            )).len() by {
            assert(ledger.owned_by(who) =~= Set::<KittyIndex>::empty());
            assert(book.reserved(who) == 0);
        }
    }
}

} // verus!
