//! A proof-of-existence registry: who claimed which bytes, and when.
//!
//! A claim is held at most once. Its owner may revoke it or hand it on.

use vstd::prelude::*;

verus! {

pub type AccountId = u64;

pub type BlockNumber = u64;

/// Why an operation was refused.
#[derive(Clone, Copy, Debug, PartialEq, Eq, Structural)]
pub enum Error {
    /// The claim is already held.
    ProofAlreadyExist,
    /// Nobody holds the claim.
    ClaimNotExist,
    /// Somebody else holds the claim.
    NotClaimOwner,
    /// The claim is longer than the registry takes.
    ClaimLengthLimitExceed,
}

/// One claim on record: its bytes, its owner, and the block in which the
/// owner got it.
pub struct Proof {
    pub claim: Seq<u8>,
    pub owner: AccountId,
    pub block: BlockNumber,
}

/// The mathematical content of the registry: its records, oldest first, and
/// the greatest length of a claim.
pub struct Registry {
    pub proofs: Seq<Proof>,
    pub claim_length_limit: usize,
}

impl Registry {
    /// No claim is on record twice.
    pub open spec fn wf(self) -> bool {
        forall|i: int, j: int|
            0 <= i < j < self.proofs.len() ==> (#[trigger] self.proofs[i]).claim != (
            #[trigger] self.proofs[j]).claim
    }

    /// Whether `claim` is on record.
    pub open spec fn holds(self, claim: Seq<u8>) -> bool {
        exists|i: int| 0 <= i < self.proofs.len() && (#[trigger] self.proofs[i]).claim == claim
    }

    /// Where `claim` is on record, if it is.
    pub open spec fn position(self, claim: Seq<u8>) -> int {
        choose|i: int| 0 <= i < self.proofs.len() && (#[trigger] self.proofs[i]).claim == claim
    }

    /// The owner of `claim` and the block of its record, if it is on record.
    pub open spec fn proof_of(self, claim: Seq<u8>) -> Option<(AccountId, BlockNumber)> {
        if self.holds(claim) {
            Some((self.proofs[self.position(claim)].owner, self.proofs[self.position(claim)].block))
        } else {
            None
        }
    }

    /// The registry after `sender` claimed `claim` in block `block`.
    pub open spec fn created(self, sender: AccountId, claim: Seq<u8>, block: BlockNumber) -> Registry {
        Registry {
            proofs: self.proofs.push(Proof { claim, owner: sender, block }),
            claim_length_limit: self.claim_length_limit,
        }
    }

    /// The registry after the record of `claim` was struck.
    pub open spec fn revoked(self, claim: Seq<u8>) -> Registry {
        Registry {
            proofs: self.proofs.remove(self.position(claim)),
            claim_length_limit: self.claim_length_limit,
        }
    }

    /// The registry after `claim` went to `recipient` in block `block`.
    pub open spec fn transferred(
        self,
        claim: Seq<u8>,
        recipient: AccountId,
        block: BlockNumber,
    ) -> Registry {
        Registry {
            proofs: self.proofs.update(
                self.position(claim),
                Proof { claim, owner: recipient, block },
            ),
            claim_length_limit: self.claim_length_limit,
        }
    }

    /// Why a new claim is refused, if it is: first for its length, then
    /// where it is already held.
    pub open spec fn create_refusal(self, claim: Seq<u8>) -> Option<Error> {
        if claim.len() > self.claim_length_limit {
            Some(Error::ClaimLengthLimitExceed)
        } else if self.holds(claim) {
            Some(Error::ProofAlreadyExist)
        } else {
            None
        }
    }

    /// Why `sender` may not dispose of `claim`, if so: first where nobody
    /// holds it, then where somebody else does.
    pub open spec fn owner_refusal(self, sender: AccountId, claim: Seq<u8>) -> Option<Error> {
        if !self.holds(claim) {
            Some(Error::ClaimNotExist)
        } else if self.proofs[self.position(claim)].owner != sender {
            Some(Error::NotClaimOwner)
        } else {
            None
        }
    }
}

/// In a registry without doubles, a claim found at some place is on record
/// at that place and no other.
pub proof fn lemma_position_is_unique(registry: Registry, claim: Seq<u8>, place: int)
    requires
        registry.wf(),
        0 <= place < registry.proofs.len(),
        registry.proofs[place].claim == claim,
    ensures
        registry.holds(claim),
        registry.position(claim) == place,
{
    let found = registry.position(claim);
    if found < place {
        assert(registry.proofs[found].claim != registry.proofs[place].claim);
    } else if place < found {
        assert(registry.proofs[place].claim != registry.proofs[found].claim);
    }
}

/// A new claim belongs to its sender from the block of its creation, no
/// other claim changes, and no claim is on record twice afterwards.
pub proof fn lemma_created_claim_is_held(
    registry: Registry,
    sender: AccountId,
    claim: Seq<u8>,
    block: BlockNumber,
    other: Seq<u8>,
)
    requires
        registry.wf(),
        !registry.holds(claim),
    ensures
        registry.created(sender, claim, block).wf(),
        registry.created(sender, claim, block).proof_of(claim) == Some((sender, block)),
        other != claim ==> registry.created(sender, claim, block).proof_of(other)
            == registry.proof_of(other),
{
    let after = registry.created(sender, claim, block);
    let last = registry.proofs.len() as int;
    assert forall|i: int, j: int| 0 <= i < j < after.proofs.len() implies (
    #[trigger] after.proofs[i]).claim != (#[trigger] after.proofs[j]).claim by {
        if j == last {
            assert(registry.proofs[i].claim != claim);
        } else {
            assert(registry.proofs[i].claim != registry.proofs[j].claim);
        }
    }
    assert(after.proofs[last].claim == claim);
    lemma_position_is_unique(after, claim, last);
    if other != claim {
        if registry.holds(other) {
            let place = registry.position(other);
            assert(after.proofs[place].claim == other);
            lemma_position_is_unique(after, other, place);
        } else if after.holds(other) {
            let place = after.position(other);
            assert(registry.proofs[place].claim == other);
        }
    }
}

/// A revoked claim is no longer on record, no other claim changes, and no
/// claim is on record twice afterwards.
pub proof fn lemma_revoked_claim_is_gone(registry: Registry, claim: Seq<u8>, other: Seq<u8>)
    requires
        registry.wf(),
        registry.holds(claim),
    ensures
        registry.revoked(claim).wf(),
        registry.revoked(claim).proof_of(claim) is None,
        other != claim ==> registry.revoked(claim).proof_of(other) == registry.proof_of(other),
{
    let after = registry.revoked(claim);
    let gone = registry.position(claim);
    assert forall|i: int| 0 <= i < after.proofs.len() implies (#[trigger] after.proofs[i])
        == registry.proofs[if i < gone {
        i
    } else {
        i + 1
    }] by {}
    assert forall|i: int, j: int| 0 <= i < j < after.proofs.len() implies (
    #[trigger] after.proofs[i]).claim != (#[trigger] after.proofs[j]).claim by {
        let before_i = if i < gone {
            i
        } else {
            i + 1
        };
        let before_j = if j < gone {
            j
        } else {
            j + 1
        };
        assert(registry.proofs[before_i].claim != registry.proofs[before_j].claim);
    }
    if after.holds(claim) {
        let place = after.position(claim);
        let before = if place < gone {
            place
        } else {
            place + 1
        };
        assert(after.proofs[place] == registry.proofs[before]);
        lemma_position_is_unique(registry, claim, before);
    }
    if other != claim {
        if registry.holds(other) {
            let place = registry.position(other);
            let now = if place < gone {
                place
            } else {
                place - 1
            };
            assert(after.proofs[now] == registry.proofs[place]);
            lemma_position_is_unique(after, other, now);
        } else if after.holds(other) {
            let place = after.position(other);
            let before = if place < gone {
                place
            } else {
                place + 1
            };
            assert(after.proofs[place] == registry.proofs[before]);
            assert(registry.proofs[before].claim == other);
        }
    }
}

/// A claim handed on belongs to the recipient from the block of the
/// handover, no other claim changes, and no claim is on record twice
/// afterwards.
pub proof fn lemma_transferred_claim_has_new_owner(
    registry: Registry,
    claim: Seq<u8>,
    recipient: AccountId,
    block: BlockNumber,
    other: Seq<u8>,
)
    requires
        registry.wf(),
        registry.holds(claim),
    ensures
        registry.transferred(claim, recipient, block).wf(),
        registry.transferred(claim, recipient, block).proof_of(claim) == Some((recipient, block)),
        other != claim ==> registry.transferred(claim, recipient, block).proof_of(other)
            == registry.proof_of(other),
{
    let after = registry.transferred(claim, recipient, block);
    let place = registry.position(claim);
    assert forall|i: int| 0 <= i < after.proofs.len() implies (#[trigger] after.proofs[i]).claim
        == registry.proofs[i].claim by {}
    assert forall|i: int, j: int| 0 <= i < j < after.proofs.len() implies (
    #[trigger] after.proofs[i]).claim != (#[trigger] after.proofs[j]).claim by {
        assert(registry.proofs[i].claim != registry.proofs[j].claim);
    }
    assert(after.proofs[place].claim == claim);
    lemma_position_is_unique(after, claim, place);
    if other != claim {
        if registry.holds(other) {
            let there = registry.position(other);
            assert(after.proofs[there].claim == other);
            lemma_position_is_unique(after, other, there);
        } else if after.holds(other) {
            let there = after.position(other);
            assert(registry.proofs[there].claim == other);
        }
    }
}

struct Entry {
    claim: Vec<u8>,
    owner: AccountId,
    block: BlockNumber,
}

impl View for Entry {
    type V = Proof;

    closed spec fn view(&self) -> Proof {
        Proof { claim: self.claim@, owner: self.owner, block: self.block }
    }
}

/// The registry.
pub struct Pallet {
    proofs: Vec<Entry>,
    claim_length_limit: usize,
}

impl View for Pallet {
    type V = Registry;

    closed spec fn view(&self) -> Registry {
        Registry {
            proofs: Seq::new(self.proofs@.len(), |i: int| self.proofs@[i]@),
            claim_length_limit: self.claim_length_limit,
        }
    }
}

/// Whether two byte strings are the same.
pub fn same_bytes(left: &Vec<u8>, right: &Vec<u8>) -> (same: bool)
    ensures
        same == (left@ == right@),
{
    if left.len() != right.len() {
        return false;
    }
    let mut i: usize = 0;
    while i < left.len()
        invariant
            0 <= i <= left.len(),
            left.len() == right.len(),
            forall|j: int| 0 <= j < i ==> left@[j] == right@[j],
        decreases left.len() - i,
    {
        if left[i] != right[i] {
            return false;
        }
        i += 1;
    }
    proof {
        assert(left@ =~= right@);
    }
    true
}

impl Pallet {
    /// An empty registry that takes claims of up to `claim_length_limit`
    /// bytes.
    pub fn new(claim_length_limit: usize) -> (pallet: Pallet)
        ensures
            pallet@ == (Registry { proofs: Seq::empty(), claim_length_limit }),
            pallet@.wf(),
    {
        let pallet = Pallet { proofs: Vec::new(), claim_length_limit };
        proof {
            assert(pallet@.proofs =~= Seq::empty());
        }
        pallet
    }

    fn find(&self, claim: &Vec<u8>) -> (place: Option<usize>)
        requires
            self@.wf(),
        ensures
            match place {
                Some(i) => self@.holds(claim@) && i == self@.position(claim@),
                None => !self@.holds(claim@),
            },
    {
        let mut i: usize = 0;
        while i < self.proofs.len()
            invariant
                0 <= i <= self.proofs.len(),
                self@.wf(),
                forall|j: int| 0 <= j < i ==> (#[trigger] self@.proofs[j]).claim != claim@,
            decreases self.proofs.len() - i,
        {
            if same_bytes(&self.proofs[i].claim, claim) {
                proof {
                    assert(self@.proofs[i as int].claim == claim@);
                    lemma_position_is_unique(self@, claim@, i as int);
                }
                return Some(i);
            }
            i += 1;
        }
        None
    }

    /// The owner of `claim` and the block of its record, if it is on record.
    pub fn proofs(&self, claim: &Vec<u8>) -> (proof_of: Option<(AccountId, BlockNumber)>)
        requires
            self@.wf(),
        ensures
            proof_of == self@.proof_of(claim@),
    {
        match self.find(claim) {
            Some(i) => Some((self.proofs[i].owner, self.proofs[i].block)),
            None => None,
        }
    }

    /// Puts `claim` on record for `sender` in block `block_number`.
    pub fn create_claim(&mut self, sender: AccountId, claim: Vec<u8>, block_number: BlockNumber) -> (result:
        Result<(), Error>)
        requires
            old(self)@.wf(),
        ensures
            final(self)@.wf(),
            match result {
                Ok(()) => {
                    &&& old(self)@.create_refusal(claim@) is None
                    &&& final(self)@ == old(self)@.created(sender, claim@, block_number)
                },
                Err(error) => {
                    &&& old(self)@.create_refusal(claim@) == Some(error)
                    &&& final(self)@ == old(self)@
                },
            },
    {
        if claim.len() > self.claim_length_limit {
            return Err(Error::ClaimLengthLimitExceed);
        }
        if self.find(&claim).is_some() {
            return Err(Error::ProofAlreadyExist);
        }
        proof {
            lemma_created_claim_is_held(old(self)@, sender, claim@, block_number, claim@);
        }
        self.proofs.push(Entry { claim, owner: sender, block: block_number });
        proof {
            assert(self@.proofs =~= old(self)@.created(sender, claim@, block_number).proofs);
        }
        Ok(())
    }

    /// Strikes the record of `claim`, which `sender` must own.
    pub fn revoke_claim(&mut self, sender: AccountId, claim: Vec<u8>) -> (result: Result<(), Error>)
        requires
            old(self)@.wf(),
        ensures
            final(self)@.wf(),
            match result {
                Ok(()) => {
                    &&& old(self)@.owner_refusal(sender, claim@) is None
                    &&& final(self)@ == old(self)@.revoked(claim@)
                },
                Err(error) => {
                    &&& old(self)@.owner_refusal(sender, claim@) == Some(error)
                    &&& final(self)@ == old(self)@
                },
            },
    {
        let place = match self.find(&claim) {
            Some(i) => i,
            None => {
                return Err(Error::ClaimNotExist);
            },
        };
        if self.proofs[place].owner != sender {
            return Err(Error::NotClaimOwner);
        }
        proof {
            lemma_revoked_claim_is_gone(old(self)@, claim@, claim@);
        }
        self.proofs.remove(place);
        proof {
            assert(self@.proofs =~= old(self)@.revoked(claim@).proofs);
        }
        Ok(())
    }

    /// Hands `claim`, which `sender` must own, to `recipient` in block
    /// `block_number`.
    pub fn transfer_claim(
        &mut self,
        sender: AccountId,
        claim: Vec<u8>,
        recipient: AccountId,
        block_number: BlockNumber,
    ) -> (result: Result<(), Error>)
        requires
            old(self)@.wf(),
        ensures
            final(self)@.wf(),
            match result {
                Ok(()) => {
                    &&& old(self)@.owner_refusal(sender, claim@) is None
                    &&& final(self)@ == old(self)@.transferred(claim@, recipient, block_number)
                },
                Err(error) => {
                    &&& old(self)@.owner_refusal(sender, claim@) == Some(error)
                    &&& final(self)@ == old(self)@
                },
            },
    {
        let place = match self.find(&claim) {
            Some(i) => i,
            None => {
                return Err(Error::ClaimNotExist);
            },
        };
        if self.proofs[place].owner != sender {
            return Err(Error::NotClaimOwner);
        }
        proof {
            lemma_transferred_claim_has_new_owner(
                old(self)@,
                claim@,
                recipient,
                block_number,
                claim@,
            );
        }
        self.proofs.remove(place);
        self.proofs.insert(place, Entry { claim, owner: recipient, block: block_number });
        proof {
            assert(self@.proofs =~= old(self)@.transferred(claim@, recipient, block_number).proofs);
        }
        Ok(())
    }
}

} // verus!
