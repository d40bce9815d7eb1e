//! Pure counting and majority-decision logic (`QuorumTally`).
//!
//! The decision rule is deliberately asymmetric: `Attack` needs a strict
//! majority, every tie (including the degenerate no-votes case) resolves to
//! `Retreat`.

use vstd::prelude::*;

verus! {

broadcast use vstd::seq_lib::to_multiset_build, vstd::seq_lib::to_multiset_contains;

/// One of the two battle orders; also the kind of a vote and of a decision.
#[derive(Clone, Copy, PartialEq, Eq, Structural, Debug)]
pub enum Action {
    Attack,
    Retreat,
}

impl Action {
    /// The opposite order: the fixed lie an adversarial peer broadcasts.
    pub open spec fn spec_negate(self) -> Action {
        match self {
            Action::Attack => Action::Retreat,
            Action::Retreat => Action::Attack,
        }
    }

    pub fn negate(self) -> (r: Action)
        ensures
            r == self.spec_negate(),
    {
        match self {
            Action::Attack => Action::Retreat,
            Action::Retreat => Action::Attack,
        }
    }
}

/// How often a given vote kind occurs in a sequence of counted votes.
pub open spec fn vote_count(votes: Seq<Action>, kind: Action) -> nat {
    votes.to_multiset().count(kind)
}

/// The majority decision for given counts: `Attack` only on a strict
/// majority, otherwise `Retreat`.
pub open spec fn spec_decision(attack: nat, retreat: nat) -> Action {
    if attack > retreat {
        Action::Attack
    } else {
        Action::Retreat
    }
}

/// The decision reached over a whole sequence of counted votes.
pub open spec fn spec_tally(votes: Seq<Action>) -> Action {
    spec_decision(vote_count(votes, Action::Attack), vote_count(votes, Action::Retreat))
}

/// The tally never depends on arrival order: two vote sequences with the same
/// multiset of votes decide the same way.
pub proof fn lemma_tally_permutation_invariant(v1: Seq<Action>, v2: Seq<Action>)
    requires
        v1.to_multiset() == v2.to_multiset(),
    ensures
        spec_tally(v1) == spec_tally(v2),
{
}

/// Running attack/retreat counters for one open session.
#[derive(Clone, Copy, PartialEq, Eq, Structural, Debug)]
pub struct QuorumTally {
    attack: u32,
    retreat: u32,
}

impl QuorumTally {
    pub closed spec fn attack_count(self) -> u32 {
        self.attack
    }

    pub closed spec fn retreat_count(self) -> u32 {
        self.retreat
    }

    /// Total number of votes counted so far.
    pub open spec fn total(self) -> int {
        self.attack_count() + self.retreat_count()
    }

    pub fn new() -> (t: QuorumTally)
        ensures
            t.attack_count() == 0,
            t.retreat_count() == 0,
    {
        QuorumTally { attack: 0, retreat: 0 }
    }

    pub fn attack(&self) -> (n: u32)
        ensures
            n == self.attack_count(),
    {
        self.attack
    }

    pub fn retreat(&self) -> (n: u32)
        ensures
            n == self.retreat_count(),
    {
        self.retreat
    }

    /// Count one more vote of the given kind.
    pub fn record(&mut self, vote: Action)
        requires
            old(self).total() < u32::MAX,
        ensures
            vote == Action::Attack ==> final(self).attack_count()
                == old(self).attack_count() + 1
                && final(self).retreat_count() == old(self).retreat_count(),
            vote == Action::Retreat ==> final(self).retreat_count()
                == old(self).retreat_count() + 1
                && final(self).attack_count() == old(self).attack_count(),
            final(self).total() == old(self).total() + 1,
    {
        match vote {
            Action::Attack => {
                self.attack = self.attack + 1;
            },
            Action::Retreat => {
                self.retreat = self.retreat + 1;
            },
        }
    }

    /// The majority decision over the counted votes.
    pub fn decide(&self) -> (d: Action)
        ensures
            d == spec_decision(self.attack_count() as nat, self.retreat_count() as nat),
    {
        if self.attack > self.retreat {
            Action::Attack
        } else {
            Action::Retreat
        }
    }
}

/// Count a whole sequence of votes and return `(decision, attack, retreat)`.
pub fn tally(votes: &Vec<Action>) -> (r: (Action, u32, u32))
    requires
        votes@.len() <= u32::MAX,
    ensures
        r.0 == spec_tally(votes@),
        r.1 == vote_count(votes@, Action::Attack),
        r.2 == vote_count(votes@, Action::Retreat),
{
    let mut t = QuorumTally::new();
    let mut i: usize = 0;
    proof {
        assert(votes@.take(0) =~= Seq::<Action>::empty());
        assert(!Seq::<Action>::empty().contains(Action::Attack));
        assert(!Seq::<Action>::empty().contains(Action::Retreat));
    }
    while i < votes.len()
        invariant
            0 <= i <= votes@.len(),
            votes@.len() <= u32::MAX,
            t.total() == i,
            t.attack_count() == vote_count(votes@.take(i as int), Action::Attack),
            t.retreat_count() == vote_count(votes@.take(i as int), Action::Retreat),
        decreases votes@.len() - i,
    {
        let v = votes[i];
        proof {
            assert(votes@.take(i + 1) =~= votes@.take(i as int).push(votes@[i as int]));
        }
        t.record(v);
        i = i + 1;
    }
    proof {
        assert(votes@.take(votes@.len() as int) =~= votes@);
    }
    let d = t.decide();
    (d, t.attack(), t.retreat())
}

} // verus!
