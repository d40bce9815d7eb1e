//! View and leader bookkeeping (`ViewTracker`).
//!
//! A view is a numbered epoch with at most one recognized leader. The
//! tracker's own view number never decreases. A single leader claim is not
//! trusted: at least `f + 1` distinct peers must endorse the same
//! `(view, leader)` pair before the leader is accepted, where `f` is the
//! configured maximum tolerated adversarial peer count. Conflicting claims
//! for the same view simply accumulate per candidate until one candidate
//! reaches quorum; a claim for a strictly greater view discards the current
//! leader and every buffered endorsement.

use vstd::prelude::*;

use crate::peer::PeerId;

verus! {

/// What the tracker did with one observed leader claim.
#[derive(Clone, Copy, PartialEq, Eq, Structural, Debug)]
pub enum ClaimOutcome {
    /// The claim referenced a view behind the tracker's current view.
    Stale,
    /// A leader is already accepted for the claimed (current) view.
    AlreadyAccepted,
    /// The claim referenced a strictly greater view: the tracker advanced to
    /// it, discarding the previous leader and all buffered endorsements.
    ViewAdvanced,
    /// The endorsement was buffered; the candidate has not reached quorum.
    Buffered,
    /// The endorsement completed a quorum of `f + 1` distinct endorsers:
    /// the claimed leader is now accepted for the current view.
    QuorumReached,
}

/// How many of the buffered endorsements name the given leader candidate.
pub open spec fn endorsement_count(claims: Seq<(PeerId, PeerId)>, leader: PeerId) -> nat
    decreases claims.len(),
{
    if claims.len() == 0 {
        0
    } else {
        endorsement_count(claims.drop_last(), leader) + (if claims.last().0 == leader {
            1nat
        } else {
            0nat
        })
    }
}

/// Tracks the current view number and the leader (if any) recognized for it.
pub struct ViewTracker {
    view: u64,
    leader: Option<PeerId>,
    max_faulty: u64,
    /// Buffered endorsements for the current, still undecided view, as
    /// `(claimed leader, endorsing peer)` pairs; each pair at most once.
    claims: Vec<(PeerId, PeerId)>,
}

impl ViewTracker {
    pub closed spec fn spec_view(self) -> u64 {
        self.view
    }

    pub closed spec fn spec_leader(self) -> Option<PeerId> {
        self.leader
    }

    pub closed spec fn spec_max_faulty(self) -> u64 {
        self.max_faulty
    }

    pub closed spec fn spec_claims(self) -> Seq<(PeerId, PeerId)> {
        self.claims@
    }

    /// Buffered endorsement pairs are pairwise distinct, so each endorsing
    /// peer is counted at most once per candidate.
    pub open spec fn wf(self) -> bool {
        forall|i: int, j: int|
            0 <= i < j < self.spec_claims().len() ==> #[trigger] self.spec_claims()[i]
                != #[trigger] self.spec_claims()[j]
    }

    /// A fresh tracker: no leader recognized for view 0, tolerating at most
    /// `max_faulty` adversarial peers.
    pub fn new(max_faulty: u64) -> (t: ViewTracker)
        ensures
            t.spec_view() == 0,
            t.spec_leader() is None,
            t.spec_max_faulty() == max_faulty,
            t.spec_claims() == Seq::<(PeerId, PeerId)>::empty(),
            t.wf(),
    {
        ViewTracker { view: 0, leader: None, max_faulty, claims: Vec::new() }
    }

    pub fn current_view(&self) -> (v: u64)
        ensures
            v == self.spec_view(),
    {
        self.view
    }

    pub fn accepted_leader(&self) -> (l: Option<PeerId>)
        ensures
            l == self.spec_leader(),
    {
        self.leader
    }

    pub fn max_faulty(&self) -> (f: u64)
        ensures
            f == self.spec_max_faulty(),
    {
        self.max_faulty
    }

    /// Process one leader claim: the `endorser` peer asserts that `leader`
    /// is (or should be) the leader of view `claim_view`.
    ///
    /// The tracker's view number never decreases, a claim for a view behind
    /// the current one changes nothing, and a leader is accepted only when
    /// `f + 1` distinct endorsers agree on the same candidate.
    pub fn observe_claim(&mut self, claim_view: u64, leader: PeerId, endorser: PeerId) -> (o:
        ClaimOutcome)
        requires
            old(self).wf(),
        ensures
            final(self).wf(),
            final(self).spec_max_faulty() == old(self).spec_max_faulty(),
            final(self).spec_view() >= old(self).spec_view(),
            claim_view < old(self).spec_view() ==> *final(self) == *old(self) && o
                == ClaimOutcome::Stale,
            claim_view > old(self).spec_view() ==> {
                &&& final(self).spec_view() == claim_view
                &&& final(self).spec_leader() is None
                &&& final(self).spec_claims() =~= Seq::<(PeerId, PeerId)>::empty()
                &&& o == ClaimOutcome::ViewAdvanced
            },
            claim_view == old(self).spec_view() && old(self).spec_leader() is Some ==> *final(self)
                == *old(self) && o == ClaimOutcome::AlreadyAccepted,
            claim_view == old(self).spec_view() && old(self).spec_leader() is None ==> {
                &&& final(self).spec_view() == old(self).spec_view()
                &&& final(self).spec_claims() == (if old(self).spec_claims().contains(
                    (leader, endorser),
                ) {
                    old(self).spec_claims()
                } else {
                    old(self).spec_claims().push((leader, endorser))
                })
                &&& final(self).spec_leader() == (if endorsement_count(
                    final(self).spec_claims(),
                    leader,
                ) > old(self).spec_max_faulty() {
                    Some(leader)
                } else {
                    None::<PeerId>
                })
                &&& o == (if final(self).spec_leader() is Some {
                    ClaimOutcome::QuorumReached
                } else {
                    ClaimOutcome::Buffered
                })
            },
    {
        if claim_view < self.view {
            return ClaimOutcome::Stale;
        }
        if claim_view > self.view {
            self.view = claim_view;
            self.leader = None;
            self.claims = Vec::new();
            return ClaimOutcome::ViewAdvanced;
        }
        if self.leader.is_some() {
            return ClaimOutcome::AlreadyAccepted;
        }
        if !self.contains_pair(leader, endorser) {
            self.claims.push((leader, endorser));
        }
        let count = self.count_endorsements(leader);
        if count as u64 > self.max_faulty {
            self.leader = Some(leader);
            ClaimOutcome::QuorumReached
        } else {
            ClaimOutcome::Buffered
        }
    }

    /// Whether the pair `(leader, endorser)` is already buffered.
    fn contains_pair(&self, leader: PeerId, endorser: PeerId) -> (b: bool)
        ensures
            b == self.spec_claims().contains((leader, endorser)),
    {
        let n = self.claims.len();
        let mut i: usize = 0;
        while i < n
            invariant
                0 <= i <= n,
                n == self.spec_claims().len(),
                forall|k: int| 0 <= k < i ==> self.spec_claims()[k] != (leader, endorser),
            decreases n - i,
        {
            let (l, e) = self.claims[i];
            if l == leader && e == endorser {
                return true;
            }
            i = i + 1;
        }
        false
    }

    /// Count the buffered endorsements naming the given candidate.
    fn count_endorsements(&self, leader: PeerId) -> (c: usize)
        ensures
            c == endorsement_count(self.spec_claims(), leader),
    {
        let n = self.claims.len();
        let mut i: usize = 0;
        let mut c: usize = 0;
        while i < n
            invariant
                0 <= i <= n,
                n == self.spec_claims().len(),
                c <= i,
                c == endorsement_count(self.spec_claims().take(i as int), leader),
            decreases n - i,
        {
            proof {
                assert(self.spec_claims().take(i + 1).drop_last() =~= self.spec_claims().take(
                    i as int,
                ));
                assert(self.spec_claims().take(i + 1).last() == self.spec_claims()[i as int]);
            }
            let (l, _) = self.claims[i];
            if l == leader {
                c = c + 1;
            }
            i = i + 1;
        }
        proof {
            assert(self.spec_claims().take(n as int) =~= self.spec_claims());
        }
        c
    }
}

} // verus!
