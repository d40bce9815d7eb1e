//! Per-peer response policy: how a peer answers a leader's command.
//!
//! The disposition is read fresh each time a command is processed; the vote
//! is a pure function of `(disposition, command kind)` with no hidden state.

use vstd::prelude::*;

use crate::tally::Action;
use crate::tally::spec_tally;
use crate::tally::vote_count;

verus! {

broadcast use vstd::seq_lib::to_multiset_build, vstd::seq_lib::to_multiset_contains;

/// A peer's configured honesty mode, togglable at runtime by an operator.
#[derive(Clone, Copy, PartialEq, Eq, Structural, Debug)]
pub enum Disposition {
    Honest,
    Adversarial,
}

impl Disposition {
    /// The other mode, used when an operator toggles a peer.
    pub open spec fn spec_toggled(self) -> Disposition {
        match self {
            Disposition::Honest => Disposition::Adversarial,
            Disposition::Adversarial => Disposition::Honest,
        }
    }

    pub fn toggled(self) -> (d: Disposition)
        ensures
            d == self.spec_toggled(),
    {
        match self {
            Disposition::Honest => Disposition::Adversarial,
            Disposition::Adversarial => Disposition::Honest,
        }
    }
}

/// The vote a peer with the given disposition broadcasts for a command:
/// an honest peer echoes the command, an adversarial peer answers with the
/// fixed opposite order (a deterministic lie, not a random one).
pub open spec fn spec_response(disposition: Disposition, command: Action) -> Action {
    match disposition {
        Disposition::Honest => command,
        Disposition::Adversarial => command.spec_negate(),
    }
}

/// Compute the vote this peer will broadcast for the given command kind.
pub fn compute_vote(disposition: Disposition, command: Action) -> (v: Action)
    ensures
        v == spec_response(disposition, command),
{
    match disposition {
        Disposition::Honest => command,
        Disposition::Adversarial => command.negate(),
    }
}

/// The votes a population of peers answers a command with, peer by peer.
pub open spec fn spec_responses(dispositions: Seq<Disposition>, command: Action) -> Seq<Action> {
    dispositions.map_values(|d: Disposition| spec_response(d, command))
}

/// Honest peers echo the command and adversarial peers negate it, so the
/// responses hold the command exactly as often as there are honest peers,
/// and its negation exactly as often as there are adversarial peers.
pub proof fn lemma_response_counts(dispositions: Seq<Disposition>, command: Action)
    ensures
        vote_count(spec_responses(dispositions, command), command) == dispositions.to_multiset()
            .count(Disposition::Honest),
        vote_count(spec_responses(dispositions, command), command.spec_negate())
            == dispositions.to_multiset().count(Disposition::Adversarial),
    decreases dispositions.len(),
{
    let responses = spec_responses(dispositions, command);
    if dispositions.len() == 0 {
        assert(!responses.contains(command));
        assert(!responses.contains(command.spec_negate()));
        assert(!dispositions.contains(Disposition::Honest));
        assert(!dispositions.contains(Disposition::Adversarial));
    } else {
        let front = dispositions.drop_last();
        lemma_response_counts(front, command);
        assert(dispositions =~= front.push(dispositions.last()));
        assert(responses =~= spec_responses(front, command).push(
            spec_response(dispositions.last(), command),
        ));
    }
}

/// As long as a strict majority of the answering peers is honest, the
/// majority decision over their votes is the leader's command itself,
/// whatever the adversarial minority broadcasts.
pub proof fn lemma_honest_majority_decides_command(
    dispositions: Seq<Disposition>,
    command: Action,
)
    requires
        dispositions.to_multiset().count(Disposition::Honest) > dispositions.to_multiset().count(
            Disposition::Adversarial,
        ),
    ensures
        spec_tally(spec_responses(dispositions, command)) == command,
{
    lemma_response_counts(dispositions, command);
}

} // verus!
