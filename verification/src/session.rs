//! The orchestrating state machine of one peer (`ConsensusSession`).
//!
//! Idle until a valid command arrives from the recognized leader of the
//! current view; then the peer's own vote is computed and counted, a tally
//! window of fixed duration opens, and incoming votes for the session's view
//! are counted until the window's deadline. Closing the window yields the
//! majority decision together with both counts; a view change mid-session
//! cancels the open session outright, and no partial decision is ever
//! emitted.
//!
//! Deadlines are instants of a monotonic time base independent of the
//! logical clock; the caller owns that time base and passes readings in.

use vstd::prelude::*;

use crate::peer::PeerId;
use crate::policy::Disposition;
use crate::policy::spec_response;
use crate::policy::compute_vote;
use crate::tally::Action;
use crate::tally::QuorumTally;
use crate::tally::spec_decision;
use crate::view::ViewTracker;

verus! {

/// Why a command was rejected without opening a session.
#[derive(Clone, Copy, PartialEq, Eq, Structural, Debug)]
pub enum CommandError {
    /// The command references a view behind the tracker's current view.
    StaleView,
    /// The command references a view ahead of the tracker's current view;
    /// it can only be acted on once that view's leader is accepted.
    ViewAhead,
    /// The issuer is not the accepted leader of the current view.
    NotFromLeader,
    /// A session for this view is already open; one session per view.
    SessionOpen,
}

/// Why closing the tally window was refused.
#[derive(Clone, Copy, PartialEq, Eq, Structural, Debug)]
pub enum CloseError {
    /// No session is open.
    NoOpenSession,
    /// The deadline has not elapsed yet.
    WindowStillOpen,
}

/// What an incoming vote did to the open session.
#[derive(Clone, Copy, PartialEq, Eq, Structural, Debug)]
pub enum VoteOutcome {
    /// No session is open; the vote is dropped silently.
    NoSession,
    /// The vote is tagged with another view; dropped silently.
    WrongView,
    /// The vote arrived at or after the deadline; excluded from the tally.
    AfterDeadline,
    /// The vote was counted.
    Counted,
}

/// The vote this peer broadcasts on accepting a command.
#[derive(Clone, Copy, PartialEq, Eq, Structural, Debug)]
pub struct VoteBroadcast {
    pub kind: Action,
    pub view: u64,
    /// Logical-clock reading to tag the broadcast with, for display only.
    pub clock_reading: u64,
}

/// The decision announced when a tally window closes.
#[derive(Clone, Copy, PartialEq, Eq, Structural, Debug)]
pub struct DecisionReport {
    pub decision: Action,
    pub attack_count: u32,
    pub retreat_count: u32,
    pub view: u64,
    /// Logical-clock reading at the moment the window closed.
    pub closed_at_clock: u64,
}

struct OpenSession {
    view: u64,
    deadline: u64,
    tally: QuorumTally,
}

/// One peer's session state machine; at most one session is open at a time.
pub struct ConsensusSession {
    /// Tally window duration in units of the monotonic time base.
    window: u64,
    open: Option<OpenSession>,
}

impl ConsensusSession {
    pub closed spec fn spec_window(self) -> u64 {
        self.window
    }

    pub closed spec fn is_open(self) -> bool {
        self.open is Some
    }

    pub closed spec fn open_view(self) -> u64 {
        self.open.unwrap().view
    }

    pub closed spec fn deadline(self) -> u64 {
        self.open.unwrap().deadline
    }

    pub closed spec fn attack_count(self) -> u32 {
        self.open.unwrap().tally.attack_count()
    }

    pub closed spec fn retreat_count(self) -> u32 {
        self.open.unwrap().tally.retreat_count()
    }

    /// An idle session with the given tally window duration.
    pub fn new(window: u64) -> (s: ConsensusSession)
        ensures
            s.spec_window() == window,
            !s.is_open(),
    {
        ConsensusSession { window, open: None }
    }

    pub fn window(&self) -> (w: u64)
        ensures
            w == self.spec_window(),
    {
        self.window
    }

    pub fn session_open(&self) -> (b: bool)
        ensures
            b == self.is_open(),
    {
        self.open.is_some()
    }

    /// The deadline of the open session, if one is open.
    pub fn current_deadline(&self) -> (d: Option<u64>)
        ensures
            self.is_open() ==> d == Some(self.deadline()),
            !self.is_open() ==> d is None,
    {
        match &self.open {
            Some(open) => Some(open.deadline),
            None => None,
        }
    }

    /// The `(attack, retreat)` counts of the open session, if one is open.
    pub fn current_counts(&self) -> (c: Option<(u32, u32)>)
        ensures
            self.is_open() ==> c == Some((self.attack_count(), self.retreat_count())),
            !self.is_open() ==> c is None,
    {
        match &self.open {
            Some(open) => Some((open.tally.attack(), open.tally.retreat())),
            None => None,
        }
    }

    /// Process a command attributed to `issuer`, consulting the tracker for
    /// who may issue commands and the roster-supplied `disposition` for how
    /// this peer answers.
    ///
    /// On acceptance the peer's own vote is computed, counted into the fresh
    /// tally, and returned for broadcasting; the tally window of
    /// `spec_window()` units opens at `now`. A command from a non-leader or
    /// for a non-current view changes nothing, except that a command for a
    /// view ahead of the current one aborts any open session.
    pub fn handle_command(
        &mut self,
        kind: Action,
        command_view: u64,
        issuer: PeerId,
        tracker: &ViewTracker,
        disposition: Disposition,
        now: u64,
        clock_reading: u64,
    ) -> (r: Result<VoteBroadcast, CommandError>)
        requires
            now + old(self).spec_window() <= u64::MAX,
        ensures
            final(self).spec_window() == old(self).spec_window(),
            command_view < tracker.spec_view() ==> *final(self) == *old(self) && r
                == Result::<VoteBroadcast, CommandError>::Err(CommandError::StaleView),
            command_view > tracker.spec_view() ==> !final(self).is_open() && r
                == Result::<VoteBroadcast, CommandError>::Err(CommandError::ViewAhead),
            command_view == tracker.spec_view() && tracker.spec_leader() != Some(issuer)
                ==> *final(self) == *old(self) && r == Result::<VoteBroadcast, CommandError>::Err(
                CommandError::NotFromLeader,
            ),
            command_view == tracker.spec_view() && tracker.spec_leader() == Some(issuer) && old(
                self,
            ).is_open() && old(self).open_view() == command_view ==> *final(self) == *old(self)
                && r == Result::<VoteBroadcast, CommandError>::Err(CommandError::SessionOpen),
            command_view == tracker.spec_view() && tracker.spec_leader() == Some(issuer) && !(old(
                self,
            ).is_open() && old(self).open_view() == command_view) ==> {
                &&& final(self).is_open()
                &&& final(self).open_view() == command_view
                &&& final(self).deadline() == now + old(self).spec_window()
                &&& final(self).attack_count() == (if spec_response(disposition, kind)
                    == Action::Attack {
                    1u32
                } else {
                    0u32
                })
                &&& final(self).retreat_count() == (if spec_response(disposition, kind)
                    == Action::Retreat {
                    1u32
                } else {
                    0u32
                })
                &&& r == Result::<VoteBroadcast, CommandError>::Ok(
                    VoteBroadcast {
                        kind: spec_response(disposition, kind),
                        view: command_view,
                        clock_reading,
                    },
                )
            },
    {
        let current_view = tracker.current_view();
        if command_view < current_view {
            return Err(CommandError::StaleView);
        }
        if command_view > current_view {
            // The session this command interrupts is cancelled outright;
            // the command itself must wait for the new view's leader.
            self.open = None;
            return Err(CommandError::ViewAhead);
        }
        let leader_ok = match tracker.accepted_leader() {
            Some(l) => l == issuer,
            None => false,
        };
        if !leader_ok {
            return Err(CommandError::NotFromLeader);
        }
        let duplicate = match &self.open {
            Some(open) => open.view == command_view,
            None => false,
        };
        if duplicate {
            return Err(CommandError::SessionOpen);
        }
        let vote = compute_vote(disposition, kind);
        let mut tally = QuorumTally::new();
        tally.record(vote);
        self.open = Some(OpenSession { view: command_view, deadline: now + self.window, tally });
        Ok(VoteBroadcast { kind: vote, view: command_view, clock_reading })
    }

    /// Process a received vote at monotonic instant `now`.
    ///
    /// The vote is counted exactly when a session is open, the vote carries
    /// the session's view, and it arrives strictly before the deadline;
    /// otherwise it is dropped without any state change — even a vote that
    /// would have changed the outcome is excluded once the deadline passed.
    pub fn handle_vote(&mut self, kind: Action, vote_view: u64, now: u64) -> (o: VoteOutcome)
        requires
            old(self).is_open() ==> old(self).attack_count() + old(self).retreat_count()
                < u32::MAX,
        ensures
            final(self).spec_window() == old(self).spec_window(),
            !old(self).is_open() ==> *final(self) == *old(self) && o == VoteOutcome::NoSession,
            old(self).is_open() && vote_view != old(self).open_view() ==> *final(self) == *old(
                self,
            ) && o == VoteOutcome::WrongView,
            old(self).is_open() && vote_view == old(self).open_view() && now >= old(
                self,
            ).deadline() ==> *final(self) == *old(self) && o == VoteOutcome::AfterDeadline,
            old(self).is_open() && vote_view == old(self).open_view() && now < old(
                self,
            ).deadline() ==> {
                &&& o == VoteOutcome::Counted
                &&& final(self).is_open()
                &&& final(self).open_view() == old(self).open_view()
                &&& final(self).deadline() == old(self).deadline()
                &&& final(self).attack_count() == (if kind == Action::Attack {
                    old(self).attack_count() + 1
                } else {
                    old(self).attack_count() as int
                })
                &&& final(self).retreat_count() == (if kind == Action::Retreat {
                    old(self).retreat_count() + 1
                } else {
                    old(self).retreat_count() as int
                })
            },
    {
        match &mut self.open {
            None => VoteOutcome::NoSession,
            Some(open) => {
                if vote_view != open.view {
                    VoteOutcome::WrongView
                } else if now >= open.deadline {
                    VoteOutcome::AfterDeadline
                } else {
                    open.tally.record(kind);
                    VoteOutcome::Counted
                }
            },
        }
    }

    /// Close the tally window once the deadline has elapsed: compute the
    /// majority decision, emit it with both counts and the closing logical
    /// clock reading, and return to idle.
    pub fn close_window(&mut self, now: u64, clock_reading: u64) -> (r: Result<
        DecisionReport,
        CloseError,
    >)
        ensures
            final(self).spec_window() == old(self).spec_window(),
            !old(self).is_open() ==> *final(self) == *old(self) && r == Result::<
                DecisionReport,
                CloseError,
            >::Err(CloseError::NoOpenSession),
            old(self).is_open() && now < old(self).deadline() ==> *final(self) == *old(self) && r
                == Result::<DecisionReport, CloseError>::Err(CloseError::WindowStillOpen),
            old(self).is_open() && now >= old(self).deadline() ==> !final(self).is_open() && r
                == Result::<DecisionReport, CloseError>::Ok(
                DecisionReport {
                    decision: spec_decision(
                        old(self).attack_count() as nat,
                        old(self).retreat_count() as nat,
                    ),
                    attack_count: old(self).attack_count(),
                    retreat_count: old(self).retreat_count(),
                    view: old(self).open_view(),
                    closed_at_clock: clock_reading,
                },
            ),
    {
        match &self.open {
            None => Err(CloseError::NoOpenSession),
            Some(open) => {
                if now < open.deadline {
                    Err(CloseError::WindowStillOpen)
                } else {
                    let decision = open.tally.decide();
                    let report = DecisionReport {
                        decision,
                        attack_count: open.tally.attack(),
                        retreat_count: open.tally.retreat(),
                        view: open.view,
                        closed_at_clock: clock_reading,
                    };
                    self.open = None;
                    Ok(report)
                }
            },
        }
    }

    /// A view change observed mid-session cancels a session opened for an
    /// older view outright; no partial decision is emitted.
    pub fn abort_for_view(&mut self, new_view: u64)
        ensures
            final(self).spec_window() == old(self).spec_window(),
            old(self).is_open() && old(self).open_view() < new_view ==> !final(self).is_open(),
            !(old(self).is_open() && old(self).open_view() < new_view) ==> *final(self) == *old(
                self,
            ),
    {
        let stale = match &self.open {
            Some(open) => open.view < new_view,
            None => false,
        };
        if stale {
            self.open = None;
        }
    }
}

} // verus!
