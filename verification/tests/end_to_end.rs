use feverbft::message::{parse_payload, Message};
use feverbft::peer::PeerId;
use feverbft::policy::Disposition;
use feverbft::session::{
    CloseError, CommandError, ConsensusSession, DecisionReport, VoteOutcome,
};
use feverbft::tally::Action;
use feverbft::view::{ClaimOutcome, ViewTracker};

const WINDOW: u64 = 300;

/// Build a tracker that tolerates one adversarial peer and has accepted
/// `leader` for view 1 on the strength of two distinct endorsements.
fn tracker_with_leader(leader: PeerId) -> ViewTracker {
    let mut tracker = ViewTracker::new(1);
    assert_eq!(tracker.observe_claim(1, leader, PeerId(101)), ClaimOutcome::ViewAdvanced);
    assert_eq!(tracker.observe_claim(1, leader, PeerId(101)), ClaimOutcome::Buffered);
    assert_eq!(tracker.observe_claim(1, leader, PeerId(102)), ClaimOutcome::QuorumReached);
    assert_eq!(tracker.accepted_leader(), Some(leader));
    assert_eq!(tracker.current_view(), 1);
    tracker
}

#[test]
fn view_tracker_rejects_stale_and_resets_on_higher_view() {
    let leader = PeerId(7);
    let mut tracker = tracker_with_leader(leader);
    // A claim for a lower view is never accepted and changes nothing.
    assert_eq!(tracker.observe_claim(0, PeerId(8), PeerId(103)), ClaimOutcome::Stale);
    assert_eq!(tracker.current_view(), 1);
    assert_eq!(tracker.accepted_leader(), Some(leader));
    // Another claim for the decided view is ignored.
    assert_eq!(tracker.observe_claim(1, PeerId(8), PeerId(103)), ClaimOutcome::AlreadyAccepted);
    // A claim for view 2 resets leader state regardless of the prior leader.
    assert_eq!(tracker.observe_claim(2, PeerId(8), PeerId(103)), ClaimOutcome::ViewAdvanced);
    assert_eq!(tracker.current_view(), 2);
    assert_eq!(tracker.accepted_leader(), None);
}

#[test]
fn view_tracker_counts_each_endorser_once() {
    let mut tracker = ViewTracker::new(1);
    assert_eq!(tracker.observe_claim(1, PeerId(7), PeerId(101)), ClaimOutcome::ViewAdvanced);
    assert_eq!(tracker.observe_claim(1, PeerId(7), PeerId(101)), ClaimOutcome::Buffered);
    // The same endorser repeating itself never completes the quorum.
    assert_eq!(tracker.observe_claim(1, PeerId(7), PeerId(101)), ClaimOutcome::Buffered);
    assert_eq!(tracker.accepted_leader(), None);
}

#[test]
fn conflicting_claims_accumulate_per_candidate() {
    let mut tracker = ViewTracker::new(1);
    tracker.observe_claim(1, PeerId(7), PeerId(101));
    assert_eq!(tracker.observe_claim(1, PeerId(7), PeerId(101)), ClaimOutcome::Buffered);
    assert_eq!(tracker.observe_claim(1, PeerId(8), PeerId(102)), ClaimOutcome::Buffered);
    // Neither candidate has two endorsers yet; the tracker stays undecided.
    assert_eq!(tracker.accepted_leader(), None);
    assert_eq!(tracker.observe_claim(1, PeerId(8), PeerId(103)), ClaimOutcome::QuorumReached);
    assert_eq!(tracker.accepted_leader(), Some(PeerId(8)));
}

/// Run one full round for five peers: the leader's command is broadcast,
/// every peer answers according to its disposition, all votes are exchanged,
/// and every peer closes its window and reports independently.
fn run_round(command_payload: &[u8]) -> Vec<DecisionReport> {
    let leader = PeerId(0);
    let dispositions = [
        Disposition::Honest,
        Disposition::Honest,
        Disposition::Honest,
        Disposition::Adversarial,
        Disposition::Adversarial,
    ];
    let kind = match parse_payload(command_payload) {
        Message::Command(kind) => kind,
        _ => panic!("not a command"),
    };

    let mut sessions: Vec<ConsensusSession> =
        (0..5).map(|_| ConsensusSession::new(WINDOW)).collect();
    let trackers: Vec<ViewTracker> = (0..5).map(|_| tracker_with_leader(leader)).collect();

    // Each peer accepts the command, counts its own vote, and broadcasts it.
    let mut broadcasts = Vec::new();
    for i in 0..5 {
        let r = sessions[i].handle_command(
            kind,
            1,
            leader,
            &trackers[i],
            dispositions[i],
            0,
            42,
        );
        broadcasts.push(r.expect("command from the accepted leader"));
    }

    // Every peer hears every other peer's vote within the window.
    for i in 0..5 {
        for (j, vote) in broadcasts.iter().enumerate() {
            if i != j {
                assert_eq!(
                    sessions[i].handle_vote(vote.kind, vote.view, 10 + j as u64),
                    VoteOutcome::Counted
                );
            }
        }
    }

    sessions
        .iter_mut()
        .map(|s| s.close_window(WINDOW, 43).expect("deadline elapsed"))
        .collect()
}

#[test]
fn five_peers_attack_round_decides_attack() {
    let reports = run_round(b"START ATTACK");
    assert_eq!(reports.len(), 5);
    for report in reports {
        assert_eq!(report.decision, Action::Attack);
        assert_eq!(report.attack_count, 3);
        assert_eq!(report.retreat_count, 2);
        assert_eq!(report.view, 1);
        assert_eq!(report.closed_at_clock, 43);
    }
}

#[test]
fn five_peers_retreat_round_decides_retreat() {
    let reports = run_round(b"START RETREAT");
    for report in reports {
        assert_eq!(report.decision, Action::Retreat);
        assert_eq!(report.attack_count, 2);
        assert_eq!(report.retreat_count, 3);
    }
}

#[test]
fn late_vote_is_excluded_even_when_it_would_flip_the_outcome() {
    let leader = PeerId(0);
    let tracker = tracker_with_leader(leader);
    let mut session = ConsensusSession::new(WINDOW);
    // An honest peer echoes START RETREAT: the tally opens at 0 attack, 1 retreat.
    session
        .handle_command(Action::Retreat, 1, leader, &tracker, Disposition::Honest, 0, 0)
        .expect("valid command");
    // One attack vote in time: 1 attack, 1 retreat.
    assert_eq!(session.handle_vote(Action::Attack, 1, 100), VoteOutcome::Counted);
    // A second attack vote at the deadline is excluded, though counting it
    // would have produced an Attack majority.
    assert_eq!(session.handle_vote(Action::Attack, 1, WINDOW), VoteOutcome::AfterDeadline);
    let report = session.close_window(WINDOW, 9).expect("deadline elapsed");
    assert_eq!(report.attack_count, 1);
    assert_eq!(report.retreat_count, 1);
    assert_eq!(report.decision, Action::Retreat);
}

#[test]
fn command_guards_reject_invalid_commands() {
    let leader = PeerId(0);
    let tracker = tracker_with_leader(leader);
    let mut session = ConsensusSession::new(WINDOW);
    // Not from the accepted leader.
    assert_eq!(
        session.handle_command(Action::Attack, 1, PeerId(3), &tracker, Disposition::Honest, 0, 0),
        Err(CommandError::NotFromLeader)
    );
    // Stale view.
    assert_eq!(
        session.handle_command(Action::Attack, 0, leader, &tracker, Disposition::Honest, 0, 0),
        Err(CommandError::StaleView)
    );
    // A view ahead of the tracker's current view.
    assert_eq!(
        session.handle_command(Action::Attack, 2, leader, &tracker, Disposition::Honest, 0, 0),
        Err(CommandError::ViewAhead)
    );
    // A second command for the already open view is ignored.
    session
        .handle_command(Action::Attack, 1, leader, &tracker, Disposition::Honest, 0, 0)
        .expect("valid command");
    assert_eq!(
        session.handle_command(Action::Retreat, 1, leader, &tracker, Disposition::Honest, 5, 0),
        Err(CommandError::SessionOpen)
    );
}

#[test]
fn vote_guards_drop_strays_silently() {
    let leader = PeerId(0);
    let tracker = tracker_with_leader(leader);
    let mut session = ConsensusSession::new(WINDOW);
    // No session open yet.
    assert_eq!(session.handle_vote(Action::Attack, 1, 0), VoteOutcome::NoSession);
    session
        .handle_command(Action::Attack, 1, leader, &tracker, Disposition::Honest, 0, 0)
        .expect("valid command");
    // A vote tagged with another view.
    assert_eq!(session.handle_vote(Action::Attack, 2, 10), VoteOutcome::WrongView);
}

#[test]
fn close_window_guards() {
    let leader = PeerId(0);
    let tracker = tracker_with_leader(leader);
    let mut session = ConsensusSession::new(WINDOW);
    assert_eq!(session.close_window(0, 0), Err(CloseError::NoOpenSession));
    session
        .handle_command(Action::Attack, 1, leader, &tracker, Disposition::Honest, 0, 0)
        .expect("valid command");
    assert_eq!(session.close_window(WINDOW - 1, 0), Err(CloseError::WindowStillOpen));
    let report = session.close_window(WINDOW, 0).expect("deadline elapsed");
    assert_eq!(report.attack_count, 1);
    assert_eq!(report.retreat_count, 0);
    assert_eq!(report.decision, Action::Attack);
    // The session is idle again after reporting.
    assert!(!session.session_open());
}

#[test]
fn view_change_aborts_open_session_without_a_decision() {
    let leader = PeerId(0);
    let tracker = tracker_with_leader(leader);
    let mut session = ConsensusSession::new(WINDOW);
    session
        .handle_command(Action::Attack, 1, leader, &tracker, Disposition::Honest, 0, 0)
        .expect("valid command");
    session.abort_for_view(2);
    assert!(!session.session_open());
    assert_eq!(session.close_window(WINDOW, 0), Err(CloseError::NoOpenSession));
}
