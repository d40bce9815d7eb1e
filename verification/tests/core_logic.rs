use feverbft::clock::{ClockError, LogicalClock};
use feverbft::message::{
    encode_command, encode_decimal, encode_vote, parse_payload, tag_with_clock, Message,
};
use feverbft::peer::{PeerId, PeerRoster};
use feverbft::policy::{compute_vote, Disposition};
use feverbft::tally::{tally, Action};
use feverbft::timey::get_current_time_ns;

#[test]
fn tally_strict_majority_is_attack() {
    // 3 attack votes against 2 retreat votes decide Attack.
    let votes = vec![
        Action::Attack,
        Action::Retreat,
        Action::Attack,
        Action::Retreat,
        Action::Attack,
    ];
    let (decision, attack, retreat) = tally(&votes);
    assert_eq!(decision, Action::Attack);
    assert_eq!(attack, 3);
    assert_eq!(retreat, 2);
}

#[test]
fn tally_tie_resolves_to_retreat() {
    let votes = vec![Action::Attack, Action::Retreat, Action::Attack, Action::Retreat];
    let (decision, attack, retreat) = tally(&votes);
    assert_eq!(decision, Action::Retreat);
    assert_eq!(attack, 2);
    assert_eq!(retreat, 2);
}

#[test]
fn tally_no_votes_resolves_to_retreat() {
    let votes: Vec<Action> = Vec::new();
    let (decision, attack, retreat) = tally(&votes);
    assert_eq!(decision, Action::Retreat);
    assert_eq!(attack, 0);
    assert_eq!(retreat, 0);
}

#[test]
fn tally_ignores_arrival_order() {
    let one = vec![Action::Attack, Action::Attack, Action::Retreat];
    let other = vec![Action::Retreat, Action::Attack, Action::Attack];
    assert_eq!(tally(&one), tally(&other));
}

#[test]
fn honest_peer_echoes_adversarial_peer_lies() {
    assert_eq!(compute_vote(Disposition::Honest, Action::Attack), Action::Attack);
    assert_eq!(compute_vote(Disposition::Honest, Action::Retreat), Action::Retreat);
    assert_eq!(compute_vote(Disposition::Adversarial, Action::Attack), Action::Retreat);
    assert_eq!(compute_vote(Disposition::Adversarial, Action::Retreat), Action::Attack);
}

#[test]
fn clock_synchronize_success_sets_sample_plus_one() {
    let mut clock = LogicalClock::new();
    assert_eq!(clock.now(), 0);
    let r = clock.synchronize(Ok(41));
    assert!(r.is_ok());
    assert_eq!(clock.now(), 42);
}

#[test]
fn clock_synchronize_failure_leaves_value_unchanged() {
    let mut clock = LogicalClock::new();
    clock.tick();
    clock.tick();
    let before = clock.now();
    let r = clock.synchronize(Err(ClockError::AuthorityTimeout));
    assert_eq!(r, Err(ClockError::AuthorityTimeout));
    assert_eq!(clock.now(), before);
}

#[test]
fn clock_ticks_forward() {
    let mut clock = LogicalClock::new();
    clock.tick();
    clock.tick();
    clock.tick();
    assert_eq!(clock.now(), 3);
}

#[test]
fn clock_display_renders_epoch() {
    let clock = LogicalClock::new();
    let text = clock.current_display().expect("epoch is renderable");
    assert_eq!(text, "01.01.70-00:00:00.000");
}

#[test]
fn clock_display_renders_up_to_year_9999() {
    let mut clock = LogicalClock::new();
    // The last second of year 9999; the library promises a rendering for
    // every reading up to here.
    clock.synchronize(Ok(253_402_300_798)).unwrap();
    assert_eq!(clock.now(), 253_402_300_799);
    let text = clock.current_display().expect("within the promised range");
    assert_eq!(text, "31.12.99-23:59:59.000");
}

#[test]
fn clock_display_refuses_out_of_range_readings() {
    let mut clock = LogicalClock::new();
    clock.synchronize(Ok(u64::MAX - 1)).unwrap();
    assert_eq!(clock.current_display(), None);
}

#[test]
fn parse_exact_commands() {
    assert_eq!(parse_payload(b"START ATTACK"), Message::Command(Action::Attack));
    assert_eq!(parse_payload(b"START RETREAT"), Message::Command(Action::Retreat));
    assert_eq!(parse_payload(b"  START ATTACK \n"), Message::Command(Action::Attack));
}

#[test]
fn parse_votes_by_token() {
    assert_eq!(parse_payload(b"ATTACK"), Message::Vote(Action::Attack));
    assert_eq!(parse_payload(b"RETREAT"), Message::Vote(Action::Retreat));
    assert_eq!(parse_payload(b"<17> ATTACK"), Message::Vote(Action::Attack));
    assert_eq!(parse_payload(b"<17> RETREAT"), Message::Vote(Action::Retreat));
    // ATTACK takes precedence when both tokens occur.
    assert_eq!(parse_payload(b"RETREAT or ATTACK"), Message::Vote(Action::Attack));
    // A command with trailing garbage is not a command, but still holds a token.
    assert_eq!(parse_payload(b"START ATTACK NOW"), Message::Vote(Action::Attack));
}

#[test]
fn parse_rejects_other_payloads() {
    assert_eq!(parse_payload(b""), Message::Malformed);
    assert_eq!(parse_payload(b"   "), Message::Malformed);
    assert_eq!(parse_payload(b"hello peers"), Message::Malformed);
    assert_eq!(parse_payload(b"attack"), Message::Malformed);
}

#[test]
fn encoded_messages_parse_back() {
    for kind in [Action::Attack, Action::Retreat] {
        let cmd = encode_command(kind);
        assert_eq!(parse_payload(&cmd), Message::Command(kind));
        let vote = encode_vote(kind);
        assert_eq!(parse_payload(&vote), Message::Vote(kind));
    }
}

#[test]
fn clock_tag_is_display_only() {
    let tagged = tag_with_clock(17, &encode_vote(Action::Attack));
    assert_eq!(tagged, b"<17> ATTACK".to_vec());
    assert_eq!(parse_payload(&tagged), Message::Vote(Action::Attack));
}

#[test]
fn decimal_rendering() {
    assert_eq!(encode_decimal(0), b"0".to_vec());
    assert_eq!(encode_decimal(7), b"7".to_vec());
    assert_eq!(encode_decimal(1234567890), b"1234567890".to_vec());
    assert_eq!(encode_decimal(u64::MAX), b"18446744073709551615".to_vec());
}

#[test]
fn roster_toggle_flips_only_the_named_peer() {
    let mut roster = PeerRoster::new();
    roster.add_peer(PeerId(1), Disposition::Honest);
    roster.add_peer(PeerId(2), Disposition::Honest);
    roster.toggle(PeerId(2));
    assert_eq!(roster.disposition_of(PeerId(1)), Some(Disposition::Honest));
    assert_eq!(roster.disposition_of(PeerId(2)), Some(Disposition::Adversarial));
    roster.toggle(PeerId(2));
    assert_eq!(roster.disposition_of(PeerId(2)), Some(Disposition::Honest));
    // Toggling an unknown peer changes nothing.
    roster.toggle(PeerId(9));
    assert_eq!(roster.len(), 2);
    assert_eq!(roster.disposition_of(PeerId(9)), None);
}

#[test]
fn monotonic_time_nanos_stay_below_one_second() {
    let (_secs, nanos) = get_current_time_ns();
    assert!(nanos < 1_000_000_000);
}
