//! The wire-level message grammar for commands and votes.
//!
//! Payloads are plain text on the broadcast transport. A payload whose
//! whitespace-trimmed content is exactly `START ATTACK` or `START RETREAT`
//! is a command; otherwise a payload containing the token `ATTACK` is an
//! attack vote, one containing `RETREAT` a retreat vote (in that order of
//! precedence), and anything else is malformed and ignored for tally
//! purposes. A `<clockValue> ` tag may prefix a vote for display only; it
//! never affects how the payload is classified.

use vstd::prelude::*;

use crate::tally::Action;

verus! {

/// What a received payload means to the protocol.
#[derive(Clone, Copy, PartialEq, Eq, Structural, Debug)]
pub enum Message {
    /// A leader's order to open a session: `START ATTACK` / `START RETREAT`.
    Command(Action),
    /// A peer's vote, recognized by the token it contains.
    Vote(Action),
    /// A payload matching neither grammar; dropped without any state change.
    Malformed,
}

/// ASCII whitespace stripped at both ends of a payload.
pub open spec fn is_ascii_space(b: u8) -> bool {
    b == 32 || b == 9 || b == 10 || b == 13
}

/// The vote token for an order: `ATTACK` / `RETREAT` as bytes.
pub open spec fn spec_token(kind: Action) -> Seq<u8> {
    match kind {
        Action::Attack => seq![65u8, 84u8, 84u8, 65u8, 67u8, 75u8],
        Action::Retreat => seq![82u8, 69u8, 84u8, 82u8, 69u8, 65u8, 84u8],
    }
}

/// The bytes of `START ` (with the trailing space).
pub open spec fn spec_start_prefix() -> Seq<u8> {
    seq![83u8, 84u8, 65u8, 82u8, 84u8, 32u8]
}

/// The exact command text for an order: `START ` followed by its token.
pub open spec fn spec_command_text(kind: Action) -> Seq<u8> {
    spec_start_prefix() + spec_token(kind)
}

pub open spec fn spec_trim_start(s: Seq<u8>) -> Seq<u8>
    decreases s.len(),
{
    if s.len() == 0 {
        s
    } else if is_ascii_space(s.first()) {
        spec_trim_start(s.drop_first())
    } else {
        s
    }
}

pub open spec fn spec_trim_end(s: Seq<u8>) -> Seq<u8>
    decreases s.len(),
{
    if s.len() == 0 {
        s
    } else if is_ascii_space(s.last()) {
        spec_trim_end(s.drop_last())
    } else {
        s
    }
}

/// The payload with ASCII whitespace stripped at both ends.
pub open spec fn spec_trimmed(s: Seq<u8>) -> Seq<u8> {
    spec_trim_end(spec_trim_start(s))
}

/// The needle occurs in the haystack starting at position `i`.
pub open spec fn matches_at(hay: Seq<u8>, needle: Seq<u8>, i: int) -> bool {
    0 <= i && i + needle.len() <= hay.len() && hay.subrange(i, i + needle.len()) == needle
}

/// The needle occurs somewhere in the haystack.
pub open spec fn contains_token(hay: Seq<u8>, needle: Seq<u8>) -> bool {
    exists|i: int| matches_at(hay, needle, i)
}

/// How a payload is classified: command texts exactly, then the `ATTACK`
/// token, then the `RETREAT` token, then malformed.
pub open spec fn spec_parse(payload: Seq<u8>) -> Message {
    let t = spec_trimmed(payload);
    if t == spec_command_text(Action::Attack) {
        Message::Command(Action::Attack)
    } else if t == spec_command_text(Action::Retreat) {
        Message::Command(Action::Retreat)
    } else if contains_token(t, spec_token(Action::Attack)) {
        Message::Vote(Action::Attack)
    } else if contains_token(t, spec_token(Action::Retreat)) {
        Message::Vote(Action::Retreat)
    } else {
        Message::Malformed
    }
}

fn is_space(b: u8) -> (r: bool)
    ensures
        r == is_ascii_space(b),
{
    b == 32 || b == 9 || b == 10 || b == 13
}

/// The vote token broadcast for an order.
pub fn encode_vote(kind: Action) -> (v: Vec<u8>)
    ensures
        v@ == spec_token(kind),
{
    match kind {
        Action::Attack => {
            let v: Vec<u8> = vec![65u8, 84u8, 84u8, 65u8, 67u8, 75u8];
            proof {
                assert(v@ =~= spec_token(Action::Attack));
            }
            v
        },
        Action::Retreat => {
            let v: Vec<u8> = vec![82u8, 69u8, 84u8, 82u8, 69u8, 65u8, 84u8];
            proof {
                assert(v@ =~= spec_token(Action::Retreat));
            }
            v
        },
    }
}

/// The exact command text a leader broadcasts for an order.
pub fn encode_command(kind: Action) -> (v: Vec<u8>)
    ensures
        v@ == spec_command_text(kind),
{
    match kind {
        Action::Attack => {
            let v: Vec<u8> = vec![83u8, 84u8, 65u8, 82u8, 84u8, 32u8, 65u8, 84u8, 84u8, 65u8, 67u8, 75u8];
            proof {
                assert(v@ =~= spec_command_text(Action::Attack));
            }
            v
        },
        Action::Retreat => {
            let v: Vec<u8> = vec![
                83u8,
                84u8,
                65u8,
                82u8,
                84u8,
                32u8,
                82u8,
                69u8,
                84u8,
                82u8,
                69u8,
                65u8,
                84u8,
            ];
            proof {
                assert(v@ =~= spec_command_text(Action::Retreat));
            }
            v
        },
    }
}

/// Whether `payload[lo..hi]` is exactly the token.
fn range_equals(payload: &[u8], lo: usize, hi: usize, tok: &Vec<u8>) -> (b: bool)
    requires
        lo <= hi <= payload@.len(),
    ensures
        b == (payload@.subrange(lo as int, hi as int) == tok@),
{
    let tl = tok.len();
    if hi - lo != tl {
        proof {
            assert(payload@.subrange(lo as int, hi as int).len() != tok@.len());
        }
        return false;
    }
    let mut k: usize = 0;
    while k < tl
        invariant
            lo <= hi <= payload@.len(),
            hi - lo == tl,
            tl == tok@.len(),
            0 <= k <= tl,
            forall|j: int| 0 <= j < k ==> payload@[lo + j] == tok@[j],
        decreases tl - k,
    {
        if payload[lo + k] != tok[k] {
            proof {
                assert(payload@.subrange(lo as int, hi as int)[k as int] == payload@[lo + k]);
            }
            return false;
        }
        k = k + 1;
    }
    proof {
        assert(payload@.subrange(lo as int, hi as int) =~= tok@);
    }
    true
}

/// Whether the token occurs anywhere in `payload[lo..hi]`.
fn range_contains(payload: &[u8], lo: usize, hi: usize, tok: &Vec<u8>) -> (b: bool)
    requires
        lo <= hi <= payload@.len(),
        tok@.len() >= 1,
    ensures
        b == contains_token(payload@.subrange(lo as int, hi as int), tok@),
{
    let ghost hay = payload@.subrange(lo as int, hi as int);
    let t = hi - lo;
    let tl = tok.len();
    if tl > t {
        proof {
            assert forall|i: int| !matches_at(hay, tok@, i) by {
                assert(hay.len() == t);
            }
        }
        return false;
    }
    let mut j: usize = 0;
    while j <= t - tl
        invariant
            lo <= hi <= payload@.len(),
            t == hi - lo,
            tl == tok@.len(),
            1 <= tl <= t,
            hay == payload@.subrange(lo as int, hi as int),
            0 <= j <= t - tl + 1,
            forall|jj: int| 0 <= jj < j ==> !matches_at(hay, tok@, jj),
        decreases t - tl - j + 1,
    {
        proof {
            assert(payload@.subrange(lo + j, lo + j + tl) =~= hay.subrange(
                j as int,
                j + tl,
            ));
        }
        if range_equals(payload, lo + j, lo + j + tl, tok) {
            proof {
                assert(matches_at(hay, tok@, j as int));
            }
            return true;
        }
        j = j + 1;
    }
    proof {
        assert forall|i: int| !matches_at(hay, tok@, i) by {
            if matches_at(hay, tok@, i) {
                assert(0 <= i <= t - tl);
            }
        }
    }
    false
}

/// A command text broadcast by a leader parses back as exactly that command.
pub proof fn lemma_parse_encoded_command(kind: Action)
    ensures
        spec_parse(spec_command_text(kind)) == Message::Command(kind),
{
    let c = spec_command_text(kind);
    assert(c[0] == 83);
    assert(spec_trim_start(c) == c);
    match kind {
        Action::Attack => {
            assert(c.len() == 12);
            assert(c.last() == 75);
        },
        Action::Retreat => {
            assert(c.len() == 13);
            assert(c.last() == 84);
        },
    }
    assert(spec_trim_end(c) == c);
    assert(spec_command_text(Action::Attack).len() == 12);
    assert(spec_command_text(Action::Retreat).len() == 13);
}

/// A bare vote token parses back as exactly that vote.
pub proof fn lemma_parse_encoded_vote(kind: Action)
    ensures
        spec_parse(spec_token(kind)) == Message::Vote(kind),
{
    let t = spec_token(kind);
    let attack = spec_token(Action::Attack);
    let retreat = spec_token(Action::Retreat);
    assert(spec_trim_start(t) == t);
    assert(spec_trim_end(t) == t);
    assert(spec_command_text(Action::Attack).len() == 12);
    assert(spec_command_text(Action::Retreat).len() == 13);
    match kind {
        Action::Attack => {
            assert(t.subrange(0, 6) =~= t);
            assert(matches_at(t, attack, 0));
        },
        Action::Retreat => {
            assert forall|i: int| !matches_at(t, attack, i) by {
                if matches_at(t, attack, i) {
                    assert(0 <= i <= 1);
                    assert(t.subrange(i, i + 6)[0] == t[i]);
                    assert(t[i] == attack[0]);
                }
            }
            assert(t.subrange(0, 7) =~= t);
            assert(matches_at(t, retreat, 0));
        },
    }
}

/// The decimal rendering of a number is never empty and holds digit bytes
/// only.
pub proof fn lemma_decimal_digits(n: nat)
    ensures
        spec_decimal(n).len() >= 1,
        forall|k: int|
            0 <= k < spec_decimal(n).len() ==> 48 <= #[trigger] spec_decimal(n)[k] <= 57,
    decreases n,
{
    if n >= 10 {
        lemma_decimal_digits(n / 10);
    }
}

/// The clock display tag is cosmetic: a tagged vote token is still read as
/// exactly that vote, never as a command.
pub proof fn lemma_parse_tagged_vote(clock: u64, kind: Action)
    ensures
        spec_parse(spec_tagged(clock, spec_token(kind))) == Message::Vote(kind),
{
    let attack = spec_token(Action::Attack);
    let tok = spec_token(kind);
    let t = spec_tagged(clock, tok);
    let dec = spec_decimal(clock as nat);
    let dlen = dec.len() as int;
    lemma_decimal_digits(clock as nat);
    assert(t[0] == 60);
    assert(spec_trim_start(t) == t);
    assert(t != spec_command_text(Action::Attack)) by {
        assert(spec_command_text(Action::Attack)[0] == 83);
    }
    assert(t != spec_command_text(Action::Retreat)) by {
        assert(spec_command_text(Action::Retreat)[0] == 83);
    }
    match kind {
        Action::Attack => {
            assert(t.len() == dlen + 9);
            assert(t.last() == 75);
            assert(spec_trim_end(t) == t);
            assert(t.subrange(dlen + 3, dlen + 9) =~= attack);
            assert(matches_at(t, attack, dlen + 3));
        },
        Action::Retreat => {
            assert(t.len() == dlen + 10);
            assert(t.last() == 84);
            assert(spec_trim_end(t) == t);
            // The only byte 65 in `<digits> RETREAT` is the `A` of the
            // token itself, too close to the end to start an ATTACK match.
            assert forall|i: int| !matches_at(t, attack, i) by {
                if matches_at(t, attack, i) {
                    assert(t.subrange(i, i + 6)[0] == t[i]);
                    assert(t[i] == 65);
                    if 1 <= i < dlen + 1 {
                        assert(t[i] == dec[i - 1]);
                    }
                    assert(i == dlen + 8);
                }
            }
            assert(t.subrange(dlen + 3, dlen + 10) =~= tok);
            assert(matches_at(t, tok, dlen + 3));
        },
    }
}

/// The decimal digits of a number, most significant first.
pub open spec fn spec_decimal(n: nat) -> Seq<u8>
    decreases n,
{
    if n < 10 {
        seq![(48 + n) as u8]
    } else {
        spec_decimal(n / 10).push((48 + n % 10) as u8)
    }
}

/// A payload prefixed with a clock reading for display: `<value> payload`.
pub open spec fn spec_tagged(clock: u64, payload: Seq<u8>) -> Seq<u8> {
    seq![60u8] + spec_decimal(clock as nat) + seq![62u8, 32u8] + payload
}

/// Render a clock reading as decimal digits.
pub fn encode_decimal(n: u64) -> (v: Vec<u8>)
    ensures
        v@ == spec_decimal(n as nat),
{
    let mut digits: Vec<u8> = Vec::new();
    let mut m: u64 = n;
    while m >= 10
        invariant
            spec_decimal(n as nat) == spec_decimal(m as nat) + digits@.reverse(),
        decreases m,
    {
        let d: u8 = (48 + m % 10) as u8;
        proof {
            assert(digits@.push(d).reverse() =~= seq![d] + digits@.reverse());
            assert(spec_decimal(m as nat) =~= spec_decimal((m as nat) / 10) + seq![d]);
            assert(spec_decimal((m as nat) / 10) + seq![d] + digits@.reverse() =~= spec_decimal(
                (m as nat) / 10,
            ) + (seq![d] + digits@.reverse()));
            assert((m / 10) as nat == (m as nat) / 10);
        }
        digits.push(d);
        m = m / 10;
    }
    let last: u8 = (48 + m) as u8;
    proof {
        assert(digits@.push(last).reverse() =~= seq![last] + digits@.reverse());
        assert(spec_decimal(m as nat) =~= seq![last]);
    }
    digits.push(last);
    let dn = digits.len();
    let mut v: Vec<u8> = Vec::new();
    let mut i: usize = dn;
    while i > 0
        invariant
            0 <= i <= dn,
            dn == digits@.len(),
            v@.len() == dn - i,
            forall|k: int| 0 <= k < v@.len() ==> v@[k] == digits@[dn - 1 - k],
        decreases i,
    {
        v.push(digits[i - 1]);
        i = i - 1;
    }
    proof {
        assert(v@ =~= digits@.reverse());
        assert(spec_decimal(n as nat) =~= digits@.reverse());
    }
    v
}

/// Prefix a payload with the current clock reading, for display only.
pub fn tag_with_clock(clock: u64, payload: &[u8]) -> (v: Vec<u8>)
    ensures
        v@ == spec_tagged(clock, payload@),
{
    let mut v: Vec<u8> = Vec::new();
    v.push(60);
    let mut d = encode_decimal(clock);
    v.append(&mut d);
    v.push(62);
    v.push(32);
    let ghost head = seq![60u8] + spec_decimal(clock as nat) + seq![62u8, 32u8];
    proof {
        assert(v@ =~= head);
    }
    let n = payload.len();
    let mut k: usize = 0;
    while k < n
        invariant
            0 <= k <= n,
            n == payload@.len(),
            v@ == head + payload@.take(k as int),
        decreases n - k,
    {
        proof {
            assert((head + payload@.take(k as int)).push(payload@[k as int]) =~= head
                + payload@.take(k + 1));
        }
        v.push(payload[k]);
        k = k + 1;
    }
    proof {
        assert(payload@.take(n as int) =~= payload@);
        assert(v@ =~= spec_tagged(clock, payload@));
    }
    v
}

/// Classify a received payload as a command, a vote, or malformed.
pub fn parse_payload(payload: &[u8]) -> (m: Message)
    ensures
        m == spec_parse(payload@),
{
    let n = payload.len();
    let mut lo: usize = 0;
    proof {
        assert(payload@.skip(0) =~= payload@);
    }
    while lo < n && is_space(payload[lo])
        invariant
            0 <= lo <= n,
            n == payload@.len(),
            spec_trim_start(payload@) == spec_trim_start(payload@.skip(lo as int)),
        decreases n - lo,
    {
        proof {
            assert(payload@.skip(lo as int).first() == payload@[lo as int]);
            assert(payload@.skip(lo as int).drop_first() =~= payload@.skip(lo + 1));
        }
        lo = lo + 1;
    }
    proof {
        if lo == n {
            assert(payload@.skip(lo as int) =~= Seq::<u8>::empty());
        } else {
            assert(payload@.skip(lo as int).first() == payload@[lo as int]);
        }
        assert(spec_trim_start(payload@) == payload@.skip(lo as int));
        assert(payload@.skip(lo as int) =~= payload@.subrange(lo as int, n as int));
    }
    let mut hi: usize = n;
    while hi > lo && is_space(payload[hi - 1])
        invariant
            lo <= hi <= n,
            n == payload@.len(),
            spec_trim_start(payload@) == payload@.subrange(lo as int, n as int),
            spec_trimmed(payload@) == spec_trim_end(payload@.subrange(lo as int, hi as int)),
        decreases hi,
    {
        proof {
            assert(payload@.subrange(lo as int, hi as int).last() == payload@[hi - 1]);
            assert(payload@.subrange(lo as int, hi as int).drop_last() =~= payload@.subrange(
                lo as int,
                hi - 1,
            ));
        }
        hi = hi - 1;
    }
    proof {
        if hi == lo {
            assert(payload@.subrange(lo as int, hi as int) =~= Seq::<u8>::empty());
        } else {
            assert(payload@.subrange(lo as int, hi as int).last() == payload@[hi - 1]);
        }
        assert(spec_trimmed(payload@) == payload@.subrange(lo as int, hi as int));
    }
    let cmd_attack = encode_command(Action::Attack);
    if range_equals(payload, lo, hi, &cmd_attack) {
        return Message::Command(Action::Attack);
    }
    let cmd_retreat = encode_command(Action::Retreat);
    if range_equals(payload, lo, hi, &cmd_retreat) {
        return Message::Command(Action::Retreat);
    }
    let tok_attack = encode_vote(Action::Attack);
    if range_contains(payload, lo, hi, &tok_attack) {
        return Message::Vote(Action::Attack);
    }
    let tok_retreat = encode_vote(Action::Retreat);
    if range_contains(payload, lo, hi, &tok_retreat) {
        return Message::Vote(Action::Retreat);
    }
    Message::Malformed
}

} // verus!
