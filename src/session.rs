use vstd::prelude::*;
use vstd::string::*;

use crate::events::{all_digits, digit_value, digits_value, is_digit, parse_u16, unsigned_digits};
use crate::server::{Disconnect, Message};

verus! {

/// How often a session checks on its peer and pings it, in milliseconds.
pub const HEARTBEAT_INTERVAL_MS: u64 = 5000;

/// How long a session waits for a frame from its peer before it gives up, in
/// milliseconds.
pub const CLIENT_TIMEOUT_MS: u64 = 10000;

/// The character of a decimal digit.
pub open spec fn digit_char(d: nat) -> char {
    if d == 0 {
        '0'
    } else if d == 1 {
        '1'
    } else if d == 2 {
        '2'
    } else if d == 3 {
        '3'
    } else if d == 4 {
        '4'
    } else if d == 5 {
        '5'
    } else if d == 6 {
        '6'
    } else if d == 7 {
        '7'
    } else if d == 8 {
        '8'
    } else {
        '9'
    }
}

/// A number in decimal: its digits, most significant first, without leading
/// zeros.
pub open spec fn decimal_text(n: nat) -> Seq<char>
    decreases n,
{
    if n < 10 {
        seq![digit_char(n)]
    } else {
        decimal_text(n / 10).push(digit_char(n % 10))
    }
}

/// Relies on `ToString` for `u16`, through its `Display`: the number in
/// decimal, without sign or leading zeros.
#[verifier::external_body]
fn decimal(n: u16) -> (r: String)
    ensures
        r@ == decimal_text(n as nat),
{
    n.to_string()
}

/// The first frame a session sends: the JSON object that tells the client
/// its id.
pub open spec fn id_frame_text(id: u16) -> Seq<char> {
    "{\"type\":\"id\",\"value\":"@ + decimal_text(id as nat) + "}"@
}

/// Writes the frame that tells a client its session id.
pub fn id_frame(id: u16) -> (r: String)
    ensures
        r@ == id_frame_text(id),
{
    let mut r = String::from_str("{\"type\":\"id\",\"value\":");
    let digits = decimal(id);
    r.append(digits.as_str());
    r.append("}");
    r
}

proof fn lemma_digit_char(d: nat)
    requires
        d < 10,
    ensures
        is_digit(digit_char(d)),
        digit_value(digit_char(d)) == d,
{
}

proof fn lemma_decimal_digits(n: nat)
    ensures
        decimal_text(n).len() > 0,
        all_digits(decimal_text(n)),
        digits_value(decimal_text(n)) == n,
    decreases n,
{
    lemma_digit_char(n % 10);
    if n >= 10 {
        lemma_decimal_digits(n / 10);
        assert(n == (n / 10) * 10 + n % 10);
        let s = decimal_text(n);
        assert(s.drop_last() =~= decimal_text(n / 10));
        assert(s.last() == digit_char(n % 10));
        assert(digits_value(s) == digits_value(s.drop_last()) * 10 + digit_value(s.last()));
        assert forall|i: int| 0 <= i < s.len() implies is_digit(#[trigger] s[i]) by {
            if i < s.len() - 1 {
                assert(s[i] == decimal_text(n / 10)[i]);
            }
        }
    } else {
        let s = decimal_text(n);
        assert(s.drop_last() =~= Seq::<char>::empty());
        assert(digits_value(s) == digits_value(s.drop_last()) * 10 + digit_value(s.last()));
    }
}

/// The id frame carries, as a decimal that reads back as a 16-bit id, exactly
/// the id it was written for.
pub proof fn lemma_id_frame_value(id: u16)
    ensures
        id_frame_text(id) == "{\"type\":\"id\",\"value\":"@ + decimal_text(id as nat) + "}"@,
        parse_u16(decimal_text(id as nat)) == Some(id),
{
    lemma_decimal_digits(id as nat);
    let s = decimal_text(id as nat);
    assert(is_digit(s[0]));
    assert(unsigned_digits(s) == s);
}

/// What a peer may send to a session: the WebSocket frames, a frame that
/// carries nothing, and a protocol error.
pub enum Frame {
    Ping(Vec<u8>),
    Pong(Vec<u8>),
    Text(String),
    Binary(Vec<u8>),
    Close(Option<CloseReason>),
    Continuation,
    Nop,
    Error,
}

/// The code and optional description of a close frame.
pub struct CloseReason {
    pub code: u16,
    pub description: Option<String>,
}

/// What a session does with its connection in answer to an event.
pub enum Action {
    /// Send a pong with this payload.
    Pong(Vec<u8>),
    /// Send this text frame.
    Text(String),
    /// Send a close frame with this reason, then terminate.
    Close(Option<CloseReason>),
    /// Terminate.
    Stop,
    /// Do nothing.
    Ignore,
}

/// What a session does when its heartbeat timer fires.
#[derive(Debug, PartialEq, Eq, Structural, Clone, Copy)]
pub enum Tick {
    Ping,
    Stop,
}

/// The time since the last frame from the peer; zero if the clock reads
/// earlier than that frame.
pub open spec fn elapsed(hb: u64, now: u64) -> int {
    if now >= hb {
        now - hb
    } else {
        0
    }
}

/// The heartbeat's decision at time `now`, for a peer last heard from at `hb`.
pub open spec fn tick_at(hb: u64, now: u64) -> Tick {
    if elapsed(hb, now) > CLIENT_TIMEOUT_MS {
        Tick::Stop
    } else {
        Tick::Ping
    }
}

/// One live connection: its id (0 until the registry assigns one) and the
/// time, in milliseconds, of the last ping or pong from the peer.
pub struct WsSession {
    pub id: u16,
    pub hb: u64,
}

impl WsSession {
    /// A session that has just been upgraded at time `now`.
    pub fn new(now: u64) -> (r: WsSession)
        ensures
            r.id == 0,
            r.hb == now,
    {
        WsSession { id: 0, hb: now }
    }

    /// The heartbeat: stop once the peer has been silent for longer than the
    /// timeout, otherwise ping it.
    pub fn hb(&self, now: u64) -> (r: Tick)
        ensures
            r == tick_at(self.hb, now),
    {
        let since = if now >= self.hb {
            now - self.hb
        } else {
            0
        };
        if since > CLIENT_TIMEOUT_MS {
            Tick::Stop
        } else {
            Tick::Ping
        }
    }

    /// The registry's answer to attach: with an id, the session takes it and
    /// sends the id frame; without one, it terminates without sending.
    pub fn started(&mut self, assigned: Option<u16>) -> (r: Action)
        ensures
            final(self).hb == old(self).hb,
            match assigned {
                Some(id) => final(self).id == id && (r matches Action::Text(t) && t@
                    == id_frame_text(id)),
                None => final(self).id == old(self).id && (r matches Action::Stop),
            },
    {
        match assigned {
            Some(id) => {
                self.id = id;
                Action::Text(id_frame(id))
            },
            None => Action::Stop,
        }
    }

    /// The detach request a terminating session sends; with id 0 where attach
    /// never completed, which the registry treats like any other id.
    pub fn disconnect(&self) -> (r: Disconnect)
        ensures
            r.id == self.id,
    {
        Disconnect { id: self.id }
    }

    /// A payload from the registry goes out as one text frame, unchanged.
    pub fn deliver(&self, msg: Message) -> (r: Action)
        ensures
            r == Action::Text(msg.0),
    {
        Action::Text(msg.0)
    }

    /// The inbound frame policy. Pings and pongs refresh the time the peer was
    /// last heard from, and a ping is answered with a pong of the same
    /// payload; text is echoed; a close is returned and ends the session, as
    /// do a continuation and a protocol error; anything else is ignored.
    pub fn handle(&mut self, frame: Frame, now: u64) -> (r: Action)
        ensures
            final(self).id == old(self).id,
            match frame {
                Frame::Ping(p) => r == Action::Pong(p) && final(self).hb == now,
                Frame::Pong(_) => r == Action::Ignore && final(self).hb == now,
                Frame::Text(t) => r == Action::Text(t) && final(self).hb == old(self).hb,
                Frame::Close(c) => r == Action::Close(c) && final(self).hb == old(self).hb,
                Frame::Continuation | Frame::Error => r == Action::Stop && final(self).hb == old(
                    self,
                ).hb,
                Frame::Binary(_) | Frame::Nop => r == Action::Ignore && final(self).hb == old(
                    self,
                ).hb,
            },
    {
        match frame {
            Frame::Ping(p) => {
                self.hb = now;
                Action::Pong(p)
            },
            Frame::Pong(_) => {
                self.hb = now;
                Action::Ignore
            },
            Frame::Text(t) => Action::Text(t),
            Frame::Close(c) => Action::Close(c),
            Frame::Continuation => Action::Stop,
            Frame::Error => Action::Stop,
            Frame::Binary(_) => Action::Ignore,
            Frame::Nop => Action::Ignore,
        }
    }
}

/// The time of the `k`-th heartbeat of a session started at `start`.
pub open spec fn tick_time(start: u64, k: nat) -> int {
    start + k * HEARTBEAT_INTERVAL_MS
}

/// A session whose peer was last heard from at `hb`, and whose heartbeat
/// fires every interval from its start `start`, stops at a tick no later than
/// timeout plus one interval after `hb`.
pub proof fn lemma_heartbeat_bound(hb: u64, start: u64)
    requires
        start <= hb,
        hb + CLIENT_TIMEOUT_MS + HEARTBEAT_INTERVAL_MS <= u64::MAX,
    ensures
        exists|k: nat|
            {
                let t = #[trigger] tick_time(start, k);
                &&& hb + CLIENT_TIMEOUT_MS < t <= hb + CLIENT_TIMEOUT_MS + HEARTBEAT_INTERVAL_MS
                &&& tick_at(hb, t as u64) == Tick::Stop
            },
{
    let d: int = hb + CLIENT_TIMEOUT_MS - start;
    let q: int = d / (HEARTBEAT_INTERVAL_MS as int);
    assert(q * 5000 <= d < q * 5000 + 5000) by (nonlinear_arith)
        requires
            q == d / 5000,
            d >= 0,
    ;
    let k: nat = (q + 1) as nat;
    let t = tick_time(start, k);
    assert(t == start + q * 5000 + 5000);
    assert(tick_at(hb, t as u64) == Tick::Stop);
}

} // verus!
