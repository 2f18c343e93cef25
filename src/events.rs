use vstd::prelude::*;
use vstd::string::*;

use crate::server::{Message, Prompt, WsServer};

verus! {

// ---- decimal session ids ----

/// An ASCII decimal digit.
pub open spec fn is_digit(c: char) -> bool {
    '0' <= c && c <= '9'
}

/// The value of a decimal digit.
pub open spec fn digit_value(c: char) -> nat {
    (c as int - '0' as int) as nat
}

/// Every character is a decimal digit.
pub open spec fn all_digits(s: Seq<char>) -> bool {
    forall|i: int| 0 <= i < s.len() ==> is_digit(#[trigger] s[i])
}

/// The number that a string of decimal digits denotes.
pub open spec fn digits_value(s: Seq<char>) -> nat
    decreases s.len(),
{
    if s.len() == 0 {
        0
    } else {
        digits_value(s.drop_last()) * 10 + digit_value(s.last())
    }
}

/// The digits of an unsigned decimal, with its optional leading `+` taken off.
pub open spec fn unsigned_digits(s: Seq<char>) -> Seq<char> {
    if s.len() > 0 && s[0] == '+' {
        s.subrange(1, s.len() as int)
    } else {
        s
    }
}

/// A 16-bit unsigned decimal: an optional `+`, then one or more digits whose
/// value fits in 16 bits. Leading zeros are allowed.
pub open spec fn parse_u16(s: Seq<char>) -> Option<u16> {
    let d = unsigned_digits(s);
    if d.len() > 0 && all_digits(d) && digits_value(d) <= 65535 {
        Some(digits_value(d) as u16)
    } else {
        None
    }
}

proof fn lemma_digits_prefix(s: Seq<char>, k: int)
    requires
        0 <= k < s.len(),
    ensures
        digits_value(s.subrange(0, k + 1)) == digits_value(s.subrange(0, k)) * 10 + digit_value(
            s[k],
        ),
{
    assert(s.subrange(0, k + 1).drop_last() =~= s.subrange(0, k));
}

proof fn lemma_digits_monotone(s: Seq<char>, k: int)
    requires
        0 <= k <= s.len(),
    ensures
        digits_value(s.subrange(0, k)) <= digits_value(s),
    decreases s.len(),
{
    if k < s.len() {
        let p = s.drop_last();
        lemma_digits_monotone(p, k);
        assert(p.subrange(0, k) =~= s.subrange(0, k));
    } else {
        assert(s.subrange(0, k) =~= s);
    }
}

/// Reads a session id written in decimal, as the webhook carries it.
pub fn parse_session_id(s: &str) -> (r: Option<u16>)
    ensures
        r == parse_u16(s@),
{
    let n = s.unicode_len();
    let mut start: usize = 0;
    if n > 0 && s.get_char(0) == '+' {
        start = 1;
    }
    let ghost d = unsigned_digits(s@);
    assert(d =~= s@.subrange(start as int, n as int));
    if start >= n {
        return None;
    }
    let mut acc: u32 = 0;
    let mut i: usize = start;
    while i < n
        invariant
            start <= i <= n,
            n == s@.len(),
            d == s@.subrange(start as int, n as int),
            d == unsigned_digits(s@),
            all_digits(d.subrange(0, i - start)),
            acc as nat == digits_value(d.subrange(0, i - start)),
            acc <= 65535,
        decreases n - i,
    {
        let c = s.get_char(i);
        assert(d[i - start] == c);
        if !('0' <= c && c <= '9') {
            assert(!is_digit(d[i - start]));
            assert(!all_digits(d));
            return None;
        }
        proof {
            lemma_digits_prefix(d, i - start);
        }
        let next = acc * 10 + (c as u32 - '0' as u32);
        assert(next as nat == digits_value(d.subrange(0, i - start + 1)));
        if next > 65535 {
            proof {
                if all_digits(d) {
                    lemma_digits_monotone(d, i - start + 1);
                }
            }
            return None;
        }
        acc = next;
        i = i + 1;
        assert(all_digits(d.subrange(0, i - start))) by {
            assert forall|j: int| 0 <= j < i - start implies is_digit(
                #[trigger] d.subrange(0, i - start)[j],
            ) by {
                if j < i - start - 1 {
                    assert(d.subrange(0, i - start)[j] == d.subrange(0, i - start - 1)[j]);
                }
            }
        }
    }
    assert(d.subrange(0, n - start) =~= d);
    Some(acc as u16)
}

// ---- JSON text ----

/// The JSON string literal that serde_json writes for a string.
pub uninterp spec fn json_quoted(s: Seq<char>) -> Seq<char>;

/// Relies on serde_json's compact `Display` of `Value::String`: the string as a
/// JSON string literal, quoted and escaped.
#[verifier::external_body]
fn json_string(s: &str) -> (r: String)
    ensures
        r@ == json_quoted(s@),
{
    serde_json::Value::String(s.to_string()).to_string()
}

/// One member of a JSON object: the quoted key, a colon, the encoded value.
pub open spec fn member_text(m: (Seq<char>, Seq<char>)) -> Seq<char> {
    seq!['"'] + m.0 + seq!['"', ':'] + m.1
}

/// Members separated by commas.
pub open spec fn members_text(ms: Seq<(Seq<char>, Seq<char>)>) -> Seq<char>
    decreases ms.len(),
{
    if ms.len() == 0 {
        Seq::empty()
    } else if ms.len() == 1 {
        member_text(ms[0])
    } else {
        members_text(ms.drop_last()) + seq![','] + member_text(ms.last())
    }
}

/// A JSON object, written compactly, whose members are the given keys and
/// already encoded values, in order.
pub open spec fn object_text(ms: Seq<(Seq<char>, Seq<char>)>) -> Seq<char> {
    seq!['{'] + members_text(ms) + seq!['}']
}

/// The (key, value) pairs of a vector of strings, as character sequences.
pub open spec fn pairs_view(v: Seq<(String, String)>) -> Seq<(Seq<char>, Seq<char>)> {
    v.map_values(|p: (String, String)| (p.0@, p.1@))
}

/// Writes a JSON object from (key, encoded value) pairs. Keys are written as
/// they are, between quotes: callers pass keys that need no escaping.
pub fn json_object(members: &Vec<(String, String)>) -> (r: String)
    ensures
        r@ == object_text(pairs_view(members@)),
{
    proof {
        reveal_strlit("{");
        reveal_strlit("}");
        reveal_strlit(",");
        reveal_strlit("\"");
        reveal_strlit("\":");
    }
    let ghost ms = pairs_view(members@);
    let mut out = String::from_str("{");
    let mut i: usize = 0;
    while i < members.len()
        invariant
            i <= members@.len(),
            ms == pairs_view(members@),
            out@ == seq!['{'] + members_text(ms.subrange(0, i as int)),
        decreases members@.len() - i,
    {
        let ghost before = out@;
        proof {
            reveal_strlit(",");
            reveal_strlit("\"");
            reveal_strlit("\":");
        }
        if i > 0 {
            out.append(",");
        }
        let ghost sep = out@;
        let key = members[i].0.as_str();
        let value = members[i].1.as_str();
        out.append("\"");
        out.append(key);
        out.append("\":");
        out.append(value);
        proof {
            let sub = ms.subrange(0, i + 1);
            assert(sub.drop_last() =~= ms.subrange(0, i as int));
            assert(sub.last() == ms[i as int]);
            assert(ms[i as int] == (members@[i as int].0@, members@[i as int].1@));
            assert(out@ =~= sep + member_text(ms[i as int]));
            if i == 0 {
                assert(sep =~= seq!['{']);
                assert(members_text(sub) == member_text(sub[0]));
                assert(out@ =~= seq!['{'] + members_text(sub));
            } else {
                assert(sep =~= before + seq![',']);
                assert(members_text(sub) == members_text(sub.drop_last()) + seq![','] + member_text(
                    sub.last(),
                ));
                assert(out@ =~= seq!['{'] + members_text(sub));
            }
        }
        i = i + 1;
    }
    out.append("}");
    assert(ms.subrange(0, members@.len() as int) =~= ms);
    out
}

/// The JSON text of an optional string: its literal, or `null`.
pub open spec fn optional_text(o: Option<String>) -> Seq<char> {
    match o {
        Some(s) => json_quoted(s@),
        None => "null"@,
    }
}

/// An optional string as JSON: its literal, or `null`.
fn optional_json(o: &Option<String>) -> (r: String)
    ensures
        r@ == optional_text(*o),
{
    match o {
        Some(s) => json_string(s.as_str()),
        None => String::from_str("null"),
    }
}

// ---- events ----

/// The default `type` of a registration payload.
pub fn registration() -> (r: String)
    ensures
        r@ == "registration"@,
{
    String::from_str("registration")
}

/// The default `type` of an onboarding payload.
pub fn onboarding() -> (r: String)
    ensures
        r@ == "onboarding"@,
{
    String::from_str("onboarding")
}

/// The default `type` of a login payload.
pub fn login() -> (r: String)
    ensures
        r@ == "login"@,
{
    String::from_str("login")
}

pub struct Registration {
    pub success: bool,
    pub data: Option<RegistrationData>,
    pub error_message: Option<String>,
    pub onboarding_id: String,
}

pub struct RegistrationData {
    pub t: String,
    pub user_id: String,
    pub session_id: Option<String>,
    pub password: Option<String>,
}

pub struct Onboarding {
    pub success: bool,
    pub data: Option<OnboardingData>,
    pub error_message: Option<String>,
    pub onboarding_id: String,
}

pub struct OnboardingData {
    pub t: String,
    pub user_id: String,
    pub session_id: Option<String>,
}

pub struct Login {
    pub success: bool,
    pub data: Option<LoginData>,
    pub session_id: Option<String>,
    pub error_message: Option<String>,
    pub onboarding_id: String,
}

/// Inner data of a login event; `tokens` holds JSON text, carried as it is.
pub struct LoginData {
    pub t: String,
    pub target: String,
    pub tokens: Option<String>,
}

/// A webhook event, by its trigger.
pub enum Event {
    Registration(Registration),
    Onboarding(Onboarding),
    Login(Login),
}

/// The members of a registration payload, in the order written.
pub open spec fn registration_members(d: RegistrationData) -> Seq<(Seq<char>, Seq<char>)> {
    seq![
        ("type"@, json_quoted(d.t@)),
        ("userId"@, json_quoted(d.user_id@)),
        ("sessionId"@, optional_text(d.session_id)),
        ("password"@, optional_text(d.password)),
    ]
}

/// The members of a login payload, in the order written; the tokens are
/// written as the JSON text they hold.
pub open spec fn login_members(d: LoginData) -> Seq<(Seq<char>, Seq<char>)> {
    seq![
        ("type"@, json_quoted(d.t@)),
        ("target"@, json_quoted(d.target@)),
        ("tokens"@, match d.tokens {
            Some(t) => t@,
            None => "null"@,
        }),
    ]
}

impl RegistrationData {
    /// The payload pushed to the browser: this data as a JSON object, with the
    /// discriminator under the key `type`.
    pub fn to_json(&self) -> (r: String)
        ensures
            r@ == object_text(registration_members(*self)),
    {
        let members = vec![
            (String::from_str("type"), json_string(self.t.as_str())),
            (String::from_str("userId"), json_string(self.user_id.as_str())),
            (String::from_str("sessionId"), optional_json(&self.session_id)),
            (String::from_str("password"), optional_json(&self.password)),
        ];
        let r = json_object(&members);
        assert(pairs_view(members@) =~= registration_members(*self));
        r
    }
}

impl LoginData {
    /// The payload pushed to the browser: this data as a JSON object, with the
    /// discriminator under the key `type`.
    pub fn to_json(&self) -> (r: String)
        ensures
            r@ == object_text(login_members(*self)),
    {
        let tokens = match &self.tokens {
            Some(t) => t.clone(),
            None => String::from_str("null"),
        };
        let members = vec![
            (String::from_str("type"), json_string(self.t.as_str())),
            (String::from_str("target"), json_string(self.target.as_str())),
            (String::from_str("tokens"), tokens),
        ];
        let r = json_object(&members);
        assert(pairs_view(members@) =~= login_members(*self));
        r
    }
}

/// The session an event is addressed to: for a registration the inner
/// `sessionId`, for a login the outer one, in both cases only where inner data
/// is present and the id reads as a 16-bit decimal. Onboarding events address
/// no one.
pub open spec fn event_target(e: Event) -> Option<u16> {
    match e {
        Event::Registration(r) => match r.data {
            Some(d) => match d.session_id {
                Some(s) => parse_u16(s@),
                None => None,
            },
            None => None,
        },
        Event::Onboarding(_) => None,
        Event::Login(l) => match l.data {
            Some(_) => match l.session_id {
                Some(s) => parse_u16(s@),
                None => None,
            },
            None => None,
        },
    }
}

/// The payload an addressed event pushes: its inner data as JSON.
pub open spec fn event_payload(e: Event) -> Seq<char> {
    match e {
        Event::Registration(r) => match r.data {
            Some(d) => object_text(registration_members(d)),
            None => Seq::empty(),
        },
        Event::Login(l) => match l.data {
            Some(d) => object_text(login_members(d)),
            None => Seq::empty(),
        },
        Event::Onboarding(_) => Seq::empty(),
    }
}

/// The session id an optional string reads as, if any.
fn optional_id(s: &Option<String>) -> (r: Option<u16>)
    ensures
        r == match *s {
            Some(t) => parse_u16(t@),
            None => None,
        },
{
    match s {
        Some(t) => parse_session_id(t.as_str()),
        None => None,
    }
}

/// The prompt a webhook event gives rise to, if any: one is made exactly when
/// the event is addressed to a session, and carries the event's payload.
pub fn prompt_for(event: &Event) -> (r: Option<Prompt>)
    ensures
        match r {
            Some(p) => event_target(*event) == Some(p.id) && p.data@ == event_payload(*event),
            None => event_target(*event) is None,
        },
{
    match event {
        Event::Registration(e) => match &e.data {
            Some(d) => match optional_id(&d.session_id) {
                Some(id) => Some(Prompt { id, data: d.to_json() }),
                None => None,
            },
            None => None,
        },
        Event::Onboarding(_) => None,
        Event::Login(e) => match &e.data {
            Some(d) => match optional_id(&e.session_id) {
                Some(id) => Some(Prompt { id, data: d.to_json() }),
                None => None,
            },
            None => None,
        },
    }
}

/// The webhook's effect on the registry: the handle and message that the
/// event's prompt is delivered as, where the event is addressed to a
/// registered session; nothing otherwise. The registry is not changed.
pub fn webhook<'a, H>(srv: &'a WsServer<H>, event: &Event) -> (r: Option<(&'a H, Message)>)
    ensures
        match r {
            Some((h, m)) => event_target(*event) matches Some(id) && srv@.contains_key(id) && *h
                == srv@[id] && m.0@ == event_payload(*event),
            None => match event_target(*event) {
                Some(id) => !srv@.contains_key(id),
                None => true,
            },
        },
{
    match prompt_for(event) {
        Some(p) => srv.send_message(p.id, p.data),
        None => None,
    }
}

/// A login event is addressed by its outer session id alone, read as a 16-bit
/// decimal, and only where it carries inner data.
pub proof fn lemma_login_addressing(l: Login)
    ensures
        event_target(Event::Login(l)) == if l.data is Some && l.session_id is Some {
            parse_u16(l.session_id.unwrap()@)
        } else {
            None
        },
{
}

/// A registration event is addressed by the session id inside its data, and
/// pushes that data as a JSON object with the discriminator under `type`.
pub proof fn lemma_registration_payload(r: Registration, d: RegistrationData)
    requires
        r.data == Some(d),
    ensures
        event_target(Event::Registration(r)) == match d.session_id {
            Some(s) => parse_u16(s@),
            None => None,
        },
        event_payload(Event::Registration(r)) == object_text(registration_members(d)),
        registration_members(d)[0] == ("type"@, json_quoted(d.t@)),
{
}

} // verus!
