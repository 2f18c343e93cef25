use ws_gateway::events::{
    json_object, login, onboarding, parse_session_id, prompt_for, registration, webhook, Event,
    Login, LoginData, Onboarding, OnboardingData, Registration, RegistrationData,
};
use ws_gateway::proxy::{forwards_header, upstream_url};
use ws_gateway::server::{Connect, Disconnect, Message, Prompt, WsServer};
use ws_gateway::session::{
    id_frame, Action, CloseReason, Frame, Tick, WsSession, CLIENT_TIMEOUT_MS,
    HEARTBEAT_INTERVAL_MS,
};

fn registration_event(session_id: Option<&str>) -> Event {
    Event::Registration(Registration {
        success: true,
        data: Some(RegistrationData {
            t: registration(),
            user_id: "u1".to_string(),
            session_id: session_id.map(|s| s.to_string()),
            password: Some("p".to_string()),
        }),
        error_message: None,
        onboarding_id: "o1".to_string(),
    })
}

fn login_event(outer: Option<&str>, with_data: bool) -> Event {
    Event::Login(Login {
        success: true,
        data: if with_data {
            Some(LoginData {
                t: login(),
                target: "home".to_string(),
                tokens: Some("{\"access\":\"x\"}".to_string()),
            })
        } else {
            None
        },
        session_id: outer.map(|s| s.to_string()),
        error_message: None,
        onboarding_id: "o1".to_string(),
    })
}

fn json(text: &str) -> serde_json::Value {
    serde_json::from_str(text).unwrap()
}

#[test]
fn default_types() {
    assert_eq!(registration(), "registration");
    assert_eq!(onboarding(), "onboarding");
    assert_eq!(login(), "login");
}

#[test]
fn parse_ids() {
    assert_eq!(parse_session_id("42"), Some(42));
    assert_eq!(parse_session_id("0"), Some(0));
    assert_eq!(parse_session_id("0042"), Some(42));
    assert_eq!(parse_session_id("+7"), Some(7));
    assert_eq!(parse_session_id("65535"), Some(65535));
    assert_eq!(parse_session_id("65536"), None);
    assert_eq!(parse_session_id("9999999"), None);
    assert_eq!(parse_session_id(""), None);
    assert_eq!(parse_session_id("+"), None);
    assert_eq!(parse_session_id("-1"), None);
    assert_eq!(parse_session_id("4a"), None);
    assert_eq!(parse_session_id(" 42"), None);
}

#[test]
fn object_framing() {
    let members = vec![
        ("a".to_string(), "1".to_string()),
        ("b".to_string(), "\"x\"".to_string()),
    ];
    assert_eq!(json_object(&members), "{\"a\":1,\"b\":\"x\"}");
    assert_eq!(json_object(&Vec::new()), "{}");
}

#[test]
fn registration_payload_text() {
    let d = RegistrationData {
        t: registration(),
        user_id: "u1".to_string(),
        session_id: Some("42".to_string()),
        password: None,
    };
    assert_eq!(
        d.to_json(),
        "{\"type\":\"registration\",\"userId\":\"u1\",\"sessionId\":\"42\",\"password\":null}"
    );
}

#[test]
fn payload_escapes_strings() {
    let d = RegistrationData {
        t: registration(),
        user_id: "a\"b\\c".to_string(),
        session_id: None,
        password: Some("p\nq".to_string()),
    };
    let text = d.to_json();
    assert_eq!(
        text,
        "{\"type\":\"registration\",\"userId\":\"a\\\"b\\\\c\",\"sessionId\":null,\"password\":\"p\\nq\"}"
    );
    assert_eq!(json(&text)["userId"], "a\"b\\c");
}

#[test]
fn login_payload_text() {
    let d = LoginData { t: login(), target: "home".to_string(), tokens: None };
    assert_eq!(d.to_json(), "{\"type\":\"login\",\"target\":\"home\",\"tokens\":null}");
}

#[test]
fn happy_registration() {
    let mut srv: WsServer<u32> = WsServer::new();
    srv.insert_session(42, 1);
    let mut session = WsSession::new(0);
    match session.started(Some(42)) {
        Action::Text(t) => assert_eq!(json(&t), json("{\"type\":\"id\",\"value\":42}")),
        _ => panic!("expected the id frame"),
    }
    let event = registration_event(Some("42"));
    let (h, m) = webhook(&srv, &event).unwrap();
    assert_eq!(*h, 1);
    let frame = match session.deliver(m) {
        Action::Text(t) => t,
        _ => panic!("expected a text frame"),
    };
    assert_eq!(
        json(&frame),
        json("{\"type\":\"registration\",\"userId\":\"u1\",\"sessionId\":\"42\",\"password\":\"p\"}")
    );
}

#[test]
fn happy_login() {
    let mut srv: WsServer<u32> = WsServer::new();
    srv.insert_session(7, 2);
    let event = login_event(Some("7"), true);
    let (h, m) = webhook(&srv, &event).unwrap();
    assert_eq!(*h, 2);
    assert_eq!(
        json(&m.0),
        json("{\"type\":\"login\",\"target\":\"home\",\"tokens\":{\"access\":\"x\"}}")
    );
}

#[test]
fn login_uses_outer_id() {
    let p = prompt_for(&login_event(Some("7"), true)).unwrap();
    assert_eq!(p.id, 7);
    assert!(prompt_for(&login_event(None, true)).is_none());
    assert!(prompt_for(&login_event(Some("7"), false)).is_none());
    assert!(prompt_for(&login_event(Some("x7"), true)).is_none());
}

#[test]
fn registration_without_usable_id() {
    assert!(prompt_for(&registration_event(None)).is_none());
    assert!(prompt_for(&registration_event(Some("70000"))).is_none());
    let no_data = Event::Registration(Registration {
        success: false,
        data: None,
        error_message: Some("failed".to_string()),
        onboarding_id: "o1".to_string(),
    });
    assert!(prompt_for(&no_data).is_none());
}

#[test]
fn unknown_target() {
    let mut srv: WsServer<u32> = WsServer::new();
    let event = registration_event(Some("9999"));
    assert!(webhook(&srv, &event).is_none());
    assert!(!srv.contains(9999));
    srv.insert_session(9999, 3);
    assert!(srv.contains(9999));
    assert!(srv.send_message(9999, "later".to_string()).map(|(_, m)| m.0) == Some("later".to_string()));
}

#[test]
fn onboarding_is_noop() {
    let event = Event::Onboarding(Onboarding {
        success: true,
        data: Some(OnboardingData {
            t: onboarding(),
            user_id: "u1".to_string(),
            session_id: Some("42".to_string()),
        }),
        error_message: None,
        onboarding_id: "o1".to_string(),
    });
    let mut srv: WsServer<u32> = WsServer::new();
    srv.insert_session(42, 1);
    assert!(prompt_for(&event).is_none());
    assert!(webhook(&srv, &event).is_none());
}

#[test]
fn heartbeat_timeout() {
    let session = WsSession::new(1000);
    assert_eq!(session.hb(1000 + HEARTBEAT_INTERVAL_MS), Tick::Ping);
    assert_eq!(session.hb(1000 + CLIENT_TIMEOUT_MS), Tick::Ping);
    assert_eq!(session.hb(1000 + CLIENT_TIMEOUT_MS + 1), Tick::Stop);
    assert_eq!(session.hb(1000 + 15000), Tick::Stop);
    assert_eq!(session.hb(500), Tick::Ping);
    let mut srv: WsServer<u32> = WsServer::new();
    let k = srv.connect(Connect { addr: 9 });
    assert!(srv.contains(k));
    srv.disconnect(Disconnect { id: k });
    assert!(srv.prompt(Prompt { id: k, data: "x".to_string() }).is_none());
}

#[test]
fn heartbeat_refreshed_by_ping_and_pong() {
    let mut session = WsSession::new(0);
    assert!(matches!(session.handle(Frame::Ping(vec![1, 2]), 8000), Action::Pong(p) if p == vec![1, 2]));
    assert_eq!(session.hb, 8000);
    assert!(matches!(session.handle(Frame::Pong(vec![]), 9000), Action::Ignore));
    assert_eq!(session.hb, 9000);
    assert_eq!(session.hb(15000), Tick::Ping);
    assert!(matches!(session.handle(Frame::Text("hi".to_string()), 20000), Action::Text(t) if t == "hi"));
    assert_eq!(session.hb, 9000);
}

#[test]
fn reverse_proxy_bypass() {
    assert_eq!(upstream_url("/anything/else"), "http://localhost:3000/anything/else");
    assert!(!forwards_header("connection"));
    assert!(forwards_header("content-type"));
    assert!(forwards_header("connections"));
    assert!(forwards_header("connectioN"));
    assert!(forwards_header(""));
}

#[test]
fn frame_policy() {
    let mut session = WsSession::new(0);
    assert!(matches!(session.handle(Frame::Binary(vec![1]), 5), Action::Ignore));
    assert!(matches!(session.handle(Frame::Nop, 5), Action::Ignore));
    assert!(matches!(session.handle(Frame::Continuation, 5), Action::Stop));
    assert!(matches!(session.handle(Frame::Error, 5), Action::Stop));
    let reason = CloseReason { code: 1000, description: Some("bye".to_string()) };
    match session.handle(Frame::Close(Some(reason)), 5) {
        Action::Close(Some(r)) => {
            assert_eq!(r.code, 1000);
            assert_eq!(r.description, Some("bye".to_string()));
        }
        _ => panic!("expected a close"),
    }
    assert_eq!(session.hb, 0);
    assert_eq!(session.id, 0);
}

#[test]
fn attach_failure_sends_nothing() {
    let mut session = WsSession::new(0);
    assert!(matches!(session.started(None), Action::Stop));
    assert_eq!(session.id, 0);
}

#[test]
fn id_frames() {
    assert_eq!(id_frame(42), "{\"type\":\"id\",\"value\":42}");
    assert_eq!(id_frame(0), "{\"type\":\"id\",\"value\":0}");
    assert_eq!(id_frame(65535), "{\"type\":\"id\",\"value\":65535}");
    let v = json(&id_frame(1234));
    assert_eq!(v["type"], "id");
    assert_eq!(v["value"], 1234);
}

#[test]
fn registry_integrity() {
    let mut srv: WsServer<u32> = WsServer::new();
    srv.insert_session(1, 10);
    srv.insert_session(2, 20);
    assert!(srv.prompt(Prompt { id: 3, data: "x".to_string() }).is_none());
    srv.disconnect(Disconnect { id: 1 });
    srv.disconnect(Disconnect { id: 5 });
    srv.insert_session(1, 11);
    srv.disconnect(Disconnect { id: 2 });
    assert!(srv.contains(1));
    assert!(!srv.contains(2));
    assert!(!srv.contains(3));
    let a = srv.connect(Connect { addr: 30 });
    assert!(srv.contains(a));
}

#[test]
fn prompts_in_order() {
    let mut srv: WsServer<u32> = WsServer::new();
    srv.insert_session(5, 50);
    let mut seen: Vec<(u32, String)> = Vec::new();
    for p in ["p1", "p2", "p3"] {
        if let Some((h, m)) = srv.prompt(Prompt { id: 5, data: p.to_string() }) {
            seen.push((*h, m.0));
        }
    }
    assert_eq!(
        seen,
        vec![(50, "p1".to_string()), (50, "p2".to_string()), (50, "p3".to_string())]
    );
}

#[test]
fn overwrite_replaces_occupant() {
    let mut srv: WsServer<u32> = WsServer::new();
    srv.insert_session(8, 1);
    srv.insert_session(8, 2);
    let (h, m) = srv.send_message(8, "m".to_string()).unwrap();
    assert_eq!(*h, 2);
    assert_eq!(m.0, "m");
    let session = WsSession::new(0);
    assert!(matches!(session.deliver(Message("z".to_string())), Action::Text(t) if t == "z"));
}

#[test]
fn detach_uses_session_id() {
    let mut session = WsSession::new(0);
    assert_eq!(session.disconnect().id, 0);
    let _ = session.started(Some(321));
    assert_eq!(session.disconnect().id, 321);
}
