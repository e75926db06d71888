use std::time::Duration;

use discord_relay::discord::wss::{
    heartbeat, identify, recv_json, resume, Action, Connection, Disconnect, Flow, Gateway,
    GatewayError, Incoming, Session, Signal, Step,
};
use discord_relay::dispatch::{Dispatcher, ForwardEvent};
use discord_relay::metrics::Sample;
use discord_relay::model::Client;
use serde_json::Value;
use tokio::sync::mpsc;

const HELLO: &str = r#"{"op":10,"s":null,"t":null,"d":{"heartbeat_interval":41250}}"#;
const READY: &str = r#"{"op":0,"s":1,"t":"READY","d":{"session_id":"abc","resume_gateway_url":"wss://resume.example/"}}"#;
const ACK: &str = r#"{"op":11}"#;

fn json(text: &str) -> Value {
    serde_json::from_str(text).unwrap()
}

fn text(frame: &str) -> Signal {
    Signal::Frame(Incoming::Text(frame.to_owned()))
}

fn client() -> Client {
    Client {
        webhook_secret: "w".to_owned(),
        project_id: "proj".to_owned(),
        project_secret: "s".to_owned(),
        bot_token: "token".to_owned(),
    }
}

fn session() -> Session {
    Session {
        id: "abc".to_owned(),
        resume_url: "wss://resume.example//".to_owned(),
        seq: Some(41),
    }
}

struct Bot {
    gateway: Gateway,
    connection: Connection,
    dispatcher: Dispatcher,
    lanes: Vec<mpsc::Receiver<ForwardEvent>>,
}

impl Bot {
    fn new(session: Option<Session>) -> Bot {
        let mut gateway = Gateway::new();
        gateway.session = session;
        let connection = gateway.greet(&json(HELLO)).ok().unwrap();
        let (dispatcher, lanes) = Dispatcher::spawn(Some("1"), None, "proj".to_owned());
        Bot {
            gateway,
            connection,
            dispatcher,
            lanes,
        }
    }

    fn pump(&mut self, signal: Signal) -> Result<Step, GatewayError> {
        self.connection.pump(&mut self.gateway, &mut self.dispatcher, signal)
    }

    fn act(&mut self, signal: Signal) -> Action {
        match self.pump(signal) {
            Ok(step) => step.action,
            Err(err) => panic!("{}", err.message()),
        }
    }
}

fn sent(action: Action) -> String {
    match action {
        Action::Send(text) => text,
        _ => panic!("nothing was sent"),
    }
}

fn ended(action: Action) -> Disconnect {
    match action {
        Action::End(how) => how,
        _ => panic!("not over"),
    }
}

#[test]
fn identify_names_token_intents_and_properties() {
    assert_eq!(
        identify("token", "linux").to_string(),
        concat_text(&[
            r#"{"d":{"intents":37376,"properties":{"browser":"discord-middleman","#,
            r#""device":"discord-middleman","os":"linux"},"token":"token"},"op":2}"#,
        ])
    );
    assert_eq!((1 << 9) | (1 << 12) | (1 << 15), 37376);
}

fn concat_text(parts: &[&str]) -> String {
    parts.concat()
}

#[test]
fn resume_names_token_session_and_sequence() {
    assert_eq!(
        resume("token", &session()).to_string(),
        r#"{"d":{"seq":41,"session_id":"abc","token":"token"},"op":6}"#
    );
    let mut fresh = session();
    fresh.seq = None;
    assert_eq!(
        resume("token", &fresh).to_string(),
        r#"{"d":{"seq":null,"session_id":"abc","token":"token"},"op":6}"#
    );
}

#[test]
fn heartbeat_carries_the_sequence() {
    assert_eq!(heartbeat(Some(7)).to_string(), r#"{"d":7,"op":1}"#);
    assert_eq!(heartbeat(None).to_string(), r#"{"d":null,"op":1}"#);
}

#[test]
fn greeting_is_the_first_text_frame() {
    assert_eq!(recv_json(Incoming::Text(HELLO.to_owned())).ok().unwrap(), Some(json(HELLO)));
    assert_eq!(recv_json(Incoming::Other).ok().unwrap(), None);
    for closed in [Incoming::Close, Incoming::End] {
        assert_eq!(recv_json(closed).err().unwrap().message(), "connection closed");
    }
    let err = recv_json(Incoming::Failed("reset".to_owned())).err().unwrap();
    assert_eq!(err.message(), "reset");
    let err = recv_json(Incoming::Text("{".to_owned())).err().unwrap();
    assert!(matches!(err, GatewayError::Json(_)));
    assert_eq!(err.message(), "EOF while parsing an object at line 1 column 1");
}

#[test]
fn fresh_bot_identifies() {
    let gateway = Gateway::new();
    assert_eq!(gateway.connect_url(), "wss://gateway.discord.gg/?v=10&encoding=json");
    let (connection, first) = gateway
        .connect_once(Incoming::Text(HELLO.to_owned()), &client(), "linux")
        .ok()
        .unwrap()
        .unwrap();
    assert_eq!(connection.interval, Duration::from_millis(41250));
    assert_eq!(connection.seq, None);
    assert!(!connection.awaiting_ack);
    assert_eq!(first, identify("token", "linux").to_string());
}

#[test]
fn known_session_is_resumed() {
    let mut gateway = Gateway::new();
    gateway.session = Some(session());
    assert_eq!(gateway.connect_url(), "wss://resume.example?v=10&encoding=json");
    let (connection, first) = gateway
        .connect_once(Incoming::Text(HELLO.to_owned()), &client(), "linux")
        .ok()
        .unwrap()
        .unwrap();
    assert_eq!(connection.seq, Some(41));
    assert_eq!(first, resume("token", &session()).to_string());
}

#[test]
fn greeting_without_interval_is_an_error() {
    for hello in ["{}", r#"{"d":{"heartbeat_interval":"5"}}"#, r#"{"d":[]}"#, "7"] {
        let err = Gateway::new()
            .connect_once(Incoming::Text(hello.to_owned()), &client(), "linux")
            .err()
            .unwrap();
        assert!(matches!(err, GatewayError::MissingInterval));
        assert_eq!(err.message(), "hello missing heartbeat_interval");
    }
    let other = Gateway::new().connect_once(Incoming::Other, &client(), "linux");
    assert!(other.ok().unwrap().is_none());
    let closed = Gateway::new().connect_once(Incoming::Close, &client(), "linux");
    assert!(matches!(closed.err().unwrap(), GatewayError::Closed));
}

#[test]
fn ready_opens_a_session() {
    let mut bot = Bot::new(None);
    bot.gateway.backoff.next_delay();
    assert!(matches!(bot.act(text(READY)), Action::Wait));
    let opened = bot.gateway.session.as_ref().unwrap();
    assert_eq!(opened.id, "abc");
    assert_eq!(opened.resume_url, "wss://resume.example/");
    assert_eq!(opened.seq, Some(1));
    assert_eq!(bot.connection.seq, Some(1));
    assert_eq!(bot.gateway.backoff.next_delay(), Duration::from_secs(1));
    assert_eq!(bot.gateway.connect_url(), "wss://resume.example?v=10&encoding=json");
}

#[test]
fn ready_may_lack_its_members() {
    let mut bot = Bot::new(None);
    bot.act(text(r#"{"op":0,"t":"READY","d":{"session_id":5}}"#));
    let opened = bot.gateway.session.as_ref().unwrap();
    assert_eq!(opened.id, "");
    assert_eq!(opened.resume_url, "");
    assert_eq!(opened.seq, None);
}

#[test]
fn resumed_resets_the_backoff_and_keeps_the_session() {
    let mut bot = Bot::new(Some(session()));
    bot.gateway.backoff.next_delay();
    bot.act(text(r#"{"op":0,"s":42,"t":"RESUMED","d":{}}"#));
    assert_eq!(bot.gateway.backoff.next_delay(), Duration::from_secs(1));
    let kept = bot.gateway.session.as_ref().unwrap();
    assert_eq!(kept.id, "abc");
    assert_eq!(kept.seq, Some(42));
}

#[test]
fn sequence_is_tracked_through_the_session() {
    let mut bot = Bot::new(None);
    bot.act(text(READY));
    bot.act(text(r#"{"op":0,"s":9,"t":"A","d":{}}"#));
    bot.act(text(r#"{"op":0,"t":"B","d":{}}"#));
    bot.act(text(r#"{"op":11,"s":99}"#));
    assert_eq!(bot.connection.seq, Some(9));
    assert_eq!(bot.gateway.session.as_ref().unwrap().seq, Some(9));
    assert_eq!(sent(bot.act(Signal::Tick)), r#"{"d":9,"op":1}"#);
    assert_eq!(
        bot.gateway.open("token", "linux"),
        r#"{"d":{"seq":9,"session_id":"abc","token":"token"},"op":6}"#
    );
}

#[test]
fn payload_alone_is_forwarded() {
    let mut bot = Bot::new(None);
    let step = bot.pump(text(r#"{"op":0,"s":3,"t":"MESSAGE_CREATE","d":{"content":"hi"}}"#));
    let samples = step.ok().unwrap().samples;
    assert_eq!(samples.len(), 1);
    assert!(matches!(
        &samples[0],
        Sample::Count { series: "relay_events_received_total", by: 1, .. }
    ));
    let event = bot.lanes[0].try_recv().unwrap();
    assert_eq!(event.name, "MESSAGE_CREATE");
    assert_eq!(event.data, json(r#"{"content":"hi"}"#));
}

#[test]
fn event_without_a_name_is_unknown() {
    let mut bot = Bot::new(None);
    bot.act(text(r#"{"op":0,"t":7,"d":[1]}"#));
    let event = bot.lanes[0].try_recv().unwrap();
    assert_eq!(event.name, "UNKNOWN");
    assert_eq!(event.data, json("[1]"));
}

#[test]
fn frames_without_an_event_are_not_forwarded() {
    let mut bot = Bot::new(None);
    let frames = [
        r#"{"op":0,"t":"X","d":null}"#,
        r#"{"op":0,"t":"X"}"#,
        r#"{"op":10,"d":{}}"#,
        r#"{"op":11,"d":{}}"#,
        r#"{"op":"0","d":{}}"#,
        r#"{"op":-1,"d":{}}"#,
        r#"{"d":{}}"#,
        "[0]",
    ];
    for frame in frames {
        let step = bot.pump(text(frame)).ok().unwrap();
        assert!(matches!(step.action, Action::Wait));
        assert!(step.samples.is_empty());
    }
    assert!(bot.lanes[0].try_recv().is_err());
}

#[test]
fn unanswered_heartbeat_ends_the_connection() {
    let mut bot = Bot::new(None);
    assert_eq!(sent(bot.act(Signal::Tick)), r#"{"d":null,"op":1}"#);
    bot.act(text(READY));
    assert_eq!(ended(bot.act(Signal::Tick)), Disconnect::Resume);
}

#[test]
fn answered_heartbeat_goes_on() {
    let mut bot = Bot::new(None);
    sent(bot.act(Signal::Tick));
    assert!(matches!(bot.act(text(ACK)), Action::Wait));
    assert_eq!(sent(bot.act(Signal::Tick)), r#"{"d":null,"op":1}"#);
    bot.act(text(ACK));
    // A heartbeat that the gateway asked for awaits an answer as well.
    assert_eq!(sent(bot.act(text(r#"{"op":1}"#))), r#"{"d":null,"op":1}"#);
    assert_eq!(ended(bot.act(Signal::Tick)), Disconnect::Resume);
}

#[test]
fn gateway_may_ask_to_reconnect() {
    let mut bot = Bot::new(Some(session()));
    assert_eq!(ended(bot.act(text(r#"{"op":7}"#))), Disconnect::Resume);
    assert_eq!(ended(bot.act(text(r#"{"op":9,"d":true}"#))), Disconnect::Resume);
    assert_eq!(ended(bot.act(text(r#"{"op":9,"d":false}"#))), Disconnect::Reidentify);
    assert_eq!(ended(bot.act(text(r#"{"op":9,"d":1}"#))), Disconnect::Reidentify);
    assert_eq!(ended(bot.act(text(r#"{"op":9}"#))), Disconnect::Reidentify);
    assert!(bot.gateway.session.is_some());
}

#[test]
fn closed_socket_is_resumed() {
    let mut bot = Bot::new(Some(session()));
    assert_eq!(ended(bot.act(Signal::Frame(Incoming::Close))), Disconnect::Resume);
    assert_eq!(ended(bot.act(Signal::Frame(Incoming::End))), Disconnect::Resume);
    assert!(matches!(bot.act(Signal::Frame(Incoming::Other)), Action::Wait));
}

#[test]
fn failures_of_the_socket_are_errors() {
    let mut bot = Bot::new(Some(session()));
    let err = bot.pump(Signal::Frame(Incoming::Failed("reset".to_owned()))).err().unwrap();
    assert!(matches!(&err, GatewayError::Socket(_)));
    assert_eq!(err.message(), "reset");
    let err = bot.pump(text("nope")).err().unwrap();
    assert!(matches!(err, GatewayError::Json(_)));
    assert_eq!(err.message(), "expected ident at line 1 column 2");
    assert!(bot.gateway.session.is_some());
}

#[test]
fn frame_is_handled_by_itself() {
    let mut bot = Bot::new(None);
    let handled = bot.connection.handle(&mut bot.gateway, json(READY));
    assert_eq!(handled.flow, Flow::Continue);
    assert_eq!(handled.event.unwrap().name, "READY");
    let handled = bot.connection.handle(&mut bot.gateway, json(r#"{"op":1}"#));
    assert_eq!(handled.flow, Flow::Beat);
    assert!(handled.event.is_none());
}

#[test]
fn resumable_end_reconnects_at_once() {
    let mut gateway = Gateway::new();
    gateway.session = Some(session());
    gateway.backoff.next_delay();
    let reconnect = gateway.ended(&Ok(Disconnect::Resume), "proj");
    assert_eq!(reconnect.pause, None);
    assert!(matches!(
        reconnect.sample,
        Sample::Count { series: "relay_gateway_resumes_total", by: 1, .. }
    ));
    assert!(gateway.session.is_some());
    assert_eq!(gateway.backoff.next_delay(), Duration::from_secs(1));
}

#[test]
fn end_without_a_session_is_no_resume() {
    let mut bot = Bot::new(None);
    let how = ended(bot.act(Signal::Frame(Incoming::Close)));
    assert_eq!(how, Disconnect::Resume);
    let reconnect = bot.gateway.ended(&Ok(how), "proj");
    assert_eq!(reconnect.pause, None);
    assert!(matches!(
        reconnect.sample,
        Sample::Count { series: "relay_gateway_reconnects_total", by: 1, .. }
    ));
    assert!(bot.gateway.session.is_none());
    assert_eq!(bot.gateway.open("token", "linux"), identify("token", "linux").to_string());
}

#[test]
fn invalid_session_is_dropped_after_a_pause() {
    let mut gateway = Gateway::new();
    gateway.session = Some(session());
    gateway.backoff.next_delay();
    let reconnect = gateway.ended(&Ok(Disconnect::Reidentify), "proj");
    assert_eq!(reconnect.pause, Some(Duration::from_secs(2)));
    assert!(matches!(
        reconnect.sample,
        Sample::Count { series: "relay_gateway_reconnects_total", by: 1, .. }
    ));
    assert!(gateway.session.is_none());
    assert_eq!(gateway.backoff.next_delay(), Duration::from_secs(1));
}

#[test]
fn failed_connections_keep_the_session_and_back_off() {
    let mut gateway = Gateway::new();
    gateway.session = Some(session());
    for secs in [1, 2, 4, 8, 16, 32, 60, 60] {
        let reconnect = gateway.ended(&Err(GatewayError::Closed), "proj");
        assert_eq!(reconnect.pause, Some(Duration::from_secs(secs)));
        assert!(matches!(
            reconnect.sample,
            Sample::Count { series: "relay_gateway_reconnects_total", by: 1, .. }
        ));
    }
    assert_eq!(gateway.session.as_ref().unwrap().id, "abc");
}
