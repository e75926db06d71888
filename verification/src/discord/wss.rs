//! The Discord gateway: connecting, identifying, heartbeats, resuming.
//!
//! A bot keeps one gateway connection alive for ever. [`Gateway`] is what outlives a
//! connection: the session to resume and the reconnect backoff. [`Connection`] is what
//! belongs to a single one. What happens on the socket and the clock is handed in; what
//! to send, when to end the connection and how long to wait comes back. Reading the
//! socket, keeping time and sending are left to the caller.

use crate::backoff;
use crate::backoff::Backoff;
use crate::delay;
use crate::dispatch::{Dispatcher, Event, ForwardEvent};
use crate::json;
use crate::json::{
    get, member_bool, member_str, member_u64, number, object, optional_number, parse, remove,
    render, string, Json, Number,
};
use crate::metrics;
use crate::metrics::{gateway_reconnect, gateway_resume, Sample, SampleView};
use crate::model::Client;
use crate::text;
use crate::text::{same, trim_end, Strip};
use serde_json::Value;
use std::time::Duration;
use vstd::prelude::*;
use vstd::string::*;

verus! {

/// Where a fresh session connects to.
pub const GATEWAY_URL: &'static str = "wss://gateway.discord.gg/?v=10&encoding=json";

/// Query appended to the URL that a session is resumed at.
pub const GATEWAY_QUERY: &'static str = "?v=10&encoding=json";

/// What a bot subscribes to: messages in guilds, direct messages, and the privileged
/// message content.
pub const INTENTS: u64 = (1u64 << 9) | (1u64 << 12) | (1u64 << 15);

/// Opcode of an event.
pub const OP_DISPATCH: u64 = 0;

/// Opcode of a heartbeat, or of the request for one.
pub const OP_HEARTBEAT: u64 = 1;

/// Opcode that opens a fresh session.
pub const OP_IDENTIFY: u64 = 2;

/// Opcode that resumes a session.
pub const OP_RESUME: u64 = 6;

/// Opcode of the request to reconnect.
pub const OP_RECONNECT: u64 = 7;

/// Opcode of the notice that the session is not valid.
pub const OP_INVALID_SESSION: u64 = 9;

/// Opcode of the greeting.
pub const OP_HELLO: u64 = 10;

/// Opcode of the answer to a heartbeat.
pub const OP_HEARTBEAT_ACK: u64 = 11;

/// Pause before a fresh session replaces one that was invalidated, in seconds.
pub const REIDENTIFY_PAUSE_SECS: u64 = 2;

/// What the client calls itself.
pub const PRODUCT: &'static str = "discord-middleman";

/// Why a connection failed.
#[derive(Debug)]
pub enum GatewayError {
    /// The socket was closed before the greeting arrived.
    Closed,
    /// The greeting holds no heartbeat interval.
    MissingInterval,
    /// A frame is no JSON. Carries the parser's message.
    Json(String),
    /// The socket failed. Carries its message.
    Socket(String),
}

impl GatewayError {
    /// The error in words.
    pub open spec fn words(self) -> Seq<char> {
        match self {
            GatewayError::Closed => "connection closed"@,
            GatewayError::MissingInterval => "hello missing heartbeat_interval"@,
            GatewayError::Json(e) => e@,
            GatewayError::Socket(e) => e@,
        }
    }

    /// The error in words.
    pub fn message(&self) -> (r: String)
        ensures
            r@ == self.words(),
    {
        match self {
            GatewayError::Closed => "connection closed".to_owned(),
            GatewayError::MissingInterval => "hello missing heartbeat_interval".to_owned(),
            GatewayError::Json(e) => e.clone(),
            GatewayError::Socket(e) => e.clone(),
        }
    }
}

/// How a connection ended that did not fail.
#[derive(Clone, Copy, Debug, PartialEq, Eq, Structural)]
pub enum Disconnect {
    /// Reconnect and resume the session.
    Resume,
    /// The session cannot be resumed. Reconnect with a fresh one.
    Reidentify,
}

/// What to do after a frame.
#[derive(Clone, Copy, Debug, PartialEq, Eq, Structural)]
pub enum Flow {
    /// Read on.
    Continue,
    /// Send a heartbeat at once.
    Beat,
    /// End this connection.
    End(Disconnect),
}

/// What reading the socket gave.
pub enum Incoming {
    /// A text frame.
    Text(String),
    /// A close frame.
    Close,
    /// A frame of any other kind.
    Other,
    /// The end of the stream.
    End,
    /// An error. Carries its message.
    Failed(String),
}

/// What a connection waits for.
pub enum Signal {
    /// The heartbeat timer went off.
    Tick,
    /// The socket was read.
    Frame(Incoming),
}

/// What to do next with a connection.
pub enum Action {
    /// Wait for the next signal.
    Wait,
    /// Send a text frame, then wait for the next signal.
    Send(String),
    /// End the connection.
    End(Disconnect),
}

/// The session to resume after a drop.
pub struct Session {
    /// Its id, from the `READY` event.
    pub id: String,
    /// Where to resume it, from the `READY` event.
    pub resume_url: String,
    /// The last sequence number seen.
    pub seq: Option<u64>,
}

/// The contents of a [`Session`].
#[verifier::ext_equal]
pub struct SessionView {
    /// See [`Session::id`].
    pub id: Seq<char>,
    /// See [`Session::resume_url`].
    pub resume_url: Seq<char>,
    /// See [`Session::seq`].
    pub seq: Option<u64>,
}

impl View for Session {
    type V = SessionView;

    open spec fn view(&self) -> SessionView {
        SessionView { id: self.id@, resume_url: self.resume_url@, seq: self.seq }
    }
}

/// The contents of a session that may be missing.
pub open spec fn session_view(session: Option<Session>) -> Option<SessionView> {
    match session {
        Some(s) => Some(s@),
        None => None,
    }
}

/// The opcode of a frame.
pub open spec fn opcode(frame: Json) -> Option<u64> {
    json::unsigned(json::member(frame, "op"@))
}

/// Whether a frame is an event.
pub open spec fn is_dispatch(frame: Json) -> bool {
    opcode(frame) == Some(OP_DISPATCH)
}

/// The name of the event in a frame.
pub open spec fn event_name(frame: Json) -> Option<Seq<char>> {
    json::characters(json::member(frame, "t"@))
}

/// Whether a frame is the event of the given name.
pub open spec fn is_event(frame: Json, name: Seq<char>) -> bool {
    is_dispatch(frame) && event_name(frame) == Some(name)
}

/// The member `key` of a frame's payload.
pub open spec fn payload_member(frame: Json, key: Seq<char>) -> Option<Json> {
    json::member_of(json::member(frame, "d"@), key)
}

/// The characters of a string that may be missing; none where it is.
pub open spec fn characters_or_none(v: Option<Json>) -> Seq<char> {
    match json::characters(v) {
        Some(s) => s,
        None => Seq::empty(),
    }
}

/// The last sequence number seen, once `frame` arrived.
pub open spec fn seq_after(seq: Option<u64>, frame: Json) -> Option<u64> {
    if is_dispatch(frame) && json::unsigned(json::member(frame, "s"@)) is Some {
        json::unsigned(json::member(frame, "s"@))
    } else {
        seq
    }
}

/// The session that a `READY` event opens.
pub open spec fn ready_session(frame: Json, seq: Option<u64>) -> SessionView {
    SessionView {
        id: characters_or_none(payload_member(frame, "session_id"@)),
        resume_url: characters_or_none(payload_member(frame, "resume_gateway_url"@)),
        seq,
    }
}

/// The session to resume, once `frame` arrived.
pub open spec fn session_after(
    session: Option<SessionView>,
    seq: Option<u64>,
    frame: Json,
) -> Option<SessionView> {
    if is_event(frame, "READY"@) {
        Some(ready_session(frame, seq_after(seq, frame)))
    } else {
        match session {
            Some(s) => Some(SessionView { seq: seq_after(s.seq, frame), ..s }),
            None => None,
        }
    }
}

/// The next reconnect wait, once `frame` arrived. A session that stands is a healthy
/// connection.
pub open spec fn wait_after_frame(wait: int, frame: Json) -> int {
    if is_event(frame, "READY"@) || is_event(frame, "RESUMED"@) {
        backoff::wait_after(0)
    } else {
        wait
    }
}

/// Whether a heartbeat is unanswered, once `frame` arrived.
pub open spec fn awaiting_after(awaiting: bool, frame: Json) -> bool {
    awaiting && opcode(frame) != Some(OP_HEARTBEAT_ACK)
}

/// What to do after `frame`.
pub open spec fn flow_after(frame: Json) -> Flow {
    if opcode(frame) == Some(OP_HEARTBEAT) {
        Flow::Beat
    } else if opcode(frame) == Some(OP_RECONNECT) {
        Flow::End(Disconnect::Resume)
    } else if opcode(frame) == Some(OP_INVALID_SESSION) {
        if json::truth(json::member(frame, "d"@)) == Some(true) {
            Flow::End(Disconnect::Resume)
        } else {
            Flow::End(Disconnect::Reidentify)
        }
    } else {
        Flow::Continue
    }
}

/// The event in a frame that is forwarded: its name, and its payload alone. There is
/// none in a frame that is no event or has no payload.
pub open spec fn forwarded(frame: Json) -> Option<Event> {
    match json::member(frame, "d"@) {
        Some(data) => if is_dispatch(frame) && data != Json::Null {
            Some(
                Event {
                    name: match event_name(frame) {
                        Some(name) => name,
                        None => "UNKNOWN"@,
                    },
                    data,
                },
            )
        } else {
            None
        },
        None => None,
    }
}

/// The contents of an event that may be missing.
pub open spec fn event_view(event: Option<ForwardEvent>) -> Option<Event> {
    match event {
        Some(e) => Some(e@),
        None => None,
    }
}

/// Where to connect to: where the session is resumed, or the gateway's own address for
/// a fresh one.
pub open spec fn address(session: Option<SessionView>) -> Seq<char> {
    match session {
        Some(s) => text::strip_end(s.resume_url, Strip::Slash) + GATEWAY_QUERY@,
        None => GATEWAY_URL@,
    }
}

/// The frame that opens a fresh session.
pub open spec fn identify_frame(token: Seq<char>, os: Seq<char>) -> Json {
    Json::Object(
        map![
            "op"@ => Json::Number(Number::Unsigned(OP_IDENTIFY)),
            "d"@ => Json::Object(map![
                "token"@ => Json::Text(token),
                "intents"@ => Json::Number(Number::Unsigned(INTENTS)),
                "properties"@ => Json::Object(map![
                    "os"@ => Json::Text(os),
                    "browser"@ => Json::Text(PRODUCT@),
                    "device"@ => Json::Text(PRODUCT@),
                ]),
            ]),
        ],
    )
}

/// The frame that resumes a session.
pub open spec fn resume_frame(token: Seq<char>, session: SessionView) -> Json {
    Json::Object(
        map![
            "op"@ => Json::Number(Number::Unsigned(OP_RESUME)),
            "d"@ => Json::Object(map![
                "token"@ => Json::Text(token),
                "session_id"@ => Json::Text(session.id),
                "seq"@ => json::number_or_null(session.seq),
            ]),
        ],
    )
}

/// The frame that a connection opens with.
pub open spec fn opening_frame(
    token: Seq<char>,
    session: Option<SessionView>,
    os: Seq<char>,
) -> Json {
    match session {
        Some(s) => resume_frame(token, s),
        None => identify_frame(token, os),
    }
}

/// A heartbeat with the last sequence number seen.
pub open spec fn heartbeat_frame(seq: Option<u64>) -> Json {
    Json::Object(
        map![
            "op"@ => Json::Number(Number::Unsigned(OP_HEARTBEAT)),
            "d"@ => json::number_or_null(seq),
        ],
    )
}

proof fn lemma_keys_differ()
    ensures
        "op"@ != "d"@,
        "token"@ != "intents"@,
        "token"@ != "properties"@,
        "intents"@ != "properties"@,
        "os"@ != "browser"@,
        "os"@ != "device"@,
        "browser"@ != "device"@,
        "token"@ != "session_id"@,
        "token"@ != "seq"@,
        "session_id"@ != "seq"@,
{
    reveal_strlit("op");
    reveal_strlit("d");
    reveal_strlit("token");
    reveal_strlit("intents");
    reveal_strlit("properties");
    reveal_strlit("os");
    reveal_strlit("browser");
    reveal_strlit("device");
    reveal_strlit("session_id");
    reveal_strlit("seq");
    assert("op"@.len() == 2 && "d"@.len() == 1);
    assert("token"@.len() == 5 && "intents"@.len() == 7 && "properties"@.len() == 10);
    assert("os"@.len() == 2 && "browser"@.len() == 7 && "device"@.len() == 6);
    assert("session_id"@.len() == 10 && "seq"@.len() == 3);
}

/// The frame that opens a fresh session with `token`. `os` names the operating system.
pub fn identify(token: &str, os: &str) -> (r: Value)
    ensures
        json::json_view(r) == identify_frame(token@, os@),
{
    proof {
        reveal_with_fuel(json::members, 5);
        lemma_keys_differ();
    }
    let properties = vec![
        ("os".to_owned(), string(os)),
        ("browser".to_owned(), string(PRODUCT)),
        ("device".to_owned(), string(PRODUCT)),
    ];
    let payload = vec![
        ("token".to_owned(), string(token)),
        ("intents".to_owned(), number(INTENTS)),
        ("properties".to_owned(), object(properties)),
    ];
    object(vec![("op".to_owned(), number(OP_IDENTIFY)), ("d".to_owned(), object(payload))])
}

/// The frame that resumes `session` with `token`.
pub fn resume(token: &str, session: &Session) -> (r: Value)
    ensures
        json::json_view(r) == resume_frame(token@, session@),
{
    proof {
        reveal_with_fuel(json::members, 5);
        lemma_keys_differ();
    }
    let payload = vec![
        ("token".to_owned(), string(token)),
        ("session_id".to_owned(), string(session.id.as_str())),
        ("seq".to_owned(), optional_number(session.seq)),
    ];
    object(vec![("op".to_owned(), number(OP_RESUME)), ("d".to_owned(), object(payload))])
}

/// A heartbeat with the last sequence number seen.
pub fn heartbeat(seq: Option<u64>) -> (r: Value)
    ensures
        json::json_view(r) == heartbeat_frame(seq),
{
    proof {
        reveal_with_fuel(json::members, 5);
        lemma_keys_differ();
    }
    object(vec![("op".to_owned(), number(OP_HEARTBEAT)), ("d".to_owned(), optional_number(seq))])
}

/// What reading the socket gives while the greeting is awaited: the first text frame
/// decoded, or nothing for a frame of another kind, after which to read on. A socket
/// that is closed before is an error.
pub fn recv_json(incoming: Incoming) -> (r: Result<Option<Value>, GatewayError>)
    ensures
        match incoming {
            Incoming::Text(t) => match json::json_parse(t@) {
                Ok(frame) => r matches Ok(Some(v)) && json::json_view(v) == frame,
                Err(e) => r matches Err(GatewayError::Json(m)) && m@ == e,
            },
            Incoming::Close | Incoming::End => r matches Err(GatewayError::Closed),
            Incoming::Other => r matches Ok(None),
            Incoming::Failed(e) => r matches Err(GatewayError::Socket(m)) && m@ == e@,
        },
{
    match incoming {
        Incoming::Text(t) => match parse(t.as_str()) {
            Ok(v) => Ok(Some(v)),
            Err(e) => Err(GatewayError::Json(e)),
        },
        Incoming::Close | Incoming::End => Err(GatewayError::Closed),
        Incoming::Other => Ok(None),
        Incoming::Failed(e) => Err(GatewayError::Socket(e)),
    }
}

/// The heartbeat interval in the greeting, in milliseconds.
pub open spec fn hello_millis(hello: Json) -> Option<u64> {
    json::unsigned(payload_member(hello, "heartbeat_interval"@))
}

/// The event in a frame that is forwarded: its name, and its payload alone.
fn forwarded_event(frame: Value) -> (r: Option<ForwardEvent>)
    requires
        is_dispatch(json::json_view(frame)),
    ensures
        event_view(r) == forwarded(json::json_view(frame)),
{
    let name = match member_str(&frame, "t") {
        Some(name) => name.to_owned(),
        None => "UNKNOWN".to_owned(),
    };
    match remove(frame, "d") {
        Some(data) => if data.is_null() {
            None
        } else {
            Some(ForwardEvent { name, data })
        },
        None => None,
    }
}

/// The string in the member `key` of a frame's payload; none where there is no such.
fn payload_string(frame: &Value, key: &str) -> (r: String)
    ensures
        r@ == characters_or_none(payload_member(json::json_view(*frame), key@)),
{
    match get(frame, "d") {
        Some(payload) => match member_str(payload, key) {
            Some(s) => s.to_owned(),
            None => String::new(),
        },
        None => String::new(),
    }
}

/// What a bot keeps across its connections.
pub struct Gateway {
    /// The session to resume, where there is one.
    pub session: Option<Session>,
    /// How long to wait before the next connection, should one fail.
    pub backoff: Backoff,
}

/// What a bot does once a connection has ended.
pub struct Reconnect {
    /// How long to wait before the next connection, where a wait is due.
    pub pause: Option<Duration>,
    /// What is recorded.
    pub sample: Sample,
}

/// Live state of a single connection.
pub struct Connection {
    /// The last sequence number seen.
    pub seq: Option<u64>,
    /// Whether a heartbeat is unanswered.
    pub awaiting_ack: bool,
    /// The time between two heartbeats.
    pub interval: Duration,
}

/// What a connection does next, and what is recorded.
pub struct Step {
    /// What to do next.
    pub action: Action,
    /// What is recorded.
    pub samples: Vec<Sample>,
}

/// What a frame comes to.
pub struct Handled {
    /// What to do next.
    pub flow: Flow,
    /// The event to forward, where it holds one.
    pub event: Option<ForwardEvent>,
}

/// The decoded frame that a signal brings, where it brings one.
pub open spec fn frame_in(signal: Signal) -> Option<Json> {
    match signal {
        Signal::Frame(Incoming::Text(t)) => match json::json_parse(t@) {
            Ok(frame) => Some(frame),
            Err(_) => None,
        },
        _ => None,
    }
}

/// Whether a connection sends just `frame`.
pub open spec fn sends(r: Result<Step, GatewayError>, frame: Seq<char>) -> bool {
    r matches Ok(step) && step.action matches Action::Send(t) && t@ == frame
}

/// Whether a connection ends, and its session is to be resumed.
pub open spec fn ends_to_resume(r: Result<Step, GatewayError>) -> bool {
    r matches Ok(step) && step.action matches Action::End(d) && d == Disconnect::Resume
}

impl Gateway {
    /// A bot that was not connected yet.
    pub fn new() -> (r: Self)
        ensures
            r.session is None,
            r.backoff@ == backoff::wait_after(0),
    {
        Gateway { session: None, backoff: Backoff::new() }
    }

    /// Whether `connection` is a fresh one of this bot's, with heartbeats `millis`
    /// milliseconds apart. It goes on from the last sequence number of the session.
    pub open spec fn opens(self, connection: Connection, millis: u64) -> bool {
        &&& connection.seq == match self.session {
            Some(s) => s.seq,
            None => None,
        }
        &&& !connection.awaiting_ack
        &&& delay::duration_nanos(connection.interval) == delay::millis(millis as int)
    }

    /// Where to connect to.
    pub fn connect_url(&self) -> (r: String)
        ensures
            r@ == address(session_view(self.session)),
    {
        match &self.session {
            Some(s) => trim_end(s.resume_url.as_str(), Strip::Slash).to_owned().concat(
                GATEWAY_QUERY,
            ),
            None => GATEWAY_URL.to_owned(),
        }
    }

    /// The connection that the greeting `hello` opens.
    pub fn greet(&self, hello: &Value) -> (r: Result<Connection, GatewayError>)
        ensures
            match hello_millis(json::json_view(*hello)) {
                Some(n) => r matches Ok(connection) && self.opens(connection, n),
                None => r matches Err(GatewayError::MissingInterval),
            },
    {
        let millis = match get(hello, "d") {
            Some(payload) => member_u64(payload, "heartbeat_interval"),
            None => None,
        };
        match millis {
            Some(n) => Ok(
                Connection {
                    seq: match &self.session {
                        Some(s) => s.seq,
                        None => None,
                    },
                    awaiting_ack: false,
                    interval: Duration::from_millis(n),
                },
            ),
            None => Err(GatewayError::MissingInterval),
        }
    }

    /// The text of the frame that a connection opens with: one that resumes the
    /// session, or one that opens a fresh session.
    pub fn open(&self, token: &str, os: &str) -> (r: String)
        ensures
            r@ == json::json_text(opening_frame(token@, session_view(self.session), os@)),
    {
        match &self.session {
            Some(s) => render(&resume(token, s)),
            None => render(&identify(token, os)),
        }
    }

    /// What the bot of `client` does with what it reads while it awaits the greeting:
    /// the greeting opens a connection, and comes with the text of the frame to send
    /// first. After a frame that is no text, it reads on. `os` names the operating
    /// system.
    pub fn connect_once(&self, incoming: Incoming, client: &Client, os: &str) -> (r: Result<
        Option<(Connection, String)>,
        GatewayError,
    >)
        ensures
            match incoming {
                Incoming::Text(t) => match json::json_parse(t@) {
                    Ok(hello) => match hello_millis(hello) {
                        Some(n) => {
                            &&& r matches Ok(Some((connection, first)))
                            &&& self.opens(connection, n)
                            &&& first@ == json::json_text(
                                opening_frame(client.bot_token@, session_view(self.session), os@),
                            )
                        },
                        None => r matches Err(GatewayError::MissingInterval),
                    },
                    Err(e) => r matches Err(GatewayError::Json(m)) && m@ == e,
                },
                Incoming::Close | Incoming::End => r matches Err(GatewayError::Closed),
                Incoming::Other => r matches Ok(None),
                Incoming::Failed(e) => r matches Err(GatewayError::Socket(m)) && m@ == e@,
            },
    {
        match recv_json(incoming) {
            Ok(Some(hello)) => match self.greet(&hello) {
                Ok(connection) => Ok(Some((connection, self.open(client.bot_token.as_str(), os)))),
                Err(e) => Err(e),
            },
            Ok(None) => Ok(None),
            Err(e) => Err(e),
        }
    }

    /// Whether `r` is what to do once a connection has ended with `outcome`, and `after`
    /// is what this becomes.
    ///
    /// A connection that is to be resumed is opened again at once. That counts as a
    /// resume where there is a session, and as a reconnect where there is none, since the
    /// next connection then opens a fresh one. An invalidated session is dropped, and a
    /// fresh one opened after a short pause. After a failure the session is kept, so that
    /// the next connection resumes it, and the waits grow.
    pub open spec fn reconnects(
        self,
        outcome: Result<Disconnect, GatewayError>,
        project_id: Seq<char>,
        after: Self,
        r: Reconnect,
    ) -> bool {
        match outcome {
            Ok(Disconnect::Resume) => {
                &&& after.session == self.session
                &&& after.backoff@ == backoff::wait_after(0)
                &&& r.pause is None
                &&& r.sample@ == SampleView::Count(
                    if self.session is Some {
                        metrics::GATEWAY_RESUMES@
                    } else {
                        metrics::GATEWAY_RECONNECTS@
                    },
                    project_id,
                    1,
                )
            },
            Ok(Disconnect::Reidentify) => {
                &&& after.session is None
                &&& after.backoff@ == backoff::wait_after(0)
                &&& r.pause matches Some(d) && delay::duration_nanos(d) == delay::secs(
                    REIDENTIFY_PAUSE_SECS as int,
                )
                &&& r.sample@ == SampleView::Count(metrics::GATEWAY_RECONNECTS@, project_id, 1)
            },
            Err(_) => {
                &&& after.session == self.session
                &&& after.backoff@ == backoff::next_wait(self.backoff@)
                &&& r.pause matches Some(d) && delay::duration_nanos(d) == self.backoff@
                &&& r.sample@ == SampleView::Count(metrics::GATEWAY_RECONNECTS@, project_id, 1)
            },
        }
    }

    /// What to do once a connection has ended with `outcome`.
    pub fn ended(&mut self, outcome: &Result<Disconnect, GatewayError>, project_id: &str) -> (r:
        Reconnect)
        ensures
            old(self).reconnects(*outcome, project_id@, *final(self), r),
    {
        match outcome {
            Ok(Disconnect::Resume) => {
                self.backoff.reset();
                let sample = if self.session.is_some() {
                    gateway_resume(project_id)
                } else {
                    gateway_reconnect(project_id)
                };
                Reconnect { pause: None, sample }
            },
            Ok(Disconnect::Reidentify) => {
                self.session = None;
                self.backoff.reset();
                Reconnect {
                    pause: Some(Duration::from_secs(REIDENTIFY_PAUSE_SECS)),
                    sample: gateway_reconnect(project_id),
                }
            },
            Err(_) => {
                let pause = self.backoff.next_delay();
                Reconnect { pause: Some(pause), sample: gateway_reconnect(project_id) }
            },
        }
    }
}

impl Connection {
    /// Whether this connection and `gateway` become `after` and `gateway_after` when
    /// `frame` arrives.
    pub open spec fn moves(
        self,
        gateway: Gateway,
        frame: Json,
        after: Self,
        gateway_after: Gateway,
    ) -> bool {
        &&& after.seq == seq_after(self.seq, frame)
        &&& after.awaiting_ack == awaiting_after(self.awaiting_ack, frame)
        &&& after.interval == self.interval
        &&& session_view(gateway_after.session) == session_after(
            session_view(gateway.session),
            self.seq,
            frame,
        )
        &&& gateway_after.backoff@ == wait_after_frame(gateway.backoff@, frame)
    }

    /// Takes in one decoded frame.
    pub fn handle(&mut self, gateway: &mut Gateway, frame: Value) -> (r: Handled)
        ensures
            old(self).moves(
                *old(gateway),
                json::json_view(frame),
                *final(self),
                *final(gateway),
            ),
            r.flow == flow_after(json::json_view(frame)),
            event_view(r.event) == forwarded(json::json_view(frame)),
    {
        let op = match member_u64(&frame, "op") {
            Some(op) => op,
            None => {
                return Handled { flow: Flow::Continue, event: None };
            },
        };
        if op == OP_DISPATCH {
            let s = member_u64(&frame, "s");
            if s.is_some() {
                self.seq = s;
                if let Some(session) = &mut gateway.session {
                    session.seq = s;
                }
            }
            let (ready, resumed) = match member_str(&frame, "t") {
                Some(name) => (same(name, "READY"), same(name, "RESUMED")),
                None => (false, false),
            };
            if ready {
                gateway.session = Some(
                    Session {
                        id: payload_string(&frame, "session_id"),
                        resume_url: payload_string(&frame, "resume_gateway_url"),
                        seq: self.seq,
                    },
                );
            }
            if ready || resumed {
                gateway.backoff.reset();
            }
            return Handled { flow: Flow::Continue, event: forwarded_event(frame) };
        }
        let flow = if op == OP_HEARTBEAT {
            Flow::Beat
        } else if op == OP_RECONNECT {
            Flow::End(Disconnect::Resume)
        } else if op == OP_INVALID_SESSION {
            match member_bool(&frame, "d") {
                Some(true) => Flow::End(Disconnect::Resume),
                _ => Flow::End(Disconnect::Reidentify),
            }
        } else {
            if op == OP_HEARTBEAT_ACK {
                self.awaiting_ack = false;
            }
            Flow::Continue
        };
        Handled { flow, event: None }
    }

    /// The text of a heartbeat, after which this connection awaits an answer.
    pub fn send_heartbeat(&mut self) -> (r: String)
        ensures
            r@ == json::json_text(heartbeat_frame(old(self).seq)),
            final(self).awaiting_ack,
            final(self).seq == old(self).seq,
            final(self).interval == old(self).interval,
    {
        self.awaiting_ack = true;
        render(&heartbeat(self.seq))
    }

    /// What this connection does when the heartbeat timer goes off. A heartbeat that
    /// went unanswered since the last time means that the other end is gone.
    pub fn tick(&mut self) -> (r: Action)
        ensures
            final(self).seq == old(self).seq,
            final(self).interval == old(self).interval,
            final(self).awaiting_ack,
            if old(self).awaiting_ack {
                r matches Action::End(d) && d == Disconnect::Resume
            } else {
                r matches Action::Send(t) && t@ == json::json_text(heartbeat_frame(old(self).seq))
            },
    {
        if self.awaiting_ack {
            Action::End(Disconnect::Resume)
        } else {
            Action::Send(self.send_heartbeat())
        }
    }

    /// Whether `step` is what this connection does when `frame` arrives, with the
    /// event in the frame handed to `dispatcher`, and the rest is what it leaves.
    pub open spec fn steps(
        self,
        gateway: Gateway,
        dispatcher: Dispatcher,
        frame: Json,
        after: Self,
        gateway_after: Gateway,
        dispatcher_after: Dispatcher,
        step: Step,
    ) -> bool {
        let moved = Connection { awaiting_ack: awaiting_after(self.awaiting_ack, frame), ..after };
        &&& self.moves(gateway, frame, moved, gateway_after)
        &&& after.awaiting_ack == (moved.awaiting_ack || flow_after(frame) == Flow::Beat)
        &&& dispatcher.offered(forwarded(frame), dispatcher_after, metrics::samples(step.samples@))
        &&& match flow_after(frame) {
            Flow::Continue => step.action is Wait,
            Flow::Beat => step.action matches Action::Send(t) && t@ == json::json_text(
                heartbeat_frame(after.seq),
            ),
            Flow::End(how) => step.action matches Action::End(d) && d == how,
        }
    }

    /// Takes in one decoded frame, hands the event in it to `dispatcher`, and says what
    /// to do next.
    pub fn dispatch(
        &mut self,
        gateway: &mut Gateway,
        dispatcher: &mut Dispatcher,
        frame: Value,
    ) -> (r: Step)
        requires
            old(dispatcher).wf(),
        ensures
            old(self).steps(
                *old(gateway),
                *old(dispatcher),
                json::json_view(frame),
                *final(self),
                *final(gateway),
                *final(dispatcher),
                r,
            ),
    {
        let handled = self.handle(gateway, frame);
        let samples = match handled.event {
            Some(event) => dispatcher.enqueue(event.name, event.data),
            None => Vec::new(),
        };
        let action = match handled.flow {
            Flow::Continue => Action::Wait,
            Flow::Beat => Action::Send(self.send_heartbeat()),
            Flow::End(how) => Action::End(how),
        };
        assert(handled.event is None ==> metrics::samples(samples@) =~= Seq::empty());
        Step { action, samples }
    }

    /// Whether `r` is what this connection does on `signal`, and the rest is what it
    /// leaves.
    ///
    /// A tick sends a heartbeat, or ends the connection where the last one is
    /// unanswered. A socket that is closed or runs out ends the connection, and the
    /// session is resumed. A socket that fails, and a text frame that is no JSON, are
    /// errors.
    pub open spec fn pumps(
        self,
        gateway: Gateway,
        dispatcher: Dispatcher,
        signal: Signal,
        after: Self,
        gateway_after: Gateway,
        dispatcher_after: Dispatcher,
        r: Result<Step, GatewayError>,
    ) -> bool {
        match frame_in(signal) {
            Some(frame) => {
                &&& r matches Ok(step)
                &&& self.steps(
                    gateway,
                    dispatcher,
                    frame,
                    after,
                    gateway_after,
                    dispatcher_after,
                    step,
                )
            },
            None => {
                &&& after == (Connection {
                    awaiting_ack: self.awaiting_ack || signal is Tick,
                    ..self
                })
                &&& gateway_after == gateway
                &&& dispatcher_after == dispatcher
                &&& r matches Ok(step) ==> step.samples@.len() == 0
                &&& match signal {
                    Signal::Tick => if self.awaiting_ack {
                        ends_to_resume(r)
                    } else {
                        sends(r, json::json_text(heartbeat_frame(self.seq)))
                    },
                    Signal::Frame(Incoming::Close) | Signal::Frame(Incoming::End) => ends_to_resume(
                        r,
                    ),
                    Signal::Frame(Incoming::Other) => r matches Ok(step) && step.action is Wait,
                    Signal::Frame(Incoming::Failed(e)) => r matches Err(GatewayError::Socket(m))
                        && m@ == e@,
                    Signal::Frame(Incoming::Text(t)) => r matches Err(GatewayError::Json(m))
                        && json::json_parse(t@) == Err::<Json, Seq<char>>(m@),
                }
            },
        }
    }

    /// What this connection does on `signal`.
    pub fn pump(
        &mut self,
        gateway: &mut Gateway,
        dispatcher: &mut Dispatcher,
        signal: Signal,
    ) -> (r: Result<Step, GatewayError>)
        requires
            old(dispatcher).wf(),
        ensures
            old(self).pumps(
                *old(gateway),
                *old(dispatcher),
                signal,
                *final(self),
                *final(gateway),
                *final(dispatcher),
                r,
            ),
    {
        match signal {
            Signal::Tick => Ok(Step { action: self.tick(), samples: Vec::new() }),
            Signal::Frame(Incoming::Text(t)) => match parse(t.as_str()) {
                Ok(frame) => Ok(self.dispatch(gateway, dispatcher, frame)),
                Err(e) => Err(GatewayError::Json(e)),
            },
            Signal::Frame(Incoming::Failed(e)) => Err(GatewayError::Socket(e)),
            Signal::Frame(Incoming::Other) => Ok(
                Step { action: Action::Wait, samples: Vec::new() },
            ),
            Signal::Frame(_) => Ok(
                Step { action: Action::End(Disconnect::Resume), samples: Vec::new() },
            ),
        }
    }
}

} // verus!
