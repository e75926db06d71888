//! What single frames and signals come to, told by what the frames hold.

use crate::delay;
use crate::discord::wss;
use crate::discord::wss::{
    Action, Connection, Disconnect, Flow, Gateway, GatewayError, Incoming, Reconnect, Session,
    SessionView, Signal, Step,
};
use crate::dispatch::{Dispatcher, Event, ForwardEvent};
use crate::json;
use crate::json::{Json, Number};
use crate::metrics;
use crate::metrics::SampleView;
use crate::text;
use vstd::prelude::*;

verus! {

/// Whether the member `op` of a frame is the number `op`.
pub open spec fn has_op(frame: Json, op: u64) -> bool {
    json::member(frame, "op"@) == Some(Json::Number(Number::Unsigned(op)))
}

/// Whether a frame is an event of the given name: its members `op` and `t` say so.
pub open spec fn is_named(frame: Json, name: Seq<char>) -> bool {
    has_op(frame, 0) && json::member(frame, "t"@) == Some(Json::Text(name))
}

/// Whether a frame is an event with the sequence number `n`: its members `op` and `s` say
/// so.
pub open spec fn is_numbered(frame: Json, n: u64) -> bool {
    has_op(frame, 0) && json::member(frame, "s"@) == Some(Json::Number(Number::Unsigned(n)))
}

/// Whether a text is the member `key` of the member `d` of a frame, where that is a
/// string, and empty where it is none.
pub open spec fn is_text_in_payload(frame: Json, key: Seq<char>, s: Seq<char>) -> bool {
    match json::member(frame, "d"@) {
        Some(d) => match json::member(d, key) {
            Some(Json::Text(t)) => s == t,
            _ => s.len() == 0,
        },
        None => s.len() == 0,
    }
}

/// Whether an event is what a frame asks to forward: the frame is an event, its member `d`
/// is there and not `null`, and the event has that as its payload, and the member `t` as
/// its name where that is a string.
pub open spec fn is_asked_for(frame: Json, event: Event) -> bool {
    &&& has_op(frame, 0)
    &&& json::member(frame, "d"@) == Some(event.data)
    &&& event.data != Json::Null
    &&& match json::member(frame, "t"@) {
        Some(Json::Text(name)) => event.name == name,
        _ => event.name == "UNKNOWN"@,
    }
}

/// The last sequence number seen is the one of an event that has one. Any other frame
/// leaves it as it is.
pub proof fn law_sequence_number(seq: Option<u64>, frame: Json, n: u64)
    ensures
        is_numbered(frame, n) ==> wss::seq_after(seq, frame) == Some(n),
        (forall|m: u64| !#[trigger] is_numbered(frame, m)) ==> wss::seq_after(seq, frame) == seq,
{
    if forall|m: u64| !#[trigger] is_numbered(frame, m) {
        if let Some(Json::Number(Number::Unsigned(m))) = json::member(frame, "s"@) {
            assert(!is_numbered(frame, m));
        }
    }
}

/// What a frame does to a connection and to what outlives it.
///
/// An event with a sequence number sets that of the connection and of the session.
/// `READY` opens a session with the id and the URL in its payload, and no other frame
/// changes those. `READY` and `RESUMED` take the wait back to a second. The answer to a
/// heartbeat is all that settles one.
pub proof fn law_frame_moves(
    connection: Connection,
    gateway: Gateway,
    frame: Json,
    after: Connection,
    gateway_after: Gateway,
    n: u64,
)
    requires
        connection.moves(gateway, frame, after, gateway_after),
    ensures
        after.interval == connection.interval,
        is_numbered(frame, n) ==> after.seq == Some(n) && (gateway_after.session matches Some(s)
            ==> s.seq == Some(n)),
        (forall|m: u64| !#[trigger] is_numbered(frame, m)) ==> after.seq == connection.seq,
        (forall|m: u64| !#[trigger] is_numbered(frame, m)) && !is_named(frame, "READY"@) ==> (
        gateway_after.session matches Some(s) ==> s.seq == gateway.session->0.seq),
        has_op(frame, 11) ==> !after.awaiting_ack,
        !has_op(frame, 11) ==> after.awaiting_ack == connection.awaiting_ack,
        is_named(frame, "READY"@) ==> {
            &&& gateway_after.session matches Some(s)
            &&& is_text_in_payload(frame, "session_id"@, s.id@)
            &&& is_text_in_payload(frame, "resume_gateway_url"@, s.resume_url@)
            &&& s.seq == after.seq
        },
        !is_named(frame, "READY"@) ==> {
            &&& gateway_after.session is Some <==> gateway.session is Some
            &&& gateway_after.session matches Some(s) ==> s.id@ == gateway.session->0.id@
                && s.resume_url@ == gateway.session->0.resume_url@
        },
        gateway_after.backoff@ == if is_named(frame, "READY"@) || is_named(frame, "RESUMED"@) {
            1_000_000_000
        } else {
            gateway.backoff@
        },
{
    law_sequence_number(connection.seq, frame, n);
    if let Some(s) = gateway.session {
        law_sequence_number(s.seq, frame, n);
    }
    if let Some(s) = gateway_after.session {
        assert(wss::session_view(gateway_after.session) == Some(s@));
        if let Some(before) = gateway.session {
            assert(wss::session_view(gateway.session) == Some(before@));
        }
    }
}

/// What to do after a frame. A request for a heartbeat is met at once; a request to
/// reconnect ends the connection; so does the notice that the session is not valid, which
/// is resumed just where the notice says `true`. After any other frame, read on.
pub proof fn law_frame_flow(frame: Json)
    ensures
        has_op(frame, 1) ==> wss::flow_after(frame) == Flow::Beat,
        has_op(frame, 7) ==> wss::flow_after(frame) == Flow::End(Disconnect::Resume),
        has_op(frame, 9) ==> wss::flow_after(frame) == Flow::End(
            if json::member(frame, "d"@) == Some(Json::Bool(true)) {
                Disconnect::Resume
            } else {
                Disconnect::Reidentify
            },
        ),
        !has_op(frame, 1) && !has_op(frame, 7) && !has_op(frame, 9) ==> wss::flow_after(frame)
            == Flow::Continue,
{
}

/// What is forwarded of a frame is just the event that it asks to forward, if any.
pub proof fn law_frame_forwards(frame: Json, event: Event)
    ensures
        wss::forwarded(frame) == Some(event) <==> is_asked_for(frame, event),
        wss::forwarded(frame) is None <==> !has_op(frame, 0) || json::member(frame, "d"@) is None
            || json::member(frame, "d"@) == Some(Json::Null),
{
}

/// What a connection does when a decoded frame arrives: a heartbeat with its own sequence
/// number where it is asked for one, the end where it is asked to end, and nothing
/// otherwise. A heartbeat that was asked for awaits an answer too.
pub proof fn law_frame_steps(
    connection: Connection,
    gateway: Gateway,
    dispatcher: Dispatcher,
    frame: Json,
    after: Connection,
    gateway_after: Gateway,
    dispatcher_after: Dispatcher,
    step: Step,
    n: u64,
)
    requires
        connection.steps(
            gateway,
            dispatcher,
            frame,
            after,
            gateway_after,
            dispatcher_after,
            step,
        ),
    ensures
        after.interval == connection.interval,
        is_numbered(frame, n) ==> after.seq == Some(n) && (gateway_after.session matches Some(s)
            ==> s.seq == Some(n)),
        (forall|m: u64| !#[trigger] is_numbered(frame, m)) ==> after.seq == connection.seq,
        after.awaiting_ack == (has_op(frame, 1) || (connection.awaiting_ack && !has_op(frame, 11))),
        is_named(frame, "READY"@) ==> {
            &&& gateway_after.session matches Some(s)
            &&& is_text_in_payload(frame, "session_id"@, s.id@)
            &&& is_text_in_payload(frame, "resume_gateway_url"@, s.resume_url@)
            &&& s.seq == after.seq
        },
        !is_named(frame, "READY"@) ==> {
            &&& gateway_after.session is Some <==> gateway.session is Some
            &&& gateway_after.session matches Some(s) ==> s.id@ == gateway.session->0.id@
                && s.resume_url@ == gateway.session->0.resume_url@
        },
        gateway_after.backoff@ == if is_named(frame, "READY"@) || is_named(frame, "RESUMED"@) {
            1_000_000_000
        } else {
            gateway.backoff@
        },
        dispatcher.offered(
            wss::forwarded(frame),
            dispatcher_after,
            metrics::samples(step.samples@),
        ),
        if has_op(frame, 1) {
            step.action matches Action::Send(t) && t@ == json::json_text(
                wss::heartbeat_frame(after.seq),
            )
        } else if has_op(frame, 7) || (has_op(frame, 9) && json::member(frame, "d"@) == Some(
            Json::Bool(true),
        )) {
            step.action == Action::End(Disconnect::Resume)
        } else if has_op(frame, 9) {
            step.action == Action::End(Disconnect::Reidentify)
        } else {
            step.action is Wait
        },
{
    let moved = Connection {
        awaiting_ack: wss::awaiting_after(connection.awaiting_ack, frame),
        ..after
    };
    law_frame_moves(connection, gateway, frame, moved, gateway_after, n);
    law_frame_flow(frame);
}

/// What a connection does on a signal.
///
/// A tick sends a heartbeat with the last sequence number seen, or ends the connection
/// where a heartbeat is unanswered. A text frame that is JSON is stepped through, and any
/// other one is an error, with the parser's message. A closed or exhausted socket ends the
/// connection, and a failed one is an error, with its message. A frame of another kind does
/// nothing.
pub proof fn law_signal_pumps(
    connection: Connection,
    gateway: Gateway,
    dispatcher: Dispatcher,
    signal: Signal,
    after: Connection,
    gateway_after: Gateway,
    dispatcher_after: Dispatcher,
    r: Result<Step, GatewayError>,
)
    requires
        connection.pumps(
            gateway,
            dispatcher,
            signal,
            after,
            gateway_after,
            dispatcher_after,
            r,
        ),
    ensures
        match signal {
            Signal::Tick => {
                &&& r matches Ok(step)
                &&& step.samples@.len() == 0
                &&& if connection.awaiting_ack {
                    step.action == Action::End(Disconnect::Resume)
                } else {
                    step.action matches Action::Send(t) && t@ == json::json_text(
                        wss::heartbeat_frame(connection.seq),
                    )
                }
                &&& after.awaiting_ack
                &&& after.seq == connection.seq
                &&& after.interval == connection.interval
                &&& gateway_after == gateway
                &&& dispatcher_after == dispatcher
            },
            Signal::Frame(Incoming::Text(t)) => match json::json_parse(t@) {
                Ok(frame) => r matches Ok(step) && connection.steps(
                    gateway,
                    dispatcher,
                    frame,
                    after,
                    gateway_after,
                    dispatcher_after,
                    step,
                ),
                Err(e) => {
                    &&& r matches Err(GatewayError::Json(m)) && m@ == e
                    &&& after == connection
                    &&& gateway_after == gateway
                    &&& dispatcher_after == dispatcher
                },
            },
            Signal::Frame(incoming) => {
                &&& match incoming {
                    Incoming::Failed(e) => r matches Err(GatewayError::Socket(m)) && m@ == e@,
                    Incoming::Other => r matches Ok(step) && step.action is Wait
                        && step.samples@.len() == 0,
                    _ => r matches Ok(step) && step.action == Action::End(Disconnect::Resume)
                        && step.samples@.len() == 0,
                }
                &&& after == connection
                &&& gateway_after == gateway
                &&& dispatcher_after == dispatcher
            },
        },
{
}

/// A heartbeat holds its opcode and the last sequence number seen, or `null` in its place.
pub proof fn law_heartbeat_holds_the_sequence(n: u64)
    ensures
        wss::heartbeat_frame(Some(n)) == Json::Object(
            map![
                "op"@ => Json::Number(Number::Unsigned(1)),
                "d"@ => Json::Number(Number::Unsigned(n)),
            ],
        ),
        wss::heartbeat_frame(None) == Json::Object(
            map!["op"@ => Json::Number(Number::Unsigned(1)), "d"@ => Json::Null],
        ),
{
}

/// A connection of a bot without a session opens with its token as it is, what it
/// subscribes to, and what it runs on.
pub proof fn law_identify_holds_the_token(token: Seq<char>, os: Seq<char>)
    ensures
        wss::opening_frame(token, None, os) == Json::Object(
            map![
                "op"@ => Json::Number(Number::Unsigned(2)),
                "d"@ => Json::Object(map![
                    "token"@ => Json::Text(token),
                    "intents"@ => Json::Number(Number::Unsigned(37376)),
                    "properties"@ => Json::Object(map![
                        "os"@ => Json::Text(os),
                        "browser"@ => Json::Text("discord-middleman"@),
                        "device"@ => Json::Text("discord-middleman"@),
                    ]),
                ]),
            ],
        ),
        wss::identify_frame(token, os) == wss::opening_frame(token, None, os),
{
    assert((1u64 << 9) | (1u64 << 12) | (1u64 << 15) == 37376) by (bit_vector);
}

/// A connection of a bot with a session opens with its token, the id of the session and the
/// last sequence number seen, each as it is.
pub proof fn law_resume_holds_the_session(token: Seq<char>, session: SessionView, os: Seq<char>)
    ensures
        wss::opening_frame(token, Some(session), os) == Json::Object(
            map![
                "op"@ => Json::Number(Number::Unsigned(6)),
                "d"@ => Json::Object(map![
                    "token"@ => Json::Text(token),
                    "session_id"@ => Json::Text(session.id),
                    "seq"@ => match session.seq {
                        Some(n) => Json::Number(Number::Unsigned(n)),
                        None => Json::Null,
                    },
                ]),
            ],
        ),
        wss::resume_frame(token, session) == wss::opening_frame(token, Some(session), os),
{
}

/// A session is resumed at its URL as it is, but for slashes at the end, with the query
/// behind it. Without a session, the gateway's own address is used.
pub proof fn law_session_is_resumed_at_its_url(
    url: Seq<char>,
    slashes: Seq<char>,
    id: Seq<char>,
    seq: Option<u64>,
)
    requires
        url.len() > 0 ==> url.last() != '/',
        forall|i: int| 0 <= i < slashes.len() ==> #[trigger] slashes[i] == '/',
    ensures
        wss::address(Some(SessionView { id, resume_url: url + slashes, seq })) == url
            + "?v=10&encoding=json"@,
        wss::address(None) == "wss://gateway.discord.gg/?v=10&encoding=json"@,
{
    text::law_trailing_slashes_are_cut(url, slashes);
}

/// The heartbeat interval is the number of milliseconds in the greeting. A greeting
/// without one opens nothing.
pub proof fn law_greeting_holds_the_interval(hello: Json, n: u64)
    ensures
        wss::hello_millis(hello) == Some(n) <==> (json::member(hello, "d"@) matches Some(d)
            && json::member(d, "heartbeat_interval"@) == Some(Json::Number(Number::Unsigned(n)))),
{
}

/// A fresh connection awaits no answer, goes on from the sequence number of the session, and
/// beats in the interval of the greeting.
pub proof fn law_fresh_connection(gateway: Gateway, connection: Connection, millis: u64)
    requires
        gateway.opens(connection, millis),
    ensures
        !connection.awaiting_ack,
        gateway.session matches Some(s) ==> connection.seq == s.seq,
        gateway.session is None ==> connection.seq is None,
        delay::duration_nanos(connection.interval) == millis * 1_000_000,
{
}

/// What follows the end of a connection.
///
/// The session is kept but for one that is to be replaced. A connection that is to be
/// resumed is reopened at once, a replaced session after two seconds, and a failed
/// connection after the current wait, which doubles up to a minute and otherwise goes back
/// to a second. Just an end that a session is resumed after counts as a resume.
pub proof fn law_end_is_followed(
    gateway: Gateway,
    outcome: Result<Disconnect, GatewayError>,
    project_id: Seq<char>,
    after: Gateway,
    r: Reconnect,
)
    requires
        gateway.reconnects(outcome, project_id, after, r),
    ensures
        outcome == Ok::<Disconnect, GatewayError>(Disconnect::Reidentify) ==> after.session is None,
        outcome != Ok::<Disconnect, GatewayError>(Disconnect::Reidentify) ==> after.session
            == gateway.session,
        match outcome {
            Ok(Disconnect::Resume) => r.pause is None,
            Ok(Disconnect::Reidentify) => r.pause matches Some(d) && delay::duration_nanos(d)
                == 2_000_000_000,
            Err(_) => r.pause matches Some(d) && delay::duration_nanos(d) == gateway.backoff@,
        },
        after.backoff@ == if outcome is Ok {
            1_000_000_000
        } else if 2 * gateway.backoff@ < 60_000_000_000 {
            2 * gateway.backoff@
        } else {
            60_000_000_000
        },
        r.sample@ == SampleView::Count(
            if outcome == Ok::<Disconnect, GatewayError>(Disconnect::Resume)
                && gateway.session is Some {
                "relay_gateway_resumes_total"@
            } else {
                "relay_gateway_reconnects_total"@
            },
            project_id,
            1,
        ),
{
}

/// Errors tell what they carry in full.
pub proof fn law_errors_in_words(err: GatewayError)
    ensures
        err is Closed ==> err.words() == "connection closed"@,
        err is MissingInterval ==> err.words() == "hello missing heartbeat_interval"@,
        err matches GatewayError::Json(e) ==> err.words() == e@,
        err matches GatewayError::Socket(e) ==> err.words() == e@,
{
}

/// A session and an event that may be missing have the contents of what they hold.
pub proof fn law_contents_are_what_is_held(session: Option<Session>, event: Option<ForwardEvent>)
    ensures
        match session {
            Some(s) => {
                &&& wss::session_view(session) matches Some(v)
                &&& v.id == s.id@
                &&& v.resume_url == s.resume_url@
                &&& v.seq == s.seq
            },
            None => wss::session_view(session) is None,
        },
        match event {
            Some(e) => {
                &&& wss::event_view(event) matches Some(v)
                &&& v.name == e.name@
                &&& v.data == json::json_view(e.data)
            },
            None => wss::event_view(event) is None,
        },
{
}

} // verus!
