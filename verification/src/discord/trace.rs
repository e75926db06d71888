//! What holds of a gateway connection from its greeting to its end.

use crate::backoff;
use crate::delay;
use crate::discord::frames;
use crate::discord::wss;
use crate::discord::wss::{
    Action, Connection, Disconnect, Gateway, GatewayError, Incoming, Reconnect, Session,
    SessionView, Signal, Step,
};
use crate::dispatch;
use crate::dispatch::{Dispatcher, Event};
use crate::json;
use crate::json::{Json, Number};
use crate::metrics;
use crate::metrics::SampleView;
use vstd::arithmetic::power2::*;
use vstd::prelude::*;

verus! {

/// The signals of a connection one after the other, what it did on each, and the state
/// before the first of them and after each of them.
pub struct Trace {
    /// The state of the connection.
    pub connections: Seq<Connection>,
    /// What outlives the connection.
    pub gateways: Seq<Gateway>,
    /// The bot's delivery lanes.
    pub dispatchers: Seq<Dispatcher>,
    /// What the connection was waiting for.
    pub signals: Seq<Signal>,
    /// What it did.
    pub results: Seq<Result<Step, GatewayError>>,
}

/// The last sequence number seen, once the signals arrived.
pub open spec fn last_seq(seq: Option<u64>, signals: Seq<Signal>) -> Option<u64>
    decreases signals.len(),
{
    if signals.len() == 0 {
        seq
    } else {
        match wss::frame_in(signals.last()) {
            Some(frame) => wss::seq_after(last_seq(seq, signals.drop_last()), frame),
            None => last_seq(seq, signals.drop_last()),
        }
    }
}

/// Whether a signal brings the event of the given name.
pub open spec fn brings(signal: Signal, name: Seq<char>) -> bool {
    wss::frame_in(signal) matches Some(frame) && wss::is_event(frame, name)
}

/// Whether a signal brings a frame with the given opcode.
pub open spec fn brings_op(signal: Signal, op: u64) -> bool {
    wss::frame_in(signal) matches Some(frame) && wss::opcode(frame) == Some(op)
}

/// Whether a signal is a text frame that holds an event with the sequence number `n`: a
/// JSON object whose members `op` and `s` are 0 and `n`.
pub open spec fn carries(signal: Signal, n: u64) -> bool {
    signal matches Signal::Frame(Incoming::Text(t)) && json::json_parse(t@) matches Ok(frame)
        && json::member(frame, "op"@) == Some(Json::Number(Number::Unsigned(0))) && json::member(
        frame,
        "s"@,
    ) == Some(Json::Number(Number::Unsigned(n)))
}

/// Whether the session, if there is one, holds the last sequence number seen.
pub open spec fn in_step(session: Option<Session>, seq: Option<u64>) -> bool {
    session matches Some(s) ==> s.seq == seq
}

/// The event that is forwarded of a signal, where it brings one.
pub open spec fn event_in(signal: Signal) -> Option<Event> {
    match wss::frame_in(signal) {
        Some(frame) => wss::forwarded(frame),
        None => None,
    }
}

/// How many of the signals bring an event that is forwarded.
pub open spec fn event_count(signals: Seq<Signal>) -> nat
    decreases signals.len(),
{
    if signals.len() == 0 {
        0
    } else {
        event_count(signals.drop_last()) + if event_in(signals.last()) is Some {
            1nat
        } else {
            0nat
        }
    }
}

/// What was recorded on one signal.
pub open spec fn recorded(result: Result<Step, GatewayError>) -> Seq<SampleView> {
    match result {
        Ok(step) => metrics::samples(step.samples@),
        Err(_) => Seq::empty(),
    }
}

/// How much was added to a bot's counter over a list of results.
pub open spec fn added(
    results: Seq<Result<Step, GatewayError>>,
    series: Seq<char>,
    project_id: Seq<char>,
) -> int
    decreases results.len(),
{
    if results.len() == 0 {
        0
    } else {
        added(results.drop_last(), series, project_id) + metrics::total(
            recorded(results.last()),
            series,
            project_id,
        )
    }
}

/// What is forwarded of a frame is the payload alone, under the event's name, and only
/// an event with a payload is forwarded.
pub proof fn law_payload_alone_is_forwarded(frame: json::Json)
    ensures
        wss::forwarded(frame) is Some <==> wss::is_dispatch(frame) && (json::member(frame, "d"@)
            matches Some(data) && data != json::Json::Null),
        wss::forwarded(frame) matches Some(event) ==> {
            &&& json::member(frame, "d"@) == Some(event.data)
            &&& wss::event_name(frame) matches Some(name) ==> event.name == name
            &&& wss::event_name(frame) is None ==> event.name == "UNKNOWN"@
        },
{
}

/// Connections that fail one after the other are reopened after waits of one second,
/// two, four and so on, up to a minute. Throughout, the session is kept.
pub proof fn law_failures_back_off(
    gateways: Seq<Gateway>,
    outcomes: Seq<Result<Disconnect, GatewayError>>,
    project_id: Seq<char>,
    steps: Seq<Reconnect>,
    i: int,
)
    requires
        0 <= i < steps.len(),
        gateways.len() == steps.len() + 1,
        outcomes.len() == steps.len(),
        gateways[0].backoff@ == backoff::wait_after(0),
        forall|k: int|
            0 <= k < steps.len() ==> (#[trigger] outcomes[k]) is Err && gateways[k].reconnects(
                outcomes[k],
                project_id,
                gateways[k + 1],
                steps[k],
            ),
    ensures
        steps[i].pause matches Some(d) && delay::duration_nanos(d) == delay::at_most(
            delay::secs(pow2(i as nat) as int),
            delay::secs(backoff::MAX_SECS as int),
        ),
        gateways[i + 1].session == gateways[0].session,
        gateways[i + 1].backoff@ == backoff::wait_after((i + 1) as nat),
    decreases i,
{
    assert(outcomes[i] is Err);
    if i > 0 {
        law_failures_back_off(gateways, outcomes, project_id, steps, i - 1);
    }
    backoff::law_wait_doubles(i as nat);
}

impl Trace {
    /// Whether the connection did on every signal what [`Connection::pump`] does.
    pub open spec fn valid(self) -> bool {
        &&& self.results.len() == self.signals.len()
        &&& self.connections.len() == self.signals.len() + 1
        &&& self.gateways.len() == self.signals.len() + 1
        &&& self.dispatchers.len() == self.signals.len() + 1
        &&& self.dispatchers[0].wf()
        &&& forall|i: int| 0 <= i < self.signals.len() ==> #[trigger] self.pumped(i)
    }

    /// Whether the connection did on signal number `i` what [`Connection::pump`] does.
    pub open spec fn pumped(self, i: int) -> bool {
        self.connections[i].pumps(
            self.gateways[i],
            self.dispatchers[i],
            self.signals[i],
            self.connections[i + 1],
            self.gateways[i + 1],
            self.dispatchers[i + 1],
            self.results[i],
        )
    }

    proof fn lemma_take_unfold(self, i: int)
        requires
            0 <= i < self.signals.len(),
            self.results.len() == self.signals.len(),
        ensures
            self.signals.take(i + 1).drop_last() == self.signals.take(i),
            self.signals.take(i + 1).last() == self.signals[i],
            self.results.take(i + 1).drop_last() == self.results.take(i),
            self.results.take(i + 1).last() == self.results[i],
    {
        assert(self.signals.take(i + 1).drop_last() =~= self.signals.take(i));
        assert(self.results.take(i + 1).drop_last() =~= self.results.take(i));
    }

    /// A connection holds the last sequence number that it saw, and so does the session
    /// that is resumed after it, where the two agreed at its start.
    pub proof fn law_sequence_is_tracked(self, i: int)
        requires
            self.valid(),
            0 <= i <= self.signals.len(),
        ensures
            self.connections[i].seq == last_seq(self.connections[0].seq, self.signals.take(i)),
            in_step(self.gateways[0].session, self.connections[0].seq) ==> in_step(
                self.gateways[i].session,
                self.connections[i].seq,
            ),
        decreases i,
    {
        if i > 0 {
            self.law_sequence_is_tracked(i - 1);
            self.lemma_take_unfold(i - 1);
            assert(self.pumped(i - 1));
        }
    }

    /// The last sequence number seen is the one in the latest event that has one. So it is
    /// in the session that is resumed, and in what is sent on a later tick.
    pub proof fn law_latest_event_counts(self, at: int, n: u64, i: int)
        requires
            self.valid(),
            0 <= at < i <= self.signals.len(),
            carries(self.signals[at], n),
            forall|j: int, m: u64| at < j < i ==> !#[trigger] carries(self.signals[j], m),
        ensures
            self.connections[i].seq == Some(n),
            self.gateways[i].session matches Some(s) ==> s.seq == Some(n),
            i < self.signals.len() && self.signals[i] is Tick && !self.connections[i].awaiting_ack
                ==> wss::sends(
                self.results[i],
                json::json_text(
                    Json::Object(
                        map![
                            "op"@ => Json::Number(Number::Unsigned(1)),
                            "d"@ => Json::Number(Number::Unsigned(n)),
                        ],
                    ),
                ),
            ),
        decreases i,
    {
        assert(self.pumped(i - 1));
        if at < i - 1 {
            self.law_latest_event_counts(at, n, i - 1);
            self.lemma_uncounted(i - 1, n);
        } else {
            self.lemma_counted(at, n);
        }
        if i < self.signals.len() {
            assert(self.pumped(i));
            frames::law_heartbeat_holds_the_sequence(n);
        }
    }

    /// Without an event that has one, the sequence number stays the one that the connection
    /// started with.
    pub proof fn law_sequence_stays(self, i: int)
        requires
            self.valid(),
            0 <= i <= self.signals.len(),
            forall|j: int, m: u64| 0 <= j < i ==> !#[trigger] carries(self.signals[j], m),
        ensures
            self.connections[i].seq == self.connections[0].seq,
        decreases i,
    {
        if i > 0 {
            self.law_sequence_stays(i - 1);
            self.lemma_uncounted(i - 1, 0);
        }
    }

    proof fn lemma_counted(self, k: int, n: u64)
        requires
            self.valid(),
            0 <= k < self.signals.len(),
            carries(self.signals[k], n),
        ensures
            self.connections[k + 1].seq == Some(n),
            self.gateways[k + 1].session matches Some(s) ==> s.seq == Some(n),
    {
        assert(self.pumped(k));
        if let Signal::Frame(Incoming::Text(t)) = self.signals[k] {
            let frame = json::json_parse(t@)->Ok_0;
            assert(frames::is_numbered(frame, n));
            frames::law_frame_steps(
                self.connections[k],
                self.gateways[k],
                self.dispatchers[k],
                frame,
                self.connections[k + 1],
                self.gateways[k + 1],
                self.dispatchers[k + 1],
                self.results[k]->Ok_0,
                n,
            );
        }
    }

    proof fn lemma_uncounted(self, k: int, n: u64)
        requires
            self.valid(),
            0 <= k < self.signals.len(),
            forall|m: u64| !#[trigger] carries(self.signals[k], m),
        ensures
            self.connections[k + 1].seq == self.connections[k].seq,
            (self.connections[k].seq == Some(n) && (self.gateways[k].session matches Some(s)
                ==> s.seq == Some(n))) ==> (self.gateways[k + 1].session matches Some(s) ==> s.seq
                == Some(n)),
    {
        assert(self.pumped(k));
        if let Some(frame) = wss::frame_in(self.signals[k]) {
            assert forall|m: u64| !#[trigger] frames::is_numbered(frame, m) by {
                assert(!carries(self.signals[k], m));
            }
            let moved = Connection {
                awaiting_ack: wss::awaiting_after(self.connections[k].awaiting_ack, frame),
                ..self.connections[k + 1]
            };
            frames::law_frame_moves(
                self.connections[k],
                self.gateways[k],
                frame,
                moved,
                self.gateways[k + 1],
                n,
            );
        }
    }

    /// A fresh connection and the session that it goes on from agree.
    pub proof fn law_connection_starts_in_step(
        gateway: Gateway,
        connection: Connection,
        millis: u64,
    )
        requires
            gateway.opens(connection, millis),
        ensures
            in_step(gateway.session, connection.seq),
    {
    }

    /// The session that is resumed is the one that the last `READY` opened, with the
    /// last sequence number seen since.
    pub proof fn law_last_ready_is_resumed(self, ready: int, i: int)
        requires
            self.valid(),
            0 <= ready < i <= self.signals.len(),
            brings(self.signals[ready], "READY"@),
            forall|k: int| ready < k < i ==> !#[trigger] brings(self.signals[k], "READY"@),
        ensures
            wss::session_view(self.gateways[i].session) == Some(
                wss::ready_session(
                    wss::frame_in(self.signals[ready])->0,
                    last_seq(self.connections[0].seq, self.signals.take(i)),
                ),
            ),
        decreases i,
    {
        self.law_sequence_is_tracked(i - 1);
        self.law_sequence_is_tracked(i);
        assert(self.pumped(i - 1));
        if ready < i - 1 {
            self.law_last_ready_is_resumed(ready, i - 1);
            assert(!brings(self.signals[i - 1], "READY"@));
        }
    }

    /// A connection that saw no `READY` keeps the session that it resumed, with the
    /// last sequence number seen since; and one without a session gets none.
    pub proof fn law_session_survives(self, i: int)
        requires
            self.valid(),
            0 <= i <= self.signals.len(),
            in_step(self.gateways[0].session, self.connections[0].seq),
            forall|k: int| 0 <= k < i ==> !#[trigger] brings(self.signals[k], "READY"@),
        ensures
            wss::session_view(self.gateways[i].session) == match self.gateways[0].session {
                Some(s) => Some(
                    SessionView {
                        seq: last_seq(self.connections[0].seq, self.signals.take(i)),
                        ..s@
                    },
                ),
                None => None,
            },
        decreases i,
    {
        self.law_sequence_is_tracked(i);
        if i > 0 {
            self.law_session_survives(i - 1);
            self.law_sequence_is_tracked(i - 1);
            assert(self.pumped(i - 1));
            assert(!brings(self.signals[i - 1], "READY"@));
        }
    }

    /// The session is given up only where the gateway reports that it is not valid and
    /// cannot be resumed.
    pub proof fn law_only_invalid_session_is_given_up(self, i: int)
        requires
            self.valid(),
            0 <= i < self.signals.len(),
        ensures
            (self.results[i] matches Ok(step) && step.action == Action::End(Disconnect::Reidentify))
                <==> brings_op(self.signals[i], wss::OP_INVALID_SESSION) && json::truth(
                json::member(wss::frame_in(self.signals[i])->0, "d"@),
            ) != Some(true),
    {
        assert(self.pumped(i));
    }

    /// All that a connection sends is heartbeats, each with the last sequence number
    /// seen.
    pub proof fn law_heartbeat_carries_last_sequence(self, i: int)
        requires
            self.valid(),
            0 <= i < self.signals.len(),
        ensures
            self.results[i] matches Ok(step) && step.action is Send ==> wss::sends(
                self.results[i],
                json::json_text(
                    wss::heartbeat_frame(
                        last_seq(self.connections[0].seq, self.signals.take(i + 1)),
                    ),
                ),
            ),
    {
        self.law_sequence_is_tracked(i + 1);
        assert(self.pumped(i));
    }

    proof fn lemma_unanswered(self, i: int, j: int)
        requires
            self.valid(),
            0 <= i < j <= self.signals.len(),
            self.signals[i] is Tick,
            forall|k: int|
                i < k < j ==> !#[trigger] brings_op(self.signals[k], wss::OP_HEARTBEAT_ACK),
        ensures
            self.connections[j].awaiting_ack,
        decreases j,
    {
        assert(self.pumped(j - 1));
        if i < j - 1 {
            self.lemma_unanswered(i, j - 1);
            assert(!brings_op(self.signals[j - 1], wss::OP_HEARTBEAT_ACK));
        }
    }

    /// Where no answer to a heartbeat arrives between two ticks, the second one ends
    /// the connection, and the session is resumed.
    pub proof fn law_unanswered_heartbeat_ends(self, i: int, j: int)
        requires
            self.valid(),
            0 <= i < j < self.signals.len(),
            self.signals[i] is Tick,
            self.signals[j] is Tick,
            forall|k: int|
                i < k < j ==> !#[trigger] brings_op(self.signals[k], wss::OP_HEARTBEAT_ACK),
        ensures
            wss::ends_to_resume(self.results[j]),
    {
        self.lemma_unanswered(i, j);
        assert(self.pumped(j));
    }

    proof fn lemma_answered(self, ack: int, j: int)
        requires
            self.valid(),
            0 <= ack < j <= self.signals.len(),
            brings_op(self.signals[ack], wss::OP_HEARTBEAT_ACK),
            forall|k: int|
                ack < k < j ==> !(#[trigger] self.signals[k] is Tick) && !brings_op(
                    self.signals[k],
                    wss::OP_HEARTBEAT,
                ),
        ensures
            !self.connections[j].awaiting_ack,
        decreases j,
    {
        assert(self.pumped(j - 1));
        if ack < j - 1 {
            self.lemma_answered(ack, j - 1);
            assert(!(self.signals[j - 1] is Tick));
        }
    }

    /// Once an answer to a heartbeat arrived, and no other heartbeat was sent since,
    /// the next tick goes on with another one.
    pub proof fn law_answered_heartbeat_goes_on(self, ack: int, j: int)
        requires
            self.valid(),
            0 <= ack < j < self.signals.len(),
            brings_op(self.signals[ack], wss::OP_HEARTBEAT_ACK),
            forall|k: int|
                ack < k < j ==> !(#[trigger] self.signals[k] is Tick) && !brings_op(
                    self.signals[k],
                    wss::OP_HEARTBEAT,
                ),
            self.signals[j] is Tick,
        ensures
            wss::sends(
                self.results[j],
                json::json_text(wss::heartbeat_frame(self.connections[j].seq)),
            ),
    {
        self.lemma_answered(ack, j);
        assert(self.pumped(j));
    }

    proof fn lemma_dispatcher(self, i: int)
        requires
            self.valid(),
            0 <= i <= self.signals.len(),
        ensures
            self.dispatchers[i].wf(),
            self.dispatchers[i].project() == self.dispatchers[0].project(),
            self.dispatchers[i].lane_count() == self.dispatchers[0].lane_count(),
        decreases i,
    {
        if i > 0 {
            self.lemma_dispatcher(i - 1);
            assert(self.pumped(i - 1));
        }
    }

    proof fn lemma_offered(self, i: int)
        requires
            self.valid(),
            0 <= i < self.signals.len(),
        ensures
            self.dispatchers[i].offered(
                event_in(self.signals[i]),
                self.dispatchers[i + 1],
                recorded(self.results[i]),
            ),
    {
        self.lemma_dispatcher(i);
        assert(self.pumped(i));
        assert(event_in(self.signals[i]) is None ==> recorded(self.results[i])
            =~= Seq::empty());
    }

    /// Every event that is taken for delivery is counted as received, and every other one
    /// that arrives is counted as dropped: none is lost unseen.
    pub proof fn law_no_event_is_lost_unseen(self, i: int)
        requires
            self.valid(),
            0 <= i <= self.signals.len(),
        ensures
            added(
                self.results.take(i),
                metrics::EVENTS_RECEIVED@,
                self.dispatchers[0].project(),
            ) == self.dispatchers[i]@.len() - self.dispatchers[0]@.len(),
            added(
                self.results.take(i),
                metrics::EVENTS_RECEIVED@,
                self.dispatchers[0].project(),
            ) + added(
                self.results.take(i),
                metrics::EVENTS_DROPPED@,
                self.dispatchers[0].project(),
            ) == event_count(self.signals.take(i)),
        decreases i,
    {
        if i > 0 {
            self.law_no_event_is_lost_unseen(i - 1);
            self.lemma_take_unfold(i - 1);
            self.lemma_offered(i - 1);
            self.lemma_dispatcher(i - 1);
            dispatch::lemma_enqueue_totals(self.dispatchers[0].project(), true);
            dispatch::lemma_enqueue_totals(self.dispatchers[0].project(), false);
        }
    }

    /// Events are taken for delivery in the order in which they arrive, and nothing but
    /// them is taken: for some of the signals, in order, the events in them. With the
    /// order that each lane keeps, events of one channel stay in order end to end.
    pub proof fn law_events_keep_order(self, i: int) -> (picks: Seq<int>)
        requires
            self.valid(),
            0 <= i <= self.signals.len(),
        ensures
            forall|a: int| #![trigger picks[a]]
                0 <= a < picks.len() ==> 0 <= picks[a] < i && event_in(self.signals[picks[a]])
                    is Some,
            forall|a: int, b: int| 0 <= a < b < picks.len() ==> picks[a] < picks[b],
            self.dispatchers[i]@ == self.dispatchers[0]@ + picks.map_values(
                |k: int| event_in(self.signals[k])->0,
            ),
        decreases i,
    {
        if i == 0 {
            let picks = Seq::<int>::empty();
            assert(self.dispatchers[0]@ =~= self.dispatchers[0]@ + picks.map_values(
                |k: int| event_in(self.signals[k])->0,
            ));
            picks
        } else {
            let before = self.law_events_keep_order(i - 1);
            self.lemma_offered(i - 1);
            if self.dispatchers[i]@ == self.dispatchers[i - 1]@ {
                before
            } else {
                let picks = before.push(i - 1);
                assert(self.dispatchers[i]@ =~= self.dispatchers[0]@ + picks.map_values(
                    |k: int| event_in(self.signals[k])->0,
                ));
                picks
            }
        }
    }
}

} // verus!
