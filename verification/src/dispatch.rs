//! Per-channel concurrent delivery of gateway events.
//!
//! The gateway read loop must never block on downstream delivery, since a slow
//! downstream would then stall heartbeats. So events are forwarded on separate tasks
//! that are fed through bounded channels, the lanes. Each lane is drained strictly in
//! order. An event is routed to a lane by hashing a key of its payload: the channel,
//! else the guild, else a constant. So events of one channel share a lane and stay in
//! order, while different channels spread over the lanes.

use crate::hashing;
use crate::hashing::feed;
use crate::json;
use crate::json::{member_str, Json};
use crate::lane;
use crate::lane::Lane;
use crate::metrics;
use crate::metrics::{
    event_dropped, event_forwarded, event_received, forward_failure, forward_retries, Sample,
    SampleView,
};
use crate::text;
use crate::text::{parse_unsigned, trim, Strip};
use serde_json::Value;
use std::collections::hash_map::DefaultHasher;
use std::hash::Hasher;
use tokio::sync::mpsc;
use vstd::prelude::*;
use vstd::std_specs::hash::DefaultHasherAdditionalSpecFns;

verus! {

/// How many delivery lanes a bot has by default.
pub const DEFAULT_SHARDS: usize = 8;

/// How many events a lane buffers by default.
pub const DEFAULT_SHARD_BUFFER: usize = 256;

/// Environment variable that overrides the number of delivery lanes per bot.
pub const SHARDS_ENV: &'static str = "FORWARD_SHARDS";

/// Environment variable that overrides how many events a lane buffers.
pub const BUFFER_ENV: &'static str = "FORWARD_BUFFER";

/// One event queued for delivery.
pub struct ForwardEvent {
    /// The name of the gateway event, e.g. `MESSAGE_CREATE`.
    pub name: String,
    /// Its payload, which becomes the body of the request.
    pub data: Value,
}

/// The contents of a [`ForwardEvent`].
#[verifier::ext_equal]
pub struct Event {
    /// See [`ForwardEvent::name`].
    pub name: Seq<char>,
    /// See [`ForwardEvent::data`].
    pub data: Json,
}

impl View for ForwardEvent {
    type V = Event;

    open spec fn view(&self) -> Event {
        Event { name: self.name@, data: json::json_view(self.data) }
    }
}

/// An event has the name and the payload that it holds.
pub proof fn law_contents_are_the_event(event: ForwardEvent)
    ensures
        event@.name == event.name@,
        event@.data == json::json_view(event.data),
{
}

/// The number that a setting comes to: the decimal number in it, with or without
/// surrounding white space, but at least one; or the default where it is unset or no
/// such number.
pub open spec fn count_setting(value: Option<Seq<char>>, default: int) -> int {
    match value {
        Some(v) => match text::unsigned_value(
            text::strip(v, Strip::White),
            usize::MAX as int,
        ) {
            Some(n) => if n < 1 {
                1
            } else {
                n
            },
            None => default,
        },
        None => default,
    }
}

/// The decimal number in the value of an environment variable, where it is set and
/// holds one.
pub fn env_usize(value: Option<&str>) -> (r: Option<usize>)
    ensures
        match (value, r) {
            (Some(v), Some(n)) => text::unsigned_value(
                text::strip(v@, Strip::White),
                usize::MAX as int,
            ) == Some(n as int),
            (Some(v), None) => text::unsigned_value(
                text::strip(v@, Strip::White),
                usize::MAX as int,
            ) is None,
            (None, _) => r is None,
        },
{
    match value {
        Some(v) => match parse_unsigned(trim(v, Strip::White), usize::MAX as u64) {
            Some(n) => Some(n as usize),
            None => None,
        },
        None => None,
    }
}

fn floored(value: Option<&str>, default: usize) -> (r: usize)
    requires
        default >= 1,
    ensures
        r == count_setting(text::contents(value), default as int),
        r >= 1,
{
    match env_usize(value) {
        Some(n) => if n < 1 {
            1
        } else {
            n
        },
        None => default,
    }
}

/// The number of delivery lanes, given the value of [`SHARDS_ENV`]. There is at least
/// one, so that there is somewhere to route to.
pub fn shard_count(value: Option<&str>) -> (r: usize)
    ensures
        r == count_setting(text::contents(value), DEFAULT_SHARDS as int),
        r >= 1,
{
    floored(value, DEFAULT_SHARDS)
}

/// How many events a lane buffers, given the value of [`BUFFER_ENV`]. It is at least
/// one.
pub fn shard_buffer(value: Option<&str>) -> (r: usize)
    ensures
        r == count_setting(text::contents(value), DEFAULT_SHARD_BUFFER as int),
        r >= 1,
{
    floored(value, DEFAULT_SHARD_BUFFER)
}

/// The hash of a routing key.
pub open spec fn key_hash(key: Seq<char>) -> u64 {
    DefaultHasher::spec_finish(hashing::str_writes(key))
}

/// The hash of a routing key. The hasher starts from fixed keys, so a text has the
/// same hash within and across runs.
pub fn hash(key: &str) -> (r: u64)
    ensures
        r == key_hash(key@),
{
    let mut hasher = DefaultHasher::new();
    feed(&mut hasher, key);
    proof {
        assert(Seq::<Seq<u8>>::empty() + hashing::str_writes(key@) =~= hashing::str_writes(key@));
    }
    hasher.finish()
}

/// What events are ordered by: the channel where a payload names one, else the guild.
pub open spec fn key_of(data: Json) -> Option<Seq<char>> {
    match json::characters(json::member(data, "channel_id"@)) {
        Some(channel) => Some(channel),
        None => json::characters(json::member(data, "guild_id"@)),
    }
}

/// What events are ordered by: the channel where a payload names one, else the guild.
pub fn routing_key(data: &Value) -> (r: Option<&str>)
    ensures
        match r {
            Some(key) => key_of(json::json_view(*data)) == Some(key@),
            None => key_of(json::json_view(*data)) is None,
        },
        match json::member(json::json_view(*data), "channel_id"@) {
            Some(Json::Text(channel)) => r matches Some(key) && key@ == channel,
            _ => match json::member(json::json_view(*data), "guild_id"@) {
                Some(Json::Text(guild)) => r matches Some(key) && key@ == guild,
                _ => r is None,
            },
        },
{
    match member_str(data, "channel_id") {
        Some(channel) => Some(channel),
        None => member_str(data, "guild_id"),
    }
}

/// The lane, of `lanes` lanes, for events with the given routing key. Events without
/// one go to the first lane.
pub open spec fn key_lane(key: Option<Seq<char>>, lanes: int) -> int {
    match key {
        Some(k) => key_hash(k) as int % lanes,
        None => 0,
    }
}

/// The lane, of `lanes` lanes, for an event with the given payload.
pub open spec fn lane_of(data: Json, lanes: int) -> int {
    key_lane(key_of(data), lanes)
}

/// The lane, of `lanes` lanes, for an event with the payload `data`.
pub fn shard_for(data: &Value, lanes: usize) -> (r: usize)
    requires
        lanes > 0 || key_of(json::json_view(*data)) is None,
    ensures
        r == lane_of(json::json_view(*data), lanes as int),
        lanes > 0 ==> r < lanes,
{
    match routing_key(data) {
        Some(key) => (hash(key) % (lanes as u64)) as usize,
        None => 0,
    }
}

/// The guild that a payload names alone: its member `guild_id`, where that is a string and
/// the member `channel_id` is none.
pub open spec fn names_guild_alone(data: Json, guild: Seq<char>) -> bool {
    &&& !(json::member(data, "channel_id"@) matches Some(Json::Text(_)))
    &&& json::member(data, "guild_id"@) == Some(Json::Text(guild))
}

/// Payloads that name one channel have one lane, whatever else they hold: the one that
/// the hash of the channel falls on.
pub proof fn law_channel_has_one_lane(a: Json, b: Json, channel: Seq<char>, lanes: int)
    requires
        json::member(a, "channel_id"@) == Some(Json::Text(channel)),
        json::member(b, "channel_id"@) == Some(Json::Text(channel)),
    ensures
        key_of(a) == Some(channel),
        lane_of(a, lanes) == lane_of(b, lanes),
        lane_of(a, lanes) == DefaultHasher::spec_finish(hashing::str_writes(channel)) as int
            % lanes,
{
}

/// Payloads that name no channel but one guild have one lane, whatever else they hold: the
/// one that the hash of the guild falls on.
pub proof fn law_guild_has_one_lane(a: Json, b: Json, guild: Seq<char>, lanes: int)
    requires
        !(json::member(a, "channel_id"@) matches Some(Json::Text(_))),
        !(json::member(b, "channel_id"@) matches Some(Json::Text(_))),
        json::member(a, "guild_id"@) == Some(Json::Text(guild)),
        json::member(b, "guild_id"@) == Some(Json::Text(guild)),
    ensures
        key_of(a) == Some(guild),
        lane_of(a, lanes) == lane_of(b, lanes),
        lane_of(a, lanes) == DefaultHasher::spec_finish(hashing::str_writes(guild)) as int % lanes,
{
}

/// Payloads that name neither a channel nor a guild all go to the first lane.
pub proof fn law_keyless_has_first_lane(data: Json, lanes: int)
    requires
        !(json::member(data, "channel_id"@) matches Some(Json::Text(_))),
        !(json::member(data, "guild_id"@) matches Some(Json::Text(_))),
    ensures
        key_of(data) is None,
        lane_of(data, lanes) == 0,
{
}

/// A count is the number that it is set to, which white space may surround, but at least
/// one. The default stands in where it is unset, blank, too large, or holds anything but
/// digits behind an optional plus sign.
pub proof fn law_count_is_the_number(
    before: Seq<char>,
    n: int,
    after: Seq<char>,
    default: int,
)
    requires
        0 <= n,
        text::is_padding(before, Strip::White),
        text::is_padding(after, Strip::White),
    ensures
        count_setting(Some(before + text::decimal_text(n) + after), default) == if n > usize::MAX {
            default
        } else if n == 0 {
            1
        } else {
            n
        },
        count_setting(None, default) == default,
        count_setting(Some(before), default) == default,
{
    text::law_padded_number_reads_back(before, seq![], n, after, usize::MAX as int);
    assert(before + (seq![] + text::decimal_text(n)) + after =~= before + text::decimal_text(n)
        + after);
    text::law_strip_drops_padding(before, seq![], seq![], Strip::White);
    assert(before + seq![] + seq![] =~= before);
}

/// A count that is set to anything but a number is the default.
pub proof fn law_count_is_the_default(
    before: Seq<char>,
    s: Seq<char>,
    after: Seq<char>,
    at: int,
    default: int,
)
    requires
        text::is_padding(before, Strip::White),
        text::is_padding(after, Strip::White),
        0 <= at < s.len(),
        !text::is_white(s[0]),
        !text::is_white(s.last()),
        !('0' <= s[at] <= '9'),
        !(at == 0 && s[at] == '+'),
    ensures
        count_setting(Some(before + s + after), default) == default,
{
    text::law_strip_drops_padding(before, s, after, Strip::White);
    text::law_other_texts_are_no_number(s, usize::MAX as int, at);
}

/// What is recorded of an event that was handed to its lane: that it was queued for
/// delivery where the lane took it, that it was dropped where not.
pub open spec fn enqueue_samples(project_id: Seq<char>, taken: bool) -> Seq<SampleView> {
    let series = if taken {
        metrics::EVENTS_RECEIVED@
    } else {
        metrics::EVENTS_DROPPED@
    };
    seq![SampleView::Count(series, project_id, 1)]
}

/// An event that was handed to its lane counts once: as received where it was taken, as
/// dropped where not.
pub proof fn lemma_enqueue_totals(project_id: Seq<char>, taken: bool)
    ensures
        metrics::total(
            enqueue_samples(project_id, taken),
            metrics::EVENTS_RECEIVED@,
            project_id,
        ) == if taken {
            1int
        } else {
            0int
        },
        metrics::total(
            enqueue_samples(project_id, taken),
            metrics::EVENTS_DROPPED@,
            project_id,
        ) == if taken {
            0int
        } else {
            1int
        },
{
    reveal_with_fuel(metrics::total, 2);
    reveal_strlit("relay_events_received_total");
    reveal_strlit("relay_events_dropped_total");
    assert(metrics::EVENTS_RECEIVED@.len() != metrics::EVENTS_DROPPED@.len());
    assert(enqueue_samples(project_id, taken).drop_last() =~= Seq::empty());
}

/// What is recorded of a forward that is over.
pub open spec fn delivery_samples(
    project_id: Seq<char>,
    attempts: int,
    succeeded: bool,
) -> Seq<SampleView> {
    let retries = if attempts > 1 {
        seq![SampleView::Count(metrics::FORWARD_RETRIES@, project_id, attempts - 1)]
    } else {
        seq![]
    };
    let outcome = if succeeded {
        metrics::EVENTS_FORWARDED@
    } else {
        metrics::FORWARD_FAILURES@
    };
    retries.push(SampleView::Count(outcome, project_id, 1))
}

/// A forward that is over counts once, as forwarded or as failed, and so do its attempts
/// but the first as retries. Nothing else is recorded of it.
pub proof fn law_forward_is_counted(project_id: Seq<char>, attempts: int, succeeded: bool)
    ensures
        ({
            let list = delivery_samples(project_id, attempts, succeeded);
            let outcome = SampleView::Count(
                if succeeded {
                    "relay_events_forwarded_total"@
                } else {
                    "relay_forward_failures_total"@
                },
                project_id,
                1,
            );
            if attempts > 1 {
                list == seq![
                    SampleView::Count("relay_forward_retries_total"@, project_id, attempts - 1),
                    outcome,
                ]
            } else {
                list == seq![outcome]
            }
        }),
{
}

/// An event that was handed to its lane counts once. Nothing else is recorded of it.
pub proof fn law_event_is_counted(project_id: Seq<char>, taken: bool)
    ensures
        enqueue_samples(project_id, taken) == seq![
            SampleView::Count(
                if taken {
                    "relay_events_received_total"@
                } else {
                    "relay_events_dropped_total"@
                },
                project_id,
                1,
            ),
        ],
{
}

/// What is recorded of a forward that took `attempts` attempts. Retries are recorded
/// on success and failure alike, since a failed forward performs the most of them.
pub fn delivered(project_id: &str, attempts: u32, succeeded: bool) -> (r: Vec<Sample>)
    ensures
        metrics::samples(r@) == delivery_samples(project_id@, attempts as int, succeeded),
{
    let mut r: Vec<Sample> = Vec::new();
    match forward_retries(project_id, attempts.saturating_sub(1) as u64) {
        Some(sample) => {
            r.push(sample);
        },
        None => {},
    }
    if succeeded {
        r.push(event_forwarded(project_id));
    } else {
        r.push(forward_failure(project_id));
    }
    assert(metrics::samples(r@) =~= delivery_samples(project_id@, attempts as int, succeeded));
    r
}

/// The events that go to lane number `lane` of `lanes` lanes, in order.
pub open spec fn lane_log(events: Seq<Event>, lanes: int, lane: int) -> Seq<Event> {
    events.filter(|e: Event| lane_of(e.data, lanes) == lane)
}

/// The events with the given routing key, in order.
pub open spec fn with_key(events: Seq<Event>, key: Option<Seq<char>>) -> Seq<Event> {
    events.filter(|e: Event| key_of(e.data) == key)
}

/// Events with one routing key all go to one lane, and come out of it in the order in
/// which they were taken. Events without a key are among themselves such events.
pub proof fn law_lane_keeps_order(events: Seq<Event>, lanes: int, key: Option<Seq<char>>)
    ensures
        with_key(lane_log(events, lanes, key_lane(key, lanes)), key) == with_key(events, key),
        forall|lane: int|
            lane != key_lane(key, lanes) ==> with_key(
                #[trigger] lane_log(events, lanes, lane),
                key,
            ) == Seq::<Event>::empty(),
    decreases events.len(),
{
    reveal(Seq::filter);
    if events.len() > 0 {
        law_lane_keeps_order(events.drop_last(), lanes, key);
        let last = events.last();
        assert forall|lane: int| #[trigger]
            with_key(lane_log(events, lanes, lane), key) == if lane_of(last.data, lanes) == lane
                && key_of(last.data) == key {
                with_key(lane_log(events.drop_last(), lanes, lane), key).push(last)
            } else {
                with_key(lane_log(events.drop_last(), lanes, lane), key)
            } by {
            let front = lane_log(events.drop_last(), lanes, lane);
            if lane_of(last.data, lanes) == lane {
                assert(lane_log(events, lanes, lane) == front.push(last));
                assert(front.push(last).drop_last() =~= front);
            }
        }
        assert forall|lane: int| lane != key_lane(key, lanes) implies with_key(
            #[trigger] lane_log(events, lanes, lane),
            key,
        ) == Seq::<Event>::empty() by {
            assert(with_key(lane_log(events.drop_last(), lanes, lane), key) == Seq::<
                Event,
            >::empty());
        }
    } else {
        assert forall|lane: int| with_key(#[trigger] lane_log(events, lanes, lane), key) == Seq::<
            Event,
        >::empty() by {
            assert(events =~= Seq::<Event>::empty());
        }
        assert(events =~= Seq::<Event>::empty());
    }
}

/// Where all events of one kind belong to one lane, that lane holds all of them, in order,
/// and no other lane holds any.
proof fn lemma_kind_in_lane(
    events: Seq<Event>,
    lanes: int,
    home: int,
    lane: int,
    p: spec_fn(Event) -> bool,
)
    requires
        forall|e: Event| #[trigger] p(e) ==> lane_of(e.data, lanes) == home,
    ensures
        lane_log(events, lanes, lane).filter(p) == if lane == home {
            events.filter(p)
        } else {
            Seq::empty()
        },
    decreases events.len(),
{
    reveal(Seq::filter);
    if events.len() > 0 {
        let front = events.drop_last();
        let last = events.last();
        lemma_kind_in_lane(front, lanes, home, lane, p);
        let log = lane_log(front, lanes, lane);
        if lane_of(last.data, lanes) == lane {
            assert(lane_log(events, lanes, lane) == log.push(last));
            assert(log.push(last).drop_last() =~= log);
        } else {
            assert(lane_log(events, lanes, lane) == log);
        }
        assert(p(last) || !p(last));
    } else {
        assert(events =~= Seq::<Event>::empty());
    }
}

/// Every event has a lane.
pub proof fn law_lane_is_in_range(data: Json, lanes: int)
    requires
        lanes > 0,
    ensures
        0 <= lane_of(data, lanes) < lanes,
{
}

proof fn lemma_lane_log_push(events: Seq<Event>, event: Event, lanes: int, lane: int)
    ensures
        lane_log(events.push(event), lanes, lane) == if lane_of(event.data, lanes) == lane {
            lane_log(events, lanes, lane).push(event)
        } else {
            lane_log(events, lanes, lane)
        },
{
    reveal(Seq::filter);
    assert(events.push(event).drop_last() =~= events);
}

/// Routes events to a fixed set of ordered delivery lanes. Dropping it closes the
/// lanes, whose receivers then run out once they are drained.
pub struct Dispatcher {
    lanes: Vec<Lane>,
    project_id: String,
    taken: Ghost<Seq<Event>>,
}

impl View for Dispatcher {
    type V = Seq<Event>;

    /// The events that were taken for delivery, in order.
    closed spec fn view(&self) -> Seq<Event> {
        self.taken@
    }
}

impl Dispatcher {
    /// Whether there is a lane, and every lane was handed just its share of the
    /// events that were taken, in order.
    pub closed spec fn wf(self) -> bool {
        &&& self.lanes@.len() >= 1
        &&& forall|l: int|
            0 <= l < self.lanes@.len() ==> (#[trigger] self.lanes@[l])@ == lane_log(
                self.taken@,
                self.lanes@.len() as int,
                l,
            )
    }

    /// How many lanes there are.
    pub closed spec fn lane_count(self) -> int {
        self.lanes@.len() as int
    }

    /// The events that lane number `lane` was handed and took, in order.
    pub closed spec fn lane(self, lane: int) -> Seq<Event> {
        self.lanes@[lane]@
    }

    /// How many events lane number `lane` buffers at most.
    pub closed spec fn room(self, lane: int) -> nat {
        self.lanes@[lane].room()
    }

    /// Whether lane number `lane` refused an event because nothing receives from it any
    /// more.
    pub closed spec fn closed(self, lane: int) -> bool {
        self.lanes@[lane].closed()
    }

    /// Whether what lane number `lane` takes goes to `receiver`.
    pub closed spec fn feeds(self, lane: int, receiver: mpsc::Receiver<ForwardEvent>) -> bool {
        self.lanes@[lane].feeds(receiver)
    }

    /// The project that the bot belongs to.
    pub closed spec fn project(self) -> Seq<char> {
        self.project_id@
    }

    /// Whether `after` is this dispatcher once `event`, if any, was queued, and
    /// `samples` is what was recorded: the event was taken and counted as received, or it
    /// was dropped and the drop counted. Only a lane that is saturated, and so took as
    /// many events as it has room for at least, or closed, which is for good, drops an
    /// event. Every lane goes on feeding its receiver.
    pub open spec fn offered(
        self,
        event: Option<Event>,
        after: Self,
        samples: Seq<SampleView>,
    ) -> bool {
        &&& after.wf()
        &&& after.lane_count() == self.lane_count()
        &&& after.project() == self.project()
        &&& forall|lane: int|
            0 <= lane < self.lane_count() ==> #[trigger] after.room(lane) == self.room(lane)
        &&& forall|lane: int, receiver: mpsc::Receiver<ForwardEvent>|
            0 <= lane < self.lane_count() ==> #[trigger] after.feeds(lane, receiver) == self.feeds(
                lane,
                receiver,
            )
        &&& forall|lane: int|
            0 <= lane < self.lane_count() ==> if event matches Some(e) && lane == lane_of(
                e.data,
                self.lane_count(),
            ) {
                self.closed(lane) ==> #[trigger] after.closed(lane)
            } else {
                after.closed(lane) == self.closed(lane)
            }
        &&& match event {
            Some(e) => {
                let lane = lane_of(e.data, self.lane_count());
                ||| {
                    &&& after@ == self@.push(e)
                    &&& samples == enqueue_samples(self.project(), true)
                    &&& !self.closed(lane)
                    &&& !after.closed(lane)
                }
                ||| {
                    &&& after@ == self@
                    &&& samples == enqueue_samples(self.project(), false)
                    &&& self.lane(lane).len() >= self.room(lane) || after.closed(lane)
                }
            },
            None => after@ == self@ && samples == Seq::<SampleView>::empty(),
        }
    }

    /// Each lane was handed its share of the events that were taken.
    pub proof fn law_lanes_share_events(self, lane: int)
        requires
            self.wf(),
            0 <= lane < self.lane_count(),
        ensures
            self.lane(lane) == lane_log(self@, self.lane_count(), lane),
    {
    }

    /// Events with one routing key, such as those of one channel, are all in one lane,
    /// in the order in which they were taken.
    pub proof fn law_channel_stays_in_order(self, key: Option<Seq<char>>)
        requires
            self.wf(),
        ensures
            0 <= key_lane(key, self.lane_count()) < self.lane_count(),
            with_key(self.lane(key_lane(key, self.lane_count())), key) == with_key(self@, key),
            forall|lane: int|
                0 <= lane < self.lane_count() && lane != key_lane(key, self.lane_count())
                    ==> with_key(#[trigger] self.lane(lane), key) == Seq::<Event>::empty(),
    {
        law_lane_keeps_order(self@, self.lane_count(), key);
        assert forall|lane: int|
            0 <= lane < self.lane_count() && lane != key_lane(
                key,
                self.lane_count(),
            ) implies with_key(#[trigger] self.lane(lane), key) == Seq::<Event>::empty() by {
            self.law_lanes_share_events(lane);
        }
        self.law_lanes_share_events(key_lane(key, self.lane_count()));
    }

    /// Events that name one channel are all in one lane, in the order in which they were
    /// taken, and in no other one. So are events that name no channel but one guild, and
    /// events that name neither.
    pub proof fn law_order_is_kept(self, name: Seq<char>, lane: int)
        requires
            self.wf(),
            0 <= lane < self.lane_count(),
        ensures
            ({
                let hash = DefaultHasher::spec_finish(hashing::str_writes(name));
                let home = hash as int % self.lane_count();
                let channel = |e: Event|
                    json::member(e.data, "channel_id"@) == Some(Json::Text(name));
                let guild = |e: Event| names_guild_alone(e.data, name);
                let neither = |e: Event|
                    !(json::member(e.data, "channel_id"@) matches Some(Json::Text(_))) && !(
                    json::member(e.data, "guild_id"@) matches Some(Json::Text(_)));
                &&& 0 <= home < self.lane_count()
                &&& self.lane(lane).filter(channel) == if lane == home {
                    self@.filter(channel)
                } else {
                    Seq::empty()
                }
                &&& self.lane(lane).filter(guild) == if lane == home {
                    self@.filter(guild)
                } else {
                    Seq::empty()
                }
                &&& self.lane(lane).filter(neither) == if lane == 0 {
                    self@.filter(neither)
                } else {
                    Seq::empty()
                }
            }),
    {
        let n = self.lane_count();
        let hash = DefaultHasher::spec_finish(hashing::str_writes(name));
        let home = hash as int % n;
        let channel = |e: Event| json::member(e.data, "channel_id"@) == Some(Json::Text(name));
        let guild = |e: Event| names_guild_alone(e.data, name);
        let neither = |e: Event|
            !(json::member(e.data, "channel_id"@) matches Some(Json::Text(_))) && !(json::member(
                e.data,
                "guild_id"@,
            ) matches Some(Json::Text(_)));
        self.law_lanes_share_events(lane);
        lemma_kind_in_lane(self@, n, home, lane, channel);
        lemma_kind_in_lane(self@, n, home, lane, guild);
        lemma_kind_in_lane(self@, n, 0, lane, neither);
    }

    /// An event is taken as it is, after all that were taken before, or nothing is taken.
    /// It is refused only by its own lane, and only where that took as many events as it
    /// has room for at least, or is closed.
    pub proof fn law_event_is_taken_or_refused(
        self,
        event: Event,
        after: Self,
        samples: Seq<SampleView>,
    )
        requires
            self.wf(),
            self.offered(Some(event), after, samples),
        ensures
            after.wf(),
            after.lane_count() == self.lane_count(),
            after.project() == self.project(),
            ({
                let lane = lane_of(event.data, self.lane_count());
                let taken = self.lane(lane).len() < self.room(lane) && !after.closed(lane);
                &&& taken ==> after@ == self@.push(event)
                &&& after@ == self@.push(event) || after@ == self@
                &&& samples == seq![
                    SampleView::Count(
                        if after@ == self@.push(event) {
                            "relay_events_received_total"@
                        } else {
                            "relay_events_dropped_total"@
                        },
                        self.project(),
                        1,
                    ),
                ]
            }),
    {
        assert(self@.push(event).len() == self@.len() + 1);
    }

    /// Opens the delivery lanes of a bot, given the values of [`SHARDS_ENV`] and
    /// [`BUFFER_ENV`]. The receiving ends that the lanes feed come back in the order of
    /// the lanes; each of them is to be drained by a worker of its own.
    pub fn spawn(shards: Option<&str>, buffer: Option<&str>, project_id: String) -> (r: (
        Self,
        Vec<mpsc::Receiver<ForwardEvent>>,
    ))
        requires
            count_setting(text::contents(buffer), DEFAULT_SHARD_BUFFER as int) <= usize::MAX / 8,
        ensures
            r.0.wf(),
            r.0@ == Seq::<Event>::empty(),
            r.0.lane_count() == count_setting(text::contents(shards), DEFAULT_SHARDS as int),
            r.0.lane_count() >= 1,
            r.0.project() == project_id@,
            r.1@.len() == r.0.lane_count(),
            forall|lane: int|
                0 <= lane < r.0.lane_count() ==> {
                    let room = count_setting(text::contents(buffer), DEFAULT_SHARD_BUFFER as int);
                    #[trigger] r.0.room(lane) == room && !r.0.closed(lane)
                        && lane::receiver_room(r.1@[lane]) == room && r.0.feeds(lane, r.1@[lane])
                },
    {
        let shards: usize = shard_count(shards);
        let buffer: usize = shard_buffer(buffer);
        let mut lanes: Vec<Lane> = Vec::new();
        let mut workers: Vec<mpsc::Receiver<ForwardEvent>> = Vec::new();
        let mut lane: usize = 0;
        while lane < shards
            invariant
                0 < buffer <= usize::MAX / 8,
                lane <= shards,
                lanes@.len() == lane,
                workers@.len() == lane,
                forall|l: int|
                    0 <= l < lane ==> (#[trigger] lanes@[l])@ == Seq::<Event>::empty()
                        && lanes@[l].room() == buffer && !lanes@[l].closed()
                        && lane::receiver_room(workers@[l]) == buffer && lanes@[l].feeds(
                        workers@[l],
                    ),
            decreases shards - lane,
        {
            let (sender, receiver) = Lane::open(buffer);
            lanes.push(sender);
            workers.push(receiver);
            lane = lane + 1;
        }
        proof {
            reveal(Seq::filter);
        }
        (Dispatcher { lanes, project_id, taken: Ghost(Seq::empty()) }, workers)
    }

    /// The lane that an event goes to, and what goes there.
    pub fn route(&self, name: String, data: Value) -> (r: (usize, ForwardEvent))
        requires
            self.wf(),
        ensures
            r.0 == lane_of(json::json_view(data), self.lane_count()),
            r.0 < self.lane_count(),
            r.1 == (ForwardEvent { name, data }),
    {
        let lane: usize = shard_for(&data, self.lanes.len());
        (lane, ForwardEvent { name, data })
    }

    /// What is recorded of an event, given whether its lane took it.
    pub fn settle(&self, taken: bool) -> (r: Vec<Sample>)
        ensures
            metrics::samples(r@) == enqueue_samples(self.project(), taken),
    {
        let mut r: Vec<Sample> = Vec::new();
        if taken {
            r.push(event_received(self.project_id.as_str()));
        } else {
            r.push(event_dropped(self.project_id.as_str()));
        }
        assert(metrics::samples(r@) =~= enqueue_samples(self.project(), taken));
        r
    }

    /// Queues the payload `data` of an event for delivery, and says what to record.
    ///
    /// This never blocks. An event whose lane is saturated is dropped rather than
    /// stalling the gateway read loop, and the drop is counted.
    pub fn enqueue(&mut self, name: String, data: Value) -> (r: Vec<Sample>)
        requires
            old(self).wf(),
        ensures
            old(self).offered(
                Some(Event { name: name@, data: json::json_view(data) }),
                *final(self),
                metrics::samples(r@),
            ),
    {
        let (lane, event) = self.route(name, data);
        let ghost view = event@;
        let taken = self.lanes[lane].send(event);
        if taken {
            proof {
                let n = self.lanes@.len() as int;
                assert forall|l: int| 0 <= l < n implies (#[trigger] self.lanes@[l])@ == lane_log(
                    self.taken@.push(view),
                    n,
                    l,
                ) by {
                    lemma_lane_log_push(self.taken@, view, n, l);
                    assert(old(self).lanes@[l]@ == lane_log(self.taken@, n, l));
                }
                self.taken@ = self.taken@.push(view);
            }
        }
        self.settle(taken)
    }
}

} // verus!
