use discord_relay::dispatch::{
    delivered, env_usize, hash, routing_key, shard_buffer, shard_count, shard_for, Dispatcher,
};
use discord_relay::metrics::Sample;
use serde_json::Value;

fn json(text: &str) -> Value {
    serde_json::from_str(text).unwrap()
}

fn counts(samples: Vec<Sample>) -> Vec<(&'static str, String, u64)> {
    samples
        .into_iter()
        .map(|sample| match sample {
            Sample::Count { series, project_id, by } => (series, project_id, by),
            Sample::Level { .. } => panic!("no gauge is set here"),
        })
        .collect()
}

/// Whether an event was counted as queued, and not as dropped.
fn taken(samples: Vec<Sample>) -> bool {
    let counts = counts(samples);
    assert_eq!(counts.len(), 1);
    match counts[0].0 {
        "relay_events_received_total" => true,
        "relay_events_dropped_total" => false,
        other => panic!("{}", other),
    }
}

#[test]
fn routes_by_channel_then_guild() {
    let by_channel = json(r#"{ "channel_id": "111", "guild_id": "999" }"#);
    assert_eq!(routing_key(&by_channel), Some("111"));

    let by_guild = json(r#"{ "guild_id": "999" }"#);
    assert_eq!(routing_key(&by_guild), Some("999"));

    let keyless = json(r#"{ "user": { "id": "5" } }"#);
    assert_eq!(routing_key(&keyless), None);
}

#[test]
fn key_must_be_a_string_in_an_object() {
    assert_eq!(routing_key(&json(r#"{ "channel_id": 111, "guild_id": "999" }"#)), Some("999"));
    assert_eq!(routing_key(&json(r#"{ "channel_id": null, "guild_id": 9 }"#)), None);
    assert_eq!(routing_key(&json(r#"["channel_id", "111"]"#)), None);
    assert_eq!(routing_key(&json(r#""channel_id""#)), None);
}

#[test]
fn same_channel_maps_to_same_lane() {
    let a = json(r#"{ "channel_id": "12345", "content": "hi" }"#);
    let b = json(r#"{ "channel_id": "12345", "content": "there" }"#);
    assert_eq!(shard_for(&a, 8), shard_for(&b, 8));
}

#[test]
fn hash_is_deterministic() {
    assert_eq!(hash("12345"), hash("12345"));
}

#[test]
fn hash_tells_texts_apart() {
    assert_ne!(hash("12345"), hash("12346"));
    assert_ne!(hash(""), hash("1"));
}

#[test]
fn keyless_events_share_lane_zero() {
    let keyless = json(r#"{ "foo": "bar" }"#);
    assert_eq!(shard_for(&keyless, 8), 0);
}

#[test]
fn lane_index_is_in_range() {
    for id in 0..1000u64 {
        let v = json(&format!(r#"{{ "channel_id": "{}" }}"#, id));
        assert!(shard_for(&v, 8) < 8);
    }
}

#[test]
fn channels_spread_over_the_lanes() {
    let mut seen = vec![false; 8];
    for id in 0..1000u64 {
        seen[shard_for(&json(&format!(r#"{{ "channel_id": "{}" }}"#, id)), 8)] = true;
    }
    assert_eq!(seen, vec![true; 8]);
}

#[test]
fn counts_come_from_the_environment() {
    assert_eq!(shard_count(None), 8);
    assert_eq!(shard_buffer(None), 256);
    assert_eq!(shard_count(Some(" 3 ")), 3);
    assert_eq!(shard_buffer(Some("+1024")), 1024);
    assert_eq!(shard_count(Some("0")), 1);
    assert_eq!(shard_buffer(Some("0")), 1);
    assert_eq!(shard_count(Some("-1")), 8);
    assert_eq!(shard_count(Some("")), 8);
    assert_eq!(shard_buffer(Some("many")), 256);
    assert_eq!(env_usize(Some("18446744073709551616")), None);
    assert_eq!(env_usize(Some("007")), Some(7));
    assert_eq!(env_usize(Some("+")), None);
}

#[test]
fn events_of_a_channel_stay_in_order() {
    let (mut dispatcher, mut lanes) = Dispatcher::spawn(Some("4"), None, "proj".to_owned());
    assert_eq!(lanes.len(), 4);
    let first = json(r#"{ "channel_id": "7", "n": 1 }"#);
    let other = json(r#"{ "channel_id": "8", "n": 2 }"#);
    let second = json(r#"{ "channel_id": "7", "n": 3 }"#);
    let lane = shard_for(&first, 4);
    for data in [first.clone(), other, second.clone()] {
        let samples = dispatcher.enqueue("MESSAGE_CREATE".to_owned(), data);
        assert_eq!(
            counts(samples),
            vec![("relay_events_received_total", "proj".to_owned(), 1)]
        );
    }
    let mut taken = Vec::new();
    while let Ok(event) = lanes[lane].try_recv() {
        assert_eq!(event.name, "MESSAGE_CREATE");
        if routing_key(&event.data) == Some("7") {
            taken.push(event.data);
        }
    }
    assert_eq!(taken, vec![first, second]);
}

#[test]
fn saturated_lane_drops_and_counts() {
    let (mut dispatcher, mut lanes) = Dispatcher::spawn(Some("1"), Some("1"), "proj".to_owned());
    let kept = dispatcher.enqueue("A".to_owned(), json("[1]"));
    assert!(taken(kept));
    let dropped = dispatcher.enqueue("B".to_owned(), json("[2]"));
    assert_eq!(
        counts(dropped),
        vec![("relay_events_dropped_total", "proj".to_owned(), 1)]
    );
    assert_eq!(lanes[0].try_recv().unwrap().name, "A");
    assert!(lanes[0].try_recv().is_err());
    assert!(taken(dispatcher.enqueue("C".to_owned(), json("[3]"))));
    assert_eq!(lanes[0].try_recv().unwrap().name, "C");
}

#[test]
fn lane_drops_nothing_before_it_is_full() {
    let (mut dispatcher, lanes) = Dispatcher::spawn(Some("1"), Some("3"), "proj".to_owned());
    assert_eq!(lanes[0].max_capacity(), 3);
    for _ in 0..3 {
        assert!(taken(dispatcher.enqueue("A".to_owned(), json("[1]"))));
    }
    assert!(!taken(dispatcher.enqueue("A".to_owned(), json("[1]"))));
}

#[test]
fn closed_lane_drops_for_good() {
    let (mut dispatcher, mut lanes) = Dispatcher::spawn(Some("1"), Some("1"), "p".to_owned());
    assert!(taken(dispatcher.enqueue("A".to_owned(), json("[1]"))));
    lanes[0].close();
    assert!(!taken(dispatcher.enqueue("B".to_owned(), json("[2]"))));
    assert_eq!(lanes[0].try_recv().unwrap().name, "A");
    assert!(!taken(dispatcher.enqueue("C".to_owned(), json("[3]"))));
}

#[test]
fn closed_lane_drops_and_counts() {
    let (mut dispatcher, lanes) = Dispatcher::spawn(Some("1"), None, "proj".to_owned());
    drop(lanes);
    assert!(!taken(dispatcher.enqueue("A".to_owned(), json("[1]"))));
}

#[test]
fn dropping_the_dispatcher_closes_its_lanes() {
    let (mut dispatcher, mut lanes) = Dispatcher::spawn(Some("1"), None, "proj".to_owned());
    dispatcher.enqueue("A".to_owned(), json("[1]"));
    drop(dispatcher);
    assert_eq!(lanes[0].try_recv().unwrap().name, "A");
    assert!(lanes[0].is_closed());
}

#[test]
fn route_says_where_an_event_goes() {
    let (dispatcher, _lanes) = Dispatcher::spawn(Some("8"), None, "proj".to_owned());
    let data = json(r#"{ "guild_id": "42" }"#);
    let (lane, event) = dispatcher.route("GUILD".to_owned(), data.clone());
    assert_eq!(lane, shard_for(&data, 8));
    assert_eq!(event.name, "GUILD");
    assert_eq!(event.data, data);
}

#[test]
fn retries_are_recorded_on_both_outcomes() {
    assert_eq!(
        counts(delivered("p", 1, true)),
        vec![("relay_events_forwarded_total", "p".to_owned(), 1)]
    );
    assert_eq!(
        counts(delivered("p", 3, true)),
        vec![
            ("relay_forward_retries_total", "p".to_owned(), 2),
            ("relay_events_forwarded_total", "p".to_owned(), 1),
        ]
    );
    assert_eq!(
        counts(delivered("p", 4, false)),
        vec![
            ("relay_forward_retries_total", "p".to_owned(), 3),
            ("relay_forward_failures_total", "p".to_owned(), 1),
        ]
    );
    assert_eq!(
        counts(delivered("p", 0, false)),
        vec![("relay_forward_failures_total", "p".to_owned(), 1)]
    );
}
