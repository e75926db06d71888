use std::time::Duration;

use discord_relay::backoff::Backoff;
use discord_relay::metrics::Sample;
use discord_relay::model::{Client, Config};
use discord_relay::spectrum::SpectrumError;
use discord_relay::supervisor::{
    config_hash, forwarder, resolve_slug, slug_client, Plan, SlugStep, Supervisor,
};
use discord_relay::webhook::WebhookError;
use reqwest::StatusCode;

fn client(webhook: &str, secret: &str, token: &str) -> Client {
    Client {
        webhook_secret: webhook.into(),
        project_id: "proj".into(),
        project_secret: secret.into(),
        bot_token: token.into(),
    }
}

fn bot(id: &str, token: &str) -> Client {
    let mut bot = client("w", "s", token);
    bot.project_id = id.into();
    bot
}

fn config(bots: &[(&str, &str)]) -> Config {
    Config {
        bots: bots.iter().map(|(id, token)| bot(id, token)).collect(),
    }
}

fn stopped(plan: &Plan) -> Vec<String> {
    let mut stopped = plan.stop.clone();
    stopped.sort();
    stopped
}

fn started(plan: &Plan) -> Vec<(String, String)> {
    let mut started: Vec<(String, String)> = plan
        .start
        .iter()
        .map(|c| (c.project_id.clone(), c.bot_token.clone()))
        .collect();
    started.sort();
    started
}

fn active(sample: &Sample) -> u64 {
    match sample {
        Sample::Level { series, value } => {
            assert_eq!(*series, "relay_active_bots");
            *value
        }
        Sample::Count { .. } => panic!("no counter is added to here"),
    }
}

fn pairs(list: &[(&str, &str)]) -> Vec<(String, String)> {
    list.iter().map(|(a, b)| (a.to_string(), b.to_string())).collect()
}

#[test]
fn config_hash_ignores_project_id() {
    let mut a = client("w", "s", "t");
    let mut b = client("w", "s", "t");
    a.project_id = "one".into();
    b.project_id = "two".into();
    assert_eq!(config_hash(&a), config_hash(&b));
}

#[test]
fn config_hash_changes_with_credentials() {
    let base = client("w", "s", "t");
    assert_ne!(config_hash(&base), config_hash(&client("w2", "s", "t")));
    assert_ne!(config_hash(&base), config_hash(&client("w", "s2", "t")));
    assert_ne!(config_hash(&base), config_hash(&client("w", "s", "t2")));
}

#[test]
fn config_hash_tells_fields_apart() {
    assert_ne!(config_hash(&client("ws", "", "t")), config_hash(&client("w", "s", "t")));
    assert_ne!(config_hash(&client("s", "w", "t")), config_hash(&client("w", "s", "t")));
}

#[test]
fn first_reconcile_starts_everything() {
    let mut supervisor = Supervisor::new("pool");
    assert_eq!(*supervisor.http(), "pool");
    let plan = supervisor.reconcile(config(&[("a", "1"), ("b", "2")]));
    assert!(plan.stop.is_empty());
    assert_eq!(started(&plan), pairs(&[("a", "1"), ("b", "2")]));
    assert_eq!(plan.duplicates, 0);
    assert_eq!(active(&plan.sample), 2);
}

#[test]
fn reload_makes_the_smallest_change() {
    let mut supervisor = Supervisor::new(());
    supervisor.reconcile(config(&[("kept", "1"), ("changed", "1"), ("gone", "1")]));
    let plan = supervisor.reconcile(config(&[("new", "1"), ("changed", "2"), ("kept", "1")]));
    assert_eq!(stopped(&plan), vec!["changed", "gone"]);
    assert_eq!(started(&plan), pairs(&[("changed", "2"), ("new", "1")]));
    assert_eq!(active(&plan.sample), 3);
}

#[test]
fn reload_of_the_same_config_changes_nothing() {
    let mut supervisor = Supervisor::new(());
    supervisor.reconcile(config(&[("a", "1"), ("b", "2")]));
    let plan = supervisor.reconcile(config(&[("b", "2"), ("a", "1")]));
    assert!(plan.stop.is_empty());
    assert!(plan.start.is_empty());
    assert_eq!(active(&plan.sample), 2);
}

#[test]
fn last_entry_for_a_project_wins() {
    let mut supervisor = Supervisor::new(());
    let plan = supervisor.reconcile(config(&[("a", "1"), ("b", "2"), ("a", "3"), ("a", "4")]));
    assert_eq!(started(&plan), pairs(&[("a", "4"), ("b", "2")]));
    assert_eq!(plan.duplicates, 2);
    assert_eq!(active(&plan.sample), 2);
    let plan = supervisor.reconcile(config(&[("a", "4"), ("b", "2")]));
    assert!(plan.stop.is_empty() && plan.start.is_empty());
}

#[test]
fn empty_config_stops_everything() {
    let mut supervisor = Supervisor::new(());
    supervisor.reconcile(config(&[("a", "1"), ("b", "2")]));
    let plan = supervisor.reconcile(config(&[]));
    assert_eq!(stopped(&plan), vec!["a", "b"]);
    assert!(plan.start.is_empty());
    assert_eq!(active(&plan.sample), 0);
}

#[test]
fn shutdown_stops_everything_once() {
    let mut supervisor = Supervisor::new(());
    supervisor.reconcile(config(&[("a", "1"), ("b", "2")]));
    let (mut stop, sample) = supervisor.shutdown();
    stop.sort();
    assert_eq!(stop, vec!["a", "b"]);
    assert_eq!(active(&sample), 0);
    assert!(supervisor.shutdown().0.is_empty());
}

#[test]
fn resolved_slug_is_used() {
    let mut backoff = Backoff::new();
    match resolve_slug(Ok("slug".to_owned()), &mut backoff) {
        SlugStep::Resolved(slug) => assert_eq!(slug, "slug"),
        _ => panic!("not resolved"),
    }
    assert_eq!(backoff.next_delay(), Duration::from_secs(1));
}

#[test]
fn rejected_slug_is_given_up_on() {
    let mut backoff = Backoff::new();
    let status = SpectrumError::Status {
        status: StatusCode::BAD_GATEWAY,
        body: String::new(),
    };
    for err in [status, SpectrumError::MissingSlug] {
        assert!(matches!(resolve_slug(Err(err), &mut backoff), SlugStep::Rejected(_)));
    }
}

#[test]
fn outage_is_retried_with_growing_waits() {
    let mut backoff = Backoff::new();
    for secs in [1, 2, 4, 8, 16, 32, 60, 60] {
        match resolve_slug(Err(SpectrumError::Transport("down".to_owned())), &mut backoff) {
            SlugStep::Retry { delay, error } => {
                assert_eq!(delay, Duration::from_secs(secs));
                assert_eq!(error.message(), "transport error: down");
            }
            _ => panic!("not retried"),
        }
    }
    let err = SpectrumError::InvalidUrl("no host".to_owned());
    assert!(matches!(resolve_slug(Err(err), &mut backoff), SlugStep::Retry { .. }));
    backoff.reset();
    assert_eq!(backoff.next_delay(), Duration::from_secs(1));
}

#[test]
fn bot_looks_up_its_own_project() {
    let looked_up = slug_client("pool", Some("https://cloud.example/"), &client("w", "s", "t"));
    assert_eq!(looked_up.http, "pool");
    let request = looked_up.get_project_slug().ok().unwrap();
    assert_eq!(request.url, "https://cloud.example/projects/proj/");
    assert_eq!(request.username, "proj");
    assert_eq!(request.password, "s");
}

#[test]
fn bot_forwards_to_its_edge() {
    let webhook = forwarder("pool", "my-slug", &client("w", "s", "t"), None).ok().unwrap();
    assert_eq!(*webhook.http(), "pool");
    assert_eq!(webhook.url().as_str(), "https://my-slug.spctrm.dev/discord");
    let request = webhook.request("X", &serde_json::Value::Null);
    assert_eq!(request.headers[0], ("X-Webhook-Secret", "w".to_owned()));
    assert_eq!(request.body, "null");
    let bad = forwarder((), "no slug", &client("w", "s", "t"), None).err().unwrap();
    assert!(matches!(bad, WebhookError::InvalidUrl(_)));
}
