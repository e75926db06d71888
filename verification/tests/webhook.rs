use std::time::Duration;

use discord_relay::text::truncate;
use discord_relay::webhook::{
    is_retryable, parse_retry_after, read_reply, super_webhook_domain, super_webhook_url,
    ForwardStep, WebhookClient, WebhookError, DEFAULT_SUPER_WEBHOOK_DOMAIN,
};
use reqwest::header::{HeaderMap, HeaderValue, RETRY_AFTER};
use reqwest::StatusCode;

fn client(url: &str) -> WebhookClient<()> {
    match WebhookClient::new(url, "secret") {
        Ok(client) => client,
        Err(err) => panic!("{}", err.message()),
    }
}

fn unavailable(retry_after: Option<Duration>) -> Result<(), WebhookError> {
    Err(WebhookError::Status {
        status: StatusCode::SERVICE_UNAVAILABLE,
        body: String::new(),
        retry_after,
    })
}

fn wait(step: ForwardStep) -> Option<Duration> {
    match step {
        ForwardStep::Retry { delay } => Some(delay),
        ForwardStep::Done { .. } => None,
    }
}

fn seconds(value: &str) -> HeaderMap {
    let mut headers = HeaderMap::new();
    headers.insert(RETRY_AFTER, value.parse().unwrap());
    headers
}

#[test]
fn rejects_invalid_url() {
    let err = WebhookClient::new("not a url", "secret").err().unwrap();
    assert!(matches!(err, WebhookError::InvalidUrl(_)));
}

#[test]
fn assembles_super_webhook_url() {
    assert_eq!(
        super_webhook_url("my-slug", "discord", "spctrm.dev"),
        "https://my-slug.spctrm.dev/discord"
    );
    // Stray slashes and white space are normalized away.
    assert_eq!(
        super_webhook_url(" my-slug ", "/discord/", "spctrm.dev/"),
        "https://my-slug.spctrm.dev/discord"
    );
}

#[test]
fn url_parts_may_mix_slashes_and_white_space() {
    assert_eq!(
        super_webhook_url("/ my-slug /", "discord", "spctrm.dev"),
        "https://my-slug.spctrm.dev/discord"
    );
    assert_eq!(
        super_webhook_url(" / my-slug", "/ /discord / ", "spctrm.dev / /"),
        "https://my-slug.spctrm.dev/discord"
    );
}

#[test]
fn for_slug_builds_expected_target() {
    let client =
        WebhookClient::for_slug_with_domain("my-slug", "discord", "spctrm.dev", "secret")
            .ok()
            .unwrap();
    assert_eq!(client.url().as_str(), "https://my-slug.spctrm.dev/discord");
}

#[test]
fn domain_falls_back_to_default_when_unset() {
    assert_eq!(super_webhook_domain(None), DEFAULT_SUPER_WEBHOOK_DOMAIN);
}

#[test]
fn domain_is_forgiving_to_set() {
    assert_eq!(DEFAULT_SUPER_WEBHOOK_DOMAIN, "spctrm.dev");
    assert_eq!(super_webhook_domain(Some("  ")), "spctrm.dev");
    assert_eq!(super_webhook_domain(Some(" edge.example/ ")), "edge.example");
    assert_eq!(super_webhook_domain(Some("/edge.example//")), "/edge.example");
}

#[test]
fn accepts_slug_url() {
    let client = WebhookClient::new("https://my-slug.spectrm.dev/discord", "secret")
        .ok()
        .unwrap();
    assert_eq!(client.url().host_str(), Some("my-slug.spectrm.dev"));
}

#[test]
fn client_4xx_is_permanent() {
    let err = WebhookError::Status {
        status: StatusCode::UNAUTHORIZED,
        body: String::new(),
        retry_after: None,
    };
    assert!(!is_retryable(&err));
}

#[test]
fn server_5xx_and_429_are_retryable() {
    assert!(is_retryable(&WebhookError::Status {
        status: StatusCode::INTERNAL_SERVER_ERROR,
        body: String::new(),
        retry_after: None,
    }));
    assert!(is_retryable(&WebhookError::Status {
        status: StatusCode::TOO_MANY_REQUESTS,
        body: String::new(),
        retry_after: None,
    }));
}

#[test]
fn transport_is_retryable_and_a_bad_url_is_not() {
    assert!(is_retryable(&WebhookError::Transport("timed out".to_owned())));
    assert!(!is_retryable(&WebhookError::InvalidUrl("empty host".to_owned())));
}

#[test]
fn truncate_respects_char_boundary() {
    let s = "é".repeat(10); // 2 bytes each
    let out = truncate(&s, 5);
    assert!(out.ends_with('…'));
}

#[test]
fn truncate_keeps_what_fits() {
    assert_eq!(truncate("", 0), "");
    assert_eq!(truncate("hello", 5), "hello");
    assert_eq!(truncate("hello", 4), "hell…");
    assert_eq!(truncate("hello", 0), "…");
    assert_eq!(truncate("ééé", 5), "éé…");
    assert_eq!(truncate("a😀b", 4), "a…");
}

#[test]
fn truncate_is_bounded_and_stable() {
    for max in 0..12 {
        let cut = truncate("aé😀b…c", max);
        assert!(cut.len() <= max + 3);
        assert_eq!(truncate(&cut, max), cut);
    }
}

#[test]
fn parses_retry_after_seconds() {
    let mut headers = HeaderMap::new();
    headers.insert(RETRY_AFTER, "5".parse().unwrap());
    assert_eq!(parse_retry_after(&headers), Some(Duration::from_secs(5)));
}

#[test]
fn ignores_missing_or_non_numeric_retry_after() {
    assert_eq!(parse_retry_after(&HeaderMap::new()), None);

    // The form with a date is not parsed.
    let mut headers = HeaderMap::new();
    headers.insert(
        RETRY_AFTER,
        "Wed, 21 Oct 2025 07:28:00 GMT".parse().unwrap(),
    );
    assert_eq!(parse_retry_after(&headers), None);
}

#[test]
fn retry_after_edge_cases() {
    assert_eq!(parse_retry_after(&seconds(" +7\t")), Some(Duration::from_secs(7)));
    assert_eq!(parse_retry_after(&seconds("-7")), None);
    assert_eq!(parse_retry_after(&seconds("7.5")), None);
    assert_eq!(
        parse_retry_after(&seconds("18446744073709551615")),
        Some(Duration::from_secs(u64::MAX))
    );
    assert_eq!(parse_retry_after(&seconds("18446744073709551616")), None);

    let mut headers = HeaderMap::new();
    headers.insert(RETRY_AFTER, HeaderValue::from_bytes(b"5\xff").unwrap());
    assert_eq!(parse_retry_after(&headers), None);

    // Of two values the first one counts.
    let mut headers = HeaderMap::new();
    headers.append(RETRY_AFTER, "3".parse().unwrap());
    headers.append(RETRY_AFTER, "4".parse().unwrap());
    assert_eq!(parse_retry_after(&headers), Some(Duration::from_secs(3)));
}

#[test]
fn max_attempts_floored_at_one() {
    let client = WebhookClient::new("https://x.spectrm.dev/discord", "s")
        .ok()
        .unwrap()
        .with_max_attempts(0);
    assert_eq!(client.max_attempts(), 1);
}

#[test]
fn url_is_normalized() {
    assert_eq!(client("HTTPS://X.Example").url().as_str(), "https://x.example/");
    assert_eq!(client("HTTPS://X.Example").clone().url().as_str(), "https://x.example/");
}

#[test]
fn edge_domain_follows_the_environment() {
    let client = WebhookClient::for_slug_with_client((), "s", "discord", "k", Some("edge.example/"))
        .ok()
        .unwrap();
    assert_eq!(client.url().as_str(), "https://s.edge.example/discord");
    let client = WebhookClient::for_slug_with_client((), "s", "discord", "k", None)
        .ok()
        .unwrap();
    assert_eq!(client.url().as_str(), "https://s.spctrm.dev/discord");
}

#[test]
fn request_carries_secret_event_and_payload_alone() {
    let payload: serde_json::Value =
        serde_json::from_str(r#" { "b" : 1 , "a" : [ true , null , "x\n" ] } "#).unwrap();
    let request = client("https://x.example/discord").request("MESSAGE_CREATE", &payload);
    assert_eq!(request.url, "https://x.example/discord");
    assert_eq!(
        request.headers,
        vec![
            ("X-Webhook-Secret", "secret".to_owned()),
            ("X-Discord-Event", "MESSAGE_CREATE".to_owned()),
            ("Content-Type", "application/json".to_owned()),
        ]
    );
    assert_eq!(request.body, r#"{"a":[true,null,"x\n"],"b":1}"#);
}

#[test]
fn reply_with_success_is_taken() {
    assert!(read_reply(StatusCode::OK, &HeaderMap::new(), None).is_ok());
    assert!(read_reply(StatusCode::NO_CONTENT, &seconds("5"), Some("x")).is_ok());
}

#[test]
fn reply_without_success_is_an_error() {
    match read_reply(StatusCode::FOUND, &seconds("5"), Some("moved")) {
        Err(WebhookError::Status { status, body, retry_after }) => {
            assert_eq!(status, StatusCode::FOUND);
            assert_eq!(body, "moved");
            assert_eq!(retry_after, Some(Duration::from_secs(5)));
        }
        _ => panic!("not a status"),
    }
    match read_reply(StatusCode::BAD_REQUEST, &HeaderMap::new(), None) {
        Err(WebhookError::Status { body, retry_after, .. }) => {
            assert_eq!(body, "<unreadable body>");
            assert_eq!(retry_after, None);
        }
        _ => panic!("not a status"),
    }
    match read_reply(StatusCode::BAD_GATEWAY, &HeaderMap::new(), Some(&"y".repeat(600))) {
        Err(WebhookError::Status { body, .. }) => assert_eq!(body, format!("{}…", "y".repeat(512))),
        _ => panic!("not a status"),
    }
}

#[test]
fn errors_read_well() {
    assert_eq!(
        WebhookError::InvalidUrl("empty host".to_owned()).message(),
        "invalid webhook url: empty host"
    );
    assert_eq!(
        WebhookError::Transport("timed out".to_owned()).message(),
        "transport error: timed out"
    );
    let err = WebhookError::Status {
        status: StatusCode::NOT_FOUND,
        body: "gone".to_owned(),
        retry_after: None,
    };
    assert_eq!(err.message(), "downstream returned 404 Not Found: gone");
    assert_eq!(
        WebhookClient::new("not a url", "s").err().unwrap().message(),
        "invalid webhook url: relative URL without a base"
    );
}

#[test]
fn forward_ends_with_success() {
    match client("https://x.example/").forward(3, Ok(())) {
        ForwardStep::Done { attempts, result } => {
            assert_eq!(attempts, 3);
            assert!(result.is_ok());
        }
        ForwardStep::Retry { .. } => panic!("success is not retried"),
    }
}

#[test]
fn forward_ends_with_a_permanent_failure() {
    let outcome = Err(WebhookError::Status {
        status: StatusCode::FORBIDDEN,
        body: "no".to_owned(),
        retry_after: Some(Duration::from_secs(1)),
    });
    match client("https://x.example/").forward(1, outcome) {
        ForwardStep::Done { attempts, result } => {
            assert_eq!(attempts, 1);
            assert_eq!(result.err().unwrap().message(), "downstream returned 403 Forbidden: no");
        }
        ForwardStep::Retry { .. } => panic!("a permanent failure is not retried"),
    }
}

#[test]
fn forward_doubles_the_wait_and_gives_up() {
    let client = client("https://x.example/");
    assert_eq!(client.max_attempts(), 4);
    assert_eq!(wait(client.forward(1, unavailable(None))), Some(Duration::from_millis(250)));
    assert_eq!(wait(client.forward(2, unavailable(None))), Some(Duration::from_millis(500)));
    assert_eq!(wait(client.forward(3, unavailable(None))), Some(Duration::from_millis(1000)));
    assert_eq!(wait(client.forward(4, unavailable(None))), None);
}

#[test]
fn forward_honours_retry_after_up_to_the_cap() {
    let client = client("https://x.example/");
    assert_eq!(
        wait(client.forward(1, unavailable(Some(Duration::from_secs(7))))),
        Some(Duration::from_secs(7))
    );
    assert_eq!(
        wait(client.forward(1, unavailable(Some(Duration::from_secs(u64::MAX))))),
        Some(Duration::from_secs(60))
    );
}

#[test]
fn forward_caps_a_large_backoff() {
    let client = client("https://x.example/")
        .with_max_attempts(u32::MAX)
        .with_backoff_base(Duration::from_secs(10));
    let failed = || Err(WebhookError::Transport("reset".to_owned()));
    assert_eq!(wait(client.forward(3, failed())), Some(Duration::from_secs(40)));
    assert_eq!(wait(client.forward(4, failed())), Some(Duration::from_secs(60)));
    assert_eq!(wait(client.forward(40, failed())), Some(Duration::from_secs(60)));
    let client = client.with_backoff_base(Duration::MAX);
    assert_eq!(wait(client.forward(2, failed())), Some(Duration::from_secs(60)));
}

#[test]
fn doubling_of_a_tiny_backoff_stops() {
    let client = client("https://x.example/")
        .with_max_attempts(u32::MAX)
        .with_backoff_base(Duration::from_nanos(1));
    let failed = || Err(WebhookError::Transport("reset".to_owned()));
    assert_eq!(wait(client.forward(32, failed())), Some(Duration::from_nanos(1 << 31)));
    assert_eq!(wait(client.forward(33, failed())), Some(Duration::from_nanos(u32::MAX as u64)));
    assert_eq!(wait(client.forward(99, failed())), Some(Duration::from_nanos(u32::MAX as u64)));
}
