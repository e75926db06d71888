use discord_relay::logging;
use discord_relay::metrics;
use discord_relay::text::{
    blank, is_whitespace, same, same_ignoring_ascii_case, setting, trim, trim_end, trim_start,
    trim_tidy, trim_tidy_end, Strip,
};

#[test]
fn log_filter_falls_back_to_default() {
    for value in [None, Some(""), Some(" \t ")] {
        let logging = logging::init(value, None);
        assert_eq!(logging.filter, "info");
        assert!(!logging.lossy);
        assert!(!logging.json);
    }
}

#[test]
fn log_filter_follows_the_environment() {
    let logging = logging::init(Some("discord_relay=debug,reqwest=warn"), Some("pretty"));
    assert_eq!(logging.filter, "discord_relay=debug,reqwest=warn");
    assert!(logging.lossy);
    assert!(!logging.json);
}

#[test]
fn log_format_ignores_case() {
    assert!(logging::init(None, Some("json")).json);
    assert!(logging::init(None, Some("JSON")).json);
    assert!(logging::init(None, Some("Json")).json);
    assert!(!logging::init(None, Some(" json")).json);
    assert!(!logging::init(None, Some("jsonl")).json);
}

#[test]
fn metrics_are_off_by_default() {
    assert_eq!(metrics::init(None), None);
    assert_eq!(metrics::init(Some("")), None);
    assert_eq!(metrics::init(Some("  ")), None);
    assert_eq!(metrics::init(Some(" 0.0.0.0:9100 ")), Some("0.0.0.0:9100".to_owned()));
}

#[test]
fn occurrences_name_their_series() {
    let counted = [
        (metrics::event_received("p"), "relay_events_received_total"),
        (metrics::event_forwarded("p"), "relay_events_forwarded_total"),
        (metrics::event_dropped("p"), "relay_events_dropped_total"),
        (metrics::forward_failure("p"), "relay_forward_failures_total"),
        (metrics::gateway_reconnect("p"), "relay_gateway_reconnects_total"),
        (metrics::gateway_resume("p"), "relay_gateway_resumes_total"),
    ];
    for (sample, name) in counted {
        match sample {
            metrics::Sample::Count { series, project_id, by } => {
                assert_eq!((series, project_id.as_str(), by), (name, "p", 1));
            }
            metrics::Sample::Level { .. } => panic!("no gauge is set here"),
        }
    }
    assert!(metrics::forward_retries("p", 0).is_none());
    assert!(matches!(
        metrics::forward_retries("p", 3),
        Some(metrics::Sample::Count { series: "relay_forward_retries_total", by: 3, .. })
    ));
    assert!(matches!(
        metrics::set_active_bots(5),
        metrics::Sample::Level { series: "relay_active_bots", value: 5 }
    ));
    assert_eq!(metrics::FORWARD_LATENCY, "relay_forward_latency_seconds");
}

#[test]
fn padding_is_stripped() {
    assert_eq!(trim(" \t\u{a0}a b\u{3000}\n", Strip::White), "a b");
    assert_eq!(trim("//a/b//", Strip::Slash), "a/b");
    assert_eq!(trim_start("  a ", Strip::White), "a ");
    assert_eq!(trim_end("  a ", Strip::White), "  a");
    assert_eq!(trim_tidy(" / a / "), "a");
    assert_eq!(trim_tidy("/ \t/a / b/ /\n/"), "a / b");
    assert_eq!(trim_tidy_end(" /a// "), "/a");
    assert_eq!(trim_tidy_end(" x / / "), "x");
    assert_eq!(trim(" / a / ", Strip::Padding), "a");
    assert_eq!(trim("", Strip::White), "");
    assert_eq!(trim_tidy("///"), "");
}

#[test]
fn white_space_is_that_of_std() {
    for code in 0..0x3100u32 {
        if let Some(c) = char::from_u32(code) {
            assert_eq!(is_whitespace(c), c.is_whitespace(), "{:x}", code);
        }
    }
}

#[test]
fn blank_settings_are_unset() {
    assert!(blank(" \u{2003}\n"));
    assert!(!blank(" x "));
    assert_eq!(setting(Some(" "), "d"), "d");
    assert_eq!(setting(Some("/"), "d"), "");
    assert_eq!(setting(Some(" v/ "), "d"), "v");
    assert_eq!(setting(Some("\tv / / "), "d"), "v");
}

#[test]
fn texts_are_compared_by_characters() {
    assert!(same("é", "é"));
    assert!(!same("a", "A"));
    assert!(!same("a", "ab"));
    assert!(same_ignoring_ascii_case("aZé", "Azé"));
    assert!(!same_ignoring_ascii_case("é", "É"));
}
