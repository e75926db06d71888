//! Forwarding of Discord gateway events to a downstream webhook.
//!
//! [`WebhookClient`] knows where events are delivered, with which secret, and how
//! failed attempts are retried. It says what is sent and what follows from each
//! reply; sending is left to the caller.

use crate::delay;
use crate::delay::shorter;
use crate::http;
use crate::http::{get_retry_after, header_str, parse_url, snippet, status_line};
use crate::json;
use crate::text;
use crate::text::{parse_unsigned, setting, trim, trim_tidy, Strip};
use reqwest::header::HeaderMap;
use reqwest::{StatusCode, Url};
use serde_json::Value;
use std::time::Duration;
use vstd::arithmetic::power2::*;
use vstd::prelude::*;
use vstd::string::*;
use vstd::utf8::*;

verus! {

/// Header that authenticates forwarded requests against the downstream.
pub const WEBHOOK_SECRET_HEADER: &'static str = "X-Webhook-Secret";

/// Header with the name of the gateway event, e.g. `MESSAGE_CREATE`.
pub const DISCORD_EVENT_HEADER: &'static str = "X-Discord-Event";

/// Header with the encoding of the body.
pub const CONTENT_TYPE_HEADER: &'static str = "Content-Type";

/// The encoding of the body.
pub const CONTENT_TYPE: &'static str = "application/json";

/// How many attempts a forward gets: the first try and its retries.
pub const DEFAULT_MAX_ATTEMPTS: u32 = 4;

/// Delay before the first retry, in milliseconds.
pub const DEFAULT_BACKOFF_BASE_MILLIS: u64 = 250;

/// Longest wait between two attempts, in seconds, whoever asks for it.
pub const MAX_RETRY_DELAY_SECS: u64 = 60;

/// Base domain of the super-webhook edge.
pub const DEFAULT_SUPER_WEBHOOK_DOMAIN: &'static str = "spctrm.dev";

/// Environment variable that overrides [`DEFAULT_SUPER_WEBHOOK_DOMAIN`].
pub const SUPER_WEBHOOK_DOMAIN_ENV: &'static str = "SPECTRUM_SUPER_WEBHOOK";

/// Scheme of super-webhook URLs.
pub const DEFAULT_SCHEME: &'static str = "https";

/// The base domain of the super-webhook edge, given the value of
/// [`SUPER_WEBHOOK_DOMAIN_ENV`]: that value without surrounding white space and
/// trailing slashes, or the default where it is unset or blank.
pub fn super_webhook_domain(value: Option<&str>) -> (r: String)
    ensures
        r@ == text::setting_value(text::contents(value), DEFAULT_SUPER_WEBHOOK_DOMAIN@),
{
    setting(value, DEFAULT_SUPER_WEBHOOK_DOMAIN)
}

/// The URL `https://{slug}.{domain}/{platform}`.
pub open spec fn webhook_url(
    slug: Seq<char>,
    platform: Seq<char>,
    domain: Seq<char>,
) -> Seq<char> {
    DEFAULT_SCHEME@ + "://"@ + slug + "."@ + domain + "/"@ + platform
}

/// The delivery URL for `slug` and `platform` at `domain`. Each part loses its
/// surrounding white space and slashes.
pub fn super_webhook_url(slug: &str, platform: &str, domain: &str) -> (r: String)
    ensures
        r@ == webhook_url(text::tidy(slug@), text::tidy(platform@), text::tidy(domain@)),
{
    let mut url = DEFAULT_SCHEME.to_owned();
    url.append("://");
    url.append(trim_tidy(slug));
    url.append(".");
    url.append(trim_tidy(domain));
    url.append("/");
    url.append(trim_tidy(platform));
    url
}

/// Why an event was not forwarded.
#[derive(Debug)]
pub enum WebhookError {
    /// The target is no URL. Carries the parser's message.
    InvalidUrl(String),
    /// The request could not be built or sent, or timed out. Carries the message of
    /// the HTTP client.
    Transport(String),
    /// The downstream did not report success.
    Status {
        /// The reported status.
        status: StatusCode,
        /// The beginning of the reply's body.
        body: String,
        /// How long the downstream asked to wait before the next attempt.
        retry_after: Option<Duration>,
    },
}

impl WebhookError {
    /// The error in words.
    pub open spec fn words(self) -> Seq<char> {
        match self {
            WebhookError::InvalidUrl(e) => "invalid webhook url: "@ + e@,
            WebhookError::Transport(e) => "transport error: "@ + e@,
            WebhookError::Status { status, body, retry_after } => "downstream returned "@
                + http::status_text(http::status_code(status)) + ": "@ + body@,
        }
    }

    /// The error in words.
    pub fn message(&self) -> (r: String)
        ensures
            r@ == self.words(),
    {
        match self {
            WebhookError::InvalidUrl(e) => "invalid webhook url: ".to_owned().concat(e.as_str()),
            WebhookError::Transport(e) => "transport error: ".to_owned().concat(e.as_str()),
            WebhookError::Status { status, body, retry_after: _ } => {
                "downstream returned ".to_owned().concat(status_line(status).as_str()).concat(
                    ": ",
                ).concat(body.as_str())
            },
        }
    }
}

/// Whether another attempt may succeed where one failed with `err`.
pub open spec fn retryable(err: WebhookError) -> bool {
    match err {
        WebhookError::Transport(_) => true,
        WebhookError::Status { status, body, retry_after } => http::status_code(status) == 429
            || http::is_server_error(http::status_code(status)),
        WebhookError::InvalidUrl(_) => false,
    }
}

/// Whether a failed attempt is worth retrying: transport failures are typically
/// transient, and of the statuses rate limiting and server-side errors are.
pub fn is_retryable(err: &WebhookError) -> (r: bool)
    ensures
        r == retryable(*err),
{
    match err {
        WebhookError::Transport(_) => true,
        WebhookError::Status { status, body: _, retry_after: _ } => status.as_u16() == 429
            || status.is_server_error(),
        WebhookError::InvalidUrl(_) => false,
    }
}

/// The whole seconds that the text of a `Retry-After` header asks to wait.
pub open spec fn retry_after_secs(value: Option<Seq<char>>) -> Option<int> {
    match value {
        Some(v) => text::unsigned_value(text::strip(v, Strip::White), u64::MAX as int),
        None => None,
    }
}

/// How long `seconds`, if any, last in nanoseconds.
pub open spec fn lasts(d: Option<Duration>, seconds: Option<int>) -> bool {
    match (d, seconds) {
        (Some(d), Some(n)) => delay::duration_nanos(d) == delay::secs(n),
        (None, None) => true,
        _ => false,
    }
}

/// The wait that a `Retry-After` header asks for in whole seconds. The form with a
/// date is not handled; a missing header, or one that is no number, asks for nothing.
pub fn parse_retry_after(headers: &HeaderMap) -> (r: Option<Duration>)
    ensures
        lasts(r, retry_after_secs(http::header_text(*headers, "retry-after"@))),
{
    let value = match get_retry_after(headers) {
        Some(v) => v,
        None => {
            return None;
        },
    };
    match header_str(value) {
        Some(s) => match parse_unsigned(trim(s, Strip::White), u64::MAX) {
            Some(n) => Some(Duration::from_secs(n)),
            None => None,
        },
        None => None,
    }
}

/// What one attempt made of a forward: whether the reply reports success, and how it
/// failed where it does not.
pub open spec fn reply_outcome(
    status: StatusCode,
    headers: HeaderMap,
    body: Option<Seq<char>>,
    outcome: Result<(), WebhookError>,
) -> bool {
    match outcome {
        Ok(_) => http::is_success(http::status_code(status)),
        Err(WebhookError::Status { status: reported, body: snippet, retry_after }) => {
            &&& !http::is_success(http::status_code(status))
            &&& reported == status
            &&& snippet@ == http::snippet_of(body)
            &&& lasts(retry_after, retry_after_secs(http::header_text(headers, "retry-after"@)))
        },
        Err(_) => false,
    }
}

/// What the downstream's reply to one attempt comes to. `body` is missing where it
/// could not be read; it is not looked at where the status reports success.
pub fn read_reply(status: StatusCode, headers: &HeaderMap, body: Option<&str>) -> (r: Result<
    (),
    WebhookError,
>)
    ensures
        reply_outcome(status, *headers, text::contents(body), r),
{
    if status.is_success() {
        return Ok(());
    }
    Err(
        WebhookError::Status {
            status,
            body: snippet(body),
            retry_after: parse_retry_after(headers),
        },
    )
}

/// One request to the downstream, to be sent as a `POST`.
pub struct ForwardRequest {
    /// Where it goes.
    pub url: String,
    /// Its headers, name and value.
    pub headers: Vec<(&'static str, String)>,
    /// Its body.
    pub body: String,
}

/// The contents of a list of headers.
pub open spec fn header_list(headers: Seq<(&'static str, String)>) -> Seq<(Seq<char>, Seq<char>)> {
    headers.map_values(|h: (&'static str, String)| (h.0@, h.1@))
}

/// A list of headers has the names and values of its headers, one for one.
pub proof fn law_contents_are_the_headers(headers: Seq<(&'static str, String)>, i: int)
    requires
        0 <= i < headers.len(),
    ensures
        header_list(headers).len() == headers.len(),
        header_list(headers)[i].0 == headers[i].0@,
        header_list(headers)[i].1 == headers[i].1@,
{
}

/// What follows an attempt to forward an event.
pub enum ForwardStep {
    /// The forward is over.
    Done {
        /// How many attempts it took.
        attempts: u32,
        /// What it came to.
        result: Result<(), WebhookError>,
    },
    /// Another attempt is due after a wait.
    Retry {
        /// How long to wait.
        delay: Duration,
    },
}

/// A client that forwards JSON payloads to a single downstream webhook URL.
///
/// `H` is the HTTP client that its requests are sent with. It is carried along only,
/// so that many webhook clients can share one connection pool. The type has no
/// `Debug`: one of its fields is a secret.
pub struct WebhookClient<H> {
    http: H,
    url: Url,
    secret: String,
    max_attempts: u32,
    backoff_base: Duration,
}

/// The settings of a [`WebhookClient`].
#[verifier::ext_equal]
pub struct WebhookSettings {
    /// The target, normalized.
    pub url: Seq<char>,
    /// The secret that requests carry.
    pub secret: Seq<char>,
    /// How many attempts a forward gets.
    pub max_attempts: u32,
    /// The wait before the first retry, in nanoseconds.
    pub backoff_base: int,
}

/// The settings of a client for `url` and `secret` that nothing was tuned of.
pub open spec fn default_settings(url: Seq<char>, secret: Seq<char>) -> WebhookSettings {
    WebhookSettings {
        url,
        secret,
        max_attempts: DEFAULT_MAX_ATTEMPTS,
        backoff_base: delay::millis(DEFAULT_BACKOFF_BASE_MILLIS as int),
    }
}

/// How often the wait was doubled when `attempt` failed. The doubling stops where
/// the factor outgrows 32 bits.
pub open spec fn backoff_factor(attempt: int) -> int {
    if attempt <= 32 {
        pow2((attempt - 1) as nat) as int
    } else {
        u32::MAX as int
    }
}

/// The wait, in nanoseconds, after attempt number `attempt` failed with `err`: what
/// the downstream asked for, or else the base delay doubled after every further
/// attempt; never more than [`MAX_RETRY_DELAY_SECS`].
pub open spec fn retry_nanos(settings: WebhookSettings, attempt: int, err: WebhookError) -> int {
    delay::at_most(
        match err {
            WebhookError::Status { status, body, retry_after: Some(after) } => {
                delay::duration_nanos(after) as int
            },
            _ => settings.backoff_base * backoff_factor(attempt),
        },
        delay::secs(MAX_RETRY_DELAY_SECS as int),
    )
}

/// Whether a forward is over when attempt number `attempt` had `outcome`.
pub open spec fn is_over(
    settings: WebhookSettings,
    attempt: int,
    outcome: Result<(), WebhookError>,
) -> bool {
    match outcome {
        Ok(_) => true,
        Err(err) => !retryable(err) || attempt >= settings.max_attempts,
    }
}

fn doubling(attempt: u32) -> (r: u32)
    requires
        attempt >= 1,
    ensures
        r == backoff_factor(attempt as int),
{
    if attempt <= 32 {
        let shift: u32 = attempt - 1;
        proof {
            lemma2_to64();
            if shift < 31 {
                lemma_pow2_strictly_increases(shift as nat, 31);
            }
            vstd::bits::lemma_u32_shl_is_mul(1, shift);
        }
        1u32 << shift
    } else {
        u32::MAX
    }
}

/// How many attempts a forward takes from attempt number `attempt` on, where the
/// attempts would have the given outcomes.
pub open spec fn attempts_made(
    settings: WebhookSettings,
    outcomes: Seq<Result<(), WebhookError>>,
    attempt: int,
) -> int
    decreases outcomes.len() - attempt,
{
    if attempt >= outcomes.len() || is_over(settings, attempt, outcomes[attempt - 1]) {
        attempt
    } else {
        attempts_made(settings, outcomes, attempt + 1)
    }
}

proof fn lemma_attempts_from(
    settings: WebhookSettings,
    outcomes: Seq<Result<(), WebhookError>>,
    attempt: int,
)
    requires
        1 <= attempt <= settings.max_attempts <= outcomes.len(),
    ensures
        ({
            let n = attempts_made(settings, outcomes, attempt);
            &&& attempt <= n <= settings.max_attempts
            &&& is_over(settings, n, outcomes[n - 1])
            &&& forall|k: int|
                attempt <= k < n ==> !is_over(settings, k, #[trigger] outcomes[k - 1])
        }),
    decreases settings.max_attempts - attempt,
{
    if attempt < settings.max_attempts && !is_over(settings, attempt, outcomes[attempt - 1]) {
        lemma_attempts_from(settings, outcomes, attempt + 1);
    }
}

/// A forward makes at least one attempt and at most the allowed number. It ends with
/// the first attempt that succeeds or fails permanently, and otherwise with the last
/// one that is allowed; every attempt before the end failed in a way worth retrying.
pub proof fn law_forward_attempts(
    settings: WebhookSettings,
    outcomes: Seq<Result<(), WebhookError>>,
)
    requires
        1 <= settings.max_attempts <= outcomes.len(),
    ensures
        ({
            let n = attempts_made(settings, outcomes, 1);
            &&& 1 <= n <= settings.max_attempts
            &&& outcomes[n - 1] is Ok || !retryable(outcomes[n - 1]->Err_0) || n
                == settings.max_attempts
            &&& forall|k: int|
                1 <= k < n ==> (#[trigger] outcomes[k - 1]) is Err && retryable(
                    outcomes[k - 1]->Err_0,
                )
        }),
{
    lemma_attempts_from(settings, outcomes, 1);
}

/// A failure that repeating the request does not help ends a forward at once: a status
/// of the four hundreds, except for the one that says that there were too many
/// requests.
pub proof fn law_client_error_is_permanent(
    settings: WebhookSettings,
    attempt: int,
    status: StatusCode,
    body: String,
    retry_after: Option<Duration>,
)
    requires
        400 <= http::status_code(status) < 500,
        http::status_code(status) != 429,
    ensures
        is_over(settings, attempt, Err(WebhookError::Status { status, body, retry_after })),
{
}

/// No wait between two attempts is longer than the cap, whatever the downstream asks
/// for and however the backoff is tuned.
pub proof fn law_retry_delay_is_capped(
    settings: WebhookSettings,
    attempt: int,
    err: WebhookError,
)
    ensures
        retry_nanos(settings, attempt, err) <= delay::secs(MAX_RETRY_DELAY_SECS as int),
{
}

/// A wait that the downstream asked for is kept to, up to the cap.
pub proof fn law_retry_after_is_honoured(
    settings: WebhookSettings,
    attempt: int,
    status: StatusCode,
    body: String,
    after: Duration,
)
    ensures
        retry_nanos(
            settings,
            attempt,
            WebhookError::Status { status, body, retry_after: Some(after) },
        ) == delay::at_most(
            delay::duration_nanos(after) as int,
            delay::secs(MAX_RETRY_DELAY_SECS as int),
        ),
{
}

/// Whether the downstream asked for a wait.
pub open spec fn asks_for_wait(err: WebhookError) -> bool {
    err matches WebhookError::Status { status, body, retry_after } && retry_after is Some
}

/// After a failure without such a request the wait starts at the base delay, doubles with
/// every further attempt and stays at the cap once it is there. A base of a few
/// nanoseconds is the exception: 32 attempts do not take it to the cap, and there the
/// doubling ends.
pub proof fn law_backoff_doubles(settings: WebhookSettings, attempt: int, err: WebhookError)
    requires
        1 <= attempt,
        !asks_for_wait(err),
        settings.backoff_base >= 0,
        attempt < 32 || settings.backoff_base == 0 || settings.backoff_base >= 14,
    ensures
        ({
            let cap = delay::secs(MAX_RETRY_DELAY_SECS as int);
            &&& retry_nanos(settings, 1, err) == delay::at_most(settings.backoff_base, cap)
            &&& retry_nanos(settings, attempt + 1, err) == delay::at_most(
                2 * retry_nanos(settings, attempt, err),
                cap,
            )
        }),
{
    lemma2_to64();
    let base = settings.backoff_base;
    let factor = backoff_factor(attempt);
    let next = backoff_factor(attempt + 1);
    assert(base * 1 == base) by (nonlinear_arith);
    if attempt < 32 {
        lemma_pow2_unfold(attempt as nat);
        lemma_pow2_pos((attempt - 1) as nat);
        assert(base * (2 * factor) == 2 * (base * factor)) by (nonlinear_arith);
        assert(base * factor >= 0) by (nonlinear_arith)
            requires
                base >= 0,
                factor >= 0,
        ;
    } else if base == 0 {
        assert(base * factor == 0 && base * next == 0) by (nonlinear_arith)
            requires
                base == 0,
        ;
    } else {
        assert(base * factor >= 14 * factor && base * next >= 14 * next) by (nonlinear_arith)
            requires
                base >= 14,
                factor >= 0,
                next >= 0,
        ;
    }
}

/// The wait after a failure without such a request, in nanoseconds: the base delay times a
/// power of two, and never more than a minute. The power stops at the largest number of 32
/// bits.
pub proof fn law_backoff_in_numbers(settings: WebhookSettings, attempt: int, err: WebhookError)
    requires
        1 <= attempt,
        !asks_for_wait(err),
    ensures
        ({
            let factor = if attempt <= 32 {
                pow2((attempt - 1) as nat) as int
            } else {
                4294967295
            };
            let nanos = settings.backoff_base * factor;
            retry_nanos(settings, attempt, err) == if nanos < 60_000_000_000 {
                nanos
            } else {
                60_000_000_000
            }
        }),
{
}

/// Among failures, just those of the transport, those with the status 429 and those with a
/// status of the five hundreds are worth another attempt.
pub proof fn law_retryable_failures(err: WebhookError)
    ensures
        err is InvalidUrl ==> !retryable(err),
        err is Transport ==> retryable(err),
        err matches WebhookError::Status { status, body, retry_after } ==> (retryable(err) <==> (
        http::status_code(status) == 429 || 500 <= http::status_code(status) <= 599)),
{
}

/// As long as attempts are left, a failure of the transport, the status 429 and every
/// status of the five hundreds lead to another attempt.
pub proof fn law_transient_failure_is_retried(
    settings: WebhookSettings,
    attempt: int,
    err: WebhookError,
)
    requires
        1 <= attempt < settings.max_attempts,
        err is Transport || (err matches WebhookError::Status { status, body, retry_after } && (
        http::status_code(status) == 429 || 500 <= http::status_code(status) <= 599)),
    ensures
        !is_over(settings, attempt, Err(err)),
{
}

/// A forward is over once an attempt succeeds, once the last attempt that is allowed was
/// made, and once an attempt fails with a target that is no URL or with any status but 429
/// and the five hundreds.
pub proof fn law_forward_is_over(
    settings: WebhookSettings,
    attempt: int,
    outcome: Result<(), WebhookError>,
)
    requires
        ({
            ||| outcome is Ok
            ||| attempt >= settings.max_attempts
            ||| outcome matches Err(WebhookError::InvalidUrl(_))
            ||| outcome matches Err(WebhookError::Status { status, body, retry_after })
                && http::status_code(status) != 429 && !(500 <= http::status_code(status) <= 599)
        }),
    ensures
        is_over(settings, attempt, outcome),
{
}

/// An attempt succeeds just where the status is one of the two hundreds. Otherwise it
/// fails with that status and the beginning of the body.
pub proof fn law_status_decides(
    status: StatusCode,
    headers: HeaderMap,
    body: Option<Seq<char>>,
    outcome: Result<(), WebhookError>,
)
    requires
        reply_outcome(status, headers, body, outcome),
    ensures
        outcome is Ok <==> 200 <= http::status_code(status) <= 299,
        outcome matches Err(e) ==> {
            &&& e matches WebhookError::Status { status: reported, body: snippet, retry_after }
            &&& reported == status
            &&& match body {
                Some(b) => if encode_utf8(b).len() <= 512 {
                    snippet@ == b
                } else {
                    let k = snippet@.len() - 1;
                    &&& 0 <= k < b.len()
                    &&& snippet@ == b.take(k) + seq!['\u{2026}']
                    &&& encode_utf8(b.take(k)).len() <= 512 < encode_utf8(b.take(k + 1)).len()
                },
                None => snippet@ == "<unreadable body>"@,
            }
        },
{
    if let Some(b) = body {
        http::law_snippet_is_the_beginning(b);
    }
}

/// A `Retry-After` header with a number of seconds, which white space may surround, asks
/// for a wait of just so many seconds. Where there is no such header, nothing is asked
/// for.
pub proof fn law_retry_after_is_read(
    headers: HeaderMap,
    before: Seq<char>,
    n: int,
    after: Seq<char>,
    wait: Option<Duration>,
)
    requires
        0 <= n,
        text::is_padding(before, Strip::White),
        text::is_padding(after, Strip::White),
        lasts(wait, retry_after_secs(http::header_text(headers, "retry-after"@))),
    ensures
        !http::first_values(headers).contains_key("retry-after"@) ==> wait is None,
        ({
            let bytes = http::first_values(headers)["retry-after"@];
            http::first_values(headers).contains_key("retry-after"@) && http::is_printable(bytes)
                && http::ascii(bytes) == before + text::decimal_text(n) + after && n <= u64::MAX
                ==> (wait matches Some(d) && delay::duration_nanos(d) == n * 1_000_000_000)
        }),
{
    text::law_padded_number_reads_back(before, seq![], n, after, u64::MAX as int);
    assert(before + (seq![] + text::decimal_text(n)) + after =~= before + text::decimal_text(n)
        + after);
}

/// A `Retry-After` header that holds anything but digits behind an optional plus sign, such
/// as a date, asks for nothing, and neither does one that is not printable.
pub proof fn law_other_retry_after_is_ignored(
    headers: HeaderMap,
    before: Seq<char>,
    s: Seq<char>,
    after: Seq<char>,
    at: int,
    wait: Option<Duration>,
)
    requires
        text::is_padding(before, Strip::White),
        text::is_padding(after, Strip::White),
        0 <= at < s.len(),
        !text::is_white(s[0]),
        !text::is_white(s.last()),
        !('0' <= s[at] <= '9'),
        !(at == 0 && s[at] == '+'),
        lasts(wait, retry_after_secs(http::header_text(headers, "retry-after"@))),
    ensures
        ({
            let bytes = http::first_values(headers)["retry-after"@];
            !http::is_printable(bytes) || http::ascii(bytes) == before + s + after ==> wait is None
        }),
{
    text::law_strip_drops_padding(before, s, after, Strip::White);
    text::law_other_texts_are_no_number(s, u64::MAX as int, at);
}

/// The delivery URL of parts that are bare is made of them as they are. White space and
/// slashes around the parts do not matter.
pub proof fn law_delivery_url(
    slug: Seq<char>,
    platform: Seq<char>,
    domain: Seq<char>,
    before: Seq<char>,
    after: Seq<char>,
)
    requires
        text::is_bare(slug),
        text::is_bare(platform),
        text::is_bare(domain),
        text::is_padding(before, Strip::Padding),
        text::is_padding(after, Strip::Padding),
    ensures
        webhook_url(
            text::tidy(before + slug + after),
            text::tidy(before + platform + after),
            text::tidy(before + domain + after),
        ) == "https://"@ + slug + "."@ + domain + "/"@ + platform,
{
    text::law_tidy_drops_padding(before, slug, after);
    text::law_tidy_drops_padding(before, platform, after);
    text::law_tidy_drops_padding(before, domain, after);
    reveal_strlit("https://");
    reveal_strlit("https");
    reveal_strlit("://");
    assert(DEFAULT_SCHEME@ + "://"@ =~= "https://"@);
}

/// A client carries the URL that its target parses to and its secret as it is. A forward
/// gets four attempts, and the first retry comes after a quarter of a second.
pub proof fn law_fresh_client<H>(
    r: Result<WebhookClient<H>, WebhookError>,
    http: H,
    url: Seq<char>,
    secret: Seq<char>,
)
    requires
        WebhookClient::targets(r, http, url, secret),
    ensures
        match http::url_parse(url) {
            Ok(target) => {
                &&& r matches Ok(client)
                &&& client@.url == target
                &&& client@.secret == secret
                &&& client@.max_attempts == 4
                &&& client@.backoff_base == 250_000_000
                &&& client.pool() == http
            },
            Err(e) => r matches Err(WebhookError::InvalidUrl(m)) && m@ == e,
        },
{
}

/// Errors tell what they carry in full.
pub proof fn law_errors_in_words(err: WebhookError)
    ensures
        err matches WebhookError::InvalidUrl(e) ==> err.words() == "invalid webhook url: "@ + e@,
        err matches WebhookError::Transport(e) ==> err.words() == "transport error: "@ + e@,
        err matches WebhookError::Status { status, body, retry_after } ==> err.words()
            == "downstream returned "@ + http::status_text(http::status_code(status)) + ": "@
            + body@,
{
}

impl<H> View for WebhookClient<H> {
    type V = WebhookSettings;

    closed spec fn view(&self) -> WebhookSettings {
        WebhookSettings {
            url: http::url_text(self.url),
            secret: self.secret@,
            max_attempts: self.max_attempts,
            backoff_base: delay::duration_nanos(self.backoff_base) as int,
        }
    }
}

impl<H: Clone> Clone for WebhookClient<H> {
    /// Another handle on the same target. A cloned HTTP client shares its pool.
    fn clone(&self) -> (r: Self)
        ensures
            r@ == self@,
            cloned(self.pool(), r.pool()),
    {
        proof {
            use_type_invariant(self);
        }
        WebhookClient {
            http: self.http.clone(),
            url: self.url.clone(),
            secret: self.secret.clone(),
            max_attempts: self.max_attempts,
            backoff_base: self.backoff_base,
        }
    }
}

impl<H> WebhookClient<H> {
    #[verifier::type_invariant]
    spec fn has_an_attempt(self) -> bool {
        self.max_attempts >= 1
    }

    /// The HTTP client that is carried along.
    pub closed spec fn pool(self) -> H {
        self.http
    }

    /// Whether `r` is a client for `url` and `secret` that carries `http`, or the
    /// error that `url` is no URL, as the URL parser has it.
    pub open spec fn targets(
        r: Result<Self, WebhookError>,
        http: H,
        url: Seq<char>,
        secret: Seq<char>,
    ) -> bool {
        match http::url_parse(url) {
            Ok(target) => r matches Ok(client) && client@ == default_settings(target, secret)
                && client.pool() == http,
            Err(e) => r matches Err(WebhookError::InvalidUrl(m)) && m@ == e,
        }
    }

    /// A client that targets `url`, authenticates with `secret`, and sends through
    /// `http`.
    pub fn with_client(http: H, url: &str, secret: &str) -> (r: Result<Self, WebhookError>)
        ensures
            Self::targets(r, http, url@, secret@),
    {
        match parse_url(url) {
            Ok(url) => Ok(
                WebhookClient {
                    http,
                    url,
                    secret: secret.to_owned(),
                    max_attempts: DEFAULT_MAX_ATTEMPTS,
                    backoff_base: Duration::from_millis(DEFAULT_BACKOFF_BASE_MILLIS),
                },
            ),
            Err(e) => Err(WebhookError::InvalidUrl(e)),
        }
    }

    /// A client that targets the super-webhook edge for `slug` and `platform`. The
    /// base domain follows from `domain`, the value of [`SUPER_WEBHOOK_DOMAIN_ENV`].
    pub fn for_slug_with_client(
        http: H,
        slug: &str,
        platform: &str,
        secret: &str,
        domain: Option<&str>,
    ) -> (r: Result<Self, WebhookError>)
        ensures
            Self::targets(
                r,
                http,
                webhook_url(
                    text::tidy(slug@),
                    text::tidy(platform@),
                    text::tidy(
                        text::setting_value(text::contents(domain), DEFAULT_SUPER_WEBHOOK_DOMAIN@),
                    ),
                ),
                secret@,
            ),
    {
        let domain = super_webhook_domain(domain);
        let url = super_webhook_url(slug, platform, domain.as_str());
        Self::with_client(http, url.as_str(), secret)
    }

    /// The same client with another number of attempts per forward. None is taken
    /// for one.
    pub fn with_max_attempts(self, attempts: u32) -> (r: Self)
        ensures
            r@ == (WebhookSettings {
                max_attempts: if attempts == 0 {
                    1
                } else {
                    attempts
                },
                ..self@
            }),
            r.pool() == self.pool(),
    {
        let max_attempts: u32 = if attempts == 0 {
            1
        } else {
            attempts
        };
        WebhookClient {
            http: self.http,
            url: self.url,
            secret: self.secret,
            max_attempts,
            backoff_base: self.backoff_base,
        }
    }

    /// The same client with another wait before the first retry.
    pub fn with_backoff_base(self, base: Duration) -> (r: Self)
        ensures
            r@ == (WebhookSettings { backoff_base: delay::duration_nanos(base) as int, ..self@ }),
            r.pool() == self.pool(),
    {
        proof {
            use_type_invariant(&self);
        }
        WebhookClient {
            http: self.http,
            url: self.url,
            secret: self.secret,
            max_attempts: self.max_attempts,
            backoff_base: base,
        }
    }

    /// The URL that events are forwarded to.
    pub fn url(&self) -> (r: &Url)
        ensures
            http::url_text(*r) == self@.url,
    {
        &self.url
    }

    /// The HTTP client that requests are to be sent with.
    pub fn http(&self) -> (r: &H)
        ensures
            *r == self.pool(),
    {
        &self.http
    }

    /// How many attempts a forward gets. There is always one.
    pub fn max_attempts(&self) -> (r: u32)
        ensures
            r == self@.max_attempts,
            r >= 1,
    {
        proof {
            use_type_invariant(self);
        }
        self.max_attempts
    }

    /// The request that forwards `payload` as a gateway event of the name `event`.
    pub fn request(&self, event: &str, payload: &Value) -> (r: ForwardRequest)
        ensures
            r.url@ == self@.url,
            header_list(r.headers@) == seq![
                (WEBHOOK_SECRET_HEADER@, self@.secret),
                (DISCORD_EVENT_HEADER@, event@),
                (CONTENT_TYPE_HEADER@, CONTENT_TYPE@),
            ],
            r.body@ == json::json_text(json::json_view(*payload)),
    {
        let headers: Vec<(&'static str, String)> = vec![
            (WEBHOOK_SECRET_HEADER, self.secret.clone()),
            (DISCORD_EVENT_HEADER, event.to_owned()),
            (CONTENT_TYPE_HEADER, CONTENT_TYPE.to_owned()),
        ];
        let r = ForwardRequest {
            url: self.url.as_str().to_owned(),
            headers,
            body: json::render(payload),
        };
        assert(header_list(r.headers@) =~= seq![
            (WEBHOOK_SECRET_HEADER@, self@.secret),
            (DISCORD_EVENT_HEADER@, event@),
            (CONTENT_TYPE_HEADER@, CONTENT_TYPE@),
        ]);
        r
    }

    fn retry_delay(&self, attempt: u32, err: &WebhookError) -> (r: Duration)
        requires
            attempt >= 1,
        ensures
            delay::duration_nanos(r) == retry_nanos(self@, attempt as int, *err),
    {
        let asked = match err {
            WebhookError::Status { status: _, body: _, retry_after: Some(after) } => *after,
            _ => self.backoff_base.saturating_mul(doubling(attempt)),
        };
        shorter(asked, Duration::from_secs(MAX_RETRY_DELAY_SECS))
    }

    /// What follows when attempt number `attempt` to forward an event had `outcome`.
    ///
    /// Transport failures and replies that ask to come back later are retried after a
    /// wait, as long as attempts are left. Any other failure is permanent and ends the
    /// forward at once, since repeating a malformed or unauthorized request does not
    /// help. The number of attempts made is told along with success and failure alike.
    pub fn forward(&self, attempt: u32, outcome: Result<(), WebhookError>) -> (r: ForwardStep)
        requires
            attempt >= 1,
        ensures
            is_over(self@, attempt as int, outcome) ==> r == (ForwardStep::Done {
                attempts: attempt,
                result: outcome,
            }),
            !is_over(self@, attempt as int, outcome) ==> (r matches ForwardStep::Retry { delay }
                && delay::duration_nanos(delay) == retry_nanos(
                self@,
                attempt as int,
                outcome->Err_0,
            )),
    {
        match outcome {
            Ok(done) => ForwardStep::Done { attempts: attempt, result: Ok(done) },
            Err(err) => {
                if !is_retryable(&err) || attempt >= self.max_attempts {
                    return ForwardStep::Done { attempts: attempt, result: Err(err) };
                }
                ForwardStep::Retry { delay: self.retry_delay(attempt, &err) }
            },
        }
    }
}

impl WebhookClient<()> {
    /// A client that targets `url` and authenticates with `secret`. It carries no HTTP
    /// client.
    pub fn new(url: &str, secret: &str) -> (r: Result<Self, WebhookError>)
        ensures
            Self::targets(r, (), url@, secret@),
    {
        Self::with_client((), url, secret)
    }

    /// A client that targets the super-webhook edge for `slug` and `platform` at
    /// `domain`. It carries no HTTP client.
    pub fn for_slug_with_domain(slug: &str, platform: &str, domain: &str, secret: &str) -> (r:
        Result<Self, WebhookError>)
        ensures
            Self::targets(
                r,
                (),
                webhook_url(text::tidy(slug@), text::tidy(platform@), text::tidy(domain@)),
                secret@,
            ),
    {
        let url = super_webhook_url(slug, platform, domain);
        Self::new(url.as_str(), secret)
    }
}

} // verus!
