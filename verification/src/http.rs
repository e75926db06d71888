//! What the relay takes from the HTTP client library: URLs, statuses and
//! headers.

use crate::text;
use reqwest::header::{HeaderMap, HeaderValue};
use reqwest::{StatusCode, Url};
use vstd::prelude::*;
use vstd::utf8::*;

verus! {

/// Time limit of a single request, in seconds. Lookups and forwards both want fast
/// failure over a hung request.
pub const REQUEST_TIMEOUT_SECS: u64 = 15;

/// A parsed URL.
#[verifier::external_type_specification]
#[verifier::external_body]
pub struct ExUrl(Url);

/// The status of an HTTP response.
#[verifier::external_type_specification]
#[verifier::external_body]
pub struct ExStatusCode(StatusCode);

/// The headers of an HTTP response.
#[verifier::external_type_specification]
#[verifier::external_body]
#[verifier::reject_recursive_types(T)]
pub struct ExHeaderMap<T>(HeaderMap<T>);

/// The value of an HTTP header.
#[verifier::external_type_specification]
#[verifier::external_body]
pub struct ExHeaderValue(HeaderValue);

/// The normalized text of `url`.
pub uninterp spec fn url_text(url: Url) -> Seq<char>;

/// What the URL parser makes of `text`: the normalized text of the URL, or the
/// message of the error.
pub uninterp spec fn url_parse(text: Seq<char>) -> Result<Seq<char>, Seq<char>>;

/// The three digits of `status`.
pub uninterp spec fn status_code(status: StatusCode) -> u16;

/// How a status is written out: its digits and its reason phrase.
pub uninterp spec fn status_text(code: u16) -> Seq<char>;

/// For each header in `headers`, by its name in lower case, the bytes of its first
/// value.
pub uninterp spec fn first_values(headers: HeaderMap) -> Map<Seq<char>, Seq<u8>>;

/// The bytes of `value`.
pub uninterp spec fn header_bytes(value: HeaderValue) -> Seq<u8>;

/// Whether a status reports success.
pub open spec fn is_success(code: u16) -> bool {
    200 <= code < 300
}

/// Whether a status reports a failure of the server.
pub open spec fn is_server_error(code: u16) -> bool {
    500 <= code < 600
}

/// Whether `bytes` are tabs and printable ASCII characters only.
pub open spec fn is_printable(bytes: Seq<u8>) -> bool {
    forall|i: int| 0 <= i < bytes.len() ==> 32 <= #[trigger] bytes[i] < 127 || bytes[i] == 9
}

/// The characters of ASCII bytes.
pub open spec fn ascii(bytes: Seq<u8>) -> Seq<char> {
    bytes.map_values(|b: u8| b as char)
}

/// The text of the header `name`, in lower case, where it is there and printable.
pub open spec fn header_text(headers: HeaderMap, name: Seq<char>) -> Option<Seq<char>> {
    if first_values(headers).contains_key(name) && is_printable(first_values(headers)[name]) {
        Some(ascii(first_values(headers)[name]))
    } else {
        None
    }
}

/// `str::parse` into a `Url`: what comes back depends on the text alone.
#[verifier::external_body]
pub(crate) fn parse_url(text: &str) -> (r: Result<Url, String>)
    ensures
        match r {
            Ok(url) => url_parse(text@) == Ok::<Seq<char>, Seq<char>>(url_text(url)),
            Err(e) => url_parse(text@) == Err::<Seq<char>, Seq<char>>(e@),
        },
{
    text.parse::<Url>().map_err(|e| e.to_string())
}

/// `Url::as_str`: the normalized text.
pub assume_specification[ Url::as_str ](url: &Url) -> (r: &str)
    ensures
        r@ == url_text(*url),
;

/// `Url::clone`: a URL of the same text.
pub assume_specification[ <Url as Clone>::clone ](url: &Url) -> (r: Url)
    ensures
        url_text(r) == url_text(*url),
;

/// `StatusCode::as_u16`: the digits.
pub assume_specification[ StatusCode::as_u16 ](status: &StatusCode) -> (r: u16)
    ensures
        r == status_code(*status),
;

/// `StatusCode::is_success`: whether the digits are in the two hundreds.
pub assume_specification[ StatusCode::is_success ](status: &StatusCode) -> (r: bool)
    ensures
        r == is_success(status_code(*status)),
;

/// `StatusCode::is_server_error`: whether the digits are in the five hundreds.
pub assume_specification[ StatusCode::is_server_error ](status: &StatusCode) -> (r: bool)
    ensures
        r == is_server_error(status_code(*status)),
;

/// `StatusCode::to_string`: the text depends on the digits alone.
#[verifier::external_body]
pub(crate) fn status_line(status: &StatusCode) -> (r: String)
    ensures
        r@ == status_text(status_code(*status)),
{
    status.to_string()
}

/// `HeaderMap::get` of `Retry-After`: the first value of that header, if any.
#[verifier::external_body]
pub(crate) fn get_retry_after(headers: &HeaderMap) -> (r: Option<&HeaderValue>)
    ensures
        match r {
            Some(v) => first_values(*headers).contains_key("retry-after"@)
                && first_values(*headers)["retry-after"@] == header_bytes(*v),
            None => !first_values(*headers).contains_key("retry-after"@),
        },
{
    headers.get(reqwest::header::RETRY_AFTER)
}

/// `HeaderValue::to_str`: the characters, where all of them are printable ASCII or
/// tabs.
#[verifier::external_body]
pub(crate) fn header_str(value: &HeaderValue) -> (r: Option<&str>)
    ensures
        match r {
            Some(s) => is_printable(header_bytes(*value)) && s@ == ascii(header_bytes(*value)),
            None => !is_printable(header_bytes(*value)),
        },
{
    value.to_str().ok()
}

/// What of a response's body goes into an error: at most the first 512 bytes, or a
/// remark where it could not be read.
pub open spec fn snippet_of(body: Option<Seq<char>>) -> Seq<char> {
    match body {
        Some(b) => text::truncated(b, 512),
        None => "<unreadable body>"@,
    }
}

/// What of a response's body goes into an error. `body` is missing where it could not
/// be read.
pub fn snippet(body: Option<&str>) -> (r: String)
    ensures
        r@ == snippet_of(text::contents(body)),
{
    match body {
        Some(b) => text::truncate(b, 512),
        None => "<unreadable body>".to_owned(),
    }
}

/// A body of at most 512 bytes is shown whole. Of any other one, as many characters are
/// shown as fit into 512 bytes, and a mark. One that could not be read is remarked on.
pub proof fn law_snippet_is_the_beginning(body: Seq<char>)
    ensures
        encode_utf8(body).len() <= 512 ==> snippet_of(Some(body)) == body,
        encode_utf8(body).len() > 512 ==> {
            let k = snippet_of(Some(body)).len() - 1;
            &&& 0 <= k < body.len()
            &&& snippet_of(Some(body)) == body.take(k) + seq!['\u{2026}']
            &&& encode_utf8(body.take(k)).len() <= 512 < encode_utf8(body.take(k + 1)).len()
        },
        snippet_of(None) == "<unreadable body>"@,
{
    text::law_truncated_is_bounded(body, 512);
}

/// Success is reported by the two hundreds, a failure of the server by the five hundreds.
pub proof fn law_status_classes(code: u16)
    ensures
        is_success(code) <==> code / 100 == 2,
        is_server_error(code) <==> code / 100 == 5,
{
}

} // verus!
