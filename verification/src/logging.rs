//! How the process logs, as the environment asks for it.
//!
//! * `RUST_LOG` holds filter directives, e.g. `info` or
//!   `discord_relay=debug,reqwest=warn`. [`DEFAULT_FILTER`] stands in where it is
//!   unset or blank.
//! * `LOG_FORMAT` set to `json`, in any case, asks for one JSON object per line;
//!   anything else for human-readable lines.

use crate::text;
use crate::text::{blank, same_ignoring_ascii_case};
use vstd::prelude::*;

verus! {

/// Filter that applies where `RUST_LOG` is unset or blank.
pub const DEFAULT_FILTER: &'static str = "info";

/// Environment variable that selects the output encoding.
pub const LOG_FORMAT_ENV: &'static str = "LOG_FORMAT";

/// Which log lines to write, and how.
pub struct Logging {
    /// The filter directives.
    pub filter: String,
    /// Whether `filter` is an operator's own text. A bad directive in such a text is
    /// to be skipped, and the rest applied.
    pub lossy: bool,
    /// Whether each line is a JSON object.
    pub json: bool,
}

/// The logging that the values of `RUST_LOG` and `LOG_FORMAT` ask for.
pub fn init(filter: Option<&str>, format: Option<&str>) -> (r: Logging)
    ensures
        r.lossy == (filter is Some && !text::is_blank(filter->0@)),
        r.filter@ == (if r.lossy {
            filter->0@
        } else {
            DEFAULT_FILTER@
        }),
        r.json == (format is Some && text::equal_ignoring_ascii_case(format->0@, "json"@)),
{
    let json = match format {
        Some(v) => same_ignoring_ascii_case(v, "json"),
        None => false,
    };
    match filter {
        Some(v) if !blank(v) => Logging { filter: v.to_owned(), lossy: true, json },
        _ => Logging { filter: DEFAULT_FILTER.to_owned(), lossy: false, json },
    }
}

/// Lines are JSON objects just where the format is the four letters `json`, each in either
/// case.
pub proof fn law_json_in_any_case(format: Seq<char>)
    ensures
        text::equal_ignoring_ascii_case(format, "json"@) <==> {
            &&& format.len() == 4
            &&& format[0] == 'j' || format[0] == 'J'
            &&& format[1] == 's' || format[1] == 'S'
            &&& format[2] == 'o' || format[2] == 'O'
            &&& format[3] == 'n' || format[3] == 'N'
        },
{
    reveal_strlit("json");
    text::law_case_does_not_matter(format, "json"@);
    if text::equal_ignoring_ascii_case(format, "json"@) {
        assert(format[0] == format[0] && format[1] == format[1]);
        assert(format[2] == format[2] && format[3] == format[3]);
    }
}

} // verus!
