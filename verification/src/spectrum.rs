//! The Spectrum control plane: where a project's slug is looked up.
//!
//! The slug is the subdomain label that the super-webhook edge is addressed by. It is
//! read by getting the project, authenticated with the project's id and secret. The
//! lookup modifies nothing. What is sent, and what follows from the reply, is said
//! here; sending is left to the caller.

use crate::http;
use crate::http::{parse_url, snippet, status_line};
use crate::text;
use crate::text::{blank, setting, trim_tidy, trim_tidy_end, Strip};
use reqwest::StatusCode;
use vstd::prelude::*;
use vstd::string::*;

verus! {

/// Base URL of the control plane.
pub const DEFAULT_SPECTRUM_CLOUD_URL: &'static str = "https://spectrum.photon.codes";

/// Environment variable that overrides [`DEFAULT_SPECTRUM_CLOUD_URL`].
pub const SPECTRUM_CLOUD_URL_ENV: &'static str = "SPECTRUM_CLOUD_URL";

/// The base URL of the control plane, given the value of [`SPECTRUM_CLOUD_URL_ENV`]:
/// that value without surrounding white space and trailing slashes, or the default
/// where it is unset or blank.
pub fn spectrum_cloud_url(value: Option<&str>) -> (r: String)
    ensures
        r@ == text::setting_value(text::contents(value), DEFAULT_SPECTRUM_CLOUD_URL@),
{
    setting(value, DEFAULT_SPECTRUM_CLOUD_URL)
}

/// The URL `{base}/projects/{project_id}/`, of parts that are tidied up first.
pub open spec fn endpoint(base_url: Seq<char>, project_id: Seq<char>) -> Seq<char> {
    text::tidy_end(base_url) + "/projects/"@ + text::tidy(project_id) + "/"@
}

/// The endpoint of the project `project_id` at `base_url`. The base loses surrounding
/// white space and trailing slashes, the id surrounding white space and slashes.
pub fn project_endpoint(base_url: &str, project_id: &str) -> (r: String)
    ensures
        r@ == endpoint(base_url@, project_id@),
{
    let mut url = trim_tidy_end(base_url).to_owned();
    url.append("/projects/");
    url.append(trim_tidy(project_id));
    url.append("/");
    url
}

/// Why a slug could not be looked up.
#[derive(Debug)]
pub enum SpectrumError {
    /// The endpoint is no URL. Carries the parser's message.
    InvalidUrl(String),
    /// The request could not be built or sent, timed out, or had a reply that could
    /// not be decoded. Carries the message of the HTTP client.
    Transport(String),
    /// The control plane did not report success.
    Status {
        /// The reported status.
        status: StatusCode,
        /// The beginning of the reply's body.
        body: String,
    },
    /// The reply carries no slug, so there is nothing to address the edge with.
    MissingSlug,
}

impl SpectrumError {
    /// The error in words.
    pub open spec fn words(self) -> Seq<char> {
        match self {
            SpectrumError::InvalidUrl(e) => "invalid spectrum url: "@ + e@,
            SpectrumError::Transport(e) => "transport error: "@ + e@,
            SpectrumError::Status { status, body } => "spectrum returned "@ + http::status_text(
                http::status_code(status),
            ) + ": "@ + body@,
            SpectrumError::MissingSlug => "project response carried no slug"@,
        }
    }

    /// The error in words.
    pub fn message(&self) -> (r: String)
        ensures
            r@ == self.words(),
    {
        match self {
            SpectrumError::InvalidUrl(e) => "invalid spectrum url: ".to_owned().concat(e.as_str()),
            SpectrumError::Transport(e) => "transport error: ".to_owned().concat(e.as_str()),
            SpectrumError::Status { status, body } => {
                "spectrum returned ".to_owned().concat(status_line(status).as_str()).concat(
                    ": ",
                ).concat(body.as_str())
            },
            SpectrumError::MissingSlug => "project response carried no slug".to_owned(),
        }
    }
}

/// The reply to a project lookup. Only what is read of it is modelled.
pub struct ProjectResponse {
    /// The project, where the reply holds one.
    pub data: Option<ProjectData>,
}

/// The project in a reply.
pub struct ProjectData {
    /// Its slug, where it has one.
    pub slug: Option<String>,
}

/// One request to the control plane, to be sent as a `GET` with HTTP Basic
/// authentication.
pub struct SlugRequest {
    /// Where it goes.
    pub url: String,
    /// The user name.
    pub username: String,
    /// The password.
    pub password: String,
}

/// Whether `r` says of a reply with `status` and `body` whether it reports success.
pub open spec fn status_outcome(
    status: StatusCode,
    body: Option<Seq<char>>,
    r: Result<(), SpectrumError>,
) -> bool {
    match r {
        Ok(_) => http::is_success(http::status_code(status)),
        Err(SpectrumError::Status { status: reported, body: snippet }) => {
            &&& !http::is_success(http::status_code(status))
            &&& reported == status
            &&& snippet@ == http::snippet_of(body)
        },
        Err(_) => false,
    }
}

/// Whether a reply reports success. Any other status is an error: the credentials are
/// bad, the project is unknown, or the like. `body` is missing where it could not be
/// read.
pub fn check_status(status: StatusCode, body: Option<&str>) -> (r: Result<(), SpectrumError>)
    ensures
        status_outcome(status, text::contents(body), r),
{
    if status.is_success() {
        return Ok(());
    }
    Err(SpectrumError::Status { status, body: snippet(body) })
}

/// The slug in a reply, where it has one that is not blank.
pub open spec fn slug_in(reply: ProjectResponse) -> Option<Seq<char>> {
    match reply.data {
        Some(ProjectData { slug: Some(slug) }) => if text::is_blank(slug@) {
            None
        } else {
            Some(slug@)
        },
        _ => None,
    }
}

/// The slug in a reply that reports success. `reply` is the message of the decoder
/// where it could not be decoded.
pub fn project_slug(reply: Result<ProjectResponse, String>) -> (r: Result<String, SpectrumError>)
    ensures
        match reply {
            Ok(project) => match slug_in(project) {
                Some(slug) => r matches Ok(s) && s@ == slug,
                None => r matches Err(SpectrumError::MissingSlug),
            },
            Err(e) => r == Err::<String, SpectrumError>(SpectrumError::Transport(e)),
        },
{
    match reply {
        Ok(ProjectResponse { data: Some(ProjectData { slug: Some(slug) }) }) => {
            if blank(slug.as_str()) {
                Err(SpectrumError::MissingSlug)
            } else {
                Ok(slug)
            }
        },
        Ok(_) => Err(SpectrumError::MissingSlug),
        Err(e) => Err(SpectrumError::Transport(e)),
    }
}

/// What the reply to a lookup comes to. A status that does not report success decides by
/// itself, whatever the reply holds; the beginning of `body` tells more of it, which is
/// missing where it could not be read. Otherwise the decoded `reply` decides; one that was
/// not decoded holds no slug.
pub fn read_reply(
    status: StatusCode,
    body: Option<&str>,
    reply: Option<Result<ProjectResponse, String>>,
) -> (r: Result<String, SpectrumError>)
    ensures
        if http::is_success(http::status_code(status)) {
            match reply {
                Some(Ok(project)) => match slug_in(project) {
                    Some(slug) => r matches Ok(s) && s@ == slug,
                    None => r matches Err(SpectrumError::MissingSlug),
                },
                Some(Err(e)) => r == Err::<String, SpectrumError>(SpectrumError::Transport(e)),
                None => r matches Err(SpectrumError::MissingSlug),
            }
        } else {
            r matches Err(SpectrumError::Status { status: reported, body: snippet }) && reported
                == status && snippet@ == http::snippet_of(text::contents(body))
        },
{
    match check_status(status, body) {
        Ok(()) => match reply {
            Some(reply) => project_slug(reply),
            None => Err(SpectrumError::MissingSlug),
        },
        Err(e) => Err(e),
    }
}

/// The endpoint of a project is made of the base URL and the id as they are. White space
/// before the base, white space and slashes after it, and both around the id do not
/// matter.
pub proof fn law_endpoint_url(
    white: Seq<char>,
    base: Seq<char>,
    id: Seq<char>,
    before: Seq<char>,
    after: Seq<char>,
)
    requires
        text::is_padding(white, Strip::White),
        base.len() > 0,
        !text::is_white(base[0]),
        !text::strips(Strip::Padding, base.last()),
        text::is_bare(id),
        text::is_padding(before, Strip::Padding),
        text::is_padding(after, Strip::Padding),
    ensures
        endpoint(white + base + after, before + id + after) == base + "/projects/"@ + id + "/"@,
{
    text::law_setting_drops_padding(white, base, after, seq![]);
    text::law_blank_is_all_white(white + base + after);
    assert((white + base + after)[white.len() as int] == base[0]);
    text::law_tidy_drops_padding(before, id, after);
}

/// The slug of a project is given as it is, where it holds anything but white space.
/// Otherwise there is none.
pub proof fn law_slug_is_given_as_it_is(reply: ProjectResponse, slug: String, at: int)
    requires
        reply.data == Some(ProjectData { slug: Some(slug) }),
    ensures
        0 <= at < slug@.len() && !text::is_white(slug@[at]) ==> slug_in(reply) == Some(slug@),
        (forall|i: int| 0 <= i < slug@.len() ==> text::is_white(#[trigger] slug@[i])) ==> slug_in(
            reply,
        ) is None,
{
    text::law_blank_is_all_white(slug@);
}

/// A reply without a project, or with a project without a slug, holds no slug.
pub proof fn law_slug_may_be_missing(reply: ProjectResponse)
    requires
        reply.data is None || reply.data->0.slug is None,
    ensures
        slug_in(reply) is None,
{
}

/// A lookup succeeds just where the status is one of the two hundreds. Otherwise it fails
/// with that status.
pub proof fn law_status_decides(
    status: StatusCode,
    body: Option<Seq<char>>,
    r: Result<(), SpectrumError>,
)
    requires
        status_outcome(status, body, r),
    ensures
        r is Ok <==> 200 <= http::status_code(status) <= 299,
        r matches Err(e) ==> {
            &&& e matches SpectrumError::Status { status: reported, body: snippet }
            &&& reported == status
            &&& snippet@ == http::snippet_of(body)
        },
{
}

/// Errors tell what they carry in full.
pub proof fn law_errors_in_words(err: SpectrumError)
    ensures
        err matches SpectrumError::InvalidUrl(e) ==> err.words() == "invalid spectrum url: "@ + e@,
        err matches SpectrumError::Transport(e) ==> err.words() == "transport error: "@ + e@,
        err matches SpectrumError::Status { status, body } ==> err.words()
            == "spectrum returned "@ + http::status_text(http::status_code(status)) + ": "@ + body@,
        err is MissingSlug ==> err.words() == "project response carried no slug"@,
{
}

/// A client of the control plane for a single project.
///
/// `H` is the HTTP client that its requests are sent with. It is carried along only,
/// so that many clients can share one connection pool. The type has no `Debug`: one of
/// its fields is a secret.
#[derive(Clone)]
pub struct SpectrumClient<H> {
    /// The HTTP client.
    pub http: H,
    /// Base URL of the control plane.
    pub base_url: String,
    /// The project, which is also the user name.
    pub project_id: String,
    /// The project's secret, which is the password.
    pub project_secret: String,
}

impl<H> SpectrumClient<H> {
    /// A client for a project at `base_url`, which sends through `http`.
    pub fn with_client(http: H, base_url: &str, project_id: &str, project_secret: &str) -> (r: Self)
        ensures
            r.http == http,
            r.base_url@ == base_url@,
            r.project_id@ == project_id@,
            r.project_secret@ == project_secret@,
    {
        SpectrumClient {
            http,
            base_url: base_url.to_owned(),
            project_id: project_id.to_owned(),
            project_secret: project_secret.to_owned(),
        }
    }

    /// The request that looks up this project's slug: the endpoint, and the project's
    /// credentials. An endpoint that is no URL is an error.
    pub fn get_project_slug(&self) -> (r: Result<SlugRequest, SpectrumError>)
        ensures
            match http::url_parse(endpoint(self.base_url@, self.project_id@)) {
                Ok(url) => {
                    &&& r matches Ok(request)
                    &&& request.url@ == url
                    &&& request.username@ == self.project_id@
                    &&& request.password@ == self.project_secret@
                },
                Err(e) => r matches Err(SpectrumError::InvalidUrl(m)) && m@ == e,
            },
    {
        let endpoint = project_endpoint(self.base_url.as_str(), self.project_id.as_str());
        match parse_url(endpoint.as_str()) {
            Ok(url) => Ok(
                SlugRequest {
                    url: url.as_str().to_owned(),
                    username: self.project_id.clone(),
                    password: self.project_secret.clone(),
                },
            ),
            Err(e) => Err(SpectrumError::InvalidUrl(e)),
        }
    }
}

impl SpectrumClient<()> {
    /// A client for a project that carries no HTTP client. The base URL follows from
    /// `cloud_url`, the value of [`SPECTRUM_CLOUD_URL_ENV`].
    pub fn new(cloud_url: Option<&str>, project_id: &str, project_secret: &str) -> (r: Self)
        ensures
            r.base_url@ == text::setting_value(
                text::contents(cloud_url),
                DEFAULT_SPECTRUM_CLOUD_URL@,
            ),
            r.project_id@ == project_id@,
            r.project_secret@ == project_secret@,
    {
        let base_url = spectrum_cloud_url(cloud_url);
        Self::with_base_url(base_url.as_str(), project_id, project_secret)
    }

    /// A client for a project at `base_url` that carries no HTTP client.
    pub fn with_base_url(base_url: &str, project_id: &str, project_secret: &str) -> (r: Self)
        ensures
            r.base_url@ == base_url@,
            r.project_id@ == project_id@,
            r.project_secret@ == project_secret@,
    {
        Self::with_client((), base_url, project_id, project_secret)
    }
}

} // verus!
