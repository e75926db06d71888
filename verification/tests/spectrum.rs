use discord_relay::spectrum::{
    check_status, project_endpoint, project_slug, read_reply, spectrum_cloud_url, ProjectData,
    ProjectResponse, SpectrumClient, SpectrumError, DEFAULT_SPECTRUM_CLOUD_URL,
};
use reqwest::StatusCode;

fn project(slug: Option<&str>) -> ProjectResponse {
    ProjectResponse {
        data: Some(ProjectData {
            slug: slug.map(|s| s.to_owned()),
        }),
    }
}

#[test]
fn assembles_project_endpoint() {
    assert_eq!(
        project_endpoint("https://spectrum.photon.codes", "proj-123"),
        "https://spectrum.photon.codes/projects/proj-123/"
    );
    // Stray trailing slash and white space are normalized away.
    assert_eq!(
        project_endpoint("https://spectrum.photon.codes/", " /proj-123/ "),
        "https://spectrum.photon.codes/projects/proj-123/"
    );
}

#[test]
fn endpoint_parts_may_mix_slashes_and_white_space() {
    assert_eq!(
        project_endpoint(" https://spectrum.photon.codes / / ", "/ proj-123 /"),
        "https://spectrum.photon.codes/projects/proj-123/"
    );
}

#[test]
fn cloud_url_falls_back_to_default() {
    assert_eq!(spectrum_cloud_url(None), DEFAULT_SPECTRUM_CLOUD_URL);
}

#[test]
fn cloud_url_is_forgiving_to_set() {
    assert_eq!(DEFAULT_SPECTRUM_CLOUD_URL, "https://spectrum.photon.codes");
    assert_eq!(spectrum_cloud_url(Some("\t\n ")), "https://spectrum.photon.codes");
    assert_eq!(spectrum_cloud_url(Some(" http://localhost:8080// ")), "http://localhost:8080");
    assert_eq!(spectrum_cloud_url(Some("http://localhost:8080 / ")), "http://localhost:8080");
}

#[test]
fn lookup_is_authenticated_with_the_project() {
    let client = SpectrumClient::new(Some("https://Cloud.Example/"), "proj", "hush");
    let request = client.get_project_slug().ok().unwrap();
    assert_eq!(request.url, "https://cloud.example/projects/proj/");
    assert_eq!(request.username, "proj");
    assert_eq!(request.password, "hush");
}

#[test]
fn lookup_at_no_url_is_an_error() {
    let client = SpectrumClient::with_base_url("nowhere", "proj", "hush");
    let err = client.get_project_slug().err().unwrap();
    assert!(matches!(err, SpectrumError::InvalidUrl(_)));
    assert_eq!(err.message(), "invalid spectrum url: relative URL without a base");
}

#[test]
fn lookup_without_success_is_an_error() {
    assert!(check_status(StatusCode::OK, None).is_ok());
    let err = check_status(StatusCode::UNAUTHORIZED, Some("bad")).err().unwrap();
    assert_eq!(err.message(), "spectrum returned 401 Unauthorized: bad");
    let err = check_status(StatusCode::FOUND, None).err().unwrap();
    assert_eq!(err.message(), "spectrum returned 302 Found: <unreadable body>");
}

#[test]
fn slug_is_read_from_the_reply() {
    assert_eq!(project_slug(Ok(project(Some(" my-slug ")))).ok().unwrap(), " my-slug ");
}

#[test]
fn slug_may_be_missing() {
    for reply in [project(None), project(Some(" \t ")), ProjectResponse { data: None }] {
        let err = project_slug(Ok(reply)).err().unwrap();
        assert!(matches!(err, SpectrumError::MissingSlug));
        assert_eq!(err.message(), "project response carried no slug");
    }
}

#[test]
fn reply_may_be_no_project() {
    let err = project_slug(Err("expected value".to_owned())).err().unwrap();
    assert!(matches!(err, SpectrumError::Transport(_)));
    assert_eq!(err.message(), "transport error: expected value");
}

#[test]
fn status_decides_before_the_reply() {
    let reply = || Some(Ok(project(Some("my-slug"))));
    assert_eq!(read_reply(StatusCode::OK, None, reply()).ok().unwrap(), "my-slug");
    let err = read_reply(StatusCode::FORBIDDEN, Some("no"), reply()).err().unwrap();
    assert_eq!(err.message(), "spectrum returned 403 Forbidden: no");
    let err = read_reply(StatusCode::BAD_GATEWAY, None, None).err().unwrap();
    assert_eq!(err.message(), "spectrum returned 502 Bad Gateway: <unreadable body>");
    let err = read_reply(StatusCode::OK, None, Some(Ok(project(None)))).err().unwrap();
    assert!(matches!(err, SpectrumError::MissingSlug));
    let err = read_reply(StatusCode::OK, Some("x"), None).err().unwrap();
    assert!(matches!(err, SpectrumError::MissingSlug));
    let err = read_reply(StatusCode::OK, None, Some(Err("bad".to_owned()))).err().unwrap();
    assert_eq!(err.message(), "transport error: bad");
}
