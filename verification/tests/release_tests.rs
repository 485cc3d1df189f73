use isekai::release::{
    empty_release_notes, release_notes_from, release_notes_request, ReleaseResponse,
};

#[test]
fn empty_notes() {
    let n = empty_release_notes();
    assert_eq!(n.release_date, None);
    assert_eq!(n.release_notes, "");
}

#[test]
fn request_for_a_version() {
    let r = release_notes_request("1.2.3");
    assert_eq!(
        r.url,
        "https://api.github.com/repos/radcolor-dev/sky_cotl_clock/releases/tags/v1.2.3"
    );
    assert_eq!(
        r.headers,
        vec![
            ("Accept".to_string(), "application/vnd.github+json".to_string()),
            ("User-Agent".to_string(), "Isekai".to_string()),
        ]
    );
}

#[test]
fn notes_from_a_release() {
    let n = release_notes_from(Some(ReleaseResponse {
        published_at: Some("2024-05-01T00:00:00Z".to_string()),
        body: Some("\n  ## Fixes\n- a\n\n".to_string()),
    }));
    assert_eq!(n.release_date.as_deref(), Some("2024-05-01T00:00:00Z"));
    assert_eq!(n.release_notes, "## Fixes\n- a");
    let n = release_notes_from(Some(ReleaseResponse { published_at: None, body: Some("   ".to_string()) }));
    assert_eq!(n.release_date, None);
    assert_eq!(n.release_notes, "");
    let n = release_notes_from(Some(ReleaseResponse { published_at: None, body: None }));
    assert_eq!(n.release_notes, "");
}

#[test]
fn failed_request_gives_empty_notes() {
    let n = release_notes_from(None);
    assert_eq!(n.release_date, None);
    assert_eq!(n.release_notes, "");
}
