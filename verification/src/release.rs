//! Release notes of a version: the request made for them and what is read
//! from the answer.

use vstd::prelude::*;
use crate::discord::opt_view;
use crate::text::{chars_of, owned, push_str, string_of, trim, trim_chars, Strip};

verus! {

/// The release notes shown for a version.
pub struct ReleaseNotes {
    pub release_date: Option<String>,
    pub release_notes: String,
}

/// The fields of a GitHub release that are read, each when it is a text.
pub struct ReleaseResponse {
    pub published_at: Option<String>,
    pub body: Option<String>,
}

/// A GET request for a release.
pub struct ReleaseRequest {
    pub url: String,
    pub headers: Vec<(String, String)>,
}

/// The address of the GitHub release tagged `v` and the version.
pub open spec fn release_url(version: Seq<char>) -> Seq<char> {
    "https://api.github.com/repos/radcolor-dev/sky_cotl_clock/releases/tags/v"@ + version
}

/// Notes with no date and no text.
pub fn empty_release_notes() -> (r: ReleaseNotes)
    ensures
        r.release_date is None,
        r.release_notes@ == Seq::<char>::empty(),
{
    ReleaseNotes { release_date: None, release_notes: String::new() }
}

/// The request for the release of `version`.
pub fn release_notes_request(version: &str) -> (r: ReleaseRequest)
    ensures
        r.url@ == release_url(version@),
        r.headers@.map_values(|h: (String, String)| (h.0@, h.1@)) == seq![
            ("Accept"@, "application/vnd.github+json"@),
            ("User-Agent"@, "Isekai"@),
        ],
{
    let mut url = owned("https://api.github.com/repos/radcolor-dev/sky_cotl_clock/releases/tags/v");
    push_str(&mut url, version);
    let mut headers: Vec<(String, String)> = Vec::new();
    headers.push((owned("Accept"), owned("application/vnd.github+json")));
    headers.push((owned("User-Agent"), owned("Isekai")));
    assert(headers@.map_values(|h: (String, String)| (h.0@, h.1@)) =~= seq![
        ("Accept"@, "application/vnd.github+json"@),
        ("User-Agent"@, "Isekai"@),
    ]);
    ReleaseRequest { url, headers }
}

/// The notes read from the release, or empty ones when the request, its
/// status or its JSON failed (`None`): the publication date as given, and the
/// body trimmed.
pub fn release_notes_from(response: Option<ReleaseResponse>) -> (r: ReleaseNotes)
    ensures
        match response {
            None => r.release_date is None && r.release_notes@ == Seq::<char>::empty(),
            Some(resp) => opt_view(r.release_date) == opt_view(resp.published_at)
                && r.release_notes@ == match resp.body {
                Some(b) => trim(b@),
                None => Seq::<char>::empty(),
            },
        },
{
    match response {
        None => empty_release_notes(),
        Some(resp) => {
            let release_notes = match &resp.body {
                Some(b) => {
                    let chars = chars_of(b.as_str());
                    let t = trim_chars(chars.as_slice(), Strip::WhiteSpace);
                    string_of(t.as_slice())
                },
                None => String::new(),
            };
            ReleaseNotes { release_date: resp.published_at, release_notes }
        },
    }
}

} // verus!
