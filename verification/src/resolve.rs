//! The resolution pipeline: from a dropped path, the file's content and the
//! outcome of one HTTP fetch to the result handed to the notification
//! channel — a full metadata record when the fetch succeeded, a URL-only
//! record when it failed, or nothing when the drop is not a readable
//! shortcut.

use vstd::prelude::*;
use crate::html::{
    extract_description, extract_favicon, extract_image, extract_title, opt_view, spec_description,
    spec_favicon, spec_image, spec_title,
};
use crate::shortcut::{
    content_view, detect_format, parse_shortcut, spec_detect_format, spec_parse_shortcut,
};

verus! {

/// Why a fetch produced no document.
#[derive(Clone, Copy, PartialEq, Eq, Structural, Debug)]
pub enum FetchError {
    /// Connection, DNS or TLS failure.
    Network,
    /// A non-success HTTP status.
    Http,
    /// The body could not be read as text.
    Decode,
}

/// What a successful fetch hands back: the URL after all redirects, and the
/// raw document body.
pub struct FetchedPage {
    pub final_url: String,
    pub body: String,
}

/// The structured link metadata delivered for a resolved drop. The URL is
/// always present; every other field is independently optional.
pub struct LinkMetadata {
    pub url: String,
    pub title: Option<String>,
    pub description: Option<String>,
    pub image: Option<String>,
    pub favicon: Option<String>,
}

/// The mathematical shape of a `LinkMetadata`.
pub struct MetadataModel {
    pub url: Seq<char>,
    pub title: Option<Seq<char>>,
    pub description: Option<Seq<char>>,
    pub image: Option<Seq<char>>,
    pub favicon: Option<Seq<char>>,
}

impl View for LinkMetadata {
    type V = MetadataModel;

    open spec fn view(&self) -> MetadataModel {
        MetadataModel {
            url: self.url@,
            title: opt_view(self.title),
            description: opt_view(self.description),
            image: opt_view(self.image),
            favicon: opt_view(self.favicon),
        }
    }
}

/// The URL-only record emitted when a fetch fails after a target URL was
/// already parsed from the shortcut.
pub open spec fn spec_degraded(url: Seq<char>) -> MetadataModel {
    MetadataModel { url, title: None, description: None, image: None, favicon: None }
}

/// The full record for a fetched document: the final URL after redirects,
/// and each metadata field by its own fallback rules, the favicon resolved
/// against the final URL.
pub open spec fn spec_extracted(final_url: Seq<char>, body: Seq<char>) -> MetadataModel {
    MetadataModel {
        url: final_url,
        title: spec_title(body),
        description: spec_description(body),
        image: spec_image(body),
        favicon: spec_favicon(body, final_url),
    }
}

/// The view of a fetch outcome.
pub open spec fn fetched_view(f: Result<FetchedPage, FetchError>) -> Result<
    (Seq<char>, Seq<char>),
    FetchError,
> {
    match f {
        Ok(p) => Ok((p.final_url@, p.body@)),
        Err(e) => Err(e),
    }
}

/// What one drop resolves to: nothing for an unrecognized or unparseable
/// shortcut; otherwise a record — full after a successful fetch, URL-only
/// after a failed one. A fetch outcome reporting an empty final URL counts
/// as failed, so that a produced record never carries an empty URL.
pub open spec fn spec_resolution(
    path: Seq<char>,
    content: Option<Seq<char>>,
    fetched: Result<(Seq<char>, Seq<char>), FetchError>,
) -> Option<MetadataModel> {
    match spec_detect_format(path) {
        None => None,
        Some(f) => match spec_parse_shortcut(content, f) {
            Err(_) => None,
            Ok(u) => match fetched {
                Ok((final_url, body)) => {
                    if final_url.len() == 0 {
                        Some(spec_degraded(u))
                    } else {
                        Some(spec_extracted(final_url, body))
                    }
                },
                Err(_) => Some(spec_degraded(u)),
            },
        },
    }
}

/// Assemble the full record from a fetched document.
pub fn extract_metadata(final_url: &str, body: &str) -> (r: LinkMetadata)
    ensures
        r@ == spec_extracted(final_url@, body@),
{
    LinkMetadata {
        url: final_url.to_owned(),
        title: extract_title(body),
        description: extract_description(body),
        image: extract_image(body),
        favicon: extract_favicon(body, final_url),
    }
}

/// Resolve one dropped file. `path` is the dropped path; `content` its text,
/// or `None` where the file could not be read; `fetched` the outcome of one
/// HTTP GET of the parsed target URL. The caller performs the read and the
/// fetch; every decision is made and proved here. A produced record never
/// carries an empty URL.
pub fn handle_dropped_file(
    path: &str,
    content: Option<&str>,
    fetched: Result<FetchedPage, FetchError>,
) -> (r: Option<LinkMetadata>)
    ensures
        (match r {
            Some(m) => spec_resolution(path@, content_view(content), fetched_view(fetched))
                == Some(m@),
            None => spec_resolution(path@, content_view(content), fetched_view(fetched)) is None,
        }),
        (match r {
            Some(m) => m@.url.len() > 0,
            None => true,
        }),
{
    proof {
        lemma_url_never_empty(path@, content_view(content), fetched_view(fetched));
    }
    let format = match detect_format(path) {
        Some(f) => f,
        None => {
            return None;
        },
    };
    let url = match parse_shortcut(content, format) {
        Ok(u) => u,
        Err(_) => {
            return None;
        },
    };
    match fetched {
        Ok(page) => {
            if page.final_url.as_str().is_empty() {
                Some(
                    LinkMetadata { url, title: None, description: None, image: None, favicon: None },
                )
            } else {
                Some(extract_metadata(page.final_url.as_str(), page.body.as_str()))
            }
        },
        Err(_) => Some(
            LinkMetadata { url, title: None, description: None, image: None, favicon: None },
        ),
    }
}

/// Law: a produced record never carries an empty URL — whatever the path,
/// the content and the fetch outcome.
pub proof fn lemma_url_never_empty(
    path: Seq<char>,
    content: Option<Seq<char>>,
    fetched: Result<(Seq<char>, Seq<char>), FetchError>,
)
    ensures
        (match spec_resolution(path, content, fetched) {
            Some(m) => m.url.len() > 0,
            None => true,
        }),
{
}

/// Law: once a target URL is parsed from a recognized shortcut, a failing
/// fetch still yields exactly one record, carrying that URL and nothing
/// else.
pub proof fn lemma_degraded_on_fetch_failure(
    path: Seq<char>,
    content: Option<Seq<char>>,
    err: FetchError,
)
    requires
        spec_detect_format(path) is Some,
        spec_parse_shortcut(content, spec_detect_format(path)->Some_0) is Ok,
    ensures
        spec_resolution(path, content, Err(err)) == Some(
            spec_degraded(spec_parse_shortcut(content, spec_detect_format(path)->Some_0)->Ok_0),
        ),
{
}

/// Law: an unrecognized extension, an unreadable file or a shortcut without
/// a target produces nothing, whatever the fetch outcome.
pub proof fn lemma_silent_drop(
    path: Seq<char>,
    content: Option<Seq<char>>,
    fetched: Result<(Seq<char>, Seq<char>), FetchError>,
)
    requires
        spec_detect_format(path) is None || spec_parse_shortcut(
            content,
            spec_detect_format(path)->Some_0,
        ) is Err,
    ensures
        spec_resolution(path, content, fetched) is None,
{
}

} // verus!
