//! Metadata extraction from a fetched document: title, description, preview
//! image and favicon, each by an ordered fallback over CSS selectors, with
//! relative favicon references resolved against the page's base URL.
//!
//! The HTML tree construction and selector matching are the work of the
//! `scraper` crate, and relative-URL resolution of the `url` crate; both sit
//! behind trusted wrappers whose results are named, deterministic functions
//! of their string arguments. Every fallback decision is made here, in
//! verified code.

use vstd::prelude::*;
use crate::text::{starts_with, str_starts_with, trim, trim_str};
use vstd::string::StrSliceExecFns;

verus! {

/// The concatenated text of the first element of an HTML document matching a
/// CSS selector, or nothing if the selector is invalid or matches no element.
pub uninterp spec fn first_text(html: Seq<char>, selector: Seq<char>) -> Option<Seq<char>>;

/// The value of an attribute on the first element of an HTML document
/// matching a CSS selector, or nothing if the selector is invalid, matches
/// no element, or the element lacks the attribute.
pub uninterp spec fn first_attr(html: Seq<char>, selector: Seq<char>, attr: Seq<char>) -> Option<
    Seq<char>,
>;

/// Standard relative-URL resolution of `rel` against `base`, or nothing if
/// `base` is not an absolute URL or the resolution fails.
pub uninterp spec fn joined(base: Seq<char>, rel: Seq<char>) -> Option<Seq<char>>;

/// Relies on scraper: `Html::parse_document` builds a tree from arbitrary
/// input best-effort, `Selector::parse` compiles the selector,
/// `Html::select` walks matches in document order and `ElementRef::text`
/// iterates an element's descendant text nodes, concatenated here. The
/// result depends on the two arguments alone; `first_text` names it.
#[verifier::external_body]
fn select_first_text(html: &str, selector: &str) -> (r: Option<String>)
    ensures
        (match r {
            Some(t) => first_text(html@, selector@) == Some(t@),
            None => first_text(html@, selector@) is None,
        }),
{
    let sel = match scraper::Selector::parse(selector) {
        Ok(s) => s,
        Err(_) => return None,
    };
    let doc = scraper::Html::parse_document(html);
    doc.select(&sel).next().map(|e| e.text().collect::<String>())
}

/// Relies on scraper: as `select_first_text`, with `ElementRef::attr`
/// reading one attribute of the first matching element. The result depends
/// on the three arguments alone; `first_attr` names it.
#[verifier::external_body]
fn select_first_attr(html: &str, selector: &str, attr: &str) -> (r: Option<String>)
    ensures
        (match r {
            Some(v) => first_attr(html@, selector@, attr@) == Some(v@),
            None => first_attr(html@, selector@, attr@) is None,
        }),
{
    let sel = match scraper::Selector::parse(selector) {
        Ok(s) => s,
        Err(_) => return None,
    };
    let doc = scraper::Html::parse_document(html);
    doc.select(&sel).next().and_then(|e| e.attr(attr)).map(|v| v.to_string())
}

/// Relies on url: `Url::parse` on the base and `Url::join` on the
/// reference, serialized back with `Display`. The result depends on the two
/// arguments alone; `joined` names it.
#[verifier::external_body]
fn join_url(base: &str, rel: &str) -> (r: Option<String>)
    ensures
        (match r {
            Some(u) => joined(base@, rel@) == Some(u@),
            None => joined(base@, rel@) is None,
        }),
{
    match url::Url::parse(base) {
        Ok(b) => match b.join(rel) {
            Ok(u) => Some(u.to_string()),
            Err(_) => None,
        },
        Err(_) => None,
    }
}

/// The view of an optional owned string.
pub open spec fn opt_view(o: Option<String>) -> Option<Seq<char>> {
    match o {
        Some(s) => Some(s@),
        None => None,
    }
}

/// The extracted title: the first `<title>` element's text, trimmed, if
/// non-blank; otherwise the `content` of `meta[property="og:title"]`.
pub open spec fn spec_title(body: Seq<char>) -> Option<Seq<char>> {
    match first_text(body, "title"@) {
        Some(t) => {
            if trim(t).len() > 0 {
                Some(trim(t))
            } else {
                first_attr(body, "meta[property=\"og:title\"]"@, "content"@)
            }
        },
        None => first_attr(body, "meta[property=\"og:title\"]"@, "content"@),
    }
}

/// The extracted description: the `content` of `meta[name="description"]`,
/// else of `meta[property="og:description"]`.
pub open spec fn spec_description(body: Seq<char>) -> Option<Seq<char>> {
    match first_attr(body, "meta[name=\"description\"]"@, "content"@) {
        Some(d) => Some(d),
        None => first_attr(body, "meta[property=\"og:description\"]"@, "content"@),
    }
}

/// The extracted preview image: the `content` of `meta[property="og:image"]`,
/// with no fallback tier.
pub open spec fn spec_image(body: Seq<char>) -> Option<Seq<char>> {
    first_attr(body, "meta[property=\"og:image\"]"@, "content"@)
}

/// A favicon reference as finally reported: taken verbatim when absolute
/// (`http…`) or protocol-relative (`//…`), else resolved against the base
/// URL, falling back to the raw reference when resolution fails.
pub open spec fn spec_resolved(base: Seq<char>, href: Seq<char>) -> Seq<char> {
    if starts_with(href, "http"@) || starts_with(href, "//"@) {
        href
    } else {
        match joined(base, href) {
            Some(u) => u,
            None => href,
        }
    }
}

/// The extracted favicon: the `href` of the first `link[rel~="icon"]`
/// element (a whitespace-token match on `rel`), resolved per `spec_resolved`.
pub open spec fn spec_favicon(body: Seq<char>, base: Seq<char>) -> Option<Seq<char>> {
    match first_attr(body, "link[rel~=\"icon\"]"@, "href"@) {
        None => None,
        Some(h) => Some(spec_resolved(base, h)),
    }
}

/// Title with its fallback tier: a direct `<title>` wins when non-blank.
pub fn extract_title(body: &str) -> (r: Option<String>)
    ensures
        opt_view(r) == spec_title(body@),
{
    match select_first_text(body, "title") {
        Some(t) => {
            let tt = trim_str(t.as_str());
            if tt.unicode_len() > 0 {
                Some(tt)
            } else {
                select_first_attr(body, "meta[property=\"og:title\"]", "content")
            }
        },
        None => select_first_attr(body, "meta[property=\"og:title\"]", "content"),
    }
}

/// Description with its fallback tier.
pub fn extract_description(body: &str) -> (r: Option<String>)
    ensures
        opt_view(r) == spec_description(body@),
{
    match select_first_attr(body, "meta[name=\"description\"]", "content") {
        Some(d) => Some(d),
        None => select_first_attr(body, "meta[property=\"og:description\"]", "content"),
    }
}

/// Preview image, a single tier.
pub fn extract_image(body: &str) -> (r: Option<String>)
    ensures
        opt_view(r) == spec_image(body@),
{
    select_first_attr(body, "meta[property=\"og:image\"]", "content")
}

/// Resolution of a favicon reference against the page's base URL.
pub fn resolve_href(base: &str, href: &str) -> (r: String)
    ensures
        r@ == spec_resolved(base@, href@),
{
    if str_starts_with(href, "http") || str_starts_with(href, "//") {
        href.to_owned()
    } else {
        match join_url(base, href) {
            Some(u) => u,
            None => href.to_owned(),
        }
    }
}

/// Favicon: first icon link, resolved.
pub fn extract_favicon(body: &str, base: &str) -> (r: Option<String>)
    ensures
        opt_view(r) == spec_favicon(body@, base@),
{
    match select_first_attr(body, "link[rel~=\"icon\"]", "href") {
        None => None,
        Some(href) => Some(resolve_href(base, href.as_str())),
    }
}

/// Law: a non-blank document `<title>` wins over the Open Graph fallback.
pub proof fn lemma_title_priority(body: Seq<char>, t: Seq<char>)
    requires
        first_text(body, "title"@) == Some(t),
        trim(t).len() > 0,
    ensures
        spec_title(body) == Some(trim(t)),
{
}

/// Law: with no usable `<title>` — absent, or blank after trimming — the
/// title is exactly the Open Graph title, present or not.
pub proof fn lemma_title_fallback(body: Seq<char>)
    requires
        first_text(body, "title"@) is None || trim(first_text(body, "title"@)->Some_0).len() == 0,
    ensures
        spec_title(body) == first_attr(body, "meta[property=\"og:title\"]"@, "content"@),
{
}

} // verus!
