//! Shortcut-file handling: classification of a dropped path into one of the
//! two recognized shortcut formats, and extraction of the embedded target
//! URL from a file's content.

use vstd::prelude::*;
use crate::text::{
    first_match, last_index_of, lower, matches_at, range_lower_eq, rfind_char, starts_with,
    str_starts_with, trim, trim_str, find_char, find_substr,
};
use vstd::string::StrSliceExecFns;

verus! {

/// The two recognized shortcut-file formats; any other extension is
/// unrecognized and the drop is ignored.
#[derive(Clone, Copy, PartialEq, Eq, Structural, Debug)]
pub enum ShortcutFormat {
    UrlFile,
    WeblocFile,
}

/// Why no target URL could be taken from a shortcut file.
#[derive(Clone, Copy, PartialEq, Eq, Structural, Debug)]
pub enum ParseError {
    /// The file could not be read as text.
    Unreadable,
    /// The file holds no `URL=` line, or no `<string>` element, or the
    /// target it names is empty.
    NoUrlField,
}

/// Index of the first `'\n'` at or after `from`, or the length if none.
pub open spec fn first_nl(s: Seq<char>, from: int) -> int
    recommends
        0 <= from <= s.len(),
    decreases s.len() - from + 1,
{
    if from < 0 || from >= s.len() {
        s.len() as int
    } else if s[from] == '\n' {
        from
    } else {
        first_nl(s, from + 1)
    }
}

proof fn lemma_first_nl_props(s: Seq<char>, from: int)
    requires
        0 <= from <= s.len(),
    ensures
        from <= first_nl(s, from) <= s.len(),
        forall|j: int| from <= j < first_nl(s, from) ==> s[j] != '\n',
        first_nl(s, from) < s.len() ==> s[first_nl(s, from)] == '\n',
    decreases s.len() - from,
{
    if from < s.len() && s[from] != '\n' {
        lemma_first_nl_props(s, from + 1);
    }
}

proof fn lemma_first_nl_is(s: Seq<char>, from: int, e: int)
    requires
        0 <= from <= e <= s.len(),
        forall|j: int| from <= j < e ==> s[j] != '\n',
        e == s.len() || s[e] == '\n',
    ensures
        first_nl(s, from) == e,
    decreases e - from,
{
    if from < e {
        lemma_first_nl_is(s, from + 1, e);
    }
}

/// The target a single line yields: the remainder after the (case-sensitive)
/// `URL=` prefix, trimmed, or nothing if the prefix is absent.
pub open spec fn url_line_value(line: Seq<char>) -> Option<Seq<char>> {
    if starts_with(line, "URL="@) {
        Some(trim(line.skip("URL="@.len() as int)))
    } else {
        None
    }
}

/// The target of a `.url` file: scan the lines in order and return the value
/// of the first one carrying the `URL=` prefix.
pub open spec fn url_file_target(s: Seq<char>) -> Option<Seq<char>>
    decreases s.len(),
    via url_file_target_dec
{
    if s.len() == 0 {
        None
    } else {
        let e = first_nl(s, 0);
        match url_line_value(s.subrange(0, e)) {
            Some(v) => Some(v),
            None => {
                if e >= s.len() {
                    None
                } else {
                    url_file_target(s.subrange(e + 1, s.len() as int))
                }
            },
        }
    }
}

#[via_fn]
proof fn url_file_target_dec(s: Seq<char>) {
    if s.len() > 0 {
        lemma_first_nl_props(s, 0);
    }
}

/// The target of a `.webloc` document: the text strictly between the first
/// `<string>` and the first `</string>` after it, trimmed. A deliberately
/// lenient substring scan, not an XML parse.
pub open spec fn webloc_target(s: Seq<char>) -> Option<Seq<char>> {
    match first_match(s, "<string>"@, 0) {
        None => None,
        Some(i) => {
            let after = i + "<string>"@.len();
            match first_match(s, "</string>"@, after) {
                None => None,
                Some(e) => Some(trim(s.subrange(after, e))),
            }
        },
    }
}

/// The target URL a shortcut file's content yields under a given format.
pub open spec fn target_of(content: Seq<char>, format: ShortcutFormat) -> Option<Seq<char>> {
    match format {
        ShortcutFormat::UrlFile => url_file_target(content),
        ShortcutFormat::WeblocFile => webloc_target(content),
    }
}

/// Line-oriented scan of a `.url` file for the first `URL=` line.
pub fn parse_url_file(content: &str) -> (r: Option<String>)
    ensures
        (match r {
            Some(u) => url_file_target(content@) == Some(u@),
            None => url_file_target(content@) is None,
        }),
    decreases content@.len(),
{
    let n = content.unicode_len();
    if n == 0 {
        return None;
    }
    let e = match find_char(content, 0, '\n') {
        Some(i) => i,
        None => n,
    };
    proof {
        lemma_first_nl_is(content@, 0, e as int);
    }
    let line = content.substring_char(0, e);
    if str_starts_with(line, "URL=") {
        proof {
            reveal_strlit("URL=");
        }
        let m = line.unicode_len();
        let v = trim_str(line.substring_char(4, m));
        proof {
            assert(line@.subrange(4, line@.len() as int) =~= line@.skip(4));
        }
        Some(v)
    } else if e >= n {
        None
    } else {
        parse_url_file(content.substring_char(e + 1, n))
    }
}

/// Substring scan of a `.webloc` document for the first `<string>` element.
pub fn parse_webloc(content: &str) -> (r: Option<String>)
    ensures
        (match r {
            Some(u) => webloc_target(content@) == Some(u@),
            None => webloc_target(content@) is None,
        }),
{
    let n = content.unicode_len();
    let open_tag = "<string>";
    let close_tag = "</string>";
    proof {
        reveal_strlit("<string>");
        reveal_strlit("</string>");
    }
    match find_substr(content, 0, open_tag) {
        None => None,
        Some(i) => {
            proof {
                assert(open_tag@.len() == 8);
            }
            let after = i + 8;
            match find_substr(content, after, close_tag) {
                None => None,
                Some(e) => Some(trim_str(content.substring_char(after, e))),
            }
        },
    }
}

/// The view of an optionally readable file content.
pub open spec fn content_view(content: Option<&str>) -> Option<Seq<char>> {
    match content {
        Some(s) => Some(s@),
        None => None,
    }
}

/// What `parse_shortcut` returns: the target URL of a readable file, or the
/// error that names what went wrong. A target that is empty after trimming
/// counts as no URL field at all: a produced URL is never empty.
pub open spec fn spec_parse_shortcut(content: Option<Seq<char>>, format: ShortcutFormat) -> Result<
    Seq<char>,
    ParseError,
> {
    match content {
        None => Err(ParseError::Unreadable),
        Some(s) => match target_of(s, format) {
            Some(u) => {
                if u.len() == 0 {
                    Err(ParseError::NoUrlField)
                } else {
                    Ok(u)
                }
            },
            None => Err(ParseError::NoUrlField),
        },
    }
}

/// Extract the target URL embedded in a shortcut file. `content` is the
/// file's text, or `None` where it could not be read as text; the read
/// itself is the caller's concern.
pub fn parse_shortcut(content: Option<&str>, format: ShortcutFormat) -> (r: Result<
    String,
    ParseError,
>)
    ensures
        (match r {
            Ok(u) => spec_parse_shortcut(content_view(content), format) == Ok::<
                Seq<char>,
                ParseError,
            >(u@),
            Err(e) => spec_parse_shortcut(content_view(content), format) == Err::<
                Seq<char>,
                ParseError,
            >(e),
        }),
{
    match content {
        None => Err(ParseError::Unreadable),
        Some(s) => {
            let t = match format {
                ShortcutFormat::UrlFile => parse_url_file(s),
                ShortcutFormat::WeblocFile => parse_webloc(s),
            };
            match t {
                Some(u) => {
                    if u.as_str().is_empty() {
                        Err(ParseError::NoUrlField)
                    } else {
                        Ok(u)
                    }
                },
                None => Err(ParseError::NoUrlField),
            }
        },
    }
}

/// The final path component, the part after the last `/`.
pub open spec fn file_name_of(p: Seq<char>) -> Seq<char> {
    match last_index_of(p, '/') {
        Some(i) => p.subrange(i + 1, p.len() as int),
        None => p,
    }
}

/// The extension of a path: what follows the last `.` of the file name,
/// unless that `.` starts the name (a hidden file has no extension).
pub open spec fn ext_of_path(p: Seq<char>) -> Option<Seq<char>> {
    let name = file_name_of(p);
    match last_index_of(name, '.') {
        None => None,
        Some(d) => {
            if d == 0 {
                None
            } else {
                Some(name.subrange(d + 1, name.len() as int))
            }
        },
    }
}

/// The format an extension names, compared case-insensitively.
pub open spec fn format_of_ext(ext: Seq<char>) -> Option<ShortcutFormat> {
    if lower(ext) == "url"@ {
        Some(ShortcutFormat::UrlFile)
    } else if lower(ext) == "webloc"@ {
        Some(ShortcutFormat::WeblocFile)
    } else {
        None
    }
}

/// The format a dropped path names through its extension, if any.
pub open spec fn spec_detect_format(path: Seq<char>) -> Option<ShortcutFormat> {
    match ext_of_path(path) {
        None => None,
        Some(e) => format_of_ext(e),
    }
}

/// Classify a dropped path by its file extension, case-insensitively.
pub fn detect_format(path: &str) -> (r: Option<ShortcutFormat>)
    ensures
        r == spec_detect_format(path@),
{
    let n = path.unicode_len();
    let start = match rfind_char(path, '/') {
        Some(i) => i + 1,
        None => 0,
    };
    let name = path.substring_char(start, n);
    proof {
        assert(name@ =~= file_name_of(path@));
    }
    match rfind_char(name, '.') {
        None => None,
        Some(d) => {
            if d == 0 {
                None
            } else {
                let m = name.unicode_len();
                if range_lower_eq(name, d + 1, m, "url") {
                    Some(ShortcutFormat::UrlFile)
                } else if range_lower_eq(name, d + 1, m, "webloc") {
                    Some(ShortcutFormat::WeblocFile)
                } else {
                    None
                }
            }
        },
    }
}

/// A line-oriented file: the given lines, each followed by a newline.
pub open spec fn join_lines(lines: Seq<Seq<char>>) -> Seq<char>
    decreases lines.len(),
{
    if lines.len() == 0 {
        Seq::empty()
    } else {
        lines[0] + seq!['\n'] + join_lines(lines.drop_first())
    }
}

/// Law: for a file of lines whose first `URL=` line stands at position `k`,
/// parsing returns exactly that line's remainder, trimmed — whatever the
/// other lines hold and in whatever order they come.
pub proof fn lemma_url_file_law(lines: Seq<Seq<char>>, k: int)
    requires
        0 <= k < lines.len(),
        forall|i: int| 0 <= i < lines.len() ==> !(#[trigger] lines[i]).contains('\n'),
        forall|i: int| 0 <= i < k ==> !starts_with(#[trigger] lines[i], "URL="@),
        starts_with(lines[k], "URL="@),
    ensures
        url_file_target(join_lines(lines)) == Some(trim(lines[k].skip("URL="@.len() as int))),
    decreases k,
{
    let rest = lines.drop_first();
    assert(forall|i: int| 0 <= i < rest.len() ==> #[trigger] rest[i] == lines[i + 1]);
    if k == 0 {
        lemma_url_first_line(lines[0], join_lines(rest));
    } else {
        lemma_url_other_line(lines[0], join_lines(rest));
        lemma_url_file_law(rest, k - 1);
    }
}

/// Law: a `.url` file whose first line carries the `URL=` prefix parses to
/// that line's remainder, trimmed, whatever the later lines hold.
pub proof fn lemma_url_first_line(line: Seq<char>, rest: Seq<char>)
    requires
        !line.contains('\n'),
        starts_with(line, "URL="@),
    ensures
        url_file_target(line + seq!['\n'] + rest) == Some(trim(line.skip("URL="@.len() as int))),
{
    let s = line + seq!['\n'] + rest;
    assert(forall|j: int| 0 <= j < line.len() ==> s[j] == line[j]);
    assert(forall|j: int| 0 <= j < line.len() ==> s[j] != '\n');
    lemma_first_nl_is(s, 0, line.len() as int);
    assert(s.subrange(0, line.len() as int) =~= line);
    reveal_strlit("URL=");
    assert(s.subrange(0, line.len() as int).skip(4) =~= line.skip(4));
}

/// Law: a leading line without the `URL=` prefix does not affect the result:
/// parsing continues with the remaining lines, whatever the line holds.
pub proof fn lemma_url_other_line(line: Seq<char>, rest: Seq<char>)
    requires
        !line.contains('\n'),
        !starts_with(line, "URL="@),
    ensures
        url_file_target(line + seq!['\n'] + rest) == url_file_target(rest),
{
    let s = line + seq!['\n'] + rest;
    assert(forall|j: int| 0 <= j < line.len() ==> s[j] == line[j]);
    assert(forall|j: int| 0 <= j < line.len() ==> s[j] != '\n');
    lemma_first_nl_is(s, 0, line.len() as int);
    assert(s.subrange(0, line.len() as int) =~= line);
    assert(s.subrange(line.len() as int + 1, s.len() as int) =~= rest);
}

/// Law: the first `<string>` element wins. For a document assembled around a
/// first `<string>…</string>` pair — no `<string>` occurs earlier, and the
/// enclosed text holds no `</string>` — parsing returns that text, trimmed,
/// whatever surrounds the pair.
pub proof fn lemma_webloc_between_tags(pre: Seq<char>, mid: Seq<char>, post: Seq<char>)
    requires
        ({
            let s = pre + "<string>"@ + mid + "</string>"@ + post;
            &&& (forall|j: int| 0 <= j < pre.len() ==> !matches_at(s, "<string>"@, j))
            &&& (forall|j: int|
                pre.len() + "<string>"@.len() <= j < pre.len() + "<string>"@.len() + mid.len()
                    ==> !matches_at(s, "</string>"@, j))
        }),
    ensures
        webloc_target(pre + "<string>"@ + mid + "</string>"@ + post) == Some(trim(mid)),
{
    let s = pre + "<string>"@ + mid + "</string>"@ + post;
    reveal_strlit("<string>");
    reveal_strlit("</string>");
    let i = pre.len() as int;
    let after = i + "<string>"@.len();
    let e = after + mid.len();
    assert(s.subrange(i, i + "<string>"@.len() as int) =~= "<string>"@);
    crate::text::lemma_first_match_is(s, "<string>"@, 0, Some(i));
    assert(s.subrange(e, e + "</string>"@.len() as int) =~= "</string>"@);
    crate::text::lemma_first_match_is(s, "</string>"@, after, Some(e));
    assert(s.subrange(after, e) =~= mid);
}

} // verus!
