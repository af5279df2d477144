use linkdrop::html::{extract_description, extract_favicon, extract_image, extract_title};
use linkdrop::resolve::{handle_dropped_file, FetchError, FetchedPage};
use linkdrop::shortcut::{detect_format, parse_shortcut, ParseError, ShortcutFormat};

#[test]
fn url_file_basic_line() {
    let content = "[InternetShortcut]\nURL=https://example.com/page\nIconIndex=0\n";
    let r = parse_shortcut(Some(content), ShortcutFormat::UrlFile);
    assert_eq!(r, Ok("https://example.com/page".to_string()));
}

#[test]
fn url_file_order_of_other_lines_is_irrelevant() {
    let a = parse_shortcut(
        Some("A=1\nB=2\nURL=https://example.com/page\n"),
        ShortcutFormat::UrlFile,
    );
    let b = parse_shortcut(
        Some("B=2\nURL=https://example.com/page\nA=1\n"),
        ShortcutFormat::UrlFile,
    );
    assert_eq!(a, Ok("https://example.com/page".to_string()));
    assert_eq!(b, Ok("https://example.com/page".to_string()));
}

#[test]
fn url_file_first_url_line_wins() {
    let r = parse_shortcut(
        Some("URL=https://first.example/\nURL=https://second.example/\n"),
        ShortcutFormat::UrlFile,
    );
    assert_eq!(r, Ok("https://first.example/".to_string()));
}

#[test]
fn url_file_value_is_trimmed() {
    let r = parse_shortcut(Some("URL=  https://example.com/  \r\n"), ShortcutFormat::UrlFile);
    assert_eq!(r, Ok("https://example.com/".to_string()));
}

#[test]
fn url_file_prefix_is_case_sensitive() {
    let r = parse_shortcut(Some("url=https://example.com/\n"), ShortcutFormat::UrlFile);
    assert_eq!(r, Err(ParseError::NoUrlField));
}

#[test]
fn webloc_basic_document() {
    let content = "<?xml version=\"1.0\" encoding=\"UTF-8\"?>\n<plist version=\"1.0\">\n<dict>\n  <key>URL</key>\n  <string>https://example.com</string>\n</dict>\n</plist>\n";
    let r = parse_shortcut(Some(content), ShortcutFormat::WeblocFile);
    assert_eq!(r, Ok("https://example.com".to_string()));
}

#[test]
fn webloc_first_string_element_wins() {
    let content = "<dict><string>https://first.example/</string><string>https://second.example/</string></dict>";
    let r = parse_shortcut(Some(content), ShortcutFormat::WeblocFile);
    assert_eq!(r, Ok("https://first.example/".to_string()));
}

#[test]
fn webloc_value_is_trimmed() {
    let r = parse_shortcut(
        Some("<string>\n  https://example.com\n</string>"),
        ShortcutFormat::WeblocFile,
    );
    assert_eq!(r, Ok("https://example.com".to_string()));
}

#[test]
fn webloc_without_close_tag_fails() {
    let r = parse_shortcut(Some("<string>https://example.com"), ShortcutFormat::WeblocFile);
    assert_eq!(r, Err(ParseError::NoUrlField));
}

#[test]
fn no_url_field_yields_parse_error() {
    assert_eq!(
        parse_shortcut(Some("[InternetShortcut]\nIconIndex=0\n"), ShortcutFormat::UrlFile),
        Err(ParseError::NoUrlField)
    );
    assert_eq!(
        parse_shortcut(Some("<dict><key>URL</key></dict>"), ShortcutFormat::WeblocFile),
        Err(ParseError::NoUrlField)
    );
}

#[test]
fn unreadable_content_yields_unreadable() {
    assert_eq!(parse_shortcut(None, ShortcutFormat::UrlFile), Err(ParseError::Unreadable));
    assert_eq!(parse_shortcut(None, ShortcutFormat::WeblocFile), Err(ParseError::Unreadable));
}

#[test]
fn detect_recognizes_known_extensions_case_insensitively() {
    assert_eq!(detect_format("/tmp/link.url"), Some(ShortcutFormat::UrlFile));
    assert_eq!(detect_format("/tmp/link.URL"), Some(ShortcutFormat::UrlFile));
    assert_eq!(detect_format("/tmp/link.webloc"), Some(ShortcutFormat::WeblocFile));
    assert_eq!(detect_format("/tmp/link.WebLoc"), Some(ShortcutFormat::WeblocFile));
    assert_eq!(detect_format("archive.tar.url"), Some(ShortcutFormat::UrlFile));
}

#[test]
fn detect_rejects_other_paths() {
    assert_eq!(detect_format("/tmp/notes.txt"), None);
    assert_eq!(detect_format("/tmp/noextension"), None);
    assert_eq!(detect_format("/tmp/.url"), None);
    assert_eq!(detect_format("/a.url/readme"), None);
    assert_eq!(detect_format(""), None);
}

#[test]
fn dropped_txt_file_produces_nothing() {
    let r = handle_dropped_file(
        "/tmp/notes.txt",
        Some("URL=https://example.com/\n"),
        Err(FetchError::Network),
    );
    assert!(r.is_none());
}

#[test]
fn unparseable_shortcut_produces_nothing() {
    let r = handle_dropped_file("/tmp/x.url", Some("nothing here\n"), Err(FetchError::Network));
    assert!(r.is_none());
    let r2 = handle_dropped_file("/tmp/x.url", None, Err(FetchError::Network));
    assert!(r2.is_none());
}

#[test]
fn failed_fetch_degrades_to_url_only() {
    let r = handle_dropped_file(
        "/drops/link.url",
        Some("URL=https://example.com/page\n"),
        Err(FetchError::Network),
    )
    .expect("a parsed URL must still be reported");
    assert_eq!(r.url, "https://example.com/page");
    assert_eq!(r.title, None);
    assert_eq!(r.description, None);
    assert_eq!(r.image, None);
    assert_eq!(r.favicon, None);
}

#[test]
fn direct_title_wins_over_og_title() {
    let body = "<html><head><title>Example</title><meta property=\"og:title\" content=\"Other\"></head><body></body></html>";
    assert_eq!(extract_title(body), Some("Example".to_string()));
}

#[test]
fn og_title_used_when_title_absent() {
    let body = "<html><head><meta property=\"og:title\" content=\"OG Title\"></head></html>";
    assert_eq!(extract_title(body), Some("OG Title".to_string()));
}

#[test]
fn og_title_used_when_title_blank() {
    let body = "<html><head><title>   </title><meta property=\"og:title\" content=\"OG Title\"></head></html>";
    assert_eq!(extract_title(body), Some("OG Title".to_string()));
}

#[test]
fn title_absent_when_no_source_exists() {
    assert_eq!(extract_title("<html><body><p>plain</p></body></html>"), None);
}

#[test]
fn title_text_is_trimmed() {
    let body = "<html><head><title>\n  Example  \n</title></head></html>";
    assert_eq!(extract_title(body), Some("Example".to_string()));
}

#[test]
fn description_prefers_meta_name() {
    let body = "<head><meta name=\"description\" content=\"Plain\"><meta property=\"og:description\" content=\"OG\"></head>";
    assert_eq!(extract_description(body), Some("Plain".to_string()));
}

#[test]
fn description_falls_back_to_og() {
    let body = "<head><meta property=\"og:description\" content=\"OG\"></head>";
    assert_eq!(extract_description(body), Some("OG".to_string()));
    assert_eq!(extract_description("<head></head>"), None);
}

#[test]
fn image_has_single_tier() {
    let body = "<head><meta property=\"og:image\" content=\"https://example.com/cover.png\"></head>";
    assert_eq!(extract_image(body), Some("https://example.com/cover.png".to_string()));
    assert_eq!(extract_image("<head></head>"), None);
}

#[test]
fn favicon_root_relative_resolves_against_site_root() {
    let body = "<head><link rel=\"icon\" href=\"/favicon.ico\"></head>";
    let r = extract_favicon(body, "https://example.com/dir/page");
    assert_eq!(r, Some("https://example.com/favicon.ico".to_string()));
}

#[test]
fn favicon_dir_relative_resolves_against_directory() {
    let body = "<head><link rel=\"icon\" href=\"icon.png\"></head>";
    let r = extract_favicon(body, "https://example.com/dir/page");
    assert_eq!(r, Some("https://example.com/dir/icon.png".to_string()));
}

#[test]
fn favicon_absolute_and_protocol_relative_kept_verbatim() {
    let body = "<head><link rel=\"icon\" href=\"https://cdn.example/i.ico\"></head>";
    assert_eq!(
        extract_favicon(body, "https://example.com/"),
        Some("https://cdn.example/i.ico".to_string())
    );
    let body2 = "<head><link rel=\"icon\" href=\"//cdn.example/i.ico\"></head>";
    assert_eq!(
        extract_favicon(body2, "https://example.com/"),
        Some("//cdn.example/i.ico".to_string())
    );
}

#[test]
fn favicon_raw_href_kept_when_resolution_fails() {
    let body = "<head><link rel=\"icon\" href=\"favicon.ico\"></head>";
    assert_eq!(extract_favicon(body, "not a url"), Some("favicon.ico".to_string()));
}

#[test]
fn favicon_rel_token_match_accepts_shortcut_icon() {
    let body = "<head><link rel=\"shortcut icon\" href=\"/f.ico\"></head>";
    assert_eq!(
        extract_favicon(body, "https://example.com/a/b"),
        Some("https://example.com/f.ico".to_string())
    );
}

#[test]
fn successful_fetch_produces_full_record_keyed_by_final_url() {
    let body = "<html><head><title>Example</title><meta name=\"description\" content=\"D\"><meta property=\"og:image\" content=\"https://img.example/i.png\"><link rel=\"icon\" href=\"/f.ico\"></head></html>";
    let fetched = Ok(FetchedPage {
        final_url: "https://final.example/dir/page".to_string(),
        body: body.to_string(),
    });
    let r = handle_dropped_file("/drops/link.url", Some("URL=https://short.example/\n"), fetched)
        .expect("a full record");
    assert_eq!(r.url, "https://final.example/dir/page");
    assert_eq!(r.title, Some("Example".to_string()));
    assert_eq!(r.description, Some("D".to_string()));
    assert_eq!(r.image, Some("https://img.example/i.png".to_string()));
    assert_eq!(r.favicon, Some("https://final.example/f.ico".to_string()));
}

#[test]
fn independent_drops_do_not_contaminate_each_other() {
    let first = handle_dropped_file(
        "/drops/a.url",
        Some("URL=https://a.example/\n"),
        Err(FetchError::Network),
    )
    .expect("first record");
    let second = handle_dropped_file(
        "/drops/b.webloc",
        Some("<string>https://b.example/</string>"),
        Err(FetchError::Http),
    )
    .expect("second record");
    assert_eq!(first.url, "https://a.example/");
    assert_eq!(second.url, "https://b.example/");
    assert_eq!(first.title, None);
    assert_eq!(second.title, None);
}

#[test]
fn empty_url_value_is_no_field() {
    assert_eq!(
        parse_shortcut(Some("URL=\n"), ShortcutFormat::UrlFile),
        Err(ParseError::NoUrlField)
    );
    assert_eq!(
        parse_shortcut(Some("URL=   \r\n"), ShortcutFormat::UrlFile),
        Err(ParseError::NoUrlField)
    );
    assert_eq!(
        parse_shortcut(Some("<string>  </string>"), ShortcutFormat::WeblocFile),
        Err(ParseError::NoUrlField)
    );
}

#[test]
fn empty_target_produces_nothing() {
    let r = handle_dropped_file("/drops/x.url", Some("URL=\n"), Err(FetchError::Network));
    assert!(r.is_none());
}

#[test]
fn unicode_whitespace_is_trimmed() {
    let r = parse_shortcut(
        Some("URL=\u{a0}https://example.com/\u{a0}\u{2002}\n"),
        ShortcutFormat::UrlFile,
    );
    assert_eq!(r, Ok("https://example.com/".to_string()));
}

#[test]
fn empty_final_url_degrades_to_parsed_url() {
    let fetched = Ok(FetchedPage {
        final_url: String::new(),
        body: "<title>Example</title>".to_string(),
    });
    let r = handle_dropped_file("/drops/link.url", Some("URL=https://example.com/\n"), fetched)
        .expect("a record keyed by the parsed URL");
    assert_eq!(r.url, "https://example.com/");
    assert_eq!(r.title, None);
    assert_eq!(r.description, None);
    assert_eq!(r.image, None);
    assert_eq!(r.favicon, None);
}
