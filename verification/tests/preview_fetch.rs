use comm::link_preview::{parse_http_url, LinkPreview, ParsedUrl};
use comm::preview_fetch::{
    download_command_args, preview_from_oembed_json, start_preview_fetch, step_preview_fetch,
    FetchAction, FetchEvent, PreviewFetch, MAX_HTML_BYTES, MAX_OEMBED_BYTES,
};

fn expect_check(action: FetchAction) -> ParsedUrl {
    match action {
        FetchAction::CheckHost(url) => url,
        other => panic!("expected a host check, got {other:?}"),
    }
}

fn expect_download(action: FetchAction) -> (ParsedUrl, usize) {
    match action {
        FetchAction::Download { url, max_bytes } => (url, max_bytes),
        other => panic!("expected a download, got {other:?}"),
    }
}

fn expect_finish(action: FetchAction) -> Option<LinkPreview> {
    match action {
        FetchAction::Finish(preview) => preview,
        other => panic!("expected the end, got {other:?}"),
    }
}

const PUBLIC: FetchEvent = FetchEvent::HostChecked { ip_literal: false, public: true };

#[test]
fn fetch_of_non_http_link_finishes_at_once() {
    let (state, action) = start_preview_fetch("ftp://example.com/file");
    assert!(matches!(state, PreviewFetch::Done));
    assert!(expect_finish(action).is_none());
}

#[test]
fn fetch_of_page_checks_host_then_downloads_then_reads_metadata() {
    let (state, action) = start_preview_fetch("https://example.com/a");
    assert_eq!(expect_check(action).host, "example.com");

    let (state, action) = step_preview_fetch(state, PUBLIC);
    let (url, max_bytes) = expect_download(action);
    assert_eq!(url.url, "https://example.com/a");
    assert_eq!(max_bytes, MAX_HTML_BYTES);
    assert_eq!(MAX_HTML_BYTES, 64 * 1024);

    let html = r#"<meta property="og:title" content="Hello"><meta property="og:image" content="/img.png">"#;
    let (state, action) = step_preview_fetch(state, FetchEvent::Downloaded(Some(html.to_owned())));
    assert!(matches!(state, PreviewFetch::Done));
    let preview = expect_finish(action).unwrap();
    assert_eq!(preview.url, "https://example.com/a");
    assert_eq!(preview.title.as_deref(), Some("Hello"));
    assert_eq!(preview.description, None);
    assert_eq!(preview.site_name.as_deref(), Some("example.com"));
    assert_eq!(preview.image_url.as_deref(), Some("https://example.com/img.png"));
}

#[test]
fn fetch_stops_when_host_is_not_public() {
    let (state, _) = start_preview_fetch("http://example.com/");
    let (state, action) =
        step_preview_fetch(state, FetchEvent::HostChecked { ip_literal: false, public: false });
    assert!(matches!(state, PreviewFetch::Done));
    assert!(expect_finish(action).is_none());
}

#[test]
fn fetch_without_metadata_gives_no_preview() {
    let (state, _) = start_preview_fetch("https://example.com/a");
    let (state, _) = step_preview_fetch(state, PUBLIC);
    let (_, action) =
        step_preview_fetch(state, FetchEvent::Downloaded(Some("<p>nothing</p>".to_owned())));
    assert!(expect_finish(action).is_none());
}

#[test]
fn failed_download_falls_back_to_www_host() {
    let (state, _) = start_preview_fetch("https://example.com/a");
    let (state, _) = step_preview_fetch(state, PUBLIC);
    let (state, action) = step_preview_fetch(state, FetchEvent::Downloaded(None));
    let fallback = expect_check(action);
    assert_eq!(fallback.url, "https://www.example.com/a");

    let (state, action) = step_preview_fetch(state, PUBLIC);
    let (url, max_bytes) = expect_download(action);
    assert_eq!(url.url, "https://www.example.com/a");
    assert_eq!(max_bytes, MAX_HTML_BYTES);

    let (_, action) = step_preview_fetch(
        state,
        FetchEvent::Downloaded(Some("<title>Fallback</title>".to_owned())),
    );
    let preview = expect_finish(action).unwrap();
    assert_eq!(preview.url, "https://example.com/a");
    assert_eq!(preview.title.as_deref(), Some("Fallback"));
}

#[test]
fn ip_address_hosts_get_no_www_fallback() {
    let (state, _) = start_preview_fetch("http://93.184.216.34/a");
    let (state, _) =
        step_preview_fetch(state, FetchEvent::HostChecked { ip_literal: true, public: true });
    let (state, action) = step_preview_fetch(state, FetchEvent::Downloaded(None));
    assert!(matches!(state, PreviewFetch::Done));
    assert!(expect_finish(action).is_none());
}

#[test]
fn youtube_links_try_oembed_first() {
    let (state, action) = start_preview_fetch("https://youtu.be/abc123");
    let endpoint = expect_check(action);
    assert_eq!(
        endpoint.url,
        "https://www.youtube.com/oembed?url=https%3A%2F%2Fyoutu.be%2Fabc123&format=json"
    );
    let (state, action) = step_preview_fetch(state, PUBLIC);
    let (_, max_bytes) = expect_download(action);
    assert_eq!(max_bytes, MAX_OEMBED_BYTES);
    assert_eq!(MAX_OEMBED_BYTES, 16 * 1024);

    let json = r#"{"title":"  A   video ","provider_name":"YouTube","thumbnail_url":"https://i.ytimg.com/vi/abc123/hqdefault.jpg"}"#;
    let (state, action) = step_preview_fetch(state, FetchEvent::Downloaded(Some(json.to_owned())));
    assert!(matches!(state, PreviewFetch::Done));
    let preview = expect_finish(action).unwrap();
    assert_eq!(preview.url, "https://youtu.be/abc123");
    assert_eq!(preview.title.as_deref(), Some("A video"));
    assert_eq!(preview.site_name.as_deref(), Some("YouTube"));
    assert_eq!(
        preview.image_url.as_deref(),
        Some("https://i.ytimg.com/vi/abc123/hqdefault.jpg")
    );
}

#[test]
fn youtube_oembed_failure_falls_back_to_watch_page() {
    let (state, _) = start_preview_fetch("https://youtu.be/abc123");
    let (state, _) = step_preview_fetch(state, PUBLIC);
    let (_, action) =
        step_preview_fetch(state, FetchEvent::Downloaded(Some("not json".to_owned())));
    let page = expect_check(action);
    assert_eq!(page.url, "https://www.youtube.com/watch?v=abc123");
}

#[test]
fn oembed_answer_fields_are_optional() {
    let parsed = parse_http_url("https://www.youtube.com/watch?v=x").unwrap();
    let preview = preview_from_oembed_json(&parsed, r#"{"thumbnail_url":"javascript:x"}"#).unwrap();
    assert_eq!(preview.title, None);
    assert_eq!(preview.site_name.as_deref(), Some("YouTube"));
    assert_eq!(preview.image_url, None);
    assert!(preview_from_oembed_json(&parsed, "{").is_none());
    let not_object = preview_from_oembed_json(&parsed, "[1, 2]").unwrap();
    assert_eq!(not_object.title, None);
}

#[test]
fn report_of_wrong_kind_ends_fetch() {
    let (state, _) = start_preview_fetch("https://example.com/a");
    let (state, action) = step_preview_fetch(state, FetchEvent::Downloaded(None));
    assert!(matches!(state, PreviewFetch::Done));
    assert!(expect_finish(action).is_none());
}

#[test]
fn download_arguments_cap_the_range() {
    let args = download_command_args("https://example.com/", MAX_HTML_BYTES);
    assert_eq!(
        args,
        vec![
            "--silent",
            "--show-error",
            "--fail",
            "--max-time",
            "4",
            "--proto",
            "=http,https",
            "--range",
            "0-65535",
            "--user-agent",
            "CommLinkPreview/1.0",
            "https://example.com/",
        ]
    );
    assert_eq!(download_command_args("u", 1)[8], "0-0");
    assert_eq!(download_command_args("u", 10)[8], "0-9");
    assert_eq!(download_command_args("u", 16 * 1024)[8], "0-16383");
}
