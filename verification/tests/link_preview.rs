use comm::link_preview::{
    first_url, is_youtube_host, meta_content, metadata_fetch_url, normalize_preview_url,
    parse_http_url, percent_encode, title_text, www_variant,
};

#[test]
fn first_url_trims_common_message_punctuation() {
    assert_eq!(
        first_url("watch this (https://youtu.be/example).").as_deref(),
        Some("https://youtu.be/example")
    );
}

#[test]
fn parse_http_url_rejects_non_http_urls() {
    assert!(parse_http_url("file:///tmp/test").is_none());
}

#[test]
fn meta_content_reads_open_graph_title() {
    let html = r#"<meta property="og:title" content="A &amp; B">"#;
    assert_eq!(
        meta_content(html, "property", "og:title").as_deref(),
        Some("A & B")
    );
}

#[test]
fn meta_content_reads_open_graph_image() {
    let html = r#"<meta property="og:image" content="https://example.com/thumb.jpg">"#;
    assert_eq!(
        meta_content(html, "property", "og:image").as_deref(),
        Some("https://example.com/thumb.jpg")
    );
}

#[test]
fn title_text_reads_document_title() {
    let html = "<html><head><title> Example page </title></head></html>";
    assert_eq!(title_text(html).as_deref(), Some("Example page"));
}

#[test]
fn metadata_fetch_url_rewrites_short_youtube_links() {
    let parsed = parse_http_url("https://youtu.be/abc123?si=test").unwrap();
    assert_eq!(
        metadata_fetch_url(&parsed),
        "https://www.youtube.com/watch?v=abc123"
    );
}

#[test]
fn youtube_hosts_are_detected() {
    assert!(is_youtube_host("www.youtube.com"));
    assert!(is_youtube_host("m.youtube.com"));
    assert!(is_youtube_host("youtu.be"));
    assert!(!is_youtube_host("notyoutube.com"));
}

#[test]
fn percent_encode_encodes_url_query_delimiters() {
    assert_eq!(
        percent_encode("https://www.youtube.com/watch?v=abc&x=1"),
        "https%3A%2F%2Fwww.youtube.com%2Fwatch%3Fv%3Dabc%26x%3D1"
    );
}

#[test]
fn www_variant_adds_www_to_plain_host() {
    let parsed = parse_http_url("https://example.com/a").unwrap();
    // "example.com" is not an IP address.
    assert_eq!(
        www_variant(&parsed, false).map(|parsed| parsed.url),
        Some("https://www.example.com/a".to_owned())
    );
}

#[test]
fn normalize_preview_url_accepts_protocol_relative_images() {
    let parsed = parse_http_url("https://example.com/a").unwrap();
    assert_eq!(
        normalize_preview_url("//cdn.example.com/image.jpg", &parsed),
        Some("https://cdn.example.com/image.jpg".to_owned())
    );
}
