use comm::pages::{chat_page, escape_html_attribute, login_page, LoginPageQuery};

fn query(error: Option<&str>, username: Option<&str>) -> LoginPageQuery {
    LoginPageQuery {
        error: error.map(str::to_owned),
        username: username.map(str::to_owned),
    }
}

#[test]
fn login_page_starts_with_search_step() {
    let html = login_page(&query(None, None));
    assert!(html.contains(r#"action="/start-login""#));
    assert!(html.contains(r#"name="q" type="search" autocomplete="off""#));
    assert!(html.contains(r#"aria-label="Search""#));
    assert!(html.contains(r#"data-delay-on-error="false""#));
    assert!(!html.contains("{{"));
    assert!(!html.contains(r#"type="hidden""#));
    assert!(!html.contains(r#"class="error""#));
}

#[test]
fn login_page_with_username_asks_for_password() {
    let html = login_page(&query(None, Some("alice")));
    assert!(html.contains(r#"action="/login""#));
    assert!(html.contains(r#"name="password" type="password" autocomplete="current-password""#));
    assert!(html.contains(r#"placeholder="Search" aria-label="Password""#));
    assert!(html.contains(r#"<input type="hidden" name="username" value="alice">"#));
    assert!(!html.contains("{{"));
}

#[test]
fn login_page_empty_username_stays_on_search_step() {
    let html = login_page(&query(Some("1"), Some("")));
    assert!(html.contains(r#"action="/start-login""#));
    assert!(html.contains(r#"data-delay-on-error="false""#));
    assert!(html.contains("Try again in a moment."));
}

#[test]
fn login_page_shows_errors() {
    let failed = login_page(&query(Some("1"), Some("alice")));
    assert!(failed.contains(r#"<p class="error" role="alert">Try again in a moment.</p>"#));
    assert!(failed.contains(r#"data-delay-on-error="true""#));

    let limited = login_page(&query(Some("rate_limited"), Some("alice")));
    assert!(limited.contains(
        r#"<p class="error" role="alert">Too many failed attempts. Try again shortly.</p>"#
    ));
    assert!(limited.contains(r#"data-delay-on-error="false""#));
}

#[test]
fn login_page_escapes_the_username() {
    let html = login_page(&query(None, Some(r#""><script>&"#)));
    assert!(html.contains(
        r#"<input type="hidden" name="username" value="&quot;&gt;&lt;script&gt;&amp;">"#
    ));
    assert!(!html.contains("<script>&"));
}

#[test]
fn html_attribute_escaping() {
    assert_eq!(escape_html_attribute(r#"a&b"c<d>e"#), "a&amp;b&quot;c&lt;d&gt;e");
    assert_eq!(escape_html_attribute("&amp;"), "&amp;amp;");
    assert_eq!(escape_html_attribute("plain é"), "plain é");
    assert_eq!(escape_html_attribute(""), "");
}

#[test]
fn chat_page_names_the_user() {
    let html = chat_page("alice");
    assert!(html.starts_with("<!doctype html>"));
    assert!(html.contains(r#"const currentUser = "alice";"#));
    assert!(!html.contains("{{username}}"));
    assert!(html.trim_end().ends_with("</html>"));
}
