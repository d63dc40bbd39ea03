use comm::auth::{login_error_redirect_location, login_start_redirect_location, percent_encode};
use comm::users::UserStore;

#[test]
fn start_login_known_username_goes_to_password_step() {
    let users = UserStore::from_usernames_for_tests(&["alice", "bob"]);

    assert_eq!(
        login_start_redirect_location(&users, "alice"),
        "/?username=alice"
    );
}

#[test]
fn start_login_unknown_username_goes_to_google_search() {
    let users = UserStore::from_usernames_for_tests(&["alice", "bob"]);

    assert_eq!(
        login_start_redirect_location(&users, "weather london"),
        "https://www.google.com/search?q=weather%20london"
    );
}

#[test]
fn start_login_trims_input_before_routing() {
    let users = UserStore::from_usernames_for_tests(&["alice", "bob"]);

    assert_eq!(
        login_start_redirect_location(&users, "  bob  "),
        "/?username=bob"
    );
}

#[test]
fn start_login_empty_input_returns_to_login_page() {
    let users = UserStore::from_usernames_for_tests(&["alice", "bob"]);

    assert_eq!(login_start_redirect_location(&users, "   "), "/");
}

#[test]
fn failed_password_returns_to_password_step() {
    assert_eq!(
        login_error_redirect_location("alice", "1"),
        "/?username=alice&error=1"
    );
}

#[test]
fn rate_limited_login_returns_to_password_step() {
    assert_eq!(
        login_error_redirect_location("alice", "rate_limited"),
        "/?username=alice&error=rate_limited"
    );
}

#[test]
fn redirect_values_are_percent_encoded() {
    assert_eq!(percent_encode("a b@example"), "a%20b%40example");
    assert_eq!(
        login_error_redirect_location("a b@example", "rate limited"),
        "/?username=a%20b%40example&error=rate%20limited"
    );
}
