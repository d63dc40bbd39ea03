use argon2::{Algorithm, Argon2, Params, PasswordHasher, Version};
use comm::auth::{
    allowed_image_mime_type, attachment_size_accepted, create_session_token, session_cookie,
    session_token, AppState, LoginOutcome, PasswordCheck, MAX_ATTACHMENT_BYTES,
    MAX_FAILED_LOGIN_ATTEMPTS, LOGIN_COOLDOWN_MS,
};
use comm::users::UserStore;
use password_hash::SaltString;

fn cheap_hash(password: &str) -> String {
    let salt = SaltString::generate(&mut rand_core::OsRng);
    Argon2::new(Algorithm::Argon2id, Version::V0x13, Params::new(8, 1, 1, None).unwrap())
        .hash_password(password.as_bytes(), &salt)
        .unwrap()
        .to_string()
}

fn users() -> UserStore {
    let file = format!(
        "[[user]]\nusername = \"u1\"\npassword_hash = \"{}\"\n\n[[user]]\nusername = \"u2\"\npassword_hash = \"{}\"\n",
        cheap_hash("u1p"),
        cheap_hash("u2p")
    );
    UserStore::from_users_file(&file).unwrap()
}

fn state() -> AppState {
    AppState::new(users())
}

fn sign_in(state: &mut AppState, username: &str, password: &str, now: u64) -> String {
    match state.login(username, password, now) {
        LoginOutcome::SignedIn { token } => token,
        LoginOutcome::Refused { location } => panic!("login refused: {location}"),
    }
}

fn refused_location(outcome: LoginOutcome) -> String {
    match outcome {
        LoginOutcome::Refused { location } => location,
        LoginOutcome::SignedIn { .. } => panic!("login unexpectedly succeeded"),
    }
}

#[test]
fn passwords_are_checked_against_the_users_hashes() {
    let users = users();
    assert!(users.verify_credentials("u1", "u1p"));
    assert!(users.verify_credentials("u2", "u2p"));
    assert!(!users.verify_credentials("u1", "u2p"));
    assert!(!users.verify_credentials("u3", "u3p"));
    assert!(!users.verify_credentials("", ""));
}

#[test]
fn only_photo_types_are_accepted_for_upload() {
    for mime in ["image/jpeg", "image/png", "image/webp", "image/gif", "image/heic", "image/heif"] {
        assert!(allowed_image_mime_type(mime), "{mime}");
    }
    assert!(!allowed_image_mime_type("image/svg+xml"));
    assert!(!allowed_image_mime_type("IMAGE/PNG"));
    assert!(!allowed_image_mime_type(""));
}

#[test]
fn upload_size_must_be_positive_and_bounded() {
    assert!(!attachment_size_accepted(0));
    assert!(attachment_size_accepted(1));
    assert!(attachment_size_accepted(MAX_ATTACHMENT_BYTES));
    assert!(!attachment_size_accepted(MAX_ATTACHMENT_BYTES + 1));
    assert_eq!(MAX_ATTACHMENT_BYTES, 20 * 1024 * 1024);
}

#[test]
fn session_token_is_read_from_any_cookie_position() {
    assert_eq!(session_token("comm_session=abc").as_deref(), Some("abc"));
    assert_eq!(
        session_token("theme=dark; comm_session=abc; lang=en").as_deref(),
        Some("abc")
    );
    assert_eq!(session_token("  comm_session=abc  ").as_deref(), Some("abc"));
    assert_eq!(session_token("comm_session=").as_deref(), Some(""));
    assert_eq!(session_token("theme=dark").as_deref(), None);
    assert_eq!(session_token("").as_deref(), None);
    assert_eq!(session_token("xcomm_session=abc").as_deref(), None);
}

#[test]
fn session_cookie_has_its_attributes() {
    assert_eq!(
        session_cookie("abc"),
        "comm_session=abc; HttpOnly; SameSite=Strict; Path=/; Max-Age=86400"
    );
}

#[test]
fn session_tokens_are_64_lower_hex_digits() {
    let a = create_session_token();
    let b = create_session_token();
    assert_eq!(a.len(), 64);
    assert!(a.chars().all(|c| c.is_ascii_digit() || ('a'..='f').contains(&c)));
    assert_ne!(a, b);
}

#[test]
fn session_cookie_round_trips_the_token() {
    let token = create_session_token();
    assert_eq!(session_token(&session_cookie(&token)), Some(token.clone()));
    assert_eq!(session_token(&format!("comm_session={token}")), Some(token));
}

#[test]
fn login_creates_a_session_and_logout_ends_it() {
    let mut state = state();
    let token = sign_in(&mut state, "u1", "u1p", 0);
    let cookie = format!("comm_session={token}");

    assert_eq!(state.authenticated_user(Some(&cookie)).as_deref(), Some("u1"));
    assert_eq!(state.authenticated_user(None), None);
    assert_eq!(state.authenticated_user(Some("comm_session=other")), None);

    state.logout(Some(&cookie));
    assert_eq!(state.authenticated_user(Some(&cookie)), None);
}

#[test]
fn wrong_password_is_sent_back_with_error() {
    let mut state = state();
    let location = refused_location(state.login("u1", "nope", 0));
    assert_eq!(location, "/?username=u1&error=1");
}

#[test]
fn five_failures_lock_the_username_for_a_minute() {
    let mut state = state();
    for attempt in 0..MAX_FAILED_LOGIN_ATTEMPTS {
        let location = refused_location(state.login("u1", "nope", u64::from(attempt) * 10));
        assert_eq!(location, "/?username=u1&error=1");
    }

    let locked = refused_location(state.login("u1", "u1p", 40));
    assert_eq!(locked, "/?username=u1&error=rate_limited");
    let still_locked = refused_location(state.login("u1", "u1p", 40 + LOGIN_COOLDOWN_MS - 1));
    assert_eq!(still_locked, "/?username=u1&error=rate_limited");

    // The other user is not affected.
    sign_in(&mut state, "u2", "u2p", 50);

    // Once the cooldown is over, the right password signs in again.
    sign_in(&mut state, "u1", "u1p", 40 + LOGIN_COOLDOWN_MS);
}

#[test]
fn four_failures_do_not_lock() {
    let mut state = state();
    for _ in 0..MAX_FAILED_LOGIN_ATTEMPTS - 1 {
        refused_location(state.login("u1", "nope", 0));
    }
    sign_in(&mut state, "u1", "u1p", 1);
}

#[test]
fn a_successful_login_forgets_earlier_failures() {
    let mut state = state();
    for _ in 0..MAX_FAILED_LOGIN_ATTEMPTS - 1 {
        refused_location(state.login("u1", "nope", 0));
    }
    sign_in(&mut state, "u1", "u1p", 1);
    for _ in 0..MAX_FAILED_LOGIN_ATTEMPTS - 1 {
        refused_location(state.login("u1", "nope", 2));
    }
    sign_in(&mut state, "u1", "u1p", 3);
}

#[test]
fn privacy_password_check_follows_the_same_rules() {
    let mut state = state();
    assert_eq!(state.verify_password(None, "u1p", 0), PasswordCheck::NotSignedIn);

    let token = sign_in(&mut state, "u1", "u1p", 0);
    let cookie = format!("comm_session={token}");
    assert_eq!(state.verify_password(Some(&cookie), "u1p", 1), PasswordCheck::Verified);
    assert_eq!(state.verify_password(Some(&cookie), "u2p", 2), PasswordCheck::WrongPassword);

    for _ in 1..MAX_FAILED_LOGIN_ATTEMPTS {
        assert_eq!(state.verify_password(Some(&cookie), "x", 3), PasswordCheck::WrongPassword);
    }
    assert_eq!(state.verify_password(Some(&cookie), "u1p", 4), PasswordCheck::RateLimited);
    // The lockout also applies to logging in again.
    let location = refused_location(state.login("u1", "u1p", 5));
    assert_eq!(location, "/?username=u1&error=rate_limited");
    assert_eq!(
        state.verify_password(Some(&cookie), "u1p", 3 + LOGIN_COOLDOWN_MS),
        PasswordCheck::Verified
    );
}

#[test]
fn presence_counts_connections() {
    let mut state = state();
    assert!(state.connect_user("u1"));
    assert!(!state.connect_user("u1"));
    assert_eq!(state.connection_count("u1"), 2);
    assert_eq!(state.online_users(), vec!["u1".to_string()]);

    assert!(!state.disconnect_user("u1"));
    assert_eq!(state.connection_count("u1"), 1);
    assert!(state.disconnect_user("u1"));
    assert_eq!(state.connection_count("u1"), 0);
    assert!(state.online_users().is_empty());

    assert!(!state.disconnect_user("u2"));
}

#[test]
fn connect_then_disconnect_restores_presence() {
    let mut state = state();
    state.connect_user("u2");
    let before = state.online_users();
    state.connect_user("u1");
    state.disconnect_user("u1");
    assert_eq!(state.online_users(), before);
    assert_eq!(state.connection_count("u2"), 1);
    assert_eq!(state.connection_count("u1"), 0);
}

#[test]
fn online_users_lists_each_user_once() {
    let mut state = state();
    state.connect_user("u1");
    state.connect_user("u2");
    state.connect_user("u1");
    let mut users = state.online_users();
    users.sort();
    assert_eq!(users, vec!["u1".to_string(), "u2".to_string()]);
}

#[test]
fn earlier_failures_count_toward_the_lockout() {
    let mut state = state();
    refused_location(state.login("u1", "nope", 0));
    refused_location(state.login("u1", "nope", 1));
    for _ in 2..MAX_FAILED_LOGIN_ATTEMPTS {
        refused_location(state.login("u1", "nope", 100));
    }
    let locked = refused_location(state.login("u1", "u1p", 101));
    assert_eq!(locked, "/?username=u1&error=rate_limited");
}
