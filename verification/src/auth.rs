//! Signing in and out: where the login form sends people, sessions and their
//! cookie, the limit on failed password attempts, who is online, and which
//! uploads are accepted.
use vstd::prelude::*;
use vstd::utf8::encode_utf8;

use crate::encoding::{
    hex_encode, hex_encoded, is_percent_encoded_char, lemma_hex_encoded_digits,
    lemma_percent_decoding_undoes_encoding, lemma_percent_encoded_chars, percent_decoded,
    percent_encoded, random_bytes_32,
};
use crate::keyed::StringMap;
use crate::text::{
    chars_of, extend_str, in_class, is_ws, lemma_prefix_outside_concat, lemma_prefix_outside_len,
    prefix_outside, prefix_outside_len, slice_vec, starts_with, starts_with_vec, str_eq, string_of,
    trim, trim_end_class, trim_start_class, trim_vec, CharClass,
};
use crate::users::{user_names, valid_credentials, UserStore};

pub use crate::encoding::percent_encode;

verus! {

/// Failed attempts after which a username is locked out.
pub const MAX_FAILED_LOGIN_ATTEMPTS: u32 = 5;

/// The largest photo that may be uploaded, in bytes.
pub const MAX_ATTACHMENT_BYTES: usize = 20 * 1024 * 1024;

/// How long a lockout lasts, in milliseconds.
pub const LOGIN_COOLDOWN_MS: u64 = 60_000;

/// The `Set-Cookie` value that ends the session in the browser.
pub const EXPIRED_SESSION_COOKIE: &'static str = "comm_session=; HttpOnly; SameSite=Strict; Path=/; Max-Age=0; Expires=Thu, 01 Jan 1970 00:00:00 GMT";

/// The `Cache-Control` value of the responses that show or end a session.
pub const NO_STORE_CACHE_CONTROL: &'static str = "no-store, no-cache, must-revalidate, max-age=0";

/// The `Pragma` value of the responses that show or end a session.
pub const NO_STORE_PRAGMA: &'static str = "no-cache";

/// The login form.
pub struct LoginForm {
    pub username: String,
    pub password: String,
}

/// The first step of the login page: a search box that doubles as the
/// username field.
pub struct LoginStartForm {
    pub q: String,
}

/// The password asked for to leave privacy mode.
pub struct VerifyPasswordForm {
    pub password: String,
}

/// What an upload answers with.
pub struct AttachmentUploadResponse {
    pub id: i64,
    pub mime_type: String,
    pub original_name: Option<String>,
    pub size_bytes: i64,
}

pub open spec fn is_allowed_image_mime_type(mime: Seq<char>) -> bool {
    ||| mime == "image/jpeg"@
    ||| mime == "image/png"@
    ||| mime == "image/webp"@
    ||| mime == "image/gif"@
    ||| mime == "image/heic"@
    ||| mime == "image/heif"@
}

/// Whether photos of this MIME type may be uploaded.
pub fn allowed_image_mime_type(mime_type: &str) -> (ok: bool)
    ensures
        ok == is_allowed_image_mime_type(mime_type@),
{
    str_eq(mime_type, "image/jpeg") || str_eq(mime_type, "image/png") || str_eq(
        mime_type,
        "image/webp",
    ) || str_eq(mime_type, "image/gif") || str_eq(mime_type, "image/heic") || str_eq(
        mime_type,
        "image/heif",
    )
}

/// Whether an upload of `len` bytes has an acceptable size: not empty and at
/// most [`MAX_ATTACHMENT_BYTES`].
pub fn attachment_size_accepted(len: usize) -> (ok: bool)
    ensures
        ok == (0 < len <= MAX_ATTACHMENT_BYTES),
{
    len > 0 && len <= MAX_ATTACHMENT_BYTES
}

/// Where the first step of the login form leads: back to the form when the
/// input is blank, to the password step for a known username, and to a web
/// search for anything else.
pub open spec fn login_start_location(users: Seq<(Seq<char>, Seq<char>)>, query: Seq<char>) -> Seq<char> {
    let q = trim(query);
    if q.len() == 0 {
        "/"@
    } else if user_names(users).contains(q) {
        "/?username="@ + percent_encoded(q)
    } else {
        "https://www.google.com/search?q="@ + percent_encoded(q)
    }
}

pub fn login_start_redirect_location(users: &UserStore, query: &str) -> (location: String)
    ensures
        location@ == login_start_location(users@, query@),
{
    let q = string_of(&trim_vec(&chars_of(query)));
    if q.as_str().is_empty() {
        return String::from_str("/");
    }
    let mut out = if users.has_username(q.as_str()) {
        chars_of("/?username=")
    } else {
        chars_of("https://www.google.com/search?q=")
    };
    extend_str(&mut out, percent_encode(q.as_str()).as_str());
    string_of(&out)
}

/// Where a refused login sends people: back to the password step for
/// `username`, carrying `error`.
pub open spec fn login_error_location(username: Seq<char>, error: Seq<char>) -> Seq<char> {
    "/?username="@ + percent_encoded(username) + "&error="@ + percent_encoded(error)
}

pub fn login_error_redirect_location(username: &str, error: &str) -> (location: String)
    ensures
        location@ == login_error_location(username@, error@),
{
    let mut out = chars_of("/?username=");
    extend_str(&mut out, percent_encode(username).as_str());
    extend_str(&mut out, "&error=");
    extend_str(&mut out, percent_encode(error).as_str());
    string_of(&out)
}

/// A refused login goes back to the password step with the username and the
/// error as query values that read back, once percent-decoded, as the UTF-8
/// bytes of what was given, and that hold nothing but unreserved characters
/// and `%` escapes (so no `&` or `=` of theirs can be taken for the query's).
pub proof fn lemma_error_location_values(username: Seq<char>, error: Seq<char>)
    ensures
        exists|x: Seq<char>, y: Seq<char>|
            login_error_location(username, error) == "/?username="@ + x + "&error="@ + y
                && percent_decoded(x) == encode_utf8(username) && percent_decoded(y)
                == encode_utf8(error) && (forall|k: int|
                0 <= k < x.len() ==> is_percent_encoded_char(#[trigger] x[k])) && (forall|k: int|
                0 <= k < y.len() ==> is_percent_encoded_char(#[trigger] y[k])),
{
    let x = percent_encoded(username);
    let y = percent_encoded(error);
    lemma_percent_decoding_undoes_encoding(username);
    lemma_percent_decoding_undoes_encoding(error);
    lemma_percent_encoded_chars(username);
    lemma_percent_encoded_chars(error);
    assert(login_error_location(username, error) == "/?username="@ + x + "&error="@ + y);
}

/// The first login step sends blank input back to the login page, a known
/// username (after trimming) to the password step, and anything else to a
/// web search; the username or search terms travel percent-encoded and read
/// back, once decoded, as the UTF-8 bytes of the trimmed input.
pub proof fn lemma_start_location_values(users: Seq<(Seq<char>, Seq<char>)>, query: Seq<char>)
    ensures
        trim(query).len() == 0 ==> login_start_location(users, query) == "/"@,
        trim(query).len() > 0 ==> exists|x: Seq<char>|
            percent_decoded(x) == encode_utf8(trim(query)) && login_start_location(users, query)
                == (if crate::users::user_names(users).contains(trim(query)) {
                "/?username="@
            } else {
                "https://www.google.com/search?q="@
            }) + x,
{
    lemma_percent_decoding_undoes_encoding(trim(query));
    let x = percent_encoded(trim(query));
    assert(percent_decoded(x) == encode_utf8(trim(query)));
}

/// The name of the session cookie followed by `=`.
pub open spec fn session_cookie_prefix() -> Seq<char> {
    "comm_session="@
}

/// The session token in a `Cookie` header: the text after `comm_session=`
/// in the first `;`-separated piece that, trimmed, starts with it.
pub open spec fn cookie_session_token(header: Seq<char>) -> Option<Seq<char>>
    decreases header.len(),
{
    let n = prefix_outside(header, CharClass::Semicolon);
    let piece = trim(header.take(n as int));
    if starts_with(piece, session_cookie_prefix()) {
        Some(piece.skip(session_cookie_prefix().len() as int))
    } else if n >= header.len() {
        None
    } else {
        proof {
            lemma_prefix_outside_len(header, CharClass::Semicolon);
        }
        cookie_session_token(header.skip(n + 1int))
    }
}

pub fn session_token(cookie_header: &str) -> (token: Option<String>)
    ensures
        token matches Some(t) ==> cookie_session_token(cookie_header@) == Some(t@),
        token is None ==> cookie_session_token(cookie_header@) is None,
{
    let v = chars_of(cookie_header);
    let prefix = chars_of("comm_session=");
    let mut i: usize = 0;
    assert(v@.skip(0) =~= v@);
    loop
        invariant
            i <= v.len(),
            v@ == cookie_header@,
            prefix@ == session_cookie_prefix(),
            cookie_session_token(v@) == cookie_session_token(v@.skip(i as int)),
        decreases v.len() - i,
    {
        let n = prefix_outside_len(&v, i, CharClass::Semicolon);
        let raw = slice_vec(&v, i, i + n);
        assert(raw@ =~= v@.skip(i as int).take(n as int));
        let piece = trim_vec(&raw);
        if starts_with_vec(&piece, &prefix) {
            let t = slice_vec(&piece, prefix.len(), piece.len());
            assert(t@ =~= piece@.skip(prefix.len() as int));
            return Some(string_of(&t));
        }
        if i + n == v.len() {
            return None;
        }
        assert(v@.skip(i as int).skip(n + 1) =~= v@.skip(i + n + 1));
        i = i + n + 1;
    }
}

/// The value of the `Set-Cookie` header that starts a session.
pub open spec fn session_cookie_value(token: Seq<char>) -> Seq<char> {
    session_cookie_prefix() + token + "; HttpOnly; SameSite=Strict; Path=/; Max-Age=86400"@
}

pub fn session_cookie(token: &str) -> (cookie: String)
    ensures
        cookie@ == session_cookie_value(token@),
{
    let mut out = chars_of("comm_session=");
    extend_str(&mut out, token);
    extend_str(&mut out, "; HttpOnly; SameSite=Strict; Path=/; Max-Age=86400");
    string_of(&out)
}

/// Whether `token` could be a session token: the lower-case hexadecimal form
/// of 32 bytes.
pub open spec fn is_session_token(token: Seq<char>) -> bool {
    exists|bytes: Seq<u8>| bytes.len() == 32 && hex_encoded(bytes) == token
}

/// A new random session token: 32 random bytes in lower-case hexadecimal.
pub fn create_session_token() -> (token: String)
    ensures
        is_session_token(token@),
{
    let bytes = random_bytes_32();
    let token = hex_encode(bytes.as_slice());
    assert(hex_encoded(bytes@) == token@);
    token
}


proof fn lemma_session_token_chars(token: Seq<char>)
    requires
        is_session_token(token),
    ensures
        token.len() == 64,
        forall|i: int|
            0 <= i < token.len() ==> crate::encoding::is_lower_hex_digit(#[trigger] token[i]),
{
    let bytes = choose|bytes: Seq<u8>| bytes.len() == 32 && hex_encoded(bytes) == token;
    lemma_hex_encoded_digits(bytes);
}

/// The browser sends a session cookie back as `comm_session=<token>`, alone
/// or as the first of the attributes that `Set-Cookie` gave it; either way
/// the token read from it is the one the session was created with.
pub proof fn lemma_session_cookie_roundtrip(token: Seq<char>)
    requires
        is_session_token(token),
    ensures
        cookie_session_token(session_cookie_prefix() + token) == Some(token),
        cookie_session_token(session_cookie_value(token)) == Some(token),
{
    reveal_strlit("comm_session=");
    reveal_strlit("; HttpOnly; SameSite=Strict; Path=/; Max-Age=86400");
    lemma_session_token_chars(token);
    let p = session_cookie_prefix();
    let pair = p + token;
    assert forall|i: int| 0 <= i < pair.len() implies !in_class(
        CharClass::Semicolon,
        #[trigger] pair[i],
    ) by {
        if i >= p.len() {
            assert(pair[i] == token[i - p.len()]);
        }
    }
    assert(!is_ws(pair[0]));
    assert(pair.last() == token[token.len() - 1]);
    assert(!is_ws(pair.last()));
    assert(trim_start_class(pair, CharClass::Whitespace) == pair);
    assert(trim_end_class(pair, CharClass::Whitespace) == pair);
    assert(pair.take(p.len() as int) =~= p);
    assert(pair.skip(p.len() as int) =~= token);
    lemma_prefix_outside_concat(pair, Seq::<char>::empty(), CharClass::Semicolon);
    assert(pair + Seq::<char>::empty() =~= pair);
    assert(pair.take(pair.len() as int) =~= pair);
    let rest = "; HttpOnly; SameSite=Strict; Path=/; Max-Age=86400"@;
    let value = session_cookie_value(token);
    assert(value =~= pair + rest);
    lemma_prefix_outside_concat(pair, rest, CharClass::Semicolon);
    assert(value.take(pair.len() as int) =~= pair);
}

/// After signing in, a request that carries the new session's cookie is
/// authenticated as the user who signed in.
pub proof fn lemma_signed_in_session_authenticates(
    sessions: Map<Seq<char>, Seq<char>>,
    token: Seq<char>,
    user: Seq<char>,
)
    requires
        is_session_token(token),
    ensures
        session_user(sessions.insert(token, user), Some(session_cookie_prefix() + token)) == Some(
            user,
        ),
{
    lemma_session_cookie_roundtrip(token);
}

/// After logging out with a cookie, a request with the same cookie is no
/// longer authenticated.
pub proof fn lemma_logged_out_session_is_gone(
    sessions: Map<Seq<char>, Seq<char>>,
    cookie_header: Seq<char>,
)
    requires
        cookie_session_token(cookie_header) is Some,
    ensures
        session_user(
            sessions.remove(cookie_session_token(cookie_header)->0),
            Some(cookie_header),
        ) is None,
{
}

/// Failed password attempts for one username.
#[derive(Clone, Copy, Debug)]
pub struct LoginAttempt {
    pub failed_count: u32,
    /// The time (milliseconds on the server's monotonic clock) until which
    /// the username is locked out.
    pub locked_until: Option<u64>,
}

/// Whether `user` is locked out at time `now`.
pub open spec fn is_locked(attempts: Map<Seq<char>, LoginAttempt>, user: Seq<char>, now: u64) -> bool {
    &&& attempts.contains_key(user)
    &&& attempts[user].locked_until matches Some(t) && now < t
}

/// The attempts after checking `user` at `now`: a lockout that has run out
/// is forgotten together with the failures that caused it.
pub open spec fn after_rate_check(
    attempts: Map<Seq<char>, LoginAttempt>,
    user: Seq<char>,
    now: u64,
) -> Map<Seq<char>, LoginAttempt> {
    if attempts.contains_key(user) && (attempts[user].locked_until matches Some(t) && now >= t) {
        attempts.remove(user)
    } else {
        attempts
    }
}

/// The attempts after a failed password for `user` at `now`: one more
/// failure, and a lockout of [`LOGIN_COOLDOWN_MS`] from `now` once there are
/// [`MAX_FAILED_LOGIN_ATTEMPTS`].
pub open spec fn after_failure(
    attempts: Map<Seq<char>, LoginAttempt>,
    user: Seq<char>,
    now: u64,
) -> Map<Seq<char>, LoginAttempt> {
    let prev = if attempts.contains_key(user) {
        attempts[user]
    } else {
        LoginAttempt { failed_count: 0, locked_until: None }
    };
    let count = prev.failed_count + 1;
    attempts.insert(
        user,
        LoginAttempt {
            failed_count: count as u32,
            locked_until: if count >= MAX_FAILED_LOGIN_ATTEMPTS {
                Some((now + LOGIN_COOLDOWN_MS) as u64)
            } else {
                prev.locked_until
            },
        },
    )
}

/// The attempts after a run of wrong passwords for `user`, one at each of
/// `times`, none of them refused: each is checked against the lockout and
/// then counted as a failure, as [`AppState::login`] and
/// [`AppState::verify_password`] do.
pub open spec fn after_failures(
    attempts: Map<Seq<char>, LoginAttempt>,
    user: Seq<char>,
    times: Seq<u64>,
) -> Map<Seq<char>, LoginAttempt>
    decreases times.len(),
{
    if times.len() == 0 {
        attempts
    } else {
        let before = after_failures(attempts, user, times.drop_last());
        after_failure(after_rate_check(before, user, times.last()), user, times.last())
    }
}

/// The failures of `user` that still count while it is not locked out:
/// none once a lockout has run out (the next check forgets them).
pub open spec fn counted_failures(attempts: Map<Seq<char>, LoginAttempt>, user: Seq<char>) -> nat {
    if attempts.contains_key(user) && attempts[user].locked_until is None {
        attempts[user].failed_count as nat
    } else {
        0
    }
}

proof fn lemma_failures_below_limit(
    attempts: Map<Seq<char>, LoginAttempt>,
    user: Seq<char>,
    times: Seq<u64>,
)
    requires
        attempts_bounded(attempts),
        times.len() > 0,
        !is_locked(attempts, user, times[0]),
        counted_failures(attempts, user) + times.len() < MAX_FAILED_LOGIN_ATTEMPTS,
    ensures
        after_failures(attempts, user, times).contains_key(user),
        after_failures(attempts, user, times)[user] == (LoginAttempt {
            failed_count: (counted_failures(attempts, user) + times.len()) as u32,
            locked_until: None,
        }),
        forall|t: u64| !is_locked(after_failures(attempts, user, times), user, t),
    decreases times.len(),
{
    if times.len() > 1 {
        let front = times.drop_last();
        assert(front[0] == times[0]);
        lemma_failures_below_limit(attempts, user, front);
        let before = after_failures(attempts, user, front);
        assert(after_rate_check(before, user, times.last()) == before);
        assert(after_failures(attempts, user, times) == after_failure(before, user, times.last()));
    } else {
        assert(times.drop_last() =~= Seq::<u64>::empty());
        assert(after_failures(attempts, user, times.drop_last()) == attempts);
        assert(times.last() == times[0]);
        let checked = after_rate_check(attempts, user, times[0]);
        if attempts.contains_key(user) && attempts[user].locked_until is Some {
            assert(!checked.contains_key(user));
        } else {
            assert(checked == attempts);
        }
        assert(after_failures(attempts, user, times) == after_failure(checked, user, times[0]));
    }
}

/// From any state in which `user` is not locked out at the first of
/// `times`, as many wrong passwords in a row as it takes to reach
/// [`MAX_FAILED_LOGIN_ATTEMPTS`] counted failures (all of them when none
/// count, one when four do) lock the username from the last of them for
/// exactly [`LOGIN_COOLDOWN_MS`]; none of the earlier ones locks it.  Once
/// the lockout has run out, the next check forgets the failures.
pub proof fn lemma_lockout_after_max_failures(
    attempts: Map<Seq<char>, LoginAttempt>,
    user: Seq<char>,
    times: Seq<u64>,
)
    requires
        attempts_bounded(attempts),
        times.len() > 0,
        !is_locked(attempts, user, times[0]),
        counted_failures(attempts, user) + times.len() == MAX_FAILED_LOGIN_ATTEMPTS,
        times.last() <= u64::MAX - LOGIN_COOLDOWN_MS,
    ensures
        forall|k: int|
            0 <= k < times.len() ==> !is_locked(
                #[trigger] after_failures(attempts, user, times.take(k)),
                user,
                times[k],
            ),
        forall|t: u64|
            times.last() <= t < times.last() + LOGIN_COOLDOWN_MS ==> is_locked(
                after_failures(attempts, user, times),
                user,
                t,
            ),
        forall|t: u64|
            t >= times.last() + LOGIN_COOLDOWN_MS ==> !is_locked(
                after_failures(attempts, user, times),
                user,
                t,
            ) && !after_rate_check(after_failures(attempts, user, times), user, t).contains_key(
                user,
            ),
{
    assert forall|k: int| 0 <= k < times.len() implies !is_locked(
        #[trigger] after_failures(attempts, user, times.take(k)),
        user,
        times[k],
    ) by {
        if k == 0 {
            assert(times.take(0) =~= Seq::<u64>::empty());
        } else {
            assert(times.take(k)[0] == times[0]);
            lemma_failures_below_limit(attempts, user, times.take(k));
        }
    }
    let front = times.drop_last();
    let n = counted_failures(attempts, user);
    let before = after_failures(attempts, user, front);
    if times.len() > 1 {
        assert(front[0] == times[0]);
        lemma_failures_below_limit(attempts, user, front);
        assert(after_rate_check(before, user, times.last()) == before);
    } else {
        assert(front =~= Seq::<u64>::empty());
        assert(times.last() == times[0]);
    }
    let after = after_failures(attempts, user, times);
    assert(after[user] == LoginAttempt {
        failed_count: MAX_FAILED_LOGIN_ATTEMPTS,
        locked_until: Some((times.last() + LOGIN_COOLDOWN_MS) as u64),
    });
}

/// Every recorded username has between one and the maximum number of
/// failures, and is locked out once it has the maximum.
pub open spec fn attempts_bounded(attempts: Map<Seq<char>, LoginAttempt>) -> bool {
    forall|u: Seq<char>|
        #[trigger] attempts.contains_key(u) ==> 1 <= attempts[u].failed_count
            <= MAX_FAILED_LOGIN_ATTEMPTS && (attempts[u].failed_count >= MAX_FAILED_LOGIN_ATTEMPTS
            ==> attempts[u].locked_until is Some)
}

/// Every online username has at least one open connection.
pub open spec fn presence_positive(presence: Map<Seq<char>, usize>) -> bool {
    forall|u: Seq<char>| #[trigger] presence.contains_key(u) ==> presence[u] >= 1
}

/// The open connections after `user` opens one more.
pub open spec fn after_connect(presence: Map<Seq<char>, usize>, user: Seq<char>) -> Map<
    Seq<char>,
    usize,
> {
    if presence.contains_key(user) {
        presence.insert(user, (presence[user] + 1) as usize)
    } else {
        presence.insert(user, 1)
    }
}

/// The open connections after `user` closes one: a user whose last
/// connection closes is no longer online.
pub open spec fn after_disconnect(presence: Map<Seq<char>, usize>, user: Seq<char>) -> Map<
    Seq<char>,
    usize,
> {
    if !presence.contains_key(user) {
        presence
    } else if presence[user] <= 1 {
        presence.remove(user)
    } else {
        presence.insert(user, (presence[user] - 1) as usize)
    }
}

/// Opening a connection and closing it again leaves who is online, and with
/// how many connections, as it was.
pub proof fn lemma_connect_then_disconnect(presence: Map<Seq<char>, usize>, user: Seq<char>)
    requires
        presence_positive(presence),
        presence.contains_key(user) ==> presence[user] < usize::MAX,
    ensures
        after_disconnect(after_connect(presence, user), user) == presence,
{
    if presence.contains_key(user) {
        assert(after_disconnect(after_connect(presence, user), user) =~= presence);
    } else {
        assert(after_disconnect(after_connect(presence, user), user) =~= presence);
    }
}

/// The number of open connections of `user`.
pub open spec fn connections(presence: Map<Seq<char>, usize>, user: Seq<char>) -> nat {
    if presence.contains_key(user) {
        presence[user] as nat
    } else {
        0
    }
}

/// A user is online exactly while at least one of their connections is
/// open: connecting adds one connection and always puts them online,
/// disconnecting removes one (none when there is none) and takes them
/// offline exactly when it closes their last; other users' connections stay
/// as they were.
pub proof fn lemma_presence_follows_connections(presence: Map<Seq<char>, usize>, user: Seq<char>)
    requires
        presence_positive(presence),
        connections(presence, user) < usize::MAX,
    ensures
        forall|u: Seq<char>| presence.contains_key(u) <==> connections(presence, u) > 0,
        presence_positive(after_connect(presence, user)),
        presence_positive(after_disconnect(presence, user)),
        connections(after_connect(presence, user), user) == connections(presence, user) + 1,
        connections(after_disconnect(presence, user), user) == if connections(presence, user)
            == 0 {
            0
        } else {
            (connections(presence, user) - 1) as nat
        },
        after_connect(presence, user).contains_key(user),
        after_disconnect(presence, user).contains_key(user) <==> connections(presence, user) > 1,
        forall|other: Seq<char>|
            other != user ==> #[trigger] connections(after_connect(presence, user), other)
                == connections(presence, other) && connections(after_disconnect(presence, user), other)
                == connections(presence, other),
{
}

pub open spec fn opt_str(o: Option<&str>) -> Option<Seq<char>> {
    match o {
        Some(s) => Some(s@),
        None => None,
    }
}

/// The user whose session a request with this `Cookie` header carries.
pub open spec fn session_user(
    sessions: Map<Seq<char>, Seq<char>>,
    cookie_header: Option<Seq<char>>,
) -> Option<Seq<char>> {
    match cookie_header {
        None => None,
        Some(h) => match cookie_session_token(h) {
            None => None,
            Some(t) => if sessions.contains_key(t) {
                Some(sessions[t])
            } else {
                None
            },
        },
    }
}

/// How a login attempt ends.
pub enum LoginOutcome {
    /// Sent back to the password step, at `location`.
    Refused { location: String },
    /// Signed in; `token` names the new session.
    SignedIn { token: String },
}

/// How a password check for privacy mode ends.
#[derive(Clone, Copy, Debug, PartialEq, Eq, Structural)]
pub enum PasswordCheck {
    NotSignedIn,
    RateLimited,
    WrongPassword,
    Verified,
}

/// The server's shared state: failed logins, open connections per user,
/// sessions, and the known usernames.
pub struct AppState {
    login_attempts: StringMap<LoginAttempt>,
    presence_counts: StringMap<usize>,
    sessions: StringMap<String>,
    users: UserStore,
}

impl AppState {
    pub closed spec fn wf(&self) -> bool {
        &&& self.login_attempts.wf()
        &&& self.presence_counts.wf()
        &&& self.sessions.wf()
        &&& attempts_bounded(self.login_attempts@)
        &&& presence_positive(self.presence_counts@)
    }

    /// Failed attempts per username.
    pub closed spec fn attempts(&self) -> Map<Seq<char>, LoginAttempt> {
        self.login_attempts@
    }

    /// Open connections per online username.
    pub closed spec fn presence(&self) -> Map<Seq<char>, usize> {
        self.presence_counts@
    }

    /// The username of each session token.
    pub closed spec fn session_map(&self) -> Map<Seq<char>, Seq<char>> {
        self.sessions@.map_values(|s: String| s@)
    }

    /// The known users, each with the hash of their password.
    pub closed spec fn known_users(&self) -> Seq<(Seq<char>, Seq<char>)> {
        self.users@
    }

    /// What a well-formed state keeps.
    pub proof fn lemma_wf(&self)
        requires
            self.wf(),
        ensures
            attempts_bounded(self.attempts()),
            presence_positive(self.presence()),
    {
    }

    /// A state with no failures, no connections and no sessions.
    pub fn new(users: UserStore) -> (state: Self)
        ensures
            state.wf(),
            state.attempts() == Map::<Seq<char>, LoginAttempt>::empty(),
            state.presence() == Map::<Seq<char>, usize>::empty(),
            state.session_map() == Map::<Seq<char>, Seq<char>>::empty(),
            state.known_users() == users@,
    {
        let state = AppState {
            login_attempts: StringMap::new(),
            presence_counts: StringMap::new(),
            sessions: StringMap::new(),
            users,
        };
        assert(state.session_map() =~= Map::<Seq<char>, Seq<char>>::empty());
        state
    }

    /// The known usernames.
    pub fn users(&self) -> (u: &UserStore)
        ensures
            u@ == self.known_users(),
    {
        &self.users
    }

    fn login_is_rate_limited(&mut self, username: &str, now: u64) -> (limited: bool)
        requires
            old(self).wf(),
        ensures
            final(self).wf(),
            limited == is_locked(old(self).attempts(), username@, now),
            final(self).attempts() == after_rate_check(old(self).attempts(), username@, now),
            final(self).presence() == old(self).presence(),
            final(self).session_map() == old(self).session_map(),
            final(self).known_users() == old(self).known_users(),
    {
        let attempt = match self.login_attempts.get(username) {
            Some(a) => Some(*a),
            None => None,
        };
        match attempt {
            None => false,
            Some(a) => match a.locked_until {
                Some(t) => {
                    if now < t {
                        true
                    } else {
                        self.login_attempts.remove(username);
                        false
                    }
                },
                None => false,
            },
        }
    }

    fn record_failed_login(&mut self, username: &str, now: u64)
        requires
            old(self).wf(),
            now <= u64::MAX - LOGIN_COOLDOWN_MS,
            old(self).attempts().contains_key(username@) ==> old(
                self,
            ).attempts()[username@].locked_until is None,
        ensures
            final(self).wf(),
            final(self).attempts() == after_failure(old(self).attempts(), username@, now),
            final(self).presence() == old(self).presence(),
            final(self).session_map() == old(self).session_map(),
            final(self).known_users() == old(self).known_users(),
    {
        let prev = match self.login_attempts.get(username) {
            Some(a) => *a,
            None => LoginAttempt { failed_count: 0, locked_until: None },
        };
        let count = prev.failed_count + 1;
        let locked_until = if count >= MAX_FAILED_LOGIN_ATTEMPTS {
            Some(now + LOGIN_COOLDOWN_MS)
        } else {
            prev.locked_until
        };
        self.login_attempts.insert(username, LoginAttempt { failed_count: count, locked_until });
    }

    fn clear_failed_logins(&mut self, username: &str)
        requires
            old(self).wf(),
        ensures
            final(self).wf(),
            final(self).attempts() == old(self).attempts().remove(username@),
            final(self).presence() == old(self).presence(),
            final(self).session_map() == old(self).session_map(),
            final(self).known_users() == old(self).known_users(),
    {
        self.login_attempts.remove(username);
    }

    /// Signs `username` in with `password` at time `now`: refused while the
    /// username is locked out, refused and counted as a failure when the
    /// password is wrong, and otherwise a new session with the failures
    /// forgotten.
    pub fn login(&mut self, username: &str, password: &str, now: u64) -> (outcome: LoginOutcome)
        requires
            old(self).wf(),
            now <= u64::MAX - LOGIN_COOLDOWN_MS,
        ensures
            final(self).wf(),
            final(self).presence() == old(self).presence(),
            final(self).known_users() == old(self).known_users(),
            is_locked(old(self).attempts(), username@, now) ==> {
                &&& outcome matches LoginOutcome::Refused { location } && location@
                    == login_error_location(username@, "rate_limited"@)
                &&& final(self).attempts() == old(self).attempts()
                &&& final(self).session_map() == old(self).session_map()
            },
            !is_locked(old(self).attempts(), username@, now) && !valid_credentials(
                old(self).known_users(),
                username@,
                password@,
            ) ==> {
                &&& outcome matches LoginOutcome::Refused { location } && location@
                    == login_error_location(username@, "1"@)
                &&& final(self).attempts() == after_failure(
                    after_rate_check(old(self).attempts(), username@, now),
                    username@,
                    now,
                )
                &&& final(self).session_map() == old(self).session_map()
            },
            !is_locked(old(self).attempts(), username@, now) && valid_credentials(
                old(self).known_users(),
                username@,
                password@,
            ) ==> {
                &&& outcome matches LoginOutcome::SignedIn { token } && is_session_token(token@)
                    && final(self).session_map() == old(self).session_map().insert(
                    token@,
                    username@,
                )
                &&& final(self).attempts() == old(self).attempts().remove(username@)
            },
    {
        let ghost before = self.attempts();
        if self.login_is_rate_limited(username, now) {
            return LoginOutcome::Refused {
                location: login_error_redirect_location(username, "rate_limited"),
            };
        }
        proof {
            self.lemma_wf();
        }
        if !self.users.verify_credentials(username, password) {
            self.record_failed_login(username, now);
            return LoginOutcome::Refused { location: login_error_redirect_location(username, "1") };
        }
        self.clear_failed_logins(username);
        assert(self.attempts() =~= before.remove(username@));
        let token = create_session_token();
        let ghost old_sessions = self.sessions@;
        self.sessions.insert(token.as_str(), string_of(&chars_of(username)));
        assert(self.session_map() =~= old_sessions.map_values(|s: String| s@).insert(
            token@,
            username@,
        ));
        LoginOutcome::SignedIn { token }
    }

    /// The user whose session the `Cookie` header names, if it names one.
    pub fn authenticated_user(&self, cookie_header: Option<&str>) -> (user: Option<String>)
        requires
            self.wf(),
        ensures
            user.deep_view() == session_user(self.session_map(), opt_str(cookie_header)),
    {
        let header = match cookie_header {
            Some(h) => h,
            None => return None,
        };
        let token = match session_token(header) {
            Some(t) => t,
            None => return None,
        };
        match self.sessions.get(token.as_str()) {
            Some(u) => Some(u.clone()),
            None => None,
        }
    }

    /// Ends the session that the `Cookie` header names, if any.
    pub fn logout(&mut self, cookie_header: Option<&str>)
        requires
            old(self).wf(),
        ensures
            final(self).wf(),
            final(self).attempts() == old(self).attempts(),
            final(self).presence() == old(self).presence(),
            final(self).known_users() == old(self).known_users(),
            final(self).session_map() == match opt_str(cookie_header) {
                Some(h) => match cookie_session_token(h) {
                    Some(t) => old(self).session_map().remove(t),
                    None => old(self).session_map(),
                },
                None => old(self).session_map(),
            },
    {
        if let Some(header) = cookie_header {
            if let Some(token) = session_token(header) {
                let ghost old_sessions = self.sessions@;
                self.sessions.remove(token.as_str());
                assert(self.session_map() =~= old_sessions.map_values(|s: String| s@).remove(
                    token@,
                ));
            }
        }
    }

    /// Checks the password of the signed-in user to leave privacy mode, with
    /// the same lockout as logins.
    pub fn verify_password(&mut self, cookie_header: Option<&str>, password: &str, now: u64) -> (check:
        PasswordCheck)
        requires
            old(self).wf(),
            now <= u64::MAX - LOGIN_COOLDOWN_MS,
        ensures
            final(self).wf(),
            final(self).presence() == old(self).presence(),
            final(self).session_map() == old(self).session_map(),
            final(self).known_users() == old(self).known_users(),
            match session_user(old(self).session_map(), opt_str(cookie_header)) {
                None => check == PasswordCheck::NotSignedIn && final(self).attempts() == old(
                    self,
                ).attempts(),
                Some(u) => if is_locked(old(self).attempts(), u, now) {
                    check == PasswordCheck::RateLimited && final(self).attempts() == old(
                        self,
                    ).attempts()
                } else if !valid_credentials(old(self).known_users(), u, password@) {
                    check == PasswordCheck::WrongPassword && final(self).attempts()
                        == after_failure(after_rate_check(old(self).attempts(), u, now), u, now)
                } else {
                    check == PasswordCheck::Verified && final(self).attempts() == old(
                        self,
                    ).attempts().remove(u)
                },
            },
    {
        let username = match self.authenticated_user(cookie_header) {
            Some(u) => u,
            None => return PasswordCheck::NotSignedIn,
        };
        let ghost before = self.attempts();
        if self.login_is_rate_limited(username.as_str(), now) {
            return PasswordCheck::RateLimited;
        }
        proof {
            self.lemma_wf();
        }
        if !self.users.verify_credentials(username.as_str(), password) {
            self.record_failed_login(username.as_str(), now);
            return PasswordCheck::WrongPassword;
        }
        self.clear_failed_logins(username.as_str());
        assert(self.attempts() =~= before.remove(username@));
        PasswordCheck::Verified
    }

    /// The number of open connections of `username`.
    pub fn connection_count(&self, username: &str) -> (n: usize)
        requires
            self.wf(),
        ensures
            n == if self.presence().contains_key(username@) {
                self.presence()[username@]
            } else {
                0
            },
    {
        match self.presence_counts.get(username) {
            Some(c) => *c,
            None => 0,
        }
    }

    /// Records a new connection of `username`; true when it was offline.
    pub fn connect_user(&mut self, username: &str) -> (was_offline: bool)
        requires
            old(self).wf(),
            old(self).presence().contains_key(username@) ==> old(self).presence()[username@]
                < usize::MAX,
        ensures
            final(self).wf(),
            was_offline == !old(self).presence().contains_key(username@),
            final(self).presence() == after_connect(old(self).presence(), username@),
            final(self).attempts() == old(self).attempts(),
            final(self).session_map() == old(self).session_map(),
            final(self).known_users() == old(self).known_users(),
    {
        let count = match self.presence_counts.get(username) {
            Some(c) => *c,
            None => 0,
        };
        self.presence_counts.insert(username, count + 1);
        count == 0
    }

    /// Records a closed connection of `username`; true when it was the
    /// last one, so that the user went offline.
    pub fn disconnect_user(&mut self, username: &str) -> (went_offline: bool)
        requires
            old(self).wf(),
        ensures
            final(self).wf(),
            went_offline == (old(self).presence().contains_key(username@) && old(
                self,
            ).presence()[username@] == 1),
            final(self).presence() == after_disconnect(old(self).presence(), username@),
            final(self).attempts() == old(self).attempts(),
            final(self).session_map() == old(self).session_map(),
            final(self).known_users() == old(self).known_users(),
    {
        let count = match self.presence_counts.get(username) {
            Some(c) => *c,
            None => return false,
        };
        let count = count.saturating_sub(1);
        if count == 0 {
            self.presence_counts.remove(username);
            return true;
        }
        self.presence_counts.insert(username, count);
        false
    }

    /// The usernames with at least one open connection, each once.
    pub fn online_users(&self) -> (users: Vec<String>)
        requires
            self.wf(),
        ensures
            users@.map_values(|u: String| u@).no_duplicates(),
            users@.map_values(|u: String| u@).to_set() == self.presence().dom(),
    {
        self.presence_counts.keys()
    }
}

} // verus!
