//! Presence notifications sent to an ntfy topic.
use vstd::prelude::*;

use crate::encoding::all_digits;
use crate::text::{
    chars_of, extend_str, find, is_ascii_digit, find_vec, skip_class_backward, slice_vec, str_eq, string_of,
    trim, trim_class, trim_class_vec, trim_end_class, trim_vec, CharClass,
};

verus! {

/// The ntfy server used when none is configured.
pub const DEFAULT_NTFY_SERVER: &'static str = "https://ntfy.sh";

/// Where presence notifications are published.
pub struct NtfyConfig {
    pub url: String,
}

/// The topic URL for `server` and `topic`: both trimmed of whitespace, the
/// topic also of surrounding `/` and the server of trailing `/`; none when
/// the topic is empty or looks like a URL, or the server is empty.
pub open spec fn ntfy_url(server: Seq<char>, topic: Seq<char>) -> Option<Seq<char>> {
    let t = trim_class(trim(topic), CharClass::Slash);
    let s = trim_end_class(trim(server), CharClass::Slash);
    if t.len() == 0 || find(t, "://"@) is Some || s.len() == 0 {
        None
    } else {
        Some(s + seq!['/'] + t)
    }
}

impl NtfyConfig {
    pub fn from_values(server: &str, topic: &str) -> (config: Option<Self>)
        ensures
            config matches Some(c) ==> ntfy_url(server@, topic@) == Some(c.url@),
            config is None ==> ntfy_url(server@, topic@) is None,
    {
        let t = trim_class_vec(&trim_vec(&chars_of(topic)), CharClass::Slash);
        let s0 = trim_vec(&chars_of(server));
        let end = skip_class_backward(&s0, 0, s0.len(), CharClass::Slash);
        assert(s0@.subrange(0, s0.len() as int) =~= s0@);
        let s = slice_vec(&s0, 0, end);
        if t.len() == 0 || find_vec(&t, &chars_of("://")).is_some() {
            return None;
        }
        if s.len() == 0 {
            return None;
        }
        let mut url = s;
        url.push('/');
        let ghost with_slash = url@;
        let mut k: usize = 0;
        while k < t.len()
            invariant
                k <= t.len(),
                url@ == with_slash + t@.take(k as int),
            decreases t.len() - k,
        {
            url.push(t[k]);
            k += 1;
            assert(url@ =~= with_slash + t@.take(k as int));
        }
        assert(t@.take(t.len() as int) =~= t@);
        Some(NtfyConfig { url: string_of(&url) })
    }

    /// The configuration for a topic setting and an optional server setting;
    /// none without a topic.
    pub fn from_settings(topic: Option<&str>, server: Option<&str>) -> (config: Option<Self>)
        ensures
            topic is None ==> config is None,
            topic matches Some(t) ==> match config {
                Some(c) => ntfy_url(
                    match server {
                        Some(s) => s@,
                        None => DEFAULT_NTFY_SERVER@,
                    },
                    t@,
                ) == Some(c.url@),
                None => ntfy_url(
                    match server {
                        Some(s) => s@,
                        None => DEFAULT_NTFY_SERVER@,
                    },
                    t@,
                ) is None,
            },
    {
        let topic = match topic {
            Some(t) => t,
            None => return None,
        };
        let server = match server {
            Some(s) => s,
            None => DEFAULT_NTFY_SERVER,
        };
        Self::from_values(server, topic)
    }
}

/// How a username appears in notifications: `u<digits>` becomes
/// `m<digits>`, anything else is kept.
pub open spec fn notification_name(username: Seq<char>) -> Seq<char> {
    let suffix = username.drop_first();
    if username.len() > 1 && username[0] == 'u' && all_digits(suffix) {
        seq!['m'] + suffix
    } else {
        username
    }
}

pub fn notification_username(username: &str) -> (name: String)
    ensures
        name@ == notification_name(username@),
{
    let v = chars_of(username);
    if v.len() > 1 && v[0] == 'u' {
        let mut digits = true;
        let mut i: usize = 1;
        while i < v.len()
            invariant
                1 <= i <= v.len(),
                digits == forall|j: int| 1 <= j < i ==> is_ascii_digit(#[trigger] v@[j]),
            decreases v.len() - i,
        {
            if !('0' <= v[i] && v[i] <= '9') {
                digits = false;
            }
            i += 1;
        }
        let ghost suffix = v@.drop_first();
        assert(digits == all_digits(suffix)) by {
            if digits {
                assert forall|j: int| 0 <= j < suffix.len() implies is_ascii_digit(#[trigger] suffix[j]) by {
                    assert(suffix[j] == v@[j + 1]);
                }
            } else {
                let j = choose|j: int| 1 <= j < v.len() && !is_ascii_digit(#[trigger] v@[j]);
                assert(suffix[j - 1] == v@[j]);
            }
        }
        if digits {
            let mut out = vec!['m'];
            let rest = slice_vec(&v, 1, v.len());
            let mut k: usize = 0;
            while k < rest.len()
                invariant
                    k <= rest.len(),
                    out@ == seq!['m'] + rest@.take(k as int),
                decreases rest.len() - k,
            {
                out.push(rest[k]);
                k += 1;
                assert(out@ =~= seq!['m'] + rest@.take(k as int));
            }
            assert(rest@.take(rest.len() as int) =~= suffix);
            return string_of(&out);
        }
    }
    string_of(&v)
}

/// How a presence status appears in notifications.
pub open spec fn notification_word(status: Seq<char>) -> Seq<char> {
    if status == "online"@ || status == "in"@ {
        "up"@
    } else if status == "offline"@ || status == "out"@ {
        "down"@
    } else {
        status
    }
}

/// A numbered user `u<digits>` is announced as `m<digits>`; a name that
/// does not start with `u`, or `u` followed by anything but digits, is
/// announced as it is.  Coming online or in reads "up", going offline or
/// out reads "down".
pub proof fn lemma_notification_names(digits: Seq<char>, name: Seq<char>)
    ensures
        digits.len() > 0 && all_digits(digits) ==> notification_name(seq!['u'] + digits)
            == seq!['m'] + digits,
        (name.len() == 0 || name[0] != 'u' || !all_digits(name.drop_first()) || name.len() == 1)
            ==> notification_name(name) == name,
        notification_word("online"@) == "up"@ && notification_word("in"@) == "up"@,
        notification_word("offline"@) == "down"@ && notification_word("out"@) == "down"@,
{
    reveal_strlit("online");
    reveal_strlit("in");
    reveal_strlit("offline");
    reveal_strlit("out");
    assert("offline"@.len() != "online"@.len() && "offline"@.len() != "in"@.len());
    assert("out"@.len() != "online"@.len() && "out"@.len() != "in"@.len());
    assert((seq!['u'] + digits).drop_first() =~= digits);
}

pub fn notification_status(status: &str) -> (word: String)
    ensures
        word@ == notification_word(status@),
{
    if str_eq(status, "online") || str_eq(status, "in") {
        String::from_str("up")
    } else if str_eq(status, "offline") || str_eq(status, "out") {
        String::from_str("down")
    } else {
        String::from_str(status)
    }
}

/// The text of a presence notification.
pub fn notification_body(username: &str, status: &str) -> (body: String)
    ensures
        body@ == notification_name(username@) + seq![' '] + notification_word(status@),
{
    let mut out = chars_of(notification_username(username).as_str());
    out.push(' ');
    extend_str(&mut out, notification_status(status).as_str());
    string_of(&out)
}

/// The arguments of the `curl` command that publishes `body` to the topic
/// at `url`: quietly, failing on an HTTP error, within five seconds, tagged
/// with a person icon.
pub open spec fn publish_args(url: Seq<char>, body: Seq<char>) -> Seq<Seq<char>> {
    seq![
        "--silent"@,
        "--show-error"@,
        "--fail"@,
        "--max-time"@,
        "5"@,
        "--data-binary"@,
        body,
        "-H"@,
        "Tags: bust_in_silhouette"@,
        url,
    ]
}

pub fn publish_command_args(url: &str, body: &str) -> (args: Vec<String>)
    ensures
        args@.map_values(|a: String| a@) == publish_args(url@, body@),
{
    let args = vec![
        String::from_str("--silent"),
        String::from_str("--show-error"),
        String::from_str("--fail"),
        String::from_str("--max-time"),
        String::from_str("5"),
        String::from_str("--data-binary"),
        String::from_str(body),
        String::from_str("-H"),
        String::from_str("Tags: bust_in_silhouette"),
        String::from_str(url),
    ];
    assert(args@.map_values(|a: String| a@) =~= publish_args(url@, body@));
    args
}

} // verus!
