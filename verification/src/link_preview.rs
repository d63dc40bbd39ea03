//! Link previews: finding a link in a message, checking it, and reading the
//! title, description and image of the page it points to.
//!
//! Fetching pages is I/O and stays with the caller; everything that decides
//! what to fetch and what to show is here.
use vstd::prelude::*;

use crate::encoding::{all_digits, decimal_value, parse_u16, parse_u16_range, percent_encoded};
use crate::text::{
    chars_of, contains_char, ends_with, ends_with_vec, eq_ignore_case, eq_ignore_case_vec, find,
    find_vec, first_piece, is_ascii_digit, lemma_find_first, prefix_outside_len, rfind_char,
    rfind_char_vec, same_chars, slice_vec, starts_with, starts_with_vec, string_of, trim, trim_vec,
    CharClass, extend_range, extend_str, lower, lower_vec, next_word, skip_class_forward,
    trim_class, trim_class_vec, trim_start_class, words, collapse_whitespace, find_from,
    join_words, matches_at, matches_at_exec, skip_class_backward, replace_all, replace_str, trim_end_class,
    lemma_trim_class, in_class, is_ws, lemma_replace_all_absent, lemma_replace_all_at_start, lemma_replace_all_prefix,
};

pub use crate::encoding::percent_encode;

verus! {

/// An `http` or `https` URL that passed [`parse_http_url`].
#[derive(Debug)]
pub struct ParsedUrl {
    pub url: String,
    pub host: String,
    pub port: u16,
    pub path: String,
}

/// The model of a [`ParsedUrl`].
pub struct UrlParts {
    pub url: Seq<char>,
    pub host: Seq<char>,
    pub port: u16,
    pub path: Seq<char>,
}

impl View for ParsedUrl {
    type V = UrlParts;

    open spec fn view(&self) -> UrlParts {
        UrlParts { url: self.url@, host: self.host@, port: self.port, path: self.path@ }
    }
}

/// The host and port named by the authority part of a URL.
///
/// A bracketed IPv6 host keeps its default port unless `:` and a valid port
/// follow the bracket; otherwise digits after the last `:` must form a valid
/// port, and any other text after it belongs to the host.
pub open spec fn host_and_port(authority: Seq<char>, default_port: u16) -> Option<(Seq<char>, u16)> {
    if authority.len() > 0 && authority[0] == '[' {
        match find(authority, seq![']']) {
            None => None,
            Some(end) => {
                let after = authority.skip(end + 1);
                let port = if after.len() > 0 && after[0] == ':' {
                    match parse_u16(after.drop_first()) {
                        Some(p) => p,
                        None => default_port,
                    }
                } else {
                    default_port
                };
                Some((authority.subrange(1, end), port))
            },
        }
    } else {
        match rfind_char(authority, ':') {
            Some(c) => {
                let explicit = authority.skip(c + 1);
                if all_digits(explicit) {
                    match parse_u16(explicit) {
                        Some(p) => Some((authority.take(c), p)),
                        None => None,
                    }
                } else {
                    Some((authority, default_port))
                }
            },
            None => Some((authority, default_port)),
        }
    }
}

/// The path of a URL whose text after `://` is `rest` and whose authority is
/// `authority`: what follows the authority up to `?` or `#`.
pub open spec fn url_path(rest: Seq<char>, authority: Seq<char>) -> Seq<char> {
    if starts_with(rest, authority) {
        first_piece(rest.skip(authority.len() as int), CharClass::PathEnd)
    } else {
        seq![]
    }
}

pub open spec fn is_local_host(host: Seq<char>) -> bool {
    eq_ignore_case(host, "localhost"@) || ends_with(host, ".localhost"@)
}

/// What [`parse_http_url`] accepts: an `http` or `https` URL whose authority
/// is not empty, holds no `@`, names a non-empty host that is not
/// `localhost` or under `.localhost`, and has a valid port if it has one.
pub open spec fn parsed_http_url(value: Seq<char>) -> Option<UrlParts> {
    match find(value, "://"@) {
        None => None,
        Some(k) => {
            let scheme = value.take(k);
            let rest = value.skip(k + "://"@.len());
            if scheme != "http"@ && scheme != "https"@ {
                None
            } else {
                let default_port: u16 = if scheme == "http"@ {
                    80
                } else {
                    443
                };
                let authority = trim(first_piece(rest, CharClass::AuthorityEnd));
                if authority.len() == 0 || authority.contains('@') {
                    None
                } else {
                    match host_and_port(authority, default_port) {
                        None => None,
                        Some((host, port)) => {
                            if host.len() == 0 || is_local_host(host) {
                                None
                            } else {
                                Some(
                                    UrlParts {
                                        url: value,
                                        host,
                                        port,
                                        path: url_path(rest, authority),
                                    },
                                )
                            }
                        },
                    }
                }
            }
        },
    }
}

proof fn lemma_rfind_last_occurrence(x: Seq<char>, c: char, y: Seq<char>)
    requires
        forall|k: int| 0 <= k < y.len() ==> y[k] != c,
    ensures
        rfind_char(x + seq![c] + y, c) == Some(x.len() as int),
    decreases y.len(),
{
    let s = x + seq![c] + y;
    if y.len() > 0 {
        assert(s.last() == y.last());
        assert(s.drop_last() =~= x + seq![c] + y.drop_last());
        lemma_rfind_last_occurrence(x, c, y.drop_last());
    } else {
        assert(s.last() == c);
    }
}

/// A link with an explicit port keeps that port: for an `http` or `https`
/// URL whose authority is a plain host name, `:` and a decimal port number,
/// followed by a path (nothing, or text from `/` without `?` or `#`), the
/// parse gives that host, the port number written, and that path; not the
/// scheme's default port.
pub proof fn lemma_explicit_port(https: bool, host: Seq<char>, digits: Seq<char>, path: Seq<char>)
    requires
        host.len() > 0,
        host[0] != '[',
        forall|k: int|
            0 <= k < host.len() ==> #[trigger] host[k] != ':' && host[k] != '@' && host[k] != '/'
                && host[k] != '?' && host[k] != '#' && !is_ws(host[k]),
        !is_local_host(host),
        digits.len() > 0,
        all_digits(digits),
        decimal_value(digits) <= 65535,
        path.len() == 0 || path[0] == '/',
        forall|k: int| 0 <= k < path.len() ==> #[trigger] path[k] != '?' && path[k] != '#',
    ensures
        ({
            let scheme = if https {
                "https"@
            } else {
                "http"@
            };
            let url = scheme + "://"@ + host + seq![':'] + digits + path;
            parsed_http_url(url) == Some(
                UrlParts { url, host, port: decimal_value(digits) as u16, path },
            )
        }),
{
    reveal_strlit("https");
    reveal_strlit("http");
    reveal_strlit("://");
    let scheme = if https {
        "https"@
    } else {
        "http"@
    };
    let sep = "://"@;
    let authority = host + seq![':'] + digits;
    let rest = authority + path;
    let url = scheme + "://"@ + host + seq![':'] + digits + path;
    assert(url =~= scheme + sep + rest);
    let k = scheme.len() as int;
    // The scheme ends at the first `://`.
    assert(matches_at(url, sep, k)) by {
        assert(url.subrange(k, k + 3) =~= sep);
    }
    assert forall|j: int| 0 <= j < k implies !matches_at(url, sep, j) by {
        assert(url[j] == scheme[j]);
        if matches_at(url, sep, j) {
            assert(url.subrange(j, j + 3)[0] == url[j]);
        }
    }
    crate::text::lemma_find_unique(url, sep, k);
    assert(url.take(k) =~= scheme);
    assert(url.skip(k + 3) =~= rest);
    // The authority runs up to the path.
    assert forall|i: int| 0 <= i < authority.len() implies !in_class(
        CharClass::AuthorityEnd,
        #[trigger] authority[i],
    ) by {
        if i < host.len() {
            assert(authority[i] == host[i]);
        } else if i > host.len() {
            assert(authority[i] == digits[i - host.len() - 1]);
            assert(is_ascii_digit(digits[i - host.len() - 1]));
        }
    }
    crate::text::lemma_prefix_outside_concat(authority, path, CharClass::AuthorityEnd);
    assert(first_piece(rest, CharClass::AuthorityEnd) =~= authority);
    // It needs no trimming.
    assert(authority[0] == host[0]);
    assert(authority.last() == digits.last());
    assert(is_ascii_digit(digits[digits.len() - 1]));
    assert(trim_start_class(authority, CharClass::Whitespace) == authority);
    assert(trim_end_class(authority, CharClass::Whitespace) == authority);
    assert(trim(authority) == authority);
    assert(!authority.contains('@')) by {
        if authority.contains('@') {
            let i = choose|i: int| 0 <= i < authority.len() && authority[i] == '@';
            if i < host.len() {
                assert(authority[i] == host[i]);
            } else if i > host.len() {
                assert(authority[i] == digits[i - host.len() - 1]);
                assert(is_ascii_digit(digits[i - host.len() - 1]));
            }
        }
    }
    // The port follows the last `:`.
    lemma_rfind_last_occurrence(host, ':', digits);
    assert(authority.skip(host.len() + 1int) =~= digits);
    assert(authority.take(host.len() as int) =~= host);
    assert(is_ascii_digit(digits[0]));
    // The path is what follows the authority.
    assert(rest.take(authority.len() as int) =~= authority);
    assert(rest.skip(authority.len() as int) =~= path);
    assert forall|i: int| 0 <= i < path.len() implies !in_class(
        CharClass::PathEnd,
        #[trigger] path[i],
    ) by {}
    crate::text::lemma_prefix_outside_concat(path, Seq::<char>::empty(), CharClass::PathEnd);
    assert(path + Seq::<char>::empty() =~= path);
    assert(path.take(path.len() as int) =~= path);
}

proof fn lemma_rfind_in_bounds(x: Seq<char>, c: char)
    ensures
        rfind_char(x, c) matches Some(k) ==> 0 <= k < x.len() && x[k] == c,
    decreases x.len(),
{
    if x.len() > 0 && x.last() != c {
        lemma_rfind_in_bounds(x.drop_last(), c);
    }
}

proof fn lemma_rfind_absent(x: Seq<char>, c: char)
    requires
        forall|k: int| 0 <= k < x.len() ==> x[k] != c,
    ensures
        rfind_char(x, c) is None,
    decreases x.len(),
{
    if x.len() > 0 {
        lemma_rfind_absent(x.drop_last(), c);
    }
}

/// The host that `host_and_port` reads is a stretch of the authority.
proof fn lemma_host_within_authority(authority: Seq<char>, default_port: u16)
    ensures
        host_and_port(authority, default_port) matches Some((h, _)) ==> exists|x: int, y: int|
            0 <= x <= y <= authority.len() && h == authority.subrange(x, y),
{
    if let Some((h, _)) = host_and_port(authority, default_port) {
        if authority.len() > 0 && authority[0] == '[' {
            let end = find(authority, seq![']'])->0;
            lemma_find_first(authority, seq![']']);
            assert(authority.subrange(end, end + 1)[0] == authority[end]);
            assert(end >= 1);
            assert(h == authority.subrange(1, end));
            assert(0 <= 1 <= end <= authority.len());
        } else {
            match rfind_char(authority, ':') {
                Some(c) => {
                    let explicit = authority.skip(c + 1);
                    lemma_rfind_in_bounds(authority, ':');
                    if all_digits(explicit) {
                        assert(h == authority.subrange(0, c));
                    } else {
                        assert(h == authority.subrange(0, authority.len() as int));
                    }
                },
                None => {
                    assert(h == authority.subrange(0, authority.len() as int));
                },
            }
        }
    }
}

/// What every accepted link is: its text kept whole, starting with
/// `http://` or `https://`, with a host that is not empty, holds no `@`, and
/// is neither `localhost` (in any case) nor a name under `.localhost`.
pub proof fn lemma_parsed_url_is_acceptable(value: Seq<char>)
    ensures
        parsed_http_url(value) matches Some(p) ==> {
            &&& p.url == value
            &&& starts_with(value, "http://"@) || starts_with(value, "https://"@)
            &&& p.host.len() > 0
            &&& !p.host.contains('@')
            &&& lower(p.host) != lower("localhost"@)
            &&& !ends_with(p.host, ".localhost"@)
        },
{
    reveal_strlit("://");
    reveal_strlit("http");
    reveal_strlit("https");
    reveal_strlit("http://");
    reveal_strlit("https://");
    if let Some(p) = parsed_http_url(value) {
        let k = find(value, "://"@)->0;
        lemma_find_first(value, "://"@);
        let scheme = value.take(k);
        assert(k + 3 <= value.len());
        assert(scheme.len() == k);
        if scheme == "http"@ {
            assert(k == 4);
            assert(value.take(7) =~= "http://"@) by {
                assert(value.subrange(k, k + 3) == "://"@);
                assert forall|i: int| 0 <= i < 7 implies value.take(7)[i] == "http://"@[i] by {
                    if i < 4 {
                        assert(value[i] == scheme[i]);
                    } else {
                        assert(value[i] == value.subrange(k, k + 3)[i - 4]);
                    }
                }
            }
        } else {
            assert(scheme == "https"@);
            assert(k == 5);
            assert(value.take(8) =~= "https://"@) by {
                assert(value.subrange(k, k + 3) == "://"@);
                assert forall|i: int| 0 <= i < 8 implies value.take(8)[i] == "https://"@[i] by {
                    if i < 5 {
                        assert(value[i] == scheme[i]);
                    } else {
                        assert(value[i] == value.subrange(k, k + 3)[i - 5]);
                    }
                }
            }
        }
        let rest = value.skip(k + "://"@.len());
        let authority = trim(first_piece(rest, CharClass::AuthorityEnd));
        let default_port: u16 = if scheme == "http"@ {
            80
        } else {
            443
        };
        lemma_host_within_authority(authority, default_port);
        let (x, y) = choose|x: int, y: int|
            0 <= x <= y <= authority.len() && p.host == authority.subrange(x, y);
        if p.host.contains('@') {
            let i = choose|i: int| 0 <= i < p.host.len() && p.host[i] == '@';
            assert(authority[x + i] == '@');
        }
    }
}

/// A link without a port gets its scheme's: 80 for `http`, 443 for `https`,
/// with the host and path as written (the path being nothing, or text from
/// `/` without `?` or `#`).
pub proof fn lemma_default_port(https: bool, host: Seq<char>, path: Seq<char>)
    requires
        host.len() > 0,
        host[0] != '[',
        forall|k: int|
            0 <= k < host.len() ==> #[trigger] host[k] != ':' && host[k] != '@' && host[k] != '/'
                && host[k] != '?' && host[k] != '#' && !is_ws(host[k]),
        !is_local_host(host),
        path.len() == 0 || path[0] == '/',
        forall|k: int| 0 <= k < path.len() ==> #[trigger] path[k] != '?' && path[k] != '#',
    ensures
        ({
            let scheme = if https {
                "https"@
            } else {
                "http"@
            };
            let url = scheme + "://"@ + host + path;
            parsed_http_url(url) == Some(
                UrlParts {
                    url,
                    host,
                    port: if https {
                        443
                    } else {
                        80
                    },
                    path,
                },
            )
        }),
{
    reveal_strlit("https");
    reveal_strlit("http");
    reveal_strlit("://");
    let scheme = if https {
        "https"@
    } else {
        "http"@
    };
    let sep = "://"@;
    let rest = host + path;
    let url = scheme + "://"@ + host + path;
    assert(url =~= scheme + sep + rest);
    let k = scheme.len() as int;
    assert(matches_at(url, sep, k)) by {
        assert(url.subrange(k, k + 3) =~= sep);
    }
    assert forall|j: int| 0 <= j < k implies !matches_at(url, sep, j) by {
        assert(url[j] == scheme[j]);
        if matches_at(url, sep, j) {
            assert(url.subrange(j, j + 3)[0] == url[j]);
        }
    }
    crate::text::lemma_find_unique(url, sep, k);
    assert(url.take(k) =~= scheme);
    assert(url.skip(k + 3) =~= rest);
    assert forall|i: int| 0 <= i < host.len() implies !in_class(
        CharClass::AuthorityEnd,
        #[trigger] host[i],
    ) by {}
    crate::text::lemma_prefix_outside_concat(host, path, CharClass::AuthorityEnd);
    assert(first_piece(rest, CharClass::AuthorityEnd) =~= host);
    assert(trim_start_class(host, CharClass::Whitespace) == host);
    assert(trim_end_class(host, CharClass::Whitespace) == host);
    assert(trim(host) == host);
    assert(!host.contains('@'));
    lemma_rfind_absent(host, ':');
    assert(rest.take(host.len() as int) =~= host);
    assert(rest.skip(host.len() as int) =~= path);
    assert forall|i: int| 0 <= i < path.len() implies !in_class(
        CharClass::PathEnd,
        #[trigger] path[i],
    ) by {}
    crate::text::lemma_prefix_outside_concat(path, Seq::<char>::empty(), CharClass::PathEnd);
    assert(path + Seq::<char>::empty() =~= path);
    assert(path.take(path.len() as int) =~= path);
}

fn host_and_port_exec(authority: &Vec<char>, default_port: u16) -> (r: Option<(Vec<char>, u16)>)
    ensures
        r matches Some((h, p)) ==> host_and_port(authority@, default_port) == Some((h@, p)),
        r is None ==> host_and_port(authority@, default_port) is None,
{
    if authority.len() > 0 && authority[0] == '[' {
        let close = vec![']'];
        assert(close@ =~= seq![']']);
        match find_vec(authority, &close) {
            None => None,
            Some(end) => {
                proof {
                    lemma_find_first(authority@, close@);
                    if end == 0 {
                        assert(authority@.subrange(0, 1)[0] == ']');
                    }
                }
                let host = slice_vec(authority, 1, end);
                let mut port = default_port;
                if end + 1 < authority.len() && authority[end + 1] == ':' {
                    match parse_u16_range(authority, end + 2, authority.len()) {
                        Some(p) => {
                            port = p;
                        },
                        None => {},
                    }
                }
                proof {
                    let after = authority@.skip(end + 1);
                    if after.len() > 0 {
                        assert(after[0] == authority@[end + 1]);
                        assert(after.drop_first() =~= authority@.subrange(
                            end + 2,
                            authority.len() as int,
                        ));
                    }
                }
                Some((host, port))
            },
        }
    } else {
        match rfind_char_vec(authority, ':') {
            None => {
                let a = slice_vec(authority, 0, authority.len());
                assert(a@ =~= authority@);
                Some((a, default_port))
            },
            Some(c) => {
                let explicit = slice_vec(authority, c + 1, authority.len());
                assert(explicit@ =~= authority@.skip(c + 1));
                let mut digits = true;
                let mut j: usize = 0;
                while j < explicit.len()
                    invariant
                        j <= explicit.len(),
                        digits == forall|k: int| 0 <= k < j ==> is_ascii_digit(explicit@[k]),
                    decreases explicit.len() - j,
                {
                    if !('0' <= explicit[j] && explicit[j] <= '9') {
                        digits = false;
                    }
                    j += 1;
                }
                assert(digits == all_digits(explicit@));
                assert(authority@.subrange(c + 1, authority.len() as int) =~= explicit@);
                if digits {
                    match parse_u16_range(authority, c + 1, authority.len()) {
                        Some(p) => {
                            let h = slice_vec(authority, 0, c);
                            assert(h@ =~= authority@.take(c as int));
                            Some((h, p))
                        },
                        None => None,
                    }
                } else {
                    let a = slice_vec(authority, 0, authority.len());
                    assert(a@ =~= authority@);
                    Some((a, default_port))
                }
            },
        }
    }
}

/// Splits the text after `://` into its trimmed authority and its path.
fn authority_and_path(rest: &Vec<char>) -> (r: (Vec<char>, Vec<char>))
    ensures
        r.0@ == trim(first_piece(rest@, CharClass::AuthorityEnd)),
        r.1@ == url_path(rest@, r.0@),
{
    let n = prefix_outside_len(rest, 0, CharClass::AuthorityEnd);
    assert(rest@.skip(0) =~= rest@);
    let raw = slice_vec(rest, 0, n);
    assert(raw@ =~= first_piece(rest@, CharClass::AuthorityEnd));
    let authority = trim_vec(&raw);
    if starts_with_vec(rest, &authority) {
        let after = slice_vec(rest, authority.len(), rest.len());
        assert(after@ =~= rest@.skip(authority.len() as int));
        let m = prefix_outside_len(&after, 0, CharClass::PathEnd);
        assert(after@.skip(0) =~= after@);
        let path = slice_vec(&after, 0, m);
        assert(path@ =~= first_piece(after@, CharClass::PathEnd));
        (authority, path)
    } else {
        (authority, Vec::new())
    }
}

/// Accepts `value` when it is an `http` or `https` URL with a usable host,
/// as [`parsed_http_url`] states.
pub fn parse_http_url(value: &str) -> (r: Option<ParsedUrl>)
    ensures
        r matches Some(p) ==> parsed_http_url(value@) == Some(p@),
        r is None ==> parsed_http_url(value@) is None,
{
    let v = chars_of(value);
    let sep = chars_of("://");
    let k = match find_vec(&v, &sep) {
        None => return None,
        Some(k) => k,
    };
    let scheme = slice_vec(&v, 0, k);
    assert(scheme@ =~= v@.take(k as int));
    let http = chars_of("http");
    let https = chars_of("https");
    let default_port: u16 = if same_chars(&scheme, &http) {
        80
    } else if same_chars(&scheme, &https) {
        443
    } else {
        return None;
    };
    let rest = slice_vec(&v, k + sep.len(), v.len());
    assert(rest@ =~= v@.skip(k + sep.len()));
    let (authority, path) = authority_and_path(&rest);
    if authority.len() == 0 || contains_char(&authority, '@') {
        return None;
    }
    let (host, port) = match host_and_port_exec(&authority, default_port) {
        None => return None,
        Some(hp) => hp,
    };
    let localhost = chars_of("localhost");
    let dot_localhost = chars_of(".localhost");
    if host.len() == 0 || eq_ignore_case_vec(&host, &localhost) || ends_with_vec(
        &host,
        &dot_localhost,
    ) {
        return None;
    }
    Some(
        ParsedUrl {
            url: string_of(&v),
            host: string_of(&host),
            port,
            path: string_of(&path),
        },
    )
}


/// The page whose metadata describes `parsed`: short `youtu.be/<id>` links
/// are read from the full YouTube watch page.
pub open spec fn metadata_url_of(parsed: UrlParts) -> Seq<char> {
    let trimmed = trim_start_class(parsed.path, CharClass::Slash);
    let id = first_piece(trimmed, CharClass::Slash);
    if eq_ignore_case(parsed.host, "youtu.be"@) && id.len() > 0 {
        "https://www.youtube.com/watch?v="@ + id
    } else {
        parsed.url
    }
}

pub fn metadata_fetch_url(parsed: &ParsedUrl) -> (url: String)
    ensures
        url@ == metadata_url_of(parsed@),
{
    let host = chars_of(parsed.host.as_str());
    let youtu_be = chars_of("youtu.be");
    if eq_ignore_case_vec(&host, &youtu_be) {
        let path = chars_of(parsed.path.as_str());
        let start = skip_class_forward(&path, 0, path.len(), CharClass::Slash);
        assert(path@.subrange(0, path.len() as int) =~= path@);
        let n = prefix_outside_len(&path, start, CharClass::Slash);
        assert(path@.subrange(start as int, path.len() as int) =~= path@.skip(start as int));
        if n > 0 {
            let mut url = chars_of("https://www.youtube.com/watch?v=");
            extend_range(&mut url, &path, start, start + n);
            assert(path@.skip(start as int).take(n as int) =~= path@.subrange(
                start as int,
                start + n,
            ));
            return string_of(&url);
        }
    }
    parsed.url.clone()
}

/// `url` with `www.` put after its first `://`.
pub open spec fn with_www(url: Seq<char>) -> Seq<char> {
    match find(url, "://"@) {
        Some(k) => url.take(k) + "://www."@ + url.skip(k + "://"@.len()),
        None => url,
    }
}

/// The same URL on the `www.` host, unless the host already starts with
/// `www.` or is an IP address (which the caller decides).
pub fn www_variant(parsed: &ParsedUrl, host_is_ip_address: bool) -> (r: Option<ParsedUrl>)
    ensures
        starts_with(parsed.host@, "www."@) || host_is_ip_address ==> r is None,
        !(starts_with(parsed.host@, "www."@) || host_is_ip_address) ==> (match r {
            Some(p) => parsed_http_url(with_www(parsed.url@)) == Some(p@),
            None => parsed_http_url(with_www(parsed.url@)) is None,
        }),
{
    let host = chars_of(parsed.host.as_str());
    let www = chars_of("www.");
    if starts_with_vec(&host, &www) || host_is_ip_address {
        return None;
    }
    let url = chars_of(parsed.url.as_str());
    let sep = chars_of("://");
    let candidate = match find_vec(&url, &sep) {
        Some(k) => {
            let mut c = slice_vec(&url, 0, k);
            extend_str(&mut c, "://www.");
            extend_range(&mut c, &url, k + sep.len(), url.len());
            assert(c@ =~= with_www(url@));
            c
        },
        None => url,
    };
    parse_http_url(string_of(&candidate).as_str())
}

/// An image address from a page, made absolute against `base` when it is
/// protocol-relative (`//host/..`) or host-relative (`/..`), and kept only
/// when it is an acceptable `http(s)` URL.
pub open spec fn normalized_preview_url(value: Seq<char>, base: UrlParts) -> Option<Seq<char>> {
    if parsed_http_url(value) is Some {
        Some(value)
    } else if starts_with(value, seq!['/', '/']) {
        let candidate = "https:"@ + value;
        if parsed_http_url(candidate) is Some {
            Some(candidate)
        } else {
            None
        }
    } else if starts_with(value, seq!['/']) {
        let candidate = "https://"@ + base.host + value;
        if parsed_http_url(candidate) is Some {
            Some(candidate)
        } else {
            None
        }
    } else {
        None
    }
}

pub fn normalize_preview_url(value: &str, base: &ParsedUrl) -> (r: Option<String>)
    ensures
        r matches Some(u) ==> normalized_preview_url(value@, base@) == Some(u@),
        r is None ==> normalized_preview_url(value@, base@) is None,
{
    if parse_http_url(value).is_some() {
        return Some(value.to_owned());
    }
    let v = chars_of(value);
    let two = vec!['/', '/'];
    let one = vec!['/'];
    assert(two@ =~= seq!['/', '/']);
    assert(one@ =~= seq!['/']);
    if starts_with_vec(&v, &two) {
        let mut c = chars_of("https:");
        extend_range(&mut c, &v, 0, v.len());
        assert(v@.subrange(0, v.len() as int) =~= v@);
        let candidate = string_of(&c);
        if parse_http_url(candidate.as_str()).is_some() {
            return Some(candidate);
        }
        return None;
    }
    if starts_with_vec(&v, &one) {
        let mut c = chars_of("https://");
        extend_str(&mut c, base.host.as_str());
        extend_range(&mut c, &v, 0, v.len());
        assert(v@.subrange(0, v.len() as int) =~= v@);
        let candidate = string_of(&c);
        if parse_http_url(candidate.as_str()).is_some() {
            return Some(candidate);
        }
        return None;
    }
    None
}

pub open spec fn is_youtube_host_spec(host: Seq<char>) -> bool {
    ||| eq_ignore_case(host, "youtu.be"@)
    ||| eq_ignore_case(host, "youtube.com"@)
    ||| ends_with(lower(host), ".youtube.com"@)
}

/// Whether `host` belongs to YouTube, ignoring ASCII case.
pub fn is_youtube_host(host: &str) -> (r: bool)
    ensures
        r == is_youtube_host_spec(host@),
{
    let h = chars_of(host);
    let short = chars_of("youtu.be");
    let main = chars_of("youtube.com");
    let sub = chars_of(".youtube.com");
    eq_ignore_case_vec(&h, &short) || eq_ignore_case_vec(&h, &main) || ends_with_vec(
        &lower_vec(&h),
        &sub,
    )
}

/// `value` without the punctuation that surrounds links in prose.
pub fn trim_url_token(value: &str) -> (r: String)
    ensures
        r@ == trim_class(value@, CharClass::UrlPunctuation),
{
    let v = chars_of(value);
    string_of(&trim_class_vec(&v, CharClass::UrlPunctuation))
}

/// The first of `tokens` that, once stripped of surrounding punctuation, is
/// an acceptable link.
pub open spec fn first_link(tokens: Seq<Seq<char>>) -> Option<Seq<char>>
    decreases tokens.len(),
{
    if tokens.len() == 0 {
        None
    } else {
        let t = trim_class(tokens[0], CharClass::UrlPunctuation);
        if parsed_http_url(t) is Some {
            Some(t)
        } else {
            first_link(tokens.drop_first())
        }
    }
}

/// The characters that surround links in prose: double and single quotes,
/// angle brackets, parentheses, square brackets, braces, and `,` `.` `!` `?`
/// `;` `:`.
pub open spec fn is_link_punctuation(c: char) -> bool {
    c == '"' || c == '\'' || c == '<' || c == '>' || c == '(' || c == ')' || c == '[' || c == ']'
        || c == '{' || c == '}' || c == ',' || c == '.' || c == '!' || c == '?' || c == ';' || c
        == ':'
}

/// Trimming a token keeps a contiguous part of it, drops only link
/// punctuation at either end, and leaves none at the ends of what it keeps.
pub proof fn lemma_trimmed_token(s: Seq<char>)
    ensures
        exists|i: int, j: int|
            0 <= i <= j <= s.len() && trim_class(s, CharClass::UrlPunctuation) == s.subrange(i, j)
                && (forall|k: int| 0 <= k < i ==> is_link_punctuation(#[trigger] s[k])) && (
            forall|k: int| j <= k < s.len() ==> is_link_punctuation(#[trigger] s[k])),
        trim_class(s, CharClass::UrlPunctuation).len() > 0 ==> !is_link_punctuation(
            trim_class(s, CharClass::UrlPunctuation)[0],
        ) && !is_link_punctuation(trim_class(s, CharClass::UrlPunctuation).last()),
{
    lemma_trim_class(s, CharClass::UrlPunctuation);
}

/// The link found in a message is one of its words with surrounding link
/// punctuation removed: it is an acceptable URL, not empty, and neither
/// starts nor ends with link punctuation; no earlier word gives one.
pub proof fn lemma_first_link_trimmed(tokens: Seq<Seq<char>>)
    ensures
        first_link(tokens) matches Some(u) ==> {
            &&& u.len() > 0
            &&& !is_link_punctuation(u[0])
            &&& !is_link_punctuation(u.last())
            &&& parsed_http_url(u) is Some
            &&& exists|k: int|
                0 <= k < tokens.len() && u == trim_class(
                    #[trigger] tokens[k],
                    CharClass::UrlPunctuation,
                ) && forall|m: int|
                    0 <= m < k ==> parsed_http_url(
                        trim_class(#[trigger] tokens[m], CharClass::UrlPunctuation),
                    ) is None
        },
    decreases tokens.len(),
{
    if tokens.len() > 0 {
        let t = trim_class(tokens[0], CharClass::UrlPunctuation);
        if parsed_http_url(t) is Some {
            lemma_trimmed_token(tokens[0]);
            lemma_find_first(t, "://"@);
            reveal_strlit("://");
            assert(t.len() >= 3);
        } else {
            let rest = tokens.drop_first();
            lemma_first_link_trimmed(rest);
            if let Some(u) = first_link(rest) {
                let k = choose|k: int|
                    0 <= k < rest.len() && u == trim_class(
                        #[trigger] rest[k],
                        CharClass::UrlPunctuation,
                    ) && forall|m: int|
                        0 <= m < k ==> parsed_http_url(
                            trim_class(#[trigger] rest[m], CharClass::UrlPunctuation),
                        ) is None;
                assert(tokens[k + 1] == rest[k]);
                assert forall|m: int| 0 <= m < k + 1 implies parsed_http_url(
                    trim_class(#[trigger] tokens[m], CharClass::UrlPunctuation),
                ) is None by {
                    if m > 0 {
                        assert(tokens[m] == rest[m - 1]);
                    }
                }
            }
        }
    }
}

/// The first link in a chat message: the first whitespace-separated word that
/// is an acceptable `http(s)` URL once surrounding punctuation is trimmed.
pub fn first_url(value: &str) -> (r: Option<String>)
    ensures
        r matches Some(u) ==> first_link(words(value@)) == Some(u@),
        r is None ==> first_link(words(value@)) is None,
{
    let v = chars_of(value);
    let mut i: usize = 0;
    assert(v@.skip(0) =~= v@);
    while i < v.len()
        invariant
            i <= v.len(),
            v@ == value@,
            first_link(words(v@)) == first_link(words(v@.skip(i as int))),
        decreases v.len() - i,
    {
        match next_word(&v, i) {
            None => {
                return None;
            },
            Some((start, end)) => {
                let word = slice_vec(&v, start, end);
                let token = string_of(&trim_class_vec(&word, CharClass::UrlPunctuation));
                let ghost ws = words(v@.skip(i as int));
                assert(ws[0] == word@);
                assert(ws.drop_first() =~= words(v@.skip(end as int)));
                if parse_http_url(token.as_str()).is_some() {
                    return Some(token);
                }
                i = end;
            },
        }
    }
    assert(v@.skip(i as int) =~= Seq::<char>::empty());
    None
}


/// The five basic HTML entities decoded, one after another.
pub open spec fn decoded_entities(s: Seq<char>) -> Seq<char> {
    replace_all(
        replace_all(
            replace_all(
                replace_all(replace_all(s, "&amp;"@, "&"@), "&quot;"@, "\""@),
                "&#39;"@,
                "'"@,
            ),
            "&lt;"@,
            "<"@,
        ),
        "&gt;"@,
        ">"@,
    )
}

/// Whether `s` holds no `&`.
pub open spec fn has_no_ampersand(s: Seq<char>) -> bool {
    forall|k: int| 0 <= k < s.len() ==> s[k] != '&'
}

/// Replacing `from` leaves `a + x` alone when `a` and all of `x` but its
/// leading `&` hold no `&`, and `x` does not start with `from` (it is too
/// short, or differs from it in its second character).
proof fn lemma_entity_kept(a: Seq<char>, x: Seq<char>, from: Seq<char>, to: Seq<char>)
    requires
        has_no_ampersand(a),
        x.len() > 0,
        x[0] == '&',
        has_no_ampersand(x.drop_first()),
        from.len() >= 2,
        from[0] == '&',
        x.len() < from.len() || x[1] != from[1],
    ensures
        replace_all(a + x, from, to) == a + x,
{
    assert(!starts_with(x, from)) by {
        if starts_with(x, from) {
            assert(x.take(from.len() as int)[1] == x[1]);
        }
    }
    lemma_replace_all_prefix(a, x, from, to);
    lemma_replace_all_absent(x.drop_first(), from, to);
    assert(seq![x[0]] + x.drop_first() =~= x);
}

/// Replacing the entity `e` that stands between `a` and `b`, which hold no
/// `&`, gives `a + to + b`.
proof fn lemma_entity_replaced(a: Seq<char>, e: Seq<char>, b: Seq<char>, to: Seq<char>)
    requires
        has_no_ampersand(a),
        has_no_ampersand(b),
        e.len() > 0,
        e[0] == '&',
    ensures
        replace_all(a + e + b, e, to) == a + to + b,
{
    assert(a + e + b =~= a + (e + b));
    lemma_replace_all_prefix(a, e + b, e, to);
    lemma_replace_all_at_start(b, e, to);
    lemma_replace_all_absent(b, e, to);
    assert(a + (to + b) =~= a + to + b);
}

/// Decoding leaves text without `&` as it is, and turns each of the five
/// entities `&quot;` `&#39;` `&lt;` `&gt;` and `&amp;`, standing alone in
/// such text, into its character.  (`&amp;` becomes `&` first, so that
/// `&amp;lt;` ends as `<`; the law on `&amp;` leaves out text that goes on
/// with `quot;`, `#39;`, `lt;` or `gt;`, by its first character.)
pub proof fn lemma_entities_decoded(a: Seq<char>, b: Seq<char>)
    requires
        has_no_ampersand(a),
        has_no_ampersand(b),
    ensures
        decoded_entities(a + b) == a + b,
        decoded_entities(a + "&quot;"@ + b) == a + "\""@ + b,
        decoded_entities(a + "&#39;"@ + b) == a + "'"@ + b,
        decoded_entities(a + "&lt;"@ + b) == a + "<"@ + b,
        decoded_entities(a + "&gt;"@ + b) == a + ">"@ + b,
        (b.len() == 0 || (b[0] != 'q' && b[0] != '#' && b[0] != 'l' && b[0] != 'g'))
            ==> decoded_entities(a + "&amp;"@ + b) == a + "&"@ + b,
{
    reveal_strlit("&amp;");
    reveal_strlit("&quot;");
    reveal_strlit("&#39;");
    reveal_strlit("&lt;");
    reveal_strlit("&gt;");
    reveal_strlit("&");
    reveal_strlit("\"");
    reveal_strlit("'");
    reveal_strlit("<");
    reveal_strlit(">");
    let amp = "&amp;"@;
    let quot = "&quot;"@;
    let apos = "&#39;"@;
    let lt = "&lt;"@;
    let gt = "&gt;"@;
    // Text without `&`.
    let plain = a + b;
    assert(has_no_ampersand(plain)) by {
        assert forall|k: int| 0 <= k < plain.len() implies plain[k] != '&' by {
            if k < a.len() {
                assert(plain[k] == a[k]);
            } else {
                assert(plain[k] == b[k - a.len()]);
            }
        }
    }
    lemma_replace_all_absent(plain, amp, "&"@);
    lemma_replace_all_absent(plain, quot, "\""@);
    lemma_replace_all_absent(plain, apos, "'"@);
    lemma_replace_all_absent(plain, lt, "<"@);
    lemma_replace_all_absent(plain, gt, ">"@);
    // One entity other than `&amp;`: every other replacement keeps the text,
    // its own replaces it, and afterwards no `&` is left.
    let entities = seq![quot, apos, lt, gt];
    let chars = seq!["\""@, "'"@, "<"@, ">"@];
    assert forall|n: int| 0 <= n < 4 implies decoded_entities(a + #[trigger] entities[n] + b) == a
        + chars[n] + b by {
        let e = entities[n];
        let c = chars[n];
        let x = e + b;
        assert(x.drop_first() =~= e.drop_first() + b);
        assert(has_no_ampersand(x.drop_first())) by {
            assert forall|k: int| 0 <= k < x.drop_first().len() implies x.drop_first()[k]
                != '&' by {
                if k < e.len() - 1 {
                    assert(x.drop_first()[k] == e[k + 1]);
                } else {
                    assert(x.drop_first()[k] == b[k - (e.len() - 1)]);
                }
            }
        }
        assert(a + e + b =~= a + x);
        let r = a + c + b;
        assert(has_no_ampersand(r)) by {
            assert forall|k: int| 0 <= k < r.len() implies r[k] != '&' by {
                if k < a.len() {
                    assert(r[k] == a[k]);
                } else if k < a.len() + c.len() {
                    assert(r[k] == c[k - a.len()]);
                } else {
                    assert(r[k] == b[k - a.len() - c.len()]);
                }
            }
        }
        lemma_entity_kept(a, x, amp, "&"@);
        if n == 0 {
            lemma_entity_replaced(a, e, b, c);
        } else {
            lemma_entity_kept(a, x, quot, "\""@);
        }
        if n == 1 {
            lemma_entity_replaced(a, e, b, c);
        } else if n > 1 {
            lemma_entity_kept(a, x, apos, "'"@);
        }
        if n == 2 {
            lemma_entity_replaced(a, e, b, c);
        } else if n > 2 {
            lemma_entity_kept(a, x, lt, "<"@);
        }
        if n == 3 {
            lemma_entity_replaced(a, e, b, c);
        }
        if n < 1 {
            lemma_replace_all_absent(r, apos, "'"@);
        }
        if n < 2 {
            lemma_replace_all_absent(r, lt, "<"@);
        }
        if n < 3 {
            lemma_replace_all_absent(r, gt, ">"@);
        }
    }
    assert(entities[0] == quot && entities[1] == apos && entities[2] == lt && entities[3] == gt);
    assert(chars[0] == "\""@ && chars[1] == "'"@ && chars[2] == "<"@ && chars[3] == ">"@);
    // `&amp;`: it becomes `&`, which the later replacements keep.
    if b.len() == 0 || (b[0] != 'q' && b[0] != '#' && b[0] != 'l' && b[0] != 'g') {
        lemma_entity_replaced(a, amp, b, "&"@);
        let x = "&"@ + b;
        assert(x.drop_first() =~= b);
        assert(a + "&"@ + b =~= a + x);
        if b.len() > 0 {
            assert(x[1] == b[0]);
        }
        lemma_entity_kept(a, x, quot, "\""@);
        lemma_entity_kept(a, x, apos, "'"@);
        lemma_entity_kept(a, x, lt, "<"@);
        lemma_entity_kept(a, x, gt, ">"@);
    }
}

pub fn decode_basic_entities(value: &Vec<char>) -> (r: Vec<char>)
    ensures
        r@ == decoded_entities(value@),
{
    proof {
        reveal_strlit("&amp;");
        reveal_strlit("&quot;");
        reveal_strlit("&#39;");
        reveal_strlit("&lt;");
        reveal_strlit("&gt;");
    }
    let a = replace_str(value, "&amp;", "&");
    let b = replace_str(&a, "&quot;", "\"");
    let c = replace_str(&b, "&#39;", "'");
    let d = replace_str(&c, "&lt;", "<");
    replace_str(&d, "&gt;", ">")
}

/// The longest a cleaned-up text may be, in characters.
pub const MAX_TEXT_CHARS: usize = 220;

/// Text as shown in a preview: entities decoded, runs of whitespace
/// collapsed to one space, ends trimmed, cut to [`MAX_TEXT_CHARS`]
/// characters; `None` when nothing is left.
pub open spec fn cleaned_text(value: Seq<char>) -> Option<Seq<char>> {
    let v = trim(join_words(words(decoded_entities(value))));
    if v.len() == 0 {
        None
    } else if v.len() <= MAX_TEXT_CHARS {
        Some(v)
    } else {
        Some(v.take(MAX_TEXT_CHARS as int))
    }
}

/// Cleaned text is never empty, never longer than 220 characters, never
/// starts with whitespace, and ends with whitespace only where it was cut.
pub proof fn lemma_cleaned_text_shape(value: Seq<char>)
    ensures
        cleaned_text(value) matches Some(t) ==> {
            &&& 0 < t.len() <= 220
            &&& !is_ws(t[0])
            &&& t.len() < 220 ==> !is_ws(t.last())
        },
{
    let v = trim(join_words(words(decoded_entities(value))));
    crate::text::lemma_trim_class(join_words(words(decoded_entities(value))), CharClass::Whitespace);
    if v.len() > 220 {
        assert(v.take(220)[0] == v[0]);
    }
}

/// Short YouTube links `https://youtu.be/<id>` (host in any case, the id up
/// to the next `/`) are read from the watch page of that id; links to any
/// other host are read as they are.
pub proof fn lemma_metadata_url(parsed: UrlParts, id: Seq<char>, more: Seq<char>)
    ensures
        lower(parsed.host) == "youtu.be"@ && id.len() > 0 && id[0] != '/' && (forall|k: int|
            0 <= k < id.len() ==> #[trigger] id[k] != '/') && (more.len() == 0 || more[0] == '/')
            && parsed.path == seq!['/'] + id + more ==> metadata_url_of(parsed)
            == "https://www.youtube.com/watch?v="@ + id,
        lower(parsed.host) != "youtu.be"@ ==> metadata_url_of(parsed) == parsed.url,
{
    reveal_strlit("youtu.be");
    assert(lower("youtu.be"@) =~= "youtu.be"@);
    if lower(parsed.host) == "youtu.be"@ && id.len() > 0 && id[0] != '/' && (forall|k: int|
        0 <= k < id.len() ==> #[trigger] id[k] != '/') && (more.len() == 0 || more[0] == '/')
        && parsed.path == seq!['/'] + id + more {
        let path = parsed.path;
        assert(path[0] == '/');
        assert(path.drop_first() =~= id + more);
        assert((id + more)[0] == id[0]);
        assert(trim_start_class(id + more, CharClass::Slash) == id + more);
        assert(trim_start_class(path, CharClass::Slash) == id + more);
        crate::text::lemma_prefix_outside_concat(id, more, CharClass::Slash);
        assert((id + more).take(id.len() as int) =~= id);
    }
}

pub fn clean_text(value: &Vec<char>) -> (r: Option<Vec<char>>)
    ensures
        r matches Some(t) ==> cleaned_text(value@) == Some(t@),
        r is None ==> cleaned_text(value@) is None,
{
    let decoded = decode_basic_entities(value);
    let joined = collapse_whitespace(&decoded);
    let v = trim_vec(&joined);
    if v.len() == 0 {
        None
    } else if v.len() <= MAX_TEXT_CHARS {
        Some(v)
    } else {
        Some(slice_vec(&v, 0, MAX_TEXT_CHARS))
    }
}

/// The value of attribute `name` in the text of a tag: found after the first
/// `name=` (ignoring ASCII case in the tag), read up to the matching quote
/// when quoted, else up to whitespace with trailing `/` removed.
pub open spec fn attr_value_of(tag: Seq<char>, name: Seq<char>) -> Option<Seq<char>> {
    let pattern = name + seq!['='];
    match find(lower(tag), pattern) {
        None => None,
        Some(k) => {
            let value = tag.skip(k + pattern.len());
            if value.len() == 0 {
                None
            } else if value[0] == '"' || value[0] == '\'' {
                match find(value.drop_first(), seq![value[0]]) {
                    None => None,
                    Some(e) => Some(value.subrange(1, e + 1)),
                }
            } else {
                let ws = words(value);
                Some(
                    trim_end_class(
                        if ws.len() > 0 {
                            ws[0]
                        } else {
                            seq![]
                        },
                        CharClass::Slash,
                    ),
                )
            }
        },
    }
}

pub fn attr_value_from_tag(tag: &Vec<char>, name: &str) -> (r: Option<Vec<char>>)
    ensures
        r matches Some(v) ==> attr_value_of(tag@, name@) == Some(v@),
        r is None ==> attr_value_of(tag@, name@) is None,
{
    let lower_tag = lower_vec(tag);
    let mut pattern = chars_of(name);
    pattern.push('=');
    assert(pattern@ =~= name@ + seq!['=']);
    let k = match find_vec(&lower_tag, &pattern) {
        None => return None,
        Some(k) => k,
    };
    let start = k + pattern.len();
    let value = slice_vec(tag, start, tag.len());
    assert(value@ =~= tag@.skip(start as int));
    if value.len() == 0 {
        return None;
    }
    let quote = value[0];
    if quote == '"' || quote == '\'' {
        let q = vec![quote];
        assert(q@ =~= seq![value@[0]]);
        match find_from(&value, &q, 1) {
            None => {
                assert(value@.skip(1) =~= value@.drop_first());
                None
            },
            Some(e) => {
                assert(value@.skip(1) =~= value@.drop_first());
                Some(slice_vec(&value, 1, e + 1))
            },
        }
    } else {
        assert(value@.skip(0) =~= value@);
        match next_word(&value, 0) {
            None => Some(Vec::new()),
            Some((ws, we)) => {
                let word = slice_vec(&value, ws, we);
                let j = skip_class_backward(&word, 0, word.len(), CharClass::Slash);
                assert(word@.subrange(0, word.len() as int) =~= word@);
                let r = slice_vec(&word, 0, j);
                Some(r)
            },
        }
    }
}

pub open spec fn attr_matches(tag: Seq<char>, name: Seq<char>, expected: Seq<char>) -> bool {
    match attr_value_of(tag, name) {
        Some(v) => eq_ignore_case(v, expected),
        None => false,
    }
}

pub fn attr_equals(tag: &Vec<char>, name: &str, expected: &str) -> (r: bool)
    ensures
        r == attr_matches(tag@, name@, expected@),
{
    match attr_value_from_tag(tag, name) {
        Some(v) => eq_ignore_case_vec(&v, &chars_of(expected)),
        None => false,
    }
}

/// The text of the tag that starts at `i`: up to the first `>` after it.
pub open spec fn tag_text_at(html: Seq<char>, i: int) -> Option<Seq<char>> {
    match find(html.skip(i), seq!['>']) {
        Some(j) => Some(html.subrange(i, i + j)),
        None => None,
    }
}

/// What the `<meta` tag at `i` contributes: its cleaned `content`, when its
/// `attr` attribute equals `attr_value` ignoring ASCII case.
pub open spec fn meta_at(html: Seq<char>, attr: Seq<char>, attr_value: Seq<char>, i: int) -> Option<
    Seq<char>,
> {
    if matches_at(html, "<meta"@, i) {
        match tag_text_at(html, i) {
            Some(tag) => {
                if attr_matches(tag, attr, attr_value) {
                    match attr_value_of(tag, "content"@) {
                        Some(c) => cleaned_text(c),
                        None => None,
                    }
                } else {
                    None
                }
            },
            None => None,
        }
    } else {
        None
    }
}

/// The first contribution of a `<meta` tag at or after position `i`.
pub open spec fn meta_from(html: Seq<char>, attr: Seq<char>, attr_value: Seq<char>, i: int) -> Option<
    Seq<char>,
>
    decreases html.len() - i,
{
    if i < 0 || i >= html.len() {
        None
    } else {
        match meta_at(html, attr, attr_value, i) {
            Some(c) => Some(c),
            None => meta_from(html, attr, attr_value, i + 1),
        }
    }
}

/// The content of the first `<meta` tag whose `attr` is `attr_value`.
pub fn meta_content(html: &str, attr: &str, attr_value: &str) -> (r: Option<String>)
    ensures
        r matches Some(c) ==> meta_from(html@, attr@, attr_value@, 0) == Some(c@),
        r is None ==> meta_from(html@, attr@, attr_value@, 0) is None,
{
    let h = chars_of(html);
    let open = chars_of("<meta");
    let close = vec!['>'];
    assert(close@ =~= seq!['>']);
    let content = "content";
    let mut i: usize = 0;
    while i < h.len()
        invariant
            i <= h.len(),
            h@ == html@,
            open@ == "<meta"@,
            close@ == seq!['>'],
            content@ == "content"@,
            meta_from(html@, attr@, attr_value@, 0) == meta_from(
                html@,
                attr@,
                attr_value@,
                i as int,
            ),
        decreases h.len() - i,
    {
        if matches_at_exec(&h, &open, i) {
            match find_from(&h, &close, i) {
                None => {},
                Some(j) => {
                    let tag = slice_vec(&h, i, i + j);
                    if attr_equals(&tag, attr, attr_value) {
                        match attr_value_from_tag(&tag, content) {
                            None => {},
                            Some(c) => {
                                match clean_text(&c) {
                                    None => {},
                                    Some(t) => {
                                        return Some(string_of(&t));
                                    },
                                }
                            },
                        }
                    }
                },
            }
        }
        i += 1;
    }
    None
}

/// The cleaned text of the first `<title>` element, found ignoring ASCII case.
pub open spec fn title_of(html: Seq<char>) -> Option<Seq<char>> {
    let lo = lower(html);
    match find(lo, "<title"@) {
        None => None,
        Some(s) => match find(lo.skip(s), seq!['>']) {
            None => None,
            Some(a) => {
                let cs = s + a + 1;
                match find(lo.skip(cs), "</title>"@) {
                    None => None,
                    Some(b) => cleaned_text(html.subrange(cs, cs + b)),
                }
            },
        },
    }
}

pub fn title_text(html: &str) -> (r: Option<String>)
    ensures
        r matches Some(t) ==> title_of(html@) == Some(t@),
        r is None ==> title_of(html@) is None,
{
    let h = chars_of(html);
    let lo = lower_vec(&h);
    let open = chars_of("<title");
    let gt = vec!['>'];
    assert(gt@ =~= seq!['>']);
    let end_tag = chars_of("</title>");
    let s = match find_vec(&lo, &open) {
        None => return None,
        Some(s) => s,
    };
    let a = match find_from(&lo, &gt, s) {
        None => return None,
        Some(a) => a,
    };
    let cs = s + a + 1;
    let b = match find_from(&lo, &end_tag, cs) {
        None => return None,
        Some(b) => b,
    };
    let body = slice_vec(&h, cs, cs + b);
    match clean_text(&body) {
        None => None,
        Some(t) => Some(string_of(&t)),
    }
}


/// What a chat message shows under a link.
#[derive(Clone, Debug)]
pub struct LinkPreview {
    pub url: String,
    pub title: Option<String>,
    pub description: Option<String>,
    pub site_name: Option<String>,
    pub image_url: Option<String>,
}

/// The model of a [`LinkPreview`].
pub struct PreviewParts {
    pub url: Seq<char>,
    pub title: Option<Seq<char>>,
    pub description: Option<Seq<char>>,
    pub site_name: Option<Seq<char>>,
    pub image_url: Option<Seq<char>>,
}

impl View for LinkPreview {
    type V = PreviewParts;

    open spec fn view(&self) -> PreviewParts {
        PreviewParts {
            url: self.url@,
            title: self.title.deep_view(),
            description: self.description.deep_view(),
            site_name: self.site_name.deep_view(),
            image_url: self.image_url.deep_view(),
        }
    }
}

pub open spec fn first_some(a: Option<Seq<char>>, b: Option<Seq<char>>) -> Option<Seq<char>> {
    if a is Some {
        a
    } else {
        b
    }
}

/// The preview of `page`, read from the HTML of `fetched` (the page that was
/// actually downloaded): Open Graph tags first, then Twitter tags, then the
/// document title; no preview when there is neither title nor description.
pub open spec fn preview_of_page(page: UrlParts, fetched: UrlParts, html: Seq<char>) -> Option<
    PreviewParts,
> {
    let title = first_some(
        meta_from(html, "property"@, "og:title"@, 0),
        first_some(meta_from(html, "name"@, "twitter:title"@, 0), title_of(html)),
    );
    let description = first_some(
        meta_from(html, "property"@, "og:description"@, 0),
        first_some(
            meta_from(html, "name"@, "description"@, 0),
            meta_from(html, "name"@, "twitter:description"@, 0),
        ),
    );
    let site_name = first_some(meta_from(html, "property"@, "og:site_name"@, 0), Some(page.host));
    let image = first_some(
        meta_from(html, "property"@, "og:image"@, 0),
        first_some(
            meta_from(html, "property"@, "og:image:url"@, 0),
            meta_from(html, "name"@, "twitter:image"@, 0),
        ),
    );
    let image_url = match image {
        Some(u) => normalized_preview_url(u, fetched),
        None => None,
    };
    if title is None && description is None {
        None
    } else {
        Some(PreviewParts { url: page.url, title, description, site_name, image_url })
    }
}

/// What a page's preview shows: a page that has an Open Graph description, a
/// plain `<meta name="description">` or a Twitter description gets a
/// preview whose description is the first of these that it has; likewise a
/// page with an `og:title`, a `twitter:title` or a `<title>` gets one whose
/// title is the first of these.  The preview keeps the link's address and
/// names the site by `og:site_name`, else by the link's host.  A page with
/// none of the six gets no preview.
pub proof fn lemma_page_preview_fields(page: UrlParts, fetched: UrlParts, html: Seq<char>)
    ensures
        ({
            let og = meta_from(html, "property"@, "og:description"@, 0);
            let plain = meta_from(html, "name"@, "description"@, 0);
            let twitter = meta_from(html, "name"@, "twitter:description"@, 0);
            (og is Some || plain is Some || twitter is Some) ==> (preview_of_page(page, fetched, html)
                is Some && preview_of_page(page, fetched, html)->0.description == if og is Some {
                og
            } else if plain is Some {
                plain
            } else {
                twitter
            })
        }),
        ({
            let og = meta_from(html, "property"@, "og:title"@, 0);
            let twitter = meta_from(html, "name"@, "twitter:title"@, 0);
            let doc = title_of(html);
            (og is Some || twitter is Some || doc is Some) ==> (preview_of_page(page, fetched, html)
                is Some && preview_of_page(page, fetched, html)->0.title == if og is Some {
                og
            } else if twitter is Some {
                twitter
            } else {
                doc
            })
        }),
        preview_of_page(page, fetched, html) matches Some(p) ==> p.url == page.url && p.site_name
            == if meta_from(html, "property"@, "og:site_name"@, 0) is Some {
            meta_from(html, "property"@, "og:site_name"@, 0)
        } else {
            Some(page.host)
        },
        (meta_from(html, "property"@, "og:description"@, 0) is None && meta_from(
            html,
            "name"@,
            "description"@,
            0,
        ) is None && meta_from(html, "name"@, "twitter:description"@, 0) is None && meta_from(
            html,
            "property"@,
            "og:title"@,
            0,
        ) is None && meta_from(html, "name"@, "twitter:title"@, 0) is None && title_of(html)
            is None) ==> preview_of_page(page, fetched, html) is None,
{
}

fn meta_or(html: &str, attr: &str, value: &str, fallback: Option<String>) -> (r: Option<String>)
    ensures
        r.deep_view() == first_some(meta_from(html@, attr@, value@, 0), fallback.deep_view()),
{
    match meta_content(html, attr, value) {
        Some(c) => Some(c),
        None => fallback,
    }
}

/// Builds the preview of `parsed` from the HTML of `fetch_url`.
pub fn preview_from_html(parsed: &ParsedUrl, fetch_url: &ParsedUrl, html: &str) -> (r: Option<
    LinkPreview,
>)
    ensures
        r matches Some(p) ==> preview_of_page(parsed@, fetch_url@, html@) == Some(p@),
        r is None ==> preview_of_page(parsed@, fetch_url@, html@) is None,
{
    let title = meta_or(
        html,
        "property",
        "og:title",
        meta_or(html, "name", "twitter:title", title_text(html)),
    );
    let description = meta_or(
        html,
        "property",
        "og:description",
        meta_or(
            html,
            "name",
            "description",
            meta_or(html, "name", "twitter:description", None),
        ),
    );
    let site_name = meta_or(html, "property", "og:site_name", Some(parsed.host.clone()));
    let image = meta_or(
        html,
        "property",
        "og:image",
        meta_or(html, "property", "og:image:url", meta_or(html, "name", "twitter:image", None)),
    );
    let image_url = match image {
        Some(u) => normalize_preview_url(u.as_str(), fetch_url),
        None => None,
    };
    if title.is_none() && description.is_none() {
        return None;
    }
    Some(
        LinkPreview { url: parsed.url.clone(), title, description, site_name, image_url },
    )
}

/// The YouTube oEmbed address that describes `parsed`.
pub open spec fn oembed_endpoint_of(parsed: UrlParts) -> Seq<char> {
    "https://www.youtube.com/oembed?url="@ + percent_encoded(parsed.url) + "&format=json"@
}

pub fn oembed_endpoint(parsed: &ParsedUrl) -> (r: String)
    ensures
        r@ == oembed_endpoint_of(parsed@),
{
    let mut v = chars_of("https://www.youtube.com/oembed?url=");
    extend_str(&mut v, percent_encode(parsed.url.as_str()).as_str());
    extend_str(&mut v, "&format=json");
    string_of(&v)
}

pub open spec fn cleaned_opt(v: Option<Seq<char>>) -> Option<Seq<char>> {
    match v {
        Some(t) => cleaned_text(t),
        None => None,
    }
}

/// The preview of a YouTube link from the fields of its oEmbed answer.
pub open spec fn preview_of_oembed(
    parsed: UrlParts,
    title: Option<Seq<char>>,
    provider_name: Option<Seq<char>>,
    thumbnail_url: Option<Seq<char>>,
) -> PreviewParts {
    PreviewParts {
        url: parsed.url,
        title: cleaned_opt(title),
        description: None,
        site_name: first_some(cleaned_opt(provider_name), Some("YouTube"@)),
        image_url: match thumbnail_url {
            Some(u) => if parsed_http_url(u) is Some {
                Some(u)
            } else {
                None
            },
            None => None,
        },
    }
}

fn clean_opt(v: Option<String>) -> (r: Option<String>)
    ensures
        r.deep_view() == cleaned_opt(v.deep_view()),
{
    match v {
        Some(t) => match clean_text(&chars_of(t.as_str())) {
            Some(c) => Some(string_of(&c)),
            None => None,
        },
        None => None,
    }
}

pub fn preview_from_oembed(
    parsed: &ParsedUrl,
    title: Option<String>,
    provider_name: Option<String>,
    thumbnail_url: Option<String>,
) -> (r: LinkPreview)
    ensures
        r@ == preview_of_oembed(
            parsed@,
            title.deep_view(),
            provider_name.deep_view(),
            thumbnail_url.deep_view(),
        ),
{
    let site_name = match clean_opt(provider_name) {
        Some(p) => Some(p),
        None => Some(String::from_str("YouTube")),
    };
    let image_url = match thumbnail_url {
        Some(u) => if parse_http_url(u.as_str()).is_some() {
            Some(u)
        } else {
            None
        },
        None => None,
    };
    LinkPreview {
        url: parsed.url.clone(),
        title: clean_opt(title),
        description: None,
        site_name,
        image_url,
    }
}

/// An IP address, as its octets or its 16-bit segments.
#[derive(Clone, Copy, Debug, PartialEq, Eq)]
pub enum IpAddress {
    V4([u8; 4]),
    V6([u16; 8]),
}

/// Whether an address may be fetched: not private, loopback, link-local,
/// broadcast, documentation or unspecified (IPv4), and not loopback,
/// unspecified, unique-local or unicast link-local (IPv6).
pub open spec fn is_public_ip(ip: IpAddress) -> bool {
    match ip {
        IpAddress::V4(o) => {
            let (a, b, c, d) = (o[0], o[1], o[2], o[3]);
            !(a == 10 || (a == 172 && 16 <= b && b <= 31) || (a == 192 && b == 168) || a == 127
                || (a == 169 && b == 254) || (a == 255 && b == 255 && c == 255 && d == 255) || (a
                == 192 && b == 0 && c == 2) || (a == 198 && b == 51 && c == 100) || (a == 203 && b
                == 0 && c == 113) || (a == 0 && b == 0 && c == 0 && d == 0))
        },
        IpAddress::V6(s) => {
            let zero_head = s[0] == 0 && s[1] == 0 && s[2] == 0 && s[3] == 0 && s[4] == 0 && s[5]
                == 0 && s[6] == 0;
            !((zero_head && s[7] == 1) || (zero_head && s[7] == 0) || (s[0] & 0xfe00) == 0xfc00
                || (s[0] & 0xffc0) == 0xfe80)
        },
    }
}

/// No private, loopback, link-local, broadcast, documentation or
/// unspecified IPv4 address, and no loopback, unspecified, unique-local or
/// link-local IPv6 address, is ever fetched.
pub proof fn lemma_non_public_addresses()
    ensures
        forall|o: [u8; 4]| o[0] == 10 ==> !#[trigger] is_public_ip(IpAddress::V4(o)),
        forall|o: [u8; 4]| o[0] == 127 ==> !#[trigger] is_public_ip(IpAddress::V4(o)),
        forall|o: [u8; 4]|
            o[0] == 172 && 16 <= o[1] <= 31 ==> !#[trigger] is_public_ip(IpAddress::V4(o)),
        forall|o: [u8; 4]| o[0] == 192 && o[1] == 168 ==> !#[trigger] is_public_ip(IpAddress::V4(o)),
        forall|o: [u8; 4]| o[0] == 169 && o[1] == 254 ==> !#[trigger] is_public_ip(IpAddress::V4(o)),
        forall|o: [u8; 4]|
            o[0] == 255 && o[1] == 255 && o[2] == 255 && o[3] == 255 ==> !#[trigger] is_public_ip(
                IpAddress::V4(o),
            ),
        forall|o: [u8; 4]|
            (o[0] == 192 && o[1] == 0 && o[2] == 2) || (o[0] == 198 && o[1] == 51 && o[2] == 100)
                || (o[0] == 203 && o[1] == 0 && o[2] == 113) ==> !#[trigger] is_public_ip(
                IpAddress::V4(o),
            ),
        forall|o: [u8; 4]|
            o[0] == 0 && o[1] == 0 && o[2] == 0 && o[3] == 0 ==> !#[trigger] is_public_ip(
                IpAddress::V4(o),
            ),
        forall|s: [u16; 8]|
            s[0] == 0 && s[1] == 0 && s[2] == 0 && s[3] == 0 && s[4] == 0 && s[5] == 0 && s[6] == 0
                && s[7] <= 1 ==> !#[trigger] is_public_ip(IpAddress::V6(s)),
        forall|s: [u16; 8]|
            0xfc00 <= s[0] <= 0xfdff ==> !#[trigger] is_public_ip(IpAddress::V6(s)),
        forall|s: [u16; 8]|
            0xfe80 <= s[0] <= 0xfebf ==> !#[trigger] is_public_ip(IpAddress::V6(s)),
{
    assert forall|s: [u16; 8]| 0xfc00 <= s[0] <= 0xfdff implies !#[trigger] is_public_ip(
        IpAddress::V6(s),
    ) by {
        let x = s[0];
        assert((x & 0xfe00) == 0xfc00) by (bit_vector)
            requires
                0xfc00 <= x <= 0xfdff,
        ;
    }
    assert forall|s: [u16; 8]| 0xfe80 <= s[0] <= 0xfebf implies !#[trigger] is_public_ip(
        IpAddress::V6(s),
    ) by {
        let x = s[0];
        assert((x & 0xffc0) == 0xfe80) by (bit_vector)
            requires
                0xfe80 <= x <= 0xfebf,
        ;
    }
}

pub fn public_ip(ip: IpAddress) -> (r: bool)
    ensures
        r == is_public_ip(ip),
{
    match ip {
        IpAddress::V4(o) => {
            let (a, b, c, d) = (o[0], o[1], o[2], o[3]);
            !(a == 10 || (a == 172 && 16 <= b && b <= 31) || (a == 192 && b == 168) || a == 127
                || (a == 169 && b == 254) || (a == 255 && b == 255 && c == 255 && d == 255) || (a
                == 192 && b == 0 && c == 2) || (a == 198 && b == 51 && c == 100) || (a == 203 && b
                == 0 && c == 113) || (a == 0 && b == 0 && c == 0 && d == 0))
        },
        IpAddress::V6(s) => {
            let zero_head = s[0] == 0 && s[1] == 0 && s[2] == 0 && s[3] == 0 && s[4] == 0 && s[5]
                == 0 && s[6] == 0;
            !((zero_head && s[7] == 1) || (zero_head && s[7] == 0) || (s[0] & 0xfe00) == 0xfc00
                || (s[0] & 0xffc0) == 0xfe80)
        },
    }
}

/// Whether a host that resolved to `addrs` may be fetched: it resolved to
/// at least one address and every address is public.
pub fn all_public(addrs: &Vec<IpAddress>) -> (r: bool)
    ensures
        r == (addrs.len() > 0 && forall|i: int| 0 <= i < addrs.len() ==> is_public_ip(
            #[trigger] addrs@[i],
        )),
{
    if addrs.len() == 0 {
        return false;
    }
    let mut i: usize = 0;
    while i < addrs.len()
        invariant
            i <= addrs.len(),
            forall|j: int| 0 <= j < i ==> is_public_ip(#[trigger] addrs@[j]),
        decreases addrs.len() - i,
    {
        if !public_ip(addrs[i]) {
            return false;
        }
        i += 1;
    }
    true
}

} // verus!
