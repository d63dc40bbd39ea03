//! The people who may use the chat: the users file, which names each user
//! with the Argon2id hash of their password, and the check of a password
//! against it.
//!
//! The users file is written in the part of TOML that it needs:
//!
//! ```toml
//! [[user]]
//! username = "alice"
//! password_hash = "$argon2id$..."
//! ```
//!
//! Each line, once trimmed, is blank, a comment starting with `#`, the
//! header `[[user]]` that starts a user, or `username = "..."` or
//! `password_hash = "..."` inside a user, each at most once, with a value in
//! double quotes that holds no `"` or `\`.  Every user needs both.  Any other
//! file is refused.
use vstd::prelude::*;
use vstd::utf8::encode_utf8;

use crate::passwords::{argon2_verifies, argon2_verify};
use crate::text::{
    chars_of, contains_char, find, find_vec, lemma_prefix_outside_len, prefix_outside,
    prefix_outside_len, same_chars, slice_vec, str_eq, string_of, trim, trim_vec, CharClass,
};

verus! {

/// What one line of the users file says.
pub enum UsersLine {
    /// A blank line or a comment.
    Blank,
    /// `[[user]]`: a new user starts.
    Table,
    /// `username = "..."`.
    Username(Seq<char>),
    /// `password_hash = "..."`.
    PasswordHash(Seq<char>),
    /// Anything else.
    Invalid,
}

/// The text inside the double quotes that enclose `t`, if they do and it
/// holds no `"` or `\`.
pub open spec fn quoted_value(t: Seq<char>) -> Option<Seq<char>> {
    if t.len() >= 2 && t[0] == '"' && t.last() == '"' {
        let inner = t.subrange(1, t.len() - 1);
        if inner.contains('"') || inner.contains('\\') {
            None
        } else {
            Some(inner)
        }
    } else {
        None
    }
}

/// How `line` reads: its key is what precedes its first `=`, trimmed.
pub open spec fn users_line(line: Seq<char>) -> UsersLine {
    let t = trim(line);
    if t.len() == 0 || t[0] == '#' {
        UsersLine::Blank
    } else if t == "[[user]]"@ {
        UsersLine::Table
    } else {
        match find(t, seq!['=']) {
            None => UsersLine::Invalid,
            Some(k) => {
                let key = trim(t.take(k));
                match quoted_value(trim(t.skip(k + 1))) {
                    None => UsersLine::Invalid,
                    Some(value) => if key == "username"@ {
                        UsersLine::Username(value)
                    } else if key == "password_hash"@ {
                        UsersLine::PasswordHash(value)
                    } else {
                        UsersLine::Invalid
                    },
                }
            },
        }
    }
}

/// Where reading the users file stands: the users read so far, and the
/// fields of the user being read, if one has started.
pub enum UsersScan {
    Failed,
    Reading {
        users: Seq<(Seq<char>, Seq<char>)>,
        current: Option<(Option<Seq<char>>, Option<Seq<char>>)>,
    },
}

/// The user that `fields` make, when both are there.
pub open spec fn finished_user(fields: (Option<Seq<char>>, Option<Seq<char>>)) -> Option<
    (Seq<char>, Seq<char>),
> {
    match fields {
        (Some(u), Some(h)) => Some((u, h)),
        _ => None,
    }
}

/// Reading one more line.
pub open spec fn scan_line(state: UsersScan, line: UsersLine) -> UsersScan {
    match state {
        UsersScan::Failed => UsersScan::Failed,
        UsersScan::Reading { users, current } => match line {
            UsersLine::Blank => state,
            UsersLine::Invalid => UsersScan::Failed,
            UsersLine::Table => match current {
                None => UsersScan::Reading { users, current: Some((None, None)) },
                Some(fields) => match finished_user(fields) {
                    Some(u) => UsersScan::Reading {
                        users: users.push(u),
                        current: Some((None, None)),
                    },
                    None => UsersScan::Failed,
                },
            },
            UsersLine::Username(value) => match current {
                Some((None, h)) => UsersScan::Reading { users, current: Some((Some(value), h)) },
                _ => UsersScan::Failed,
            },
            UsersLine::PasswordHash(value) => match current {
                Some((u, None)) => UsersScan::Reading { users, current: Some((u, Some(value))) },
                _ => UsersScan::Failed,
            },
        },
    }
}

/// Reading the lines of `s` (split at `\n`) one after another.
pub open spec fn scan_text(state: UsersScan, s: Seq<char>) -> UsersScan
    decreases s.len(),
{
    let n = prefix_outside(s, CharClass::Newline);
    let next = scan_line(state, users_line(s.take(n as int)));
    if n >= s.len() {
        next
    } else {
        proof {
            lemma_prefix_outside_len(s, CharClass::Newline);
        }
        scan_text(next, s.skip(n + 1int))
    }
}

/// The users, as `(username, password hash)` pairs in file order, that the
/// users file `contents` holds; `None` for a file outside the format.
pub open spec fn parsed_users(contents: Seq<char>) -> Option<Seq<(Seq<char>, Seq<char>)>> {
    match scan_text(UsersScan::Reading { users: seq![], current: None }, contents) {
        UsersScan::Failed => None,
        UsersScan::Reading { users, current } => match current {
            None => Some(users),
            Some(fields) => match finished_user(fields) {
                Some(u) => Some(users.push(u)),
                None => None,
            },
        },
    }
}

proof fn lemma_scan_failed(s: Seq<char>)
    ensures
        scan_text(UsersScan::Failed, s) == UsersScan::Failed,
    decreases s.len(),
{
    let n = prefix_outside(s, CharClass::Newline);
    lemma_prefix_outside_len(s, CharClass::Newline);
    if n < s.len() {
        lemma_scan_failed(s.skip(n + 1int));
    }
}

proof fn lemma_next_line(line: Seq<char>, rest: Seq<char>, state: UsersScan)
    requires
        forall|k: int| 0 <= k < line.len() ==> line[k] != '\n',
    ensures
        scan_text(state, line + seq!['\n'] + rest) == scan_text(
            scan_line(state, users_line(line)),
            rest,
        ),
{
    let s = line + seq!['\n'] + rest;
    assert(s =~= line + (seq!['\n'] + rest));
    crate::text::lemma_prefix_outside_concat(line, seq!['\n'] + rest, CharClass::Newline);
    assert(s.take(line.len() as int) =~= line);
    assert(s.skip(line.len() + 1int) =~= rest);
}

proof fn lemma_quoted_line(key: Seq<char>, value: Seq<char>)
    requires
        key.len() > 0,
        key[0] != '#' && key[0] != '[',
        forall|k: int| 0 <= k < key.len() ==> key[k] != '=' && !crate::text::is_ws(#[trigger] key[k]),
        !value.contains('"'),
        !value.contains('\\'),
    ensures
        ({
            let line = key + " = \""@ + value + "\""@;
            &&& trim(line) == line
            &&& find(line, seq!['=']) == Some(key.len() + 1int)
            &&& trim(line.take(key.len() + 1int)) == key
            &&& quoted_value(trim(line.skip(key.len() + 2int))) == Some(value)
        }),
{
    reveal_strlit(" = \"");
    reveal_strlit("\"");
    let line = key + " = \""@ + value + "\""@;
    let k = key.len() as int;
    assert(line[0] == key[0]);
    assert(line.last() == '"');
    assert(crate::text::trim_start_class(line, CharClass::Whitespace) == line);
    assert(crate::text::trim_end_class(line, CharClass::Whitespace) == line);
    assert(line[k + 1] == '=');
    assert(crate::text::matches_at(line, seq!['='], k + 1)) by {
        assert(line.subrange(k + 1, k + 2) =~= seq!['=']);
    }
    assert forall|j: int| 0 <= j < k + 1 implies !crate::text::matches_at(line, seq!['='], j) by {
        if crate::text::matches_at(line, seq!['='], j) {
            assert(line.subrange(j, j + 1)[0] == line[j]);
            if j < k {
                assert(line[j] == key[j]);
            }
        }
    }
    crate::text::lemma_find_unique(line, seq!['='], k + 1);
    let head = line.take(k + 1);
    assert(head == key + seq![' ']) by {
        assert(head =~= key + seq![' ']);
    }
    assert(head.drop_last() =~= key);
    assert(crate::text::trim_end_class(key, CharClass::Whitespace) == key);
    assert(crate::text::trim_end_class(head, CharClass::Whitespace) == key);
    assert(crate::text::trim_start_class(head, CharClass::Whitespace) == head);
    let tail = line.skip(k + 2);
    let quoted = "\""@ + value + "\""@;
    assert(tail =~= seq![' '] + quoted);
    assert(quoted[0] == '"');
    assert(quoted.last() == '"');
    assert(tail.drop_first() =~= quoted);
    assert(crate::text::trim_start_class(quoted, CharClass::Whitespace) == quoted);
    assert(crate::text::trim_start_class(tail, CharClass::Whitespace) == quoted);
    assert(crate::text::trim_end_class(quoted, CharClass::Whitespace) == quoted);
    assert(quoted.subrange(1, quoted.len() - 1) =~= value);
}

/// A users file holding one user, written as the documented format shows it,
/// gives that user with that password hash, whatever the username and hash
/// are (without `"`, `\\` or line breaks).
pub proof fn lemma_one_user_file(username: Seq<char>, hash: Seq<char>)
    requires
        !username.contains('"') && !username.contains('\\') && !username.contains('\n'),
        !hash.contains('"') && !hash.contains('\\') && !hash.contains('\n'),
    ensures
        parsed_users(
            "[[user]]\nusername = \""@ + username + "\"\npassword_hash = \""@ + hash + "\"\n"@,
        ) == Some(seq![(username, hash)]),
{
    reveal_strlit("[[user]]\nusername = \"");
    reveal_strlit("\"\npassword_hash = \"");
    reveal_strlit("\"\n");
    reveal_strlit("[[user]]");
    reveal_strlit("username");
    reveal_strlit("password_hash");
    reveal_strlit(" = \"");
    reveal_strlit("\"");
    let nl = seq!['\n'];
    let l1 = "[[user]]"@;
    let l2 = "username"@ + " = \""@ + username + "\""@;
    let l3 = "password_hash"@ + " = \""@ + hash + "\""@;
    let text = "[[user]]\nusername = \""@ + username + "\"\npassword_hash = \""@ + hash + "\"\n"@;
    assert(text =~= l1 + nl + (l2 + nl + (l3 + nl + Seq::<char>::empty())));
    assert forall|k: int| 0 <= k < l2.len() implies l2[k] != '\n' by {
        if 12 <= k < 12 + username.len() {
            assert(l2[k] == username[k - 12]);
            assert(username.contains(l2[k]));
        }
    }
    assert forall|k: int| 0 <= k < l3.len() implies l3[k] != '\n' by {
        if 17 <= k < 17 + hash.len() {
            assert(l3[k] == hash[k - 17]);
            assert(hash.contains(l3[k]));
        }
    }
    let start = UsersScan::Reading { users: seq![], current: None };
    lemma_next_line(l1, l2 + nl + (l3 + nl + Seq::<char>::empty()), start);
    assert(trim(l1) == l1);
    assert(users_line(l1) == UsersLine::Table);
    let s1 = UsersScan::Reading { users: seq![], current: Some((None, None)) };
    lemma_next_line(l2, l3 + nl + Seq::<char>::empty(), s1);
    lemma_quoted_line("username"@, username);
    assert(l2.len() != l1.len());
    assert(users_line(l2) == UsersLine::Username(username));
    let s2 = UsersScan::Reading { users: seq![], current: Some((Some(username), None)) };
    lemma_next_line(l3, Seq::<char>::empty(), s2);
    lemma_quoted_line("password_hash"@, hash);
    assert(l3.len() != l1.len());
    assert(users_line(l3) == UsersLine::PasswordHash(hash));
    let s3 = UsersScan::Reading { users: seq![], current: Some((Some(username), Some(hash))) };
    assert(trim(Seq::<char>::empty()) =~= Seq::<char>::empty());
    assert(scan_text(s3, Seq::<char>::empty()) == s3);
}

/// The usernames of `users`.
pub open spec fn user_names(users: Seq<(Seq<char>, Seq<char>)>) -> Seq<Seq<char>> {
    users.map_values(|e: (Seq<char>, Seq<char>)| e.0)
}

/// Whether `password` signs `username` in: some user of that name has a
/// password hash that `argon2` verifies the password against.
pub open spec fn valid_credentials(
    users: Seq<(Seq<char>, Seq<char>)>,
    username: Seq<char>,
    password: Seq<char>,
) -> bool {
    exists|i: int|
        0 <= i < users.len() && #[trigger] users[i].0 == username && argon2_verifies(
            encode_utf8(password),
            users[i].1,
        )
}

/// What a line of the users file says, for the reader.
enum LineKind {
    Blank,
    Table,
    Username(Vec<char>),
    PasswordHash(Vec<char>),
    Invalid,
}

impl View for LineKind {
    type V = UsersLine;

    closed spec fn view(&self) -> UsersLine {
        match self {
            LineKind::Blank => UsersLine::Blank,
            LineKind::Table => UsersLine::Table,
            LineKind::Username(v) => UsersLine::Username(v@),
            LineKind::PasswordHash(v) => UsersLine::PasswordHash(v@),
            LineKind::Invalid => UsersLine::Invalid,
        }
    }
}

fn quoted(t: &Vec<char>) -> (r: Option<Vec<char>>)
    ensures
        match quoted_value(t@) {
            Some(v) => r matches Some(w) && w@ == v,
            None => r is None,
        },
{
    if t.len() >= 2 && t[0] == '"' && t[t.len() - 1] == '"' {
        let inner = slice_vec(t, 1, t.len() - 1);
        if contains_char(&inner, '"') || contains_char(&inner, '\\') {
            None
        } else {
            Some(inner)
        }
    } else {
        None
    }
}

fn classify_line(line: &Vec<char>) -> (r: LineKind)
    ensures
        r@ == users_line(line@),
{
    let t = trim_vec(line);
    if t.len() == 0 || t[0] == '#' {
        return LineKind::Blank;
    }
    if same_chars(&t, &chars_of("[[user]]")) {
        return LineKind::Table;
    }
    let eq = vec!['='];
    assert(eq@ =~= seq!['=']);
    match find_vec(&t, &eq) {
        None => LineKind::Invalid,
        Some(k) => {
            let raw_key = slice_vec(&t, 0, k);
            assert(raw_key@ =~= t@.take(k as int));
            let key = trim_vec(&raw_key);
            let raw_value = slice_vec(&t, k + 1, t.len());
            assert(raw_value@ =~= t@.skip(k + 1));
            let value = trim_vec(&raw_value);
            match quoted(&value) {
                None => LineKind::Invalid,
                Some(v) => if same_chars(&key, &chars_of("username")) {
                    LineKind::Username(v)
                } else if same_chars(&key, &chars_of("password_hash")) {
                    LineKind::PasswordHash(v)
                } else {
                    LineKind::Invalid
                },
            }
        },
    }
}

pub open spec fn pairs_view(v: Seq<(String, String)>) -> Seq<(Seq<char>, Seq<char>)> {
    v.map_values(|e: (String, String)| (e.0@, e.1@))
}

pub open spec fn opt_view(o: Option<String>) -> Option<Seq<char>> {
    match o {
        Some(s) => Some(s@),
        None => None,
    }
}

pub open spec fn fields_view(c: Option<(Option<String>, Option<String>)>) -> Option<
    (Option<Seq<char>>, Option<Seq<char>>),
> {
    match c {
        Some((u, h)) => Some((opt_view(u), opt_view(h))),
        None => None,
    }
}

/// The users who may sign in, each with the hash of their password.
pub struct UserStore {
    users: Vec<(String, String)>,
}

impl View for UserStore {
    type V = Seq<(Seq<char>, Seq<char>)>;

    closed spec fn view(&self) -> Seq<(Seq<char>, Seq<char>)> {
        pairs_view(self.users@)
    }
}

impl UserStore {
    /// The store that the users file `contents` describes; `None` when the
    /// file is outside its format.
    pub fn from_users_file(contents: &str) -> (store: Option<Self>)
        ensures
            match parsed_users(contents@) {
                Some(u) => store matches Some(s) && s@ == u,
                None => store is None,
            },
    {
        let v = chars_of(contents);
        let mut users: Vec<(String, String)> = Vec::new();
        let mut current: Option<(Option<String>, Option<String>)> = None;
        let mut i: usize = 0;
        let ghost start = UsersScan::Reading { users: seq![], current: None };
        assert(v@.skip(0) =~= v@);
        assert(pairs_view(users@) =~= seq![]);
        loop
            invariant
                i <= v.len(),
                v@ == contents@,
                start == (UsersScan::Reading { users: seq![], current: None }),
                scan_text(start, contents@) == scan_text(
                    UsersScan::Reading { users: pairs_view(users@), current: fields_view(current) },
                    v@.skip(i as int),
                ),
            decreases v.len() - i,
        {
            let ghost rest = v@.skip(i as int);
            let ghost before = UsersScan::Reading {
                users: pairs_view(users@),
                current: fields_view(current),
            };
            let n = prefix_outside_len(&v, i, CharClass::Newline);
            let line = slice_vec(&v, i, i + n);
            assert(line@ =~= rest.take(n as int));
            let kind = classify_line(&line);
            let ghost after = scan_line(before, kind@);
            match kind {
                LineKind::Blank => {},
                LineKind::Invalid => {
                    assert(after == UsersScan::Failed);
                    proof {
                        if n < rest.len() {
                            lemma_scan_failed(rest.skip(n + 1));
                            assert(scan_text(before, rest) == scan_text(after, rest.skip(n + 1)));
                        } else {
                            assert(scan_text(before, rest) == after);
                        }
                    }
                    return None;
                },
                LineKind::Table => {
                    match current {
                        None => {},
                        Some((Some(u), Some(h))) => {
                            let ghost old_users = users@;
                            users.push((u, h));
                            assert(pairs_view(users@) =~= pairs_view(old_users).push(
                                (u@, h@),
                            ));
                        },
                        _ => {
                            assert(after == UsersScan::Failed);
                            proof {
                                if n < rest.len() {
                                    lemma_scan_failed(rest.skip(n + 1));
                                    assert(scan_text(before, rest) == scan_text(
                                        after,
                                        rest.skip(n + 1),
                                    ));
                                } else {
                                    assert(scan_text(before, rest) == after);
                                }
                            }
                            return None;
                        },
                    }
                    current = Some((None, None));
                },
                LineKind::Username(value) => {
                    match current {
                        Some((None, h)) => {
                            current = Some((Some(string_of(&value)), h));
                        },
                        _ => {
                            assert(after == UsersScan::Failed);
                            proof {
                                if n < rest.len() {
                                    lemma_scan_failed(rest.skip(n + 1));
                                    assert(scan_text(before, rest) == scan_text(
                                        after,
                                        rest.skip(n + 1),
                                    ));
                                } else {
                                    assert(scan_text(before, rest) == after);
                                }
                            }
                            return None;
                        },
                    }
                },
                LineKind::PasswordHash(value) => {
                    match current {
                        Some((u, None)) => {
                            current = Some((u, Some(string_of(&value))));
                        },
                        _ => {
                            assert(after == UsersScan::Failed);
                            proof {
                                if n < rest.len() {
                                    lemma_scan_failed(rest.skip(n + 1));
                                    assert(scan_text(before, rest) == scan_text(
                                        after,
                                        rest.skip(n + 1),
                                    ));
                                } else {
                                    assert(scan_text(before, rest) == after);
                                }
                            }
                            return None;
                        },
                    }
                },
            }
            assert(UsersScan::Reading {
                users: pairs_view(users@),
                current: fields_view(current),
            } == after);
            if i + n == v.len() {
                assert(scan_text(before, rest) == after);
                return match current {
                    None => Some(UserStore { users }),
                    Some((Some(u), Some(h))) => {
                        let ghost old_users = users@;
                        users.push((u, h));
                        assert(pairs_view(users@) =~= pairs_view(old_users).push((u@, h@)));
                        Some(UserStore { users })
                    },
                    _ => None,
                };
            }
            assert(scan_text(before, rest) == scan_text(after, rest.skip(n + 1)));
            assert(rest.skip(n + 1) =~= v@.skip(i + n + 1));
            i = i + n + 1;
        }
    }

    /// A store that knows exactly `usernames`, none of them with a password
    /// hash that verifies anything.
    pub fn from_usernames_for_tests(usernames: &[&str]) -> (store: Self)
        ensures
            user_names(store@) == usernames@.map_values(|u: &str| u@),
            forall|i: int| 0 <= i < store@.len() ==> (#[trigger] store@[i]).1 == Seq::<char>::empty(),
    {
        let mut v: Vec<(String, String)> = Vec::new();
        let mut i: usize = 0;
        while i < usernames.len()
            invariant
                i <= usernames@.len(),
                v@.len() == i,
                forall|j: int|
                    0 <= j < i ==> (#[trigger] v@[j]).0@ == usernames@[j]@ && v@[j].1@ == Seq::<
                        char,
                    >::empty(),
            decreases usernames@.len() - i,
        {
            v.push((string_of(&chars_of(usernames[i])), string_of(&Vec::new())));
            i += 1;
        }
        let store = UserStore { users: v };
        assert(user_names(store@) =~= usernames@.map_values(|u: &str| u@));
        assert forall|i: int| 0 <= i < store@.len() implies (#[trigger] store@[i]).1
            == Seq::<char>::empty() by {
            assert(store.users@ == v@);
            assert(store@[i] == (v@[i].0@, v@[i].1@));
            assert(v@[i].1@ == Seq::<char>::empty());
        }
        store
    }

    /// Whether `username` is one of the known usernames (exact match).
    pub fn has_username(&self, username: &str) -> (found: bool)
        ensures
            found == user_names(self@).contains(username@),
    {
        let mut i: usize = 0;
        while i < self.users.len()
            invariant
                i <= self.users@.len(),
                forall|j: int| 0 <= j < i ==> self.users@[j].0@ != username@,
            decreases self.users@.len() - i,
        {
            if str_eq(self.users[i].0.as_str(), username) {
                assert(user_names(self@)[i as int] == username@);
                return true;
            }
            i += 1;
        }
        assert forall|j: int| 0 <= j < user_names(self@).len() implies user_names(self@)[j]
            != username@ by {
            assert(user_names(self@)[j] == self.users@[j].0@);
        }
        false
    }

    /// Whether `username` and `password` belong to the same user: some user
    /// of that name has a password hash that verifies the password.
    pub fn verify_credentials(&self, username: &str, password: &str) -> (ok: bool)
        ensures
            ok == valid_credentials(self@, username@, password@),
    {
        let mut i: usize = 0;
        while i < self.users.len()
            invariant
                i <= self.users@.len(),
                forall|j: int|
                    0 <= j < i ==> !(self.users@[j].0@ == username@ && argon2_verifies(
                        encode_utf8(password@),
                        self.users@[j].1@,
                    )),
            decreases self.users@.len() - i,
        {
            let (name, hash) = &self.users[i];
            if str_eq(name.as_str(), username) && argon2_verify(
                password.as_bytes(),
                hash.as_str(),
            ) {
                assert(self@[i as int] == (name@, hash@));
                assert(self@[i as int].0 == username@);
                return true;
            }
            i += 1;
        }
        assert forall|j: int| 0 <= j < self@.len() implies !(#[trigger] self@[j].0 == username@
            && argon2_verifies(encode_utf8(password@), self@[j].1)) by {
            assert(self@[j] == (self.users@[j].0@, self.users@[j].1@));
        }
        false
    }
}

} // verus!
