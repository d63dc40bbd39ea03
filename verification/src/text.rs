//! Character-level text processing shared by the rest of the crate.
//!
//! Strings are modelled by their view, a `Seq<char>`.  The executable helpers
//! work on `Vec<char>` buffers and are proved against the spec functions below.
use vstd::prelude::*;

verus! {

/// Sets of characters that the crate trims or splits on.
#[derive(Clone, Copy, PartialEq, Eq, Structural)]
pub enum CharClass {
    /// Unicode `White_Space`, as `char::is_whitespace` defines it.
    Whitespace,
    /// The character `/`.
    Slash,
    /// Punctuation that often surrounds a link in a chat message.
    UrlPunctuation,
    /// The characters that end the authority part of a URL: `/`, `?`, `#`.
    AuthorityEnd,
    /// The characters that end the path part of a URL: `?`, `#`.
    PathEnd,
    /// The character `;`.
    Semicolon,
    /// The character `\n`.
    Newline,
}

/// `char::is_whitespace`: the Unicode `White_Space` property.
pub open spec fn is_ws(c: char) -> bool {
    ||| ('\u{9}' <= c && c <= '\u{d}')
    ||| c == ' '
    ||| c == '\u{85}'
    ||| c == '\u{a0}'
    ||| c == '\u{1680}'
    ||| ('\u{2000}' <= c && c <= '\u{200a}')
    ||| c == '\u{2028}'
    ||| c == '\u{2029}'
    ||| c == '\u{202f}'
    ||| c == '\u{205f}'
    ||| c == '\u{3000}'
}

pub open spec fn in_class(class: CharClass, c: char) -> bool {
    match class {
        CharClass::Whitespace => is_ws(c),
        CharClass::Slash => c == '/',
        CharClass::UrlPunctuation => {
            ||| c == '"'
            ||| c == '\''
            ||| c == '<'
            ||| c == '>'
            ||| c == '('
            ||| c == ')'
            ||| c == '['
            ||| c == ']'
            ||| c == '{'
            ||| c == '}'
            ||| c == ','
            ||| c == '.'
            ||| c == '!'
            ||| c == '?'
            ||| c == ';'
            ||| c == ':'
        },
        CharClass::AuthorityEnd => c == '/' || c == '?' || c == '#',
        CharClass::PathEnd => c == '?' || c == '#',
        CharClass::Semicolon => c == ';',
        CharClass::Newline => c == '\n',
    }
}

/// Drops the leading characters of `s` that belong to `class`.
pub open spec fn trim_start_class(s: Seq<char>, class: CharClass) -> Seq<char>
    decreases s.len(),
{
    if s.len() > 0 && in_class(class, s[0]) {
        trim_start_class(s.drop_first(), class)
    } else {
        s
    }
}

/// Drops the trailing characters of `s` that belong to `class`.
pub open spec fn trim_end_class(s: Seq<char>, class: CharClass) -> Seq<char>
    decreases s.len(),
{
    if s.len() > 0 && in_class(class, s.last()) {
        trim_end_class(s.drop_last(), class)
    } else {
        s
    }
}

/// Drops the characters of `class` at both ends of `s` (`str::trim_matches`).
pub open spec fn trim_class(s: Seq<char>, class: CharClass) -> Seq<char> {
    trim_end_class(trim_start_class(s, class), class)
}

/// `str::trim`.
pub open spec fn trim(s: Seq<char>) -> Seq<char> {
    trim_class(s, CharClass::Whitespace)
}

/// `trim_start_class` drops a run of leading characters of `class` and stops
/// at the first character outside it.
pub proof fn lemma_trim_start_class(s: Seq<char>, class: CharClass)
    ensures
        exists|i: int|
            0 <= i <= s.len() && trim_start_class(s, class) == s.skip(i) && (forall|k: int|
                0 <= k < i ==> in_class(class, #[trigger] s[k])) && (i < s.len() ==> !in_class(
                class,
                s[i],
            )),
    decreases s.len(),
{
    if s.len() > 0 && in_class(class, s[0]) {
        let t = s.drop_first();
        lemma_trim_start_class(t, class);
        let i = choose|i: int|
            0 <= i <= t.len() && trim_start_class(t, class) == t.skip(i) && (forall|k: int|
                0 <= k < i ==> in_class(class, #[trigger] t[k])) && (i < t.len() ==> !in_class(
                class,
                t[i],
            ));
        assert(t.skip(i) =~= s.skip(i + 1));
        assert forall|k: int| 0 <= k < i + 1 implies in_class(class, #[trigger] s[k]) by {
            if k > 0 {
                assert(s[k] == t[k - 1]);
            }
        }
        if i + 1 < s.len() {
            assert(s[i + 1] == t[i]);
        }
    } else {
        assert(s.skip(0) =~= s);
    }
}

/// `trim_end_class` drops a run of trailing characters of `class` and stops
/// at the last character outside it.
pub proof fn lemma_trim_end_class(s: Seq<char>, class: CharClass)
    ensures
        exists|j: int|
            0 <= j <= s.len() && trim_end_class(s, class) == s.take(j) && (forall|k: int|
                j <= k < s.len() ==> in_class(class, #[trigger] s[k])) && (j > 0 ==> !in_class(
                class,
                s[j - 1],
            )),
    decreases s.len(),
{
    if s.len() > 0 && in_class(class, s.last()) {
        let t = s.drop_last();
        lemma_trim_end_class(t, class);
        let j = choose|j: int|
            0 <= j <= t.len() && trim_end_class(t, class) == t.take(j) && (forall|k: int|
                j <= k < t.len() ==> in_class(class, #[trigger] t[k])) && (j > 0 ==> !in_class(
                class,
                t[j - 1],
            ));
        assert(t.take(j) =~= s.take(j));
        assert forall|k: int| j <= k < s.len() implies in_class(class, #[trigger] s[k]) by {
            if k < t.len() {
                assert(s[k] == t[k]);
            }
        }
        if j > 0 {
            assert(s[j - 1] == t[j - 1]);
        }
    } else {
        assert(s.take(s.len() as int) =~= s);
    }
}

/// `trim_class` keeps a contiguous part of `s`: what it drops at either end
/// is of `class`, and what it keeps neither starts nor ends with `class`.
pub proof fn lemma_trim_class(s: Seq<char>, class: CharClass)
    ensures
        exists|i: int, j: int|
            0 <= i <= j <= s.len() && trim_class(s, class) == s.subrange(i, j) && (forall|k: int|
                0 <= k < i ==> in_class(class, #[trigger] s[k])) && (forall|k: int|
                j <= k < s.len() ==> in_class(class, #[trigger] s[k])),
        trim_class(s, class).len() > 0 ==> !in_class(class, trim_class(s, class)[0])
            && !in_class(class, trim_class(s, class).last()),
{
    lemma_trim_start_class(s, class);
    let i = choose|i: int|
        0 <= i <= s.len() && trim_start_class(s, class) == s.skip(i) && (forall|k: int|
            0 <= k < i ==> in_class(class, #[trigger] s[k])) && (i < s.len() ==> !in_class(
            class,
            s[i],
        ));
    let t = s.skip(i);
    lemma_trim_end_class(t, class);
    let j = choose|j: int|
        0 <= j <= t.len() && trim_end_class(t, class) == t.take(j) && (forall|k: int|
            j <= k < t.len() ==> in_class(class, #[trigger] t[k])) && (j > 0 ==> !in_class(
            class,
            t[j - 1],
        ));
    assert(t.take(j) =~= s.subrange(i, i + j));
    assert forall|k: int| i + j <= k < s.len() implies in_class(class, #[trigger] s[k]) by {
        assert(s[k] == t[k - i]);
    }
    let r = trim_class(s, class);
    if r.len() > 0 {
        assert(r[0] == t[0]);
        assert(r.last() == t[j - 1]);
    }
}

/// The number of leading characters of `s` that lie outside `class`:
/// the length of the first piece of `s` when it is split at `class`.
pub open spec fn prefix_outside(s: Seq<char>, class: CharClass) -> nat
    decreases s.len(),
{
    if s.len() == 0 || in_class(class, s[0]) {
        0
    } else {
        1 + prefix_outside(s.drop_first(), class)
    }
}

pub proof fn lemma_prefix_outside_len(s: Seq<char>, class: CharClass)
    ensures
        prefix_outside(s, class) <= s.len(),
        s.len() > 0 && !in_class(class, s[0]) ==> prefix_outside(s, class) >= 1,
    decreases s.len(),
{
    if s.len() > 0 && !in_class(class, s[0]) {
        lemma_prefix_outside_len(s.drop_first(), class);
    }
}

/// A prefix with no character of `class` lies wholly in the first piece.
pub proof fn lemma_prefix_outside_concat(a: Seq<char>, b: Seq<char>, class: CharClass)
    requires
        forall|i: int| 0 <= i < a.len() ==> !in_class(class, #[trigger] a[i]),
    ensures
        prefix_outside(a + b, class) == a.len() + prefix_outside(b, class),
    decreases a.len(),
{
    if a.len() > 0 {
        assert((a + b).drop_first() =~= a.drop_first() + b);
        assert((a + b)[0] == a[0]);
        lemma_prefix_outside_concat(a.drop_first(), b, class);
    } else {
        assert(a + b =~= b);
    }
}

/// The first piece of `s` split at `class` (`s.split(..).next()`).
pub open spec fn first_piece(s: Seq<char>, class: CharClass) -> Seq<char> {
    s.take(prefix_outside(s, class) as int)
}

pub open spec fn is_ascii_upper(c: char) -> bool {
    'A' <= c && c <= 'Z'
}

pub open spec fn is_ascii_digit(c: char) -> bool {
    '0' <= c && c <= '9'
}

/// `char::to_ascii_lowercase`.
pub open spec fn lower_char(c: char) -> char {
    if is_ascii_upper(c) {
        ((c as u32) + 32) as char
    } else {
        c
    }
}

/// `str::to_ascii_lowercase`.
pub open spec fn lower(s: Seq<char>) -> Seq<char> {
    s.map_values(|c: char| lower_char(c))
}

/// `str::eq_ignore_ascii_case`.
pub open spec fn eq_ignore_case(a: Seq<char>, b: Seq<char>) -> bool {
    lower(a) == lower(b)
}

pub open spec fn starts_with(s: Seq<char>, p: Seq<char>) -> bool {
    p.len() <= s.len() && s.take(p.len() as int) == p
}

pub open spec fn ends_with(s: Seq<char>, p: Seq<char>) -> bool {
    p.len() <= s.len() && s.skip(s.len() - p.len()) == p
}

/// Whether `pat` occurs in `s` at position `i`.
pub open spec fn matches_at(s: Seq<char>, pat: Seq<char>, i: int) -> bool {
    0 <= i && i + pat.len() <= s.len() && s.subrange(i, i + pat.len()) == pat
}

/// `str::find`: the position of the first occurrence of `pat` in `s`.
pub open spec fn find(s: Seq<char>, pat: Seq<char>) -> Option<int>
    decreases s.len(),
{
    if s.len() < pat.len() {
        None
    } else if s.len() == 0 || s.take(pat.len() as int) == pat {
        Some(0)
    } else {
        match find(s.drop_first(), pat) {
            Some(k) => Some(k + 1),
            None => None,
        }
    }
}

/// `str::rfind` of a single character: the position of its last occurrence.
pub open spec fn rfind_char(s: Seq<char>, c: char) -> Option<int>
    decreases s.len(),
{
    if s.len() == 0 {
        None
    } else if s.last() == c {
        Some(s.len() - 1)
    } else {
        rfind_char(s.drop_last(), c)
    }
}

pub proof fn lemma_find_first(s: Seq<char>, pat: Seq<char>)
    ensures
        match find(s, pat) {
            Some(k) => matches_at(s, pat, k) && forall|j: int| 0 <= j < k ==> !matches_at(s, pat, j),
            None => forall|j: int| !matches_at(s, pat, j),
        },
    decreases s.len(),
{
    if s.len() < pat.len() {
    } else if s.len() == 0 || s.take(pat.len() as int) == pat {
        assert(s.subrange(0, pat.len() as int) =~= s.take(pat.len() as int));
        assert(s.take(pat.len() as int) =~= pat);
    } else {
        lemma_find_first(s.drop_first(), pat);
        assert(!matches_at(s, pat, 0)) by {
            assert(s.subrange(0, pat.len() as int) == s.take(pat.len() as int));
        }
        assert forall|j: int| 1 <= j && matches_at(s, pat, j) implies matches_at(
            s.drop_first(),
            pat,
            j - 1,
        ) by {
            assert(s.drop_first().subrange(j - 1, j - 1 + pat.len()) =~= s.subrange(
                j,
                j + pat.len(),
            ));
        }
        assert forall|j: int| 1 <= j && matches_at(s.drop_first(), pat, j - 1) implies matches_at(
            s,
            pat,
            j,
        ) by {
            assert(s.drop_first().subrange(j - 1, j - 1 + pat.len()) =~= s.subrange(
                j,
                j + pat.len(),
            ));
        }
        match find(s.drop_first(), pat) {
            Some(k) => {
                assert forall|j: int| 0 <= j < k + 1 implies !matches_at(s, pat, j) by {
                    if j >= 1 {
                        assert(!matches_at(s.drop_first(), pat, j - 1));
                    }
                }
            },
            None => {
                assert forall|j: int| !matches_at(s, pat, j) by {
                    if j >= 1 {
                        assert(!matches_at(s.drop_first(), pat, j - 1));
                    }
                }
            },
        }
    }
}

pub proof fn lemma_find_unique(s: Seq<char>, pat: Seq<char>, k: int)
    requires
        matches_at(s, pat, k),
        forall|j: int| 0 <= j < k ==> !matches_at(s, pat, j),
    ensures
        find(s, pat) == Some(k),
{
    lemma_find_first(s, pat);
    match find(s, pat) {
        Some(k2) => {
            if k2 < k {
                assert(!matches_at(s, pat, k2));
            }
            if k < k2 {
                assert(!matches_at(s, pat, k));
            }
        },
        None => {
            assert(!matches_at(s, pat, k));
        },
    }
}

pub proof fn lemma_find_none(s: Seq<char>, pat: Seq<char>)
    requires
        forall|j: int| 0 <= j ==> !matches_at(s, pat, j),
    ensures
        find(s, pat) is None,
{
    lemma_find_first(s, pat);
    if let Some(k) = find(s, pat) {
        assert(matches_at(s, pat, k));
    }
}

/// `String::push`, which vstd leaves unspecified.
#[verifier::external_body]
pub(crate) fn push_char(s: &mut String, c: char)
    ensures
        final(s)@ == old(s)@.push(c),
{
    s.push(c);
}

/// The characters of `s`, in order.
pub fn chars_of(s: &str) -> (v: Vec<char>)
    ensures
        v@ == s@,
{
    let mut v: Vec<char> = Vec::new();
    for c in it: s.chars()
        invariant
            v@ == it.seq().take(it.index() as int),
    {
        v.push(c);
        assert(v@ =~= it.seq().take(it.index() as int + 1));
    }
    assert(v@ =~= s@);
    v
}

/// A `String` holding `v[from..to]`.
pub fn string_of_range(v: &Vec<char>, from: usize, to: usize) -> (s: String)
    requires
        from <= to <= v.len(),
    ensures
        s@ == v@.subrange(from as int, to as int),
{
    let mut s = String::new();
    let mut i: usize = from;
    while i < to
        invariant
            from <= i <= to <= v.len(),
            s@ == v@.subrange(from as int, i as int),
        decreases to - i,
    {
        push_char(&mut s, v[i]);
        i += 1;
        assert(s@ =~= v@.subrange(from as int, i as int));
    }
    s
}

/// A `String` holding the characters of `v`.
pub fn string_of(v: &Vec<char>) -> (s: String)
    ensures
        s@ == v@,
{
    let s = string_of_range(v, 0, v.len());
    assert(v@.subrange(0, v.len() as int) =~= v@);
    s
}

/// `v[from..to]` as a new vector.
pub fn slice_vec(v: &Vec<char>, from: usize, to: usize) -> (r: Vec<char>)
    requires
        from <= to <= v.len(),
    ensures
        r@ == v@.subrange(from as int, to as int),
{
    let mut r: Vec<char> = Vec::new();
    let mut i: usize = from;
    while i < to
        invariant
            from <= i <= to <= v.len(),
            r@ == v@.subrange(from as int, i as int),
        decreases to - i,
    {
        r.push(v[i]);
        i += 1;
        assert(r@ =~= v@.subrange(from as int, i as int));
    }
    r
}

/// Appends `v[from..to]` to `out`.
pub fn extend_range(out: &mut Vec<char>, v: &Vec<char>, from: usize, to: usize)
    requires
        from <= to <= v.len(),
    ensures
        final(out)@ == old(out)@ + v@.subrange(from as int, to as int),
{
    let mut i: usize = from;
    while i < to
        invariant
            from <= i <= to <= v.len(),
            out@ == old(out)@ + v@.subrange(from as int, i as int),
        decreases to - i,
    {
        out.push(v[i]);
        i += 1;
        assert(out@ =~= old(out)@ + v@.subrange(from as int, i as int));
    }
}

/// Appends the characters of `s` to `out`.
pub fn extend_str(out: &mut Vec<char>, s: &str)
    ensures
        final(out)@ == old(out)@ + s@,
{
    let v = chars_of(s);
    extend_range(out, &v, 0, v.len());
    assert(v@.subrange(0, v.len() as int) =~= v@);
}

pub fn class_contains(class: CharClass, c: char) -> (b: bool)
    ensures
        b == in_class(class, c),
{
    match class {
        CharClass::Whitespace => {
            ('\u{9}' <= c && c <= '\u{d}') || c == ' ' || c == '\u{85}' || c == '\u{a0}' || c
                == '\u{1680}' || ('\u{2000}' <= c && c <= '\u{200a}') || c == '\u{2028}' || c
                == '\u{2029}' || c == '\u{202f}' || c == '\u{205f}' || c == '\u{3000}'
        },
        CharClass::Slash => c == '/',
        CharClass::UrlPunctuation => {
            c == '"' || c == '\'' || c == '<' || c == '>' || c == '(' || c == ')' || c == '['
                || c == ']' || c == '{' || c == '}' || c == ',' || c == '.' || c == '!' || c
                == '?' || c == ';' || c == ':'
        },
        CharClass::AuthorityEnd => c == '/' || c == '?' || c == '#',
        CharClass::PathEnd => c == '?' || c == '#',
        CharClass::Semicolon => c == ';',
        CharClass::Newline => c == '\n',
    }
}

pub fn is_whitespace(c: char) -> (b: bool)
    ensures
        b == is_ws(c),
{
    class_contains(CharClass::Whitespace, c)
}

/// The position after the characters of `class` that start `v[from..to]`.
pub fn skip_class_forward(v: &Vec<char>, from: usize, to: usize, class: CharClass) -> (i: usize)
    requires
        from <= to <= v.len(),
    ensures
        from <= i <= to,
        trim_start_class(v@.subrange(from as int, to as int), class) == v@.subrange(
            i as int,
            to as int,
        ),
        forall|j: int| from <= j < i ==> in_class(class, v@[j]),
        i < to ==> !in_class(class, v@[i as int]),
{
    let mut i: usize = from;
    while i < to && class_contains(class, v[i])
        invariant
            from <= i <= to <= v.len(),
            trim_start_class(v@.subrange(from as int, to as int), class) == trim_start_class(
                v@.subrange(i as int, to as int),
                class,
            ),
            forall|j: int| from <= j < i ==> in_class(class, v@[j]),
        decreases to - i,
    {
        assert(v@.subrange(i as int, to as int).drop_first() =~= v@.subrange(
            i as int + 1,
            to as int,
        ));
        i += 1;
    }
    i
}

/// The position before the characters of `class` that end `v[from..to]`.
pub fn skip_class_backward(v: &Vec<char>, from: usize, to: usize, class: CharClass) -> (j: usize)
    requires
        from <= to <= v.len(),
    ensures
        from <= j <= to,
        trim_end_class(v@.subrange(from as int, to as int), class) == v@.subrange(
            from as int,
            j as int,
        ),
{
    let mut j: usize = to;
    while j > from && class_contains(class, v[j - 1])
        invariant
            from <= j <= to <= v.len(),
            trim_end_class(v@.subrange(from as int, to as int), class) == trim_end_class(
                v@.subrange(from as int, j as int),
                class,
            ),
        decreases j,
    {
        assert(v@.subrange(from as int, j as int).drop_last() =~= v@.subrange(
            from as int,
            j as int - 1,
        ));
        j -= 1;
    }
    j
}

/// `v` with the characters of `class` removed from both ends.
pub fn trim_class_vec(v: &Vec<char>, class: CharClass) -> (r: Vec<char>)
    ensures
        r@ == trim_class(v@, class),
{
    let i = skip_class_forward(v, 0, v.len(), class);
    assert(v@.subrange(0, v.len() as int) =~= v@);
    let j = skip_class_backward(v, i, v.len(), class);
    slice_vec(v, i, j)
}

/// `v` with surrounding whitespace removed.
pub fn trim_vec(v: &Vec<char>) -> (r: Vec<char>)
    ensures
        r@ == trim(v@),
{
    trim_class_vec(v, CharClass::Whitespace)
}

/// The number of characters of `v[from..]` before the first one in `class`.
pub fn prefix_outside_len(v: &Vec<char>, from: usize, class: CharClass) -> (n: usize)
    requires
        from <= v.len(),
    ensures
        n == prefix_outside(v@.skip(from as int), class),
        from + n <= v.len(),
        forall|j: int| from <= j < from + n ==> !in_class(class, v@[j]),
        from + n < v.len() ==> in_class(class, v@[from + n]),
{
    let mut i: usize = from;
    while i < v.len() && !class_contains(class, v[i])
        invariant
            from <= i <= v.len(),
            prefix_outside(v@.skip(from as int), class) == (i - from) + prefix_outside(
                v@.skip(i as int),
                class,
            ),
            forall|j: int| from <= j < i ==> !in_class(class, v@[j]),
        decreases v.len() - i,
    {
        assert(v@.skip(i as int).drop_first() =~= v@.skip(i as int + 1));
        i += 1;
    }
    i - from
}

pub fn lower_char_exec(c: char) -> (r: char)
    ensures
        r == lower_char(c),
{
    if 'A' <= c && c <= 'Z' {
        let b: u8 = (c as u8) + 32;
        b as char
    } else {
        c
    }
}

/// `to_ascii_lowercase` of `v`.
pub fn lower_vec(v: &Vec<char>) -> (r: Vec<char>)
    ensures
        r@ == lower(v@),
{
    let mut r: Vec<char> = Vec::new();
    let mut i: usize = 0;
    while i < v.len()
        invariant
            i <= v.len(),
            r@ == lower(v@.take(i as int)),
        decreases v.len() - i,
    {
        r.push(lower_char_exec(v[i]));
        i += 1;
        assert(r@ =~= lower(v@.take(i as int)));
    }
    assert(v@.take(v.len() as int) =~= v@);
    r
}

/// `eq_ignore_ascii_case` of `a` and `b`.
pub fn eq_ignore_case_vec(a: &Vec<char>, b: &Vec<char>) -> (r: bool)
    ensures
        r == eq_ignore_case(a@, b@),
{
    if a.len() != b.len() {
        assert(lower(a@).len() != lower(b@).len());
        return false;
    }
    let mut i: usize = 0;
    while i < a.len()
        invariant
            i <= a.len() == b.len(),
            forall|j: int| 0 <= j < i ==> lower_char(a@[j]) == lower_char(b@[j]),
        decreases a.len() - i,
    {
        if lower_char_exec(a[i]) != lower_char_exec(b[i]) {
            assert(lower(a@)[i as int] != lower(b@)[i as int]);
            return false;
        }
        i += 1;
    }
    assert(lower(a@) =~= lower(b@));
    true
}

/// Whether `pat` occurs in `v` at position `i`.
pub fn matches_at_exec(v: &Vec<char>, pat: &Vec<char>, i: usize) -> (r: bool)
    ensures
        r == matches_at(v@, pat@, i as int),
{
    if i > v.len() || pat.len() > v.len() - i {
        return false;
    }
    let mut k: usize = 0;
    while k < pat.len()
        invariant
            k <= pat.len(),
            i + pat.len() <= v.len(),
            forall|j: int| 0 <= j < k ==> v@[i + j] == pat@[j],
        decreases pat.len() - k,
    {
        if v[i + k] != pat[k] {
            assert(v@.subrange(i as int, i + pat.len())[k as int] != pat@[k as int]);
            return false;
        }
        k += 1;
    }
    assert(v@.subrange(i as int, i + pat.len()) =~= pat@);
    true
}

/// Whether `v` starts with `p`.
pub fn starts_with_vec(v: &Vec<char>, p: &Vec<char>) -> (r: bool)
    ensures
        r == starts_with(v@, p@),
{
    let r = matches_at_exec(v, p, 0);
    assert(v@.subrange(0, p.len() as int) =~= v@.take(p.len() as int));
    r
}

/// Whether `v` ends with `p`.
pub fn ends_with_vec(v: &Vec<char>, p: &Vec<char>) -> (r: bool)
    ensures
        r == ends_with(v@, p@),
{
    if p.len() > v.len() {
        return false;
    }
    let r = matches_at_exec(v, p, v.len() - p.len());
    assert(v@.subrange(v.len() - p.len(), v.len() as int) =~= v@.skip(v.len() - p.len()));
    r
}

/// The position of the first occurrence of `pat` in `v[from..]`, counted from `from`.
pub fn find_from(v: &Vec<char>, pat: &Vec<char>, from: usize) -> (r: Option<usize>)
    requires
        from <= v.len(),
    ensures
        r matches Some(k) ==> find(v@.skip(from as int), pat@) == Some(k as int) && from + k
            + pat.len() <= v.len(),
        r is None ==> find(v@.skip(from as int), pat@) is None,
{
    let ghost t = v@.skip(from as int);
    let mut i: usize = from;
    while i <= v.len() && pat.len() <= v.len() - i
        invariant
            from <= i <= v.len(),
            t == v@.skip(from as int),
            forall|j: int| 0 <= j < i - from ==> !matches_at(t, pat@, j),
        decreases v.len() + 1 - i,
    {
        let m = matches_at_exec(v, pat, i);
        assert(m == matches_at(t, pat@, i - from)) by {
            assert(t.subrange(i - from, i - from + pat.len()) =~= v@.subrange(
                i as int,
                i + pat.len(),
            ));
        }
        if m {
            proof {
                lemma_find_unique(t, pat@, i - from);
            }
            return Some(i - from);
        }
        proof {
            if pat.len() == 0 {
                assert(t.subrange(i - from, i - from) =~= pat@);
            }
        }
        i += 1;
    }
    proof {
        assert forall|j: int| 0 <= j implies !matches_at(t, pat@, j) by {
            if j >= i - from {
                assert(j + pat.len() > t.len());
            }
        }
        lemma_find_none(t, pat@);
    }
    None
}

/// The position of the first occurrence of `pat` in `v`.
pub fn find_vec(v: &Vec<char>, pat: &Vec<char>) -> (r: Option<usize>)
    ensures
        r matches Some(k) ==> find(v@, pat@) == Some(k as int) && k + pat.len() <= v.len(),
        r is None ==> find(v@, pat@) is None,
{
    assert(v@.skip(0) =~= v@);
    find_from(v, pat, 0)
}

/// The position of the last occurrence of `c` in `v`.
pub fn rfind_char_vec(v: &Vec<char>, c: char) -> (r: Option<usize>)
    ensures
        r matches Some(k) ==> rfind_char(v@, c) == Some(k as int) && k < v.len(),
        r is None ==> rfind_char(v@, c) is None,
{
    let mut j: usize = v.len();
    assert(v@.take(j as int) =~= v@);
    while j > 0
        invariant
            j <= v.len(),
            rfind_char(v@, c) == rfind_char(v@.take(j as int), c),
        decreases j,
    {
        assert(v@.take(j as int).last() == v@[j - 1]);
        if v[j - 1] == c {
            return Some(j - 1);
        }
        assert(v@.take(j as int).drop_last() =~= v@.take(j - 1));
        j -= 1;
    }
    None
}


/// The whitespace-separated words of `s`, in order (`str::split_whitespace`).
pub open spec fn words(s: Seq<char>) -> Seq<Seq<char>>
    decreases s.len(),
{
    if s.len() == 0 {
        seq![]
    } else if is_ws(s[0]) {
        words(s.drop_first())
    } else {
        let n = prefix_outside(s, CharClass::Whitespace);
        proof {
            lemma_prefix_outside_len(s, CharClass::Whitespace);
        }
        seq![s.take(n as int)] + words(s.skip(n as int))
    }
}

/// The words of `ws` joined by single spaces.
pub open spec fn join_words(ws: Seq<Seq<char>>) -> Seq<char>
    decreases ws.len(),
{
    if ws.len() == 0 {
        seq![]
    } else if ws.len() == 1 {
        ws[0]
    } else {
        join_words(ws.drop_last()) + seq![' '] + ws.last()
    }
}

/// `s` with every occurrence of `from` replaced by `to`, scanning left to right.
pub open spec fn replace_all(s: Seq<char>, from: Seq<char>, to: Seq<char>) -> Seq<char>
    decreases s.len(),
{
    if s.len() == 0 {
        seq![]
    } else if from.len() > 0 && starts_with(s, from) {
        to + replace_all(s.skip(from.len() as int), from, to)
    } else {
        seq![s[0]] + replace_all(s.drop_first(), from, to)
    }
}

/// Text without the first character of `from` holds no occurrence of it, so
/// replacing leaves it as it is.
pub proof fn lemma_replace_all_absent(s: Seq<char>, from: Seq<char>, to: Seq<char>)
    requires
        from.len() > 0,
        forall|k: int| 0 <= k < s.len() ==> s[k] != from[0],
    ensures
        replace_all(s, from, to) == s,
    decreases s.len(),
{
    if s.len() > 0 {
        assert(!starts_with(s, from)) by {
            if starts_with(s, from) {
                assert(s.take(from.len() as int)[0] == s[0]);
            }
        }
        lemma_replace_all_absent(s.drop_first(), from, to);
        assert(seq![s[0]] + s.drop_first() =~= s);
    }
}

/// Replacing passes over a prefix that holds no first character of `from`.
pub proof fn lemma_replace_all_prefix(a: Seq<char>, x: Seq<char>, from: Seq<char>, to: Seq<char>)
    requires
        from.len() > 0,
        forall|k: int| 0 <= k < a.len() ==> a[k] != from[0],
    ensures
        replace_all(a + x, from, to) == a + replace_all(x, from, to),
    decreases a.len(),
{
    if a.len() > 0 {
        let s = a + x;
        assert(!starts_with(s, from)) by {
            if starts_with(s, from) {
                assert(s.take(from.len() as int)[0] == s[0]);
            }
        }
        assert(s.drop_first() =~= a.drop_first() + x);
        lemma_replace_all_prefix(a.drop_first(), x, from, to);
        assert(seq![a[0]] + a.drop_first() =~= a);
        assert(seq![a[0]] + (a.drop_first() + replace_all(x, from, to)) =~= a + replace_all(
            x,
            from,
            to,
        ));
    } else {
        assert(a + x =~= x);
        assert(a + replace_all(x, from, to) =~= replace_all(x, from, to));
    }
}

/// An occurrence of `from` at the start is replaced by `to`.
pub proof fn lemma_replace_all_at_start(x: Seq<char>, from: Seq<char>, to: Seq<char>)
    requires
        from.len() > 0,
    ensures
        replace_all(from + x, from, to) == to + replace_all(x, from, to),
{
    let s = from + x;
    assert(s.take(from.len() as int) =~= from);
    assert(s.skip(from.len() as int) =~= x);
}

pub proof fn lemma_words_trim_start(s: Seq<char>)
    ensures
        words(trim_start_class(s, CharClass::Whitespace)) == words(s),
    decreases s.len(),
{
    if s.len() > 0 && is_ws(s[0]) {
        lemma_words_trim_start(s.drop_first());
    }
}

/// The bounds of the first word of `v[i..]`, if it has one.
pub fn next_word(v: &Vec<char>, i: usize) -> (r: Option<(usize, usize)>)
    requires
        i <= v.len(),
    ensures
        r is None ==> words(v@.skip(i as int)) == Seq::<Seq<char>>::empty(),
        r matches Some((start, end)) ==> {
            &&& i <= start < end <= v.len()
            &&& words(v@.skip(i as int)) == seq![v@.subrange(start as int, end as int)] + words(
                v@.skip(end as int),
            )
        },
{
    let start = skip_class_forward(v, i, v.len(), CharClass::Whitespace);
    proof {
        assert(v@.subrange(i as int, v.len() as int) =~= v@.skip(i as int));
        assert(v@.subrange(start as int, v.len() as int) =~= v@.skip(start as int));
        lemma_words_trim_start(v@.skip(i as int));
    }
    if start == v.len() {
        return None;
    }
    let n = prefix_outside_len(v, start, CharClass::Whitespace);
    proof {
        let t = v@.skip(start as int);
        assert(t[0] == v@[start as int]);
        assert(n >= 1);
        assert(t.take(n as int) =~= v@.subrange(start as int, start + n));
        assert(t.skip(n as int) =~= v@.skip(start + n));
    }
    Some((start, start + n))
}

/// The words of `v` joined by single spaces.
pub fn collapse_whitespace(v: &Vec<char>) -> (r: Vec<char>)
    ensures
        r@ == join_words(words(v@)),
{
    let mut out: Vec<char> = Vec::new();
    let ghost mut done: Seq<Seq<char>> = seq![];
    let mut i: usize = 0;
    let mut first = true;
    assert(v@.skip(0) =~= v@);
    while i < v.len()
        invariant
            i <= v.len(),
            first == (done.len() == 0),
            words(v@) == done + words(v@.skip(i as int)),
            out@ == join_words(done),
        decreases v.len() - i,
    {
        match next_word(v, i) {
            None => {
                assert(done + words(v@.skip(i as int)) =~= done);
                i = v.len();
                assert(v@.skip(i as int) =~= Seq::<char>::empty());
            },
            Some((start, end)) => {
                let ghost w = v@.subrange(start as int, end as int);
                if !first {
                    out.push(' ');
                }
                first = false;
                extend_range(&mut out, v, start, end);
                proof {
                    assert((done.push(w)).drop_last() =~= done);
                    assert(done + words(v@.skip(i as int)) =~= done.push(w) + words(
                        v@.skip(end as int),
                    ));
                    if done.len() == 0 {
                        assert(out@ =~= w);
                    } else {
                        assert(out@ =~= join_words(done) + seq![' '] + w);
                    }
                    done = done.push(w);
                }
                i = end;
            },
        }
    }
    assert(v@.skip(i as int) =~= Seq::<char>::empty());
    assert(done + Seq::<Seq<char>>::empty() =~= done);
    out
}

/// `v` with every occurrence of `from` replaced by `to`.
pub fn replace_vec(v: &Vec<char>, from: &Vec<char>, to: &Vec<char>) -> (r: Vec<char>)
    requires
        from.len() > 0,
    ensures
        r@ == replace_all(v@, from@, to@),
{
    let mut out: Vec<char> = Vec::new();
    let mut i: usize = 0;
    assert(v@.skip(0) =~= v@);
    while i < v.len()
        invariant
            i <= v.len(),
            from.len() > 0,
            replace_all(v@, from@, to@) == out@ + replace_all(v@.skip(i as int), from@, to@),
        decreases v.len() - i,
    {
        let ghost t = v@.skip(i as int);
        let m = matches_at_exec(v, from, i);
        assert(m == starts_with(t, from@)) by {
            if i + from.len() <= v.len() {
                assert(t.take(from.len() as int) =~= v@.subrange(i as int, i + from.len()));
            }
        }
        if m {
            extend_range(&mut out, to, 0, to.len());
            assert(to@.subrange(0, to.len() as int) =~= to@);
            assert(t.skip(from.len() as int) =~= v@.skip(i + from.len()));
            i += from.len();
        } else {
            out.push(v[i]);
            assert(t.drop_first() =~= v@.skip(i + 1));
            i += 1;
        }
    }
    assert(v@.skip(i as int) =~= Seq::<char>::empty());
    out
}

/// `s` with every occurrence of `from` replaced by `to`.
pub fn replace_str(v: &Vec<char>, from: &str, to: &str) -> (r: Vec<char>)
    requires
        from@.len() > 0,
    ensures
        r@ == replace_all(v@, from@, to@),
{
    let f = chars_of(from);
    let t = chars_of(to);
    replace_vec(v, &f, &t)
}


/// Whether `a` and `b` hold the same characters.
pub fn same_chars(a: &Vec<char>, b: &Vec<char>) -> (r: bool)
    ensures
        r == (a@ == b@),
{
    if a.len() != b.len() {
        return false;
    }
    let r = matches_at_exec(a, b, 0);
    assert(a@.subrange(0, b.len() as int) =~= a@);
    r
}

/// Whether `c` occurs in `v`.
pub fn contains_char(v: &Vec<char>, c: char) -> (r: bool)
    ensures
        r == v@.contains(c),
{
    let mut i: usize = 0;
    while i < v.len()
        invariant
            i <= v.len(),
            forall|j: int| 0 <= j < i ==> v@[j] != c,
        decreases v.len() - i,
    {
        if v[i] == c {
            assert(v@[i as int] == c);
            return true;
        }
        i += 1;
    }
    false
}

/// `v` followed by `w`.
pub fn concat(v: &Vec<char>, w: &Vec<char>) -> (r: Vec<char>)
    ensures
        r@ == v@ + w@,
{
    let mut r = slice_vec(v, 0, v.len());
    assert(v@.subrange(0, v.len() as int) =~= v@);
    extend_range(&mut r, w, 0, w.len());
    assert(w@.subrange(0, w.len() as int) =~= w@);
    r
}


/// Whether `a` and `b` are the same string.
pub fn str_eq(a: &str, b: &str) -> (r: bool)
    ensures
        r == (a@ == b@),
{
    same_chars(&chars_of(a), &chars_of(b))
}


/// Whether the UTF-8 encoding of `v` is longer than `limit` bytes.
pub fn utf8_len_exceeds(v: &Vec<char>, limit: usize) -> (r: bool)
    ensures
        r == (vstd::utf8::encode_utf8(v@).len() > limit),
{
    broadcast use vstd::utf8::char_is_scalar;

    let mut total: usize = 0;
    let mut i: usize = 0;
    assert(v@.skip(0) =~= v@);
    while i < v.len()
        invariant
            i <= v.len(),
            total <= limit,
            vstd::utf8::encode_utf8(v@).len() == total + vstd::utf8::encode_utf8(
                v@.skip(i as int),
            ).len(),
        decreases v.len() - i,
    {
        let c = v[i] as u32;
        let width: usize = if c < 0x80 {
            1
        } else if c < 0x800 {
            2
        } else if c < 0x10000 {
            3
        } else {
            4
        };
        proof {
            let t = v@.skip(i as int);
            assert(t[0] == v@[i as int]);
            assert(t.drop_first() =~= v@.skip(i + 1));
            vstd::utf8::char_is_scalar(v@[i as int]);
            assert(c == v@[i as int] as u32);
            assert(vstd::utf8::is_scalar(c));
            assert(vstd::utf8::encode_scalar(c).len() == width);
        }
        if width > limit - total {
            return true;
        }
        total = total + width;
        i += 1;
    }
    assert(v@.skip(i as int) =~= Seq::<char>::empty());
    false
}

} // verus!
