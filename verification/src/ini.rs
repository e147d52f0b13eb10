//! A verified reader for INI-style configuration documents.
//!
//! The desktop environment's wallpaper setting lives in a small INI-style
//! file: lines separated by `'\n'`, each of which is blank, a comment
//! (starting with `';'` or `'#'`), a section header (`[name]`), or a
//! `key=value` pair; spaces, tabs and carriage returns around a line, a key
//! or a value are ignored.  [`lookup`] returns the value of the first
//! occurrence of a key while the current section is the requested one,
//! fails on a document with a line that fits none of the four shapes, and
//! otherwise reports whether the section or only the key was missing.

use vstd::prelude::*;

use crate::Error;
use crate::ParseFailure;

verus! {

/// Whitespace ignored around lines, keys and values: space, tab, and the
/// carriage return a CRLF line ending leaves behind.
pub open spec fn is_ini_ws(c: char) -> bool {
    c == ' ' || c == '\t' || c == '\r'
}

/// The index of the first `'\n'` in `s`, or `s.len()` when there is none.
pub open spec fn find_newline(s: Seq<char>) -> int
    decreases s.len(),
{
    if s.len() == 0 {
        0
    } else if s[0] == '\n' {
        0
    } else {
        1 + find_newline(s.drop_first())
    }
}

proof fn lemma_find_newline(s: Seq<char>)
    ensures
        0 <= find_newline(s) <= s.len(),
        find_newline(s) < s.len() ==> s[find_newline(s)] == '\n',
        forall|k: int| 0 <= k < find_newline(s) ==> s[k] != '\n',
    decreases s.len(),
{
    if s.len() > 0 && s[0] != '\n' {
        lemma_find_newline(s.drop_first());
        assert forall|k: int| 0 <= k < find_newline(s) implies s[k] != '\n' by {
            if k > 0 {
                assert(s.drop_first()[k - 1] == s[k]);
            }
        }
    }
}

proof fn lemma_find_newline_is(s: Seq<char>, j: int)
    requires
        0 <= j <= s.len(),
        j < s.len() ==> s[j] == '\n',
        forall|k: int| 0 <= k < j ==> s[k] != '\n',
    ensures
        find_newline(s) == j,
{
    lemma_find_newline(s);
}

/// The index of the first character of `s` that is not whitespace, or
/// `s.len()` when all of `s` is whitespace.
pub open spec fn skip_ws(s: Seq<char>) -> int
    decreases s.len(),
{
    if s.len() == 0 {
        0
    } else if !is_ini_ws(s[0]) {
        0
    } else {
        1 + skip_ws(s.drop_first())
    }
}

proof fn lemma_skip_ws(s: Seq<char>)
    ensures
        0 <= skip_ws(s) <= s.len(),
        skip_ws(s) < s.len() ==> !is_ini_ws(s[skip_ws(s)]),
        forall|k: int| 0 <= k < skip_ws(s) ==> is_ini_ws(s[k]),
    decreases s.len(),
{
    if s.len() > 0 && is_ini_ws(s[0]) {
        lemma_skip_ws(s.drop_first());
        assert forall|k: int| 0 <= k < skip_ws(s) implies is_ini_ws(s[k]) by {
            if k > 0 {
                assert(s.drop_first()[k - 1] == s[k]);
            }
        }
    }
}

proof fn lemma_skip_ws_is(s: Seq<char>, j: int)
    requires
        0 <= j <= s.len(),
        j < s.len() ==> !is_ini_ws(s[j]),
        forall|k: int| 0 <= k < j ==> is_ini_ws(s[k]),
    ensures
        skip_ws(s) == j,
{
    lemma_skip_ws(s);
}

/// The index just past the last character of `s` that is not whitespace,
/// or `0` when all of `s` is whitespace.
pub open spec fn ws_back(s: Seq<char>) -> int
    decreases s.len(),
{
    if s.len() == 0 {
        0
    } else if is_ini_ws(s.last()) {
        ws_back(s.drop_last())
    } else {
        s.len() as int
    }
}

proof fn lemma_ws_back(s: Seq<char>)
    ensures
        0 <= ws_back(s) <= s.len(),
        forall|k: int| ws_back(s) <= k < s.len() ==> is_ini_ws(s[k]),
        ws_back(s) > 0 ==> !is_ini_ws(s[ws_back(s) - 1]),
    decreases s.len(),
{
    if s.len() > 0 && is_ini_ws(s.last()) {
        lemma_ws_back(s.drop_last());
        assert(forall|k: int| 0 <= k < s.len() - 1 ==> s.drop_last()[k] == s[k]);
    }
}

proof fn lemma_ws_back_is(s: Seq<char>, j: int)
    requires
        0 <= j <= s.len(),
        forall|k: int| j <= k < s.len() ==> is_ini_ws(s[k]),
        j > 0 ==> !is_ini_ws(s[j - 1]),
    ensures
        ws_back(s) == j,
{
    lemma_ws_back(s);
}

/// The index of the first `'='` in `s`, or `s.len()` when there is none.
pub open spec fn find_eq(s: Seq<char>) -> int
    decreases s.len(),
{
    if s.len() == 0 {
        0
    } else if s[0] == '=' {
        0
    } else {
        1 + find_eq(s.drop_first())
    }
}

proof fn lemma_find_eq(s: Seq<char>)
    ensures
        0 <= find_eq(s) <= s.len(),
        find_eq(s) < s.len() ==> s[find_eq(s)] == '=',
        forall|k: int| 0 <= k < find_eq(s) ==> s[k] != '=',
    decreases s.len(),
{
    if s.len() > 0 && s[0] != '=' {
        lemma_find_eq(s.drop_first());
        assert forall|k: int| 0 <= k < find_eq(s) implies s[k] != '=' by {
            if k > 0 {
                assert(s.drop_first()[k - 1] == s[k]);
            }
        }
    }
}

proof fn lemma_find_eq_is(s: Seq<char>, j: int)
    requires
        0 <= j <= s.len(),
        j < s.len() ==> s[j] == '=',
        forall|k: int| 0 <= k < j ==> s[k] != '=',
    ensures
        find_eq(s) == j,
{
    lemma_find_eq(s);
}

/// `l` with leading and trailing whitespace removed.
pub open spec fn trimmed(l: Seq<char>) -> Seq<char> {
    if skip_ws(l) <= ws_back(l) {
        l.subrange(skip_ws(l), ws_back(l))
    } else {
        Seq::empty()
    }
}

proof fn lemma_trimmed(l: Seq<char>)
    ensures
        0 <= skip_ws(l) <= l.len(),
        0 <= ws_back(l) <= l.len(),
        skip_ws(l) < l.len() ==> skip_ws(l) < ws_back(l) && trimmed(l) == l.subrange(
            skip_ws(l),
            ws_back(l),
        ),
        skip_ws(l) == l.len() ==> trimmed(l).len() == 0,
{
    lemma_skip_ws(l);
    lemma_ws_back(l);
    if skip_ws(l) < l.len() {
        if ws_back(l) <= skip_ws(l) {
            assert(is_ini_ws(l[skip_ws(l)]));
            assert(false);
        }
    } else {
        if ws_back(l) > 0 {
            assert(is_ini_ws(l[ws_back(l) - 1]));
            assert(false);
        }
    }
}

/// A line that holds nothing but whitespace.
pub open spec fn is_blank(l: Seq<char>) -> bool {
    trimmed(l).len() == 0
}

/// A comment line: the first non-whitespace character is `';'` or `'#'`.
pub open spec fn is_comment(l: Seq<char>) -> bool {
    trimmed(l).len() > 0 && (trimmed(l)[0] == ';' || trimmed(l)[0] == '#')
}

/// A section header: `[name]`, surrounded by nothing but whitespace.
pub open spec fn is_header(l: Seq<char>) -> bool {
    trimmed(l).len() >= 2 && trimmed(l)[0] == '[' && trimmed(l).last() == ']'
}

/// The name between a header line's brackets, trimmed.
pub open spec fn header_name(l: Seq<char>) -> Seq<char> {
    trimmed(trimmed(l).subrange(1, trimmed(l).len() - 1))
}

/// Whether the line holds an `'='` anywhere.
pub open spec fn has_eq(l: Seq<char>) -> bool {
    find_eq(trimmed(l)) < trimmed(l).len()
}

/// A `key=value` line: not blank, not a comment, not a header, and split by
/// its first `'='`.
pub open spec fn is_kv(l: Seq<char>) -> bool {
    trimmed(l).len() > 0 && !is_comment(l) && !is_header(l) && has_eq(l)
}

/// A line that fits none of the four shapes of the format.
pub open spec fn is_malformed(l: Seq<char>) -> bool {
    trimmed(l).len() > 0 && !is_comment(l) && !is_header(l) && !has_eq(l)
}

/// The key of a `key=value` line: the text before the first `'='`, trimmed.
pub open spec fn kv_key(l: Seq<char>) -> Seq<char> {
    trimmed(trimmed(l).subrange(0, find_eq(trimmed(l))))
}

/// The value of a `key=value` line: the text after the first `'='`, trimmed.
pub open spec fn kv_value(l: Seq<char>) -> Seq<char> {
    trimmed(trimmed(l).subrange(find_eq(trimmed(l)) + 1, trimmed(l).len() as int))
}

/// The document cut at each `'\n'`.  Every document has at least one line;
/// a trailing `'\n'` produces a final empty line.
pub open spec fn split_lines(s: Seq<char>) -> Seq<Seq<char>>
    decreases s.len(),
    via split_lines_decreases
{
    if find_newline(s) == s.len() {
        seq![s]
    } else {
        seq![s.subrange(0, find_newline(s))] + split_lines(
            s.subrange(find_newline(s) + 1, s.len() as int),
        )
    }
}

#[via_fn]
proof fn split_lines_decreases(s: Seq<char>) {
    lemma_find_newline(s);
}

/// The value of the first `key=value` line whose key is `key` and whose
/// enclosing section is `section`, walking the lines in order.  `in_target`
/// says whether the lines start inside the requested section.
pub open spec fn lookup_lines(
    ls: Seq<Seq<char>>,
    in_target: bool,
    section: Seq<char>,
    key: Seq<char>,
) -> Option<Seq<char>>
    decreases ls.len(),
{
    if ls.len() == 0 {
        None
    } else if is_header(ls[0]) {
        lookup_lines(ls.drop_first(), header_name(ls[0]) == section, section, key)
    } else if in_target && is_kv(ls[0]) && kv_key(ls[0]) == key {
        Some(kv_value(ls[0]))
    } else {
        lookup_lines(ls.drop_first(), in_target, section, key)
    }
}

/// Whether some line is a header for `section`.
pub open spec fn has_section(ls: Seq<Seq<char>>, section: Seq<char>) -> bool {
    exists|i: int| 0 <= i < ls.len() && is_header(ls[i]) && header_name(ls[i]) == section
}

/// Whether some line fits none of the four shapes of the format.
pub open spec fn has_malformed_line(ls: Seq<Seq<char>>) -> bool {
    exists|i: int| 0 <= i < ls.len() && is_malformed(ls[i])
}

/// What [`lookup`] returns on `s` when every line is well formed.
pub open spec fn ini_lookup(s: Seq<char>, section: Seq<char>, key: Seq<char>) -> Option<Seq<char>> {
    lookup_lines(split_lines(s), false, section, key)
}

/// Whether the document `s` has a header for `section`.
pub open spec fn ini_has_section(s: Seq<char>, section: Seq<char>) -> bool {
    has_section(split_lines(s), section)
}

/// Whether some line of the document `s` fits none of the four shapes.
pub open spec fn ini_has_malformed(s: Seq<char>) -> bool {
    has_malformed_line(split_lines(s))
}

proof fn lemma_lookup_cons(
    l: Seq<char>,
    rest: Seq<Seq<char>>,
    in_target: bool,
    section: Seq<char>,
    key: Seq<char>,
)
    ensures
        lookup_lines(seq![l] + rest, in_target, section, key) == (if is_header(l) {
            lookup_lines(rest, header_name(l) == section, section, key)
        } else if in_target && is_kv(l) && kv_key(l) == key {
            Some(kv_value(l))
        } else {
            lookup_lines(rest, in_target, section, key)
        }),
{
    let c = seq![l] + rest;
    assert(c[0] == l);
    assert(c.drop_first() =~= rest);
}

proof fn lemma_has_section_cons(l: Seq<char>, rest: Seq<Seq<char>>, section: Seq<char>)
    ensures
        has_section(seq![l] + rest, section) == ((is_header(l) && header_name(l) == section)
            || has_section(rest, section)),
{
    let c = seq![l] + rest;
    assert(c[0] == l);
    if has_section(c, section) {
        let i = choose|i: int| 0 <= i < c.len() && is_header(c[i]) && header_name(c[i]) == section;
        if i > 0 {
            assert(c[i] == rest[i - 1]);
        }
    }
    if is_header(l) && header_name(l) == section {
        assert(is_header(c[0]) && header_name(c[0]) == section);
    }
    if has_section(rest, section) {
        let j = choose|j: int|
            0 <= j < rest.len() && is_header(rest[j]) && header_name(rest[j]) == section;
        assert(is_header(c[j + 1]) && header_name(c[j + 1]) == section);
    }
}

proof fn lemma_has_malformed_cons(l: Seq<char>, rest: Seq<Seq<char>>)
    ensures
        has_malformed_line(seq![l] + rest) == (is_malformed(l) || has_malformed_line(rest)),
{
    let c = seq![l] + rest;
    assert(c[0] == l);
    if has_malformed_line(c) {
        let i = choose|i: int| 0 <= i < c.len() && is_malformed(c[i]);
        if i > 0 {
            assert(c[i] == rest[i - 1]);
        }
    }
    if is_malformed(l) {
        assert(is_malformed(c[0]));
    }
    if has_malformed_line(rest) {
        let j = choose|j: int| 0 <= j < rest.len() && is_malformed(rest[j]);
        assert(is_malformed(c[j + 1]));
    }
}

fn is_ws_char(c: char) -> (r: bool)
    ensures
        r == is_ini_ws(c),
{
    c == ' ' || c == '\t' || c == '\r'
}

fn find_line_end(content: &str, pos: usize) -> (e: usize)
    requires
        pos <= content@.len(),
    ensures
        pos <= e <= content@.len(),
        e - pos == find_newline(content@.subrange(pos as int, content@.len() as int)),
        e < content@.len() ==> content@[e as int] == '\n',
{
    let n: usize = content.unicode_len();
    let mut e: usize = pos;
    while e < n && content.get_char(e) != '\n'
        invariant
            pos <= e <= n,
            n == content@.len(),
            forall|k: int| pos <= k < e ==> content@[k] != '\n',
        decreases n - e,
    {
        e = e + 1;
    }
    proof {
        let rem = content@.subrange(pos as int, n as int);
        assert forall|k: int| 0 <= k < e - pos implies rem[k] != '\n' by {
            assert(rem[k] == content@[pos + k]);
        }
        if e < n {
            assert(rem[e - pos] == content@[e as int]);
        }
        lemma_find_newline_is(rem, e as int - pos as int);
    }
    e
}

fn trim_range(content: &str, lo: usize, hi: usize) -> (r: (usize, usize))
    requires
        lo <= hi <= content@.len(),
    ensures
        lo <= r.0 <= hi,
        lo <= r.1 <= hi,
        r.0 - lo == skip_ws(content@.subrange(lo as int, hi as int)),
        r.1 - lo == ws_back(content@.subrange(lo as int, hi as int)),
{
    let mut a: usize = lo;
    while a < hi && is_ws_char(content.get_char(a))
        invariant
            lo <= a <= hi,
            hi <= content@.len(),
            forall|k: int| lo <= k < a ==> is_ini_ws(content@[k]),
        decreases hi - a,
    {
        a = a + 1;
    }
    let mut b: usize = hi;
    while b > lo && is_ws_char(content.get_char(b - 1))
        invariant
            lo <= b <= hi,
            hi <= content@.len(),
            forall|k: int| b <= k < hi ==> is_ini_ws(content@[k]),
        decreases b,
    {
        b = b - 1;
    }
    proof {
        let l = content@.subrange(lo as int, hi as int);
        assert forall|k: int| 0 <= k < a - lo implies is_ini_ws(l[k]) by {
            assert(l[k] == content@[lo + k]);
        }
        if a < hi {
            assert(l[a - lo] == content@[a as int]);
        }
        lemma_skip_ws_is(l, a as int - lo as int);
        assert forall|k: int| b - lo <= k < l.len() implies is_ini_ws(l[k]) by {
            assert(l[k] == content@[lo + k]);
        }
        if b > lo {
            assert(l[b - lo - 1] == content@[b - 1]);
        }
        lemma_ws_back_is(l, b as int - lo as int);
    }
    (a, b)
}

fn extract_trimmed(content: &str, lo: usize, hi: usize) -> (r: String)
    requires
        lo <= hi <= content@.len(),
    ensures
        r@ == trimmed(content@.subrange(lo as int, hi as int)),
{
    let (a, b): (usize, usize) = trim_range(content, lo, hi);
    proof {
        lemma_trimmed(content@.subrange(lo as int, hi as int));
    }
    if a < b {
        proof {
            let l = content@.subrange(lo as int, hi as int);
            assert(l.subrange(a - lo, b - lo) =~= content@.subrange(a as int, b as int));
        }
        let part = content.substring_char(a, b);
        part.to_owned()
    } else {
        proof {
            let l = content@.subrange(lo as int, hi as int);
            assert(trimmed(l) =~= Seq::<char>::empty());
        }
        String::new()
    }
}

/// The shape of one line, with the data the walk over the document needs.
enum LineClass {
    Blank,
    Comment,
    Header { name: String },
    KeyValue { key: String, value: String },
    Malformed,
}

fn classify_line(content: &str, lo: usize, hi: usize) -> (r: LineClass)
    requires
        lo <= hi <= content@.len(),
    ensures
        ({
            let l = content@.subrange(lo as int, hi as int);
            match r {
                LineClass::Blank => is_blank(l),
                LineClass::Comment => is_comment(l),
                LineClass::Header { name } => is_header(l) && name@ == header_name(l),
                LineClass::KeyValue { key, value } => is_kv(l) && key@ == kv_key(l) && value@
                    == kv_value(l),
                LineClass::Malformed => is_malformed(l),
            }
        }),
{
    let ghost l = content@.subrange(lo as int, hi as int);
    let (a, b): (usize, usize) = trim_range(content, lo, hi);
    proof {
        lemma_trimmed(l);
    }
    if a == hi {
        return LineClass::Blank;
    }
    proof {
        assert(l.subrange(a - lo, b - lo) =~= content@.subrange(a as int, b as int));
        assert(trimmed(l) == content@.subrange(a as int, b as int));
    }
    let c0 = content.get_char(a);
    proof {
        assert(trimmed(l)[0] == content@[a as int]);
        assert(trimmed(l).last() == content@[b - 1]);
    }
    if c0 == ';' || c0 == '#' {
        return LineClass::Comment;
    }
    if c0 == '[' && b - a >= 2 && content.get_char(b - 1) == ']' {
        let name = extract_trimmed(content, a + 1, b - 1);
        proof {
            assert(trimmed(l).subrange(1, trimmed(l).len() - 1) =~= content@.subrange(
                a + 1,
                b - 1,
            ));
        }
        return LineClass::Header { name };
    }
    let mut q: usize = a;
    while q < b && content.get_char(q) != '='
        invariant
            a <= q <= b,
            b <= content@.len(),
            forall|k: int| a <= k < q ==> content@[k] != '=',
        decreases b - q,
    {
        q = q + 1;
    }
    proof {
        let t = trimmed(l);
        assert forall|k: int| 0 <= k < q - a implies t[k] != '=' by {
            assert(t[k] == content@[a + k]);
        }
        if q < b {
            assert(t[q - a] == content@[q as int]);
        }
        lemma_find_eq_is(t, q as int - a as int);
    }
    if q == b {
        return LineClass::Malformed;
    }
    let key = extract_trimmed(content, a, q);
    let value = extract_trimmed(content, q + 1, b);
    proof {
        let t = trimmed(l);
        assert(t.subrange(0, find_eq(t)) =~= content@.subrange(a as int, q as int));
        assert(t.subrange(find_eq(t) + 1, t.len() as int) =~= content@.subrange(
            q + 1,
            b as int,
        ));
    }
    LineClass::KeyValue { key, value }
}

/// Looks `key` up in section `section` of the INI-style document `content`.
///
/// Returns the first value of `key` inside `section`, walking the document
/// top to bottom.  Fails with a malformed-line error when any line is
/// neither blank, a comment, a header nor a `key=value` pair; otherwise
/// with a missing-section error when `section` never occurs, and with a
/// missing-key error when it occurs but never holds `key`.
pub fn lookup(content: &str, section: &str, key: &str) -> (r: Result<String, Error>)
    ensures
        ({
            match r {
                Ok(v) => !ini_has_malformed(content@) && ini_lookup(content@, section@, key@)
                    == Some(v@),
                Err(e) => if ini_has_malformed(content@) {
                    e == Error::ConfigParse(ParseFailure::MalformedLine)
                } else if ini_lookup(content@, section@, key@) is Some {
                    false
                } else if ini_has_section(content@, section@) {
                    e == Error::ConfigParse(ParseFailure::MissingKey)
                } else {
                    e == Error::ConfigParse(ParseFailure::MissingSection)
                },
            }
        }),
{
    let n: usize = content.unicode_len();
    let section_owned = section.to_owned();
    let key_owned = key.to_owned();
    let mut pos: usize = 0;
    let mut scanning = true;
    let mut in_target = false;
    let mut section_seen = false;
    let mut malformed = false;
    let mut found: Option<String> = None;

    proof {
        assert(content@.subrange(0, content@.len() as int) =~= content@);
    }
    while scanning
        invariant
            n == content@.len(),
            pos <= n,
            section_owned@ == section@,
            key_owned@ == key@,
            scanning ==> ({
                let ls = split_lines(content@);
                let rem_lines = split_lines(content@.subrange(pos as int, n as int));
                &&& lookup_lines(ls, false, section@, key@) == (match found {
                    Some(v) => Some(v@),
                    None => lookup_lines(rem_lines, in_target, section@, key@),
                })
                &&& has_section(ls, section@) == (section_seen || has_section(
                    rem_lines,
                    section@,
                ))
                &&& has_malformed_line(ls) == (malformed || has_malformed_line(rem_lines))
            }),
            !scanning ==> ({
                let ls = split_lines(content@);
                &&& lookup_lines(ls, false, section@, key@) == (match found {
                    Some(v) => Some(v@),
                    None => None::<Seq<char>>,
                })
                &&& has_section(ls, section@) == section_seen
                &&& has_malformed_line(ls) == malformed
            }),
        decreases n - pos, (if scanning { 1int } else { 0int }),
    {
        let e: usize = find_line_end(content, pos);
        let ghost rem = content@.subrange(pos as int, n as int);
        let ghost i: int = e as int - pos as int;
        let ghost l = rem.subrange(0, i);
        proof {
            assert(l =~= content@.subrange(pos as int, e as int));
        }
        let cls = classify_line(content, pos, e);
        let ghost rest: Seq<Seq<char>> = if e < n {
            split_lines(content@.subrange(e + 1, n as int))
        } else {
            Seq::empty()
        };
        proof {
            if e < n {
                assert(rem.subrange(i + 1, rem.len() as int) =~= content@.subrange(
                    e + 1,
                    n as int,
                ));
                assert(split_lines(rem) == seq![l] + rest);
            } else {
                assert(split_lines(rem) == seq![l]);
                assert(seq![l] =~= seq![l] + Seq::<Seq<char>>::empty());
            }
            lemma_lookup_cons(l, rest, in_target, section@, key@);
            lemma_has_section_cons(l, rest, section@);
            lemma_has_malformed_cons(l, rest);
        }
        match cls {
            LineClass::Blank => {},
            LineClass::Comment => {},
            LineClass::Header { name } => {
                let m = name == section_owned;
                in_target = m;
                if m {
                    section_seen = true;
                }
            },
            LineClass::KeyValue { key: k, value: v } => {
                if in_target && found.is_none() && k == key_owned {
                    found = Some(v);
                }
            },
            LineClass::Malformed => {
                malformed = true;
            },
        }
        if e == n {
            scanning = false;
            proof {
                assert(lookup_lines(rest, in_target, section@, key@) is None);
                assert(!has_section(rest, section@));
                assert(!has_malformed_line(rest));
            }
        } else {
            pos = e + 1;
        }
    }
    if malformed {
        Err(Error::ConfigParse(ParseFailure::MalformedLine))
    } else {
        match found {
            Some(v) => Ok(v),
            None => {
                if section_seen {
                    Err(Error::ConfigParse(ParseFailure::MissingKey))
                } else {
                    Err(Error::ConfigParse(ParseFailure::MissingSection))
                }
            },
        }
    }
}

} // verus!
