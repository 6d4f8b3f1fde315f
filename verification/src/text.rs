//! Character and string helpers shared by the filename parser and the
//! scoring code: character classes, first/last scans, trimming, ASCII
//! case folding and string equality, all specified over `Seq<char>`.

use vstd::prelude::*;
use vstd::string::StrSliceExecFns;

verus! {

/// Whitespace as the filename grammar understands it.
pub open spec fn is_ws(c: char) -> bool {
    c == ' ' || c == '\t' || c == '\n' || c == '\r'
}

/// Decimal digit.
pub open spec fn is_digit(c: char) -> bool {
    '0' <= c && c <= '9'
}

/// Separator between an artist and a title: hyphen or en-dash.
pub open spec fn is_dash(c: char) -> bool {
    c == '-' || c == '\u{2013}'
}

/// Separator between a leading track number and the rest of a name:
/// hyphen or dot.
pub open spec fn is_track_sep(c: char) -> bool {
    c == '-' || c == '.'
}

/// Path separator: forward slash or backslash, since peer-shared
/// listings mix both conventions.
pub open spec fn is_path_sep(c: char) -> bool {
    c == '/' || c == '\\'
}

/// The character classes the scanners below can search for.
#[derive(Clone, Copy)]
pub enum CharClass {
    PathSep,
    Dot,
    Dash,
    TrackSep,
    Comma,
    Colon,
    NonWs,
    NonDigit,
}

/// Whether a character belongs to a class.
pub open spec fn in_class(k: CharClass, c: char) -> bool {
    match k {
        CharClass::PathSep => is_path_sep(c),
        CharClass::Dot => c == '.',
        CharClass::Dash => is_dash(c),
        CharClass::TrackSep => is_track_sep(c),
        CharClass::Comma => c == ',',
        CharClass::Colon => c == ':',
        CharClass::NonWs => !is_ws(c),
        CharClass::NonDigit => !is_digit(c),
    }
}

/// Executable test for membership in a character class.
pub fn class_test(k: CharClass, c: char) -> (r: bool)
    ensures
        r == in_class(k, c),
{
    match k {
        CharClass::PathSep => c == '/' || c == '\\',
        CharClass::Dot => c == '.',
        CharClass::Dash => c == '-' || c == '\u{2013}',
        CharClass::TrackSep => c == '-' || c == '.',
        CharClass::Comma => c == ',',
        CharClass::Colon => c == ':',
        CharClass::NonWs => !(c == ' ' || c == '\t' || c == '\n' || c == '\r'),
        CharClass::NonDigit => !('0' <= c && c <= '9'),
    }
}

/// Index of the first character of `s` in class `k`, or `s.len()` if
/// there is none.
pub open spec fn first_in(s: Seq<char>, k: CharClass) -> int
    decreases s.len(),
{
    if s.len() == 0 {
        0
    } else if in_class(k, s[0]) {
        0
    } else {
        1 + first_in(s.drop_first(), k)
    }
}

/// Index of the last character of `s` in class `k`, or `-1` if there
/// is none.
pub open spec fn last_in(s: Seq<char>, k: CharClass) -> int
    decreases s.len(),
{
    if s.len() == 0 {
        -1
    } else if in_class(k, s.last()) {
        s.len() - 1
    } else {
        last_in(s.drop_last(), k)
    }
}

/// `first_in` is the least index whose character is in the class.
pub proof fn lemma_first_in(s: Seq<char>, k: CharClass)
    ensures
        0 <= first_in(s, k) <= s.len(),
        first_in(s, k) < s.len() ==> in_class(k, s[first_in(s, k)]),
        forall|j: int| 0 <= j < first_in(s, k) ==> !in_class(k, s[j]),
    decreases s.len(),
{
    if s.len() > 0 && !in_class(k, s[0]) {
        lemma_first_in(s.drop_first(), k);
        assert forall|j: int| 1 <= j < first_in(s, k) implies !in_class(k, s[j]) by {
            assert(s.drop_first()[j - 1] == s[j]);
        }
    }
}

/// Any index with the three properties of `lemma_first_in` is
/// `first_in`.
pub proof fn lemma_first_in_unique(s: Seq<char>, k: CharClass, i: int)
    requires
        0 <= i <= s.len(),
        i < s.len() ==> in_class(k, s[i]),
        forall|j: int| 0 <= j < i ==> !in_class(k, s[j]),
    ensures
        first_in(s, k) == i,
    decreases s.len(),
{
    if s.len() == 0 {
    } else if in_class(k, s[0]) {
        assert(i == 0);
    } else {
        assert(i >= 1);
        assert(forall|j: int|
            0 <= j < i - 1 ==> s.drop_first()[j] == s[j + 1] && !in_class(k, s[j + 1]));
        lemma_first_in_unique(s.drop_first(), k, i - 1);
    }
}

/// `last_in` is the greatest index whose character is in the class.
pub proof fn lemma_last_in(s: Seq<char>, k: CharClass)
    ensures
        -1 <= last_in(s, k) < s.len(),
        last_in(s, k) >= 0 ==> in_class(k, s[last_in(s, k)]),
        forall|j: int| last_in(s, k) < j < s.len() ==> !in_class(k, s[j]),
    decreases s.len(),
{
    if s.len() > 0 && !in_class(k, s.last()) {
        lemma_last_in(s.drop_last(), k);
        assert(forall|j: int|
            0 <= j < s.len() - 1 ==> s.drop_last()[j] == s[j]);
    }
}

/// Any index with the three properties of `lemma_last_in` is
/// `last_in`.
pub proof fn lemma_last_in_unique(s: Seq<char>, k: CharClass, i: int)
    requires
        -1 <= i < s.len(),
        i >= 0 ==> in_class(k, s[i]),
        forall|j: int| i < j < s.len() ==> !in_class(k, s[j]),
    ensures
        last_in(s, k) == i,
    decreases s.len(),
{
    if s.len() == 0 {
        assert(i == -1);
    } else if in_class(k, s.last()) {
        assert(i == s.len() - 1);
    } else {
        assert(i < s.len() - 1);
        assert(forall|j: int|
            0 <= j < s.len() - 1 ==> s.drop_last()[j] == s[j]);
        lemma_last_in_unique(s.drop_last(), k, i);
    }
}

/// Least index `i` with `from <= i < s.len()` whose character is in
/// class `k`, or `s.len()` if there is none.
pub open spec fn first_from(s: Seq<char>, from: int, k: CharClass) -> int {
    from + first_in(s.subrange(from, s.len() as int), k)
}

/// Find the first character of class `k` at or after `from`.
pub fn find_first_from(s: &str, from: usize, k: CharClass) -> (i: usize)
    requires
        from <= s@.len(),
    ensures
        i == first_from(s@, from as int, k),
        from <= i <= s@.len(),
        i < s@.len() ==> in_class(k, s@[i as int]),
        forall|j: int| from <= j < i ==> !in_class(k, s@[j]),
{
    let len = s.unicode_len();
    let mut i: usize = from;
    while i < len
        invariant
            from <= i <= len,
            len == s@.len(),
            forall|j: int| from <= j < i ==> !in_class(k, s@[j]),
        decreases len - i,
    {
        if class_test(k, s.get_char(i)) {
            proof {
                let t = s@.subrange(from as int, s@.len() as int);
                assert(forall|j: int| 0 <= j < t.len() ==> t[j] == s@[j + from]);
                lemma_first_in_unique(t, k, i - from);
            }
            return i;
        }
        i += 1;
    }
    proof {
        let t = s@.subrange(from as int, s@.len() as int);
        assert(forall|j: int| 0 <= j < t.len() ==> t[j] == s@[j + from]);
        lemma_first_in_unique(t, k, i - from);
    }
    i
}

/// Find the last character of class `k` in `s`; `None` if there is
/// none.
pub fn find_last_in(s: &str, k: CharClass) -> (r: Option<usize>)
    ensures
        match r {
            Some(i) => last_in(s@, k) == i && i < s@.len(),
            None => last_in(s@, k) == -1,
        },
{
    let len = s.unicode_len();
    let mut i: usize = len;
    while i > 0
        invariant
            0 <= i <= len,
            len == s@.len(),
            forall|j: int| i <= j < len ==> !in_class(k, s@[j]),
        decreases i,
    {
        if class_test(k, s.get_char(i - 1)) {
            proof {
                lemma_last_in_unique(s@, k, i - 1);
            }
            return Some(i - 1);
        }
        i -= 1;
    }
    proof {
        lemma_last_in_unique(s@, k, -1);
    }
    None
}

/// `s` with leading and trailing whitespace removed.
pub open spec fn trim(s: Seq<char>) -> Seq<char> {
    let lo = first_in(s, CharClass::NonWs);
    let hi = last_in(s, CharClass::NonWs);
    if lo == s.len() {
        Seq::empty()
    } else {
        s.subrange(lo, hi + 1)
    }
}

/// Trim leading and trailing whitespace from a string slice.
pub fn trim_str<'a>(s: &'a str) -> (r: &'a str)
    ensures
        r@ == trim(s@),
{
    let len = s.unicode_len();
    let lo = find_first_from(s, 0, CharClass::NonWs);
    if lo == len {
        proof {
            lemma_first_in_unique(s@, CharClass::NonWs, lo as int);
        }
        let r = s.substring_char(0, 0);
        assert(r@ =~= trim(s@));
        r
    } else {
        let hi = match find_last_in(s, CharClass::NonWs) {
            Some(h) => h,
            None => {
                proof {
                    lemma_last_in(s@, CharClass::NonWs);
                }
                assert(false);
                0
            },
        };
        proof {
            lemma_first_in_unique(s@, CharClass::NonWs, lo as int);
            lemma_last_in(s@, CharClass::NonWs);
        }
        s.substring_char(lo, hi + 1)
    }
}

/// ASCII lower-casing of one character: `'A'..='Z'` map to
/// `'a'..='z'`, every other character is unchanged.
pub open spec fn lower_char(c: char) -> char {
    if 'A' <= c && c <= 'Z' {
        ((c as u8) + 32) as char
    } else {
        c
    }
}

/// ASCII lower-casing of a character sequence, applied pointwise.
pub open spec fn lower(s: Seq<char>) -> Seq<char> {
    s.map_values(|c: char| lower_char(c))
}

/// Lower-case one character (ASCII letters only).
pub fn lower_char_exec(c: char) -> (r: char)
    ensures
        r == lower_char(c),
{
    if 'A' <= c && c <= 'Z' {
        ((c as u8) + 32) as char
    } else {
        c
    }
}

/// Relies on `String: FromIterator<char>`: collecting an iterator of
/// characters yields the string of exactly those characters in order.
#[verifier::external_body]
pub fn string_from_chars(v: &Vec<char>) -> (r: String)
    ensures
        r@ == v@,
{
    v.iter().collect()
}

/// ASCII lower-casing of a whole string slice.
pub fn lower_str(s: &str) -> (r: String)
    ensures
        r@ == lower(s@),
{
    let len = s.unicode_len();
    let mut out: Vec<char> = Vec::new();
    let mut i: usize = 0;
    while i < len
        invariant
            0 <= i <= len,
            len == s@.len(),
            out@.len() == i,
            forall|j: int| 0 <= j < i ==> out@[j] == lower_char(s@[j]),
        decreases len - i,
    {
        out.push(lower_char_exec(s.get_char(i)));
        i += 1;
    }
    assert(out@ =~= lower(s@));
    string_from_chars(&out)
}

/// Whether two string slices hold the same characters.
pub fn str_eq(a: &str, b: &str) -> (r: bool)
    ensures
        r == (a@ == b@),
{
    let alen = a.unicode_len();
    let blen = b.unicode_len();
    if alen != blen {
        assert(a@ != b@);
        return false;
    }
    let mut i: usize = 0;
    while i < alen
        invariant
            alen == a@.len(),
            alen == b@.len(),
            i <= alen,
            forall|j: int| 0 <= j < i ==> a@[j] == b@[j],
        decreases alen - i,
    {
        if a.get_char(i) != b.get_char(i) {
            return false;
        }
        i += 1;
    }
    assert(a@ =~= b@);
    true
}

/// Whether a sequence of strings contains one with the given
/// characters.
pub open spec fn contains_str(names: Seq<String>, s: Seq<char>) -> bool {
    exists|i: int| 0 <= i < names.len() && names[i]@ == s
}

/// Membership of a string among a vector of names, by characters.
pub fn names_contain(names: &Vec<String>, s: &str) -> (r: bool)
    ensures
        r == contains_str(names@, s@),
{
    let mut i: usize = 0;
    while i < names.len()
        invariant
            0 <= i <= names@.len(),
            forall|j: int| 0 <= j < i ==> names@[j]@ != s@,
        decreases names@.len() - i,
    {
        if str_eq(names[i].as_str(), s) {
            return true;
        }
        i += 1;
    }
    false
}

} // verus!
