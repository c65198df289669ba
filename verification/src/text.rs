//! Character-level helpers on strings used by the rest of the crate.
//!
//! Positions here are character positions: a search reports how many
//! characters precede the match, and slicing takes character ranges, so the
//! pieces cut out are the same ones a byte-offset search would cut.

use vstd::prelude::*;

verus! {

/// Whether `c` is an ASCII uppercase letter.
pub open spec fn is_ascii_upper(c: char) -> bool {
    'A' <= c && c <= 'Z'
}

/// Whether `c` is an ASCII lowercase letter.
pub open spec fn is_ascii_lower(c: char) -> bool {
    'a' <= c && c <= 'z'
}

/// Whether `c` is an ASCII decimal digit.
pub open spec fn is_ascii_digit(c: char) -> bool {
    '0' <= c && c <= '9'
}

/// The ASCII uppercase form of `c`; every other character is unchanged.
pub open spec fn ascii_upper(c: char) -> char {
    if is_ascii_lower(c) {
        ((c as u32) - 32) as char
    } else {
        c
    }
}

/// The ASCII lowercase form of `c`; every other character is unchanged.
pub open spec fn ascii_lower(c: char) -> char {
    if is_ascii_upper(c) {
        ((c as u32) + 32) as char
    } else {
        c
    }
}

/// Whether every character of `s` is ASCII.
pub open spec fn all_ascii(s: Seq<char>) -> bool {
    forall|i: int| 0 <= i < s.len() ==> (#[trigger] s[i] as u32) < 128
}

/// The ASCII lowercase form of a string: each character lowercased.
pub open spec fn ascii_lowercase(s: Seq<char>) -> Seq<char> {
    s.map_values(|c: char| ascii_lower(c))
}

/// The ASCII uppercase form of a string: each character uppercased.
pub open spec fn ascii_uppercase(s: Seq<char>) -> Seq<char> {
    s.map_values(|c: char| ascii_upper(c))
}

/// ASCII uppercase of one character.
pub fn to_ascii_upper(c: char) -> (r: char)
    ensures
        r == ascii_upper(c),
{
    if 'a' <= c && c <= 'z' {
        let b: u8 = c as u8;
        assert(b as int == c as int);
        (b - 32) as char
    } else {
        c
    }
}

/// What `str::to_lowercase` gives for a string: the Unicode lowercase mapping,
/// which depends on the characters alone.
pub uninterp spec fn unicode_lowercase(s: Seq<char>) -> Seq<char>;

/// What `str::to_uppercase` gives for a string: the Unicode uppercase mapping,
/// which depends on the characters alone.
pub uninterp spec fn unicode_uppercase(s: Seq<char>) -> Seq<char>;

/// Calls `str::to_lowercase`; the result is the Unicode lowercase mapping of
/// the characters of `s`, named `unicode_lowercase`. On ASCII text that
/// mapping lowercases the ASCII letters one for one and keeps every other
/// character.
#[verifier::external_body]
pub(crate) fn to_lowercase(s: &str) -> (r: String)
    ensures
        r@ == unicode_lowercase(s@),
        all_ascii(s@) ==> r@ == ascii_lowercase(s@),
{
    s.to_lowercase()
}

/// Calls `str::to_uppercase`; the result is the Unicode uppercase mapping of
/// the characters of `s`, named `unicode_uppercase`. On ASCII text that
/// mapping uppercases the ASCII letters one for one and keeps every other
/// character.
#[verifier::external_body]
pub(crate) fn to_uppercase(s: &str) -> (r: String)
    ensures
        r@ == unicode_uppercase(s@),
        all_ascii(s@) ==> r@ == ascii_uppercase(s@),
{
    s.to_uppercase()
}

/// Calls `String::push`: the string gains `c` at its end.
#[verifier::external_body]
pub(crate) fn push_char(s: &mut String, c: char)
    ensures
        final(s)@ == old(s)@.push(c),
{
    s.push(c);
}

/// The characters of `s`, in order.
pub fn chars_of(s: &str) -> (v: Vec<char>)
    ensures
        v@ == s@,
{
    let n = s.unicode_len();
    let mut v: Vec<char> = Vec::new();
    let mut i: usize = 0;
    while i < n
        invariant
            n == s@.len(),
            i <= n,
            v@ == s@.subrange(0, i as int),
        decreases n - i,
    {
        v.push(s.get_char(i));
        i = i + 1;
    }
    assert(v@ == s@);
    v
}

/// A string holding exactly the characters of `cs`.
pub fn string_of(cs: &Vec<char>) -> (s: String)
    ensures
        s@ == cs@,
{
    let mut s = String::new();
    let mut i: usize = 0;
    while i < cs.len()
        invariant
            i <= cs.len(),
            s@ == cs@.subrange(0, i as int),
        decreases cs.len() - i,
    {
        push_char(&mut s, cs[i]);
        assert(cs@.subrange(0, i + 1) == cs@.subrange(0, i as int).push(cs@[i as int]));
        i = i + 1;
    }
    assert(cs@.subrange(0, cs.len() as int) == cs@);
    s
}

/// A fresh string with the characters of `s`.
pub fn owned(s: &str) -> (r: String)
    ensures
        r@ == s@,
{
    let mut r = String::new();
    r.append(s);
    assert(r@ == s@);
    r
}

/// Whether two strings hold the same characters.
pub fn str_eq(a: &str, b: &str) -> (r: bool)
    ensures
        r == (a@ == b@),
{
    let n = a.unicode_len();
    if n != b.unicode_len() {
        return false;
    }
    let mut i: usize = 0;
    while i < n
        invariant
            n == a@.len(),
            n == b@.len(),
            i <= n,
            forall|j: int| 0 <= j < i ==> a@[j] == b@[j],
        decreases n - i,
    {
        if a.get_char(i) != b.get_char(i) {
            return false;
        }
        i = i + 1;
    }
    assert(a@ =~= b@);
    true
}

/// Whether `name` is present and equal to `expected`.
pub fn ident_is(name: &Option<String>, expected: &str) -> (r: bool)
    ensures
        r == (name matches Some(s) && s@ == expected@),
{
    match name {
        Some(s) => str_eq(s.as_str(), expected),
        None => false,
    }
}

/// Whether `p` occurs in `h` starting at position `i`.
pub open spec fn occurs_at(h: Seq<char>, p: Seq<char>, i: int) -> bool {
    &&& 0 <= i
    &&& i + p.len() <= h.len()
    &&& h.subrange(i, i + p.len()) == p
}

/// The first position at or after `i` where `p` occurs in `h`.
pub open spec fn find_from(h: Seq<char>, p: Seq<char>, i: int) -> Option<int>
    decreases h.len() + 1 - i,
{
    if i < 0 || i + p.len() > h.len() {
        None
    } else if occurs_at(h, p, i) {
        Some(i)
    } else {
        find_from(h, p, i + 1)
    }
}

/// The first position where `p` occurs in `h`, as `str::find` reports it
/// (counted in characters).
pub open spec fn find(h: Seq<char>, p: Seq<char>) -> Option<int> {
    find_from(h, p, 0)
}

/// Whether `h` begins with `p`.
pub open spec fn starts_with(h: Seq<char>, p: Seq<char>) -> bool {
    p.len() <= h.len() && h.subrange(0, p.len() as int) == p
}

/// A found position is a real occurrence, and nothing occurs earlier.
pub proof fn lemma_find_from(h: Seq<char>, p: Seq<char>, i: int)
    requires
        0 <= i,
    ensures
        find_from(h, p, i) matches Some(k) ==> i <= k && occurs_at(h, p, k) && (forall|j: int|
            i <= j < k ==> !occurs_at(h, p, j)),
        find_from(h, p, i) is None ==> (forall|j: int| i <= j ==> !occurs_at(h, p, j)),
    decreases h.len() + 1 - i,
{
    if i + p.len() > h.len() {
    } else if occurs_at(h, p, i) {
    } else {
        lemma_find_from(h, p, i + 1);
    }
}

fn occurs_at_exec(h: &Vec<char>, p: &Vec<char>, i: usize) -> (r: bool)
    requires
        i + p.len() <= h.len(),
    ensures
        r == occurs_at(h@, p@, i as int),
{
    let mut j: usize = 0;
    while j < p.len()
        invariant
            i + p.len() <= h.len(),
            j <= p.len(),
            forall|k: int| 0 <= k < j ==> h@[i + k] == p@[k],
        decreases p.len() - j,
    {
        if h[i + j] != p[j] {
            assert(h@.subrange(i as int, i + p.len())[j as int] != p@[j as int]);
            return false;
        }
        j = j + 1;
    }
    assert(h@.subrange(i as int, i + p.len()) =~= p@);
    true
}

/// The first position where `p` occurs in `h`.
pub fn find_chars(h: &Vec<char>, p: &Vec<char>) -> (r: Option<usize>)
    ensures
        r matches Some(k) ==> find(h@, p@) == Some(k as int),
        r is None ==> find(h@, p@) is None,
{
    if p.len() > h.len() {
        return None;
    }
    let last = h.len() - p.len();
    let mut i: usize = 0;
    while i <= last
        invariant
            last == h.len() - p.len(),
            p.len() <= h.len(),
            i <= last + 1,
            find(h@, p@) == find_from(h@, p@, i as int),
        decreases last + 1 - i,
    {
        if occurs_at_exec(h, p, i) {
            return Some(i);
        }
        assert(p.len() > 0) by {
            if p.len() == 0 {
                assert(h@.subrange(i as int, i as int) =~= p@);
            }
        }
        i = i + 1;
    }
    None
}

/// Whether `h` begins with `p`.
pub fn starts_with_chars(h: &Vec<char>, p: &Vec<char>) -> (r: bool)
    ensures
        r == starts_with(h@, p@),
{
    if p.len() > h.len() {
        false
    } else {
        let r = occurs_at_exec(h, p, 0);
        r
    }
}

} // verus!
