//! Text helpers: moving between `&str`, `String` and vectors of characters, and the few
//! calls into std and the `regex` crate whose results the library works with.

use vstd::prelude::*;

verus! {

/// The first character of the lower-case mapping that Unicode gives a character.
pub uninterp spec fn first_lowercase(c: char) -> char;

/// The lower-case mapping that Unicode gives a whole text.
pub uninterp spec fn text_lowercase(s: Seq<char>) -> Seq<char>;

/// The capture groups of the leftmost match of `pattern` in `haystack`, group 0 first and a
/// group that took no part in the match as an empty text; `None` when the text does not
/// match or the pattern does not compile.
pub uninterp spec fn regex_groups(pattern: Seq<char>, haystack: Seq<char>) -> Option<Seq<Seq<char>>>;

/// Whether `pattern` matches somewhere in `haystack`; false when the pattern does not compile.
pub uninterp spec fn regex_matches(pattern: Seq<char>, haystack: Seq<char>) -> bool;

/// Calls `char::to_lowercase` and takes the first character it yields (the character itself
/// if it yields none). The contract names the result and states only what std documents of
/// ASCII: `A` to `Z` turn into `a` to `z`, and other ASCII characters stay; nothing here
/// states Unicode's case tables beyond ASCII.
#[verifier::external_body]
pub(crate) fn char_first_lowercase(c: char) -> (r: char)
    ensures
        r == first_lowercase(c),
        'A' <= c <= 'Z' ==> r == ((c as u32) + 32) as char,
        (c as u32) < 128 && !('A' <= c <= 'Z') ==> r == c,
{
    c.to_lowercase().next().unwrap_or(c)
}

/// Calls `str::to_lowercase`. The contract only names the result: nothing here states
/// Unicode's case tables.
#[verifier::external_body]
pub(crate) fn str_to_lowercase(s: &str) -> (r: String)
    ensures
        r@ == text_lowercase(s@),
{
    s.to_lowercase()
}

/// Calls `String::push`, which appends one character to the end of the string.
#[verifier::external_body]
pub(crate) fn push_char(s: &mut String, c: char)
    ensures
        final(s)@ == old(s)@.push(c),
{
    s.push(c)
}

/// Compiles `pattern` with `regex::Regex::new` and, when it compiles, asks
/// `Regex::captures` for the leftmost match in `haystack`, handing back every group as a
/// `String` (group 0 is the whole match; a group that took no part is an empty string).
/// The contract names the result and states no more of the regex engine.
#[verifier::external_body]
pub(crate) fn regex_captures(pattern: &str, haystack: &str) -> (r: Option<Vec<String>>)
    ensures
        r is Some <==> regex_groups(pattern@, haystack@) is Some,
        r matches Some(gs) ==> gs@.len() == regex_groups(pattern@, haystack@)->0.len(),
        r matches Some(gs) ==> forall|i: int|
            0 <= i < gs@.len() ==> #[trigger] gs@[i]@ == regex_groups(pattern@, haystack@)->0[i],
{
    match regex::Regex::new(pattern) {
        Ok(re) => re.captures(haystack).map(
            |caps| caps.iter().map(|m| m.map_or(String::new(), |m| m.as_str().to_string())).collect(),
        ),
        Err(_) => None,
    }
}

/// Compiles `pattern` with `regex::Regex::new` and, when it compiles, asks
/// `Regex::is_match` whether it matches somewhere in `haystack`. The contract names the
/// result and states no more of the regex engine.
#[verifier::external_body]
pub(crate) fn regex_is_match(pattern: &str, haystack: &str) -> (r: bool)
    ensures
        r == regex_matches(pattern@, haystack@),
{
    match regex::Regex::new(pattern) {
        Ok(re) => re.is_match(haystack),
        Err(_) => false,
    }
}

/// The characters of a text, in order.
pub fn chars_of(s: &str) -> (v: Vec<char>)
    ensures
        v@ == s@,
{
    broadcast use vstd::string::group_string_axioms;

    let mut v: Vec<char> = Vec::new();
    for c in it: s.chars()
        invariant
            v@ == it.seq().take(it.index() as int),
            it.seq() == s@,
    {
        v.push(c);
    }
    v
}

/// A text made of the given characters, in order.
pub fn string_of(chars: &Vec<char>) -> (s: String)
    ensures
        s@ == chars@,
{
    let mut s = String::new();
    let mut i: usize = 0;
    while i < chars.len()
        invariant
            i <= chars@.len(),
            s@ == chars@.take(i as int),
        decreases chars@.len() - i,
    {
        push_char(&mut s, chars[i]);
        assert(chars@.take(i + 1) == chars@.take(i as int).push(chars@[i as int]));
        i = i + 1;
    }
    assert(chars@.take(chars@.len() as int) == chars@);
    s
}

/// Whether two character sequences are equal.
pub fn chars_eq(a: &Vec<char>, b: &Vec<char>) -> (r: bool)
    ensures
        r == (a@ == b@),
{
    if a.len() != b.len() {
        return false;
    }
    let mut i: usize = 0;
    while i < a.len()
        invariant
            a@.len() == b@.len(),
            i <= a@.len(),
            forall|j: int| 0 <= j < i ==> a@[j] == b@[j],
        decreases a@.len() - i,
    {
        if a[i] != b[i] {
            return false;
        }
        i = i + 1;
    }
    assert(a@ =~= b@);
    true
}

/// Whether a text equals another, character by character.
pub fn str_eq(a: &str, b: &str) -> (r: bool)
    ensures
        r == (a@ == b@),
{
    let va = chars_of(a);
    let vb = chars_of(b);
    chars_eq(&va, &vb)
}

/// A `String` holding the characters of a text.
pub fn string_from_str(s: &str) -> (r: String)
    ensures
        r@ == s@,
{
    let v = chars_of(s);
    string_of(&v)
}

} // verus!
