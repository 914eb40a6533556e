//! The stored settings of the input method, and the format of the shorthand (macro) file:
//! one `shorthand:replacement` entry per line, blank lines and `#` comments skipped.

use vstd::prelude::*;

use crate::engine::ESTD_FLAGS;
use crate::spelling::{is_whitespace, spec_is_whitespace};
use crate::text::{chars_of, string_from_str, string_of};

verus! {

/// Stored active configuration of the input method.
pub struct Config {
    /// Active input method name (e.g. "Telex", "VNI", "English").
    pub input_method: String,
    /// Processing flags for the engine.
    pub flags: u32,
    /// The Vietnamese layout (Telex or VNI) to return to when leaving English mode.
    pub vietnamese_layout: String,
    /// Output charset encoding (e.g. "Unicode", "TCVN3", "VNI", "VIQR").
    pub charset: String,
    /// Whether shorthand (macro) replacements are enabled.
    pub enable_macro: bool,
}

impl Default for Config {
    /// Telex, standard flags, Unicode output and no shorthands.
    fn default() -> (r: Self)
        ensures
            r.input_method@ == "Telex"@,
            r.flags == ESTD_FLAGS,
            r.vietnamese_layout@ == "Telex"@,
            r.charset@ == "Unicode"@,
            !r.enable_macro,
    {
        Config {
            input_method: string_from_str("Telex"),
            flags: ESTD_FLAGS,
            vietnamese_layout: string_from_str("Telex"),
            charset: string_from_str("Unicode"),
            enable_macro: false,
        }
    }
}

/// A text without its leading white space.
pub open spec fn trim_start(s: Seq<char>) -> Seq<char>
    decreases s.len(),
{
    if s.len() > 0 && spec_is_whitespace(s[0]) {
        trim_start(s.drop_first())
    } else {
        s
    }
}

/// A text without its trailing white space.
pub open spec fn trim_end(s: Seq<char>) -> Seq<char>
    decreases s.len(),
{
    if s.len() > 0 && spec_is_whitespace(s.last()) {
        trim_end(s.drop_last())
    } else {
        s
    }
}

/// A text without its leading and trailing white space.
pub open spec fn trim(s: Seq<char>) -> Seq<char> {
    trim_end(trim_start(s))
}

/// The lines read so far from a text, and the line being read.
pub open spec fn split_lines(s: Seq<char>) -> (Seq<Seq<char>>, Seq<char>)
    decreases s.len(),
{
    if s.len() == 0 {
        (Seq::empty(), Seq::empty())
    } else {
        let (ls, cur) = split_lines(s.drop_last());
        if s.last() == '\n' {
            (ls.push(cur), Seq::empty())
        } else {
            (ls, cur.push(s.last()))
        }
    }
}

/// The lines of a text: the runs of characters between line feeds, the last one included.
pub open spec fn lines(s: Seq<char>) -> Seq<Seq<char>> {
    split_lines(s).0.push(split_lines(s).1)
}

/// The position of the first `:` at or after `i`, or the length of the text.
pub open spec fn first_colon(t: Seq<char>, i: int) -> int
    decreases t.len() - i,
{
    if i >= t.len() {
        t.len() as int
    } else if t[i] == ':' {
        i
    } else {
        first_colon(t, i + 1)
    }
}

/// The entry a line holds: none for a blank line, a comment or a line without `:`;
/// otherwise the trimmed text before the first `:` and the trimmed text after it, when
/// neither is empty.
pub open spec fn macro_entry(line: Seq<char>) -> Option<(Seq<char>, Seq<char>)> {
    let t = trim(line);
    let pos = first_colon(t, 0);
    if t.len() == 0 || t[0] == '#' || pos == t.len() {
        None
    } else {
        let key = trim(t.subrange(0, pos));
        let val = trim(t.subrange(pos + 1, t.len() as int));
        if key.len() > 0 && val.len() > 0 {
            Some((key, val))
        } else {
            None
        }
    }
}

/// The entries of some lines, in order.
pub open spec fn macro_entries(ls: Seq<Seq<char>>) -> Seq<(Seq<char>, Seq<char>)>
    decreases ls.len(),
{
    if ls.len() == 0 {
        Seq::empty()
    } else {
        macro_entries(ls.drop_last()) + match macro_entry(ls.last()) {
            Some(e) => seq![e],
            None => Seq::empty(),
        }
    }
}

/// The entries of a shorthand file, in the order of its lines.
pub open spec fn macro_table(content: Seq<char>) -> Seq<(Seq<char>, Seq<char>)> {
    macro_entries(lines(content))
}

/// The entries of a vector of pairs of strings, as texts.
pub open spec fn entries_view(v: Seq<(String, String)>) -> Seq<(Seq<char>, Seq<char>)> {
    v.map_values(|p: (String, String)| (p.0@, p.1@))
}

proof fn lemma_trim_start_suffix(s: Seq<char>, i: int)
    requires
        0 <= i <= s.len(),
        forall|k: int| 0 <= k < i ==> spec_is_whitespace(#[trigger] s[k]),
    ensures
        trim_start(s) == trim_start(s.subrange(i, s.len() as int)),
    decreases i,
{
    if i > 0 {
        lemma_trim_start_suffix(s.drop_first(), i - 1);
        assert(s.drop_first().subrange(i - 1, s.drop_first().len() as int) =~= s.subrange(i, s.len() as int));
    } else {
        assert(s.subrange(0, s.len() as int) =~= s);
    }
}

proof fn lemma_trim_end_prefix(s: Seq<char>, j: int)
    requires
        0 <= j <= s.len(),
        forall|k: int| j <= k < s.len() ==> spec_is_whitespace(#[trigger] s[k]),
    ensures
        trim_end(s) == trim_end(s.subrange(0, j)),
    decreases s.len() - j,
{
    if j < s.len() {
        lemma_trim_end_prefix(s.drop_last(), j);
        assert(s.drop_last().subrange(0, j) =~= s.subrange(0, j));
    } else {
        assert(s.subrange(0, s.len() as int) =~= s);
    }
}

proof fn lemma_trim_start_shape(s: Seq<char>)
    ensures
        trim_start(s).len() <= s.len(),
        trim_start(s) == s.subrange(s.len() - trim_start(s).len(), s.len() as int),
        trim_start(s).len() > 0 ==> !spec_is_whitespace(trim_start(s)[0]),
    decreases s.len(),
{
    if s.len() > 0 && spec_is_whitespace(s[0]) {
        lemma_trim_start_shape(s.drop_first());
        let t = trim_start(s.drop_first());
        assert(s.drop_first().subrange(s.drop_first().len() - t.len(), s.drop_first().len() as int)
            =~= s.subrange(s.len() - t.len(), s.len() as int));
    } else {
        assert(s.subrange(0, s.len() as int) =~= s);
    }
}

proof fn lemma_trim_end_shape(s: Seq<char>)
    ensures
        trim_end(s).len() <= s.len(),
        trim_end(s) == s.subrange(0, trim_end(s).len() as int),
        trim_end(s).len() > 0 ==> !spec_is_whitespace(trim_end(s).last()),
    decreases s.len(),
{
    if s.len() > 0 && spec_is_whitespace(s.last()) {
        lemma_trim_end_shape(s.drop_last());
        let t = trim_end(s.drop_last());
        assert(s.drop_last().subrange(0, t.len() as int) =~= s.subrange(0, t.len() as int));
    } else {
        assert(s.subrange(0, s.len() as int) =~= s);
    }
}

/// Trimming keeps a run of the text, whose first and last characters are not white space.
proof fn lemma_trim_shape(s: Seq<char>) -> (start: int)
    ensures
        0 <= start <= start + trim(s).len() <= s.len(),
        trim(s) == s.subrange(start, start + trim(s).len()),
        trim(s).len() > 0 ==> !spec_is_whitespace(trim(s)[0]) && !spec_is_whitespace(trim(s).last()),
{
    lemma_trim_start_shape(s);
    let x = trim_start(s);
    lemma_trim_end_shape(x);
    let start = s.len() - x.len();
    assert(trim(s) =~= s.subrange(start, start + trim(s).len()));
    if trim(s).len() > 0 {
        assert(trim(s)[0] == x[0]);
    }
    start
}

/// A text whose first and last characters are not white space is its own trim.
proof fn lemma_trim_trimmed(s: Seq<char>)
    requires
        s.len() > 0,
        !spec_is_whitespace(s[0]),
        !spec_is_whitespace(s.last()),
    ensures
        trim(s) == s,
{
}

/// A text without line feeds is one line.
proof fn lemma_split_one_line(s: Seq<char>)
    requires
        !s.contains('\n'),
    ensures
        split_lines(s) == (Seq::<Seq<char>>::empty(), s),
    decreases s.len(),
{
    if s.len() > 0 {
        assert(!s.drop_last().contains('\n')) by {
            if s.drop_last().contains('\n') {
                let k = choose|k: int| 0 <= k < s.drop_last().len() && s.drop_last()[k] == '\n';
                assert(s[k] == '\n');
            }
        }
        lemma_split_one_line(s.drop_last());
        assert(s.drop_last().push(s.last()) =~= s);
    }
}

proof fn lemma_first_colon_at(t: Seq<char>, i: int, j: int)
    requires
        0 <= i <= j < t.len(),
        t[j] == ':',
        forall|k: int| i <= k < j ==> #[trigger] t[k] != ':',
    ensures
        first_colon(t, i) == j,
    decreases j - i,
{
    if i < j {
        lemma_first_colon_at(t, i + 1, j);
    }
}

/// Each entry read from a shorthand file has a shorthand and a replacement that are not
/// empty and neither start nor end with white space, and the shorthand holds no `:`.
pub proof fn law_macro_entries_trimmed(content: Seq<char>)
    ensures
        forall|i: int| 0 <= i < macro_table(content).len() ==> {
            let (key, val) = #[trigger] macro_table(content)[i];
            &&& key.len() > 0 && !spec_is_whitespace(key[0]) && !spec_is_whitespace(key.last())
            &&& val.len() > 0 && !spec_is_whitespace(val[0]) && !spec_is_whitespace(val.last())
            &&& !key.contains(':')
        },
{
    lemma_entries_trimmed(lines(content));
}

proof fn lemma_entries_trimmed(ls: Seq<Seq<char>>)
    ensures
        forall|i: int| 0 <= i < macro_entries(ls).len() ==> {
            let (key, val) = #[trigger] macro_entries(ls)[i];
            &&& key.len() > 0 && !spec_is_whitespace(key[0]) && !spec_is_whitespace(key.last())
            &&& val.len() > 0 && !spec_is_whitespace(val[0]) && !spec_is_whitespace(val.last())
            &&& !key.contains(':')
        },
    decreases ls.len(),
{
    if ls.len() > 0 {
        lemma_entries_trimmed(ls.drop_last());
        let prev = macro_entries(ls.drop_last());
        assert forall|i: int| 0 <= i < prev.len() implies #[trigger] macro_entries(ls)[i] == prev[i] by {}
        let line = ls.last();
        if let Some((key, val)) = macro_entry(line) {
            let t = trim(line);
            let pos = first_colon(t, 0);
            lemma_first_colon_bounds(t, 0);
            let kt = t.subrange(0, pos);
            let a = lemma_trim_shape(kt);
            lemma_trim_shape(t.subrange(pos + 1, t.len() as int));
            assert(!key.contains(':')) by {
                if key.contains(':') {
                    let k = choose|k: int| 0 <= k < key.len() && key[k] == ':';
                    assert(kt[a + k] == ':');
                    lemma_first_colon_none_before(t, 0, a + k);
                }
            }
        }
    }
}

proof fn lemma_first_colon_bounds(t: Seq<char>, i: int)
    requires
        0 <= i <= t.len(),
    ensures
        i <= first_colon(t, i) <= t.len(),
        first_colon(t, i) < t.len() ==> t[first_colon(t, i)] == ':',
    decreases t.len() - i,
{
    if i < t.len() && t[i] != ':' {
        lemma_first_colon_bounds(t, i + 1);
    }
}

proof fn lemma_first_colon_none_before(t: Seq<char>, i: int, k: int)
    requires
        0 <= i <= k < first_colon(t, i),
    ensures
        t[k] != ':',
    decreases k - i,
{
    if i < k {
        lemma_first_colon_none_before(t, i + 1, k);
    }
}

/// A line `shorthand:replacement` reads back as that one entry, when both sides are not
/// empty and neither starts nor ends with white space, the shorthand holds no `:` and does
/// not start with `#`, and neither side holds a line feed.
pub proof fn law_macro_line_round_trip(key: Seq<char>, val: Seq<char>)
    requires
        key.len() > 0,
        val.len() > 0,
        !spec_is_whitespace(key[0]),
        !spec_is_whitespace(key.last()),
        !spec_is_whitespace(val[0]),
        !spec_is_whitespace(val.last()),
        !key.contains(':'),
        key[0] != '#',
        !key.contains('\n'),
        !val.contains('\n'),
    ensures
        macro_table(key + seq![':'] + val) == seq![(key, val)],
{
    let line = key + seq![':'] + val;
    assert(!line.contains('\n')) by {
        if line.contains('\n') {
            let k = choose|k: int| 0 <= k < line.len() && line[k] == '\n';
            if k < key.len() {
                assert(key[k] == '\n');
            } else if k > key.len() {
                assert(val[k - key.len() - 1] == '\n');
            }
        }
    }
    lemma_split_one_line(line);
    assert(lines(line) =~= seq![line]);
    assert(seq![line].drop_last() =~= Seq::<Seq<char>>::empty());
    assert(line[0] == key[0]);
    assert(line.last() == val.last());
    lemma_trim_trimmed(line);
    assert forall|k: int| 0 <= k < key.len() implies #[trigger] line[k] != ':' by {
        assert(line[k] == key[k]);
    }
    lemma_first_colon_at(line, 0, key.len() as int);
    assert(line.subrange(0, key.len() as int) =~= key);
    assert(line.subrange(key.len() as int + 1, line.len() as int) =~= val);
    lemma_trim_trimmed(key);
    lemma_trim_trimmed(val);
    assert(macro_entry(line) == Some((key, val)));
    assert(macro_entries(Seq::<Seq<char>>::empty()) =~= Seq::empty());
    assert(macro_entries(seq![line]) =~= seq![(key, val)]);
}

/// The text between `lo` and `hi` of a character vector.
fn sub_chars(v: &Vec<char>, lo: usize, hi: usize) -> (r: Vec<char>)
    requires
        lo <= hi <= v@.len(),
    ensures
        r@ == v@.subrange(lo as int, hi as int),
{
    let mut r: Vec<char> = Vec::new();
    let mut i = lo;
    while i < hi
        invariant
            lo <= i <= hi <= v@.len(),
            r@ == v@.subrange(lo as int, i as int),
        decreases hi - i,
    {
        r.push(v[i]);
        assert(v@.subrange(lo as int, i + 1) =~= v@.subrange(lo as int, i as int).push(v@[i as int]));
        i = i + 1;
    }
    r
}

/// A text without its leading and trailing white space.
pub fn trim_chars(v: &Vec<char>) -> (r: Vec<char>)
    ensures
        r@ == trim(v@),
{
    let n = v.len();
    let mut i: usize = 0;
    while i < n && is_whitespace(v[i])
        invariant
            i <= n == v@.len(),
            forall|k: int| 0 <= k < i ==> spec_is_whitespace(#[trigger] v@[k]),
        decreases n - i,
    {
        i = i + 1;
    }
    proof {
        lemma_trim_start_suffix(v@, i as int);
    }
    let t = sub_chars(v, i, n);
    assert(trim_start(t@) == t@) by {
        if t@.len() > 0 {
            assert(t@[0] == v@[i as int]);
        }
    }
    let m = t.len();
    let mut j: usize = m;
    while j > 0 && is_whitespace(t[j - 1])
        invariant
            j <= m == t@.len(),
            forall|k: int| j <= k < m ==> spec_is_whitespace(#[trigger] t@[k]),
        decreases j,
    {
        j = j - 1;
    }
    proof {
        lemma_trim_end_prefix(t@, j as int);
    }
    let r = sub_chars(&t, 0, j);
    assert(trim_end(r@) == r@) by {
        if r@.len() > 0 {
            assert(r@.last() == t@[j - 1]);
        }
    }
    r
}

/// The position of the first `:` in a text, or its length.
fn find_colon(t: &Vec<char>) -> (r: usize)
    ensures
        r == first_colon(t@, 0),
        r <= t@.len(),
{
    let mut i: usize = 0;
    while i < t.len() && t[i] != ':'
        invariant
            i <= t@.len(),
            first_colon(t@, 0) == first_colon(t@, i as int),
        decreases t@.len() - i,
    {
        i = i + 1;
    }
    i
}

/// The entry a line of a shorthand file holds, if any.
pub fn parse_macro_line(line: &Vec<char>) -> (r: Option<(String, String)>)
    ensures
        match r {
            Some(p) => macro_entry(line@) == Some((p.0@, p.1@)),
            None => macro_entry(line@) is None,
        },
{
    let t = trim_chars(line);
    if t.len() == 0 || t[0] == '#' {
        return None;
    }
    let pos = find_colon(&t);
    if pos == t.len() {
        return None;
    }
    let key = trim_chars(&sub_chars(&t, 0, pos));
    let val = trim_chars(&sub_chars(&t, pos + 1, t.len()));
    if key.len() > 0 && val.len() > 0 {
        Some((string_of(&key), string_of(&val)))
    } else {
        None
    }
}

/// Parses the text of a shorthand file: each line holds `shorthand:replacement`, both
/// sides trimmed of white space and neither empty; blank lines, lines that start with `#`
/// and lines without `:` are skipped. The entries come in the order of their lines.
pub fn parse_macro_table(content: &str) -> (r: Vec<(String, String)>)
    ensures
        entries_view(r@) == macro_table(content@),
{
    let chars = chars_of(content);
    let n = chars.len();
    let mut r: Vec<(String, String)> = Vec::new();
    let mut cur: Vec<char> = Vec::new();
    let mut i: usize = 0;
    while i < n
        invariant
            i <= n == chars@.len(),
            chars@ == content@,
            entries_view(r@) == macro_entries(split_lines(chars@.take(i as int)).0),
            cur@ == split_lines(chars@.take(i as int)).1,
        decreases n - i,
    {
        let c = chars[i];
        let ghost pre = chars@.take(i as int);
        let ghost next = chars@.take(i + 1);
        assert(next.drop_last() =~= pre);
        assert(next.last() == c);
        if c == '\n' {
            let ghost ls = split_lines(pre).0;
            let ghost r0 = r@;
            assert(ls.push(cur@).drop_last() =~= ls);
            match parse_macro_line(&cur) {
                Some(e) => {
                    r.push(e);
                    assert(entries_view(r@) =~= entries_view(r0).push((e.0@, e.1@)));
                },
                None => {},
            }
            cur = Vec::new();
            assert(entries_view(r@) =~= macro_entries(split_lines(next).0));
        } else {
            cur.push(c);
        }
        i = i + 1;
    }
    assert(chars@.take(n as int) =~= content@);
    let ghost ls = split_lines(content@).0;
    assert(ls.push(cur@).drop_last() =~= ls);
    match parse_macro_line(&cur) {
        Some(e) => {
            let ghost r0 = r@;
            r.push(e);
            assert(entries_view(r@) =~= entries_view(r0).push((e.0@, e.1@)));
        },
        None => {},
    }
    r
}

} // verus!
