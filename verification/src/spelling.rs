//! Spelling of Vietnamese syllables.
//!
//! A syllable is split into its first consonant, its vowel and its last consonant; each part
//! is looked up in a table of rows of spellings, and the rows found must be allowed together
//! by the consonant-vowel and vowel-consonant tables.

use vstd::prelude::*;
use crate::charset::{add_mark_to_toneless_char, with_mark_toneless};
use crate::text::chars_of;

verus! {

/// A white-space character: one with the Unicode `White_Space` property.
pub open spec fn spec_is_whitespace(c: char) -> bool {
    ('\u{9}' <= c && c <= '\u{d}') || c == ' ' || c == '\u{85}' || c == '\u{a0}' || c
        == '\u{1680}' || ('\u{2000}' <= c && c <= '\u{200a}') || c == '\u{2028}' || c == '\u{2029}'
        || c == '\u{202f}' || c == '\u{205f}' || c == '\u{3000}'
}

/// Whether a character is white space.
pub fn is_whitespace(c: char) -> (r: bool)
    ensures
        r == spec_is_whitespace(c),
{
    (c >= '\u{9}' && c <= '\u{d}') || c == ' ' || c == '\u{85}' || c == '\u{a0}' || c == '\u{1680}'
        || (c >= '\u{2000}' && c <= '\u{200a}') || c == '\u{2028}' || c == '\u{2029}' || c
        == '\u{202f}' || c == '\u{205f}' || c == '\u{3000}'
}

/// The words read so far from a text, and the word being read.
pub open spec fn split_state(s: Seq<char>) -> (Seq<Seq<char>>, Seq<char>)
    decreases s.len(),
{
    if s.len() == 0 {
        (Seq::empty(), Seq::empty())
    } else {
        let (ws, cur) = split_state(s.drop_last());
        let c = s.last();
        if spec_is_whitespace(c) {
            if cur.len() > 0 {
                (ws.push(cur), Seq::empty())
            } else {
                (ws, Seq::empty())
            }
        } else {
            (ws, cur.push(c))
        }
    }
}

/// The words of a text: its longest runs of characters that are not white space, in order.
pub open spec fn words(s: Seq<char>) -> Seq<Seq<char>> {
    let (ws, cur) = split_state(s);
    if cur.len() > 0 {
        ws.push(cur)
    } else {
        ws
    }
}

/// Whether a spelling from a table fits the input: it is at least as long (exactly as long
/// when the input is full), and each input letter is the spelling's letter or, when the
/// input is not complete, that letter without its diacritic mark.
pub open spec fn word_fits(word: Seq<char>, input: Seq<char>, input_is_full: bool, input_is_complete: bool) -> bool {
    &&& input.len() <= word.len()
    &&& !(input_is_full && word.len() > input.len())
    &&& forall|k: int|
        0 <= k < input.len() ==> input[k] == #[trigger] word[k] || (!input_is_complete
            && with_mark_toneless(word[k], 0) == input[k])
}

/// Whether some spelling among the words fits the input.
pub open spec fn row_fits(ws: Seq<Seq<char>>, input: Seq<char>, input_is_full: bool, input_is_complete: bool) -> bool {
    exists|k: int| 0 <= k < ws.len() && word_fits(#[trigger] ws[k], input, input_is_full, input_is_complete)
}

/// The indices among the first `n` rows that hold a spelling that fits the input, in order.
pub open spec fn lookup_upto(
    rows: Seq<Seq<char>>,
    input: Seq<char>,
    input_is_full: bool,
    input_is_complete: bool,
    n: int,
) -> Seq<usize>
    decreases n,
{
    if n <= 0 {
        Seq::empty()
    } else {
        lookup_upto(rows, input, input_is_full, input_is_complete, n - 1) + if row_fits(
            words(rows[n - 1]),
            input,
            input_is_full,
            input_is_complete,
        ) {
            seq![(n - 1) as usize]
        } else {
            Seq::empty()
        }
    }
}

/// The rows of a table, each text taken by its characters.
pub open spec fn rows_view(seq: Seq<&str>) -> Seq<Seq<char>> {
    Seq::new(seq.len(), |i: int| seq[i]@)
}

/// The indices of the rows that hold a spelling that fits the input, in order.
pub open spec fn spec_lookup(
    seq: Seq<&str>,
    input: Seq<char>,
    input_is_full: bool,
    input_is_complete: bool,
) -> Seq<usize> {
    lookup_upto(rows_view(seq), input, input_is_full, input_is_complete, seq.len() as int)
}

/// The words of a text.
fn split_words(s: &str) -> (r: Vec<Vec<char>>)
    ensures
        r@.len() == words(s@).len(),
        forall|i: int| 0 <= i < r@.len() ==> #[trigger] r@[i]@ == words(s@)[i],
{
    let chars = chars_of(s);
    let mut ws: Vec<Vec<char>> = Vec::new();
    let mut cur: Vec<char> = Vec::new();
    let mut i: usize = 0;
    while i < chars.len()
        invariant
            i <= chars@.len(),
            chars@ == s@,
            ws@.len() == split_state(chars@.take(i as int)).0.len(),
            forall|j: int| 0 <= j < ws@.len() ==> #[trigger] ws@[j]@ == split_state(chars@.take(i as int)).0[j],
            cur@ == split_state(chars@.take(i as int)).1,
        decreases chars@.len() - i,
    {
        assert(chars@.take(i + 1).drop_last() == chars@.take(i as int));
        let c = chars[i];
        if is_whitespace(c) {
            if cur.len() > 0 {
                ws.push(cur);
                cur = Vec::new();
            }
        } else {
            cur.push(c);
        }
        i = i + 1;
    }
    assert(chars@.take(chars@.len() as int) == chars@);
    if cur.len() > 0 {
        ws.push(cur);
    }
    ws
}

/// Whether a spelling fits the input.
fn word_fits_exec(word: &Vec<char>, input: &Vec<char>, input_is_full: bool, input_is_complete: bool) -> (r: bool)
    ensures
        r == word_fits(word@, input@, input_is_full, input_is_complete),
{
    if word.len() < input.len() || (input_is_full && word.len() > input.len()) {
        return false;
    }
    let mut k: usize = 0;
    while k < input.len()
        invariant
            input@.len() <= word@.len(),
            k <= input@.len(),
            forall|j: int|
                0 <= j < k ==> input@[j] == #[trigger] word@[j] || (!input_is_complete
                    && with_mark_toneless(word@[j], 0) == input@[j]),
        decreases input@.len() - k,
    {
        let ic = input[k];
        let canvas_char = word[k];
        if ic != canvas_char && (input_is_complete || add_mark_to_toneless_char(canvas_char, 0) != ic) {
            return false;
        }
        k = k + 1;
    }
    true
}

/// Performs a lookup of an input segment in spelling sequence rules.
///
/// * `seq` - The spelling reference sequences (consonants or vowels).
/// * `input` - The input string segment to look up.
/// * `input_is_full` - If true, requires the candidate sequence word to match the input length exactly.
/// * `input_is_complete` - If true, checks characters with exact matches; if false, matches base/toneless equivalents.
pub fn lookup(seq: &[&str], input: &str, input_is_full: bool, input_is_complete: bool) -> (r: Vec<usize>)
    ensures
        r@ == spec_lookup(seq@, input@, input_is_full, input_is_complete),
{
    let mut ret: Vec<usize> = Vec::new();
    let input_chars = chars_of(input);
    let ghost rows = rows_view(seq@);
    let mut index: usize = 0;
    while index < seq.len()
        invariant
            index <= seq@.len(),
            rows == rows_view(seq@),
            input_chars@ == input@,
            ret@ == lookup_upto(rows, input@, input_is_full, input_is_complete, index as int),
        decreases seq@.len() - index,
    {
        let ws = split_words(seq[index]);
        let ghost wsv = words(rows[index as int]);
        let mut found = false;
        let mut k: usize = 0;
        while k < ws.len()
            invariant_except_break
                k <= ws@.len(),
                !found,
                forall|j: int| 0 <= j < k ==> !word_fits(#[trigger] wsv[j], input@, input_is_full, input_is_complete),
            invariant
                ws@.len() == wsv.len(),
                forall|j: int| 0 <= j < ws@.len() ==> #[trigger] ws@[j]@ == wsv[j],
                input_chars@ == input@,
            ensures
                found == row_fits(wsv, input@, input_is_full, input_is_complete),
            decreases ws@.len() - k,
        {
            if word_fits_exec(&ws[k], &input_chars, input_is_full, input_is_complete) {
                found = true;
                break;
            }
            k = k + 1;
        }
        if found {
            ret.push(index);
        }
        index = index + 1;
    }
    ret
}


/// The spellings of first consonants, in rows of spellings that behave alike.
pub open spec fn first_consonant_seqs() -> Seq<&'static str> {
    seq![
        "b d đ g gh m n nh p ph r s t tr v z",
        "c h k kh qu th",
        "ch gi l ng ngh x",
        "đ l",
        "h",
    ]
}

/// The spellings of vowels, in rows of spellings that behave alike.
pub open spec fn vowel_seqs() -> Seq<&'static str> {
    seq![
        "ê i ua uê uy y",
        "a iê oa uyê yê",
        "â ă e o oo ô ơ oe u ư uâ uô ươ",
        "oă",
        "uơ",
        "ai ao au âu ay ây eo êu ia iêu iu oai oao oay oeo oi ôi ơi ưa uây ui ưi uôi ươi ươu ưu uya uyu yêu",
        "ă",
        "i",
    ]
}

/// The spellings of last consonants, in rows of spellings that behave alike.
pub open spec fn last_consonant_seqs() -> Seq<&'static str> {
    seq![
        "ch nh",
        "c ng",
        "m n p t",
        "k",
        "c",
    ]
}

/// Row `i` of the consonant-vowel table lists the rows of vowels that may follow a first
/// consonant of row `i`.
pub open spec fn cv_matrix() -> Seq<Seq<usize>> {
    seq![
        seq![0usize, 1usize, 2usize, 5usize],
        seq![0usize, 1usize, 2usize, 3usize, 4usize, 5usize],
        seq![0usize, 1usize, 2usize, 3usize, 5usize],
        seq![6usize],
        seq![7usize],
    ]
}

/// Row `i` of the vowel-consonant table lists the rows of last consonants that may follow a
/// vowel of row `i`.
pub open spec fn vc_matrix() -> Seq<Seq<usize>> {
    seq![
        seq![0usize, 2usize],
        seq![0usize, 1usize, 2usize],
        seq![1usize, 2usize],
        seq![1usize, 2usize],
        Seq::<usize>::empty(),
        Seq::<usize>::empty(),
        seq![3usize],
        seq![4usize],
    ]
}

fn first_consonant_table() -> (r: Vec<&'static str>)
    ensures
        r@ == first_consonant_seqs(),
{
    let r: Vec<&'static str> = vec![
        "b d đ g gh m n nh p ph r s t tr v z",
        "c h k kh qu th",
        "ch gi l ng ngh x",
        "đ l",
        "h",
    ];
    assert(r@ =~= first_consonant_seqs());
    r
}

fn vowel_table() -> (r: Vec<&'static str>)
    ensures
        r@ == vowel_seqs(),
{
    let r: Vec<&'static str> = vec![
        "ê i ua uê uy y",
        "a iê oa uyê yê",
        "â ă e o oo ô ơ oe u ư uâ uô ươ",
        "oă",
        "uơ",
        "ai ao au âu ay ây eo êu ia iêu iu oai oao oay oeo oi ôi ơi ưa uây ui ưi uôi ươi ươu ưu uya uyu yêu",
        "ă",
        "i",
    ];
    assert(r@ =~= vowel_seqs());
    r
}

fn last_consonant_table() -> (r: Vec<&'static str>)
    ensures
        r@ == last_consonant_seqs(),
{
    let r: Vec<&'static str> = vec![
        "ch nh",
        "c ng",
        "m n p t",
        "k",
        "c",
    ];
    assert(r@ =~= last_consonant_seqs());
    r
}

fn cv_row(i: usize) -> (r: Vec<usize>)
    requires
        i < cv_matrix().len(),
    ensures
        r@ == cv_matrix()[i as int],
{
    let r: Vec<usize> = match i {
        0 => vec![0, 1, 2, 5],
        1 => vec![0, 1, 2, 3, 4, 5],
        2 => vec![0, 1, 2, 3, 5],
        3 => vec![6],
        4 => vec![7],
        _ => vec![7],
    };
    assert(r@ =~= cv_matrix()[i as int]);
    r
}

fn vc_row(i: usize) -> (r: Vec<usize>)
    requires
        i < vc_matrix().len(),
    ensures
        r@ == vc_matrix()[i as int],
{
    let r: Vec<usize> = match i {
        0 => vec![0, 2],
        1 => vec![0, 1, 2],
        2 => vec![1, 2],
        3 => vec![1, 2],
        4 => vec![],
        5 => vec![],
        6 => vec![3],
        7 => vec![4],
        _ => vec![4],
    };
    assert(r@ =~= vc_matrix()[i as int]);
    r
}

/// Whether some row listed in `from`, within the table, allows some row listed in `to`.
pub open spec fn table_allows(table: Seq<Seq<usize>>, from: Seq<usize>, to: Seq<usize>) -> bool {
    exists|i: int, j: int|
        0 <= i < from.len() && 0 <= j < to.len() && from[i] < table.len() && #[trigger] table[from[i] as int].contains(
            #[trigger] to[j],
        )
}

/// Whether the table allows a pair of rows, searched the way the tables are read.
fn table_allows_exec(matrix_len: usize, is_cv: bool, from: &Vec<usize>, to: &Vec<usize>) -> (r: bool)
    requires
        is_cv ==> matrix_len == cv_matrix().len(),
        !is_cv ==> matrix_len == vc_matrix().len(),
    ensures
        r == table_allows(if is_cv { cv_matrix() } else { vc_matrix() }, from@, to@),
{
    let ghost table = if is_cv { cv_matrix() } else { vc_matrix() };
    let mut a: usize = 0;
    while a < from.len()
        invariant
            a <= from@.len(),
            table == if is_cv { cv_matrix() } else { vc_matrix() },
            matrix_len == table.len(),
            forall|i: int, j: int|
                0 <= i < a && 0 <= j < to@.len() && from@[i] < table.len() ==> !#[trigger] table[from@[i] as int].contains(
                    #[trigger] to@[j],
                ),
        decreases from@.len() - a,
    {
        let f = from[a];
        if f < matrix_len {
            let row = if is_cv { cv_row(f) } else { vc_row(f) };
            let mut b: usize = 0;
            while b < row.len()
                invariant
                    b <= row@.len(),
                    row@ == table[f as int],
                    a < from@.len(),
                    f == from@[a as int],
                    f < table.len(),
                    table == if is_cv { cv_matrix() } else { vc_matrix() },
                    forall|k: int, j: int|
                        0 <= k < b && 0 <= j < to@.len() ==> #[trigger] row@[k] != #[trigger] to@[j],
                decreases row@.len() - b,
            {
                let c = row[b];
                let mut d: usize = 0;
                while d < to.len()
                    invariant
                        d <= to@.len(),
                        b < row@.len(),
                        c == row@[b as int],
                        row@ == table[f as int],
                        a < from@.len(),
                        f == from@[a as int],
                        f < table.len(),
                        table == if is_cv { cv_matrix() } else { vc_matrix() },
                        forall|j: int| 0 <= j < d ==> c != #[trigger] to@[j],
                    decreases to@.len() - d,
                {
                    if c == to[d] {
                        assert(table[from@[a as int] as int].contains(to@[d as int])) by {
                            assert(row@[b as int] == to@[d as int]);
                        }
                        assert(table_allows(table, from@, to@));
                        return true;
                    }
                    d = d + 1;
                }
                b = b + 1;
            }
            assert forall|j: int| 0 <= j < to@.len() implies !table[f as int].contains(#[trigger] to@[j]) by {
                if table[f as int].contains(to@[j]) {
                    let k = choose|k: int| 0 <= k < row@.len() && row@[k] == to@[j];
                    assert(row@[k] != to@[j]);
                }
            }
        }
        a = a + 1;
    }
    false
}

/// Whether a syllable split into first consonant, vowel and last consonant is spelled as
/// Vietnamese spells: every part that is there is found in its table (looked up as full
/// when a later part follows or the syllable is complete; vowels looked up as complete only
/// when the syllable is), and the rows found are allowed together. A syllable without vowel
/// is valid when it has a first consonant.
pub open spec fn spec_is_valid_cvc(fc: Seq<char>, vo: Seq<char>, lc: Seq<char>, input_is_full_complete: bool) -> bool {
    let fci = spec_lookup(first_consonant_seqs(), fc, input_is_full_complete || vo.len() > 0, true);
    let voi = spec_lookup(vowel_seqs(), vo, input_is_full_complete || lc.len() > 0, input_is_full_complete);
    let lci = spec_lookup(last_consonant_seqs(), lc, input_is_full_complete, true);
    if fc.len() > 0 && fci.len() == 0 {
        false
    } else if vo.len() > 0 && voi.len() == 0 {
        false
    } else if lc.len() > 0 && lci.len() == 0 {
        false
    } else if vo.len() == 0 {
        fc.len() > 0
    } else if fc.len() > 0 && (!table_allows(cv_matrix(), fci, voi) || lc.len() == 0) {
        table_allows(cv_matrix(), fci, voi)
    } else if lc.len() > 0 {
        table_allows(vc_matrix(), voi, lci)
    } else {
        true
    }
}

/// Validates whether a combination of first consonant, vowel, and last consonant is phonologically valid in Vietnamese.
///
/// * `fc` - The first/initial consonant segment.
/// * `vo` - The vowel/nucleus segment.
/// * `lc` - The last/final consonant segment.
/// * `input_is_full_complete` - Strict check toggle indicating whether the syllable components are fully complete.
pub fn is_valid_cvc(fc: &str, vo: &str, lc: &str, input_is_full_complete: bool) -> (r: bool)
    ensures
        r == spec_is_valid_cvc(fc@, vo@, lc@, input_is_full_complete),
{
    let fc_empty = fc.unicode_len() == 0;
    let vo_empty = vo.unicode_len() == 0;
    let lc_empty = lc.unicode_len() == 0;
    let mut fc_indexes: Option<Vec<usize>> = None;
    if !fc_empty {
        let table = first_consonant_table();
        let lookup_res = lookup(table.as_slice(), fc, input_is_full_complete || !vo_empty, true);
        if lookup_res.len() == 0 {
            return false;
        }
        fc_indexes = Some(lookup_res);
    }
    let mut vo_indexes: Option<Vec<usize>> = None;
    if !vo_empty {
        let table = vowel_table();
        let lookup_res = lookup(table.as_slice(), vo, input_is_full_complete || !lc_empty, input_is_full_complete);
        if lookup_res.len() == 0 {
            return false;
        }
        vo_indexes = Some(lookup_res);
    }
    let mut lc_indexes: Option<Vec<usize>> = None;
    if !lc_empty {
        let table = last_consonant_table();
        let lookup_res = lookup(table.as_slice(), lc, input_is_full_complete, true);
        if lookup_res.len() == 0 {
            return false;
        }
        lc_indexes = Some(lookup_res);
    }
    let vo_indexes_val = match vo_indexes {
        None => return fc_indexes.is_some(),
        Some(v) => v,
    };
    if let Some(fc_idx) = fc_indexes {
        let cv_valid = table_allows_exec(5, true, &fc_idx, &vo_indexes_val);
        if !cv_valid || lc_indexes.is_none() {
            return cv_valid;
        }
    }
    if let Some(lc_idx) = lc_indexes {
        table_allows_exec(8, false, &vo_indexes_val, &lc_idx)
    } else {
        true
    }
}


/// The rows that a lookup finds are listed once each, in increasing order, and are rows of
/// the table.
pub proof fn law_lookup_sorted(seq: Seq<&str>, input: Seq<char>, input_is_full: bool, input_is_complete: bool)
    requires
        seq.len() <= usize::MAX,
    ensures
        forall|k: int|
            0 <= k < spec_lookup(seq, input, input_is_full, input_is_complete).len() ==> #[trigger] spec_lookup(
                seq,
                input,
                input_is_full,
                input_is_complete,
            )[k] < seq.len(),
        forall|i: int, j: int|
            0 <= i < j < spec_lookup(seq, input, input_is_full, input_is_complete).len() ==> #[trigger] spec_lookup(
                seq,
                input,
                input_is_full,
                input_is_complete,
            )[i] < #[trigger] spec_lookup(seq, input, input_is_full, input_is_complete)[j],
{
    lemma_lookup_upto_sorted(rows_view(seq), input, input_is_full, input_is_complete, seq.len() as int);
}

/// The rows found among the first `n` are below `n` and increasing.
pub proof fn lemma_lookup_upto_sorted(
    rows: Seq<Seq<char>>,
    input: Seq<char>,
    input_is_full: bool,
    input_is_complete: bool,
    n: int,
)
    requires
        n <= usize::MAX,
    ensures
        forall|k: int|
            0 <= k < lookup_upto(rows, input, input_is_full, input_is_complete, n).len() ==> #[trigger] lookup_upto(
                rows,
                input,
                input_is_full,
                input_is_complete,
                n,
            )[k] < n,
        forall|i: int, j: int|
            0 <= i < j < lookup_upto(rows, input, input_is_full, input_is_complete, n).len() ==> #[trigger] lookup_upto(
                rows,
                input,
                input_is_full,
                input_is_complete,
                n,
            )[i] < #[trigger] lookup_upto(rows, input, input_is_full, input_is_complete, n)[j],
    decreases n,
{
    if n > 0 {
        lemma_lookup_upto_sorted(rows, input, input_is_full, input_is_complete, n - 1);
        let prev = lookup_upto(rows, input, input_is_full, input_is_complete, n - 1);
        let cur = lookup_upto(rows, input, input_is_full, input_is_complete, n);
        let extra: Seq<usize> = if row_fits(words(rows[n - 1]), input, input_is_full, input_is_complete) {
            seq![(n - 1) as usize]
        } else {
            Seq::empty()
        };
        assert(cur == prev + extra);
        assert forall|k: int| 0 <= k < cur.len() implies #[trigger] cur[k] < n by {
            if k < prev.len() {
                assert(cur[k] == prev[k]);
            }
        }
        assert forall|i: int, j: int| 0 <= i < j < cur.len() implies #[trigger] cur[i] < #[trigger] cur[j] by {
            if j < prev.len() {
                assert(cur[i] == prev[i] && cur[j] == prev[j]);
            } else {
                assert(cur[i] == prev[i]);
            }
        }
    }
}

proof fn lemma_lookup_upto_members(
    rows: Seq<Seq<char>>,
    input: Seq<char>,
    input_is_full: bool,
    input_is_complete: bool,
    n: int,
    r: usize,
)
    requires
        0 <= n <= rows.len(),
        n <= usize::MAX,
    ensures
        lookup_upto(rows, input, input_is_full, input_is_complete, n).contains(r) <==> (r < n
            && row_fits(words(rows[r as int]), input, input_is_full, input_is_complete)),
    decreases n,
{
    if n > 0 {
        lemma_lookup_upto_members(rows, input, input_is_full, input_is_complete, n - 1, r);
        lemma_lookup_upto_sorted(rows, input, input_is_full, input_is_complete, n - 1);
        let prev = lookup_upto(rows, input, input_is_full, input_is_complete, n - 1);
        let fits = row_fits(words(rows[n - 1]), input, input_is_full, input_is_complete);
        let extra: Seq<usize> = if fits { seq![(n - 1) as usize] } else { Seq::empty() };
        let cur = lookup_upto(rows, input, input_is_full, input_is_complete, n);
        assert(cur == prev + extra);
        if cur.contains(r) {
            let k = choose|k: int| 0 <= k < cur.len() && cur[k] == r;
            if k < prev.len() {
                assert(prev[k] == cur[k]);
                assert(prev.contains(r));
            }
        }
        if r < n && row_fits(words(rows[r as int]), input, input_is_full, input_is_complete) {
            if r < n - 1 {
                let k = choose|k: int| 0 <= k < prev.len() && prev[k] == r;
                assert(cur[k] == prev[k]);
            } else {
                assert(cur[prev.len() as int] == (n - 1) as usize);
            }
        }
        if cur.contains(r) && r >= n - 1 {
            let k = choose|k: int| 0 <= k < cur.len() && cur[k] == r;
            if k < prev.len() {
                assert(prev[k] < n - 1);
            }
        }
    }
}

/// A row is found by `lookup` exactly when one of its words fits the input: the input is no
/// longer than the word (as long when the input is full), and each input letter is the
/// word's letter or, when the input is not complete, that letter without its mark.
pub proof fn law_lookup_finds_fitting_rows(
    seq: Seq<&str>,
    input: Seq<char>,
    input_is_full: bool,
    input_is_complete: bool,
    r: usize,
)
    requires
        seq.len() <= usize::MAX,
    ensures
        spec_lookup(seq, input, input_is_full, input_is_complete).contains(r) <==> (r < seq.len()
            && row_fits(words(seq[r as int]@), input, input_is_full, input_is_complete)),
{
    lemma_lookup_upto_members(rows_view(seq), input, input_is_full, input_is_complete, seq.len() as int, r);
}

proof fn lemma_row_fits_weaker(ws: Seq<Seq<char>>, input: Seq<char>, full: bool, complete: bool, full2: bool, complete2: bool)
    requires
        row_fits(ws, input, full, complete),
        full2 ==> full,
        complete2 ==> complete,
    ensures
        row_fits(ws, input, full2, complete2),
{
    let k = choose|k: int| 0 <= k < ws.len() && word_fits(#[trigger] ws[k], input, full, complete);
    assert(word_fits(ws[k], input, full2, complete2));
}

/// What a lookup finds under stricter conditions it also finds under weaker ones.
proof fn lemma_lookup_weaker(seq: Seq<&str>, input: Seq<char>, full: bool, complete: bool, full2: bool, complete2: bool)
    requires
        seq.len() <= usize::MAX,
        full2 ==> full,
        complete2 ==> complete,
    ensures
        spec_lookup(seq, input, full, complete).len() > 0 ==> spec_lookup(seq, input, full2, complete2).len() > 0,
        forall|r: usize| #[trigger] spec_lookup(seq, input, full, complete).contains(r) ==> spec_lookup(
            seq,
            input,
            full2,
            complete2,
        ).contains(r),
{
    assert forall|r: usize| #[trigger] spec_lookup(seq, input, full, complete).contains(r) implies spec_lookup(
        seq,
        input,
        full2,
        complete2,
    ).contains(r) by {
        law_lookup_finds_fitting_rows(seq, input, full, complete, r);
        law_lookup_finds_fitting_rows(seq, input, full2, complete2, r);
        lemma_row_fits_weaker(words(seq[r as int]@), input, full, complete, full2, complete2);
    }
    if spec_lookup(seq, input, full, complete).len() > 0 {
        let r = spec_lookup(seq, input, full, complete)[0];
        assert(spec_lookup(seq, input, full, complete).contains(r));
    }
}

proof fn lemma_table_allows_weaker(table: Seq<Seq<usize>>, a: Seq<usize>, b: Seq<usize>, a2: Seq<usize>, b2: Seq<usize>)
    requires
        table_allows(table, a, b),
        forall|r: usize| #[trigger] a.contains(r) ==> a2.contains(r),
        forall|r: usize| #[trigger] b.contains(r) ==> b2.contains(r),
    ensures
        table_allows(table, a2, b2),
{
    let (i, j) = choose|i: int, j: int|
        0 <= i < a.len() && 0 <= j < b.len() && a[i] < table.len() && #[trigger] table[a[i] as int].contains(#[trigger] b[j]);
    assert(a.contains(a[i]));
    assert(b.contains(b[j]));
    let i2 = choose|i2: int| 0 <= i2 < a2.len() && a2[i2] == a[i];
    let j2 = choose|j2: int| 0 <= j2 < b2.len() && b2[j2] == b[j];
    assert(table[a2[i2] as int].contains(b2[j2]));
}

/// The strict spelling check (for a syllable that is full and complete) accepts only what
/// the lenient one accepts.
pub proof fn law_strict_check_implies_lenient(fc: Seq<char>, vo: Seq<char>, lc: Seq<char>)
    requires
        spec_is_valid_cvc(fc, vo, lc, true),
    ensures
        spec_is_valid_cvc(fc, vo, lc, false),
{
    lemma_lookup_weaker(first_consonant_seqs(), fc, true, true, vo.len() > 0, true);
    lemma_lookup_weaker(vowel_seqs(), vo, true, true, lc.len() > 0, false);
    lemma_lookup_weaker(last_consonant_seqs(), lc, true, true, false, true);
    let fci = spec_lookup(first_consonant_seqs(), fc, true, true);
    let voi = spec_lookup(vowel_seqs(), vo, true, true);
    let lci = spec_lookup(last_consonant_seqs(), lc, true, true);
    let fci2 = spec_lookup(first_consonant_seqs(), fc, vo.len() > 0, true);
    let voi2 = spec_lookup(vowel_seqs(), vo, lc.len() > 0, false);
    let lci2 = spec_lookup(last_consonant_seqs(), lc, false, true);
    if table_allows(cv_matrix(), fci, voi) {
        lemma_table_allows_weaker(cv_matrix(), fci, voi, fci2, voi2);
    }
    if table_allows(vc_matrix(), voi, lci) {
        lemma_table_allows_weaker(vc_matrix(), voi, lci, voi2, lci2);
    }
}

/// Words joined by single spaces.
pub open spec fn join_words(ws: Seq<Seq<char>>) -> Seq<char>
    decreases ws.len(),
{
    if ws.len() == 0 {
        Seq::empty()
    } else if ws.len() == 1 {
        ws[0]
    } else {
        join_words(ws.drop_last()) + seq![' '] + ws.last()
    }
}

/// Whether a text is a word: not empty, without white space.
pub open spec fn is_word(w: Seq<char>) -> bool {
    w.len() > 0 && forall|k: int| 0 <= k < w.len() ==> !spec_is_whitespace(#[trigger] w[k])
}

proof fn lemma_split_word(p: Seq<char>, w: Seq<char>)
    requires
        split_state(p).1.len() == 0,
        forall|k: int| 0 <= k < w.len() ==> !spec_is_whitespace(#[trigger] w[k]),
    ensures
        split_state(p + w) == (split_state(p).0, w),
    decreases w.len(),
{
    if w.len() == 0 {
        assert(p + w =~= p);
    } else {
        let init = w.drop_last();
        assert forall|k: int| 0 <= k < init.len() implies !spec_is_whitespace(#[trigger] init[k]) by {
            assert(init[k] == w[k]);
        }
        lemma_split_word(p, init);
        assert((p + w).drop_last() =~= p + init);
        assert((p + w).last() == w[w.len() - 1]);
        assert(init.push(w.last()) =~= w);
    }
}

proof fn lemma_words_of_join(ws: Seq<Seq<char>>)
    requires
        ws.len() > 0,
        forall|k: int| 0 <= k < ws.len() ==> is_word(#[trigger] ws[k]),
    ensures
        split_state(join_words(ws)) == (ws.drop_last(), ws.last()),
        words(join_words(ws)) == ws,
    decreases ws.len(),
{
    assert(is_word(ws[ws.len() - 1]));
    if ws.len() == 1 {
        assert(split_state(Seq::<char>::empty()) == (Seq::<Seq<char>>::empty(), Seq::<char>::empty()));
        lemma_split_word(Seq::empty(), ws[0]);
        assert(Seq::<char>::empty() + ws[0] =~= ws[0]);
        assert(ws.drop_last() =~= Seq::<Seq<char>>::empty());
        assert(ws =~= seq![ws[0]]);
    } else {
        let init = ws.drop_last();
        assert forall|k: int| 0 <= k < init.len() implies is_word(#[trigger] init[k]) by {
            assert(init[k] == ws[k]);
        }
        lemma_words_of_join(init);
        let q = join_words(init);
        let qs = q + seq![' '];
        assert(qs.drop_last() =~= q);
        assert(split_state(qs) == (init, Seq::<char>::empty()));
        lemma_split_word(qs, ws.last());
        assert(join_words(ws) == qs + ws.last());
        assert(init.push(ws.last()) =~= ws);
    }
}
proof fn lemma_first_consonant_rows()
    ensures
        words(rows_view(first_consonant_seqs())[0]) == seq![seq!['b'], seq!['d'], seq!['đ'], seq!['g'], seq!['g', 'h'], seq!['m'], seq!['n'], seq!['n', 'h'], seq!['p'], seq!['p', 'h'], seq!['r'], seq!['s'], seq!['t'], seq!['t', 'r'], seq!['v'], seq!['z']],
        words(rows_view(first_consonant_seqs())[1]) == seq![seq!['c'], seq!['h'], seq!['k'], seq!['k', 'h'], seq!['q', 'u'], seq!['t', 'h']],
        words(rows_view(first_consonant_seqs())[2]) == seq![seq!['c', 'h'], seq!['g', 'i'], seq!['l'], seq!['n', 'g'], seq!['n', 'g', 'h'], seq!['x']],
{
    reveal_strlit("b d đ g gh m n nh p ph r s t tr v z");
    reveal_strlit("c h k kh qu th");
    reveal_strlit("ch gi l ng ngh x");
    reveal_with_fuel(join_words, 18);
    let ws0: Seq<Seq<char>> = seq![seq!['b'], seq!['d'], seq!['đ'], seq!['g'], seq!['g', 'h'], seq!['m'], seq!['n'], seq!['n', 'h'], seq!['p'], seq!['p', 'h'], seq!['r'], seq!['s'], seq!['t'], seq!['t', 'r'], seq!['v'], seq!['z']];
    assert forall|k: int| 0 <= k < ws0.len() implies is_word(#[trigger] ws0[k]) by {}
    assert(rows_view(first_consonant_seqs())[0] == "b d đ g gh m n nh p ph r s t tr v z"@);
    assert("b d đ g gh m n nh p ph r s t tr v z"@ =~= join_words(ws0));
    lemma_words_of_join(ws0);
    let ws1: Seq<Seq<char>> = seq![seq!['c'], seq!['h'], seq!['k'], seq!['k', 'h'], seq!['q', 'u'], seq!['t', 'h']];
    assert forall|k: int| 0 <= k < ws1.len() implies is_word(#[trigger] ws1[k]) by {}
    assert(rows_view(first_consonant_seqs())[1] == "c h k kh qu th"@);
    assert("c h k kh qu th"@ =~= join_words(ws1));
    lemma_words_of_join(ws1);
    let ws2: Seq<Seq<char>> = seq![seq!['c', 'h'], seq!['g', 'i'], seq!['l'], seq!['n', 'g'], seq!['n', 'g', 'h'], seq!['x']];
    assert forall|k: int| 0 <= k < ws2.len() implies is_word(#[trigger] ws2[k]) by {}
    assert(rows_view(first_consonant_seqs())[2] == "ch gi l ng ngh x"@);
    assert("ch gi l ng ngh x"@ =~= join_words(ws2));
    lemma_words_of_join(ws2);
}

/// The first consonants of Vietnamese spelling.
pub open spec fn first_consonants() -> Seq<Seq<char>> {
    seq![seq!['b'], seq!['c'], seq!['c', 'h'], seq!['d'], seq!['đ'], seq!['g'], seq!['g', 'h'], seq!['g', 'i'], seq!['h'], seq!['k'], seq!['k', 'h'], seq!['l'], seq!['m'], seq!['n'], seq!['n', 'g'], seq!['n', 'g', 'h'], seq!['n', 'h'], seq!['p'], seq!['p', 'h'], seq!['q', 'u'], seq!['r'], seq!['s'], seq!['t'], seq!['t', 'h'], seq!['t', 'r'], seq!['v'], seq!['x']]
}

/// Every first consonant of Vietnamese (b c ch d đ g gh gi h k kh l m n ng ngh nh p ph qu r
/// s t th tr v x) is found by the first-consonant lookup, whatever the lookup asks.
pub proof fn law_first_consonants_found(x: Seq<char>, input_is_full: bool, input_is_complete: bool)
    requires
        first_consonants().contains(x),
    ensures
        spec_lookup(first_consonant_seqs(), x, input_is_full, input_is_complete).len() > 0,
{
    lemma_first_consonant_rows();
    let cs = first_consonants();
    let i = choose|i: int| 0 <= i < cs.len() && cs[i] == x;
    let rows = rows_view(first_consonant_seqs());
    if i == 0 {
        assert(words(rows[0])[0] == x);
        assert(word_fits(words(rows[0])[0], x, true, true));
        law_lookup_finds_fitting_rows(first_consonant_seqs(), x, true, true, 0usize);
        assert(spec_lookup(first_consonant_seqs(), x, true, true).contains(0usize));
    } else if i == 1 {
        assert(words(rows[1])[0] == x);
        assert(word_fits(words(rows[1])[0], x, true, true));
        law_lookup_finds_fitting_rows(first_consonant_seqs(), x, true, true, 1usize);
        assert(spec_lookup(first_consonant_seqs(), x, true, true).contains(1usize));
    } else if i == 2 {
        assert(words(rows[2])[0] == x);
        assert(word_fits(words(rows[2])[0], x, true, true));
        law_lookup_finds_fitting_rows(first_consonant_seqs(), x, true, true, 2usize);
        assert(spec_lookup(first_consonant_seqs(), x, true, true).contains(2usize));
    } else if i == 3 {
        assert(words(rows[0])[1] == x);
        assert(word_fits(words(rows[0])[1], x, true, true));
        law_lookup_finds_fitting_rows(first_consonant_seqs(), x, true, true, 0usize);
        assert(spec_lookup(first_consonant_seqs(), x, true, true).contains(0usize));
    } else if i == 4 {
        assert(words(rows[0])[2] == x);
        assert(word_fits(words(rows[0])[2], x, true, true));
        law_lookup_finds_fitting_rows(first_consonant_seqs(), x, true, true, 0usize);
        assert(spec_lookup(first_consonant_seqs(), x, true, true).contains(0usize));
    } else if i == 5 {
        assert(words(rows[0])[3] == x);
        assert(word_fits(words(rows[0])[3], x, true, true));
        law_lookup_finds_fitting_rows(first_consonant_seqs(), x, true, true, 0usize);
        assert(spec_lookup(first_consonant_seqs(), x, true, true).contains(0usize));
    } else if i == 6 {
        assert(words(rows[0])[4] == x);
        assert(word_fits(words(rows[0])[4], x, true, true));
        law_lookup_finds_fitting_rows(first_consonant_seqs(), x, true, true, 0usize);
        assert(spec_lookup(first_consonant_seqs(), x, true, true).contains(0usize));
    } else if i == 7 {
        assert(words(rows[2])[1] == x);
        assert(word_fits(words(rows[2])[1], x, true, true));
        law_lookup_finds_fitting_rows(first_consonant_seqs(), x, true, true, 2usize);
        assert(spec_lookup(first_consonant_seqs(), x, true, true).contains(2usize));
    } else if i == 8 {
        assert(words(rows[1])[1] == x);
        assert(word_fits(words(rows[1])[1], x, true, true));
        law_lookup_finds_fitting_rows(first_consonant_seqs(), x, true, true, 1usize);
        assert(spec_lookup(first_consonant_seqs(), x, true, true).contains(1usize));
    } else if i == 9 {
        assert(words(rows[1])[2] == x);
        assert(word_fits(words(rows[1])[2], x, true, true));
        law_lookup_finds_fitting_rows(first_consonant_seqs(), x, true, true, 1usize);
        assert(spec_lookup(first_consonant_seqs(), x, true, true).contains(1usize));
    } else if i == 10 {
        assert(words(rows[1])[3] == x);
        assert(word_fits(words(rows[1])[3], x, true, true));
        law_lookup_finds_fitting_rows(first_consonant_seqs(), x, true, true, 1usize);
        assert(spec_lookup(first_consonant_seqs(), x, true, true).contains(1usize));
    } else if i == 11 {
        assert(words(rows[2])[2] == x);
        assert(word_fits(words(rows[2])[2], x, true, true));
        law_lookup_finds_fitting_rows(first_consonant_seqs(), x, true, true, 2usize);
        assert(spec_lookup(first_consonant_seqs(), x, true, true).contains(2usize));
    } else if i == 12 {
        assert(words(rows[0])[5] == x);
        assert(word_fits(words(rows[0])[5], x, true, true));
        law_lookup_finds_fitting_rows(first_consonant_seqs(), x, true, true, 0usize);
        assert(spec_lookup(first_consonant_seqs(), x, true, true).contains(0usize));
    } else if i == 13 {
        assert(words(rows[0])[6] == x);
        assert(word_fits(words(rows[0])[6], x, true, true));
        law_lookup_finds_fitting_rows(first_consonant_seqs(), x, true, true, 0usize);
        assert(spec_lookup(first_consonant_seqs(), x, true, true).contains(0usize));
    } else if i == 14 {
        assert(words(rows[2])[3] == x);
        assert(word_fits(words(rows[2])[3], x, true, true));
        law_lookup_finds_fitting_rows(first_consonant_seqs(), x, true, true, 2usize);
        assert(spec_lookup(first_consonant_seqs(), x, true, true).contains(2usize));
    } else if i == 15 {
        assert(words(rows[2])[4] == x);
        assert(word_fits(words(rows[2])[4], x, true, true));
        law_lookup_finds_fitting_rows(first_consonant_seqs(), x, true, true, 2usize);
        assert(spec_lookup(first_consonant_seqs(), x, true, true).contains(2usize));
    } else if i == 16 {
        assert(words(rows[0])[7] == x);
        assert(word_fits(words(rows[0])[7], x, true, true));
        law_lookup_finds_fitting_rows(first_consonant_seqs(), x, true, true, 0usize);
        assert(spec_lookup(first_consonant_seqs(), x, true, true).contains(0usize));
    } else if i == 17 {
        assert(words(rows[0])[8] == x);
        assert(word_fits(words(rows[0])[8], x, true, true));
        law_lookup_finds_fitting_rows(first_consonant_seqs(), x, true, true, 0usize);
        assert(spec_lookup(first_consonant_seqs(), x, true, true).contains(0usize));
    } else if i == 18 {
        assert(words(rows[0])[9] == x);
        assert(word_fits(words(rows[0])[9], x, true, true));
        law_lookup_finds_fitting_rows(first_consonant_seqs(), x, true, true, 0usize);
        assert(spec_lookup(first_consonant_seqs(), x, true, true).contains(0usize));
    } else if i == 19 {
        assert(words(rows[1])[4] == x);
        assert(word_fits(words(rows[1])[4], x, true, true));
        law_lookup_finds_fitting_rows(first_consonant_seqs(), x, true, true, 1usize);
        assert(spec_lookup(first_consonant_seqs(), x, true, true).contains(1usize));
    } else if i == 20 {
        assert(words(rows[0])[10] == x);
        assert(word_fits(words(rows[0])[10], x, true, true));
        law_lookup_finds_fitting_rows(first_consonant_seqs(), x, true, true, 0usize);
        assert(spec_lookup(first_consonant_seqs(), x, true, true).contains(0usize));
    } else if i == 21 {
        assert(words(rows[0])[11] == x);
        assert(word_fits(words(rows[0])[11], x, true, true));
        law_lookup_finds_fitting_rows(first_consonant_seqs(), x, true, true, 0usize);
        assert(spec_lookup(first_consonant_seqs(), x, true, true).contains(0usize));
    } else if i == 22 {
        assert(words(rows[0])[12] == x);
        assert(word_fits(words(rows[0])[12], x, true, true));
        law_lookup_finds_fitting_rows(first_consonant_seqs(), x, true, true, 0usize);
        assert(spec_lookup(first_consonant_seqs(), x, true, true).contains(0usize));
    } else if i == 23 {
        assert(words(rows[1])[5] == x);
        assert(word_fits(words(rows[1])[5], x, true, true));
        law_lookup_finds_fitting_rows(first_consonant_seqs(), x, true, true, 1usize);
        assert(spec_lookup(first_consonant_seqs(), x, true, true).contains(1usize));
    } else if i == 24 {
        assert(words(rows[0])[13] == x);
        assert(word_fits(words(rows[0])[13], x, true, true));
        law_lookup_finds_fitting_rows(first_consonant_seqs(), x, true, true, 0usize);
        assert(spec_lookup(first_consonant_seqs(), x, true, true).contains(0usize));
    } else if i == 25 {
        assert(words(rows[0])[14] == x);
        assert(word_fits(words(rows[0])[14], x, true, true));
        law_lookup_finds_fitting_rows(first_consonant_seqs(), x, true, true, 0usize);
        assert(spec_lookup(first_consonant_seqs(), x, true, true).contains(0usize));
    } else if i == 26 {
        assert(words(rows[2])[5] == x);
        assert(word_fits(words(rows[2])[5], x, true, true));
        law_lookup_finds_fitting_rows(first_consonant_seqs(), x, true, true, 2usize);
        assert(spec_lookup(first_consonant_seqs(), x, true, true).contains(2usize));
    }
    lemma_lookup_weaker(first_consonant_seqs(), x, true, true, input_is_full, input_is_complete);
}
proof fn lemma_vowel_rows()
    ensures
        words(rows_view(vowel_seqs())[0]) == seq![seq!['ê'], seq!['i'], seq!['u', 'a'], seq!['u', 'ê'], seq!['u', 'y'], seq!['y']],
        words(rows_view(vowel_seqs())[2]) == seq![seq!['â'], seq!['ă'], seq!['e'], seq!['o'], seq!['o', 'o'], seq!['ô'], seq!['ơ'], seq!['o', 'e'], seq!['u'], seq!['ư'], seq!['u', 'â'], seq!['u', 'ô'], seq!['ư', 'ơ']],
{
    reveal_strlit("ê i ua uê uy y");
    reveal_strlit("â ă e o oo ô ơ oe u ư uâ uô ươ");
    reveal_with_fuel(join_words, 14);
    let ws0: Seq<Seq<char>> = seq![seq!['ê'], seq!['i'], seq!['u', 'a'], seq!['u', 'ê'], seq!['u', 'y'], seq!['y']];
    assert forall|k: int| 0 <= k < ws0.len() implies is_word(#[trigger] ws0[k]) by {}
    assert(rows_view(vowel_seqs())[0] == "ê i ua uê uy y"@);
    assert("ê i ua uê uy y"@ =~= join_words(ws0));
    lemma_words_of_join(ws0);
    let ws2: Seq<Seq<char>> = seq![seq!['â'], seq!['ă'], seq!['e'], seq!['o'], seq!['o', 'o'], seq!['ô'], seq!['ơ'], seq!['o', 'e'], seq!['u'], seq!['ư'], seq!['u', 'â'], seq!['u', 'ô'], seq!['ư', 'ơ']];
    assert forall|k: int| 0 <= k < ws2.len() implies is_word(#[trigger] ws2[k]) by {}
    assert(rows_view(vowel_seqs())[2] == "â ă e o oo ô ơ oe u ư uâ uô ươ"@);
    assert("â ă e o oo ô ơ oe u ư uâ uô ươ"@ =~= join_words(ws2));
    lemma_words_of_join(ws2);
}

/// `ngh` followed by `e`, `ê` or `i` is a valid syllable, even under the strict check.
pub proof fn law_ngh_before_front_vowels(v: char)
    requires
        v == 'e' || v == 'ê' || v == 'i',
    ensures
        spec_is_valid_cvc(seq!['n', 'g', 'h'], seq![v], Seq::empty(), true),
        spec_is_valid_cvc(seq!['n', 'g', 'h'], seq![v], Seq::empty(), false),
{
    lemma_first_consonant_rows();
    lemma_vowel_rows();
    let fc = seq!['n', 'g', 'h'];
    let vo = seq![v];
    let frows = rows_view(first_consonant_seqs());
    let vrows = rows_view(vowel_seqs());
    assert(words(frows[2])[4] == fc);
    assert(word_fits(words(frows[2])[4], fc, true, true));
    law_lookup_finds_fitting_rows(first_consonant_seqs(), fc, true, true, 2usize);
    let fci = spec_lookup(first_consonant_seqs(), fc, true, true);
    let voi = spec_lookup(vowel_seqs(), vo, true, true);
    assert(fci.contains(2usize));
    let vr: usize = if v == 'e' { 2 } else { 0 };
    if v == 'e' {
        assert(words(vrows[2])[2] == vo);
        assert(word_fits(words(vrows[2])[2], vo, true, true));
    } else if v == 'ê' {
        assert(words(vrows[0])[0] == vo);
        assert(word_fits(words(vrows[0])[0], vo, true, true));
    } else {
        assert(words(vrows[0])[1] == vo);
        assert(word_fits(words(vrows[0])[1], vo, true, true));
    }
    law_lookup_finds_fitting_rows(vowel_seqs(), vo, true, true, vr);
    assert(voi.contains(vr));
    let a = choose|a: int| 0 <= a < fci.len() && fci[a] == 2usize;
    let b = choose|b: int| 0 <= b < voi.len() && voi[b] == vr;
    assert(cv_matrix()[2].contains(vr)) by {
        if vr == 2 {
            assert(cv_matrix()[2][2] == 2usize);
        } else {
            assert(cv_matrix()[2][0] == 0usize);
        }
    }
    assert(table_allows(cv_matrix(), fci, voi)) by {
        assert(cv_matrix()[fci[a] as int].contains(voi[b]));
    }
    law_strict_check_implies_lenient(fc, vo, Seq::empty());
}

} // verus!
