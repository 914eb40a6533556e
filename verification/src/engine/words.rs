//! Where the last word and the last syllable of a composition begin.

use vstd::prelude::*;
use crate::charset::{contains_char, is_alpha, spec_is_alpha};
use super::canvas::{canvas, canvas_range, comp_model, TransModel, Transformation};
use super::tone::{is_valid_slice, spec_is_valid_slice};
use super::{ENGLISH_MODE, LOWER_CASE, MARK_LESS, TONE_LESS, VIETNAMESE_MODE};

verus! {

/// The mode in which word boundaries are read: Vietnamese, lower case, without tone or mark.
pub open spec fn boundary_mode() -> u32 {
    VIETNAMESE_MODE | LOWER_CASE | TONE_LESS | MARK_LESS
}

/// Scanning down from position `i`, the position just after the last suffix whose text, keys
/// as typed, starts with a space; 0 when there is none.
pub open spec fn punct_word_start_from(c: Seq<TransModel>, i: int) -> int
    decreases i,
{
    if i <= 0 {
        0
    } else {
        let j = i - 1;
        let cv = canvas(c.subrange(j, c.len() as int), ENGLISH_MODE);
        if cv.len() > 0 && cv[0] == ' ' {
            j + 1
        } else {
            punct_word_start_from(c, j)
        }
    }
}

/// Scanning down from position `i`, the position just after the last suffix whose text
/// starts with a character that is neither an ASCII letter nor a key of the input method;
/// 0 when there is none.
pub open spec fn word_start_from(c: Seq<TransModel>, keys: Seq<char>, i: int) -> int
    decreases i,
{
    if i <= 0 {
        0
    } else {
        let j = i - 1;
        let cv = canvas(c.subrange(j, c.len() as int), boundary_mode());
        if cv.len() > 0 && !spec_is_alpha(cv[0]) && !keys.contains(cv[0]) {
            j + 1
        } else {
            word_start_from(c, keys, j)
        }
    }
}

/// Both word starts lie in the composition.
pub proof fn lemma_word_starts(c: Seq<TransModel>, keys: Seq<char>, i: int)
    requires
        0 <= i <= c.len(),
    ensures
        0 <= punct_word_start_from(c, i) <= i,
        0 <= word_start_from(c, keys, i) <= i,
    decreases i,
{
    if i > 0 {
        lemma_word_starts(c, keys, i - 1);
    }
}

/// Locates the beginning index of the last word in composition, treating punctuation marks as word boundary markers.
pub fn extract_last_word_with_punctuation_marks_start(composition: &[Transformation], _effect_keys: &[char]) -> (r:
    usize)
    ensures
        r == punct_word_start_from(comp_model(composition@), composition@.len() as int),
        r <= composition@.len(),
{
    let ghost c = comp_model(composition@);
    proof {
        lemma_word_starts(c, _effect_keys@, c.len() as int);
    }
    let n = composition.len();
    let mut i = n;
    while i > 0
        invariant
            i <= n,
            n == composition@.len(),
            c == comp_model(composition@),
            punct_word_start_from(c, n as int) == punct_word_start_from(c, i as int),
        decreases i,
    {
        let canvas_chars = canvas_range(composition, i - 1, n, ENGLISH_MODE);
        if canvas_chars.len() > 0 && canvas_chars[0] == ' ' {
            return i;
        }
        i = i - 1;
    }
    0
}

/// Locates the beginning index of the last word in the composition history.
pub fn extract_last_word_start(composition: &[Transformation], effect_keys: &[char]) -> (r: usize)
    ensures
        r == word_start_from(comp_model(composition@), effect_keys@, composition@.len() as int),
        r <= composition@.len(),
{
    let ghost c = comp_model(composition@);
    proof {
        lemma_word_starts(c, effect_keys@, c.len() as int);
    }
    let n = composition.len();
    let mut i = n;
    while i > 0
        invariant
            i <= n,
            n == composition@.len(),
            c == comp_model(composition@),
            word_start_from(c, effect_keys@, n as int) == word_start_from(c, effect_keys@, i as int),
        decreases i,
    {
        let canvas_chars = canvas_range(
            composition,
            i - 1,
            n,
            VIETNAMESE_MODE | LOWER_CASE | TONE_LESS | MARK_LESS,
        );
        if canvas_chars.len() > 0 {
            let ch = canvas_chars[0];
            if !is_alpha(ch) && !contains_char(effect_keys, ch) {
                return i;
            }
        }
        i = i - 1;
    }
    0
}

/// Where the last syllable of a word begins, relative to the word: scanning the word's
/// transformations in order, the anchor moves to position `i` whenever the transformations
/// from the anchor to `i`, read as a composition of their own, are not a valid beginning
/// of a syllable.
pub open spec fn syllable_anchor(last: Seq<TransModel>, n: int) -> int
    decreases n,
{
    if n <= 0 {
        0
    } else {
        let a = syllable_anchor(last, n - 1);
        let i = n - 1;
        if !spec_is_valid_slice(last.subrange(a, i + 1), 0, false) {
            i
        } else {
            a
        }
    }
}

/// The anchor never passes the position being read.
pub proof fn lemma_syllable_anchor(last: Seq<TransModel>, n: int)
    requires
        0 <= n,
    ensures
        0 <= syllable_anchor(last, n) <= if n == 0 { 0 } else { n - 1 },
    decreases n,
{
    if n > 0 {
        lemma_syllable_anchor(last, n - 1);
    }
}

/// The start of the last syllable: the start of the last word plus the syllable anchor.
pub open spec fn syllable_start(c: Seq<TransModel>, keys: Seq<char>) -> int {
    let start = word_start_from(c, keys, c.len() as int);
    let last = c.subrange(start, c.len() as int);
    start + syllable_anchor(last, last.len() as int)
}

/// Locates the beginning index of the last syllable in the composition history.
pub fn extract_last_syllable_start(composition: &[Transformation], effect_keys: &[char]) -> (r: usize)
    ensures
        r == syllable_start(comp_model(composition@), effect_keys@),
        r <= composition@.len(),
{
    let ghost c = comp_model(composition@);
    let start = extract_last_word_start(composition, effect_keys);
    let n = composition.len();
    let last = vstd::slice::slice_subrange(composition, start, n);
    assert(comp_model(last@) =~= c.subrange(start as int, n as int));
    let mut anchor: usize = 0;
    let mut i: usize = 0;
    while i < last.len()
        invariant
            i <= last@.len(),
            comp_model(last@) == c.subrange(start as int, n as int),
            anchor == syllable_anchor(comp_model(last@), i as int),
            anchor <= i,
            i > 0 ==> anchor < i,
        decreases last@.len() - i,
    {
        let piece = vstd::slice::slice_subrange(last, anchor, i + 1);
        assert(comp_model(piece@) =~= comp_model(last@).subrange(anchor as int, i + 1));
        if !is_valid_slice(piece, 0, false) {
            anchor = i;
        }
        i = i + 1;
    }
    start + anchor
}

} // verus!
