//! What keystrokes do to the text, stated over the model of the composition.

use vstd::prelude::*;
use crate::charset::{ascii_lower, spec_can_process_key, spec_is_ascii_upper, upper_letter};
use crate::rules::{EffectType, InputMethodModel};
use super::canvas::{
    appending_trans, applies_to, base_char, canvas, canvas_upto, effects_upto, finish_char,
    has_flag, last_appending, writes_char, TransModel,
};
use super::keystroke::{double_typing, raw_trans, spec_generate};
use super::shape::{law_keystroke_keeps_targets_earlier, targets_earlier};
use super::words::syllable_start;
use super::{
    spec_process_key, spec_remove_last_char, ENGLISH_MODE, IN_REVERSE_ORDER, LOWER_CASE,
    MARK_LESS, TONE_LESS,
};

verus! {

/// The composition after typing keys one after the other in a mode.
pub open spec fn type_keys(
    c: Seq<TransModel>,
    im: InputMethodModel,
    flags: u32,
    keys: Seq<char>,
    mode: u32,
) -> Seq<TransModel>
    decreases keys.len(),
{
    if keys.len() == 0 {
        c
    } else {
        spec_process_key(type_keys(c, im, flags, keys.drop_last(), mode), im, flags, keys.last(), mode)
    }
}

/// A reading mode that writes letters as they are: no tone or mark is dropped and the case
/// is kept.
pub open spec fn verbatim_mode(m: u32) -> bool {
    !has_flag(m, TONE_LESS) && !has_flag(m, MARK_LESS) && !has_flag(m, LOWER_CASE)
}

/// A keystroke that the engine writes as it is: in English mode, or a key that the input
/// method does not take, appended at the end.
pub open spec fn plain_keystroke(im: InputMethodModel, key: char, mode: u32) -> bool {
    &&& has_flag(mode, ENGLISH_MODE) || !spec_can_process_key(ascii_lower(key), im.keys)
    &&& !has_flag(mode, IN_REVERSE_ORDER)
}

proof fn lemma_effects_push(c: Seq<TransModel>, t: TransModel, i: int, n: int)
    requires
        0 <= i < c.len(),
        0 <= n <= c.len(),
    ensures
        effects_upto(c.push(t), i, n) == effects_upto(c, i, n),
    decreases n,
{
    if n > 0 {
        lemma_effects_push(c, t, i, n - 1);
        assert(c.push(t)[n - 1] == c[n - 1]);
    }
    assert(c.push(t)[i] == c[i]);
}

/// Appending a transformation that does not change the letter at `i` keeps what is
/// written for it.
proof fn lemma_base_char_push(c: Seq<TransModel>, t: TransModel, i: int, m: u32)
    requires
        0 <= i < c.len(),
        !applies_to(t, i),
    ensures
        base_char(c.push(t), i, m) == base_char(c, i, m),
{
    lemma_effects_push(c, t, i, c.len() as int);
    assert(c.push(t)[i] == c[i]);
}

/// The text written by the first `n` transformations does not change when a transformation
/// that changes none of their letters is appended.
proof fn lemma_canvas_upto_push(c: Seq<TransModel>, t: TransModel, m: u32, n: int)
    requires
        0 <= n <= c.len(),
        forall|j: int| 0 <= j < n ==> !applies_to(t, j),
    ensures
        canvas_upto(c.push(t), m, n) == canvas_upto(c, m, n),
    decreases n,
{
    if n > 0 {
        lemma_canvas_upto_push(c, t, m, n - 1);
        lemma_base_char_push(c, t, n - 1, m);
        assert(c.push(t)[n - 1] == c[n - 1]);
    }
}

/// The letter of a key, written back with the case it was typed in, is the key.
proof fn lemma_key_written_back(key: char, m: u32)
    requires
        verbatim_mode(m),
    ensures
        finish_char(ascii_lower(key), spec_is_ascii_upper(key), m) == key,
{
    if spec_is_ascii_upper(key) {
        let l = ascii_lower(key);
        assert('a' <= l && l <= 'z');
        assert(upper_letter(l) == key);
    }
}

/// A keystroke in English mode, or of a key that the input method does not take, adds
/// exactly that key at the end of the text, and changes nothing else in it.
pub proof fn law_plain_key_appends(
    c: Seq<TransModel>,
    im: InputMethodModel,
    flags: u32,
    key: char,
    mode: u32,
    m: u32,
)
    requires
        c.len() < usize::MAX,
        targets_earlier(c),
        plain_keystroke(im, key, mode),
        key != '\0',
        verbatim_mode(m),
    ensures
        canvas(spec_process_key(c, im, flags, key, mode), m) == canvas(c, m).push(key),
        targets_earlier(spec_process_key(c, im, flags, key, mode)),
{
    let t = appending_trans(ascii_lower(key), spec_is_ascii_upper(key));
    let nc = c.push(t);
    assert(spec_process_key(c, im, flags, key, mode) == nc);
    lemma_canvas_upto_push(c, t, m, c.len() as int);
    assert(nc[c.len() as int] == t);
    assert(ascii_lower(key) != '\0');
    assert(writes_char(t));
    assert(effects_upto(nc, c.len() as int, 0) == ascii_lower(key));
    assert(effects_upto(nc, c.len() as int, c.len() as int) == ascii_lower(key)) by {
        assert forall|j: int| 0 <= j < c.len() implies nc[j].target != Some(c.len() as usize) by {
            assert(nc[j] == c[j]);
        }
        lemma_effects_fresh(nc, c.len() as int, c.len() as int);
    }
    assert forall|j: int| 0 <= j < nc.len() implies (#[trigger] nc[j].target matches Some(x) ==> x < j) by {
        if j < c.len() {
            assert(nc[j] == c[j]);
        }
    }
    assert(effects_upto(nc, c.len() as int, nc.len() as int) == ascii_lower(key));
    assert(base_char(nc, c.len() as int, m) == ascii_lower(key));
    lemma_key_written_back(key, m);
}

/// No transformation before position `i` changes the letter appended there.
proof fn lemma_effects_fresh(c: Seq<TransModel>, i: int, n: int)
    requires
        0 <= n <= i < c.len(),
        forall|j: int| 0 <= j < i ==> c[j].target != Some(i as usize) || c[j].rule.effect_type
            == EffectType::Appending,
    ensures
        effects_upto(c, i, n) == c[i].rule.effect_on,
    decreases n,
{
    if n > 0 {
        lemma_effects_fresh(c, i, n - 1);
    }
}

/// Typing in English mode leaves only transformations without a target.
proof fn lemma_typed_targets_earlier(im: InputMethodModel, flags: u32, keys: Seq<char>, mode: u32)
    requires
        has_flag(mode, ENGLISH_MODE),
        !has_flag(mode, IN_REVERSE_ORDER),
    ensures
        targets_earlier(type_keys(Seq::empty(), im, flags, keys, mode)),
        type_keys(Seq::empty(), im, flags, keys, mode).len() == keys.len(),
    decreases keys.len(),
{
    if keys.len() > 0 {
        lemma_typed_targets_earlier(im, flags, keys.drop_last(), mode);
        let c = type_keys(Seq::empty(), im, flags, keys.drop_last(), mode);
        let nc = type_keys(Seq::empty(), im, flags, keys, mode);
        assert forall|j: int| 0 <= j < nc.len() implies (#[trigger] nc[j].target matches Some(t) ==> t < j) by {
            if j < c.len() {
                assert(nc[j] == c[j]);
            }
        }
    }
}

/// Typing keys in English mode writes them as they were typed.
pub proof fn law_english_typing_is_verbatim(
    im: InputMethodModel,
    flags: u32,
    keys: Seq<char>,
    mode: u32,
    m: u32,
)
    requires
        keys.len() < usize::MAX,
        has_flag(mode, ENGLISH_MODE),
        !has_flag(mode, IN_REVERSE_ORDER),
        !keys.contains('\0'),
        verbatim_mode(m),
    ensures
        canvas(type_keys(Seq::empty(), im, flags, keys, mode), m) == keys,
    decreases keys.len(),
{
    if keys.len() == 0 {
        assert(canvas(Seq::<TransModel>::empty(), m) =~= keys);
    } else {
        assert(!keys.drop_last().contains('\0')) by {
            if keys.drop_last().contains('\0') {
                let k = choose|k: int| 0 <= k < keys.drop_last().len() && keys.drop_last()[k] == '\0';
                assert(keys[k] == '\0');
            }
        }
        law_english_typing_is_verbatim(im, flags, keys.drop_last(), mode, m);
        lemma_typed_targets_earlier(im, flags, keys.drop_last(), mode);
        assert(keys[keys.len() - 1] == keys.last());
        law_plain_key_appends(type_keys(Seq::empty(), im, flags, keys.drop_last(), mode), im, flags, keys.last(), mode, m);
        assert(keys.drop_last().push(keys.last()) =~= keys);
    }
}

/// Removing the last character right after a keystroke of a key that the input method does
/// not take gives back the composition from before the keystroke.
pub proof fn law_backspace_undoes_plain_key(
    c: Seq<TransModel>,
    im: InputMethodModel,
    flags: u32,
    key: char,
    mode: u32,
    refresh_last_tone: bool,
)
    requires
        !spec_can_process_key(ascii_lower(key), im.keys),
        !has_flag(mode, IN_REVERSE_ORDER),
    ensures
        spec_remove_last_char(spec_process_key(c, im, flags, key, mode), im, flags, refresh_last_tone) == c,
{
    let t = appending_trans(ascii_lower(key), spec_is_ascii_upper(key));
    let nc = c.push(t);
    assert(spec_process_key(c, im, flags, key, mode) == nc);
    assert(nc.last() == t);
    assert(last_appending(nc) == Some(c.len() as int));
    assert(nc.drop_last() =~= c);
}

/// Typing again, in Vietnamese mode, the key that last turned into another letter (Telex
/// `w` into `ư`, `[` into `ơ`) undoes it: the letter becomes the key itself, with the case
/// it was first typed in, and the rest of the text stays.
pub proof fn law_double_typing_restores_key(
    c: Seq<TransModel>,
    im: InputMethodModel,
    flags: u32,
    key: char,
    mode: u32,
    m: u32,
)
    requires
        c.len() < usize::MAX,
        key != '\0',
        !has_flag(mode, ENGLISH_MODE),
        spec_can_process_key(ascii_lower(key), im.keys),
        double_typing(c, syllable_start(c, im.keys), ascii_lower(key)),
        !has_flag(m, ENGLISH_MODE),
    ensures
        spec_process_key(c, im, flags, key, mode) == c.push(
            raw_trans((c.len() - 1) as usize, spec_is_ascii_upper(key)),
        ),
        canvas(spec_process_key(c, im, flags, key, mode), m) == canvas(c, m).drop_last().push(
            finish_char(ascii_lower(key), c.last().is_upper_case, m),
        ),
{
    let n = c.len() as int;
    let t = raw_trans((n - 1) as usize, spec_is_ascii_upper(key));
    let nc = c.push(t);
    let start = syllable_start(c, im.keys);
    assert(spec_generate(
        c,
        start,
        super::keystroke::applicable_rules(im.rules, ascii_lower(key)),
        im,
        flags,
        ascii_lower(key),
        spec_is_ascii_upper(key),
    ) == seq![t]);
    assert(spec_process_key(c, im, flags, key, mode) =~= nc);
    // The letters before the last one are written as before.
    assert forall|j: int| 0 <= j < n - 1 implies !applies_to(t, j) by {
        assert(j as usize != (n - 1) as usize);
    }
    lemma_canvas_upto_push(c, t, m, n - 1);
    // The last letter becomes the key.
    lemma_effects_push(c, t, n - 1, n);
    assert(nc[n] == t);
    assert(applies_to(t, n - 1));
    assert(effects_upto(nc, n - 1, n + 1) == ascii_lower(key));
    assert(nc[n - 1] == c.last());
    assert(writes_char(c.last()));
    assert(!writes_char(t));
    assert(canvas_upto(nc, m, n + 1) == canvas_upto(nc, m, n));
    assert(canvas_upto(c, m, n) == canvas_upto(c, m, n - 1).push(
        finish_char(base_char(c, n - 1, m), c.last().is_upper_case, m),
    ));
    assert(canvas_upto(c, m, n).drop_last() =~= canvas_upto(c, m, n - 1));
}

proof fn lemma_canvas_upto_prepend(c: Seq<TransModel>, t: TransModel, m: u32, n: int)
    requires
        0 <= n <= c.len(),
        has_flag(m, ENGLISH_MODE),
    ensures
        canvas_upto(seq![t] + c, m, n + 1) == canvas_upto(seq![t], m, 1) + canvas_upto(c, m, n),
    decreases n,
{
    let nc = seq![t] + c;
    if n > 0 {
        lemma_canvas_upto_prepend(c, t, m, n - 1);
        assert(nc[n] == c[n - 1]);
        assert(base_char(nc, n, m) == base_char(c, n - 1, m));
        assert(canvas_upto(nc, m, n + 1) =~= canvas_upto(seq![t], m, 1) + canvas_upto(c, m, n));
    } else {
        assert(nc[0] == t);
        assert(seq![t][0] == t);
        assert(base_char(nc, 0, m) == base_char(seq![t], 0, m));
        assert(canvas_upto(c, m, 0) =~= Seq::<char>::empty());
        assert(canvas_upto(nc, m, 0) =~= Seq::<char>::empty());
        assert(canvas_upto(seq![t], m, 0) =~= Seq::<char>::empty());
        assert(canvas_upto(nc, m, 1) =~= canvas_upto(seq![t], m, 1) + canvas_upto(c, m, 0));
    }
}

/// In English mode with keys taken in reverse order, a keystroke puts exactly the key at
/// the front of the text read in English mode.
pub proof fn law_reverse_order_prepends(
    c: Seq<TransModel>,
    im: InputMethodModel,
    flags: u32,
    key: char,
    mode: u32,
    m: u32,
)
    requires
        has_flag(mode, ENGLISH_MODE),
        has_flag(mode, IN_REVERSE_ORDER),
        key != '\0',
        has_flag(m, ENGLISH_MODE),
        verbatim_mode(m),
    ensures
        canvas(spec_process_key(c, im, flags, key, mode), m) == seq![key] + canvas(c, m),
{
    let t = appending_trans(ascii_lower(key), spec_is_ascii_upper(key));
    let nc = seq![t] + c;
    assert(spec_process_key(c, im, flags, key, mode) == nc);
    lemma_canvas_upto_prepend(c, t, m, c.len() as int);
    assert(seq![t][0] == t);
    assert(ascii_lower(key) != '\0');
    lemma_key_written_back(key, m);
    assert(base_char(seq![t], 0, m) == ascii_lower(key));
    assert(writes_char(seq![t][0]));
    assert(canvas_upto(seq![t], m, 0) =~= Seq::<char>::empty());
    assert(canvas_upto(seq![t], m, 1) =~= seq![key]);
}

proof fn lemma_typed_len(im: InputMethodModel, flags: u32, keys: Seq<char>, mode: u32, n: int)
    requires
        0 <= n <= keys.len(),
    ensures
        type_keys(Seq::empty(), im, flags, keys.take(n), mode).len() <= type_keys(Seq::empty(), im, flags, keys, mode).len(),
    decreases keys.len() - n,
{
    if n < keys.len() {
        lemma_typed_len(im, flags, keys, mode, n + 1);
        let p = keys.take(n + 1);
        assert(p.drop_last() =~= keys.take(n));
    } else {
        assert(keys.take(n) =~= keys);
    }
}

/// Typing any keys from an empty composition leaves only transformations that target
/// letters typed before them (for compositions that fit in memory).
pub proof fn law_typing_keeps_targets_earlier(im: InputMethodModel, flags: u32, keys: Seq<char>, mode: u32)
    requires
        type_keys(Seq::empty(), im, flags, keys, mode).len() < usize::MAX,
    ensures
        targets_earlier(type_keys(Seq::empty(), im, flags, keys, mode)),
    decreases keys.len(),
{
    if keys.len() > 0 {
        lemma_typed_len(im, flags, keys, mode, keys.len() - 1);
        assert(keys.take(keys.len() - 1) =~= keys.drop_last());
        law_typing_keeps_targets_earlier(im, flags, keys.drop_last(), mode);
        law_keystroke_keeps_targets_earlier(type_keys(Seq::empty(), im, flags, keys.drop_last(), mode), im, flags, keys.last(), mode);
    }
}

/// The keys typed for some transformations, in order, each written with the case it was
/// typed in: those without key are left out.
pub open spec fn key_text(last: Seq<TransModel>, m: u32) -> Seq<char>
    decreases last.len(),
{
    if last.len() == 0 {
        Seq::empty()
    } else {
        key_text(last.drop_last(), m) + if last.last().rule.key != '\0' {
            seq![finish_char(last.last().rule.key, last.last().is_upper_case, m)]
        } else {
            Seq::empty()
        }
    }
}

proof fn lemma_english_canvas_upto_concat(a: Seq<TransModel>, b: Seq<TransModel>, m: u32, k: int)
    requires
        has_flag(m, ENGLISH_MODE),
        0 <= k <= b.len(),
    ensures
        canvas_upto(a + b, m, a.len() + k) == canvas(a, m) + canvas_upto(b, m, k),
    decreases k,
{
    if k > 0 {
        lemma_english_canvas_upto_concat(a, b, m, k - 1);
        assert((a + b)[a.len() + k - 1] == b[k - 1]);
        assert(base_char(a + b, a.len() + k - 1, m) == base_char(b, k - 1, m));
        assert(canvas_upto(a + b, m, a.len() + k) =~= canvas(a, m) + canvas_upto(b, m, k));
    } else {
        lemma_english_canvas_prefix(a, b, m, a.len() as int);
        assert(canvas_upto(b, m, 0) =~= Seq::<char>::empty());
        assert(canvas(a, m) + canvas_upto(b, m, 0) =~= canvas(a, m));
    }
}

proof fn lemma_english_canvas_prefix(a: Seq<TransModel>, b: Seq<TransModel>, m: u32, n: int)
    requires
        has_flag(m, ENGLISH_MODE),
        0 <= n <= a.len(),
    ensures
        canvas_upto(a + b, m, n) == canvas_upto(a, m, n),
    decreases n,
{
    if n > 0 {
        lemma_english_canvas_prefix(a, b, m, n - 1);
        assert((a + b)[n - 1] == a[n - 1]);
    }
}

/// Read in English mode, the text of two compositions one after the other is their texts
/// one after the other.
proof fn lemma_english_canvas_concat(a: Seq<TransModel>, b: Seq<TransModel>, m: u32)
    requires
        has_flag(m, ENGLISH_MODE),
    ensures
        canvas(a + b, m) == canvas(a, m) + canvas(b, m),
{
    lemma_english_canvas_upto_concat(a, b, m, b.len() as int);
}

proof fn lemma_raw_keys_text(last: Seq<TransModel>, m: u32)
    requires
        has_flag(m, ENGLISH_MODE),
    ensures
        canvas(super::raw_keys(last), m) == key_text(last, m),
    decreases last.len(),
{
    if last.len() > 0 {
        let init = last.drop_last();
        lemma_raw_keys_text(init, m);
        let t = last.last();
        if t.rule.key != '\0' {
            let a = appending_trans(t.rule.key, t.is_upper_case);
            lemma_english_canvas_concat(super::raw_keys(init), seq![a], m);
            assert(seq![a][0] == a);
            assert(canvas_upto(seq![a], m, 0) =~= Seq::<char>::empty());
            assert(canvas(seq![a], m) =~= seq![finish_char(t.rule.key, t.is_upper_case, m)]);
        } else {
            assert(super::raw_keys(last) =~= super::raw_keys(init));
            assert(key_text(last, m) =~= key_text(init, m));
        }
    }
}

/// Restoring the last word to raw keys writes, read in English mode, the text before the
/// word followed by every key typed for the word, in the case it was typed in.
pub proof fn law_restore_writes_typed_keys(c: Seq<TransModel>, im: InputMethodModel, flags: u32, m: u32)
    requires
        has_flag(m, ENGLISH_MODE),
    ensures
        ({
            let start = super::words::word_start_from(c, im.keys, c.len() as int);
            canvas(super::spec_restore_last_word(c, im, flags, false), m) == canvas(c.subrange(0, start), m)
                + key_text(c.subrange(start, c.len() as int), m)
        }),
{
    let start = super::words::word_start_from(c, im.keys, c.len() as int);
    super::words::lemma_word_starts(c, im.keys, c.len() as int);
    if start == c.len() {
        assert(c.subrange(0, start) =~= c);
        assert(c.subrange(start, c.len() as int) =~= Seq::<TransModel>::empty());
        assert(canvas(c, m) + Seq::<char>::empty() =~= canvas(c, m));
    } else {
        let head = c.subrange(0, start);
        let last = c.subrange(start, c.len() as int);
        lemma_english_canvas_concat(head, super::raw_keys(last), m);
        lemma_raw_keys_text(last, m);
    }
}

} // verus!
