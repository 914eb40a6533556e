//! Every keystroke keeps the shape of a composition: a transformation that targets a letter
//! targets one typed before it.

use vstd::prelude::*;
use crate::rules::{EffectType, InputMethodModel, RuleModel};
use super::canvas::{appending_trans, canvas, has_flag, last_appending, lemma_last_appending, TransModel};
use super::keystroke::{
    applicable_rules, mark_scan, mark_scan_rules, phase_a, phase_b, spec_apply_uow, spec_fallback,
    spec_find_target, spec_generate, spec_generate_undo, tone_rule_target,
    tone_scan, uh_o_shortcut, undo_marks_from, undo_scan, first_appending_rule,
};
use super::syllable::{
    all_in, atomic_split, cvc_appending, cvc_indices, filter_appending, root_target,
    targeting_upto, untargeted_upto, with_targeting,
};
use super::tone::{last_tone_trans, spec_find_tone_target, spec_refresh_last_tone_target, std_pick};
use super::words::{lemma_syllable_anchor, lemma_word_starts, syllable_start, word_start_from};
use super::{spec_process_key, ENGLISH_MODE, ESTD_TONE_STYLE, IN_REVERSE_ORDER};
use crate::charset::{ascii_lower, spec_can_process_key, spec_is_ascii_upper};

verus! {

/// Every transformation that targets a position targets an earlier one.
pub open spec fn targets_earlier(c: Seq<TransModel>) -> bool {
    forall|j: int| 0 <= j < c.len() ==> (#[trigger] c[j].target matches Some(t) ==> t < j)
}

/// Every target of the transformations is below a bound.
pub open spec fn targets_under(add: Seq<TransModel>, bound: int) -> bool {
    forall|k: int| 0 <= k < add.len() ==> (#[trigger] add[k].target matches Some(t) ==> t < bound)
}

/// Appended after `base` transformations, each of these targets an earlier position.
pub open spec fn targets_below(add: Seq<TransModel>, base: int) -> bool {
    forall|k: int| 0 <= k < add.len() ==> (#[trigger] add[k].target matches Some(t) ==> t < base + k)
}

proof fn lemma_concat_targets(c: Seq<TransModel>, add: Seq<TransModel>)
    requires
        targets_earlier(c),
        targets_below(add, c.len() as int),
    ensures
        targets_earlier(c + add),
{
    let r = c + add;
    assert forall|j: int| 0 <= j < r.len() implies (#[trigger] r[j].target matches Some(t) ==> t < j) by {
        if j < c.len() {
            assert(r[j] == c[j]);
        } else {
            assert(r[j] == add[j - c.len()]);
        }
    }
}

proof fn lemma_under_below(add: Seq<TransModel>, bound: int)
    requires
        targets_under(add, bound),
    ensures
        targets_below(add, bound),
{
    assert forall|k: int| 0 <= k < add.len() implies (#[trigger] add[k].target matches Some(t) ==> t < bound + k) by {}
}

proof fn lemma_below_concat(a: Seq<TransModel>, b: Seq<TransModel>, base: int)
    requires
        targets_below(a, base),
        targets_below(b, base + a.len()),
    ensures
        targets_below(a + b, base),
{
    let r = a + b;
    assert forall|k: int| 0 <= k < r.len() implies (#[trigger] r[k].target matches Some(t) ==> t < base + k) by {
        if k < a.len() {
            assert(r[k] == a[k]);
        } else {
            assert(r[k] == b[k - a.len()]);
        }
    }
}

pub(crate) proof fn lemma_untargeted_in(c: Seq<TransModel>, start: int, n: int)
    requires
        0 <= start,
        n <= c.len() <= usize::MAX,
    ensures
        all_in(untargeted_upto(c, start, n), 0, c.len() as int),
    decreases n - start,
{
    if n > start {
        lemma_untargeted_in(c, start, n - 1);
        let prev = untargeted_upto(c, start, n - 1);
        let cur = untargeted_upto(c, start, n);
        assert forall|k: int| 0 <= k < cur.len() implies 0 <= #[trigger] cur[k] < c.len() by {
            if k < prev.len() {
                assert(cur[k] == prev[k]);
            }
        }
    }
}

pub(crate) proof fn lemma_targeting_in(c: Seq<TransModel>, start: int, t: usize, n: int)
    requires
        0 <= start,
        n <= c.len() <= usize::MAX,
    ensures
        all_in(targeting_upto(c, start, t, n), 0, c.len() as int),
    decreases n - start,
{
    if n > start {
        lemma_targeting_in(c, start, t, n - 1);
        let prev = targeting_upto(c, start, t, n - 1);
        let cur = targeting_upto(c, start, t, n);
        assert forall|k: int| 0 <= k < cur.len() implies 0 <= #[trigger] cur[k] < c.len() by {
            if k < prev.len() {
                assert(cur[k] == prev[k]);
            }
        }
    }
}

pub(crate) proof fn lemma_with_targeting_in(c: Seq<TransModel>, start: int, xs: Seq<usize>)
    requires
        0 <= start,
        c.len() <= usize::MAX,
        all_in(xs, 0, c.len() as int),
    ensures
        all_in(with_targeting(c, start, xs), 0, c.len() as int),
    decreases xs.len(),
{
    if xs.len() > 0 {
        let init = xs.drop_last();
        assert(all_in(init, 0, c.len() as int)) by {
            assert forall|k: int| 0 <= k < init.len() implies 0 <= #[trigger] init[k] < c.len() by {
                assert(init[k] == xs[k]);
            }
        }
        lemma_with_targeting_in(c, start, init);
        lemma_targeting_in(c, start, xs.last(), c.len() as int);
        let a = with_targeting(c, start, init);
        let b = targeting_upto(c, start, xs.last(), c.len() as int);
        let r = with_targeting(c, start, xs);
        assert(r == a + seq![xs.last()] + b);
        assert forall|k: int| 0 <= k < r.len() implies 0 <= #[trigger] r[k] < c.len() by {
            if k < a.len() {
                assert(r[k] == a[k]);
            } else if k == a.len() {
                assert(r[k] == xs.last());
            } else {
                assert(r[k] == b[k - a.len() - 1]);
            }
        }
    }
}

pub(crate) proof fn lemma_atomic_split_in(c: Seq<TransModel>, indices: Seq<usize>, last: Seq<usize>, last_is_vowel: bool, hi: int)
    requires
        all_in(indices, 0, hi),
        all_in(last, 0, hi),
    ensures
        all_in(atomic_split(c, indices, last, last_is_vowel).0, 0, hi),
        all_in(atomic_split(c, indices, last, last_is_vowel).1, 0, hi),
    decreases indices.len(),
{
    if indices.len() > 0 {
        let li = indices.last();
        if !(c[li as int].target is None && last_is_vowel != (crate::charset::vowel_index(c[li as int].rule.result) is Some)) {
            let init = indices.drop_last();
            let nl = seq![li] + last;
            assert(all_in(init, 0, hi)) by {
                assert forall|k: int| 0 <= k < init.len() implies 0 <= #[trigger] init[k] < hi by {
                    assert(init[k] == indices[k]);
                }
            }
            assert(all_in(nl, 0, hi)) by {
                assert forall|k: int| 0 <= k < nl.len() implies 0 <= #[trigger] nl[k] < hi by {
                    if k > 0 {
                        assert(nl[k] == last[k - 1]);
                    }
                }
            }
            lemma_atomic_split_in(c, init, nl, last_is_vowel, hi);
        }
    }
}

pub(crate) proof fn lemma_cvc_appending_in(c: Seq<TransModel>, indices: Seq<usize>, hi: int)
    requires
        all_in(indices, 0, hi),
    ensures
        all_in(cvc_appending(c, indices).0, 0, hi),
        all_in(cvc_appending(c, indices).1, 0, hi),
        all_in(cvc_appending(c, indices).2, 0, hi),
{
    lemma_atomic_split_in(c, indices, Seq::empty(), false, hi);
    let (head, lc) = atomic_split(c, indices, Seq::empty(), false);
    lemma_atomic_split_in(c, head, Seq::empty(), true, hi);
    let (fc, vo) = atomic_split(c, head, Seq::empty(), true);
    if fc.len() > 0 && vo.len() > 0 {
        let nfc = fc.push(vo[0]);
        let nvo = vo.drop_first();
        assert(all_in(nfc, 0, hi)) by {
            assert forall|k: int| 0 <= k < nfc.len() implies 0 <= #[trigger] nfc[k] < hi by {
                if k < fc.len() {
                    assert(nfc[k] == fc[k]);
                }
            }
        }
        assert(all_in(nvo, 0, hi)) by {
            assert forall|k: int| 0 <= k < nvo.len() implies 0 <= #[trigger] nvo[k] < hi by {
                assert(nvo[k] == vo[k + 1]);
            }
        }
    }
}

/// The parts of a syllable are positions of the composition.
proof fn lemma_cvc_indices_in(c: Seq<TransModel>, start: int)
    requires
        0 <= start,
        c.len() <= usize::MAX,
    ensures
        all_in(cvc_indices(c, start).0, 0, c.len() as int),
        all_in(cvc_indices(c, start).1, 0, c.len() as int),
        all_in(cvc_indices(c, start).2, 0, c.len() as int),
{
    lemma_untargeted_in(c, start, c.len() as int);
    let u = untargeted_upto(c, start, c.len() as int);
    lemma_cvc_appending_in(c, u, c.len() as int);
    let (fc, vo, lc) = cvc_appending(c, u);
    lemma_with_targeting_in(c, start, fc);
    lemma_with_targeting_in(c, start, vo);
    lemma_with_targeting_in(c, start, lc);
}

pub(crate) proof fn lemma_filter_appending_in(c: Seq<TransModel>, xs: Seq<usize>)
    ensures
        all_in(filter_appending(c, xs), 0, c.len() as int),
    decreases xs.len(),
{
    if xs.len() > 0 {
        lemma_filter_appending_in(c, xs.drop_last());
        let prev = filter_appending(c, xs.drop_last());
        let cur = filter_appending(c, xs);
        assert forall|k: int| 0 <= k < cur.len() implies 0 <= #[trigger] cur[k] < c.len() by {
            if k < prev.len() {
                assert(cur[k] == prev[k]);
            }
        }
    }
}

proof fn lemma_std_pick_in(c: Seq<TransModel>, vo: Seq<usize>)
    requires
        targets_earlier(c),
        all_in(vo, 0, c.len() as int),
    ensures
        std_pick(c, vo) matches Some(t) ==> t < c.len(),
    decreases vo.len(),
{
    if vo.len() > 0 {
        let idx = vo.last();
        assert(0 <= idx < c.len());
        let init = vo.drop_last();
        assert(all_in(init, 0, c.len() as int)) by {
            assert forall|k: int| 0 <= k < init.len() implies 0 <= #[trigger] init[k] < c.len() by {
                assert(init[k] == vo[k]);
            }
        }
        lemma_std_pick_in(c, init);
        assert(c[idx as int].target matches Some(t) ==> t < idx);
    }
}

/// The vowel that takes the tone is a position of the composition.
proof fn lemma_tone_target_in(c: Seq<TransModel>, start: int, std_style: bool)
    requires
        targets_earlier(c),
        0 <= start,
        c.len() <= usize::MAX,
    ensures
        spec_find_tone_target(c, start, std_style) matches Some(t) ==> t < c.len(),
{
    if c.len() > start {
        lemma_cvc_indices_in(c, start);
        let vo = cvc_indices(c, start).1;
        lemma_filter_appending_in(c, vo);
        lemma_std_pick_in(c, vo);
    }
}

proof fn lemma_root_target_in(c: Seq<TransModel>, i: int, fuel: nat)
    requires
        0 <= i < c.len(),
    ensures
        0 <= root_target(c, i, fuel) < c.len(),
    decreases fuel,
{
    if fuel > 0 {
        if let Some(t) = c[i].target {
            if t < c.len() {
                lemma_root_target_in(c, t as int, (fuel - 1) as nat);
            }
        }
    }
}

proof fn lemma_tone_rule_target_in(c: Seq<TransModel>, start: int, rule: RuleModel, flags: u32)
    requires
        targets_earlier(c),
        0 <= start <= c.len(),
        c.len() <= usize::MAX,
    ensures
        tone_rule_target(c, start, rule, flags) matches Some(t) ==> t < c.len(),
{
    lemma_tone_target_in(c, start, has_flag(flags, super::ESTD_TONE_STYLE));
    lemma_last_appending(c.subrange(start, c.len() as int));
}

proof fn lemma_tone_scan_in(c: Seq<TransModel>, start: int, rules: Seq<RuleModel>, flags: u32, k: int)
    requires
        targets_earlier(c),
        0 <= start <= c.len(),
        c.len() <= usize::MAX,
    ensures
        tone_scan(c, start, rules, flags, k) matches Some((Some(t), _)) ==> t < c.len(),
    decreases rules.len() - k,
{
    if 0 <= k < rules.len() {
        lemma_tone_rule_target_in(c, start, rules[k], flags);
        lemma_tone_scan_in(c, start, rules, flags, k + 1);
    }
}

proof fn lemma_mark_scan_rules_in(
    c: Seq<TransModel>,
    start: int,
    rules: Seq<RuleModel>,
    i: int,
    k: int,
    flat: Seq<char>,
)
    requires
        0 <= i < c.len() <= usize::MAX,
    ensures
        mark_scan_rules(c, start, rules, i, k, flat) matches Some((t, _)) ==> t < c.len(),
    decreases rules.len() - k,
{
    if 0 <= k < rules.len() {
        lemma_root_target_in(c, i, c.len() as nat);
        lemma_mark_scan_rules_in(c, start, rules, i, k + 1, flat);
    }
}

proof fn lemma_mark_scan_in(c: Seq<TransModel>, start: int, rules: Seq<RuleModel>, i: int, flat: Seq<char>)
    requires
        0 <= start,
        i <= c.len() <= usize::MAX,
    ensures
        mark_scan(c, start, rules, i, flat) matches Some((t, _)) ==> t < c.len(),
    decreases i - start,
{
    if i > start {
        lemma_mark_scan_rules_in(c, start, rules, i - 1, 0, flat);
        lemma_mark_scan_in(c, start, rules, i - 1, flat);
    }
}

/// The letter a key applies to is a position of the composition.
proof fn lemma_find_target_in(c: Seq<TransModel>, start: int, rules: Seq<RuleModel>, flags: u32)
    requires
        targets_earlier(c),
        0 <= start <= c.len(),
        c.len() <= usize::MAX,
    ensures
        spec_find_target(c, start, rules, flags).0 matches Some(t) ==> t < c.len(),
{
    lemma_tone_scan_in(c, start, rules, flags, 0);
    lemma_mark_scan_in(
        c,
        start,
        rules,
        c.len() as int,
        super::canvas::canvas(c.subrange(start, c.len() as int), crate::engine::VIETNAMESE_MODE),
    );
}

proof fn lemma_undo_marks_in(c: Seq<TransModel>, start: int, rule: RuleModel, i: int, flat: Seq<char>)
    requires
        0 <= start,
        i <= c.len() <= usize::MAX,
    ensures
        targets_under(undo_marks_from(c, start, rule, i, flat), c.len() as int),
    decreases i - start,
{
    if i > start {
        lemma_undo_marks_in(c, start, rule, i - 1, flat);
        lemma_root_target_in(c, i - 1, c.len() as nat);
        let rest = undo_marks_from(c, start, rule, i - 1, flat);
        let r = undo_marks_from(c, start, rule, i, flat);
        let piece = r.subrange(0, r.len() - rest.len());
        assert(r == piece + rest);
        assert forall|k: int| 0 <= k < r.len() implies (#[trigger] r[k].target matches Some(t) ==> t < c.len()) by {
            if k >= piece.len() {
                assert(r[k] == rest[k - piece.len()]);
            }
        }
    }
}

proof fn lemma_undo_scan_in(c: Seq<TransModel>, start: int, rules: Seq<RuleModel>, flags: u32, k: int, flat: Seq<char>)
    requires
        targets_earlier(c),
        0 <= start <= c.len(),
        c.len() <= usize::MAX,
    ensures
        targets_under(undo_scan(c, start, rules, flags, k, flat), c.len() as int),
    decreases rules.len() - k,
{
    if 0 <= k < rules.len() {
        lemma_undo_scan_in(c, start, rules, flags, k + 1, flat);
        lemma_tone_rule_target_in(c, start, rules[k], flags);
        lemma_undo_marks_in(c, start, rules[k], c.len() as int, flat);
        let rest = undo_scan(c, start, rules, flags, k + 1, flat);
        let r = undo_scan(c, start, rules, flags, k, flat);
        let piece = r.subrange(0, r.len() - rest.len());
        assert(r == piece + rest);
        assert forall|j: int| 0 <= j < r.len() implies (#[trigger] r[j].target matches Some(t) ==> t < c.len()) by {
            if j >= piece.len() {
                assert(r[j] == rest[j - piece.len()]);
            } else {
                let rule = rules[k];
                if rule.effect_type == EffectType::MarkTransformation {
                    let um = undo_marks_from(c, start, rule, c.len() as int, flat);
                    assert(piece =~= um);
                    assert(r[j] == um[j]);
                }
            }
        }
    }
}

proof fn lemma_fallback_untargeted(rules: Seq<RuleModel>, key: char, is_upper_case: bool)
    ensures
        targets_under(spec_fallback(rules, key, is_upper_case), 0),
{
    let f = spec_fallback(rules, key, is_upper_case);
    match first_appending_rule(rules, key, 0) {
        Some(r) => {
            assert forall|k: int| 0 <= k < f.len() implies (#[trigger] f[k].target matches Some(t) ==> t < 0) by {
                if k > 0 {
                    assert(f[k].target is None);
                }
            }
        },
        None => {},
    }
}

proof fn lemma_apply_uow_in(c: Seq<TransModel>, start: int, im: InputMethodModel, flags: u32)
    requires
        targets_earlier(c),
        0 <= start <= c.len(),
        c.len() <= usize::MAX,
    ensures
        spec_apply_uow(c, start, im, flags) matches Some(t) ==> (t.target matches Some(x) ==> x < c.len()),
{
    if im.super_keys.len() > 0 {
        lemma_find_target_in(c, start, applicable_rules(im.rules, im.super_keys[0]), flags);
    }
}

proof fn lemma_uh_o_in(c: Seq<TransModel>, start: int, rules: Seq<RuleModel>, flags: u32, is_upper_case: bool)
    requires
        targets_earlier(c),
        0 <= start <= c.len(),
        c.len() < usize::MAX,
    ensures
        uh_o_shortcut(c, start, rules, flags, is_upper_case) matches Some(t) ==> targets_below(t, c.len() as int),
{
    let vowels = filter_appending(c, cvc_indices(c, start).1);
    lemma_filter_appending_in(c, cvc_indices(c, start).1);
    if vowels.len() > 0 {
        let t0 = super::keystroke::clear_first_vowel(vowels[0]);
        lemma_concat_targets(c, seq![t0]);
        assert(c + seq![t0] == c.push(t0));
        lemma_find_target_in(c.push(t0), start, rules, flags);
    }
}

proof fn lemma_phase_a_in(c: Seq<TransModel>, start: int, rules: Seq<RuleModel>, flags: u32, key: char, is_upper_case: bool)
    requires
        targets_earlier(c),
        0 <= start <= c.len(),
        c.len() < usize::MAX,
    ensures
        targets_below(phase_a(c, start, rules, flags, key, is_upper_case).1, c.len() as int),
{
    let (target, arule) = spec_find_target(c, start, rules, flags);
    lemma_find_target_in(c, start, rules, flags);
    if target is Some && arule is Some {
        let t1 = seq![TransModel { rule: arule->0, target, is_upper_case }];
        lemma_concat_targets(c, t1);
        lemma_find_target_in(c + t1, start, rules, flags);
        let out = phase_a(c, start, rules, flags, key, is_upper_case).1;
        assert forall|k: int| 0 <= k < out.len() implies (#[trigger] out[k].target matches Some(t) ==> t < c.len() + k) by {
            if k == 0 {
                assert(out[0] == t1[0]);
            }
        }
    } else {
        lemma_uh_o_in(c, start, rules, flags, is_upper_case);
        let undo = spec_generate_undo(c, start, rules, flags);
        lemma_undo_scan_in(c, start, rules, flags, 0, super::canvas::canvas(c.subrange(start, c.len() as int), super::keystroke::undo_mode()));
        lemma_under_below(undo, c.len() as int);
        let out = undo.push(appending_trans(key, is_upper_case));
        assert forall|k: int| 0 <= k < out.len() implies (#[trigger] out[k].target matches Some(t) ==> t < c.len() + k) by {
            if k < undo.len() {
                assert(out[k] == undo[k]);
            }
        }
    }
}

proof fn lemma_phase_b_in(
    c: Seq<TransModel>,
    start: int,
    rules: Seq<RuleModel>,
    im: InputMethodModel,
    flags: u32,
    key: char,
    is_upper_case: bool,
    trans: Seq<TransModel>,
)
    requires
        targets_earlier(c),
        0 <= start <= c.len(),
        targets_below(trans, c.len() as int),
        trans.len() == 0 ==> c.len() + spec_fallback(rules, key, is_upper_case).len() <= usize::MAX,
    ensures
        targets_below(phase_b(c, start, rules, im, flags, key, is_upper_case, trans), c.len() as int),
{
    if trans.len() == 0 {
        let fb = spec_fallback(rules, key, is_upper_case);
        lemma_fallback_untargeted(rules, key, is_upper_case);
        lemma_under_below(fb, c.len() as int);
        lemma_concat_targets(c, fb);
        lemma_apply_uow_in(c + fb, start, im, flags);
        match spec_apply_uow(c + fb, start, im, flags) {
            Some(v) => {
                let out = fb.push(v);
                assert forall|k: int| 0 <= k < out.len() implies (#[trigger] out[k].target matches Some(t) ==> t < c.len() + k) by {
                    if k < fb.len() {
                        assert(out[k] == fb[k]);
                    }
                }
            },
            None => {},
        }
    }
}

/// Moving the last tone targets positions of the composition.
proof fn lemma_refresh_in(c: Seq<TransModel>, start: int, std_style: bool)
    requires
        targets_earlier(c),
        0 <= start <= c.len(),
        c.len() <= usize::MAX,
    ensures
        targets_under(spec_refresh_last_tone_target(c, start, std_style), c.len() as int),
{
    lemma_tone_target_in(c, start, std_style);
    lemma_last_tone_in(c, start, c.len() as int);
}

proof fn lemma_last_tone_in(c: Seq<TransModel>, start: int, n: int)
    requires
        0 <= start,
        n <= c.len() <= usize::MAX,
    ensures
        last_tone_trans(c, start, n) matches Some(k) ==> start <= k < n,
    decreases n - start,
{
    if n > start {
        lemma_last_tone_in(c, start, n - 1);
    }
}

proof fn lemma_generate_in(
    c: Seq<TransModel>,
    start: int,
    rules: Seq<RuleModel>,
    im: InputMethodModel,
    flags: u32,
    key: char,
    is_upper_case: bool,
)
    requires
        targets_earlier(c),
        0 <= start <= c.len(),
        c.len() < usize::MAX,
        c.len() + spec_generate(c, start, rules, im, flags, key, is_upper_case).len() <= usize::MAX,
    ensures
        targets_below(spec_generate(c, start, rules, im, flags, key, is_upper_case), c.len() as int),
{
    if super::keystroke::double_typing(c, start, key) {
        let g = spec_generate(c, start, rules, im, flags, key, is_upper_case);
        assert(g[0].target == Some((c.len() - 1) as usize));
    } else {
        lemma_phase_a_in(c, start, rules, flags, key, is_upper_case);
        let (done, t) = phase_a(c, start, rules, flags, key, is_upper_case);
        if !done {
            let t2 = phase_b(c, start, rules, im, flags, key, is_upper_case, t);
            let r = spec_refresh_last_tone_target(c + t2, start, has_flag(flags, ESTD_TONE_STYLE));
            assert(spec_generate(c, start, rules, im, flags, key, is_upper_case) == t2 + r);
            if t.len() == 0 {
                let fb = spec_fallback(rules, key, is_upper_case);
                assert(fb.len() <= t2.len());
            }
            lemma_phase_b_in(c, start, rules, im, flags, key, is_upper_case, t);
            lemma_concat_targets(c, t2);
            lemma_refresh_in(c + t2, start, has_flag(flags, ESTD_TONE_STYLE));
            lemma_under_below(r, (c + t2).len() as int);
            lemma_below_concat(t2, r, c.len() as int);
        }
    }
}

/// Every keystroke keeps the shape of a composition: when each transformation that targets
/// a letter targets one typed before it, the same holds after the keystroke (for
/// compositions that fit in memory).
pub proof fn law_keystroke_keeps_targets_earlier(
    c: Seq<TransModel>,
    im: InputMethodModel,
    flags: u32,
    key: char,
    mode: u32,
)
    requires
        targets_earlier(c),
        c.len() < usize::MAX,
        spec_process_key(c, im, flags, key, mode).len() <= usize::MAX,
    ensures
        targets_earlier(spec_process_key(c, im, flags, key, mode)),
{
    let lower_key = ascii_lower(key);
    let is_upper_case = spec_is_ascii_upper(key);
    let r = spec_process_key(c, im, flags, key, mode);
    if has_flag(mode, ENGLISH_MODE) || !spec_can_process_key(lower_key, im.keys) {
        let t = appending_trans(lower_key, is_upper_case);
        if has_flag(mode, IN_REVERSE_ORDER) {
            assert forall|j: int| 0 <= j < r.len() implies (#[trigger] r[j].target matches Some(x) ==> x < j) by {
                if j > 0 {
                    assert(r[j] == c[j - 1]);
                }
            }
        } else {
            lemma_concat_targets(c, seq![t]);
            assert(c + seq![t] == c.push(t));
        }
    } else {
        let start = syllable_start(c, im.keys);
        lemma_word_starts(c, im.keys, c.len() as int);
        let ws = word_start_from(c, im.keys, c.len() as int);
        let last = c.subrange(ws, c.len() as int);
        lemma_syllable_anchor(last, last.len() as int);
        let g = spec_generate(c, start, applicable_rules(im.rules, lower_key), im, flags, lower_key, is_upper_case);
        lemma_generate_in(c, start, applicable_rules(im.rules, lower_key), im, flags, lower_key, is_upper_case);
        lemma_concat_targets(c, g);
    }
}

/// Every target is a transformation without target, and every appending transformation is
/// without target: the shape of compositions whose changes all apply to typed letters.
pub open spec fn targets_letters(c: Seq<TransModel>) -> bool {
    &&& forall|j: int| 0 <= j < c.len() ==> (#[trigger] c[j].target matches Some(t) ==> t < c.len() && c[t as int].target is None)
    &&& forall|j: int| 0 <= j < c.len() ==> (#[trigger] c[j].rule.effect_type == EffectType::Appending ==> c[j].target is None)
}

proof fn lemma_std_pick_letter(c: Seq<TransModel>, vo: Seq<usize>)
    requires
        targets_letters(c),
        all_in(vo, 0, c.len() as int),
    ensures
        std_pick(c, vo) matches Some(t) ==> t < c.len() && c[t as int].target is None,
    decreases vo.len(),
{
    if vo.len() > 0 {
        let idx = vo.last();
        let init = vo.drop_last();
        assert(all_in(init, 0, c.len() as int)) by {
            assert forall|k: int| 0 <= k < init.len() implies 0 <= #[trigger] init[k] < c.len() by {
                assert(init[k] == vo[k]);
            }
        }
        lemma_std_pick_letter(c, init);
        assert(0 <= idx < c.len());
        assert(c[idx as int].target matches Some(t) ==> t < c.len() && c[t as int].target is None);
    }
}

proof fn lemma_filter_appending_letters(c: Seq<TransModel>, xs: Seq<usize>)
    requires
        targets_letters(c),
    ensures
        forall|k: int| 0 <= k < filter_appending(c, xs).len() ==> c[#[trigger] filter_appending(c, xs)[k] as int].target is None,
    decreases xs.len(),
{
    if xs.len() > 0 {
        lemma_filter_appending_letters(c, xs.drop_last());
        lemma_filter_appending_in(c, xs);
        let prev = filter_appending(c, xs.drop_last());
        let cur = filter_appending(c, xs);
        assert forall|k: int| 0 <= k < cur.len() implies c[#[trigger] cur[k] as int].target is None by {
            if k < prev.len() {
                assert(cur[k] == prev[k]);
            } else {
                assert(c[xs.last() as int].rule.effect_type == EffectType::Appending);
            }
        }
    }
}

proof fn lemma_tone_rule_target_letter(c: Seq<TransModel>, start: int, rule: RuleModel, flags: u32)
    requires
        targets_letters(c),
        0 <= start <= c.len(),
        c.len() <= usize::MAX,
    ensures
        tone_rule_target(c, start, rule, flags) matches Some(t) ==> t < c.len() && c[t as int].target is None,
{
    if c.len() > start {
        lemma_cvc_indices_in(c, start);
        let vo = cvc_indices(c, start).1;
        lemma_filter_appending_in(c, vo);
        lemma_filter_appending_letters(c, vo);
        lemma_std_pick_letter(c, vo);
        let vowels = filter_appending(c, vo);
        if vowels.len() > 0 {
            assert(c[vowels[0] as int].target is None);
        }
        if vowels.len() > 1 {
            assert(c[vowels[1] as int].target is None);
        }
        if vowels.len() > 2 {
            assert(c[vowels[2] as int].target is None);
        }
    }
    lemma_last_appending(c.subrange(start, c.len() as int));
    if let Some(la) = last_appending(c.subrange(start, c.len() as int)) {
        assert(c.subrange(start, c.len() as int)[la] == c[start + la]);
    }
}

/// What an undo transformation looks like.
pub open spec fn undo_shaped(c: Seq<TransModel>, start: int, t: TransModel) -> bool {
    &&& t.rule.key == '\0' && t.rule.effect == 0
    &&& t.rule.effect_type != EffectType::Appending
    &&& t.target matches Some(j) && j < c.len() && c[j as int].target is None
    &&& t.rule.effect_type == EffectType::MarkTransformation ==> canvas(
        c.push(t).subrange(start, c.len() as int + 1),
        super::keystroke::undo_mode(),
    ) != canvas(c.subrange(start, c.len() as int), super::keystroke::undo_mode())
}

proof fn lemma_undo_marks_shaped(c: Seq<TransModel>, start: int, rule: RuleModel, i: int)
    requires
        targets_earlier(c),
        targets_letters(c),
        0 <= start,
        i <= c.len() <= usize::MAX,
    ensures
        forall|k: int| 0 <= k < undo_marks_from(c, start, rule, i, canvas(c.subrange(start, c.len() as int), super::keystroke::undo_mode())).len()
            ==> undo_shaped(c, start, #[trigger] undo_marks_from(c, start, rule, i, canvas(c.subrange(start, c.len() as int), super::keystroke::undo_mode()))[k]),
    decreases i - start,
{
    let flat = canvas(c.subrange(start, c.len() as int), super::keystroke::undo_mode());
    if i > start {
        lemma_undo_marks_shaped(c, start, rule, i - 1);
        crate::engine::syllable::law_root_target(c, i - 1, c.len() as nat);
        let rest = undo_marks_from(c, start, rule, i - 1, flat);
        let r = undo_marks_from(c, start, rule, i, flat);
        let piece = r.subrange(0, r.len() - rest.len());
        assert(r == piece + rest);
        assert forall|k: int| 0 <= k < r.len() implies undo_shaped(c, start, #[trigger] r[k]) by {
            if k >= piece.len() {
                assert(r[k] == rest[k - piece.len()]);
            }
        }
    }
}

/// Each transformation with which a key undoes its effects clears a tone or a mark (no key,
/// effect 0) of a typed letter of the composition, and a mark is cleared only where that
/// changes the word's text; for compositions whose changes apply to typed letters.
pub proof fn law_undo_shape(c: Seq<TransModel>, start: int, rules: Seq<RuleModel>, flags: u32)
    requires
        targets_earlier(c),
        targets_letters(c),
        0 <= start <= c.len(),
        c.len() <= usize::MAX,
    ensures
        forall|k: int| 0 <= k < spec_generate_undo(c, start, rules, flags).len() ==> undo_shaped(
            c,
            start,
            #[trigger] spec_generate_undo(c, start, rules, flags)[k],
        ),
{
    lemma_undo_scan_shaped(c, start, rules, flags, 0);
}

proof fn lemma_undo_scan_shaped(c: Seq<TransModel>, start: int, rules: Seq<RuleModel>, flags: u32, k: int)
    requires
        targets_earlier(c),
        targets_letters(c),
        0 <= start <= c.len(),
        c.len() <= usize::MAX,
    ensures
        forall|j: int| 0 <= j < undo_scan(c, start, rules, flags, k, canvas(c.subrange(start, c.len() as int), super::keystroke::undo_mode())).len()
            ==> undo_shaped(c, start, #[trigger] undo_scan(c, start, rules, flags, k, canvas(c.subrange(start, c.len() as int), super::keystroke::undo_mode()))[j]),
    decreases rules.len() - k,
{
    let flat = canvas(c.subrange(start, c.len() as int), super::keystroke::undo_mode());
    if 0 <= k < rules.len() {
        lemma_undo_scan_shaped(c, start, rules, flags, k + 1);
        lemma_tone_rule_target_letter(c, start, rules[k], flags);
        lemma_undo_marks_shaped(c, start, rules[k], c.len() as int);
        let rest = undo_scan(c, start, rules, flags, k + 1, flat);
        let r = undo_scan(c, start, rules, flags, k, flat);
        let piece = r.subrange(0, r.len() - rest.len());
        assert(r == piece + rest);
        assert forall|j: int| 0 <= j < r.len() implies undo_shaped(c, start, #[trigger] r[j]) by {
            if j >= piece.len() {
                assert(r[j] == rest[j - piece.len()]);
            } else {
                let rule = rules[k];
                if rule.effect_type == EffectType::MarkTransformation {
                    let um = undo_marks_from(c, start, rule, c.len() as int, flat);
                    assert(piece =~= um);
                    assert(r[j] == um[j]);
                }
            }
        }
    }
}

proof fn lemma_generate_nonempty(
    c: Seq<TransModel>,
    start: int,
    rules: Seq<RuleModel>,
    im: InputMethodModel,
    flags: u32,
    key: char,
    is_upper_case: bool,
)
    ensures
        spec_generate(c, start, rules, im, flags, key, is_upper_case).len() > 0,
{
    if !super::keystroke::double_typing(c, start, key) {
        let (done, t) = phase_a(c, start, rules, flags, key, is_upper_case);
        if done {
            let (target, arule) = spec_find_target(c, start, rules, flags);
            if !(target is Some && arule is Some) {
                if let Some(u) = uh_o_shortcut(c, start, rules, flags, is_upper_case) {
                    assert(u.len() == 2);
                }
            }
        } else {
            let t2 = phase_b(c, start, rules, im, flags, key, is_upper_case, t);
            if t.len() == 0 {
                let fb = spec_fallback(rules, key, is_upper_case);
                assert(fb.len() > 0);
            }
            let r = super::tone::spec_refresh_last_tone_target(c + t2, start, has_flag(flags, ESTD_TONE_STYLE));
            assert(spec_generate(c, start, rules, im, flags, key, is_upper_case) == t2 + r);
        }
    }
}

/// A keystroke in Vietnamese mode of a key that the input method takes keeps every
/// transformation of the composition as it was and appends at least one.
pub proof fn law_vietnamese_keystroke_appends(c: Seq<TransModel>, im: InputMethodModel, flags: u32, key: char, mode: u32)
    requires
        !has_flag(mode, ENGLISH_MODE),
        spec_can_process_key(ascii_lower(key), im.keys),
    ensures
        spec_process_key(c, im, flags, key, mode).len() > c.len(),
        spec_process_key(c, im, flags, key, mode).subrange(0, c.len() as int) == c,
{
    let start = syllable_start(c, im.keys);
    let lower_key = ascii_lower(key);
    let rules = applicable_rules(im.rules, lower_key);
    lemma_generate_nonempty(c, start, rules, im, flags, lower_key, spec_is_ascii_upper(key));
    let g = spec_generate(c, start, rules, im, flags, lower_key, spec_is_ascii_upper(key));
    assert((c + g).subrange(0, c.len() as int) =~= c);
}

} // verus!
