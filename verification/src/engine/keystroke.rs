//! The decisions of a keystroke: which rule applies to which letter, how a key undoes what
//! it did before, and what a key writes when it changes nothing.

use vstd::prelude::*;
use crate::charset::{find_tone_from_char, is_upper_letter, is_vowel, lower_letter, spec_is_upper_letter, to_lower_letter, tone_of, vowel_index};
use crate::rules::{
    clone_rule, lemma_rule_model, rules_model, EffectType, InputMethod, InputMethodModel, Rule,
    RuleModel, Tone, tone_from_value,
};
use crate::text::{chars_eq, regex_is_match, regex_matches, string_of};
use super::canvas::{
    appending_trans, canvas, canvas_range, clone_composition, comp_model, concat_composition,
    find_last_appending_trans_idx, has_flag, last_appending, new_appending_trans, new_trans,
    plain_trans, push_trans, TransModel, Transformation,
};
use super::syllable::{
    cvc_indices, filter_appending, filter_appending_composition, get_right_most_vowels_start,
    is_free, root_target, root_target_of, spec_is_free,
};
use super::tone::{
    find_tone_target, has_valid_tone, is_valid_slice, spec_find_tone_target, spec_has_valid_tone,
    spec_is_valid_slice, without_key,
};
use super::{EFREE_TONE_MARKING, ESTD_TONE_STYLE, LOWER_CASE, TONE_LESS, VIETNAMESE_MODE};

verus! {

/// The rules among the first `n` whose key is `key`, in order.
pub open spec fn applicable_upto(rules: Seq<RuleModel>, key: char, n: int) -> Seq<RuleModel>
    decreases n,
{
    if n <= 0 {
        Seq::empty()
    } else {
        applicable_upto(rules, key, n - 1) + if rules[n - 1].key == key {
            seq![rules[n - 1]]
        } else {
            Seq::empty()
        }
    }
}

/// The rules whose key is `key`, in order.
pub open spec fn applicable_rules(rules: Seq<RuleModel>, key: char) -> Seq<RuleModel> {
    applicable_upto(rules, key, rules.len() as int)
}

/// Copies of the rules of an input method whose key is `key`.
pub fn get_applicable_rules(im: &InputMethod, key: char) -> (r: Vec<Rule>)
    ensures
        rules_model(r@) == applicable_rules(im.model().rules, key),
{
    let ghost all = rules_model(im.rules@);
    let mut r: Vec<Rule> = Vec::new();
    let mut i: usize = 0;
    while i < im.rules.len()
        invariant
            i <= im.rules@.len(),
            all == rules_model(im.rules@),
            rules_model(r@) == applicable_upto(all, key, i as int),
        decreases im.rules@.len() - i,
    {
        proof {
            lemma_rule_model(im.rules@[i as int]);
        }
        if im.rules[i].key == key {
            let ghost before = r@;
            let c = clone_rule(&im.rules[i]);
            r.push(c);
            assert(rules_model(r@) =~= rules_model(before).push(all[i as int]));
        }
        assert(rules_model(r@) =~= applicable_upto(all, key, i + 1));
        i = i + 1;
    }
    r
}

/// The letter that a tone rule should mark, from `start` on: with free tone marking, the
/// vowel that takes the tone when the tone is allowed there; otherwise the last appended
/// letter, when it is a vowel.
pub open spec fn tone_rule_target(c: Seq<TransModel>, start: int, rule: RuleModel, flags: u32) -> Option<usize> {
    if has_flag(flags, EFREE_TONE_MARKING) {
        if spec_has_valid_tone(c, start, tone_from_value(rule.effect)) {
            spec_find_tone_target(c, start, has_flag(flags, ESTD_TONE_STYLE))
        } else {
            None
        }
    } else {
        match last_appending(c.subrange(start, c.len() as int)) {
            Some(la) => if vowel_index(c[start + la].rule.effect_on) is Some {
                Some((start + la) as usize)
            } else {
                None
            },
            None => None,
        }
    }
}

/// Computes `tone_rule_target`.
fn find_tone_rule_target(composition: &[Transformation], start: usize, rule: &Rule, flags: u32) -> (r: Option<usize>)
    requires
        start <= composition@.len(),
    ensures
        r == tone_rule_target(comp_model(composition@), start as int, rule.model(), flags),
{
    proof {
        lemma_rule_model(*rule);
    }
    if (flags & EFREE_TONE_MARKING) != 0 {
        if has_valid_tone(composition, start, Tone::from_u8(rule.effect)) {
            find_tone_target(composition, start, (flags & ESTD_TONE_STYLE) != 0)
        } else {
            None
        }
    } else {
        let sub = vstd::slice::slice_subrange(composition, start, composition.len());
        assert(comp_model(sub@) =~= comp_model(composition@).subrange(start as int, composition@.len() as int));
        match find_last_appending_trans_idx(sub) {
            Some(la) => {
                proof {
                    super::canvas::lemma_last_appending(comp_model(sub@));
                }
                let abs = start + la;
                proof {
                    lemma_rule_model(composition@[abs as int].rule);
                }
                if is_vowel(composition[abs].rule.effect_on) {
                    Some(abs)
                } else {
                    None
                }
            },
            None => None,
        }
    }
}

/// The composition with one more transformation that applies `rule` to `target`.
pub open spec fn with_rule(c: Seq<TransModel>, rule: RuleModel, target: usize) -> Seq<TransModel> {
    c.push(TransModel { rule, target: Some(target), is_upper_case: false })
}

/// Scanning the rules from position `k`, the first tone rule that changes the text from
/// `start` on, with the letter it marks (`None` when a level tone would land on a letter
/// that has never had a tone); the first tone rule without a letter to mark ends the scan
/// too.
pub open spec fn tone_scan(
    c: Seq<TransModel>,
    start: int,
    rules: Seq<RuleModel>,
    flags: u32,
    k: int,
) -> Option<(Option<usize>, RuleModel)>
    decreases rules.len() - k,
{
    if k >= rules.len() || k < 0 {
        None
    } else {
        let rule = rules[k];
        if rule.effect_type != EffectType::ToneTransformation {
            tone_scan(c, start, rules, flags, k + 1)
        } else {
            match tone_rule_target(c, start, rule, flags) {
                Some(tgt) => {
                    let temp = with_rule(c, rule, tgt);
                    if canvas(c.subrange(start, c.len() as int), VIETNAMESE_MODE) == canvas(
                        temp.subrange(start, temp.len() as int),
                        VIETNAMESE_MODE,
                    ) {
                        tone_scan(c, start, rules, flags, k + 1)
                    } else if tone_from_value(rule.effect) == Tone::NoTone && spec_is_free(
                        c,
                        start,
                        tgt,
                        EffectType::ToneTransformation,
                    ) && tgt < c.len() && tone_of(c[tgt as int].rule.result) == 0 {
                        Some((None, rule))
                    } else {
                        Some((Some(tgt), rule))
                    }
                },
                None => Some((None, rule)),
            }
        }
    }
}

/// For the transformation at position `i`, scanning the rules from position `k`, the first
/// mark rule that applies to its letter, changes the text from `start` on and leaves a valid
/// beginning of a syllable, with the letter it applies to.
pub open spec fn mark_scan_rules(
    c: Seq<TransModel>,
    start: int,
    rules: Seq<RuleModel>,
    i: int,
    k: int,
    flat: Seq<char>,
) -> Option<(usize, RuleModel)>
    decreases rules.len() - k,
{
    if k >= rules.len() || k < 0 {
        None
    } else {
        let rule = rules[k];
        if rule.effect_type == EffectType::MarkTransformation && c[i].rule.result == rule.effect_on
            && rule.effect > 0 {
            let target = root_target(c, i, c.len() as nat) as usize;
            let temp = with_rule(c, rule, target);
            if canvas(temp.subrange(start, temp.len() as int), VIETNAMESE_MODE) == flat {
                mark_scan_rules(c, start, rules, i, k + 1, flat)
            } else if spec_is_valid_slice(temp, start, false) {
                Some((target, rule))
            } else {
                mark_scan_rules(c, start, rules, i, k + 1, flat)
            }
        } else {
            mark_scan_rules(c, start, rules, i, k + 1, flat)
        }
    }
}

/// Scanning the transformations down from position `i - 1` to `start`, the first that a
/// mark rule applies to (see `mark_scan_rules`).
pub open spec fn mark_scan(
    c: Seq<TransModel>,
    start: int,
    rules: Seq<RuleModel>,
    i: int,
    flat: Seq<char>,
) -> Option<(usize, RuleModel)>
    decreases i - start,
{
    if i <= start {
        None
    } else {
        match mark_scan_rules(c, start, rules, i - 1, 0, flat) {
            Some(found) => Some(found),
            None => mark_scan(c, start, rules, i - 1, flat),
        }
    }
}

/// The letter and the mark rule that a key applies, from `start` on.
pub open spec fn spec_find_mark_target(c: Seq<TransModel>, start: int, rules: Seq<RuleModel>) -> (Option<usize>, Option<RuleModel>) {
    match mark_scan(
        c,
        start,
        rules,
        c.len() as int,
        canvas(c.subrange(start, c.len() as int), VIETNAMESE_MODE),
    ) {
        Some((t, r)) => (Some(t), Some(r)),
        None => (None, None),
    }
}

/// The letter and the rule that a key applies, from `start` on: the first tone rule that
/// decides, else a mark rule.
pub open spec fn spec_find_target(c: Seq<TransModel>, start: int, rules: Seq<RuleModel>, flags: u32) -> (Option<usize>, Option<RuleModel>) {
    match tone_scan(c, start, rules, flags, 0) {
        Some((t, r)) => (t, Some(r)),
        None => spec_find_mark_target(c, start, rules),
    }
}

/// A composition with a copy of the rule applied to a target.
fn with_rule_exec(composition: &[Transformation], rule: &Rule, target: usize) -> (r: Vec<Transformation>)
    ensures
        comp_model(r@) == with_rule(comp_model(composition@), rule.model(), target),
{
    let mut temp = clone_composition(composition);
    push_trans(&mut temp, Transformation { rule: clone_rule(rule), target: Some(target), is_upper_case: false });
    temp
}

/// The mark rule that a key applies, from `start` on (see `spec_find_mark_target`).
fn find_mark_target(composition: &[Transformation], start: usize, rules: &Vec<Rule>) -> (r: (Option<usize>, Option<Rule>))
    requires
        start <= composition@.len(),
    ensures
        r.0 == spec_find_mark_target(comp_model(composition@), start as int, rules_model(rules@)).0,
        r.1 is Some == spec_find_mark_target(comp_model(composition@), start as int, rules_model(rules@)).1 is Some,
        r.1 matches Some(rule) ==> rule.model() == spec_find_mark_target(comp_model(composition@), start as int, rules_model(rules@)).1->0,
{
    let ghost c = comp_model(composition@);
    let ghost rs = rules_model(rules@);
    let n = composition.len();
    let str_flat = canvas_range(composition, start, n, VIETNAMESE_MODE);
    let mut i = n;
    while i > start
        invariant
            start <= i <= n,
            n == composition@.len(),
            c == comp_model(composition@),
            rs == rules_model(rules@),
            str_flat@ == canvas(c.subrange(start as int, n as int), VIETNAMESE_MODE),
            mark_scan(c, start as int, rs, n as int, str_flat@) == mark_scan(c, start as int, rs, i as int, str_flat@),
        decreases i,
    {
        let idx = i - 1;
        let mut k: usize = 0;
        while k < rules.len()
            invariant
                k <= rules@.len(),
                start <= idx < n,
                idx == i - 1,
                mark_scan(c, start as int, rs, n as int, str_flat@) == mark_scan(c, start as int, rs, i as int, str_flat@),
                n == composition@.len(),
                c == comp_model(composition@),
                rs == rules_model(rules@),
                str_flat@ == canvas(c.subrange(start as int, n as int), VIETNAMESE_MODE),
                mark_scan_rules(c, start as int, rs, idx as int, 0, str_flat@) == mark_scan_rules(
                    c,
                    start as int,
                    rs,
                    idx as int,
                    k as int,
                    str_flat@,
                ),
            decreases rules@.len() - k,
        {
            let rule = &rules[k];
            proof {
                lemma_rule_model(rules@[k as int]);
                lemma_rule_model(composition@[idx as int].rule);
            }
            let applies = match rule.effect_type {
                EffectType::MarkTransformation => composition[idx].rule.result == rule.effect_on
                    && rule.effect > 0,
                _ => false,
            };
            if applies {
                let target = root_target_of(composition, idx);
                let temp = with_rule_exec(composition, rule, target);
                let flat = canvas_range(temp.as_slice(), start, temp.len(), VIETNAMESE_MODE);
                if !chars_eq(&str_flat, &flat) {
                    if is_valid_slice(temp.as_slice(), start, false) {
                        proof {
                            assert(target == root_target(c, idx as int, c.len() as nat) as usize);
                            assert(mark_scan_rules(c, start as int, rs, idx as int, k as int, str_flat@)
                                == Some((target, rs[k as int])));
                            assert(mark_scan(c, start as int, rs, i as int, str_flat@) == Some(
                                (target, rs[k as int]),
                            ));
                        }
                        return (Some(target), Some(clone_rule(rule)));
                    }
                }
            }
            k = k + 1;
        }
        i = i - 1;
    }
    (None, None)
}

/// The letter and the rule that a key applies (see `spec_find_target`).
pub fn find_target_in_slice(composition: &[Transformation], start: usize, rules: &Vec<Rule>, flags: u32) -> (r: (Option<usize>, Option<Rule>))
    requires
        start <= composition@.len(),
    ensures
        r.0 == spec_find_target(comp_model(composition@), start as int, rules_model(rules@), flags).0,
        r.1 is Some == spec_find_target(comp_model(composition@), start as int, rules_model(rules@), flags).1 is Some,
        r.1 matches Some(rule) ==> rule.model() == spec_find_target(comp_model(composition@), start as int, rules_model(rules@), flags).1->0,
{
    let ghost c = comp_model(composition@);
    let ghost rs = rules_model(rules@);
    let n = composition.len();
    let str_flat = canvas_range(composition, start, n, VIETNAMESE_MODE);
    let mut k: usize = 0;
    while k < rules.len()
        invariant
            k <= rules@.len(),
            start <= n,
            n == composition@.len(),
            c == comp_model(composition@),
            rs == rules_model(rules@),
            str_flat@ == canvas(c.subrange(start as int, n as int), VIETNAMESE_MODE),
            tone_scan(c, start as int, rs, flags, 0) == tone_scan(c, start as int, rs, flags, k as int),
        decreases rules@.len() - k,
    {
        let rule = &rules[k];
        proof {
            lemma_rule_model(rules@[k as int]);
        }
        match rule.effect_type {
            EffectType::ToneTransformation => {
                let mut target = find_tone_rule_target(composition, start, rule, flags);
                let mut skip = false;
                if let Some(tgt_idx) = target {
                    let temp = with_rule_exec(composition, rule, tgt_idx);
                    let flat = canvas_range(temp.as_slice(), start, temp.len(), VIETNAMESE_MODE);
                    if chars_eq(&str_flat, &flat) {
                        skip = true;
                    } else if Tone::from_u8(rule.effect) == Tone::NoTone && is_free(
                        composition,
                        start,
                        tgt_idx,
                        EffectType::ToneTransformation,
                    ) && tgt_idx < n {
                        proof {
                            lemma_rule_model(composition@[tgt_idx as int].rule);
                        }
                        if find_tone_from_char(composition[tgt_idx].rule.result) == 0 {
                            target = None;
                        }
                    }
                }
                if !skip {
                    return (target, Some(clone_rule(rule)));
                }
            },
            _ => {},
        }
        k = k + 1;
    }
    find_mark_target(composition, start, rules)
}


/// The transformation that clears the tone of a letter.
pub open spec fn undo_tone_trans(target: usize) -> TransModel {
    plain_trans('\0', 0, EffectType::ToneTransformation, '\0', '\0', Some(target), false)
}

/// The transformation that clears the mark of a letter.
pub open spec fn undo_mark_trans(target: usize) -> TransModel {
    plain_trans('\0', 0, EffectType::MarkTransformation, '\0', '\0', Some(target), false)
}

/// The mode in which undoing reads the text: Vietnamese, without tone, lower case.
pub open spec fn undo_mode() -> u32 {
    VIETNAMESE_MODE | TONE_LESS | LOWER_CASE
}

/// Scanning down from position `i - 1` to `start`, a mark-clearing transformation for each
/// letter whose current form is the form `rule` produces, when clearing it changes the text.
pub open spec fn undo_marks_from(
    c: Seq<TransModel>,
    start: int,
    rule: RuleModel,
    i: int,
    flat: Seq<char>,
) -> Seq<TransModel>
    decreases i - start,
{
    if i <= start {
        Seq::empty()
    } else {
        let j = i - 1;
        let piece = if c[j].rule.result == rule.effect_on {
            let undo = undo_mark_trans(root_target(c, j, c.len() as nat) as usize);
            let temp = c.push(undo);
            if flat == canvas(temp.subrange(start, temp.len() as int), undo_mode()) {
                Seq::empty()
            } else {
                seq![undo]
            }
        } else {
            Seq::empty()
        };
        piece + undo_marks_from(c, start, rule, j, flat)
    }
}

/// For the rules from position `k`, in order, the transformations that undo what they did:
/// a tone rule clears the tone of the letter it would mark, a mark rule clears the marks it
/// made.
pub open spec fn undo_scan(
    c: Seq<TransModel>,
    start: int,
    rules: Seq<RuleModel>,
    flags: u32,
    k: int,
    flat: Seq<char>,
) -> Seq<TransModel>
    decreases rules.len() - k,
{
    if k >= rules.len() || k < 0 {
        Seq::empty()
    } else {
        let rule = rules[k];
        let piece = if rule.effect_type == EffectType::ToneTransformation {
            match tone_rule_target(c, start, rule, flags) {
                Some(t) => seq![undo_tone_trans(t)],
                None => Seq::empty(),
            }
        } else if rule.effect_type == EffectType::MarkTransformation {
            undo_marks_from(c, start, rule, c.len() as int, flat)
        } else {
            Seq::empty()
        };
        piece + undo_scan(c, start, rules, flags, k + 1, flat)
    }
}

/// The transformations with which a key undoes what its rules did to the word from `start`.
pub open spec fn spec_generate_undo(c: Seq<TransModel>, start: int, rules: Seq<RuleModel>, flags: u32) -> Seq<TransModel> {
    undo_scan(c, start, rules, flags, 0, canvas(c.subrange(start, c.len() as int), undo_mode()))
}

/// Generates transformations necessary to undo tone or diacritic changes if typing layout triggers it.
fn generate_undo_transformations(composition: &[Transformation], start: usize, rules: &Vec<Rule>, flags: u32) -> (r: Vec<Transformation>)
    requires
        start <= composition@.len(),
    ensures
        comp_model(r@) == spec_generate_undo(comp_model(composition@), start as int, rules_model(rules@), flags),
{
    let ghost c = comp_model(composition@);
    let ghost rs = rules_model(rules@);
    let n = composition.len();
    let str_flat = canvas_range(composition, start, n, VIETNAMESE_MODE | TONE_LESS | LOWER_CASE);
    let ghost flat = str_flat@;
    let mut transformations: Vec<Transformation> = Vec::new();
    let mut k: usize = 0;
    while k < rules.len()
        invariant
            k <= rules@.len(),
            start <= n,
            n == composition@.len(),
            c == comp_model(composition@),
            rs == rules_model(rules@),
            flat == str_flat@,
            flat == canvas(c.subrange(start as int, n as int), undo_mode()),
            comp_model(transformations@) + undo_scan(c, start as int, rs, flags, k as int, flat) == spec_generate_undo(c, start as int, rs, flags),
        decreases rules@.len() - k,
    {
        let rule = &rules[k];
        proof {
            lemma_rule_model(rules@[k as int]);
        }
        let ghost before = comp_model(transformations@);
        match rule.effect_type {
            EffectType::ToneTransformation => {
                let target = find_tone_rule_target(composition, start, rule, flags);
                if let Some(tgt_idx) = target {
                    push_trans(
                        &mut transformations,
                        new_trans('\0', 0, EffectType::ToneTransformation, '\0', '\0', Some(tgt_idx), false),
                    );
                }
                assert(comp_model(transformations@) + undo_scan(c, start as int, rs, flags, k + 1, flat)
                    =~= before + undo_scan(c, start as int, rs, flags, k as int, flat));
            },
            EffectType::MarkTransformation => {
                let mut i = n;
                while i > start
                    invariant
                        start <= i <= n,
                        n == composition@.len(),
                        c == comp_model(composition@),
                        flat == str_flat@,
                        flat == canvas(c.subrange(start as int, n as int), undo_mode()),
                        comp_model(transformations@) + undo_marks_from(c, start as int, rs[k as int], i as int, flat)
                            == before + undo_marks_from(c, start as int, rs[k as int], n as int, flat),
                        rs[k as int] == rule.model(),
                    decreases i,
                {
                    let j = i - 1;
                    proof {
                        lemma_rule_model(composition@[j as int].rule);
                    }
                    let ghost before_j = comp_model(transformations@);
                    if composition[j].rule.result == rule.effect_on {
                        let target = root_target_of(composition, j);
                        let mut temp = clone_composition(composition);
                        push_trans(
                            &mut temp,
                            new_trans('\0', 0, EffectType::MarkTransformation, '\0', '\0', Some(target), false),
                        );
                        let flat2 = canvas_range(temp.as_slice(), start, temp.len(), VIETNAMESE_MODE | TONE_LESS | LOWER_CASE);
                        if !chars_eq(&str_flat, &flat2) {
                            push_trans(
                                &mut transformations,
                                new_trans('\0', 0, EffectType::MarkTransformation, '\0', '\0', Some(target), false),
                            );
                        }
                    }
                    assert(comp_model(transformations@) + undo_marks_from(c, start as int, rs[k as int], j as int, flat)
                        =~= before_j + undo_marks_from(c, start as int, rs[k as int], i as int, flat));
                    i = i - 1;
                }
                assert(comp_model(transformations@) + undo_scan(c, start as int, rs, flags, k + 1, flat)
                    =~= before + undo_scan(c, start as int, rs, flags, k as int, flat));
            },
            _ => {
                assert(comp_model(transformations@) + undo_scan(c, start as int, rs, flags, k + 1, flat)
                    =~= before + undo_scan(c, start as int, rs, flags, k as int, flat));
            },
        }
        k = k + 1;
    }
    assert(comp_model(transformations@) =~= spec_generate_undo(c, start as int, rs, flags));
    transformations
}


/// The first rule from position `k` on that appends with key `key`.
pub open spec fn first_appending_rule(rules: Seq<RuleModel>, key: char, k: int) -> Option<RuleModel>
    decreases rules.len() - k,
{
    if k >= rules.len() || k < 0 {
        None
    } else if rules[k].key == key && rules[k].effect_type == EffectType::Appending {
        Some(rules[k])
    } else {
        first_appending_rule(rules, key, k + 1)
    }
}

/// A rule value with another key, appending its letter in lower case.
pub open spec fn lowered_rule(r: RuleModel, key: char) -> RuleModel {
    RuleModel {
        key,
        effect: r.effect,
        effect_type: r.effect_type,
        effect_on: lower_letter(r.effect_on),
        result: lower_letter(r.effect_on),
        appended: r.appended,
    }
}

/// What a key writes when it changes nothing: the letters of its first appending rule (in
/// lower case, upper case kept as a flag; the secondary letters without key), or the key
/// itself.
pub open spec fn spec_fallback(rules: Seq<RuleModel>, key: char, is_upper_case: bool) -> Seq<TransModel> {
    match first_appending_rule(rules, key, 0) {
        Some(r) => seq![
            TransModel {
                rule: lowered_rule(r, r.key),
                target: None,
                is_upper_case: is_upper_case || spec_is_upper_letter(r.effect_on),
            },
        ] + Seq::new(
            r.appended.len(),
            |i: int|
                TransModel {
                    rule: lowered_rule(r.appended[i], '\0'),
                    target: None,
                    is_upper_case: is_upper_case || spec_is_upper_letter(r.appended[i].effect_on),
                },
        ),
        None => seq![appending_trans(key, is_upper_case)],
    }
}

/// A copy of a rule with another key, appending its letter in lower case.
fn lowered_rule_exec(r: &Rule, key: char) -> (c: Rule)
    ensures
        c.model() == lowered_rule(r.model(), key),
{
    let mut c = clone_rule(r);
    proof {
        lemma_rule_model(c);
        lemma_rule_model(*r);
    }
    let lw = to_lower_letter(c.effect_on);
    c.key = key;
    c.effect_on = lw;
    c.result = lw;
    proof {
        lemma_rule_model(c);
        assert(c.model().appended =~= r.model().appended);
    }
    c
}

/// Fallback logic to append characters when no transformation matches the existing composition target.
fn generate_fallback_transformations(rules: &Vec<Rule>, lower_key: char, is_upper_case: bool) -> (r: Vec<Transformation>)
    ensures
        comp_model(r@) == spec_fallback(rules_model(rules@), lower_key, is_upper_case),
{
    let ghost rs = rules_model(rules@);
    let mut transformations: Vec<Transformation> = Vec::new();
    let mut found: Option<usize> = None;
    let mut k: usize = 0;
    while k < rules.len()
        invariant_except_break
            found is None,
            first_appending_rule(rs, lower_key, 0) == first_appending_rule(rs, lower_key, k as int),
        invariant
            k <= rules@.len(),
            rs == rules_model(rules@),
        ensures
            found matches Some(f) ==> f < rules@.len() && first_appending_rule(rs, lower_key, 0) == Some(rs[f as int]),
            found is None ==> first_appending_rule(rs, lower_key, 0) is None,
        decreases rules@.len() - k,
    {
        proof {
            lemma_rule_model(rules@[k as int]);
        }
        let is_appending = match rules[k].effect_type {
            EffectType::Appending => true,
            _ => false,
        };
        if rules[k].key == lower_key && is_appending {
            found = Some(k);
            break;
        }
        k = k + 1;
    }
    match found {
        Some(f) => {
            let primary = &rules[f];
            proof {
                lemma_rule_model(rules@[f as int]);
            }
            let is_upper = is_upper_case || is_upper_letter(primary.effect_on);
            let main_rule = lowered_rule_exec(primary, primary.key);
            push_trans(&mut transformations, Transformation { rule: main_rule, target: None, is_upper_case: is_upper });
            let mut i: usize = 0;
            while i < primary.appended_rules.len()
                invariant
                    i <= primary.appended_rules@.len(),
                    f < rules@.len(),
                    *primary == rules@[f as int],
                    rs[f as int] == primary.model(),
                    first_appending_rule(rs, lower_key, 0) == Some(rs[f as int]),
                    comp_model(transformations@) == spec_fallback(rs, lower_key, is_upper_case).take(i + 1),
                decreases primary.appended_rules@.len() - i,
            {
                let a = &primary.appended_rules[i];
                proof {
                    lemma_rule_model(*primary);
                    lemma_rule_model(*a);
                }
                let up = is_upper_case || is_upper_letter(a.effect_on);
                let lowered = lowered_rule_exec(a, '\0');
                push_trans(&mut transformations, Transformation { rule: lowered, target: None, is_upper_case: up });
                assert(comp_model(transformations@) =~= spec_fallback(rs, lower_key, is_upper_case).take(i + 2));
                i = i + 1;
            }
            proof {
                lemma_rule_model(*primary);
            }
            assert(comp_model(transformations@) =~= spec_fallback(rs, lower_key, is_upper_case));
        },
        None => {
            push_trans(&mut transformations, new_appending_trans(lower_key, is_upper_case));
            assert(comp_model(transformations@) =~= spec_fallback(rs, lower_key, is_upper_case));
        },
    }
    transformations
}

/// The pattern of a syllable with `uơ` or `ưo` followed by a letter.
pub const UOW_PATTERN: &'static str = "(uơ|ưo)\\p{L}+";

/// The pattern of a syllable with `ưo` or `ươ`.
pub const UHO_PATTERN: &'static str = "(ưo|ươ)";

/// The transformation that completes `uơ` or `ưo` followed by a letter into `ươ`, given
/// whether the syllable from `start` matched the pattern: when it did and the input method
/// has a super key, the rule that the first super key would apply, without key.
pub open spec fn uow_completion(c: Seq<TransModel>, start: int, im: InputMethodModel, flags: u32, matched: bool) -> Option<TransModel> {
    if im.super_keys.len() > 0 && matched {
        let rules = applicable_rules(im.rules, im.super_keys[0]);
        match spec_find_target(c, start, rules, flags) {
            (Some(t), Some(r)) => Some(TransModel { rule: without_key(r), target: Some(t), is_upper_case: false }),
            _ => None,
        }
    } else {
        None
    }
}

/// The `ươ` completion of the syllable from `start` (see `uow_completion`), the match
/// being of `UOW_PATTERN` against the syllable without tone, in lower case.
pub open spec fn spec_apply_uow(c: Seq<TransModel>, start: int, im: InputMethodModel, flags: u32) -> Option<TransModel> {
    let flat = canvas(c.subrange(start, c.len() as int), TONE_LESS | LOWER_CASE);
    uow_completion(c, start, im, flags, im.super_keys.len() > 0 && regex_matches(UOW_PATTERN@, flat))
}

/// Completes `uơ` or `ưo` into `ươ` once the pattern test is known (see `uow_completion`).
pub fn complete_uow(im: &InputMethod, flags: u32, syllable: &[Transformation], start: usize, matched: bool) -> (r: Option<Transformation>)
    requires
        start <= syllable@.len(),
    ensures
        r is Some == uow_completion(comp_model(syllable@), start as int, im.model(), flags, matched) is Some,
        r matches Some(t) ==> t.model() == uow_completion(comp_model(syllable@), start as int, im.model(), flags, matched)->0,
{
    if im.super_keys.len() > 0 && matched {
        let super_key = im.super_keys[0];
        let applicable = get_applicable_rules(im, super_key);
        let (target, missing_rule) = find_target_in_slice(syllable, start, &applicable, flags);
        match (target, missing_rule) {
            (Some(tgt_idx), Some(r)) => {
                let t = super::tone::retarget_without_key(&Transformation { rule: r, target: None, is_upper_case: false }, Some(tgt_idx));
                return Some(t);
            },
            _ => {},
        }
    }
    None
}

/// Shortcut logic for typing `uow` sequences.
fn apply_uow_shortcut(im: &InputMethod, flags: u32, syllable: &[Transformation], start: usize) -> (r: Option<Transformation>)
    requires
        start <= syllable@.len(),
    ensures
        r is Some == spec_apply_uow(comp_model(syllable@), start as int, im.model(), flags) is Some,
        r matches Some(t) ==> t.model() == spec_apply_uow(comp_model(syllable@), start as int, im.model(), flags)->0,
{
    let flat = canvas_range(syllable, start, syllable.len(), TONE_LESS | LOWER_CASE);
    let flat_text = string_of(&flat);
    let matched = im.super_keys.len() > 0 && regex_is_match(UOW_PATTERN, flat_text.as_str());
    complete_uow(im, flags, syllable, start, matched)
}


/// Whether the key repeats the last appending key of the syllable, whose letter it had
/// changed: typing an effect key twice undoes it.
pub open spec fn double_typing(c: Seq<TransModel>, start: int, key: char) -> bool {
    &&& c.len() > start
    &&& c.last().rule.effect_type == EffectType::Appending
    &&& c.last().rule.key == key
    &&& c.last().rule.key != c.last().rule.result
}

/// The transformation that brings back the key typed for a letter.
pub open spec fn raw_trans(target: usize, is_upper_case: bool) -> TransModel {
    plain_trans('\0', 5, EffectType::MarkTransformation, '\0', '\0', Some(target), is_upper_case)
}

/// The transformation that clears the mark of the first vowel of a syllable.
pub open spec fn clear_first_vowel(target: usize) -> TransModel {
    plain_trans('\0', 0, EffectType::MarkTransformation, '\0', '\0', Some(target), false)
}

/// `ưo` or `ươ` followed by a key that applies elsewhere, given whether the syllable from
/// `start` matched the pattern: the first vowel loses its mark and the key applies where it
/// now can.
pub open spec fn uh_o_completion(
    c: Seq<TransModel>,
    start: int,
    rules: Seq<RuleModel>,
    flags: u32,
    is_upper_case: bool,
    matched: bool,
) -> Option<Seq<TransModel>> {
    if matched {
        let vowels = filter_appending(c, cvc_indices(c, start).1);
        if vowels.len() > 0 {
            let t0 = clear_first_vowel(vowels[0]);
            match spec_find_target(c.push(t0), start, rules, flags) {
                (Some(ta), Some(ra)) => if ta != vowels[0] {
                    Some(seq![t0, TransModel { rule: ra, target: Some(ta), is_upper_case }])
                } else {
                    None
                },
                _ => None,
            }
        } else {
            None
        }
    } else {
        None
    }
}

/// The `ươ` shortcut of the syllable from `start` (see `uh_o_completion`), the match being
/// of `UHO_PATTERN` against the syllable without tone, in lower case.
pub open spec fn uh_o_shortcut(
    c: Seq<TransModel>,
    start: int,
    rules: Seq<RuleModel>,
    flags: u32,
    is_upper_case: bool,
) -> Option<Seq<TransModel>> {
    uh_o_completion(c, start, rules, flags, is_upper_case, regex_matches(UHO_PATTERN@, canvas(c.subrange(start, c.len() as int), undo_mode())))
}

/// The first decisions of a keystroke, and whether they are final: a rule that applies to a
/// letter (a mark that spoils the spelling brings along the rule that completes it), else
/// the `ươ` shortcut, else the undoing of what the key did followed by the key itself.
pub open spec fn phase_a(
    c: Seq<TransModel>,
    start: int,
    rules: Seq<RuleModel>,
    flags: u32,
    key: char,
    is_upper_case: bool,
) -> (bool, Seq<TransModel>) {
    let (target, arule) = spec_find_target(c, start, rules, flags);
    if target is Some && arule is Some {
        let t1 = seq![TransModel { rule: arule->0, target, is_upper_case }];
        if arule->0.effect_type != EffectType::MarkTransformation {
            (true, t1)
        } else if spec_is_valid_slice(c + t1, start, true) {
            (true, t1)
        } else {
            match spec_find_target(c + t1, start, rules, flags) {
                (Some(tv), Some(vr)) => (
                    true,
                    t1.push(TransModel { rule: without_key(vr), target: Some(tv), is_upper_case: false }),
                ),
                _ => (false, t1),
            }
        }
    } else {
        match uh_o_shortcut(c, start, rules, flags, is_upper_case) {
            Some(t) => (true, t),
            None => {
                let undo = spec_generate_undo(c, start, rules, flags);
                if undo.len() > 0 {
                    (false, undo.push(appending_trans(key, is_upper_case)))
                } else {
                    (false, Seq::empty())
                }
            },
        }
    }
}

/// When nothing was decided, what the key writes, completed by the `ươ` rule when it applies.
pub open spec fn phase_b(
    c: Seq<TransModel>,
    start: int,
    rules: Seq<RuleModel>,
    im: InputMethodModel,
    flags: u32,
    key: char,
    is_upper_case: bool,
    trans: Seq<TransModel>,
) -> Seq<TransModel> {
    if trans.len() == 0 {
        let fb = spec_fallback(rules, key, is_upper_case);
        match spec_apply_uow(c + fb, start, im, flags) {
            Some(v) => fb.push(v),
            None => fb,
        }
    } else {
        trans
    }
}

/// The transformations of a keystroke on the syllable from `start`.
pub open spec fn spec_generate(
    c: Seq<TransModel>,
    start: int,
    rules: Seq<RuleModel>,
    im: InputMethodModel,
    flags: u32,
    key: char,
    is_upper_case: bool,
) -> Seq<TransModel> {
    if double_typing(c, start, key) {
        seq![raw_trans((c.len() - 1) as usize, is_upper_case)]
    } else {
        let (done, t) = phase_a(c, start, rules, flags, key, is_upper_case);
        if done {
            t
        } else {
            let t2 = phase_b(c, start, rules, im, flags, key, is_upper_case, t);
            t2 + crate::engine::tone::spec_refresh_last_tone_target(
                c + t2,
                start,
                has_flag(flags, ESTD_TONE_STYLE),
            )
        }
    }
}

/// The `ươ` shortcut once the pattern test is known (see `uh_o_completion`).
pub fn complete_uh_o(composition: &[Transformation], start: usize, rules: &Vec<Rule>, flags: u32, is_upper_case: bool, matched: bool) -> (r: Option<Vec<Transformation>>)
    requires
        start <= composition@.len(),
    ensures
        r is Some == uh_o_completion(comp_model(composition@), start as int, rules_model(rules@), flags, is_upper_case, matched) is Some,
        r matches Some(v) ==> comp_model(v@) == uh_o_completion(comp_model(composition@), start as int, rules_model(rules@), flags, is_upper_case, matched)->0,
{
    let ghost c = comp_model(composition@);
    if matched {
        let right = get_right_most_vowels_start(composition, start);
        let vowels = filter_appending_composition(composition, right);
        if vowels.len() > 0 {
            let mut temp = clone_composition(composition);
            push_trans(&mut temp, new_trans('\0', 0, EffectType::MarkTransformation, '\0', '\0', Some(vowels[0]), false));
            let (target_alt, rule_alt) = find_target_in_slice(temp.as_slice(), start, rules, flags);
            match (target_alt, rule_alt) {
                (Some(tgt_alt_idx), Some(r_alt)) => {
                    if tgt_alt_idx != vowels[0] {
                        let mut out: Vec<Transformation> = Vec::new();
                        push_trans(&mut out, new_trans('\0', 0, EffectType::MarkTransformation, '\0', '\0', Some(vowels[0]), false));
                        push_trans(&mut out, Transformation { rule: r_alt, target: Some(tgt_alt_idx), is_upper_case });
                        assert(comp_model(out@) =~= uh_o_completion(c, start as int, rules_model(rules@), flags, is_upper_case, matched)->0);
                        return Some(out);
                    }
                },
                _ => {},
            }
        }
    }
    None
}

/// The `ươ` shortcut (see `uh_o_shortcut`).
fn try_uh_o_shortcut(composition: &[Transformation], start: usize, rules: &Vec<Rule>, flags: u32, is_upper_case: bool) -> (r: Option<Vec<Transformation>>)
    requires
        start <= composition@.len(),
    ensures
        r is Some == uh_o_shortcut(comp_model(composition@), start as int, rules_model(rules@), flags, is_upper_case) is Some,
        r matches Some(v) ==> comp_model(v@) == uh_o_shortcut(comp_model(composition@), start as int, rules_model(rules@), flags, is_upper_case)->0,
{
    let lower_flat = canvas_range(composition, start, composition.len(), VIETNAMESE_MODE | TONE_LESS | LOWER_CASE);
    let lower_text = string_of(&lower_flat);
    let matched = regex_is_match(UHO_PATTERN, lower_text.as_str());
    complete_uh_o(composition, start, rules, flags, is_upper_case, matched)
}

/// The first decisions of a keystroke (see `phase_a`).
fn phase_a_exec(composition: &[Transformation], start: usize, rules: &Vec<Rule>, flags: u32, lower_key: char, is_upper_case: bool) -> (r: (bool, Vec<Transformation>))
    requires
        start <= composition@.len(),
    ensures
        r.0 == phase_a(comp_model(composition@), start as int, rules_model(rules@), flags, lower_key, is_upper_case).0,
        comp_model(r.1@) == phase_a(comp_model(composition@), start as int, rules_model(rules@), flags, lower_key, is_upper_case).1,
{
    let ghost c = comp_model(composition@);
    let ghost rs = rules_model(rules@);
    let mut transformations: Vec<Transformation> = Vec::new();
    let (target, applicable_rule) = find_target_in_slice(composition, start, rules, flags);
    match (target, applicable_rule) {
        (Some(tgt_idx), Some(rule)) => {
            proof {
                lemma_rule_model(rule);
            }
            let is_mark = match rule.effect_type {
                EffectType::MarkTransformation => true,
                _ => false,
            };
            let ghost sp = spec_find_target(c, start as int, rs, flags);
            let ghost rm = rule.model();
            assert(sp.0 == Some(tgt_idx));
            assert(sp.1 == Some(rm));
            push_trans(&mut transformations, Transformation { rule, target: Some(tgt_idx), is_upper_case });
            let ghost t1 = comp_model(transformations@);
            assert(t1 =~= seq![TransModel { rule: sp.1->0, target: sp.0, is_upper_case }]);
            assert(is_mark == (rm.effect_type == EffectType::MarkTransformation));
            if !is_mark {
                return (true, transformations);
            }
            let temp = concat_composition(composition, transformations.as_slice());
            assert(comp_model(temp@).len() == temp@.len());
            assert(comp_model(composition@).len() == composition@.len());
            assert(comp_model(temp@) == c + t1);
            if is_valid_slice(temp.as_slice(), start, true) {
                return (true, transformations);
            }
            let (target_v, virtual_rule) = find_target_in_slice(temp.as_slice(), start, rules, flags);
            match (target_v, virtual_rule) {
                (Some(tgt_v_idx), Some(v_rule)) => {
                    let t = super::tone::retarget_without_key(&Transformation { rule: v_rule, target: None, is_upper_case: false }, Some(tgt_v_idx));
                    push_trans(&mut transformations, t);
                    return (true, transformations);
                },
                _ => {
                    return (false, transformations);
                },
            }
        },
        _ => {
            match try_uh_o_shortcut(composition, start, rules, flags, is_upper_case) {
                Some(t) => {
                    return (true, t);
                },
                None => {},
            }
            let undo_trans = generate_undo_transformations(composition, start, rules, flags);
            if undo_trans.len() > 0 {
                append_trans_local(&mut transformations, undo_trans);
                push_trans(&mut transformations, new_appending_trans(lower_key, is_upper_case));
            }
            assert(comp_model(transformations@) =~= phase_a(c, start as int, rs, flags, lower_key, is_upper_case).1);
            (false, transformations)
        },
    }
}

/// Appends transformations.
fn append_trans_local(v: &mut Vec<Transformation>, add: Vec<Transformation>)
    ensures
        comp_model(final(v)@) == comp_model(old(v)@) + comp_model(add@),
{
    super::canvas::append_trans(v, add);
}

/// Computes and generates transformations needed to apply a key stroke to the current syllable.
pub fn generate_transformations(
    im: &InputMethod,
    flags: u32,
    composition: &[Transformation],
    start: usize,
    rules: &Vec<Rule>,
    lower_key: char,
    is_upper_case: bool,
) -> (r: Vec<Transformation>)
    requires
        start <= composition@.len(),
    ensures
        comp_model(r@) == spec_generate(comp_model(composition@), start as int, rules_model(rules@), im.model(), flags, lower_key, is_upper_case),
{
    let ghost c = comp_model(composition@);
    let ghost rs = rules_model(rules@);
    let n = composition.len();
    if n > start {
        let last_trans_idx = n - 1;
        let rule = &composition[last_trans_idx].rule;
        proof {
            lemma_rule_model(*rule);
        }
        let is_appending = match rule.effect_type {
            EffectType::Appending => true,
            _ => false,
        };
        if is_appending && rule.key == lower_key && rule.key != rule.result {
            let mut transformations: Vec<Transformation> = Vec::new();
            push_trans(
                &mut transformations,
                new_trans('\0', 5, EffectType::MarkTransformation, '\0', '\0', Some(last_trans_idx), is_upper_case),
            );
            assert(comp_model(transformations@) =~= spec_generate(c, start as int, rs, im.model(), flags, lower_key, is_upper_case));
            return transformations;
        }
    }
    let (done, mut transformations) = phase_a_exec(composition, start, rules, flags, lower_key, is_upper_case);
    if done {
        return transformations;
    }
    if transformations.len() == 0 {
        let fallback = generate_fallback_transformations(rules, lower_key, is_upper_case);
        append_trans_local(&mut transformations, fallback);
        let temp = concat_composition(composition, transformations.as_slice());
        assert(comp_model(temp@).len() == temp@.len());
        assert(comp_model(composition@).len() == composition@.len());
        match apply_uow_shortcut(im, flags, temp.as_slice(), start) {
            Some(virtual_trans) => {
                push_trans(&mut transformations, virtual_trans);
            },
            None => {},
        }
    }
    let temp = concat_composition(composition, transformations.as_slice());
    assert(comp_model(temp@).len() == temp@.len());
    assert(comp_model(composition@).len() == composition@.len());
    let tone_adjust = super::tone::refresh_last_tone_target(temp.as_slice(), start, (flags & ESTD_TONE_STYLE) != 0);
    append_trans_local(&mut transformations, tone_adjust);
    transformations
}

} // verus!
