//! Where the tone of a syllable goes, and whether a syllable is spelled right.

use vstd::prelude::*;
use crate::charset::spec_is_alpha;
use crate::rules::{lemma_rule_model, EffectType, RuleModel, Tone, tone_from_value};
use crate::spelling::{is_valid_cvc, spec_is_valid_cvc};
use crate::text::string_of;
use super::canvas::{
    canvas, canvas_range, clone_transformation, comp_model, get_canvas, new_trans, plain_trans,
    TransModel, Transformation,
};
use super::syllable::{all_in, cvc_indices, extract_cvc_trans_indices, filter_appending, filter_appending_composition};
use super::{ENGLISH_MODE, LOWER_CASE, MARK_LESS, TONE_LESS, VIETNAMESE_MODE};

verus! {

/// The transformations at the given positions, in order.
pub open spec fn pick(c: Seq<TransModel>, idxs: Seq<usize>) -> Seq<TransModel> {
    Seq::new(idxs.len(), |k: int| c[idxs[k] as int])
}

/// Copies of the transformations at the given positions.
pub fn pick_composition(composition: &[Transformation], idxs: &Vec<usize>) -> (r: Vec<Transformation>)
    requires
        all_in(idxs@, 0, composition@.len() as int),
    ensures
        comp_model(r@) == pick(comp_model(composition@), idxs@),
{
    let mut r: Vec<Transformation> = Vec::new();
    let mut k: usize = 0;
    while k < idxs.len()
        invariant
            k <= idxs@.len(),
            all_in(idxs@, 0, composition@.len() as int),
            r@.len() == k,
            forall|j: int| 0 <= j < k ==> #[trigger] r@[j].model() == composition@[idxs@[j] as int].model(),
        decreases idxs@.len() - k,
    {
        r.push(clone_transformation(&composition[idxs[k]]));
        k = k + 1;
    }
    assert(comp_model(r@) =~= pick(comp_model(composition@), idxs@));
    r
}

/// Whether a sequence of characters is the one character `a`.
fn is_chars1(v: &Vec<char>, a: char) -> (r: bool)
    ensures
        r == (v@ == seq![a]),
{
    let r = v.len() == 1 && v[0] == a;
    proof {
        if r {
            assert(v@ =~= seq![a]);
        }
    }
    r
}

/// Whether a sequence of characters is `a` then `b`.
fn is_chars2(v: &Vec<char>, a: char, b: char) -> (r: bool)
    ensures
        r == (v@ == seq![a, b]),
{
    let r = v.len() == 2 && v[0] == a && v[1] == b;
    proof {
        if r {
            assert(v@ =~= seq![a, b]);
        }
    }
    r
}

/// Whether a sequence of characters is `a`, `b`, then `c`.
fn is_chars3(v: &Vec<char>, a: char, b: char, c: char) -> (r: bool)
    ensures
        r == (v@ == seq![a, b, c]),
{
    let r = v.len() == 3 && v[0] == a && v[1] == b && v[2] == c;
    proof {
        if r {
            assert(v@ =~= seq![a, b, c]);
        }
    }
    r
}

/// The mode in which tone placement reads vowels: keys as typed, lower case, without tone
/// or mark.
pub open spec fn plain_key_mode() -> u32 {
    ENGLISH_MODE | LOWER_CASE | TONE_LESS | MARK_LESS
}

/// Under the standard style, the vowel that takes the tone because it is `ơ` or `ê`: the last
/// such one, by the letter it changes if it targets one.
pub open spec fn std_pick(c: Seq<TransModel>, vo: Seq<usize>) -> Option<usize>
    decreases vo.len(),
{
    if vo.len() == 0 {
        None
    } else {
        let idx = vo.last();
        let res = c[idx as int].rule.result;
        if res == 'ơ' || res == 'ê' {
            if c[idx as int].target is Some {
                c[idx as int].target
            } else {
                Some(idx)
            }
        } else {
            std_pick(c, vo.drop_last())
        }
    }
}

/// Which vowel of the word from `start` takes the tone. One vowel takes it; of two, the
/// standard style picks `ơ` or `ê`, else the second when a last consonant follows and the
/// first otherwise, while the old style takes the second before a last consonant and in
/// `oa`, `oe`, `uy`, `ue`, `uo`, and the first otherwise; of three, the last in `uye` and the
/// middle one otherwise.
pub open spec fn spec_find_tone_target(c: Seq<TransModel>, start: int, std_style: bool) -> Option<usize> {
    if c.len() <= start {
        None
    } else {
        let (_, vo, lc) = cvc_indices(c, start);
        let vowels = filter_appending(c, vo);
        if vowels.len() == 0 {
            None
        } else if vowels.len() == 1 {
            Some(vowels[0])
        } else if vowels.len() == 2 && std_style {
            match std_pick(c, vo) {
                Some(t) => Some(t),
                None => if lc.len() > 0 {
                    Some(vowels[1])
                } else {
                    Some(vowels[0])
                },
            }
        } else if vowels.len() == 2 {
            if lc.len() > 0 {
                Some(vowels[1])
            } else {
                let flat = canvas(pick(c, vowels), plain_key_mode());
                if flat == seq!['o', 'a'] || flat == seq!['o', 'e'] || flat == seq!['u', 'y'] || flat
                    == seq!['u', 'e'] || flat == seq!['u', 'o'] {
                    Some(vowels[1])
                } else {
                    Some(vowels[0])
                }
            }
        } else if vowels.len() == 3 {
            let flat = canvas(pick(c, vowels), plain_key_mode());
            if flat == seq!['u', 'y', 'e'] {
                Some(vowels[2])
            } else {
                Some(vowels[1])
            }
        } else {
            None
        }
    }
}

/// Determines the vowel transformation index that should receive the tone mark under standard/modern rules.
pub fn find_tone_target(composition: &[Transformation], start: usize, std_style: bool) -> (r: Option<
    usize,
>)
    ensures
        r == spec_find_tone_target(comp_model(composition@), start as int, std_style),
{
    let ghost c = comp_model(composition@);
    if composition.len() <= start {
        return None;
    }
    let (_fc, vo, lc) = extract_cvc_trans_indices(composition, start);
    let vo_copy = crate::rules::clone_chars_usize(&vo);
    let vowels = filter_appending_composition(composition, vo_copy);
    if vowels.len() == 0 {
        return None;
    }
    let mut target: Option<usize> = None;
    if vowels.len() == 1 {
        target = Some(vowels[0]);
    } else if vowels.len() == 2 && std_style {
        let mut k: usize = 0;
        while k < vo.len()
            invariant
                k <= vo@.len(),
                c == comp_model(composition@),
                all_in(vo@, 0, composition@.len() as int),
                target == std_pick(c, vo@.take(k as int)),
            decreases vo@.len() - k,
        {
            let idx = vo[k];
            proof {
                lemma_rule_model(composition@[idx as int].rule);
                assert(vo@.take(k + 1).drop_last() == vo@.take(k as int));
                assert(vo@.take(k + 1).last() == idx);
            }
            let res = composition[idx].rule.result;
            if res == 'ơ' || res == 'ê' {
                match composition[idx].target {
                    Some(t) => {
                        target = Some(t);
                    },
                    None => {
                        target = Some(idx);
                    },
                }
            }
            k = k + 1;
        }
        assert(vo@.take(vo@.len() as int) == vo@);
        if target.is_none() {
            if lc.len() > 0 {
                target = Some(vowels[1]);
            } else {
                target = Some(vowels[0]);
            }
        }
    } else if vowels.len() == 2 {
        if lc.len() > 0 {
            target = Some(vowels[1]);
        } else {
            let sub = pick_composition(composition, &vowels);
            let flat = get_canvas(sub.as_slice(), ENGLISH_MODE | LOWER_CASE | TONE_LESS | MARK_LESS);
            if is_chars2(&flat, 'o', 'a') || is_chars2(&flat, 'o', 'e') || is_chars2(&flat, 'u', 'y')
                || is_chars2(&flat, 'u', 'e') || is_chars2(&flat, 'u', 'o') {
                target = Some(vowels[1]);
            } else {
                target = Some(vowels[0]);
            }
        }
    } else if vowels.len() == 3 {
        let sub = pick_composition(composition, &vowels);
        let flat = get_canvas(sub.as_slice(), ENGLISH_MODE | LOWER_CASE | TONE_LESS | MARK_LESS);
        if is_chars3(&flat, 'u', 'y', 'e') {
            target = Some(vowels[2]);
        } else {
            target = Some(vowels[1]);
        }
    }
    target
}


/// Whether a tone may stand on the word from `start`: the level, acute and dot tones always
/// may, the others not before a last consonant `c`, `k`, `p`, `t` or `ch`.
pub open spec fn spec_has_valid_tone(c: Seq<TransModel>, start: int, tone: Tone) -> bool {
    if tone == Tone::NoTone || tone == Tone::Acute || tone == Tone::Dot {
        true
    } else {
        let lc = cvc_indices(c, start).2;
        if lc.len() == 0 {
            true
        } else {
            let last = canvas(pick(c, lc), ENGLISH_MODE | LOWER_CASE);
            !(last == seq!['c'] || last == seq!['k'] || last == seq!['p'] || last == seq!['t']
                || last == seq!['c', 'h'])
        }
    }
}

/// Checks if the tone is valid for the current vowel/consonant combination.
pub fn has_valid_tone(composition: &[Transformation], start: usize, tone: Tone) -> (r: bool)
    ensures
        r == spec_has_valid_tone(comp_model(composition@), start as int, tone),
{
    if tone == Tone::NoTone || tone == Tone::Acute || tone == Tone::Dot {
        return true;
    }
    let (_fc, _vo, lc) = extract_cvc_trans_indices(composition, start);
    if lc.len() == 0 {
        return true;
    }
    let sub = pick_composition(composition, &lc);
    let last = get_canvas(sub.as_slice(), ENGLISH_MODE | LOWER_CASE);
    !(is_chars1(&last, 'c') || is_chars1(&last, 'k') || is_chars1(&last, 'p') || is_chars1(&last, 't')
        || is_chars2(&last, 'c', 'h'))
}

/// The tone of the last tone transformation among positions `start` to `n`.
pub open spec fn last_tone_from(c: Seq<TransModel>, start: int, n: int) -> Option<Tone>
    decreases n - start,
{
    if n <= start {
        None
    } else if c[n - 1].rule.effect_type == EffectType::ToneTransformation {
        Some(tone_from_value(c[n - 1].rule.effect))
    } else {
        last_tone_from(c, start, n - 1)
    }
}

/// The mode in which spelling reads a syllable: Vietnamese, lower case, without tone.
pub open spec fn spelling_mode() -> u32 {
    VIETNAMESE_MODE | LOWER_CASE | TONE_LESS
}

/// Whether the word from `start` is spelled as Vietnamese spells: a word of at most one
/// transformation is; otherwise the last tone typed must be allowed on it, and its first
/// consonant, vowel and last consonant, each read as a composition of its own, must make a
/// valid syllable.
pub open spec fn spec_is_valid_slice(c: Seq<TransModel>, start: int, input_is_full_complete: bool) -> bool {
    if c.len() - start <= 1 {
        true
    } else {
        let last_tone = last_tone_from(c, start, c.len() as int);
        if last_tone is Some && !spec_has_valid_tone(c, start, last_tone->0) {
            false
        } else {
            let (fc, vo, lc) = cvc_indices(c, start);
            spec_is_valid_cvc(
                canvas(pick(c, fc), spelling_mode()),
                canvas(pick(c, vo), spelling_mode()),
                canvas(pick(c, lc), spelling_mode()),
                input_is_full_complete,
            )
        }
    }
}

/// The text that a part of a syllable stands for, read as a composition of its own.
fn part_text(composition: &[Transformation], idxs: &Vec<usize>, mode: u32) -> (r: String)
    requires
        all_in(idxs@, 0, composition@.len() as int),
    ensures
        r@ == canvas(pick(comp_model(composition@), idxs@), mode),
{
    let sub = pick_composition(composition, idxs);
    let chars = get_canvas(sub.as_slice(), mode);
    string_of(&chars)
}

/// Validates spelling constraints of a composition slice starting from a specified index.
pub fn is_valid_slice(composition: &[Transformation], start: usize, input_is_full_complete: bool) -> (r:
    bool)
    requires
        start <= composition@.len(),
    ensures
        r == spec_is_valid_slice(comp_model(composition@), start as int, input_is_full_complete),
{
    let ghost c = comp_model(composition@);
    let n = composition.len();
    if n - start <= 1 {
        return true;
    }
    let mut last_tone: Option<Tone> = None;
    let mut i = n;
    while i > start
        invariant_except_break
            last_tone is None,
            last_tone_from(c, start as int, n as int) == last_tone_from(c, start as int, i as int),
        invariant
            start <= i <= n,
            n == composition@.len(),
            c == comp_model(composition@),
        ensures
            last_tone == last_tone_from(c, start as int, n as int),
        decreases i,
    {
        proof {
            lemma_rule_model(composition@[i - 1].rule);
        }
        if composition[i - 1].rule.effect_type == EffectType::ToneTransformation {
            last_tone = Some(Tone::from_u8(composition[i - 1].rule.effect));
            break;
        }
        i = i - 1;
    }
    assert(last_tone == last_tone_from(c, start as int, n as int));
    if let Some(tone) = last_tone {
        if !has_valid_tone(composition, start, tone) {
            return false;
        }
    }
    let (fc, vo, lc) = extract_cvc_trans_indices(composition, start);
    let flatten_mode = VIETNAMESE_MODE | LOWER_CASE | TONE_LESS;
    let fc_text = part_text(composition, &fc, flatten_mode);
    let vo_text = part_text(composition, &vo, flatten_mode);
    let lc_text = part_text(composition, &lc, flatten_mode);
    is_valid_cvc(fc_text.as_str(), vo_text.as_str(), lc_text.as_str(), input_is_full_complete)
}

/// The position of the last tone transformation with a target among positions `start` to `n`.
pub open spec fn last_tone_trans(c: Seq<TransModel>, start: int, n: int) -> Option<usize>
    decreases n - start,
{
    if n <= start {
        None
    } else if c[n - 1].rule.effect_type == EffectType::ToneTransformation && c[n - 1].target is Some {
        Some((n - 1) as usize)
    } else {
        last_tone_trans(c, start, n - 1)
    }
}

/// Retrieves the composition index of the last tone modification step.
pub fn get_last_tone_transformation_idx(composition: &[Transformation], start: usize) -> (r: Option<
    usize,
>)
    requires
        start <= composition@.len(),
    ensures
        r == last_tone_trans(comp_model(composition@), start as int, composition@.len() as int),
        r matches Some(k) ==> start <= k < composition@.len(),
{
    let ghost c = comp_model(composition@);
    let n = composition.len();
    let mut i = n;
    while i > start
        invariant
            start <= i <= n,
            n == composition@.len(),
            c == comp_model(composition@),
            last_tone_trans(c, start as int, n as int) == last_tone_trans(c, start as int, i as int),
        decreases i,
    {
        proof {
            lemma_rule_model(composition@[i - 1].rule);
        }
        let t = &composition[i - 1];
        if t.rule.effect_type == EffectType::ToneTransformation && t.target.is_some() {
            return Some(i - 1);
        }
        i = i - 1;
    }
    None
}

/// A rule value with its key cleared.
pub open spec fn without_key(r: RuleModel) -> RuleModel {
    RuleModel {
        key: '\0',
        effect: r.effect,
        effect_type: r.effect_type,
        effect_on: r.effect_on,
        result: r.result,
        appended: r.appended,
    }
}

/// The transformations that move the last tone of the word from `start` to the vowel that
/// should carry it: none when the word has no vowel or no tone, or when the tone is in its
/// place; otherwise one that clears the tone where it is and one that sets it on its new
/// target.
pub open spec fn spec_refresh_last_tone_target(c: Seq<TransModel>, start: int, std_style: bool) -> Seq<TransModel> {
    let rightmost_vowels = cvc_indices(c, start).1;
    let last_tone_idx = last_tone_trans(c, start, c.len() as int);
    if rightmost_vowels.len() == 0 || last_tone_idx is None {
        Seq::empty()
    } else {
        let lt = c[last_tone_idx->0 as int];
        let new_target = spec_find_tone_target(c, start, std_style);
        if lt.target != new_target {
            seq![
                plain_trans('\0', 0, EffectType::ToneTransformation, '\0', '\0', lt.target, false),
                TransModel { rule: without_key(lt.rule), target: new_target, is_upper_case: false },
            ]
        } else {
            Seq::empty()
        }
    }
}

/// A copy of a transformation's rule with the key cleared, aimed at a target.
pub fn retarget_without_key(t: &Transformation, target: Option<usize>) -> (r: Transformation)
    ensures
        r.model() == (TransModel { rule: without_key(t.model().rule), target, is_upper_case: false }),
{
    let mut rule = crate::rules::clone_rule(&t.rule);
    proof {
        lemma_rule_model(rule);
        lemma_rule_model(t.rule);
    }
    rule.key = '\0';
    proof {
        lemma_rule_model(rule);
        assert(rule.model().appended =~= t.rule.model().appended);
    }
    Transformation { rule, target, is_upper_case: false }
}

/// Recalculates and adjusts the target vowel index receiving the tone diacritic mark in the last word.
pub fn refresh_last_tone_target(composition: &[Transformation], start: usize, std_style: bool) -> (r: Vec<
    Transformation,
>)
    requires
        start <= composition@.len(),
    ensures
        comp_model(r@) == spec_refresh_last_tone_target(comp_model(composition@), start as int, std_style),
{
    let ghost c = comp_model(composition@);
    let mut transformations: Vec<Transformation> = Vec::new();
    let rightmost_vowels = super::syllable::get_right_most_vowels_start(composition, start);
    let last_tone_idx = get_last_tone_transformation_idx(composition, start);
    if rightmost_vowels.len() == 0 || last_tone_idx.is_none() {
        assert(comp_model(transformations@) =~= Seq::<TransModel>::empty());
        return transformations;
    }
    let lt_idx = last_tone_idx.unwrap();
    let last_tone_trans = &composition[lt_idx];
    let new_tone_target = find_tone_target(composition, start, std_style);
    if last_tone_trans.target != new_tone_target {
        transformations.push(
            new_trans('\0', 0, EffectType::ToneTransformation, '\0', '\0', last_tone_trans.target, false),
        );
        transformations.push(retarget_without_key(last_tone_trans, new_tone_target));
    }
    assert(comp_model(transformations@) =~= spec_refresh_last_tone_target(c, start as int, std_style));
    transformations
}

/// Of the vowels of a syllable that are typed letters, in a syllable of three of them other
/// than `u`-`y`-`e`, the middle one takes the tone, in either style; in `u`-`y`-`e` the
/// last one; a single vowel takes it itself.
pub proof fn law_tone_on_vowels(c: Seq<TransModel>, start: int, std_style: bool)
    requires
        0 <= start,
    ensures
        ({
            let vowels = filter_appending(c, cvc_indices(c, start).1);
            let keys = canvas(pick(c, vowels), plain_key_mode());
            &&& vowels.len() == 1 ==> spec_find_tone_target(c, start, std_style) == Some(vowels[0])
            &&& vowels.len() == 3 && keys != seq!['u', 'y', 'e'] ==> spec_find_tone_target(c, start, std_style)
                == Some(vowels[1])
            &&& vowels.len() == 3 && keys == seq!['u', 'y', 'e'] ==> spec_find_tone_target(c, start, std_style)
                == Some(vowels[2])
        }),
{
    if c.len() <= start {
        assert(super::syllable::untargeted_upto(c, start, c.len() as int) =~= Seq::<usize>::empty());
        let (f, v, l) = super::syllable::cvc_appending(c, Seq::<usize>::empty());
        assert(v =~= Seq::<usize>::empty());
        assert(super::syllable::with_targeting(c, start, v) =~= Seq::<usize>::empty());
        assert(filter_appending(c, Seq::<usize>::empty()) =~= Seq::<usize>::empty());
    }
}

} // verus!
