//! Where the parts of a syllable are in a composition: the chain from a transformation to
//! the letter it changes, and the split of a syllable into first consonant, vowel and last
//! consonant.

use vstd::prelude::*;
use crate::charset::{is_vowel, vowel_index};
use crate::rules::{lemma_rule_model, EffectType};
use super::canvas::{comp_model, TransModel, Transformation};

verus! {

/// Whether every index of a sequence lies in `[lo, hi)`.
pub open spec fn all_in(s: Seq<usize>, lo: int, hi: int) -> bool {
    forall|k: int| 0 <= k < s.len() ==> lo <= #[trigger] s[k] < hi
}

/// The transformation reached from position `i` by following targets at most `fuel` times;
/// the walk stops at a transformation without target or whose target lies outside the
/// composition.
pub open spec fn root_target(c: Seq<TransModel>, i: int, fuel: nat) -> int
    decreases fuel,
{
    if fuel == 0 {
        i
    } else {
        match c[i].target {
            Some(t) => if t < c.len() {
                root_target(c, t as int, (fuel - 1) as nat)
            } else {
                i
            },
            None => i,
        }
    }
}

/// Whether following targets from position `i` stays inside the composition and reaches a
/// transformation without target within `fuel` steps.
pub open spec fn chain_ok(c: Seq<TransModel>, i: int, fuel: nat) -> bool
    decreases fuel,
{
    match c[i].target {
        None => true,
        Some(t) => fuel > 0 && t < c.len() && chain_ok(c, t as int, (fuel - 1) as nat),
    }
}

/// Where a good chain of targets ends there is a transformation without target.
pub proof fn lemma_root_target(c: Seq<TransModel>, i: int, fuel: nat)
    requires
        0 <= i < c.len(),
        chain_ok(c, i, fuel),
    ensures
        0 <= root_target(c, i, fuel) < c.len(),
        c[root_target(c, i, fuel)].target is None,
    decreases fuel,
{
    if fuel > 0 {
        if let Some(t) = c[i].target {
            lemma_root_target(c, t as int, (fuel - 1) as nat);
        }
    }
}

/// Follows targets from a position, at most once for each transformation.
pub fn root_target_of(composition: &[Transformation], index: usize) -> (r: usize)
    requires
        index < composition@.len(),
    ensures
        r == root_target(comp_model(composition@), index as int, composition@.len() as nat),
        r < composition@.len(),
{
    let ghost c = comp_model(composition@);
    let n = composition.len();
    let mut i = index;
    let mut fuel = n;
    while fuel > 0
        invariant
            n == composition@.len(),
            c == comp_model(composition@),
            i < n,
            fuel <= n,
            root_target(c, index as int, n as nat) == root_target(c, i as int, fuel as nat),
        decreases fuel,
    {
        match composition[i].target {
            Some(t) => {
                if t < n {
                    i = t;
                    fuel = fuel - 1;
                } else {
                    return i;
                }
            },
            None => {
                return i;
            },
        }
    }
    i
}

/// Follows composition targets to the appending transformation that a chain of changes started from.
pub fn find_root_target(composition: &[Transformation], index: usize) -> (r: usize)
    requires
        index < composition@.len(),
        chain_ok(comp_model(composition@), index as int, composition@.len() as nat),
    ensures
        r == root_target(comp_model(composition@), index as int, composition@.len() as nat),
        r < composition@.len(),
        composition@[r as int].target is None,
{
    proof {
        lemma_root_target(comp_model(composition@), index as int, composition@.len() as nat);
    }
    root_target_of(composition, index)
}

/// Whether no transformation from `start` on targets `target` with the given effect.
pub open spec fn spec_is_free(c: Seq<TransModel>, start: int, target: usize, effect_type: EffectType) -> bool {
    forall|i: int|
        start <= i < c.len() ==> !(#[trigger] c[i].target == Some(target) && c[i].rule.effect_type
            == effect_type)
}

/// Checks if a target index has not been modified by a specific effect type.
pub fn is_free(composition: &[Transformation], start: usize, target: usize, effect_type: EffectType) -> (r: bool)
    ensures
        r == spec_is_free(comp_model(composition@), start as int, target, effect_type),
{
    let ghost c = comp_model(composition@);
    let mut i = start;
    while i < composition.len()
        invariant
            start <= i,
            c == comp_model(composition@),
            forall|j: int|
                start <= j < i && j < c.len() ==> !(#[trigger] c[j].target == Some(target)
                    && c[j].rule.effect_type == effect_type),
        decreases composition@.len() - i,
    {
        proof {
            lemma_rule_model(composition@[i as int].rule);
        }
        let t = &composition[i];
        if t.target == Some(target) && t.rule.effect_type == effect_type {
            assert(c[i as int].target == Some(target));
            return false;
        }
        i = i + 1;
    }
    true
}

/// The indices of a sequence that name an appending transformation of the composition, in
/// order.
pub open spec fn filter_appending(c: Seq<TransModel>, indices: Seq<usize>) -> Seq<usize>
    decreases indices.len(),
{
    if indices.len() == 0 {
        Seq::empty()
    } else {
        let idx = indices.last();
        filter_appending(c, indices.drop_last()) + if idx < c.len() && c[idx as int].rule.effect_type
            == EffectType::Appending {
            seq![idx]
        } else {
            Seq::empty()
        }
    }
}

/// Filters indices, keeping only those representing active Appending transformations in composition.
pub fn filter_appending_composition(composition: &[Transformation], indices: Vec<usize>) -> (r: Vec<
    usize,
>)
    ensures
        r@ == filter_appending(comp_model(composition@), indices@),
        all_in(r@, 0, composition@.len() as int),
{
    let ghost c = comp_model(composition@);
    let mut r: Vec<usize> = Vec::new();
    let mut k: usize = 0;
    while k < indices.len()
        invariant
            k <= indices@.len(),
            c == comp_model(composition@),
            r@ == filter_appending(c, indices@.take(k as int)),
            all_in(r@, 0, composition@.len() as int),
        decreases indices@.len() - k,
    {
        assert(indices@.take(k + 1).drop_last() == indices@.take(k as int));
        let idx = indices[k];
        if idx < composition.len() {
            proof {
                lemma_rule_model(composition@[idx as int].rule);
            }
            match composition[idx].rule.effect_type {
                EffectType::Appending => {
                    r.push(idx);
                },
                _ => {},
            }
        }
        k = k + 1;
    }
    assert(indices@.take(indices@.len() as int) == indices@);
    r
}

/// Whether a transformation is a letter of the other kind than the run being collected: it
/// has no target and is a vowel exactly when the run is of consonants.
pub open spec fn ends_run(t: TransModel, last_is_vowel: bool) -> bool {
    t.target is None && last_is_vowel != (vowel_index(t.rule.result) is Some)
}

/// Splits off the trailing run of a sequence of indices: from the end, indices are moved in
/// front of `last` until one names a letter of the other kind.
pub open spec fn atomic_split(
    c: Seq<TransModel>,
    indices: Seq<usize>,
    last: Seq<usize>,
    last_is_vowel: bool,
) -> (Seq<usize>, Seq<usize>)
    decreases indices.len(),
{
    if indices.len() == 0 {
        (Seq::empty(), last)
    } else {
        let li = indices.last();
        if ends_run(c[li as int], last_is_vowel) {
            (indices, last)
        } else {
            atomic_split(c, indices.drop_last(), seq![li] + last, last_is_vowel)
        }
    }
}

/// Internal helper to extract segment transformations.
fn extract_atomic_trans(composition: &[Transformation], indices: &Vec<usize>, last_is_vowel: bool) -> (r: (
    Vec<usize>,
    Vec<usize>,
))
    requires
        all_in(indices@, 0, composition@.len() as int),
    ensures
        (r.0@, r.1@) == atomic_split(comp_model(composition@), indices@, Seq::empty(), last_is_vowel),
        r.0@ == indices@.take(r.0@.len() as int),
        r.1@ == indices@.skip(r.0@.len() as int),
        r.0@.len() <= indices@.len(),
{
    let ghost c = comp_model(composition@);
    let mut k = indices.len();
    assert(indices@.skip(k as int) =~= Seq::<usize>::empty());
    assert(indices@.take(k as int) =~= indices@);
    loop
        invariant_except_break
            atomic_split(c, indices@, Seq::empty(), last_is_vowel) == atomic_split(
                c,
                indices@.take(k as int),
                indices@.skip(k as int),
                last_is_vowel,
            ),
        invariant
            k <= indices@.len(),
            c == comp_model(composition@),
            all_in(indices@, 0, composition@.len() as int),
        ensures
            atomic_split(c, indices@, Seq::empty(), last_is_vowel) == (
                indices@.take(k as int),
                indices@.skip(k as int),
            ),
        decreases k,
    {
        if k == 0 {
            assert(indices@.take(0) =~= Seq::<usize>::empty());
            assert(indices@.skip(0) =~= indices@);
            break;
        }
        let li = indices[k - 1];
        proof {
            lemma_rule_model(composition@[li as int].rule);
        }
        let t = &composition[li];
        if t.target.is_none() && last_is_vowel != is_vowel(t.rule.result) {
            assert(indices@.take(k as int).last() == li);
            break;
        }
        proof {
            assert(indices@.take(k as int).drop_last() =~= indices@.take(k - 1));
            assert(seq![li] + indices@.skip(k as int) =~= indices@.skip(k - 1));
        }
        k = k - 1;
    }
    let mut head: Vec<usize> = Vec::new();
    let mut tail: Vec<usize> = Vec::new();
    let mut j: usize = 0;
    while j < indices.len()
        invariant
            k <= indices@.len(),
            j <= indices@.len(),
            head@ == indices@.take(if j < k { j as int } else { k as int }),
            atomic_split(comp_model(composition@), indices@, Seq::empty(), last_is_vowel) == (
                indices@.take(k as int),
                indices@.skip(k as int),
            ),
            tail@ == if j <= k { Seq::<usize>::empty() } else { indices@.subrange(k as int, j as int) },
        decreases indices@.len() - j,
    {
        if j < k {
            head.push(indices[j]);
            assert(indices@.take(j + 1) =~= indices@.take(j as int).push(indices@[j as int]));
        } else {
            tail.push(indices[j]);
            assert(indices@.subrange(k as int, j + 1) =~= (if j <= k { Seq::<usize>::empty() } else {
                indices@.subrange(k as int, j as int)
            }).push(indices@[j as int]));
        }
        j = j + 1;
    }
    assert(tail@ =~= indices@.skip(k as int));
    (head, tail)
}


/// Whether a lone first consonant takes the first vowel letter along: `g` before `i` when
/// more vowels follow (but not `i`, `e` with a last consonant), and `q` before `u`.
pub open spec fn takes_first_vowel(c: Seq<TransModel>, fc: Seq<usize>, vo: Seq<usize>, lc: Seq<usize>) -> bool {
    let fc_char = c[fc[0] as int].rule.result;
    let v0_char = c[vo[0] as int].rule.result;
    let cond_g = fc_char == 'g' && v0_char == 'i' && vo.len() > 1 && !(vo[1] < c.len() && c[vo[1] as int].rule.result
        == 'e' && lc.len() > 0);
    let cond_q = fc_char == 'q' && v0_char == 'u';
    cond_g || cond_q
}

/// A word split into first consonant, vowel and last consonant: the trailing run of
/// consonants is the last consonant, the run of vowels before it the vowel, and what comes
/// before the first consonant. A word of consonants only is a first consonant; `gi` and
/// `qu` count as first consonants.
pub open spec fn cvc_appending(c: Seq<TransModel>, indices: Seq<usize>) -> (Seq<usize>, Seq<usize>, Seq<usize>) {
    let (head, lc) = atomic_split(c, indices, Seq::empty(), false);
    let (fc, vo) = atomic_split(c, head, Seq::empty(), true);
    if lc.len() == 0 && vo.len() == 0 && fc.len() == 0 {
        (Seq::empty(), Seq::empty(), Seq::empty())
    } else if lc.len() > 0 && vo.len() == 0 && fc.len() == 0 {
        (lc, Seq::empty(), Seq::empty())
    } else if fc.len() == 1 && vo.len() > 0 && takes_first_vowel(c, fc, vo, lc) {
        (fc.push(vo[0]), vo.drop_first(), lc)
    } else {
        (fc, vo, lc)
    }
}

/// The split of a sequence of indices, computed on a vector.
fn cvc_of(composition: &[Transformation], indices: &Vec<usize>) -> (r: (Vec<usize>, Vec<usize>, Vec<usize>))
    requires
        all_in(indices@, 0, composition@.len() as int),
    ensures
        (r.0@, r.1@, r.2@) == cvc_appending(comp_model(composition@), indices@),
        all_in(r.0@, 0, composition@.len() as int),
        all_in(r.1@, 0, composition@.len() as int),
        all_in(r.2@, 0, composition@.len() as int),
{
    let ghost c = comp_model(composition@);
    let n = composition.len();
    let (head, last_consonant) = extract_atomic_trans(composition, indices, false);
    assert(all_in(head@, 0, n as int)) by {
        assert forall|k: int| 0 <= k < head@.len() implies 0 <= #[trigger] head@[k] < n by {
            assert(head@[k] == indices@[k]);
        }
    }
    assert(all_in(last_consonant@, 0, n as int)) by {
        assert forall|k: int| 0 <= k < last_consonant@.len() implies 0 <= #[trigger] last_consonant@[k] < n by {
            assert(last_consonant@[k] == indices@[k + head@.len()]);
        }
    }
    let (first_consonant, vowel) = extract_atomic_trans(composition, &head, true);
    assert(all_in(first_consonant@, 0, n as int)) by {
        assert forall|k: int| 0 <= k < first_consonant@.len() implies 0 <= #[trigger] first_consonant@[k] < n by {
            assert(first_consonant@[k] == head@[k]);
        }
    }
    assert(all_in(vowel@, 0, n as int)) by {
        assert forall|k: int| 0 <= k < vowel@.len() implies 0 <= #[trigger] vowel@[k] < n by {
            assert(vowel@[k] == head@[k + first_consonant@.len()]);
        }
    }
    let mut first_consonant = first_consonant;
    let mut vowel = vowel;
    if last_consonant.len() == 0 && vowel.len() == 0 && first_consonant.len() == 0 {
        return (Vec::new(), Vec::new(), Vec::new());
    }
    if last_consonant.len() > 0 && vowel.len() == 0 && first_consonant.len() == 0 {
        return (last_consonant, Vec::new(), Vec::new());
    }
    if first_consonant.len() == 1 && vowel.len() > 0 {
        let fc_idx = first_consonant[0];
        let v0_idx = vowel[0];
        proof {
            lemma_rule_model(composition@[fc_idx as int].rule);
            lemma_rule_model(composition@[v0_idx as int].rule);
        }
        let fc_char = composition[fc_idx].rule.result;
        let v0_char = composition[v0_idx].rule.result;
        let cond_e = if vowel.len() > 1 && vowel[1] < composition.len() {
            proof {
                lemma_rule_model(composition@[vowel@[1] as int].rule);
            }
            composition[vowel[1]].rule.result == 'e'
        } else {
            false
        };
        let cond_g = fc_char == 'g' && v0_char == 'i' && vowel.len() > 1 && !(cond_e
            && !last_consonant.is_empty());
        let cond_q = fc_char == 'q' && v0_char == 'u';
        if cond_g || cond_q {
            let ghost vs = vowel@;
            first_consonant.push(vowel[0]);
            vowel.remove(0);
            assert(all_in(vowel@, 0, n as int)) by {
                assert forall|k: int| 0 <= k < vowel@.len() implies 0 <= #[trigger] vowel@[k] < n by {
                    assert(vowel@[k] == vs[k + 1]);
                }
            }
        }
    }
    (first_consonant, vowel, last_consonant)
}


/// Splits composition indices into First Consonant, Vowel, and Last Consonant lists of raw characters.
pub fn extract_cvc_appending_trans(composition: &[Transformation], indices: &[usize]) -> (r: (
    Vec<usize>,
    Vec<usize>,
    Vec<usize>,
))
    requires
        all_in(indices@, 0, composition@.len() as int),
    ensures
        (r.0@, r.1@, r.2@) == cvc_appending(comp_model(composition@), indices@),
{
    let v = vstd::slice::slice_to_vec(indices);
    cvc_of(composition, &v)
}

/// The positions from `start` to `n` of transformations without target, in order.
pub open spec fn untargeted_upto(c: Seq<TransModel>, start: int, n: int) -> Seq<usize>
    decreases n - start,
{
    if n <= start {
        Seq::empty()
    } else {
        untargeted_upto(c, start, n - 1) + if c[n - 1].target is None {
            seq![(n - 1) as usize]
        } else {
            Seq::empty()
        }
    }
}

/// The positions from `start` to `n` of transformations that target `t`, in order.
pub open spec fn targeting_upto(c: Seq<TransModel>, start: int, t: usize, n: int) -> Seq<usize>
    decreases n - start,
{
    if n <= start {
        Seq::empty()
    } else {
        targeting_upto(c, start, t, n - 1) + if c[n - 1].target == Some(t) {
            seq![(n - 1) as usize]
        } else {
            Seq::empty()
        }
    }
}

/// Each position of a sequence followed by the positions from `start` on that target it.
pub open spec fn with_targeting(c: Seq<TransModel>, start: int, xs: Seq<usize>) -> Seq<usize>
    decreases xs.len(),
{
    if xs.len() == 0 {
        Seq::empty()
    } else {
        with_targeting(c, start, xs.drop_last()) + seq![xs.last()] + targeting_upto(
            c,
            start,
            xs.last(),
            c.len() as int,
        )
    }
}

/// The word from `start` split into first consonant, vowel and last consonant, each part
/// listing its letters with the transformations that target them.
pub open spec fn cvc_indices(c: Seq<TransModel>, start: int) -> (Seq<usize>, Seq<usize>, Seq<usize>) {
    let (fc, vo, lc) = cvc_appending(c, untargeted_upto(c, start, c.len() as int));
    (with_targeting(c, start, fc), with_targeting(c, start, vo), with_targeting(c, start, lc))
}

/// Each position followed by the positions from `start` on that target it.
fn full_group(composition: &[Transformation], start: usize, xs: &Vec<usize>) -> (r: Vec<usize>)
    requires
        all_in(xs@, 0, composition@.len() as int),
    ensures
        r@ == with_targeting(comp_model(composition@), start as int, xs@),
        all_in(r@, 0, composition@.len() as int),
{
    let ghost c = comp_model(composition@);
    let n = composition.len();
    let mut r: Vec<usize> = Vec::new();
    let mut k: usize = 0;
    while k < xs.len()
        invariant
            k <= xs@.len(),
            n == composition@.len(),
            c == comp_model(composition@),
            all_in(xs@, 0, n as int),
            r@ == with_targeting(c, start as int, xs@.take(k as int)),
            all_in(r@, 0, n as int),
        decreases xs@.len() - k,
    {
        let t = xs[k];
        assert(xs@.take(k + 1).drop_last() == xs@.take(k as int));
        let ghost before = r@;
        r.push(t);
        let mut i = start;
        assert(targeting_upto(c, start as int, t, start as int) =~= Seq::<usize>::empty());
        while i < n
            invariant
                start <= i,
                i <= n || i == start,
                n == composition@.len(),
                c == comp_model(composition@),
                r@ == before + seq![t] + targeting_upto(c, start as int, t, i as int),
                all_in(r@, 0, n as int),
            decreases n - i,
        {
            if composition[i].target == Some(t) {
                r.push(i);
            }
            assert(r@ =~= before + seq![t] + targeting_upto(c, start as int, t, i + 1));
            i = i + 1;
        }
        proof {
            if start > n {
                assert(targeting_upto(c, start as int, t, n as int) =~= Seq::<usize>::empty());
                assert(targeting_upto(c, start as int, t, start as int) =~= Seq::<usize>::empty());
            }
        }
        assert(xs@.take(k + 1).last() == t);
        k = k + 1;
    }
    assert(xs@.take(xs@.len() as int) == xs@);
    r
}

/// Splits and groups composition transformations into First Consonant, Vowel, and Last Consonant index lists.
pub fn extract_cvc_trans_indices(composition: &[Transformation], start: usize) -> (r: (
    Vec<usize>,
    Vec<usize>,
    Vec<usize>,
))
    ensures
        (r.0@, r.1@, r.2@) == cvc_indices(comp_model(composition@), start as int),
        all_in(r.0@, 0, composition@.len() as int),
        all_in(r.1@, 0, composition@.len() as int),
        all_in(r.2@, 0, composition@.len() as int),
{
    let ghost c = comp_model(composition@);
    let n = composition.len();
    let mut appending_list: Vec<usize> = Vec::new();
    let mut i = start;
    while i < n
        invariant
            start <= i,
            i <= n || i == start,
            n == composition@.len(),
            c == comp_model(composition@),
            appending_list@ == untargeted_upto(c, start as int, i as int),
            all_in(appending_list@, 0, n as int),
        decreases n - i,
    {
        if composition[i].target.is_none() {
            appending_list.push(i);
        }
        assert(appending_list@ =~= untargeted_upto(c, start as int, i + 1));
        i = i + 1;
    }
    proof {
        if start > n {
            assert(untargeted_upto(c, start as int, n as int) =~= Seq::<usize>::empty());
        }
    }
    let (fc, vo, lc) = cvc_of(composition, &appending_list);
    let full_fc = full_group(composition, start, &fc);
    let full_vo = full_group(composition, start, &vo);
    let full_lc = full_group(composition, start, &lc);
    assert(appending_list@ == untargeted_upto(c, start as int, c.len() as int));
    let ghost split = cvc_appending(c, untargeted_upto(c, start as int, c.len() as int));
    assert(fc@ == split.0 && vo@ == split.1 && lc@ == split.2);
    (full_fc, full_vo, full_lc)
}

/// Retrieves composition indices corresponding to vowel transformations in the last word.
pub fn get_right_most_vowels_start(composition: &[Transformation], start: usize) -> (r: Vec<usize>)
    ensures
        r@ == cvc_indices(comp_model(composition@), start as int).1,
        all_in(r@, 0, composition@.len() as int),
{
    let (_fc, vo, _lc) = extract_cvc_trans_indices(composition, start);
    vo
}

/// Following targets from a position never moves forward when every target is earlier,
/// and ends at a transformation without target when there is fuel for every step; a
/// transformation without target is its own root.
pub proof fn law_root_target(c: Seq<TransModel>, i: int, fuel: nat)
    requires
        0 <= i < c.len(),
        forall|j: int| 0 <= j < c.len() ==> (#[trigger] c[j].target matches Some(t) ==> t < j),
    ensures
        0 <= root_target(c, i, fuel) <= i,
        fuel > i ==> c[root_target(c, i, fuel)].target is None,
        fuel > i ==> root_target(c, root_target(c, i, fuel), fuel) == root_target(c, i, fuel),
    decreases fuel,
{
    if fuel > 0 {
        if let Some(t) = c[i].target {
            law_root_target(c, t as int, (fuel - 1) as nat);
        }
    }
    let r = root_target(c, i, fuel);
    if fuel > i && fuel > 0 {
        assert(c[r].target is None);
        assert(root_target(c, r, fuel) == r);
    }
}

proof fn lemma_atomic_split_order(c: Seq<TransModel>, indices: Seq<usize>, last: Seq<usize>, last_is_vowel: bool)
    ensures
        atomic_split(c, indices, last, last_is_vowel).0 + atomic_split(c, indices, last, last_is_vowel).1
            == indices + last,
    decreases indices.len(),
{
    if indices.len() > 0 {
        let li = indices.last();
        if !ends_run(c[li as int], last_is_vowel) {
            lemma_atomic_split_order(c, indices.drop_last(), seq![li] + last, last_is_vowel);
            assert(indices.drop_last() + (seq![li] + last) =~= indices + last);
        }
    } else {
        assert(Seq::<usize>::empty() + last =~= indices + last);
    }
}

/// Splitting indices into first consonant, vowel and last consonant loses, adds and
/// reorders none of them.
pub proof fn law_cvc_split_keeps_order(c: Seq<TransModel>, indices: Seq<usize>)
    ensures
        cvc_appending(c, indices).0 + cvc_appending(c, indices).1 + cvc_appending(c, indices).2 == indices,
{
    lemma_atomic_split_order(c, indices, Seq::empty(), false);
    let (head, lc) = atomic_split(c, indices, Seq::empty(), false);
    lemma_atomic_split_order(c, head, Seq::empty(), true);
    let (fc, vo) = atomic_split(c, head, Seq::empty(), true);
    assert(indices + Seq::<usize>::empty() =~= indices);
    assert(head + Seq::<usize>::empty() =~= head);
    if lc.len() == 0 && vo.len() == 0 && fc.len() == 0 {
        assert(indices =~= Seq::<usize>::empty());
        assert(Seq::<usize>::empty() + Seq::<usize>::empty() + Seq::<usize>::empty() =~= indices);
    } else if lc.len() > 0 && vo.len() == 0 && fc.len() == 0 {
        assert(lc + Seq::<usize>::empty() + Seq::<usize>::empty() =~= indices);
    } else if fc.len() == 1 && vo.len() > 0 && takes_first_vowel(c, fc, vo, lc) {
        assert(fc.push(vo[0]) + vo.drop_first() + lc =~= fc + vo + lc);
    } else {
        assert(fc + vo + lc =~= indices);
    }
}

proof fn lemma_untargeted_members(c: Seq<TransModel>, start: int, n: int, i: usize)
    requires
        0 <= start,
        n <= c.len() <= usize::MAX,
    ensures
        untargeted_upto(c, start, n).contains(i) <==> (start <= i < n && c[i as int].target is None),
        forall|a: int, b: int| 0 <= a < b < untargeted_upto(c, start, n).len() ==> #[trigger] untargeted_upto(c, start, n)[a] < #[trigger] untargeted_upto(c, start, n)[b],
        forall|a: int| 0 <= a < untargeted_upto(c, start, n).len() ==> start <= #[trigger] untargeted_upto(c, start, n)[a] < n,
    decreases n - start,
{
    if n > start {
        lemma_untargeted_members(c, start, n - 1, i);
        let prev = untargeted_upto(c, start, n - 1);
        let cur = untargeted_upto(c, start, n);
        assert forall|a: int| 0 <= a < prev.len() implies cur[a] == prev[a] by {}
        if cur.contains(i) {
            let k = choose|k: int| 0 <= k < cur.len() && cur[k] == i;
            if k < prev.len() {
                assert(prev.contains(i));
            }
        }
        if start <= i < n && c[i as int].target is None {
            if i < n - 1 {
                let k = choose|k: int| 0 <= k < prev.len() && prev[k] == i;
                assert(cur[k] == i);
            } else {
                assert(cur[prev.len() as int] == i);
            }
        }
    }
}

proof fn lemma_targeting_members(c: Seq<TransModel>, start: int, t: usize, n: int, i: usize)
    requires
        0 <= start,
        n <= c.len() <= usize::MAX,
    ensures
        targeting_upto(c, start, t, n).contains(i) <==> (start <= i < n && c[i as int].target == Some(t)),
        forall|a: int, b: int| 0 <= a < b < targeting_upto(c, start, t, n).len() ==> #[trigger] targeting_upto(c, start, t, n)[a] < #[trigger] targeting_upto(c, start, t, n)[b],
        forall|a: int| 0 <= a < targeting_upto(c, start, t, n).len() ==> start <= #[trigger] targeting_upto(c, start, t, n)[a] < n,
    decreases n - start,
{
    if n > start {
        lemma_targeting_members(c, start, t, n - 1, i);
        let prev = targeting_upto(c, start, t, n - 1);
        let cur = targeting_upto(c, start, t, n);
        assert forall|a: int| 0 <= a < prev.len() implies cur[a] == prev[a] by {}
        if cur.contains(i) {
            let k = choose|k: int| 0 <= k < cur.len() && cur[k] == i;
            if k < prev.len() {
                assert(prev.contains(i));
            }
        }
        if start <= i < n && c[i as int].target == Some(t) {
            if i < n - 1 {
                let k = choose|k: int| 0 <= k < prev.len() && prev[k] == i;
                assert(cur[k] == i);
            } else {
                assert(cur[prev.len() as int] == i);
            }
        }
    }
}

proof fn lemma_with_targeting_concat(c: Seq<TransModel>, start: int, a: Seq<usize>, b: Seq<usize>)
    ensures
        with_targeting(c, start, a + b) == with_targeting(c, start, a) + with_targeting(c, start, b),
    decreases b.len(),
{
    if b.len() == 0 {
        assert(a + b =~= a);
        assert(with_targeting(c, start, a) + with_targeting(c, start, b) =~= with_targeting(c, start, a));
    } else {
        lemma_with_targeting_concat(c, start, a, b.drop_last());
        assert((a + b).drop_last() =~= a + b.drop_last());
        assert((a + b).last() == b.last());
        let t = targeting_upto(c, start, b.last(), c.len() as int);
        assert(with_targeting(c, start, a + b) =~= with_targeting(c, start, a) + with_targeting(c, start, b));
    }
}

/// Membership and distinctness of the positions grouped around untargeted ones.
proof fn lemma_with_targeting_members(c: Seq<TransModel>, start: int, xs: Seq<usize>, i: usize)
    requires
        0 <= start,
        c.len() <= usize::MAX,
        xs.no_duplicates(),
        forall|k: int| 0 <= k < xs.len() ==> start <= #[trigger] xs[k] < c.len() && c[xs[k] as int].target is None,
    ensures
        with_targeting(c, start, xs).contains(i) <==> (xs.contains(i) || (start <= i < c.len()
            && (c[i as int].target matches Some(x) && xs.contains(x)))),
        with_targeting(c, start, xs).no_duplicates(),
        forall|k: int| 0 <= k < with_targeting(c, start, xs).len() ==> start <= #[trigger] with_targeting(c, start, xs)[k] < c.len(),
    decreases xs.len(),
{
    if xs.len() > 0 {
        let init = xs.drop_last();
        let x = xs.last();
        assert(init.no_duplicates());
        assert forall|k: int| 0 <= k < init.len() implies start <= #[trigger] init[k] < c.len() && c[init[k] as int].target is None by {
            assert(init[k] == xs[k]);
        }
        lemma_with_targeting_members(c, start, init, i);
        let w = with_targeting(c, start, init);
        let t = targeting_upto(c, start, x, c.len() as int);
        lemma_targeting_members(c, start, x, c.len() as int, i);
        let r = with_targeting(c, start, xs);
        assert(r == w + seq![x] + t);
        assert(!init.contains(x)) by {
            if init.contains(x) {
                let k = choose|k: int| 0 <= k < init.len() && init[k] == x;
                assert(xs[k] == xs[xs.len() - 1]);
            }
        }
        assert(xs == init.push(x));
        // membership
        if r.contains(i) {
            let k = choose|k: int| 0 <= k < r.len() && r[k] == i;
            if k < w.len() {
                assert(w[k] == i);
                assert(w.contains(i));
                if init.contains(i) {
                    let m = choose|m: int| 0 <= m < init.len() && init[m] == i;
                    assert(xs[m] == i);
                }
                if let Some(y) = c[i as int].target {
                    if init.contains(y) {
                        let m = choose|m: int| 0 <= m < init.len() && init[m] == y;
                        assert(xs[m] == y);
                    }
                }
            } else if k == w.len() {
                assert(xs[xs.len() - 1] == i);
            } else {
                assert(t[k - w.len() - 1] == i);
                assert(t.contains(i));
                assert(xs[xs.len() - 1] == x);
            }
        }
        if xs.contains(i) {
            let m = choose|m: int| 0 <= m < xs.len() && xs[m] == i;
            if m < init.len() {
                assert(init[m] == i);
                assert(init.contains(i));
                let k = choose|k: int| 0 <= k < w.len() && w[k] == i;
                assert(r[k] == i);
            } else {
                assert(r[w.len() as int] == i);
            }
        } else if start <= i < c.len() && (c[i as int].target matches Some(y) && xs.contains(y)) {
            let y = c[i as int].target->0;
            let m = choose|m: int| 0 <= m < xs.len() && xs[m] == y;
            if m < init.len() {
                assert(init[m] == y);
                assert(init.contains(y));
                let k = choose|k: int| 0 <= k < w.len() && w[k] == i;
                assert(r[k] == i);
            } else {
                assert(y == x);
                assert(t.contains(i));
                let k = choose|k: int| 0 <= k < t.len() && t[k] == i;
                assert(r[w.len() + 1 + k] == i);
            }
        }
        // range
        assert forall|k: int| 0 <= k < r.len() implies start <= #[trigger] r[k] < c.len() by {
            if k < w.len() {
                assert(r[k] == w[k]);
            } else if k == w.len() {
            } else {
                assert(r[k] == t[k - w.len() - 1]);
            }
        }
        // distinctness
        assert forall|a: int, b: int| 0 <= a < b < r.len() implies r[a] != r[b] by {
            if b < w.len() {
                assert(r[a] == w[a] && r[b] == w[b]);
            } else if a < w.len() {
                let va = w[a];
                assert(r[a] == va);
                lemma_with_targeting_members(c, start, init, va);
                assert(w.contains(va));
                if b == w.len() {
                    // x is neither in init nor targeted
                    if va == x {
                        assert(c[x as int].target is None);
                    }
                } else {
                    assert(r[b] == t[b - w.len() - 1]);
                    lemma_targeting_members(c, start, x, c.len() as int, r[b]);
                    assert(t.contains(r[b]));
                    if va == r[b] {
                        assert(c[va as int].target == Some(x));
                        if init.contains(va) {
                            let m = choose|m: int| 0 <= m < init.len() && init[m] == va;
                            assert(c[init[m] as int].target is None);
                        }
                    }
                }
            } else if a == w.len() {
                assert(r[b] == t[b - w.len() - 1]);
                lemma_targeting_members(c, start, x, c.len() as int, r[b]);
                assert(t.contains(r[b]));
            } else {
                assert(r[a] == t[a - w.len() - 1] && r[b] == t[b - w.len() - 1]);
            }
        }
    }
}

/// The first consonant, vowel and last consonant of a syllable together list each
/// position from `start` on at most once, all inside the composition: exactly the
/// positions without target and those whose target is such a position from `start` on.
pub proof fn law_cvc_indices_partition(c: Seq<TransModel>, start: int, i: usize)
    requires
        0 <= start,
        c.len() <= usize::MAX,
    ensures
        ({
            let (f, v, l) = cvc_indices(c, start);
            &&& (f + v + l).no_duplicates()
            &&& forall|k: int| 0 <= k < (f + v + l).len() ==> start <= #[trigger] (f + v + l)[k] < c.len()
            &&& (f + v + l).contains(i) <==> (start <= i < c.len() && (c[i as int].target is None || (
                c[i as int].target matches Some(j) && start <= j < c.len() && c[j as int].target is None)))
        }),
{
    let u = untargeted_upto(c, start, c.len() as int);
    let (fc, vo, lc) = cvc_appending(c, u);
    law_cvc_split_keeps_order(c, u);
    lemma_with_targeting_concat(c, start, fc, vo);
    lemma_with_targeting_concat(c, start, fc + vo, lc);
    lemma_untargeted_members(c, start, c.len() as int, i);
    assert(u.no_duplicates()) by {
        assert forall|a: int, b: int| 0 <= a < b < u.len() implies u[a] != u[b] by {
            assert(u[a] < u[b]);
        }
    }
    assert forall|k: int| 0 <= k < u.len() implies start <= #[trigger] u[k] < c.len() && c[u[k] as int].target is None by {
        lemma_untargeted_members(c, start, c.len() as int, u[k]);
        assert(u.contains(u[k]));
    }
    lemma_with_targeting_members(c, start, u, i);
    if let Some(j) = c[i as int].target {
        lemma_untargeted_members(c, start, c.len() as int, j);
    }
    assert(fc + vo + lc == u);
}

} // verus!
