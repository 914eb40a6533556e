//! Moving the last tone to its place is done once for all: moving it again changes nothing.

use vstd::prelude::*;
use crate::rules::EffectType;
use super::canvas::{has_flag, last_appending, TransModel};
use crate::charset::spec_can_process_key;
use crate::rules::InputMethodModel;
use super::ESTD_TONE_STYLE;
use super::syllable::{
    atomic_split, cvc_appending, cvc_indices, filter_appending, targeting_upto, untargeted_upto,
    with_targeting,
};
use super::tone::{last_tone_trans, pick, spec_find_tone_target, spec_refresh_last_tone_target, std_pick};

verus! {

/// Transformations appended after a composition that change letters but write none and
/// take part in no tone choice: each has a target, is no appending and has no result
/// letter.
pub open spec fn silent_changes(e: Seq<TransModel>) -> bool {
    forall|k: int| 0 <= k < e.len() ==> {
        &&& (#[trigger] e[k]).target is Some
        &&& e[k].rule.effect_type != EffectType::Appending
        &&& e[k].rule.result == '\0'
    }
}

proof fn lemma_untargeted_ext(c: Seq<TransModel>, e: Seq<TransModel>, start: int, n: int)
    requires
        silent_changes(e),
        0 <= start,
        n <= (c + e).len(),
    ensures
        untargeted_upto(c + e, start, n) == untargeted_upto(c, start, if n <= c.len() { n } else { c.len() as int }),
    decreases n - start,
{
    if n > start {
        lemma_untargeted_ext(c, e, start, n - 1);
        if n - 1 >= c.len() {
            assert((c + e)[n - 1] == e[n - 1 - c.len()]);
        } else {
            assert((c + e)[n - 1] == c[n - 1]);
        }
    }
}

proof fn lemma_atomic_split_ext(c: Seq<TransModel>, e: Seq<TransModel>, xs: Seq<usize>, last: Seq<usize>, v: bool)
    requires
        forall|k: int| 0 <= k < xs.len() ==> #[trigger] xs[k] < c.len(),
    ensures
        atomic_split(c + e, xs, last, v) == atomic_split(c, xs, last, v),
    decreases xs.len(),
{
    if xs.len() > 0 {
        let li = xs.last();
        assert((c + e)[li as int] == c[li as int]);
        let init = xs.drop_last();
        assert forall|k: int| 0 <= k < init.len() implies #[trigger] init[k] < c.len() by {
            assert(init[k] == xs[k]);
        }
        lemma_atomic_split_ext(c, e, init, seq![li] + last, v);
    }
}

proof fn lemma_targeting_ext(c: Seq<TransModel>, e: Seq<TransModel>, start: int, t: usize, n: int)
    requires
        0 <= start <= c.len(),
        c.len() <= n <= (c + e).len(),
        (c + e).len() <= usize::MAX,
    ensures
        exists|x: Seq<usize>|
            targeting_upto(c + e, start, t, n) == targeting_upto(c, start, t, c.len() as int) + x && forall|k: int|
                0 <= k < x.len() ==> c.len() <= #[trigger] x[k] < n,
    decreases n,
{
    if n > c.len() {
        lemma_targeting_ext(c, e, start, t, n - 1);
        let x = choose|x: Seq<usize>|
            targeting_upto(c + e, start, t, n - 1) == targeting_upto(c, start, t, c.len() as int) + x && forall|k: int|
                0 <= k < x.len() ==> c.len() <= #[trigger] x[k] < n - 1;
        let extra: Seq<usize> = if (c + e)[n - 1].target == Some(t) { seq![(n - 1) as usize] } else { Seq::empty() };
        let x2 = x + extra;
        assert(targeting_upto(c + e, start, t, n) =~= targeting_upto(c, start, t, c.len() as int) + x2);
        assert(forall|k: int| 0 <= k < x2.len() ==> c.len() <= #[trigger] x2[k] < n) by {
            assert forall|k: int| 0 <= k < x2.len() implies c.len() <= #[trigger] x2[k] < n by {
                if k < x.len() {
                    assert(x2[k] == x[k]);
                }
            }
        }
    } else {
        lemma_targeting_prefix(c, e, start, t, n);
        assert(targeting_upto(c + e, start, t, n) =~= targeting_upto(c, start, t, c.len() as int) + Seq::<usize>::empty());
    }
}

proof fn lemma_targeting_prefix(c: Seq<TransModel>, e: Seq<TransModel>, start: int, t: usize, n: int)
    requires
        0 <= start,
        n <= c.len(),
    ensures
        targeting_upto(c + e, start, t, n) == targeting_upto(c, start, t, n),
    decreases n - start,
{
    if n > start {
        lemma_targeting_prefix(c, e, start, t, n - 1);
        assert((c + e)[n - 1] == c[n - 1]);
    }
}

proof fn lemma_filter_concat(c: Seq<TransModel>, a: Seq<usize>, b: Seq<usize>)
    ensures
        filter_appending(c, a + b) == filter_appending(c, a) + filter_appending(c, b),
    decreases b.len(),
{
    if b.len() == 0 {
        assert(a + b =~= a);
        assert(filter_appending(c, a) + filter_appending(c, b) =~= filter_appending(c, a));
    } else {
        lemma_filter_concat(c, a, b.drop_last());
        assert((a + b).drop_last() =~= a + b.drop_last());
        assert((a + b).last() == b.last());
        assert(filter_appending(c, a + b) =~= filter_appending(c, a) + filter_appending(c, b));
    }
}

proof fn lemma_filter_silent(c: Seq<TransModel>, e: Seq<TransModel>, x: Seq<usize>)
    requires
        silent_changes(e),
        forall|k: int| 0 <= k < x.len() ==> c.len() <= #[trigger] x[k],
    ensures
        filter_appending(c + e, x) == Seq::<usize>::empty(),
    decreases x.len(),
{
    if x.len() > 0 {
        let init = x.drop_last();
        assert forall|k: int| 0 <= k < init.len() implies c.len() <= #[trigger] init[k] by {
            assert(init[k] == x[k]);
        }
        lemma_filter_silent(c, e, init);
        let l = x.last();
        if l < (c + e).len() {
            assert((c + e)[l as int] == e[l - c.len()]);
        }
    }
}

proof fn lemma_filter_in_prefix(c: Seq<TransModel>, e: Seq<TransModel>, ys: Seq<usize>)
    requires
        forall|k: int| 0 <= k < ys.len() ==> #[trigger] ys[k] < c.len(),
    ensures
        filter_appending(c + e, ys) == filter_appending(c, ys),
    decreases ys.len(),
{
    if ys.len() > 0 {
        let init = ys.drop_last();
        assert forall|k: int| 0 <= k < init.len() implies #[trigger] init[k] < c.len() by {
            assert(init[k] == ys[k]);
        }
        lemma_filter_in_prefix(c, e, init);
        assert((c + e)[ys.last() as int] == c[ys.last() as int]);
    }
}

/// No letter to pick in `x`: the last `ơ` or `ê` is found in what is left.
proof fn lemma_std_pick_skip(c: Seq<TransModel>, a: Seq<usize>, x: Seq<usize>, b: Seq<usize>)
    requires
        forall|k: int| 0 <= k < x.len() ==> c[#[trigger] x[k] as int].rule.result != 'ơ' && c[x[k] as int].rule.result != 'ê',
    ensures
        std_pick(c, a + x + b) == std_pick(c, a + b),
    decreases b.len(), x.len(),
{
    if b.len() > 0 {
        assert((a + x + b).last() == b.last());
        assert((a + b).last() == b.last());
        assert((a + x + b).drop_last() =~= a + x + b.drop_last());
        assert((a + b).drop_last() =~= a + b.drop_last());
        lemma_std_pick_skip(c, a, x, b.drop_last());
    } else if x.len() > 0 {
        assert((a + x + b).last() == x.last());
        assert((a + x + b).drop_last() =~= a + x.drop_last() + b);
        assert forall|k: int| 0 <= k < x.drop_last().len() implies c[#[trigger] x.drop_last()[k] as int].rule.result != 'ơ'
            && c[x.drop_last()[k] as int].rule.result != 'ê' by {
            assert(x.drop_last()[k] == x[k]);
        }
        lemma_std_pick_skip(c, a, x.drop_last(), b);
    } else {
        assert(a + x + b =~= a + b);
    }
}

proof fn lemma_std_pick_prefix(c: Seq<TransModel>, e: Seq<TransModel>, ys: Seq<usize>)
    requires
        forall|k: int| 0 <= k < ys.len() ==> #[trigger] ys[k] < c.len(),
    ensures
        std_pick(c + e, ys) == std_pick(c, ys),
    decreases ys.len(),
{
    if ys.len() > 0 {
        let init = ys.drop_last();
        assert forall|k: int| 0 <= k < init.len() implies #[trigger] init[k] < c.len() by {
            assert(init[k] == ys[k]);
        }
        lemma_std_pick_prefix(c, e, init);
        assert((c + e)[ys.last() as int] == c[ys.last() as int]);
    }
}

/// Grouping positions in the longer composition adds only positions of the silent changes,
/// which neither the vowel filter nor the tone choice sees.
proof fn lemma_with_targeting_ext(c: Seq<TransModel>, e: Seq<TransModel>, start: int, xs: Seq<usize>, q: Seq<usize>)
    requires
        silent_changes(e),
        0 <= start <= c.len(),
        (c + e).len() <= usize::MAX,
        forall|k: int| 0 <= k < xs.len() ==> #[trigger] xs[k] < c.len(),
        forall|k: int| 0 <= k < q.len() ==> #[trigger] q[k] < (c + e).len(),
    ensures
        filter_appending(c + e, with_targeting(c + e, start, xs) + q) == filter_appending(c + e, with_targeting(c, start, xs) + q),
        std_pick(c + e, with_targeting(c + e, start, xs) + q) == std_pick(c + e, with_targeting(c, start, xs) + q),
        with_targeting(c + e, start, xs).len() >= xs.len(),
    decreases xs.len(),
{
    if xs.len() > 0 {
        let init = xs.drop_last();
        let x = xs.last();
        assert forall|k: int| 0 <= k < init.len() implies #[trigger] init[k] < c.len() by {
            assert(init[k] == xs[k]);
        }
        let ce = c + e;
        lemma_targeting_ext(c, e, start, x, ce.len() as int);
        let t = targeting_upto(c, start, x, c.len() as int);
        let ex = choose|ex: Seq<usize>|
            targeting_upto(ce, start, x, ce.len() as int) == t + ex && forall|k: int|
                0 <= k < ex.len() ==> c.len() <= #[trigger] ex[k] < ce.len();
        let q1 = seq![x] + t + ex + q;
        let q2 = seq![x] + t + q;
        super::shape::lemma_targeting_in(c, start, x, c.len() as int);
        assert forall|k: int| 0 <= k < q1.len() implies #[trigger] q1[k] < ce.len() by {
            if k == 0 {
            } else if k < 1 + t.len() {
                assert(q1[k] == t[k - 1]);
            } else if k < 1 + t.len() + ex.len() {
                assert(q1[k] == ex[k - 1 - t.len()]);
            } else {
                assert(q1[k] == q[k - 1 - t.len() - ex.len()]);
            }
        }
        lemma_with_targeting_ext(c, e, start, init, q1);
        let wi = with_targeting(c, start, init);
        assert(with_targeting(ce, start, xs) + q =~= with_targeting(ce, start, init) + q1);
        assert(with_targeting(c, start, xs) + q =~= wi + q2);
        assert(wi + q1 =~= (wi + seq![x] + t) + ex + q);
        assert(wi + q2 =~= (wi + seq![x] + t) + q);
        // the extra positions are silent changes
        assert forall|k: int| 0 <= k < ex.len() implies ce[#[trigger] ex[k] as int].rule.result != 'ơ' && ce[ex[k] as int].rule.result != 'ê' by {
            assert(ce[ex[k] as int] == e[ex[k] - c.len()]);
        }
        lemma_std_pick_skip(ce, wi + seq![x] + t, ex, q);
        lemma_filter_concat(ce, wi + seq![x] + t, ex + q);
        lemma_filter_concat(ce, ex, q);
        lemma_filter_silent(c, e, ex);
        lemma_filter_concat(ce, wi + seq![x] + t, q);
        assert((wi + seq![x] + t) + ex + q =~= (wi + seq![x] + t) + (ex + q));
        assert(Seq::<usize>::empty() + filter_appending(ce, q) =~= filter_appending(ce, q));
    } else {
        assert(with_targeting(c + e, start, xs) =~= Seq::<usize>::empty());
    }
}

proof fn lemma_cvc_ext(c: Seq<TransModel>, e: Seq<TransModel>, start: int)
    requires
        silent_changes(e),
        0 <= start <= c.len(),
        (c + e).len() <= usize::MAX,
    ensures
        filter_appending(c + e, cvc_indices(c + e, start).1) == filter_appending(c, cvc_indices(c, start).1),
        std_pick(c + e, cvc_indices(c + e, start).1) == std_pick(c, cvc_indices(c, start).1),
        (cvc_indices(c + e, start).2.len() > 0) == (cvc_indices(c, start).2.len() > 0),
{
    let ce = c + e;
    lemma_untargeted_ext(c, e, start, ce.len() as int);
    let u = untargeted_upto(c, start, c.len() as int);
    super::shape::lemma_untargeted_in(c, start, c.len() as int);
    lemma_atomic_split_ext(c, e, u, Seq::empty(), false);
    let (head, lc) = atomic_split(c, u, Seq::empty(), false);
    super::syllable::law_cvc_split_keeps_order(c, u);
    let (fc, vo, lc2) = cvc_appending(c, u);
    assert forall|k: int| 0 <= k < head.len() implies #[trigger] head[k] < c.len() by {
        super::shape::lemma_atomic_split_in(c, u, Seq::empty(), false, c.len() as int);
    }
    lemma_atomic_split_ext(c, e, head, Seq::empty(), true);
    assert(cvc_appending(ce, u) == cvc_appending(c, u)) by {
        let (f0, v0) = atomic_split(c, head, Seq::empty(), true);
        super::shape::lemma_atomic_split_in(c, head, Seq::empty(), true, c.len() as int);
        if f0.len() == 1 && v0.len() > 0 {
            assert(ce[f0[0] as int] == c[f0[0] as int]);
            assert(ce[v0[0] as int] == c[v0[0] as int]);
            if v0.len() > 1 {
                assert(ce[v0[1] as int] == c[v0[1] as int]);
            }
        }
    }
    super::shape::lemma_cvc_appending_in(c, u, c.len() as int);
    lemma_with_targeting_ext(c, e, start, vo, Seq::empty());
    lemma_with_targeting_ext(c, e, start, lc2, Seq::empty());
    assert(with_targeting(ce, start, vo) + Seq::<usize>::empty() =~= with_targeting(ce, start, vo));
    assert(with_targeting(c, start, vo) + Seq::<usize>::empty() =~= with_targeting(c, start, vo));
    super::shape::lemma_with_targeting_in(c, start, vo);
    lemma_filter_in_prefix(c, e, with_targeting(c, start, vo));
    lemma_std_pick_prefix(c, e, with_targeting(c, start, vo));
    if lc2.len() == 0 {
        assert(with_targeting(ce, start, lc2) =~= Seq::<usize>::empty());
        assert(with_targeting(c, start, lc2) =~= Seq::<usize>::empty());
    } else {
        super::shape::lemma_with_targeting_in(c, start, lc2);
    }
}

/// Silent changes appended after a composition leave the vowel that takes the tone where
/// it was.
proof fn lemma_tone_target_ext(c: Seq<TransModel>, e: Seq<TransModel>, start: int, std_style: bool)
    requires
        silent_changes(e),
        0 <= start < c.len(),
        (c + e).len() <= usize::MAX,
    ensures
        spec_find_tone_target(c + e, start, std_style) == spec_find_tone_target(c, start, std_style),
{
    let ce = c + e;
    lemma_cvc_ext(c, e, start);
    let vowels = filter_appending(c, cvc_indices(c, start).1);
    super::shape::lemma_filter_appending_in(c, cvc_indices(c, start).1);
    assert(pick(ce, vowels) =~= pick(c, vowels)) by {
        assert forall|k: int| 0 <= k < vowels.len() implies ce[vowels[k] as int] == c[vowels[k] as int] by {
            assert(vowels[k] < c.len());
        }
    }
}

proof fn lemma_last_tone_trans(c: Seq<TransModel>, start: int, n: int)
    requires
        0 <= start,
        n <= c.len() <= usize::MAX,
    ensures
        last_tone_trans(c, start, n) matches Some(k) ==> start <= k < n
            && c[k as int].rule.effect_type == EffectType::ToneTransformation && c[k as int].target is Some,
    decreases n - start,
{
    if n > start {
        lemma_last_tone_trans(c, start, n - 1);
    }
}

/// Moving the last tone of a word to the vowel that should carry it, and then asking again,
/// moves nothing: when a vowel takes the tone and no tone rule of the composition writes a
/// letter.
pub proof fn law_refresh_tone_is_idempotent(c: Seq<TransModel>, start: int, std_style: bool)
    requires
        0 <= start <= c.len(),
        c.len() + 2 <= usize::MAX,
        spec_find_tone_target(c, start, std_style) is Some,
        forall|j: int| 0 <= j < c.len() ==> (#[trigger] c[j].rule.effect_type == EffectType::ToneTransformation
            ==> c[j].rule.result == '\0'),
    ensures
        spec_refresh_last_tone_target(c + spec_refresh_last_tone_target(c, start, std_style), start, std_style)
            == Seq::<TransModel>::empty(),
{
    let r = spec_refresh_last_tone_target(c, start, std_style);
    if r.len() == 0 {
        assert(c + r =~= c);
    } else {
        let li = last_tone_trans(c, start, c.len() as int)->0;
        lemma_last_tone_trans(c, start, c.len() as int);
        let lt = c[li as int];
        assert(lt.rule.effect_type == EffectType::ToneTransformation && lt.target is Some);
        assert(silent_changes(r)) by {
            assert forall|k: int| 0 <= k < r.len() implies {
                &&& (#[trigger] r[k]).target is Some
                &&& r[k].rule.effect_type != EffectType::Appending
                &&& r[k].rule.result == '\0'
            } by {}
        }
        let ce = c + r;
        lemma_tone_target_ext(c, r, start, std_style);
        assert(ce[c.len() as int + 1] == r[1]);
        assert(last_tone_trans(ce, start, ce.len() as int) == Some((c.len() + 1) as usize));
    }
}

/// When a vowel takes the tone, moving the last tone does nothing exactly when the word
/// has no tone or the tone is already on that vowel; otherwise it is two transformations:
/// one that clears the tone where it was, and one that sets it on that vowel.
pub proof fn law_refresh_tone_shape(c: Seq<TransModel>, start: int, std_style: bool)
    requires
        0 <= start <= c.len(),
        c.len() <= usize::MAX,
        spec_find_tone_target(c, start, std_style) is Some,
    ensures
        ({
            let r = spec_refresh_last_tone_target(c, start, std_style);
            let l = last_tone_trans(c, start, c.len() as int);
            let t = spec_find_tone_target(c, start, std_style);
            &&& (r.len() == 0) == (l is None || c[l->0 as int].target == t)
            &&& r.len() != 0 ==> {
                &&& r.len() == 2
                &&& r[0].rule.effect_type == EffectType::ToneTransformation && r[0].rule.effect == 0
                &&& r[0].target == c[l->0 as int].target
                &&& r[1].target == t
            }
        }),
{
    let vo = cvc_indices(c, start).1;
    if vo.len() == 0 {
        assert(filter_appending(c, vo) =~= Seq::<usize>::empty());
    }
}

/// Every tone transformation of a composition writes no letter.
pub open spec fn silent_tones(c: Seq<TransModel>) -> bool {
    forall|j: int| 0 <= j < c.len() ==> (#[trigger] c[j].rule.effect_type == EffectType::ToneTransformation
        ==> c[j].rule.result == '\0')
}

proof fn lemma_kept_after(c: Seq<TransModel>, start: int, la: int, n: int)
    requires
        0 <= start <= n <= c.len(),
        silent_tones(c),
    ensures
        super::kept_after(c, start, la, n).len() <= n - start,
        silent_tones(super::kept_after(c, start, la, n)),
    decreases n - start,
{
    if n > start {
        lemma_kept_after(c, start, la, n - 1);
        let prev = super::kept_after(c, start, la, n - 1);
        let cur = super::kept_after(c, start, la, n);
        assert forall|j: int| 0 <= j < cur.len() implies (#[trigger] cur[j].rule.effect_type
            == EffectType::ToneTransformation ==> cur[j].rule.result == '\0') by {
            if j < prev.len() {
                assert(cur[j] == prev[j]);
            } else {
                assert(cur[j] == c[n - 1]);
            }
        }
    }
}

/// After removing the last character with the tone refreshed, the last tone of the word
/// stands where the engine's own style places it (the standard style exactly when
/// `ESTD_TONE_STYLE` is set): moving it again with that style changes nothing. This holds
/// when a vowel of the remaining word takes the tone and no tone transformation writes a
/// letter, for a backspace that refreshes (the last letter is one the input method takes).
pub proof fn law_backspace_tone_in_engine_style(c: Seq<TransModel>, im: InputMethodModel, flags: u32)
    requires
        c.len() + 2 <= usize::MAX,
        silent_tones(c),
        last_appending(c) matches Some(la) && spec_can_process_key(c[la].rule.key, im.keys),
        spec_find_tone_target(
            super::spec_remove_last_char(c, im, flags, false),
            super::words::word_start_from(c, im.keys, c.len() as int),
            has_flag(flags, ESTD_TONE_STYLE),
        ) is Some,
    ensures
        spec_refresh_last_tone_target(
            super::spec_remove_last_char(c, im, flags, true),
            super::words::word_start_from(c, im.keys, c.len() as int),
            has_flag(flags, ESTD_TONE_STYLE),
        ) == Seq::<TransModel>::empty(),
{
    let start = super::words::word_start_from(c, im.keys, c.len() as int);
    let std_style = has_flag(flags, ESTD_TONE_STYLE);
    super::words::lemma_word_starts(c, im.keys, c.len() as int);
    let la = last_appending(c)->0;
    let nc = c.subrange(0, start) + super::kept_after(c, start, la, c.len() as int);
    lemma_kept_after(c, start, la, c.len() as int);
    let kept = super::kept_after(c, start, la, c.len() as int);
    assert(silent_tones(nc)) by {
        assert forall|j: int| 0 <= j < nc.len() implies (#[trigger] nc[j].rule.effect_type
            == EffectType::ToneTransformation ==> nc[j].rule.result == '\0') by {
            if j < start {
                assert(nc[j] == c[j]);
            } else {
                assert(nc[j] == kept[j - start]);
            }
        }
    }
    law_refresh_tone_is_idempotent(nc, start, std_style);
}

} // verus!
