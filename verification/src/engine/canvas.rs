//! Transformations, and how a composition of transformations is read as text.

use vstd::prelude::*;
use crate::charset::{
    add_mark_to_char, add_tone_to_char, ascii_lower, to_ascii_lower, to_upper_letter, upper_letter,
    with_mark, with_tone,
};
use crate::rules::{clone_rule, lemma_rule_model, EffectType, Rule, RuleModel, plain_rule};
use crate::text::string_of;
use super::{ENGLISH_MODE, LOWER_CASE, MARK_LESS, TONE_LESS};

verus! {

/// Represents a single character transformation step in the engine's composition history.
#[derive(Debug)]
pub struct Transformation {
    /// The rule applied for this transformation.
    pub rule: Rule,
    /// Absolute index in composition Vec that this transformation targets (if any).
    pub target: Option<usize>,
    /// Specifies if the resulting character should be upper case.
    pub is_upper_case: bool,
}

/// The value of a transformation.
pub struct TransModel {
    pub rule: RuleModel,
    pub target: Option<usize>,
    pub is_upper_case: bool,
}

impl Transformation {
    /// The value of the transformation.
    pub open spec fn model(&self) -> TransModel {
        TransModel { rule: self.rule.model(), target: self.target, is_upper_case: self.is_upper_case }
    }
}

/// The values of a sequence of transformations.
pub open spec fn comp_model(v: Seq<Transformation>) -> Seq<TransModel> {
    Seq::new(v.len(), |i: int| v[i].model())
}

/// A copy of a transformation.
pub fn clone_transformation(t: &Transformation) -> (c: Transformation)
    ensures
        c.model() == t.model(),
{
    Transformation { rule: clone_rule(&t.rule), target: t.target, is_upper_case: t.is_upper_case }
}

impl Clone for Transformation {
    fn clone(&self) -> (c: Self)
        ensures
            c.model() == self.model(),
    {
        clone_transformation(self)
    }
}

/// A copy of the transformations of a slice.
pub fn clone_composition(v: &[Transformation]) -> (c: Vec<Transformation>)
    ensures
        comp_model(c@) == comp_model(v@),
{
    let mut c: Vec<Transformation> = Vec::new();
    let mut i: usize = 0;
    while i < v.len()
        invariant
            i <= v@.len(),
            c@.len() == i,
            forall|j: int| 0 <= j < i ==> #[trigger] c@[j].model() == v@[j].model(),
        decreases v@.len() - i,
    {
        c.push(clone_transformation(&v[i]));
        i = i + 1;
    }
    assert(comp_model(c@) =~= comp_model(v@));
    c
}

/// Appends a transformation to a composition.
pub fn push_trans(v: &mut Vec<Transformation>, t: Transformation)
    ensures
        comp_model(final(v)@) == comp_model(old(v)@).push(t.model()),
{
    let ghost before = v@;
    let ghost tm = t.model();
    v.push(t);
    assert(comp_model(v@) =~= comp_model(before).push(tm));
}

/// Appends transformations to a composition.
pub fn append_trans(v: &mut Vec<Transformation>, add: Vec<Transformation>)
    ensures
        comp_model(final(v)@) == comp_model(old(v)@) + comp_model(add@),
{
    let mut add = add;
    let ghost before = v@;
    let ghost added = add@;
    v.append(&mut add);
    assert(comp_model(v@) =~= comp_model(before) + comp_model(added));
}

/// A composition followed by copies of more transformations.
pub fn concat_composition(a: &[Transformation], b: &[Transformation]) -> (c: Vec<Transformation>)
    ensures
        comp_model(c@) == comp_model(a@) + comp_model(b@),
{
    let mut c = clone_composition(a);
    let more = clone_composition(b);
    append_trans(&mut c, more);
    c
}

/// A transformation value whose rule has no secondary rules.
pub open spec fn plain_trans(
    key: char,
    effect: u8,
    effect_type: EffectType,
    effect_on: char,
    result: char,
    target: Option<usize>,
    is_upper_case: bool,
) -> TransModel {
    TransModel { rule: plain_rule(key, effect, effect_type, effect_on, result), target, is_upper_case }
}

/// Builds a transformation whose rule has no secondary rules.
pub fn new_trans(
    key: char,
    effect: u8,
    effect_type: EffectType,
    effect_on: char,
    result: char,
    target: Option<usize>,
    is_upper_case: bool,
) -> (t: Transformation)
    ensures
        t.model() == plain_trans(key, effect, effect_type, effect_on, result, target, is_upper_case),
{
    Transformation {
        rule: crate::rules::new_rule(key, effect, effect_type, effect_on, result),
        target,
        is_upper_case,
    }
}

/// The transformation that appends a key as it is.
pub open spec fn appending_trans(key: char, is_upper_case: bool) -> TransModel {
    plain_trans(key, 0, EffectType::Appending, key, key, None, is_upper_case)
}

/// Creates a new character appending transformation struct.
pub fn new_appending_trans(key: char, is_upper_case: bool) -> (t: Transformation)
    ensures
        t.model() == appending_trans(key, is_upper_case),
{
    new_trans(key, 0, EffectType::Appending, key, key, None, is_upper_case)
}

/// Whether a mode holds a flag.
pub open spec fn has_flag(mode: u32, flag: u32) -> bool {
    mode & flag != 0
}

/// Whether a transformation changes the character appended at position `i`: it is no
/// appending and it targets `i`.
pub open spec fn applies_to(t: TransModel, i: int) -> bool {
    t.rule.effect_type != EffectType::Appending && t.target == Some(i as usize)
}

/// A character after one transformation: a mark rule sets the mark (mark 5 brings back the
/// key that was typed), a tone rule sets the tone, other rules change nothing.
pub open spec fn effect_step(chr: char, t: TransModel, key: char) -> char {
    match t.rule.effect_type {
        EffectType::MarkTransformation => if t.rule.effect == 5 {
            key
        } else {
            with_mark(chr, t.rule.effect)
        },
        EffectType::ToneTransformation => with_tone(chr, t.rule.effect),
        _ => chr,
    }
}

/// The character appended at position `i` after the transformations among the first `n`
/// that target it, in order.
pub open spec fn effects_upto(c: Seq<TransModel>, i: int, n: int) -> char
    decreases n,
{
    if n <= 0 {
        c[i].rule.effect_on
    } else {
        let chr = effects_upto(c, i, n - 1);
        if applies_to(c[n - 1], i) {
            effect_step(chr, c[n - 1], c[i].rule.key)
        } else {
            chr
        }
    }
}

/// The character written for the appending transformation at position `i`, before case
/// and the tone and mark options: the key itself in English mode, otherwise the appended
/// letter with every transformation that targets position `i`.
pub open spec fn base_char(c: Seq<TransModel>, i: int, mode: u32) -> char {
    if has_flag(mode, ENGLISH_MODE) {
        c[i].rule.key
    } else {
        effects_upto(c, i, c.len() as int)
    }
}

/// A character with the options of a mode: without tone, without mark, in lower case, or in
/// upper case when it was typed so.
pub open spec fn finish_char(chr: char, is_upper_case: bool, mode: u32) -> char {
    let a = if has_flag(mode, TONE_LESS) {
        with_tone(chr, 0)
    } else {
        chr
    };
    let b = if has_flag(mode, MARK_LESS) {
        with_mark(a, 0)
    } else {
        a
    };
    if has_flag(mode, LOWER_CASE) {
        ascii_lower(b)
    } else if is_upper_case {
        upper_letter(b)
    } else {
        b
    }
}

/// Whether a transformation writes a character: an appending one with a key.
pub open spec fn writes_char(t: TransModel) -> bool {
    t.rule.effect_type == EffectType::Appending && t.rule.key != '\0'
}

/// The characters written by the first `n` transformations.
pub open spec fn canvas_upto(c: Seq<TransModel>, mode: u32, n: int) -> Seq<char>
    decreases n,
{
    if n <= 0 {
        Seq::empty()
    } else {
        canvas_upto(c, mode, n - 1) + if writes_char(c[n - 1]) {
            seq![finish_char(base_char(c, n - 1, mode), c[n - 1].is_upper_case, mode)]
        } else {
            Seq::empty()
        }
    }
}

/// The text that a composition stands for in a mode: one character for each appending
/// transformation with a key, in order. Targets are read as positions in the composition
/// given.
pub open spec fn canvas(c: Seq<TransModel>, mode: u32) -> Seq<char> {
    canvas_upto(c, mode, c.len() as int)
}

/// The character written by the transformation at `start + i`, reading the transformations
/// from `start` to `end` as a composition of their own.
fn written_char(comp: &[Transformation], start: usize, end: usize, i: usize, mode: u32) -> (r: char)
    requires
        start <= end <= comp@.len(),
        start <= i < end,
    ensures
        r == finish_char(
            base_char(comp_model(comp@).subrange(start as int, end as int), i - start, mode),
            comp@[i as int].is_upper_case,
            mode,
        ),
{
    let ghost sub = comp_model(comp@).subrange(start as int, end as int);
    let appending = &comp[i];
    let rel = i - start;
    let mut chr: char;
    if (mode & ENGLISH_MODE) != 0 {
        chr = appending.rule.key;
        proof {
            lemma_rule_model(comp@[i as int].rule);
        }
    } else {
        chr = appending.rule.effect_on;
        proof {
            lemma_rule_model(comp@[i as int].rule);
        }
        let mut j: usize = start;
        while j < end
            invariant
                start <= j <= end,
                end <= comp@.len(),
                start <= i < end,
                rel == i - start,
                sub == comp_model(comp@).subrange(start as int, end as int),
                *appending == comp@[i as int],
                chr == effects_upto(sub, rel as int, j - start),
            decreases end - j,
        {
            let t = &comp[j];
            proof {
                lemma_rule_model(comp@[j as int].rule);
                lemma_rule_model(comp@[i as int].rule);
            }
            let applies = match t.rule.effect_type {
                EffectType::Appending => false,
                _ => match t.target {
                    Some(x) => x == rel,
                    None => false,
                },
            };
            if applies {
                match t.rule.effect_type {
                    EffectType::MarkTransformation => {
                        if t.rule.effect == 5 {
                            chr = appending.rule.key;
                        } else {
                            chr = add_mark_to_char(chr, t.rule.effect);
                        }
                    },
                    EffectType::ToneTransformation => {
                        chr = add_tone_to_char(chr, t.rule.effect);
                    },
                    _ => {},
                }
            }
            j = j + 1;
        }
    }
    if (mode & TONE_LESS) != 0 {
        chr = add_tone_to_char(chr, 0);
    }
    if (mode & MARK_LESS) != 0 {
        chr = add_mark_to_char(chr, 0);
    }
    if (mode & LOWER_CASE) != 0 {
        chr = to_ascii_lower(chr);
    } else if appending.is_upper_case {
        chr = to_upper_letter(chr);
    }
    chr
}

/// The characters written by the transformations from `start` to `end`, read as a
/// composition of their own.
pub fn canvas_range(comp: &[Transformation], start: usize, end: usize, mode: u32) -> (r: Vec<char>)
    requires
        start <= end <= comp@.len(),
    ensures
        r@ == canvas(comp_model(comp@).subrange(start as int, end as int), mode),
{
    let ghost sub = comp_model(comp@).subrange(start as int, end as int);
    let mut canvas_chars: Vec<char> = Vec::new();
    let mut i: usize = start;
    while i < end
        invariant
            start <= i <= end,
            end <= comp@.len(),
            sub == comp_model(comp@).subrange(start as int, end as int),
            canvas_chars@ == canvas_upto(sub, mode, i - start),
        decreases end - i,
    {
        proof {
            lemma_rule_model(comp@[i as int].rule);
        }
        let writes = match comp[i].rule.effect_type {
            EffectType::Appending => comp[i].rule.key != '\0',
            _ => false,
        };
        if writes {
            let chr = written_char(comp, start, end, i, mode);
            canvas_chars.push(chr);
        }
        i = i + 1;
    }
    canvas_chars
}

/// Evaluates diacritics and casing, generating a sequential list of characters (`Vec<char>`).
pub fn get_canvas(composition: &[Transformation], mode: u32) -> (r: Vec<char>)
    ensures
        r@ == canvas(comp_model(composition@), mode),
{
    let r = canvas_range(composition, 0, composition.len(), mode);
    assert(comp_model(composition@).subrange(0, composition@.len() as int) =~= comp_model(
        composition@,
    ));
    r
}

/// Evaluates composition transformations and flattens them to a final String buffer.
pub fn flatten(composition: &[Transformation], mode: u32) -> (r: String)
    ensures
        r@ == canvas(comp_model(composition@), mode),
{
    let chars = get_canvas(composition, mode);
    string_of(&chars)
}

/// The position of the last appending transformation.
pub open spec fn last_appending(c: Seq<TransModel>) -> Option<int>
    decreases c.len(),
{
    if c.len() == 0 {
        None
    } else if c.last().rule.effect_type == EffectType::Appending {
        Some(c.len() - 1)
    } else {
        last_appending(c.drop_last())
    }
}

/// `last_appending` names the last appending transformation.
pub proof fn lemma_last_appending(c: Seq<TransModel>)
    ensures
        last_appending(c) matches Some(k) ==> 0 <= k < c.len() && c[k].rule.effect_type
            == EffectType::Appending && forall|j: int|
            k < j < c.len() ==> #[trigger] c[j].rule.effect_type != EffectType::Appending,
        last_appending(c) is None ==> forall|j: int|
            0 <= j < c.len() ==> #[trigger] c[j].rule.effect_type != EffectType::Appending,
    decreases c.len(),
{
    if c.len() > 0 {
        lemma_last_appending(c.drop_last());
        assert forall|j: int| 0 <= j < c.len() - 1 implies c[j] == c.drop_last()[j] by {}
    }
}

/// Finds the index of the last character appending transformation step in composition.
pub fn find_last_appending_trans_idx(composition: &[Transformation]) -> (r: Option<usize>)
    ensures
        r matches Some(k) ==> last_appending(comp_model(composition@)) == Some(k as int),
        r is None ==> last_appending(comp_model(composition@)) is None,
{
    let ghost c = comp_model(composition@);
    let mut i: usize = composition.len();
    assert(c.subrange(0, i as int) =~= c);
    while i > 0
        invariant
            i <= composition@.len(),
            c == comp_model(composition@),
            last_appending(c) == last_appending(c.subrange(0, i as int)),
        decreases i,
    {
        proof {
            lemma_rule_model(composition@[i - 1].rule);
            assert(c.subrange(0, i as int).drop_last() =~= c.subrange(0, i - 1));
        }
        match composition[i - 1].rule.effect_type {
            EffectType::Appending => {
                return Some(i - 1);
            },
            _ => {},
        }
        i = i - 1;
    }
    None
}

/// The number of transformations among the first `n` that write a character.
pub open spec fn written_count(c: Seq<TransModel>, n: int) -> nat
    decreases n,
{
    if n <= 0 {
        0
    } else {
        written_count(c, n - 1) + if writes_char(c[n - 1]) { 1nat } else { 0nat }
    }
}

/// The keys of the transformations that write a character, each with the case it was typed
/// in and the options of the mode.
pub open spec fn written_keys(c: Seq<TransModel>, mode: u32, n: int) -> Seq<char>
    decreases n,
{
    if n <= 0 {
        Seq::empty()
    } else {
        written_keys(c, mode, n - 1) + if writes_char(c[n - 1]) {
            seq![finish_char(c[n - 1].rule.key, c[n - 1].is_upper_case, mode)]
        } else {
            Seq::empty()
        }
    }
}

proof fn lemma_canvas_upto_shape(c: Seq<TransModel>, mode: u32, n: int)
    requires
        0 <= n <= c.len(),
    ensures
        canvas_upto(c, mode, n).len() == written_count(c, n),
        has_flag(mode, ENGLISH_MODE) ==> canvas_upto(c, mode, n) == written_keys(c, mode, n),
    decreases n,
{
    if n > 0 {
        lemma_canvas_upto_shape(c, mode, n - 1);
    }
}

/// The text of a composition has one character for each appending transformation with a
/// key, in every mode; in English mode that character is the key itself, with the case it
/// was typed in and the options of the mode.
pub proof fn law_canvas_shape(c: Seq<TransModel>, mode: u32)
    ensures
        canvas(c, mode).len() == written_count(c, c.len() as int),
        has_flag(mode, ENGLISH_MODE) ==> canvas(c, mode) == written_keys(c, mode, c.len() as int),
{
    lemma_canvas_upto_shape(c, mode, c.len() as int);
}

} // verus!
