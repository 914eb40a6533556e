//! Typing rules and the layouts of the input methods.
//!
//! A layout maps each of its keys to a line of a small rule language: the name of a tone
//! (`DauSac`, ...), or letters, `_` and the letters they turn into (`UOA_ƯƠĂ__Ư`: `u`, `o`,
//! `a` take a horn or a breve, and the key alone writes `ư`). The lines are compiled into
//! `Rule`s for the typing engine.

use vstd::prelude::*;
use crate::charset::{
    add_tone_to_char, get_mark_family, is_vowel, mark_family, vowel_index, with_tone,
};
use crate::text::{
    chars_of, regex_captures, regex_groups, str_eq, str_to_lowercase, string_from_str,
    text_lowercase,
};

verus! {

/// The type of transformation effect applied by a keystroke.
#[derive(Debug, Clone, Copy, PartialEq, Eq, Structural)]
pub enum EffectType {
    /// Appends specific characters directly (e.g. Telex 'w' appending 'ư').
    Appending,
    /// Adds, modifies, or removes a base diacritic mark (e.g. Telex 'a' -> 'â').
    MarkTransformation,
    /// Adds, modifies, or removes a tone mark (e.g. Telex 's' -> acute tone).
    ToneTransformation,
    /// Replaces a character or sequence with a designated result.
    Replacing,
}

/// Representation of Vietnamese base diacritic marks.
#[derive(Debug, Clone, Copy, PartialEq, Eq, Structural)]
pub enum Mark {
    /// No diacritic mark.
    NoMark,
    /// Circumflex mark (`â`, `ê`, `ô`).
    Hat,
    /// Breve mark (`ă`).
    Breve,
    /// Horn mark (`ơ`, `ư`).
    Horn,
    /// Stroke (`đ`).
    Dash,
    /// Untransformed/raw indicator.
    Raw,
}

/// Representation of Vietnamese tone marks.
#[derive(Debug, Clone, Copy, PartialEq, Eq, Structural)]
pub enum Tone {
    /// No tone (level tone).
    NoTone,
    /// Grave accent.
    Grave,
    /// Acute accent.
    Acute,
    /// Hook above.
    Hook,
    /// Tilde.
    Tilde,
    /// Dot below.
    Dot,
}

/// The number of a diacritic mark: its position in a row of the diacritic table.
pub open spec fn mark_value(m: Mark) -> u8 {
    match m {
        Mark::NoMark => 0,
        Mark::Hat => 1,
        Mark::Breve => 2,
        Mark::Horn => 3,
        Mark::Dash => 4,
        Mark::Raw => 5,
    }
}

/// The number of a tone: its position inside a group of the vowel table.
pub open spec fn tone_value(t: Tone) -> u8 {
    match t {
        Tone::NoTone => 0,
        Tone::Grave => 1,
        Tone::Acute => 2,
        Tone::Hook => 3,
        Tone::Tilde => 4,
        Tone::Dot => 5,
    }
}

/// The tone with a number; every number past 5 means no tone.
pub open spec fn tone_from_value(v: u8) -> Tone {
    if v == 1 {
        Tone::Grave
    } else if v == 2 {
        Tone::Acute
    } else if v == 3 {
        Tone::Hook
    } else if v == 4 {
        Tone::Tilde
    } else if v == 5 {
        Tone::Dot
    } else {
        Tone::NoTone
    }
}

impl Mark {
    /// The number of the mark.
    pub fn value(&self) -> (r: u8)
        ensures
            r == mark_value(*self),
    {
        match self {
            Mark::NoMark => 0,
            Mark::Hat => 1,
            Mark::Breve => 2,
            Mark::Horn => 3,
            Mark::Dash => 4,
            Mark::Raw => 5,
        }
    }
}

impl Tone {
    /// The number of the tone.
    pub fn value(&self) -> (r: u8)
        ensures
            r == tone_value(*self),
    {
        match self {
            Tone::NoTone => 0,
            Tone::Grave => 1,
            Tone::Acute => 2,
            Tone::Hook => 3,
            Tone::Tilde => 4,
            Tone::Dot => 5,
        }
    }

    /// Maps a numerical value (0-5) to its corresponding `Tone` variant.
    pub fn from_u8(val: u8) -> (r: Self)
        ensures
            r == tone_from_value(val),
    {
        match val {
            1 => Tone::Grave,
            2 => Tone::Acute,
            3 => Tone::Hook,
            4 => Tone::Tilde,
            5 => Tone::Dot,
            _ => Tone::NoTone,
        }
    }
}

/// A specific rule mapping a trigger key to its transformation effect.
#[derive(Debug)]
pub struct Rule {
    /// The trigger key (e.g. 's', 'a', '6').
    pub key: char,
    /// The numerical value of the applied `Mark` or `Tone`.
    pub effect: u8,
    /// The type of transformation.
    pub effect_type: EffectType,
    /// The character that must be matched in the buffer for this rule to trigger.
    pub effect_on: char,
    /// The resulting character after transformation.
    pub result: char,
    /// Secondary rules appended alongside this rule.
    pub appended_rules: Vec<Rule>,
}

/// The value of a rule: its fields, with the secondary rules as a sequence of values.
pub struct RuleModel {
    pub key: char,
    pub effect: u8,
    pub effect_type: EffectType,
    pub effect_on: char,
    pub result: char,
    pub appended: Seq<RuleModel>,
}

impl Rule {
    /// The value of the rule.
    pub open spec fn model(&self) -> RuleModel
        decreases self,
    {
        RuleModel {
            key: self.key,
            effect: self.effect,
            effect_type: self.effect_type,
            effect_on: self.effect_on,
            result: self.result,
            appended: Seq::new(
                self.appended_rules@.len(),
                |i: int|
                    if 0 <= i < self.appended_rules@.len() {
                        proof {
                            assert(decreases_to!(self => self.appended_rules@[i]));
                        }
                        self.appended_rules@[i].model()
                    } else {
                        arbitrary()
                    },
            ),
        }
    }
}

/// The secondary rules of a rule's value are the values of its secondary rules.
pub proof fn lemma_rule_model(r: Rule)
    ensures
        r.model().key == r.key,
        r.model().effect == r.effect,
        r.model().effect_type == r.effect_type,
        r.model().effect_on == r.effect_on,
        r.model().result == r.result,
        r.model().appended.len() == r.appended_rules@.len(),
        forall|j: int|
            0 <= j < r.appended_rules@.len() ==> #[trigger] r.model().appended[j]
                == r.appended_rules@[j].model(),
{
}

/// The values of a sequence of rules.
pub open spec fn rules_model(v: Seq<Rule>) -> Seq<RuleModel> {
    Seq::new(v.len(), |i: int| v[i].model())
}

/// A rule without secondary rules.
pub open spec fn plain_rule(
    key: char,
    effect: u8,
    effect_type: EffectType,
    effect_on: char,
    result: char,
) -> RuleModel {
    RuleModel { key, effect, effect_type, effect_on, result, appended: Seq::empty() }
}

/// Builds a rule without secondary rules.
pub fn new_rule(key: char, effect: u8, effect_type: EffectType, effect_on: char, result: char) -> (r:
    Rule)
    ensures
        r.model() == plain_rule(key, effect, effect_type, effect_on, result),
{
    let r = Rule { key, effect, effect_type, effect_on, result, appended_rules: Vec::new() };
    assert(r.model().appended =~= Seq::<RuleModel>::empty());
    r
}

/// A copy of a rule, secondary rules included.
pub fn clone_rule(r: &Rule) -> (c: Rule)
    ensures
        c.model() == r.model(),
    decreases r,
{
    let n = r.appended_rules.len();
    let mut app: Vec<Rule> = Vec::new();
    let mut i: usize = 0;
    while i < n
        invariant
            n == r.appended_rules@.len(),
            i <= n,
            app@.len() == i,
            forall|j: int| 0 <= j < i ==> #[trigger] app@[j].model() == r.appended_rules@[j].model(),
        decreases n - i,
    {
        proof {
            assert(decreases_to!(r => r.appended_rules@[i as int]));
        }
        let c = clone_rule(&r.appended_rules[i]);
        app.push(c);
        i = i + 1;
    }
    let c = Rule {
        key: r.key,
        effect: r.effect,
        effect_type: r.effect_type,
        effect_on: r.effect_on,
        result: r.result,
        appended_rules: app,
    };
    assert(c.model().appended =~= r.model().appended) by {
        assert forall|j: int| 0 <= j < n implies c.model().appended[j] == r.model().appended[j] by {
            assert(c.appended_rules@[j].model() == r.appended_rules@[j].model());
        }
    }
    c
}

/// A copy of a sequence of rules.
pub fn clone_rules(v: &Vec<Rule>) -> (c: Vec<Rule>)
    ensures
        rules_model(c@) == rules_model(v@),
{
    let mut c: Vec<Rule> = Vec::new();
    let mut i: usize = 0;
    while i < v.len()
        invariant
            i <= v@.len(),
            c@.len() == i,
            forall|j: int| 0 <= j < i ==> #[trigger] c@[j].model() == v@[j].model(),
        decreases v@.len() - i,
    {
        c.push(clone_rule(&v[i]));
        i = i + 1;
    }
    assert(rules_model(c@) =~= rules_model(v@));
    c
}

impl Clone for Rule {
    fn clone(&self) -> (c: Self)
        ensures
            c.model() == self.model(),
    {
        clone_rule(self)
    }
}

/// Representation of an entire input method layout configuration.
#[derive(Debug)]
pub struct InputMethod {
    /// The name of the input method (e.g., "Telex", "VNI").
    pub name: String,
    /// The compiled rules.
    pub rules: Vec<Rule>,
    /// Keys that can apply transformation to multiple characters simultaneously (e.g., 'w').
    pub super_keys: Vec<char>,
    /// Keys used to apply tones.
    pub tone_keys: Vec<char>,
    /// Keys used to trigger appending rules.
    pub appending_keys: Vec<char>,
    /// All key triggers defined in this input method.
    pub keys: Vec<char>,
}

/// The value of an input method.
pub struct InputMethodModel {
    pub name: Seq<char>,
    pub rules: Seq<RuleModel>,
    pub super_keys: Seq<char>,
    pub tone_keys: Seq<char>,
    pub appending_keys: Seq<char>,
    pub keys: Seq<char>,
}

impl InputMethod {
    /// The value of the input method.
    pub open spec fn model(&self) -> InputMethodModel {
        InputMethodModel {
            name: self.name@,
            rules: rules_model(self.rules@),
            super_keys: self.super_keys@,
            tone_keys: self.tone_keys@,
            appending_keys: self.appending_keys@,
            keys: self.keys@,
        }
    }
}

/// A copy of a sequence of characters.
pub fn clone_chars(v: &Vec<char>) -> (c: Vec<char>)
    ensures
        c@ == v@,
{
    let mut c: Vec<char> = Vec::new();
    let mut i: usize = 0;
    while i < v.len()
        invariant
            i <= v@.len(),
            c@ == v@.take(i as int),
        decreases v@.len() - i,
    {
        c.push(v[i]);
        assert(v@.take(i + 1) == v@.take(i as int).push(v@[i as int]));
        i = i + 1;
    }
    assert(v@.take(v@.len() as int) == v@);
    c
}

/// A copy of a sequence of indices.
pub fn clone_chars_usize(v: &Vec<usize>) -> (c: Vec<usize>)
    ensures
        c@ == v@,
{
    let mut c: Vec<usize> = Vec::new();
    let mut i: usize = 0;
    while i < v.len()
        invariant
            i <= v@.len(),
            c@ == v@.take(i as int),
        decreases v@.len() - i,
    {
        c.push(v[i]);
        assert(v@.take(i + 1) == v@.take(i as int).push(v@[i as int]));
        i = i + 1;
    }
    assert(v@.take(v@.len() as int) == v@);
    c
}

/// A copy of an input method.
pub fn clone_input_method(im: &InputMethod) -> (c: InputMethod)
    ensures
        c.model() == im.model(),
{
    InputMethod {
        name: im.name.clone(),
        rules: clone_rules(&im.rules),
        super_keys: clone_chars(&im.super_keys),
        tone_keys: clone_chars(&im.tone_keys),
        appending_keys: clone_chars(&im.appending_keys),
        keys: clone_chars(&im.keys),
    }
}

impl Clone for InputMethod {
    fn clone(&self) -> (c: Self)
        ensures
            c.model() == self.model(),
    {
        clone_input_method(self)
    }
}

/// The pattern that splits a rule line into the letters a key changes, the letters they
/// turn into, and what follows.
pub const RULE_PATTERN: &'static str = "([a-z]+)_([a-z\\p{L}]+)([a-z\\p{L}_]*)";

/// The pattern of an appending rule: one or two blanks, then the letters the key writes.
pub const APPENDING_PATTERN: &'static str = "(_?)_([a-z\\p{L}]+)";

/// A capture group, or an empty text when there is no such group.
pub open spec fn group(gs: Seq<Seq<char>>, i: int) -> Seq<char> {
    if 0 <= i < gs.len() {
        gs[i]
    } else {
        Seq::empty()
    }
}

/// The characters of capture group `i`.
fn group_chars(gs: &Vec<String>, i: usize, Ghost(expect): Ghost<Seq<Seq<char>>>) -> (r: Vec<char>)
    requires
        gs@.len() == expect.len(),
        forall|j: int| 0 <= j < gs@.len() ==> #[trigger] gs@[j]@ == expect[j],
    ensures
        r@ == group(expect, i as int),
{
    if i < gs.len() {
        chars_of(gs[i].as_str())
    } else {
        Vec::new()
    }
}

/// The diacritic mark that a letter carries, for the letters that carry one.
pub open spec fn mark_by_char(c: char) -> Option<Mark> {
    match c {
        'â' | 'ê' | 'ô' => Some(Mark::Hat),
        'ă' => Some(Mark::Breve),
        'ơ' | 'ư' => Some(Mark::Horn),
        'đ' => Some(Mark::Dash),
        _ => None,
    }
}

/// Resolves the `Mark` of a given Vietnamese character.
pub fn find_mark_from_char(chr: char) -> (r: Option<Mark>)
    ensures
        r == mark_by_char(chr),
{
    match chr {
        'â' | 'ê' | 'ô' => Some(Mark::Hat),
        'ă' => Some(Mark::Breve),
        'ơ' | 'ư' => Some(Mark::Horn),
        'đ' => Some(Mark::Dash),
        _ => None,
    }
}

/// The tone that a rule line names, if it names one.
pub open spec fn tone_by_name(line: Seq<char>) -> Option<Tone> {
    if line == "XoaDauThanh"@ {
        Some(Tone::NoTone)
    } else if line == "DauSac"@ {
        Some(Tone::Acute)
    } else if line == "DauHuyen"@ {
        Some(Tone::Grave)
    } else if line == "DauNga"@ {
        Some(Tone::Tilde)
    } else if line == "DauNang"@ {
        Some(Tone::Dot)
    } else if line == "DauHoi"@ {
        Some(Tone::Hook)
    } else {
        None
    }
}

/// Looks up the tone that a rule line names.
fn find_tone_by_name(line: &str) -> (r: Option<Tone>)
    ensures
        r == tone_by_name(line@),
{
    if str_eq(line, "XoaDauThanh") {
        Some(Tone::NoTone)
    } else if str_eq(line, "DauSac") {
        Some(Tone::Acute)
    } else if str_eq(line, "DauHuyen") {
        Some(Tone::Grave)
    } else if str_eq(line, "DauNga") {
        Some(Tone::Tilde)
    } else if str_eq(line, "DauNang") {
        Some(Tone::Dot)
    } else if str_eq(line, "DauHoi") {
        Some(Tone::Hook)
    } else {
        None
    }
}

/// The texts of captured groups.
pub open spec fn groups_view(gs: Seq<String>) -> Seq<Seq<char>> {
    Seq::new(gs.len(), |i: int| gs[i]@)
}

/// The appending rule that the groups of a match of `APPENDING_PATTERN` describe: the first
/// letter of group 2 written by the key, with its other letters as secondary rules; none
/// when group 2 is empty.
pub open spec fn appending_rule_of_groups(key: char, gs: Seq<Seq<char>>) -> Option<RuleModel> {
    let cs = group(gs, 2);
    if cs.len() == 0 {
        None
    } else {
        Some(
            RuleModel {
                key,
                effect: 0,
                effect_type: EffectType::Appending,
                effect_on: cs[0],
                result: cs[0],
                appended: Seq::new(
                    (cs.len() - 1) as nat,
                    |i: int| plain_rule(key, 0, EffectType::Appending, cs[i + 1], cs[i + 1]),
                ),
            },
        )
    }
}

/// The appending rule that a text describes (see `appending_rule_of_groups`), none when
/// the text does not match `APPENDING_PATTERN`.
pub open spec fn spec_appending_rule(key: char, value: Seq<char>) -> Option<RuleModel> {
    match regex_groups(APPENDING_PATTERN@, value) {
        Some(gs) => appending_rule_of_groups(key, gs),
        None => None,
    }
}

/// Builds the appending rule that the captured groups of `APPENDING_PATTERN` describe.
pub fn appending_rule_from_groups(key: char, gs: &Vec<String>) -> (r: Option<Rule>)
    ensures
        r is Some <==> appending_rule_of_groups(key, groups_view(gs@)) is Some,
        r matches Some(rule) ==> rule.model() == appending_rule_of_groups(key, groups_view(gs@))->0,
{
    let ghost expect = groups_view(gs@);
    let chars = group_chars(gs, 2, Ghost(expect));
    if chars.len() == 0 {
        return None;
    }
    let mut appended: Vec<Rule> = Vec::new();
    let mut i: usize = 1;
    while i < chars.len()
        invariant
            1 <= i <= chars@.len(),
            appended@.len() == i - 1,
            forall|j: int|
                0 <= j < i - 1 ==> #[trigger] appended@[j].model() == plain_rule(
                    key,
                    0,
                    EffectType::Appending,
                    chars@[j + 1],
                    chars@[j + 1],
                ),
        decreases chars@.len() - i,
    {
        appended.push(new_rule(key, 0, EffectType::Appending, chars[i], chars[i]));
        i = i + 1;
    }
    let ghost cs = chars@;
    assert(cs == group(expect, 2));
    let first = chars[0];
    let rule = Rule {
        key,
        effect: 0,
        effect_type: EffectType::Appending,
        effect_on: first,
        result: first,
        appended_rules: appended,
    };
    proof {
        let spec_rule = appending_rule_of_groups(key, expect)->0;
        lemma_rule_model(rule);
        let m = rule.model();
        assert(spec_rule.appended == Seq::new(
            (cs.len() - 1) as nat,
            |i: int| plain_rule(key, 0, EffectType::Appending, cs[i + 1], cs[i + 1]),
        ));
        assert(spec_rule.appended.len() == rule.appended_rules@.len());
        assert forall|j: int| 0 <= j < rule.appended_rules@.len() implies rule.model().appended[j]
            == spec_rule.appended[j] by {
            assert(m.appended[j] == rule.appended_rules@[j].model());
            assert(spec_rule.appended[j] == plain_rule(key, 0, EffectType::Appending, cs[j + 1], cs[j + 1]));
        }
        assert(rule.model().appended =~= spec_rule.appended);
        assert(first == cs[0]);
        assert(m == spec_rule);
    }
    Some(rule)
}

/// Parses and compiles character-appending rules from DSL format (e.g. `_ư` or `__ơ`).
pub fn get_appending_rule(key: char, value: &str) -> (r: Option<Rule>)
    ensures
        r is Some <==> spec_appending_rule(key, value@) is Some,
        r matches Some(rule) ==> rule.model() == spec_appending_rule(key, value@)->0,
{
    match regex_captures(APPENDING_PATTERN, value) {
        Some(gs) => {
            assert(groups_view(gs@) =~= regex_groups(APPENDING_PATTERN@, value@)->0);
            appending_rule_from_groups(key, &gs)
        },
        None => None,
    }
}

/// The tones in the order in which a mark rule is compiled for each of them.
pub open spec fn compile_tone_order(k: int) -> u8 {
    if k == 0 {
        0
    } else if k == 1 {
        5
    } else if k == 2 {
        2
    } else if k == 3 {
        1
    } else if k == 4 {
        3
    } else {
        4
    }
}

/// The rules that one letter of a family contributes to a mark rule.
pub open spec fn toneless_rule_piece(
    key: char,
    chr: char,
    effective_on: char,
    result: char,
    effect: u8,
) -> Seq<RuleModel> {
    if chr == result {
        seq![plain_rule(key, 0, EffectType::MarkTransformation, result, effective_on)]
    } else if vowel_index(chr) is Some {
        Seq::new(
            6,
            |k: int|
                plain_rule(
                    key,
                    effect,
                    EffectType::MarkTransformation,
                    with_tone(chr, compile_tone_order(k)),
                    with_tone(result, compile_tone_order(k)),
                ),
        )
    } else {
        seq![plain_rule(key, effect, EffectType::MarkTransformation, chr, result)]
    }
}

/// The rules that the letters of a family contribute to a mark rule, in order.
pub open spec fn toneless_rules_of(
    key: char,
    family: Seq<char>,
    effective_on: char,
    result: char,
    effect: u8,
) -> Seq<RuleModel>
    decreases family.len(),
{
    if family.len() == 0 {
        Seq::empty()
    } else {
        toneless_rules_of(key, family.drop_last(), effective_on, result, effect) + toneless_rule_piece(
            key,
            family.last(),
            effective_on,
            result,
            effect,
        )
    }
}

/// The rules of a mark rule that turns `effective_on` into `result`.
pub open spec fn spec_parse_toneless_rule(
    key: char,
    effective_on: char,
    result: char,
    effect: Mark,
) -> Seq<RuleModel> {
    toneless_rules_of(key, mark_family(effective_on), effective_on, result, mark_value(effect))
}

/// Compiles a base toneless conversion rule across all tone variations.
pub fn parse_toneless_rule(key: char, effective_on: char, result: char, effect: Mark) -> (r: Vec<
    Rule,
>)
    ensures
        rules_model(r@) == spec_parse_toneless_rule(key, effective_on, result, effect),
{
    let mut rules: Vec<Rule> = Vec::new();
    let tones_list: Vec<u8> = vec![0, 5, 2, 1, 3, 4];
    let effect_value = effect.value();
    let family = get_mark_family(effective_on);
    let mut i: usize = 0;
    while i < family.len()
        invariant
            i <= family@.len(),
            family@ == mark_family(effective_on),
            tones_list@ == seq![0u8, 5, 2, 1, 3, 4],
            effect_value == mark_value(effect),
            rules_model(rules@) == toneless_rules_of(
                key,
                family@.take(i as int),
                effective_on,
                result,
                effect_value,
            ),
        decreases family@.len() - i,
    {
        let chr = family[i];
        let ghost before = rules@;
        if chr == result {
            rules.push(new_rule(key, 0, EffectType::MarkTransformation, result, effective_on));
            assert(rules@[before.len() as int].model() == toneless_rule_piece(key, chr, effective_on, result, effect_value)[0]);
        } else if is_vowel(chr) {
            let mut k: usize = 0;
            while k < 6
                invariant
                    k <= 6,
                    tones_list@ == seq![0u8, 5, 2, 1, 3, 4],
                    vowel_index(chr) is Some,
                    chr != result,
                    rules@.len() == before.len() + k,
                    forall|j: int| 0 <= j < before.len() ==> #[trigger] rules@[j] == before[j],
                    forall|j: int|
                        0 <= j < k ==> #[trigger] rules@[before.len() + j].model()
                            == toneless_rule_piece(key, chr, effective_on, result, effect_value)[j],
                decreases 6 - k,
            {
                let tone = tones_list[k];
                let effect_on_tone = add_tone_to_char(chr, tone);
                let result_tone = add_tone_to_char(result, tone);
                rules.push(
                    new_rule(
                        key,
                        effect_value,
                        EffectType::MarkTransformation,
                        effect_on_tone,
                        result_tone,
                    ),
                );
                k = k + 1;
            }
        } else {
            rules.push(new_rule(key, effect_value, EffectType::MarkTransformation, chr, result));
            assert(rules@[before.len() as int].model() == toneless_rule_piece(key, chr, effective_on, result, effect_value)[0]);
        }
        proof {
            let piece = toneless_rule_piece(key, chr, effective_on, result, effect_value);
            assert(family@.take(i + 1).drop_last() == family@.take(i as int));
            assert(family@.take(i + 1).last() == chr);
            assert(rules@.len() == before.len() + piece.len());
            assert forall|j: int| 0 <= j < rules@.len() implies #[trigger] rules_model(rules@)[j] == (
            rules_model(before) + piece)[j] by {
                if j < before.len() {
                    assert(rules@[j] == before[j]);
                } else {
                    assert(rules@[before.len() + (j - before.len())].model() == piece[j - before.len()]);
                }
            }
            assert(rules_model(rules@) =~= rules_model(before) + piece);
        }
        i = i + 1;
    }
    assert(family@.take(family@.len() as int) == family@);
    rules
}

/// The mark rules of a rule line: letter `i` of `ons` turns into letter `i` of `results`
/// when that letter carries a mark, for the first `n` letters.
pub open spec fn mark_rules_of(
    key: char,
    ons: Seq<char>,
    results: Seq<char>,
    n: int,
) -> Seq<RuleModel>
    decreases n,
{
    if n <= 0 {
        Seq::empty()
    } else {
        let i = n - 1;
        mark_rules_of(key, ons, results, i) + if i < results.len() && mark_by_char(results[i]) is Some {
            spec_parse_toneless_rule(key, ons[i], results[i], mark_by_char(results[i])->0)
        } else {
            Seq::empty()
        }
    }
}

/// An optional rule as a sequence of zero or one rules.
pub open spec fn optional_rule(r: Option<RuleModel>) -> Seq<RuleModel> {
    match r {
        Some(rule) => seq![rule],
        None => Seq::empty(),
    }
}

/// The rules that the groups of a match of `RULE_PATTERN` describe: a mark rule for each
/// letter of group 1 whose letter in group 2 carries a mark, then the appending rule that
/// group 3 describes.
pub open spec fn toneless_rules_of_groups(key: char, gs: Seq<Seq<char>>) -> Seq<RuleModel> {
    let ons = group(gs, 1);
    let results = group(gs, 2);
    let suffix = group(gs, 3);
    mark_rules_of(key, ons, results, ons.len() as int) + optional_rule(spec_appending_rule(key, suffix))
}

/// The rules of a rule line that names no tone.
pub open spec fn spec_parse_toneless_rules(key: char, line: Seq<char>) -> Seq<RuleModel> {
    match regex_groups(RULE_PATTERN@, text_lowercase(line)) {
        Some(gs) => toneless_rules_of_groups(key, gs),
        None => optional_rule(spec_appending_rule(key, line)),
    }
}

/// Builds the rules that the captured groups of `RULE_PATTERN` describe.
pub fn toneless_rules_from_groups(key: char, gs: &Vec<String>) -> (r: Vec<Rule>)
    ensures
        rules_model(r@) == toneless_rules_of_groups(key, groups_view(gs@)),
{
    let ghost expect = groups_view(gs@);
    let mut rules: Vec<Rule> = Vec::new();
    let ons = group_chars(gs, 1, Ghost(expect));
    let results = group_chars(gs, 2, Ghost(expect));
    let suffix = group_chars(gs, 3, Ghost(expect));
    let mut i: usize = 0;
    while i < ons.len()
        invariant
            i <= ons@.len(),
            rules_model(rules@) == mark_rules_of(key, ons@, results@, i as int),
        decreases ons@.len() - i,
    {
        if i < results.len() {
            if let Some(effect) = find_mark_from_char(results[i]) {
                let more = parse_toneless_rule(key, ons[i], results[i], effect);
                append_rules(&mut rules, more);
            }
        }
        proof {
            assert(rules_model(rules@) =~= mark_rules_of(key, ons@, results@, i + 1));
        }
        i = i + 1;
    }
    let suffix_text = crate::text::string_of(&suffix);
    if let Some(rule) = get_appending_rule(key, suffix_text.as_str()) {
        let ghost before = rules@;
        rules.push(rule);
        assert(rules_model(rules@) =~= rules_model(before) + optional_rule(
            spec_appending_rule(key, suffix@),
        ));
    } else {
        assert(rules_model(rules@) =~= rules_model(rules@) + optional_rule(
            spec_appending_rule(key, suffix@),
        ));
    }
    rules
}

/// Appends the rules of `add` to `v`.
fn append_rules(v: &mut Vec<Rule>, add: Vec<Rule>)
    ensures
        rules_model(final(v)@) == rules_model(old(v)@) + rules_model(add@),
{
    let mut add = add;
    let ghost before = v@;
    let ghost added = add@;
    v.append(&mut add);
    assert(rules_model(v@) =~= rules_model(before) + rules_model(added));
}

/// Parses rules that are not tone-related (e.g. diacritic marks, character appends).
pub fn parse_toneless_rules(key: char, line: &str) -> (r: Vec<Rule>)
    ensures
        rules_model(r@) == spec_parse_toneless_rules(key, line@),
{
    let line_lower = str_to_lowercase(line);
    match regex_captures(RULE_PATTERN, line_lower.as_str()) {
        Some(gs) => {
            assert(groups_view(gs@) =~= regex_groups(RULE_PATTERN@, text_lowercase(line@))->0);
            toneless_rules_from_groups(key, &gs)
        },
        None => {
            let mut rules: Vec<Rule> = Vec::new();
            if let Some(rule) = get_appending_rule(key, line) {
                rules.push(rule);
                assert(rules_model(rules@) =~= optional_rule(spec_appending_rule(key, line@)));
            } else {
                assert(rules_model(rules@) =~= optional_rule(spec_appending_rule(key, line@)));
            }
            rules
        },
    }
}

/// The rules of a rule line: one tone rule, or the rules of a line that names no tone.
pub open spec fn spec_parse_rules(key: char, line: Seq<char>) -> Seq<RuleModel> {
    match tone_by_name(line) {
        Some(tone) => seq![
            plain_rule(key, tone_value(tone), EffectType::ToneTransformation, '\0', '\0'),
        ],
        None => spec_parse_toneless_rules(key, line),
    }
}

/// Parses standard definitions/DSL strings into a set of typing rules.
pub fn parse_rules(key: char, line: &str) -> (r: Vec<Rule>)
    ensures
        rules_model(r@) == spec_parse_rules(key, line@),
{
    match find_tone_by_name(line) {
        Some(tone) => {
            let rule = new_rule(key, tone.value(), EffectType::ToneTransformation, '\0', '\0');
            let mut v: Vec<Rule> = Vec::new();
            v.push(rule);
            assert(rules_model(v@) =~= spec_parse_rules(key, line@));
            v
        },
        None => parse_toneless_rules(key, line),
    }
}


/// The layouts of the input methods that the library knows: the lines of rules of each key,
/// in the order in which they are compiled.
pub open spec fn layout_lines(name: Seq<char>) -> Option<Seq<(char, Seq<char>)>> {
    if name == "Telex"@ {
        Some(seq![
            ('z', "XoaDauThanh"@),
            ('s', "DauSac"@),
            ('f', "DauHuyen"@),
            ('r', "DauHoi"@),
            ('x', "DauNga"@),
            ('j', "DauNang"@),
            ('a', "A_Â"@),
            ('e', "E_Ê"@),
            ('o', "O_Ô"@),
            ('w', "UOA_ƯƠĂ__Ư"@),
            ('d', "D_Đ"@),
            (']', "__ư"@),
            ('[', "__ơ"@),
            ('}', "__Ư"@),
            ('{', "__Ơ"@),
        ])
    } else if name == "Simple Telex"@ {
        Some(seq![
            ('z', "XoaDauThanh"@),
            ('s', "DauSac"@),
            ('f', "DauHuyen"@),
            ('r', "DauHoi"@),
            ('x', "DauNga"@),
            ('j', "DauNang"@),
            ('a', "A_Â"@),
            ('e', "E_Ê"@),
            ('o', "O_Ô"@),
            ('w', "UOA_ƯƠĂ"@),
            ('d', "D_Đ"@),
        ])
    } else if name == "VNI"@ {
        Some(seq![
            ('0', "XoaDauThanh"@),
            ('1', "DauSac"@),
            ('2', "DauHuyen"@),
            ('3', "DauHoi"@),
            ('4', "DauNga"@),
            ('5', "DauNang"@),
            ('6', "AEO_ÂÊÔ"@),
            ('7', "UO_ƯƠ"@),
            ('8', "A_Ă"@),
            ('9', "D_Đ"@),
        ])
    } else {
        None
    }
}

/// The lines of a layout, each text taken by its characters.
pub open spec fn lines_view(v: Seq<(char, &str)>) -> Seq<(char, Seq<char>)> {
    Seq::new(v.len(), |i: int| (v[i].0, v[i].1@))
}

/// The lines of the layout with the given name.
fn layout_definition(name: &str) -> (r: Option<Vec<(char, &'static str)>>)
    ensures
        r is Some <==> layout_lines(name@) is Some,
        r matches Some(v) ==> lines_view(v@) == layout_lines(name@)->0,
{
    if str_eq(name, "Telex") {
        let v: Vec<(char, &'static str)> = vec![
            ('z', "XoaDauThanh"),
            ('s', "DauSac"),
            ('f', "DauHuyen"),
            ('r', "DauHoi"),
            ('x', "DauNga"),
            ('j', "DauNang"),
            ('a', "A_Â"),
            ('e', "E_Ê"),
            ('o', "O_Ô"),
            ('w', "UOA_ƯƠĂ__Ư"),
            ('d', "D_Đ"),
            (']', "__ư"),
            ('[', "__ơ"),
            ('}', "__Ư"),
            ('{', "__Ơ"),
        ];
        assert(lines_view(v@) =~= layout_lines(name@)->0);
        Some(v)
    } else if str_eq(name, "Simple Telex") {
        let v: Vec<(char, &'static str)> = vec![
            ('z', "XoaDauThanh"),
            ('s', "DauSac"),
            ('f', "DauHuyen"),
            ('r', "DauHoi"),
            ('x', "DauNga"),
            ('j', "DauNang"),
            ('a', "A_Â"),
            ('e', "E_Ê"),
            ('o', "O_Ô"),
            ('w', "UOA_ƯƠĂ"),
            ('d', "D_Đ"),
        ];
        assert(lines_view(v@) =~= layout_lines(name@)->0);
        Some(v)
    } else if str_eq(name, "VNI") {
        let v: Vec<(char, &'static str)> = vec![
            ('0', "XoaDauThanh"),
            ('1', "DauSac"),
            ('2', "DauHuyen"),
            ('3', "DauHoi"),
            ('4', "DauNga"),
            ('5', "DauNang"),
            ('6', "AEO_ÂÊÔ"),
            ('7', "UO_ƯƠ"),
            ('8', "A_Ă"),
            ('9', "D_Đ"),
        ];
        assert(lines_view(v@) =~= layout_lines(name@)->0);
        Some(v)
    } else {
        None
    }
}

/// The keys of the rules of a given type, in order.
pub open spec fn keys_of_type(rules: Seq<RuleModel>, t: EffectType) -> Seq<char>
    decreases rules.len(),
{
    if rules.len() == 0 {
        Seq::empty()
    } else {
        keys_of_type(rules.drop_last(), t) + if rules.last().effect_type == t {
            seq![rules.last().key]
        } else {
            Seq::empty()
        }
    }
}

/// Whether a text holds `u` directly followed by `o`.
pub open spec fn contains_uo(s: Seq<char>) -> bool {
    exists|i: int| 0 <= i && i + 1 < s.len() && s[i] == 'u' && #[trigger] s[i + 1] == 'o'
}

/// Whether a sequence of characters holds `u` directly followed by `o`.
fn has_uo(s: &Vec<char>) -> (r: bool)
    ensures
        r == contains_uo(s@),
{
    let n = s.len();
    if n < 2 {
        return false;
    }
    let mut i: usize = 0;
    while i < n - 1
        invariant
            n == s@.len(),
            n >= 2,
            i <= n - 1,
            forall|j: int| 0 <= j < i && j + 1 < s@.len() ==> !(s@[j] == 'u' && #[trigger] s@[j + 1] == 'o'),
        decreases n - i,
    {
        if s[i] == 'u' && s[i + 1] == 'o' {
            return true;
        }
        i = i + 1;
    }
    false
}

/// An input method with a name and nothing else.
pub open spec fn empty_input_method(name: Seq<char>) -> InputMethodModel {
    InputMethodModel {
        name,
        rules: Seq::empty(),
        super_keys: Seq::empty(),
        tone_keys: Seq::empty(),
        appending_keys: Seq::empty(),
        keys: Seq::empty(),
    }
}

/// The input method compiled from the first lines of a layout, line by line: each key is
/// listed, its rules are compiled, the keys of its appending and tone rules are listed,
/// and a key whose lower-cased line holds `uo` is a super key.
pub open spec fn build_input_method(name: Seq<char>, lines: Seq<(char, Seq<char>)>) -> InputMethodModel
    decreases lines.len(),
{
    if lines.len() == 0 {
        empty_input_method(name)
    } else {
        let prev = build_input_method(name, lines.drop_last());
        let key = lines.last().0;
        let line = lines.last().1;
        let parsed = spec_parse_rules(key, line);
        InputMethodModel {
            name,
            rules: prev.rules + parsed,
            super_keys: prev.super_keys + if contains_uo(text_lowercase(line)) {
                seq![key]
            } else {
                Seq::empty()
            },
            tone_keys: prev.tone_keys + keys_of_type(parsed, EffectType::ToneTransformation),
            appending_keys: prev.appending_keys + keys_of_type(parsed, EffectType::Appending),
            keys: prev.keys.push(key),
        }
    }
}

/// The input method with a given name, if the library knows it.
pub open spec fn spec_get_input_method(name: Seq<char>) -> Option<InputMethodModel> {
    match layout_lines(name) {
        Some(lines) => Some(build_input_method(name, lines)),
        None => None,
    }
}

/// Builds and compiles an `InputMethod` object from its layout name.
pub fn get_input_method(name: &str) -> (r: Option<InputMethod>)
    ensures
        r is Some <==> spec_get_input_method(name@) is Some,
        r matches Some(im) ==> im.model() == spec_get_input_method(name@)->0,
{
    let defs = match layout_definition(name) {
        Some(d) => d,
        None => return None,
    };
    let ghost lines = layout_lines(name@)->0;
    let mut im = InputMethod {
        name: string_from_str(name),
        rules: Vec::new(),
        super_keys: Vec::new(),
        tone_keys: Vec::new(),
        appending_keys: Vec::new(),
        keys: Vec::new(),
    };
    assert(im.model() == build_input_method(name@, lines.take(0))) by {
        assert(rules_model(im.rules@) =~= Seq::<RuleModel>::empty());
        assert(lines.take(0).len() == 0);
    }
    let mut i: usize = 0;
    while i < defs.len()
        invariant
            i <= defs@.len(),
            lines_view(defs@) == lines,
            im.model() == build_input_method(name@, lines.take(i as int)),
        decreases defs@.len() - i,
    {
        let (key, line) = defs[i];
        let ghost prev = im.model();
        assert(lines.take(i + 1).drop_last() == lines.take(i as int));
        assert(lines.take(i + 1).last() == (key, line@));
        im.keys.push(key);
        let ghost old_rules = im.rules@;
        let parsed = parse_rules(key, line);
        let ghost pm = rules_model(parsed@);
        let mut j: usize = 0;
        while j < parsed.len()
            invariant
                j <= parsed@.len(),
                pm == rules_model(parsed@),
                im.keys@ == prev.keys.push(key),
                im.super_keys@ == prev.super_keys,
                im.rules@ == old_rules,
                im.name@ == prev.name,
                im.appending_keys@ == prev.appending_keys + keys_of_type(pm.take(j as int), EffectType::Appending),
                im.tone_keys@ == prev.tone_keys + keys_of_type(pm.take(j as int), EffectType::ToneTransformation),
            decreases parsed@.len() - j,
        {
            assert(pm.take(j + 1).drop_last() == pm.take(j as int));
            proof {
                lemma_rule_model(parsed@[j as int]);
            }
            if parsed[j].effect_type == EffectType::Appending {
                im.appending_keys.push(parsed[j].key);
            }
            if parsed[j].effect_type == EffectType::ToneTransformation {
                im.tone_keys.push(parsed[j].key);
            }
            j = j + 1;
        }
        assert(pm.take(pm.len() as int) == pm);
        let lower = str_to_lowercase(line);
        let lower_chars = chars_of(lower.as_str());
        if has_uo(&lower_chars) {
            im.super_keys.push(key);
        }
        append_rules(&mut im.rules, parsed);
        proof {
            let want = build_input_method(name@, lines.take(i + 1));
            assert(im.super_keys@ =~= want.super_keys);
            assert(im.tone_keys@ =~= want.tone_keys);
            assert(im.appending_keys@ =~= want.appending_keys);
            assert(im.keys@ =~= want.keys);
            assert(im.model().rules =~= want.rules);
        }
        i = i + 1;
    }
    assert(lines.take(defs@.len() as int) == lines);
    Some(im)
}


/// The library knows exactly three input methods, and each keeps the name it was asked by.
pub proof fn law_known_input_methods(name: Seq<char>)
    ensures
        spec_get_input_method(name) is Some <==> (name == "Telex"@ || name == "Simple Telex"@
            || name == "VNI"@),
        spec_get_input_method(name) matches Some(im) ==> im.name == name,
{
    if let Some(lines) = layout_lines(name) {
        lemma_build_keys(name, lines);
    }
}

/// The keys of the first lines of a layout.
pub open spec fn line_keys(lines: Seq<(char, Seq<char>)>) -> Seq<char> {
    Seq::new(lines.len(), |i: int| lines[i].0)
}

/// Compiling a layout keeps its name, lists its keys in order, and gives every rule a key
/// of the layout.
pub proof fn lemma_build_keys(name: Seq<char>, lines: Seq<(char, Seq<char>)>)
    ensures
        build_input_method(name, lines).name == name,
        build_input_method(name, lines).keys == line_keys(lines),
        forall|i: int|
            0 <= i < build_input_method(name, lines).rules.len() ==> line_keys(lines).contains(
                #[trigger] build_input_method(name, lines).rules[i].key,
            ),
    decreases lines.len(),
{
    if lines.len() > 0 {
        let prefix = lines.drop_last();
        lemma_build_keys(name, prefix);
        let key = lines.last().0;
        let parsed = spec_parse_rules(key, lines.last().1);
        lemma_parse_rules_key(key, lines.last().1);
        let im = build_input_method(name, lines);
        let prev = build_input_method(name, prefix);
        assert(line_keys(lines) =~= line_keys(prefix).push(key));
        assert forall|i: int| 0 <= i < im.rules.len() implies line_keys(lines).contains(
            #[trigger] im.rules[i].key,
        ) by {
            if i < prev.rules.len() {
                assert(im.rules[i] == prev.rules[i]);
                let j = choose|j: int| 0 <= j < line_keys(prefix).len() && line_keys(prefix)[j] == prev.rules[i].key;
                assert(line_keys(lines)[j] == line_keys(prefix)[j]);
            } else {
                assert(im.rules[i] == parsed[i - prev.rules.len()]);
                assert(line_keys(lines)[lines.len() - 1] == key);
            }
        }
    }
}

/// Every rule compiled from a line is triggered by the line's key.
pub proof fn lemma_parse_rules_key(key: char, line: Seq<char>)
    ensures
        forall|i: int| 0 <= i < spec_parse_rules(key, line).len() ==> #[trigger] spec_parse_rules(key, line)[i].key == key,
{
    match tone_by_name(line) {
        Some(_) => {},
        None => {
            match regex_groups(RULE_PATTERN@, text_lowercase(line)) {
                Some(gs) => {
                    let ons = group(gs, 1);
                    let results = group(gs, 2);
                    lemma_mark_rules_key(key, ons, results, ons.len() as int);
                },
                None => {},
            }
        },
    }
}

/// Every mark rule compiled for a key is triggered by that key.
pub proof fn lemma_mark_rules_key(key: char, ons: Seq<char>, results: Seq<char>, n: int)
    ensures
        forall|i: int| 0 <= i < mark_rules_of(key, ons, results, n).len() ==> #[trigger] mark_rules_of(key, ons, results, n)[i].key == key,
    decreases n,
{
    if n > 0 {
        lemma_mark_rules_key(key, ons, results, n - 1);
        let i = n - 1;
        if i < results.len() && mark_by_char(results[i]) is Some {
            lemma_toneless_rules_key(key, mark_family(ons[i]), ons[i], results[i], mark_value(mark_by_char(results[i])->0));
        }
    }
}

/// Every rule that the letters of a family contribute is triggered by the key.
pub proof fn lemma_toneless_rules_key(key: char, family: Seq<char>, effective_on: char, result: char, effect: u8)
    ensures
        forall|i: int| 0 <= i < toneless_rules_of(key, family, effective_on, result, effect).len() ==> #[trigger] toneless_rules_of(key, family, effective_on, result, effect)[i].key == key,
    decreases family.len(),
{
    if family.len() > 0 {
        lemma_toneless_rules_key(key, family.drop_last(), effective_on, result, effect);
    }
}

/// The tone that a tone rule line writes, shown on the letter `a`.
proof fn lemma_tone_line(key: char, line: Seq<char>, marked: char)
    requires
        tone_by_name(line) is Some,
        with_tone('a', tone_value(tone_by_name(line)->0)) == marked,
    ensures
        spec_parse_rules(key, line).len() == 1,
        spec_parse_rules(key, line)[0].key == key,
        spec_parse_rules(key, line)[0].effect_type == EffectType::ToneTransformation,
        with_tone('a', spec_parse_rules(key, line)[0].effect) == marked,
{
}

/// A layout line that names a tone compiles into one tone rule of the line's key, and that
/// rule writes the tone the name says: `XoaDauThanh` clears the tone, `DauHuyen` writes the
/// grave (à), `DauSac` the acute (á), `DauHoi` the hook (ả), `DauNga` the tilde (ã) and
/// `DauNang` the dot below (ạ); so the six names write six different tones.
pub proof fn law_tone_names(key: char)
    ensures
        ({
            let names = seq!["XoaDauThanh"@, "DauHuyen"@, "DauSac"@, "DauHoi"@, "DauNga"@, "DauNang"@];
            let marked = seq!['a', 'à', 'á', 'ả', 'ã', 'ạ'];
            forall|i: int| 0 <= i < 6 ==> {
                &&& #[trigger] spec_parse_rules(key, names[i]).len() == 1
                &&& spec_parse_rules(key, names[i])[0].key == key
                &&& spec_parse_rules(key, names[i])[0].effect_type == EffectType::ToneTransformation
                &&& with_tone('a', spec_parse_rules(key, names[i])[0].effect) == marked[i]
            }
        }),
{
    reveal_strlit("XoaDauThanh");
    reveal_strlit("DauHuyen");
    reveal_strlit("DauSac");
    reveal_strlit("DauHoi");
    reveal_strlit("DauNga");
    reveal_strlit("DauNang");
    assert("XoaDauThanh"@.len() == 11 && "DauHuyen"@.len() == 8 && "DauSac"@.len() == 6);
    assert("DauHoi"@.len() == 6 && "DauNga"@.len() == 6 && "DauNang"@.len() == 7);
    assert("DauSac"@[3] != "DauHoi"@[3] && "DauSac"@[3] != "DauNga"@[3] && "DauHoi"@[3] != "DauNga"@[3]);
    lemma_tone_line(key, "XoaDauThanh"@, 'a');
    lemma_tone_line(key, "DauHuyen"@, 'à');
    lemma_tone_line(key, "DauSac"@, 'á');
    lemma_tone_line(key, "DauHoi"@, 'ả');
    lemma_tone_line(key, "DauNga"@, 'ã');
    lemma_tone_line(key, "DauNang"@, 'ạ');
    let names = seq!["XoaDauThanh"@, "DauHuyen"@, "DauSac"@, "DauHoi"@, "DauNga"@, "DauNang"@];
    assert(names[0] == "XoaDauThanh"@ && names[1] == "DauHuyen"@ && names[2] == "DauSac"@);
    assert(names[3] == "DauHoi"@ && names[4] == "DauNga"@ && names[5] == "DauNang"@);
}

} // verus!
