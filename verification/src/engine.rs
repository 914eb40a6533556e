//! The typing engine: a composition of transformations built keystroke by keystroke, and
//! the decisions that choose the transformations of each key.

use vstd::prelude::*;

pub mod canvas;
pub mod syllable;
pub mod tone;
pub mod words;
pub mod keystroke;
pub mod laws;
pub mod shape;
pub mod retone;

pub use canvas::{
    find_last_appending_trans_idx, flatten, get_canvas, new_appending_trans, Transformation,
};
pub use syllable::{
    extract_cvc_appending_trans, extract_cvc_trans_indices, filter_appending_composition,
    find_root_target, get_right_most_vowels_start, is_free,
};
pub use tone::{
    find_tone_target, get_last_tone_transformation_idx, has_valid_tone, is_valid_slice,
    refresh_last_tone_target,
};
pub use words::{
    extract_last_syllable_start, extract_last_word_start,
    extract_last_word_with_punctuation_marks_start,
};

use crate::charset::{ascii_lower, can_process_key_in, is_ascii_upper, spec_can_process_key, spec_is_ascii_upper, to_ascii_lower, vec_contains_char};
use crate::rules::{lemma_rule_model, InputMethod, InputMethodModel};
use canvas::{
    appending_trans, canvas, canvas_range, clone_composition, comp_model, has_flag, last_appending,
    push_trans, append_trans, TransModel,
};
use keystroke::{applicable_rules, generate_transformations, get_applicable_rules, spec_generate};
use tone::spec_refresh_last_tone_target;
use words::{punct_word_start_from, syllable_start, word_start_from};
use crate::text::string_of;

verus! {

/// Flag indicating that Vietnamese typing mode is active.
pub const VIETNAMESE_MODE: u32 = 1;
/// Flag indicating that English typing mode is active (bypass Vietnamese processing).
pub const ENGLISH_MODE: u32 = 2;
/// Flag indicating that tone marks should be omitted from the output.
pub const TONE_LESS: u32 = 4;
/// Flag indicating that diacritic marks should be omitted from the output.
pub const MARK_LESS: u32 = 8;
/// Flag indicating that the processed string should be converted to lower case.
pub const LOWER_CASE: u32 = 16;
/// Flag indicating that the output should represent the full/entire text buffer.
pub const FULL_TEXT: u32 = 32;
/// Flag indicating that punctuation marks mode is active.
pub const PUNCTUATION_MODE: u32 = 64;
/// Flag indicating that keys are processed/inserted in reverse order.
pub const IN_REVERSE_ORDER: u32 = 128;

/// Flag enabling free tone marking: the tone key may come anywhere in the word.
pub const EFREE_TONE_MARKING: u32 = 1;
/// Flag enabling the standard tone style (e.g. `hòa` vs `hoà`).
pub const ESTD_TONE_STYLE: u32 = 2;
/// Flag enabling automatic spell-correction checks on the input sequence.
pub const EAUTO_CORRECT_ENABLED: u32 = 4;
/// Standard typing flags preset (enables free tone marking, standard tone style, and auto-correct).
pub const ESTD_FLAGS: u32 = EFREE_TONE_MARKING | ESTD_TONE_STYLE | EAUTO_CORRECT_ENABLED;


/// The core typing engine managing composition history, input method configuration, and settings.
pub struct Engine {
    /// History of all key transformations in the current composition buffer.
    pub composition: Vec<Transformation>,
    /// Configured input method rules and layouts (e.g. Telex, VNI).
    pub input_method: InputMethod,
    /// Configuration flags (e.g. `EFREE_TONE_MARKING`, `ESTD_TONE_STYLE`).
    pub flags: u32,
}

/// The composition after a keystroke. In English mode, or for a key the input method does
/// not take, the key is appended as it is (in front in reverse order); otherwise the key's
/// transformations on the last syllable are appended.
pub open spec fn spec_process_key(c: Seq<TransModel>, im: InputMethodModel, flags: u32, key: char, mode: u32) -> Seq<TransModel> {
    let lower_key = ascii_lower(key);
    let is_upper_case = spec_is_ascii_upper(key);
    if has_flag(mode, ENGLISH_MODE) || !spec_can_process_key(lower_key, im.keys) {
        let t = appending_trans(lower_key, is_upper_case);
        if has_flag(mode, IN_REVERSE_ORDER) {
            seq![t] + c
        } else {
            c.push(t)
        }
    } else {
        let start = syllable_start(c, im.keys);
        c + spec_generate(c, start, applicable_rules(im.rules, lower_key), im, flags, lower_key, is_upper_case)
    }
}

/// The transformations from `start` to `n` that neither target position `la` nor stand there.
pub open spec fn kept_after(c: Seq<TransModel>, start: int, la: int, n: int) -> Seq<TransModel>
    decreases n - start,
{
    if n <= start {
        Seq::empty()
    } else {
        kept_after(c, start, la, n - 1) + if c[n - 1].target == Some(la as usize) || n - 1 == la {
            Seq::empty()
        } else {
            seq![c[n - 1]]
        }
    }
}

/// The composition after removing the last character: nothing changes without an appending
/// transformation; when the input method does not take the key of the last one, the last
/// transformation goes; otherwise the last word loses that transformation and those that
/// target it, and the last tone may move to its new place.
pub open spec fn spec_remove_last_char(c: Seq<TransModel>, im: InputMethodModel, flags: u32, refresh_last_tone: bool) -> Seq<TransModel> {
    match last_appending(c) {
        None => c,
        Some(la) => if !spec_can_process_key(c[la].rule.key, im.keys) {
            c.drop_last()
        } else {
            let start = word_start_from(c, im.keys, c.len() as int);
            let nc = c.subrange(0, start) + kept_after(c, start, la, c.len() as int);
            if refresh_last_tone {
                nc + spec_refresh_last_tone_target(nc, start, has_flag(flags, ESTD_TONE_STYLE))
            } else {
                nc
            }
        },
    }
}

/// The keys of a word appended again as they were typed, those without key left out.
pub open spec fn raw_keys(last: Seq<TransModel>) -> Seq<TransModel>
    decreases last.len(),
{
    if last.len() == 0 {
        Seq::empty()
    } else {
        raw_keys(last.drop_last()) + if last.last().rule.key != '\0' {
            seq![appending_trans(last.last().rule.key, last.last().is_upper_case)]
        } else {
            Seq::empty()
        }
    }
}

/// The composition after typing again, in Vietnamese mode, the keys of the first `n`
/// transformations of a word.
pub open spec fn replay_keys(c: Seq<TransModel>, im: InputMethodModel, flags: u32, last: Seq<TransModel>, n: int) -> Seq<TransModel>
    decreases n,
{
    if n <= 0 {
        c
    } else {
        spec_process_key(replay_keys(c, im, flags, last, n - 1), im, flags, last[n - 1].rule.key, VIETNAMESE_MODE)
    }
}

/// The composition after restoring the last word: as raw keys, or typed again in Vietnamese.
pub open spec fn spec_restore_last_word(c: Seq<TransModel>, im: InputMethodModel, flags: u32, to_vietnamese: bool) -> Seq<TransModel> {
    let start = word_start_from(c, im.keys, c.len() as int);
    if start == c.len() {
        c
    } else {
        let head = c.subrange(0, start);
        let last = c.subrange(start, c.len() as int);
        if !to_vietnamese {
            head + raw_keys(last)
        } else {
            replay_keys(head, im, flags, last, last.len() as int)
        }
    }
}

/// The text of a composition in a mode: all of it, or its last word (after the last space
/// when punctuation counts, else after the last character that is neither a letter nor a
/// key of the input method).
pub open spec fn spec_processed_string(c: Seq<TransModel>, im: InputMethodModel, mode: u32) -> Seq<char> {
    if has_flag(mode, FULL_TEXT) {
        canvas(c, mode)
    } else if has_flag(mode, PUNCTUATION_MODE) {
        let start = punct_word_start_from(c, c.len() as int);
        canvas(c.subrange(start, c.len() as int), mode & !PUNCTUATION_MODE)
    } else {
        let start = word_start_from(c, im.keys, c.len() as int);
        canvas(c.subrange(start, c.len() as int), mode)
    }
}

impl Engine {
    /// The transformations of the composition, as values.
    pub open spec fn comp(&self) -> Seq<TransModel> {
        comp_model(self.composition@)
    }

    /// Creates a new `Engine` instance with the specified input method and configuration flags.
    pub fn new(input_method: InputMethod, flags: u32) -> (r: Self)
        ensures
            r.composition@.len() == 0,
            r.input_method == input_method,
            r.flags == flags,
    {
        Self { composition: Vec::new(), input_method, flags }
    }

    /// Resets the engine composition history, clearing the current buffer.
    pub fn reset(&mut self)
        ensures
            final(self).composition@.len() == 0,
            final(self).input_method == old(self).input_method,
            final(self).flags == old(self).flags,
    {
        self.composition.clear();
    }

    /// Returns a reference to the active `InputMethod` layout.
    pub fn get_input_method(&self) -> (r: &InputMethod)
        ensures
            *r == self.input_method,
    {
        &self.input_method
    }

    /// Updates the engine configuration flags.
    pub fn set_flag(&mut self, flag: u32)
        ensures
            final(self).flags == flag,
            final(self).composition == old(self).composition,
            final(self).input_method == old(self).input_method,
    {
        self.flags = flag;
    }

    /// Checks if a lowercase key is categorized as a "super key" (modifies multiple vowels simultaneously, e.g. Telex `w`).
    pub fn is_super_key(&self, lower_key: char) -> (r: bool)
        ensures
            r == self.input_method.super_keys@.contains(lower_key),
    {
        vec_contains_char(&self.input_method.super_keys, lower_key)
    }

    /// Checks if a key is a designated tone modification key in the current layout.
    pub fn is_tone_key(&self, key: char) -> (r: bool)
        ensures
            r == self.input_method.tone_keys@.contains(key),
    {
        vec_contains_char(&self.input_method.tone_keys, key)
    }

    /// Checks if a key triggers any rule within the current input method layout.
    pub fn is_effective_key(&self, key: char) -> (r: bool)
        ensures
            r == self.input_method.keys@.contains(key),
    {
        vec_contains_char(&self.input_method.keys, key)
    }

    /// Validates if the current spelling of the last word in composition is correct.
    ///
    /// * `input_is_full_complete` - Strict check toggle passed to spelling rule validator.
    pub fn is_valid(&self, input_is_full_complete: bool) -> (r: bool)
        ensures
            r == tone::spec_is_valid_slice(
                self.comp(),
                word_start_from(self.comp(), self.input_method.keys@, self.comp().len() as int),
                input_is_full_complete,
            ),
    {
        let last_word_start = extract_last_word_start(self.composition.as_slice(), self.input_method.keys.as_slice());
        is_valid_slice(self.composition.as_slice(), last_word_start, input_is_full_complete)
    }

    /// Flattens the composition buffer and returns the processed output string based on the given mode.
    pub fn get_processed_string(&self, mode: u32) -> (r: String)
        ensures
            r@ == spec_processed_string(self.comp(), self.input_method.model(), mode),
    {
        let comp = self.composition.as_slice();
        let n = comp.len();
        if (mode & FULL_TEXT) != 0 {
            flatten(comp, mode)
        } else if (mode & PUNCTUATION_MODE) != 0 {
            let start = extract_last_word_with_punctuation_marks_start(comp, self.input_method.keys.as_slice());
            let chars = canvas_range(comp, start, n, mode & !PUNCTUATION_MODE);
            string_of(&chars)
        } else {
            let start = extract_last_word_start(comp, self.input_method.keys.as_slice());
            let chars = canvas_range(comp, start, n, mode);
            string_of(&chars)
        }
    }

    /// Checks if the engine can process the given key under the active input method configuration.
    pub fn can_process_key(&self, key: char) -> (r: bool)
        ensures
            r == spec_can_process_key(key, self.input_method.keys@),
    {
        can_process_key_in(key, &self.input_method.keys)
    }

    /// Processes a single keystroke, applying rules and generating new transformations.
    ///
    /// * `key` - The incoming key character.
    /// * `mode` - The active mode flags.
    pub fn process_key(&mut self, key: char, mode: u32)
        ensures
            final(self).comp() == spec_process_key(old(self).comp(), old(self).input_method.model(), old(self).flags, key, mode),
            final(self).input_method == old(self).input_method,
            final(self).flags == old(self).flags,
    {
        let lower_key = to_ascii_lower(key);
        let is_upper_case = is_ascii_upper(key);
        if (mode & ENGLISH_MODE) != 0 || !self.can_process_key(lower_key) {
            let trans = new_appending_trans(lower_key, is_upper_case);
            if (mode & IN_REVERSE_ORDER) != 0 {
                let ghost before = self.comp();
                let ghost tm = trans.model();
                self.composition.insert(0, trans);
                assert(self.comp() =~= seq![tm] + before);
            } else {
                push_trans(&mut self.composition, trans);
            }
            return;
        }
        let last_syllable_start = extract_last_syllable_start(self.composition.as_slice(), self.input_method.keys.as_slice());
        let applicable = get_applicable_rules(&self.input_method, lower_key);
        let transformations = generate_transformations(
            &self.input_method,
            self.flags,
            self.composition.as_slice(),
            last_syllable_start,
            &applicable,
            lower_key,
            is_upper_case,
        );
        append_trans(&mut self.composition, transformations);
    }

    /// Removes the last character from the composition buffer, correcting tone placement if requested.
    ///
    /// * `refresh_last_tone` - If true, re-calculates the correct tone placement on the remaining vowels.
    pub fn remove_last_char(&mut self, refresh_last_tone: bool)
        ensures
            final(self).comp() == spec_remove_last_char(old(self).comp(), old(self).input_method.model(), old(self).flags, refresh_last_tone),
            final(self).input_method == old(self).input_method,
            final(self).flags == old(self).flags,
    {
        let ghost c = self.comp();
        let last_appending_idx = find_last_appending_trans_idx(self.composition.as_slice());
        if last_appending_idx.is_none() {
            return;
        }
        let last_appending_idx = last_appending_idx.unwrap();
        proof {
            canvas::lemma_last_appending(c);
            lemma_rule_model(self.composition@[last_appending_idx as int].rule);
        }
        if !self.can_process_key(self.composition[last_appending_idx].rule.key) {
            let ghost before = self.composition@;
            self.composition.pop();
            assert(self.comp() =~= c.drop_last());
            return;
        }
        let start = extract_last_word_start(self.composition.as_slice(), self.input_method.keys.as_slice());
        let n = self.composition.len();
        let head = vstd::slice::slice_subrange(self.composition.as_slice(), 0, start);
        let mut new_composition = clone_composition(head);
        assert(comp_model(head@) =~= c.subrange(0, start as int));
        let mut i = start;
        while i < n
            invariant
                start <= i <= n,
                n == self.composition@.len(),
                c == self.comp(),
                last_appending_idx < n,
                comp_model(new_composition@) == c.subrange(0, start as int) + kept_after(c, start as int, last_appending_idx as int, i as int),
            decreases n - i,
        {
            let t = &self.composition[i];
            if t.target == Some(last_appending_idx) || i == last_appending_idx {
            } else {
                push_trans(&mut new_composition, canvas::clone_transformation(t));
            }
            assert(comp_model(new_composition@) =~= c.subrange(0, start as int) + kept_after(c, start as int, last_appending_idx as int, i + 1));
            i = i + 1;
        }
        if refresh_last_tone {
            assert(comp_model(new_composition@).len() == new_composition@.len());
            let tone_trans = refresh_last_tone_target(
                new_composition.as_slice(),
                start,
                (self.flags & ESTD_TONE_STYLE) != 0,
            );
            append_trans(&mut new_composition, tone_trans);
        }
        self.composition = new_composition;
    }

    /// Restores or converts the last word in the composition history to/from raw text format.
    ///
    /// * `to_vietnamese` - If true, processes raw keys again with Vietnamese typing rules.
    pub fn restore_last_word(&mut self, to_vietnamese: bool)
        ensures
            final(self).comp() == spec_restore_last_word(old(self).comp(), old(self).input_method.model(), old(self).flags, to_vietnamese),
            final(self).input_method == old(self).input_method,
            final(self).flags == old(self).flags,
    {
        let ghost c = self.comp();
        let ghost im = self.input_method.model();
        let start = extract_last_word_start(self.composition.as_slice(), self.input_method.keys.as_slice());
        let n = self.composition.len();
        if start == n {
            return;
        }
        let last_comb = vstd::slice::slice_subrange(self.composition.as_slice(), start, n);
        let last_comb = clone_composition(last_comb);
        let ghost last = comp_model(last_comb@);
        assert(last =~= c.subrange(start as int, n as int));
        self.composition.truncate(start);
        assert(self.comp() =~= c.subrange(0, start as int));
        let mut k: usize = 0;
        if !to_vietnamese {
            while k < last_comb.len()
                invariant
                    k <= last_comb@.len(),
                    last == comp_model(last_comb@),
                    self.comp() == c.subrange(0, start as int) + raw_keys(last.take(k as int)),
                    self.input_method.model() == im,
                    self.input_method == old(self).input_method,
                    self.flags == old(self).flags,
                decreases last_comb@.len() - k,
            {
                proof {
                    lemma_rule_model(last_comb@[k as int].rule);
                    assert(last.take(k + 1).drop_last() =~= last.take(k as int));
                }
                let trans = &last_comb[k];
                if trans.rule.key != '\0' {
                    push_trans(&mut self.composition, new_appending_trans(trans.rule.key, trans.is_upper_case));
                }
                assert(self.comp() =~= c.subrange(0, start as int) + raw_keys(last.take(k + 1)));
                k = k + 1;
            }
            assert(last.take(last.len() as int) =~= last);
        } else {
            while k < last_comb.len()
                invariant
                    k <= last_comb@.len(),
                    last == comp_model(last_comb@),
                    self.comp() == replay_keys(c.subrange(0, start as int), im, self.flags, last, k as int),
                    self.input_method.model() == im,
                    self.input_method == old(self).input_method,
                    self.flags == old(self).flags,
                decreases last_comb@.len() - k,
            {
                proof {
                    lemma_rule_model(last_comb@[k as int].rule);
                }
                let key = last_comb[k].rule.key;
                self.process_key(key, VIETNAMESE_MODE);
                k = k + 1;
            }
        }
    }
}

} // verus!
