//! Vietnamese typing engine: the rules of the Telex and VNI input methods, a spelling check
//! of Vietnamese syllables, a keystroke engine that builds words from transformations,
//! encoders to legacy Vietnamese charsets, and the decisions of the IBus daemon and of its
//! settings window.

pub mod charset;
pub mod config;
pub mod encoder;
pub mod engine;
pub mod rules;
pub mod session;
pub mod settings;
pub mod spelling;
pub mod style;
pub mod text;
pub mod window;

pub use charset::{
    has_any_vietnamese_rune, has_any_vietnamese_vowel, is_vietnamese_rune, is_vowel,
    is_word_break_symbol,
};
pub use encoder::{encode, CharsetEncoding};
pub use engine::{
    Engine, Transformation, EAUTO_CORRECT_ENABLED, EFREE_TONE_MARKING, ENGLISH_MODE, ESTD_FLAGS,
    ESTD_TONE_STYLE, FULL_TEXT, IN_REVERSE_ORDER, LOWER_CASE, MARK_LESS, PUNCTUATION_MODE,
    TONE_LESS, VIETNAMESE_MODE,
};
pub use rules::{get_input_method, EffectType, InputMethod, Mark, Rule, Tone};
