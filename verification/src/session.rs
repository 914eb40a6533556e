//! The decisions of an input method session: what a key event does to the typing engine
//! and what the application is told, what a click on a menu property changes in the
//! settings, and what the status menu shows. The daemon performs the actions.

use vstd::prelude::*;

use crate::charset::{spec_can_process_key, spec_is_word_break_symbol, is_word_break_symbol};
use crate::config::Config;
use crate::encoder::{all_charsets, charset_by_name, encode, spec_display_name, spec_encode, spec_short_name, CharsetEncoding};
use crate::engine::{spec_processed_string, spec_process_key, spec_remove_last_char, Engine, VIETNAMESE_MODE};
use crate::rules::{get_input_method, spec_get_input_method};
use crate::text::{chars_of, push_char, str_eq, string_from_str, string_of};

verus! {

/// Modifier state: Shift.
pub const IBUS_SHIFT_MASK: u32 = 1;
/// Modifier state: Caps Lock.
pub const IBUS_LOCK_MASK: u32 = 2;
/// Modifier state: Control.
pub const IBUS_CONTROL_MASK: u32 = 4;
/// Modifier state: Mod1 (usually Alt).
pub const IBUS_MOD1_MASK: u32 = 8;
/// Modifier state: Mod4 (usually Super).
pub const IBUS_MOD4_MASK: u32 = 64;
/// Modifier state: Super.
pub const IBUS_SUPER_MASK: u32 = 0x0400_0000;
/// Modifier state: Hyper.
pub const IBUS_HYPER_MASK: u32 = 0x0800_0000;
/// Modifier state: Meta.
pub const IBUS_META_MASK: u32 = 0x1000_0000;
/// Event state: the key is being released.
pub const IBUS_RELEASE_MASK: u32 = 0x4000_0000;

/// Key symbol: BackSpace.
pub const IBUS_BACKSPACE: u32 = 0xff08;
/// Key symbol: Tab.
pub const IBUS_TAB: u32 = 0xff09;
/// Key symbol: Return.
pub const IBUS_RETURN: u32 = 0xff0d;
/// Key symbol: Escape.
pub const IBUS_ESCAPE: u32 = 0xff1b;
/// Key symbol: Left arrow.
pub const IBUS_LEFT: u32 = 0xff51;

/// The modifiers whose presence makes a key a shortcut, not text.
pub const SHORTCUT_MASKS: u32 = IBUS_CONTROL_MASK | IBUS_LOCK_MASK | IBUS_MOD1_MASK | IBUS_MOD4_MASK
    | IBUS_SUPER_MASK | IBUS_HYPER_MASK | IBUS_META_MASK;

/// Whether a key symbol is that of a modifier key: Shift, Control, Caps and Shift Lock,
/// Meta, Alt, Super, Hyper, the ISO lock, level and group keys, Mode_switch or Num_Lock.
pub open spec fn spec_is_modifier_key(keyval: u32) -> bool {
    (0xffe1 <= keyval && keyval <= 0xffee) || (0xfe01 <= keyval && keyval <= 0xfe13) || keyval
        == 0xff7e || keyval == 0xff7f
}

/// Whether a key symbol is that of a modifier key.
pub fn is_modifier_key(keyval: u32) -> (r: bool)
    ensures
        r == spec_is_modifier_key(keyval),
{
    (0xffe1 <= keyval && keyval <= 0xffee) || (0xfe01 <= keyval && keyval <= 0xfe13) || keyval
        == 0xff7e || keyval == 0xff7f
}

/// Whether a number is the code of a character (a Unicode scalar value).
pub open spec fn is_scalar(v: u32) -> bool {
    v < 0xd800 || (0xe000 <= v && v <= 0x10ffff)
}

/// Calls `char::from_u32`, which gives the character with that code, or `None` when the
/// number is no Unicode scalar value.
#[verifier::external_body]
fn char_from_u32(v: u32) -> (r: Option<char>)
    ensures
        r is Some <==> is_scalar(v),
        r matches Some(c) ==> c == v as char,
{
    char::from_u32(v)
}

/// Whether a character is a control character (general category Cc).
pub open spec fn spec_is_control(c: char) -> bool {
    c <= '\u{1f}' || ('\u{7f}' <= c && c <= '\u{9f}')
}

/// Whether a character is a control character (general category Cc).
pub fn is_control(c: char) -> (r: bool)
    ensures
        r == spec_is_control(c),
{
    c <= '\u{1f}' || ('\u{7f}' <= c && c <= '\u{9f}')
}

/// The charset that a configuration names, Unicode when it names none.
pub open spec fn configured_charset(name: Seq<char>) -> CharsetEncoding {
    match charset_by_name(name) {
        Some(c) => c,
        None => CharsetEncoding::Unicode,
    }
}

/// The charset that a configuration names, Unicode when it names none.
pub fn charset_named(name: &str) -> (r: CharsetEncoding)
    ensures
        r == configured_charset(name@),
{
    match CharsetEncoding::from_str(name) {
        Ok(c) => c,
        Err(_) => CharsetEncoding::Unicode,
    }
}

/// What a key event is, before the engine is asked.
pub enum KeyKind {
    /// A release, or a modifier key pressed alone: the session ignores it.
    Ignored,
    /// A key that ends the word: a shortcut, Return, Escape, Tab, a control character or
    /// another key that writes no character.
    Flush,
    /// BackSpace.
    Backspace,
    /// A key that writes a character.
    Char(char),
}

/// What a key event is.
pub open spec fn key_kind(keyval: u32, state: u32) -> KeyKind {
    if state & IBUS_RELEASE_MASK != 0 || spec_is_modifier_key(keyval) {
        KeyKind::Ignored
    } else if state & SHORTCUT_MASKS != 0 {
        KeyKind::Flush
    } else if keyval == IBUS_BACKSPACE {
        KeyKind::Backspace
    } else if keyval == IBUS_RETURN || keyval == IBUS_ESCAPE || keyval == IBUS_TAB {
        KeyKind::Flush
    } else if keyval < 0xff00 && is_scalar(keyval) && !spec_is_control(keyval as char) {
        KeyKind::Char(keyval as char)
    } else {
        KeyKind::Flush
    }
}

/// What the daemon does after an event, and whether the application gets the key.
pub enum KeyAction {
    /// The application gets the key; nothing is shown.
    Pass,
    /// Commit the text, when it is not empty, and hide the preedit; then the application
    /// gets the key.
    CommitAndPass(String),
    /// Show the text as the preedit, the cursor at its end; the key is consumed.
    ShowPreedit(String),
    /// Hide the preedit; the key is consumed.
    HidePreedit,
    /// Commit the text and hide the preedit; the key is consumed.
    Commit(String),
}

impl KeyAction {
    /// Whether the session consumed the key.
    pub open spec fn spec_handled(&self) -> bool {
        match self {
            KeyAction::ShowPreedit(_) | KeyAction::HidePreedit | KeyAction::Commit(_) => true,
            _ => false,
        }
    }

    /// Whether the session consumed the key.
    pub fn handled(&self) -> (r: bool)
        ensures
            r == self.spec_handled(),
    {
        match self {
            KeyAction::ShowPreedit(_) | KeyAction::HidePreedit | KeyAction::Commit(_) => true,
            _ => false,
        }
    }
}

/// The state of a session: the typing engine and the class of the focused window.
pub struct Session {
    /// The typing engine.
    pub engine: Engine,
    /// The class name of the focused window.
    pub wm_class: String,
}

/// The word being typed, as the engine shows it in Vietnamese mode.
pub open spec fn preedit(e: Engine) -> Seq<char> {
    spec_processed_string(e.comp(), e.input_method.model(), VIETNAMESE_MODE)
}

impl Session {
    /// A session around an engine, with no focused window known.
    pub fn new(engine: Engine) -> (r: Self)
        ensures
            r.engine == engine,
            r.wm_class@ == Seq::<char>::empty(),
    {
        Session { engine, wm_class: String::new() }
    }

    /// The focus moved to a window of a class: when the class changes the word being typed
    /// is dropped.
    pub fn focus_in(&mut self, wm_class: &str)
        ensures
            final(self).wm_class@ == wm_class@,
            old(self).wm_class@ == wm_class@ ==> final(self).engine == old(self).engine,
            old(self).wm_class@ != wm_class@ ==> {
                &&& final(self).engine.comp().len() == 0
                &&& final(self).engine.input_method == old(self).engine.input_method
                &&& final(self).engine.flags == old(self).engine.flags
            },
    {
        if !crate::text::str_eq(self.wm_class.as_str(), wm_class) {
            self.wm_class = crate::text::string_from_str(wm_class);
            self.engine.reset();
        }
    }

    /// Takes the word being typed, encoded in a charset, and empties the engine.
    pub fn commit_and_reset(&mut self, charset: CharsetEncoding) -> (r: String)
        ensures
            r@ == spec_encode(charset, preedit(old(self).engine)),
            final(self).engine.comp().len() == 0,
            final(self).engine.input_method == old(self).engine.input_method,
            final(self).engine.flags == old(self).engine.flags,
            final(self).wm_class == old(self).wm_class,
    {
        let preedit = self.engine.get_processed_string(VIETNAMESE_MODE);
        self.engine.reset();
        encode(&charset, preedit.as_str())
    }

    /// BackSpace: nothing to do on an empty word (the application gets the key); otherwise
    /// the last character goes and the rest of the word is shown, or hidden when nothing is
    /// left.
    pub fn handle_backspace(&mut self, charset: CharsetEncoding) -> (r: KeyAction)
        ensures
            final(self).engine.input_method == old(self).engine.input_method,
            final(self).engine.flags == old(self).engine.flags,
            final(self).wm_class == old(self).wm_class,
            preedit(old(self).engine).len() == 0 ==> r is Pass && final(self).engine == old(self).engine,
            preedit(old(self).engine).len() > 0 ==> {
                &&& final(self).engine.comp() == spec_remove_last_char(
                    old(self).engine.comp(),
                    old(self).engine.input_method.model(),
                    old(self).engine.flags,
                    true,
                )
                &&& spec_encode(charset, preedit(final(self).engine)).len() == 0 ==> r is HidePreedit
                &&& spec_encode(charset, preedit(final(self).engine)).len() > 0 ==> (r matches KeyAction::ShowPreedit(t)
                    && t@ == spec_encode(charset, preedit(final(self).engine)))
            },
    {
        let preedit = self.engine.get_processed_string(VIETNAMESE_MODE);
        if preedit.as_str().is_empty() {
            return KeyAction::Pass;
        }
        self.engine.remove_last_char(true);
        let new_text = self.engine.get_processed_string(VIETNAMESE_MODE);
        let encoded = encode(&charset, new_text.as_str());
        if encoded.as_str().is_empty() {
            KeyAction::HidePreedit
        } else {
            KeyAction::ShowPreedit(encoded)
        }
    }

    /// A key event: a release or a modifier key alone is ignored; BackSpace removes the last
    /// character; a character that the engine takes is typed into the word, which is shown;
    /// a word-break character commits the word followed by that character; any other key
    /// commits the word and goes to the application.
    pub fn handle_key(&mut self, charset_name: &str, keyval: u32, state: u32) -> (r: KeyAction)
        ensures
            final(self).engine.input_method == old(self).engine.input_method,
            final(self).engine.flags == old(self).engine.flags,
            final(self).wm_class == old(self).wm_class,
            ({
                let cs = configured_charset(charset_name@);
                let e = old(self).engine;
                let ne = final(self).engine;
                match key_kind(keyval, state) {
                    KeyKind::Ignored => r is Pass && ne == e,
                    KeyKind::Flush => ne.comp().len() == 0 && (r matches KeyAction::CommitAndPass(t)
                        && t@ == spec_encode(cs, preedit(e))),
                    KeyKind::Backspace => if preedit(e).len() == 0 {
                        r is Pass && ne == e
                    } else {
                        &&& ne.comp() == spec_remove_last_char(e.comp(), e.input_method.model(), e.flags, true)
                        &&& spec_encode(cs, preedit(ne)).len() == 0 ==> r is HidePreedit
                        &&& spec_encode(cs, preedit(ne)).len() > 0 ==> (r matches KeyAction::ShowPreedit(t)
                            && t@ == spec_encode(cs, preedit(ne)))
                    },
                    KeyKind::Char(c) => if spec_can_process_key(c, e.input_method.keys@) {
                        &&& ne.comp() == spec_process_key(e.comp(), e.input_method.model(), e.flags, c, VIETNAMESE_MODE)
                        &&& r matches KeyAction::ShowPreedit(t) && t@ == spec_encode(cs, preedit(ne))
                    } else if spec_is_word_break_symbol(c) {
                        &&& ne.comp().len() == 0
                        &&& r matches KeyAction::Commit(t) && t@ == spec_encode(cs, preedit(e)).push(c)
                    } else {
                        &&& ne.comp().len() == 0
                        &&& r matches KeyAction::CommitAndPass(t) && t@ == spec_encode(cs, preedit(e))
                    },
                }
            }),
    {
        if (state & IBUS_RELEASE_MASK) != 0 || is_modifier_key(keyval) {
            return KeyAction::Pass;
        }
        let charset = charset_named(charset_name);
        if (state & SHORTCUT_MASKS) != 0 {
            return KeyAction::CommitAndPass(self.commit_and_reset(charset));
        }
        if keyval == IBUS_BACKSPACE {
            return self.handle_backspace(charset);
        }
        if keyval == IBUS_RETURN || keyval == IBUS_ESCAPE || keyval == IBUS_TAB {
            return KeyAction::CommitAndPass(self.commit_and_reset(charset));
        }
        if keyval < 0xff00 {
            if let Some(c) = char_from_u32(keyval) {
                if is_control(c) {
                    return KeyAction::CommitAndPass(self.commit_and_reset(charset));
                }
                if self.engine.can_process_key(c) {
                    self.engine.process_key(c, VIETNAMESE_MODE);
                    let new_text = self.engine.get_processed_string(VIETNAMESE_MODE);
                    return KeyAction::ShowPreedit(encode(&charset, new_text.as_str()));
                } else if is_word_break_symbol(c) {
                    let mut committed = self.commit_and_reset(charset);
                    push_char(&mut committed, c);
                    return KeyAction::Commit(committed);
                }
            }
        }
        KeyAction::CommitAndPass(self.commit_and_reset(charset))
    }
}

/// The text after a prefix, when the text starts with it.
pub open spec fn after_prefix(name: Seq<char>, prefix: Seq<char>) -> Option<Seq<char>> {
    if prefix.len() <= name.len() && name.subrange(0, prefix.len() as int) == prefix {
        Some(name.subrange(prefix.len() as int, name.len() as int))
    } else {
        None
    }
}

/// The text after a prefix, when the text starts with it.
fn strip_prefix(name: &str, prefix: &str) -> (r: Option<String>)
    ensures
        r is Some <==> after_prefix(name@, prefix@) is Some,
        r matches Some(t) ==> t@ == after_prefix(name@, prefix@)->0,
{
    let n = chars_of(name);
    let p = chars_of(prefix);
    if p.len() > n.len() {
        return None;
    }
    let mut i: usize = 0;
    while i < p.len()
        invariant
            p@ == prefix@,
            n@ == name@,
            p@.len() <= n@.len(),
            i <= p@.len(),
            forall|k: int| 0 <= k < i ==> n@[k] == p@[k],
        decreases p@.len() - i,
    {
        if n[i] != p[i] {
            assert(name@.subrange(0, prefix@.len() as int)[i as int] != prefix@[i as int]);
            return None;
        }
        i = i + 1;
    }
    assert(name@.subrange(0, prefix@.len() as int) =~= prefix@);
    let mut rest: Vec<char> = Vec::new();
    let mut j = p.len();
    while j < n.len()
        invariant
            n@ == name@,
            p@.len() <= j <= n@.len(),
            rest@ == n@.subrange(p@.len() as int, j as int),
        decreases n@.len() - j,
    {
        rest.push(n[j]);
        assert(n@.subrange(p@.len() as int, j + 1) =~= rest@);
        j = j + 1;
    }
    Some(string_of(&rest))
}

/// What a click on a property of the status menu asks for.
pub enum PropertyAction {
    /// Open the settings window.
    OpenAbout,
    /// Apply the settings again; `true` when they changed and are to be saved.
    Reload(bool),
}

/// The input method that a click selects, if it selects one.
pub open spec fn selected_input_method(name: Seq<char>, state: u32) -> Option<Seq<char>> {
    if name != "about"@ && state == 1 {
        after_prefix(name, "InputMethod::"@)
    } else {
        None
    }
}

/// The charset that a click selects, if it selects one.
pub open spec fn selected_charset(name: Seq<char>, state: u32) -> Option<Seq<char>> {
    if name != "about"@ && state == 1 && after_prefix(name, "InputMethod::"@) is None {
        after_prefix(name, "Charset::"@)
    } else {
        None
    }
}

/// A click on a property of the status menu: `about` opens the settings window; checking
/// `InputMethod::<name>` or `Charset::<name>` selects that input method or charset; then
/// the settings are applied again.
pub fn activate_property(config: &mut Config, prop_name: &str, prop_state: u32) -> (r: PropertyAction)
    ensures
        prop_name@ == "about"@ <==> r is OpenAbout,
        r matches PropertyAction::Reload(changed) ==> changed == (selected_input_method(prop_name@, prop_state) is Some
            || selected_charset(prop_name@, prop_state) is Some),
        final(config).input_method@ == match selected_input_method(prop_name@, prop_state) {
            Some(im) => im,
            None => old(config).input_method@,
        },
        final(config).charset@ == match selected_charset(prop_name@, prop_state) {
            Some(cs) => cs,
            None => old(config).charset@,
        },
        final(config).flags == old(config).flags,
        final(config).vietnamese_layout == old(config).vietnamese_layout,
        final(config).enable_macro == old(config).enable_macro,
{
    if str_eq(prop_name, "about") {
        return PropertyAction::OpenAbout;
    }
    let mut changed = false;
    match strip_prefix(prop_name, "InputMethod::") {
        Some(im) => {
            if prop_state == 1 {
                config.input_method = im;
                changed = true;
            }
        },
        None => match strip_prefix(prop_name, "Charset::") {
            Some(cs) => {
                if prop_state == 1 {
                    config.charset = cs;
                    changed = true;
                }
            },
            None => {},
        },
    }
    PropertyAction::Reload(changed)
}

impl Session {
    /// Applies settings: the engine restarts with the configured input method and flags,
    /// when the input method is one the library knows; otherwise it stays as it is.
    pub fn apply_config(&mut self, config: &Config)
        ensures
            final(self).wm_class == old(self).wm_class,
            match spec_get_input_method(config.input_method@) {
                Some(m) => {
                    &&& final(self).engine.comp().len() == 0
                    &&& final(self).engine.input_method.model() == m
                    &&& final(self).engine.flags == config.flags
                },
                None => final(self).engine == old(self).engine,
            },
    {
        match get_input_method(config.input_method.as_str()) {
            Some(im) => {
                self.engine = Engine::new(im, config.flags);
            },
            None => {},
        }
    }
}

/// A property of the status menu.
pub struct PropItem {
    /// The key that a click reports.
    pub key: String,
    /// The kind of property: 0 a plain item, 2 a radio item, 3 a menu.
    pub prop_type: u32,
    /// The label shown.
    pub label: String,
    /// The name of the icon shown.
    pub icon: String,
    /// 1 when the item is checked.
    pub state: u32,
}

/// A property of the status menu, as values.
pub struct PropView {
    pub key: Seq<char>,
    pub prop_type: u32,
    pub label: Seq<char>,
    pub icon: Seq<char>,
    pub state: u32,
}

impl View for PropItem {
    type V = PropView;

    open spec fn view(&self) -> PropView {
        PropView {
            key: self.key@,
            prop_type: self.prop_type,
            label: self.label@,
            icon: self.icon@,
            state: self.state,
        }
    }
}

/// A property of the status menu with the items of its submenu.
pub struct PropMenu {
    /// The property.
    pub item: PropItem,
    /// The items of its submenu, in order.
    pub children: Vec<PropItem>,
}

/// A property menu as values.
pub open spec fn menu_view(m: PropMenu) -> (PropView, Seq<PropView>) {
    (m.item@, m.children@.map_values(|p: PropItem| p@))
}

/// A radio item, checked or not.
pub open spec fn radio(key: Seq<char>, label: Seq<char>, checked: bool) -> PropView {
    PropView { key, prop_type: 2, label, icon: Seq::empty(), state: if checked { 1 } else { 0 } }
}

/// The input methods offered in the status menu.
pub open spec fn offered_input_methods() -> Seq<Seq<char>> {
    seq!["Telex"@, "Simple Telex"@, "VNI"@]
}

/// The items of the input method submenu: the configured one is checked.
pub open spec fn input_method_props(current: Seq<char>) -> Seq<PropView> {
    offered_input_methods().map_values(|n: Seq<char>| radio("InputMethod::"@ + n, n, current == n))
}

/// The items of the charset submenu: the configured one is checked.
pub open spec fn charset_props(current: Seq<char>) -> Seq<PropView> {
    all_charsets().map_values(
        |c: CharsetEncoding| radio("Charset::"@ + spec_short_name(c), spec_display_name(c), current == spec_short_name(c)),
    )
}

/// The input mechanism that shows the word being typed as a preedit.
pub const PREEDIT_IM: i32 = 1;
/// The input mechanism that edits the text around the cursor.
pub const SURROUNDING_TEXT_IM: i32 = 2;

/// The items of the input mechanism submenu: the one in use is checked.
pub open spec fn input_mode_props(input_mode: i32) -> Seq<PropView> {
    seq![
        radio("InputMode::1"@, "Preedit"@, input_mode == PREEDIT_IM),
        radio("InputMode::2"@, "Surrounding Text"@, input_mode == SURROUNDING_TEXT_IM),
    ]
}

/// The status menu for a configuration: the about item (its label naming the version),
/// the input methods, the input mechanisms (the one in use checked) and the charsets.
pub open spec fn spec_prop_list(config_im: Seq<char>, config_cs: Seq<char>, version: Seq<char>, input_mode: i32) -> Seq<(PropView, Seq<PropView>)> {
    seq![
        (PropView { key: "about"@, prop_type: 0, label: "IBus Buffalo v"@ + version, icon: "gtk-about"@, state: 0 }, Seq::empty()),
        (PropView { key: "input_method_menu"@, prop_type: 3, label: "Kiểu gõ"@, icon: "preferences-desktop"@, state: 0 }, input_method_props(config_im)),
        (PropView { key: "input_mode_menu"@, prop_type: 3, label: "Cơ chế gõ"@, icon: "input-keyboard"@, state: 0 }, input_mode_props(input_mode)),
        (PropView { key: "charset_menu"@, prop_type: 3, label: "Bảng mã"@, icon: "preferences-desktop-font"@, state: 0 }, charset_props(config_cs)),
    ]
}

/// Builds a property from texts.
fn prop(key: String, prop_type: u32, label: String, icon: &str, state: u32) -> (r: PropItem)
    ensures
        r@ == (PropView { key: key@, prop_type, label: label@, icon: icon@, state }),
{
    PropItem { key, prop_type, label, icon: string_from_str(icon), state }
}

/// A text followed by another.
fn concat(a: &str, b: &str) -> (r: String)
    ensures
        r@ == a@ + b@,
{
    let mut v = chars_of(a);
    let mut w = chars_of(b);
    v.append(&mut w);
    string_of(&v)
}

/// A radio item of a submenu.
fn radio_item(prefix: &str, name: &str, label: &str, current: &str) -> (r: PropItem)
    ensures
        r@ == radio(prefix@ + name@, label@, current@ == name@),
{
    let state: u32 = if str_eq(current, name) { 1 } else { 0 };
    proof {
        reveal_strlit("");
        assert(""@ =~= Seq::<char>::empty());
    }
    let r = prop(concat(prefix, name), 2, string_from_str(label), "", state);
    assert(r@ == radio(prefix@ + name@, label@, current@ == name@));
    r
}

/// The properties of the status menu for a configuration.
pub fn get_prop_list(config: &Config, version: &str, input_mode: i32) -> (r: Vec<PropMenu>)
    ensures
        r@.map_values(|m: PropMenu| menu_view(m)) == spec_prop_list(config.input_method@, config.charset@, version@, input_mode),
{
    let mut r: Vec<PropMenu> = Vec::new();
    let about = prop(string_from_str("about"), 0, concat("IBus Buffalo v", version), "gtk-about", 0);
    r.push(PropMenu { item: about, children: Vec::new() });

    let mut ims: Vec<PropItem> = Vec::new();
    ims.push(radio_item("InputMethod::", "Telex", "Telex", config.input_method.as_str()));
    ims.push(radio_item("InputMethod::", "Simple Telex", "Simple Telex", config.input_method.as_str()));
    ims.push(radio_item("InputMethod::", "VNI", "VNI", config.input_method.as_str()));
    assert(ims@.map_values(|p: PropItem| p@) =~= input_method_props(config.input_method@));
    let im_menu = prop(string_from_str("input_method_menu"), 3, string_from_str("Kiểu gõ"), "preferences-desktop", 0);
    r.push(PropMenu { item: im_menu, children: ims });

    let mut modes: Vec<PropItem> = Vec::new();
    let preedit_state: u32 = if input_mode == PREEDIT_IM { 1 } else { 0 };
    let surrounding_state: u32 = if input_mode == SURROUNDING_TEXT_IM { 1 } else { 0 };
    proof {
        reveal_strlit("");
        assert(""@ =~= Seq::<char>::empty());
    }
    modes.push(prop(string_from_str("InputMode::1"), 2, string_from_str("Preedit"), "", preedit_state));
    modes.push(prop(string_from_str("InputMode::2"), 2, string_from_str("Surrounding Text"), "", surrounding_state));
    assert(modes@.map_values(|p: PropItem| p@) =~= input_mode_props(input_mode));
    let mode_menu = prop(string_from_str("input_mode_menu"), 3, string_from_str("Cơ chế gõ"), "input-keyboard", 0);
    r.push(PropMenu { item: mode_menu, children: modes });

    let all = CharsetEncoding::all();
    let mut css: Vec<PropItem> = Vec::new();
    let mut i: usize = 0;
    while i < all.len()
        invariant
            all@ == all_charsets(),
            i <= all@.len(),
            css@.len() == i,
            css@.map_values(|p: PropItem| p@) == charset_props(config.charset@).take(i as int),
        decreases all@.len() - i,
    {
        let cs = all[i];
        let short = cs.to_string();
        let ghost before = css@;
        let item = radio_item("Charset::", short.as_str(), cs.display_name(), config.charset.as_str());
        assert(item@ == charset_props(config.charset@)[i as int]);
        css.push(item);
        assert forall|k: int| 0 <= k < i implies #[trigger] css@[k]@ == charset_props(config.charset@)[k] by {
            assert(css@[k] == before[k]);
            assert(before.map_values(|p: PropItem| p@)[k] == charset_props(config.charset@).take(i as int)[k]);
        }
        assert(css@.map_values(|p: PropItem| p@) =~= charset_props(config.charset@).take(i + 1));
        i = i + 1;
    }
    assert(charset_props(config.charset@).take(4) =~= charset_props(config.charset@));
    let cs_menu = prop(string_from_str("charset_menu"), 3, string_from_str("Bảng mã"), "preferences-desktop-font", 0);
    let ghost csv = css@.map_values(|p: PropItem| p@);
    r.push(PropMenu { item: cs_menu, children: css });
    assert(menu_view(r@[3]).1 == csv);
    assert(menu_view(r@[0]).1 =~= Seq::<PropView>::empty());
    assert(r@.map_values(|m: PropMenu| menu_view(m)) =~= spec_prop_list(config.input_method@, config.charset@, version@, input_mode));
    r
}

proof fn lemma_after_own_prefix(prefix: Seq<char>, x: Seq<char>)
    ensures
        after_prefix(prefix + x, prefix) == Some(x),
{
    assert((prefix + x).subrange(0, prefix.len() as int) =~= prefix);
    assert((prefix + x).subrange(prefix.len() as int, (prefix + x).len() as int) =~= x);
}

/// Checking `InputMethod::<name>` in the status menu selects that input method, and the
/// menu built for the new setting checks exactly the item of that name.
pub proof fn law_selected_input_method_is_checked(x: Seq<char>)
    ensures
        selected_input_method("InputMethod::"@ + x, 1) == Some(x),
        selected_charset("InputMethod::"@ + x, 1) is None,
        forall|k: int| 0 <= k < 3 ==> (#[trigger] input_method_props(x)[k].state == 1 <==> offered_input_methods()[k] == x),
{
    reveal_strlit("InputMethod::");
    reveal_strlit("about");
    lemma_after_own_prefix("InputMethod::"@, x);
    let name = "InputMethod::"@ + x;
    assert(name != "about"@) by {
        assert(name[0] == 'I');
    }
}

/// Checking `Charset::<name>` in the status menu selects that charset, and the menu built
/// for the new setting checks exactly the item of the charset with that short name.
pub proof fn law_selected_charset_is_checked(x: Seq<char>)
    ensures
        selected_charset("Charset::"@ + x, 1) == Some(x),
        selected_input_method("Charset::"@ + x, 1) is None,
        forall|k: int| 0 <= k < 4 ==> (#[trigger] charset_props(x)[k].state == 1 <==> spec_short_name(all_charsets()[k]) == x),
{
    reveal_strlit("Charset::");
    reveal_strlit("InputMethod::");
    reveal_strlit("about");
    lemma_after_own_prefix("Charset::"@, x);
    let name = "Charset::"@ + x;
    assert(name != "about"@) by {
        assert(name[0] == 'C');
    }
    assert(after_prefix(name, "InputMethod::"@) is None) by {
        if "InputMethod::"@.len() <= name.len() {
            assert(name.subrange(0, "InputMethod::"@.len() as int)[0] == 'C');
        }
    }
}

/// An event that is a release, or a modifier key pressed alone, changes nothing and goes
/// to the application; any other key that writes no character ends the word: the engine
/// is empty afterwards.
pub proof fn law_ignored_and_flushing_keys(keyval: u32, state: u32)
    ensures
        state & IBUS_RELEASE_MASK != 0 ==> key_kind(keyval, state) is Ignored,
        spec_is_modifier_key(keyval) ==> key_kind(keyval, state) is Ignored,
        state & IBUS_RELEASE_MASK == 0 && !spec_is_modifier_key(keyval) && (keyval == IBUS_RETURN
            || keyval == IBUS_ESCAPE || keyval == IBUS_TAB || keyval >= 0xff00) && keyval != IBUS_BACKSPACE
            ==> key_kind(keyval, state) is Flush,
{
}

} // verus!
