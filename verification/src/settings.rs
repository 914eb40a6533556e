//! The decisions of the settings window: which choices it shows for a configuration, and
//! how each user action changes the configuration.

use vstd::prelude::*;

use crate::config::Config;
use crate::encoder::{all_charsets, charset_by_name, spec_short_name, CharsetEncoding};
use crate::text::string_from_str;

verus! {

/// The page that the help button opens.
pub const HELP_URL: &'static str = "https://github.com/haiphamngoc-dev/ibus-buffalo#readme";
/// The page that the about button opens.
pub const ABOUT_URL: &'static str = "https://github.com/haiphamngoc-dev/ibus-buffalo";

/// A user action in the settings window.
pub enum SettingsMsg {
    /// The charset at a position of the charset list was chosen.
    CharsetChanged(u32),
    /// The input method at a position of the list (Telex, VNI) was chosen.
    InputMethodChanged(u32),
    /// An engine flag was switched on or off.
    ToggleFlag(u32, bool),
    /// The help button was pressed.
    ShowHelp,
    /// The about button was pressed.
    ShowAbout,
    /// The close button was pressed.
    Close,
}

/// What the settings window does after an action.
pub enum SettingsEffect {
    /// Nothing more.
    Nothing,
    /// Save the configuration.
    Save,
    /// Open a web page.
    OpenUrl(&'static str),
    /// Save the configuration and quit.
    SaveAndExit,
}

/// The position in the charset list of the configured charset (Unicode's when it names
/// none).
pub open spec fn spec_charset_index(name: Seq<char>) -> u32 {
    match charset_by_name(name) {
        Some(CharsetEncoding::Unicode) => 0,
        Some(CharsetEncoding::Tcvn3) => 1,
        Some(CharsetEncoding::VniWindows) => 2,
        Some(CharsetEncoding::Viqr) => 3,
        None => 0,
    }
}

/// The position in the charset list of the configured charset.
pub fn charset_index(config: &Config) -> (r: u32)
    ensures
        r == spec_charset_index(config.charset@),
{
    match CharsetEncoding::from_str(config.charset.as_str()) {
        Ok(CharsetEncoding::Unicode) => 0,
        Ok(CharsetEncoding::Tcvn3) => 1,
        Ok(CharsetEncoding::VniWindows) => 2,
        Ok(CharsetEncoding::Viqr) => 3,
        Err(_) => 0,
    }
}

/// The input method at a position of the list: Telex first, then VNI; Telex for any other
/// position.
pub open spec fn input_method_at(idx: u32) -> Seq<char> {
    if idx == 1 {
        "VNI"@
    } else {
        "Telex"@
    }
}

/// The position in the input method list of the configured input method (Telex's for any
/// other).
pub open spec fn spec_input_method_index(name: Seq<char>) -> u32 {
    if name == "VNI"@ {
        1
    } else {
        0
    }
}

/// The position in the input method list of the configured input method.
pub fn input_method_index(config: &Config) -> (r: u32)
    ensures
        r == spec_input_method_index(config.input_method@),
{
    if crate::text::str_eq(config.input_method.as_str(), "VNI") {
        1
    } else {
        0
    }
}

/// Whether an engine flag is set in the configuration.
pub fn flag_active(config: &Config, flag: u32) -> (r: bool)
    ensures
        r == (config.flags & flag != 0),
{
    (config.flags & flag) != 0
}

/// An action of the settings window: choosing a charset inside the list or an input
/// method changes it and saves; switching a flag sets or clears its bits and saves; the
/// help and about buttons open their pages; closing saves and quits.
pub fn update_settings(config: &mut Config, msg: SettingsMsg) -> (r: SettingsEffect)
    ensures
        final(config).vietnamese_layout == old(config).vietnamese_layout,
        final(config).enable_macro == old(config).enable_macro,
        match msg {
            SettingsMsg::CharsetChanged(idx) => if idx < 4 {
                &&& final(config).charset@ == spec_short_name(all_charsets()[idx as int])
                &&& final(config).input_method == old(config).input_method
                &&& final(config).flags == old(config).flags
                &&& r is Save
            } else {
                *final(config) == *old(config) && r is Nothing
            },
            SettingsMsg::InputMethodChanged(idx) => {
                &&& final(config).input_method@ == input_method_at(idx)
                &&& final(config).charset == old(config).charset
                &&& final(config).flags == old(config).flags
                &&& r is Save
            },
            SettingsMsg::ToggleFlag(flag, active) => {
                &&& final(config).flags == if active {
                    old(config).flags | flag
                } else {
                    old(config).flags & !flag
                }
                &&& final(config).input_method == old(config).input_method
                &&& final(config).charset == old(config).charset
                &&& r is Save
            },
            SettingsMsg::ShowHelp => *final(config) == *old(config) && r == SettingsEffect::OpenUrl(HELP_URL),
            SettingsMsg::ShowAbout => *final(config) == *old(config) && r == SettingsEffect::OpenUrl(ABOUT_URL),
            SettingsMsg::Close => *final(config) == *old(config) && r is SaveAndExit,
        },
{
    match msg {
        SettingsMsg::CharsetChanged(idx) => {
            let charsets = CharsetEncoding::all();
            if idx < 4 {
                let cs = charsets[idx as usize];
                config.charset = cs.to_string();
                SettingsEffect::Save
            } else {
                SettingsEffect::Nothing
            }
        },
        SettingsMsg::InputMethodChanged(idx) => {
            config.input_method = if idx == 1 {
                string_from_str("VNI")
            } else {
                string_from_str("Telex")
            };
            SettingsEffect::Save
        },
        SettingsMsg::ToggleFlag(flag, active) => {
            if active {
                config.flags = config.flags | flag;
            } else {
                config.flags = config.flags & !flag;
            }
            SettingsEffect::Save
        },
        SettingsMsg::ShowHelp => SettingsEffect::OpenUrl(HELP_URL),
        SettingsMsg::ShowAbout => SettingsEffect::OpenUrl(ABOUT_URL),
        SettingsMsg::Close => SettingsEffect::SaveAndExit,
    }
}

/// After a charset is chosen from the list, the window shows that position selected.
pub proof fn law_chosen_charset_is_shown(idx: u32)
    requires
        idx < 4,
    ensures
        spec_charset_index(spec_short_name(all_charsets()[idx as int])) == idx,
{
    reveal_strlit("Unicode");
    reveal_strlit("TCVN3");
    reveal_strlit("VNI");
    reveal_strlit("VIQR");
    assert("Unicode"@.len() == 7 && "TCVN3"@.len() == 5 && "VNI"@.len() == 3 && "VIQR"@.len() == 4);
    assert("VNI"@[1] != "VIQR"@[1]);
}

/// After an input method is chosen from the list, the window shows it selected (a position
/// past the list chooses Telex, which is shown first).
pub proof fn law_chosen_input_method_is_shown(idx: u32)
    ensures
        spec_input_method_index(input_method_at(idx)) == if idx == 1 { 1u32 } else { 0u32 },
{
    reveal_strlit("VNI");
    reveal_strlit("Telex");
    assert("VNI"@.len() == 3 && "Telex"@.len() == 5);
}

/// After a flag is switched on it reads as set, and after it is switched off it reads as
/// clear, for a flag of at least one bit.
pub proof fn law_toggled_flag_is_shown(flags: u32, flag: u32)
    requires
        flag != 0,
    ensures
        (flags | flag) & flag != 0,
        (flags & !flag) & flag == 0,
{
    assert((flags | flag) & flag == flag) by (bit_vector);
    assert((flags & !flag) & flag == 0) by (bit_vector);
}

} // verus!
