use buffalo_core::config::Config;
use buffalo_core::session::{
    activate_property, get_prop_list, is_modifier_key, KeyAction, PropertyAction, Session,
    IBUS_BACKSPACE, IBUS_CONTROL_MASK, PREEDIT_IM, IBUS_RELEASE_MASK, IBUS_RETURN, IBUS_SHIFT_MASK,
};
use buffalo_core::settings::{
    charset_index, flag_active, input_method_index, update_settings, SettingsEffect, SettingsMsg,
    ABOUT_URL, HELP_URL,
};
use buffalo_core::{get_input_method, Engine, EFREE_TONE_MARKING, ESTD_FLAGS, VIETNAMESE_MODE};

fn telex_session() -> Session {
    Session::new(Engine::new(get_input_method("Telex").unwrap(), ESTD_FLAGS))
}

fn type_text(session: &mut Session, charset: &str, text: &str) -> KeyAction {
    let mut last = KeyAction::Pass;
    for c in text.chars() {
        last = session.handle_key(charset, c as u32, 0);
    }
    last
}

fn shown(action: &KeyAction) -> String {
    match action {
        KeyAction::ShowPreedit(t) => t.clone(),
        _ => panic!("expected a preedit"),
    }
}

#[test]
fn test_is_modifier_key() {
    assert!(is_modifier_key(0xffe1)); // Shift_L
    assert!(is_modifier_key(0xffe3)); // Control_L
    assert!(is_modifier_key(0xffe9)); // Alt_L
    assert!(is_modifier_key(0xffeb)); // Super_L
    assert!(is_modifier_key(0xfe03)); // ISO_Level3_Shift
    assert!(is_modifier_key(0xff7e)); // Mode_switch

    assert!(!is_modifier_key(0x0020)); // Space
    assert!(!is_modifier_key(0x0061)); // a
    assert!(!is_modifier_key(0xff08)); // Backspace
    assert!(!is_modifier_key(0xff0d)); // Return
}

#[test]
fn test_session_types_word_into_preedit() {
    let mut s = telex_session();
    let action = type_text(&mut s, "Unicode", "vieetj");
    assert_eq!(shown(&action), "việt");
    assert!(action.handled());
}

#[test]
fn test_session_word_break_commits_word_and_key() {
    let mut s = telex_session();
    type_text(&mut s, "Unicode", "xin");
    match s.handle_key("Unicode", ' ' as u32, 0) {
        KeyAction::Commit(t) => assert_eq!(t, "xin "),
        _ => panic!("expected a commit"),
    }
    assert_eq!(s.engine.get_processed_string(VIETNAMESE_MODE), "");
}

#[test]
fn test_session_ignores_release_and_modifier_keys() {
    let mut s = telex_session();
    type_text(&mut s, "Unicode", "ba");
    let action = s.handle_key("Unicode", 'c' as u32, IBUS_RELEASE_MASK);
    assert!(matches!(action, KeyAction::Pass));
    assert!(!action.handled());
    let action = s.handle_key("Unicode", 0xffe1, IBUS_SHIFT_MASK);
    assert!(matches!(action, KeyAction::Pass));
    assert_eq!(s.engine.get_processed_string(VIETNAMESE_MODE), "ba");
}

#[test]
fn test_session_shortcut_commits_and_passes() {
    let mut s = telex_session();
    type_text(&mut s, "Unicode", "ddi");
    match s.handle_key("Unicode", 'c' as u32, IBUS_CONTROL_MASK) {
        KeyAction::CommitAndPass(t) => assert_eq!(t, "đi"),
        _ => panic!("expected a commit"),
    }
    assert_eq!(s.engine.get_processed_string(VIETNAMESE_MODE), "");
}

#[test]
fn test_session_return_and_function_keys_flush() {
    let mut s = telex_session();
    type_text(&mut s, "Unicode", "ow");
    match s.handle_key("Unicode", IBUS_RETURN, 0) {
        KeyAction::CommitAndPass(t) => assert_eq!(t, "ơ"),
        _ => panic!("expected a commit"),
    }
    match s.handle_key("Unicode", 0xffbe, 0) {
        KeyAction::CommitAndPass(t) => assert_eq!(t, ""),
        _ => panic!("expected nothing to commit"),
    }
}

#[test]
fn test_session_backspace() {
    let mut s = telex_session();
    assert!(matches!(s.handle_key("Unicode", IBUS_BACKSPACE, 0), KeyAction::Pass));
    type_text(&mut s, "Unicode", "vie");
    assert_eq!(shown(&s.handle_key("Unicode", IBUS_BACKSPACE, 0)), "vi");
    s.handle_key("Unicode", IBUS_BACKSPACE, 0);
    assert!(matches!(s.handle_key("Unicode", IBUS_BACKSPACE, 0), KeyAction::HidePreedit));
}

#[test]
fn test_session_encodes_in_configured_charset() {
    let mut s = telex_session();
    assert_eq!(shown(&type_text(&mut s, "TCVN3", "dd")), "\u{00AE}");
    s.engine.reset();
    assert_eq!(shown(&type_text(&mut s, "no such charset", "dd")), "đ");
}

#[test]
fn test_session_focus_change_drops_word() {
    let mut s = telex_session();
    s.focus_in("firefox");
    type_text(&mut s, "Unicode", "ba");
    s.focus_in("firefox");
    assert_eq!(s.engine.get_processed_string(VIETNAMESE_MODE), "ba");
    s.focus_in("kitty");
    assert_eq!(s.engine.get_processed_string(VIETNAMESE_MODE), "");
    assert_eq!(s.wm_class, "kitty");
}

#[test]
fn test_activate_property_selects_input_method_and_charset() {
    let mut cfg = Config::default();
    assert!(matches!(activate_property(&mut cfg, "about", 0), PropertyAction::OpenAbout));
    assert!(matches!(
        activate_property(&mut cfg, "InputMethod::VNI", 1),
        PropertyAction::Reload(true)
    ));
    assert_eq!(cfg.input_method, "VNI");
    assert!(matches!(
        activate_property(&mut cfg, "Charset::TCVN3", 0),
        PropertyAction::Reload(false)
    ));
    assert_eq!(cfg.charset, "Unicode");
    assert!(matches!(
        activate_property(&mut cfg, "Charset::TCVN3", 1),
        PropertyAction::Reload(true)
    ));
    assert_eq!(cfg.charset, "TCVN3");
    let mut s = telex_session();
    type_text(&mut s, "Unicode", "ab");
    s.apply_config(&cfg);
    assert_eq!(s.engine.get_input_method().name, "VNI");
    assert_eq!(s.engine.get_processed_string(VIETNAMESE_MODE), "");
}

#[test]
fn test_prop_list_checks_configured_items() {
    let mut cfg = Config::default();
    cfg.charset = "VIQR".to_string();
    let props = get_prop_list(&cfg, "0.1.0", PREEDIT_IM);
    assert_eq!(props.len(), 4);
    assert_eq!(props[0].item.key, "about");
    assert_eq!(props[0].item.label, "IBus Buffalo v0.1.0");
    assert_eq!(props[1].item.label, "Kiểu gõ");
    let ims: Vec<(&str, u32)> =
        props[1].children.iter().map(|p| (p.key.as_str(), p.state)).collect();
    assert_eq!(
        ims,
        vec![("InputMethod::Telex", 1), ("InputMethod::Simple Telex", 0), ("InputMethod::VNI", 0)]
    );
    assert_eq!(props[2].item.key, "input_mode_menu");
    assert_eq!(props[2].item.label, "Cơ chế gõ");
    let modes: Vec<(&str, &str, u32)> = props[2]
        .children
        .iter()
        .map(|p| (p.key.as_str(), p.label.as_str(), p.state))
        .collect();
    assert_eq!(
        modes,
        vec![("InputMode::1", "Preedit", 1), ("InputMode::2", "Surrounding Text", 0)]
    );
    assert_eq!(props[3].item.key, "charset_menu");
    let css: Vec<(&str, &str, u32)> = props[3]
        .children
        .iter()
        .map(|p| (p.key.as_str(), p.label.as_str(), p.state))
        .collect();
    assert_eq!(
        css,
        vec![
            ("Charset::Unicode", "Unicode", 0),
            ("Charset::TCVN3", "TCVN3 (ABC)", 0),
            ("Charset::VNI", "VNI Windows", 0),
            ("Charset::VIQR", "VIQR", 1)
        ]
    );
}

#[test]
fn test_settings_window_updates() {
    let mut cfg = Config::default();
    assert_eq!(charset_index(&cfg), 0);
    assert!(matches!(update_settings(&mut cfg, SettingsMsg::CharsetChanged(2)), SettingsEffect::Save));
    assert_eq!(cfg.charset, "VNI");
    assert_eq!(charset_index(&cfg), 2);
    assert!(matches!(update_settings(&mut cfg, SettingsMsg::CharsetChanged(9)), SettingsEffect::Nothing));
    assert_eq!(cfg.charset, "VNI");
    update_settings(&mut cfg, SettingsMsg::InputMethodChanged(1));
    assert_eq!(cfg.input_method, "VNI");
    assert_eq!(input_method_index(&cfg), 1);
    update_settings(&mut cfg, SettingsMsg::InputMethodChanged(7));
    assert_eq!(cfg.input_method, "Telex");
    assert!(flag_active(&cfg, EFREE_TONE_MARKING));
    update_settings(&mut cfg, SettingsMsg::ToggleFlag(EFREE_TONE_MARKING, false));
    assert!(!flag_active(&cfg, EFREE_TONE_MARKING));
    update_settings(&mut cfg, SettingsMsg::ToggleFlag(EFREE_TONE_MARKING, true));
    assert_eq!(cfg.flags, ESTD_FLAGS);
    assert!(matches!(update_settings(&mut cfg, SettingsMsg::ShowHelp), SettingsEffect::OpenUrl(u) if u == HELP_URL));
    assert!(matches!(update_settings(&mut cfg, SettingsMsg::ShowAbout), SettingsEffect::OpenUrl(u) if u == ABOUT_URL));
    assert!(matches!(update_settings(&mut cfg, SettingsMsg::Close), SettingsEffect::SaveAndExit));
}
