use buffalo_core::charset::{
    add_mark_to_char, add_tone_to_char, find_tone_from_char, has_any_vietnamese_rune,
    has_any_vietnamese_vowel, is_vietnamese_rune, to_upper_letter,
};
use buffalo_core::config::{parse_macro_table, Config};
use buffalo_core::rules::{get_appending_rule, parse_rules};
use buffalo_core::spelling::{is_valid_cvc, lookup};
use buffalo_core::style::{get_custom_css, CUSTOM_CSS};
use buffalo_core::{
    get_input_method, CharsetEncoding, EffectType, Engine, ENGLISH_MODE, ESTD_FLAGS, FULL_TEXT,
    IN_REVERSE_ORDER, VIETNAMESE_MODE,
};

fn telex_engine() -> Engine {
    Engine::new(get_input_method("Telex").unwrap(), ESTD_FLAGS)
}

fn type_keys(engine: &mut Engine, keys: &str, mode: u32) {
    for c in keys.chars() {
        engine.process_key(c, mode);
    }
}

#[test]
fn test_english_mode_writes_keys_verbatim() {
    let mut engine = telex_engine();
    type_keys(&mut engine, "Hello, Wworld dd aw!", ENGLISH_MODE);
    assert_eq!(engine.get_processed_string(ENGLISH_MODE | FULL_TEXT), "Hello, Wworld dd aw!");
}

#[test]
fn test_plain_key_is_appended_after_vietnamese_word() {
    let mut engine = telex_engine();
    type_keys(&mut engine, "vieetj", VIETNAMESE_MODE);
    engine.process_key('1', VIETNAMESE_MODE);
    assert_eq!(engine.get_processed_string(VIETNAMESE_MODE | FULL_TEXT), "việt1");
}

#[test]
fn test_backspace_undoes_plain_key() {
    let mut engine = telex_engine();
    type_keys(&mut engine, "vieet", VIETNAMESE_MODE);
    engine.process_key('.', VIETNAMESE_MODE);
    assert_eq!(engine.get_processed_string(VIETNAMESE_MODE | FULL_TEXT), "viêt.");
    engine.remove_last_char(false);
    assert_eq!(engine.get_processed_string(VIETNAMESE_MODE | FULL_TEXT), "viêt");
}

#[test]
fn test_backspace_removes_letter_and_its_marks() {
    let mut engine = telex_engine();
    type_keys(&mut engine, "dda", VIETNAMESE_MODE);
    assert_eq!(engine.get_processed_string(VIETNAMESE_MODE), "đa");
    engine.remove_last_char(true);
    assert_eq!(engine.get_processed_string(VIETNAMESE_MODE), "đ");
}

#[test]
fn test_backspace_on_empty_composition_changes_nothing() {
    let mut engine = telex_engine();
    engine.remove_last_char(true);
    assert_eq!(engine.get_processed_string(VIETNAMESE_MODE | FULL_TEXT), "");
}

#[test]
fn test_double_typing_restores_key() {
    let mut engine = telex_engine();
    type_keys(&mut engine, "ww", VIETNAMESE_MODE);
    assert_eq!(engine.get_processed_string(VIETNAMESE_MODE), "w");
    engine.reset();
    type_keys(&mut engine, "Ww", VIETNAMESE_MODE);
    assert_eq!(engine.get_processed_string(VIETNAMESE_MODE), "W");
}

#[test]
fn test_reverse_order_prepends_keys() {
    let mut engine = telex_engine();
    type_keys(&mut engine, "abC", ENGLISH_MODE | IN_REVERSE_ORDER);
    assert_eq!(engine.get_processed_string(ENGLISH_MODE | FULL_TEXT), "Cba");
}

#[test]
fn test_restore_last_word_to_raw_keys_and_back() {
    let mut engine = telex_engine();
    type_keys(&mut engine, "vieetj", VIETNAMESE_MODE);
    engine.restore_last_word(false);
    assert_eq!(engine.get_processed_string(VIETNAMESE_MODE), "vieetj");
    engine.restore_last_word(true);
    assert_eq!(engine.get_processed_string(VIETNAMESE_MODE), "việt");
}

#[test]
fn test_engine_key_classes() {
    let engine = telex_engine();
    assert!(engine.is_super_key('w'));
    assert!(!engine.is_super_key('a'));
    assert!(engine.is_tone_key('s'));
    assert!(!engine.is_tone_key('a'));
    assert!(engine.is_effective_key('d'));
    assert!(!engine.is_effective_key('1'));
    assert!(!engine.can_process_key('1'));
    assert!(engine.can_process_key('a'));
}

#[test]
fn test_engine_spelling_check() {
    let mut engine = telex_engine();
    type_keys(&mut engine, "bas", VIETNAMESE_MODE);
    assert_eq!(engine.get_processed_string(VIETNAMESE_MODE), "bá");
    assert!(engine.is_valid(true));
    engine.reset();
    type_keys(&mut engine, "bkq", VIETNAMESE_MODE);
    assert!(!engine.is_valid(true));
}

#[test]
fn test_unknown_input_method() {
    assert!(get_input_method("Dvorak").is_none());
    assert!(get_input_method("VNI").is_some());
}

#[test]
fn test_charset_unknown_name_error() {
    assert_eq!(
        CharsetEncoding::from_str("foo"),
        Err("Unknown charset: foo".to_string())
    );
}

#[test]
fn test_charset_name_round_trip() {
    for cs in CharsetEncoding::all() {
        assert_eq!(CharsetEncoding::from_str(&cs.to_string()), Ok(cs));
    }
}

#[test]
fn test_vietnamese_runes_through_lowercase() {
    assert!(has_any_vietnamese_rune("Ă"));
    assert!(has_any_vietnamese_rune("xin chào"));
    assert!(!has_any_vietnamese_rune("hello"));
    assert!(has_any_vietnamese_vowel("ƯỚC"));
    assert!(has_any_vietnamese_vowel("ba"));
    assert!(has_any_vietnamese_vowel("xyz"));
    assert!(!has_any_vietnamese_vowel("bcd"));
    assert!(is_vietnamese_rune('đ'));
    assert!(!is_vietnamese_rune('a'));
}

#[test]
fn test_tone_and_mark_round_trip() {
    let c = add_tone_to_char('â', 2);
    assert_eq!(c, 'ấ');
    assert_eq!(find_tone_from_char(c), 2);
    assert_eq!(add_tone_to_char('â', 1), 'ầ');
    assert_eq!(add_tone_to_char(c, 0), 'â');
    assert_eq!(add_mark_to_char('ấ', 0), 'á');
    assert_eq!(to_upper_letter('ấ'), 'Ấ');
    assert_eq!(to_upper_letter('đ'), 'Đ');
}

#[test]
fn test_appending_rule_from_layout_text() {
    let rule = get_appending_rule('w', "_ư").unwrap();
    assert_eq!(rule.key, 'w');
    assert_eq!(rule.effect_on, 'ư');
    assert_eq!(rule.result, 'ư');
    assert_eq!(rule.effect_type, EffectType::Appending);
    assert!(rule.appended_rules.is_empty());
    let rule = get_appending_rule('}', "__Ư").unwrap();
    assert_eq!(rule.effect_on, 'Ư');
    assert!(get_appending_rule('x', "abc").is_none());
}

#[test]
fn test_parse_rules_tone_and_marks() {
    let rules = parse_rules('s', "DauSac");
    assert_eq!(rules.len(), 1);
    assert_eq!(rules[0].effect_type, EffectType::ToneTransformation);
    assert_eq!(rules[0].effect, 2);
    let rules = parse_rules('d', "D_Đ");
    assert!(rules.iter().any(|r| r.effect_on == 'd' && r.result == 'đ'));
}

#[test]
fn test_spelling_lookup_and_cvc() {
    let table = ["a", "b c", "ac"];
    assert_eq!(lookup(&table, "a", false, true), vec![0, 2]);
    assert_eq!(lookup(&table, "a", true, true), vec![0]);
    assert_eq!(lookup(&table, "c", true, true), vec![1]);
    assert!(is_valid_cvc("v", "iê", "t", true));
    assert!(!is_valid_cvc("v", "iê", "k", true));
}

#[test]
fn test_config_default() {
    let cfg = Config::default();
    assert_eq!(cfg.input_method, "Telex");
    assert_eq!(cfg.flags, ESTD_FLAGS);
    assert_eq!(cfg.vietnamese_layout, "Telex");
    assert_eq!(cfg.charset, "Unicode");
    assert!(!cfg.enable_macro);
}

#[test]
fn test_macro_table_parsing() {
    let content = "
# Comment line
  # Another comment

vn : Việt Nam
  ad :  anh dũng
invalid_line_no_colon
empty_val:
:empty_key
";
    let table = parse_macro_table(content);
    assert_eq!(table.len(), 2);
    assert_eq!(table[0], ("vn".to_string(), "Việt Nam".to_string()));
    assert_eq!(table[1], ("ad".to_string(), "anh dũng".to_string()));
}

#[test]
fn test_macro_line_round_trip() {
    let table = parse_macro_table("ko:không");
    assert_eq!(table, vec![("ko".to_string(), "không".to_string())]);
    let table = parse_macro_table("url:http://a.b\r\nx : y : z");
    assert_eq!(
        table,
        vec![
            ("url".to_string(), "http://a.b".to_string()),
            ("x".to_string(), "y : z".to_string())
        ]
    );
}

#[test]
fn test_custom_css() {
    let css = get_custom_css();
    assert_eq!(css, CUSTOM_CSS);
    assert!(css.contains("window {"));
    assert!(css.contains(".btn-close"));
}

#[test]
fn test_typing_keeps_targets_earlier() {
    for layout in ["Telex", "Simple Telex", "VNI"] {
        let mut engine = Engine::new(get_input_method(layout).unwrap(), ESTD_FLAGS);
        type_keys(&mut engine, "dduwowngf truyeenj hoaf uow vie65t ddd ww [[", VIETNAMESE_MODE);
        for (i, t) in engine.composition.iter().enumerate() {
            if let Some(target) = t.target {
                assert!(target < i, "{}: transformation {} targets {}", layout, i, target);
            }
        }
    }
}

#[test]
fn test_uow_shortcut() {
    let mut engine = telex_engine();
    type_keys(&mut engine, "tuow", VIETNAMESE_MODE);
    assert_eq!(engine.get_processed_string(VIETNAMESE_MODE), "tươ");
    engine.reset();
    type_keys(&mut engine, "truowngf", VIETNAMESE_MODE);
    assert_eq!(engine.get_processed_string(VIETNAMESE_MODE), "trường");
}

#[test]
fn test_tone_style_places_tone() {
    let mut engine = telex_engine();
    type_keys(&mut engine, "hoaf", VIETNAMESE_MODE);
    assert_eq!(engine.get_processed_string(VIETNAMESE_MODE), "hòa");
    engine.reset();
    type_keys(&mut engine, "khoer", VIETNAMESE_MODE);
    assert_eq!(engine.get_processed_string(VIETNAMESE_MODE), "khỏe");
    let mut old_style = Engine::new(
        get_input_method("Telex").unwrap(),
        buffalo_core::EFREE_TONE_MARKING | buffalo_core::EAUTO_CORRECT_ENABLED,
    );
    type_keys(&mut old_style, "hoaf", VIETNAMESE_MODE);
    assert_eq!(old_style.get_processed_string(VIETNAMESE_MODE), "hoà");
    old_style.reset();
    type_keys(&mut old_style, "khoer", VIETNAMESE_MODE);
    assert_eq!(old_style.get_processed_string(VIETNAMESE_MODE), "khoẻ");
}

#[test]
fn test_restore_writes_typed_keys() {
    let mut engine = telex_engine();
    type_keys(&mut engine, "Vieetj", VIETNAMESE_MODE);
    assert_eq!(engine.get_processed_string(VIETNAMESE_MODE | FULL_TEXT), "Việt");
    engine.restore_last_word(false);
    assert_eq!(engine.get_processed_string(ENGLISH_MODE | FULL_TEXT), "Vieetj");
}

use buffalo_core::engine::{
    extract_cvc_appending_trans, find_root_target, get_canvas, new_appending_trans,
    refresh_last_tone_target,
};
use buffalo_core::rules::{appending_rule_from_groups, toneless_rules_from_groups};
use buffalo_core::window::{is_focus_proxy, strip_quotes, window_property_text};

#[test]
fn test_window_property_text() {
    assert_eq!(
        window_property_text(b"firefox\0Firefox\0"),
        Some("firefox:Firefox".to_string())
    );
    assert_eq!(window_property_text(b"kitty"), Some("kitty".to_string()));
    assert_eq!(window_property_text(&[0xff, 0x00]), None);
    assert_eq!(strip_quotes("\"Navigator\""), "Navigator");
    assert!(is_focus_proxy("gnome-FocusProxy"));
    assert!(!is_focus_proxy("Focus"));
}

#[test]
fn test_rules_from_captured_groups() {
    let groups = vec!["__ư".to_string(), "_".to_string(), "ư".to_string()];
    let rule = appending_rule_from_groups(']', &groups).unwrap();
    assert_eq!(rule.effect_on, 'ư');
    assert_eq!(rule.key, ']');
    let groups = vec!["x".to_string(), "_".to_string(), "".to_string()];
    assert!(appending_rule_from_groups('x', &groups).is_none());
    let groups = vec![
        "d_đ".to_string(),
        "d".to_string(),
        "đ".to_string(),
        "".to_string(),
    ];
    let rules = toneless_rules_from_groups('d', &groups);
    assert!(rules.iter().any(|r| r.effect_on == 'd' && r.result == 'đ'));
    assert!(rules.iter().all(|r| r.key == 'd'));
}

#[test]
fn test_lookup_finds_fitting_rows() {
    assert_eq!(lookup(&["ch nh", "c ng", "m n p t", "k", "c"], "n", false, true), vec![0, 1, 2]);
    assert_eq!(lookup(&["ch nh", "c ng", "m n p t", "k", "c"], "n", true, true), vec![2]);
}

#[test]
fn test_strict_spelling_implies_lenient() {
    for (fc, vo, lc) in [("v", "iê", "t"), ("b", "a", ""), ("ng", "uyê", "n"), ("", "a", "")] {
        if is_valid_cvc(fc, vo, lc, true) {
            assert!(is_valid_cvc(fc, vo, lc, false));
        }
    }
    assert!(is_valid_cvc("v", "iê", "t", true));
    assert!(is_valid_cvc("v", "ie", "", false));
}

#[test]
fn test_cvc_split_keeps_order() {
    let c: Vec<_> = "quan".chars().map(|x| new_appending_trans(x, false)).collect();
    let (f, v, l) = extract_cvc_appending_trans(&c, &[0, 1, 2, 3]);
    assert_eq!((f, v, l), (vec![0, 1], vec![2], vec![3]));
}

#[test]
fn test_root_target_and_canvas_shape() {
    let mut engine = telex_engine();
    type_keys(&mut engine, "Dduwowngf", VIETNAMESE_MODE);
    let c = &engine.composition;
    for i in 0..c.len() {
        let r = find_root_target(c, i);
        assert!(r <= i);
        assert!(c[r].target.is_none());
        assert_eq!(find_root_target(c, r), r);
    }
    let writers = c
        .iter()
        .filter(|t| t.rule.effect_type == EffectType::Appending && t.rule.key != '\0')
        .count();
    assert_eq!(get_canvas(c, VIETNAMESE_MODE).len(), writers);
    assert_eq!(get_canvas(c, ENGLISH_MODE).iter().collect::<String>(), "Duong");
}

#[test]
fn test_refresh_tone_is_idempotent() {
    let mut old_style = Engine::new(get_input_method("Telex").unwrap(), buffalo_core::EFREE_TONE_MARKING);
    type_keys(&mut old_style, "hoaf", VIETNAMESE_MODE);
    let mut c = old_style.composition.clone();
    let moved = refresh_last_tone_target(&c, 0, true);
    assert_eq!(moved.len(), 2);
    c.extend(moved);
    assert!(refresh_last_tone_target(&c, 0, true).is_empty());
    let text: String = get_canvas(&c, VIETNAMESE_MODE).into_iter().collect();
    assert_eq!(text, "hòa");
}

use buffalo_core::engine::keystroke::{complete_uh_o, complete_uow};
use buffalo_core::window::{class_of_window, next_window, pick_window_class, visit_window};

#[test]
fn test_uow_completion_after_match() {
    let mut engine = telex_engine();
    type_keys(&mut engine, "tuo", VIETNAMESE_MODE);
    let im = get_input_method("Telex").unwrap();
    assert!(complete_uow(&im, ESTD_FLAGS, &engine.composition, 0, false).is_none());
    let t = complete_uow(&im, ESTD_FLAGS, &engine.composition, 0, true).unwrap();
    assert_eq!(t.rule.key, '\0');
    assert!(t.target.is_some());
    let rules: Vec<_> = Vec::new();
    assert!(complete_uh_o(&engine.composition, 0, &rules, ESTD_FLAGS, false, false).is_none());
}

#[test]
fn test_vietnamese_keystroke_appends() {
    let mut engine = telex_engine();
    for key in "dduowngf".chars() {
        let before = engine.composition.clone();
        engine.process_key(key, VIETNAMESE_MODE);
        assert!(engine.composition.len() > before.len());
        for (i, t) in before.iter().enumerate() {
            assert_eq!(engine.composition[i].target, t.target);
            assert_eq!(engine.composition[i].rule.key, t.rule.key);
        }
    }
}

#[test]
fn test_window_class_walk() {
    assert!(visit_window(0, 42));
    assert!(!visit_window(5, 42));
    assert!(!visit_window(0, 0));
    assert_eq!(class_of_window(Some("kitty".to_string())), Some("kitty".to_string()));
    assert_eq!(class_of_window(Some("gnome-FocusProxy".to_string())), None);
    assert_eq!(class_of_window(None), None);
    assert_eq!(next_window(1, 1), None);
    assert_eq!(next_window(1, 0), None);
    assert_eq!(next_window(1, 7), Some(7));
    assert_eq!(
        pick_window_class(None, Some("\"org.gnome.Nautilus\"".to_string())),
        Some("org.gnome.Nautilus".to_string())
    );
    assert_eq!(
        pick_window_class(Some("a\"b".to_string()), Some("c".to_string())),
        Some("ab".to_string())
    );
    assert_eq!(pick_window_class(None, None), None);
}

#[test]
fn test_ascii_lowercase_in_rune_check() {
    assert!(!has_any_vietnamese_rune("HELLO WORLD"));
    assert!(has_any_vietnamese_vowel("A"));
}
