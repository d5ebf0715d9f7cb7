use jpixel::shortcut::{parse_code, parse_shortcut, Code, Modifiers};

// ── parse_code ────────────────────────────────────────────

#[test]
fn parse_code_alpha_uppercase() {
    assert!(parse_code("A").is_ok());
    assert!(parse_code("Z").is_ok());
}

#[test]
fn parse_code_digits() {
    for d in '0'..='9' {
        assert!(parse_code(&d.to_string()).is_ok(), "digit {} failed", d);
    }
}

#[test]
fn parse_code_function_keys() {
    for i in 1..=12 {
        assert!(parse_code(&format!("F{}", i)).is_ok());
    }
}

#[test]
fn parse_code_named_keys_and_aliases() {
    let cases = [
        "Enter", "Escape", "Esc", "Space", "Tab", "Backspace",
        "Delete", "Del", "ArrowUp", "Up", "ArrowDown", "Down",
        "ArrowLeft", "Left", "ArrowRight", "Right", "Home", "End",
        "PageUp", "PageDown", "Insert", "Ins",
        "PrintScreen", "PrtSc", "Print", "Pause",
    ];
    for key in &cases {
        assert!(parse_code(key).is_ok(), "named key {} failed", key);
    }
}

#[test]
fn parse_code_invalid_lowercase() {
    assert!(parse_code("a").is_err());
}

#[test]
fn parse_code_invalid_special_char() {
    assert!(parse_code("@").is_err());
    assert!(parse_code(" ").is_err());
}

#[test]
fn parse_code_invalid_unknown() {
    assert!(parse_code("UnknownKey").is_err());
}

// ── parse_shortcut ────────────────────────────────────────

#[test]
fn parse_shortcut_single_key() {
    let s = parse_shortcut("F1").unwrap();
    assert_eq!(s.key, parse_code("F1").unwrap());
}

#[test]
fn parse_shortcut_combination() {
    let s = parse_shortcut("Ctrl+Shift+A").unwrap();
    assert_eq!(s.key, parse_code("A").unwrap());
    assert!(!s.mods.is_empty());
}

#[test]
fn parse_shortcut_modifier_aliases() {
    for alias in &["Cmd", "Meta", "Win", "Super"] {
        let s = parse_shortcut(&format!("{}+A", alias)).unwrap();
        assert_eq!(s.key, parse_code("A").unwrap());
    }
}

#[test]
fn parse_shortcut_empty_fails() {
    assert!(parse_shortcut("").is_err());
}

#[test]
fn parse_shortcut_modifiers_only_fails() {
    assert!(parse_shortcut("Ctrl+").is_err());
    assert!(parse_shortcut("Ctrl+Shift").is_err());
}

// ── exact results ─────────────────────────────────────────

#[test]
fn parse_code_maps_each_name_to_its_key() {
    assert_eq!(parse_code("A"), Ok(Code::KeyA));
    assert_eq!(parse_code("Q"), Ok(Code::KeyQ));
    assert_eq!(parse_code("7"), Ok(Code::Digit7));
    assert_eq!(parse_code("F10"), Ok(Code::F10));
    assert_eq!(parse_code("Esc"), Ok(Code::Escape));
    assert_eq!(parse_code("Del"), Ok(Code::Delete));
    assert_eq!(parse_code("Up"), Ok(Code::ArrowUp));
    assert_eq!(parse_code("PrtSc"), Ok(Code::PrintScreen));
    assert_eq!(parse_code("Print"), Ok(Code::PrintScreen));
    assert_eq!(parse_code("Ins"), Ok(Code::Insert));
}

#[test]
fn parse_code_error_messages_name_the_input() {
    assert_eq!(parse_code("a"), Err("Unsupported single key: a".to_string()));
    assert_eq!(parse_code("@"), Err("Unsupported single key: @".to_string()));
    assert_eq!(parse_code("UnknownKey"), Err("Unsupported key: UnknownKey".to_string()));
    assert_eq!(parse_code(""), Err("Unsupported key: ".to_string()));
    assert_eq!(parse_code("é"), Err("Unsupported key: é".to_string()));
    assert_eq!(parse_code("f1"), Err("Unsupported key: f1".to_string()));
}

#[test]
fn parse_shortcut_collects_every_modifier() {
    let s = parse_shortcut("Ctrl+Alt+Shift+Win+F5").unwrap();
    assert_eq!(
        s.mods,
        Modifiers { control: true, alt: true, shift: true, super_key: true }
    );
    assert_eq!(s.key, Code::F5);
    let s = parse_shortcut("Control+Enter").unwrap();
    assert_eq!(s.mods, Modifiers { control: true, alt: false, shift: false, super_key: false });
    assert_eq!(s.key, Code::Enter);
}

#[test]
fn parse_shortcut_single_key_has_no_modifiers() {
    let s = parse_shortcut("F1").unwrap();
    assert!(s.mods.is_empty());
    assert_eq!(s.mods, Modifiers::empty());
}

#[test]
fn parse_shortcut_trims_pieces() {
    let s = parse_shortcut(" Ctrl + Shift + A ").unwrap();
    assert_eq!(s, parse_shortcut("Ctrl+Shift+A").unwrap());
}

#[test]
fn parse_shortcut_modifier_order_does_not_matter() {
    assert_eq!(parse_shortcut("Shift+Ctrl+A"), parse_shortcut("Ctrl+Shift+A"));
}

#[test]
fn parse_shortcut_last_key_piece_wins() {
    let s = parse_shortcut("A+B").unwrap();
    assert_eq!(s.key, Code::KeyB);
    assert_eq!(parse_shortcut("A+"), Err("No key specified".to_string()));
}

#[test]
fn parse_shortcut_reports_bad_key() {
    assert_eq!(parse_shortcut("Ctrl+Foo"), Err("Unsupported key: Foo".to_string()));
    assert_eq!(parse_shortcut(""), Err("No key specified".to_string()));
    assert_eq!(parse_shortcut("Ctrl+Shift"), Err("No key specified".to_string()));
}
