use jpixel::config::{
    default_gif_fps, default_gif_quality, default_hotkey_ctrl_c, default_hotkey_ctrl_r,
    default_hotkey_ctrl_s, default_hotkey_ctrl_t, default_hotkey_f1, on_capture_hotkey,
    on_second_press_timeout, set_copy_hotkey, set_ocr_hotkey, set_pin_hotkey, set_save_hotkey,
    set_screenshot_hotkey, AppConfig, DefaultAction, HotkeyAction, HotkeyState,
};
use jpixel::error::JpixelError;
use jpixel::shortcut::{parse_shortcut, Code};

#[test]
fn app_config_default_values() {
    let cfg = AppConfig::default();
    assert!(!cfg.double_press_enabled);
    assert_eq!(cfg.screenshot_hotkey, "F1");
    assert_eq!(cfg.copy_hotkey, "Ctrl+C");
    assert_eq!(cfg.save_hotkey, "Ctrl+S");
    assert_eq!(cfg.pin_hotkey, "Ctrl+T");
    assert_eq!(cfg.ocr_hotkey, "Ctrl+R");
    assert_eq!(cfg.default_action, DefaultAction::SaveAndEdit);
    assert_eq!(cfg.gif_fps, 10);
    assert_eq!(cfg.gif_quality, 128);
}

#[test]
fn default_action_default_is_save_and_edit() {
    assert_eq!(DefaultAction::default(), DefaultAction::SaveAndEdit);
}

#[test]
fn default_helper_functions() {
    assert_eq!(default_hotkey_f1(), "F1");
    assert_eq!(default_hotkey_ctrl_c(), "Ctrl+C");
    assert_eq!(default_hotkey_ctrl_s(), "Ctrl+S");
    assert_eq!(default_hotkey_ctrl_t(), "Ctrl+T");
    assert_eq!(default_hotkey_ctrl_r(), "Ctrl+R");
    assert_eq!(default_gif_fps(), 10);
    assert_eq!(default_gif_quality(), 128);
}

#[test]
fn default_hotkeys_all_parse() {
    let cfg = AppConfig::default();
    for h in [
        &cfg.screenshot_hotkey,
        &cfg.copy_hotkey,
        &cfg.save_hotkey,
        &cfg.pin_hotkey,
        &cfg.ocr_hotkey,
    ] {
        assert!(parse_shortcut(h).is_ok(), "default hotkey {} does not parse", h);
    }
}

#[test]
fn setters_store_valid_hotkeys() {
    let mut cfg = AppConfig::default();
    set_copy_hotkey(&mut cfg, "Alt+C".to_string()).unwrap();
    set_save_hotkey(&mut cfg, "Alt+S".to_string()).unwrap();
    set_pin_hotkey(&mut cfg, "Alt+T".to_string()).unwrap();
    set_ocr_hotkey(&mut cfg, "Alt+R".to_string()).unwrap();
    assert_eq!(cfg.copy_hotkey, "Alt+C");
    assert_eq!(cfg.save_hotkey, "Alt+S");
    assert_eq!(cfg.pin_hotkey, "Alt+T");
    assert_eq!(cfg.ocr_hotkey, "Alt+R");
    assert_eq!(cfg.screenshot_hotkey, "F1");
}

#[test]
fn setters_refuse_invalid_hotkeys_and_keep_the_old_one() {
    let mut cfg = AppConfig::default();
    let err = set_copy_hotkey(&mut cfg, "Ctrl+".to_string()).unwrap_err();
    match &err {
        JpixelError::InvalidHotkey(m) => assert_eq!(m, "'Ctrl+': No key specified"),
        other => panic!("unexpected error {:?}", other),
    }
    assert_eq!(err.message(), "无效的快捷键: 'Ctrl+': No key specified");
    assert_eq!(cfg.copy_hotkey, "Ctrl+C");
    assert!(set_pin_hotkey(&mut cfg, "Ctrl+x".to_string()).is_err());
    assert_eq!(cfg.pin_hotkey, "Ctrl+T");
}

#[test]
fn screenshot_hotkey_change_names_both_shortcuts() {
    let mut cfg = AppConfig::default();
    let change = set_screenshot_hotkey(&mut cfg, "Ctrl+Shift+A".to_string()).unwrap();
    assert_eq!(cfg.screenshot_hotkey, "Ctrl+Shift+A");
    assert_eq!(change.previous.unwrap().key, Code::F1);
    assert_eq!(change.next.key, Code::KeyA);
    assert!(change.next.mods.control && change.next.mods.shift);
}

#[test]
fn screenshot_hotkey_change_without_valid_old_hotkey() {
    let mut cfg = AppConfig::default();
    cfg.screenshot_hotkey = "nonsense".to_string();
    let change = set_screenshot_hotkey(&mut cfg, "F2".to_string()).unwrap();
    assert!(change.previous.is_none());
    assert_eq!(change.next.key, Code::F2);
    assert!(set_screenshot_hotkey(&mut cfg, "".to_string()).is_err());
    assert_eq!(cfg.screenshot_hotkey, "F2");
}

#[test]
fn double_press_captures_on_second_press() {
    let mut st = HotkeyState::default();
    let now = std::time::Instant::now();
    assert_eq!(on_capture_hotkey(&mut st, true, now), HotkeyAction::WaitForSecondPress(500));
    assert!(st.waiting_second_press);
    assert!(st.last_press_time.is_some());
    assert_eq!(on_capture_hotkey(&mut st, true, now), HotkeyAction::Trigger);
    assert!(!st.waiting_second_press);
    assert!(st.last_press_time.is_none());
    assert!(!on_second_press_timeout(&mut st));
}

#[test]
fn timeout_resets_the_wait() {
    let mut st = HotkeyState::default();
    let now = std::time::Instant::now();
    assert_eq!(on_capture_hotkey(&mut st, true, now), HotkeyAction::WaitForSecondPress(500));
    assert!(on_second_press_timeout(&mut st));
    assert!(!st.waiting_second_press);
    assert_eq!(on_capture_hotkey(&mut st, true, now), HotkeyAction::WaitForSecondPress(500));
}

#[test]
fn single_press_mode_always_captures() {
    let mut st = HotkeyState::default();
    let now = std::time::Instant::now();
    for _ in 0..3 {
        assert_eq!(on_capture_hotkey(&mut st, false, now), HotkeyAction::Trigger);
        assert!(!st.waiting_second_press);
    }
}
