//! The persisted configuration, the hotkey setters' validation, and the
//! double-press state of the capture hotkey.

use vstd::prelude::*;
use crate::error::JpixelError;
use crate::shortcut::{parse_shortcut, spec_parse_shortcut, Shortcut};
use crate::text::{push_str, string_of};

verus! {

/// A point in time of the monotonic clock (`std::time::Instant`).
#[verifier::external_type_specification]
#[verifier::external_body]
pub struct ExInstant(std::time::Instant);

/// What a capture triggered without editing does with the screenshot.
#[derive(Clone, Copy, Debug, PartialEq, Eq, Structural)]
pub enum DefaultAction {
    SaveAndEdit,
    Copy,
    Save,
    Pin,
}

impl Default for DefaultAction {
    fn default() -> (r: Self)
        ensures
            r == DefaultAction::SaveAndEdit,
    {
        DefaultAction::SaveAndEdit
    }
}

/// Application persisted configuration.
///
/// Contains only settings that should survive across restarts.
/// Runtime transient state lives in `HotkeyState`.
#[derive(Clone, Debug)]
pub struct AppConfig {
    pub double_press_enabled: bool,
    pub screenshot_hotkey: String,
    pub copy_hotkey: String,
    pub save_hotkey: String,
    pub pin_hotkey: String,
    pub ocr_hotkey: String,
    pub default_action: DefaultAction,
    pub gif_fps: u8,
    pub gif_quality: u8,
}

/// Default screenshot hotkey.
pub fn default_hotkey_f1() -> (s: String)
    ensures
        s@ == "F1"@,
{
    string_of("F1")
}

/// Default copy hotkey.
pub fn default_hotkey_ctrl_c() -> (s: String)
    ensures
        s@ == "Ctrl+C"@,
{
    string_of("Ctrl+C")
}

/// Default save hotkey.
pub fn default_hotkey_ctrl_s() -> (s: String)
    ensures
        s@ == "Ctrl+S"@,
{
    string_of("Ctrl+S")
}

/// Default pin hotkey.
pub fn default_hotkey_ctrl_t() -> (s: String)
    ensures
        s@ == "Ctrl+T"@,
{
    string_of("Ctrl+T")
}

/// Default text-recognition hotkey.
pub fn default_hotkey_ctrl_r() -> (s: String)
    ensures
        s@ == "Ctrl+R"@,
{
    string_of("Ctrl+R")
}

/// Default GIF frame rate.
pub fn default_gif_fps() -> (r: u8)
    ensures
        r == 10,
{
    10
}

/// Default number of GIF colours.
pub fn default_gif_quality() -> (r: u8)
    ensures
        r == 128,
{
    128
}

impl AppConfig {
    /// The configuration used when none was saved.
    pub open spec fn is_default(&self) -> bool {
        &&& !self.double_press_enabled
        &&& self.screenshot_hotkey@ == "F1"@
        &&& self.copy_hotkey@ == "Ctrl+C"@
        &&& self.save_hotkey@ == "Ctrl+S"@
        &&& self.pin_hotkey@ == "Ctrl+T"@
        &&& self.ocr_hotkey@ == "Ctrl+R"@
        &&& self.default_action == DefaultAction::SaveAndEdit
        &&& self.gif_fps == 10
        &&& self.gif_quality == 128
    }
}

impl Default for AppConfig {
    fn default() -> (r: Self)
        ensures
            r.is_default(),
    {
        AppConfig {
            double_press_enabled: false,
            screenshot_hotkey: default_hotkey_f1(),
            copy_hotkey: default_hotkey_ctrl_c(),
            save_hotkey: default_hotkey_ctrl_s(),
            pin_hotkey: default_hotkey_ctrl_t(),
            ocr_hotkey: default_hotkey_ctrl_r(),
            default_action: DefaultAction::SaveAndEdit,
            gif_fps: default_gif_fps(),
            gif_quality: default_gif_quality(),
        }
    }
}

/// The message a refused hotkey is reported with: the hotkey in quotes and
/// the parser's reason.
pub open spec fn invalid_hotkey_message(hotkey: Seq<char>, reason: Seq<char>) -> Seq<char> {
    "'"@ + hotkey + "': "@ + reason
}

/// Checks that a hotkey string parses, giving the shortcut or the
/// `InvalidHotkey` error that names it.
pub fn validate_hotkey(hotkey: &str) -> (r: Result<Shortcut, JpixelError>)
    ensures
        match spec_parse_shortcut(hotkey@) {
            Ok(sc) => r == Ok::<Shortcut, JpixelError>(sc),
            Err(e) => r matches Err(JpixelError::InvalidHotkey(m)) && m@
                == invalid_hotkey_message(hotkey@, e),
        },
{
    match parse_shortcut(hotkey) {
        Ok(sc) => Ok(sc),
        Err(e) => {
            let mut m = string_of("'");
            push_str(&mut m, hotkey);
            push_str(&mut m, "': ");
            push_str(&mut m, e.as_str());
            Err(JpixelError::InvalidHotkey(m))
        },
    }
}

/// The outcome of a hotkey setter: the configuration is changed exactly
/// when the new hotkey parses, and otherwise stays as it was with the
/// `InvalidHotkey` error returned.
pub open spec fn hotkey_update<T>(
    old_config: AppConfig,
    new_config: AppConfig,
    updated: AppConfig,
    hotkey: Seq<char>,
    r: Result<T, JpixelError>,
) -> bool {
    match spec_parse_shortcut(hotkey) {
        Ok(_) => r is Ok && new_config == updated,
        Err(e) => r matches Err(JpixelError::InvalidHotkey(m)) && m@ == invalid_hotkey_message(
            hotkey,
            e,
        ) && new_config == old_config,
    }
}

/// Sets the copy hotkey, after checking that it parses.
pub fn set_copy_hotkey(config: &mut AppConfig, hotkey: String) -> (r: Result<(), JpixelError>)
    ensures
        hotkey_update(*old(config), *final(config), AppConfig { copy_hotkey: hotkey, ..*old(config) }, hotkey@, r),
{
    match validate_hotkey(hotkey.as_str()) {
        Ok(_) => {
            config.copy_hotkey = hotkey;
            Ok(())
        },
        Err(e) => Err(e),
    }
}

/// Sets the save hotkey, after checking that it parses.
pub fn set_save_hotkey(config: &mut AppConfig, hotkey: String) -> (r: Result<(), JpixelError>)
    ensures
        hotkey_update(*old(config), *final(config), AppConfig { save_hotkey: hotkey, ..*old(config) }, hotkey@, r),
{
    match validate_hotkey(hotkey.as_str()) {
        Ok(_) => {
            config.save_hotkey = hotkey;
            Ok(())
        },
        Err(e) => Err(e),
    }
}

/// Sets the pin hotkey, after checking that it parses.
pub fn set_pin_hotkey(config: &mut AppConfig, hotkey: String) -> (r: Result<(), JpixelError>)
    ensures
        hotkey_update(*old(config), *final(config), AppConfig { pin_hotkey: hotkey, ..*old(config) }, hotkey@, r),
{
    match validate_hotkey(hotkey.as_str()) {
        Ok(_) => {
            config.pin_hotkey = hotkey;
            Ok(())
        },
        Err(e) => Err(e),
    }
}

/// Sets the text-recognition hotkey, after checking that it parses.
pub fn set_ocr_hotkey(config: &mut AppConfig, hotkey: String) -> (r: Result<(), JpixelError>)
    ensures
        hotkey_update(*old(config), *final(config), AppConfig { ocr_hotkey: hotkey, ..*old(config) }, hotkey@, r),
{
    match validate_hotkey(hotkey.as_str()) {
        Ok(_) => {
            config.ocr_hotkey = hotkey;
            Ok(())
        },
        Err(e) => Err(e),
    }
}

/// The global shortcuts to swap when the screenshot hotkey changes: the
/// old one to unregister (when the old hotkey string parsed) and the new
/// one to register.
#[derive(Clone, Copy, Debug)]
pub struct HotkeyChange {
    pub previous: Option<Shortcut>,
    pub next: Shortcut,
}

/// Sets the screenshot hotkey, after checking that it parses, and tells
/// which global shortcut to unregister and which to register.
pub fn set_screenshot_hotkey(config: &mut AppConfig, hotkey: String) -> (r: Result<
    HotkeyChange,
    JpixelError,
>)
    ensures
        hotkey_update(*old(config), *final(config), AppConfig { screenshot_hotkey: hotkey, ..*old(config) }, hotkey@, r),
        r matches Ok(ch) ==> Ok::<Shortcut, Seq<char>>(ch.next) == spec_parse_shortcut(hotkey@)
            && ch.previous == (match spec_parse_shortcut(old(config).screenshot_hotkey@) {
            Ok(sc) => Some(sc),
            Err(_) => None,
        }),
{
    let next = match validate_hotkey(hotkey.as_str()) {
        Ok(sc) => sc,
        Err(e) => return Err(e),
    };
    let previous = match parse_shortcut(config.screenshot_hotkey.as_str()) {
        Ok(sc) => Some(sc),
        Err(_) => None,
    };
    config.screenshot_hotkey = hotkey;
    Ok(HotkeyChange { previous, next })
}

/// Transient hotkey state, separate from persisted config.
#[derive(Debug)]
pub struct HotkeyState {
    pub waiting_second_press: bool,
    pub last_press_time: Option<std::time::Instant>,
}

impl Default for HotkeyState {
    fn default() -> (r: Self)
        ensures
            !r.waiting_second_press,
            r.last_press_time is None,
    {
        HotkeyState { waiting_second_press: false, last_press_time: None }
    }
}

/// How long a first press of the capture hotkey waits for the second one,
/// in milliseconds.
pub const SECOND_PRESS_WINDOW_MS: u64 = 500;

/// What to do after the capture hotkey was pressed.
#[derive(Clone, Copy, Debug, PartialEq, Eq, Structural)]
pub enum HotkeyAction {
    /// Open the capture overlay now.
    Trigger,
    /// Wait this many milliseconds for a second press; report a timeout if
    /// none comes in time.
    WaitForSecondPress(u64),
}

/// The state after a press of the capture hotkey at `now`, and what to do.
/// Without double press every press captures. With it, a first press
/// starts waiting and a second press while waiting captures.
pub open spec fn press_step(
    waiting: bool,
    last: Option<std::time::Instant>,
    double_press_enabled: bool,
    now: std::time::Instant,
) -> (bool, Option<std::time::Instant>, HotkeyAction) {
    if !double_press_enabled {
        (waiting, last, HotkeyAction::Trigger)
    } else if waiting {
        (false, None, HotkeyAction::Trigger)
    } else {
        (true, Some(now), HotkeyAction::WaitForSecondPress(SECOND_PRESS_WINDOW_MS))
    }
}

/// Handles a press of the capture hotkey.
pub fn on_capture_hotkey(
    state: &mut HotkeyState,
    double_press_enabled: bool,
    now: std::time::Instant,
) -> (a: HotkeyAction)
    ensures
        (final(state).waiting_second_press, final(state).last_press_time, a) == press_step(
            old(state).waiting_second_press,
            old(state).last_press_time,
            double_press_enabled,
            now,
        ),
{
    if !double_press_enabled {
        return HotkeyAction::Trigger;
    }
    if state.waiting_second_press {
        state.waiting_second_press = false;
        state.last_press_time = None;
        HotkeyAction::Trigger
    } else {
        state.waiting_second_press = true;
        state.last_press_time = Some(now);
        HotkeyAction::WaitForSecondPress(SECOND_PRESS_WINDOW_MS)
    }
}

/// The state after the wait for a second press ends, and whether a timeout
/// is reported: when still waiting the wait ends and the timeout is
/// reported; otherwise nothing changes.
pub open spec fn timeout_step(waiting: bool, last: Option<std::time::Instant>) -> (
    bool,
    Option<std::time::Instant>,
    bool,
) {
    if waiting {
        (false, None, true)
    } else {
        (waiting, last, false)
    }
}

/// Handles the end of the wait for a second press.
pub fn on_second_press_timeout(state: &mut HotkeyState) -> (timed_out: bool)
    ensures
        (final(state).waiting_second_press, final(state).last_press_time, timed_out)
            == timeout_step(old(state).waiting_second_press, old(state).last_press_time),
{
    if state.waiting_second_press {
        state.waiting_second_press = false;
        state.last_press_time = None;
        true
    } else {
        false
    }
}

/// With double press on, two presses in a row from the idle state capture
/// once, on the second press, and leave the state idle again; the first
/// press waits 500 ms for the second.
pub proof fn law_double_press_captures_on_second(
    last: Option<std::time::Instant>,
    t1: std::time::Instant,
    t2: std::time::Instant,
)
    ensures
        ({
            let s1 = press_step(false, last, true, t1);
            let s2 = press_step(s1.0, s1.1, true, t2);
            &&& s1.2 == HotkeyAction::WaitForSecondPress(500)
            &&& s2.2 == HotkeyAction::Trigger
            &&& !s2.0 && s2.1 is None
        }),
{
}

/// With double press on, a press followed by the end of the wait reports a
/// timeout, and the next press starts a new wait instead of capturing.
pub proof fn law_timeout_forgets_first_press(
    last: Option<std::time::Instant>,
    t1: std::time::Instant,
    t2: std::time::Instant,
)
    ensures
        ({
            let s1 = press_step(false, last, true, t1);
            let s2 = timeout_step(s1.0, s1.1);
            let s3 = press_step(s2.0, s2.1, true, t2);
            &&& s2.2
            &&& !s2.0 && s2.1 is None
            &&& s3.2 == HotkeyAction::WaitForSecondPress(SECOND_PRESS_WINDOW_MS)
        }),
{
}

/// Without double press every press captures and the state is untouched.
pub proof fn law_single_press_always_captures(
    waiting: bool,
    last: Option<std::time::Instant>,
    now: std::time::Instant,
)
    ensures
        press_step(waiting, last, false, now) == (waiting, last, HotkeyAction::Trigger),
{
}

/// A second press after a capture has nothing left to wait for: the end of
/// the wait reports no timeout.
pub proof fn law_no_timeout_after_capture(
    last: Option<std::time::Instant>,
    t1: std::time::Instant,
    t2: std::time::Instant,
)
    ensures
        ({
            let s1 = press_step(false, last, true, t1);
            let s2 = press_step(s1.0, s1.1, true, t2);
            !timeout_step(s2.0, s2.1).2
        }),
{
}

}
