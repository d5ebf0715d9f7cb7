use jpixel::clipboard::{after_clipboard_failure, ClipboardStep, CLIPBOARD_ATTEMPTS, CLIPBOARD_RETRY_PAUSE_MS};
use jpixel::error::JpixelError;

#[test]
fn clipboard_failures_retry_twice_then_give_up() {
    assert_eq!(CLIPBOARD_ATTEMPTS, 3);
    assert!(matches!(after_clipboard_failure(0, "busy".to_string()), ClipboardStep::PauseAndRetry(50)));
    assert!(matches!(after_clipboard_failure(1, "busy".to_string()), ClipboardStep::PauseAndRetry(ms) if ms == CLIPBOARD_RETRY_PAUSE_MS));
    match after_clipboard_failure(2, "still busy".to_string()) {
        ClipboardStep::GiveUp(JpixelError::Clipboard(m)) => assert_eq!(m, "still busy"),
        other => panic!("{:?}", other),
    }
    assert!(matches!(after_clipboard_failure(200, String::new()), ClipboardStep::GiveUp(JpixelError::Clipboard(_))));
}
