//! Access to the shared system clipboard: how a failed attempt is retried.

use vstd::prelude::*;
use crate::error::JpixelError;

verus! {

/// How many times a clipboard operation is tried before giving up: the
/// clipboard can be held briefly by another process.
pub const CLIPBOARD_ATTEMPTS: u8 = 3;

/// Pause before trying a failed clipboard operation again, in milliseconds.
pub const CLIPBOARD_RETRY_PAUSE_MS: u64 = 50;

/// What to do after a clipboard operation failed.
#[derive(Debug)]
pub enum ClipboardStep {
    /// Wait this many milliseconds, then try again.
    PauseAndRetry(u64),
    /// Stop trying and report this error.
    GiveUp(JpixelError),
}

/// Decides what follows the failure of attempt number `attempt` (counted
/// from 0) with the given reason: another try after a pause while attempts
/// are left, else the last failure's reason as a `Clipboard` error.
pub fn after_clipboard_failure(attempt: u8, reason: String) -> (s: ClipboardStep)
    ensures
        attempt + 1 < CLIPBOARD_ATTEMPTS ==> (s matches ClipboardStep::PauseAndRetry(ms) && ms
            == CLIPBOARD_RETRY_PAUSE_MS),
        attempt + 1 >= CLIPBOARD_ATTEMPTS ==> (s matches ClipboardStep::GiveUp(
            JpixelError::Clipboard(m),
        ) && m@ == reason@),
{
    if attempt < CLIPBOARD_ATTEMPTS - 1 {
        ClipboardStep::PauseAndRetry(CLIPBOARD_RETRY_PAUSE_MS)
    } else {
        ClipboardStep::GiveUp(JpixelError::Clipboard(reason))
    }
}


}
