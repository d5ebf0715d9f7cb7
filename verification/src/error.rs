//! Error types of the tool and the messages they are shown with.

use vstd::prelude::*;
use crate::text::{push_decimal, push_signed_decimal, push_str, decimal, signed_decimal, string_of};

verus! {

/// Unified application error type.
///
/// Every fallible operation should return this error (or a more specific
/// sub-error that converts into it) so that the frontend receives
/// structured, actionable error messages.
#[derive(Debug)]
pub enum JpixelError {
    Capture(CaptureError),
    Ocr(OcrError),
    Clipboard(String),
    /// An I/O failure, held by its message.
    Io(String),
    Config(String),
    Window(String),
    InvalidHotkey(String),
    Image(String),
    DialogCancelled,
}

/// Failure of a screen capture.
#[derive(Debug)]
pub enum CaptureError {
    ScreenNotFound(i32, i32, String),
    AreaFailed(i32, i32, u32, u32, String),
}

/// Failure of text recognition.
#[derive(Debug)]
pub enum OcrError {
    NotInitialized,
    Recognition(String),
}

/// Failure of a GIF recording.
#[derive(Debug)]
pub enum GifError {
    AlreadyRecording,
    NotRecording,
    /// The recording reached its maximum length, in seconds.
    Timeout(u16),
    Encode(String),
    External(String),
}

impl CaptureError {
    /// The message a capture error is shown with.
    pub open spec fn spec_message(&self) -> Seq<char> {
        match self {
            CaptureError::ScreenNotFound(x, y, e) => "无法获取屏幕 ("@ + signed_decimal(*x as int)
                + ", "@ + signed_decimal(*y as int) + "): "@ + e@,
            CaptureError::AreaFailed(x, y, w, h, e) => "区域捕获失败 ("@ + signed_decimal(*x as int)
                + ", "@ + signed_decimal(*y as int) + ", "@ + decimal(*w as nat) + "x"@ + decimal(
                *h as nat,
            ) + "): "@ + e@,
        }
    }

    /// The message a capture error is shown with.
    pub fn message(&self) -> (m: String)
        ensures
            m@ == self.spec_message(),
    {
        match self {
            CaptureError::ScreenNotFound(x, y, e) => {
                let mut m = string_of("无法获取屏幕 (");
                push_signed_decimal(&mut m, *x as i64);
                push_str(&mut m, ", ");
                push_signed_decimal(&mut m, *y as i64);
                push_str(&mut m, "): ");
                push_str(&mut m, e.as_str());
                m
            },
            CaptureError::AreaFailed(x, y, w, h, e) => {
                let mut m = string_of("区域捕获失败 (");
                push_signed_decimal(&mut m, *x as i64);
                push_str(&mut m, ", ");
                push_signed_decimal(&mut m, *y as i64);
                push_str(&mut m, ", ");
                push_decimal(&mut m, *w as u128);
                push_str(&mut m, "x");
                push_decimal(&mut m, *h as u128);
                push_str(&mut m, "): ");
                push_str(&mut m, e.as_str());
                m
            },
        }
    }
}

impl OcrError {
    /// The message a recognition error is shown with.
    pub open spec fn spec_message(&self) -> Seq<char> {
        match self {
            OcrError::NotInitialized => "OCR 引擎未初始化"@,
            OcrError::Recognition(e) => "识别失败: "@ + e@,
        }
    }

    /// The message a recognition error is shown with.
    pub fn message(&self) -> (m: String)
        ensures
            m@ == self.spec_message(),
    {
        match self {
            OcrError::NotInitialized => string_of("OCR 引擎未初始化"),
            OcrError::Recognition(e) => {
                let mut m = string_of("识别失败: ");
                push_str(&mut m, e.as_str());
                m
            },
        }
    }
}

impl JpixelError {
    /// The message an error is shown with.
    pub open spec fn spec_message(&self) -> Seq<char> {
        match self {
            JpixelError::Capture(e) => "屏幕捕获失败: "@ + e.spec_message(),
            JpixelError::Ocr(e) => "OCR 识别失败: "@ + e.spec_message(),
            JpixelError::Clipboard(e) => "剪贴板操作失败: "@ + e@,
            JpixelError::Io(e) => "IO 错误: "@ + e@,
            JpixelError::Config(e) => "配置错误: "@ + e@,
            JpixelError::Window(e) => "窗口操作失败: "@ + e@,
            JpixelError::InvalidHotkey(e) => "无效的快捷键: "@ + e@,
            JpixelError::Image(e) => "图像处理失败: "@ + e@,
            JpixelError::DialogCancelled => "对话框被取消"@,
        }
    }

    /// The message an error is shown with.
    pub fn message(&self) -> (m: String)
        ensures
            m@ == self.spec_message(),
    {
        match self {
            JpixelError::Capture(e) => {
                let mut m = string_of("屏幕捕获失败: ");
                let inner = e.message();
                push_str(&mut m, inner.as_str());
                m
            },
            JpixelError::Ocr(e) => {
                let mut m = string_of("OCR 识别失败: ");
                let inner = e.message();
                push_str(&mut m, inner.as_str());
                m
            },
            JpixelError::Clipboard(e) => {
                let mut m = string_of("剪贴板操作失败: ");
                push_str(&mut m, e.as_str());
                m
            },
            JpixelError::Io(e) => {
                let mut m = string_of("IO 错误: ");
                push_str(&mut m, e.as_str());
                m
            },
            JpixelError::Config(e) => {
                let mut m = string_of("配置错误: ");
                push_str(&mut m, e.as_str());
                m
            },
            JpixelError::Window(e) => {
                let mut m = string_of("窗口操作失败: ");
                push_str(&mut m, e.as_str());
                m
            },
            JpixelError::InvalidHotkey(e) => {
                let mut m = string_of("无效的快捷键: ");
                push_str(&mut m, e.as_str());
                m
            },
            JpixelError::Image(e) => {
                let mut m = string_of("图像处理失败: ");
                push_str(&mut m, e.as_str());
                m
            },
            JpixelError::DialogCancelled => string_of("对话框被取消"),
        }
    }
}

/// Maps a failure on a path into `JpixelError::Io`, with the path and the
/// cause in its message: `"<path>: <cause>"`.
pub fn io_err(path: &str, err: &str) -> (r: JpixelError)
    ensures
        r matches JpixelError::Io(m) && m@ == path@ + ": "@ + err@,
{
    let mut m = string_of(path);
    push_str(&mut m, ": ");
    push_str(&mut m, err);
    JpixelError::Io(m)
}

}
