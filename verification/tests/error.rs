use jpixel::error::{io_err, CaptureError, JpixelError, OcrError};

#[test]
fn io_err_includes_path() {
    let err = io_err("/tmp/test.png", "permission denied");
    let msg = err.message();
    assert!(msg.contains("/tmp/test.png"), "path missing in error: {}", msg);
    assert!(msg.contains("permission denied"), "cause missing in error: {}", msg);
}

#[test]
fn io_err_accepts_different_error_types() {
    let io = std::io::Error::new(std::io::ErrorKind::NotFound, "file missing");
    let err = io_err("/tmp/foo", &io.to_string());
    let msg = err.message();
    assert!(msg.contains("file missing"), "nested io error not formatted: {}", msg);
}

#[test]
fn io_err_message_is_exact() {
    assert_eq!(
        io_err("/tmp/test.png", "permission denied").message(),
        "IO 错误: /tmp/test.png: permission denied"
    );
}

#[test]
fn error_messages() {
    let e = JpixelError::Capture(CaptureError::ScreenNotFound(-5, 12, "gone".to_string()));
    assert_eq!(e.message(), "屏幕捕获失败: 无法获取屏幕 (-5, 12): gone");
    let e = JpixelError::Capture(CaptureError::AreaFailed(0, -2147483648, 1920, 1080, "x".to_string()));
    assert_eq!(e.message(), "屏幕捕获失败: 区域捕获失败 (0, -2147483648, 1920x1080): x");
    assert_eq!(JpixelError::Ocr(OcrError::NotInitialized).message(), "OCR 识别失败: OCR 引擎未初始化");
    assert_eq!(
        JpixelError::Ocr(OcrError::Recognition("bad".to_string())).message(),
        "OCR 识别失败: 识别失败: bad"
    );
    assert_eq!(JpixelError::Clipboard("busy".to_string()).message(), "剪贴板操作失败: busy");
    assert_eq!(JpixelError::Config("c".to_string()).message(), "配置错误: c");
    assert_eq!(JpixelError::Window("w".to_string()).message(), "窗口操作失败: w");
    assert_eq!(JpixelError::InvalidHotkey("h".to_string()).message(), "无效的快捷键: h");
    assert_eq!(JpixelError::Image("i".to_string()).message(), "图像处理失败: i");
    assert_eq!(JpixelError::DialogCancelled.message(), "对话框被取消");
}
