use jpixel::error::OcrError;
use jpixel::ocr::{
    next_search_step, SearchStep,
    executable_search_order, tesseract_program, ExecutableSource,
    exit_failure, located_path, next_wait_step, recognized_text, ChildPoll, TesseractOcr, WaitStep,
};

#[test]
fn engine_without_executable_is_not_initialized() {
    let ocr = TesseractOcr::new(None);
    assert!(matches!(ocr.executable(), Err(OcrError::NotInitialized)));
    let ocr = TesseractOcr::new(Some("/usr/bin/tesseract".to_string()));
    assert_eq!(ocr.executable().unwrap(), "/usr/bin/tesseract");
}

#[test]
fn exit_failures_name_the_code() {
    match exit_failure(Some(1)) {
        OcrError::Recognition(m) => assert_eq!(m, "Tesseract exited with code Some(1)"),
        other => panic!("{:?}", other),
    }
    match exit_failure(Some(-3)) {
        OcrError::Recognition(m) => assert_eq!(m, format!("Tesseract exited with code {:?}", Some(-3))),
        other => panic!("{:?}", other),
    }
    match exit_failure(None) {
        OcrError::Recognition(m) => assert_eq!(m, "Tesseract exited with code None"),
        other => panic!("{:?}", other),
    }
}

#[test]
fn recognised_text_is_trimmed() {
    assert_eq!(recognized_text("  hello world\n\n"), "hello world");
    assert_eq!(recognized_text("\u{3000}你好\t"), "你好");
    assert_eq!(recognized_text(" \n "), "");
    let s = " a b \u{85}";
    assert_eq!(recognized_text(s), s.trim());
}

#[test]
fn waiting_for_tesseract() {
    assert!(matches!(next_wait_step(ChildPoll::Exited, 0, 30000), WaitStep::Done));
    assert!(matches!(next_wait_step(ChildPoll::Running, 100, 30000), WaitStep::PollAgain));
    match next_wait_step(ChildPoll::Running, 30000, 30000) {
        WaitStep::GiveUp(m, kill) => {
            assert!(kill);
            assert_eq!(m, "Tesseract timed out after 30 seconds");
        }
        other => panic!("{:?}", other),
    }
    match next_wait_step(ChildPoll::Failed("oops".to_string()), 0, 30000) {
        WaitStep::GiveUp(m, kill) => {
            assert!(!kill);
            assert_eq!(m, "Failed to wait for tesseract: oops");
        }
        other => panic!("{:?}", other),
    }
}

#[test]
fn located_path_takes_the_first_line() {
    assert_eq!(located_path(""), None);
    assert_eq!(located_path("C:\\bin\\tesseract.exe\r\nD:\\other\\tesseract.exe\r\n").as_deref(), Some("C:\\bin\\tesseract.exe"));
    assert_eq!(located_path("  /usr/bin/tesseract  \n").as_deref(), Some("/usr/bin/tesseract"));
    assert_eq!(located_path("\n/usr/bin/tesseract").as_deref(), Some(""));
    assert_eq!(located_path("/opt/tesseract").as_deref(), Some("/opt/tesseract"));
}

#[test]
fn executable_search_order_by_system() {
    assert_eq!(executable_search_order(true), vec![ExecutableSource::WhereLookup, ExecutableSource::Bundled]);
    assert_eq!(executable_search_order(false), vec![
        ExecutableSource::WhereLookup,
        ExecutableSource::WhichLookup,
        ExecutableSource::Bundled,
    ]);
    assert_eq!(tesseract_program(true), "tesseract.exe");
    assert_eq!(tesseract_program(false), "tesseract");
}

#[test]
fn search_takes_the_first_existing_candidate() {
    assert_eq!(next_search_step(false, 0, true, true), SearchStep::Take);
    assert_eq!(next_search_step(false, 0, true, false), SearchStep::TryNext(ExecutableSource::WhichLookup));
    assert_eq!(next_search_step(false, 1, false, false), SearchStep::TryNext(ExecutableSource::Bundled));
    assert_eq!(next_search_step(false, 2, true, false), SearchStep::NotFound);
    assert_eq!(next_search_step(true, 0, false, false), SearchStep::TryNext(ExecutableSource::Bundled));
    assert_eq!(next_search_step(true, 1, true, true), SearchStep::Take);
    assert_eq!(next_search_step(true, 1, false, true), SearchStep::NotFound);
}
