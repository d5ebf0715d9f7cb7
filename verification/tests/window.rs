use jpixel::capture::screen::{rect_edges_fit, Rect};
use jpixel::window::{
    capture_labels, capture_window_label, close_wait_step, is_capture_label, monitor_containing,
    pin_event_name, CloseWaitStep,
    pin_image_data_url, pin_window_label, pin_window_url,
};

#[test]
fn capture_labels_are_filtered_in_order() {
    let labels = vec![
        "main".to_string(),
        "capture-1".to_string(),
        "pin-2".to_string(),
        "capture-3".to_string(),
    ];
    assert_eq!(capture_labels(&labels), vec!["capture-1".to_string(), "capture-3".to_string()]);
    assert!(is_capture_label("capture-"));
    assert!(!is_capture_label("captur"));
}

#[test]
fn window_labels() {
    assert_eq!(capture_window_label(42), "capture-42");
    assert!(is_capture_label(&capture_window_label(7)));
    assert_eq!(pin_window_label(1700000000000), "pin-1700000000000");
    assert!(!is_capture_label(&pin_window_label(1)));
    assert_eq!(pin_event_name("pin-5"), "pin-image-data-pin-5");
}

#[test]
fn monitor_lookup() {
    let monitors = vec![
        Rect { x: 0, y: 0, width: 1920, height: 1080 },
        Rect { x: 1920, y: 0, width: 1280, height: 1024 },
        Rect { x: -1280, y: 0, width: 1280, height: 1024 },
    ];
    assert_eq!(monitor_containing(&monitors, 100, 100), Some(0));
    assert_eq!(monitor_containing(&monitors, 1920, 5), Some(1));
    assert_eq!(monitor_containing(&monitors, -1, 5), Some(2));
    assert_eq!(monitor_containing(&monitors, 5, 1080), None);
}

#[test]
fn pin_urls() {
    assert_eq!(
        pin_window_url("C:\\tmp\\jpixel-pin-1.bmp", 200, 100, "pin-image-data-pin-1"),
        "/#/pin?path=C%3A%5Ctmp%5Cjpixel-pin-1.bmp&width=200&height=100&evt=pin-image-data-pin-1"
    );
    assert_eq!(
        pin_window_url("/tmp/a b~é", 10, 10, "e"),
        format!("/#/pin?path={}&width=10&height=10&evt=e", urlencoding::encode("/tmp/a b~é"))
    );
    assert_eq!(pin_image_data_url(b"BM"), "data:image/bmp;base64,Qk0=");
}

#[test]
fn close_wait_checks_ten_times() {
    assert_eq!(close_wait_step(0, false), CloseWaitStep::Proceed);
    assert_eq!(close_wait_step(0, true), CloseWaitStep::PauseThenCheck(50));
    assert_eq!(close_wait_step(8, true), CloseWaitStep::PauseThenCheck(50));
    assert_eq!(close_wait_step(9, true), CloseWaitStep::PauseThenProceed(50));
    assert_eq!(close_wait_step(9, false), CloseWaitStep::Proceed);
}

#[test]
fn monitors_at_the_edge_of_the_coordinate_range() {
    let far = Rect { x: i32::MAX - 10, y: 0, width: u32::MAX, height: 100 };
    assert!(!rect_edges_fit(far));
    assert!(rect_edges_fit(Rect { x: -1920, y: 0, width: 1920, height: 1080 }));
    assert_eq!(monitor_containing(&vec![far], i32::MAX, 5), Some(0));
    assert_eq!(monitor_containing(&vec![far], i32::MAX - 11, 5), None);
}
