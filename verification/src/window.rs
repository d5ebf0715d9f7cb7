//! Naming and placement of the capture overlay and pin windows.

use vstd::prelude::*;
use crate::capture::data_url;
use crate::capture::screen::{covers, Rect};
use crate::encode::{percent_encode, url_encode, base64_fits, base64_standard};
use vstd::string::StringSliceAdditionalSpecFns;
use crate::text::{
    decimal, is_prefix, lemma_decimal_injective, lemma_prefixed_injective, push_decimal, push_str,
    starts_with, string_of,
};

verus! {

/// Whether a window label names a capture overlay window.
pub open spec fn spec_is_capture_label(label: Seq<char>) -> bool {
    is_prefix("capture-"@, label)
}

/// Whether a window label names a capture overlay window (`capture-*`).
pub fn is_capture_label(label: &str) -> (r: bool)
    ensures
        r == spec_is_capture_label(label@),
{
    starts_with(label, "capture-")
}

/// The labels of a list of windows.
pub open spec fn label_views(labels: Seq<String>) -> Seq<Seq<char>> {
    labels.map_values(|s: String| s@)
}

/// The capture overlay windows among the given window labels, in order:
/// the ones that hiding and closing the overlay act on.
pub fn capture_labels(labels: &Vec<String>) -> (r: Vec<String>)
    ensures
        label_views(r@) == label_views(labels@).filter(|l: Seq<char>| spec_is_capture_label(l)),
{
    let mut r: Vec<String> = Vec::new();
    let mut i: usize = 0;
    while i < labels.len()
        invariant
            i <= labels.len(),
            label_views(r@) == label_views(labels@.take(i as int)).filter(
                |l: Seq<char>| spec_is_capture_label(l),
            ),
        decreases labels.len() - i,
    {
        let ghost before = r@;
        proof {
            reveal_with_fuel(Seq::<_>::filter, 1);
            assert(label_views(labels@.take(i + 1)).drop_last() =~= label_views(
                labels@.take(i as int),
            ));
            assert(label_views(labels@.take(i + 1)).last() == labels@[i as int]@);
        }
        if is_capture_label(labels[i].as_str()) {
            r.push(labels[i].clone());
            proof {
                assert(label_views(r@) =~= label_views(before).push(labels@[i as int]@));
            }
        }
        i = i + 1;
    }
    proof {
        assert(labels@.take(labels.len() as int) =~= labels@);
    }
    r
}

/// How many times the closing of old capture windows is checked before new
/// ones are made regardless.
pub const CLOSE_CHECKS: u32 = 10;

/// Pause after a check that found capture windows still open, in
/// milliseconds.
pub const CLOSE_CHECK_PAUSE_MS: u64 = 50;

/// What to do after checking whether old capture windows are still open.
#[derive(Debug, Clone, Copy, PartialEq, Eq, Structural)]
pub enum CloseWaitStep {
    /// Make the new capture windows now.
    Proceed,
    /// Pause this many milliseconds, then check again.
    PauseThenCheck(u64),
    /// Pause this many milliseconds, then make the new windows anyway.
    PauseThenProceed(u64),
}

/// Decides what follows check number `check` (counted from 0) of whether
/// old capture windows are still closing: go on once none is left;
/// otherwise pause and check again, up to `CLOSE_CHECKS` checks, after the
/// last of which the new windows are made anyway (their unique labels
/// cannot collide with the old ones).
pub fn close_wait_step(check: u32, capture_windows_left: bool) -> (s: CloseWaitStep)
    ensures
        !capture_windows_left ==> s == CloseWaitStep::Proceed,
        capture_windows_left && check + 1 < CLOSE_CHECKS ==> s == CloseWaitStep::PauseThenCheck(
            CLOSE_CHECK_PAUSE_MS,
        ),
        capture_windows_left && check + 1 >= CLOSE_CHECKS ==> s
            == CloseWaitStep::PauseThenProceed(CLOSE_CHECK_PAUSE_MS),
{
    if !capture_windows_left {
        CloseWaitStep::Proceed
    } else if check < CLOSE_CHECKS - 1 {
        CloseWaitStep::PauseThenCheck(CLOSE_CHECK_PAUSE_MS)
    } else {
        CloseWaitStep::PauseThenProceed(CLOSE_CHECK_PAUSE_MS)
    }
}

/// Label of a capture overlay window made at time `nanos`.
pub open spec fn spec_capture_window_label(nanos: nat) -> Seq<char> {
    "capture-"@ + decimal(nanos)
}

/// Label of a capture overlay window made at time `nanos` (nanoseconds since
/// the Unix epoch); unique per window so that a window still closing is
/// never confused with a new one.
pub fn capture_window_label(nanos: u128) -> (r: String)
    ensures
        r@ == spec_capture_window_label(nanos as nat),
{
    let mut r = string_of("capture-");
    push_decimal(&mut r, nanos);
    r
}

/// Label of a pin window made at time `millis`.
pub open spec fn spec_pin_window_label(millis: nat) -> Seq<char> {
    "pin-"@ + decimal(millis)
}

/// Label of a pin window made at time `millis` (milliseconds since the Unix
/// epoch).
pub fn pin_window_label(millis: u128) -> (r: String)
    ensures
        r@ == spec_pin_window_label(millis as nat),
{
    let mut r = string_of("pin-");
    push_decimal(&mut r, millis);
    r
}

/// Name of the event that carries a pin window's image: unique per window,
/// so an old window never picks up a new window's image.
pub fn pin_event_name(label: &str) -> (r: String)
    ensures
        r@ == "pin-image-data-"@ + label@,
{
    let mut r = string_of("pin-image-data-");
    push_str(&mut r, label);
    r
}

/// Every capture window the tool names is found by the capture filter.
pub proof fn law_capture_windows_are_recognised(nanos: nat)
    ensures
        spec_is_capture_label(spec_capture_window_label(nanos)),
{
    let l = spec_capture_window_label(nanos);
    assert(l.subrange(0, "capture-"@.len() as int) =~= "capture-"@);
}

/// No pin window is ever taken for a capture window, so hiding or closing
/// the overlay leaves pins alone.
pub proof fn law_pin_windows_are_not_capture_windows(millis: nat)
    ensures
        !spec_is_capture_label(spec_pin_window_label(millis)),
{
    reveal_strlit("capture-");
    reveal_strlit("pin-");
    let l = spec_pin_window_label(millis);
    if l.len() >= 8 {
        assert(l[1] == 'i');
        assert(l.subrange(0, 8)[1] != "capture-"@[1]);
    }
}

/// The first monitor that holds point `(x, y)`, if any.
pub fn monitor_containing(monitors: &Vec<Rect>, x: i32, y: i32) -> (r: Option<usize>)
    ensures
        match r {
            Some(i) => i < monitors.len() && covers(monitors@[i as int], x as int, y as int)
                && forall|j: int|
                0 <= j < i ==> !covers(#[trigger] monitors@[j], x as int, y as int),
            None => forall|j: int|
                0 <= j < monitors.len() ==> !covers(#[trigger] monitors@[j], x as int, y as int),
        },
{
    let mut i: usize = 0;
    while i < monitors.len()
        invariant
            i <= monitors.len(),
            forall|j: int| 0 <= j < i ==> !covers(#[trigger] monitors@[j], x as int, y as int),
        decreases monitors.len() - i,
    {
        let m = monitors[i];
        if x >= m.x && (x as i64) < m.x as i64 + m.width as i64 && y >= m.y && (y as i64) < m.y as i64
            + m.height as i64 {
            return Some(i);
        }
        i = i + 1;
    }
    None
}

/// The frontend route of a pin window: the percent-encoded image path, the
/// window's size and the name of the event that brings the image.
pub open spec fn spec_pin_window_url(path: Seq<u8>, width: nat, height: nat, event: Seq<char>) -> Seq<
    char,
> {
    "/#/pin?path="@ + percent_encode(path) + "&width="@ + decimal(width) + "&height="@ + decimal(
        height,
    ) + "&evt="@ + event
}

/// The frontend route of a pin window.
pub fn pin_window_url(image_path: &str, width: u32, height: u32, event: &str) -> (r: String)
    ensures
        r@ == spec_pin_window_url(image_path.spec_bytes(), width as nat, height as nat, event@),
{
    let mut r = string_of("/#/pin?path=");
    let enc = url_encode(image_path);
    push_str(&mut r, enc.as_str());
    push_str(&mut r, "&width=");
    push_decimal(&mut r, width as u128);
    push_str(&mut r, "&height=");
    push_decimal(&mut r, height as u128);
    push_str(&mut r, "&evt=");
    push_str(&mut r, event);
    r
}

/// The image a pin window shows, as a BMP `data:` URL.
pub fn pin_image_data_url(bytes: &[u8]) -> (r: String)
    requires
        base64_fits(bytes@.len()),
    ensures
        r@ == "data:"@ + "image/bmp"@ + ";base64,"@ + base64_standard(bytes@),
{
    data_url("image/bmp", bytes)
}


/// Capture windows made at different times get different labels, so a new
/// overlay never collides with one still being destroyed.
pub proof fn law_capture_labels_are_unique(n: nat, m: nat)
    requires
        n != m,
    ensures
        spec_capture_window_label(n) != spec_capture_window_label(m),
{
    if spec_capture_window_label(n) == spec_capture_window_label(m) {
        lemma_prefixed_injective("capture-"@, decimal(n), decimal(m));
        lemma_decimal_injective(n, m);
    }
}

/// Pin windows made at different times get different labels and different
/// image events, so an old pin never picks up a new pin's image.
pub proof fn law_pin_events_are_unique(n: nat, m: nat)
    requires
        n != m,
    ensures
        spec_pin_window_label(n) != spec_pin_window_label(m),
        "pin-image-data-"@ + spec_pin_window_label(n) != "pin-image-data-"@ + spec_pin_window_label(m),
{
    if spec_pin_window_label(n) == spec_pin_window_label(m) {
        lemma_prefixed_injective("pin-"@, decimal(n), decimal(m));
        lemma_decimal_injective(n, m);
    }
    if "pin-image-data-"@ + spec_pin_window_label(n) == "pin-image-data-"@ + spec_pin_window_label(m) {
        lemma_prefixed_injective("pin-image-data-"@, spec_pin_window_label(n), spec_pin_window_label(m));
        lemma_prefixed_injective("pin-"@, decimal(n), decimal(m));
        lemma_decimal_injective(n, m);
    }
}

}
