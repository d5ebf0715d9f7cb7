use image::RgbaImage;
use jpixel::capture::gif::{
    begin_recording, begin_stopping, build_uniform_palette, colors_for_quality,
    finish_stopping, frame_delay_centiseconds, frame_duration_ms, map_pixels_to_palette,
    max_frames, next_frame_deadline, next_record_step, on_recording_timeout, palette_side_of,
    pause_until, quantize_frame, timeout_error, timestamp_ms,
    RecordStep, RecorderState, StopCheck,
};
use jpixel::capture::pixels::PixelBuffer;
use jpixel::error::GifError;

fn buffer_of(img: RgbaImage) -> PixelBuffer {
    let (w, h) = img.dimensions();
    PixelBuffer::from_raw(w, h, img.into_raw()).unwrap()
}

// ── build_uniform_palette ─────────────────────────────────

#[test]
fn palette_length_is_colors_times_three() {
    for colors in [2, 64, 128, 256] {
        let p = build_uniform_palette(colors);
        assert_eq!(p.len(), colors * 3, "palette length mismatch for {} colors", colors);
    }
}

#[test]
fn palette_clamps_to_valid_range() {
    assert_eq!(build_uniform_palette(300).len(), 256 * 3);
    assert_eq!(build_uniform_palette(1).len(), 2 * 3);
}

#[test]
fn palette_holds_the_grid_then_black() {
    // 8 colours: two levels per channel, every corner of the RGB cube.
    let p = build_uniform_palette(8);
    assert_eq!(
        p,
        vec![
            0, 0, 0, 0, 0, 255, 0, 255, 0, 0, 255, 255, 255, 0, 0, 255, 0, 255, 255, 255, 0,
            255, 255, 255
        ]
    );
    // 128 colours: five levels (0, 63, 127, 191, 255), 125 grid colours, 3 black.
    let p = build_uniform_palette(128);
    assert_eq!(&p[0..6], &[0, 0, 0, 0, 0, 63]);
    assert_eq!(&p[124 * 3..125 * 3], &[255, 255, 255]);
    assert_eq!(&p[125 * 3..128 * 3], &[0; 9]);
    // 3 colours: only the first three grid colours.
    assert_eq!(build_uniform_palette(3), vec![0, 0, 0, 0, 0, 255, 0, 255, 0]);
}

#[test]
fn palette_side_is_the_cube_root() {
    assert_eq!(palette_side_of(2), 2);
    assert_eq!(palette_side_of(26), 2);
    assert_eq!(palette_side_of(27), 3);
    assert_eq!(palette_side_of(64), 4);
    assert_eq!(palette_side_of(128), 5);
    assert_eq!(palette_side_of(216), 6);
    assert_eq!(palette_side_of(256), 6);
    assert_eq!(palette_side_of(100000), 6);
}

// ── map_pixels_to_palette ─────────────────────────────────

#[test]
fn map_solid_color_uniform_indices() {
    let palette = build_uniform_palette(128);
    let img = buffer_of(RgbaImage::from_pixel(4, 4, image::Rgba([255, 0, 0, 255])));
    let indices = map_pixels_to_palette(&img, &palette);
    assert_eq!(indices.len(), 16);
    let first = indices[0];
    assert!(indices.iter().all(|&i| i == first), "solid red image produced varying indices");
}

#[test]
fn map_output_size_equals_pixel_count() {
    let palette = build_uniform_palette(128);
    let img = buffer_of(RgbaImage::new(10, 10));
    let indices = map_pixels_to_palette(&img, &palette);
    assert_eq!(indices.len(), 100);
}

#[test]
fn map_picks_the_nearest_level() {
    // Five levels: 0, 63, 127, 191, 255.
    let palette = build_uniform_palette(128);
    let img = buffer_of(RgbaImage::from_raw(3, 1, vec![
        255, 0, 0, 255, // red: level 4, 0, 0 -> 4 * 25 = 100
        60, 100, 200, 255, // 63, 127 (|100-127|=27 < |100-63|=37), 191 -> 1*25 + 2*5 + 3
        31, 32, 160, 255, // 31 is nearer 0, 32 nearer 63; 160 is nearer 191 than 127
    ]).unwrap());
    let indices = map_pixels_to_palette(&img, &palette);
    assert_eq!(indices, vec![100, 38, 5 + 3]);
    let i = indices[1] as usize * 3;
    assert_eq!(&palette[i..i + 3], &[63, 127, 191]);
}

#[test]
fn small_palettes_map_to_their_own_colours() {
    // Two colours: black and blue. White is nearer blue.
    let palette = build_uniform_palette(2);
    let img = buffer_of(RgbaImage::from_raw(3, 1, vec![
        255, 255, 255, 255,
        0, 0, 0, 255,
        255, 0, 0, 255, // red is nearer black than blue
    ]).unwrap());
    assert_eq!(map_pixels_to_palette(&img, &palette), vec![1, 0, 0]);
    // Four colours: black, blue, green, cyan.
    let palette = build_uniform_palette(4);
    let img = buffer_of(RgbaImage::from_raw(3, 1, vec![
        255, 255, 255, 255,
        200, 10, 10, 255,
        10, 200, 10, 255,
    ]).unwrap());
    assert_eq!(map_pixels_to_palette(&img, &palette), vec![3, 0, 2]);
    // Every index names a colour of the palette, for every small palette.
    for colors in 2..8 {
        let palette = build_uniform_palette(colors);
        let mut bytes = Vec::new();
        for v in 0..64u32 {
            bytes.extend_from_slice(&[(v * 4) as u8, (255 - v * 4) as u8, (v * 37 % 256) as u8, 255]);
        }
        let img = buffer_of(RgbaImage::from_raw(64, 1, bytes).unwrap());
        let indices = map_pixels_to_palette(&img, &palette);
        assert!(indices.iter().all(|&i| (i as usize) < colors), "index past the palette for {} colours", colors);
        let (q, p) = quantize_frame(&img, colors);
        assert_eq!(p.len(), colors * 3);
        assert!(q.iter().all(|&i| (i as usize) < colors));
    }
}

#[test]
fn quantize_returns_indices_and_palette() {
    let img = buffer_of(RgbaImage::from_pixel(2, 2, image::Rgba([0, 0, 255, 255])));
    let (indices, palette) = quantize_frame(&img, 8);
    assert_eq!(palette.len(), 24);
    assert_eq!(indices, vec![1, 1, 1, 1]);
    assert_eq!(&palette[3..6], &[0, 0, 255]);
}

// ── recorder ─────────────────────────────────────────────

#[test]
fn recorder_runs_a_full_cycle() {
    let mut st = RecorderState::Idle;
    assert!(begin_stopping(&mut st).is_err());
    assert_eq!(st, RecorderState::Idle);
    begin_recording(&mut st).unwrap();
    assert_eq!(st, RecorderState::Recording);
    assert!(matches!(begin_recording(&mut st), Err(GifError::AlreadyRecording)));
    assert_eq!(st, RecorderState::Recording);
    begin_stopping(&mut st).unwrap();
    assert_eq!(st, RecorderState::Encoding);
    assert!(matches!(begin_stopping(&mut st), Err(GifError::NotRecording)));
    assert!(matches!(begin_recording(&mut st), Err(GifError::AlreadyRecording)));
    finish_stopping(&mut st);
    assert_eq!(st, RecorderState::Idle);
}

#[test]
fn frame_timing_follows_the_frame_rate() {
    assert_eq!(frame_duration_ms(10), 100);
    assert_eq!(frame_duration_ms(15), 66);
    assert_eq!(frame_duration_ms(0), 1000);
    assert_eq!(frame_delay_centiseconds(10), 10);
    assert_eq!(frame_delay_centiseconds(15), 6);
    assert_eq!(frame_delay_centiseconds(0), 100);
    assert_eq!(max_frames(10), 300);
    assert_eq!(max_frames(0), 0);
    assert_eq!(colors_for_quality(0), 2);
    assert_eq!(colors_for_quality(128), 128);
}

#[test]
fn record_steps() {
    assert_eq!(
        next_record_step(StopCheck::Stop("/tmp/a.gif".to_string()), 3, 300),
        RecordStep::Finish("/tmp/a.gif".to_string())
    );
    assert_eq!(next_record_step(StopCheck::Disconnected, 3, 300), RecordStep::Abandon);
    assert_eq!(next_record_step(StopCheck::Pending, 3, 300), RecordStep::CaptureFrame);
    assert_eq!(next_record_step(StopCheck::Pending, 300, 300), RecordStep::TimedOut);
    assert!(matches!(timeout_error(), GifError::Timeout(30)));
}

// ── timestamp_ms ──────────────────────────────────────────

#[test]
fn timestamp_within_reasonable_range() {
    let ts = timestamp_ms();
    let since_2024 = 1_704_067_200_000u128; // 2024-01-01 00:00:00 UTC
    let before_2030 = 1_893_456_000_000u128; // 2030-01-01 00:00:00 UTC
    assert!(
        ts > since_2024 && ts < before_2030,
        "timestamp {} outside expected range",
        ts
    );
}

#[test]
fn timestamp_is_monotonic() {
    let t1 = timestamp_ms();
    let start = std::time::Instant::now();
    while start.elapsed() < std::time::Duration::from_millis(5) {}
    let t2 = timestamp_ms();
    assert!(t2 > t1, "timestamp should increase over time");
}

#[test]
fn timeout_leaves_the_recorder_encoding() {
    let mut st = RecorderState::Recording;
    assert!(matches!(on_recording_timeout(&mut st), GifError::Timeout(30)));
    assert_eq!(st, RecorderState::Encoding);
    // Neither a new start nor a stop is accepted afterwards.
    assert!(matches!(begin_recording(&mut st), Err(GifError::AlreadyRecording)));
    assert!(matches!(begin_stopping(&mut st), Err(GifError::NotRecording)));
    assert_eq!(st, RecorderState::Encoding);
}

#[test]
fn frame_pacing() {
    assert_eq!(pause_until(100, 40), 60);
    assert_eq!(pause_until(100, 100), 0);
    assert_eq!(pause_until(100, 150), 0);
    // On time: the next slot follows the last one.
    assert_eq!(next_frame_deadline(1_000, 100, 1_010, 1_060), 1_100);
    // Exactly one frame long is no overrun.
    assert_eq!(next_frame_deadline(1_000, 100, 1_010, 1_110), 1_100);
    // An overrun skips ahead to one frame from now.
    assert_eq!(next_frame_deadline(1_000, 100, 1_010, 1_300), 1_400);
}
