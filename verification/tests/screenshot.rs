use gamescope::perfetto::{duration_ns, encode_fields, flow_id, frame_flow, EventField};
use gamescope::screenshot::{failure_report, ScreenshotError, ScreenshotFormat, ScreenshotJob};
use gamescope::text::extension_of;

fn job(path: &str, width: u32, height: u32, rgba: Vec<u8>) -> ScreenshotJob {
    ScreenshotJob {
        path: path.into(),
        width,
        height,
        rgba,
    }
}

#[test]
fn raw_pixels_are_saved_as_they_are() {
    let screenshot = job("/tmp/shot.raw", 1, 1, vec![1, 2, 3, 4]);
    assert_eq!(screenshot.format(), Ok(ScreenshotFormat::Raw));
    assert_eq!(screenshot.encode(), Ok(vec![1, 2, 3, 4]));
}

#[test]
fn ppm_files_have_a_header_and_no_opacity() {
    let screenshot = job("a.b/shot.PPM", 2, 1, vec![1, 2, 3, 4, 5, 6, 7, 8]);
    assert_eq!(
        screenshot.encode(),
        Ok(b"P6\n2 1\n255\n\x01\x02\x03\x05\x06\x07".to_vec())
    );
}

#[test]
fn png_files_decode_to_the_same_pixels() {
    let pixels = vec![1, 2, 3, 4, 250, 251, 252, 253];
    let file = job("shot.png", 1, 2, pixels.clone()).encode().expect("image");
    assert_eq!(file[..8], [137, 80, 78, 71, 13, 10, 26, 10]);
    assert_eq!(file[file.len() - 8..file.len() - 4], *b"IEND");
    let decoder = png::Decoder::new(std::io::Cursor::new(file));
    let mut reader = decoder.read_info().expect("header");
    let mut decoded = vec![0; 8];
    let frame = reader.next_frame(&mut decoded).expect("pixels");
    assert_eq!((frame.width, frame.height), (1, 2));
    assert_eq!(decoded, pixels);
}

#[test]
fn wrong_jobs_are_explained() {
    let error = job("x.raw", u32::MAX, u32::MAX, vec![]).encode().unwrap_err();
    assert_eq!(error, ScreenshotError::DimensionsOverflow);
    assert_eq!(error.text(), "screenshot dimensions overflow");
    let error = job("x.raw", 1, 1, vec![0; 3]).encode().unwrap_err();
    assert_eq!(error.text(), "RGBA buffer has 3 bytes, expected 4");
    let error = job("x.JPG", 1, 1, vec![0; 4]).encode().unwrap_err();
    assert_eq!(
        error.text(),
        "unsupported screenshot extension Some(\"jpg\")"
    );
    let error = job("/tmp/.png", 1, 1, vec![0; 4]).encode().unwrap_err();
    assert_eq!(error.text(), "unsupported screenshot extension None");
    let error = job("x.png", 0, 7, vec![]).encode().unwrap_err();
    assert!(matches!(error, ScreenshotError::Png { .. }));
    assert_eq!(error.text(), "Zero width not allowed");
    let shallow = job("x.png", 7, 0, vec![]).encode().unwrap_err();
    assert_eq!(shallow.text(), "Zero height not allowed");
    assert_eq!(
        failure_report("x.png", &error.text()),
        format!("failed to save screenshot x.png: {}", error.text())
    );
}

#[test]
fn extensions_are_those_of_std() {
    for path in [
        "a.png", "a", ".png", "..png", "a.", "a.b.c", "dir.d/a", "dir.d/a.x/", "a.x/.", "a.x/./.",
        "..", "a/..", ".", "./.x", "", "/", "//a.x//", "a.x/..", "...", "a. b",
    ] {
        assert_eq!(
            extension_of(path).as_deref(),
            std::path::Path::new(path)
                .extension()
                .and_then(|extension| extension.to_str()),
            "{path:?}"
        );
    }
}

#[test]
fn trace_fields_have_their_numbers() {
    assert_eq!(EventField::FrameId(7).encode(), (1, 7));
    assert_eq!(EventField::HasCursor(true).encode(), (5, 1));
    assert_eq!(EventField::Intercepted(false).encode(), (26, 0));
    assert_eq!(EventField::MailboxWakeDelayNs(9).encode(), (31, 9));
    assert_eq!(
        encode_fields(&[EventField::Keysym(3), EventField::Pressed(true)]),
        [(25, 3), (20, 1)]
    );
}

#[test]
fn flows_and_durations_are_limited() {
    assert_eq!(duration_ns(12), 12);
    assert_eq!(duration_ns(u128::from(u64::MAX) + 1), u64::MAX);
    assert_eq!(flow_id(3, 2), 14);
    assert_eq!(flow_id(u64::MAX, 3), u64::MAX);
    assert_ne!(
        format!("{:?}", frame_flow(3, 2)),
        format!("{:?}", frame_flow(3, 1))
    );
}
