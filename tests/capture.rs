use flint::capture::{
    crop_png, crop_region, encode_screen_capture, selection_region, CaptureBackend, CaptureError, CaptureStep,
    ScreenshotCapture,
};
use flint::codec::{crop_bitmap, decode_image, encode_image, encode_pixels, Bitmap, CodecError};

fn image_4x3() -> Bitmap {
    Bitmap { width: 4, height: 3, pixels: (0..48).collect() }
}

fn pixel(img: &Bitmap, x: usize, y: usize) -> Vec<u8> {
    let i = (y * img.width as usize + x) * 4;
    img.pixels[i..i + 4].to_vec()
}

#[test]
fn test_portal_detection() {
    assert!(ScreenshotCapture::detect_portal_availability(true, false));
    assert!(ScreenshotCapture::detect_portal_availability(false, true));
    assert!(ScreenshotCapture::detect_portal_availability(true, true));
    assert!(!ScreenshotCapture::detect_portal_availability(false, false));
}

#[test]
fn first_attempt_follows_portal_choice() {
    assert_eq!(ScreenshotCapture::new(true).first_attempt(), CaptureBackend::Portal);
    assert_eq!(ScreenshotCapture::new(false).first_attempt(), CaptureBackend::X11);
}

#[test]
fn portal_failure_falls_back_to_x11() {
    let c = ScreenshotCapture::new(true);
    assert_eq!(
        c.take_screenshot_blocking(CaptureBackend::Portal, Err(CaptureError::ScreenAccess)),
        CaptureStep::Grab(CaptureBackend::X11)
    );
    assert_eq!(
        c.take_screenshot_blocking(CaptureBackend::X11, Err(CaptureError::NoScreens)),
        CaptureStep::Done(Err(CaptureError::NoScreens))
    );
    assert_eq!(
        c.take_screenshot_blocking(CaptureBackend::Portal, Ok(vec![1, 2, 3])),
        CaptureStep::Done(Ok(vec![1, 2, 3]))
    );
}

#[test]
fn crop_outside_fails() {
    let img = image_4x3();
    assert!(matches!(crop_region(&img, 4, 0, 2, 2), Err(CaptureError::OutOfBounds)));
    assert!(matches!(crop_region(&img, 0, 3, 2, 2), Err(CaptureError::OutOfBounds)));
    assert!(matches!(crop_region(&img, 100, -5, 2, 2), Err(CaptureError::OutOfBounds)));
}

#[test]
fn crop_whole_image_is_unchanged() {
    let img = image_4x3();
    let c = crop_region(&img, 0, 0, 4, 3).unwrap();
    assert_eq!((c.width, c.height), (4, 3));
    assert_eq!(c.pixels, img.pixels);
}

#[test]
fn crop_inner_rectangle() {
    let img = image_4x3();
    let c = crop_region(&img, 1, 1, 2, 2).unwrap();
    assert_eq!((c.width, c.height), (2, 2));
    let mut expected = pixel(&img, 1, 1);
    expected.extend(pixel(&img, 2, 1));
    expected.extend(pixel(&img, 1, 2));
    expected.extend(pixel(&img, 2, 2));
    assert_eq!(c.pixels, expected);
}

#[test]
fn crop_is_clamped_to_the_image() {
    let img = image_4x3();
    // negative origin: starts at 0, keeps the requested width
    let c = crop_region(&img, -1, 0, 2, 1).unwrap();
    assert_eq!((c.width, c.height), (2, 1));
    assert_eq!(c.pixels, [pixel(&img, 0, 0), pixel(&img, 1, 0)].concat());
    // too wide: cut at the edge
    let c = crop_region(&img, 2, 2, 10, 10).unwrap();
    assert_eq!((c.width, c.height), (2, 1));
    // empty size: at least one pixel
    let c = crop_region(&img, 3, 0, 0, -4).unwrap();
    assert_eq!((c.width, c.height), (1, 1));
    assert_eq!(c.pixels, pixel(&img, 3, 0));
}

#[test]
fn crop_bitmap_copies_rectangle() {
    let img = image_4x3();
    let c = crop_bitmap(&img, 3, 2, 1, 1);
    assert_eq!(c.pixels, pixel(&img, 3, 2));
}

#[test]
fn png_round_trip() {
    let img = image_4x3();
    let png = encode_image(&img).unwrap();
    assert_eq!(&png[1..4], b"PNG");
    let back = decode_image(&png).unwrap();
    assert_eq!((back.width, back.height), (4, 3));
    assert_eq!(back.pixels, img.pixels);
}

#[test]
fn codec_errors() {
    assert!(matches!(decode_image(&[1, 2, 3]), Err(CodecError::Decode)));
    assert!(matches!(encode_pixels(0, 3, &vec![]), Err(CodecError::ZeroArea)));
    assert!(matches!(encode_pixels(2, 2, &vec![0; 15]), Err(CodecError::LengthMismatch)));
}

#[test]
fn crop_png_crops_encoded_image() {
    let img = image_4x3();
    let png = encode_image(&img).unwrap();
    let cropped = crop_png(&png, 1, 0, 1, 2).unwrap();
    let back = decode_image(&cropped).unwrap();
    assert_eq!((back.width, back.height), (1, 2));
    assert_eq!(back.pixels, [pixel(&img, 1, 0), pixel(&img, 1, 1)].concat());
    assert!(matches!(crop_png(&png, 4, 0, 1, 1), Err(CaptureError::OutOfBounds)));
    assert!(matches!(crop_png(&[0, 1], 0, 0, 1, 1), Err(CaptureError::Decode)));
}

#[test]
fn region_capture_passes_errors_on() {
    let c = ScreenshotCapture::new(false);
    assert!(matches!(
        c.take_screenshot_region_blocking(Err(CaptureError::NoScreens), 0, 0, 5, 5),
        Err(CaptureError::NoScreens)
    ));
    let png = encode_image(&image_4x3()).unwrap();
    let part = c.take_screenshot_region_blocking(Ok(png), 2, 1, 2, 2).unwrap();
    let back = decode_image(&part).unwrap();
    assert_eq!((back.width, back.height), (2, 2));
}

#[test]
fn screen_capture_encoding() {
    assert!(matches!(encode_screen_capture(0, 2, vec![1; 8]), Err(CaptureError::InvalidDimensions)));
    assert!(matches!(encode_screen_capture(2, 2, vec![]), Err(CaptureError::EmptyCapture)));
    assert!(matches!(encode_screen_capture(2, 2, vec![1; 15]), Err(CaptureError::BufferMismatch)));
    let raw: Vec<u8> = (0..20).collect();
    let png = encode_screen_capture(2, 2, raw.clone()).unwrap();
    let back = decode_image(&png).unwrap();
    assert_eq!(back.pixels, raw[..16].to_vec());
}

#[test]
fn drag_selection_region() {
    assert_eq!(selection_region(100, 80, 20, 200), Some((20, 80, 80, 120)));
    assert_eq!(selection_region(0, 0, 10, 50), None);
    assert_eq!(selection_region(0, 0, 11, 11), Some((0, 0, 11, 11)));
    assert_eq!(selection_region(i32::MIN, 0, i32::MAX, 50), None);
}

#[test]
fn crop_png_whole_image_is_unchanged() {
    let img = image_4x3();
    let png = encode_image(&img).unwrap();
    let whole = crop_png(&png, 0, 0, 4, 3).unwrap();
    assert_eq!(whole, png);
    let back = decode_image(&whole).unwrap();
    assert_eq!((back.width, back.height), (4, 3));
    assert_eq!(back.pixels, img.pixels);
}
