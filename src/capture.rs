//! The decisions of a screen capture: which backend to try, how a grabbed
//! screen becomes an encoded image, and how a region is cropped out of it.
use crate::codec::{
    Bitmap, bytes_of, crop_bitmap, cropped, decode_image, decode_outcome, decoded_rgba, encode_image,
    encode_outcome, encode_pixels, png_encodable, png_encoded,
};
use vstd::arithmetic::div_mod::lemma_fundamental_div_mod;
use vstd::prelude::*;

verus! {

/// Why a screenshot could not be taken or cropped.
#[derive(Clone, Copy, PartialEq, Eq, Structural, Debug)]
pub enum CaptureError {
    /// The display server reports no screen.
    NoScreens,
    /// The display server refused to enumerate or grab the screen.
    ScreenAccess,
    /// The grabbed screen has no pixels.
    InvalidDimensions,
    /// The grab returned no pixel data.
    EmptyCapture,
    /// The grabbed pixel data is shorter than its dimensions call for.
    BufferMismatch,
    /// The image could not be encoded.
    Encode,
    /// The encoder produced no bytes.
    EmptyEncoding,
    /// The image to crop could not be decoded.
    Decode,
    /// The crop region starts outside the image.
    OutOfBounds,
}

/// A way of grabbing the screen.
#[derive(Clone, Copy, PartialEq, Eq, Structural, Debug)]
pub enum CaptureBackend {
    /// The desktop portal, tried first in a Wayland or XDG desktop session.
    Portal,
    /// Direct grab from the X server.
    X11,
}

/// What the caller does next in a screen capture.
#[derive(PartialEq, Eq, Debug)]
pub enum CaptureStep {
    /// Grab the screen through this backend and report the outcome.
    Grab(CaptureBackend),
    /// The capture is over, with this result.
    Done(Result<Vec<u8>, CaptureError>),
}

/// Captures the screen, preferring the desktop portal where one is available.
pub struct ScreenshotCapture {
    pub use_portal: bool,
}

impl ScreenshotCapture {
    /// A capture that tries the portal first when `use_portal` holds (a Wayland
    /// or XDG desktop session was detected).
    pub fn new(use_portal: bool) -> (r: Self)
        ensures
            r.use_portal == use_portal,
    {
        ScreenshotCapture { use_portal }
    }

    /// Whether the portal is worth trying: in a Wayland session (`WAYLAND_DISPLAY`
    /// set) or an XDG desktop session (`XDG_CURRENT_DESKTOP` set).
    pub fn detect_portal_availability(wayland_display: bool, xdg_desktop: bool) -> (r: bool)
        ensures
            r == (wayland_display || xdg_desktop),
    {
        if wayland_display {
            return true;
        }
        if xdg_desktop {
            return true;
        }
        false
    }

    /// The backend of the first grab.
    pub fn first_attempt(&self) -> (r: CaptureBackend)
        ensures
            r == (if self.use_portal {
                CaptureBackend::Portal
            } else {
                CaptureBackend::X11
            }),
    {
        if self.use_portal {
            CaptureBackend::Portal
        } else {
            CaptureBackend::X11
        }
    }

    /// Decides what follows a grab through `attempt` that ended with `outcome`:
    /// a successful grab ends the capture; a failed portal grab falls back to
    /// X11; a failed X11 grab ends the capture with its error.
    pub fn take_screenshot_blocking(
        &self,
        attempt: CaptureBackend,
        outcome: Result<Vec<u8>, CaptureError>,
    ) -> (r: CaptureStep)
        ensures
            match outcome {
                Ok(data) => r == CaptureStep::Done(Ok(data)),
                Err(e) => match attempt {
                    CaptureBackend::Portal => r == CaptureStep::Grab(CaptureBackend::X11),
                    CaptureBackend::X11 => r == CaptureStep::Done(Err(e)),
                },
            },
    {
        match outcome {
            Ok(data) => CaptureStep::Done(Ok(data)),
            Err(e) => match attempt {
                CaptureBackend::Portal => CaptureStep::Grab(CaptureBackend::X11),
                CaptureBackend::X11 => CaptureStep::Done(Err(e)),
            },
        }
    }

    /// Crops the region `width` x `height` at (`x`, `y`) out of a full-screen
    /// capture, passing a failed capture on unchanged.
    pub fn take_screenshot_region_blocking(
        &self,
        full_screenshot: Result<Vec<u8>, CaptureError>,
        x: i32,
        y: i32,
        width: i32,
        height: i32,
    ) -> (r: Result<Vec<u8>, CaptureError>)
        ensures
            match full_screenshot {
                Ok(data) => bytes_of(r) == crop_png_outcome(
                    data@,
                    x as int,
                    y as int,
                    width as int,
                    height as int,
                ),
                Err(e) => r == Err::<Vec<u8>, CaptureError>(e),
            },
    {
        match full_screenshot {
            Ok(data) => crop_png(data.as_slice(), x, y, width, height),
            Err(e) => Err(e),
        }
    }
}

pub open spec fn max(a: int, b: int) -> int {
    if a >= b {
        a
    } else {
        b
    }
}

pub open spec fn min(a: int, b: int) -> int {
    if a <= b {
        a
    } else {
        b
    }
}

/// The rectangle (column, row, width, height) that a crop request selects in
/// an `img_w` x `img_h` image: the origin is clamped to zero, the size is cut
/// at the image edge measured from the requested origin and is at least one,
/// and the rectangle is then kept inside the image. No rectangle when the
/// clamped origin lies outside the image.
pub open spec fn crop_rect(img_w: int, img_h: int, x: int, y: int, w: int, h: int) -> Option<
    (int, int, int, int),
> {
    let cx = max(x, 0);
    let cy = max(y, 0);
    if cx >= img_w || cy >= img_h {
        None
    } else {
        let cw = max(min(w, img_w - x), 1);
        let ch = max(min(h, img_h - y), 1);
        Some((cx, cy, min(cw, img_w - cx), min(ch, img_h - cy)))
    }
}

/// A crop whose origin lies at or beyond the right or bottom edge of the
/// image selects nothing, and `crop_region` fails with `OutOfBounds`.
pub proof fn lemma_crop_outside(img_w: int, img_h: int, x: int, y: int, w: int, h: int)
    requires
        x >= img_w || y >= img_h,
    ensures
        crop_rect(img_w, img_h, x, y, w, h) is None,
{
}

/// Cropping the whole image returns it unchanged: same dimensions, same bytes.
#[verifier::spinoff_prover]
pub proof fn lemma_crop_whole(pixels: Seq<u8>, width: int, height: int)
    requires
        width > 0,
        height > 0,
        pixels.len() == 4 * width * height,
    ensures
        crop_rect(width, height, 0, 0, width, height) == Some((0int, 0int, width, height)),
        cropped(pixels, width, 0, 0, width, height) == pixels,
{
    let c = cropped(pixels, width, 0, 0, width, height);
    assert forall|j: int| 0 <= j < pixels.len() implies c[j] == pixels[j] by {
        lemma_fundamental_div_mod(j, 4 * width);
        assert((0 + j / (4 * width)) * (4 * width) + 4 * 0 + j % (4 * width) == j) by (
        nonlinear_arith)
            requires
                j == (4 * width) * (j / (4 * width)) + j % (4 * width),
        ;
    }
    assert(c =~= pixels);
}

/// Crops the region `width` x `height` at (`x`, `y`) out of `img`, as
/// `crop_rect` places it.
#[verifier::spinoff_prover]
pub fn crop_region(img: &Bitmap, x: i32, y: i32, width: i32, height: i32) -> (r: Result<
    Bitmap,
    CaptureError,
>)
    requires
        img.wf(),
    ensures
        match crop_rect(img.width as int, img.height as int, x as int, y as int, width as int, height as int) {
            None => r == Err::<Bitmap, CaptureError>(CaptureError::OutOfBounds),
            Some((cx, cy, cw, ch)) => r matches Ok(b) && b.wf() && b.width == cw && b.height == ch
                && b.pixels@ == cropped(img.pixels@, img.width as int, cx, cy, cw, ch),
        },
{
    let img_w = img.width as i64;
    let img_h = img.height as i64;
    let cx: i64 = if x >= 0 { x as i64 } else { 0 };
    let cy: i64 = if y >= 0 { y as i64 } else { 0 };
    if cx >= img_w || cy >= img_h {
        return Err(CaptureError::OutOfBounds);
    }
    let room_w = img_w - x as i64;
    let room_h = img_h - y as i64;
    let mut cw: i64 = if (width as i64) <= room_w { width as i64 } else { room_w };
    if cw < 1 {
        cw = 1;
    }
    let mut ch: i64 = if (height as i64) <= room_h { height as i64 } else { room_h };
    if ch < 1 {
        ch = 1;
    }
    if cw > img_w - cx {
        cw = img_w - cx;
    }
    if ch > img_h - cy {
        ch = img_h - cy;
    }
    let b = crop_bitmap(img, cx as u32, cy as u32, cw as u32, ch as u32);
    Ok(b)
}

/// What cropping the encoded image `data` gives: `Decode` when it does not
/// decode to an image with pixels, `OutOfBounds` when the decoded image leaves
/// no rectangle, otherwise the crop of the decoded image encoded as PNG, or
/// `Encode` when the encoder refuses it.
pub open spec fn crop_png_outcome(data: Seq<u8>, x: int, y: int, w: int, h: int) -> Result<
    Seq<u8>,
    CaptureError,
> {
    match decode_outcome(data) {
        Err(_) => Err(CaptureError::Decode),
        Ok((img_w, img_h, pixels)) => match crop_rect(img_w as int, img_h as int, x, y, w, h) {
            None => Err(CaptureError::OutOfBounds),
            Some((cx, cy, cw, ch)) => match encode_outcome(
                cw as u32,
                ch as u32,
                cropped(pixels, img_w as int, cx, cy, cw, ch),
            ) {
                Ok(v) => Ok(v),
                Err(_) => Err(CaptureError::Encode),
            },
        },
    }
}

/// Cropping a whole decoded image gives that image encoded again, exactly
/// when the encoder accepts it.
pub proof fn lemma_crop_png_whole(data: Seq<u8>)
    requires
        decode_outcome(data) is Ok,
        decoded_rgba(data).0 <= i32::MAX,
        decoded_rgba(data).1 <= i32::MAX,
        decoded_rgba(data).2.len() == 4 * decoded_rgba(data).0 * decoded_rgba(data).1,
    ensures
        ({
            let (w, h, pixels) = decoded_rgba(data);
            crop_png_outcome(data, 0, 0, w as int, h as int) == if png_encodable(w, h, pixels) {
                Ok::<Seq<u8>, CaptureError>(png_encoded(w, h, pixels))
            } else {
                Err(CaptureError::Encode)
            }
        }),
{
    let (w, h, pixels) = decoded_rgba(data);
    lemma_crop_whole(pixels, w as int, h as int);
}

/// Decodes an encoded image, crops the region `width` x `height` at (`x`, `y`)
/// out of it and encodes the crop as PNG.
#[verifier::spinoff_prover]
pub fn crop_png(data: &[u8], x: i32, y: i32, width: i32, height: i32) -> (r: Result<
    Vec<u8>,
    CaptureError,
>)
    ensures
        bytes_of(r) == crop_png_outcome(data@, x as int, y as int, width as int, height as int),
{
    let img = match decode_image(data) {
        Ok(img) => img,
        Err(_) => return Err(CaptureError::Decode),
    };
    let part = match crop_region(&img, x, y, width, height) {
        Ok(b) => b,
        Err(e) => return Err(e),
    };
    match encode_image(&part) {
        Ok(v) => Ok(v),
        Err(_) => Err(CaptureError::Encode),
    }
}

/// What encoding a grabbed screen gives: its first `4 * width * height` bytes
/// encoded as PNG, or the first of these errors that applies.
pub open spec fn screen_capture_outcome(width: u32, height: u32, rgba: Seq<u8>) -> Result<
    Seq<u8>,
    CaptureError,
> {
    if width == 0 || height == 0 {
        Err(CaptureError::InvalidDimensions)
    } else if rgba.len() == 0 {
        Err(CaptureError::EmptyCapture)
    } else if rgba.len() < 4 * width * height {
        Err(CaptureError::BufferMismatch)
    } else {
        let pixels = rgba.subrange(0, 4 * width * height);
        if !png_encodable(width, height, pixels) {
            Err(CaptureError::Encode)
        } else if png_encoded(width, height, pixels).len() == 0 {
            Err(CaptureError::EmptyEncoding)
        } else {
            Ok(png_encoded(width, height, pixels))
        }
    }
}

/// Turns a grabbed screen (`width` x `height`, RGBA8 rows, possibly followed by
/// extra bytes that are not part of the image) into a PNG file.
#[verifier::spinoff_prover]
pub fn encode_screen_capture(width: u32, height: u32, rgba: Vec<u8>) -> (r: Result<
    Vec<u8>,
    CaptureError,
>)
    ensures
        bytes_of(r) == screen_capture_outcome(width, height, rgba@),
{
    if width == 0 || height == 0 {
        return Err(CaptureError::InvalidDimensions);
    }
    let len = rgba.len();
    assert(4 * width * height > 0) by (nonlinear_arith)
        requires
            width > 0,
            height > 0,
    ;
    if len == 0 {
        return Err(CaptureError::EmptyCapture);
    }
    let total = match (width as usize).checked_mul(4) {
        Some(row) => match row.checked_mul(height as usize) {
            Some(t) => t,
            None => {
                assert(len < 4 * width * height) by (nonlinear_arith)
                    requires
                        row * height > usize::MAX,
                        row == 4 * width,
                        len <= usize::MAX,
                ;
                return Err(CaptureError::BufferMismatch);
            },
        },
        None => {
            assert(len < 4 * width * height) by (nonlinear_arith)
                requires
                    4 * width > usize::MAX,
                    height >= 1,
                    len <= usize::MAX,
            ;
            return Err(CaptureError::BufferMismatch);
        },
    };
    if len < total {
        return Err(CaptureError::BufferMismatch);
    }
    let mut pixels = rgba;
    pixels.truncate(total);
    assert(pixels@ =~= rgba@.subrange(0, 4 * width * height));
    match encode_pixels(width, height, &pixels) {
        Ok(v) => {
            if v.len() == 0 {
                Err(CaptureError::EmptyEncoding)
            } else {
                Ok(v)
            }
        },
        Err(_) => Err(CaptureError::Encode),
    }
}

/// The rectangle (x, y, width, height) spanned by a drag from (`start_x`,
/// `start_y`) to (`end_x`, `end_y`): its top-left corner and its size. A drag
/// of 10 pixels or less in either direction selects nothing.
pub open spec fn drag_region(start_x: int, start_y: int, end_x: int, end_y: int) -> Option<
    (int, int, int, int),
> {
    let w = if end_x >= start_x {
        end_x - start_x
    } else {
        start_x - end_x
    };
    let h = if end_y >= start_y {
        end_y - start_y
    } else {
        start_y - end_y
    };
    if w > 10 && h > 10 && w <= i32::MAX && h <= i32::MAX {
        Some((min(start_x, end_x), min(start_y, end_y), w, h))
    } else {
        None
    }
}

/// The region a rectangle selection drag selects, if it is large enough.
pub fn selection_region(start_x: i32, start_y: i32, end_x: i32, end_y: i32) -> (r: Option<
    (i32, i32, i32, i32),
>)
    ensures
        match drag_region(start_x as int, start_y as int, end_x as int, end_y as int) {
            Some((x, y, w, h)) => r == Some((x as i32, y as i32, w as i32, h as i32)),
            None => r is None,
        },
{
    let w: i64 = if end_x >= start_x {
        end_x as i64 - start_x as i64
    } else {
        start_x as i64 - end_x as i64
    };
    let h: i64 = if end_y >= start_y {
        end_y as i64 - start_y as i64
    } else {
        start_y as i64 - end_y as i64
    };
    if w > 10 && h > 10 && w <= i32::MAX as i64 && h <= i32::MAX as i64 {
        let x = if start_x <= end_x {
            start_x
        } else {
            end_x
        };
        let y = if start_y <= end_y {
            start_y
        } else {
            end_y
        };
        Some((x, y, w as i32, h as i32))
    } else {
        None
    }
}

} // verus!
