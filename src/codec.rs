//! Bitmaps held as plain values, and the image codec calls made on them.
use vstd::prelude::*;

verus! {

/// A decoded image: `width` x `height` pixels, row-major, four bytes per pixel
/// in R,G,B,A order, rows tightly packed.
pub struct Bitmap {
    pub width: u32,
    pub height: u32,
    pub pixels: Vec<u8>,
}

impl Bitmap {
    /// The pixel buffer holds exactly four bytes for each pixel.
    pub open spec fn wf(&self) -> bool {
        self.pixels@.len() == 4 * self.width * self.height
    }
}

/// Why an image could not be decoded or encoded.
#[derive(Clone, Copy, PartialEq, Eq, Structural, Debug)]
pub enum CodecError {
    /// The bytes are not an image that the decoder reads.
    Decode,
    /// The encoder refused the image.
    Encode,
    /// The image has no pixels.
    ZeroArea,
    /// The pixel buffer does not match the dimensions.
    LengthMismatch,
}

/// Whether the image decoder reads `bytes` as an image.
pub uninterp spec fn decodable(bytes: Seq<u8>) -> bool;

/// Width, height and RGBA8 pixels that the image decoder produces from `bytes`.
pub uninterp spec fn decoded_rgba(bytes: Seq<u8>) -> (u32, u32, Seq<u8>);

/// Whether the PNG encoder accepts an RGBA8 image.
pub uninterp spec fn png_encodable(width: u32, height: u32, pixels: Seq<u8>) -> bool;

/// The PNG file that the image encoder writes for an RGBA8 image.
pub uninterp spec fn png_encoded(width: u32, height: u32, pixels: Seq<u8>) -> Seq<u8>;

/// A byte-vector result seen as a sequence of bytes.
pub open spec fn bytes_of<E>(r: Result<Vec<u8>, E>) -> Result<Seq<u8>, E> {
    match r {
        Ok(v) => Ok(v@),
        Err(e) => Err(e),
    }
}

/// What decoding `bytes` gives: the decoder's image, refused when it fails or
/// the image has no pixels.
pub open spec fn decode_outcome(bytes: Seq<u8>) -> Result<(u32, u32, Seq<u8>), CodecError> {
    if !decodable(bytes) {
        Err(CodecError::Decode)
    } else {
        let (w, h, p) = decoded_rgba(bytes);
        if w == 0 || h == 0 {
            Err(CodecError::ZeroArea)
        } else {
            Ok((w, h, p))
        }
    }
}

/// What encoding a `width` x `height` RGBA8 image gives.
pub open spec fn encode_outcome(width: u32, height: u32, pixels: Seq<u8>) -> Result<
    Seq<u8>,
    CodecError,
> {
    if width == 0 || height == 0 {
        Err(CodecError::ZeroArea)
    } else if pixels.len() != 4 * width * height {
        Err(CodecError::LengthMismatch)
    } else if png_encodable(width, height, pixels) {
        Ok(png_encoded(width, height, pixels))
    } else {
        Err(CodecError::Encode)
    }
}

/// The RGBA8 bytes of the `w` x `h` rectangle at column `x`, row `y` of an
/// image `width` pixels wide.
pub open spec fn cropped(pixels: Seq<u8>, width: int, x: int, y: int, w: int, h: int) -> Seq<u8> {
    Seq::new(
        (4 * w * h) as nat,
        |j: int| pixels[(y + j / (4 * w)) * (4 * width) + 4 * x + j % (4 * w)],
    )
}

/// Relies on image::load_from_memory and DynamicImage::to_rgba8: whether it
/// succeeds and what it returns depend on the bytes alone, and `to_rgba8`
/// allocates a buffer of exactly four bytes per pixel.
#[verifier::external_body]
fn decode_rgba(bytes: &[u8]) -> (r: Option<Bitmap>)
    ensures
        r is Some <==> decodable(bytes@),
        r matches Some(b) ==> b.wf() && (b.width, b.height, b.pixels@) == decoded_rgba(bytes@),
{
    let img = image::load_from_memory(bytes).ok()?.to_rgba8();
    let (width, height) = img.dimensions();
    Some(Bitmap { width, height, pixels: img.into_raw() })
}

/// Relies on ImageBuffer::from_raw, which accepts a buffer of four bytes per
/// pixel, and ImageBuffer::write_to with the PNG format: whether it succeeds and
/// what it writes depend on the image alone.
#[verifier::external_body]
fn encode_rgba(width: u32, height: u32, pixels: &Vec<u8>) -> (r: Option<Vec<u8>>)
    requires
        pixels@.len() == 4 * width * height,
    ensures
        r is Some <==> png_encodable(width, height, pixels@),
        r matches Some(v) ==> v@ == png_encoded(width, height, pixels@),
{
    let img = image::RgbaImage::from_raw(width, height, pixels.clone())?;
    let mut out: Vec<u8> = Vec::new();
    img.write_to(&mut std::io::Cursor::new(&mut out), image::ImageOutputFormat::Png).ok()?;
    Some(out)
}

/// Relies on image::imageops::crop_imm, which leaves a rectangle inside the
/// image as it is, and SubImage::to_image, which copies it pixel by pixel into
/// a new buffer.
#[verifier::external_body]
fn crop_rgba(img: &Bitmap, x: u32, y: u32, w: u32, h: u32) -> (r: Bitmap)
    requires
        img.wf(),
        x + w <= img.width,
        y + h <= img.height,
    ensures
        r.width == w,
        r.height == h,
        r.pixels@ == cropped(img.pixels@, img.width as int, x as int, y as int, w as int, h as int),
{
    let src = image::RgbaImage::from_raw(img.width, img.height, img.pixels.clone()).unwrap();
    let out = image::imageops::crop_imm(&src, x, y, w, h).to_image();
    Bitmap { width: out.width(), height: out.height(), pixels: out.into_raw() }
}

/// Decodes an encoded image (PNG) into RGBA8 pixels. An image without pixels
/// is refused.
pub fn decode_image(bytes: &[u8]) -> (r: Result<Bitmap, CodecError>)
    ensures
        match decode_outcome(bytes@) {
            Ok((w, h, p)) => r matches Ok(b) && b.wf() && b.width == w && b.height == h && b.pixels@
                == p,
            Err(e) => r matches Err(f) && f == e,
        },
{
    match decode_rgba(bytes) {
        Some(b) => {
            if b.width == 0 || b.height == 0 {
                Err(CodecError::ZeroArea)
            } else {
                Ok(b)
            }
        },
        None => Err(CodecError::Decode),
    }
}

/// Encodes an RGBA8 image as PNG.
pub fn encode_image(img: &Bitmap) -> (r: Result<Vec<u8>, CodecError>)
    ensures
        bytes_of(r) == encode_outcome(img.width, img.height, img.pixels@),
{
    encode_pixels(img.width, img.height, &img.pixels)
}

/// Encodes `width` x `height` RGBA8 pixels as PNG.
#[verifier::spinoff_prover]
pub fn encode_pixels(width: u32, height: u32, pixels: &Vec<u8>) -> (r: Result<Vec<u8>, CodecError>)
    ensures
        bytes_of(r) == encode_outcome(width, height, pixels@),
{
    if width == 0 || height == 0 {
        return Err(CodecError::ZeroArea);
    }
    let w = width as usize;
    let h = height as usize;
    let len = pixels.len();
    match w.checked_mul(4) {
        Some(row) => match row.checked_mul(h) {
            Some(total) => {
                if len != total {
                    return Err(CodecError::LengthMismatch);
                }
            },
            None => {
                assert(len != 4 * width * height) by (nonlinear_arith)
                    requires
                        row * h > usize::MAX,
                        row == 4 * width,
                        h == height,
                        len <= usize::MAX,
                ;
                return Err(CodecError::LengthMismatch);
            },
        },
        None => {
            assert(len != 4 * width * height) by (nonlinear_arith)
                requires
                    4 * w > usize::MAX,
                    w == width,
                    h == height,
                    h >= 1,
                    len <= usize::MAX,
            ;
            return Err(CodecError::LengthMismatch);
        },
    }
    match encode_rgba(width, height, pixels) {
        Some(v) => Ok(v),
        None => Err(CodecError::Encode),
    }
}

/// Copies the `w` x `h` rectangle at column `x`, row `y` out of `img`.
pub fn crop_bitmap(img: &Bitmap, x: u32, y: u32, w: u32, h: u32) -> (r: Bitmap)
    requires
        img.wf(),
        x + w <= img.width,
        y + h <= img.height,
    ensures
        r.wf(),
        r.width == w,
        r.height == h,
        r.pixels@ == cropped(img.pixels@, img.width as int, x as int, y as int, w as int, h as int),
{
    crop_rgba(img, x, y, w, h)
}

} // verus!
