//! What the render and export driver needs from the library: the transform
//! that fits the image to the drawing area, and the encoding of a composited
//! surface.
use crate::codec::{bytes_of, encode_pixels, png_encodable, png_encoded};
use crate::pixels::{PixelError, rgba_error, rgba_of, surface_to_rgba};
use crate::viewport::fit_scale;
use vstd::prelude::*;

verus! {

/// Scale by `scale_num / scale_den`, then translate by
/// (`offset_x_num / offset_den`, `offset_y_num / offset_den`).
#[derive(Clone, Copy, PartialEq, Eq, Structural, Debug)]
pub struct ViewTransform {
    pub scale_num: u32,
    pub scale_den: u32,
    pub offset_x_num: i128,
    pub offset_y_num: i128,
    pub offset_den: u64,
}

/// Why a composited surface could not be exported.
#[derive(Clone, Copy, PartialEq, Eq, Structural, Debug)]
pub enum ExportError {
    /// The surface could not be read back as RGBA.
    Pixels(PixelError),
    /// The encoder refused the image.
    Encode,
}

/// The transform that draws an `img_w` x `img_h` image fitted and centred in
/// an `area_w` x `area_h` area: the same scale and offset that pointer
/// positions are mapped back through.
#[verifier::spinoff_prover]
pub fn view_transform(area_w: u32, area_h: u32, img_w: u32, img_h: u32) -> (r: ViewTransform)
    requires
        area_w > 0,
        area_h > 0,
        img_w > 0,
        img_h > 0,
    ensures
        ({
            let (num, den) = fit_scale(area_w as int, area_h as int, img_w as int, img_h as int);
            &&& r.scale_num == num
            &&& r.scale_den == den
            &&& r.offset_den == 2 * den
            &&& r.offset_x_num == area_w * den - img_w * num
            &&& r.offset_y_num == area_h * den - img_h * num
        }),
{
    assert((area_w as u64) * (img_h as u64) <= 0xffff_ffff * 0xffff_ffff) by (nonlinear_arith);
    assert((area_h as u64) * (img_w as u64) <= 0xffff_ffff * 0xffff_ffff) by (nonlinear_arith);
    let wide = (area_w as u64) * (img_h as u64) <= (area_h as u64) * (img_w as u64);
    let num = if wide { area_w } else { area_h };
    let den = if wide { img_w } else { img_h };
    assert(0 <= (area_w as i128) * (den as i128) <= 0xffff_ffff * 0xffff_ffff) by (nonlinear_arith);
    assert(0 <= (area_h as i128) * (den as i128) <= 0xffff_ffff * 0xffff_ffff) by (nonlinear_arith);
    assert(0 <= (img_w as i128) * (num as i128) <= 0xffff_ffff * 0xffff_ffff) by (nonlinear_arith);
    assert(0 <= (img_h as i128) * (num as i128) <= 0xffff_ffff * 0xffff_ffff) by (nonlinear_arith);
    ViewTransform {
        scale_num: num,
        scale_den: den,
        offset_x_num: (area_w as i128) * (den as i128) - (img_w as i128) * (num as i128),
        offset_y_num: (area_h as i128) * (den as i128) - (img_h as i128) * (num as i128),
        offset_den: 2 * (den as u64),
    }
}

/// Encodes a composited surface (`width` x `height`, rows of `stride` bytes in
/// B,G,R,A order) as a PNG file, leaving the row padding out.
#[verifier::spinoff_prover]
pub fn export_png(surface: &[u8], width: u32, height: u32, stride: usize) -> (r: Result<
    Vec<u8>,
    ExportError,
>)
    ensures
        match rgba_error(surface@.len() as int, width as int, height as int, stride as int) {
            Some(e) => r == Err::<Vec<u8>, ExportError>(ExportError::Pixels(e)),
            None => {
                let pixels = rgba_of(surface@, width as int, height as int, stride as int);
                bytes_of(r) == if png_encodable(width, height, pixels) {
                    Ok::<Seq<u8>, ExportError>(png_encoded(width, height, pixels))
                } else {
                    Err(ExportError::Encode)
                }
            },
        },
{
    let rgba = match surface_to_rgba(surface, width as usize, height as usize, stride) {
        Ok(v) => v,
        Err(e) => return Err(ExportError::Pixels(e)),
    };
    match encode_pixels(width, height, &rgba) {
        Ok(v) => Ok(v),
        Err(_) => Err(ExportError::Encode),
    }
}

} // verus!
