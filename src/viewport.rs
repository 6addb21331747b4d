//! The fit-to-area mapping between display space and image space.
//!
//! The image is scaled by `scale = min(area_w / img_w, area_h / img_h)` and
//! centred, leaving `offset = ((area_w - img_w * scale) / 2, (area_h - img_h *
//! scale) / 2)`. Coordinates are in 1/256-pixel units and sizes in pixels. All
//! of it is exact rational arithmetic; only the final image coordinate is
//! rounded down to a whole unit.
use crate::geometry::{Point, SUBPIXELS};
use vstd::arithmetic::div_mod::{lemma_fundamental_div_mod, lemma_fundamental_div_mod_converse};
use vstd::prelude::*;

verus! {

/// The scale as a fraction `(num, den)`: `num / den` display pixels per image
/// pixel.
pub open spec fn fit_scale(area_w: int, area_h: int, img_w: int, img_h: int) -> (int, int) {
    if area_w * img_h <= area_h * img_w {
        (area_w, img_w)
    } else {
        (area_h, img_h)
    }
}

/// The image coordinate, rounded down, of display coordinate `d` on an axis
/// where the area spans `area` display units and the image `img` units:
/// `(d - offset) / scale`, with `offset = (area - img * scale) / 2` and
/// `scale = num / den`.
pub open spec fn image_coord(d: int, area: int, img: int, num: int, den: int) -> int {
    (2 * d * den - area * den + img * num) / (2 * num)
}

/// Twice `den` times the display coordinate at which image coordinate `e`
/// is drawn: `e * scale + offset`, scaled to a whole number.
pub open spec fn display_coord_times(e: int, area: int, img: int, num: int, den: int) -> int {
    2 * e * num + area * den - img * num
}

/// The point of image space under display point (`dx`, `dy`), both in
/// 1/256-pixel units, for sizes in pixels.
pub open spec fn image_point(dx: int, dy: int, area_w: int, area_h: int, img_w: int, img_h: int) -> (
    int,
    int,
) {
    let (num, den) = fit_scale(area_w, area_h, img_w, img_h);
    (
        image_coord(dx, SUBPIXELS * area_w, SUBPIXELS * img_w, num, den),
        image_coord(dy, SUBPIXELS * area_h, SUBPIXELS * img_h, num, den),
    )
}

pub open spec fn fits_i32(v: int) -> bool {
    i32::MIN <= v <= i32::MAX
}

/// Mapping a display coordinate to image space and drawing it back through
/// the render transform lands on the coordinate or less than one image unit
/// (`scale / 256` display pixels) before it.
#[verifier::spinoff_prover]
pub proof fn lemma_display_round_trip(d: int, area: int, img: int, num: int, den: int)
    requires
        num > 0,
        den > 0,
    ensures
        2 * den * d - 2 * num < display_coord_times(
            image_coord(d, area, img, num, den),
            area,
            img,
            num,
            den,
        ) <= 2 * den * d,
{
    let x = 2 * d * den - area * den + img * num;
    let e = x / (2 * num);
    lemma_fundamental_div_mod(x, 2 * num);
    assert(0 <= x % (2 * num) < 2 * num);
    assert(2 * num * e <= x < 2 * num * e + 2 * num);
    assert(2 * e * num == 2 * num * e) by (nonlinear_arith);
    assert(2 * d * den == 2 * den * d) by (nonlinear_arith);
}

/// The same law for both axes of the fit-to-area mapping.
pub proof fn lemma_viewport_inverse(dx: int, dy: int, area_w: int, area_h: int, img_w: int, img_h: int)
    requires
        area_w > 0,
        area_h > 0,
        img_w > 0,
        img_h > 0,
    ensures
        ({
            let (num, den) = fit_scale(area_w, area_h, img_w, img_h);
            let (ix, iy) = image_point(dx, dy, area_w, area_h, img_w, img_h);
            &&& 2 * den * dx - 2 * num < display_coord_times(
                ix,
                SUBPIXELS * area_w,
                SUBPIXELS * img_w,
                num,
                den,
            ) <= 2 * den * dx
            &&& 2 * den * dy - 2 * num < display_coord_times(
                iy,
                SUBPIXELS * area_h,
                SUBPIXELS * img_h,
                num,
                den,
            ) <= 2 * den * dy
        }),
{
    let (num, den) = fit_scale(area_w, area_h, img_w, img_h);
    lemma_display_round_trip(dx, SUBPIXELS * area_w, SUBPIXELS * img_w, num, den);
    lemma_display_round_trip(dy, SUBPIXELS * area_h, SUBPIXELS * img_h, num, den);
}

/// `n / d` rounded down, for a positive `d`.
#[verifier::spinoff_prover]
fn floor_div(n: i128, d: i128) -> (r: i128)
    requires
        d > 0,
        -0x10000000000000000000000000 < n < 0x10000000000000000000000000,
        d < 0x10000000000000000000000000,
    ensures
        r == n as int / d as int,
{
    if n >= 0 {
        n / d
    } else {
        let m = -n;
        let q = (m + d - 1) / d;
        proof {
            lemma_fundamental_div_mod(n as int, d as int);
            let k = n as int / d as int;
            let rem = n as int % d as int;
            assert(m + d - 1 == d * (-k) + (d - 1 - rem)) by (nonlinear_arith)
                requires
                    n == d * k + rem,
                    m == -n,
            ;
            lemma_fundamental_div_mod_converse(m + d - 1, d as int, -k, d - 1 - rem);
        }
        -q
    }
}

#[verifier::spinoff_prover]
fn axis_to_image(d: i32, area: u32, img: u32, num: u32, den: u32) -> (r: i128)
    requires
        num > 0,
        den > 0,
    ensures
        r == image_coord(
            d as int,
            SUBPIXELS * area as int,
            SUBPIXELS * img as int,
            num as int,
            den as int,
        ),
{
    let d = d as i128;
    let area = area as i128 * SUBPIXELS as i128;
    let img = img as i128 * SUBPIXELS as i128;
    let num = num as i128;
    let den = den as i128;
    assert(-0x200000000000000000 <= 2 * d * den <= 0x200000000000000000) by (nonlinear_arith)
        requires
            -0x80000000 <= d <= 0x80000000,
            0 < den <= 0x100000000,
    ;
    assert(0 <= area * den <= 0x1000000000000000000) by (nonlinear_arith)
        requires
            0 <= area <= 0x10000000000,
            0 < den <= 0x100000000,
    ;
    assert(0 <= img * num <= 0x1000000000000000000) by (nonlinear_arith)
        requires
            0 <= img <= 0x10000000000,
            0 < num <= 0x100000000,
    ;
    let x = 2 * d * den - area * den + img * num;
    floor_div(x, 2 * num)
}

/// The point of image space under display point (`display_x`, `display_y`)
/// (1/256-pixel units) in an area of `area_w` x `area_h` display pixels showing
/// an image of `img_w` x `img_h` pixels fitted and centred; each coordinate is
/// the exact rational one rounded down to a whole unit. Points outside the
/// image map too, without clamping. `None` when a coordinate does not fit a
/// `Point`.
#[verifier::spinoff_prover]
pub fn to_image_space(
    display_x: i32,
    display_y: i32,
    area_w: u32,
    area_h: u32,
    img_w: u32,
    img_h: u32,
) -> (r: Option<Point>)
    requires
        area_w > 0,
        area_h > 0,
        img_w > 0,
        img_h > 0,
    ensures
        ({
            let (ix, iy) = image_point(
                display_x as int,
                display_y as int,
                area_w as int,
                area_h as int,
                img_w as int,
                img_h as int,
            );
            &&& fits_i32(ix) && fits_i32(iy) ==> r == Some(Point { x: ix as i32, y: iy as i32 })
            &&& !(fits_i32(ix) && fits_i32(iy)) ==> r is None
        }),
{
    assert((area_w as u64) * (img_h as u64) <= 0xffff_ffff * 0xffff_ffff) by (nonlinear_arith);
    assert((area_h as u64) * (img_w as u64) <= 0xffff_ffff * 0xffff_ffff) by (nonlinear_arith);
    let wide = (area_w as u64) * (img_h as u64) <= (area_h as u64) * (img_w as u64);
    let num = if wide { area_w } else { area_h };
    let den = if wide { img_w } else { img_h };
    let ix = axis_to_image(display_x, area_w, img_w, num, den);
    let iy = axis_to_image(display_y, area_h, img_h, num, den);
    if ix < i32::MIN as i128 || ix > i32::MAX as i128 || iy < i32::MIN as i128 || iy
        > i32::MAX as i128 {
        None
    } else {
        Some(Point { x: ix as i32, y: iy as i32 })
    }
}

} // verus!
