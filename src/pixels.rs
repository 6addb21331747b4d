//! Conversion between tightly packed RGBA8 rows and the stride-aligned
//! B,G,R,A rows of a drawing surface.
use vstd::arithmetic::div_mod::{lemma_fundamental_div_mod, lemma_fundamental_div_mod_converse};
use vstd::prelude::*;

verus! {

/// Why a pixel buffer could not be converted.
#[derive(Clone, Copy, PartialEq, Eq, Structural, Debug)]
pub enum PixelError {
    /// The width or the height is zero.
    ZeroArea,
    /// The buffer does not hold the number of bytes its dimensions call for.
    LengthMismatch,
    /// A surface row is shorter than four bytes per pixel.
    StrideTooSmall,
    /// The converted buffer would not fit in memory.
    TooLarge,
}

/// Position of a channel after swapping red and blue (RGBA <-> BGRA).
pub open spec fn channel_swap(c: int) -> int {
    if c == 0 {
        2
    } else if c == 2 {
        0
    } else {
        c
    }
}

/// Byte `i` of the surface built from `rgba`: each row holds `width` pixels in
/// B,G,R,A order and is zero-filled from `4 * width` up to `stride`.
pub open spec fn surface_byte(rgba: Seq<u8>, width: int, stride: int, i: int) -> u8 {
    let row = i / stride;
    let col = i % stride;
    if col < 4 * width {
        rgba[row * (4 * width) + col - col % 4 + channel_swap(col % 4)]
    } else {
        0
    }
}

/// The surface that holds the tightly packed RGBA image `rgba`.
pub open spec fn surface_of(rgba: Seq<u8>, width: int, height: int, stride: int) -> Seq<u8> {
    Seq::new((stride * height) as nat, |i: int| surface_byte(rgba, width, stride, i))
}

/// Byte `j` of the tightly packed RGBA image read from a B,G,R,A surface; the
/// row padding beyond `4 * width` is left out.
pub open spec fn rgba_byte(surface: Seq<u8>, width: int, stride: int, j: int) -> u8 {
    let row = j / (4 * width);
    let col = j % (4 * width);
    surface[row * stride + col - col % 4 + channel_swap(col % 4)]
}

/// The tightly packed RGBA image that the surface `surface` shows.
pub open spec fn rgba_of(surface: Seq<u8>, width: int, height: int, stride: int) -> Seq<u8> {
    Seq::new((4 * width * height) as nat, |j: int| rgba_byte(surface, width, stride, j))
}

/// The error, if any, of converting an RGBA buffer of `len` bytes to a surface.
pub open spec fn surface_error(len: int, width: int, height: int, stride: int) -> Option<PixelError> {
    if width == 0 || height == 0 {
        Some(PixelError::ZeroArea)
    } else if len != 4 * width * height {
        Some(PixelError::LengthMismatch)
    } else if stride < 4 * width {
        Some(PixelError::StrideTooSmall)
    } else if stride * height > usize::MAX {
        Some(PixelError::TooLarge)
    } else {
        None
    }
}

/// The error, if any, of reading a surface of `len` bytes back as RGBA.
pub open spec fn rgba_error(len: int, width: int, height: int, stride: int) -> Option<PixelError> {
    if width == 0 || height == 0 {
        Some(PixelError::ZeroArea)
    } else if stride < 4 * width {
        Some(PixelError::StrideTooSmall)
    } else if len != stride * height {
        Some(PixelError::LengthMismatch)
    } else {
        None
    }
}

proof fn lemma_row_col(row: int, col: int, stride: int)
    requires
        0 <= col < stride,
    ensures
        (row * stride + col) / stride == row,
        (row * stride + col) % stride == col,
{
    lemma_fundamental_div_mod_converse(row * stride + col, stride, row, col);
}

#[verifier::spinoff_prover]
proof fn lemma_in_row(row: int, col: int, width: int, height: int)
    requires
        0 <= row < height,
        0 <= col < 4 * width,
    ensures
        0 <= row * (4 * width) + col - col % 4 + channel_swap(col % 4) < 4 * width * height,
        col - col % 4 + channel_swap(col % 4) < 4 * width,
{
    assert(col - col % 4 + channel_swap(col % 4) < 4 * width) by {
        assert(col % 4 <= col);
        assert((col - col % 4) % 4 == 0) by {
            lemma_fundamental_div_mod_converse(col - col % 4, 4, col / 4, 0);
        }
        assert(col - col % 4 + 4 <= 4 * width) by {
            lemma_fundamental_div_mod_converse(col - col % 4, 4, col / 4, 0);
            assert(col / 4 < width);
        }
    }
    assert(row * (4 * width) + 4 * width <= 4 * width * height) by (nonlinear_arith)
        requires
            row < height,
            width >= 0,
    ;
}

/// Laying an RGBA image out as a surface and reading the surface back gives
/// the image again, byte for byte, whatever the row padding.
#[verifier::spinoff_prover]
pub proof fn lemma_surface_round_trip(rgba: Seq<u8>, width: int, height: int, stride: int)
    requires
        width > 0,
        height > 0,
        stride >= 4 * width,
        rgba.len() == 4 * width * height,
    ensures
        rgba_of(surface_of(rgba, width, height, stride), width, height, stride) == rgba,
{
    let surface = surface_of(rgba, width, height, stride);
    let back = rgba_of(surface, width, height, stride);
    assert forall|j: int| 0 <= j < rgba.len() implies back[j] == rgba[j] by {
        let row = j / (4 * width);
        let col = j % (4 * width);
        let c = col % 4;
        let col2 = col - c + channel_swap(c);
        lemma_fundamental_div_mod(j, 4 * width);
        assert(j == row * (4 * width) + col) by (nonlinear_arith)
            requires
                j == (4 * width) * row + col,
        ;
        assert(0 <= col < 4 * width);
        assert(0 <= row < height) by (nonlinear_arith)
            requires
                j == row * (4 * width) + col,
                0 <= col < 4 * width,
                0 <= j < 4 * width * height,
                width > 0,
        ;
        lemma_in_row(row, col, width, height);
        lemma_row_col(row, col2, stride);
        assert(row * stride + col2 < stride * height) by (nonlinear_arith)
            requires
                0 <= row < height,
                0 <= col2 < stride,
        ;
        lemma_fundamental_div_mod_converse(col, 4, col / 4, c);
        lemma_fundamental_div_mod_converse(col2, 4, col / 4, channel_swap(c));
        assert(surface[row * stride + col2] == rgba[row * (4 * width) + col]);
    }
    assert(back =~= rgba);
}

fn swap_index(c: usize) -> (r: usize)
    requires
        c < 4,
    ensures
        r == channel_swap(c as int),
{
    if c == 0 {
        2
    } else if c == 2 {
        0
    } else {
        c
    }
}

/// Lays a tightly packed RGBA8 image out as a drawing surface: rows of `stride`
/// bytes, pixels in B,G,R,A order, padding zero-filled. Colours stay straight
/// (not premultiplied).
#[verifier::spinoff_prover]
pub fn rgba_to_surface(rgba: &[u8], width: usize, height: usize, stride: usize) -> (r: Result<
    Vec<u8>,
    PixelError,
>)
    ensures
        match surface_error(rgba@.len() as int, width as int, height as int, stride as int) {
            Some(e) => r == Err::<Vec<u8>, PixelError>(e),
            None => r matches Ok(v) && v@ == surface_of(
                rgba@,
                width as int,
                height as int,
                stride as int,
            ),
        },
{
    let len = rgba.len();
    if width == 0 || height == 0 {
        return Err(PixelError::ZeroArea);
    }
    let row_bytes = match width.checked_mul(4) {
        Some(n) => n,
        None => {
            assert(len != 4 * width * height) by (nonlinear_arith)
                requires
                    4 * width > usize::MAX,
                    height >= 1,
                    len <= usize::MAX,
            ;
            return Err(PixelError::LengthMismatch);
        },
    };
    let total = match row_bytes.checked_mul(height) {
        Some(n) => n,
        None => return Err(PixelError::LengthMismatch),
    };
    if len != total {
        return Err(PixelError::LengthMismatch);
    }
    if stride < row_bytes {
        return Err(PixelError::StrideTooSmall);
    }
    let size = match stride.checked_mul(height) {
        Some(n) => n,
        None => return Err(PixelError::TooLarge),
    };
    let ghost w = width as int;
    let ghost s = stride as int;
    let mut out: Vec<u8> = Vec::with_capacity(size);
    let mut y: usize = 0;
    while y < height
        invariant
            0 < width,
            w == width,
            s == stride,
            row_bytes == 4 * width,
            rgba@.len() == 4 * width * height,
            len == 4 * width * height,
            4 * width <= stride,
            size == stride * height,
            y <= height,
            out@.len() == y * stride,
            forall|i: int| 0 <= i < out@.len() ==> out@[i] == surface_byte(rgba@, w, s, i),
        decreases height - y,
    {
        assert(y * stride + stride <= stride * height) by (nonlinear_arith)
            requires
                y < height,
                stride >= 0,
        ;
        assert(y * (4 * width) + 4 * width <= 4 * width * height) by (nonlinear_arith)
            requires
                y < height,
                width >= 0,
        ;
        let mut k: usize = 0;
        while k < stride
            invariant
                0 < width,
                w == width,
                s == stride,
                row_bytes == 4 * width,
                rgba@.len() == 4 * width * height,
                len == 4 * width * height,
                4 * width <= stride,
                y < height,
                y * (4 * width) + 4 * width <= 4 * width * height,
                k <= stride,
                y * stride + stride <= stride * height,
                size == stride * height,
                out@.len() == y * stride + k,
                forall|i: int| 0 <= i < out@.len() ==> out@[i] == surface_byte(rgba@, w, s, i),
            decreases stride - k,
        {
            proof {
                lemma_row_col(y as int, k as int, s);
            }
            if k < row_bytes {
                proof {
                    lemma_in_row(y as int, k as int, w, height as int);
                }
                let c = k % 4;
                assert(y * row_bytes == y * (4 * width));
                let src = y * row_bytes + (k - c) + swap_index(c);
                out.push(rgba[src]);
            } else {
                out.push(0);
            }
            k += 1;
        }
        assert(y * stride + stride == (y + 1) * stride) by (nonlinear_arith);
        y += 1;
    }
    assert(height * stride == stride * height) by (nonlinear_arith);
    assert(out@ =~= surface_of(rgba@, w, height as int, s));
    Ok(out)
}

/// Reads a drawing surface (rows of `stride` bytes, pixels in B,G,R,A order)
/// back as a tightly packed RGBA8 image, leaving the row padding out.
#[verifier::spinoff_prover]
pub fn surface_to_rgba(surface: &[u8], width: usize, height: usize, stride: usize) -> (r: Result<
    Vec<u8>,
    PixelError,
>)
    ensures
        match rgba_error(surface@.len() as int, width as int, height as int, stride as int) {
            Some(e) => r == Err::<Vec<u8>, PixelError>(e),
            None => r matches Ok(v) && v@ == rgba_of(
                surface@,
                width as int,
                height as int,
                stride as int,
            ),
        },
{
    let len = surface.len();
    if width == 0 || height == 0 {
        return Err(PixelError::ZeroArea);
    }
    let row_bytes = match width.checked_mul(4) {
        Some(n) => n,
        None => return Err(PixelError::StrideTooSmall),
    };
    if stride < row_bytes {
        return Err(PixelError::StrideTooSmall);
    }
    let size = match stride.checked_mul(height) {
        Some(n) => n,
        None => return Err(PixelError::LengthMismatch),
    };
    if len != size {
        return Err(PixelError::LengthMismatch);
    }
    let ghost w = width as int;
    let ghost s = stride as int;
    assert(4 * width * height <= stride * height) by (nonlinear_arith)
        requires
            4 * width <= stride,
    ;
    let mut out: Vec<u8> = Vec::new();
    let mut y: usize = 0;
    while y < height
        invariant
            0 < width,
            w == width,
            s == stride,
            row_bytes == 4 * width,
            4 * width <= stride,
            surface@.len() == stride * height,
            len == stride * height,
            4 * width * height <= stride * height,
            y <= height,
            out@.len() == y * (4 * width),
            forall|j: int| 0 <= j < out@.len() ==> out@[j] == rgba_byte(surface@, w, s, j),
        decreases height - y,
    {
        assert(y * stride + stride <= stride * height) by (nonlinear_arith)
            requires
                y < height,
                stride >= 0,
        ;
        assert(y * (4 * width) + 4 * width <= 4 * width * height) by (nonlinear_arith)
            requires
                y < height,
                width >= 0,
        ;
        let mut k: usize = 0;
        while k < row_bytes
            invariant
                0 < width,
                w == width,
                s == stride,
                row_bytes == 4 * width,
                4 * width <= stride,
                surface@.len() == stride * height,
            len == stride * height,
                y < height,
                k <= row_bytes,
                y * stride + stride <= stride * height,
                y * (4 * width) + 4 * width <= 4 * width * height,
                4 * width * height <= stride * height,
                out@.len() == y * (4 * width) + k,
                forall|j: int| 0 <= j < out@.len() ==> out@[j] == rgba_byte(surface@, w, s, j),
            decreases row_bytes - k,
        {
            proof {
                lemma_row_col(y as int, k as int, 4 * w);
                lemma_in_row(y as int, k as int, w, height as int);
            }
            let c = k % 4;
            assert(y * stride + (k - k % 4) + channel_swap((k % 4) as int) < stride * height);
            let src = y * stride + (k - c) + swap_index(c);
            out.push(surface[src]);
            k += 1;
        }
        assert(y * (4 * width) + 4 * width == (y + 1) * (4 * width)) by (nonlinear_arith);
        y += 1;
    }
    assert(height * (4 * width) == 4 * width * height) by (nonlinear_arith);
    assert(out@ =~= rgba_of(surface@, w, height as int, s));
    Ok(out)
}

/// The RGBA bytes read from whole four-byte B,G,R,A groups; a trailing group
/// of fewer than four bytes is dropped.
pub open spec fn bgra_groups_to_rgba(data: Seq<u8>) -> Seq<u8> {
    Seq::new((4 * (data.len() / 4)) as nat, |j: int| data[j - j % 4 + channel_swap(j % 4)])
}

/// Reorders each whole four-byte group of `data` from B,G,R,A to R,G,B,A.
#[verifier::spinoff_prover]
pub fn bgra_to_rgba(data: &[u8]) -> (r: Vec<u8>)
    ensures
        r@ == bgra_groups_to_rgba(data@),
{
    let len = data.len();
    let groups = len / 4;
    let mut out: Vec<u8> = Vec::with_capacity(groups * 4);
    let mut g: usize = 0;
    while g < groups
        invariant
            groups == data@.len() / 4,
            groups == len / 4,
            len == data@.len(),
            g <= groups,
            out@.len() == 4 * g,
            forall|j: int|
                0 <= j < out@.len() ==> out@[j] == data@[j - j % 4 + channel_swap(j % 4)],
        decreases groups - g,
    {
        let base = 4 * g;
        out.push(data[base + 2]);
        out.push(data[base + 1]);
        out.push(data[base]);
        out.push(data[base + 3]);
        proof {
            assert forall|j: int| 4 * g <= j < 4 * g + 4 implies out@[j] == data@[j - j % 4
                + channel_swap(j % 4)] by {
                lemma_fundamental_div_mod_converse(j, 4, g as int, j - 4 * g);
            }
        }
        g += 1;
    }
    assert(out@ =~= bgra_groups_to_rgba(data@));
    out
}

} // verus!
