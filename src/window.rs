//! Window selection: which windows are offered for capture, how a grabbed
//! window image becomes a PNG file, and the backend that does the listing.
use crate::codec::{bytes_of, encode_outcome, encode_pixels};
use crate::pixels::{bgra_groups_to_rgba, bgra_to_rgba};
use vstd::prelude::*;

verus! {

/// A top-level window that can be captured.
#[derive(Clone, Debug)]
pub struct WindowInfo {
    pub id: u64,
    pub title: String,
    pub class: String,
    pub width: u32,
    pub height: u32,
    pub is_minimized: bool,
}

impl WindowInfo {
    /// A field-by-field copy.
    pub fn copy(&self) -> (r: WindowInfo)
        ensures
            r == *self,
    {
        WindowInfo {
            id: self.id,
            title: self.title.clone(),
            class: self.class.clone(),
            width: self.width,
            height: self.height,
            is_minimized: self.is_minimized,
        }
    }
}

/// Why windows could not be listed or captured.
#[derive(Clone, Copy, PartialEq, Eq, Structural, Debug)]
pub enum WindowError {
    /// Wayland compositors do not let a client list or grab other windows.
    WaylandUnsupported,
    /// No connection to an X server.
    X11Unavailable,
    /// The X server returned pixels of a depth other than 24 or 32 bits.
    UnsupportedDepth,
    /// The window image holds fewer bytes than its size calls for.
    BufferMismatch,
    /// The window image could not be encoded.
    Encode,
}

/// The display server backend that lists and captures windows.
#[derive(Clone, Copy, PartialEq, Eq, Structural, Debug)]
pub enum WindowBackend {
    X11,
    Wayland,
}

/// A window is offered for capture when it has a title, is not minimized and
/// is more than 50 pixels wide and high.
pub open spec fn capturable(w: WindowInfo) -> bool {
    w.title@.len() > 0 && !w.is_minimized && w.width > 50 && w.height > 50
}

pub fn is_capturable(w: &WindowInfo) -> (r: bool)
    ensures
        r == capturable(*w),
{
    !w.title.as_str().is_empty() && !w.is_minimized && w.width > 50 && w.height > 50
}

/// The windows of `windows` that are offered for capture, in their order.
#[verifier::spinoff_prover]
pub fn filter_capturable(windows: Vec<WindowInfo>) -> (r: Vec<WindowInfo>)
    ensures
        r@ == windows@.filter(|w: WindowInfo| capturable(w)),
{
    let mut out: Vec<WindowInfo> = Vec::new();
    let mut i: usize = 0;
    while i < windows.len()
        invariant
            i <= windows@.len(),
            out@ == windows@.subrange(0, i as int).filter(|w: WindowInfo| capturable(w)),
        decreases windows@.len() - i,
    {
        let w = &windows[i];
        proof {
            let pred = |w: WindowInfo| capturable(w);
            let next = windows@.subrange(0, i + 1);
            assert(next.drop_last() =~= windows@.subrange(0, i as int));
            reveal(Seq::filter);
            assert(next.filter(pred) == if pred(next.last()) {
                next.drop_last().filter(pred).push(next.last())
            } else {
                next.drop_last().filter(pred)
            });
        }
        if is_capturable(w) {
            out.push(w.copy());
        }
        i += 1;
    }
    assert(windows@.subrange(0, i as int) =~= windows@);
    out
}

/// The error, if any, of turning a window image into a PNG file.
pub open spec fn x11_image_error(len: int, width: int, height: int, depth: int) -> Option<
    WindowError,
> {
    if depth != 24 && depth != 32 {
        Some(WindowError::UnsupportedDepth)
    } else if 4 * (len / 4) < 4 * width * height {
        Some(WindowError::BufferMismatch)
    } else {
        None
    }
}

/// Turns a window image grabbed from the X server (`width` x `height`, four
/// bytes per pixel in B,G,R,A order; the alpha byte is kept as it is) into a
/// PNG file. Bytes beyond the image are ignored.
#[verifier::spinoff_prover]
pub fn convert_x11_image_to_png(data: &[u8], width: u32, height: u32, depth: u8) -> (r: Result<
    Vec<u8>,
    WindowError,
>)
    ensures
        match x11_image_error(data@.len() as int, width as int, height as int, depth as int) {
            Some(e) => r == Err::<Vec<u8>, WindowError>(e),
            None => {
                let pixels = bgra_groups_to_rgba(data@).subrange(0, 4 * width * height);
                bytes_of(r) == match encode_outcome(width, height, pixels) {
                    Ok(v) => Ok::<Seq<u8>, WindowError>(v),
                    Err(_) => Err(WindowError::Encode),
                }
            },
        },
{
    if depth != 24 && depth != 32 {
        return Err(WindowError::UnsupportedDepth);
    }
    let mut rgba = bgra_to_rgba(data);
    let len = rgba.len();
    assert((width as u128) * 4 * (height as u128) <= 0x4_0000_0000 * 0x1_0000_0000) by (
    nonlinear_arith);
    let needed = (width as u128) * 4 * (height as u128);
    if (len as u128) < needed {
        return Err(WindowError::BufferMismatch);
    }
    let total = needed as usize;
    rgba.truncate(total);
    assert(rgba@ =~= bgra_groups_to_rgba(data@).subrange(0, 4 * width * height));
    match encode_pixels(width, height, &rgba) {
        Ok(v) => Ok(v),
        Err(_) => Err(WindowError::Encode),
    }
}

/// Window listing and capture on Wayland, where compositors give clients no
/// access to other windows: every operation reports `WaylandUnsupported`.
pub struct WaylandWindowManager {}

impl WaylandWindowManager {
    pub fn new() -> (r: Result<WaylandWindowManager, WindowError>)
        ensures
            r matches Err(e) && e == WindowError::WaylandUnsupported,
    {
        Err(WindowError::WaylandUnsupported)
    }

    pub fn list_windows(&self) -> (r: Result<Vec<WindowInfo>, WindowError>)
        ensures
            r matches Err(e) && e == WindowError::WaylandUnsupported,
    {
        Err(WindowError::WaylandUnsupported)
    }

    pub fn capture_window(&self, window_id: u64) -> (r: Result<Vec<u8>, WindowError>)
        ensures
            r matches Err(e) && e == WindowError::WaylandUnsupported,
    {
        Err(WindowError::WaylandUnsupported)
    }
}

/// The backend for a session: Wayland is tried in a Wayland session, and since
/// it cannot list windows the X server (XWayland included) is used instead.
pub fn select_backend(wayland_session: bool) -> (r: WindowBackend)
    ensures
        r == WindowBackend::X11,
{
    if wayland_session {
        match WaylandWindowManager::new() {
            Ok(_) => WindowBackend::Wayland,
            Err(_) => WindowBackend::X11,
        }
    } else {
        WindowBackend::X11
    }
}

} // verus!
