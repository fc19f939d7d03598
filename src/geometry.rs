//! Integer geometry of the tracking window: flat indices, crop placement and
//! the motion of the target center.
use vstd::prelude::*;
use vstd::arithmetic::div_mod::{
    lemma_div_multiples_vanish, lemma_fundamental_div_mod, lemma_fundamental_div_mod_converse,
};
use vstd::arithmetic::mul::{lemma_mul_nonnegative, lemma_mul_upper_bound};

use crate::frame::LumaFrame;

verus! {

/// Position (column, row) of a flat row-major index in a grid `width` wide.
pub open spec fn coords_of(width: int, index: int) -> (int, int) {
    (index % width, index / width)
}

/// Turns a flat row-major index into (column, row) coordinates.
pub fn index_to_coords(width: u32, index: u32) -> (r: (u32, u32))
    requires
        width > 0,
    ensures
        (r.0 as int, r.1 as int) == coords_of(width as int, index as int),
{
    let x: u32 = index % width;
    let ghost q = index as int / width as int;
    proof {
        lemma_fundamental_div_mod(index as int, width as int);
        lemma_mul_nonnegative(width as int, q);
        lemma_div_multiples_vanish(q, width as int);
    }
    let y: u32 = (index - x) / width;
    (x, y)
}

/// A flat row-major index of a square grid maps back to the column and row it
/// was built from: `index_to_coords(n, y * n + x) == (x, y)` for `x, y < n`.
pub proof fn lemma_index_coords_round_trip(n: int, x: int, y: int)
    requires
        0 <= x < n,
        0 <= y < n,
    ensures
        coords_of(n, y * n + x) == (x, y),
{
    lemma_fundamental_div_mod_converse(y * n + x, n, y, x);
}

/// `a - b`, or zero when `b` exceeds `a`.
pub open spec fn saturating_sub(a: int, b: int) -> int {
    if a >= b { a - b } else { 0 }
}

/// Start of the crop along one axis: the window is centered on `center`
/// and shifted back inside a frame `extent` samples long.
pub open spec fn crop_start(center: int, window: int, extent: int) -> int {
    let start = saturating_sub(center, window / 2);
    if start <= extent - window { start } else { extent - window }
}

/// `window` holds the `window_width` x `window_height` samples of `frame`
/// around `center`, placed as `window_crop` places them.
pub open spec fn is_crop_of(
    window: LumaFrame,
    frame: LumaFrame,
    window_width: int,
    window_height: int,
    center: (u32, u32),
) -> bool {
    &&& window.wf()
    &&& window.width == window_width
    &&& window.height == window_height
    &&& forall|col: int, row: int|
        0 <= col < window_width && 0 <= row < window_height ==> #[trigger] window.pixel_at(col, row)
            == frame.pixel_at(
            crop_start(center.0 as int, window_width, frame.width as int) + col,
            crop_start(center.1 as int, window_height, frame.height as int) + row,
        )
}

/// Index into `frame` of the `k`-th sample of a crop `window_width` wide that
/// starts at (`x0`, `y0`).
pub open spec fn crop_source(frame_width: int, window_width: int, x0: int, y0: int, k: int) -> int {
    (y0 + k / window_width) * frame_width + x0 + k % window_width
}

fn crop_start_exec(center: u32, window: u32, extent: u32) -> (r: u32)
    requires
        window <= extent,
    ensures
        r == crop_start(center as int, window as int, extent as int),
        r + window <= extent,
{
    let start = center.saturating_sub(window / 2);
    if start <= extent - window {
        start
    } else {
        extent - window
    }
}

/// Cuts the `window_width` x `window_height` window centered on `center`
/// out of `frame`. The top-left corner is clamped so that the window lies
/// inside the frame.
pub fn window_crop(frame: &LumaFrame, window_width: u32, window_height: u32, center: (u32, u32)) -> (r:
    LumaFrame)
    requires
        frame.wf(),
        0 < window_width <= frame.width,
        window_height <= frame.height,
    ensures
        is_crop_of(r, *frame, window_width as int, window_height as int, center),
{
    let x0 = crop_start_exec(center.0, window_width, frame.width);
    let y0 = crop_start_exec(center.1, window_height, frame.height);
    let fw = frame.width as usize;
    let ww = window_width as usize;
    let mut out: Vec<u8> = Vec::new();
    let mut row: usize = 0;
    while row < window_height as usize
        invariant
            frame.wf(),
            0 < ww == window_width <= frame.width == fw,
            window_height <= frame.height,
            x0 + ww <= fw,
            y0 + window_height <= frame.height,
            row <= window_height,
            out@.len() == row * ww,
            forall|k: int|
                0 <= k < out@.len() ==> #[trigger] out@[k] == frame.pixels@[crop_source(
                    fw as int,
                    ww as int,
                    x0 as int,
                    y0 as int,
                    k,
                )],
        decreases window_height - row,
    {
        let mut col: usize = 0;
        while col < ww
            invariant
                frame.wf(),
                0 < ww == window_width <= frame.width == fw,
                x0 + ww <= fw,
                y0 + window_height <= frame.height,
                row < window_height,
                col <= ww,
                out@.len() == row * ww + col,
                forall|k: int|
                    0 <= k < out@.len() ==> #[trigger] out@[k] == frame.pixels@[crop_source(
                        fw as int,
                        ww as int,
                        x0 as int,
                        y0 as int,
                        k,
                    )],
            decreases ww - col,
        {
            let y = y0 as usize + row;
            let x = x0 as usize + col;
            proof {
                assert(y < frame.height);
                assert(y * fw + x < fw * frame.height) by (nonlinear_arith)
                    requires
                        y < frame.height,
                        x < fw,
                ;

                lemma_fundamental_div_mod_converse((row * ww + col) as int, ww as int, row as int, col as int);
            }
            out.push(frame.pixels[y * fw + x]);
            col += 1;
        }
        row += 1;
        proof {
            assert(out@.len() == row * ww) by (nonlinear_arith)
                requires
                    out@.len() == (row - 1) * ww + ww,
            ;
        }
    }
    proof {
        assert(out@.len() == window_width * window_height) by (nonlinear_arith)
            requires
                out@.len() == row * ww,
                row == window_height,
                ww == window_width,
        ;
        lemma_mul_upper_bound(
            window_width as int,
            frame.width as int,
            window_height as int,
            frame.height as int,
        );
        assert forall|col: int, row: int|
            0 <= col < window_width && 0 <= row < window_height implies #[trigger] out@[row
                * window_width + col] == frame.pixel_at(x0 + col, y0 + row) by {
            lemma_fundamental_div_mod_converse(row * ww + col, ww as int, row, col);
            assert(row * ww + col < window_height * ww) by (nonlinear_arith)
                requires
                    row < window_height,
                    col < ww,
            ;
        }
    }
    LumaFrame { width: window_width, height: window_height, pixels: out }
}

/// `value` brought into `[lo, hi]`.
pub open spec fn clamp(value: int, lo: int, hi: int) -> int {
    if value > hi {
        hi
    } else if value < lo {
        lo
    } else {
        value
    }
}

/// New center coordinate along one axis after the response peak was found at
/// `peak` inside a window of size `window`: the center moves by the peak's
/// offset from the window's middle and stays at least half a window away from
/// both borders of a frame `extent` long.
pub open spec fn followed(center: int, peak: int, window: int, extent: int) -> int {
    clamp(center + (peak - window / 2), window / 2, extent - window / 2)
}

/// Why a tracking window cannot be set up, or a frame cannot be read with it.
#[derive(Debug, Clone, Copy, PartialEq, Eq, Structural)]
pub enum WindowError {
    /// The window size is zero.
    EmptyWindow,
    /// The window is wider than the frame.
    WiderThanFrame,
    /// The window is taller than the frame.
    TallerThanFrame,
    /// The window holds more samples than a 32-bit index can address.
    TooLarge,
    /// The frame does not have the dimensions the window was set up for.
    FrameSizeMismatch,
}

/// Where a single tracker looks: the frame dimensions it was set up for, its
/// square window and the current target center in frame pixels.
#[derive(Debug, Clone, Copy)]
pub struct TrackingWindow {
    pub frame_width: u32,
    pub frame_height: u32,
    pub window_size: u32,
    pub center: (u32, u32),
}

impl TrackingWindow {
    /// The window is non-empty, fits the frame, and its samples can be
    /// numbered with 32-bit indices.
    pub open spec fn wf(&self) -> bool {
        &&& 0 < self.window_size <= self.frame_width
        &&& self.window_size <= self.frame_height
        &&& self.window_size * self.window_size <= u32::MAX
    }

    /// The error `new` reports for these dimensions, if any.
    pub open spec fn setup_error(frame_width: u32, frame_height: u32, window_size: u32) -> Option<
        WindowError,
    > {
        if window_size == 0 {
            Some(WindowError::EmptyWindow)
        } else if window_size > frame_width {
            Some(WindowError::WiderThanFrame)
        } else if window_size > frame_height {
            Some(WindowError::TallerThanFrame)
        } else if window_size * window_size > u32::MAX {
            Some(WindowError::TooLarge)
        } else {
            None
        }
    }

    /// Sets up a window of `window_size` on frames of the given size, with the
    /// center at the (0, 0) placeholder until the tracker is trained.
    pub fn new(frame_width: u32, frame_height: u32, window_size: u32) -> (r: Result<
        TrackingWindow,
        WindowError,
    >)
        ensures
            match Self::setup_error(frame_width, frame_height, window_size) {
                Some(e) => r == Err::<TrackingWindow, WindowError>(e),
                None => r.is_ok() && r->Ok_0.wf() && r->Ok_0.frame_width == frame_width
                    && r->Ok_0.frame_height == frame_height && r->Ok_0.window_size == window_size
                    && r->Ok_0.center == (0u32, 0u32),
            },
    {
        if window_size == 0 {
            Err(WindowError::EmptyWindow)
        } else if window_size > frame_width {
            Err(WindowError::WiderThanFrame)
        } else if window_size > frame_height {
            Err(WindowError::TallerThanFrame)
        } else {
            proof {
                lemma_mul_upper_bound(
                    window_size as int,
                    u32::MAX as int,
                    window_size as int,
                    u32::MAX as int,
                );
            }
            if window_size as u64 * window_size as u64 > u32::MAX as u64 {
                Err(WindowError::TooLarge)
            } else {
                Ok(TrackingWindow { frame_width, frame_height, window_size, center: (0, 0) })
            }
        }
    }

    /// Number of samples in the window.
    pub open spec fn area(&self) -> int {
        self.window_size * self.window_size
    }

    /// Moves the target center to `center` as given, without clamping.
    pub fn place(&mut self, center: (u32, u32))
        ensures
            *final(self) == (TrackingWindow { center, ..*old(self) }),
    {
        self.center = center;
    }

    /// Cuts the window around the current center out of `frame`, which must
    /// have the dimensions the window was set up for.
    pub fn crop(&self, frame: &LumaFrame) -> (r: Result<LumaFrame, WindowError>)
        requires
            self.wf(),
            frame.wf(),
        ensures
            r.is_err() <==> frame.width != self.frame_width || frame.height != self.frame_height,
            r.is_err() ==> r == Err::<LumaFrame, WindowError>(WindowError::FrameSizeMismatch),
            r.is_ok() ==> is_crop_of(
                r->Ok_0,
                *frame,
                self.window_size as int,
                self.window_size as int,
                self.center,
            ),
    {
        if frame.width != self.frame_width || frame.height != self.frame_height {
            Err(WindowError::FrameSizeMismatch)
        } else {
            Ok(window_crop(frame, self.window_size, self.window_size, self.center))
        }
    }

    /// Moves the center after the response peak was found at flat index
    /// `peak_index` of the window, and returns the peak's (column, row) in the
    /// window.
    pub fn follow_peak(&mut self, peak_index: u32) -> (peak: (u32, u32))
        requires
            old(self).wf(),
            peak_index < old(self).area(),
        ensures
            (peak.0 as int, peak.1 as int) == coords_of(old(self).window_size as int, peak_index as int),
            final(self).wf(),
            final(self).frame_width == old(self).frame_width,
            final(self).frame_height == old(self).frame_height,
            final(self).window_size == old(self).window_size,
            final(self).center.0 == followed(
                old(self).center.0 as int,
                peak.0 as int,
                old(self).window_size as int,
                old(self).frame_width as int,
            ),
            final(self).center.1 == followed(
                old(self).center.1 as int,
                peak.1 as int,
                old(self).window_size as int,
                old(self).frame_height as int,
            ),
    {
        let peak = index_to_coords(self.window_size, peak_index);
        let n = self.window_size;
        let x = follow_axis(self.center.0, peak.0, n, self.frame_width);
        let y = follow_axis(self.center.1, peak.1, n, self.frame_height);
        self.center = (x, y);
        peak
    }
}

fn follow_axis(center: u32, peak: u32, window: u32, extent: u32) -> (r: u32)
    requires
        0 < window <= extent,
    ensures
        r == followed(center as int, peak as int, window as int, extent as int),
{
    let half = (window / 2) as i64;
    let shifted = center as i64 + (peak as i64 - half);
    let hi = extent as i64 - half;
    if shifted > hi {
        hi as u32
    } else if shifted < half {
        half as u32
    } else {
        shifted as u32
    }
}

/// Every center that `follow_peak` produces keeps half a window of room to
/// each border of the frame.
pub proof fn lemma_followed_within_frame(center: int, peak: int, window: int, extent: int)
    requires
        0 < window <= extent,
    ensures
        window / 2 <= followed(center, peak, window, extent) <= extent - window / 2,
{
}

} // verus!
