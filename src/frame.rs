//! Luminance frames: a row-major buffer of 8-bit samples with its dimensions.
use vstd::prelude::*;

verus! {

/// An 8-bit luminance image stored row by row.
#[derive(Debug, Clone)]
pub struct LumaFrame {
    pub width: u32,
    pub height: u32,
    pub pixels: Vec<u8>,
}

impl LumaFrame {
    /// The buffer holds exactly one sample per pixel, and every pixel has
    /// an index.
    pub open spec fn wf(&self) -> bool {
        &&& self.pixels@.len() == self.width * self.height
        &&& self.pixels@.len() <= usize::MAX
    }

    /// Sample at column `x`, row `y`.
    pub open spec fn pixel_at(&self, x: int, y: int) -> u8 {
        self.pixels@[y * self.width + x]
    }

    /// A black frame of the given size.
    pub fn new(width: u32, height: u32) -> (r: LumaFrame)
        requires
            width * height <= usize::MAX,
        ensures
            r.wf(),
            r.width == width,
            r.height == height,
            forall|i: int| 0 <= i < r.pixels@.len() ==> r.pixels@[i] == 0u8,
    {
        let n: usize = width as usize * height as usize;
        let pixels = vec![0u8; n];
        LumaFrame { width, height, pixels }
    }

    /// Wraps a row-major buffer; `None` unless it holds exactly
    /// `width * height` samples.
    pub fn from_raw(width: u32, height: u32, pixels: Vec<u8>) -> (r: Option<LumaFrame>)
        ensures
            r.is_some() <==> pixels@.len() == width * height,
            r.is_some() ==> r->Some_0.wf(),
            r.is_some() ==> r->Some_0.width == width && r->Some_0.height == height
                && r->Some_0.pixels@ == pixels@,
    {
        proof {
            vstd::arithmetic::mul::lemma_mul_upper_bound(
                width as int,
                u32::MAX as int,
                height as int,
                u32::MAX as int,
            );
        }
        let area: u64 = width as u64 * height as u64;
        if pixels.len() as u64 == area {
            assert(pixels@.len() <= usize::MAX);
            Some(LumaFrame { width, height, pixels })
        } else {
            None
        }
    }
}

} // verus!
