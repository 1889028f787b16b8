use vstd::prelude::*;
use vstd::arithmetic::div_mod::lemma_fundamental_div_mod_converse;

verus! {

/// Mathematical model of an RGBA raster: its dimensions and the flat
/// row-major byte sequence, four bytes (red, green, blue, alpha) per pixel.
pub struct RasterModel {
    pub width: int,
    pub height: int,
    pub data: Seq<u8>,
}

/// In-memory RGBA raster, row-major, four bytes per pixel.
pub struct PixelBuffer {
    pub width: u32,
    pub height: u32,
    pub data: Vec<u8>,
}

impl View for PixelBuffer {
    type V = RasterModel;

    open spec fn view(&self) -> RasterModel {
        RasterModel {
            width: self.width as int,
            height: self.height as int,
            data: self.data@,
        }
    }
}

/// Flat index of channel `c` of the pixel at column `x`, row `y` in a raster
/// of width `w`.
pub open spec fn pix(w: int, x: int, y: int, c: int) -> int {
    4 * (y * w + x) + c
}

pub open spec fn model_wf(m: RasterModel) -> bool {
    &&& m.width >= 0
    &&& m.height >= 0
    &&& m.data.len() == 4 * m.width * m.height
}

/// Alpha channel of the pixel at column `x`, row `y`.
pub open spec fn alpha_of(m: RasterModel, x: int, y: int) -> u8 {
    m.data[pix(m.width, x, y, 3)]
}

impl PixelBuffer {
    pub open spec fn wf(self) -> bool {
        model_wf(self@)
    }

    /// Builds a buffer from raw row-major RGBA bytes; rejects a byte vector
    /// whose length does not match the dimensions.
    pub fn from_raw(width: u32, height: u32, data: Vec<u8>) -> (r: Option<PixelBuffer>)
        ensures
            match r {
                Some(b) => b.wf() && b.width == width && b.height == height && b.data@ == data@,
                None => data@.len() != 4 * width * height,
            },
    {
        proof {
            assert(4 * (width as int) * (height as int) <= u128::MAX) by (nonlinear_arith)
                requires
                    width <= u32::MAX,
                    height <= u32::MAX,
            ;
        }
        let need: u128 = 4u128 * (width as u128) * (height as u128);
        if (data.len() as u128) == need {
            Some(PixelBuffer { width, height, data })
        } else {
            None
        }
    }
}

/// Flat byte index of channel `c` of the pixel at (x, y), computed without
/// overflow: the buffer's own length bounds the result.
pub fn byte_index(image: &PixelBuffer, x: u32, y: u32, c: u32) -> (r: usize)
    requires
        image.wf(),
        x < image.width,
        y < image.height,
        c < 4,
    ensures
        r == pix(image@.width, x as int, y as int, c as int),
        r < image@.data.len(),
{
    let _len: usize = image.data.len();
    proof {
        lemma_pix_bound(image@.width, image@.height, x as int, y as int, c as int);
    }
    4 * ((y as usize) * (image.width as usize) + (x as usize)) + (c as usize)
}

/// A valid pixel coordinate yields a flat index inside the raster's byte
/// sequence.
pub proof fn lemma_pix_bound(w: int, h: int, x: int, y: int, c: int)
    by (nonlinear_arith)
    requires
        0 <= x < w,
        0 <= y < h,
        0 <= c < 4,
    ensures
        0 <= 4 * (y * w + x) + c < 4 * w * h,
        y * w + x < w * h,
{
}

/// Converse direction: the flat index of (x, y, c) divides back into the
/// same coordinates.
pub proof fn lemma_pix_components(w: int, x: int, y: int, c: int)
    requires
        w >= 1,
        0 <= x < w,
        0 <= y,
        0 <= c < 4,
    ensures
        pix(w, x, y, c) / (4 * w) == y,
        (pix(w, x, y, c) % (4 * w)) / 4 == x,
        (pix(w, x, y, c) % (4 * w)) % 4 == c,
{
    let i = pix(w, x, y, c);
    let r = 4 * x + c;
    assert(0 <= r < 4 * w);
    assert(i == y * (4 * w) + r) by (nonlinear_arith)
        requires
            i == 4 * (y * w + x) + c,
            r == 4 * x + c,
    ;
    lemma_fundamental_div_mod_converse(i, 4 * w, y, r);
    lemma_fundamental_div_mod_converse(r, 4, x, c);
}

} // verus!
