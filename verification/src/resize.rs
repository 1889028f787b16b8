use vstd::prelude::*;
use vstd::arithmetic::div_mod::{lemma_div_is_ordered, lemma_fundamental_div_mod_converse};
use crate::pixels::{PixelBuffer, RasterModel};

verus! {

/// The byte sequence that the resampling filter produces for the given input
/// raster and target dimensions. The filter is deterministic, so the result
/// is a function of these arguments alone; its exact values are not modelled.
pub uninterp spec fn resampled(
    data: Seq<u8>,
    width: int,
    height: int,
    new_width: int,
    new_height: int,
) -> Seq<u8>;

/// Relies on image::imageops::resize with the CatmullRom filter: it resamples
/// the raster to exactly `new_width` x `new_height` RGBA pixels, and its
/// output depends only on the input raster and the dimensions. The size
/// bounds keep its allocations (including the crate's intermediate raster of
/// sixteen bytes per pixel) within a vector's capacity, so the call cannot
/// panic.
#[verifier::external_body]
fn resample(data: &Vec<u8>, width: u32, height: u32, new_width: u32, new_height: u32) -> (r: Vec<
    u8,
>)
    requires
        data@.len() == 4 * width * height,
        width >= 1,
        height >= 1,
        new_width >= 1,
        new_height >= 1,
        4 * new_width * new_height <= usize::MAX,
        16 * width * new_height <= usize::MAX,
    ensures
        r@.len() == 4 * new_width * new_height,
        r@ == resampled(data@, width as int, height as int, new_width as int, new_height as int),
{
    let buffer = image::RgbaImage::from_raw(width, height, data.clone()).unwrap();
    let out = image::imageops::resize(
        &buffer,
        new_width,
        new_height,
        image::imageops::FilterType::CatmullRom,
    );
    out.into_raw()
}

/// Ceiling of `a / b` for positive `b` and non-negative `a`.
pub open spec fn ceil_div(a: int, b: int) -> int {
    (a + b - 1) / b
}

/// Width after an aspect-preserving downscale whose longer edge becomes
/// `max_size`: the shorter axis is scaled by the same ratio, rounded up, and
/// clamped to at least two pixels.
pub open spec fn resize_width(w: int, h: int, max_size: int) -> int {
    if w >= h {
        max_size
    } else {
        let q = ceil_div(max_size * w, h);
        if q >= 2 {
            q
        } else {
            2
        }
    }
}

/// Height after an aspect-preserving downscale whose longer edge becomes
/// `max_size`.
pub open spec fn resize_height(w: int, h: int, max_size: int) -> int {
    if w > h {
        let q = ceil_div(max_size * h, w);
        if q >= 2 {
            q
        } else {
            2
        }
    } else {
        max_size
    }
}

/// The raster `m` resampled so that its longer edge is `max_size`.
pub open spec fn resized_model(m: RasterModel, max_size: int) -> RasterModel {
    let rw = resize_width(m.width, m.height, max_size);
    let rh = resize_height(m.width, m.height, max_size);
    RasterModel { width: rw, height: rh, data: resampled(m.data, m.width, m.height, rw, rh) }
}

/// The scaled shorter axis never exceeds the longer edge's target.
proof fn lemma_ceil_div_bounded(ms: int, s: int, g: int)
    requires
        ms >= 2,
        1 <= s <= g,
    ensures
        1 <= ceil_div(ms * s, g) <= ms,
{
    let num = ms * s + g - 1;
    assert(num >= g) by (nonlinear_arith)
        requires
            ms >= 2,
            s >= 1,
            g >= 1,
            num == ms * s + g - 1,
    ;
    lemma_div_is_ordered(g, num, g);
    assert(g / g == 1) by {
        lemma_fundamental_div_mod_converse(g, g, 1, 0);
    }
    assert(num <= (ms + 1) * g - 1) by (nonlinear_arith)
        requires
            s <= g,
            ms >= 0,
            g >= 1,
            num == ms * s + g - 1,
    ;
    lemma_div_is_ordered(num, (ms + 1) * g - 1, g);
    assert(((ms + 1) * g - 1) / g == ms) by {
        assert((ms + 1) * g - 1 == ms * g + (g - 1)) by (nonlinear_arith);
        lemma_fundamental_div_mod_converse((ms + 1) * g - 1, g, ms, g - 1);
    }
}

/// Aspect-ratio-preserving downscale to a maximum edge length: the longer
/// edge becomes exactly `max_size` and neither axis drops below two pixels.
pub fn resize_image(image: PixelBuffer, max_size: u32) -> (r: PixelBuffer)
    requires
        image.wf(),
        image.width >= 1,
        image.height >= 1,
        max_size >= 2,
        4 * max_size * max_size <= usize::MAX,
        16 * image.width * max_size <= usize::MAX,
    ensures
        r.wf(),
        r@ == resized_model(image@, max_size as int),
        2 <= r.width <= max_size,
        2 <= r.height <= max_size,
        (if r.width >= r.height {
            r.width
        } else {
            r.height
        }) == max_size,
{
    let w = image.width;
    let h = image.height;
    let new_width: u32;
    let new_height: u32;

    if w > h {
        new_width = max_size;
        new_height = scaled_axis(max_size, h, w);
    } else if w < h {
        new_width = scaled_axis(max_size, w, h);
        new_height = max_size;
    } else {
        new_width = max_size;
        new_height = max_size;
    }

    proof {
        assert(4 * (new_width as int) * (new_height as int) <= 4 * (max_size as int) * (
        max_size as int)) by (nonlinear_arith)
            requires
                0 <= new_width <= max_size,
                0 <= new_height <= max_size,
        ;
        assert(16 * (image@.width) * (new_height as int) <= 16 * (image@.width) * (
        max_size as int)) by (nonlinear_arith)
            requires
                image@.width >= 1,
                0 <= new_height <= max_size,
        ;
    }
    let data = resample(&image.data, w, h, new_width, new_height);
    PixelBuffer { width: new_width, height: new_height, data }
}

/// Shorter axis of the downscale: `max_size * s / g` rounded up, clamped to
/// at least two pixels.
fn scaled_axis(max_size: u32, s: u32, g: u32) -> (r: u32)
    requires
        max_size >= 2,
        1 <= s <= g,
    ensures
        r as int == ({
            let q = ceil_div(max_size as int * s as int, g as int);
            if q >= 2 {
                q
            } else {
                2
            }
        }),
        2 <= r <= max_size,
{
    proof {
        assert((max_size as int) * (s as int) + (g as int) <= u64::MAX) by (nonlinear_arith)
            requires
                max_size <= u32::MAX,
                s <= u32::MAX,
                g <= u32::MAX,
        ;
        lemma_ceil_div_bounded(max_size as int, s as int, g as int);
    }
    let num: u64 = (max_size as u64) * (s as u64) + (g as u64) - 1;
    let q: u64 = num / (g as u64);
    if q < 2 {
        2
    } else {
        q as u32
    }
}

} // verus!
