use vstd::prelude::*;
use crate::pad::{optimize_image, pad_model};
use crate::pixels::{PixelBuffer, RasterModel};
use crate::resize::{resize_image, resized_model};
use crate::trim::{clean_image, lemma_trim_dims, trim_model};

verus! {

/// The longer of the two dimensions.
pub open spec fn long_edge(m: RasterModel) -> int {
    if m.width >= m.height {
        m.width
    } else {
        m.height
    }
}

/// What the optional downsizing step produces: a raster whose longer edge
/// exceeds the bound is downscaled to it; anything else (including an image
/// with an empty axis, which cannot be resampled) is left unchanged. Images
/// are never upscaled.
pub open spec fn downsize_model(m: RasterModel, max_size: int) -> RasterModel {
    if max_size >= 2 && m.width >= 1 && m.height >= 1 && long_edge(m) > max_size {
        resized_model(m, max_size)
    } else {
        m
    }
}

/// The whole per-file transformation: trim, optionally downsize to
/// `max_size - 2` (reserving room for the padding step's one-pixel margins),
/// then pad both dimensions up to multiples of four.
pub open spec fn pipeline_model(m: RasterModel, downsize: bool, max_size: int) -> RasterModel {
    let t = trim_model(m);
    let d = if downsize {
        downsize_model(t, max_size - 2)
    } else {
        t
    };
    pad_model(d)
}

/// Downscales the image when its longer edge exceeds `max_size`; never
/// upscales.
fn downsize_image(image: PixelBuffer, max_size: u32) -> (r: PixelBuffer)
    requires
        image.wf(),
        4 * max_size * max_size <= usize::MAX,
        16 * image.width * max_size <= usize::MAX,
    ensures
        r.wf(),
        r@ == downsize_model(image@, max_size as int),
        (r@.width <= image@.width && r@.height <= image@.height) || (r@.width <= max_size as int
            && r@.height <= max_size as int),
{
    if image.width < 1 || image.height < 1 {
        return image;
    }
    if max_size < 2 {
        return image;
    }
    let current_max = if image.width >= image.height {
        image.width
    } else {
        image.height
    };
    if current_max <= max_size {
        return image;
    }
    resize_image(image, max_size)
}

/// Applies the per-file transformation: trim the transparent border, then
/// (when `downsize` is set) downscale so the padded result can stay within
/// `max_size`, then pad both dimensions up to multiples of four.
pub fn process_image(image: PixelBuffer, downsize: bool, max_size: Option<u32>) -> (r: PixelBuffer)
    requires
        image.wf(),
        downsize ==> max_size.is_some() && max_size.unwrap() >= 2,
        image.width + 5 <= u32::MAX,
        image.height + 5 <= u32::MAX,
        4 * (image.width + 5) * (image.height + 5) <= usize::MAX,
        downsize ==> max_size.unwrap() + 5 <= u32::MAX,
        downsize ==> 4 * (max_size.unwrap() + 5) * (max_size.unwrap() + 5) <= usize::MAX,
        downsize ==> 16 * image.width * max_size.unwrap() <= usize::MAX,
    ensures
        r.wf(),
        r@ == pipeline_model(
            image@,
            downsize,
            match max_size {
                Some(v) => v as int,
                None => 0,
            },
        ),
        r.width % 4 == 0,
        r.height % 4 == 0,
{
    let ghost m = image@;
    let ghost w = image@.width;
    let ghost h = image@.height;
    proof {
        lemma_trim_dims(m);
    }
    let mut working = clean_image(image);

    if downsize {
        let ms = max_size.unwrap();
        let effective = ms - 2;
        proof {
            assert(4 * (effective as int) * (effective as int) <= usize::MAX) by (nonlinear_arith)
                requires
                    0 <= effective <= ms,
                    4 * (ms as int + 5) * (ms as int + 5) <= usize::MAX,
            ;
            assert(16 * working@.width * (effective as int) <= usize::MAX) by (nonlinear_arith)
                requires
                    0 <= working@.width <= w,
                    0 <= effective <= ms,
                    16 * w * (ms as int) <= usize::MAX,
            ;
        }
        working = downsize_image(working, effective);
        proof {
            assert(working@.width + 5 <= u32::MAX && working@.height + 5 <= u32::MAX && 4 * (
            working@.width + 5) * (working@.height + 5) <= usize::MAX) by (nonlinear_arith)
                requires
                    0 <= working@.width,
                    0 <= working@.height,
                    (working@.width <= w && working@.height <= h) || (working@.width <= ms
                        && working@.height <= ms),
                    w + 5 <= u32::MAX,
                    h + 5 <= u32::MAX,
                    ms + 5 <= u32::MAX,
                    4 * (w + 5) * (h + 5) <= usize::MAX,
                    4 * (ms as int + 5) * (ms as int + 5) <= usize::MAX,
            ;
        }
    } else {
        proof {
            assert(4 * (working@.width + 5) * (working@.height + 5) <= 4 * (w + 5) * (h + 5))
                by (nonlinear_arith)
                requires
                    0 <= working@.width <= w,
                    0 <= working@.height <= h,
            ;
        }
    }

    optimize_image(working)
}

} // verus!
