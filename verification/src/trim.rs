use vstd::prelude::*;
use crate::padding::Padding;
use crate::pixels::{
    PixelBuffer, RasterModel, byte_index, lemma_pix_bound, lemma_pix_components, pix,
};
use crate::scan::{
    bottom_border, bottom_border_from, count_empty_padding, good_of, is_image_good,
    is_padding_zero, left_border, lemma_borders_strict, lemma_bottom_border_props,
    lemma_left_border_props, lemma_right_border_props, lemma_top_border_props, measured,
    right_border, right_border_from, top_border, zero_of,
};

verus! {

/// Byte sequence of the sub-rectangle of `m` that starts at column `left`,
/// row `top` and spans `nw` x `nh` pixels.
pub open spec fn crop_data(m: RasterModel, left: int, top: int, nw: int, nh: int) -> Seq<u8> {
    Seq::new(
        (4 * nw * nh) as nat,
        |i: int|
            {
                let y = i / (4 * nw);
                let x = (i % (4 * nw)) / 4;
                let c = (i % (4 * nw)) % 4;
                m.data[pix(m.width, x + left, y + top, c)]
            },
    )
}

/// The sub-rectangle of `m` starting at (left, top) and spanning `nw` x `nh`.
pub open spec fn crop_model(m: RasterModel, left: int, top: int, nw: int, nh: int) -> RasterModel {
    RasterModel { width: nw, height: nh, data: crop_data(m, left, top, nw, nh) }
}

/// What trimming produces: the input itself when it is already good, when
/// there is no transparent border, or when the image is entirely transparent
/// (so no non-empty crop rectangle exists); otherwise the measured border is
/// cropped away completely.
pub open spec fn trim_model(m: RasterModel) -> RasterModel {
    if good_of(m) || zero_of(m) || left_border(m) >= m.width {
        m
    } else {
        crop_model(
            m,
            left_border(m),
            top_border(m),
            m.width - left_border(m) - right_border(m),
            m.height - top_border(m) - bottom_border(m),
        )
    }
}

/// A raster already in the good state is returned untouched by the trimmer.
pub proof fn lemma_trim_good_identity(m: RasterModel)
    requires
        good_of(m),
    ensures
        trim_model(m) == m,
{
}

/// Trimming is idempotent on its own output once that output carries no
/// transparent border.
pub proof fn lemma_trim_idempotent(m: RasterModel)
    requires
        zero_of(trim_model(m)),
    ensures
        trim_model(trim_model(m)) == trim_model(m),
{
}

/// A pixel of the crop is the corresponding pixel of the source, shifted by
/// the crop offset.
proof fn lemma_crop_alpha(m: RasterModel, left: int, top: int, nw: int, nh: int, x: int, y: int)
    requires
        crate::pixels::model_wf(m),
        0 <= left,
        0 <= top,
        1 <= nw,
        1 <= nh,
        left + nw <= m.width,
        top + nh <= m.height,
        0 <= x < nw,
        0 <= y < nh,
    ensures
        crate::pixels::alpha_of(crop_model(m, left, top, nw, nh), x, y) == crate::pixels::alpha_of(
            m,
            x + left,
            y + top,
        ),
{
    lemma_pix_bound(nw, nh, x, y, 3);
    lemma_pix_components(nw, x, y, 3);
}

/// Trimming removes the measured transparent border completely: whenever the
/// trimmer crops at all, the measured border of its output is zero on every
/// edge. (When it does not crop, the image comes back unchanged.)
pub proof fn lemma_trim_removes_border(m: RasterModel)
    requires
        crate::pixels::model_wf(m),
    ensures
        trim_model(m) == m || zero_of(trim_model(m)),
{
    if !(good_of(m) || zero_of(m) || left_border(m) >= m.width) {
        lemma_borders_strict(m);
        lemma_top_border_props(m);
        lemma_bottom_border_props(m);
        lemma_left_border_props(m);
        lemma_right_border_props(m);
        let lb = left_border(m);
        let rb = right_border(m);
        let tb = top_border(m);
        let bb = bottom_border(m);
        let nw = m.width - lb - rb;
        let nh = m.height - tb - bb;
        let c = crop_model(m, lb, tb, nw, nh);
        assert(c == trim_model(m));

        // the borders themselves are inside the image: otherwise every pixel
        // would be transparent and the whole image would count as left border
        assert(tb < m.height) by {
            if tb == m.height {
                assert(crate::scan::col_empty(m, lb)) by {
                    assert forall|y: int|
                        0 <= y < m.height implies crate::pixels::alpha_of(m, lb, y) == 0 by {
                        assert(crate::scan::row_empty(m, y));
                    }
                }
            }
        }

        // each edge row or column of the crop keeps a content pixel of the
        // source edge row or column, so no border remains
        assert(!crate::scan::row_empty(c, 0)) by {
            let x0 = choose|x: int| 0 <= x < m.width && crate::pixels::alpha_of(m, x, tb) != 0;
            assert(0 <= x0 < m.width && crate::pixels::alpha_of(m, x0, tb) != 0);
            assert(lb <= x0) by {
                if x0 < lb {
                    assert(crate::scan::col_empty(m, x0));
                }
            }
            assert(x0 < m.width - rb) by {
                if x0 >= m.width - rb {
                    assert(crate::scan::col_empty(m, x0));
                }
            }
            lemma_crop_alpha(m, lb, tb, nw, nh, x0 - lb, 0);
        }
        assert(top_border(c) == 0);

        assert(!crate::scan::row_empty(c, nh - 1)) by {
            let ys = m.height - bb - 1;
            assert(!crate::scan::row_empty(m, ys));
            let x1 = choose|x: int| 0 <= x < m.width && crate::pixels::alpha_of(m, x, ys) != 0;
            assert(0 <= x1 < m.width && crate::pixels::alpha_of(m, x1, ys) != 0);
            assert(lb <= x1) by {
                if x1 < lb {
                    assert(crate::scan::col_empty(m, x1));
                }
            }
            assert(x1 < m.width - rb) by {
                if x1 >= m.width - rb {
                    assert(crate::scan::col_empty(m, x1));
                }
            }
            lemma_crop_alpha(m, lb, tb, nw, nh, x1 - lb, nh - 1);
        }
        assert(bottom_border(c) == 0) by {
            assert(bottom_border_from(c, nh) == c.height - nh);
        }

        assert(!crate::scan::col_empty(c, 0)) by {
            let y0 = choose|y: int| 0 <= y < m.height && crate::pixels::alpha_of(m, lb, y) != 0;
            assert(0 <= y0 < m.height && crate::pixels::alpha_of(m, lb, y0) != 0);
            assert(tb <= y0) by {
                if y0 < tb {
                    assert(crate::scan::row_empty(m, y0));
                }
            }
            assert(y0 < m.height - bb) by {
                if y0 >= m.height - bb {
                    assert(crate::scan::row_empty(m, y0));
                }
            }
            lemma_crop_alpha(m, lb, tb, nw, nh, 0, y0 - tb);
        }
        assert(left_border(c) == 0);

        assert(!crate::scan::col_empty(c, nw - 1)) by {
            let xs = m.width - rb - 1;
            assert(!crate::scan::col_empty(m, xs));
            let y1 = choose|y: int| 0 <= y < m.height && crate::pixels::alpha_of(m, xs, y) != 0;
            assert(0 <= y1 < m.height && crate::pixels::alpha_of(m, xs, y1) != 0);
            assert(tb <= y1) by {
                if y1 < tb {
                    assert(crate::scan::row_empty(m, y1));
                }
            }
            assert(y1 < m.height - bb) by {
                if y1 >= m.height - bb {
                    assert(crate::scan::row_empty(m, y1));
                }
            }
            lemma_crop_alpha(m, lb, tb, nw, nh, nw - 1, y1 - tb);
        }
        assert(right_border(c) == 0) by {
            assert(right_border_from(c, nw) == c.width - nw);
        }
    }
}

/// Trimming never grows the image, and its output is a well-formed raster.
pub proof fn lemma_trim_dims(m: RasterModel)
    requires
        crate::pixels::model_wf(m),
    ensures
        crate::pixels::model_wf(trim_model(m)),
        0 <= trim_model(m).width <= m.width,
        0 <= trim_model(m).height <= m.height,
{
    if !(good_of(m) || zero_of(m) || left_border(m) >= m.width) {
        lemma_borders_strict(m);
        lemma_top_border_props(m);
        lemma_bottom_border_props(m);
        lemma_left_border_props(m);
        lemma_right_border_props(m);
        let nw = m.width - left_border(m) - right_border(m);
        let nh = m.height - top_border(m) - bottom_border(m);
        assert(trim_model(m).data.len() == 4 * nw * nh);
    }
}

/// Crops the measured transparent border away completely.
#[verifier::loop_isolation(false)]
fn clean(image: PixelBuffer, empty: &Padding) -> (r: PixelBuffer)
    requires
        image.wf(),
        measured(image@, *empty),
        !good_of(image@),
        !zero_of(image@),
        left_border(image@) < image@.width,
    ensures
        r.wf(),
        r@ == trim_model(image@),
{
    proof {
        lemma_borders_strict(image@);
        lemma_top_border_props(image@);
        lemma_bottom_border_props(image@);
        lemma_left_border_props(image@);
        lemma_right_border_props(image@);
    }
    let target_width: u32 = image.width - empty.left - empty.right;
    let target_height: u32 = image.height - empty.top - empty.bottom;
    let ghost m = image@;
    let ghost tw = target_width as int;
    let ghost th = target_height as int;
    let ghost lb = left_border(m);
    let ghost tb = top_border(m);

    let mut data: Vec<u8> = Vec::new();
    let mut y: u32 = 0;
    while y < target_height
        invariant
            y <= target_height,
            data@.len() == 4 * ((y as int) * tw),
            forall|j: int| 0 <= j < data@.len() ==> data@[j] == crop_data(m, lb, tb, tw, th)[j],
        decreases target_height - y,
    {
        let mut x: u32 = 0;
        while x < target_width
            invariant
                y < target_height,
                x <= target_width,
                data@.len() == 4 * ((y as int) * tw + x as int),
                forall|j: int| 0 <= j < data@.len() ==> data@[j] == crop_data(m, lb, tb, tw, th)[j],
            decreases target_width - x,
        {
            let mut c: u32 = 0;
            while c < 4
                invariant
                    y < target_height,
                    x < target_width,
                    c <= 4,
                    data@.len() == 4 * ((y as int) * tw + x as int) + c as int,
                    forall|j: int| 0 <= j < data@.len() ==> data@[j] == crop_data(m, lb, tb, tw, th)[j],
                decreases 4 - c,
            {
                let src: usize = byte_index(&image, empty.left + x, empty.top + y, c);
                proof {
                    lemma_pix_bound(tw, th, x as int, y as int, c as int);
                    lemma_pix_components(tw, x as int, y as int, c as int);
                }
                data.push(image.data[src]);
                c += 1;
            }
            x += 1;
            proof {
                assert((y as int) * tw + (x as int - 1) + 1 == (y as int) * tw + x as int);
            }
        }
        y += 1;
        proof {
            assert((y as int) * tw == (y as int - 1) * tw + tw) by (nonlinear_arith);
        }
    }
    proof {
        assert(4 * (th * tw) == 4 * tw * th) by (nonlinear_arith);
        assert(data@ =~= crop_data(m, lb, tb, tw, th));
    }
    PixelBuffer { width: target_width, height: target_height, data }
}

/// Trims the transparent border: an image that is already good, has no
/// border, or is entirely transparent is returned unchanged; otherwise the
/// border is cropped away.
pub fn clean_image(image: PixelBuffer) -> (r: PixelBuffer)
    requires
        image.wf(),
    ensures
        r.wf(),
        r@ == trim_model(image@),
        good_of(image@) ==> r@ == image@,
{
    let empty = count_empty_padding(&image);
    if is_image_good(&image, &empty) {
        return image;
    }
    if is_padding_zero(&empty) {
        return image;
    }
    if empty.left >= image.width {
        return image;
    }
    clean(image, &empty)
}

} // verus!
