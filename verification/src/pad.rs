use vstd::prelude::*;
use vstd::arithmetic::div_mod::lemma_add_mod_noop;
use crate::padding::Padding;
use crate::pixels::{
    PixelBuffer, RasterModel, byte_index, lemma_pix_bound, lemma_pix_components, pix,
};
use crate::scan::{
    bottom_border, count_empty_padding, left_border, measured, right_border, top_border,
};

verus! {

/// Seed padding for one edge: one pixel of margin wherever the measured
/// border is exactly zero.
pub open spec fn seed(border: int) -> int {
    if border == 0 {
        1
    } else {
        0
    }
}

/// Extra padding the balancing table puts on the leading (left or top) edge,
/// by the remainder of the seeded dimension modulo four.
pub open spec fn extra_lead(rem: int) -> int {
    if rem == 1 {
        1
    } else if rem == 2 {
        1
    } else {
        0
    }
}

/// Extra padding the balancing table puts on the trailing (right or bottom)
/// edge, by the remainder of the seeded dimension modulo four.
pub open spec fn extra_trail(rem: int) -> int {
    if rem == 1 {
        2
    } else if rem == 2 {
        1
    } else if rem == 3 {
        1
    } else {
        0
    }
}

/// Applied padding on the left edge.
pub open spec fn pad_left(m: RasterModel) -> int {
    seed(left_border(m)) + extra_lead(
        (m.width + seed(left_border(m)) + seed(right_border(m))) % 4,
    )
}

/// Applied padding on the right edge.
pub open spec fn pad_right(m: RasterModel) -> int {
    seed(right_border(m)) + extra_trail(
        (m.width + seed(left_border(m)) + seed(right_border(m))) % 4,
    )
}

/// Applied padding on the top edge.
pub open spec fn pad_top(m: RasterModel) -> int {
    seed(top_border(m)) + extra_lead(
        (m.height + seed(top_border(m)) + seed(bottom_border(m))) % 4,
    )
}

/// Applied padding on the bottom edge.
pub open spec fn pad_bottom(m: RasterModel) -> int {
    seed(bottom_border(m)) + extra_trail(
        (m.height + seed(top_border(m)) + seed(bottom_border(m))) % 4,
    )
}

/// Byte sequence of `m` blitted at offset (left, top) into a fully
/// transparent raster of `nw` x `nh` pixels.
pub open spec fn blit_data(m: RasterModel, left: int, top: int, nw: int, nh: int) -> Seq<u8> {
    Seq::new(
        (4 * nw * nh) as nat,
        |i: int|
            {
                let y = i / (4 * nw);
                let x = (i % (4 * nw)) / 4;
                let c = (i % (4 * nw)) % 4;
                if left <= x < left + m.width && top <= y < top + m.height {
                    m.data[pix(m.width, x - left, y - top, c)]
                } else {
                    0u8
                }
            },
    )
}

/// The raster `m` surrounded by `left`/`right`/`top`/`bottom` transparent
/// pixels of padding.
pub open spec fn padded_model(m: RasterModel, p: Padding) -> RasterModel {
    RasterModel {
        width: m.width + p.left + p.right,
        height: m.height + p.top + p.bottom,
        data: blit_data(
            m,
            p.left as int,
            p.top as int,
            m.width + p.left + p.right,
            m.height + p.top + p.bottom,
        ),
    }
}

/// What the padding balancer produces: the seeded and balanced padding
/// applied around the input.
pub open spec fn pad_model(m: RasterModel) -> RasterModel {
    RasterModel {
        width: m.width + pad_left(m) + pad_right(m),
        height: m.height + pad_top(m) + pad_bottom(m),
        data: blit_data(
            m,
            pad_left(m),
            pad_top(m),
            m.width + pad_left(m) + pad_right(m),
            m.height + pad_top(m) + pad_bottom(m),
        ),
    }
}

/// The balancing table always lands the padded length on a multiple of four.
pub proof fn lemma_balanced(s: int)
    requires
        s >= 0,
    ensures
        (s + extra_lead(s % 4) + extra_trail(s % 4)) % 4 == 0,
{
    vstd::arithmetic::div_mod::lemma_mod_bound(s, 4);
    let e = extra_lead(s % 4) + extra_trail(s % 4);
    lemma_add_mod_noop(s, e, 4);
    vstd::arithmetic::div_mod::lemma_mod_self_0(4);
    vstd::arithmetic::div_mod::lemma_small_mod(0nat, 4nat);
    assert((s % 4 + e % 4) % 4 == 0) by {
        if s % 4 == 1 {
            assert(e == 3);
            assert((1int + 3int) % 4 == 0);
        } else if s % 4 == 2 {
            assert((2int + 2int) % 4 == 0);
        } else if s % 4 == 3 {
            assert((3int + 1int) % 4 == 0);
        } else {
            assert((0int + 0int) % 4 == 0);
        }
    }
}

/// Both dimensions of the balanced result are multiples of four.
pub proof fn lemma_pad_multiple_of_4(m: RasterModel)
    requires
        m.width >= 0,
        m.height >= 0,
    ensures
        pad_model(m).width % 4 == 0,
        pad_model(m).height % 4 == 0,
{
    lemma_balanced(m.width + seed(left_border(m)) + seed(right_border(m)));
    lemma_balanced(m.height + seed(top_border(m)) + seed(bottom_border(m)));
}

/// Blits `image` at the padding's offset into a larger, fully transparent
/// raster.
#[verifier::loop_isolation(false)]
fn add_padding(image: &PixelBuffer, padding: &Padding) -> (r: PixelBuffer)
    requires
        image.wf(),
        image.width + padding.left + padding.right <= u32::MAX,
        image.height + padding.top + padding.bottom <= u32::MAX,
        4 * (image.width + padding.left + padding.right) * (image.height + padding.top
            + padding.bottom) <= usize::MAX,
    ensures
        r.wf(),
        r@ == padded_model(image@, *padding),
{
    let width: u32 = image.width + padding.left + padding.right;
    let height: u32 = image.height + padding.top + padding.bottom;
    let right_index: u32 = padding.left + image.width;
    let bottom_index: u32 = padding.top + image.height;
    let ghost m = image@;
    let ghost nw = width as int;
    let ghost nh = height as int;
    let ghost l = padding.left as int;
    let ghost t = padding.top as int;

    let mut data: Vec<u8> = Vec::new();
    let mut y: u32 = 0;
    while y < height
        invariant
            y <= height,
            data@.len() == 4 * ((y as int) * nw),
            forall|j: int| 0 <= j < data@.len() ==> data@[j] == blit_data(m, l, t, nw, nh)[j],
        decreases height - y,
    {
        let mut x: u32 = 0;
        while x < width
            invariant
                y < height,
                x <= width,
                data@.len() == 4 * ((y as int) * nw + x as int),
                forall|j: int| 0 <= j < data@.len() ==> data@[j] == blit_data(m, l, t, nw, nh)[j],
            decreases width - x,
        {
            let inside = x >= padding.left && x < right_index && y >= padding.top
                && y < bottom_index;
            let mut c: u32 = 0;
            while c < 4
                invariant
                    y < height,
                    x < width,
                    c <= 4,
                    inside == (l <= x as int && (x as int) < l + m.width && t <= y as int
                        && (y as int) < t + m.height),
                    data@.len() == 4 * ((y as int) * nw + x as int) + c as int,
                    forall|j: int|
                        0 <= j < data@.len() ==> data@[j] == blit_data(m, l, t, nw, nh)[j],
                decreases 4 - c,
            {
                proof {
                    lemma_pix_bound(nw, nh, x as int, y as int, c as int);
                    lemma_pix_components(nw, x as int, y as int, c as int);
                }
                if inside {
                    let src: usize = byte_index(image, x - padding.left, y - padding.top, c);
                    data.push(image.data[src]);
                } else {
                    data.push(0u8);
                }
                c += 1;
            }
            x += 1;
        }
        y += 1;
        proof {
            assert((y as int) * nw == (y as int - 1) * nw + nw) by (nonlinear_arith);
        }
    }
    proof {
        assert(4 * (nh * nw) == 4 * nw * nh) by (nonlinear_arith);
        assert(data@ =~= blit_data(m, l, t, nw, nh));
    }
    PixelBuffer { width, height, data }
}

/// Pads the image to dimensions divisible by four: a one-pixel margin is
/// seeded on every edge whose measured border is zero, then the balancing
/// table tops both axes up to the next multiple of four.
pub fn optimize_image(image: PixelBuffer) -> (r: PixelBuffer)
    requires
        image.wf(),
        image.width + 5 <= u32::MAX,
        image.height + 5 <= u32::MAX,
        4 * (image.width + 5) * (image.height + 5) <= usize::MAX,
    ensures
        r.wf(),
        r@ == pad_model(image@),
        r.width % 4 == 0,
        r.height % 4 == 0,
{
    let mut padding = Padding::new(0, 0, 0, 0);
    let empty = count_empty_padding(&image);

    padding.left += if empty.left == 0 { 1 } else { 0 };
    padding.right += if empty.right == 0 { 1 } else { 0 };
    padding.top += if empty.top == 0 { 1 } else { 0 };
    padding.bottom += if empty.bottom == 0 { 1 } else { 0 };

    match (image.width + padding.left + padding.right) % 4 {
        1 => {
            padding.left += 1;
            padding.right += 2;
        },
        2 => {
            padding.left += 1;
            padding.right += 1;
        },
        3 => {
            padding.right += 1;
        },
        _ => {},
    }

    match (image.height + padding.top + padding.bottom) % 4 {
        1 => {
            padding.top += 1;
            padding.bottom += 2;
        },
        2 => {
            padding.top += 1;
            padding.bottom += 1;
        },
        3 => {
            padding.bottom += 1;
        },
        _ => {},
    }

    proof {
        assert(padding.left == pad_left(image@));
        assert(padding.right == pad_right(image@));
        assert(padding.top == pad_top(image@));
        assert(padding.bottom == pad_bottom(image@));
        lemma_pad_multiple_of_4(image@);
        assert(4 * (image@.width + padding.left + padding.right) * (image@.height + padding.top
            + padding.bottom) <= 4 * (image@.width + 5) * (image@.height + 5)) by (nonlinear_arith)
            requires
                image@.width >= 0,
                image@.height >= 0,
                0 <= padding.left + padding.right <= 5,
                0 <= padding.top + padding.bottom <= 5,
        ;
    }
    add_padding(&image, &padding)
}

} // verus!
