use vstd::prelude::*;
use crate::pixels::{PixelBuffer, RasterModel, alpha_of, byte_index, model_wf};
use crate::padding::Padding;

verus! {

/// A row is empty when every pixel in it is fully transparent.
pub open spec fn row_empty(m: RasterModel, y: int) -> bool {
    forall|x: int| 0 <= x < m.width ==> alpha_of(m, x, y) == 0
}

/// A column is empty when every pixel in it is fully transparent.
pub open spec fn col_empty(m: RasterModel, x: int) -> bool {
    forall|y: int| 0 <= y < m.height ==> alpha_of(m, x, y) == 0
}

/// Index of the first non-empty row at or below `y`, or the height if all
/// remaining rows are empty.
pub open spec fn top_border_from(m: RasterModel, y: int) -> int
    decreases m.height - y when 0 <= y <= m.height
{
    if y >= m.height {
        y
    } else if !row_empty(m, y) {
        y
    } else {
        top_border_from(m, y + 1)
    }
}

/// Number of consecutive empty rows scanning down from the top edge.
pub open spec fn top_border(m: RasterModel) -> int {
    top_border_from(m, 0)
}

/// Number of consecutive empty rows among the first `y` rows, scanning up
/// from row `y - 1`.
pub open spec fn bottom_border_from(m: RasterModel, y: int) -> int
    decreases y when 0 <= y <= m.height
{
    if y <= 0 {
        m.height
    } else if !row_empty(m, y - 1) {
        m.height - y
    } else {
        bottom_border_from(m, y - 1)
    }
}

/// Number of consecutive empty rows scanning up from the bottom edge.
pub open spec fn bottom_border(m: RasterModel) -> int {
    bottom_border_from(m, m.height)
}

/// Index of the first non-empty column at or right of `x`, or the width if
/// all remaining columns are empty.
pub open spec fn left_border_from(m: RasterModel, x: int) -> int
    decreases m.width - x when 0 <= x <= m.width
{
    if x >= m.width {
        x
    } else if !col_empty(m, x) {
        x
    } else {
        left_border_from(m, x + 1)
    }
}

/// Number of consecutive empty columns scanning right from the left edge.
pub open spec fn left_border(m: RasterModel) -> int {
    left_border_from(m, 0)
}

/// Number of consecutive empty columns among the first `x` columns, scanning
/// left from column `x - 1`.
pub open spec fn right_border_from(m: RasterModel, x: int) -> int
    decreases x when 0 <= x <= m.width
{
    if x <= 0 {
        m.width
    } else if !col_empty(m, x - 1) {
        m.width - x
    } else {
        right_border_from(m, x - 1)
    }
}

/// Number of consecutive empty columns scanning left from the right edge.
pub open spec fn right_border(m: RasterModel) -> int {
    right_border_from(m, m.width)
}

/// The measured border of `m` matches the four fields of `p`.
pub open spec fn measured(m: RasterModel, p: Padding) -> bool {
    &&& p.top == top_border(m)
    &&& p.bottom == bottom_border(m)
    &&& p.left == left_border(m)
    &&& p.right == right_border(m)
}

/// The "good" state: both dimensions are multiples of four and the measured
/// border on every edge lies in the inclusive range [1, 3].
pub open spec fn good_of(m: RasterModel) -> bool {
    &&& m.width % 4 == 0
    &&& m.height % 4 == 0
    &&& 1 <= top_border(m) <= 3
    &&& 1 <= bottom_border(m) <= 3
    &&& 1 <= left_border(m) <= 3
    &&& 1 <= right_border(m) <= 3
}

/// The "zero" state: the content touches all four edges, so there is nothing
/// to trim.
pub open spec fn zero_of(m: RasterModel) -> bool {
    &&& top_border(m) == 0
    &&& bottom_border(m) == 0
    &&& left_border(m) == 0
    &&& right_border(m) == 0
}

proof fn lemma_top_border_from_props(m: RasterModel, y: int)
    requires
        0 <= y <= m.height,
    ensures
        ({
            let t = top_border_from(m, y);
            &&& y <= t <= m.height
            &&& forall|j: int| y <= j < t ==> row_empty(m, j)
            &&& t < m.height ==> !row_empty(m, t)
        }),
    decreases m.height - y,
{
    if y < m.height && row_empty(m, y) {
        lemma_top_border_from_props(m, y + 1);
    }
}

/// The measured top border is within the image, the rows above it are empty,
/// and the row just below it (if any) is not.
pub proof fn lemma_top_border_props(m: RasterModel)
    requires
        m.height >= 0,
    ensures
        0 <= top_border(m) <= m.height,
        forall|j: int| 0 <= j < top_border(m) ==> row_empty(m, j),
        top_border(m) < m.height ==> !row_empty(m, top_border(m)),
{
    lemma_top_border_from_props(m, 0);
}

proof fn lemma_bottom_border_from_props(m: RasterModel, y: int)
    requires
        0 <= y <= m.height,
    ensures
        ({
            let b = bottom_border_from(m, y);
            &&& m.height - y <= b <= m.height
            &&& forall|j: int| m.height - b <= j < y ==> row_empty(m, j)
            &&& m.height - b > 0 ==> !row_empty(m, m.height - b - 1)
        }),
    decreases y,
{
    if y > 0 && row_empty(m, y - 1) {
        lemma_bottom_border_from_props(m, y - 1);
    }
}

/// The measured bottom border is within the image, the rows below it are
/// empty, and the row just above it (if any) is not.
pub proof fn lemma_bottom_border_props(m: RasterModel)
    requires
        m.height >= 0,
    ensures
        0 <= bottom_border(m) <= m.height,
        forall|j: int| m.height - bottom_border(m) <= j < m.height ==> row_empty(m, j),
        bottom_border(m) < m.height ==> !row_empty(m, m.height - bottom_border(m) - 1),
{
    lemma_bottom_border_from_props(m, m.height);
}

proof fn lemma_left_border_from_props(m: RasterModel, x: int)
    requires
        0 <= x <= m.width,
    ensures
        ({
            let l = left_border_from(m, x);
            &&& x <= l <= m.width
            &&& forall|j: int| x <= j < l ==> col_empty(m, j)
            &&& l < m.width ==> !col_empty(m, l)
        }),
    decreases m.width - x,
{
    if x < m.width && col_empty(m, x) {
        lemma_left_border_from_props(m, x + 1);
    }
}

/// The measured left border is within the image, the columns left of it are
/// empty, and the column just right of it (if any) is not.
pub proof fn lemma_left_border_props(m: RasterModel)
    requires
        m.width >= 0,
    ensures
        0 <= left_border(m) <= m.width,
        forall|j: int| 0 <= j < left_border(m) ==> col_empty(m, j),
        left_border(m) < m.width ==> !col_empty(m, left_border(m)),
{
    lemma_left_border_from_props(m, 0);
}

proof fn lemma_right_border_from_props(m: RasterModel, x: int)
    requires
        0 <= x <= m.width,
    ensures
        ({
            let r = right_border_from(m, x);
            &&& m.width - x <= r <= m.width
            &&& forall|j: int| m.width - r <= j < x ==> col_empty(m, j)
            &&& m.width - r > 0 ==> !col_empty(m, m.width - r - 1)
        }),
    decreases x,
{
    if x > 0 && col_empty(m, x - 1) {
        lemma_right_border_from_props(m, x - 1);
    }
}

/// The measured right border is within the image, the columns right of it
/// are empty, and the column just left of it (if any) is not.
pub proof fn lemma_right_border_props(m: RasterModel)
    requires
        m.width >= 0,
    ensures
        0 <= right_border(m) <= m.width,
        forall|j: int| m.width - right_border(m) <= j < m.width ==> col_empty(m, j),
        right_border(m) < m.width ==> !col_empty(m, m.width - right_border(m) - 1),
{
    lemma_right_border_from_props(m, m.width);
}

/// Unless the image is entirely transparent, the measured borders of the two
/// opposite edges never overlap: some row and some column carry content.
pub proof fn lemma_borders_strict(m: RasterModel)
    requires
        model_wf(m),
        left_border(m) < m.width,
    ensures
        left_border(m) + right_border(m) < m.width,
        top_border(m) + bottom_border(m) < m.height,
{
    lemma_top_border_props(m);
    lemma_bottom_border_props(m);
    lemma_left_border_props(m);
    lemma_right_border_props(m);
    let l = left_border(m);
    assert(!col_empty(m, l));
    let y0 = choose|y: int| 0 <= y < m.height && alpha_of(m, l, y) != 0;
    assert(0 <= y0 < m.height && alpha_of(m, l, y0) != 0);
    assert(l < m.width - right_border(m)) by {
        if l >= m.width - right_border(m) {
            assert(col_empty(m, l));
        }
    }
    assert(top_border(m) <= y0) by {
        if y0 < top_border(m) {
            assert(row_empty(m, y0));
        }
    }
    assert(y0 < m.height - bottom_border(m)) by {
        if y0 >= m.height - bottom_border(m) {
            assert(row_empty(m, y0));
        }
    }
}

fn is_row_empty(image: &PixelBuffer, row: u32) -> (r: bool)
    requires
        image.wf(),
        row < image.height,
    ensures
        r == row_empty(image@, row as int),
{
    let w = image.width;
    let mut x: u32 = 0;
    while x < w
        invariant
            image.wf(),
            row < image.height,
            w == image.width,
            x <= w,
            forall|i: int| 0 <= i < x ==> alpha_of(image@, i, row as int) == 0,
        decreases w - x,
    {
        let idx: usize = byte_index(image, x, row, 3);
        if image.data[idx] > 0 {
            assert(alpha_of(image@, x as int, row as int) != 0);
            return false;
        }
        x += 1;
    }
    true
}

fn is_column_empty(image: &PixelBuffer, column: u32) -> (r: bool)
    requires
        image.wf(),
        column < image.width,
    ensures
        r == col_empty(image@, column as int),
{
    let h = image.height;
    let mut y: u32 = 0;
    while y < h
        invariant
            image.wf(),
            column < image.width,
            h == image.height,
            y <= h,
            forall|i: int| 0 <= i < y ==> alpha_of(image@, column as int, i) == 0,
        decreases h - y,
    {
        let idx: usize = byte_index(image, column, y, 3);
        if image.data[idx] > 0 {
            assert(alpha_of(image@, column as int, y as int) != 0);
            return false;
        }
        y += 1;
    }
    true
}

pub fn count_top_empty_rows(image: &PixelBuffer) -> (r: u32)
    requires
        image.wf(),
    ensures
        r == top_border(image@),
{
    let mut count: u32 = 0;
    while count < image.height
        invariant
            image.wf(),
            count <= image.height,
            top_border(image@) == top_border_from(image@, count as int),
        decreases image.height - count,
    {
        if !is_row_empty(image, count) {
            return count;
        }
        count += 1;
    }
    count
}

pub fn count_bottom_empty_rows(image: &PixelBuffer) -> (r: u32)
    requires
        image.wf(),
    ensures
        r == bottom_border(image@),
{
    let mut rest: u32 = image.height;
    while rest > 0
        invariant
            image.wf(),
            rest <= image.height,
            bottom_border(image@) == bottom_border_from(image@, rest as int),
        decreases rest,
    {
        if !is_row_empty(image, rest - 1) {
            return image.height - rest;
        }
        rest -= 1;
    }
    image.height
}

pub fn count_left_empty_columns(image: &PixelBuffer) -> (r: u32)
    requires
        image.wf(),
    ensures
        r == left_border(image@),
{
    let mut count: u32 = 0;
    while count < image.width
        invariant
            image.wf(),
            count <= image.width,
            left_border(image@) == left_border_from(image@, count as int),
        decreases image.width - count,
    {
        if !is_column_empty(image, count) {
            return count;
        }
        count += 1;
    }
    count
}

pub fn count_right_empty_columns(image: &PixelBuffer) -> (r: u32)
    requires
        image.wf(),
    ensures
        r == right_border(image@),
{
    let mut rest: u32 = image.width;
    while rest > 0
        invariant
            image.wf(),
            rest <= image.width,
            right_border(image@) == right_border_from(image@, rest as int),
        decreases rest,
    {
        if !is_column_empty(image, rest - 1) {
            return image.width - rest;
        }
        rest -= 1;
    }
    image.width
}

/// Measures the transparent border on all four edges independently.
pub fn count_empty_padding(image: &PixelBuffer) -> (r: Padding)
    requires
        image.wf(),
    ensures
        measured(image@, r),
{
    Padding::new(
        count_top_empty_rows(image),
        count_bottom_empty_rows(image),
        count_left_empty_columns(image),
        count_right_empty_columns(image),
    )
}

/// Checks whether the image dimensions are multiples of four and the given
/// (measured) border lies within [1, 3] on every edge.
pub fn is_image_good(image: &PixelBuffer, empty: &Padding) -> (r: bool)
    ensures
        r == {
            &&& image.width % 4 == 0
            &&& image.height % 4 == 0
            &&& 1 <= empty.top <= 3
            &&& 1 <= empty.bottom <= 3
            &&& 1 <= empty.left <= 3
            &&& 1 <= empty.right <= 3
        },
{
    let is_dimension_optimized = image.width % 4 == 0 && image.height % 4 == 0;
    let empty_is_in_range = 1 <= empty.left && empty.left <= 3
        && 1 <= empty.right && empty.right <= 3
        && 1 <= empty.top && empty.top <= 3
        && 1 <= empty.bottom && empty.bottom <= 3;

    is_dimension_optimized && empty_is_in_range
}

/// Checks whether all four border counts are zero.
pub fn is_padding_zero(padding: &Padding) -> (r: bool)
    ensures
        r == (padding.left == 0 && padding.right == 0 && padding.top == 0 && padding.bottom == 0),
{
    padding.left == 0 && padding.right == 0 && padding.top == 0 && padding.bottom == 0
}

} // verus!
