//! Cutting the source picture into the grid of sub-images.
//!
//! The pixel rectangles are pure verified arithmetic; only the decoding
//! crate's cut-out call is trusted.  Sub-images come in row-major order,
//! rows top to bottom, so sub-image `i` belongs to slot `i`: the lemma at
//! the end ties the two decompositions together.

use vstd::prelude::*;
use vstd::arithmetic::div_mod::lemma_fundamental_div_mod;
use vstd::arithmetic::mul::lemma_mul_inequality;
use crate::layout::BoardConfig;
use crate::layout::MAX_GRID_DIM;
use crate::layout::cell_center_x;
use crate::layout::cell_center_y;
use crate::layout::col_of;
use crate::layout::lemma_slot_is_grid_cell;
use crate::layout::row_of;
use crate::layout::spec_slot_x;
use crate::layout::spec_slot_y;

verus! {

/// One pixel rectangle of the source image: origin at the top left, axes
/// growing right and down as image pixels do.
#[derive(Clone, Copy, Debug, PartialEq, Eq, Structural)]
pub struct SubRect {
    pub x: u32,
    pub y: u32,
    pub width: u32,
    pub height: u32,
}

/// The width of one sub-image: the source width split evenly, any
/// remainder pixels dropped at the right edge.
pub open spec fn spec_sub_width(image_w: int, columns: int) -> int {
    image_w / columns
}

/// The height of one sub-image, as `spec_sub_width` for rows.
pub open spec fn spec_sub_height(image_h: int, rows: int) -> int {
    image_h / rows
}

/// Computes the pixel rectangles of all `columns * rows` sub-images, in
/// row-major order with rows counted top to bottom: rectangle `i` starts
/// at column `i % columns` and row `i / columns` of the pixel grid.
pub fn partition_rects(image_w: u32, image_h: u32, columns: u32, rows: u32) -> (rects: Vec<
    SubRect,
>)
    requires
        1 <= columns <= MAX_GRID_DIM,
        1 <= rows <= MAX_GRID_DIM,
    ensures
        rects@.len() == columns * rows,
        forall|k: int| 0 <= k < rects@.len() ==> (#[trigger] rects@[k]).x
            == col_of(k, columns as int) * spec_sub_width(image_w as int, columns as int)
            && rects@[k].y
                == row_of(k, columns as int) * spec_sub_height(image_h as int, rows as int)
            && rects@[k].width == spec_sub_width(image_w as int, columns as int)
            && rects@[k].height == spec_sub_height(image_h as int, rows as int),
{
    let sub_w = image_w / columns;
    let sub_h = image_h / rows;
    proof {
        lemma_fundamental_div_mod(image_w as int, columns as int);
        lemma_fundamental_div_mod(image_h as int, rows as int);
        assert(columns * sub_w <= image_w);
        assert(rows * sub_h <= image_h);
        assert(columns * rows <= MAX_GRID_DIM * MAX_GRID_DIM) by (nonlinear_arith)
            requires
                1 <= columns <= MAX_GRID_DIM,
                1 <= rows <= MAX_GRID_DIM,
        ;
    }
    let count: usize = (columns as usize) * (rows as usize);
    let mut rects: Vec<SubRect> = Vec::new();
    let mut k: usize = 0;
    while k < count
        invariant
            k <= count,
            count == columns * rows,
            count <= MAX_GRID_DIM * MAX_GRID_DIM,
            1 <= columns <= MAX_GRID_DIM,
            1 <= rows <= MAX_GRID_DIM,
            sub_w == spec_sub_width(image_w as int, columns as int),
            sub_h == spec_sub_height(image_h as int, rows as int),
            columns * sub_w <= image_w,
            rows * sub_h <= image_h,
            rects@.len() == k,
            forall|j: int| 0 <= j < k ==> (#[trigger] rects@[j]).x
                == col_of(j, columns as int) * sub_w
                && rects@[j].y == row_of(j, columns as int) * sub_h
                && rects@[j].width == sub_w
                && rects@[j].height == sub_h,
        decreases count - k,
    {
        let kw = k as u32;
        let col = kw % columns;
        let row = kw / columns;
        proof {
            assert(row < rows) by (nonlinear_arith)
                requires
                    row == kw as int / columns as int,
                    kw < columns * rows,
                    columns >= 1,
                    rows >= 1,
            ;
            lemma_mul_inequality(col as int, columns as int - 1, sub_w as int);
            assert((columns - 1) * sub_w == columns * sub_w - sub_w) by (nonlinear_arith);
            lemma_mul_inequality(row as int, rows as int - 1, sub_h as int);
            assert((rows - 1) * sub_h == rows * sub_h - sub_h) by (nonlinear_arith);
            assert(col * sub_w >= 0) by (nonlinear_arith)
                requires col >= 0, sub_w >= 0,
            ;
            assert(row * sub_h >= 0) by (nonlinear_arith)
                requires row >= 0, sub_h >= 0,
            ;
        }
        let x = col * sub_w;
        let y = row * sub_h;
        rects.push(SubRect { x, y, width: sub_w, height: sub_h });
        k = k + 1;
    }
    rects
}

#[verifier::external_type_specification]
#[verifier::external_body]
pub struct ExDynamicImage(image::DynamicImage);

/// Relies on image::GenericImageView::dimensions: the decoded image's
/// width and height in pixels.  The image itself is opaque to the model,
/// so no clause relates the result to it.
#[verifier::external_body]
fn image_dimensions(img: &image::DynamicImage) -> (dims: (u32, u32)) {
    image::GenericImageView::dimensions(img)
}

/// Relies on image::DynamicImage::crop_imm: the cut-out of the image
/// delimited by the given rectangle, clamped to the image's bounds, which
/// never panics.  The cut-out is opaque to the model, so no clause relates
/// it to its arguments.
#[verifier::external_body]
fn crop_rect(img: &image::DynamicImage, rect: &SubRect) -> (sub: image::DynamicImage) {
    img.crop_imm(rect.x, rect.y, rect.width, rect.height)
}

/// Cuts the decoded source image into `columns * rows` sub-images, in
/// row-major order with rows counted top to bottom; sub-image `i` is the
/// cut-out of the pixel rectangle `partition_rects` places at index `i`.
pub fn partition(img: &image::DynamicImage, columns: u32, rows: u32) -> (subs: Vec<
    image::DynamicImage,
>)
    requires
        1 <= columns <= MAX_GRID_DIM,
        1 <= rows <= MAX_GRID_DIM,
    ensures
        subs@.len() == columns * rows,
{
    let (image_w, image_h) = image_dimensions(img);
    let rects = partition_rects(image_w, image_h, columns, rows);
    let mut subs: Vec<image::DynamicImage> = Vec::new();
    let mut i: usize = 0;
    while i < rects.len()
        invariant
            i <= rects@.len(),
            subs@.len() == i,
            rects@.len() == columns * rows,
        decreases rects@.len() - i,
    {
        subs.push(crop_rect(img, &rects[i]));
        i = i + 1;
    }
    subs
}

/// Partitioning mirrors the layout exactly: sub-image `index` is cut from
/// pixel grid cell `(col_of(index), row_of(index))`, and slot `index` is
/// centered on the board cell with the same column and the same
/// top-counted row, so the piece cut at `index` belongs at the position
/// `slot_position(index)` computes.
pub proof fn lemma_partition_matches_layout(
    cfg: BoardConfig,
    image_w: int,
    image_h: int,
    index: int,
)
    requires
        cfg.wf(),
        0 <= index < cfg.spec_piece_count(),
    ensures
        spec_slot_x(cfg, index) == cell_center_x(cfg, col_of(index, cfg.columns as int)),
        spec_slot_y(cfg, index) == cell_center_y(cfg, row_of(index, cfg.columns as int)),
        0 <= col_of(index, cfg.columns as int) < cfg.columns,
        0 <= row_of(index, cfg.columns as int) < cfg.rows,
{
    lemma_slot_is_grid_cell(cfg, index);
}

/// Distinct sub-images are cut from distinct pixel rectangles whenever the
/// source is at least one pixel per grid cell.
pub proof fn lemma_rect_origins_distinct(
    image_w: int,
    image_h: int,
    columns: int,
    rows: int,
    i: int,
    j: int,
)
    requires
        1 <= columns,
        1 <= rows,
        spec_sub_width(image_w, columns) >= 1,
        spec_sub_height(image_h, rows) >= 1,
        0 <= i < columns * rows,
        0 <= j < columns * rows,
        i != j,
    ensures
        col_of(i, columns) * spec_sub_width(image_w, columns)
            != col_of(j, columns) * spec_sub_width(image_w, columns)
        || row_of(i, columns) * spec_sub_height(image_h, rows)
            != row_of(j, columns) * spec_sub_height(image_h, rows),
{
    let sub_w = spec_sub_width(image_w, columns);
    let sub_h = spec_sub_height(image_h, rows);
    let ci = col_of(i, columns);
    let cj = col_of(j, columns);
    let ri = row_of(i, columns);
    let rj = row_of(j, columns);
    lemma_fundamental_div_mod(i, columns);
    lemma_fundamental_div_mod(j, columns);
    if ci == cj && ri == rj {
        assert(i == columns * ri + ci);
        assert(j == columns * rj + cj);
        assert(false);
    }
    if ci != cj {
        assert(ci * sub_w != cj * sub_w) by (nonlinear_arith)
            requires ci != cj, sub_w >= 1,
        ;
    } else {
        assert(ri * sub_h != rj * sub_h) by (nonlinear_arith)
            requires ri != rj, sub_h >= 1,
        ;
    }
}

} // verus!
