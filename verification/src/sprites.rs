//! Sprite geometry: bounding boxes detected in video frames, and the grid
//! layout that packs cropped sprites into one sheet.

use vstd::prelude::*;

verus! {

/// A rectangle inside a frame: its top-left corner and its size in pixels.
#[derive(Clone, Copy, Debug, PartialEq, Eq, Structural)]
pub struct BoundingBox {
    pub x: i32,
    pub y: i32,
    pub width: i32,
    pub height: i32,
}

/// Size of one cell of a sprite sheet, padding included.
#[derive(Clone, Copy, Debug, PartialEq, Eq, Structural)]
pub struct SpriteSize {
    pub width: i32,
    pub height: i32,
}

/// Whether a pixel has the sky-blue tone common to retro game
/// backgrounds: little red, much green and blue.
pub fn is_sky_color(r: u8, g: u8, b: u8) -> (sky: bool)
    ensures
        sky == (r < 100 && g > 150 && b > 200),
{
    r < 100 && g > 150 && b > 200
}

/// Most sprites a sheet will hold.
pub const MAX_SHEET_SPRITES: usize = 4096;

/// Largest accepted sprite side, in pixels.
pub const MAX_SPRITE_SIDE: i32 = 4096;

/// Largest accepted cell padding, in pixels.
pub const MAX_SHEET_PADDING: i32 = 1024;

/// The grid that packs cropped sprites into one image: a near-square
/// column/row count, a uniform cell large enough for the biggest sprite
/// plus padding, and the padded top-left corner of every sprite.
#[derive(Debug)]
pub struct SheetLayout {
    /// Number of grid columns: the smallest square side that fits all.
    pub columns: i32,
    /// Number of grid rows needed at that column count.
    pub rows: i32,
    /// Size of one grid cell, padding included.
    pub cell: SpriteSize,
    /// Width of the whole sheet in pixels.
    pub sheet_width: i32,
    /// Height of the whole sheet in pixels.
    pub sheet_height: i32,
    /// Top-left corner of each sprite inside the sheet, in input order.
    pub positions: Vec<(i32, i32)>,
    /// The padding each cell adds around its sprite.
    pub padding: i32,
}

/// Widest box of the sequence, zero when there is none.
pub open spec fn spec_max_width(bs: Seq<BoundingBox>) -> int
    decreases bs.len(),
{
    if bs.len() == 0 {
        0
    } else {
        let m = spec_max_width(bs.drop_last());
        if bs.last().width > m {
            bs.last().width as int
        } else {
            m
        }
    }
}

/// Tallest box of the sequence, zero when there is none.
pub open spec fn spec_max_height(bs: Seq<BoundingBox>) -> int
    decreases bs.len(),
{
    if bs.len() == 0 {
        0
    } else {
        let m = spec_max_height(bs.drop_last());
        if bs.last().height > m {
            bs.last().height as int
        } else {
            m
        }
    }
}

/// The inputs a sheet layout accepts: at least one sprite, bounded
/// counts, sides and padding, so that every coordinate of the sheet fits
/// comfortably in pixel arithmetic.
pub open spec fn layout_inputs_ok(bs: Seq<BoundingBox>, padding: i32) -> bool {
    &&& 1 <= bs.len() <= MAX_SHEET_SPRITES
    &&& 0 <= padding <= MAX_SHEET_PADDING
    &&& forall|k: int|
        0 <= k < bs.len() ==> 1 <= (#[trigger] bs[k]).width <= MAX_SPRITE_SIDE && 1 <= bs[
            k
        ].height <= MAX_SPRITE_SIDE
}

/// Computes the sheet grid for the given sprite boxes: columns are the
/// ceiling of the square root of the count, rows the ceiling of count
/// over columns, every cell is the largest sprite plus padding on each
/// side, and sprite `i` sits at column `i % columns`, row `i / columns`,
/// offset by the padding. Returns `None` exactly when the inputs break
/// `layout_inputs_ok`.
#[verifier::loop_isolation(false)]
#[verifier::rlimit(60)]
pub fn sheet_layout(boxes: &Vec<BoundingBox>, padding: i32) -> (r: Option<SheetLayout>)
    ensures
        r is Some <==> layout_inputs_ok(boxes@, padding),
        match r {
            Some(l) => {
                let n = boxes@.len() as int;
                &&& 1 <= l.columns
                &&& l.columns * l.columns >= n
                &&& (l.columns - 1) * (l.columns - 1) < n
                &&& l.rows == (n + l.columns - 1) / (l.columns as int)
                &&& l.cell.width == spec_max_width(boxes@) + 2 * padding
                &&& l.cell.height == spec_max_height(boxes@) + 2 * padding
                &&& l.sheet_width == l.columns * l.cell.width
                &&& l.sheet_height == l.rows * l.cell.height
                &&& l.padding == padding
                &&& l.positions@.len() == n
                &&& forall|i: int|
                    0 <= i < n ==> (#[trigger] l.positions@[i]).0 == (i % (l.columns as int))
                        * l.cell.width + padding && l.positions@[i].1 == (i / (
                    l.columns as int)) * l.cell.height + padding
            },
            None => true,
        },
{
    let n = boxes.len();
    if n == 0 || n > MAX_SHEET_SPRITES {
        return None;
    }
    if padding < 0 || padding > MAX_SHEET_PADDING {
        return None;
    }
    let mut max_w: i32 = 0;
    let mut max_h: i32 = 0;
    let mut k: usize = 0;
    while k < n
        invariant
            0 <= k <= n,
            n == boxes@.len(),
            max_w == spec_max_width(boxes@.subrange(0, k as int)),
            max_h == spec_max_height(boxes@.subrange(0, k as int)),
            0 <= max_w <= MAX_SPRITE_SIDE,
            0 <= max_h <= MAX_SPRITE_SIDE,
            forall|m: int|
                0 <= m < k ==> 1 <= (#[trigger] boxes@[m]).width <= MAX_SPRITE_SIDE && 1
                    <= boxes@[m].height <= MAX_SPRITE_SIDE,
        decreases n - k,
    {
        let b = boxes[k];
        if b.width < 1 || b.width > MAX_SPRITE_SIDE || b.height < 1 || b.height
            > MAX_SPRITE_SIDE {
            return None;
        }
        proof {
            assert(boxes@.subrange(0, k + 1).drop_last() =~= boxes@.subrange(0, k as int));
        }
        if b.width > max_w {
            max_w = b.width;
        }
        if b.height > max_h {
            max_h = b.height;
        }
        k = k + 1;
    }
    proof {
        assert(boxes@.subrange(0, n as int) =~= boxes@);
    }

    let mut cols: usize = 1;
    while cols * cols < n
        invariant
            1 <= cols <= n,
            (cols - 1) * (cols - 1) < n,
            cols * cols <= 0x1000000,
        decreases n - cols,
    {
        proof {
            assert(cols * cols < n ==> cols < n) by (nonlinear_arith)
                requires
                    cols >= 1,
            ;
            assert((cols + 1) * (cols + 1) <= 0x1000000) by (nonlinear_arith)
                requires
                    1 <= cols && cols * cols < n && n <= 4096,
            ;
        }
        cols = cols + 1;
    }
    let rows: usize = (n + cols - 1) / cols;
    proof {
        assert(cols <= 64) by (nonlinear_arith)
            requires
                cols >= 1 && (cols - 1) * (cols - 1) < n && n <= 4096,
        ;
        assert(1 <= rows && rows <= cols) by (nonlinear_arith)
            requires
                cols >= 1 && n >= 1 && cols * cols >= n && rows == (n + cols - 1) / (
                cols as int),
        ;
    }

    let cell_w: i32 = max_w + 2 * padding;
    let cell_h: i32 = max_h + 2 * padding;
    let cols_i: i32 = cols as i32;
    let rows_i: i32 = rows as i32;
    proof {
        assert(cols_i * cell_w <= 64 * 6144) by (nonlinear_arith)
            requires
                1 <= cols_i <= 64 && 0 <= cell_w <= 6144,
        ;
        assert(rows_i * cell_h <= 64 * 6144) by (nonlinear_arith)
            requires
                1 <= rows_i <= 64 && 0 <= cell_h <= 6144,
        ;
    }
    let sheet_w: i32 = cols_i * cell_w;
    let sheet_h: i32 = rows_i * cell_h;

    let mut positions: Vec<(i32, i32)> = Vec::new();
    let mut i: usize = 0;
    while i < n
        invariant
            0 <= i <= n,
            positions@.len() == i,
            1 <= cols <= 64,
            0 <= cell_w <= 6144,
            0 <= cell_h <= 6144,
            rows == (n + cols - 1) / (cols as int),
            cols * cols >= n,
            forall|m: int|
                0 <= m < i ==> (#[trigger] positions@[m]).0 == (m % (cols as int)) * cell_w
                    + padding && positions@[m].1 == (m / (cols as int)) * cell_h + padding,
        decreases n - i,
    {
        let col = i % cols;
        let row = i / cols;
        proof {
            assert(col < cols) by (nonlinear_arith)
                requires
                    cols >= 1 && col == (i as int) % (cols as int),
            ;
            assert(row < cols) by (nonlinear_arith)
                requires
                    cols >= 1 && i < n && n <= cols * cols && row == (i as int) / (cols as int),
            ;
            assert((col as i32) * cell_w + padding <= 64 * 6144 + 1024) by (nonlinear_arith)
                requires
                    0 <= col < 64 && 0 <= cell_w <= 6144 && 0 <= padding <= 1024,
            ;
            assert((row as i32) * cell_h + padding <= 64 * 6144 + 1024) by (nonlinear_arith)
                requires
                    0 <= row < 64 && 0 <= cell_h <= 6144 && 0 <= padding <= 1024,
            ;
        }
        let px: i32 = (col as i32) * cell_w + padding;
        let py: i32 = (row as i32) * cell_h + padding;
        positions.push((px, py));
        i = i + 1;
    }

    Some(
        SheetLayout {
            columns: cols_i,
            rows: rows_i,
            cell: SpriteSize { width: cell_w, height: cell_h },
            sheet_width: sheet_w,
            sheet_height: sheet_h,
            positions,
            padding,
        },
    )
}

} // verus!
