//! The geometry of a card: a fixed top padding followed by rows of fixed
//! height. Sizes of the card are in whole pixels; positions inside it are in
//! tenths of a pixel, so that every offset of the layout is an integer.

use vstd::prelude::*;

verus! {

/// Blank band above the first row and left of the avatars, in pixels.
pub const PADDING: u32 = 15;

/// Width of every card, in pixels.
pub const CANVAS_WIDTH: u32 = 600;

/// Height of one row, in pixels.
pub const ROW_HEIGHT: u32 = 90;

/// Side of the square that an avatar fills, in pixels.
pub const AVATAR_SIDE: u32 = 70;

/// Corner radius of the avatar's frame, in pixels.
pub const AVATAR_RADIUS: u32 = 10;

/// Distance from the avatar's left edge to the left text column, in pixels.
pub const TEXT_INSET: u32 = 80;

/// Positions are counted in this many steps per pixel.
pub const SUBPIXELS: i64 = 10;

/// The most rows for which the card's height still fits a signed 32-bit
/// pixel count.
pub const MAX_ROWS: usize = 23_860_929;

/// Positions up to this distance from the origin can be offset by any
/// amount of the layout without leaving `i64`.
pub const REACH: i64 = 1_000_000_000_000;

/// Whether a position is close enough to the origin for layout arithmetic.
pub open spec fn in_reach(v: i64) -> bool {
    -REACH <= v <= REACH
}

/// Height in pixels of a card with `rows` rows.
pub open spec fn canvas_height_of(rows: int) -> int {
    PADDING + ROW_HEIGHT * rows
}

/// Top edge of row `i`, in pixels.
pub open spec fn row_top_of(i: int) -> int {
    PADDING + i * ROW_HEIGHT
}

/// Where the parts of one row stand, in tenths of a pixel.
pub struct RowLayout {
    /// Top edge of the row, which is also the top edge of the avatar.
    pub top: i64,
    /// Left edge of the avatar.
    pub avatar_left: i64,
    /// Side of the avatar square.
    pub avatar_side: i64,
    /// Corner radius of the avatar's frame.
    pub avatar_radius: i64,
    /// Start of the left-aligned text column.
    pub left: i64,
    /// Anchor of the right-aligned text column: such texts end here.
    pub right: i64,
    /// Horizontal middle of the card, about which the judgment counts stand.
    pub center: i64,
    /// Baseline of the upper band: user name and modifiers.
    pub upper: i64,
    /// Baseline of the middle band: score with combo, and accuracy.
    pub middle: i64,
    /// Baseline of the lower band: grade, judgment counts and date.
    pub lower: i64,
}

/// The layout of row `i`: the three bands lie at 0.2, 0.5 and 0.75 of the
/// row's height below its top.
pub open spec fn row_layout_of(i: int) -> RowLayout {
    let top = row_top_of(i) * SUBPIXELS;
    RowLayout {
        top: top as i64,
        avatar_left: (PADDING * SUBPIXELS) as i64,
        avatar_side: (AVATAR_SIDE * SUBPIXELS) as i64,
        avatar_radius: (AVATAR_RADIUS * SUBPIXELS) as i64,
        left: ((PADDING + TEXT_INSET) * SUBPIXELS) as i64,
        right: ((CANVAS_WIDTH - PADDING) * SUBPIXELS) as i64,
        center: (CANVAS_WIDTH * SUBPIXELS / 2) as i64,
        upper: (top + ROW_HEIGHT * SUBPIXELS * 20 / 100) as i64,
        middle: (top + ROW_HEIGHT * SUBPIXELS * 50 / 100) as i64,
        lower: (top + ROW_HEIGHT * SUBPIXELS * 75 / 100) as i64,
    }
}

/// Computes the height in pixels of a card with `rows` rows. No rows give a
/// card of the top padding alone.
pub fn canvas_height(rows: usize) -> (height: u32)
    requires
        rows <= MAX_ROWS,
    ensures
        height == canvas_height_of(rows as int),
        height <= i32::MAX,
{
    PADDING + ROW_HEIGHT * (rows as u32)
}

/// Computes the top edge of row `i`, in pixels.
pub fn row_top(i: usize) -> (top: u32)
    requires
        i <= MAX_ROWS,
    ensures
        top == row_top_of(i as int),
{
    PADDING + (i as u32) * ROW_HEIGHT
}

/// Computes where the parts of row `i` stand.
pub fn row_layout(i: usize) -> (row: RowLayout)
    requires
        i <= MAX_ROWS,
    ensures
        row == row_layout_of(i as int),
        row.top == 150 + 900 * i,
        row.avatar_left == 150,
        row.avatar_side == 700,
        row.avatar_radius == 100,
        row.left == 950,
        row.right == 5850,
        row.center == 3000,
        row.upper == row.top + 180,
        row.middle == row.top + 450,
        row.lower == row.top + 675,
{
    let top: i64 = (row_top(i) as i64) * SUBPIXELS;
    let band: i64 = (ROW_HEIGHT as i64) * SUBPIXELS;
    RowLayout {
        top,
        avatar_left: (PADDING as i64) * SUBPIXELS,
        avatar_side: (AVATAR_SIDE as i64) * SUBPIXELS,
        avatar_radius: (AVATAR_RADIUS as i64) * SUBPIXELS,
        left: ((PADDING + TEXT_INSET) as i64) * SUBPIXELS,
        right: ((CANVAS_WIDTH - PADDING) as i64) * SUBPIXELS,
        center: (CANVAS_WIDTH as i64) * SUBPIXELS / 2,
        upper: top + band * 20 / 100,
        middle: top + band * 50 / 100,
        lower: top + band * 75 / 100,
    }
}

/// Rows stack without gap or overlap: the first starts below the top
/// padding, each next one where the one before it ends, and a card of `rows`
/// rows ends where its last row ends.
pub proof fn lemma_rows_stack(rows: int, i: int)
    requires
        0 <= i < rows,
    ensures
        row_top_of(0) == PADDING,
        row_top_of(i + 1) == row_top_of(i) + ROW_HEIGHT,
        row_top_of(i) + ROW_HEIGHT <= canvas_height_of(rows),
        canvas_height_of(rows) == row_top_of(rows - 1) + ROW_HEIGHT,
        canvas_height_of(0) == PADDING,
{
}

/// The parts of a row lie inside the row: the three bands follow each other
/// between its top and its bottom, the avatar ends before the text column
/// starts, and the text columns lie inside the card's width.
pub proof fn lemma_row_layout_inside(i: int)
    requires
        0 <= i <= MAX_ROWS,
    ensures
        ({
            let row = row_layout_of(i);
            &&& row.top == row_top_of(i) * SUBPIXELS
            &&& row.top < row.upper < row.middle < row.lower < row.top + ROW_HEIGHT * SUBPIXELS
            &&& row.top + row.avatar_side <= row.top + ROW_HEIGHT * SUBPIXELS
            &&& 0 <= row.avatar_left
            &&& row.avatar_left + row.avatar_side < row.left < row.center < row.right
            &&& row.right <= CANVAS_WIDTH * SUBPIXELS
            &&& 2 * row.avatar_radius <= row.avatar_side
        }),
{
}

} // verus!
