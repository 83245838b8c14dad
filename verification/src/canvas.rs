//! A card as a list of drawing operations. The composer records what is to
//! be drawn; a raster backend replays the list in order.
//!
//! Sizes of the card and of images are in whole pixels. Positions and lengths
//! inside the card are in tenths of a pixel. Colours are `0xRRGGBB`.

use vstd::prelude::*;

verus! {

/// The ground of a card.
pub const BLACK: u32 = 0x000000;

/// The colour of plain text.
pub const WHITE: u32 = 0xFFFFFF;

/// The dot of the "ok" judgments.
pub const GREEN: u32 = 0x00FF00;

/// The dot of the "meh" judgments.
pub const YELLOW: u32 = 0xFFFF00;

/// The dot of the misses.
pub const RED: u32 = 0xFF0000;

/// The two typefaces that a card is set in.
#[derive(Clone, Copy, Debug, PartialEq, Eq, Structural)]
pub enum Typeface {
    Regular,
    Bold,
}

/// A typeface at a size in pixels.
#[derive(Clone, Copy, Debug, PartialEq, Eq, Structural)]
pub struct Font {
    pub typeface: Typeface,
    pub size: u32,
}

/// How a text stands to its anchor.
#[derive(Clone, Copy, Debug, PartialEq, Eq, Structural)]
pub enum Align {
    /// The text starts at the anchor.
    Left,
    /// The text ends at the anchor: its measured width is subtracted from
    /// the anchor when it is drawn.
    Right,
}

/// The pixel size of a decoded image.
#[derive(Clone, Copy, Debug, PartialEq, Eq, Structural)]
pub struct ImageSize {
    pub width: i32,
    pub height: i32,
}

/// One step of an outline.
#[derive(Clone, Copy, Debug, PartialEq, Eq, Structural)]
pub enum PathStep {
    MoveTo { x: i64, y: i64 },
    LineTo { x: i64, y: i64 },
    /// A quadratic curve to `(x, y)` with control point `(cx, cy)`.
    QuadTo { cx: i64, cy: i64, x: i64, y: i64 },
}

/// Where and how a text is drawn.
#[derive(Clone, Copy, Debug, PartialEq, Eq, Structural)]
pub struct TextStyle {
    /// The anchor of the text.
    pub x: i64,
    /// The baseline of the text.
    pub y: i64,
    pub align: Align,
    pub font: Font,
    pub color: u32,
    pub anti_alias: bool,
}

/// A filled circle.
#[derive(Clone, Copy, Debug, PartialEq, Eq, Structural)]
pub struct Dot {
    pub x: i64,
    pub y: i64,
    pub radius: i64,
    pub color: u32,
}

/// The placement of the cover artwork: the image is scaled by
/// `scale_num / scale_den` in both directions, and its top left corner is put
/// at `(left_num / offset_den, top_num / offset_den)` pixels.
#[derive(Clone, Copy, Debug, PartialEq, Eq, Structural)]
pub struct Cover {
    pub image: ImageSize,
    pub scale_num: i64,
    pub scale_den: i64,
    pub left_num: i64,
    pub top_num: i64,
    pub offset_den: i64,
    /// Opacity in percent, blended source-over.
    pub opacity: u8,
}

/// The square that an avatar is scaled into.
#[derive(Clone, Copy, Debug, PartialEq, Eq, Structural)]
pub struct AvatarFrame {
    /// Which avatar of the list is drawn.
    pub index: usize,
    pub image: ImageSize,
    pub x: i64,
    pub y: i64,
    pub side: i64,
}

/// One drawing operation.
#[derive(Debug, PartialEq, Eq)]
pub enum DrawOp {
    /// Fill the whole card with a colour.
    Clear { color: u32 },
    /// Wash the card with the cover artwork.
    Cover { cover: Cover },
    /// Draw an avatar into its frame, clipped to an outline.
    Avatar { frame: AvatarFrame, clip: Vec<PathStep> },
    Text { text: String, style: TextStyle },
    Dot { dot: Dot },
}

/// What a drawing operation draws.
pub enum Drawn {
    Clear { color: u32 },
    Cover { cover: Cover },
    Avatar { frame: AvatarFrame, clip: Seq<PathStep> },
    Text { text: Seq<char>, style: TextStyle },
    Dot { dot: Dot },
}

impl View for DrawOp {
    type V = Drawn;

    open spec fn view(&self) -> Drawn {
        match *self {
            DrawOp::Clear { color } => Drawn::Clear { color },
            DrawOp::Cover { cover } => Drawn::Cover { cover },
            DrawOp::Avatar { frame, clip } => Drawn::Avatar { frame, clip: clip@ },
            DrawOp::Text { text, style } => Drawn::Text { text: text@, style },
            DrawOp::Dot { dot } => Drawn::Dot { dot },
        }
    }
}

/// A card under construction: its pixel size and what was drawn so far.
#[derive(Debug)]
pub struct Canvas {
    pub width: u32,
    pub height: u32,
    pub ops: Vec<DrawOp>,
}

impl View for Canvas {
    type V = Seq<Drawn>;

    open spec fn view(&self) -> Seq<Drawn> {
        Seq::new(self.ops@.len(), |i: int| self.ops@[i]@)
    }
}

impl Canvas {
    /// A card of the given pixel size on which nothing was drawn.
    pub fn new(width: u32, height: u32) -> (canvas: Canvas)
        ensures
            canvas.width == width,
            canvas.height == height,
            canvas@ == Seq::<Drawn>::empty(),
    {
        let canvas = Canvas { width, height, ops: Vec::new() };
        assert(canvas@ =~= Seq::<Drawn>::empty());
        canvas
    }

    /// Records one more operation after those already drawn.
    pub fn draw(&mut self, op: DrawOp)
        ensures
            final(self)@ == old(self)@.push(op@),
            final(self).width == old(self).width,
            final(self).height == old(self).height,
    {
        self.ops.push(op);
        assert(self@ =~= old(self)@.push(op@));
    }
}

} // verus!
