//! The leaderboard composer: turns score records, decoded image sizes and a
//! beatmap record into the drawing operations of a card.

use crate::canvas::{
    Align, AvatarFrame, Canvas, Cover, Dot, DrawOp, Drawn, Font, ImageSize, PathStep, TextStyle,
    Typeface, BLACK, GREEN, RED, WHITE, YELLOW,
};
use crate::format::{
    accuracy_string, accuracy_text, format_date, score_line, score_with_combo, short_date,
};
use crate::layout::{
    canvas_height, canvas_height_of, in_reach, row_layout, row_layout_of, CANVAS_WIDTH, MAX_ROWS,
};
use crate::osu_api::{mods_text, tally, Beatmap, Score};
use crate::text::{decimal_string, decimal_text, same_text};
use vstd::prelude::*;
use vstd::string::*;

verus! {

/// Colour of the grades `XH` and `SH`.
pub const GRADE_SILVER: u32 = 0xEFEFEF;

/// Colour of the grades `X` and `S`.
pub const GRADE_GOLD: u32 = 0xFFE24C;

/// Colour of the grade `A`.
pub const GRADE_GREEN: u32 = 0x73E539;

/// Colour of the grade `B`.
pub const GRADE_BLUE: u32 = 0x398FE6;

/// Colour of the grade `C`.
pub const GRADE_PURPLE: u32 = 0xBA39E6;

/// Colour of the grade `D` and of any unknown grade.
pub const GRADE_RED: u32 = 0xE63939;

/// Opacity of the cover artwork behind the rows, in percent.
pub const COVER_OPACITY: u8 = 20;

/// Size of the type of names, modifiers, scores, accuracy, dates and grades.
pub const TEXT_SIZE: u32 = 18;

/// Size of the type of the judgment counts.
pub const COUNT_SIZE: u32 = 14;

/// Radius of the dot behind a judgment count, in tenths of a pixel.
pub const DOT_RADIUS: i64 = 40;

/// How far the centre of a dot lies above the baseline of its count, in
/// tenths of a pixel.
pub const DOT_RISE: i64 = 42;

/// Gap between the end of a count and the centre of its dot, in tenths of a
/// pixel.
pub const COUNT_GAP: i64 = 100;

/// The outline of a rectangle with rounded corners, clockwise from the end
/// of the top left corner: four edges, each followed by the quadratic curve
/// round the next corner.
pub open spec fn rounded_rect(x: int, y: int, width: int, height: int, radius: int) -> Seq<
    PathStep,
> {
    seq![
        PathStep::MoveTo { x: (x + radius) as i64, y: y as i64 },
        PathStep::LineTo { x: (x + width - radius) as i64, y: y as i64 },
        PathStep::QuadTo {
            cx: (x + width) as i64,
            cy: y as i64,
            x: (x + width) as i64,
            y: (y + radius) as i64,
        },
        PathStep::LineTo { x: (x + width) as i64, y: (y + height - radius) as i64 },
        PathStep::QuadTo {
            cx: (x + width) as i64,
            cy: (y + height) as i64,
            x: (x + width - radius) as i64,
            y: (y + height) as i64,
        },
        PathStep::LineTo { x: (x + radius) as i64, y: (y + height) as i64 },
        PathStep::QuadTo {
            cx: x as i64,
            cy: (y + height) as i64,
            x: x as i64,
            y: (y + height - radius) as i64,
        },
        PathStep::LineTo { x: x as i64, y: (y + radius) as i64 },
        PathStep::QuadTo { cx: x as i64, cy: y as i64, x: (x + radius) as i64, y: y as i64 },
    ]
}

/// Builds the outline of a rectangle with rounded corners.
pub fn create_rounded_rect_path(x: i64, y: i64, width: i64, height: i64, radius: i64) -> (path:
    Vec<PathStep>)
    requires
        in_reach(x),
        in_reach(y),
        in_reach(width),
        in_reach(height),
        in_reach(radius),
    ensures
        path@ == rounded_rect(x as int, y as int, width as int, height as int, radius as int),
{
    let mut path: Vec<PathStep> = Vec::new();
    path.push(PathStep::MoveTo { x: x + radius, y });
    path.push(PathStep::LineTo { x: x + width - radius, y });
    path.push(PathStep::QuadTo { cx: x + width, cy: y, x: x + width, y: y + radius });
    path.push(PathStep::LineTo { x: x + width, y: y + height - radius });
    path.push(
        PathStep::QuadTo { cx: x + width, cy: y + height, x: x + width - radius, y: y + height },
    );
    path.push(PathStep::LineTo { x: x + radius, y: y + height });
    path.push(PathStep::QuadTo { cx: x, cy: y + height, x, y: y + height - radius });
    path.push(PathStep::LineTo { x, y: y + radius });
    path.push(PathStep::QuadTo { cx: x, cy: y, x: x + radius, y });
    assert(path@ =~= rounded_rect(
        x as int,
        y as int,
        width as int,
        height as int,
        radius as int,
    ));
    path
}

/// Whether a decoding gave an image that can be drawn.
pub open spec fn usable(image: Option<ImageSize>) -> bool {
    image matches Some(size) && size.width > 0 && size.height > 0
}

/// The placement with which an image covers a card of `width` by `height`
/// pixels: scaled by the larger of `width / image.width` and
/// `height / image.height`, and centred.
pub open spec fn cover_of(width: int, height: int, image: ImageSize) -> Cover {
    let (num, den) = if width * image.height >= height * image.width {
        (width, image.width as int)
    } else {
        (height, image.height as int)
    };
    Cover {
        image,
        scale_num: num as i64,
        scale_den: den as i64,
        left_num: (width * den - image.width * num) as i64,
        top_num: (height * den - image.height * num) as i64,
        offset_den: (2 * den) as i64,
        opacity: COVER_OPACITY,
    }
}

/// The product of two sizes that fit 31 bits fits 62 bits, in either order.
proof fn lemma_product_fits(a: int, b: int)
    requires
        0 <= a <= i32::MAX,
        0 <= b <= i32::MAX,
    ensures
        0 <= a * b <= 0x7fff_ffff * 0x7fff_ffff,
        a * b == b * a,
{
    assert(0 <= a * b <= 0x7fff_ffff * 0x7fff_ffff && a * b == b * a) by (nonlinear_arith)
        requires
            0 <= a <= 0x7fff_ffff,
            0 <= b <= 0x7fff_ffff,
    ;
}

/// The scale of a cover placement is the larger of the two ratios between
/// card and image: the scaled image is at least as wide and as high as the
/// card and fits it exactly in one direction. It is centred: what hangs over
/// is split evenly, so the offsets are zero or negative.
pub proof fn lemma_cover_fills(width: int, height: int, image: ImageSize)
    requires
        0 <= width <= i32::MAX,
        0 <= height <= i32::MAX,
        image.width > 0,
        image.height > 0,
    ensures
        ({
            let c = cover_of(width, height, image);
            &&& c.scale_den > 0
            &&& c.scale_num * image.width >= width * c.scale_den
            &&& c.scale_num * image.height >= height * c.scale_den
            &&& (c.scale_num * image.width == width * c.scale_den || c.scale_num * image.height
                == height * c.scale_den)
            &&& c.offset_den == 2 * c.scale_den
            &&& c.left_num == width * c.scale_den - image.width * c.scale_num
            &&& c.top_num == height * c.scale_den - image.height * c.scale_num
            &&& (c.left_num == 0 || c.top_num == 0)
            &&& c.left_num <= 0
            &&& c.top_num <= 0
        }),
{
    let w = image.width as int;
    let h = image.height as int;
    lemma_product_fits(width, h);
    lemma_product_fits(height, w);
    lemma_product_fits(width, w);
    lemma_product_fits(height, h);
}

/// Computes the placement of the cover artwork on a card.
pub fn cover_placement(width: u32, height: u32, image: ImageSize) -> (cover: Cover)
    requires
        width <= i32::MAX,
        height <= i32::MAX,
        image.width > 0,
        image.height > 0,
    ensures
        cover == cover_of(width as int, height as int, image),
{
    let cw: i64 = width as i64;
    let ch: i64 = height as i64;
    let w: i64 = image.width as i64;
    let h: i64 = image.height as i64;
    proof {
        lemma_product_fits(cw as int, h as int);
        lemma_product_fits(ch as int, w as int);
        lemma_product_fits(cw as int, w as int);
        lemma_product_fits(ch as int, h as int);
    }
    if cw * h >= ch * w {
        Cover {
            image,
            scale_num: cw,
            scale_den: w,
            left_num: cw * w - w * cw,
            top_num: ch * w - h * cw,
            offset_den: 2 * w,
            opacity: COVER_OPACITY,
        }
    } else {
        Cover {
            image,
            scale_num: ch,
            scale_den: h,
            left_num: cw * h - w * ch,
            top_num: ch * h - h * ch,
            offset_den: 2 * h,
            opacity: COVER_OPACITY,
        }
    }
}

/// A text drawn in white with smoothed edges.
pub open spec fn label(text: Seq<char>, font: Font, align: Align, x: i64, y: i64) -> Drawn {
    Drawn::Text {
        text,
        style: TextStyle { x, y, align, font, color: WHITE, anti_alias: true },
    }
}

/// What the background step draws on a card of the given size: the cover
/// artwork where it could be decoded, and nothing where it could not.
pub open spec fn background_ops(width: u32, height: u32, cover: Option<ImageSize>) -> Seq<Drawn> {
    if usable(cover) {
        seq![Drawn::Cover { cover: cover_of(width as int, height as int, cover->0) }]
    } else {
        Seq::empty()
    }
}

/// What drawing an avatar records: the image scaled into a square of side
/// `size` at `(x, y)` and clipped to the rounded outline of that square; or
/// nothing where the avatar could not be decoded.
pub open spec fn avatar_ops(
    index: usize,
    avatar: Option<ImageSize>,
    x: i64,
    y: i64,
    size: i64,
    radius: i64,
) -> Seq<Drawn> {
    if usable(avatar) {
        seq![
            Drawn::Avatar {
                frame: AvatarFrame { index, image: avatar->0, x, y, side: size },
                clip: rounded_rect(x as int, y as int, size as int, size as int, radius as int),
            },
        ]
    } else {
        Seq::empty()
    }
}

/// The letter and the colour that a grade code is shown with. Codes are
/// compared as they stand; any other code shows as a red `?`.
pub open spec fn rank_badge(code: Seq<char>) -> (Seq<char>, u32) {
    if code == seq!['X', 'H'] {
        (seq!['S', 'S'], GRADE_SILVER)
    } else if code == seq!['X'] {
        (seq!['S', 'S'], GRADE_GOLD)
    } else if code == seq!['S', 'H'] {
        (seq!['S'], GRADE_SILVER)
    } else if code == seq!['S'] {
        (seq!['S'], GRADE_GOLD)
    } else if code == seq!['A'] {
        (seq!['A'], GRADE_GREEN)
    } else if code == seq!['B'] {
        (seq!['B'], GRADE_BLUE)
    } else if code == seq!['C'] {
        (seq!['C'], GRADE_PURPLE)
    } else if code == seq!['D'] {
        (seq!['D'], GRADE_RED)
    } else {
        (seq!['?'], GRADE_RED)
    }
}

/// A judgment count that ends `COUNT_GAP` before `x`, and its dot at `x`.
pub open spec fn count_ops(count: i32, font: Font, color: u32, x: i64, y: i64) -> Seq<Drawn> {
    seq![
        Drawn::Text {
            text: decimal_text(count as int),
            style: TextStyle {
                x: (x - COUNT_GAP) as i64,
                y,
                align: Align::Right,
                font,
                color: WHITE,
                anti_alias: false,
            },
        },
        Drawn::Dot { dot: Dot { x, y: (y - DOT_RISE) as i64, radius: DOT_RADIUS, color } },
    ]
}

/// The three judgment counts about the centre `x`: "ok" in green 40 pixels to
/// the left, "meh" in yellow 10 pixels to the right, misses in red 60 pixels
/// to the right.
pub open spec fn statistics_ops(ok: i32, meh: i32, miss: i32, font: Font, x: i64, y: i64) -> Seq<
    Drawn,
> {
    count_ops(ok, font, GREEN, (x - 400) as i64, y) + count_ops(
        meh,
        font,
        YELLOW,
        (x + 100) as i64,
        y,
    ) + count_ops(miss, font, RED, (x + 600) as i64, y)
}

fn draw_text(canvas: &mut Canvas, text: &str, style: TextStyle)
    ensures
        final(canvas)@ == old(canvas)@.push(Drawn::Text { text: text@, style }),
        final(canvas).width == old(canvas).width,
        final(canvas).height == old(canvas).height,
{
    canvas.draw(DrawOp::Text { text: String::from_str(text), style });
}

fn draw_label(canvas: &mut Canvas, font: Font, align: Align, text: &str, x: i64, y: i64)
    ensures
        final(canvas)@ == old(canvas)@.push(label(text@, font, align, x, y)),
        final(canvas).width == old(canvas).width,
        final(canvas).height == old(canvas).height,
{
    draw_text(canvas, text, TextStyle { x, y, align, font, color: WHITE, anti_alias: true });
}

/// Washes the card with the cover artwork, where there is one to draw.
pub fn draw_background(canvas: &mut Canvas, cover: Option<ImageSize>)
    requires
        old(canvas).width <= i32::MAX,
        old(canvas).height <= i32::MAX,
    ensures
        final(canvas)@ == old(canvas)@ + background_ops(
            old(canvas).width,
            old(canvas).height,
            cover,
        ),
        final(canvas).width == old(canvas).width,
        final(canvas).height == old(canvas).height,
{
    match cover {
        Some(size) => {
            if size.width > 0 && size.height > 0 {
                let placed = cover_placement(canvas.width, canvas.height, size);
                canvas.draw(DrawOp::Cover { cover: placed });
                assert(canvas@ =~= old(canvas)@ + background_ops(
                    old(canvas).width,
                    old(canvas).height,
                    cover,
                ));
                return ;
            }
        },
        None => {},
    }
    assert(canvas@ =~= old(canvas)@ + background_ops(
        old(canvas).width,
        old(canvas).height,
        cover,
    ));
}

/// Draws avatar number `index` into the rounded square of side `size` at
/// `(x, y)`. An avatar that could not be decoded is left out.
pub fn draw_profile_image(
    canvas: &mut Canvas,
    index: usize,
    avatar: Option<ImageSize>,
    x: i64,
    y: i64,
    size: i64,
    radius: i64,
)
    requires
        in_reach(x),
        in_reach(y),
        in_reach(size),
        in_reach(radius),
    ensures
        final(canvas)@ == old(canvas)@ + avatar_ops(index, avatar, x, y, size, radius),
        final(canvas).width == old(canvas).width,
        final(canvas).height == old(canvas).height,
{
    let clip = create_rounded_rect_path(x, y, size, size, radius);
    match avatar {
        Some(image) => {
            if image.width > 0 && image.height > 0 {
                canvas.draw(
                    DrawOp::Avatar { frame: AvatarFrame { index, image, x, y, side: size }, clip },
                );
                assert(canvas@ =~= old(canvas)@ + avatar_ops(index, avatar, x, y, size, radius));
                return ;
            }
        },
        None => {},
    }
    assert(canvas@ =~= old(canvas)@ + avatar_ops(index, avatar, x, y, size, radius));
}

/// Draws a user name, starting at `x`.
pub fn draw_username(canvas: &mut Canvas, font: Font, username: &str, x: i64, y: i64)
    ensures
        final(canvas)@ == old(canvas)@.push(label(username@, font, Align::Left, x, y)),
        final(canvas).width == old(canvas).width,
        final(canvas).height == old(canvas).height,
{
    draw_label(canvas, font, Align::Left, username, x, y);
}

/// Draws the modifiers of a score, ending at `x`.
pub fn draw_mods(canvas: &mut Canvas, font: Font, mods: &str, x: i64, y: i64)
    ensures
        final(canvas)@ == old(canvas)@.push(label(mods@, font, Align::Right, x, y)),
        final(canvas).width == old(canvas).width,
        final(canvas).height == old(canvas).height,
{
    draw_label(canvas, font, Align::Right, mods, x, y);
}

/// Draws the grouped score with the combo reached and the highest combo of
/// the beatmap, starting at `x`.
pub fn draw_score_with_combo(
    canvas: &mut Canvas,
    font: Font,
    score: i64,
    combo: i32,
    max_combo: &str,
    x: i64,
    y: i64,
)
    ensures
        final(canvas)@ == old(canvas)@.push(
            label(score_line(score as int, combo as int, max_combo@), font, Align::Left, x, y),
        ),
        final(canvas).width == old(canvas).width,
        final(canvas).height == old(canvas).height,
{
    let text = score_with_combo(score, combo, max_combo);
    draw_label(canvas, font, Align::Left, text.as_str(), x, y);
}

/// Draws an accuracy given in hundredths of a percent, ending at `x`.
pub fn draw_accuracy(canvas: &mut Canvas, font: Font, accuracy: u32, x: i64, y: i64)
    ensures
        final(canvas)@ == old(canvas)@.push(
            label(accuracy_text(accuracy as nat), font, Align::Right, x, y),
        ),
        final(canvas).width == old(canvas).width,
        final(canvas).height == old(canvas).height,
{
    let text = accuracy_string(accuracy);
    draw_label(canvas, font, Align::Right, text.as_str(), x, y);
}

/// Draws the date on which a play ended, ending at `x`.
pub fn draw_ended_at_date(canvas: &mut Canvas, font: Font, ended_at: &str, x: i64, y: i64)
    ensures
        final(canvas)@ == old(canvas)@.push(
            label(short_date(ended_at@), font, Align::Right, x, y),
        ),
        final(canvas).width == old(canvas).width,
        final(canvas).height == old(canvas).height,
{
    let text = format_date(ended_at);
    draw_label(canvas, font, Align::Right, text.as_str(), x, y);
}

/// Finds the letter and the colour that a grade code is shown with.
pub fn rank_display(rank: &str) -> (badge: (&'static str, u32))
    ensures
        (badge.0@, badge.1) == rank_badge(rank@),
{
    proof {
        reveal_strlit("XH");
        reveal_strlit("X");
        reveal_strlit("SH");
        reveal_strlit("S");
        reveal_strlit("A");
        reveal_strlit("B");
        reveal_strlit("C");
        reveal_strlit("D");
        reveal_strlit("SS");
        reveal_strlit("?");
        assert("XH"@ =~= seq!['X', 'H']);
        assert("X"@ =~= seq!['X']);
        assert("SH"@ =~= seq!['S', 'H']);
        assert("S"@ =~= seq!['S']);
        assert("A"@ =~= seq!['A']);
        assert("B"@ =~= seq!['B']);
        assert("C"@ =~= seq!['C']);
        assert("D"@ =~= seq!['D']);
        assert("SS"@ =~= seq!['S', 'S']);
        assert("?"@ =~= seq!['?']);
    }
    if same_text(rank, "XH") {
        ("SS", GRADE_SILVER)
    } else if same_text(rank, "X") {
        ("SS", GRADE_GOLD)
    } else if same_text(rank, "SH") {
        ("S", GRADE_SILVER)
    } else if same_text(rank, "S") {
        ("S", GRADE_GOLD)
    } else if same_text(rank, "A") {
        ("A", GRADE_GREEN)
    } else if same_text(rank, "B") {
        ("B", GRADE_BLUE)
    } else if same_text(rank, "C") {
        ("C", GRADE_PURPLE)
    } else if same_text(rank, "D") {
        ("D", GRADE_RED)
    } else {
        ("?", GRADE_RED)
    }
}

/// Draws the letter of a grade in the colour of that grade, starting at `x`.
pub fn draw_rank(canvas: &mut Canvas, font: Font, rank: &str, x: i64, y: i64)
    ensures
        final(canvas)@ == old(canvas)@.push(
            Drawn::Text {
                text: rank_badge(rank@).0,
                style: TextStyle {
                    x,
                    y,
                    align: Align::Left,
                    font,
                    color: rank_badge(rank@).1,
                    anti_alias: true,
                },
            },
        ),
        final(canvas).width == old(canvas).width,
        final(canvas).height == old(canvas).height,
{
    let (letter, color) = rank_display(rank);
    draw_text(
        canvas,
        letter,
        TextStyle { x, y, align: Align::Left, font, color, anti_alias: true },
    );
}

fn draw_count(canvas: &mut Canvas, font: Font, count: i32, color: u32, x: i64, y: i64)
    requires
        -2 * crate::layout::REACH <= x <= 2 * crate::layout::REACH,
        in_reach(y),
    ensures
        final(canvas)@ == old(canvas)@ + count_ops(count, font, color, x, y),
        final(canvas).width == old(canvas).width,
        final(canvas).height == old(canvas).height,
{
    let text = decimal_string(count as i64);
    draw_text(
        canvas,
        text.as_str(),
        TextStyle {
            x: x - COUNT_GAP,
            y,
            align: Align::Right,
            font,
            color: WHITE,
            anti_alias: false,
        },
    );
    canvas.draw(DrawOp::Dot { dot: Dot { x, y: y - DOT_RISE, radius: DOT_RADIUS, color } });
    assert(canvas@ =~= old(canvas)@ + count_ops(count, font, color, x, y));
}

/// Draws the three judgment counts `(ok, meh, miss)` about the centre `x`,
/// each followed by its dot.
pub fn draw_statistics(
    canvas: &mut Canvas,
    font: Font,
    statistics: (i32, i32, i32),
    x: i64,
    y: i64,
)
    requires
        in_reach(x),
        in_reach(y),
    ensures
        final(canvas)@ == old(canvas)@ + statistics_ops(
            statistics.0,
            statistics.1,
            statistics.2,
            font,
            x,
            y,
        ),
        final(canvas).width == old(canvas).width,
        final(canvas).height == old(canvas).height,
{
    let (ok, meh, miss) = statistics;
    draw_count(canvas, font, ok, GREEN, x - 400, y);
    draw_count(canvas, font, meh, YELLOW, x + 100, y);
    draw_count(canvas, font, miss, RED, x + 600, y);
    assert(canvas@ =~= old(canvas)@ + statistics_ops(ok, meh, miss, font, x, y));
}

/// The type of user names and grades.
pub open spec fn bold_type() -> Font {
    Font { typeface: Typeface::Bold, size: TEXT_SIZE }
}

/// The type of modifiers, scores, accuracy and dates.
pub open spec fn regular_type() -> Font {
    Font { typeface: Typeface::Regular, size: TEXT_SIZE }
}

/// The type of the judgment counts.
pub open spec fn small_type() -> Font {
    Font { typeface: Typeface::Regular, size: COUNT_SIZE }
}

/// Everything that row `i` draws for `score`, in drawing order: avatar, user
/// name, modifiers, score with combo, accuracy, date, grade, judgment counts.
pub open spec fn row_ops(score: Score, avatar: Option<ImageSize>, max_combo: Seq<char>, i: int) -> Seq<
    Drawn,
> {
    let row = row_layout_of(i);
    avatar_ops(i as usize, avatar, row.avatar_left, row.top, row.avatar_side, row.avatar_radius)
        + seq![
        label(score.user.username@, bold_type(), Align::Left, row.left, row.upper),
        label(mods_text(score.mods@), regular_type(), Align::Right, row.right, row.upper),
        label(
            score_line(score.legacy_total_score as int, score.max_combo as int, max_combo),
            regular_type(),
            Align::Left,
            row.left,
            row.middle,
        ),
        label(
            accuracy_text(score.accuracy as nat),
            regular_type(),
            Align::Right,
            row.right,
            row.middle,
        ),
        label(short_date(score.ended_at@), regular_type(), Align::Right, row.right, row.lower),
        Drawn::Text {
            text: rank_badge(score.rank@).0,
            style: TextStyle {
                x: row.left,
                y: row.lower,
                align: Align::Left,
                font: bold_type(),
                color: rank_badge(score.rank@).1,
                anti_alias: true,
            },
        },
    ] + statistics_ops(
        tally(score.statistics.ok),
        tally(score.statistics.meh),
        tally(score.statistics.miss),
        small_type(),
        row.center,
        row.lower,
    )
}

/// What the first `n` rows draw, row after row.
pub open spec fn rows_ops(
    scores: Seq<Score>,
    avatars: Seq<Option<ImageSize>>,
    max_combo: Seq<char>,
    n: int,
) -> Seq<Drawn>
    decreases n,
{
    if n <= 0 {
        Seq::empty()
    } else {
        rows_ops(scores, avatars, max_combo, n - 1) + row_ops(
            scores[n - 1],
            avatars[n - 1],
            max_combo,
            n - 1,
        )
    }
}

/// Everything that a card draws: a black ground, the cover artwork where
/// there is one, and one row for each score.
pub open spec fn card_ops(
    scores: Seq<Score>,
    avatars: Seq<Option<ImageSize>>,
    max_combo: Seq<char>,
    cover: Option<ImageSize>,
) -> Seq<Drawn> {
    seq![Drawn::Clear { color: BLACK }] + background_ops(
        CANVAS_WIDTH,
        canvas_height_of(scores.len() as int) as u32,
        cover,
    ) + rows_ops(scores, avatars, max_combo, scores.len() as int)
}

/// Draws row `i` of a card for `score`.
pub fn draw_row(
    canvas: &mut Canvas,
    score: &Score,
    avatar: Option<ImageSize>,
    max_combo: &str,
    i: usize,
)
    requires
        i <= MAX_ROWS,
    ensures
        final(canvas)@ == old(canvas)@ + row_ops(*score, avatar, max_combo@, i as int),
        final(canvas).width == old(canvas).width,
        final(canvas).height == old(canvas).height,
{
    let row = row_layout(i);
    let bold = Font { typeface: Typeface::Bold, size: TEXT_SIZE };
    let regular = Font { typeface: Typeface::Regular, size: TEXT_SIZE };
    let small = Font { typeface: Typeface::Regular, size: COUNT_SIZE };
    draw_profile_image(
        canvas,
        i,
        avatar,
        row.avatar_left,
        row.top,
        row.avatar_side,
        row.avatar_radius,
    );
    draw_username(canvas, bold, score.user.username.as_str(), row.left, row.upper);
    let mods = score.mods_string();
    draw_mods(canvas, regular, mods.as_str(), row.right, row.upper);
    draw_score_with_combo(
        canvas,
        regular,
        score.legacy_total_score,
        score.max_combo,
        max_combo,
        row.left,
        row.middle,
    );
    draw_accuracy(canvas, regular, score.accuracy, row.right, row.middle);
    draw_ended_at_date(canvas, regular, score.ended_at.as_str(), row.right, row.lower);
    draw_rank(canvas, bold, score.rank.as_str(), row.left, row.lower);
    draw_statistics(
        canvas,
        small,
        (score.statistics.ok_count(), score.statistics.meh_count(), score.statistics.miss_count()),
        row.center,
        row.lower,
    );
    assert(canvas@ =~= old(canvas)@ + row_ops(*score, avatar, max_combo@, i as int));
}

/// Which of the two typefaces of a card could be loaded.
#[derive(Clone, Copy, Debug, PartialEq, Eq, Structural)]
pub struct Typefaces {
    pub regular: bool,
    pub bold: bool,
}

/// Why no card could be composed.
#[derive(Clone, Copy, Debug, PartialEq, Eq, Structural)]
pub enum ComposeError {
    /// A typeface is missing; no text can be set without it.
    FontLoad { typeface: Typeface },
    /// The list of avatars is not as long as the list of scores.
    AvatarCount { scores: usize, avatars: usize },
}

/// Composes the card of a leaderboard: one row for each score, in the order
/// given, on a black ground washed with the cover artwork.
///
/// `avatars` holds, for each score, the size of its decoded avatar, or `None`
/// where decoding failed; such an avatar is left out and the row is drawn
/// without it. `cover` is the decoded size of the beatmap's artwork, or
/// `None`, in which case the wash is left out. A missing typeface and a list
/// of avatars of another length than the scores are errors, in this order.
pub fn generate_leaderboard(
    leaderboard: &Vec<Score>,
    avatars: &Vec<Option<ImageSize>>,
    beatmap_info: &Beatmap,
    cover: Option<ImageSize>,
    typefaces: Typefaces,
) -> (card: Result<Canvas, ComposeError>)
    requires
        leaderboard.len() <= MAX_ROWS,
    ensures
        !typefaces.regular ==> card == Err::<Canvas, ComposeError>(
            ComposeError::FontLoad { typeface: Typeface::Regular },
        ),
        typefaces.regular && !typefaces.bold ==> card == Err::<Canvas, ComposeError>(
            ComposeError::FontLoad { typeface: Typeface::Bold },
        ),
        typefaces.regular && typefaces.bold && avatars.len() != leaderboard.len() ==> card
            == Err::<Canvas, ComposeError>(
            ComposeError::AvatarCount { scores: leaderboard.len(), avatars: avatars.len() },
        ),
        typefaces.regular && typefaces.bold && avatars.len() == leaderboard.len() ==> {
            &&& card matches Ok(canvas)
            &&& canvas.width == CANVAS_WIDTH
            &&& canvas.height == canvas_height_of(leaderboard.len() as int)
            &&& canvas@ == card_ops(leaderboard@, avatars@, beatmap_info.max_combo@, cover)
        },
{
    if !typefaces.regular {
        return Err(ComposeError::FontLoad { typeface: Typeface::Regular });
    }
    if !typefaces.bold {
        return Err(ComposeError::FontLoad { typeface: Typeface::Bold });
    }
    if avatars.len() != leaderboard.len() {
        return Err(
            ComposeError::AvatarCount { scores: leaderboard.len(), avatars: avatars.len() },
        );
    }
    let height = canvas_height(leaderboard.len());
    let mut canvas = Canvas::new(CANVAS_WIDTH, height);
    canvas.draw(DrawOp::Clear { color: BLACK });
    draw_background(&mut canvas, cover);
    let ghost ground = canvas@;
    assert(ground =~= seq![Drawn::Clear { color: BLACK }] + background_ops(
        CANVAS_WIDTH,
        height,
        cover,
    ));
    let mut i: usize = 0;
    assert(canvas@ =~= ground + rows_ops(leaderboard@, avatars@, beatmap_info.max_combo@, 0));
    while i < leaderboard.len()
        invariant
            i <= leaderboard.len(),
            leaderboard.len() <= MAX_ROWS,
            avatars.len() == leaderboard.len(),
            canvas.width == CANVAS_WIDTH,
            canvas.height == height,
            canvas@ == ground + rows_ops(
                leaderboard@,
                avatars@,
                beatmap_info.max_combo@,
                i as int,
            ),
        decreases leaderboard.len() - i,
    {
        draw_row(&mut canvas, &leaderboard[i], avatars[i], beatmap_info.max_combo.as_str(), i);
        assert(canvas@ =~= ground + rows_ops(
            leaderboard@,
            avatars@,
            beatmap_info.max_combo@,
            i + 1,
        ));
        i = i + 1;
    }
    Ok(canvas)
}

} // verus!
