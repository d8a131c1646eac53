//! Drawing operations and their execution on a canvas with the loaded
//! fonts, sprite atlas and weather icons.
use vstd::prelude::*;
use crate::canvas::{blit_px, cropped, fill_px, stamp_px, Canvas, GlyphMask};
use crate::text::{text_fits, MAX_TEXT_BYTES, MAX_TEXT_RASTER, MAX_TEXT_SIZE};

verus! {

/// Number of glyphs in the sprite atlas.
pub const ATLAS_LEN: usize = 27;

/// Atlas index of black digit 0 (digits 0..=9 follow in order).
pub const BLACK_DIGITS: usize = 0;

/// Atlas index of the weekday glyph for Monday (Monday..=Sunday follow).
pub const WEEKDAY_GLYPHS: usize = 10;

/// Atlas index of white digit 0 (digits 0..=9 follow in order).
pub const WHITE_DIGITS: usize = 17;

/// The outline fonts a dashboard uses.
#[derive(Clone, Copy, Debug, PartialEq, Eq, Structural)]
pub enum Face {
    /// Monospaced text, for large numbers and conditions.
    Sarasa,
    /// Small pixel text.
    Pixel,
    /// Regular text, for the temperature unit.
    Source,
}

/// The pictures a dashboard shows besides glyphs.
#[derive(Clone, Copy, Debug, PartialEq, Eq, Structural)]
pub enum Picture {
    /// Icon of the current conditions.
    CurrentIcon,
    /// Icon of forecast day `i` (0 = today).
    ForecastIcon(usize),
    /// The small temperature-unit glyph of the forecast row.
    TemperatureUnit,
}

/// One step of composing a dashboard.
#[derive(Clone, Debug)]
pub enum DrawOp {
    /// Paint a rectangle, which must lie on the canvas, in one colour.
    Fill { x: u32, y: u32, w: u32, h: u32, color: u8 },
    /// Copy sprite `index` of the atlas.
    Sprite { index: usize, x: u32, y: u32 },
    /// Draw text with an outline font at `size` pixels.
    Text { face: Face, size: u16, x: u32, y: u32, color: u8, text: String },
    /// Copy a picture.
    Image { picture: Picture, x: u32, y: u32 },
}

/// What a `DrawOp` says, with its text as characters.
pub enum OpView {
    Fill { x: int, y: int, w: int, h: int, color: u8 },
    Sprite { index: int, x: int, y: int },
    Text { face: Face, size: int, x: int, y: int, color: u8, text: Seq<char> },
    Image { picture: Picture, x: int, y: int },
}

impl View for DrawOp {
    type V = OpView;

    open spec fn view(&self) -> OpView {
        match self {
            DrawOp::Fill { x, y, w, h, color } => OpView::Fill {
                x: *x as int,
                y: *y as int,
                w: *w as int,
                h: *h as int,
                color: *color,
            },
            DrawOp::Sprite { index, x, y } => OpView::Sprite {
                index: *index as int,
                x: *x as int,
                y: *y as int,
            },
            DrawOp::Text { face, size, x, y, color, text } => OpView::Text {
                face: *face,
                size: *size as int,
                x: *x as int,
                y: *y as int,
                color: *color,
                text: text@,
            },
            DrawOp::Image { picture, x, y } => OpView::Image {
                picture: *picture,
                x: *x as int,
                y: *y as int,
            },
        }
    }
}

pub open spec fn ops_view(ops: Seq<DrawOp>) -> Seq<OpView> {
    ops.map_values(|o: DrawOp| o@)
}

/// The sprite glyphs: black digits, weekday headers (Monday first), white
/// digits, at the indices the constants above give.
pub struct SpriteAtlas {
    pub glyphs: Vec<GlyphMask>,
}

/// Where sprite `i` lies on its sheet: digits are 3 x 5 pixels side by side
/// from the left edge; the weekday glyphs, 7 x 7, follow the black digits
/// from x = 30. Black digits and weekdays come from the first sheet, white
/// digits from the second.
pub open spec fn sprite_source(i: int) -> (int, int, int, int) {
    if i < WEEKDAY_GLYPHS {
        (3 * i, 0, 3, 5)
    } else if i < WHITE_DIGITS {
        (30 + 7 * (i - WEEKDAY_GLYPHS), 0, 7, 7)
    } else {
        (3 * (i - WHITE_DIGITS), 0, 3, 5)
    }
}

/// The sheets are large enough for every sprite.
pub open spec fn sheets_fit(black: GlyphMask, white: GlyphMask) -> bool {
    black.width >= 30 + 7 * 7 && black.height >= 7 && white.width >= 30 && white.height >= 5
}

impl SpriteAtlas {
    /// 27 glyphs, each of the size `sprite_source` gives: digits 3 x 5,
    /// weekday headers 7 x 7.
    pub open spec fn wf(&self) -> bool {
        &&& self.glyphs@.len() == ATLAS_LEN
        &&& forall|i: int|
            0 <= i < self.glyphs@.len() ==> (#[trigger] self.glyphs@[i]).wf() && self.glyphs@[i].width
                == sprite_source(i).2 && self.glyphs@[i].height == sprite_source(i).3
    }

    /// Cuts the atlas out of its two sheets (see `sprite_source`); `None`
    /// when a sheet is too small.
    pub fn from_sheets(black: &GlyphMask, white: &GlyphMask) -> (r: Option<SpriteAtlas>)
        requires
            black.wf(),
            white.wf(),
        ensures
            r.is_some() <==> sheets_fit(*black, *white),
            r.is_some() ==> r.unwrap().wf() && forall|i: int|
                0 <= i < ATLAS_LEN ==> cropped(
                    if i < WHITE_DIGITS { *black } else { *white },
                    sprite_source(i).0,
                    sprite_source(i).1,
                    sprite_source(i).2,
                    sprite_source(i).3,
                    #[trigger] r.unwrap().glyphs@[i],
                ),
    {
        if black.width < 30 + 7 * 7 || black.height < 7 || white.width < 30 || white.height < 5 {
            return None;
        }
        let mut glyphs: Vec<GlyphMask> = Vec::with_capacity(ATLAS_LEN);
        let mut i: usize = 0;
        while i < ATLAS_LEN
            invariant
                black.wf(),
                white.wf(),
                sheets_fit(*black, *white),
                i <= ATLAS_LEN,
                glyphs@.len() == i,
                forall|k: int|
                    0 <= k < i ==> cropped(
                        if k < WHITE_DIGITS { *black } else { *white },
                        sprite_source(k).0,
                        sprite_source(k).1,
                        sprite_source(k).2,
                        sprite_source(k).3,
                        #[trigger] glyphs@[k],
                    ),
            decreases ATLAS_LEN - i,
        {
            let g = if i < WEEKDAY_GLYPHS {
                black.crop(3 * i as u32, 0, 3, 5)
            } else if i < WHITE_DIGITS {
                black.crop(30 + 7 * (i - WEEKDAY_GLYPHS) as u32, 0, 7, 7)
            } else {
                white.crop(3 * (i - WHITE_DIGITS) as u32, 0, 3, 5)
            };
            glyphs.push(g);
            i += 1;
        }
        Some(SpriteAtlas { glyphs })
    }
}

/// Fonts and images loaded once and shared by every render.
pub struct Assets {
    pub sarasa: rusttype::Font<'static>,
    pub pixel: rusttype::Font<'static>,
    pub source: rusttype::Font<'static>,
    pub atlas: SpriteAtlas,
    pub temperature_unit: GlyphMask,
}

impl Assets {
    pub open spec fn wf(&self) -> bool {
        self.atlas.wf() && self.temperature_unit.wf()
    }
}

/// The weather icons of one render: current conditions, then one per
/// forecast day.
pub struct WeatherIcons {
    pub current: GlyphMask,
    pub forecast: Vec<GlyphMask>,
}

impl WeatherIcons {
    pub open spec fn wf(&self) -> bool {
        &&& self.current.wf()
        &&& forall|i: int| 0 <= i < self.forecast@.len() ==> #[trigger] self.forecast@[i].wf()
    }
}

/// The mask a picture stands for.
pub open spec fn picture_mask(picture: Picture, assets: &Assets, icons: &WeatherIcons) -> GlyphMask {
    match picture {
        Picture::CurrentIcon => icons.current,
        Picture::ForecastIcon(i) => icons.forecast@[i as int],
        Picture::TemperatureUnit => assets.temperature_unit,
    }
}

/// `mask` placed at (x, y) lies on a `w` x `h` canvas.
pub open spec fn mask_fits(mask: GlyphMask, x: int, y: int, w: int, h: int) -> bool {
    x + mask.width <= w && y + mask.height <= h
}

/// An operation that names only sprites and pictures that exist and draws
/// nowhere off a `w` x `h` canvas; text must be anchored on the canvas
/// within the rasterizer's bounds.
pub open spec fn op_valid(op: OpView, w: int, h: int, assets: &Assets, icons: &WeatherIcons) -> bool {
    match op {
        OpView::Fill { x, y, w: rw, h: rh, .. } => x + rw <= w && y + rh <= h,
        OpView::Sprite { index, x, y } => 0 <= index < ATLAS_LEN && mask_fits(
            assets.atlas.glyphs@[index],
            x,
            y,
            w,
            h,
        ),
        OpView::Image { picture, x, y } => (match picture {
            Picture::ForecastIcon(i) => i < icons.forecast@.len(),
            _ => true,
        }) && mask_fits(picture_mask(picture, assets, icons), x, y, w, h),
        OpView::Text { size, x, y, text, .. } => text_fits(w, h, size, x, y, text),
    }
}

/// A coverage mask for `op`, where it is text: one of the canvas's size.
pub open spec fn coverage_fits(op: OpView, coverage: GlyphMask, w: int, h: int) -> bool {
    match op {
        OpView::Text { .. } => coverage.wf() && coverage.width == w && coverage.height == h,
        _ => true,
    }
}

/// The pixels of a canvas `w` wide after `op`; text is painted in its
/// colour where its `coverage` mask is above 127.
pub open spec fn apply_op(px: Seq<u8>, w: int, op: OpView, coverage: GlyphMask, assets: &Assets, icons: &WeatherIcons) -> Seq<u8> {
    match op {
        OpView::Fill { x, y, w: rw, h: rh, color } => fill_px(px, w, x, y, rw, rh, color),
        OpView::Sprite { index, x, y } => blit_px(px, w, assets.atlas.glyphs@[index], x, y),
        OpView::Image { picture, x, y } => blit_px(px, w, picture_mask(picture, assets, icons), x, y),
        OpView::Text { color, .. } => stamp_px(px, coverage.pixels@, color),
    }
}

/// The pixels after the first `n` operations, operation `i` with coverage
/// mask `coverages[i]`.
pub open spec fn apply_ops(
    px: Seq<u8>,
    w: int,
    ops: Seq<OpView>,
    coverages: Seq<GlyphMask>,
    n: int,
    assets: &Assets,
    icons: &WeatherIcons,
) -> Seq<u8>
    decreases n,
{
    if n <= 0 {
        px
    } else {
        apply_op(apply_ops(px, w, ops, coverages, n - 1, assets, icons), w, ops[n - 1], coverages[n - 1], assets, icons)
    }
}

/// Whether `op` is valid on a `w` x `h` canvas (see `op_valid`).
pub fn op_fits(op: &DrawOp, w: u32, h: u32, assets: &Assets, icons: &WeatherIcons) -> (r: bool)
    requires
        assets.wf(),
    ensures
        r == op_valid(op@, w as int, h as int, assets, icons),
{
    match op {
        DrawOp::Fill { x, y, w: rw, h: rh, .. } => (*x as u64) + (*rw as u64) <= w as u64 && (*y as u64) + (*rh as u64) <= h as u64,
        DrawOp::Sprite { index, x, y } => {
            if *index >= ATLAS_LEN {
                false
            } else {
                let g = &assets.atlas.glyphs[*index];
                (*x as u64) + (g.width as u64) <= w as u64 && (*y as u64) + (g.height as u64) <= h as u64
            }
        },
        DrawOp::Image { picture, x, y } => {
            let mask = match picture {
                Picture::CurrentIcon => &icons.current,
                Picture::ForecastIcon(i) => {
                    if *i >= icons.forecast.len() {
                        return false;
                    }
                    &icons.forecast[*i]
                },
                Picture::TemperatureUnit => &assets.temperature_unit,
            };
            (*x as u64) + (mask.width as u64) <= w as u64 && (*y as u64) + (mask.height as u64) <= h as u64
        },
        DrawOp::Text { size, x, y, text, .. } => {
            let bytes = text.as_str().as_bytes().len();
            *x < w && w <= MAX_TEXT_RASTER && *y < h && h <= MAX_TEXT_RASTER && *size <= MAX_TEXT_SIZE
                && bytes <= MAX_TEXT_BYTES
        },
    }
}

/// Executes one operation on the canvas; text is painted through its
/// coverage mask.
pub fn draw(canvas: &mut Canvas, op: &DrawOp, coverage: &GlyphMask, assets: &Assets, icons: &WeatherIcons)
    requires
        old(canvas).wf(),
        assets.wf(),
        icons.wf(),
        op_valid(op@, old(canvas).width as int, old(canvas).height as int, assets, icons),
        coverage_fits(op@, *coverage, old(canvas).width as int, old(canvas).height as int),
    ensures
        final(canvas).wf(),
        final(canvas).width == old(canvas).width,
        final(canvas).height == old(canvas).height,
        final(canvas).pixels@ == apply_op(old(canvas).pixels@, old(canvas).width as int, op@, *coverage, assets, icons),
{
    match op {
        DrawOp::Fill { x, y, w, h, color } => canvas.fill_rect(*x, *y, *w, *h, *color),
        DrawOp::Sprite { index, x, y } => canvas.blit(&assets.atlas.glyphs[*index], *x, *y),
        DrawOp::Text { color, .. } => canvas.stamp(coverage, *color),
        DrawOp::Image { picture, x, y } => {
            let mask = match picture {
                Picture::CurrentIcon => &icons.current,
                Picture::ForecastIcon(i) => &icons.forecast[*i],
                Picture::TemperatureUnit => &assets.temperature_unit,
            };
            canvas.blit(mask, *x, *y);
        },
    }
}

/// Executes the operations in order, operation `i` with coverage mask
/// `coverages[i]`.
pub fn draw_all(canvas: &mut Canvas, ops: &Vec<DrawOp>, coverages: &Vec<GlyphMask>, assets: &Assets, icons: &WeatherIcons)
    requires
        old(canvas).wf(),
        assets.wf(),
        icons.wf(),
        coverages@.len() == ops@.len(),
        forall|i: int|
            0 <= i < ops@.len() ==> op_valid(#[trigger] ops@[i]@, old(canvas).width as int, old(canvas).height as int, assets, icons)
                && coverage_fits(ops@[i]@, coverages@[i], old(canvas).width as int, old(canvas).height as int),
    ensures
        final(canvas).wf(),
        final(canvas).width == old(canvas).width,
        final(canvas).height == old(canvas).height,
        final(canvas).pixels@ == apply_ops(
            old(canvas).pixels@,
            old(canvas).width as int,
            ops_view(ops@),
            coverages@,
            ops@.len() as int,
            assets,
            icons,
        ),
{
    let ghost v = ops_view(ops@);
    let mut i: usize = 0;
    while i < ops.len()
        invariant
            canvas.wf(),
            canvas.width == old(canvas).width,
            canvas.height == old(canvas).height,
            assets.wf(),
            icons.wf(),
            coverages@.len() == ops@.len(),
            v == ops_view(ops@),
            forall|j: int|
                0 <= j < ops@.len() ==> op_valid(#[trigger] ops@[j]@, canvas.width as int, canvas.height as int, assets, icons)
                    && coverage_fits(ops@[j]@, coverages@[j], canvas.width as int, canvas.height as int),
            i <= ops@.len(),
            canvas.pixels@ == apply_ops(old(canvas).pixels@, canvas.width as int, v, coverages@, i as int, assets, icons),
        decreases ops@.len() - i,
    {
        draw(canvas, &ops[i], &coverages[i], assets, icons);
        assert(v[i as int] == ops@[i as int]@);
        i += 1;
    }
}

} // verus!
