//! The whole dashboard: from a date and a weather snapshot to the packed
//! e-ink frame.
use vstd::prelude::*;
use crate::calendar::{day_number, month_length, valid_date, weekday_from_monday, weekday_from_sunday};
use crate::canvas::{Canvas, GlyphMask, WHITE};
use crate::compose::{
    apply_ops, coverage_fits, draw_all, op_fits, op_valid, ops_view, Assets, DrawOp, Face, OpView, WeatherIcons,
};
use crate::text::rasterize_text;
use crate::layout::{
    calendar_ops, calendar_ops_spec, date_ops, date_ops_spec, weather_day_ops, weather_day_spec,
    weather_week_ops, weather_week_spec, CALENDAR_X, CALENDAR_Y,
};
use crate::lunar::{lunar_label_of_date, lunar_label_text, lunar_month_day, valid_lunar};
use crate::packer::{pack, packs_to, standard_convention, PackConvention};
use crate::weather::{parse_index_spec, Weather, WeatherWeek, AIR_UNHEALTHY_ABOVE};

verus! {

/// Width of the dashboard in pixels.
pub const WIDTH: u32 = 200;

/// Height of the dashboard in pixels.
pub const HEIGHT: u32 = 200;

/// Why a dashboard could not be rendered.
#[derive(Clone, Copy, Debug, PartialEq, Eq, Structural)]
pub enum RenderError {
    /// The date lies outside the lunar tables.
    LunarDateUnavailable,
    /// The air-quality index is not a number.
    InvalidAirIndex,
    /// The forecast has fewer than three days.
    ShortForecast,
    /// Fewer than three forecast icons were given.
    MissingForecastIcon,
    /// Some drawing would fall off the canvas, or a text is beyond the
    /// rasterizer's bounds.
    OutOfBounds,
}

/// The lunar label of a solar date, where there is one.
pub open spec fn lunar_label_spec(year: int, month: int, day: int) -> Option<Seq<char>> {
    match lunar_month_day(year, month, day) {
        Some((lm, ld)) => if valid_lunar(lm as int, ld as int) {
            Some(lunar_label_text(lm as int, ld as int))
        } else {
            None
        },
        None => None,
    }
}

/// The operations that draw the dashboard of a date, or the first reason
/// that it cannot be drawn: the date block, the month calendar, the current
/// conditions and the forecast row, in that order.
pub open spec fn dashboard_spec(year: int, month: int, day: int, w: Weather, week: WeatherWeek) -> Result<Seq<OpView>, RenderError> {
    match lunar_label_spec(year, month, day) {
        None => Err(RenderError::LunarDateUnavailable),
        Some(lunar) => match parse_index_spec(w.air@) {
            None => Err(RenderError::InvalidAirIndex),
            Some(air) => if week.data@.len() < 3 {
                Err(RenderError::ShortForecast)
            } else {
                Ok(
                    date_ops_spec(year, month, day, weekday_from_monday(day_number(year, month, day)), lunar)
                        + calendar_ops_spec(
                        CALENDAR_X as int,
                        CALENDAR_Y as int,
                        weekday_from_sunday(day_number(year, month, 1)),
                        month_length(year, month),
                        day,
                    ) + weather_day_spec(w.wea@, w.tem@, w.air@, air > AIR_UNHEALTHY_ABOVE)
                        + weather_week_spec(week),
                )
            },
        },
    }
}

/// See `dashboard_spec`.
pub fn dashboard_ops(year: i32, month: u32, day: u32, weather: &Weather, week: &WeatherWeek) -> (r: Result<Vec<DrawOp>, RenderError>)
    requires
        valid_date(year as int, month as int, day as int),
    ensures
        match dashboard_spec(year as int, month as int, day as int, *weather, *week) {
            Ok(s) => r.is_ok() && ops_view(r.unwrap()@) == s,
            Err(e) => r == Err::<Vec<DrawOp>, RenderError>(e),
        },
{
    let lunar = match lunar_label_of_date(year, month, day) {
        Some(l) => l,
        None => return Err(RenderError::LunarDateUnavailable),
    };
    let mut ops = date_ops(year, month, day, lunar.as_str());
    let mut cal = calendar_ops(year, month, day, CALENDAR_X, CALENDAR_Y);
    let mut now = match weather_day_ops(weather) {
        Some(o) => o,
        None => return Err(RenderError::InvalidAirIndex),
    };
    let mut days = match weather_week_ops(week) {
        Some(o) => o,
        None => return Err(RenderError::ShortForecast),
    };
    let ghost (a, b, c, d) = (ops@, cal@, now@, days@);
    ops.append(&mut cal);
    ops.append(&mut now);
    ops.append(&mut days);
    assert(ops@ == a + b + c + d);
    assert(ops_view(ops@) =~= ops_view(a) + ops_view(b) + ops_view(c) + ops_view(d));
    Ok(ops)
}

/// The white page a dashboard is drawn on, as pixels.
pub open spec fn blank_pixels() -> Seq<u8> {
    Seq::new((WIDTH * HEIGHT) as nat, |k: int| WHITE)
}

/// Every operation is valid on the dashboard's canvas.
pub open spec fn ops_fit(s: Seq<OpView>, assets: &Assets, icons: &WeatherIcons) -> bool {
    forall|i: int| 0 <= i < s.len() ==> op_valid(#[trigger] s[i], WIDTH as int, HEIGHT as int, assets, icons)
}

/// One coverage mask per operation, of the canvas's size for each text.
pub open spec fn coverages_fit(s: Seq<OpView>, coverages: Seq<GlyphMask>) -> bool {
    &&& coverages.len() == s.len()
    &&& forall|i: int| 0 <= i < s.len() ==> coverage_fits(#[trigger] s[i], coverages[i], WIDTH as int, HEIGHT as int)
}

/// The pixels of the dashboard: `s` applied in order to the white page,
/// each text through its coverage mask.
pub open spec fn page_pixels(s: Seq<OpView>, coverages: Seq<GlyphMask>, assets: &Assets, icons: &WeatherIcons) -> Seq<u8> {
    apply_ops(blank_pixels(), WIDTH as int, s, coverages, s.len() as int, assets, icons)
}

/// Draws the operations on a white 200 x 200 canvas, each text through the
/// coverage mask given for it, and packs the result with the standard
/// convention.
pub fn compose_frame(ops: &Vec<DrawOp>, coverages: &Vec<GlyphMask>, assets: &Assets, icons: &WeatherIcons) -> (r: Vec<u8>)
    requires
        assets.wf(),
        icons.wf(),
        ops_fit(ops_view(ops@), assets, icons),
        coverages_fit(ops_view(ops@), coverages@),
    ensures
        r@.len() == WIDTH as int * HEIGHT as int / 8,
        packs_to(page_pixels(ops_view(ops@), coverages@, assets, icons), standard_convention(), r@),
{
    let ghost v = ops_view(ops@);
    assert forall|i: int|
        0 <= i < ops@.len() implies op_valid(#[trigger] ops@[i]@, WIDTH as int, HEIGHT as int, assets, icons)
            && coverage_fits(ops@[i]@, coverages@[i], WIDTH as int, HEIGHT as int) by {
        assert(v[i] == ops@[i]@);
    }
    let mut canvas = Canvas::new(WIDTH, HEIGHT, WHITE);
    assert(canvas.pixels@ == blank_pixels());
    draw_all(&mut canvas, ops, coverages, assets, icons);
    pack(&canvas, PackConvention::standard())
}

/// Whether every operation is valid on the dashboard's canvas.
pub fn all_ops_fit(ops: &Vec<DrawOp>, assets: &Assets, icons: &WeatherIcons) -> (r: bool)
    requires
        assets.wf(),
    ensures
        r == ops_fit(ops_view(ops@), assets, icons),
{
    let ghost v = ops_view(ops@);
    let mut i: usize = 0;
    while i < ops.len()
        invariant
            assets.wf(),
            v == ops_view(ops@),
            i <= ops@.len(),
            forall|j: int| 0 <= j < i ==> op_valid(#[trigger] v[j], WIDTH as int, HEIGHT as int, assets, icons),
        decreases ops@.len() - i,
    {
        if !op_fits(&ops[i], WIDTH, HEIGHT, assets, icons) {
            assert(v[i as int] == ops@[i as int]@);
            return false;
        }
        assert(v[i as int] == ops@[i as int]@);
        i += 1;
    }
    true
}

/// The coverage mask of each text operation from the font rasterizer, and
/// an empty mask for every other operation.
fn rasterize_texts(ops: &Vec<DrawOp>, assets: &Assets, icons: &WeatherIcons) -> (r: Vec<GlyphMask>)
    requires
        ops_fit(ops_view(ops@), assets, icons),
    ensures
        coverages_fit(ops_view(ops@), r@),
{
    let ghost v = ops_view(ops@);
    let mut r: Vec<GlyphMask> = Vec::new();
    let mut i: usize = 0;
    while i < ops.len()
        invariant
            v == ops_view(ops@),
            ops_fit(v, assets, icons),
            i <= ops@.len(),
            r@.len() == i,
            forall|j: int| 0 <= j < i ==> coverage_fits(#[trigger] v[j], r@[j], WIDTH as int, HEIGHT as int),
        decreases ops@.len() - i,
    {
        assert(v[i as int] == ops@[i as int]@);
        assert(op_valid(v[i as int], WIDTH as int, HEIGHT as int, assets, icons));
        let m = match &ops[i] {
            DrawOp::Text { face, size, x, y, text, .. } => {
                let font = match face {
                    Face::Sarasa => &assets.sarasa,
                    Face::Pixel => &assets.pixel,
                    Face::Source => &assets.source,
                };
                rasterize_text(font, *size, *x, *y, WIDTH, HEIGHT, text.as_str())
            },
            _ => GlyphMask { width: 0, height: 0, pixels: Vec::new() },
        };
        r.push(m);
        i += 1;
    }
    r
}

/// Renders the dashboard of a date: draws it on a white 200 x 200 canvas,
/// each text through the coverage mask the font rasterizer gives for it,
/// and packs it with the standard convention into `WIDTH * HEIGHT / 8`
/// bytes. Drawing that would fall off the canvas is refused with
/// `OutOfBounds`.
pub fn render(
    assets: &Assets,
    year: i32,
    month: u32,
    day: u32,
    weather: &Weather,
    week: &WeatherWeek,
    icons: &WeatherIcons,
) -> (r: Result<Vec<u8>, RenderError>)
    requires
        valid_date(year as int, month as int, day as int),
        assets.wf(),
        icons.wf(),
    ensures
        match dashboard_spec(year as int, month as int, day as int, *weather, *week) {
            Err(e) => r == Err::<Vec<u8>, RenderError>(e),
            Ok(s) => if icons.forecast@.len() < 3 {
                r == Err::<Vec<u8>, RenderError>(RenderError::MissingForecastIcon)
            } else if !ops_fit(s, assets, icons) {
                r == Err::<Vec<u8>, RenderError>(RenderError::OutOfBounds)
            } else {
                r.is_ok() && r.unwrap()@.len() == WIDTH as int * HEIGHT as int / 8 && exists|coverages: Seq<GlyphMask>|
                    coverages_fit(s, coverages) && packs_to(
                        #[trigger] page_pixels(s, coverages, assets, icons),
                        standard_convention(),
                        r.unwrap()@,
                    )
            },
        },
{
    let ops = dashboard_ops(year, month, day, weather, week)?;
    if icons.forecast.len() < 3 {
        return Err(RenderError::MissingForecastIcon);
    }
    if !all_ops_fit(&ops, assets, icons) {
        return Err(RenderError::OutOfBounds);
    }
    let coverages = rasterize_texts(&ops, assets, icons);
    let frame = compose_frame(&ops, &coverages, assets, icons);
    assert(coverages_fit(ops_view(ops@), coverages@) && packs_to(
        page_pixels(ops_view(ops@), coverages@, assets, icons),
        standard_convention(),
        frame@,
    ));
    Ok(frame)
}

} // verus!
