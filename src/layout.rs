//! Where everything goes on the 200 x 200 dashboard, as lists of drawing
//! operations.
use vstd::prelude::*;
use crate::calendar::{
    day_number, days_in_month, first_weekday_offset, grid_cell, valid_date, weekday_from_sunday,
    month_length,
};
use crate::canvas::{in_rect, GlyphMask, BLACK, WHITE};
use crate::compose::{
    apply_op, ops_view, sprite_source, Assets, DrawOp, Face, OpView, Picture, WeatherIcons, ATLAS_LEN, BLACK_DIGITS,
    WEEKDAY_GLYPHS, WHITE_DIGITS,
};
use crate::text::{decimal, decimal_text, signed_decimal, signed_decimal_text};
use crate::weather::{
    air_is_unhealthy, parse_index_spec, temperature_offsets, temperature_offsets_spec, Weather,
    WeatherWeek, AIR_UNHEALTHY_ABOVE,
};
use vstd::string::StringExecFns;

verus! {

/// Atlas offset of the digit variant: white digits where the cell is
/// highlighted, black ones elsewhere.
pub open spec fn digit_base(inverted: bool) -> int {
    if inverted {
        WHITE_DIGITS as int
    } else {
        BLACK_DIGITS as int
    }
}

/// Sprite indices of the tens and ones digits of `num` (0..=99).
pub fn digit_sprites(num: u32, inverted: bool) -> (r: (usize, usize))
    requires
        num <= 99,
    ensures
        r.0 as int == num as int / 10 + digit_base(inverted),
        r.1 as int == num as int % 10 + digit_base(inverted),
        r.0 < 27,
        r.1 < 27,
{
    let base: usize = if inverted {
        WHITE_DIGITS
    } else {
        BLACK_DIGITS
    };
    ((num / 10) as usize + base, (num % 10) as usize + base)
}

/// Drawing the digit sprites of `num` (0..=99) at (x, y) and (x + 4, y)
/// sets the 3 x 5 block at (x, y) to the tens glyph and the 3 x 5 block at
/// (x + 4, y) to the ones glyph, and leaves every other pixel as it was,
/// the column between the two blocks included.
pub proof fn lemma_digit_pair(
    px: Seq<u8>,
    w: int,
    num: int,
    inverted: bool,
    x: int,
    y: int,
    coverage: GlyphMask,
    assets: &Assets,
    icons: &WeatherIcons,
)
    requires
        assets.wf(),
        0 <= num <= 99,
    ensures
        ({
            let tens = num / 10 + digit_base(inverted);
            let ones = num % 10 + digit_base(inverted);
            let after = apply_op(
                apply_op(px, w, OpView::Sprite { index: tens, x, y }, coverage, assets, icons),
                w,
                OpView::Sprite { index: ones, x: x + 4, y },
                coverage,
                assets,
                icons,
            );
            &&& after.len() == px.len()
            &&& forall|k: int|
                0 <= k < px.len() ==> #[trigger] after[k] == if in_rect(k % w, k / w, x, y, 3, 5) {
                    assets.atlas.glyphs@[tens].pixel(k % w - x, k / w - y)
                } else if in_rect(k % w, k / w, x + 4, y, 3, 5) {
                    assets.atlas.glyphs@[ones].pixel(k % w - (x + 4), k / w - y)
                } else {
                    px[k]
                }
        }),
{
    let tens = num / 10 + digit_base(inverted);
    let ones = num % 10 + digit_base(inverted);
    assert(0 <= tens < ATLAS_LEN && sprite_source(tens).2 == 3 && sprite_source(tens).3 == 5);
    assert(0 <= ones < ATLAS_LEN && sprite_source(ones).2 == 3 && sprite_source(ones).3 == 5);
    assert(assets.atlas.glyphs@[tens].width == 3 && assets.atlas.glyphs@[tens].height == 5);
    assert(assets.atlas.glyphs@[ones].width == 3 && assets.atlas.glyphs@[ones].height == 5);
}

/// Operation `j` of the calendar drawn at (x, y) for a month of `n` days
/// whose day 1 is `offset` cells into the first row, with day `today`
/// highlighted:
/// 0..8 the weekday header (a black band, then Sunday..Saturday every
/// 9 pixels), 8 the highlight behind today's cell, then per day its tens
/// and ones digits, 4 pixels apart, in white on today and in black
/// elsewhere.
pub open spec fn calendar_op(x: int, y: int, offset: int, today: int, j: int) -> OpView {
    if j == 0 {
        OpView::Fill { x, y, w: 63, h: 9, color: BLACK }
    } else if j == 1 {
        OpView::Sprite { index: WEEKDAY_GLYPHS + 6, x: x + 1, y: y + 1 }
    } else if j < 8 {
        OpView::Sprite { index: WEEKDAY_GLYPHS + (j - 2), x: x + 10 + 9 * (j - 2), y: y + 1 }
    } else if j == 8 {
        OpView::Fill {
            x: x + 9 * grid_cell(today - 1, offset).0,
            y: y + 9 + 7 * grid_cell(today - 1, offset).1,
            w: 9,
            h: 7,
            color: BLACK,
        }
    } else {
        let day = (j - 9) / 2;
        let ones = (j - 9) % 2 == 1;
        let num = day + 1;
        let cell = grid_cell(day, offset);
        OpView::Sprite {
            index: (if ones { num % 10 } else { num / 10 }) + digit_base(num == today),
            x: x + 1 + 9 * cell.0 + if ones { 4int } else { 0int },
            y: y + 10 + 7 * cell.1,
        }
    }
}

pub open spec fn calendar_ops_spec(x: int, y: int, offset: int, n: int, today: int) -> Seq<OpView> {
    Seq::new((9 + 2 * n) as nat, |j: int| calendar_op(x, y, offset, today, j))
}

/// The month calendar of the given date, anchored at (x, y).
pub fn calendar_ops(year: i32, month: u32, today: u32, x: u32, y: u32) -> (r: Vec<DrawOp>)
    requires
        valid_date(year as int, month as int, today as int),
        x as int + 63 <= u32::MAX,
        y as int + 51 <= u32::MAX,
    ensures
        ops_view(r@) == calendar_ops_spec(
            x as int,
            y as int,
            weekday_from_sunday(day_number(year as int, month as int, 1)),
            month_length(year as int, month as int),
            today as int,
        ),
{
    let start = first_weekday_offset(year, month);
    let max = days_in_month(year, month);
    let ghost spec_ops = calendar_ops_spec(x as int, y as int, start as int, max as int, today as int);
    let mut r: Vec<DrawOp> = Vec::new();
    r.push(DrawOp::Fill { x, y, w: 63, h: 9, color: BLACK });
    r.push(DrawOp::Sprite { index: WEEKDAY_GLYPHS + 6, x: x + 1, y: y + 1 });
    let mut i: u32 = 0;
    while i < 6
        invariant
            i <= 6,
            r@.len() == 2 + i,
            x as int + 63 <= u32::MAX,
            y as int + 51 <= u32::MAX,
            forall|j: int| 0 <= j < r@.len() ==> (#[trigger] r@[j])@ == calendar_op(x as int, y as int, start as int, today as int, j),
        decreases 6 - i,
    {
        r.push(DrawOp::Sprite { index: WEEKDAY_GLYPHS + i as usize, x: x + 10 + 9 * i, y: y + 1 });
        i += 1;
    }
    let (col, row) = grid_position_of_day(today - 1, start);
    r.push(DrawOp::Fill { x: x + 9 * col, y: y + 9 + 7 * row, w: 9, h: 7, color: BLACK });
    let mut d: u32 = 0;
    while d < max
        invariant
            d <= max,
            max as int == month_length(year as int, month as int),
            28 <= max <= 31,
            start < 7,
            1 <= today <= max,
            r@.len() == 9 + 2 * d,
            x as int + 63 <= u32::MAX,
            y as int + 51 <= u32::MAX,
            forall|j: int| 0 <= j < r@.len() ==> (#[trigger] r@[j])@ == calendar_op(x as int, y as int, start as int, today as int, j),
        decreases max - d,
    {
        let num = d + 1;
        let (c, w) = grid_position_of_day(d, start);
        let (tens, ones) = digit_sprites(num, num == today);
        r.push(DrawOp::Sprite { index: tens, x: x + 1 + 9 * c, y: y + 10 + 7 * w });
        r.push(DrawOp::Sprite { index: ones, x: x + 1 + 9 * c + 4, y: y + 10 + 7 * w });
        proof {
            assert((9 + 2 * d - 9) / 2 == d as int);
            assert((9 + 2 * d + 1 - 9) / 2 == d as int);
            assert((9 + 2 * d - 9) % 2 == 0);
            assert((9 + 2 * d + 1 - 9) % 2 == 1);
        }
        d += 1;
    }
    assert(ops_view(r@) =~= spec_ops);
    r
}

/// Cell of the zero-based day `d` of a month of at most 31 days.
fn grid_position_of_day(d: u32, offset: u32) -> (r: (u32, u32))
    requires
        d < 31,
        offset < 7,
    ensures
        r.0 as int == grid_cell(d as int, offset as int).0,
        r.1 as int == grid_cell(d as int, offset as int).1,
        r.0 < 7,
        r.1 <= 5,
{
    crate::calendar::grid_position(d, offset)
}

/// Month names, January first.
pub const MONTH_NAMES: [&'static str; 12] = [
    "一月", "二月", "三月", "四月", "五月", "六月", "七月", "八月", "九月", "十月", "十一月", "十二月",
];

/// Weekday names, Monday first.
pub const WEEK_NAMES: [&'static str; 7] = ["一", "二", "三", "四", "五", "六", "日"];

/// Anchor of the month calendar on the dashboard.
pub const CALENDAR_X: u32 = 135;
pub const CALENDAR_Y: u32 = 150;

/// The date block: the day in large digits, "<year>年 <month>月", the
/// weekday, the lunar label and the month's name above the calendar
/// (further left for the longer names of November and December).
pub open spec fn date_ops_spec(year: int, month: int, day: int, weekday: int, lunar: Seq<char>) -> Seq<OpView> {
    seq![
        OpView::Text { face: Face::Sarasa, size: 121, x: 100, y: 0, color: BLACK, text: decimal_text(day as nat) },
        OpView::Text {
            face: Face::Sarasa,
            size: 21,
            x: 107,
            y: 1,
            color: BLACK,
            text: signed_decimal_text(year) + "年 "@ + decimal_text(month as nat) + "月"@,
        },
        OpView::Text { face: Face::Sarasa, size: 30, x: 120, y: 98, color: BLACK, text: "星期"@ + WEEK_NAMES@[weekday]@ },
        OpView::Text { face: Face::Pixel, size: 11, x: 137, y: 128, color: BLACK, text: lunar },
        OpView::Text {
            face: Face::Pixel,
            size: 11,
            x: if month > 10 { 154 } else { 157 },
            y: 140,
            color: BLACK,
            text: MONTH_NAMES@[month - 1]@,
        },
    ]
}

/// See `date_ops_spec`; `lunar` is the lunar label of the date.
pub fn date_ops(year: i32, month: u32, day: u32, lunar: &str) -> (r: Vec<DrawOp>)
    requires
        valid_date(year as int, month as int, day as int),
    ensures
        ops_view(r@) == date_ops_spec(
            year as int,
            month as int,
            day as int,
            crate::calendar::weekday_from_monday(day_number(year as int, month as int, day as int)),
            lunar@,
        ),
{
    let mut r: Vec<DrawOp> = Vec::new();
    r.push(DrawOp::Text { face: Face::Sarasa, size: 121, x: 100, y: 0, color: BLACK, text: decimal(day) });
    let mut ym = signed_decimal(year);
    ym.append("年 ");
    let m = decimal(month);
    ym.append(m.as_str());
    ym.append("月");
    r.push(DrawOp::Text { face: Face::Sarasa, size: 21, x: 107, y: 1, color: BLACK, text: ym });
    let wd = crate::calendar::weekday_monday_first(year, month, day);
    let mut week = String::from_str("星期");
    week.append(WEEK_NAMES[wd as usize]);
    r.push(DrawOp::Text { face: Face::Sarasa, size: 30, x: 120, y: 98, color: BLACK, text: week });
    r.push(DrawOp::Text { face: Face::Pixel, size: 11, x: 137, y: 128, color: BLACK, text: String::from_str(lunar) });
    let mx: u32 = if month > 10 { 154 } else { 157 };
    r.push(DrawOp::Text {
        face: Face::Pixel,
        size: 11,
        x: mx,
        y: 140,
        color: BLACK,
        text: String::from_str(MONTH_NAMES[(month - 1) as usize]),
    });
    assert(ops_view(r@) =~= date_ops_spec(
        year as int,
        month as int,
        day as int,
        wd as int,
        lunar@,
    ));
    r
}

/// The current-conditions block: icon, condition text, temperature (placed
/// by its length) with its unit, and the air-quality index, on a black
/// badge in white when `unhealthy`.
pub open spec fn weather_day_spec(wea: Seq<char>, tem: Seq<char>, air: Seq<char>, unhealthy: bool) -> Seq<OpView> {
    let (tx, ux) = temperature_offsets_spec(vstd::utf8::encode_utf8(tem).len() as int);
    let color = if unhealthy { WHITE } else { BLACK };
    seq![
        OpView::Image { picture: Picture::CurrentIcon, x: 6, y: 3 },
        OpView::Text { face: Face::Sarasa, size: 30, x: 60, y: 75, color: BLACK, text: wea },
        OpView::Text { face: Face::Sarasa, size: 50, x: tx as int, y: 80, color: BLACK, text: tem },
        OpView::Text { face: Face::Source, size: 25, x: ux as int, y: 98, color: BLACK, text: "℃"@ },
    ] + (if unhealthy {
        seq![OpView::Fill { x: 79, y: 103, w: 41, h: 21, color: BLACK }]
    } else {
        Seq::<OpView>::empty()
    }) + seq![
        OpView::Text { face: Face::Pixel, size: 11, x: 80, y: 104, color, text: "空气质量"@ },
        OpView::Text { face: Face::Pixel, size: 11, x: 80, y: 114, color, text: "指数:"@ },
        OpView::Text { face: Face::Pixel, size: 11, x: 103, y: 114, color, text: air },
    ]
}

/// See `weather_day_spec`; `None` when the air-quality index is not a
/// number.
pub fn weather_day_ops(w: &Weather) -> (r: Option<Vec<DrawOp>>)
    ensures
        match parse_index_spec(w.air@) {
            Some(v) => r.is_some() && ops_view(r.unwrap()@) == weather_day_spec(
                w.wea@,
                w.tem@,
                w.air@,
                v > AIR_UNHEALTHY_ABOVE,
            ),
            None => r.is_none(),
        },
{
    let unhealthy = match air_is_unhealthy(w.air.as_str()) {
        Some(u) => u,
        None => return None,
    };
    let (tx, ux) = temperature_offsets(w.tem.as_str());
    let mut r: Vec<DrawOp> = Vec::new();
    r.push(DrawOp::Image { picture: Picture::CurrentIcon, x: 6, y: 3 });
    r.push(DrawOp::Text { face: Face::Sarasa, size: 30, x: 60, y: 75, color: BLACK, text: w.wea.clone() });
    r.push(DrawOp::Text { face: Face::Sarasa, size: 50, x: tx, y: 80, color: BLACK, text: w.tem.clone() });
    r.push(DrawOp::Text { face: Face::Source, size: 25, x: ux, y: 98, color: BLACK, text: String::from_str("℃") });
    let color: u8 = if unhealthy { WHITE } else { BLACK };
    if unhealthy {
        r.push(DrawOp::Fill { x: 79, y: 103, w: 41, h: 21, color: BLACK });
    }
    r.push(DrawOp::Text { face: Face::Pixel, size: 11, x: 80, y: 104, color, text: String::from_str("空气质量") });
    r.push(DrawOp::Text { face: Face::Pixel, size: 11, x: 80, y: 114, color, text: String::from_str("指数:") });
    r.push(DrawOp::Text { face: Face::Pixel, size: 11, x: 103, y: 114, color, text: w.air.clone() });
    assert(ops_view(r@) =~= weather_day_spec(w.wea@, w.tem@, w.air@, unhealthy));
    Some(r)
}

/// Left edge of forecast column `i`: columns are 40-pixel icons with a
/// 4-pixel gap, starting 4 pixels in.
pub open spec fn forecast_column_x(i: int) -> int {
    4 + i * (40 + 4)
}

/// The forecast row, drawn in this order: the three icons, the black band
/// with the day labels in white, the "day" and "night" row labels, two
/// temperature-unit glyphs per column, then the day temperatures and the
/// night temperatures.
pub open spec fn weather_week_spec(w: WeatherWeek) -> Seq<OpView> {
    let x0 = forecast_column_x(0);
    let x1 = forecast_column_x(1);
    let x2 = forecast_column_x(2);
    seq![
        OpView::Image { picture: Picture::ForecastIcon(0), x: x0, y: 136 },
        OpView::Image { picture: Picture::ForecastIcon(1), x: x1, y: 136 },
        OpView::Image { picture: Picture::ForecastIcon(2), x: x2, y: 136 },
        OpView::Fill { x: 0, y: 126, w: 134, h: 11, color: BLACK },
        OpView::Text { face: Face::Pixel, size: 11, x: x0 + 10, y: 127, color: WHITE, text: "今天"@ },
        OpView::Text { face: Face::Pixel, size: 11, x: x1 + 10, y: 127, color: WHITE, text: "明天"@ },
        OpView::Text { face: Face::Pixel, size: 11, x: x2 + 10, y: 127, color: WHITE, text: "后天"@ },
        OpView::Text { face: Face::Pixel, size: 11, x: 2, y: 176, color: BLACK, text: "日"@ },
        OpView::Text { face: Face::Pixel, size: 11, x: 2, y: 188, color: BLACK, text: "夜"@ },
        OpView::Image { picture: Picture::TemperatureUnit, x: x0 + 28, y: 177 },
        OpView::Image { picture: Picture::TemperatureUnit, x: x0 + 28, y: 189 },
        OpView::Image { picture: Picture::TemperatureUnit, x: x1 + 28, y: 177 },
        OpView::Image { picture: Picture::TemperatureUnit, x: x1 + 28, y: 189 },
        OpView::Image { picture: Picture::TemperatureUnit, x: x2 + 28, y: 177 },
        OpView::Image { picture: Picture::TemperatureUnit, x: x2 + 28, y: 189 },
        OpView::Text { face: Face::Pixel, size: 11, x: x0 + 12, y: 176, color: BLACK, text: w.data@[0].tem_day@ },
        OpView::Text { face: Face::Pixel, size: 11, x: x1 + 12, y: 176, color: BLACK, text: w.data@[1].tem_day@ },
        OpView::Text { face: Face::Pixel, size: 11, x: x2 + 12, y: 176, color: BLACK, text: w.data@[2].tem_day@ },
        OpView::Text { face: Face::Pixel, size: 11, x: x0 + 12, y: 188, color: BLACK, text: w.data@[0].tem_night@ },
        OpView::Text { face: Face::Pixel, size: 11, x: x1 + 12, y: 188, color: BLACK, text: w.data@[1].tem_night@ },
        OpView::Text { face: Face::Pixel, size: 11, x: x2 + 12, y: 188, color: BLACK, text: w.data@[2].tem_night@ },
    ]
}

/// See `weather_week_spec`; `None` when the forecast has fewer than three
/// days.
pub fn weather_week_ops(w: &WeatherWeek) -> (r: Option<Vec<DrawOp>>)
    ensures
        w.data@.len() < 3 <==> r.is_none(),
        r.is_some() ==> ops_view(r.unwrap()@) == weather_week_spec(*w),
{
    if w.data.len() < 3 {
        return None;
    }
    let xs: [u32; 3] = [4, 4 + 40 + 4, 4 + 40 + 4 + 40 + 4];
    let labels: [&'static str; 3] = ["今天", "明天", "后天"];
    let mut r: Vec<DrawOp> = Vec::new();
    r.push(DrawOp::Image { picture: Picture::ForecastIcon(0), x: xs[0], y: 136 });
    r.push(DrawOp::Image { picture: Picture::ForecastIcon(1), x: xs[1], y: 136 });
    r.push(DrawOp::Image { picture: Picture::ForecastIcon(2), x: xs[2], y: 136 });
    r.push(DrawOp::Fill { x: 0, y: 126, w: 134, h: 11, color: BLACK });
    r.push(DrawOp::Text { face: Face::Pixel, size: 11, x: xs[0] + 10, y: 127, color: WHITE, text: String::from_str(labels[0]) });
    r.push(DrawOp::Text { face: Face::Pixel, size: 11, x: xs[1] + 10, y: 127, color: WHITE, text: String::from_str(labels[1]) });
    r.push(DrawOp::Text { face: Face::Pixel, size: 11, x: xs[2] + 10, y: 127, color: WHITE, text: String::from_str(labels[2]) });
    r.push(DrawOp::Text { face: Face::Pixel, size: 11, x: 2, y: 176, color: BLACK, text: String::from_str("日") });
    r.push(DrawOp::Text { face: Face::Pixel, size: 11, x: 2, y: 188, color: BLACK, text: String::from_str("夜") });
    r.push(DrawOp::Image { picture: Picture::TemperatureUnit, x: xs[0] + 28, y: 177 });
    r.push(DrawOp::Image { picture: Picture::TemperatureUnit, x: xs[0] + 28, y: 189 });
    r.push(DrawOp::Image { picture: Picture::TemperatureUnit, x: xs[1] + 28, y: 177 });
    r.push(DrawOp::Image { picture: Picture::TemperatureUnit, x: xs[1] + 28, y: 189 });
    r.push(DrawOp::Image { picture: Picture::TemperatureUnit, x: xs[2] + 28, y: 177 });
    r.push(DrawOp::Image { picture: Picture::TemperatureUnit, x: xs[2] + 28, y: 189 });
    r.push(DrawOp::Text { face: Face::Pixel, size: 11, x: xs[0] + 12, y: 176, color: BLACK, text: w.data[0].tem_day.clone() });
    r.push(DrawOp::Text { face: Face::Pixel, size: 11, x: xs[1] + 12, y: 176, color: BLACK, text: w.data[1].tem_day.clone() });
    r.push(DrawOp::Text { face: Face::Pixel, size: 11, x: xs[2] + 12, y: 176, color: BLACK, text: w.data[2].tem_day.clone() });
    r.push(DrawOp::Text { face: Face::Pixel, size: 11, x: xs[0] + 12, y: 188, color: BLACK, text: w.data[0].tem_night.clone() });
    r.push(DrawOp::Text { face: Face::Pixel, size: 11, x: xs[1] + 12, y: 188, color: BLACK, text: w.data[1].tem_night.clone() });
    r.push(DrawOp::Text { face: Face::Pixel, size: 11, x: xs[2] + 12, y: 188, color: BLACK, text: w.data[2].tem_night.clone() });
    assert(ops_view(r@) =~= weather_week_spec(*w));
    Some(r)
}

} // verus!
