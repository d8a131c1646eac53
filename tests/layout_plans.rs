use calendar::canvas::{BLACK, WHITE};
use calendar::compose::{DrawOp, Face, Picture};
use calendar::dashboard::{dashboard_ops, RenderError};
use calendar::layout::{calendar_ops, date_ops, digit_sprites, weather_day_ops, weather_week_ops};
use calendar::weather::{
    air_is_unhealthy, fallback_icon_path, icon_path, parse_index, temperature_offsets,
    with_trailing_separator, Weather,
    WeatherWeek, WeatherWeekDay,
};

fn weather(tem: &str, air: &str) -> Weather {
    Weather {
        city: String::from("上海"),
        wea: String::from("多云"),
        wea_img: String::from("yun"),
        tem: String::from(tem),
        tem_day: String::from("8"),
        tem_night: String::from("4"),
        win: String::from("东风"),
        win_speed: String::from("1级"),
        win_meter: String::from("2km/h"),
        air: String::from(air),
    }
}

fn forecast_day(day: &str, night: &str) -> WeatherWeekDay {
    WeatherWeekDay {
        date: String::from("2020-04-21"),
        wea: String::from("晴"),
        wea_img: String::from("qing"),
        tem_day: String::from(day),
        tem_night: String::from(night),
        win: String::from("北风"),
        win_speed: String::from("3-4级"),
    }
}

fn week(n: usize) -> WeatherWeek {
    let all = [("17", "4"), ("18", "-2"), ("20", "10")];
    WeatherWeek { city: String::from("济南"), data: all[..n].iter().map(|&(d, t)| forecast_day(d, t)).collect() }
}

fn sprite(op: &DrawOp) -> (usize, u32, u32) {
    match op {
        DrawOp::Sprite { index, x, y } => (*index, *x, *y),
        other => panic!("not a sprite: {:?}", other),
    }
}

fn text_of(op: &DrawOp) -> (u32, u32, u8, String) {
    match op {
        DrawOp::Text { x, y, color, text, .. } => (*x, *y, *color, text.clone()),
        other => panic!("not a text: {:?}", other),
    }
}

#[test]
fn digit_sprites_split_tens_and_ones() {
    for num in 0..=99u32 {
        let (t, o) = digit_sprites(num, false);
        assert_eq!((t, o), ((num / 10) as usize, (num % 10) as usize));
        let (t, o) = digit_sprites(num, true);
        assert_eq!((t, o), ((num / 10) as usize + 17, (num % 10) as usize + 17));
        assert!(t < 27 && o < 27);
    }
    assert_eq!(digit_sprites(29, false), (2, 9));
    assert_eq!(digit_sprites(29, true), (19, 26));
}

#[test]
fn calendar_header_row() {
    let ops = calendar_ops(2024, 2, 29, 135, 150);
    assert!(matches!(ops[0], DrawOp::Fill { x: 135, y: 150, w: 63, h: 9, color: BLACK }));
    assert_eq!(sprite(&ops[1]), (16, 136, 151));
    for i in 0..6 {
        assert_eq!(sprite(&ops[2 + i]), (10 + i, 145 + 9 * i as u32, 151));
    }
}

#[test]
fn leap_day_calendar_places_day_29_and_no_day_30() {
    let ops = calendar_ops(2024, 2, 29, 135, 150);
    // Header, highlight, and two digits for each of 29 days.
    assert_eq!(ops.len(), 9 + 2 * 29);
    // 2024-02-01 is a Thursday: day 29 is at place 32, column 4, row 4.
    assert!(matches!(ops[8], DrawOp::Fill { x: 171, y: 187, w: 9, h: 7, color: BLACK }));
    assert_eq!(sprite(&ops[ops.len() - 2]), (2 + 17, 172, 188));
    assert_eq!(sprite(&ops[ops.len() - 1]), (9 + 17, 176, 188));
    // Day 28 is not highlighted.
    assert_eq!(sprite(&ops[ops.len() - 4]), (2, 163, 188));
    assert_eq!(sprite(&ops[ops.len() - 3]), (8, 167, 188));
    let sprites = ops.iter().filter(|o| matches!(o, DrawOp::Sprite { .. })).count();
    assert_eq!(sprites, 7 + 2 * 29);
}

#[test]
fn calendar_first_day_cell() {
    let ops = calendar_ops(2023, 10, 1, 0, 0);
    assert_eq!(ops.len(), 9 + 62);
    assert!(matches!(ops[8], DrawOp::Fill { x: 0, y: 9, w: 9, h: 7, color: BLACK }));
    assert_eq!(sprite(&ops[9]), (17, 1, 10));
    assert_eq!(sprite(&ops[10]), (18, 5, 10));
    assert_eq!(sprite(&ops[11]), (0, 10, 10));
    assert_eq!(sprite(&ops[12]), (2, 14, 10));
}

#[test]
fn date_block_texts() {
    let ops = date_ops(2024, 2, 29, "农历正月二十");
    assert_eq!(ops.len(), 5);
    assert_eq!(text_of(&ops[0]), (100, 0, BLACK, String::from("29")));
    assert_eq!(text_of(&ops[1]), (107, 1, BLACK, String::from("2024年 2月")));
    assert_eq!(text_of(&ops[2]), (120, 98, BLACK, String::from("星期四")));
    assert_eq!(text_of(&ops[3]), (137, 128, BLACK, String::from("农历正月二十")));
    assert_eq!(text_of(&ops[4]), (157, 140, BLACK, String::from("二月")));
    let ops = date_ops(2023, 12, 1, "x");
    assert_eq!(text_of(&ops[4]), (154, 140, BLACK, String::from("十二月")));
}

#[test]
fn air_quality_above_threshold_gets_badge() {
    let ops = weather_day_ops(&weather("8", "101")).unwrap();
    assert_eq!(ops.len(), 8);
    assert!(matches!(ops[4], DrawOp::Fill { x: 79, y: 103, w: 41, h: 21, color: BLACK }));
    assert_eq!(text_of(&ops[5]), (80, 104, WHITE, String::from("空气质量")));
    assert_eq!(text_of(&ops[6]), (80, 114, WHITE, String::from("指数:")));
    assert_eq!(text_of(&ops[7]), (103, 114, WHITE, String::from("101")));
}

#[test]
fn air_quality_at_or_below_threshold_is_plain() {
    for air in ["99", "100"] {
        let ops = weather_day_ops(&weather("8", air)).unwrap();
        assert_eq!(ops.len(), 7);
        assert!(!ops.iter().any(|o| matches!(o, DrawOp::Fill { .. })));
        assert_eq!(text_of(&ops[6]), (103, 114, BLACK, String::from(air)));
    }
}

#[test]
fn air_quality_that_is_not_a_number_is_refused() {
    assert!(weather_day_ops(&weather("8", "good")).is_none());
    assert_eq!(air_is_unhealthy("101"), Some(true));
    assert_eq!(air_is_unhealthy("100"), Some(false));
    assert_eq!(air_is_unhealthy(""), None);
    assert_eq!(air_is_unhealthy("+101"), Some(true));
    let ops = weather_day_ops(&weather("8", "+101")).unwrap();
    assert!(matches!(ops[4], DrawOp::Fill { x: 79, y: 103, w: 41, h: 21, color: BLACK }));
}

#[test]
fn parse_index_values() {
    assert_eq!(parse_index("0"), Some(0));
    assert_eq!(parse_index("029"), Some(29));
    assert_eq!(parse_index("65535"), Some(65535));
    assert_eq!(parse_index("65536"), None);
    assert_eq!(parse_index("1000000"), None);
    assert_eq!(parse_index("12a"), None);
    assert_eq!(parse_index("-1"), None);
    assert_eq!(parse_index("+101"), Some(101));
    assert_eq!(parse_index("+"), None);
    assert_eq!(parse_index("++1"), None);
    assert_eq!(parse_index("1+"), None);
    assert_eq!(parse_index("一"), None);
    assert_eq!(parse_index(""), None);
}

#[test]
fn temperature_position_depends_on_length() {
    assert_eq!(temperature_offsets("8"), (20, 40));
    assert_eq!(temperature_offsets("18"), (10, 50));
    assert_eq!(temperature_offsets("-10"), (0, 60));
    let one = weather_day_ops(&weather("8", "29")).unwrap();
    let two = weather_day_ops(&weather("18", "29")).unwrap();
    let three = weather_day_ops(&weather("-10", "29")).unwrap();
    assert!(matches!(&one[2], DrawOp::Text { face: Face::Sarasa, size: 50, x: 20, y: 80, .. }));
    assert!(matches!(&one[3], DrawOp::Text { face: Face::Source, size: 25, x: 40, y: 98, .. }));
    assert!(matches!(&two[2], DrawOp::Text { x: 10, .. }));
    assert!(matches!(&two[3], DrawOp::Text { x: 50, .. }));
    assert!(matches!(&three[2], DrawOp::Text { x: 0, .. }));
    assert!(matches!(&three[3], DrawOp::Text { x: 60, .. }));
}

#[test]
fn current_conditions_block() {
    let ops = weather_day_ops(&weather("8", "29")).unwrap();
    assert!(matches!(ops[0], DrawOp::Image { picture: Picture::CurrentIcon, x: 6, y: 3 }));
    assert_eq!(text_of(&ops[1]), (60, 75, BLACK, String::from("多云")));
    assert_eq!(text_of(&ops[3]), (40, 98, BLACK, String::from("℃")));
}

#[test]
fn forecast_row() {
    assert!(weather_week_ops(&week(2)).is_none());
    let ops = weather_week_ops(&week(3)).unwrap();
    assert_eq!(ops.len(), 21);
    assert!(matches!(ops[0], DrawOp::Image { picture: Picture::ForecastIcon(0), x: 4, y: 136 }));
    assert!(matches!(ops[1], DrawOp::Image { picture: Picture::ForecastIcon(1), x: 48, y: 136 }));
    assert!(matches!(ops[2], DrawOp::Image { picture: Picture::ForecastIcon(2), x: 92, y: 136 }));
    assert!(matches!(ops[3], DrawOp::Fill { x: 0, y: 126, w: 134, h: 11, color: BLACK }));
    assert_eq!(text_of(&ops[5]), (58, 127, WHITE, String::from("明天")));
    assert!(matches!(ops[14], DrawOp::Image { picture: Picture::TemperatureUnit, x: 120, y: 189 }));
    assert_eq!(text_of(&ops[16]), (60, 176, BLACK, String::from("18")));
    assert_eq!(text_of(&ops[19]), (60, 188, BLACK, String::from("-2")));
}

#[test]
fn icon_paths_and_fallback() {
    assert_eq!(icon_path("static/", "yun", 80), "static/icons/80/yun.png");
    assert_eq!(fallback_icon_path("static/", 40), "static/icons/40/404.png");
    assert_eq!(icon_path("static/", "no-such-key", 40), "static/icons/40/no-such-key.png");
}

#[test]
fn dashboard_for_leap_day() {
    let ops = dashboard_ops(2024, 2, 29, &weather("8", "101"), &week(3)).unwrap();
    assert_eq!(ops.len(), 5 + 67 + 8 + 21);
    assert_eq!(text_of(&ops[3]).3, "农历正月二十");
    assert!(matches!(ops[5], DrawOp::Fill { x: 135, y: 150, w: 63, h: 9, color: BLACK }));
}

#[test]
fn dashboard_errors() {
    assert_eq!(
        dashboard_ops(1800, 1, 1, &weather("8", "29"), &week(3)).err(),
        Some(RenderError::LunarDateUnavailable)
    );
    assert_eq!(dashboard_ops(2024, 2, 29, &weather("8", "n/a"), &week(3)).err(), Some(RenderError::InvalidAirIndex));
    assert_eq!(dashboard_ops(2024, 2, 29, &weather("8", "29"), &week(1)).err(), Some(RenderError::ShortForecast));
}

#[test]
fn asset_directory_gets_one_trailing_separator() {
    assert_eq!(with_trailing_separator(String::from("static")), "static/");
    assert_eq!(with_trailing_separator(String::from("static/")), "static/");
    assert_eq!(with_trailing_separator(String::from("C:\\assets\\")), "C:\\assets\\");
    assert_eq!(with_trailing_separator(String::from("资源")), "资源/");
    assert_eq!(with_trailing_separator(String::new()), "/");
}

#[test]
fn leap_day_calendar_on_canvas_keeps_empty_cells() {
    let black = calendar::canvas::GlyphMask::from_pixels(79, 7, vec![0; 79 * 7]).unwrap();
    let white = calendar::canvas::GlyphMask::from_pixels(30, 5, vec![100; 150]).unwrap();
    let atlas = calendar::compose::SpriteAtlas::from_sheets(&black, &white).unwrap();
    let mut c = calendar::canvas::Canvas::new(200, 200, WHITE);
    for op in calendar_ops(2024, 2, 29, 135, 150) {
        match op {
            DrawOp::Fill { x, y, w, h, color } => c.fill_rect(x, y, w, h, color),
            DrawOp::Sprite { index, x, y } => c.blit(&atlas.glyphs[index], x, y),
            other => panic!("unexpected {:?}", other),
        }
    }
    // Cells (5, 4) and (6, 4) and all of row 5 stay blank.
    for y in 187..194 {
        for x in 180..198 {
            assert_eq!(c.get_pixel(x, y), WHITE);
        }
    }
    for y in 194..200 {
        for x in 135..198 {
            assert_eq!(c.get_pixel(x, y), WHITE);
        }
    }
    // Day 29's cell: black highlight with the white digits 2 and 9.
    assert_eq!(c.get_pixel(171, 187), BLACK);
    assert_eq!(c.get_pixel(172, 188), 100);
    assert_eq!(c.get_pixel(175, 188), BLACK);
    assert_eq!(c.get_pixel(176, 188), 100);
    // Day 28's digits are black on white, with a white gap column.
    assert_eq!(c.get_pixel(163, 188), BLACK);
    assert_eq!(c.get_pixel(166, 188), WHITE);
    assert_eq!(c.get_pixel(162, 187), WHITE);
}
