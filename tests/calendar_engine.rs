use calendar::calendar::{days_in_month, first_weekday_offset, grid_position, weekday_monday_first};
use calendar::lunar::{lunar_label, lunar_label_of_date};
use calendar::text::{decimal, signed_decimal};

#[test]
fn days_in_month_regular_months() {
    assert_eq!(days_in_month(2023, 1), 31);
    assert_eq!(days_in_month(2023, 4), 30);
    assert_eq!(days_in_month(2023, 6), 30);
    assert_eq!(days_in_month(2023, 11), 30);
    assert_eq!(days_in_month(2023, 12), 31);
}

#[test]
fn days_in_month_february_leap_rules() {
    assert_eq!(days_in_month(2024, 2), 29);
    assert_eq!(days_in_month(2023, 2), 28);
    assert_eq!(days_in_month(1900, 2), 28);
    assert_eq!(days_in_month(2000, 2), 29);
    assert_eq!(days_in_month(-4, 2), 29);
}

#[test]
fn days_in_month_december_rolls_into_next_year() {
    assert_eq!(days_in_month(1999, 12), 31);
    assert_eq!(days_in_month(-1, 12), 31);
}

#[test]
fn first_weekday_offsets_are_sunday_based() {
    // 2024-02-01 is a Thursday, 2024-03-01 a Friday, 2023-10-01 a Sunday.
    assert_eq!(first_weekday_offset(2024, 2), 4);
    assert_eq!(first_weekday_offset(2024, 3), 5);
    assert_eq!(first_weekday_offset(2023, 10), 0);
    // 0001-01-01 is a Monday, 0000-01-01 a Saturday.
    assert_eq!(first_weekday_offset(1, 1), 1);
    assert_eq!(first_weekday_offset(0, 1), 6);
    assert_eq!(days_in_month(0, 2), 29);
}

#[test]
fn weekday_monday_first_values() {
    assert_eq!(weekday_monday_first(2024, 2, 29), 3);
    assert_eq!(weekday_monday_first(2023, 10, 1), 6);
    assert_eq!(weekday_monday_first(2024, 1, 1), 0);
}

#[test]
fn grid_position_formula() {
    assert_eq!(grid_position(0, 4), (4, 0));
    assert_eq!(grid_position(28, 4), (4, 4));
    assert_eq!(grid_position(30, 5), (0, 5));
}

#[test]
fn grid_cells_of_a_month_are_distinct_and_contiguous() {
    for &(year, month) in &[(2024, 2), (2024, 3), (2023, 10), (2021, 2)] {
        let n = days_in_month(year, month);
        let offset = first_weekday_offset(year, month);
        let mut seen = std::collections::HashSet::new();
        let rows = (n + offset + 6) / 7;
        for d in 0..n {
            let (c, r) = grid_position(d, offset);
            assert!(c < 7 && r < rows);
            assert!(seen.insert((c, r)));
            assert_eq!(r * 7 + c, d + offset);
        }
        assert_eq!(seen.len() as u32, n);
    }
}

#[test]
fn lunar_labels_from_tables() {
    assert_eq!(lunar_label(1, 1), "农历正月初一");
    assert_eq!(lunar_label(12, 23), "农历腊月廿三");
    assert_eq!(lunar_label(11, 30), "农历冬月三十");
    assert_eq!(lunar_label(10, 11), "农历十月十一");
}

#[test]
fn lunar_labels_total_and_non_empty() {
    for m in 1..=12 {
        for d in 1..=30 {
            let l = lunar_label(m, d);
            assert!(!l.is_empty());
            assert!(l.starts_with("农历"));
        }
    }
}

#[test]
fn lunar_label_of_solar_dates() {
    assert_eq!(lunar_label_of_date(2024, 2, 10), Some(String::from("农历正月初一")));
    assert_eq!(lunar_label_of_date(2023, 1, 22), Some(String::from("农历正月初一")));
    assert_eq!(lunar_label_of_date(1800, 1, 1), None);
}

#[test]
fn decimal_spelling() {
    assert_eq!(decimal(0), "0");
    assert_eq!(decimal(7), "7");
    assert_eq!(decimal(2024), "2024");
    assert_eq!(decimal(4294967295), "4294967295");
    assert_eq!(signed_decimal(-5), "-5");
    assert_eq!(signed_decimal(1999), "1999");
}
