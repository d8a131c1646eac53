//! Traditional lunar-date labels, such as "农历腊月廿三".
use vstd::prelude::*;
use vstd::string::StringExecFns;

verus! {

/// Lunar month names, month 1 first.
pub const LUNAR_MONTH_NAMES: [&'static str; 12] = ["正", "二", "三", "四", "五", "六", "七", "八", "九", "十", "冬", "腊"];

/// Lunar day names, day 1 first.
pub const LUNAR_DAY_NAMES: [&'static str; 30] = [
    "初一", "初二", "初三", "初四", "初五", "初六", "初七", "初八", "初九", "初十",
    "十一", "十二", "十三", "十四", "十五", "十六", "十七", "十八", "十九", "二十",
    "廿一", "廿二", "廿三", "廿四", "廿五", "廿六", "廿七", "廿八", "廿九", "三十",
];

pub open spec fn valid_lunar(month: int, day: int) -> bool {
    1 <= month <= 12 && 1 <= day <= 30
}

/// "农历" + month name + "月" + day name.
pub open spec fn lunar_label_text(month: int, day: int) -> Seq<char> {
    "农历"@ + LUNAR_MONTH_NAMES@[month - 1]@ + "月"@ + LUNAR_DAY_NAMES@[day - 1]@
}

/// Lunar (month, day) of a solar date, where the lunar tables cover it.
pub uninterp spec fn lunar_month_day(year: int, month: int, day: int) -> Option<(u32, u32)>;

/// Relies on lunardate's `LunarDate::from_solar_date`: the lunar month and
/// day of a solar date, or an error where its tables do not reach.
#[verifier::external_body]
fn solar_to_lunar(year: i32, month: u32, day: u32) -> (r: Option<(u32, u32)>)
    ensures
        r == lunar_month_day(year as int, month as int, day as int),
{
    match lunardate::LunarDate::from_solar_date(year, month, day) {
        Ok(d) => Some((d.month(), d.day())),
        Err(_) => None,
    }
}

/// The label of lunar `month` (1..=12) and `day` (1..=30).
pub fn lunar_label(month: u32, day: u32) -> (r: String)
    requires
        valid_lunar(month as int, day as int),
    ensures
        r@ == lunar_label_text(month as int, day as int),
        r@.len() > 0,
{
    proof {
        reveal_strlit("农历");
    }
    let mut r = String::from_str("农历");
    r.append(LUNAR_MONTH_NAMES[(month - 1) as usize]);
    r.append("月");
    r.append(LUNAR_DAY_NAMES[(day - 1) as usize]);
    r
}

/// The lunar label of a solar date, or `None` where the lunar conversion
/// fails or gives a month or day outside the name tables.
pub fn lunar_label_of_date(year: i32, month: u32, day: u32) -> (r: Option<String>)
    ensures
        match lunar_month_day(year as int, month as int, day as int) {
            Some((lm, ld)) if valid_lunar(lm as int, ld as int) =>
                r.is_some() && r.unwrap()@ == lunar_label_text(lm as int, ld as int),
            _ => r.is_none(),
        },
{
    match solar_to_lunar(year, month, day) {
        Some((lm, ld)) => {
            if 1 <= lm && lm <= 12 && 1 <= ld && ld <= 30 {
                Some(lunar_label(lm, ld))
            } else {
                None
            }
        },
        None => None,
    }
}

/// Every lunar month 1..=12 and day 1..=30 has a label, and none is empty.
pub proof fn lemma_lunar_label_total(month: int, day: int)
    requires
        valid_lunar(month, day),
    ensures
        lunar_label_text(month, day).len() > 0,
{
    reveal_strlit("农历");
}

} // verus!
