//! Gregorian calendar arithmetic: month lengths, weekdays and the month grid.
use vstd::prelude::*;

verus! {

/// Smallest year accepted (chrono's lower bound).
pub const MIN_YEAR: i32 = -262143;

/// Years must stay below this one, so that the month after any accepted
/// date is still representable (chrono's upper bound).
pub const MAX_YEAR: i32 = 262142;

pub open spec fn is_leap_year(y: int) -> bool {
    y % 4 == 0 && (y % 100 != 0 || y % 400 == 0)
}

/// Number of days of month `m` (1..=12) in year `y`.
pub open spec fn month_length(y: int, m: int) -> int {
    if m == 2 {
        if is_leap_year(y) { 29 } else { 28 }
    } else if m == 4 || m == 6 || m == 9 || m == 11 {
        30
    } else {
        31
    }
}

pub open spec fn valid_year(y: int) -> bool {
    MIN_YEAR <= y < MAX_YEAR
}

pub open spec fn valid_date(y: int, m: int, d: int) -> bool {
    valid_year(y) && 1 <= m <= 12 && 1 <= d <= month_length(y, m)
}

/// A date that chrono can represent (one year further than `valid_date`).
pub open spec fn representable_date(y: int, m: int, d: int) -> bool {
    MIN_YEAR <= y <= MAX_YEAR && 1 <= m <= 12 && 1 <= d <= month_length(y, m)
}

pub open spec fn days_before_month(y: int, m: int) -> int
    decreases m,
{
    if m <= 1 {
        0
    } else {
        days_before_month(y, m - 1) + month_length(y, m - 1)
    }
}

/// Days in the years before `y` back to 0001-01-01 (negative before it).
pub open spec fn days_before_year(y: int) -> int {
    365 * (y - 1) + (y - 1) / 4 - (y - 1) / 100 + (y - 1) / 400
}

/// Proleptic Gregorian day number; 0001-01-01 is day 1.
pub open spec fn day_number(y: int, m: int, d: int) -> int {
    days_before_year(y) + days_before_month(y, m) + d
}

/// Weekday of a day number, 0 = Sunday .. 6 = Saturday.
pub open spec fn weekday_from_sunday(n: int) -> int {
    n % 7
}

/// Weekday of a day number, 0 = Monday .. 6 = Sunday.
pub open spec fn weekday_from_monday(n: int) -> int {
    (n + 6) % 7
}

/// Cell (column, row) of the zero-based `day_index` in a grid of seven
/// columns whose first row starts `offset` cells in.
pub open spec fn grid_cell(day_index: int, offset: int) -> (int, int) {
    ((day_index + offset) % 7, (day_index + offset) / 7)
}

/// Relies on chrono's `NaiveDate::from_ymd_opt` and
/// `Datelike::num_days_from_ce`: the proleptic Gregorian day count, in which
/// 0001-01-01 is day 1.
#[verifier::external_body]
fn days_from_ce(year: i32, month: u32, day: u32) -> (r: i32)
    requires
        representable_date(year as int, month as int, day as int),
    ensures
        r as int == day_number(year as int, month as int, day as int),
{
    chrono::Datelike::num_days_from_ce(&chrono::NaiveDate::from_ymd_opt(year, month, day).unwrap())
}

proof fn lemma_floor_step(a: int, k: int)
    requires
        k > 0,
    ensures
        a / k - (a - 1) / k == if a % k == 0 { 1int } else { 0int },
{
    vstd::arithmetic::div_mod::lemma_fundamental_div_mod(a, k);
    vstd::arithmetic::div_mod::lemma_fundamental_div_mod(a - 1, k);
    vstd::arithmetic::div_mod::lemma_mod_bound(a, k);
    vstd::arithmetic::div_mod::lemma_mod_bound(a - 1, k);
    let q = a / k;
    let p = (a - 1) / k;
    if a % k == 0 {
        assert(q - p == 1) by (nonlinear_arith)
            requires a == k * q + 0, a - 1 == k * p + (a - 1) % k, 0 <= (a - 1) % k < k, k > 0;
    } else {
        assert((a - 1) % k == a % k - 1) by (nonlinear_arith)
            requires a == k * q + a % k, a - 1 == k * p + (a - 1) % k, 0 <= (a - 1) % k < k,
                0 < a % k < k, k > 0;
        assert(q == p) by (nonlinear_arith)
            requires a == k * q + a % k, a - 1 == k * p + (a % k - 1), k > 0;
    }
}

proof fn lemma_year_length(y: int)
    ensures
        days_before_year(y + 1) - days_before_year(y) == if is_leap_year(y) { 366int } else { 365int },
{
    lemma_floor_step(y, 4);
    lemma_floor_step(y, 100);
    lemma_floor_step(y, 400);
    if y % 100 == 0 {
        vstd::arithmetic::div_mod::lemma_mod_mod(y, 4, 25);
    }
    if y % 400 == 0 {
        vstd::arithmetic::div_mod::lemma_mod_mod(y, 100, 4);
    }
}

/// The first day of the next month comes `month_length(y, m)` days after
/// the first day of month `m`.
pub proof fn lemma_next_month_start(y: int, m: int)
    requires
        1 <= m <= 12,
    ensures
        m < 12 ==> day_number(y, m + 1, 1) - day_number(y, m, 1) == month_length(y, m),
        m == 12 ==> day_number(y + 1, 1, 1) - day_number(y, m, 1) == month_length(y, m),
{
    if m == 12 {
        lemma_year_length(y);
        reveal_with_fuel(days_before_month, 12);
    }
}

/// Number of days in `month` of `year`: the distance from its first day to
/// the first day of the month after it.
pub fn days_in_month(year: i32, month: u32) -> (r: u32)
    requires
        valid_year(year as int),
        1 <= month <= 12,
    ensures
        r as int == month_length(year as int, month as int),
{
    let first = days_from_ce(year, month, 1);
    let next = if month == 12 {
        days_from_ce(year + 1, 1, 1)
    } else {
        days_from_ce(year, month + 1, 1)
    };
    proof {
        lemma_next_month_start(year as int, month as int);
    }
    ((next as i64) - (first as i64)) as u32
}


/// Weekday of the first day of `month` in `year`, 0 = Sunday .. 6 = Saturday:
/// the number of empty cells before day 1 in a Sunday-first grid.
pub fn first_weekday_offset(year: i32, month: u32) -> (r: u32)
    requires
        valid_year(year as int),
        1 <= month <= 12,
    ensures
        r as int == weekday_from_sunday(day_number(year as int, month as int, 1)),
        r < 7,
{
    let n = days_from_ce(year, month, 1);
    weekday_of_day_number(n, 0)
}

/// Weekday of a date, 0 = Monday .. 6 = Sunday.
pub fn weekday_monday_first(year: i32, month: u32, day: u32) -> (r: u32)
    requires
        valid_date(year as int, month as int, day as int),
    ensures
        r as int == weekday_from_monday(day_number(year as int, month as int, day as int)),
        r < 7,
{
    let n = days_from_ce(year, month, day);
    weekday_of_day_number(n, 6)
}

/// `(n + shift) % 7`, for any day number that fits in an `i32`.
fn weekday_of_day_number(n: i32, shift: u32) -> (r: u32)
    requires
        shift < 7,
    ensures
        r as int == (n as int + shift as int) % 7,
        r < 7,
{
    let k: i64 = 306_783_379;
    let lifted = (n as i64 + shift as i64 + 7 * k) as u64;
    proof {
        vstd::arithmetic::div_mod::lemma_mod_add_multiples_vanish(n as int + shift as int, 7);
        vstd::arithmetic::div_mod::lemma_mod_multiples_vanish(k as int, n as int + shift as int, 7);
    }
    (lifted % 7) as u32
}

/// Grid cell (column, row) of the zero-based `day_index` when the first
/// row starts `offset` cells in: `place = day_index + offset`,
/// `column = place % 7`, `row = place / 7`.
pub fn grid_position(day_index: u32, offset: u32) -> (r: (u32, u32))
    requires
        day_index + offset <= u32::MAX,
    ensures
        r.0 as int == grid_cell(day_index as int, offset as int).0,
        r.1 as int == grid_cell(day_index as int, offset as int).1,
        r.0 < 7,
{
    let place = day_index + offset;
    (place % 7, place / 7)
}

pub open spec fn cell_place(column: int, row: int) -> int {
    7 * row + column
}

/// Placing the days `0..n` of a month in the grid from `offset` gives `n`
/// different cells; each lies in the first `ceil((n + offset) / 7)` rows,
/// and every cell from place `offset` to place `offset + n - 1` is taken.
pub proof fn lemma_grid_layout(offset: int, n: int)
    requires
        0 <= offset < 7,
        0 <= n,
    ensures
        forall|i: int, j: int|
            0 <= i < n && 0 <= j < n && i != j ==> #[trigger] grid_cell(i, offset) != #[trigger] grid_cell(j, offset),
        forall|i: int|
            0 <= i < n ==> 0 <= (#[trigger] grid_cell(i, offset)).0 < 7 && 0 <= grid_cell(i, offset).1 < (n + offset + 6) / 7,
        forall|c: int, r: int|
            0 <= c < 7 && 0 <= r && offset <= #[trigger] cell_place(c, r) < offset + n ==> exists|i: int|
                0 <= i < n && #[trigger] grid_cell(i, offset) == (c, r),
{
    assert forall|i: int, j: int|
        0 <= i < n && 0 <= j < n && i != j implies #[trigger] grid_cell(i, offset) != #[trigger] grid_cell(j, offset) by {
        vstd::arithmetic::div_mod::lemma_fundamental_div_mod(i + offset, 7);
        vstd::arithmetic::div_mod::lemma_fundamental_div_mod(j + offset, 7);
    }
    assert forall|i: int| 0 <= i < n implies 0 <= (#[trigger] grid_cell(i, offset)).0 < 7 && 0 <= grid_cell(i, offset).1 < (n + offset + 6) / 7 by {
        vstd::arithmetic::div_mod::lemma_div_is_ordered(i + offset, n + offset - 1, 7);
        vstd::arithmetic::div_mod::lemma_fundamental_div_mod(n + offset - 1, 7);
        vstd::arithmetic::div_mod::lemma_fundamental_div_mod(n + offset + 6, 7);
        vstd::arithmetic::div_mod::lemma_div_pos_is_pos(i + offset, 7);
    }
    assert forall|c: int, r: int|
        0 <= c < 7 && 0 <= r && offset <= #[trigger] cell_place(c, r) < offset + n implies exists|i: int|
            0 <= i < n && #[trigger] grid_cell(i, offset) == (c, r) by {
        let i = cell_place(c, r) - offset;
        vstd::arithmetic::div_mod::lemma_fundamental_div_mod_converse(7 * r + c, 7, r, c);
        assert(grid_cell(i, offset) == (c, r));
    }
}

} // verus!
