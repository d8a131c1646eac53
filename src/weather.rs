//! The weather snapshot a dashboard shows, and the decisions its layout
//! takes from it.
use vstd::prelude::*;
use vstd::string::StringExecFns;
use crate::text::{decimal, decimal_text};

verus! {

/// Current conditions, every value as the weather service writes it.
#[derive(Clone, Debug)]
pub struct Weather {
    pub city: String,
    pub wea: String,
    pub wea_img: String,
    pub tem: String,
    pub tem_day: String,
    pub tem_night: String,
    pub win: String,
    pub win_speed: String,
    pub win_meter: String,
    pub air: String,
}

/// One day of the forecast.
#[derive(Clone, Debug)]
pub struct WeatherWeekDay {
    pub date: String,
    pub wea: String,
    pub wea_img: String,
    pub tem_day: String,
    pub tem_night: String,
    pub win: String,
    pub win_speed: String,
}

/// The forecast, today first.
#[derive(Clone, Debug)]
pub struct WeatherWeek {
    pub city: String,
    pub data: Vec<WeatherWeekDay>,
}

/// Air-quality indices above this one are shown as unhealthy.
pub const AIR_UNHEALTHY_ABOVE: u16 = 100;

pub open spec fn is_digit(c: char) -> bool {
    '0' <= c <= '9'
}

pub open spec fn is_numeral(s: Seq<char>) -> bool {
    s.len() > 0 && forall|i: int| 0 <= i < s.len() ==> is_digit(#[trigger] s[i])
}

/// Value of a string of decimal digits.
pub open spec fn numeral_value(s: Seq<char>) -> nat
    decreases s.len(),
{
    if s.len() == 0 {
        0
    } else {
        numeral_value(s.drop_last()) * 10 + ((s.last() as u32) - 48) as nat
    }
}

/// The digits of an unsigned numeral: `s` without one leading '+'.
pub open spec fn unsigned_digits(s: Seq<char>) -> Seq<char> {
    if s.len() > 0 && s[0] == '+' {
        s.drop_first()
    } else {
        s
    }
}

/// The index a string of decimal digits spells, with an optional leading
/// '+', where it fits in a `u16`.
pub open spec fn parse_index_spec(s: Seq<char>) -> Option<u16> {
    let d = unsigned_digits(s);
    if is_numeral(d) && numeral_value(d) <= u16::MAX {
        Some(numeral_value(d) as u16)
    } else {
        None
    }
}

proof fn lemma_numeral_prefix_grows(s: Seq<char>, i: int)
    requires
        is_numeral(s),
        0 <= i <= s.len(),
    ensures
        numeral_value(s.take(i)) <= numeral_value(s),
    decreases s.len() - i,
{
    if i < s.len() {
        lemma_numeral_prefix_grows(s, i + 1);
        assert(s.take(i + 1).drop_last() =~= s.take(i));
    } else {
        assert(s.take(i) =~= s);
    }
}

/// Reads a whole string of decimal digits, with an optional leading '+',
/// as a `u16`; `None` for no digits, any other character, or a value above
/// `u16::MAX`.
pub fn parse_index(s: &str) -> (r: Option<u16>)
    ensures
        r == parse_index_spec(s@),
{
    if !s.is_ascii() {
        proof {
            let d = unsigned_digits(s@);
            if is_numeral(d) {
                assert forall|i: int| 0 <= i < s@.len() implies '\0' <= #[trigger] s@[i] <= '\u{7f}' by {
                    if s@.len() > 0 && s@[0] == '+' {
                        if i > 0 {
                            assert(d[i - 1] == s@[i]);
                        }
                    } else {
                        assert(d[i] == s@[i]);
                    }
                }
                assert(vstd::utf8::is_ascii_chars(s@));
            }
        }
        return None;
    }
    let b = s.as_bytes();
    proof {
        vstd::utf8::is_ascii_chars_encode_utf8(s@);
    }
    let n = b.len();
    let start: usize = if n > 0 && b[0] == 43u8 { 1 } else { 0 };
    let ghost t = s@.subrange(start as int, n as int);
    proof {
        if n > 0 {
            assert(s@[0] as u8 == b[0]);
        }
        assert(t =~= unsigned_digits(s@));
    }
    if start == n {
        return None;
    }
    let mut v: u32 = 0;
    let mut i: usize = start;
    while i < n
        invariant
            n == b@.len(),
            n == s@.len(),
            start <= i <= n,
            t == s@.subrange(start as int, n as int),
            t == unsigned_digits(s@),
            vstd::utf8::is_ascii_chars(s@),
            forall|j: int| 0 <= j < s@.len() ==> s@[j] as u8 == #[trigger] b@[j],
            forall|j: int| 0 <= j < i - start ==> is_digit(#[trigger] t[j]),
            v as nat == numeral_value(t.take(i - start)),
            v <= u16::MAX,
        decreases n - i,
    {
        let c = b[i];
        assert(s@[i as int] as u8 == c);
        assert(t[i - start] == s@[i as int]);
        if c < 48 || c > 57 {
            return None;
        }
        proof {
            assert(t.take(i - start + 1).drop_last() =~= t.take(i - start));
        }
        v = v * 10 + (c - 48) as u32;
        if v > 65535 {
            proof {
                if is_numeral(t) {
                    lemma_numeral_prefix_grows(t, i - start + 1);
                }
            }
            return None;
        }
        i += 1;
    }
    proof {
        assert(t.take(n - start) =~= t);
    }
    Some(v as u16)
}

/// Whether the air-quality index `air` is shown as unhealthy: `Some(true)`
/// above `AIR_UNHEALTHY_ABOVE`, `None` when `air` is not an index.
pub fn air_is_unhealthy(air: &str) -> (r: Option<bool>)
    ensures
        r == match parse_index_spec(air@) {
            Some(v) => Some(v > AIR_UNHEALTHY_ABOVE),
            None => None,
        },
{
    match parse_index(air) {
        Some(v) => Some(v > AIR_UNHEALTHY_ABOVE),
        None => None,
    }
}

/// Horizontal positions of the current temperature and of its unit sign,
/// by the number of bytes in the temperature string: one digit sits
/// furthest right, three or more furthest left.
pub open spec fn temperature_offsets_spec(len: int) -> (u32, u32) {
    if len == 1 {
        (20, 40)
    } else if len == 2 {
        (10, 50)
    } else {
        (0, 60)
    }
}

/// See `temperature_offsets_spec`.
pub fn temperature_offsets(tem: &str) -> (r: (u32, u32))
    ensures
        r == temperature_offsets_spec(vstd::utf8::encode_utf8(tem@).len() as int),
{
    let len = tem.as_bytes().len();
    if len == 1 {
        (20, 40)
    } else if len == 2 {
        (10, 50)
    } else {
        (0, 60)
    }
}

/// The UTF-8 bytes end in '/' or '\\'.
pub open spec fn ends_with_separator(bytes: Seq<u8>) -> bool {
    bytes.len() > 0 && (bytes.last() == 47 || bytes.last() == 92)
}

/// A directory path that ends in a separator: `path` itself when it ends
/// in '/' or '\\', else `path` followed by '/'.
pub fn with_trailing_separator(path: String) -> (r: String)
    ensures
        r@ == if ends_with_separator(vstd::utf8::encode_utf8(path@)) {
            path@
        } else {
            path@ + "/"@
        },
{
    let ends = {
        let b = path.as_str().as_bytes();
        let n = b.len();
        n > 0 && (b[n - 1] == 47u8 || b[n - 1] == 92u8)
    };
    if ends {
        path
    } else {
        let mut p = path;
        p.append("/");
        p
    }
}

/// Path of the icon for condition `key` at `size` pixels under `base`.
pub fn icon_path(base: &str, key: &str, size: u32) -> (r: String)
    ensures
        r@ == base@ + "icons/"@ + decimal_text(size as nat) + "/"@ + key@ + ".png"@,
{
    let mut r = String::from_str(base);
    r.append("icons/");
    let s = decimal(size);
    r.append(s.as_str());
    r.append("/");
    r.append(key);
    r.append(".png");
    r
}

/// Path of the icon shown for a condition that has none, at `size` pixels.
pub fn fallback_icon_path(base: &str, size: u32) -> (r: String)
    ensures
        r@ == base@ + "icons/"@ + decimal_text(size as nat) + "/404.png"@,
{
    let mut r = String::from_str(base);
    r.append("icons/");
    let s = decimal(size);
    r.append(s.as_str());
    r.append("/404.png");
    r
}

} // verus!
