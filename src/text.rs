//! Text: decimal numbers as strings, and the coverage masks of outline-font
//! text from the font rasterizer.
use vstd::prelude::*;
use vstd::string::StringExecFns;
use crate::canvas::GlyphMask;

verus! {

/// rusttype's loaded outline font, carried unopened to `rasterize_text`.
#[verifier::external_type_specification]
#[verifier::external_body]
pub struct ExFont<'a>(rusttype::Font<'a>);

/// Largest side of a raster that text is drawn on.
pub const MAX_TEXT_RASTER: u32 = 0x8000;

/// Largest font size, in pixels.
pub const MAX_TEXT_SIZE: u16 = 512;

/// Longest text drawn in one piece, in UTF-8 bytes.
pub const MAX_TEXT_BYTES: usize = 1024;

/// Text that `rasterize_text` accepts: anchored on a raster of at most
/// `MAX_TEXT_RASTER` pixels a side, with bounded size and length, so that
/// glyph coordinates stay far inside `i32`.
pub open spec fn text_fits(width: int, height: int, size: int, x: int, y: int, text: Seq<char>) -> bool {
    &&& 0 <= x < width <= MAX_TEXT_RASTER
    &&& 0 <= y < height <= MAX_TEXT_RASTER
    &&& size <= MAX_TEXT_SIZE
    &&& vstd::utf8::encode_utf8(text).len() <= MAX_TEXT_BYTES
}

/// Relies on imageproc's `drawing::draw_text_mut` (rusttype rasterizing
/// `font` at `size` pixels), drawing in full white on a black raster of
/// the given size: the result holds, per pixel, how much of it the glyphs
/// of `text` anchored at (x, y) cover (0 none, 255 all), and keeps the
/// raster's size.
#[verifier::external_body]
pub(crate) fn rasterize_text(
    font: &rusttype::Font<'static>,
    size: u16,
    x: u32,
    y: u32,
    width: u32,
    height: u32,
    text: &str,
) -> (r: GlyphMask)
    requires
        text_fits(width as int, height as int, size as int, x as int, y as int, text@),
    ensures
        r.wf(),
        r.width == width,
        r.height == height,
{
    let mut img = image::GrayImage::new(width, height);
    let scale = rusttype::Scale::uniform(size.into());
    imageproc::drawing::draw_text_mut(&mut img, image::Luma([255u8]), x, y, scale, font, text);
    GlyphMask { width, height, pixels: img.into_raw() }
}

/// The decimal digits, `DIGITS[d]` spelling `d`.
pub const DIGITS: [&'static str; 10] = ["0", "1", "2", "3", "4", "5", "6", "7", "8", "9"];

/// Decimal spelling of `n`, without leading zeros.
pub open spec fn decimal_text(n: nat) -> Seq<char>
    decreases n,
{
    if n < 10 {
        DIGITS@[n as int]@
    } else {
        decimal_text(n / 10) + DIGITS@[(n % 10) as int]@
    }
}

/// Decimal spelling of a signed number.
pub open spec fn signed_decimal_text(n: int) -> Seq<char> {
    if n < 0 {
        "-"@ + decimal_text((-n) as nat)
    } else {
        decimal_text(n as nat)
    }
}

/// `n` written in decimal.
pub fn decimal(n: u32) -> (r: String)
    ensures
        r@ == decimal_text(n as nat),
    decreases n,
{
    if n < 10 {
        String::from_str(DIGITS[n as usize])
    } else {
        let mut r = decimal(n / 10);
        r.append(DIGITS[(n % 10) as usize]);
        r
    }
}

/// `n` written in decimal, with a leading "-" when negative.
pub fn signed_decimal(n: i32) -> (r: String)
    requires
        n > i32::MIN,
    ensures
        r@ == signed_decimal_text(n as int),
{
    if n < 0 {
        let mut r = String::from_str("-");
        let digits = decimal((-n) as u32);
        r.append(digits.as_str());
        r
    } else {
        decimal(n as u32)
    }
}

} // verus!
