//! Packing a finished canvas into the e-ink frame: one bit per pixel, rows
//! from the top, eight horizontally adjacent pixels per byte.
use vstd::prelude::*;
use crate::canvas::{Canvas, BLACK, WHITE};

verus! {

/// Pixels brighter than this are paper; the others are ink.
pub const INK_THRESHOLD: u8 = 127;

/// Where the first of a byte's eight pixels goes.
#[derive(Clone, Copy, Debug, PartialEq, Eq, Structural)]
pub enum BitOrder {
    /// The leftmost pixel is bit 0 (the least significant bit).
    LsbFirst,
    /// The leftmost pixel is bit 7 (the most significant bit).
    MsbFirst,
}

/// Which pixels give a set bit.
#[derive(Clone, Copy, Debug, PartialEq, Eq, Structural)]
pub enum InkRule {
    /// Ink (luminance at most `INK_THRESHOLD`) is 1, paper is 0.
    DarkIsSet,
    /// Paper (luminance above `INK_THRESHOLD`) is 1, ink is 0.
    LightIsSet,
}

/// The bit layout a display model expects.
#[derive(Clone, Copy, Debug, PartialEq, Eq, Structural)]
pub struct PackConvention {
    pub bit_order: BitOrder,
    pub ink_rule: InkRule,
}

/// The convention of the 200 x 200 panel: leftmost pixel in the least
/// significant bit, ink as 1.
pub open spec fn standard_convention() -> PackConvention {
    PackConvention { bit_order: BitOrder::LsbFirst, ink_rule: InkRule::DarkIsSet }
}

impl PackConvention {
    /// See `standard_convention`.
    pub fn standard() -> (r: PackConvention)
        ensures
            r == standard_convention(),
    {
        PackConvention { bit_order: BitOrder::LsbFirst, ink_rule: InkRule::DarkIsSet }
    }
}

/// Bit that holds pixel `i` (0..8, from the left) of a byte.
pub open spec fn bit_position(i: u8, order: BitOrder) -> u8 {
    match order {
        BitOrder::LsbFirst => i,
        BitOrder::MsbFirst => (7 - i) as u8,
    }
}

pub open spec fn bit_of(b: u8, pos: u8) -> bool {
    (b >> pos) & 1u8 == 1u8
}

/// Whether a pixel of luminance `p` gives a set bit.
pub open spec fn sets_bit(p: u8, rule: InkRule) -> bool {
    match rule {
        InkRule::DarkIsSet => p <= INK_THRESHOLD,
        InkRule::LightIsSet => p > INK_THRESHOLD,
    }
}

/// The pixel a bit stands for.
pub open spec fn pixel_of_bit(set: bool, rule: InkRule) -> u8 {
    if set == (rule == InkRule::DarkIsSet) {
        BLACK
    } else {
        WHITE
    }
}

/// The two-colour pixel nearest to `p`.
pub open spec fn two_colour(p: u8) -> u8 {
    if p <= INK_THRESHOLD {
        BLACK
    } else {
        WHITE
    }
}

/// Bit `i` (0..8, from the left) of byte `k` of a frame.
pub open spec fn frame_bit(frame: Seq<u8>, k: int, i: u8, order: BitOrder) -> bool {
    bit_of(frame[k], bit_position(i, order))
}

/// `frame` is the packed form of the row-major `pixels`.
pub open spec fn packs_to(pixels: Seq<u8>, conv: PackConvention, frame: Seq<u8>) -> bool {
    &&& 8 * frame.len() == pixels.len()
    &&& forall|k: int, i: u8|
        0 <= k < frame.len() && i < 8 ==> #[trigger] frame_bit(frame, k, i, conv.bit_order)
            == sets_bit(pixels[8 * k + i], conv.ink_rule)
}

/// `pixels` is the unpacked form of `frame`.
pub open spec fn unpacks_to(frame: Seq<u8>, conv: PackConvention, pixels: Seq<u8>) -> bool {
    &&& pixels.len() == 8 * frame.len()
    &&& forall|k: int, i: u8|
        0 <= k < frame.len() && i < 8 ==> pixels[8 * k + i] == pixel_of_bit(
            #[trigger] frame_bit(frame, k, i, conv.bit_order),
            conv.ink_rule,
        )
}

proof fn lemma_set_bit(b: u8, q: u8, j: u8)
    requires
        q < 8,
        j < 8,
    ensures
        ((b | (1u8 << q)) >> j) & 1u8 == if j == q { 1u8 } else { (b >> j) & 1u8 },
{
    assert(((b | (1u8 << q)) >> j) & 1u8 == if j == q { 1u8 } else { (b >> j) & 1u8 }) by (bit_vector)
        requires q < 8, j < 8;
}

proof fn lemma_zero_bits(j: u8)
    requires
        j < 8,
    ensures
        !bit_of(0u8, j),
{
    assert((0u8 >> j) & 1u8 == 0u8) by (bit_vector);
}

proof fn lemma_positions_distinct(i: u8, j: u8, order: BitOrder)
    requires
        i < 8,
        j < 8,
    ensures
        bit_position(i, order) < 8,
        i != j ==> bit_position(i, order) != bit_position(j, order),
{
}

/// Packs a canvas whose width is a multiple of 8 into a frame of
/// `width * height / 8` bytes: byte `k` holds pixels `8k .. 8k + 8` in
/// row-major order, placed and tested as `conv` says.
pub fn pack(canvas: &Canvas, conv: PackConvention) -> (r: Vec<u8>)
    requires
        canvas.wf(),
        canvas.width % 8 == 0,
    ensures
        r@.len() == canvas.width as int * canvas.height as int / 8,
        packs_to(canvas.pixels@, conv, r@),
{
    let len = canvas.pixels.len();
    proof {
        let w = canvas.width as int;
        let h = canvas.height as int;
        assert(w * h == 8 * ((w / 8) * h)) by (nonlinear_arith)
            requires w % 8 == 0, w == 8 * (w / 8);
    }
    let n = len / 8;
    let mut r: Vec<u8> = Vec::with_capacity(n);
    let mut k: usize = 0;
    while k < n
        invariant
            n == len / 8,
            8 * n == len,
            len == canvas.pixels@.len(),
            k <= n,
            r@.len() == k,
            forall|kk: int, i: u8|
                0 <= kk < k && i < 8 ==> #[trigger] frame_bit(r@, kk, i, conv.bit_order)
                    == sets_bit(canvas.pixels@[8 * kk + i], conv.ink_rule),
        decreases n - k,
    {
        let mut byte: u8 = 0;
        let mut i: u8 = 0;
        proof {
            assert forall|j: u8| 0 <= j < 8 implies !#[trigger] bit_of(byte, bit_position(j, conv.bit_order)) by {
                lemma_positions_distinct(j, j, conv.bit_order);
                lemma_zero_bits(bit_position(j, conv.bit_order));
            }
        }
        while i < 8
            invariant
                k < n,
                8 * n == len,
                len == canvas.pixels@.len(),
                i <= 8,
                forall|j: u8|
                    j < i ==> #[trigger] bit_of(byte, bit_position(j, conv.bit_order)) == sets_bit(
                        canvas.pixels@[8 * k + j],
                        conv.ink_rule,
                    ),
                forall|j: u8| i <= j < 8 ==> !#[trigger] bit_of(byte, bit_position(j, conv.bit_order)),
            decreases 8 - i,
        {
            let p = canvas.pixels[8 * k + i as usize];
            let set = match conv.ink_rule {
                InkRule::DarkIsSet => p <= INK_THRESHOLD,
                InkRule::LightIsSet => p > INK_THRESHOLD,
            };
            let pos: u8 = match conv.bit_order {
                BitOrder::LsbFirst => i,
                BitOrder::MsbFirst => 7 - i,
            };
            let ghost before = byte;
            if set {
                byte = byte | (1u8 << pos);
            }
            proof {
                assert forall|j: u8| j < 8 implies #[trigger] bit_of(byte, bit_position(j, conv.bit_order))
                    == if j == i { set } else { bit_of(before, bit_position(j, conv.bit_order)) } by {
                    lemma_positions_distinct(i, j, conv.bit_order);
                    lemma_positions_distinct(j, i, conv.bit_order);
                    if set {
                        lemma_set_bit(before, pos, bit_position(j, conv.bit_order));
                    }
                }
            }
            i += 1;
        }
        let ghost prev = r@;
        r.push(byte);
        proof {
            assert forall|kk: int, j: u8|
                0 <= kk < k + 1 && j < 8 implies #[trigger] frame_bit(r@, kk, j, conv.bit_order)
                == sets_bit(canvas.pixels@[8 * kk + j], conv.ink_rule) by {
                if kk < k {
                    assert(frame_bit(prev, kk, j, conv.bit_order) == frame_bit(r@, kk, j, conv.bit_order));
                }
            }
        }
        k += 1;
    }
    r
}

/// Expands a frame back into the two-colour pixels it stands for, row by
/// row: each set bit becomes the colour that `conv` packs as 1.
pub fn unpack(frame: &Vec<u8>, conv: PackConvention) -> (r: Vec<u8>)
    requires
        8 * frame@.len() <= usize::MAX,
    ensures
        unpacks_to(frame@, conv, r@),
{
    let n = frame.len();
    let mut r: Vec<u8> = Vec::with_capacity(8 * n);
    let mut k: usize = 0;
    while k < n
        invariant
            n == frame@.len(),
            8 * n <= usize::MAX,
            k <= n,
            r@.len() == 8 * k,
            forall|kk: int, i: u8|
                0 <= kk < k && i < 8 ==> r@[8 * kk + i] == pixel_of_bit(
                    #[trigger] frame_bit(frame@, kk, i, conv.bit_order),
                    conv.ink_rule,
                ),
        decreases n - k,
    {
        let byte = frame[k];
        let mut i: u8 = 0;
        while i < 8
            invariant
                k < n,
                n == frame@.len(),
                byte == frame@[k as int],
                i <= 8,
                r@.len() == 8 * k + i,
                forall|kk: int, j: u8|
                    0 <= kk < k && j < 8 ==> r@[8 * kk + j] == pixel_of_bit(
                        #[trigger] frame_bit(frame@, kk, j, conv.bit_order),
                        conv.ink_rule,
                    ),
                forall|j: u8|
                    j < i ==> r@[8 * k + j] == pixel_of_bit(
                        #[trigger] frame_bit(frame@, k as int, j, conv.bit_order),
                        conv.ink_rule,
                    ),
            decreases 8 - i,
        {
            let pos: u8 = match conv.bit_order {
                BitOrder::LsbFirst => i,
                BitOrder::MsbFirst => 7 - i,
            };
            let set = (byte >> pos) & 1u8 == 1u8;
            let dark_is_set = match conv.ink_rule {
                InkRule::DarkIsSet => true,
                InkRule::LightIsSet => false,
            };
            let p = if set == dark_is_set {
                BLACK
            } else {
                WHITE
            };
            r.push(p);
            i += 1;
        }
        k += 1;
    }
    r
}

/// Unpacking a packed canvas gives back each pixel in two colours: ink
/// becomes black and paper white, so a canvas that holds only black and
/// white comes back unchanged.
pub proof fn lemma_pack_round_trip(pixels: Seq<u8>, conv: PackConvention, frame: Seq<u8>, back: Seq<u8>)
    requires
        packs_to(pixels, conv, frame),
        unpacks_to(frame, conv, back),
    ensures
        back.len() == pixels.len(),
        forall|p: int| 0 <= p < pixels.len() ==> #[trigger] back[p] == two_colour(pixels[p]),
        (forall|p: int| 0 <= p < pixels.len() ==> #[trigger] pixels[p] == BLACK || pixels[p] == WHITE)
            ==> back == pixels,
{
    assert forall|p: int| 0 <= p < pixels.len() implies #[trigger] back[p] == two_colour(pixels[p]) by {
        let k = p / 8;
        let i = (p % 8) as u8;
        vstd::arithmetic::div_mod::lemma_fundamental_div_mod(p, 8);
        assert(frame_bit(frame, k, i, conv.bit_order) == sets_bit(pixels[8 * k + i], conv.ink_rule));
    }
    if forall|p: int| 0 <= p < pixels.len() ==> #[trigger] pixels[p] == BLACK || pixels[p] == WHITE {
        assert(back =~= pixels);
    }
}

} // verus!
