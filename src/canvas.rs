//! The monochrome raster being composed, its glyph masks and the two
//! drawing primitives that need no font: rectangle fill and mask blit.
use vstd::prelude::*;

verus! {

/// Luminance of paper.
pub const WHITE: u8 = 255;

/// Luminance of ink.
pub const BLACK: u8 = 0;

/// Row-major index of pixel (x, y) in a raster `width` pixels wide.
pub open spec fn pixel_index(width: int, x: int, y: int) -> int {
    y * width + x
}

pub open spec fn in_rect(px: int, py: int, x: int, y: int, w: int, h: int) -> bool {
    x <= px < x + w && y <= py < y + h
}

pub proof fn lemma_pixel_index_bounds(width: int, height: int, x: int, y: int)
    requires
        0 <= x < width,
        0 <= y < height,
    ensures
        0 <= pixel_index(width, x, y) < width * height,
        pixel_index(width, x, y) + 1 <= width * height,
{
    assert(y * width + x < width * height) by (nonlinear_arith)
        requires 0 <= x < width, 0 <= y < height;
    assert(0 <= y * width) by (nonlinear_arith)
        requires 0 <= y, 0 <= width;
}

pub proof fn lemma_pixel_index_unique(width: int, x1: int, y1: int, x2: int, y2: int)
    requires
        0 <= x1 < width,
        0 <= x2 < width,
        0 <= y1,
        0 <= y2,
        pixel_index(width, x1, y1) == pixel_index(width, x2, y2),
    ensures
        x1 == x2 && y1 == y2,
{
    vstd::arithmetic::div_mod::lemma_fundamental_div_mod_converse(y1 * width + x1, width, y1, x1);
    vstd::arithmetic::div_mod::lemma_fundamental_div_mod_converse(y2 * width + x2, width, y2, x2);
}

/// A rectangular block of pixels, such as one glyph or one icon.
#[derive(Clone, Debug)]
pub struct GlyphMask {
    pub width: u32,
    pub height: u32,
    pub pixels: Vec<u8>,
}

impl GlyphMask {
    pub open spec fn wf(&self) -> bool {
        self.pixels@.len() == self.width as int * self.height as int
    }

    pub open spec fn pixel(&self, x: int, y: int) -> u8 {
        self.pixels@[pixel_index(self.width as int, x, y)]
    }

    /// A mask from row-major pixels; `None` unless there are exactly
    /// `width * height` of them.
    pub fn from_pixels(width: u32, height: u32, pixels: Vec<u8>) -> (r: Option<GlyphMask>)
        ensures
            pixels@.len() == width as int * height as int <==> r.is_some(),
            r.is_some() ==> r.unwrap().wf() && r.unwrap().width == width && r.unwrap().height
                == height && r.unwrap().pixels@ == pixels@,
    {
        proof {
            assert(width as int * height as int <= 0xffff_ffff * 0xffff_ffff) by (nonlinear_arith)
                requires width <= 0xffff_ffff, height <= 0xffff_ffff;
        }
        if (width as u64) * (height as u64) == pixels.len() as u64 {
            Some(GlyphMask { width, height, pixels })
        } else {
            None
        }
    }
}

/// `m` is the `w` x `h` block of `sheet` whose top left corner is (x, y).
pub open spec fn cropped(sheet: GlyphMask, x: int, y: int, w: int, h: int, m: GlyphMask) -> bool {
    &&& m.wf()
    &&& m.width == w
    &&& m.height == h
    &&& forall|i: int, j: int| 0 <= i < w && 0 <= j < h ==> #[trigger] m.pixel(i, j) == sheet.pixel(x + i, y + j)
}

impl GlyphMask {
    /// The `w` x `h` block whose top left corner is (x, y); the block must
    /// lie within the mask.
    pub fn crop(&self, x: u32, y: u32, w: u32, h: u32) -> (r: GlyphMask)
        requires
            self.wf(),
            x + w <= self.width,
            y + h <= self.height,
        ensures
            cropped(*self, x as int, y as int, w as int, h as int, r),
    {
        let mut pixels: Vec<u8> = Vec::new();
        let mut j: u32 = 0;
        while j < h
            invariant
                self.wf(),
                x + w <= self.width,
                y + h <= self.height,
                j <= h,
                pixels@.len() == j * w,
                forall|a: int, b: int|
                    0 <= a < w && 0 <= b < j ==> pixels@[#[trigger] pixel_index(w as int, a, b)] == self.pixel(x + a, y + b),
            decreases h - j,
        {
            let mut i: u32 = 0;
            while i < w
                invariant
                    self.wf(),
                    x + w <= self.width,
                    y + h <= self.height,
                    j < h,
                    i <= w,
                    pixels@.len() == j * w + i,
                    forall|a: int, b: int|
                        0 <= a < w && 0 <= b < j ==> pixels@[#[trigger] pixel_index(w as int, a, b)] == self.pixel(x + a, y + b),
                    forall|a: int| 0 <= a < i ==> pixels@[#[trigger] pixel_index(w as int, a, j as int)] == self.pixel(x + a, y + j),
                decreases w - i,
            {
                proof {
                    lemma_pixel_index_bounds(self.width as int, self.height as int, (x + i) as int, (y + j) as int);
                }
                let _len = self.pixels.len();
                let p = self.pixels[(y + j) as usize * self.width as usize + (x + i) as usize];
                let ghost before = pixels@;
                pixels.push(p);
                proof {
                    assert forall|a: int, b: int|
                        0 <= a < w && 0 <= b < j implies pixels@[#[trigger] pixel_index(w as int, a, b)] == self.pixel(x + a, y + b) by {
                        lemma_pixel_index_bounds(w as int, j as int, a, b);
                        vstd::arithmetic::mul::lemma_mul_is_commutative(w as int, j as int);
                        assert(pixels@[pixel_index(w as int, a, b)] == before[pixel_index(w as int, a, b)]);
                    }
                    assert forall|a: int| 0 <= a < i + 1 implies pixels@[#[trigger] pixel_index(w as int, a, j as int)] == self.pixel(x + a, y + j) by {
                        if a < i {
                            assert(pixels@[pixel_index(w as int, a, j as int)] == before[pixel_index(w as int, a, j as int)]);
                        }
                    }
                }
                i += 1;
            }
            proof {
                assert((j + 1) * w == j * w + w) by (nonlinear_arith);
            }
            j += 1;
        }
        proof {
            vstd::arithmetic::mul::lemma_mul_is_commutative(w as int, h as int);
        }
        let r = GlyphMask { width: w, height: h, pixels };
        assert forall|a: int, b: int| 0 <= a < w && 0 <= b < h implies #[trigger] r.pixel(a, b) == self.pixel(x + a, y + b) by {
            assert(r.pixel(a, b) == pixels@[pixel_index(w as int, a, b)]);
        }
        r
    }
}

/// Row and column of the pixel stored at `k`.
pub proof fn lemma_index_split(width: int, height: int, k: int)
    requires
        0 <= k < width * height,
        0 <= width,
        0 <= height,
    ensures
        width > 0,
        0 <= k % width < width,
        0 <= k / width < height,
        pixel_index(width, k % width, k / width) == k,
{
    if width <= 0 {
        assert(width * height == 0) by (nonlinear_arith)
            requires width <= 0, 0 <= width;
    }
    vstd::arithmetic::div_mod::lemma_fundamental_div_mod(k, width);
    vstd::arithmetic::div_mod::lemma_mod_bound(k, width);
    vstd::arithmetic::div_mod::lemma_div_pos_is_pos(k, width);
    let q = k / width;
    let r = k % width;
    assert(q < height) by (nonlinear_arith)
        requires k == width * q + r, 0 <= r, k < width * height, width > 0;
    vstd::arithmetic::mul::lemma_mul_is_commutative(q, width);
}

/// Row-major pixels `px` of a raster `w` wide with the rectangle painted.
pub open spec fn fill_px(px: Seq<u8>, w: int, x: int, y: int, rw: int, rh: int, color: u8) -> Seq<u8> {
    Seq::new(px.len(), |k: int| if in_rect(k % w, k / w, x, y, rw, rh) { color } else { px[k] })
}

/// Row-major pixels `px` of a raster `w` wide with `mask` copied at (x, y).
pub open spec fn blit_px(px: Seq<u8>, w: int, mask: GlyphMask, x: int, y: int) -> Seq<u8> {
    Seq::new(
        px.len(),
        |k: int|
            if in_rect(k % w, k / w, x, y, mask.width as int, mask.height as int) {
                mask.pixel(k % w - x, k / w - y)
            } else {
                px[k]
            },
    )
}

/// Pixels `px` with `color` wherever the same-sized `coverage` is above 127.
pub open spec fn stamp_px(px: Seq<u8>, coverage: Seq<u8>, color: u8) -> Seq<u8> {
    Seq::new(px.len(), |k: int| if coverage[k] > 127 { color } else { px[k] })
}

/// The raster a dashboard is drawn on: `width * height` luminance values,
/// row by row from the top left.
#[derive(Clone, Debug)]
pub struct Canvas {
    pub width: u32,
    pub height: u32,
    pub pixels: Vec<u8>,
}

impl Canvas {
    pub open spec fn wf(&self) -> bool {
        self.pixels@.len() == self.width as int * self.height as int
    }

    pub open spec fn in_bounds(&self, x: int, y: int) -> bool {
        0 <= x < self.width && 0 <= y < self.height
    }

    pub open spec fn pixel(&self, x: int, y: int) -> u8 {
        self.pixels@[pixel_index(self.width as int, x, y)]
    }

    /// A canvas of the given size with every pixel set to `color`.
    pub fn new(width: u32, height: u32, color: u8) -> (r: Canvas)
        requires
            width as int * height as int <= usize::MAX,
        ensures
            r.wf(),
            r.width == width,
            r.height == height,
            forall|x: int, y: int| r.in_bounds(x, y) ==> #[trigger] r.pixel(x, y) == color,
            r.pixels@ == Seq::new(width as nat * height as nat, |k: int| color),
    {
        let n = width as usize * height as usize;
        let mut pixels: Vec<u8> = Vec::with_capacity(n);
        let mut i: usize = 0;
        while i < n
            invariant
                i <= n,
                pixels@.len() == i,
                forall|k: int| 0 <= k < i ==> pixels@[k] == color,
            decreases n - i,
        {
            pixels.push(color);
            i += 1;
        }
        assert(pixels@ =~= Seq::new(width as nat * height as nat, |k: int| color));
        let r = Canvas { width, height, pixels };
        assert forall|x: int, y: int| r.in_bounds(x, y) implies #[trigger] r.pixel(x, y) == color by {
            lemma_pixel_index_bounds(width as int, height as int, x, y);
        }
        r
    }

    /// Luminance of pixel (x, y).
    pub fn get_pixel(&self, x: u32, y: u32) -> (r: u8)
        requires
            self.wf(),
            x < self.width,
            y < self.height,
        ensures
            r == self.pixel(x as int, y as int),
    {
        proof {
            lemma_pixel_index_bounds(self.width as int, self.height as int, x as int, y as int);
        }
        let _len = self.pixels.len();
        self.pixels[y as usize * self.width as usize + x as usize]
    }

    /// Sets pixel (x, y) to `color`.
    fn put_pixel(&mut self, x: u32, y: u32, color: u8)
        requires
            old(self).wf(),
            x < old(self).width,
            y < old(self).height,
        ensures
            final(self).wf(),
            final(self).width == old(self).width,
            final(self).height == old(self).height,
            forall|px: int, py: int|
                final(self).in_bounds(px, py) ==> #[trigger] final(self).pixel(px, py) == if px == x
                    && py == y {
                    color
                } else {
                    old(self).pixel(px, py)
                },
    {
        proof {
            lemma_pixel_index_bounds(self.width as int, self.height as int, x as int, y as int);
        }
        let _len = self.pixels.len();
        let idx = y as usize * self.width as usize + x as usize;
        self.pixels.set(idx, color);
        proof {
            assert forall|px: int, py: int| final(self).in_bounds(px, py) implies #[trigger] final(self).pixel(px, py) == if px == x && py == y {
                color
            } else {
                old(self).pixel(px, py)
            } by {
                lemma_pixel_index_bounds(self.width as int, self.height as int, px, py);
                if pixel_index(self.width as int, px, py) == idx {
                    lemma_pixel_index_unique(self.width as int, px, py, x as int, y as int);
                }
            }
        }
    }

    /// Paints the rectangle of size `w` x `h` whose top left corner is
    /// (x, y) with `color`; the rectangle must lie on the canvas.
    pub fn fill_rect(&mut self, x: u32, y: u32, w: u32, h: u32, color: u8)
        requires
            old(self).wf(),
            x + w <= old(self).width,
            y + h <= old(self).height,
        ensures
            final(self).wf(),
            final(self).width == old(self).width,
            final(self).height == old(self).height,
            forall|px: int, py: int|
                final(self).in_bounds(px, py) ==> #[trigger] final(self).pixel(px, py) == if in_rect(
                    px,
                    py,
                    x as int,
                    y as int,
                    w as int,
                    h as int,
                ) {
                    color
                } else {
                    old(self).pixel(px, py)
                },
            final(self).pixels@ == fill_px(
                old(self).pixels@,
                old(self).width as int,
                x as int,
                y as int,
                w as int,
                h as int,
                color,
            ),
    {
        let ghost start = *self;
        let mut row: u32 = y;
        while row < y + h
            invariant
                self.wf(),
                self.width == start.width,
                self.height == start.height,
                start == *old(self),
                y <= row <= y + h,
                y + h <= self.height,
                x + w <= self.width,
                forall|px: int, py: int|
                    self.in_bounds(px, py) ==> #[trigger] self.pixel(px, py) == if in_rect(
                        px,
                        py,
                        x as int,
                        y as int,
                        w as int,
                        row - y,
                    ) {
                        color
                    } else {
                        start.pixel(px, py)
                    },
            decreases y + h - row,
        {
            let mut col: u32 = x;
            while col < x + w
                invariant
                    self.wf(),
                    self.width == start.width,
                    self.height == start.height,
                    y <= row < y + h,
                    y + h <= self.height,
                    x <= col <= x + w,
                    x + w <= self.width,
                    forall|px: int, py: int|
                        self.in_bounds(px, py) ==> #[trigger] self.pixel(px, py) == if in_rect(
                            px,
                            py,
                            x as int,
                            y as int,
                            w as int,
                            row - y,
                        ) || (py == row && x <= px < col) {
                            color
                        } else {
                            start.pixel(px, py)
                        },
                decreases x + w - col,
            {
                self.put_pixel(col, row, color);
                col += 1;
            }
            row += 1;
        }
        proof {
            let cw = self.width as int;
            let f = fill_px(start.pixels@, cw, x as int, y as int, w as int, h as int, color);
            assert forall|k: int| 0 <= k < self.pixels@.len() implies self.pixels@[k] == f[k] by {
                lemma_index_split(cw, self.height as int, k);
                assert(self.pixel(k % cw, k / cw) == self.pixels@[k]);
            }
            assert(self.pixels@ =~= f);
        }
    }

    /// Copies `mask` onto the canvas with its top left corner at (x, y):
    /// each mask pixel replaces the pixel under it. The mask must lie on
    /// the canvas.
    pub fn blit(&mut self, mask: &GlyphMask, x: u32, y: u32)
        requires
            old(self).wf(),
            mask.wf(),
            x + mask.width <= old(self).width,
            y + mask.height <= old(self).height,
        ensures
            final(self).wf(),
            final(self).width == old(self).width,
            final(self).height == old(self).height,
            final(self).pixels@ == blit_px(old(self).pixels@, old(self).width as int, *mask, x as int, y as int),
    {
        let ghost start = *self;
        let mut ty: u32 = 0;
        while ty < mask.height
            invariant
                self.wf(),
                mask.wf(),
                self.width == start.width,
                self.height == start.height,
                start == *old(self),
                ty <= mask.height,
                x + mask.width <= self.width,
                y + mask.height <= self.height,
                forall|px: int, py: int|
                    self.in_bounds(px, py) ==> #[trigger] self.pixel(px, py) == if in_rect(
                        px,
                        py,
                        x as int,
                        y as int,
                        mask.width as int,
                        ty as int,
                    ) {
                        mask.pixel(px - x, py - y)
                    } else {
                        start.pixel(px, py)
                    },
            decreases mask.height - ty,
        {
            let mut tx: u32 = 0;
            while tx < mask.width
                invariant
                    self.wf(),
                    mask.wf(),
                    self.width == start.width,
                    self.height == start.height,
                    ty < mask.height,
                    tx <= mask.width,
                    x + mask.width <= self.width,
                    y + mask.height <= self.height,
                    forall|px: int, py: int|
                        self.in_bounds(px, py) ==> #[trigger] self.pixel(px, py) == if in_rect(
                            px,
                            py,
                            x as int,
                            y as int,
                            mask.width as int,
                            ty as int,
                        ) || (py == y + ty && x <= px < x + tx) {
                            mask.pixel(px - x, py - y)
                        } else {
                            start.pixel(px, py)
                        },
                decreases mask.width - tx,
            {
                proof {
                    lemma_pixel_index_bounds(mask.width as int, mask.height as int, tx as int, ty as int);
                }
                let _len = mask.pixels.len();
                let p = mask.pixels[ty as usize * mask.width as usize + tx as usize];
                self.put_pixel(x + tx, y + ty, p);
                tx += 1;
            }
            ty += 1;
        }
        proof {
            let w = self.width as int;
            assert forall|k: int| 0 <= k < self.pixels@.len() implies self.pixels@[k] == blit_px(
                start.pixels@,
                w,
                *mask,
                x as int,
                y as int,
            )[k] by {
                lemma_index_split(w, self.height as int, k);
                assert(self.pixel(k % w, k / w) == self.pixels@[k]);
            }
            assert(self.pixels@ =~= blit_px(start.pixels@, w, *mask, x as int, y as int));
        }
    }

    /// Paints `color` wherever `coverage`, a mask of the canvas's size, is
    /// more ink than paper (above 127), and leaves the other pixels.
    pub fn stamp(&mut self, coverage: &GlyphMask, color: u8)
        requires
            old(self).wf(),
            coverage.wf(),
            coverage.width == old(self).width,
            coverage.height == old(self).height,
        ensures
            final(self).wf(),
            final(self).width == old(self).width,
            final(self).height == old(self).height,
            final(self).pixels@ == stamp_px(old(self).pixels@, coverage.pixels@, color),
    {
        let ghost start = self.pixels@;
        let n = self.pixels.len();
        let mut k: usize = 0;
        while k < n
            invariant
                n == self.pixels@.len(),
                n == coverage.pixels@.len(),
                self.width == old(self).width,
                self.height == old(self).height,
                self.wf(),
                start == old(self).pixels@,
                start.len() == n,
                k <= n,
                forall|j: int| 0 <= j < n ==> #[trigger] self.pixels@[j] == if j < k {
                    stamp_px(start, coverage.pixels@, color)[j]
                } else {
                    start[j]
                },
            decreases n - k,
        {
            if coverage.pixels[k] > 127 {
                self.pixels.set(k, color);
            }
            k += 1;
        }
        assert(self.pixels@ =~= stamp_px(start, coverage.pixels@, color));
    }
}

} // verus!
