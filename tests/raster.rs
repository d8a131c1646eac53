use calendar::canvas::{Canvas, GlyphMask, BLACK, WHITE};
use calendar::compose::SpriteAtlas;
use calendar::packer::{pack, unpack, BitOrder, InkRule, PackConvention};

fn conv(bit_order: BitOrder, ink_rule: InkRule) -> PackConvention {
    PackConvention { bit_order, ink_rule }
}

#[test]
fn new_canvas_is_uniform() {
    let c = Canvas::new(16, 3, WHITE);
    assert_eq!(c.pixels.len(), 48);
    assert!(c.pixels.iter().all(|&p| p == WHITE));
}

#[test]
fn fill_rect_paints_only_the_rectangle() {
    let mut c = Canvas::new(8, 8, WHITE);
    c.fill_rect(2, 3, 4, 2, BLACK);
    for y in 0..8 {
        for x in 0..8 {
            let inside = (2..6).contains(&x) && (3..5).contains(&y);
            assert_eq!(c.get_pixel(x, y), if inside { BLACK } else { WHITE });
        }
    }
}

#[test]
fn blit_replaces_only_the_block() {
    let mut c = Canvas::new(8, 8, WHITE);
    let mask = GlyphMask::from_pixels(3, 2, vec![1, 2, 3, 4, 5, 6]).unwrap();
    c.blit(&mask, 5, 6);
    assert_eq!(c.get_pixel(5, 6), 1);
    assert_eq!(c.get_pixel(7, 6), 3);
    assert_eq!(c.get_pixel(7, 7), 6);
    assert_eq!(c.get_pixel(4, 6), WHITE);
    assert_eq!(c.get_pixel(5, 5), WHITE);
    c.blit(&mask, 0, 0);
    assert_eq!(c.get_pixel(2, 1), 6);
    assert_eq!(c.get_pixel(0, 1), 4);
    assert_eq!(c.pixels.iter().filter(|&&p| p != WHITE).count(), 12);
}

#[test]
fn stamp_paints_where_coverage_is_mostly_ink() {
    let mut c = Canvas::new(8, 1, WHITE);
    c.fill_rect(0, 0, 2, 1, BLACK);
    let cov = GlyphMask::from_pixels(8, 1, vec![255, 0, 128, 127, 200, 0, 0, 255]).unwrap();
    c.stamp(&cov, BLACK);
    assert_eq!(c.pixels, vec![0, 0, 0, 255, 0, 255, 255, 0]);
    c.stamp(&cov, WHITE);
    assert_eq!(c.pixels, vec![255, 0, 255, 255, 255, 255, 255, 255]);
}

#[test]
fn glyph_mask_needs_exact_pixel_count() {
    assert!(GlyphMask::from_pixels(3, 5, vec![0; 14]).is_none());
    assert!(GlyphMask::from_pixels(3, 5, vec![0; 15]).is_some());
}

#[test]
fn pack_standard_convention_bits() {
    let mut c = Canvas::new(16, 1, WHITE);
    c.fill_rect(0, 0, 1, 1, BLACK);
    c.fill_rect(9, 0, 1, 1, 100);
    c.fill_rect(10, 0, 1, 1, 127);
    c.fill_rect(11, 0, 1, 1, 128);
    let f = pack(&c, PackConvention::standard());
    assert_eq!(f, vec![0x01, 0x06]);
}

#[test]
fn pack_other_conventions() {
    let mut c = Canvas::new(8, 1, WHITE);
    c.fill_rect(0, 0, 1, 1, BLACK);
    assert_eq!(pack(&c, conv(BitOrder::MsbFirst, InkRule::DarkIsSet)), vec![0x80]);
    assert_eq!(pack(&c, conv(BitOrder::LsbFirst, InkRule::LightIsSet)), vec![0xFE]);
    assert_eq!(pack(&c, conv(BitOrder::MsbFirst, InkRule::LightIsSet)), vec![0x7F]);
}

#[test]
fn packed_length_is_a_bit_per_pixel() {
    let c = Canvas::new(200, 200, WHITE);
    let f = pack(&c, PackConvention::standard());
    assert_eq!(f.len(), 200 * 200 / 8);
    assert!(f.iter().all(|&b| b == 0));
    let c = Canvas::new(200, 200, BLACK);
    assert!(pack(&c, PackConvention::standard()).iter().all(|&b| b == 0xFF));
}

#[test]
fn pack_then_unpack_gives_back_two_colour_canvas() {
    let mut c = Canvas::new(24, 8, WHITE);
    c.fill_rect(3, 1, 10, 4, BLACK);
    c.fill_rect(20, 6, 4, 2, BLACK);
    for &bo in &[BitOrder::LsbFirst, BitOrder::MsbFirst] {
        for &ir in &[InkRule::DarkIsSet, InkRule::LightIsSet] {
            let f = pack(&c, conv(bo, ir));
            assert_eq!(f.len(), 24);
            assert_eq!(unpack(&f, conv(bo, ir)), c.pixels);
        }
    }
}

#[test]
fn unpack_thresholds_grey_pixels() {
    let mut c = Canvas::new(8, 1, WHITE);
    c.fill_rect(0, 0, 4, 1, 60);
    c.fill_rect(4, 0, 4, 1, 200);
    let f = pack(&c, PackConvention::standard());
    assert_eq!(unpack(&f, PackConvention::standard()), vec![0, 0, 0, 0, 255, 255, 255, 255]);
}

#[test]
fn crop_takes_the_block() {
    let sheet = GlyphMask::from_pixels(4, 3, (0..12).collect()).unwrap();
    let m = sheet.crop(1, 1, 2, 2);
    assert_eq!((m.width, m.height), (2, 2));
    assert_eq!(m.pixels, vec![5, 6, 9, 10]);
}

#[test]
fn atlas_from_sheets_layout() {
    let black = GlyphMask::from_pixels(79, 7, (0..79 * 7).map(|i| (i % 251) as u8).collect()).unwrap();
    let white = GlyphMask::from_pixels(30, 5, (0..150).map(|i| (200 - i % 100) as u8).collect()).unwrap();
    let atlas = SpriteAtlas::from_sheets(&black, &white).unwrap();
    assert_eq!(atlas.glyphs.len(), 27);
    assert_eq!(atlas.glyphs[2].pixels, black.crop(6, 0, 3, 5).pixels);
    assert_eq!(atlas.glyphs[16].pixels, black.crop(72, 0, 7, 7).pixels);
    assert_eq!((atlas.glyphs[16].width, atlas.glyphs[16].height), (7, 7));
    assert_eq!(atlas.glyphs[26].pixels, white.crop(27, 0, 3, 5).pixels);
    let small = GlyphMask::from_pixels(78, 7, vec![0; 78 * 7]).unwrap();
    assert!(SpriteAtlas::from_sheets(&small, &white).is_none());
}
