use bitmap_font_gen::atlas::{build_atlas, cell_size, AtlasError, Glyph};
use bitmap_font_gen::image::{Image, BACKGROUND};

fn solid(c: char, width: usize, height: usize, value: u32) -> Glyph {
    let bitmap = Image::new(width, height, vec![value; width * height]).unwrap();
    Glyph { character: c, bitmap }
}

fn numbered(c: char, width: usize, height: usize, base: u32) -> Glyph {
    let pixels: Vec<u32> = (0..(width * height) as u32).map(|p| base + p).collect();
    Glyph { character: c, bitmap: Image::new(width, height, pixels).unwrap() }
}

#[test]
fn image_new_rejects_wrong_pixel_count() {
    assert!(Image::new(2, 2, vec![1, 2, 3]).is_none());
    let img = Image::new(2, 2, vec![1, 2, 3, 4]).unwrap();
    assert_eq!(img.width(), 2);
    assert_eq!(img.height(), 2);
    assert_eq!(img.pixel(1, 0), 2);
    assert_eq!(img.pixel(0, 1), 3);
    assert_eq!(img.pixels(), &vec![1, 2, 3, 4]);
}

#[test]
fn cell_size_is_componentwise_maximum() {
    let gs = vec![solid('!', 5, 2, 1), solid('"', 3, 9, 1), solid('#', 7, 4, 1)];
    assert_eq!(cell_size(&gs), (7, 9));
}

#[test]
fn cell_size_of_single_glyph() {
    let gs = vec![solid('a', 4, 6, 1)];
    assert_eq!(cell_size(&gs), (4, 6));
}

#[test]
fn atlas_has_one_cell_per_glyph_plus_reserved() {
    let gs = vec![solid('!', 5, 2, 1), solid('"', 3, 9, 2), solid('#', 7, 4, 3)];
    let img = build_atlas(&gs).unwrap();
    assert_eq!(img.width(), 7 * 4);
    assert_eq!(img.height(), 9);
    assert_eq!(img.pixels().len(), 28 * 9);
}

#[test]
fn reserved_cell_stays_blank() {
    let gs = vec![solid('!', 3, 3, 0xFFFF_FFFF), solid('"', 3, 3, 0xFF00_00FF)];
    let img = build_atlas(&gs).unwrap();
    for y in 0..3 {
        for x in 0..3 {
            assert_eq!(img.pixel(x, y), BACKGROUND);
        }
    }
}

#[test]
fn glyph_lands_in_its_cell() {
    let gs = vec![numbered('!', 2, 2, 100), numbered('"', 2, 2, 200)];
    let img = build_atlas(&gs).unwrap();
    assert_eq!(img.width(), 6);
    assert_eq!(img.pixel(2, 0), 100);
    assert_eq!(img.pixel(3, 0), 101);
    assert_eq!(img.pixel(2, 1), 102);
    assert_eq!(img.pixel(3, 1), 103);
    assert_eq!(img.pixel(4, 0), 200);
    assert_eq!(img.pixel(5, 1), 203);
}

#[test]
fn smaller_glyph_is_padded_with_background() {
    let gs = vec![numbered('!', 3, 2, 10), numbered('.', 1, 1, 50)];
    let img = build_atlas(&gs).unwrap();
    assert_eq!((img.width(), img.height()), (9, 2));
    assert_eq!(img.pixel(6, 0), 50);
    assert_eq!(img.pixel(7, 0), BACKGROUND);
    assert_eq!(img.pixel(8, 0), BACKGROUND);
    assert_eq!(img.pixel(6, 1), BACKGROUND);
    assert_eq!(img.pixel(3, 1), 13);
    assert_eq!(img.pixel(5, 1), 15);
}

#[test]
fn empty_glyph_set_is_rejected() {
    let gs: Vec<Glyph> = Vec::new();
    assert!(matches!(build_atlas(&gs), Err(AtlasError::EmptyInput)));
}

#[test]
fn oversized_atlas_is_rejected() {
    let gs = vec![solid('!', usize::MAX / 2 + 1, 0, 0)];
    assert!(matches!(build_atlas(&gs), Err(AtlasError::TooLarge)));
}

#[test]
fn zero_height_glyphs_give_empty_rows() {
    let gs = vec![solid('!', 2, 0, 0)];
    let img = build_atlas(&gs).unwrap();
    assert_eq!((img.width(), img.height()), (4, 0));
    assert!(img.pixels().is_empty());
}

#[test]
fn atlas_is_deterministic() {
    let a = vec![numbered('!', 2, 3, 7), numbered('"', 3, 1, 70)];
    let b = vec![numbered('!', 2, 3, 7), numbered('"', 3, 1, 70)];
    let ia = build_atlas(&a).unwrap();
    let ib = build_atlas(&b).unwrap();
    assert_eq!(ia.width(), ib.width());
    assert_eq!(ia.height(), ib.height());
    assert_eq!(ia.pixels(), ib.pixels());
}
