use bitmap_font_gen::atlas::Glyph;
use bitmap_font_gen::image::Image;
use bitmap_font_gen::metrics::{emit_metrics, push_char, push_decimal, SPACE_WIDTH};

fn glyph(c: char, width: usize) -> Glyph {
    Glyph { character: c, bitmap: Image::new(width, 1, vec![0; width]).unwrap() }
}

#[test]
fn metrics_of_three_glyphs() {
    let gs = vec![glyph('!', 5), glyph('"', 3), glyph('#', 7)];
    let out = emit_metrics(&gs);
    assert_eq!(String::from_utf8(out).unwrap(), "space\t6\n!\t5\n\"\t3\n#\t7\n");
}

#[test]
fn metrics_of_no_glyphs_is_space_line() {
    let out = emit_metrics(&[]);
    assert_eq!(out, b"space\t6\n".to_vec());
    assert_eq!(SPACE_WIDTH, 6);
}

#[test]
fn metrics_line_follows_glyph_order() {
    let gs = vec![glyph('z', 12), glyph('a', 0)];
    let text = String::from_utf8(emit_metrics(&gs)).unwrap();
    let lines: Vec<&str> = text.lines().collect();
    assert_eq!(lines, vec!["space\t6", "z\t12", "a\t0"]);
}

#[test]
fn decimal_digits() {
    for (n, s) in [(0usize, "0"), (7, "7"), (10, "10"), (123, "123"), (9_000_001, "9000001")] {
        let mut out = b"x".to_vec();
        push_decimal(&mut out, n);
        assert_eq!(out, format!("x{}", s).into_bytes());
    }
    let mut out = Vec::new();
    push_decimal(&mut out, usize::MAX);
    assert_eq!(out, usize::MAX.to_string().into_bytes());
}

#[test]
fn char_encoding_matches_utf8() {
    for c in ['!', '~', 'é', '€', '😀'] {
        let mut out = Vec::new();
        push_char(&mut out, c);
        assert_eq!(out, c.to_string().into_bytes());
    }
}
