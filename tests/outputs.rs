use bitmap_font_gen::atlas::{AtlasError, Glyph};
use bitmap_font_gen::image::Image;
use bitmap_font_gen::outputs::{
    generate_assets, image_file_name, metrics_file_name, plan_outputs, push_bytes, Action, OutputPlan,
};

fn glyph(c: char, width: usize, height: usize) -> Glyph {
    let pixels: Vec<u32> = (0..(width * height) as u32).collect();
    Glyph { character: c, bitmap: Image::new(width, height, pixels).unwrap() }
}

#[test]
fn image_name_carries_cell_size() {
    let name = image_file_name(b"DejaVuSans", b"12.5", 9, 15);
    assert_eq!(name, b"DejaVuSans-12.5-table-9-15.png".to_vec());
}

#[test]
fn metrics_name_uses_fnt_extension() {
    assert_eq!(metrics_file_name(b"mono", b"8"), b"mono-8.fnt".to_vec());
}

#[test]
fn push_bytes_appends() {
    let mut out = b"ab".to_vec();
    push_bytes(&mut out, b"cd");
    assert_eq!(out, b"abcd".to_vec());
}

#[test]
fn assets_of_small_set() {
    let gs = vec![glyph('!', 5, 2), glyph('"', 3, 4), glyph('#', 7, 1)];
    let a = generate_assets(&gs, b"font", b"16").unwrap();
    assert_eq!(a.image_name, b"font-16-table-7-4.png".to_vec());
    assert_eq!(a.metrics_name, b"font-16.fnt".to_vec());
    assert_eq!(a.metrics, b"space\t6\n!\t5\n\"\t3\n#\t7\n".to_vec());
    assert_eq!((a.atlas.width(), a.atlas.height()), (28, 4));
}

#[test]
fn assets_of_empty_set_fail() {
    assert!(matches!(generate_assets(&[], b"font", b"16"), Err(AtlasError::EmptyInput)));
}

#[test]
fn two_runs_give_identical_assets() {
    let a = generate_assets(&[glyph('a', 2, 3), glyph('b', 4, 1)], b"f", b"9").unwrap();
    let b = generate_assets(&[glyph('a', 2, 3), glyph('b', 4, 1)], b"f", b"9").unwrap();
    assert_eq!(a.metrics, b.metrics);
    assert_eq!(a.image_name, b.image_name);
    assert_eq!(a.metrics_name, b.metrics_name);
    assert_eq!(a.atlas.pixels(), b.atlas.pixels());
}

#[test]
fn existing_files_are_skipped() {
    let p = plan_outputs(true, true);
    assert_eq!(p, OutputPlan { image: Action::Skip, metrics: Action::Skip });
}

#[test]
fn missing_files_are_written() {
    assert_eq!(plan_outputs(false, false), OutputPlan { image: Action::Write, metrics: Action::Write });
}

#[test]
fn rerun_regenerates_only_missing_file() {
    let first = plan_outputs(false, false);
    let image_now = first.image == Action::Write;
    let metrics_now = first.metrics == Action::Write;
    assert_eq!(plan_outputs(image_now, metrics_now), OutputPlan { image: Action::Skip, metrics: Action::Skip });
    assert_eq!(plan_outputs(false, true), OutputPlan { image: Action::Write, metrics: Action::Skip });
    assert_eq!(plan_outputs(true, false), OutputPlan { image: Action::Skip, metrics: Action::Write });
}
