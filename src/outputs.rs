use vstd::prelude::*;
use crate::atlas::{
    atlas_fits, atlas_pixel, build_atlas, cell_height, cell_size, cell_width, is_atlas_of, AtlasError,
    Glyph,
};
use crate::image::Image;
use crate::metrics::{decimal, emit_metrics, metrics_bytes, push_decimal};

verus! {

/// `-`
pub const DASH: u8 = 45;

/// `.`
pub const DOT: u8 = 46;

/// The bytes of `-table-`.
pub open spec fn table_infix() -> Seq<u8> {
    seq![45u8, 116u8, 97u8, 98u8, 108u8, 101u8, 45u8]
}

/// The bytes of `png`.
pub open spec fn png_extension() -> Seq<u8> {
    seq![112u8, 110u8, 103u8]
}

/// The bytes of `fnt`.
pub open spec fn fnt_extension() -> Seq<u8> {
    seq![102u8, 110u8, 116u8]
}

/// `<stem>-<size>-table-<cell width>-<cell height>.png`
pub open spec fn image_name(stem: Seq<u8>, size: Seq<u8>, cw: nat, ch: nat) -> Seq<u8> {
    stem + seq![DASH] + size + table_infix() + decimal(cw) + seq![DASH] + decimal(ch) + seq![DOT]
        + png_extension()
}

/// `<stem>-<size>.fnt`
pub open spec fn metrics_name(stem: Seq<u8>, size: Seq<u8>) -> Seq<u8> {
    stem + seq![DASH] + size + seq![DOT] + fnt_extension()
}

/// Appends `s` to `out`.
pub fn push_bytes(out: &mut Vec<u8>, s: &[u8])
    ensures
        final(out)@ == old(out)@ + s@,
{
    let mut i: usize = 0;
    while i < s.len()
        invariant
            i <= s@.len(),
            out@ == old(out)@ + s@.take(i as int),
        decreases s@.len() - i,
    {
        out.push(s[i]);
        i = i + 1;
        assert(out@ =~= old(out)@ + s@.take(i as int));
    }
    assert(s@.take(i as int) =~= s@);
}

/// Name of the atlas image file of a font file with stem `stem` rendered at
/// the size written `size`, with cells of `cw` by `ch` pixels.
pub fn image_file_name(stem: &[u8], size: &[u8], cw: usize, ch: usize) -> (r: Vec<u8>)
    ensures
        r@ == image_name(stem@, size@, cw as nat, ch as nat),
{
    let mut out: Vec<u8> = Vec::new();
    push_bytes(&mut out, stem);
    out.push(DASH);
    push_bytes(&mut out, size);
    out.push(45u8);
    out.push(116u8);
    out.push(97u8);
    out.push(98u8);
    out.push(108u8);
    out.push(101u8);
    out.push(45u8);
    push_decimal(&mut out, cw);
    out.push(DASH);
    push_decimal(&mut out, ch);
    out.push(DOT);
    out.push(112u8);
    out.push(110u8);
    out.push(103u8);
    assert(out@ =~= image_name(stem@, size@, cw as nat, ch as nat));
    out
}

/// Name of the metrics file of a font file with stem `stem` rendered at the
/// size written `size`.
pub fn metrics_file_name(stem: &[u8], size: &[u8]) -> (r: Vec<u8>)
    ensures
        r@ == metrics_name(stem@, size@),
{
    let mut out: Vec<u8> = Vec::new();
    push_bytes(&mut out, stem);
    out.push(DASH);
    push_bytes(&mut out, size);
    out.push(DOT);
    out.push(102u8);
    out.push(110u8);
    out.push(116u8);
    assert(out@ =~= metrics_name(stem@, size@));
    out
}

/// Everything one run produces: the atlas and the metrics file, each with the
/// name it is stored under.
pub struct FontAssets {
    pub atlas: Image,
    pub image_name: Vec<u8>,
    pub metrics: Vec<u8>,
    pub metrics_name: Vec<u8>,
}

/// `a` is what a run on `gs`, for a font file with stem `stem` at the size
/// written `size`, produces.
pub open spec fn assets_of(a: FontAssets, gs: Seq<Glyph>, stem: Seq<u8>, size: Seq<u8>) -> bool {
    &&& is_atlas_of(a.atlas, gs)
    &&& a.image_name@ == image_name(stem, size, cell_width(gs), cell_height(gs))
    &&& a.metrics@ == metrics_bytes(gs)
    &&& a.metrics_name@ == metrics_name(stem, size)
}

/// Builds the atlas and the metrics file of `glyphs` and names both.
pub fn generate_assets(glyphs: &[Glyph], stem: &[u8], size: &[u8]) -> (r: Result<FontAssets, AtlasError>)
    ensures
        r matches Err(AtlasError::EmptyInput) <==> glyphs@.len() == 0,
        r matches Err(AtlasError::TooLarge) <==> glyphs@.len() > 0 && !atlas_fits(glyphs@),
        r matches Ok(a) ==> assets_of(a, glyphs@, stem@, size@),
{
    let atlas = match build_atlas(glyphs) {
        Ok(img) => img,
        Err(e) => return Err(e),
    };
    let (cw, ch) = cell_size(glyphs);
    let image_name = image_file_name(stem, size, cw, ch);
    let metrics = emit_metrics(glyphs);
    let metrics_name = metrics_file_name(stem, size);
    Ok(FontAssets { atlas, image_name, metrics, metrics_name })
}

/// Two results of runs on the same glyphs and names agree byte for byte on
/// the metrics file and the names, and pixel for pixel on the atlas.
pub proof fn lemma_assets_deterministic(
    a: FontAssets,
    b: FontAssets,
    gs: Seq<Glyph>,
    stem: Seq<u8>,
    size: Seq<u8>,
)
    requires
        assets_of(a, gs, stem, size),
        assets_of(b, gs, stem, size),
    ensures
        a.metrics@ == b.metrics@,
        a.image_name@ == b.image_name@,
        a.metrics_name@ == b.metrics_name@,
        a.atlas.spec_width() == b.atlas.spec_width(),
        a.atlas.spec_height() == b.atlas.spec_height(),
        forall|x: int, y: int|
            0 <= x < a.atlas.spec_width() && 0 <= y < a.atlas.spec_height()
                ==> #[trigger] a.atlas.pixel_at(x, y) == b.atlas.pixel_at(x, y),
{
    assert forall|x: int, y: int|
        0 <= x < a.atlas.spec_width() && 0 <= y < a.atlas.spec_height() implies
        #[trigger] a.atlas.pixel_at(x, y) == b.atlas.pixel_at(x, y) by {
        assert(a.atlas.pixel_at(x, y) == atlas_pixel(gs, x, y));
        assert(b.atlas.pixel_at(x, y) == atlas_pixel(gs, x, y));
    }
}

/// What to do with one output file.
#[derive(Clone, Copy, Debug, PartialEq, Eq, Structural)]
pub enum Action {
    Write,
    /// The file is already there and is left as it is.
    Skip,
}

/// What to do with each of the two output files.
#[derive(Clone, Copy, Debug, PartialEq, Eq, Structural)]
pub struct OutputPlan {
    pub image: Action,
    pub metrics: Action,
}

/// A file is written only when it is not there yet.
pub open spec fn action_for(present: bool) -> Action {
    if present {
        Action::Skip
    } else {
        Action::Write
    }
}

pub open spec fn plan_for(image_exists: bool, metrics_exists: bool) -> OutputPlan {
    OutputPlan { image: action_for(image_exists), metrics: action_for(metrics_exists) }
}

/// Whether a file is there after `a` was carried out on it.
pub open spec fn present_after(present: bool, a: Action) -> bool {
    present || a is Write
}

/// Decides, for each output file on its own, whether to write it: an
/// existing file is never overwritten.
pub fn plan_outputs(image_exists: bool, metrics_exists: bool) -> (r: OutputPlan)
    ensures
        r == plan_for(image_exists, metrics_exists),
        r.image == Action::Skip <==> image_exists,
        r.metrics == Action::Skip <==> metrics_exists,
{
    let image = if image_exists {
        Action::Skip
    } else {
        Action::Write
    };
    let metrics = if metrics_exists {
        Action::Skip
    } else {
        Action::Write
    };
    OutputPlan { image, metrics }
}

/// A second run after a first one writes nothing: both files are skipped.
/// With one file removed, a run writes that file and skips the other.
pub proof fn lemma_rerun_writes_only_missing(image_exists: bool, metrics_exists: bool)
    ensures
        ({
            let first = plan_for(image_exists, metrics_exists);
            plan_for(
                present_after(image_exists, first.image),
                present_after(metrics_exists, first.metrics),
            ) == (OutputPlan { image: Action::Skip, metrics: Action::Skip })
        }),
        plan_for(false, true) == (OutputPlan { image: Action::Write, metrics: Action::Skip }),
        plan_for(true, false) == (OutputPlan { image: Action::Skip, metrics: Action::Write }),
{
    let first = plan_for(image_exists, metrics_exists);
    assert(present_after(image_exists, first.image));
    assert(present_after(metrics_exists, first.metrics));
}

} // verus!
