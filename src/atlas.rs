use vstd::prelude::*;
use vstd::arithmetic::div_mod::lemma_fundamental_div_mod_converse;
use crate::image::{Image, BACKGROUND};

verus! {

/// A rasterized glyph tagged with the character it was drawn from.
pub struct Glyph {
    pub character: char,
    pub bitmap: Image,
}

/// Why no atlas was built.
#[derive(Debug, PartialEq, Eq, Structural)]
pub enum AtlasError {
    /// There were no glyphs to pack.
    EmptyInput,
    /// The atlas has more pixels than memory can address.
    TooLarge,
}

/// The largest value of `s`, or 0 when `s` is empty.
pub open spec fn seq_max(s: Seq<nat>) -> nat
    decreases s.len(),
{
    if s.len() == 0 {
        0
    } else {
        let m = seq_max(s.drop_last());
        if s.last() > m {
            s.last()
        } else {
            m
        }
    }
}

/// The bitmap width of each glyph, in order.
pub open spec fn widths(gs: Seq<Glyph>) -> Seq<nat> {
    gs.map_values(|g: Glyph| g.bitmap.spec_width())
}

/// The bitmap height of each glyph, in order.
pub open spec fn heights(gs: Seq<Glyph>) -> Seq<nat> {
    gs.map_values(|g: Glyph| g.bitmap.spec_height())
}

/// Width of one atlas cell: the widest glyph.
pub open spec fn cell_width(gs: Seq<Glyph>) -> nat {
    seq_max(widths(gs))
}

/// Height of one atlas cell: the tallest glyph.
pub open spec fn cell_height(gs: Seq<Glyph>) -> nat {
    seq_max(heights(gs))
}

/// Pixel `(lx, y)` of cell `k`: cell 0 is left blank, cell `k + 1` holds
/// glyph `k`, clipped to the glyph's own extent.
pub open spec fn cell_pixel(gs: Seq<Glyph>, k: int, lx: int, y: int) -> u32 {
    if k == 0 {
        BACKGROUND
    } else {
        let b = gs[k - 1].bitmap;
        if lx < b.spec_width() && y < b.spec_height() {
            b.pixel_at(lx, y)
        } else {
            BACKGROUND
        }
    }
}

/// Pixel `(x, y)` of the atlas of `gs`.
pub open spec fn atlas_pixel(gs: Seq<Glyph>, x: int, y: int) -> u32 {
    let cw = cell_width(gs) as int;
    cell_pixel(gs, x / cw, x % cw, y)
}

/// Width of the atlas of `gs`: one cell per glyph and the reserved cell.
pub open spec fn atlas_width(gs: Seq<Glyph>) -> nat {
    cell_width(gs) * (gs.len() + 1)
}

/// `img` is the atlas of `gs`: its size is one cell per glyph plus the
/// reserved cell, and each pixel is the one the layout puts there.
pub open spec fn is_atlas_of(img: Image, gs: Seq<Glyph>) -> bool {
    &&& img.spec_width() == atlas_width(gs)
    &&& img.spec_height() == cell_height(gs)
    &&& forall|x: int, y: int|
        0 <= x < img.spec_width() && 0 <= y < img.spec_height() ==> #[trigger] img.pixel_at(x, y)
            == atlas_pixel(gs, x, y)
}

/// The atlas of `gs` can be held in memory: its pixel count fits in `usize`.
pub open spec fn atlas_fits(gs: Seq<Glyph>) -> bool {
    &&& gs.len() + 1 <= usize::MAX
    &&& atlas_width(gs) <= usize::MAX
    &&& atlas_width(gs) * cell_height(gs) <= usize::MAX
}

/// `seq_max(s)` bounds every element, and is one of them when `s` is not empty.
pub proof fn lemma_seq_max(s: Seq<nat>)
    ensures
        forall|i: int| 0 <= i < s.len() ==> s[i] <= seq_max(s),
        s.len() > 0 ==> exists|i: int| 0 <= i < s.len() && s[i] == seq_max(s),
    decreases s.len(),
{
    if s.len() > 0 {
        let t = s.drop_last();
        lemma_seq_max(t);
        assert forall|i: int| 0 <= i < s.len() implies s[i] <= seq_max(s) by {
            if i < t.len() {
                assert(s[i] == t[i]);
            }
        }
        if s.last() <= seq_max(t) && t.len() > 0 {
            let j = choose|j: int| 0 <= j < t.len() && t[j] == seq_max(t);
            assert(s[j] == t[j]);
        }
    }
}

/// The cell size of `glyphs`: the largest width and the largest height.
pub fn cell_size(glyphs: &[Glyph]) -> (r: (usize, usize))
    ensures
        r.0 == cell_width(glyphs@),
        r.1 == cell_height(glyphs@),
        forall|i: int| 0 <= i < glyphs@.len() ==> {
            &&& glyphs@[i].bitmap.spec_width() <= r.0
            &&& glyphs@[i].bitmap.spec_height() <= r.1
        },
        glyphs@.len() > 0 ==> exists|i: int|
            0 <= i < glyphs@.len() && glyphs@[i].bitmap.spec_width() == r.0,
        glyphs@.len() > 0 ==> exists|i: int|
            0 <= i < glyphs@.len() && glyphs@[i].bitmap.spec_height() == r.1,
{
    let ghost ws = widths(glyphs@);
    let ghost hs = heights(glyphs@);
    let mut mw: usize = 0;
    let mut mh: usize = 0;
    let mut i: usize = 0;
    while i < glyphs.len()
        invariant
            i <= glyphs@.len(),
            ws == widths(glyphs@),
            hs == heights(glyphs@),
            mw == seq_max(ws.take(i as int)),
            mh == seq_max(hs.take(i as int)),
        decreases glyphs@.len() - i,
    {
        assert(ws.take(i + 1).drop_last() =~= ws.take(i as int));
        assert(hs.take(i + 1).drop_last() =~= hs.take(i as int));
        let w = glyphs[i].bitmap.width();
        let h = glyphs[i].bitmap.height();
        if w > mw {
            mw = w;
        }
        if h > mh {
            mh = h;
        }
        i = i + 1;
    }
    proof {
        assert(ws.take(i as int) =~= ws);
        assert(hs.take(i as int) =~= hs);
        lemma_seq_max(ws);
        lemma_seq_max(hs);
        assert forall|i: int| 0 <= i < glyphs@.len() implies {
            &&& glyphs@[i].bitmap.spec_width() <= mw
            &&& glyphs@[i].bitmap.spec_height() <= mh
        } by {
            assert(ws[i] == glyphs@[i].bitmap.spec_width());
            assert(hs[i] == glyphs@[i].bitmap.spec_height());
        }
        if glyphs@.len() > 0 {
            let j = choose|j: int| 0 <= j < ws.len() && ws[j] == seq_max(ws);
            assert(ws[j] == glyphs@[j].bitmap.spec_width());
            let k = choose|k: int| 0 <= k < hs.len() && hs[k] == seq_max(hs);
            assert(hs[k] == glyphs@[k].bitmap.spec_height());
        }
    }
    (mw, mh)
}

/// Packs `glyphs` side by side into one image, one cell each, after a blank
/// reserved cell. Fails on an empty glyph set, and when the atlas would not fit
/// in memory.
pub fn build_atlas(glyphs: &[Glyph]) -> (r: Result<Image, AtlasError>)
    ensures
        r matches Err(AtlasError::EmptyInput) <==> glyphs@.len() == 0,
        r matches Err(AtlasError::TooLarge) <==> glyphs@.len() > 0 && !atlas_fits(glyphs@),
        r matches Ok(img) ==> is_atlas_of(img, glyphs@),
{
    if glyphs.len() == 0 {
        return Err(AtlasError::EmptyInput);
    }
    let (cw, ch) = cell_size(glyphs);
    let n = glyphs.len();
    let cells = match n.checked_add(1) {
        Some(c) => c,
        None => return Err(AtlasError::TooLarge),
    };
    let w = match cw.checked_mul(cells) {
        Some(v) => v,
        None => return Err(AtlasError::TooLarge),
    };
    let total = match w.checked_mul(ch) {
        Some(v) => v,
        None => return Err(AtlasError::TooLarge),
    };
    let ghost gs = glyphs@;
    let mut pixels: Vec<u32> = Vec::with_capacity(total);
    let mut y: usize = 0;
    while y < ch
        invariant
            gs == glyphs@,
            cw == cell_width(gs),
            ch == cell_height(gs),
            w == cw * (n + 1),
            n == gs.len(),
            y <= ch,
            pixels@.len() == y * w,
            forall|j: int|
                0 <= j < pixels@.len() ==> #[trigger] pixels@[j] == atlas_pixel(gs, j % (w as int), j / (w as int)),
        decreases ch - y,
    {
        let mut x: usize = 0;
        while x < w
            invariant
                gs == glyphs@,
                cw == cell_width(gs),
                ch == cell_height(gs),
                w == cw * (n + 1),
                n == gs.len(),
                y < ch,
                x <= w,
                pixels@.len() == y * w + x,
                forall|j: int|
                    0 <= j < pixels@.len() ==> #[trigger] pixels@[j] == atlas_pixel(gs, j % (w as int), j / (w as int)),
            decreases w - x,
        {
            assert(cw > 0) by (nonlinear_arith)
                requires
                    x < w,
                    w == cw * (n + 1),
            ;
            let k = x / cw;
            let lx = x % cw;
            assert(k < n + 1) by (nonlinear_arith)
                requires
                    x < cw * (n + 1),
                    k == x / cw,
                    cw > 0,
            ;
            let v = if k == 0 {
                BACKGROUND
            } else {
                let b = &glyphs[k - 1].bitmap;
                if lx < b.width() && y < b.height() {
                    b.pixel(lx, y)
                } else {
                    BACKGROUND
                }
            };
            proof {
                lemma_fundamental_div_mod_converse(y * w + x, w as int, y as int, x as int);
            }
            pixels.push(v);
            x = x + 1;
        }
        assert(y * w + w == (y + 1) * w) by (nonlinear_arith);
        y = y + 1;
    }
    assert(ch * w == total) by (nonlinear_arith)
        requires
            total == w * ch,
    ;
    proof {
        assert forall|x: int, y: int| 0 <= x < w && 0 <= y < ch implies
            pixels@[y * w + x] == atlas_pixel(gs, x, y) by {
            lemma_fundamental_div_mod_converse(y * w + x, w as int, y, x);
            assert(0 <= y * w + x < pixels@.len()) by (nonlinear_arith)
                requires
                    0 <= x < w,
                    0 <= y < ch,
                    pixels@.len() == ch * w,
            ;
        }
    }
    match Image::new(w, ch, pixels) {
        Some(img) => Ok(img),
        None => Err(AtlasError::TooLarge),
    }
}

/// No glyph is ever copied into the reserved cell: every pixel of the
/// leftmost cell of an atlas is background.
pub proof fn lemma_reserved_cell_blank(gs: Seq<Glyph>, x: int, y: int)
    requires
        0 <= x < cell_width(gs),
    ensures
        atlas_pixel(gs, x, y) == BACKGROUND,
{
    lemma_fundamental_div_mod_converse(x, cell_width(gs) as int, 0, x);
}

/// Glyph `i` occupies the cell that starts at column `(i + 1) * cell_width`:
/// there the atlas shows the glyph's own pixels where the glyph has them, and
/// background beyond the glyph's extent.
pub proof fn lemma_glyph_cell(gs: Seq<Glyph>, i: int, lx: int, y: int)
    requires
        0 <= i < gs.len(),
        0 <= lx < cell_width(gs),
    ensures
        atlas_pixel(gs, (i + 1) * cell_width(gs) + lx, y) == (if lx < gs[i].bitmap.spec_width()
            && y < gs[i].bitmap.spec_height() {
            gs[i].bitmap.pixel_at(lx, y)
        } else {
            BACKGROUND
        }),
{
    let cw = cell_width(gs) as int;
    lemma_fundamental_div_mod_converse((i + 1) * cw + lx, cw, i + 1, lx);
}

} // verus!
