use vstd::prelude::*;
use crate::atlas::{atlas_pixel, cell_width, lemma_glyph_cell, Glyph};
use crate::image::BACKGROUND;

verus! {

/// Advance width recorded for the reserved space cell.
pub const SPACE_WIDTH: usize = 6;

/// Separates a name from its width.
pub const TAB: u8 = 9;

/// Ends each metrics line.
pub const NEWLINE: u8 = 10;

/// The decimal digits of `n`, most significant first, without leading zeros.
pub open spec fn decimal(n: nat) -> Seq<u8>
    decreases n,
{
    if n < 10 {
        seq![(48 + n) as u8]
    } else {
        decimal(n / 10).push((48 + n % 10) as u8)
    }
}

/// The UTF-8 encoding of `c`.
pub open spec fn utf8(c: char) -> Seq<u8> {
    let v = c as int;
    if v < 0x80 {
        seq![v as u8]
    } else if v < 0x800 {
        seq![(0xC0 + v / 64) as u8, (0x80 + v % 64) as u8]
    } else if v < 0x10000 {
        seq![(0xE0 + v / 4096) as u8, (0x80 + (v / 64) % 64) as u8, (0x80 + v % 64) as u8]
    } else {
        seq![
            (0xF0 + v / 262144) as u8,
            (0x80 + (v / 4096) % 64) as u8,
            (0x80 + (v / 64) % 64) as u8,
            (0x80 + v % 64) as u8,
        ]
    }
}

/// Appends the decimal digits of `n` to `out`.
pub fn push_decimal(out: &mut Vec<u8>, n: usize)
    ensures
        final(out)@ == old(out)@ + decimal(n as nat),
    decreases n,
{
    if n >= 10 {
        push_decimal(out, n / 10);
    }
    out.push((48 + n % 10) as u8);
    proof {
        if n < 10 {
            assert(n % 10 == n);
        }
        assert(final(out)@ =~= old(out)@ + decimal(n as nat));
    }
}

/// Appends the UTF-8 encoding of `c` to `out`.
pub fn push_char(out: &mut Vec<u8>, c: char)
    ensures
        final(out)@ == old(out)@ + utf8(c),
{
    let v = c as u32;
    if v < 0x80 {
        out.push(v as u8);
    } else if v < 0x800 {
        out.push((0xC0 + v / 64) as u8);
        out.push((0x80 + v % 64) as u8);
    } else if v < 0x10000 {
        out.push((0xE0 + v / 4096) as u8);
        out.push((0x80 + (v / 64) % 64) as u8);
        out.push((0x80 + v % 64) as u8);
    } else {
        out.push((0xF0 + v / 262144) as u8);
        out.push((0x80 + (v / 4096) % 64) as u8);
        out.push((0x80 + (v / 64) % 64) as u8);
        out.push((0x80 + v % 64) as u8);
    }
    assert(final(out)@ =~= old(out)@ + utf8(c));
}

/// The name of the reserved entry: the bytes of `space`.
pub open spec fn space_name() -> Seq<u8> {
    seq![115u8, 112u8, 97u8, 99u8, 101u8]
}

/// One metrics line: the name, a tab, the width in decimal, a newline.
pub open spec fn line(name: Seq<u8>, width: nat) -> Seq<u8> {
    name + seq![TAB] + decimal(width) + seq![NEWLINE]
}

/// The metrics entries of `gs`: the space entry, then one entry per glyph in
/// order, named by its character and measured by its bitmap width.
pub open spec fn entries(gs: Seq<Glyph>) -> Seq<(Seq<u8>, nat)> {
    seq![(space_name(), SPACE_WIDTH as nat)] + gs.map_values(
        |g: Glyph| (utf8(g.character), g.bitmap.spec_width()),
    )
}

/// The lines of `es`, in order.
pub open spec fn lines(es: Seq<(Seq<u8>, nat)>) -> Seq<u8>
    decreases es.len(),
{
    if es.len() == 0 {
        Seq::empty()
    } else {
        lines(es.drop_last()) + line(es.last().0, es.last().1)
    }
}

/// The metrics file of `gs`.
pub open spec fn metrics_bytes(gs: Seq<Glyph>) -> Seq<u8> {
    lines(entries(gs))
}

fn push_tail(out: &mut Vec<u8>, width: usize)
    ensures
        final(out)@ == old(out)@ + seq![TAB] + decimal(width as nat) + seq![NEWLINE],
{
    out.push(TAB);
    push_decimal(out, width);
    out.push(NEWLINE);
    assert(final(out)@ =~= old(out)@ + seq![TAB] + decimal(width as nat) + seq![NEWLINE]);
}

/// The metrics file of `glyphs`: `space` with its fixed width first, then
/// each glyph's character and bitmap width, one tab-separated entry per line.
pub fn emit_metrics(glyphs: &[Glyph]) -> (r: Vec<u8>)
    ensures
        r@ == metrics_bytes(glyphs@),
{
    let ghost es = entries(glyphs@);
    let mut out: Vec<u8> = Vec::new();
    out.push(115u8);
    out.push(112u8);
    out.push(97u8);
    out.push(99u8);
    out.push(101u8);
    assert(out@ =~= space_name());
    push_tail(&mut out, SPACE_WIDTH);
    proof {
        assert(es.take(1).drop_last() =~= Seq::<(Seq<u8>, nat)>::empty());
        assert(es.take(1).last() == (space_name(), SPACE_WIDTH as nat));
        assert(lines(es.take(1)) == lines(Seq::empty()) + line(space_name(), SPACE_WIDTH as nat));
        assert(out@ =~= lines(es.take(1)));
    }
    let mut i: usize = 0;
    while i < glyphs.len()
        invariant
            i <= glyphs@.len(),
            es == entries(glyphs@),
            out@ == lines(es.take(i + 1)),
        decreases glyphs@.len() - i,
    {
        let ghost before = out@;
        push_char(&mut out, glyphs[i].character);
        push_tail(&mut out, glyphs[i].bitmap.width());
        proof {
            assert(es.take(i + 2).drop_last() =~= es.take(i + 1));
            assert(es[i + 1] == (utf8(glyphs@[i as int].character), glyphs@[i as int].bitmap.spec_width()));
            assert(out@ =~= before + line(es[i + 1].0, es[i + 1].1));
        }
        i = i + 1;
    }
    assert(es.take(i + 1) =~= es);
    out
}

/// The entry of glyph `i` is line `i + 1` (counting from 0, after the space
/// line), and glyph `i` is packed at column `(i + 1) * cell_width` of the
/// atlas: both speak of the same glyph.
pub proof fn lemma_entry_matches_cell(gs: Seq<Glyph>, i: int, lx: int, y: int)
    requires
        0 <= i < gs.len(),
        0 <= lx < cell_width(gs),
    ensures
        entries(gs).len() == gs.len() + 1,
        entries(gs)[0] == (space_name(), SPACE_WIDTH as nat),
        entries(gs)[i + 1] == (utf8(gs[i].character), gs[i].bitmap.spec_width()),
        atlas_pixel(gs, (i + 1) * cell_width(gs) + lx, y) == (if lx < gs[i].bitmap.spec_width()
            && y < gs[i].bitmap.spec_height() {
            gs[i].bitmap.pixel_at(lx, y)
        } else {
            BACKGROUND
        }),
{
    lemma_glyph_cell(gs, i, lx, y);
}

} // verus!
