use vstd::prelude::*;
use crate::atlas::Glyph;
use crate::image::Image;

verus! {

/// The first printable ASCII character, `!`.
pub const FIRST_PRINTABLE: u8 = 0x21;

/// The last printable ASCII character, `~`.
pub const LAST_PRINTABLE: u8 = 0x7E;

/// The character with code `code`.
pub open spec fn char_of(code: int) -> char {
    (code as u8) as char
}

/// Gathers one rasterized glyph per character of an ascending range of codes,
/// in order. The caller asks which character is due, rasterizes it and hands
/// the bitmap back; on a failed rasterization it stops and drops the
/// collector, so that no later character is rasterized.
pub struct GlyphCollector {
    first: u8,
    last: u8,
    glyphs: Vec<Glyph>,
}

impl GlyphCollector {
    /// At most one glyph per character of the range, in the order of the
    /// codes. Every collector that the constructors give and `accept`
    /// updates has it.
    pub closed spec fn wf(&self) -> bool {
        &&& self.glyphs@.len() <= self.total()
        &&& forall|i: int|
            0 <= i < self.glyphs@.len() ==> #[trigger] self.glyphs@[i].character == char_of(
                self.first + i,
            )
    }

    pub closed spec fn spec_first(&self) -> int {
        self.first as int
    }

    pub closed spec fn spec_last(&self) -> int {
        self.last as int
    }

    /// The glyphs gathered so far, in order.
    pub closed spec fn spec_glyphs(&self) -> Seq<Glyph> {
        self.glyphs@
    }

    /// How many characters the range holds.
    pub open spec fn total(&self) -> nat {
        if self.spec_first() <= self.spec_last() {
            (self.spec_last() - self.spec_first() + 1) as nat
        } else {
            0
        }
    }

    pub open spec fn is_done(&self) -> bool {
        self.spec_glyphs().len() >= self.total()
    }

    /// The character whose bitmap is due next.
    pub open spec fn due(&self) -> char {
        char_of(self.spec_first() + self.spec_glyphs().len())
    }

    /// A collector for the characters with codes `first` through `last`.
    pub fn new(first: u8, last: u8) -> (r: GlyphCollector)
        ensures
            r.wf(),
            r.spec_first() == first,
            r.spec_last() == last,
            r.spec_glyphs().len() == 0,
    {
        GlyphCollector { first, last, glyphs: Vec::new() }
    }

    /// A collector for the printable ASCII characters, `!` through `~`.
    pub fn printable_ascii() -> (r: GlyphCollector)
        ensures
            r.wf(),
            r.spec_first() == FIRST_PRINTABLE,
            r.spec_last() == LAST_PRINTABLE,
            r.spec_glyphs().len() == 0,
    {
        GlyphCollector::new(FIRST_PRINTABLE, LAST_PRINTABLE)
    }

    /// The character to rasterize next, or `None` once every character of
    /// the range has its glyph.
    pub fn pending(&self) -> (r: Option<char>)
        requires
            self.wf(),
        ensures
            r is None <==> self.is_done(),
            r is Some ==> r == Some(self.due()),
    {
        if self.first > self.last {
            return None;
        }
        let count: usize = (self.last - self.first) as usize + 1;
        if self.glyphs.len() >= count {
            None
        } else {
            let code: u8 = self.first + self.glyphs.len() as u8;
            Some(code as char)
        }
    }

    /// Records `bitmap` as the glyph of the character that is due.
    pub fn accept(&mut self, bitmap: Image)
        requires
            old(self).wf(),
            !old(self).is_done(),
        ensures
            final(self).wf(),
            final(self).spec_first() == old(self).spec_first(),
            final(self).spec_last() == old(self).spec_last(),
            final(self).spec_glyphs() == old(self).spec_glyphs().push(
                Glyph { character: old(self).due(), bitmap },
            ),
    {
        let code: u8 = self.first + self.glyphs.len() as u8;
        let glyph = Glyph { character: code as char, bitmap };
        self.glyphs.push(glyph);
    }

    /// The gathered glyphs, the one of the character with code `first + i`
    /// at position `i`; `None` while some character is still due.
    pub fn finish(self) -> (r: Option<Vec<Glyph>>)
        requires
            self.wf(),
        ensures
            r is Some <==> self.is_done(),
            r matches Some(gs) ==> {
                &&& gs@ == self.spec_glyphs()
                &&& gs@.len() == self.total()
                &&& forall|i: int| 0 <= i < gs@.len() ==> #[trigger] gs@[i].character == char_of(
                    self.spec_first() + i,
                )
            },
    {
        if self.pending().is_some() {
            None
        } else {
            Some(self.glyphs)
        }
    }
}

} // verus!
