use vstd::prelude::*;

verus! {

/// Pixel value of every position that no glyph covers: fully transparent.
pub const BACKGROUND: u32 = 0;

/// A rectangular pixel surface stored row by row, one 32-bit ARGB value per
/// pixel.
pub struct Image {
    width: usize,
    height: usize,
    pixels: Vec<u32>,
}

impl Image {
    #[verifier::type_invariant]
    spec fn shaped(&self) -> bool {
        self.pixels@.len() == self.width * self.height
    }

    pub closed spec fn spec_width(&self) -> nat {
        self.width as nat
    }

    pub closed spec fn spec_height(&self) -> nat {
        self.height as nat
    }

    /// All pixels, row after row.
    pub closed spec fn spec_pixels(&self) -> Seq<u32> {
        self.pixels@
    }

    /// The pixel in column `x` of row `y`.
    pub open spec fn pixel_at(&self, x: int, y: int) -> u32 {
        self.spec_pixels()[y * self.spec_width() + x]
    }

    /// Wraps `pixels` as a `width` by `height` image; `None` when the number
    /// of pixels does not match.
    pub fn new(width: usize, height: usize, pixels: Vec<u32>) -> (r: Option<Image>)
        ensures
            r is Some <==> pixels@.len() == width * height,
            r matches Some(img) ==> {
                &&& img.spec_width() == width
                &&& img.spec_height() == height
                &&& img.spec_pixels() == pixels@
            },
    {
        let len: usize = pixels.len();
        match width.checked_mul(height) {
            Some(n) => {
                if len == n {
                    Some(Image { width, height, pixels })
                } else {
                    None
                }
            },
            None => None,
        }
    }

    pub fn width(&self) -> (r: usize)
        ensures
            r == self.spec_width(),
    {
        self.width
    }

    pub fn height(&self) -> (r: usize)
        ensures
            r == self.spec_height(),
    {
        self.height
    }

    /// All pixels, row after row.
    pub fn pixels(&self) -> (r: &Vec<u32>)
        ensures
            r@ == self.spec_pixels(),
    {
        &self.pixels
    }

    /// The pixel in column `x` of row `y`.
    pub fn pixel(&self, x: usize, y: usize) -> (r: u32)
        requires
            x < self.spec_width(),
            y < self.spec_height(),
        ensures
            r == self.pixel_at(x as int, y as int),
    {
        let n: usize = self.pixels.len();
        proof {
            use_type_invariant(self);
            let w = self.width as int;
            let h = self.height as int;
            assert(y * w + x < w * h) by (nonlinear_arith)
                requires
                    0 <= x < w,
                    0 <= y < h,
            ;
        }
        self.pixels[y * self.width + x]
    }
}

} // verus!
