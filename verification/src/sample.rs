//! Pixel grids: what one capture of the screen holds.

use vstd::prelude::*;

verus! {

/// One pixel's colour.
#[derive(Clone, Copy, Debug, PartialEq, Eq, Structural)]
pub struct Rgb {
    pub r: u8,
    pub g: u8,
    pub b: u8,
}

impl Rgb {
    pub fn new(r: u8, g: u8, b: u8) -> (c: Rgb)
        ensures
            c == (Rgb { r, g, b }),
    {
        Rgb { r, g, b }
    }
}

/// The mathematical content of a sample: its dimensions and its pixels,
/// row by row from the top left.
pub struct Grid {
    pub width: nat,
    pub height: nat,
    pub pixels: Seq<Rgb>,
}

impl Grid {
    /// The pixel list fills the rectangle exactly.
    pub open spec fn well_formed(self) -> bool {
        self.pixels.len() == self.width * self.height
    }

    /// Column of the pixel stored at index `i`.
    pub open spec fn column(self, i: int) -> int {
        i % (self.width as int)
    }

    /// Row of the pixel stored at index `i`.
    pub open spec fn row(self, i: int) -> int {
        i / (self.width as int)
    }
}

/// The four-bytes-per-pixel layout of a raw capture: red, green, blue and
/// an alpha byte that is not kept.
pub open spec fn pixels_of_rgba(raw: Seq<u8>) -> Seq<Rgb> {
    Seq::new(
        raw.len() / 4,
        |i: int| (Rgb { r: raw[4 * i], g: raw[4 * i + 1], b: raw[4 * i + 2] }),
    )
}

/// An immutable rectangular grid of pixels captured at one instant.
pub struct PixelSample {
    width: u32,
    height: u32,
    pixels: Vec<Rgb>,
}

impl View for PixelSample {
    type V = Grid;

    closed spec fn view(&self) -> Grid {
        Grid { width: self.width as nat, height: self.height as nat, pixels: self.pixels@ }
    }
}

impl PixelSample {
    #[verifier::type_invariant]
    spec fn filled(&self) -> bool {
        self.pixels@.len() == self.width * self.height
    }

    /// Takes a pixel list as the rows of a `width` by `height` grid. The
    /// list is accepted exactly when its length is `width * height`.
    pub fn from_pixels(width: u32, height: u32, pixels: Vec<Rgb>) -> (s: Option<PixelSample>)
        ensures
            s is Some <==> pixels@.len() == width * height,
            s matches Some(sample) ==> sample@ == (Grid {
                width: width as nat,
                height: height as nat,
                pixels: pixels@,
            }),
    {
        assert(width * height <= u64::MAX) by (nonlinear_arith)
            requires
                0 <= width <= u32::MAX,
                0 <= height <= u32::MAX,
        ;
        let wanted: u64 = width as u64 * height as u64;
        if pixels.len() as u64 == wanted {
            Some(PixelSample { width, height, pixels })
        } else {
            None
        }
    }

    /// Takes raw capture bytes, four per pixel (red, green, blue, alpha), as
    /// the rows of a `width` by `height` grid. The bytes are accepted
    /// exactly when there are `4 * width * height` of them.
    pub fn from_rgba(width: u32, height: u32, raw: &Vec<u8>) -> (s: Option<PixelSample>)
        ensures
            s is Some <==> raw@.len() == 4 * (width * height),
            s matches Some(sample) ==> sample@ == (Grid {
                width: width as nat,
                height: height as nat,
                pixels: pixels_of_rgba(raw@),
            }),
    {
        assert(width * height <= 0xffff_fffe_0000_0001) by (nonlinear_arith)
            requires
                0 <= width <= u32::MAX,
                0 <= height <= u32::MAX,
        ;
        let wanted: u128 = 4 * (width as u128 * height as u128);
        if raw.len() as u128 != wanted {
            return None;
        }
        let count: usize = raw.len() / 4;
        let mut pixels: Vec<Rgb> = Vec::with_capacity(count);
        let mut i: usize = 0;
        while i < count
            invariant
                i <= count,
                count == raw@.len() / 4,
                raw@.len() == 4 * count,
                4 * count <= usize::MAX,
                pixels@.len() == i,
                forall|k: int| 0 <= k < i ==> #[trigger] pixels@[k] == pixels_of_rgba(raw@)[k],
            decreases count - i,
        {
            let base: usize = 4 * i;
            pixels.push(Rgb { r: raw[base], g: raw[base + 1], b: raw[base + 2] });
            i += 1;
        }
        assert(pixels@ =~= pixels_of_rgba(raw@));
        Some(PixelSample { width, height, pixels })
    }

    /// Number of columns.
    pub fn width(&self) -> (w: u32)
        ensures
            w == self@.width,
    {
        self.width
    }

    /// Number of rows.
    pub fn height(&self) -> (h: u32)
        ensures
            h == self@.height,
    {
        self.height
    }

    /// Number of pixels.
    pub fn len(&self) -> (n: usize)
        ensures
            n == self@.pixels.len(),
            self@.well_formed(),
    {
        proof {
            use_type_invariant(self);
        }
        self.pixels.len()
    }

    /// The pixels, row by row from the top left.
    pub fn pixels(&self) -> (p: &Vec<Rgb>)
        ensures
            p@ == self@.pixels,
    {
        &self.pixels
    }

    /// Whether the sample holds no pixel at all.
    pub fn is_empty(&self) -> (b: bool)
        ensures
            b == (self@.pixels.len() == 0),
    {
        self.pixels.len() == 0
    }

    /// The pixel stored at index `i`, counting row by row.
    pub fn at(&self, i: usize) -> (p: Option<Rgb>)
        ensures
            p == if i < self@.pixels.len() {
                Some(self@.pixels[i as int])
            } else {
                None
            },
    {
        if i < self.pixels.len() {
            Some(self.pixels[i])
        } else {
            None
        }
    }

    /// The pixel at column `x`, row `y`.
    pub fn pixel(&self, x: u32, y: u32) -> (p: Option<Rgb>)
        ensures
            p == if x < self@.width && y < self@.height {
                Some(self@.pixels[y * self@.width + x])
            } else {
                None
            },
    {
        proof {
            use_type_invariant(self);
        }
        let count: usize = self.pixels.len();
        if x < self.width && y < self.height {
            assert(0 <= y * self.width && y * self.width + x < self.width * self.height)
                by (nonlinear_arith)
                requires
                    0 <= x < self.width,
                    0 <= y < self.height,
            ;
            assert(y * self.width + x < count);
            let index: usize = y as usize * self.width as usize + x as usize;
            Some(self.pixels[index])
        } else {
            None
        }
    }
}

} // verus!
