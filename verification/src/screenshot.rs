//! The captured screen: its pixels, single-pixel readouts and the loupe.

use vstd::prelude::*;

verus! {

/// A color without its alpha channel: red, green, blue.
pub type Rgb = (u8, u8, u8);

/// An image of 8-bit RGBA pixels, row by row from the top.
pub struct Screenshot {
    pub width: u32,
    pub height: u32,
    pub pixels: Vec<u8>,
}

impl Screenshot {
    /// The buffer holds exactly the four channels of every pixel.
    pub open spec fn inv(&self) -> bool {
        self.pixels@.len() == 4 * (self.width * self.height)
    }

    /// Whether the image has a pixel at column `x`, row `y`.
    pub open spec fn covers(&self, x: int, y: int) -> bool {
        0 <= x < self.width && 0 <= y < self.height
    }

    /// Where the four channels of the pixel at `x`, `y` start.
    pub open spec fn offset(&self, x: int, y: int) -> int {
        4 * (y * self.width + x)
    }

    pub open spec fn rgba(&self, x: int, y: int) -> (u8, u8, u8, u8) {
        let at = self.offset(x, y);
        (self.pixels@[at], self.pixels@[at + 1], self.pixels@[at + 2], self.pixels@[at + 3])
    }

    pub open spec fn rgb(&self, x: int, y: int) -> Rgb {
        let at = self.offset(x, y);
        (self.pixels@[at], self.pixels@[at + 1], self.pixels@[at + 2])
    }

    pub proof fn lemma_offset(&self, x: int, y: int)
        requires
            self.inv(),
            self.covers(x, y),
        ensures
            0 <= y * self.width,
            0 <= y * self.width + x,
            0 <= self.offset(x, y),
            self.offset(x, y) + 4 <= self.pixels@.len(),
    {
        let (w, h) = (self.width as int, self.height as int);
        assert(0 <= y * w && y * w + x + 1 <= w * h) by (nonlinear_arith)
            requires
                0 <= x < w,
                0 <= y < h,
        ;
    }

    /// An image over `pixels`, if they are exactly four channels for every pixel.
    pub fn new(width: u32, height: u32, pixels: Vec<u8>) -> (r: Option<Screenshot>)
        ensures
            r is Some <==> pixels@.len() == 4 * (width * height),
            r matches Some(img) ==> {
                &&& img.inv()
                &&& img.width == width
                &&& img.height == height
                &&& img.pixels == pixels
            },
    {
        assert(width * height <= u32::MAX * u32::MAX) by (nonlinear_arith)
            requires
                0 <= width <= u32::MAX,
                0 <= height <= u32::MAX,
        ;
        if pixels.len() as u128 == 4 * (width as u128 * height as u128) {
            Some(Screenshot { width, height, pixels })
        } else {
            None
        }
    }

    /// The pixel at column `x`, row `y`.
    pub fn rgba_at(&self, x: u32, y: u32) -> (r: (u8, u8, u8, u8))
        requires
            self.inv(),
            self.covers(x as int, y as int),
        ensures
            r == self.rgba(x as int, y as int),
            (r.0, r.1, r.2) == self.rgb(x as int, y as int),
    {
        proof {
            self.lemma_offset(x as int, y as int);
            assert(self.pixels.len() <= usize::MAX);
        }
        let at: usize = 4 * (y as usize * self.width as usize + x as usize);
        (self.pixels[at], self.pixels[at + 1], self.pixels[at + 2], self.pixels[at + 3])
    }

    /// The color at column `x`, row `y`, or `None` outside the image.
    pub fn rgb_at(&self, x: u32, y: u32) -> (r: Option<Rgb>)
        requires
            self.inv(),
        ensures
            r == (if self.covers(x as int, y as int) {
                Some(self.rgb(x as int, y as int))
            } else {
                None
            }),
    {
        if x >= self.width || y >= self.height {
            return None;
        }
        let (r, g, b, _) = self.rgba_at(x, y);
        Some((r, g, b))
    }
}

// The loupe

/// How many pixels the loupe shows on each side.
pub const LOUPE_BLOCK: i64 = 11;

/// The color of the loupe cell that looks at column `x`, row `y`. Columns and rows beyond 32
/// bits are taken modulo that, and everything outside the image is black.
pub open spec fn loupe_color(img: Screenshot, x: int, y: int) -> Rgb {
    let (column, row) = (x % 0x1_0000_0000, y % 0x1_0000_0000);
    if x >= 0 && y >= 0 && img.covers(column, row) {
        img.rgb(column, row)
    } else {
        (0, 0, 0)
    }
}

/// The cells of the loupe centered on `px`, `py`, row by row.
pub open spec fn loupe(img: Screenshot, px: int, py: int) -> Seq<Rgb> {
    Seq::new(121, |k: int| loupe_color(img, px - 5 + k % 11, py - 5 + k / 11))
}

/// The colors that the loupe centered on `px`, `py` shows, row by row.
pub fn loupe_cells(img: &Screenshot, px: i64, py: i64) -> (r: Vec<Rgb>)
    requires
        img.inv(),
        i64::MIN + 5 <= px <= i64::MAX - 5,
        i64::MIN + 5 <= py <= i64::MAX - 5,
    ensures
        r@ == loupe(*img, px as int, py as int),
{
    let half: i64 = LOUPE_BLOCK / 2;
    let mut out: Vec<Rgb> = Vec::new();
    let mut k: i64 = 0;
    while k < LOUPE_BLOCK * LOUPE_BLOCK
        invariant
            img.inv(),
            i64::MIN + 5 <= px <= i64::MAX - 5,
            i64::MIN + 5 <= py <= i64::MAX - 5,
            half == 5,
            0 <= k <= 121,
            out@ =~= loupe(*img, px as int, py as int).take(k as int),
        decreases 121 - k,
    {
        let x: i64 = px - half + k % LOUPE_BLOCK;
        let y: i64 = py - half + k / LOUPE_BLOCK;
        let mut c: Rgb = (0, 0, 0);
        if x >= 0 && y >= 0 {
            let column: u32 = (x % 0x1_0000_0000) as u32;
            let row: u32 = (y % 0x1_0000_0000) as u32;
            if let Some(seen) = img.rgb_at(column, row) {
                c = seen;
            }
        }
        out.push(c);
        k = k + 1;
    }
    out
}

// Laws

/// The loupe shows the pixels around the one it is centered on, each at its place: that one in
/// the middle, and black where the image has none.
pub proof fn law_loupe_is_centered(img: Screenshot, px: int, py: int, dx: int, dy: int)
    requires
        -5 <= dx <= 5,
        -5 <= dy <= 5,
        px + dx < 0x1_0000_0000,
        py + dy < 0x1_0000_0000,
    ensures
        loupe(img, px, py)[60 + 11 * dy + dx] == if img.covers(px + dx, py + dy) {
            img.rgb(px + dx, py + dy)
        } else {
            (0, 0, 0)
        },
{
}

} // verus!
