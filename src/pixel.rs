use vstd::prelude::*;

verus! {

/// One pixel of a frame, in RGBA order.
#[derive(Clone, Copy, PartialEq, Eq, Debug, Structural)]
pub struct Pixel {
    pub r: u8,
    pub g: u8,
    pub b: u8,
    pub a: u8,
}

/// The colour a terminal can show for a pixel: its alpha is dropped.
#[derive(Clone, Copy, PartialEq, Eq, Debug, Structural)]
pub struct Rgb {
    pub r: u8,
    pub g: u8,
    pub b: u8,
}

pub open spec fn zero_pixel() -> Pixel {
    Pixel { r: 0, g: 0, b: 0, a: 0 }
}

pub open spec fn color_of(p: Pixel) -> Rgb {
    Rgb { r: p.r, g: p.g, b: p.b }
}

/// The pixel at `4 * i` of a buffer whose bytes come in blue, green, red,
/// alpha order.
pub open spec fn bgra_pixel(bytes: Seq<u8>, i: int) -> Pixel {
    Pixel { r: bytes[4 * i + 2], g: bytes[4 * i + 1], b: bytes[4 * i], a: bytes[4 * i + 3] }
}

impl Pixel {
    /// The fully transparent black pixel.
    pub fn zero() -> (p: Pixel)
        ensures
            p == zero_pixel(),
    {
        Pixel { r: 0, g: 0, b: 0, a: 0 }
    }

    /// Whether the pixel is opaque enough and bright in every channel.
    pub fn is_lit(&self) -> (lit: bool)
        ensures
            lit == (self.a != 0 && self.r != 0 && self.g != 0 && self.b != 0),
    {
        if self.a == 0 {
            return false;
        }
        self.r != 0 && self.g != 0 && self.b != 0
    }
}

/// The terminal colour of a pixel.
pub fn to_color(p: &Pixel) -> (c: Rgb)
    ensures
        c == color_of(*p),
{
    Rgb { r: p.r, g: p.g, b: p.b }
}

/// Reads a buffer of BGRA bytes, as a software surface hands it over, into
/// RGBA pixels.
pub fn pixels_from_bgra(bytes: &Vec<u8>) -> (pixels: Vec<Pixel>)
    requires
        bytes@.len() % 4 == 0,
    ensures
        pixels@.len() == bytes@.len() / 4,
        forall|i: int| 0 <= i < pixels@.len() ==> pixels@[i] == bgra_pixel(bytes@, i),
{
    let len = bytes.len();
    let n = len / 4;
    let mut pixels: Vec<Pixel> = Vec::new();
    let mut i: usize = 0;
    while i < n
        invariant
            len == bytes@.len(),
            n == bytes@.len() / 4,
            bytes@.len() % 4 == 0,
            i <= n,
            pixels@.len() == i,
            forall|k: int| 0 <= k < i ==> pixels@[k] == bgra_pixel(bytes@, k),
        decreases n - i,
    {
        assert(4 * i + 3 < bytes@.len()) by (nonlinear_arith)
            requires
                i < n,
                n == bytes@.len() / 4,
                bytes@.len() % 4 == 0,
        ;
        let base = 4 * i;
        pixels.push(Pixel { r: bytes[base + 2], g: bytes[base + 1], b: bytes[base], a: bytes[base + 3] });
        i += 1;
    }
    pixels
}

/// Row-major RGBA pixels of a buffer of RGBA bytes.
pub open spec fn rgba_pixel(bytes: Seq<u8>, i: int) -> Pixel {
    Pixel { r: bytes[4 * i], g: bytes[4 * i + 1], b: bytes[4 * i + 2], a: bytes[4 * i + 3] }
}

/// Reads a buffer of RGBA bytes into pixels.
pub fn pixels_from_rgba(bytes: &Vec<u8>) -> (pixels: Vec<Pixel>)
    requires
        bytes@.len() % 4 == 0,
    ensures
        pixels@.len() == bytes@.len() / 4,
        forall|i: int| 0 <= i < pixels@.len() ==> pixels@[i] == rgba_pixel(bytes@, i),
{
    let len = bytes.len();
    let n = len / 4;
    let mut pixels: Vec<Pixel> = Vec::new();
    let mut i: usize = 0;
    while i < n
        invariant
            len == bytes@.len(),
            n == bytes@.len() / 4,
            bytes@.len() % 4 == 0,
            i <= n,
            pixels@.len() == i,
            forall|k: int| 0 <= k < i ==> pixels@[k] == rgba_pixel(bytes@, k),
        decreases n - i,
    {
        assert(4 * i + 3 < bytes@.len()) by (nonlinear_arith)
            requires
                i < n,
                n == bytes@.len() / 4,
                bytes@.len() % 4 == 0,
        ;
        let base = 4 * i;
        pixels.push(Pixel { r: bytes[base], g: bytes[base + 1], b: bytes[base + 2], a: bytes[base + 3] });
        i += 1;
    }
    pixels
}

} // verus!
