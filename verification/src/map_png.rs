//! Occupancy maps as images: the grid's rows turned into an 8-bit grayscale picture with
//! the top row first, its PNG encoding, and the PGM twin that ROS tools read.

use vstd::prelude::*;

use crate::decimal::{decimal, push_decimal};

verus! {

#[verifier::external_type_specification]
#[verifier::external_body]
pub struct ExPngEncodingError(png::EncodingError);

/// A rendered map. Pixels are `255 × (1 − p)`, so occupied is dark, unknown is mid-gray and
/// free is white; row 0 is the top of the image (the largest y). `F` is the type of the
/// world coordinates (metres).
#[derive(Debug, Clone)]
pub struct MapSnapshot<F> {
    /// Increments per snapshot.
    pub version: u64,
    /// Width in pixels.
    pub width: u32,
    /// Height in pixels.
    pub height: u32,
    /// Bottom-left world corner, metres.
    pub origin: [F; 2],
    /// Metres per pixel.
    pub resolution: F,
    /// Row-major gray pixels, top row first.
    pub gray: Vec<u8>,
    /// PNG encoding of `gray`.
    pub png: Vec<u8>,
}

/// Why a map could not be rendered.
#[derive(Debug, Clone, Copy, PartialEq, Eq)]
pub enum MapError {
    /// A side of the grid does not fit in a `u32`.
    TooLarge,
    /// The PNG encoder refused the image.
    Png,
}

/// The `map_server` level of a gray pixel: occupied 0, free 254, unknown 205.
pub open spec fn pgm_level(g: u8) -> u8 {
    if g < 90 {
        0
    } else if g > 205 {
        254
    } else {
        205
    }
}

/// The binary PGM header `P5\n<width> <height>\n255\n`.
pub open spec fn pgm_header(width: u32, height: u32) -> Seq<u8> {
    seq![80u8, 53u8, 10u8] + decimal(width as nat) + seq![32u8] + decimal(height as nat) + seq![
        10u8,
        50u8,
        53u8,
        53u8,
        10u8,
    ]
}

/// A whole binary PGM (P5): the header, then one byte per pixel at its `map_server` level.
pub open spec fn pgm_bytes(width: u32, height: u32, gray: Seq<u8>) -> Seq<u8> {
    pgm_header(width, height) + gray.map_values(|g: u8| pgm_level(g))
}

/// Each pixel of the PGM is its gray level's `map_server` class, in pixel order after the
/// header: below 90 is occupied (0), above 205 is free (254), and every level from 90 to 205,
/// the unobserved mid-gray among them, is unknown (205).
pub proof fn lemma_pgm_pixel_classes(width: u32, height: u32, gray: Seq<u8>, i: int)
    requires
        0 <= i < gray.len(),
    ensures
        pgm_bytes(width, height, gray).len() == pgm_header(width, height).len() + gray.len(),
        gray[i] < 90 ==> pgm_bytes(width, height, gray)[pgm_header(width, height).len() + i] == 0,
        90 <= gray[i] <= 205 ==> pgm_bytes(width, height, gray)[pgm_header(width, height).len() + i]
            == 205,
        gray[i] > 205 ==> pgm_bytes(width, height, gray)[pgm_header(width, height).len() + i] == 254,
{
}

/// `image` is `cells` with its rows in reverse order: image row `r` is grid row `h - 1 - r`.
pub open spec fn rows_reversed(image: Seq<u8>, cells: Seq<u8>, w: nat, h: nat) -> bool {
    &&& image.len() == w * h
    &&& forall|r: int, c: int|
        0 <= r < h && 0 <= c < w ==> #[trigger] image[r * w + c] == cells[(h - 1 - r) * w + c]
}

/// The PNG signature every encoding starts with.
pub open spec fn png_signature() -> Seq<u8> {
    seq![137u8, 80u8, 78u8, 71u8, 13u8, 10u8, 26u8, 10u8]
}

/// The bytes the `png` crate writes for an 8-bit grayscale image of the given size with fast
/// compression.
pub uninterp spec fn png_grayscale(width: u32, height: u32, gray: Seq<u8>) -> Seq<u8>;

/// The sizes the `png` encoder handles without overflowing a `usize`: the pixel count
/// `width × height` stays below `usize::MAX` (so does the row length `1 + width`), and for a
/// non-empty image of exactly that many bytes the filtered size `(width + 1) × height` and
/// the size of its stored-deflate fallback, `⌊(raw − 1) / 65535⌋ · 65540 + raw mod 65535 + 11`,
/// fit in a `usize` too.
pub open spec fn gray8_encodable(width: int, height: int, len: int) -> bool {
    let raw = (width + 1) * height;
    &&& width * height < usize::MAX
    &&& (width > 0 && height > 0 && len == width * height) ==> {
        &&& raw <= usize::MAX
        &&& ((raw - 1) / 65535) * 65540 + raw % 65535 + 11 <= usize::MAX
    }
}

/// Whether an image of `width × height` pixels, one byte each, is within the encoder's sizes.
pub fn gray8_fits(width: u32, height: u32) -> (b: bool)
    ensures
        b == gray8_encodable(width as int, height as int, (width as int) * (height as int)),
{
    let w = width as u128;
    let h = height as u128;
    assert(w * h < 0x1_0000_0000_0000_0000) by (nonlinear_arith)
        requires
            w < 0x1_0000_0000,
            h < 0x1_0000_0000,
    ;
    let pixels = w * h;
    let limit = usize::MAX as u128;
    if pixels >= limit {
        return false;
    }
    if w == 0 || h == 0 {
        return true;
    }
    assert(1 <= (w + 1) * h <= 0x1_0000_0000_0000_0000) by (nonlinear_arith)
        requires
            w < 0x1_0000_0000,
            1 <= h < 0x1_0000_0000,
    ;
    let raw = (w + 1) * h;
    let stored = ((raw - 1) / 65535) * 65540 + raw % 65535 + 11;
    raw <= limit && stored <= limit
}

/// Encodes `gray` with `png::Encoder` (8-bit grayscale, `Compression::Fast`) into a vector.
/// The encoder refuses exactly a zero width or height and pixel data whose length is not
/// `width × height` (a vector never fails to take the bytes); what it writes is named by
/// `png_grayscale` and begins with the PNG signature. Sizes whose arithmetic inside the
/// encoder would overflow a `usize` are left out (`gray8_encodable`).
#[verifier::external_body]
fn png_encode_gray8(width: u32, height: u32, gray: &[u8]) -> (r: Result<Vec<u8>, png::EncodingError>)
    requires
        gray8_encodable(width as int, height as int, gray@.len() as int),
    ensures
        r is Ok <==> (width > 0 && height > 0 && gray@.len() == (width as int) * (height as int)),
        r matches Ok(v) ==> v@ == png_grayscale(width, height, gray@),
        r matches Ok(v) ==> v@.len() >= 8 && v@.subrange(0, 8) == png_signature(),
{
    let mut out = Vec::new();
    {
        let mut enc = png::Encoder::new(&mut out, width, height);
        enc.set_color(png::ColorType::Grayscale);
        enc.set_depth(png::BitDepth::Eight);
        enc.set_compression(png::Compression::Fast);
        let mut w = enc.write_header()?;
        w.write_image_data(gray)?;
    }
    Ok(out)
}

/// The PNG encoding of a grayscale image: it succeeds exactly for a non-empty image with one
/// byte per pixel.
pub fn encode_png(width: u32, height: u32, gray: &[u8]) -> (r: Result<Vec<u8>, MapError>)
    requires
        gray8_encodable(width as int, height as int, gray@.len() as int),
    ensures
        r is Ok <==> (width > 0 && height > 0 && gray@.len() == (width as int) * (height as int)),
        r matches Ok(v) ==> v@ == png_grayscale(width, height, gray@) && v@.len() >= 8
            && v@.subrange(0, 8) == png_signature(),
        r matches Err(e) ==> e == MapError::Png,
{
    match png_encode_gray8(width, height, gray) {
        Ok(v) => Ok(v),
        Err(_) => Err(MapError::Png),
    }
}

proof fn lemma_cell_index(r: int, c: int, w: int, rows: int)
    requires
        0 <= r < rows,
        0 <= c < w,
    ensures
        0 <= r * w + c < rows * w,
        r * w + c < r * w + w,
        r * w + w <= rows * w,
{
    assert(0 <= r * w + c < rows * w) by (nonlinear_arith)
        requires
            0 <= r < rows,
            0 <= c < w,
    ;
    assert(r * w + w <= rows * w) by (nonlinear_arith)
        requires
            0 <= r < rows,
            0 <= c < w,
    ;
}

/// Reorders grid cells (row 0 = smallest y) into image pixels (row 0 = largest y).
pub fn grid_rows_to_image(cells: &[u8], width: usize, height: usize) -> (image: Vec<u8>)
    requires
        cells@.len() == width * height,
    ensures
        rows_reversed(image@, cells@, width as nat, height as nat),
{
    let mut image: Vec<u8> = Vec::new();
    let mut dst_row: usize = 0;
    let total = cells.len();
    assert(width * height == height * width) by (nonlinear_arith);
    while dst_row < height
        invariant
            total == cells@.len(),
            cells@.len() == height * width,
            dst_row <= height,
            image@.len() == dst_row * width,
            forall|r: int, c: int|
                0 <= r < dst_row && 0 <= c < width ==> #[trigger] image@[r * width + c]
                    == cells@[(height - 1 - r) * width + c],
        decreases height - dst_row,
    {
        let src_row: usize = height - 1 - dst_row;
        if width > 0 {
            proof {
                lemma_cell_index(src_row as int, 0, width as int, height as int);
            }
        }
        assert(src_row * width + width <= height * width) by (nonlinear_arith)
            requires
                src_row < height,
        ;
        let src: usize = src_row * width;
        let ghost base = dst_row * width;
        let mut col: usize = 0;
        while col < width
            invariant
                total == cells@.len(),
                cells@.len() == height * width,
                dst_row < height,
                src == (height - 1 - dst_row) * width,
                src + width <= cells@.len(),
                base == dst_row * width,
                col <= width,
                image@.len() == base + col,
                forall|r: int, c: int|
                    0 <= r < dst_row && 0 <= c < width ==> #[trigger] image@[r * width + c]
                        == cells@[(height - 1 - r) * width + c],
                forall|c: int| 0 <= c < col ==> #[trigger] image@[base + c] == cells@[src + c],
            decreases width - col,
        {
            let ghost before = image@;
            image.push(cells[src + col]);
            col = col + 1;
            proof {
                assert forall|r: int, c: int| 0 <= r < dst_row && 0 <= c < width implies #[trigger] image@[r
                    * width + c] == cells@[(height - 1 - r) * width + c] by {
                    lemma_cell_index(r, c, width as int, dst_row as int);
                    assert(image@[r * width + c] == before[r * width + c]);
                }
                assert forall|c: int| 0 <= c < col implies #[trigger] image@[base + c] == cells@[src
                    + c] by {
                    if c < col - 1 {
                        assert(image@[base + c] == before[base + c]);
                    }
                }
            }
        }
        proof {
            assert forall|r: int, c: int|
                0 <= r < dst_row + 1 && 0 <= c < width implies #[trigger] image@[r * width + c]
                == cells@[(height - 1 - r) * width + c] by {
                if r == dst_row {
                    assert(r * width + c == base + c);
                    assert(image@[base + c] == cells@[src + c]);
                }
            }
            assert((dst_row + 1) * width == base + width) by (nonlinear_arith)
                requires
                    base == dst_row * width,
            ;
        }
        dst_row = dst_row + 1;
    }
    image
}

impl<F> MapSnapshot<F> {
    /// Renders a grid whose cells have already been turned into gray levels (grid order:
    /// row 0 is the smallest y, rows of `width` cells).
    pub fn from_cells(
        width: usize,
        height: usize,
        cell_gray: &[u8],
        origin: [F; 2],
        resolution: F,
        version: u64,
    ) -> (r: Result<Self, MapError>)
        requires
            cell_gray@.len() == width * height,
            (width <= u32::MAX && height <= u32::MAX) ==> gray8_encodable(
                width as int,
                height as int,
                width * height,
            ),
        ensures
            (width > u32::MAX || height > u32::MAX) ==> r == Err::<Self, MapError>(MapError::TooLarge),
            r == Err::<Self, MapError>(MapError::TooLarge) ==> (width > u32::MAX || height > u32::MAX),
            r matches Ok(m) ==> {
                &&& m.version == version
                &&& m.width == width
                &&& m.height == height
                &&& m.origin == origin
                &&& m.resolution == resolution
                &&& rows_reversed(m.gray@, cell_gray@, width as nat, height as nat)
                &&& m.png@ == png_grayscale(m.width, m.height, m.gray@)
                &&& m.png@.len() >= 8
                &&& m.png@.subrange(0, 8) == png_signature()
            },
            r is Ok <==> (0 < width <= u32::MAX && 0 < height <= u32::MAX),
            r == Err::<Self, MapError>(MapError::Png) <==> (width <= u32::MAX && height <= u32::MAX
                && (width == 0 || height == 0)),
    {
        if width > 4294967295usize || height > 4294967295usize {
            return Err(MapError::TooLarge);
        }
        let w = width as u32;
        let h = height as u32;
        let gray = grid_rows_to_image(cell_gray, width, height);
        assert(gray@.len() == (w as int) * (h as int) && gray@.len() == gray.len());
        let png = match encode_png(w, h, &gray) {
            Ok(p) => p,
            Err(e) => return Err(e),
        };
        Ok(MapSnapshot { version, width: w, height: h, origin, resolution, gray, png })
    }

    /// Binary PGM (P5) with the `map_server` convention: occupied 0, free 254, unknown 205.
    pub fn to_pgm(&self) -> (out: Vec<u8>)
        ensures
            out@ == pgm_bytes(self.width, self.height, self.gray@),
    {
        let mut out: Vec<u8> = Vec::new();
        out.push(80u8);
        out.push(53u8);
        out.push(10u8);
        push_decimal(&mut out, self.width as u64);
        out.push(32u8);
        push_decimal(&mut out, self.height as u64);
        out.push(10u8);
        out.push(50u8);
        out.push(53u8);
        out.push(53u8);
        out.push(10u8);
        let ghost header = out@;
        assert(header =~= pgm_header(self.width, self.height));
        let n = self.gray.len();
        let mut i: usize = 0;
        while i < n
            invariant
                n == self.gray@.len(),
                i <= n,
                out@ == header + self.gray@.subrange(0, i as int).map_values(|g: u8| pgm_level(g)),
            decreases n - i,
        {
            let g = self.gray[i];
            let level: u8 = if g < 90 {
                0
            } else if g > 205 {
                254
            } else {
                205
            };
            out.push(level);
            i = i + 1;
            assert(self.gray@.subrange(0, i as int).map_values(|g: u8| pgm_level(g)) =~= self.gray@.subrange(
                0,
                i - 1,
            ).map_values(|g: u8| pgm_level(g)).push(pgm_level(g)));
        }
        assert(self.gray@.subrange(0, n as int) =~= self.gray@);
        out
    }
}

} // verus!
