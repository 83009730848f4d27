//! GFX file export/import as lossless grayscale tile sheets.
//!
//! A sheet is `GFX_IMAGE_COLS` tiles (128 pixels) wide; tile `i` sits at column
//! `i % 16`, row `i / 16`. Pixel intensity is the tile's color index times
//! a per-format scale, so the image uses the full 0-255 range and still
//! decodes back to the exact indices. Tiles past the end of the file pad the
//! last row with index 0.

use crate::text::{decimal, push_decimal};
use vstd::prelude::*;

verus! {

/// Tiles per sheet row.
pub const GFX_IMAGE_COLS: usize = 16;

/// Bit depth / layout of the tiles in a GFX file.
#[derive(Clone, Copy, Debug, PartialEq, Eq, Structural)]
pub enum TileFormat {
    Tile2bpp,
    Tile3bpp,
    Tile4bpp,
    Tile8bpp,
    Tile3bppMode7,
}

/// One 8x8 tile as 64 color indices, row-major.
#[derive(Clone, Copy, Debug, PartialEq, Eq)]
pub struct Tile {
    pub color_indices: [u8; 64],
}

/// An 8-bit grayscale image, row-major, `width * height` pixels.
#[derive(Clone, Debug)]
pub struct GrayImage {
    pub width: u32,
    pub height: u32,
    pub pixels: Vec<u8>,
}

impl GrayImage {
    /// The pixel buffer holds exactly `width * height` pixels.
    pub open spec fn wf(&self) -> bool {
        self.pixels@.len() == self.width * self.height
    }

    /// A black image of the given size.
    pub fn new(width: u32, height: u32) -> (img: Self)
        requires
            width * height <= usize::MAX,
        ensures
            img.wf(),
            img.width == width,
            img.height == height,
            forall|i: int| 0 <= i < img.pixels@.len() ==> img.pixels@[i] == 0,
    {
        let n: usize = (width as usize) * (height as usize);
        let mut pixels: Vec<u8> = Vec::new();
        let mut i: usize = 0;
        while i < n
            invariant
                i <= n,
                pixels@.len() == i,
                forall|j: int| 0 <= j < i ==> pixels@[j] == 0,
            decreases n - i,
        {
            pixels.push(0);
            i += 1;
        }
        GrayImage { width, height, pixels }
    }

    /// `(width, height)`.
    pub fn dimensions(&self) -> (d: (u32, u32))
        ensures
            d == (self.width, self.height),
    {
        (self.width, self.height)
    }

    /// The pixel at column `x`, row `y`.
    pub fn get_pixel(&self, x: u32, y: u32) -> (p: u8)
        requires
            self.wf(),
            x < self.width,
            y < self.height,
        ensures
            p == self.pixels@[y * self.width + x],
    {
        let n = self.pixels.len();
        assert(y * self.width + x < self.width * self.height) by (nonlinear_arith)
            requires
                x < self.width,
                y < self.height,
        ;
        assert((y as usize) * (self.width as usize) <= y * self.width + x);
        self.pixels[(y as usize) * (self.width as usize) + (x as usize)]
    }
}

/// Bytes per tile in a raw GFX file of this format.
pub open spec fn tile_bytes(format: TileFormat) -> int {
    match format {
        TileFormat::Tile2bpp => 16,
        TileFormat::Tile3bpp | TileFormat::Tile3bppMode7 => 24,
        TileFormat::Tile4bpp => 32,
        TileFormat::Tile8bpp => 64,
    }
}

/// Scale from a color index to a gray level: the largest index of the
/// format (3, 7, 15, 255) maps to (nearly) 255.
pub open spec fn scale_of(format: TileFormat) -> int {
    match format {
        TileFormat::Tile2bpp => 85,
        TileFormat::Tile3bpp | TileFormat::Tile3bppMode7 => 36,
        TileFormat::Tile4bpp => 17,
        TileFormat::Tile8bpp => 1,
    }
}

/// Largest color index a sheet of this format can carry.
pub open spec fn max_index_of(format: TileFormat) -> int {
    255int / scale_of(format)
}

/// Number of sheet rows for `n` tiles.
pub open spec fn sheet_rows(n: int) -> int {
    (n + 15) / 16
}

/// Gray level of sheet pixel `(x, y)`.
pub open spec fn sheet_pixel(tiles: Seq<Tile>, format: TileFormat, x: int, y: int) -> u8 {
    let t = (y / 8) * 16 + x / 8;
    if t < tiles.len() {
        (tiles[t].color_indices@[(y % 8) * 8 + x % 8] * scale_of(format)) as u8
    } else {
        0
    }
}

/// All pixels of the sheet for `tiles`, row-major.
pub open spec fn sheet_pixels(tiles: Seq<Tile>, format: TileFormat) -> Seq<u8> {
    Seq::new(
        (sheet_rows(tiles.len() as int) * 1024) as nat,
        |i: int| sheet_pixel(tiles, format, i % 128, i / 128),
    )
}

/// Color index `k` of tile `t` read back from a 128-pixel-wide sheet: the
/// gray level divided by the scale, clamped to the format's largest index.
pub open spec fn decoded_index(pixels: Seq<u8>, format: TileFormat, t: int, k: int) -> u8 {
    let x = (t % 16) * 8 + k % 8;
    let y = (t / 16) * 8 + k / 8;
    let v = (pixels[y * 128 + x] as int) / scale_of(format);
    if v > max_index_of(format) {
        max_index_of(format) as u8
    } else {
        v as u8
    }
}

/// The color indices of every tile of a 128-pixel-wide sheet.
pub open spec fn sheet_tiles(height: int, pixels: Seq<u8>, format: TileFormat) -> Seq<Seq<u8>> {
    Seq::new(
        ((height / 8) * 16) as nat,
        |t: int| Seq::new(64, |k: int| decoded_index(pixels, format, t, k)),
    )
}

/// `tiles`' color indices, followed by all-zero tiles up to a whole row.
pub open spec fn padded_tiles(tiles: Seq<Tile>) -> Seq<Seq<u8>> {
    Seq::new(
        (sheet_rows(tiles.len() as int) * 16) as nat,
        |t: int|
            if t < tiles.len() {
                tiles[t].color_indices@
            } else {
                Seq::new(64, |k: int| 0u8)
            },
    )
}

/// Every color index of every tile fits the format's sheet encoding.
pub open spec fn indices_fit(tiles: Seq<Tile>, format: TileFormat) -> bool {
    forall|t: int, k: int|
        0 <= t < tiles.len() && 0 <= k < 64 ==> #[trigger] tiles[t].color_indices@[k]
            <= max_index_of(format)
}

/// The message for an image that is not a sheet.
pub open spec fn bad_sheet_message(width: u32, height: u32) -> Seq<char> {
    "Image must be 128px wide (16 tiles/row) and a multiple of 8px tall; got "@ + decimal(
        width as nat,
    ) + "x"@ + decimal(height as nat) + "."@
}

/// Bytes per tile in a raw GFX file of `format`.
pub fn tile_byte_size(format: TileFormat) -> (n: usize)
    ensures
        n == tile_bytes(format),
{
    match format {
        TileFormat::Tile2bpp => 16,
        TileFormat::Tile3bpp | TileFormat::Tile3bppMode7 => 24,
        TileFormat::Tile4bpp => 32,
        TileFormat::Tile8bpp => 64,
    }
}

/// Gray-level scale for color indices of `format`.
pub fn index_scale(format: TileFormat) -> (s: u8)
    ensures
        s == scale_of(format),
{
    match format {
        TileFormat::Tile2bpp => 85,
        TileFormat::Tile3bpp | TileFormat::Tile3bppMode7 => 36,
        TileFormat::Tile4bpp => 17,
        TileFormat::Tile8bpp => 1,
    }
}

/// Render `tiles` into a grayscale sheet, or `None` when there are no tiles.
pub fn tiles_to_image(tiles: &[Tile], format: TileFormat) -> (img: Option<GrayImage>)
    requires
        indices_fit(tiles@, format),
        sheet_rows(tiles@.len() as int) * 1024 <= usize::MAX,
        sheet_rows(tiles@.len() as int) * 8 <= u32::MAX,
    ensures
        img is None <==> tiles@.len() == 0,
        img matches Some(im) ==> {
            &&& im.wf()
            &&& im.width == 128
            &&& im.height == sheet_rows(tiles@.len() as int) * 8
            &&& im.pixels@ == sheet_pixels(tiles@, format)
        },
{
    if tiles.len() == 0 {
        return None;
    }
    let scale = index_scale(format);
    let n = tiles.len();
    let rows: usize = n / GFX_IMAGE_COLS + if n % GFX_IMAGE_COLS == 0 { 0 } else { 1 };
    assert(rows == sheet_rows(n as int));
    let total: usize = rows * 1024;
    let mut pixels: Vec<u8> = Vec::new();
    let mut i: usize = 0;
    while i < total
        invariant
            n == tiles@.len(),
            total == rows * 1024,
            rows == sheet_rows(n as int),
            scale == scale_of(format),
            indices_fit(tiles@, format),
            i <= total,
            pixels@.len() == i,
            forall|j: int| 0 <= j < i ==> pixels@[j] == sheet_pixel(tiles@, format, j % 128, j / 128),
        decreases total - i,
    {
        let x = i % 128;
        let y = i / 128;
        let t = (y / 8) * GFX_IMAGE_COLS + x / 8;
        let v: u8 = if t < n {
            let k = (y % 8) * 8 + x % 8;
            let idx = tiles[t].color_indices[k];
            assert(tiles@[t as int].color_indices@[k as int] <= max_index_of(format));
            assert(idx * scale <= 255) by (nonlinear_arith)
                requires
                    idx <= 255int / (scale as int),
                    scale > 0,
            ;
            idx * scale
        } else {
            0
        };
        pixels.push(v);
        i += 1;
    }
    let height: u32 = (rows * 8) as u32;
    let img = GrayImage { width: 128, height, pixels };
    assert(img.pixels@ =~= sheet_pixels(tiles@, format));
    Some(img)
}

/// Read a grayscale sheet back into tiles: every 8x8 cell of a sheet that
/// is 128 pixels wide and a whole number of tiles tall, in sheet order.
/// Any other size is refused with a message for the user.
pub fn image_to_tiles(img: &GrayImage, format: TileFormat) -> (res: Result<Vec<Tile>, String>)
    requires
        img.wf(),
    ensures
        res is Err <==> (img.width != 128 || img.height % 8 != 0),
        res matches Err(msg) ==> msg@ == bad_sheet_message(img.width, img.height),
        res matches Ok(tiles) ==> tiles@.len() == (img.height / 8) * 16 && forall|t: int|
            0 <= t < tiles@.len() ==> (#[trigger] tiles@[t]).color_indices@ == sheet_tiles(
                img.height as int,
                img.pixels@,
                format,
            )[t],
{
    let scale = index_scale(format);
    let max_index: u8 = 255 / scale;
    let (w, h) = img.dimensions();
    if w != 128 || h % 8 != 0 {
        let mut msg = String::new();
        msg.append("Image must be 128px wide (16 tiles/row) and a multiple of 8px tall; got ");
        push_decimal(&mut msg, w as u64);
        msg.append("x");
        push_decimal(&mut msg, h as u64);
        msg.append(".");
        return Err(msg);
    }
    let rows: usize = (h / 8) as usize;
    assert(rows * 16 * 64 <= img.pixels@.len()) by (nonlinear_arith)
        requires
            rows == img.height / 8,
            img.pixels@.len() == 128 * img.height,
    ;
    let n_pixels = img.pixels.len();
    let n_tiles: usize = rows * GFX_IMAGE_COLS;
    let ghost expected = sheet_tiles(img.height as int, img.pixels@, format);
    let mut tiles: Vec<Tile> = Vec::new();
    let mut t: usize = 0;
    while t < n_tiles
        invariant
            img.wf(),
            img.width == 128,
            n_tiles == rows * 16,
            rows == img.height / 8,
            scale == scale_of(format),
            max_index == max_index_of(format),
            expected == sheet_tiles(img.height as int, img.pixels@, format),
            t <= n_tiles,
            tiles@.len() == t,
            forall|u: int| 0 <= u < t ==> (#[trigger] tiles@[u]).color_indices@ == expected[u],
        decreases n_tiles - t,
    {
        let tx = (t % GFX_IMAGE_COLS) * 8;
        let ty = (t / GFX_IMAGE_COLS) * 8;
        let mut color_indices = [0u8; 64];
        let mut k: usize = 0;
        while k < 64
            invariant
                img.wf(),
                img.width == 128,
                n_tiles == rows * 16,
                rows == img.height / 8,
                scale == scale_of(format),
                max_index == max_index_of(format),
                t < n_tiles,
                tx == (t % 16) * 8,
                ty == (t / 16) * 8,
                k <= 64,
                forall|j: int|
                    0 <= j < k ==> color_indices@[j] == decoded_index(
                        img.pixels@,
                        format,
                        t as int,
                        j,
                    ),
            decreases 64 - k,
        {
            let px = (k % 8) as u32;
            let py = (k / 8) as u32;
            assert(ty + py < img.height) by (nonlinear_arith)
                requires
                    ty == (t / 16) * 8,
                    t < rows * 16,
                    py < 8,
                    rows == img.height / 8,
            ;
            let v = img.get_pixel(tx as u32 + px, ty as u32 + py) / scale;
            let c = if v > max_index {
                max_index
            } else {
                v
            };
            color_indices[k] = c;
            k += 1;
        }
        tiles.push(Tile { color_indices });
        proof {
            assert(tiles@[t as int].color_indices@ =~= expected[t as int]);
        }
        t += 1;
    }
    Ok(tiles)
}

/// Exporting tiles whose indices fit the format and importing the sheet
/// gives the same tiles back, followed by blank tiles up to a whole sheet
/// row.
pub proof fn lemma_sheet_round_trip(tiles: Seq<Tile>, format: TileFormat)
    requires
        indices_fit(tiles, format),
    ensures
        sheet_tiles(sheet_rows(tiles.len() as int) * 8, sheet_pixels(tiles, format), format)
            =~= padded_tiles(tiles),
{
    let rows = sheet_rows(tiles.len() as int);
    let pixels = sheet_pixels(tiles, format);
    let s = scale_of(format);
    assert forall|t: int| 0 <= t < rows * 16 implies #[trigger] sheet_tiles(
        rows * 8,
        pixels,
        format,
    )[t] =~= padded_tiles(tiles)[t] by {
        assert forall|k: int| 0 <= k < 64 implies decoded_index(pixels, format, t, k)
            == padded_tiles(tiles)[t][k] by {
            let x = (t % 16) * 8 + k % 8;
            let y = (t / 16) * 8 + k / 8;
            assert(0 <= x < 128);
            assert(0 <= y < rows * 8);
            assert(y / 8 == t / 16);
            assert(x / 8 == t % 16);
            assert(y % 8 == k / 8);
            assert(x % 8 == k % 8);
            assert((y * 128 + x) % 128 == x);
            assert((y * 128 + x) / 128 == y);
            assert(0 <= y * 128 + x < rows * 1024);
            if t < tiles.len() {
                let c = tiles[t].color_indices@[k];
                assert(c <= max_index_of(format));
                assert(pixels[y * 128 + x] == (c * s) as u8);
                assert((c * s) / s == c) by {
                    match format {
                        TileFormat::Tile2bpp => {},
                        TileFormat::Tile3bpp | TileFormat::Tile3bppMode7 => {},
                        TileFormat::Tile4bpp => {},
                        TileFormat::Tile8bpp => {},
                    }
                }
            }
        }
    }
}

} // verus!
