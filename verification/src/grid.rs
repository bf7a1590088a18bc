//! Grids of palette indices: decoding a PNG into raw RGBA samples, quantizing
//! the samples into a grid through the palette lookup, and the sentinel
//! substitution that absorbs a size mismatch between the goal image and the
//! snapshot of the shared canvas.

use std::io::Cursor;
use vstd::prelude::*;

use crate::palette::ColorLookup;
use crate::palette::PaletteColor;
use crate::palette::lemma_lookup_finds_index;
use crate::palette::lookup_matches;

verus! {

/// A decoded raster image: 8-bit RGBA, four bytes per pixel, rows in
/// row-major order.
pub struct RgbaImage {
    pub width: usize,
    pub height: usize,
    pub bytes: Vec<u8>,
}

impl RgbaImage {
    pub open spec fn wf(&self) -> bool {
        self.bytes@.len() == 4 * (self.width * self.height)
    }
}

/// A row-major grid of palette indices; `cells[y * width + x]` is the palette
/// index of the pixel at `(x, y)`.
#[derive(Debug)]
pub struct Grid {
    pub width: usize,
    pub height: usize,
    pub cells: Vec<u8>,
}

impl Grid {
    pub open spec fn wf(&self) -> bool {
        self.cells@.len() == self.width * self.height
    }
}

/// The diagnostic record emitted for a pixel whose RGB triple is not in the
/// palette: its coordinates and the offending triple.
#[derive(Clone, Copy, PartialEq, Eq, Debug)]
pub struct InvalidPixel {
    pub x: usize,
    pub y: usize,
    pub rgb: (u8, u8, u8),
}

/// Why a byte stream could not be turned into a grid.
#[derive(Clone, Copy, PartialEq, Eq, Structural, Debug)]
pub enum DecodeError {
    /// The bytes are not a decodable PNG stream.
    Malformed,
    /// The image decoded, but its layout is not 8-bit RGBA.
    NotRgba8,
}

/// What decoding a byte stream as an 8-bit RGBA PNG yields: `Some((width,
/// height, samples))` when the stream decodes to that layout, `None`
/// otherwise. Decoding is a function of the bytes alone; no short statement
/// gives the value, so it is left uninterpreted and pinned only at the trusted
/// decoder below.
pub uninterp spec fn rgba_decode(data: Seq<u8>) -> Option<(int, int, Seq<u8>)>;

/// Relies on png's `Decoder::new`, `Reader::read_info` and
/// `Reader::next_frame`: decoding is deterministic in the input bytes, and for
/// an 8-bit RGBA frame `OutputInfo::buffer_size()` is `line_size * height`
/// with `line_size == 4 * width`, so the frame holds exactly four bytes per
/// pixel.
#[verifier::external_body]
fn decode_rgba(data: &Vec<u8>) -> (r: Result<RgbaImage, DecodeError>)
    ensures
        match r {
            Ok(img) => rgba_decode(data@) == Some((img.width as int, img.height as int, img.bytes@))
                && img.wf(),
            Err(_) => rgba_decode(data@) is None,
        },
{
    let decoder = png::Decoder::new(Cursor::new(data.as_slice()));
    let mut reader = match decoder.read_info() {
        Ok(reader) => reader,
        Err(_) => return Err(DecodeError::Malformed),
    };
    let mut buf = vec![0u8; reader.output_buffer_size()];
    let info = match reader.next_frame(&mut buf) {
        Ok(info) => info,
        Err(_) => return Err(DecodeError::Malformed),
    };
    if info.color_type != png::ColorType::Rgba || info.bit_depth != png::BitDepth::Eight {
        return Err(DecodeError::NotRgba8);
    }
    buf.truncate(info.buffer_size());
    Ok(RgbaImage { width: info.width as usize, height: info.height as usize, bytes: buf })
}

/// The RGB triple of pixel `i` of a raw RGBA sample sequence; the alpha byte
/// is ignored.
pub open spec fn pixel_rgb(bytes: Seq<u8>, i: int) -> (u8, u8, u8) {
    (bytes[4 * i], bytes[4 * i + 1], bytes[4 * i + 2])
}

/// The palette index pixel `i` quantizes to: the looked-up index when its
/// triple is in the table, the fallback index 0 otherwise.
pub open spec fn cell_spec(m: Map<(u8, u8, u8), u8>, bytes: Seq<u8>, i: int) -> u8 {
    if m.contains_key(pixel_rgb(bytes, i)) {
        m[pixel_rgb(bytes, i)]
    } else {
        0u8
    }
}

/// The diagnostics emitted while quantizing the first `n` pixels: one record
/// per pixel whose triple is not in the table, in row-major order.
pub open spec fn diagnostics_spec(
    m: Map<(u8, u8, u8), u8>,
    width: int,
    bytes: Seq<u8>,
    n: int,
) -> Seq<InvalidPixel>
    decreases n,
{
    if n <= 0 {
        Seq::empty()
    } else {
        let prev = diagnostics_spec(m, width, bytes, n - 1);
        let c = pixel_rgb(bytes, n - 1);
        if m.contains_key(c) {
            prev
        } else {
            prev.push(
                InvalidPixel { x: ((n - 1) % width) as usize, y: ((n - 1) / width) as usize, rgb: c },
            )
        }
    }
}

/// Quantize a decoded RGBA image into a grid of palette indices. Every pixel
/// gets a cell: a triple absent from the table falls back to index 0 and adds
/// one diagnostic record; quantization never fails.
pub fn quantize(img: &RgbaImage, lookup: &ColorLookup) -> (r: (Grid, Vec<InvalidPixel>))
    requires
        img.wf(),
    ensures
        r.0.wf(),
        r.0.width == img.width,
        r.0.height == img.height,
        r.0.cells@.len() == img.width * img.height,
        forall|i: int|
            0 <= i < r.0.cells@.len() ==> r.0.cells@[i] == cell_spec(lookup@, img.bytes@, i),
        r.1@ == diagnostics_spec(lookup@, img.width as int, img.bytes@, (img.width
            * img.height) as int),
{
    let n = img.bytes.len() / 4;
    proof {
        let t = (img.width * img.height) as int;
        assert(img.bytes@.len() == 4 * t);
        assert((4 * t) / 4 == t) by (nonlinear_arith);
    }
    let mut cells: Vec<u8> = Vec::new();
    let mut diags: Vec<InvalidPixel> = Vec::new();
    let mut i: usize = 0;
    while i < n
        invariant
            img.wf(),
            n == img.width * img.height,
            4 * n == img.bytes@.len(),
            img.bytes@.len() <= usize::MAX,
            i <= n,
            cells@.len() == i,
            forall|j: int| 0 <= j < i ==> cells@[j] == cell_spec(lookup@, img.bytes@, j),
            diags@ == diagnostics_spec(lookup@, img.width as int, img.bytes@, i as int),
        decreases n - i,
    {
        let r = img.bytes[4 * i];
        let g = img.bytes[4 * i + 1];
        let b = img.bytes[4 * i + 2];
        match lookup.get((r, g, b)) {
            Some(idx) => {
                cells.push(idx);
            },
            None => {
                let x = i % img.width;
                let y = i / img.width;
                diags.push(InvalidPixel { x, y, rgb: (r, g, b) });
                cells.push(0);
            },
        }
        i += 1;
    }
    (Grid { width: img.width, height: img.height, cells }, diags)
}

/// Decode a PNG byte stream and quantize it in one step: the part of loading
/// an image that is independent of where the bytes came from.
pub fn load_image_cells(data: &Vec<u8>, lookup: &ColorLookup) -> (r: Result<
    (Grid, Vec<InvalidPixel>),
    DecodeError,
>)
    ensures
        r is Ok <==> rgba_decode(data@) is Some,
        r matches Ok(p) ==> rgba_decode(data@) matches Some(dec) && {
            &&& p.0.wf()
            &&& p.0.width as int == dec.0
            &&& p.0.height as int == dec.1
            &&& p.0.cells@.len() == dec.0 * dec.1
            &&& forall|i: int| 0 <= i < p.0.cells@.len() ==> p.0.cells@[i] == cell_spec(lookup@, dec.2, i)
            &&& p.1@ == diagnostics_spec(lookup@, dec.0, dec.2, dec.0 * dec.1)
        },
{
    match decode_rgba(data) {
        Ok(img) => {
            let (grid, diags) = quantize(&img, lookup);
            Ok((grid, diags))
        },
        Err(e) => Err(e),
    }
}

/// The cell value of the sentinel grid; it is outside every palette of at
/// most 240 colors, so a sentinel cell never equals a valid goal cell.
pub const SENTINEL_CELL: u8 = 0xF0;

/// The current grid actually used for selection: the snapshot itself when its
/// cell count matches the goal's, else a sentinel grid of the goal's size in
/// which every pixel reads as mismatched. A size mismatch is degraded to
/// uniform random selection, not rejected.
pub fn effective_current(goal: &Grid, current: Grid) -> (r: Grid)
    requires
        goal.wf(),
    ensures
        r.wf(),
        r.width == goal.width,
        r.height == goal.height,
        current.cells@.len() == goal.cells@.len() ==> r.cells@ == current.cells@,
        current.cells@.len() != goal.cells@.len() ==> r.cells@ == Seq::new(
            goal.cells@.len(),
            |i: int| SENTINEL_CELL,
        ),
{
    if current.cells.len() == goal.cells.len() {
        Grid { width: goal.width, height: goal.height, cells: current.cells }
    } else {
        let n = goal.cells.len();
        let mut cells: Vec<u8> = Vec::new();
        let mut i: usize = 0;
        while i < n
            invariant
                i <= n,
                cells@.len() == i,
                forall|j: int| 0 <= j < i ==> cells@[j] == SENTINEL_CELL,
            decreases n - i,
        {
            cells.push(SENTINEL_CELL);
            i += 1;
        }
        proof {
            assert(cells@ =~= Seq::new(goal.cells@.len(), |i: int| SENTINEL_CELL));
        }
        Grid { width: goal.width, height: goal.height, cells }
    }
}

/// A sentinel grid mismatches the goal everywhere: when every goal cell is a
/// valid palette index (below the sentinel value), each sentinel cell compares
/// unequal to the corresponding goal cell.
pub proof fn lemma_sentinel_mismatch(goal: Seq<u8>, current: Seq<u8>)
    requires
        current == Seq::new(goal.len(), |i: int| SENTINEL_CELL),
        forall|i: int| 0 <= i < goal.len() ==> goal[i] < SENTINEL_CELL,
    ensures
        current.len() == goal.len(),
        forall|i: int| 0 <= i < goal.len() ==> current[i] != goal[i],
{
}

/// Every pixel whose triple is absent from the table is diagnosed: the record
/// with its coordinates and triple occurs in the emitted diagnostics.
pub proof fn lemma_invalid_pixel_diagnosed(
    m: Map<(u8, u8, u8), u8>,
    width: int,
    bytes: Seq<u8>,
    n: int,
    i: int,
)
    requires
        0 <= i < n,
        !m.contains_key(pixel_rgb(bytes, i)),
    ensures
        cell_spec(m, bytes, i) == 0,
        diagnostics_spec(m, width, bytes, n).contains(
            InvalidPixel {
                x: (i % width) as usize,
                y: (i / width) as usize,
                rgb: pixel_rgb(bytes, i),
            },
        ),
    decreases n,
{
    if i == n - 1 {
        let d = diagnostics_spec(m, width, bytes, n);
        let prev = diagnostics_spec(m, width, bytes, n - 1);
        assert(d == prev.push(
            InvalidPixel { x: (i % width) as usize, y: (i / width) as usize, rgb: pixel_rgb(bytes, i) },
        ));
        assert(d[d.len() - 1] == InvalidPixel {
            x: (i % width) as usize,
            y: (i / width) as usize,
            rgb: pixel_rgb(bytes, i),
        });
    } else {
        lemma_invalid_pixel_diagnosed(m, width, bytes, n - 1, i);
        let rec = InvalidPixel {
            x: (i % width) as usize,
            y: (i / width) as usize,
            rgb: pixel_rgb(bytes, i),
        };
        let prev = diagnostics_spec(m, width, bytes, n - 1);
        let k = choose|k: int| 0 <= k < prev.len() && prev[k] == rec;
        assert(diagnostics_spec(m, width, bytes, n)[k] == rec);
    }
}

/// Quantization totality, cell by cell: against a lookup built from a
/// nonempty palette, every cell a quantizer can produce is a valid index into
/// that palette, whatever the pixel holds.
pub proof fn lemma_cell_valid(
    m: Map<(u8, u8, u8), u8>,
    palette: Seq<PaletteColor>,
    bytes: Seq<u8>,
    i: int,
)
    requires
        lookup_matches(m, palette),
        palette.len() >= 1,
    ensures
        (cell_spec(m, bytes, i) as int) < palette.len(),
{
}

/// Lookup correctness: a pixel whose triple is exactly the color of palette
/// entry `j` quantizes to index `j`, as long as the palette's colors are
/// pairwise distinct.
pub proof fn lemma_quantize_exact_color(
    m: Map<(u8, u8, u8), u8>,
    palette: Seq<PaletteColor>,
    bytes: Seq<u8>,
    i: int,
    j: int,
)
    requires
        lookup_matches(m, palette),
        forall|j1: int, j2: int|
            0 <= j1 < palette.len() && 0 <= j2 < palette.len() && j1 != j2
                ==> #[trigger] palette[j1].rgb != #[trigger] palette[j2].rgb,
        0 <= j < palette.len(),
        pixel_rgb(bytes, i) == palette[j].rgb,
    ensures
        cell_spec(m, bytes, i) == j as u8,
{
    lemma_lookup_finds_index(m, palette, j);
}

/// The absolute board coordinates of a grid index: its grid-relative column
/// and row, shifted by the configured origin offset.
pub fn absolute_coords(index: usize, width: usize, offset_x: usize, offset_y: usize) -> (r: (
    usize,
    usize,
))
    requires
        width > 0,
        index % width + offset_x <= usize::MAX,
        index / width + offset_y <= usize::MAX,
    ensures
        r.0 == index % width + offset_x,
        r.1 == index / width + offset_y,
{
    (index % width + offset_x, index / width + offset_y)
}

} // verus!
