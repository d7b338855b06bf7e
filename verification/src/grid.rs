//! The density grid of one tile: binning pixel hits into 256 x 256 cells,
//! colouring the cells and encoding the picture.

use vstd::prelude::*;

verus! {

/// Number of cells of a tile: 256 rows of 256.
pub const CELLS: usize = 65536;

/// Length of a tile's RGBA buffer in bytes.
pub const RGBA_LEN: usize = 262144;

/// The row-major cell that a pixel position falls into, if it lies on the tile.
pub open spec fn cell_of(px: int, py: int) -> Option<int> {
    if 0 <= px < 256 && 0 <= py < 256 {
        Some(py * 256 + px)
    } else {
        None
    }
}

/// Whether the pixel position `p` lies on the tile, in cell `cell`.
pub open spec fn lands_in(p: (i32, i32), cell: int) -> bool {
    cell_of(p.0 as int, p.1 as int) == Some(cell)
}

/// How many of `pixels` fall into `cell`.
pub open spec fn hits(pixels: Seq<(i32, i32)>, cell: int) -> nat
    decreases pixels.len(),
{
    if pixels.len() == 0 {
        0
    } else {
        hits(pixels.drop_last(), cell) + if lands_in(pixels.last(), cell) {
            1nat
        } else {
            0nat
        }
    }
}

/// No cell is hit more often than there are pixels.
pub proof fn lemma_hits_bounded(pixels: Seq<(i32, i32)>, cell: int)
    ensures
        hits(pixels, cell) <= pixels.len(),
    decreases pixels.len(),
{
    if pixels.len() > 0 {
        lemma_hits_bounded(pixels.drop_last(), cell);
    }
}

/// Pixels that all lie off the tile hit no cell.
pub proof fn lemma_hits_off_tile(pixels: Seq<(i32, i32)>, cell: int)
    requires
        forall|i: int| 0 <= i < pixels.len() ==> cell_of(pixels[i].0 as int, pixels[i].1 as int) is None,
    ensures
        hits(pixels, cell) == 0,
    decreases pixels.len(),
{
    if pixels.len() > 0 {
        let shorter = pixels.drop_last();
        assert forall|i: int| 0 <= i < shorter.len() implies cell_of(
            shorter[i].0 as int,
            shorter[i].1 as int,
        ) is None by {
            assert(shorter[i] == pixels[i]);
        }
        lemma_hits_off_tile(shorter, cell);
        assert(pixels.last() == pixels[pixels.len() - 1]);
    }
}

/// Per-cell hit counts of one tile, with the largest count.
pub struct DensityGrid {
    pub counts: Vec<u32>,
    pub max_count: u32,
}

impl DensityGrid {
    /// The grid has one count per cell and `max_count` is the largest of them.
    pub open spec fn wf(&self) -> bool {
        &&& self.counts@.len() == 65536
        &&& forall|c: int| 0 <= c < 65536 ==> self.counts@[c] <= self.max_count
        &&& exists|c: int| 0 <= c < 65536 && self.counts@[c] == self.max_count
    }

    /// Every cell holds the number of `pixels` that fall into it.
    pub open spec fn tallies(&self, pixels: Seq<(i32, i32)>) -> bool {
        forall|c: int| 0 <= c < 65536 ==> self.counts@[c] as nat == hits(pixels, c)
    }

    /// The count of one cell.
    pub fn count_at(&self, cell: usize) -> (n: u32)
        requires
            self.wf(),
            cell < 65536,
        ensures
            n == self.counts@[cell as int],
            n <= self.max_count,
    {
        self.counts[cell]
    }

    /// The largest count of any cell.
    pub fn max(&self) -> (m: u32)
        ensures
            m == self.max_count,
    {
        self.max_count
    }
}

/// Bins pixel positions into the grid. Positions off the tile are discarded;
/// the largest count is tracked in the same pass.
pub fn bin_pixels(pixels: &Vec<(i32, i32)>) -> (grid: DensityGrid)
    requires
        pixels@.len() <= u32::MAX,
    ensures
        grid.wf(),
        grid.tallies(pixels@),
{
    let mut counts: Vec<u32> = Vec::new();
    let mut k: usize = 0;
    while k < 65536
        invariant
            k <= 65536,
            counts@.len() == k,
            forall|c: int| 0 <= c < k ==> counts@[c] == 0u32,
        decreases 65536 - k,
    {
        counts.push(0u32);
        k += 1;
    }
    let mut max_count: u32 = 0;
    let mut i: usize = 0;
    assert(counts@[0] == max_count);
    while i < pixels.len()
        invariant
            i <= pixels@.len(),
            pixels@.len() <= u32::MAX,
            counts@.len() == 65536,
            forall|c: int| 0 <= c < 65536 ==> counts@[c] as nat == hits(pixels@.take(i as int), c),
            forall|c: int| 0 <= c < 65536 ==> counts@[c] <= max_count,
            exists|c: int| 0 <= c < 65536 && counts@[c] == max_count,
        decreases pixels@.len() - i,
    {
        let px: i32 = pixels[i].0;
        let py: i32 = pixels[i].1;
        let ghost seen = pixels@.take(i as int);
        let ghost next = pixels@.take(i + 1);
        let ghost before = counts@;
        let ghost top = choose|c: int| 0 <= c < 65536 && counts@[c] == max_count;
        proof {
            assert(next.drop_last() =~= seen);
            assert(next.last() == pixels@[i as int]);
        }
        if px >= 0 && px < 256 && py >= 0 && py < 256 {
            let idx: usize = (py as usize) * 256 + (px as usize);
            proof {
                lemma_hits_bounded(seen, idx as int);
            }
            let bumped: u32 = counts[idx] + 1;
            counts.set(idx, bumped);
            if bumped > max_count {
                max_count = bumped;
                assert(counts@[idx as int] == max_count);
            } else {
                assert(top != idx);
                assert(counts@[top] == max_count);
            }
            assert forall|c: int| 0 <= c < 65536 implies counts@[c] as nat == hits(next, c) by {
                assert(lands_in(pixels@[i as int], c) == (c == idx));
                if c != idx {
                    assert(counts@[c] == before[c]);
                }
            }
        } else {
            assert(counts@[top] == max_count);
            assert forall|c: int| 0 <= c < 65536 implies counts@[c] as nat == hits(next, c) by {
                assert(!lands_in(pixels@[i as int], c));
            }
        }
        i += 1;
    }
    assert(pixels@.take(pixels@.len() as int) =~= pixels@);
    DensityGrid { counts, max_count }
}

/// One pixel: red, green, blue and alpha, 8 bits each.
#[derive(Clone, Copy, Debug, PartialEq, Eq, Structural)]
pub struct Rgba {
    pub red: u8,
    pub green: u8,
    pub blue: u8,
    pub alpha: u8,
}

/// The colour of a cell with `count` hits whose density maps to the red level
/// `red`: transparent where nothing hit, else opaque, blue falling as red rises.
pub open spec fn shade(count: u32, red: u8) -> Rgba {
    if count == 0 {
        Rgba { red: 0, green: 0, blue: 0, alpha: 0 }
    } else {
        Rgba { red: red, green: 0, blue: (255 - red) as u8, alpha: 255 }
    }
}

/// Colours one cell.
pub fn color_map(count: u32, red: u8) -> (c: Rgba)
    ensures
        c == shade(count, red),
{
    if count == 0 {
        Rgba { red: 0, green: 0, blue: 0, alpha: 0 }
    } else {
        Rgba { red: red, green: 0, blue: 255 - red, alpha: 255 }
    }
}

/// Channel `k` of a pixel, in the order red, green, blue, alpha.
pub open spec fn channel(c: Rgba, k: int) -> u8 {
    if k == 0 {
        c.red
    } else if k == 1 {
        c.green
    } else if k == 2 {
        c.blue
    } else {
        c.alpha
    }
}

/// The row-major RGBA buffer of cells with the given counts and red levels.
pub open spec fn painted(counts: Seq<u32>, reds: Seq<u8>) -> Seq<u8> {
    Seq::new(
        (4 * counts.len()) as nat,
        |j: int| channel(shade(counts[j / 4], reds[j / 4]), j % 4),
    )
}

/// Colours every cell of the grid, `reds[c]` being the red level of cell `c`,
/// and lays the pixels out row by row, four bytes each.
pub fn paint(grid: &DensityGrid, reds: &Vec<u8>) -> (rgba: Vec<u8>)
    requires
        grid.wf(),
        reds@.len() == 65536,
    ensures
        rgba@ == painted(grid.counts@, reds@),
        rgba@.len() == 262144,
{
    let mut rgba: Vec<u8> = Vec::new();
    let mut c: usize = 0;
    while c < 65536
        invariant
            c <= 65536,
            grid.counts@.len() == 65536,
            reds@.len() == 65536,
            rgba@.len() == 4 * c,
            forall|j: int|
                0 <= j < 4 * c ==> rgba@[j] == channel(
                    shade(grid.counts@[j / 4], reds@[j / 4]),
                    j % 4,
                ),
        decreases 65536 - c,
    {
        let color = color_map(grid.counts[c], reds[c]);
        rgba.push(color.red);
        rgba.push(color.green);
        rgba.push(color.blue);
        rgba.push(color.alpha);
        c += 1;
    }
    assert(rgba@ =~= painted(grid.counts@, reds@));
    rgba
}

/// A tile that no pixel falls on is fully transparent: every byte of its
/// picture, alpha included, is zero, whatever the red levels say.
pub proof fn lemma_empty_tile_transparent(
    pixels: Seq<(i32, i32)>,
    grid: DensityGrid,
    reds: Seq<u8>,
)
    requires
        grid.wf(),
        grid.tallies(pixels),
        forall|i: int| 0 <= i < pixels.len() ==> cell_of(pixels[i].0 as int, pixels[i].1 as int) is None,
    ensures
        grid.max_count == 0,
        painted(grid.counts@, reds).len() == 262144,
        forall|j: int| 0 <= j < 262144 ==> painted(grid.counts@, reds)[j] == 0u8,
{
    assert forall|c: int| 0 <= c < 65536 implies grid.counts@[c] == 0u32 by {
        lemma_hits_off_tile(pixels, c);
    }
    assert forall|j: int| 0 <= j < 262144 implies painted(grid.counts@, reds)[j] == 0u8 by {
        assert(0 <= j / 4 < 65536);
    }
}

/// A cell that was hit shows its red level; blue is what red leaves of 255,
/// and a cell is opaque exactly where something hit it.
pub proof fn lemma_shade_channels(count: u32, red: u8)
    ensures
        shade(count, red).green == 0,
        shade(count, red).alpha == (if count > 0 { 255u8 } else { 0u8 }),
        count > 0 ==> shade(count, red).red == red,
        count > 0 ==> shade(count, red).red + shade(count, red).blue == 255,
{
}

/// Colouring keeps the order of the red levels: a cell whose level is not
/// below another's is drawn no less red and no more blue, whether or not the
/// other was hit.
pub proof fn lemma_shade_keeps_order(low: u32, high: u32, low_red: u8, high_red: u8)
    requires
        high > 0,
        low_red <= high_red,
    ensures
        shade(low, low_red).red <= shade(high, high_red).red,
        low > 0 ==> shade(low, low_red).blue >= shade(high, high_red).blue,
{
}

/// Why a tile could not be produced.
#[derive(Clone, Copy, Debug, PartialEq, Eq, Structural)]
pub enum RenderError {
    /// The encoder refused the picture.
    Encoding,
}

#[verifier::external_type_specification]
#[verifier::external_body]
pub struct ExImageError(image::ImageError);

/// The PNG file that the encoder makes of a 256 x 256 RGBA buffer, or `None`
/// where it reports an error.
pub uninterp spec fn png_encoding(rgba: Seq<u8>) -> Option<Seq<u8>>;

/// Calls `image::DynamicImage::write_to` with `ImageFormat::Png` on a
/// 256 x 256 RGBA image made of the buffer by `ImageBuffer::from_raw`.
/// Claimed: the bytes written are a function of the buffer alone, named
/// `png_encoding`; nothing is claimed of what they hold or of when the
/// encoder fails.
#[verifier::external_body]
fn write_png(rgba: &Vec<u8>) -> (r: Result<Vec<u8>, image::ImageError>)
    requires
        rgba@.len() == 262144,
    ensures
        match r {
            Ok(bytes) => png_encoding(rgba@) == Some(bytes@),
            Err(_) => png_encoding(rgba@) is None,
        },
{
    let img = image::RgbaImage::from_raw(256, 256, rgba.clone()).unwrap();
    let mut bytes: Vec<u8> = Vec::new();
    image::DynamicImage::ImageRgba8(img).write_to(
        &mut std::io::Cursor::new(&mut bytes),
        image::ImageFormat::Png,
    )?;
    Ok(bytes)
}

/// What `encode_tile` returns for each outcome of the encoder.
pub open spec fn encoded(outcome: Option<Seq<u8>>, r: Result<Vec<u8>, RenderError>) -> bool {
    match outcome {
        Some(bytes) => r matches Ok(b) && b@ == bytes,
        None => r == Err::<Vec<u8>, RenderError>(RenderError::Encoding),
    }
}

/// Encodes a tile's RGBA buffer as a PNG file.
pub fn encode_tile(rgba: &Vec<u8>) -> (r: Result<Vec<u8>, RenderError>)
    requires
        rgba@.len() == 262144,
    ensures
        encoded(png_encoding(rgba@), r),
{
    match write_png(rgba) {
        Ok(bytes) => Ok(bytes),
        Err(_) => Err(RenderError::Encoding),
    }
}

/// Colours the grid and encodes the picture.
pub fn generate_tile(grid: &DensityGrid, reds: &Vec<u8>) -> (r: Result<Vec<u8>, RenderError>)
    requires
        grid.wf(),
        reds@.len() == 65536,
    ensures
        encoded(png_encoding(painted(grid.counts@, reds@)), r),
{
    let rgba = paint(grid, reds);
    encode_tile(&rgba)
}

} // verus!
