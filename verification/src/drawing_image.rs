//! The output raster: an RGB image that tiles are painted into.
//!
//! The raster is an image buffer of the `image` crate. Colours come in as
//! plain triples of red, green and blue; how an intensity becomes a colour
//! is not decided here.

use crate::fragment_task::{lemma_tile_ranges_differ, tile_of, tile_range, TILES_PER_SIDE};
use crate::message::{pixel_index, Range, Resolution};
use vstd::prelude::*;

verus! {

/// An RGB image with eight bits per channel.
///
/// It holds an `image::ImageBuffer`. Verus does not take that type as it
/// stands, because its pixel parameter is bound by a trait of the `image`
/// crate, so the buffer lies behind this struct and is reached only through
/// the functions below; [`raster_samples`] and [`raster_dimensions`] say
/// what it holds.
#[verifier::external_body]
pub struct Raster {
    image: image::RgbImage,
}

/// The samples of a raster: three for each pixel, red, green and blue, pixel
/// after pixel and row after row.
pub uninterp spec fn raster_samples(raster: Raster) -> Seq<u8>;

/// Width and height of a raster, in pixels.
pub uninterp spec fn raster_dimensions(raster: Raster) -> (u32, u32);

/// `image::ImageBuffer::new` for RGB pixels: an image of the given size in
/// which every sample is zero. It panics when the samples outnumber what a
/// vector can hold, which `requires` rules out.
#[verifier::external_body]
fn new_image(width: u32, height: u32) -> (raster: Raster)
    requires
        3 * width * height <= isize::MAX,
    ensures
        raster_dimensions(raster) == (width, height),
        raster_samples(raster) == Seq::new((3 * width * height) as nat, |i: int| 0u8),
{
    Raster { image: image::RgbImage::new(width, height) }
}

/// `image::ImageBuffer::put_pixel` for RGB pixels: overwrites the three
/// samples of pixel `(x, y)`, which start at sample `3 * (y * width + x)`,
/// and leaves the size alone. It panics when `(x, y)` is out of bounds, which
/// `requires` rules out.
#[verifier::external_body]
fn put_pixel(raster: &mut Raster, x: u32, y: u32, color: [u8; 3])
    requires
        x < raster_dimensions(*old(raster)).0,
        y < raster_dimensions(*old(raster)).1,
    ensures
        raster_dimensions(*final(raster)) == raster_dimensions(*old(raster)),
        raster_samples(*final(raster)) == ({
            let first = 3 * pixel_index(raster_dimensions(*old(raster)).0 as int, x as int, y as int);
            raster_samples(*old(raster)).update(first, color@[0]).update(
                first + 1,
                color@[1],
            ).update(first + 2, color@[2])
        }),
{
    raster.image.put_pixel(x, y, image::Rgb(color));
}

/// `image::ImageBuffer::dimensions`: width and height.
#[verifier::external_body]
fn image_dimensions(raster: &Raster) -> (dimensions: (u32, u32))
    ensures
        dimensions == raster_dimensions(*raster),
{
    raster.image.dimensions()
}

/// `image::ImageBuffer::as_raw`: the buffer that holds the samples, of
/// which a copy is handed out.
#[verifier::external_body]
fn as_raw(raster: &Raster) -> (samples: Vec<u8>)
    ensures
        samples@ == raster_samples(*raster),
{
    raster.image.as_raw().clone()
}

/// Pixels inside the image have distinct numbers below `width * height`.
proof fn lemma_pixel_index(width: int, height: int, x: int, y: int, x2: int, y2: int)
    by (nonlinear_arith)
    requires
        0 <= x < width,
        0 <= y < height,
        0 <= x2 < width,
        0 <= y2 < height,
    ensures
        0 <= pixel_index(width, x, y) < width * height,
        pixel_index(width, x, y) == pixel_index(width, x2, y2) ==> x == x2 && y == y2,
{
}

impl Raster {
    /// The width in pixels.
    pub open spec fn width(&self) -> int {
        raster_dimensions(*self).0 as int
    }

    /// The height in pixels.
    pub open spec fn height(&self) -> int {
        raster_dimensions(*self).1 as int
    }

    /// There are three samples for every pixel.
    pub open spec fn wf(&self) -> bool {
        raster_samples(*self).len() == 3 * (self.width() * self.height())
    }

    /// Whether `(x, y)` is a pixel of the raster.
    pub open spec fn holds(&self, x: int, y: int) -> bool {
        0 <= x < self.width() && 0 <= y < self.height()
    }

    /// Red, green and blue of pixel `(x, y)`.
    pub open spec fn color_at(&self, x: int, y: int) -> Seq<u8> {
        let first = 3 * pixel_index(self.width(), x, y);
        raster_samples(*self).subrange(first, first + 3)
    }

    /// A black raster of the given size.
    pub fn new(width: u32, height: u32) -> (raster: Raster)
        requires
            3 * width * height <= isize::MAX,
        ensures
            raster.wf(),
            raster.width() == width,
            raster.height() == height,
            forall|x: int, y: int| #[trigger]
                raster.holds(x, y) ==> raster.color_at(x, y) == seq![0u8, 0u8, 0u8],
    {
        let raster = new_image(width, height);
        proof {
            assert(3 * width * height == 3 * (width * height)) by (nonlinear_arith);
            assert forall|x: int, y: int| #[trigger] raster.holds(x, y) implies raster.color_at(
                x,
                y,
            ) == seq![0u8, 0u8, 0u8] by {
                lemma_pixel_index(width as int, height as int, x, y, x, y);
                assert(raster.color_at(x, y) =~= seq![0u8, 0u8, 0u8]);
            }
        }
        raster
    }

    /// Width and height in pixels.
    pub fn dimensions(&self) -> (dimensions: (u32, u32))
        ensures
            dimensions.0 == self.width(),
            dimensions.1 == self.height(),
    {
        image_dimensions(self)
    }

    /// A copy of the samples, three for each pixel, row after row.
    pub fn samples(&self) -> (samples: Vec<u8>)
        ensures
            samples@ == raster_samples(*self),
    {
        as_raw(self)
    }

    /// Gives pixel `(x, y)` the colour `color` and leaves every other pixel
    /// as it is.
    pub fn put(&mut self, x: u32, y: u32, color: [u8; 3])
        requires
            old(self).wf(),
            old(self).holds(x as int, y as int),
        ensures
            final(self).wf(),
            raster_dimensions(*final(self)) == raster_dimensions(*old(self)),
            final(self).color_at(x as int, y as int) == color@,
            forall|x2: int, y2: int|
                old(self).holds(x2, y2) && (x2 != x || y2 != y) ==> #[trigger] final(self).color_at(
                    x2,
                    y2,
                ) == old(self).color_at(x2, y2),
    {
        let ghost width = self.width();
        let ghost height = self.height();
        let ghost before = raster_samples(*self);
        put_pixel(self, x, y, color);
        proof {
            let after = raster_samples(*self);
            lemma_pixel_index(width, height, x as int, y as int, x as int, y as int);
            assert(self.color_at(x as int, y as int) =~= color@);
            assert forall|x2: int, y2: int|
                old(self).holds(x2, y2) && (x2 != x || y2 != y) implies #[trigger] self.color_at(
                x2,
                y2,
            ) == old(self).color_at(x2, y2) by {
                lemma_pixel_index(width, height, x as int, y as int, x2, y2);
                lemma_pixel_index(width, height, x2, y2, x as int, y as int);
                let i = pixel_index(width, x as int, y as int);
                let i2 = pixel_index(width, x2, y2);
                assert(i != i2 && 0 <= i2 < width * height);
                assert(after.len() == before.len());
                assert forall|j: int| 3 * i2 <= j < 3 * i2 + 3 implies after[j] == before[j] by {}
                assert(self.color_at(x2, y2) =~= old(self).color_at(x2, y2));
            }
        }
    }
}

/// Whether `(x, y)` lies in the rectangle of `nx` by `ny` pixels whose first
/// pixel is `(x0, y0)`.
pub open spec fn in_rectangle(x0: int, y0: int, nx: int, ny: int, x: int, y: int) -> bool {
    x0 <= x < x0 + nx && y0 <= y < y0 + ny
}

/// The first pixel of tile `tile` in a raster of four by four tiles of the
/// size `resolution`: tiles lie side by side in rows of four.
pub open spec fn tile_origin(tile: int, resolution: Resolution) -> (int, int) {
    ((tile % 4) * resolution.nx, (tile / 4) * resolution.ny)
}

/// Whether `after` is `before` with the rectangle of `nx` by `ny` pixels at
/// `(x0, y0)` painted with `colors`, row after row: inside the rectangle
/// every pixel has its colour, outside it every pixel is as it was.
pub open spec fn is_painted(
    before: Raster,
    after: Raster,
    x0: int,
    y0: int,
    nx: int,
    ny: int,
    colors: Seq<[u8; 3]>,
) -> bool {
    &&& after.wf()
    &&& raster_dimensions(after) == raster_dimensions(before)
    &&& forall|x: int, y: int|
        before.holds(x, y) ==> #[trigger] after.color_at(x, y) == if in_rectangle(
            x0,
            y0,
            nx,
            ny,
            x,
            y,
        ) {
            colors[pixel_index(nx, x - x0, y - y0)]@
        } else {
            before.color_at(x, y)
        }
}

impl Raster {
    /// Whether the rectangle of `nx` by `ny` pixels at `(x0, y0)` lies
    /// within the raster and `colors` colours are enough to paint it.
    pub open spec fn takes(&self, x0: int, y0: int, nx: int, ny: int, colors: int) -> bool {
        colors >= nx * ny && x0 + nx <= self.width() && y0 + ny <= self.height()
    }

    /// Whether tile `tile` of the size `resolution` lies within the raster
    /// and `colors` colours are enough to paint it.
    pub open spec fn takes_tile(&self, tile: int, resolution: Resolution, colors: int) -> bool {
        self.takes(
            tile_origin(tile, resolution).0,
            tile_origin(tile, resolution).1,
            resolution.nx as int,
            resolution.ny as int,
            colors,
        )
    }

    /// Paints the rectangle of `nx` by `ny` pixels whose first pixel is
    /// `(x0, y0)` with `colors`, row after row, and leaves the rest of the
    /// raster as it is.
    ///
    /// Nothing is painted, and `false` returned, when the rectangle does not
    /// lie within the raster or there are fewer colours than it has pixels.
    pub fn paint(&mut self, x0: u32, y0: u32, nx: u32, ny: u32, colors: &[[u8; 3]]) -> (painted:
        bool)
        requires
            old(self).wf(),
        ensures
            painted == old(self).takes(
                x0 as int,
                y0 as int,
                nx as int,
                ny as int,
                colors@.len() as int,
            ),
            painted ==> is_painted(
                *old(self),
                *final(self),
                x0 as int,
                y0 as int,
                nx as int,
                ny as int,
                colors@,
            ),
            !painted ==> *final(self) == *old(self),
    {
        let (width, height) = self.dimensions();
        assert(nx * ny <= 0xffff_ffff * 0xffff_ffff) by (nonlinear_arith)
            requires
                0 <= nx <= 0xffff_ffff,
                0 <= ny <= 0xffff_ffff,
        ;
        if (colors.len() as u64) < (nx as u64) * (ny as u64) || x0 as u64 + nx as u64
            > width as u64 || y0 as u64 + ny as u64 > height as u64 {
            return false;
        }
        let ghost start = *self;
        let mut ty: u32 = 0;
        while ty < ny
            invariant
                ty <= ny,
                start.wf(),
                width == start.width(),
                height == start.height(),
                nx * ny <= colors@.len() <= usize::MAX,
                x0 + nx <= width,
                y0 + ny <= height,
                is_painted(start, *self, x0 as int, y0 as int, nx as int, ty as int, colors@),
            decreases ny - ty,
        {
            let mut tx: u32 = 0;
            while tx < nx
                invariant
                    tx <= nx,
                    ty < ny,
                    self.wf(),
                    start.wf(),
                    raster_dimensions(*self) == raster_dimensions(start),
                    width == start.width(),
                    height == start.height(),
                    nx * ny <= colors@.len() <= usize::MAX,
                    x0 + nx <= width,
                    y0 + ny <= height,
                    forall|x: int, y: int|
                        start.holds(x, y) ==> #[trigger] self.color_at(x, y) == if in_rectangle(
                            x0 as int,
                            y0 as int,
                            nx as int,
                            ty as int,
                            x,
                            y,
                        ) || (y == y0 + ty && x0 <= x < x0 + tx) {
                            colors@[pixel_index(nx as int, x - x0, y - y0)]@
                        } else {
                            start.color_at(x, y)
                        },
                decreases nx - tx,
            {
                assert(0 <= ty * nx && ty * nx + tx < nx * ny) by (nonlinear_arith)
                    requires
                        0 <= tx < nx,
                        0 <= ty < ny,
                ;
                let k: usize = (ty as usize) * (nx as usize) + (tx as usize);
                assert(k == pixel_index(nx as int, tx as int, ty as int));
                self.put(x0 + tx, y0 + ty, colors[k]);
                tx += 1;
            }
            ty += 1;
        }
        true
    }

    /// Paints tile `tile` of a raster of four by four tiles of the size
    /// `resolution` with `colors`: see [`tile_origin`] and [`Raster::paint`].
    pub fn paint_tile(&mut self, tile: u8, resolution: &Resolution, colors: &[[u8; 3]]) -> (painted:
        bool)
        requires
            old(self).wf(),
            tile < 16,
        ensures
            painted == old(self).takes_tile(tile as int, *resolution, colors@.len() as int),
            painted ==> is_painted(
                *old(self),
                *final(self),
                tile_origin(tile as int, *resolution).0,
                tile_origin(tile as int, *resolution).1,
                resolution.nx as int,
                resolution.ny as int,
                colors@,
            ),
            !painted ==> *final(self) == *old(self),
    {
        let column: u32 = (tile % TILES_PER_SIDE) as u32;
        let row: u32 = (tile / TILES_PER_SIDE) as u32;
        assert(column * resolution.nx <= 3 * 0xffff && row * resolution.ny <= 3 * 0xffff)
            by (nonlinear_arith)
            requires
                0 <= column <= 3,
                0 <= row <= 3,
                resolution.nx <= 0xffff,
                resolution.ny <= 0xffff,
        ;
        self.paint(
            column * resolution.nx as u32,
            row * resolution.ny as u32,
            resolution.nx as u32,
            resolution.ny as u32,
            colors,
        )
    }

    /// Paints the tile of the plan whose rectangle in the fractal plane is
    /// `range`, at the place of that tile in a raster of four by four tiles
    /// of the size `resolution`.
    ///
    /// Nothing is painted, and `false` returned, when `range` is no tile of
    /// the plan or [`Raster::paint_tile`] does not paint.
    pub fn paint_range(&mut self, range: &Range, resolution: &Resolution, colors: &[[u8; 3]]) -> (painted:
        bool)
        requires
            old(self).wf(),
        ensures
            forall|tile: int|
                0 <= tile < 16 && #[trigger] tile_range(tile) == *range ==> {
                    &&& painted == old(self).takes_tile(tile, *resolution, colors@.len() as int)
                    &&& painted ==> is_painted(
                        *old(self),
                        *final(self),
                        tile_origin(tile, *resolution).0,
                        tile_origin(tile, *resolution).1,
                        resolution.nx as int,
                        resolution.ny as int,
                        colors@,
                    )
                },
            (forall|tile: int| 0 <= tile < 16 ==> #[trigger] tile_range(tile) != *range)
                ==> !painted,
            !painted ==> *final(self) == *old(self),
    {
        match tile_of(range) {
            Some(tile) => {
                proof {
                    assert forall|other: int|
                        0 <= other < 16 && #[trigger] tile_range(other) == *range implies other
                        == tile by {
                        lemma_tile_ranges_differ(other, tile as int);
                    }
                }
                self.paint_tile(tile, resolution, colors)
            },
            None => false,
        }
    }
}

/// A raster of `width` by `height` pixels whose pixels have the colours
/// `colors`, row after row. Colours beyond the last pixel are ignored.
pub fn create_image(width: u32, height: u32, colors: &[[u8; 3]]) -> (raster: Raster)
    requires
        3 * width * height <= isize::MAX,
        colors@.len() >= width * height,
    ensures
        raster.wf(),
        raster.width() == width,
        raster.height() == height,
        forall|x: int, y: int| #[trigger]
            raster.holds(x, y) ==> raster.color_at(x, y) == colors@[pixel_index(
                width as int,
                x,
                y,
            )]@,
{
    let mut raster = Raster::new(width, height);
    let painted = raster.paint(0, 0, width, height, colors);
    assert(painted);
    raster
}

/// Tiles of one size do not overlap: a pixel lies in the rectangle of at
/// most one tile.
pub proof fn lemma_tiles_are_disjoint(j: int, k: int, resolution: Resolution, x: int, y: int)
    requires
        0 <= j < 16,
        0 <= k < 16,
        in_rectangle(
            tile_origin(j, resolution).0,
            tile_origin(j, resolution).1,
            resolution.nx as int,
            resolution.ny as int,
            x,
            y,
        ),
        in_rectangle(
            tile_origin(k, resolution).0,
            tile_origin(k, resolution).1,
            resolution.nx as int,
            resolution.ny as int,
            x,
            y,
        ),
    ensures
        j == k,
{
    let nx = resolution.nx as int;
    let ny = resolution.ny as int;
    assert((j % 4) * nx <= x < (j % 4) * nx + nx && (k % 4) * nx <= x < (k % 4) * nx + nx ==> j % 4
        == k % 4) by (nonlinear_arith);
    assert((j / 4) * ny <= y < (j / 4) * ny + ny && (k / 4) * ny <= y < (k / 4) * ny + ny ==> j / 4
        == k / 4) by (nonlinear_arith);
}

/// The tile in whose row and column pixel `(x, y)` of a raster of four by
/// four tiles of the size `resolution` falls.
pub open spec fn tile_at(resolution: Resolution, x: int, y: int) -> int {
    (y / (resolution.ny as int)) * 4 + x / (resolution.nx as int)
}

/// Tiles of one size cover the raster they make up: every pixel of a raster
/// four tiles wide and four tiles high lies in the rectangle of a tile,
/// namely of [`tile_at`].
pub proof fn lemma_tiles_cover(resolution: Resolution, x: int, y: int)
    requires
        0 <= x < 4 * resolution.nx,
        0 <= y < 4 * resolution.ny,
    ensures
        0 <= tile_at(resolution, x, y) < 16,
        in_rectangle(
            tile_origin(tile_at(resolution, x, y), resolution).0,
            tile_origin(tile_at(resolution, x, y), resolution).1,
            resolution.nx as int,
            resolution.ny as int,
            x,
            y,
        ),
{
    let nx = resolution.nx as int;
    let ny = resolution.ny as int;
    let column = x / nx;
    let row = y / ny;
    assert(0 <= column < 4 && column * nx <= x < column * nx + nx) by (nonlinear_arith)
        requires
            0 <= x < 4 * nx,
            column == x / nx,
    ;
    assert(0 <= row < 4 && row * ny <= y < row * ny + ny) by (nonlinear_arith)
        requires
            0 <= y < 4 * ny,
            row == y / ny,
    ;
    let tile = row * 4 + column;
    assert(tile % 4 == column && tile / 4 == row);
}

} // verus!
