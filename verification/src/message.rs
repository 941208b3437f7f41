//! The records that travel between coordinator and workers.
//!
//! Coordinates, thresholds and intensities are IEEE-754 values held as bit
//! patterns; see [`crate::binary64`] for the order on them.

use crate::binary64::real_le;
use vstd::prelude::*;

verus! {

/// A coordinate in the fractal plane; `x` and `y` are binary64 bit patterns.
#[derive(Debug, Clone, Copy, PartialEq, Eq, Structural)]
pub struct Point {
    pub x: u64,
    pub y: u64,
}

/// An axis-aligned rectangle of the fractal plane.
#[derive(Debug, Clone, Copy, PartialEq, Eq, Structural)]
pub struct Range {
    pub min: Point,
    pub max: Point,
}

impl Range {
    /// `min` is below or equal to `max` on both axes, and no coordinate is a
    /// NaN.
    pub open spec fn wf(&self) -> bool {
        real_le(self.min.x, self.max.x) && real_le(self.min.y, self.max.y)
    }

    /// Tests [`Range::wf`].
    pub fn is_ordered(&self) -> (b: bool)
        ensures
            b == self.wf(),
    {
        crate::binary64::le(self.min.x, self.max.x) && crate::binary64::le(self.min.y, self.max.y)
    }
}

/// Pixel dimensions of a tile.
#[derive(Debug, Clone, Copy, PartialEq, Eq, Structural)]
pub struct Resolution {
    pub nx: u16,
    pub ny: u16,
}

impl Resolution {
    /// Both dimensions are positive.
    pub open spec fn wf(&self) -> bool {
        self.nx > 0 && self.ny > 0
    }

    /// The number of pixels of a tile of this size.
    pub open spec fn num_pixels(&self) -> nat {
        (self.nx * self.ny) as nat
    }

    /// Computes [`Resolution::num_pixels`], which always fits 32 bits.
    pub fn pixel_count(&self) -> (n: u32)
        ensures
            n == self.num_pixels(),
    {
        assert(self.nx * self.ny <= 0xffff * 0xffff) by (nonlinear_arith)
            requires
                self.nx <= 0xffff,
                self.ny <= 0xffff,
        ;
        self.nx as u32 * self.ny as u32
    }
}

/// The place of pixel `(x, y)` in the row-major order of a tile, or of any
/// picture, whose rows are `width` pixels long.
pub open spec fn pixel_index(width: int, x: int, y: int) -> int {
    y * width + x
}

/// A run of bytes in a payload: `count` bytes that start `offset` bytes from
/// its beginning.
#[derive(Debug, Clone, Copy, PartialEq, Eq, Structural)]
pub struct U8Data {
    pub offset: u32,
    pub count: u32,
}

/// Where the pixel stream starts in a payload, in bytes, and how many pixels
/// (not bytes) it holds.
#[derive(Debug, Clone, Copy, PartialEq, Eq, Structural)]
pub struct PixelData {
    pub offset: u32,
    pub count: u32,
}

/// What a kernel reports for one pixel; both fields are binary32 bit
/// patterns.
#[derive(Debug, Clone, Copy, PartialEq, Eq, Structural)]
pub struct PixelIntensity {
    pub zn: u32,
    pub count: u32,
}

/// A complex parameter of a fractal; both parts are binary64 bit patterns.
#[derive(Debug, Clone, Copy, PartialEq, Eq, Structural)]
pub struct Complex {
    pub re: u64,
    pub im: u64,
}

impl Complex {
    pub fn new(re: u64, im: u64) -> (c: Complex)
        ensures
            c == (Complex { re, im }),
    {
        Complex { re, im }
    }
}

#[derive(Debug, Clone, Copy, PartialEq, Eq, Structural)]
pub struct IteratedSinZ {
    pub c: Complex,
}

impl IteratedSinZ {
    pub fn new(c: Complex) -> (d: IteratedSinZ)
        ensures
            d == (IteratedSinZ { c }),
    {
        IteratedSinZ { c }
    }
}

#[derive(Debug, Clone, Copy, PartialEq, Eq, Structural)]
pub struct JuliaDescriptor {
    pub c: Complex,
    /// Squared escape radius, a binary64 bit pattern.
    pub divergence_threshold_square: u64,
}

#[derive(Debug, Clone, Copy, PartialEq, Eq, Structural)]
pub struct NewtonRaphsonZ3 {}

#[derive(Debug, Clone, Copy, PartialEq, Eq, Structural)]
pub struct NewtonRaphsonZ4 {}

#[derive(Debug, Clone, Copy, PartialEq, Eq, Structural)]
pub struct NovaNewtonRaphsonZ3 {}

#[derive(Debug, Clone, Copy, PartialEq, Eq, Structural)]
pub struct NovaNewtonRaphsonZ4 {}

#[derive(Debug, Clone, Copy, PartialEq, Eq, Structural)]
pub struct Mandelbrot {}

/// Which fractal a task asks for, with the parameters that belong to it.
#[derive(Debug, Clone, Copy, PartialEq, Eq, Structural)]
pub enum FractalDescriptor {
    IteratedSinZ(IteratedSinZ),
    Julia(JuliaDescriptor),
    Mandelbrot(Mandelbrot),
    NewtonRaphsonZ3(NewtonRaphsonZ3),
    NewtonRaphsonZ4(NewtonRaphsonZ4),
    NovaNewtonRaphsonZ3(NovaNewtonRaphsonZ3),
    NovaNewtonRaphsonZ4(NovaNewtonRaphsonZ4),
}

/// A worker's request for work.
#[derive(Debug, Clone, PartialEq, Eq)]
pub struct FragmentRequest {
    pub worker_name: String,
    pub maximal_work_load: u32,
}

/// One tile to compute. `id` locates the identification bytes in the payload
/// that comes with the task.
#[derive(Debug, Clone, Copy, PartialEq, Eq, Structural)]
pub struct FragmentTask {
    pub id: U8Data,
    pub max_iteration: u16,
    pub resolution: Resolution,
    pub range: Range,
    pub fractal: FractalDescriptor,
}

/// A computed tile. `id` and `pixels` locate the identification echo and the
/// pixel stream in the payload that comes with the result.
#[derive(Debug, Clone, Copy, PartialEq, Eq, Structural)]
pub struct FragmentResult {
    pub id: U8Data,
    pub resolution: Resolution,
    pub range: Range,
    pub pixels: PixelData,
}

#[derive(Debug, Clone, PartialEq, Eq)]
pub enum Message {
    FragmentTask(FragmentTask),
    FragmentResult(FragmentResult),
    FragmentRequest(FragmentRequest),
}

} // verus!
