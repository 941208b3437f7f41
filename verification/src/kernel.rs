//! What all kernels share: a step that is repeated until it declines or a
//! limit is reached, and one intensity for every pixel of the tile, in
//! row-major order.
//!
//! The arithmetic of a kernel is floating point and is not part of this
//! crate. It comes in as two functions: the step from one point of the orbit
//! to the next, which [`iterate`] repeats, and the function from pixel
//! coordinates to an intensity, which [`render`] calls for every pixel.

use crate::message::{pixel_index, PixelIntensity, Resolution};
use vstd::prelude::*;

verus! {

/// Whether `path` is an orbit from `start` that ends as `end` says, at the
/// point `end.0` after `end.1` steps: each of its points but the first is
/// what `step` may return for the point before.
pub open spec fn is_orbit<Z, S: Fn(Z) -> Option<Z>>(
    step: S,
    path: Seq<Z>,
    start: Z,
    end: (Z, u32),
) -> bool {
    &&& path.len() == end.1 + 1
    &&& path[0] == start
    &&& path[end.1 as int] == end.0
    &&& forall|i: int|
        0 <= i < end.1 ==> call_ensures(step, (#[trigger] path[i],), Some(path[i + 1]))
}

/// Repeats `step` from `start` until it declines, by returning `None`, or
/// has been taken `limit` times. Returns the last point reached and the
/// number of steps taken.
pub fn iterate<Z: Copy, S: Fn(Z) -> Option<Z>>(start: Z, limit: u32, step: S) -> (end: (Z, u32))
    requires
        forall|z: Z| call_requires(step, (z,)),
    ensures
        end.1 <= limit,
        exists|path: Seq<Z>| is_orbit(step, path, start, end),
        end.1 < limit ==> call_ensures(step, (end.0,), None::<Z>),
{
    let mut z = start;
    let mut taken: u32 = 0;
    let ghost mut path: Seq<Z> = seq![start];
    while taken < limit
        invariant
            taken <= limit,
            forall|z: Z| call_requires(step, (z,)),
            is_orbit(step, path, start, (z, taken)),
        decreases limit - taken,
    {
        match step(z) {
            Some(next) => {
                proof {
                    let longer = path.push(next);
                    assert forall|i: int| 0 <= i < taken + 1 implies call_ensures(
                        step,
                        (#[trigger] longer[i],),
                        Some(longer[i + 1]),
                    ) by {
                        if i < taken {
                            assert(longer[i] == path[i] && longer[i + 1] == path[i + 1]);
                        }
                    }
                    path = longer;
                }
                z = next;
                taken += 1;
            },
            None => {
                return (z, taken);
            },
        }
    }
    (z, taken)
}

/// Calls `kernel` once for every pixel of a tile of the size `resolution`,
/// row after row and from left to right within a row, and returns the
/// intensities in that order.
pub fn render<K: Fn(u16, u16) -> PixelIntensity>(resolution: &Resolution, kernel: K) -> (pixels:
    Vec<PixelIntensity>)
    requires
        forall|x: u16, y: u16|
            x < resolution.nx && y < resolution.ny ==> call_requires(kernel, (x, y)),
    ensures
        pixels@.len() == resolution.num_pixels(),
        forall|x: u16, y: u16|
            x < resolution.nx && y < resolution.ny ==> call_ensures(
                kernel,
                (x, y),
                #[trigger] pixels@[pixel_index(resolution.nx as int, x as int, y as int)],
            ),
{
    let nx = resolution.nx;
    let ny = resolution.ny;
    let mut pixels: Vec<PixelIntensity> = Vec::new();
    let mut y: u16 = 0;
    while y < ny
        invariant
            y <= ny,
            nx == resolution.nx,
            ny == resolution.ny,
            pixels@.len() == y * nx,
            forall|x: u16, y: u16| x < nx && y < ny ==> call_requires(kernel, (x, y)),
            forall|px: u16, py: u16|
                px < nx && py < y ==> call_ensures(
                    kernel,
                    (px, py),
                    #[trigger] pixels@[pixel_index(nx as int, px as int, py as int)],
                ),
        decreases ny - y,
    {
        let mut x: u16 = 0;
        while x < nx
            invariant
                x <= nx,
                y < ny,
                pixels@.len() == y * nx + x,
                forall|x: u16, y: u16| x < nx && y < ny ==> call_requires(kernel, (x, y)),
                forall|px: u16, py: u16|
                    px < nx && (py < y || (py == y && px < x)) ==> call_ensures(
                        kernel,
                        (px, py),
                        #[trigger] pixels@[pixel_index(nx as int, px as int, py as int)],
                    ),
            decreases nx - x,
        {
            let ghost before = pixels@;
            let pixel = kernel(x, y);
            pixels.push(pixel);
            proof {
                assert forall|px: u16, py: u16|
                    px < nx && (py < y || (py == y && px < x + 1)) implies call_ensures(
                    kernel,
                    (px, py),
                    #[trigger] pixels@[pixel_index(nx as int, px as int, py as int)],
                ) by {
                    let i = pixel_index(nx as int, px as int, py as int);
                    if py == y && px == x {
                        assert(pixels@[i] == pixel);
                    } else {
                        assert(0 <= i < y * nx + x) by (nonlinear_arith)
                            requires
                                i == py * nx + px,
                                0 <= px < nx,
                                0 <= py <= y,
                                py < y || px < x,
                                0 <= x,
                        ;
                        assert(pixels@[i] == before[i]);
                    }
                }
            }
            x += 1;
        }
        assert(y * nx + nx == (y + 1) * nx) by (nonlinear_arith);
        y += 1;
    }
    assert(ny * nx == nx * ny) by (nonlinear_arith);
    pixels
}

} // verus!
