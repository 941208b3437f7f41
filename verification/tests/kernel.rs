use fractal_wire::kernel::{iterate, render};
use fractal_wire::message::{PixelIntensity, Resolution};
use std::cell::RefCell;

#[test]
fn render_gives_one_intensity_per_pixel() {
    for (nx, ny) in [(1u16, 1u16), (2, 2), (3, 5), (160, 120), (300, 300), (1, 7), (7, 1)] {
        let pixels = render(&Resolution { nx, ny }, |x, y| PixelIntensity {
            zn: x as u32,
            count: y as u32,
        });
        assert_eq!(pixels.len(), nx as usize * ny as usize);
        for (k, p) in pixels.iter().enumerate() {
            assert_eq!(p.zn as usize, k % nx as usize);
            assert_eq!(p.count as usize, k / nx as usize);
        }
    }
}

#[test]
fn render_of_an_empty_tile_calls_nothing() {
    let calls = RefCell::new(0u32);
    let count = |_: u16, _: u16| {
        *calls.borrow_mut() += 1;
        PixelIntensity { zn: 0, count: 0 }
    };
    assert!(render(&Resolution { nx: 0, ny: 9 }, &count).is_empty());
    assert!(render(&Resolution { nx: 9, ny: 0 }, &count).is_empty());
    assert_eq!(*calls.borrow(), 0);
}

#[test]
fn render_walks_rows_from_left_to_right() {
    let order = RefCell::new(Vec::new());
    let pixels = render(&Resolution { nx: 3, ny: 2 }, |x, y| {
        order.borrow_mut().push((x, y));
        PixelIntensity { zn: (10 * y + x) as u32, count: 0 }
    });
    assert_eq!(*order.borrow(), vec![(0, 0), (1, 0), (2, 0), (0, 1), (1, 1), (2, 1)]);
    let zn: Vec<u32> = pixels.iter().map(|p| p.zn).collect();
    assert_eq!(zn, vec![0, 1, 2, 10, 11, 12]);
}

#[test]
fn iterate_stops_when_the_step_declines() {
    // Halve until odd.
    let halve = |n: u64| if n % 2 == 0 { Some(n / 2) } else { None };
    assert_eq!(iterate(48, 100, halve), (3, 4));
    assert_eq!(iterate(7, 100, halve), (7, 0));
    assert_eq!(iterate(1 << 40, 100, halve), (1, 40));
}

#[test]
fn iterate_stops_at_the_limit() {
    let next = |n: u32| Some(n + 3);
    assert_eq!(iterate(1, 0, next), (1, 0));
    assert_eq!(iterate(1, 1, next), (4, 1));
    assert_eq!(iterate(1, 65, next), (196, 65));
    let halve = |n: u64| if n % 2 == 0 { Some(n / 2) } else { None };
    assert_eq!(iterate(48, 4, halve), (3, 4));
    assert_eq!(iterate(48, 3, halve), (6, 3));
}

#[test]
fn iterate_calls_the_step_once_per_point() {
    let seen = RefCell::new(Vec::new());
    let end = iterate(10u8, 5, |n| {
        seen.borrow_mut().push(n);
        if n < 12 {
            Some(n + 1)
        } else {
            None
        }
    });
    assert_eq!(end, (12, 2));
    assert_eq!(*seen.borrow(), vec![10, 11, 12]);
}

// The quadratic step z <- z^2 + c of the Julia and Mandelbrot sets, which
// declines once z has left the disc of squared radius `threshold`.
fn quadratic_step(
    c: (f64, f64),
    threshold: f64,
) -> impl Fn((f64, f64)) -> Option<(f64, f64)> {
    move |(re, im)| {
        if re * re + im * im > threshold {
            return None;
        }
        let next = (re * re - im * im + c.0, 2.0 * re * im + c.1);
        if next.0.is_finite() && next.1.is_finite() {
            Some(next)
        } else {
            None
        }
    }
}

// Squared norm over the threshold, and the number of the last step over the
// cap, after the orbit from `start`.
fn escape(start: (f64, f64), c: (f64, f64), threshold: f64, max_iteration: u16) -> PixelIntensity {
    let (z, taken) = iterate(start, max_iteration as u32 + 1, quadratic_step(c, threshold));
    let (zn, count) = if taken == 0 {
        (0.0, 0.0)
    } else {
        ((z.0 * z.0 + z.1 * z.1) / threshold, (taken - 1) as f64 / max_iteration as f64)
    };
    PixelIntensity { zn: (zn as f32).to_bits(), count: (count as f32).to_bits() }
}

#[test]
fn julia_orbit_that_stays_inside() {
    let pixel = escape((0.0, 0.0), (0.285, 0.013), 4.0, 64);
    assert_eq!(f32::from_bits(pixel.count), 1.0);
    assert_eq!(f32::from_bits(pixel.zn), 0.018979378);
}

#[test]
fn julia_orbit_that_leaves_after_one_step() {
    let pixel = escape((-1.2, -1.2), (0.285, 0.013), 4.0, 64);
    assert_eq!(f32::from_bits(pixel.count), 0.0);
    assert_eq!(f32::from_bits(pixel.zn), 2.1126685);
}

#[test]
fn mandelbrot_tile_corner() {
    let (min, max) = ((-2.0f64, -2.0f64), (1.0f64, 1.0f64));
    let resolution = Resolution { nx: 2, ny: 2 };
    let pixels = render(&resolution, |x, y| {
        let px = min.0 + (max.0 - min.0) * (x as f64 / 2.0);
        let py = min.1 + (max.1 - min.1) * (y as f64 / 2.0);
        escape((px, py), (px, py), 4.0, 64)
    });
    assert_eq!(pixels.len(), 4);
    // The corner (-2, -2) lies outside the disc: no step is taken.
    assert_eq!(f32::from_bits(pixels[0].count), 0.0);
    assert_eq!(f32::from_bits(pixels[0].zn), 0.0);
    // (-0.5, -0.5) never leaves it.
    assert_eq!(f32::from_bits(pixels[3].count), 1.0);
    assert_eq!(f32::from_bits(pixels[3].zn), 0.06257945);
}

#[test]
fn newton_z3_smoke() {
    type Point = (f64, f64);
    let mul = |a: Point, b: Point| (a.0 * b.0 - a.1 * b.1, a.0 * b.1 + a.1 * b.0);
    let div = |a: Point, b: Point| {
        let d = b.0 * b.0 + b.1 * b.1;
        ((a.0 * b.0 + a.1 * b.1) / d, (a.1 * b.0 - a.0 * b.1) / d)
    };
    let max_iteration: u16 = 100;
    let pixels = render(&Resolution { nx: 1, ny: 1 }, |x, y| {
        let start = (-2.0 + 4.0 * (x as f64 / 1.0), -2.0 + 4.0 * (y as f64 / 1.0));
        let (end, taken) =
            iterate((start, false), max_iteration as u32 + 1, |(z, settled): (Point, bool)| {
                if settled {
                    return None;
                }
                let square = mul(z, z);
                let cube = mul(square, z);
                let quotient = div((cube.0 - 1.0, cube.1), mul(square, (3.0, 0.0)));
                let next = (z.0 - quotient.0, z.1 - quotient.1);
                let distance = (next.0 - z.0).powi(2) + (next.1 - z.1).powi(2);
                Some((next, !(distance >= 0.000001)))
            });
        let z = end.0;
        let zn = 0.5 + z.1.atan2(z.0) / (2.0 * std::f64::consts::PI);
        let count = (taken - 1) as f64 / max_iteration as f64;
        PixelIntensity { zn: (zn as f32).to_bits(), count: (count as f32).to_bits() }
    });
    assert_eq!(pixels.len(), 1);
    let (zn, count) = (f32::from_bits(pixels[0].zn), f32::from_bits(pixels[0].count));
    assert!((0.0..=1.0).contains(&zn));
    assert!((0.0..=1.0).contains(&count));
    // The orbit settles on the root at -1/2 - i sqrt(3)/2, a third of a turn
    // below the positive real axis.
    assert!((zn - 1.0 / 6.0).abs() < 1e-6);
    assert_eq!(count, 0.05);
}
