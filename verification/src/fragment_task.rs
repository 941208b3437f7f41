//! The tile plan: which tasks the coordinator hands out, and in what order.
//!
//! The image is the square from -1.2 to 1.2 on both axes, cut into a grid of
//! four by four tiles. Tile `k` lies in row `k / 4` and column `k % 4`; rows
//! run along `y`, columns along `x`. Every tile is rendered as a Julia set at
//! 300 by 300 pixels. Every task travels with the same sixteen identification
//! bytes, which the worker sends back in front of its pixels.

use crate::message::{
    Complex, FractalDescriptor, FragmentTask, JuliaDescriptor, Point, Range, Resolution, U8Data,
};
use vstd::prelude::*;

verus! {

/// The number of tiles along each side of the image.
pub const TILES_PER_SIDE: u8 = 4;

/// The number of tiles of the image.
pub const TILE_COUNT: u8 = 16;

/// The number of identification bytes.
pub const IDENTIFICATION_LEN: u32 = 16;

/// The identification bytes.
pub open spec fn identification() -> Seq<u8> {
    seq![
        0x00u8, 0x00u8, 0x00u8, 0x00u8, 0x00u8, 0x00u8, 0x00u8, 0x00u8,
        0x6Au8, 0x87u8, 0x9Cu8, 0xFAu8, 0xB3u8, 0x9Bu8, 0x6Fu8, 0xD4u8,
    ]
}

/// The identification that the coordinator puts in front of every task.
pub fn create_identification() -> (id: Vec<u8>)
    ensures
        id@ == identification(),
{
    let id: Vec<u8> = vec![
        0x00, 0x00, 0x00, 0x00, 0x00, 0x00, 0x00, 0x00,
        0x6A, 0x87, 0x9C, 0xFA, 0xB3, 0x9B, 0x6F, 0xD4,
    ];
    assert(id@ =~= identification());
    id
}

/// The binary64 pattern of grid line `i`: the lines lie at -1.2, -0.6, 0,
/// 0.6000000000000001 and 1.2.
pub open spec fn grid_line(i: int) -> u64 {
    if i == 0 {
        0xbff3_3333_3333_3333
    } else if i == 1 {
        0xbfe3_3333_3333_3333
    } else if i == 2 {
        0
    } else if i == 3 {
        0x3fe3_3333_3333_3334
    } else {
        0x3ff3_3333_3333_3333
    }
}

/// The rectangle of tile `k`: from grid line `k % 4` to the next along `x`,
/// from grid line `k / 4` to the next along `y`.
pub open spec fn tile_range(k: int) -> Range {
    Range {
        min: Point { x: grid_line(k % 4), y: grid_line(k / 4) },
        max: Point { x: grid_line(k % 4 + 1), y: grid_line(k / 4 + 1) },
    }
}

/// The rectangles of all tiles, in the order in which they are handed out.
pub open spec fn tile_plan() -> Seq<Range> {
    Seq::new(16, |k: int| tile_range(k))
}

/// The task that asks for `range`: a Julia set with c = 0.285 + 0.013 i and a
/// squared escape radius of 4, at most 64 iterations, 300 by 300 pixels, and
/// sixteen identification bytes at the start of the payload.
pub open spec fn planned_task(range: Range) -> FragmentTask {
    FragmentTask {
        id: U8Data { offset: 0, count: 16 },
        max_iteration: 64,
        resolution: Resolution { nx: 300, ny: 300 },
        range,
        fractal: FractalDescriptor::Julia(
            JuliaDescriptor {
                c: Complex { re: 0x3fd2_3d70_a3d7_0a3d, im: 0x3f8a_9fbe_76c8_b439 },
                divergence_threshold_square: 0x4010_0000_0000_0000,
            },
        ),
    }
}

/// Computes [`grid_line`].
fn grid_line_bits(i: u8) -> (bits: u64)
    requires
        i <= 4,
    ensures
        bits == grid_line(i as int),
{
    if i == 0 {
        0xbff3_3333_3333_3333
    } else if i == 1 {
        0xbfe3_3333_3333_3333
    } else if i == 2 {
        0
    } else if i == 3 {
        0x3fe3_3333_3333_3334
    } else {
        0x3ff3_3333_3333_3333
    }
}

/// The ranges of a plan, and a counter that its owner may advance.
#[derive(Debug)]
pub struct RangeManager {
    pub vec_num_range: Vec<Range>,
    pub current_range: u8,
}

pub trait RangeManagerTrait {
    /// The ranges that this manager hands out, in order.
    spec fn ranges(&self) -> Seq<Range>;

    /// A manager of the tile plan, with its counter at the first tile.
    fn new() -> (manager: RangeManager)
        ensures
            manager.vec_num_range@ == tile_plan(),
            manager.current_range == 0,
    ;

    /// The task for range number `current`.
    fn get_current_range(&self, current: u8) -> (task: FragmentTask)
        requires
            current < self.ranges().len(),
        ensures
            task == planned_task(self.ranges()[current as int]),
    ;
}

impl RangeManagerTrait for RangeManager {
    open spec fn ranges(&self) -> Seq<Range> {
        self.vec_num_range@
    }

    fn new() -> (manager: RangeManager) {
        let mut vec_intensity: Vec<Range> = Vec::new();
        let mut k: u8 = 0;
        while k < TILE_COUNT
            invariant
                k <= 16,
                vec_intensity@.len() == k,
                forall|j: int| 0 <= j < k ==> vec_intensity@[j] == tile_range(j),
            decreases 16 - k,
        {
            let column: u8 = k % TILES_PER_SIDE;
            let row: u8 = k / TILES_PER_SIDE;
            vec_intensity.push(
                Range {
                    min: Point { x: grid_line_bits(column), y: grid_line_bits(row) },
                    max: Point { x: grid_line_bits(column + 1), y: grid_line_bits(row + 1) },
                },
            );
            k += 1;
        }
        assert(vec_intensity@ =~= tile_plan());
        RangeManager { vec_num_range: vec_intensity, current_range: 0 }
    }

    fn get_current_range(&self, current: u8) -> (task: FragmentTask) {
        FragmentTask {
            id: U8Data { offset: 0, count: IDENTIFICATION_LEN },
            fractal: FractalDescriptor::Julia(
                JuliaDescriptor {
                    c: Complex::new(0x3fd2_3d70_a3d7_0a3d, 0x3f8a_9fbe_76c8_b439),
                    divergence_threshold_square: 0x4010_0000_0000_0000,
                },
            ),
            max_iteration: 64,
            resolution: Resolution { nx: 300, ny: 300 },
            range: self.vec_num_range[current as usize],
        }
    }
}

/// The number of the tile whose rectangle is `range`, if it is one of the
/// plan's.
pub fn tile_of(range: &Range) -> (tile: Option<u8>)
    ensures
        match tile {
            Some(k) => k < 16 && tile_range(k as int) == *range,
            None => forall|k: int| 0 <= k < 16 ==> tile_range(k) != *range,
        },
{
    let mut k: u8 = 0;
    while k < TILE_COUNT
        invariant
            k <= 16,
            forall|j: int| 0 <= j < k ==> tile_range(j) != *range,
        decreases 16 - k,
    {
        let column: u8 = k % TILES_PER_SIDE;
        let row: u8 = k / TILES_PER_SIDE;
        if range.min.x == grid_line_bits(column) && range.min.y == grid_line_bits(row)
            && range.max.x == grid_line_bits(column + 1) && range.max.y == grid_line_bits(
            row + 1,
        ) {
            return Some(k);
        }
        k += 1;
    }
    None
}

/// Every tile of the plan is a well-formed rectangle, shares its right edge
/// with the left edge of the tile after it in its row and its upper edge
/// with the lower edge of the tile above it, and the outermost edges lie at
/// -1.2 and 1.2.
pub proof fn lemma_tile_plan_tiles_the_square(k: int)
    requires
        0 <= k < 16,
    ensures
        tile_range(k).wf(),
        k % 4 < 3 ==> tile_range(k).max.x == tile_range(k + 1).min.x,
        k / 4 < 3 ==> tile_range(k).max.y == tile_range(k + 4).min.y,
        k % 4 == 0 ==> tile_range(k).min.x == 0xbff3_3333_3333_3333,
        k / 4 == 0 ==> tile_range(k).min.y == 0xbff3_3333_3333_3333,
        k % 4 == 3 ==> tile_range(k).max.x == 0x3ff3_3333_3333_3333,
        k / 4 == 3 ==> tile_range(k).max.y == 0x3ff3_3333_3333_3333,
{
}

/// The task of every tile of the plan is well formed: its tile has pixels,
/// its rectangle is ordered, and it announces exactly the identification
/// bytes that travel with it.
pub proof fn lemma_planned_tasks_are_well_formed(k: int)
    requires
        0 <= k < 16,
    ensures
        planned_task(tile_range(k)).resolution.wf(),
        planned_task(tile_range(k)).range.wf(),
        planned_task(tile_range(k)).id.offset == 0,
        planned_task(tile_range(k)).id.count == identification().len(),
{
}

/// No two tiles of the plan have the same rectangle, so a rectangle names
/// at most one tile.
pub proof fn lemma_tile_ranges_differ(j: int, k: int)
    requires
        0 <= j < 16,
        0 <= k < 16,
        tile_range(j) == tile_range(k),
    ensures
        j == k,
{
}

} // verus!
