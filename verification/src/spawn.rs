use rand::Rng;
use vstd::prelude::*;

verus! {

use crate::geometry::{BLOCK_SIZE, SCREEN_HEIGHT, SCREEN_WIDTH};

/// Whether a coordinate sits on the grid: a multiple of the cell size.
pub open spec fn aligned(v: int) -> bool {
    v % (BLOCK_SIZE as int) == 0
}

/// Whether `(x, y)` is a position the food spawner may produce:
/// grid-aligned and strictly inside the one-cell border of the playfield.
pub open spec fn valid_food_pos(x: int, y: int) -> bool {
    &&& aligned(x)
    &&& aligned(y)
    &&& BLOCK_SIZE <= x < SCREEN_WIDTH - BLOCK_SIZE
    &&& BLOCK_SIZE <= y < SCREEN_HEIGHT - BLOCK_SIZE
}

/// Relies on `rand::Rng::gen_range` on a `rand::thread_rng()` generator:
/// it returns a value drawn from the half-open range `lo..hi`, and panics
/// only when the range is empty, which the precondition rules out.
#[verifier::external_body]
fn random_in_range(lo: u32, hi: u32) -> (r: u32)
    requires
        lo < hi,
    ensures
        lo <= r < hi,
{
    rand::thread_rng().gen_range(lo..hi)
}

/// Snap a coordinate down to the nearest multiple of the cell size.
fn snap_to_grid(v: u32) -> (r: u32)
    ensures
        r == (v / (BLOCK_SIZE as u32)) * (BLOCK_SIZE as u32),
        aligned(r as int),
        r <= v,
        v >= BLOCK_SIZE ==> r >= BLOCK_SIZE,
{
    let cell = BLOCK_SIZE as u32;
    let r = (v / cell) * cell;
    proof {
        let c = BLOCK_SIZE as int;
        assert(r == (v as int / c) * c && (v as int / c) * c % c == 0 && (v as int / c) * c
            <= v as int && (v as int >= c ==> (v as int / c) * c >= c)) by (nonlinear_arith)
            requires
                c == 25,
                v as int >= 0,
                r == (v as int / c) * c,
        ;
    }
    r
}

/// Produce a randomized food position: each coordinate is drawn uniformly
/// from strictly inside the playfield margins, then snapped down to the
/// grid, so food never spawns off-grid or flush against the boundary.
pub fn random_point() -> (p: (i32, i32))
    ensures
        valid_food_pos(p.0 as int, p.1 as int),
{
    let raw_x = random_in_range(BLOCK_SIZE as u32, (SCREEN_WIDTH - BLOCK_SIZE) as u32);
    let raw_y = random_in_range(BLOCK_SIZE as u32, (SCREEN_HEIGHT - BLOCK_SIZE) as u32);
    let x = snap_to_grid(raw_x);
    let y = snap_to_grid(raw_y);
    (x as i32, y as i32)
}

} // verus!
