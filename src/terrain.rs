use vstd::prelude::*;
use vstd::arithmetic::div_mod::lemma_fundamental_div_mod_converse;
use crate::geometry::{Aabb, Point, MAX_COORD};
use crate::common::Collider;

verus! {

/// Thousandths of a world unit in one world unit.
pub const POS_SCALE: i64 = 1000;

/// Lower bound, excluded, of the noise band whose cells are obstacles.
pub const OBSTACLE_BAND_LOW: i32 = 200_000;

/// Upper bound, included, of the noise band whose cells are obstacles.
pub const OBSTACLE_BAND_HIGH: i32 = 350_000;

/// Why a terrain could not be set up.
#[derive(Clone, Copy, PartialEq, Eq, Structural, Debug)]
pub enum TerrainError {
    /// A dimension or the cell size is zero, or the world does not fit the
    /// coordinate range.
    InvalidDimensions,
    /// The number of noise samples is not `width * height`.
    SampleCountMismatch,
}

/// A terrain of `width` by `height` square cells of `tile_size` world units,
/// with one noise value (in millionths) per cell, row by row.
pub struct Terrain {
    pub width: u32,
    pub height: u32,
    pub tile_size: u32,
    pub noise_map: Vec<i32>,
}

/// The dimensions a terrain may have: no zero, and the whole world, in
/// thousandths, within the coordinate range.
pub open spec fn dims_ok(width: int, height: int, tile_size: int) -> bool {
    &&& 0 < width && 0 < height && 0 < tile_size
    &&& width * tile_size * POS_SCALE <= MAX_COORD
    &&& height * tile_size * POS_SCALE <= MAX_COORD
    &&& width * height <= usize::MAX
}

/// Whether a noise value lies in the obstacle band `(0.2, 0.35]`.
pub open spec fn in_obstacle_band(v: int) -> bool {
    OBSTACLE_BAND_LOW < v <= OBSTACLE_BAND_HIGH
}

/// The box of the cell at column `x` and row `y`: centered on the cell's world
/// position, with half the cell size as half extent.
pub open spec fn cell_box(tile_size: int, x: int, y: int) -> Aabb {
    Aabb {
        center: Point { x: (x * tile_size * POS_SCALE) as i64, y: (y * tile_size * POS_SCALE) as i64 },
        half_x: (tile_size * POS_SCALE / 2) as i64,
        half_y: (tile_size * POS_SCALE / 2) as i64,
    }
}

/// The visual band of a noise value: five bands with lower bounds 0.75, 0.65,
/// 0.35 and 0.2, each excluded.
pub open spec fn band_of(v: int) -> u8 {
    if v > 750_000 {
        4
    } else if v > 650_000 {
        3
    } else if v > 350_000 {
        2
    } else if v > 200_000 {
        1
    } else {
        0
    }
}

/// The colliders of the obstacle cells among the first `n` cells, in cell order.
pub open spec fn band_colliders(noise: Seq<i32>, width: int, tile_size: int, n: int) -> Seq<Collider>
    decreases n,
{
    if n <= 0 {
        seq![]
    } else {
        let prev = band_colliders(noise, width, tile_size, n - 1);
        if in_obstacle_band(noise[n - 1] as int) {
            prev.push(Collider { bounding_box: cell_box(tile_size, (n - 1) % width, (n - 1) / width) })
        } else {
            prev
        }
    }
}

/// Whether a collider is the box of a cell other than the origin whose noise
/// lies in the obstacle band.
pub open spec fn from_band_cell(noise: Seq<i32>, width: int, tile_size: int, c: Collider) -> bool {
    exists|i: int|
        1 <= i < noise.len() && in_obstacle_band(noise[i] as int) && c.bounding_box == cell_box(
            tile_size,
            i % width,
            i / width,
        )
}

/// Every obstacle comes from a cell whose noise lies in the band `(0.2, 0.35]`,
/// and never from the origin cell, whose noise generation sets to zero.
pub proof fn lemma_obstacles_in_band(t: &Terrain)
    requires
        t.wf(),
        t.noise_map@[0] == 0,
    ensures
        forall|k: int|
            0 <= k < t.obstacles_spec().len() ==> from_band_cell(
                t.noise_map@,
                t.width as int,
                t.tile_size as int,
                #[trigger] t.obstacles_spec()[k],
            ),
{
    assert(t.width * t.height > 0) by (nonlinear_arith)
        requires t.width > 0, t.height > 0;
    lemma_band_colliders_from_cells(t.noise_map@, t.width as int, t.tile_size as int, t.noise_map@.len() as int);
}

proof fn lemma_band_colliders_from_cells(noise: Seq<i32>, width: int, tile_size: int, n: int)
    requires
        0 <= n <= noise.len(),
        noise.len() > 0,
        noise[0] == 0,
    ensures
        forall|k: int|
            0 <= k < band_colliders(noise, width, tile_size, n).len() ==> from_band_cell(
                noise,
                width,
                tile_size,
                #[trigger] band_colliders(noise, width, tile_size, n)[k],
            ),
    decreases n,
{
    if n > 0 {
        lemma_band_colliders_from_cells(noise, width, tile_size, n - 1);
        let prev = band_colliders(noise, width, tile_size, n - 1);
        let cur = band_colliders(noise, width, tile_size, n);
        assert forall|k: int| 0 <= k < cur.len() implies from_band_cell(noise, width, tile_size, #[trigger] cur[k]) by {
            if k < prev.len() {
                assert(cur[k] == prev[k]);
            } else {
                let i = n - 1;
                assert(1 <= i < noise.len() && in_obstacle_band(noise[i] as int) && cur[k].bounding_box
                    == cell_box(tile_size, i % width, i / width));
            }
        }
    }
}

/// Whether `t` is the terrain generated from the given dimensions and samples.
pub open spec fn generated_from(t: Terrain, width: u32, height: u32, tile_size: u32, samples: Seq<i32>) -> bool {
    &&& t.wf()
    &&& t.width == width
    &&& t.height == height
    &&& t.tile_size == tile_size
    &&& t.noise_map@ == samples.update(0, 0i32)
}

/// Generation is deterministic: the noise grid depends on the dimensions and
/// the samples alone, whatever the cell size; with the same cell size too, the
/// obstacles are the same.
pub proof fn lemma_generation_deterministic(
    width: u32,
    height: u32,
    tile_a: u32,
    tile_b: u32,
    samples: Seq<i32>,
    a: Terrain,
    b: Terrain,
)
    requires
        generated_from(a, width, height, tile_a, samples),
        generated_from(b, width, height, tile_b, samples),
    ensures
        a.noise_map@ == b.noise_map@,
        tile_a == tile_b ==> a.obstacles_spec() == b.obstacles_spec(),
{
}

impl Terrain {
    /// The colliders of the obstacle cells, in cell order.
    pub open spec fn obstacles_spec(&self) -> Seq<Collider> {
        band_colliders(self.noise_map@, self.width as int, self.tile_size as int, self.noise_map@.len() as int)
    }

    pub open spec fn wf(&self) -> bool {
        &&& dims_ok(self.width as int, self.height as int, self.tile_size as int)
        &&& self.noise_map@.len() == self.width * self.height
    }

    /// The world's extent along x, in thousandths of a world unit.
    pub open spec fn world_width(&self) -> int {
        self.width * self.tile_size * POS_SCALE
    }

    /// The world's extent along y, in thousandths of a world unit.
    pub open spec fn world_height(&self) -> int {
        self.height * self.tile_size * POS_SCALE
    }

    pub fn world_width_exec(&self) -> (r: i64)
        requires
            self.wf(),
        ensures
            r == self.world_width(),
    {
        self.width as i64 * self.tile_size as i64 * POS_SCALE
    }

    pub fn world_height_exec(&self) -> (r: i64)
        requires
            self.wf(),
        ensures
            r == self.world_height(),
    {
        self.height as i64 * self.tile_size as i64 * POS_SCALE
    }

    /// A terrain whose noise is zero everywhere.
    pub fn new(width: u32, height: u32, tile_size: u32) -> (r: Terrain)
        requires
            dims_ok(width as int, height as int, tile_size as int),
        ensures
            r.wf(),
            r.width == width,
            r.height == height,
            r.tile_size == tile_size,
            r.noise_map@ == Seq::new((width * height) as nat, |i: int| 0i32),
    {
        let n: usize = width as usize * height as usize;
        let mut noise_map: Vec<i32> = Vec::with_capacity(n);
        let mut i: usize = 0;
        while i < n
            invariant
                i <= n,
                noise_map@ == Seq::new(i as nat, |k: int| 0i32),
            decreases n - i,
        {
            noise_map.push(0);
            i = i + 1;
            assert(noise_map@ =~= Seq::new(i as nat, |k: int| 0i32));
        }
        Terrain { width, height, tile_size, noise_map }
    }

    /// A terrain from one noise sample per cell, row by row. The origin cell is
    /// set to zero, so that the spawn area is never an obstacle.
    pub fn from_noise_samples(width: u32, height: u32, tile_size: u32, samples: Vec<i32>) -> (r:
        Result<Terrain, TerrainError>)
        ensures
            !dims_ok(width as int, height as int, tile_size as int) ==> r == Err::<Terrain, TerrainError>(
                TerrainError::InvalidDimensions,
            ),
            dims_ok(width as int, height as int, tile_size as int) && samples@.len() != width
                * height ==> r == Err::<Terrain, TerrainError>(TerrainError::SampleCountMismatch),
            dims_ok(width as int, height as int, tile_size as int) && samples@.len() == width
                * height ==> (r matches Ok(m) && generated_from(m, width, height, tile_size, samples@)),
    {
        if width == 0 || height == 0 || tile_size == 0 {
            return Err(TerrainError::InvalidDimensions);
        }
        let w = width as u128;
        let h = height as u128;
        let ts = tile_size as u128;
        assert(w * ts <= u64::MAX) by (nonlinear_arith)
            requires w <= u32::MAX, ts <= u32::MAX;
        assert(h * ts <= u64::MAX) by (nonlinear_arith)
            requires h <= u32::MAX, ts <= u32::MAX;
        assert(w * h <= u64::MAX) by (nonlinear_arith)
            requires w <= u32::MAX, h <= u32::MAX;
        if w * ts * 1000 > MAX_COORD as u128 || h * ts * 1000 > MAX_COORD as u128 || w * h
            > usize::MAX as u128 {
            return Err(TerrainError::InvalidDimensions);
        }
        let n: usize = (w * h) as usize;
        if samples.len() != n {
            return Err(TerrainError::SampleCountMismatch);
        }
        let mut noise_map = samples;
        assert(n > 0) by (nonlinear_arith)
            requires n == w * h, w > 0, h > 0;
        noise_map.set(0, 0);
        Ok(Terrain { width, height, tile_size, noise_map })
    }

    /// The noise value of the cell at column `x` and row `y`.
    pub fn noise_at(&self, x: u32, y: u32) -> (r: i32)
        requires
            self.wf(),
            x < self.width,
            y < self.height,
        ensures
            r == self.noise_map@[y * self.width + x],
    {
        assert(y * self.width + x < self.width * self.height) by (nonlinear_arith)
            requires x < self.width, y < self.height;
        let i: usize = y as usize * self.width as usize + x as usize;
        self.noise_map[i]
    }

    /// One collider per cell whose noise lies in the obstacle band, in cell
    /// order, each the box of its cell.
    pub fn obstacle_colliders(&self) -> (r: Vec<Collider>)
        requires
            self.wf(),
        ensures
            r@ == self.obstacles_spec(),
            forall|k: int| 0 <= k < r@.len() ==> r@[k].bounding_box.wf(),
    {
        let n = self.noise_map.len();
        let w = self.width;
        let ts = self.tile_size as i64;
        assert(ts * POS_SCALE <= MAX_COORD) by (nonlinear_arith)
            requires w >= 1, ts > 0, w * ts * POS_SCALE <= MAX_COORD;
        let half: i64 = ts * POS_SCALE / 2;
        let mut out: Vec<Collider> = Vec::new();
        let mut i: usize = 0;
        let mut x: u32 = 0;
        let mut y: u32 = 0;
        while i < n
            invariant
                self.wf(),
                n == self.noise_map@.len(),
                w == self.width,
                ts == self.tile_size,
                half == ts * POS_SCALE / 2,
                0 <= half <= MAX_COORD,
                i <= n,
                x < w,
                i == y * w + x,
                i < n ==> y < self.height,
                out@ == band_colliders(self.noise_map@, w as int, ts as int, i as int),
                forall|k: int| 0 <= k < out@.len() ==> out@[k].bounding_box.wf(),
            decreases n - i,
        {
            let v = self.noise_map[i];
            proof {
                lemma_fundamental_div_mod_converse(i as int, w as int, y as int, x as int);
            }
            if OBSTACLE_BAND_LOW < v && v <= OBSTACLE_BAND_HIGH {
                assert(x * ts * POS_SCALE <= MAX_COORD) by (nonlinear_arith)
                    requires x < w, w * ts * POS_SCALE <= MAX_COORD, ts > 0;
                assert(y * ts * POS_SCALE <= MAX_COORD) by (nonlinear_arith)
                    requires y < self.height, self.height * ts * POS_SCALE <= MAX_COORD, ts > 0;
                assert(0 <= x * ts * POS_SCALE && 0 <= y * ts * POS_SCALE) by (nonlinear_arith)
                    requires ts > 0;
                let cx: i64 = x as i64 * ts * POS_SCALE;
                let cy: i64 = y as i64 * ts * POS_SCALE;
                let b = Aabb { center: Point { x: cx, y: cy }, half_x: half, half_y: half };
                out.push(Collider { bounding_box: b });
            }
            i = i + 1;
            if x + 1 == w {
                assert(i == (y + 1) * w) by (nonlinear_arith)
                    requires i == y * w + x + 1, x + 1 == w;
                assert(i < n ==> y + 1 < self.height) by (nonlinear_arith)
                    requires i == (y + 1) * w, n == w * self.height, w > 0;
                x = 0;
                y = y + 1;
            } else {
                x = x + 1;
                assert(i < n ==> y < self.height) by (nonlinear_arith)
                    requires i == y * w + x, n == w * self.height, x < w, w > 0;
            }
        }
        out
    }
}

/// The visual band of a cell's noise value, from 0 (lowest) to 4.
pub fn tile_band(noise_value: i32) -> (r: u8)
    ensures
        r == band_of(noise_value as int),
{
    if noise_value > 750_000 {
        4
    } else if noise_value > 650_000 {
        3
    } else if noise_value > 350_000 {
        2
    } else if noise_value > 200_000 {
        1
    } else {
        0
    }
}

} // verus!
