use vstd::prelude::*;

use crate::grid::{cell_index, Cell, Grid, CELL_SIZE};
use crate::pose::Player;
use crate::trig::{TrigTable, HALF, QUARTER, TURN};
use crate::UNIT;

verus! {

/// Distance, in sub-units, reported for a ray that meets no wall (a million world units).
pub const FAR: i64 = 16384000000;

/// The family of grid lines that a sweep crosses.
#[derive(Clone, Copy, Debug, PartialEq, Eq, Structural)]
pub enum Axis {
    /// Lines of constant y: the sweep steps one cell at a time in y.
    Horizontal,
    /// Lines of constant x: the sweep steps one cell at a time in x.
    Vertical,
}

/// The face of a wall that a ray struck.
#[derive(Clone, Copy, Debug, PartialEq, Eq, Structural)]
pub enum Face {
    Horizontal,
    Vertical,
    /// No hit, or both sweeps hit at the same distance.
    Neither,
}

/// Where a sweep met a wall, in sub-units, and after how many grid lines.
#[derive(Clone, Copy, Debug, PartialEq, Eq, Structural)]
pub struct Crossing {
    pub x: i64,
    pub y: i64,
    pub steps: usize,
}

/// The nearest wall along one ray: its distance from the player in sub-units (`FAR` for
/// none), the face struck, and the point struck (the player's own position for none).
#[derive(Clone, Copy, Debug, PartialEq, Eq, Structural)]
pub struct RayHit {
    pub distance: i64,
    pub face: Face,
    pub hit_x: i64,
    pub hit_y: i64,
}

/// Coordinate, along the stepping axis, of the `k`-th grid line that a sweep from `s` in
/// direction `ds` crosses.
pub open spec fn line_coord(s: int, ds: int, k: int) -> int {
    if ds > 0 {
        (cell_index(s) + 1 + k) * CELL_SIZE
    } else {
        (cell_index(s) - k) * CELL_SIZE
    }
}

/// Index, along the stepping axis, of the cell entered at the `k`-th line.
pub open spec fn step_cell(s: int, ds: int, k: int) -> int {
    if ds > 0 {
        cell_index(s) + 1 + k
    } else {
        cell_index(s) - 1 - k
    }
}

pub open spec fn abs(v: int) -> int {
    if v < 0 {
        -v
    } else {
        v
    }
}

/// The other coordinate at the `k`-th line, times `|ds|`: `o + (line - s) * d_o / ds`.
pub open spec fn other_scaled(s: int, o: int, ds: int, d_o: int, k: int) -> int {
    let n = o * ds + (line_coord(s, ds, k) - s) * d_o;
    if ds > 0 {
        n
    } else {
        -n
    }
}

/// The other coordinate at the `k`-th line, rounded down to a whole sub-unit.
pub open spec fn other_coord(s: int, o: int, ds: int, d_o: int, k: int) -> int {
    other_scaled(s, o, ds, d_o, k) / abs(ds)
}

/// The point where the `k`-th line is crossed, as `(x, y)`.
pub open spec fn crossing_point(axis: Axis, s: int, o: int, ds: int, d_o: int, k: int) -> (
    int,
    int,
) {
    match axis {
        Axis::Horizontal => (other_coord(s, o, ds, d_o, k), line_coord(s, ds, k)),
        Axis::Vertical => (line_coord(s, ds, k), other_coord(s, o, ds, d_o, k)),
    }
}

/// The cell entered at the `k`-th line, as `(x, y)`.
pub open spec fn crossing_cell(axis: Axis, s: int, o: int, ds: int, d_o: int, k: int) -> (
    int,
    int,
) {
    match axis {
        Axis::Horizontal => (cell_index(other_coord(s, o, ds, d_o, k)), step_cell(s, ds, k)),
        Axis::Vertical => (step_cell(s, ds, k), cell_index(other_coord(s, o, ds, d_o, k))),
    }
}

/// Whether the cell entered at the `k`-th line is a wall of the map.
pub open spec fn wall_crossing(grid: &Grid, axis: Axis, s: int, o: int, ds: int, d_o: int, k: int) -> bool {
    grid.wall_at(crossing_cell(axis, s, o, ds, d_o, k).0, crossing_cell(axis, s, o, ds, d_o, k).1)
}

/// The first line from the `k`-th on, and before the map's size in lines, that enters a wall.
pub open spec fn first_wall_from(
    grid: &Grid,
    axis: Axis,
    s: int,
    o: int,
    ds: int,
    d_o: int,
    k: int,
) -> Option<int>
    decreases grid@.len() - k,
{
    if k < 0 || k >= grid@.len() {
        None
    } else if wall_crossing(grid, axis, s, o, ds, d_o, k) {
        Some(k)
    } else {
        first_wall_from(grid, axis, s, o, ds, d_o, k + 1)
    }
}

/// What a sweep finds: nothing where the direction has no component along the stepping axis
/// (no such line is ever crossed), else the crossing of the first line that enters a wall.
pub open spec fn sweep_spec(grid: &Grid, axis: Axis, s: int, o: int, ds: int, d_o: int) -> Option<
    Crossing,
> {
    if ds == 0 {
        None
    } else {
        match first_wall_from(grid, axis, s, o, ds, d_o, 0) {
            Some(k) => Some(
                Crossing {
                    x: crossing_point(axis, s, o, ds, d_o, k).0 as i64,
                    y: crossing_point(axis, s, o, ds, d_o, k).1 as i64,
                    steps: k as usize,
                },
            ),
            None => None,
        }
    }
}

/// Square of the distance from `(px, py)` to a crossing.
pub open spec fn dist_sq(px: int, py: int, c: Crossing) -> int {
    (c.x - px) * (c.x - px) + (c.y - py) * (c.y - py)
}

/// The nearer of the two sweeps' crossings with the face it marks; at equal distances the
/// horizontal sweep's crossing, marked `Neither`.
pub open spec fn nearer(px: int, py: int, h: Option<Crossing>, v: Option<Crossing>) -> Option<
    (Face, Crossing),
> {
    match (h, v) {
        (None, None) => None,
        (Some(a), None) => Some((Face::Horizontal, a)),
        (None, Some(b)) => Some((Face::Vertical, b)),
        (Some(a), Some(b)) => if dist_sq(px, py, b) < dist_sq(px, py, a) {
            Some((Face::Vertical, b))
        } else if dist_sq(px, py, a) < dist_sq(px, py, b) {
            Some((Face::Horizontal, a))
        } else {
            Some((Face::Neither, a))
        },
    }
}

/// `r` is the square root of `n` rounded down.
pub open spec fn is_floor_sqrt(r: int, n: int) -> bool {
    0 <= r && r * r <= n < (r + 1) * (r + 1)
}

/// The hit that a ray from `(px, py)` with direction `(dx, dy)` reports. A ray with no y
/// component (angle 0 or a half turn) crosses no horizontal line, and its sweep across vertical
/// lines is skipped as well, so it reports no hit.
pub open spec fn ray_hit_matches(grid: &Grid, px: int, py: int, dx: int, dy: int, r: RayHit) -> bool {
    let h = sweep_spec(grid, Axis::Horizontal, py, px, dy, dx);
    let v = if dy == 0 {
        None
    } else {
        sweep_spec(grid, Axis::Vertical, px, py, dx, dy)
    };
    match nearer(px, py, h, v) {
        None => r.distance == FAR && r.face == Face::Neither && r.hit_x == px && r.hit_y == py,
        Some((f, c)) => {
            &&& r.face == f
            &&& r.hit_x == c.x
            &&& r.hit_y == c.y
            &&& is_floor_sqrt(r.distance as int, dist_sq(px, py, c))
            &&& r.distance < FAR
        },
    }
}

/// Inputs that a sweep accepts: a start inside the map and a direction of fixed-point
/// components.
pub open spec fn sweep_input(grid: &Grid, s: int, o: int, ds: int, d_o: int) -> bool {
    &&& grid.wf()
    &&& 0 <= s < grid@.len() * CELL_SIZE
    &&& 0 <= o < grid@.len() * CELL_SIZE
    &&& -UNIT <= ds <= UNIT
    &&& -UNIT <= d_o <= UNIT
}

proof fn lemma_first_wall_props(grid: &Grid, axis: Axis, s: int, o: int, ds: int, d_o: int, k: int)
    requires
        0 <= k <= grid@.len(),
    ensures
        first_wall_from(grid, axis, s, o, ds, d_o, k) matches Some(j) ==> {
            &&& k <= j < grid@.len()
            &&& wall_crossing(grid, axis, s, o, ds, d_o, j)
            &&& forall|i: int| k <= i < j ==> !wall_crossing(grid, axis, s, o, ds, d_o, i)
        },
        first_wall_from(grid, axis, s, o, ds, d_o, k) is None ==> forall|i: int|
            k <= i < grid@.len() ==> !wall_crossing(grid, axis, s, o, ds, d_o, i),
    decreases grid@.len() - k,
{
    if k < grid@.len() && !wall_crossing(grid, axis, s, o, ds, d_o, k) {
        lemma_first_wall_props(grid, axis, s, o, ds, d_o, k + 1);
    }
}

/// Steps across one family of grid lines, one cell at a time, from `(s, o)` (the stepping
/// coordinate first) in direction `(ds, d_o)`, and reports the first line whose cell beyond is
/// a wall. Lines whose cell lies outside the map are stepped over; after as many lines as the
/// map is wide the sweep gives up.
pub fn sweep(grid: &Grid, axis: Axis, s: i64, o: i64, ds: i64, d_o: i64) -> (r: Option<Crossing>)
    requires
        sweep_input(grid, s as int, o as int, ds as int, d_o as int),
    ensures
        r == sweep_spec(grid, axis, s as int, o as int, ds as int, d_o as int),
        r matches Some(c) ==> {
            &&& c.steps < grid@.len()
            &&& wall_crossing(grid, axis, s as int, o as int, ds as int, d_o as int, c.steps as int)
            &&& forall|i: int|
                0 <= i < c.steps ==> !wall_crossing(grid, axis, s as int, o as int, ds as int, d_o as int, i)
            &&& 0 <= c.x <= grid@.len() * CELL_SIZE
            &&& 0 <= c.y <= grid@.len() * CELL_SIZE
        },
        r is None && ds != 0 ==> forall|i: int|
            0 <= i < grid@.len() ==> !wall_crossing(grid, axis, s as int, o as int, ds as int, d_o as int, i),
{
    proof {
        lemma_first_wall_props(grid, axis, s as int, o as int, ds as int, d_o as int, 0);
    }
    if ds == 0 {
        return None;
    }
    let n = grid.size();
    let first = s / CELL_SIZE;
    let den: i64 = if ds < 0 {
        -ds
    } else {
        ds
    };
    let mut k: usize = 0;
    while k < n
        invariant
            sweep_input(grid, s as int, o as int, ds as int, d_o as int),
            ds != 0,
            n == grid@.len(),
            k <= n,
            first == cell_index(s as int),
            den == abs(ds as int),
            first_wall_from(grid, axis, s as int, o as int, ds as int, d_o as int, 0)
                == first_wall_from(grid, axis, s as int, o as int, ds as int, d_o as int, k as int),
        decreases n - k,
    {
        let ki = k as i64;
        let line: i64 = if ds > 0 {
            (first + 1 + ki) * CELL_SIZE
        } else {
            (first - ki) * CELL_SIZE
        };
        let cell: i64 = if ds > 0 {
            first + 1 + ki
        } else {
            first - 1 - ki
        };
        assert(-CELL_SIZE * 257 <= line - s <= CELL_SIZE * 258);
        assert(-(CELL_SIZE * 258) * UNIT <= (line - s) * d_o <= (CELL_SIZE * 258) * UNIT)
            by (nonlinear_arith)
            requires
                -CELL_SIZE * 257 <= line - s <= CELL_SIZE * 258,
                -UNIT <= d_o <= UNIT,
        ;
        assert(-(CELL_SIZE * 256) * UNIT <= o * ds <= (CELL_SIZE * 256) * UNIT)
            by (nonlinear_arith)
            requires
                0 <= o < CELL_SIZE * 256,
                -UNIT <= ds <= UNIT,
        ;
        let raw = o * ds + (line - s) * d_o;
        let scaled = if ds > 0 {
            raw
        } else {
            -raw
        };
        assert(line == line_coord(s as int, ds as int, k as int));
        assert(cell == step_cell(s as int, ds as int, k as int));
        assert(scaled == other_scaled(s as int, o as int, ds as int, d_o as int, k as int));
        if scaled >= 0 {
            let other = scaled / den;
            assert(other == other_coord(s as int, o as int, ds as int, d_o as int, k as int));
            let found = match axis {
                Axis::Horizontal => grid.cell_at(other / CELL_SIZE, cell),
                Axis::Vertical => grid.cell_at(cell, other / CELL_SIZE),
            };
            if let Some(Cell::Wall) = found {
                proof {
                    let n_i = n as int;
                    let c = CELL_SIZE as int;
                    assert(wall_crossing(grid, axis, s as int, o as int, ds as int, d_o as int, k as int));
                    let oc = other as int;
                    let sc = cell as int;
                    assert(0 <= oc / c < n_i && 0 <= sc < n_i);
                    assert(0 <= oc < n_i * c) by (nonlinear_arith)
                        requires
                            0 <= oc / c < n_i,
                            c > 0,
                            oc == c * (oc / c) + oc % c,
                            0 <= oc % c < c,
                    ;
                    assert(0 <= sc * c <= (n_i - 1) * c && c <= (sc + 1) * c <= n_i * c) by (nonlinear_arith)
                        requires
                            0 <= sc < n_i,
                            c > 0,
                    ;
                }
                let (x, y) = match axis {
                    Axis::Horizontal => (other, line),
                    Axis::Vertical => (line, other),
                };
                assert(first_wall_from(grid, axis, s as int, o as int, ds as int, d_o as int, k as int) == Some(k as int));
                proof {
                    lemma_first_wall_props(grid, axis, s as int, o as int, ds as int, d_o as int, 0);
                }
                return Some(Crossing { x, y, steps: k });
            }
        } else {
            assert((scaled as int) / (den as int) < 0) by (nonlinear_arith)
                requires
                    scaled < 0,
                    den > 0,
            ;
            assert(other_coord(s as int, o as int, ds as int, d_o as int, k as int) < 0);
        }
        k += 1;
    }
    None
}

/// The square root of `n`, rounded down.
pub fn floor_sqrt(n: u64) -> (r: u64)
    ensures
        is_floor_sqrt(r as int, n as int),
{
    let mut lo: u64 = 0;
    let mut hi: u64 = 0x1_0000_0000;
    assert(n < hi * hi) by (nonlinear_arith)
        requires
            n <= 0xffff_ffff_ffff_ffff,
            hi == 0x1_0000_0000,
    ;
    while hi - lo > 1
        invariant
            lo < hi <= 0x1_0000_0000,
            lo * lo <= n,
            n < hi * hi,
        decreases hi - lo,
    {
        let mid = lo + (hi - lo) / 2;
        assert(mid * mid < 0x1_0000_0000 * 0x1_0000_0000) by (nonlinear_arith)
            requires
                mid < 0x1_0000_0000,
        ;
        if mid * mid <= n {
            lo = mid;
        } else {
            hi = mid;
        }
    }
    lo
}

/// Square of the distance from `(px, py)` to a crossing inside the map.
fn crossing_dist_sq(grid: &Grid, px: i64, py: i64, c: Crossing) -> (r: u64)
    requires
        grid.wf(),
        0 <= px < grid@.len() * CELL_SIZE,
        0 <= py < grid@.len() * CELL_SIZE,
        0 <= c.x <= grid@.len() * CELL_SIZE,
        0 <= c.y <= grid@.len() * CELL_SIZE,
    ensures
        r == dist_sq(px as int, py as int, c),
        r <= 0x4000_0000_0000_0000,
{
    let ex = c.x - px;
    let ey = c.y - py;
    let lim: i64 = 268435456;
    assert(grid@.len() * CELL_SIZE <= lim) by (nonlinear_arith)
        requires
            grid@.len() <= 256,
            CELL_SIZE == 1048576,
            lim == 268435456,
    ;
    assert(ex * ex <= lim * lim && ey * ey <= lim * lim) by (nonlinear_arith)
        requires
            -lim <= ex <= lim,
            -lim <= ey <= lim,
    ;
    assert(0 <= ex * ex && 0 <= ey * ey) by (nonlinear_arith);
    (ex * ex + ey * ey) as u64
}

/// Casts one ray from `(px, py)` with direction `(dx, dy)`: sweeps across horizontal and
/// across vertical grid lines and keeps the nearer wall.
pub fn cast_ray(grid: &Grid, px: i64, py: i64, dx: i64, dy: i64) -> (r: RayHit)
    requires
        sweep_input(grid, px as int, py as int, dx as int, dy as int),
    ensures
        ray_hit_matches(grid, px as int, py as int, dx as int, dy as int, r),
        0 <= r.distance <= FAR,
{
    let h = sweep(grid, Axis::Horizontal, py, px, dy, dx);
    let v = if dy == 0 {
        None
    } else {
        sweep(grid, Axis::Vertical, px, py, dx, dy)
    };
    let chosen: Option<(Face, Crossing, u64)> = match (h, v) {
        (None, None) => None,
        (Some(a), None) => Some((Face::Horizontal, a, crossing_dist_sq(grid, px, py, a))),
        (None, Some(b)) => Some((Face::Vertical, b, crossing_dist_sq(grid, px, py, b))),
        (Some(a), Some(b)) => {
            let da = crossing_dist_sq(grid, px, py, a);
            let db = crossing_dist_sq(grid, px, py, b);
            if db < da {
                Some((Face::Vertical, b, db))
            } else if da < db {
                Some((Face::Horizontal, a, da))
            } else {
                Some((Face::Neither, a, da))
            }
        },
    };
    match chosen {
        None => RayHit { distance: FAR, face: Face::Neither, hit_x: px, hit_y: py },
        Some((face, c, d)) => {
            let root = floor_sqrt(d);
            assert(root <= 0x8000_0000) by (nonlinear_arith)
                requires
                    root * root <= 0x4000_0000_0000_0000,
            ;
            RayHit { distance: root as i64, face, hit_x: c.x, hit_y: c.y }
        },
    }
}

/// Angle units across the field of view (90 degrees).
pub const FOV: u32 = 4096;

/// Most columns that one view may cast.
pub const MAX_COLUMNS: usize = 65536;

/// One column's ray: its angle, the wall it met, and the distance corrected for the fisheye
/// effect.
#[derive(Clone, Copy, Debug, PartialEq, Eq, Structural)]
pub struct RaySample {
    pub angle: u32,
    pub hit: RayHit,
    pub corrected: i64,
}

/// Angle of the `i`-th ray of a view facing `view`, rays `spacing` units apart: each ray
/// passes through the middle of its column, the first column starting half the field of view
/// to the left. Kept within `[0, TURN)`.
pub open spec fn ray_angle(view: int, i: int, spacing: int) -> int {
    (view + TURN - FOV / 2 + spacing / 2 + i * spacing) % (TURN as int)
}

/// The angle from `b` round to `a`, within `[0, TURN)`.
pub open spec fn angle_between(a: int, b: int) -> int {
    (a + TURN - b) % (TURN as int)
}

/// A distance scaled by the absolute cosine of the angle off the view direction.
pub open spec fn fisheye_spec(distance: int, cos_delta: int) -> int {
    distance * abs(cos_delta) / (UNIT as int)
}

/// What the ray at angle `ray` of a view from `p` reports.
pub open spec fn sample_matches(grid: &Grid, table: &TrigTable, p: Player, ray: int, s: RaySample) -> bool {
    &&& s.angle == ray
    &&& ray_hit_matches(grid, p.x as int, p.y as int, table.cos_spec(ray) as int, table.sin_spec(ray) as int, s.hit)
    &&& s.corrected == fisheye_spec(
        s.hit.distance as int,
        table.cos_spec(angle_between(p.angle as int, ray)) as int,
    )
}

/// Corrects a ray's distance for the fisheye effect: `distance * |cos_delta| / UNIT`, where
/// `cos_delta` is the cosine, in fixed point, of the ray's angle off the view direction.
pub fn correct_fisheye(distance: i64, cos_delta: i64) -> (r: i64)
    requires
        0 <= distance <= FAR,
        -UNIT <= cos_delta <= UNIT,
    ensures
        r == fisheye_spec(distance as int, cos_delta as int),
        0 <= r <= distance,
{
    let c: i64 = if cos_delta < 0 {
        -cos_delta
    } else {
        cos_delta
    };
    assert(0 <= distance * c <= distance * UNIT) by (nonlinear_arith)
        requires
            0 <= distance,
            0 <= c <= UNIT,
    ;
    assert(distance * c / (UNIT as int) <= distance) by (nonlinear_arith)
        requires
            0 <= distance,
            0 <= distance * c <= distance * UNIT,
            UNIT > 0,
    ;
    distance * c / UNIT
}

/// Casts the rays of one view from the player: `columns` rays, `spacing` angle units apart,
/// across the field of view centred on the player's facing angle.
pub fn cast_rays(grid: &Grid, table: &TrigTable, player: &Player, columns: usize, spacing: u32) -> (r: Vec<RaySample>)
    requires
        grid.wf(),
        table.wf(),
        player.wf(grid),
        columns <= MAX_COLUMNS,
        spacing <= TURN,
    ensures
        r@.len() == columns,
        forall|i: int|
            0 <= i < columns ==> sample_matches(
                grid,
                table,
                *player,
                ray_angle(player.angle as int, i, spacing as int),
                #[trigger] r@[i],
            ),
{
    let mut out: Vec<RaySample> = Vec::new();
    let mut i: usize = 0;
    while i < columns
        invariant
            grid.wf(),
            table.wf(),
            player.wf(grid),
            columns <= MAX_COLUMNS,
            spacing <= TURN,
            i <= columns,
            out@.len() == i,
            forall|j: int|
                0 <= j < i ==> sample_matches(
                    grid,
                    table,
                    *player,
                    ray_angle(player.angle as int, j, spacing as int),
                    #[trigger] out@[j],
                ),
        decreases columns - i,
    {
        assert(i as u64 * spacing as u64 <= 65536 * 16384) by (nonlinear_arith)
            requires
                i < 65536,
                spacing <= 16384,
        ;
        let ray = ((player.angle as u64 + TURN as u64 - (FOV / 2) as u64 + (spacing / 2) as u64
            + i as u64 * spacing as u64) % TURN as u64) as u32;
        let dx = table.cos(ray);
        let dy = table.sin(ray);
        let hit = cast_ray(grid, player.x, player.y, dx, dy);
        let delta = (player.angle + TURN - ray) % TURN;
        let corrected = correct_fisheye(hit.distance, table.cos(delta));
        out.push(RaySample { angle: ray, hit, corrected });
        proof {
            assert(out@[i as int].angle == ray_angle(player.angle as int, i as int, spacing as int));
        }
        i += 1;
    }
    out
}

/// A ray along the view direction keeps its distance: the fisheye correction leaves it as is.
pub proof fn lemma_aligned_ray_uncorrected(grid: &Grid, table: &TrigTable, p: Player, s: RaySample)
    requires
        table.wf(),
        p.angle < TURN,
        0 <= s.hit.distance,
        sample_matches(grid, table, p, p.angle as int, s),
    ensures
        s.corrected == s.hit.distance,
{
    assert(angle_between(p.angle as int, p.angle as int) == 0);
    assert(table.cos_spec(0) == UNIT);
    let d = s.hit.distance as int;
    assert(d * UNIT / (UNIT as int) == d) by (nonlinear_arith)
        requires
            UNIT > 0,
    ;
}

proof fn lemma_first_wall_is(grid: &Grid, axis: Axis, s: int, o: int, ds: int, d_o: int, k: int, t: int)
    requires
        0 <= k <= t < grid@.len(),
        wall_crossing(grid, axis, s, o, ds, d_o, t),
        forall|j: int| k <= j < t ==> !wall_crossing(grid, axis, s, o, ds, d_o, j),
    ensures
        first_wall_from(grid, axis, s, o, ds, d_o, k) == Some(t),
    decreases t - k,
{
    if k < t {
        lemma_first_wall_is(grid, axis, s, o, ds, d_o, k + 1, t);
    }
}

proof fn lemma_floor_sqrt_of_square(r: int, d: int)
    requires
        0 <= d,
        is_floor_sqrt(r, d * d),
    ensures
        r == d,
{
    if r < d {
        assert((r + 1) * (r + 1) <= d * d) by (nonlinear_arith)
            requires
                0 <= r < d,
        ;
    } else if r > d {
        assert(r * r > d * d) by (nonlinear_arith)
            requires
                0 <= d < r,
        ;
    }
}

/// The cell of the map whose index along the stepping axis is `a` and along the other axis `b`.
pub open spec fn axis_cell(axis: Axis, a: int, b: int) -> (int, int) {
    match axis {
        Axis::Horizontal => (b, a),
        Axis::Vertical => (a, b),
    }
}

/// The point whose coordinate along the stepping axis is `a` and along the other axis `b`.
pub open spec fn axis_point(axis: Axis, a: int, b: int) -> (int, int) {
    axis_cell(axis, a, b)
}

/// Coordinate of the face of cell `w` that a sweep from `s` in direction `ds` meets first.
pub open spec fn near_face(ds: int, w: int) -> int {
    if ds > 0 {
        w * CELL_SIZE
    } else {
        (w + 1) * CELL_SIZE
    }
}

/// A wall `w` cells along the stepping axis from `s`, on the side that `ds` points to, with
/// only open cells between, in the row or column of `o`.
pub open spec fn straight_wall(grid: &Grid, axis: Axis, s: int, o: int, ds: int, w: int) -> bool {
    let ci = cell_index(s);
    &&& (ds > 0 ==> ci < w < grid@.len())
    &&& (ds < 0 ==> 0 <= w < ci)
    &&& grid.wall_at(axis_cell(axis, w, cell_index(o)).0, axis_cell(axis, w, cell_index(o)).1)
    &&& forall|j: int|
        (ci < j < w || w < j < ci) ==> !grid.wall_at(
            #[trigger] axis_cell(axis, j, cell_index(o)).0,
            axis_cell(axis, j, cell_index(o)).1,
        )
}

proof fn lemma_straight_sweep(grid: &Grid, axis: Axis, s: int, o: int, ds: int, w: int)
    requires
        sweep_input(grid, s, o, ds, 0),
        ds != 0,
        straight_wall(grid, axis, s, o, ds, w),
    ensures
        sweep_spec(grid, axis, s, o, ds, 0) matches Some(c) && (c.x as int, c.y as int)
            == axis_point(axis, near_face(ds, w), o),
{
    let ci = cell_index(s);
    let k0 = if ds > 0 {
        w - ci - 1
    } else {
        ci - 1 - w
    };
    assert forall|k: int| other_coord(s, o, ds, 0, k) == o by {
        let p = o * ds;
        assert(other_scaled(s, o, ds, 0, k) == if ds > 0 {
            p
        } else {
            -p
        });
        assert(other_scaled(s, o, ds, 0, k) / abs(ds) == o) by (nonlinear_arith)
            requires
                ds != 0,
                other_scaled(s, o, ds, 0, k) == if ds > 0 {
                    o * ds
                } else {
                    -(o * ds)
                },
        ;
    }
    assert forall|j: int| 0 <= j < k0 implies !wall_crossing(grid, axis, s, o, ds, 0, j) by {
        assert(crossing_cell(axis, s, o, ds, 0, j) == axis_cell(axis, step_cell(s, ds, j), cell_index(o)));
    }
    assert(crossing_cell(axis, s, o, ds, 0, k0) == axis_cell(axis, w, cell_index(o)));
    lemma_first_wall_is(grid, axis, s, o, ds, 0, 0, k0);
    assert(line_coord(s, ds, k0) == near_face(ds, w));
    let c = CELL_SIZE as int;
    let n = grid@.len() as int;
    assert(0 <= w * c && (w + 1) * c <= n * c) by (nonlinear_arith)
        requires
            0 <= w < n,
            c > 0,
    ;
    assert(n * c <= 268435456) by (nonlinear_arith)
        requires
            n <= 256,
            c == 1048576,
    ;
}

/// A ray along the y axis of the grid (no x component), aimed at a wall with only open cells
/// between, strikes that wall's near face, and its distance is exactly how far that face lies
/// from the player: from a point on a grid line, the number of cells crossed times the cell
/// size.
pub proof fn lemma_straight_ray_distance(
    grid: &Grid,
    px: int,
    py: int,
    dy: int,
    w: int,
    r: RayHit,
)
    requires
        sweep_input(grid, px, py, 0, dy),
        dy != 0,
        straight_wall(grid, Axis::Horizontal, py, px, dy, w),
        ray_hit_matches(grid, px, py, 0, dy, r),
    ensures
        r.face == Face::Horizontal,
        r.hit_x == px,
        r.hit_y == near_face(dy, w),
        r.distance == abs(near_face(dy, w) - py),
{
    let c = CELL_SIZE as int;
    let dx = 0int;
    lemma_straight_sweep(grid, Axis::Horizontal, py, px, dy, w);
    let h = sweep_spec(grid, Axis::Horizontal, py, px, dy, dx);
    let cy = h.unwrap();
    let ci = cell_index(py);
    assert(c * ci <= py < c * (ci + 1)) by (nonlinear_arith)
        requires
            ci == py / c,
            c > 0,
            py == c * (py / c) + py % c,
            0 <= py % c < c,
    ;
    assert(dy > 0 ==> (ci + 1) * c <= w * c) by (nonlinear_arith)
        requires
            dy > 0 ==> ci + 1 <= w,
            c > 0,
    ;
    assert(dy < 0 ==> (w + 1) * c <= ci * c) by (nonlinear_arith)
        requires
            dy < 0 ==> w + 1 <= ci,
            c > 0,
    ;
    let d = abs(near_face(dy, w) - py);
    let ex = cy.x - px;
    assert(ex * ex == 0) by (nonlinear_arith)
        requires
            ex == 0,
    ;
    assert((cy.y - py) * (cy.y - py) == d * d) by (nonlinear_arith)
        requires
            d == abs(cy.y - py),
    ;
    lemma_floor_sqrt_of_square(r.distance as int, d);
}

/// A ray with no y component (at angle 0 or a half turn) reports no wall: the far distance,
/// no face, and the player's own position.
pub proof fn lemma_level_ray_reports_nothing(grid: &Grid, px: int, py: int, dx: int, r: RayHit)
    requires
        ray_hit_matches(grid, px, py, dx, 0, r),
    ensures
        r.distance == FAR,
        r.face == Face::Neither,
        r.hit_x == px,
        r.hit_y == py,
{
}

/// The rays of a view whose facing angle is a multiple of 4, cast 2 or 4 units apart, never
/// lie at angle 0 or a half turn: each has a y component, so none of them falls under the rule
/// that a ray with no y component reports no wall.
pub proof fn lemma_view_rays_not_level(table: &TrigTable, view: int, i: int, spacing: int)
    requires
        table.wf(),
        0 <= view < TURN,
        view % 4 == 0,
        spacing == 2 || spacing == 4,
        0 <= i,
    ensures
        ray_angle(view, i, spacing) != 0,
        ray_angle(view, i, spacing) != HALF,
        table.sin_spec(ray_angle(view, i, spacing)) != 0,
{
    let a = view + TURN - FOV / 2 + spacing / 2 + i * spacing;
    let r = ray_angle(view, i, spacing);
    assert(r == a % (TURN as int));
    assert(a % 4 == 1 || a % 4 == 3 || a % 4 == 2) by (nonlinear_arith)
        requires
            a == view + 16384 - 2048 + spacing / 2 + i * spacing,
            view % 4 == 0,
            spacing == 2 || spacing == 4,
    ;
    assert(r % 4 == a % 4) by (nonlinear_arith)
        requires
            r == a % 16384,
            a >= 0,
    ;
    assert(r % (TURN as int) == r);
}

/// Whether either sweep of a ray finds a wall, so that the ray reports one.
pub open spec fn ray_hits(grid: &Grid, px: int, py: int, dx: int, dy: int) -> bool {
    let h = sweep_spec(grid, Axis::Horizontal, py, px, dy, dx);
    let v = if dy == 0 {
        None
    } else {
        sweep_spec(grid, Axis::Vertical, px, py, dx, dy)
    };
    nearer(px, py, h, v) is Some
}

/// A map of side `n` whose border cells are walls and whose inside is empty.
pub open spec fn is_walled_square(grid: &Grid, n: int) -> bool {
    &&& grid.wf()
    &&& grid@.len() == n
    &&& forall|x: int, y: int|
        0 <= x < n && 0 <= y < n ==> #[trigger] grid@[x][y] == (if x == 0 || y == 0 || x == n
            - 1 || y == n - 1 {
            Cell::Wall
        } else {
            Cell::Empty
        })
}

proof fn lemma_centre_sweep_hits(grid: &Grid, axis: Axis, ds: int, d_o: int)
    requires
        is_walled_square(grid, 16),
        ds != 0,
        -UNIT <= ds <= UNIT,
        -UNIT <= d_o <= UNIT,
        -8 * abs(ds) <= 7 * d_o < 8 * abs(ds),
    ensures
        sweep_spec(grid, axis, 8 * CELL_SIZE, 8 * CELL_SIZE, ds, d_o) is Some,
{
    let c = CELL_SIZE as int;
    let s = 8 * c;
    let k: int = if ds > 0 {
        6
    } else {
        7
    };
    assert(cell_index(s) == 8);
    assert(step_cell(s, ds, k) == if ds > 0 {
        15int
    } else {
        0int
    });
    let line = line_coord(s, ds, k);
    assert(line - s == if ds > 0 {
        7 * c
    } else {
        -7 * c
    });
    let sc = other_scaled(s, s, ds, d_o, k);
    let a = abs(ds);
    let raw = s * ds + (line - s) * d_o;
    assert(sc == if ds > 0 {
        raw
    } else {
        -raw
    });
    assert(sc == 8 * c * a + 7 * c * d_o) by (nonlinear_arith)
        requires
            raw == s * ds + (line - s) * d_o,
            s == 8 * c,
            line - s == (if ds > 0 {
                7 * c
            } else {
                -7 * c
            }),
            sc == (if ds > 0 {
                raw
            } else {
                -raw
            }),
            a == (if ds < 0 {
                -ds
            } else {
                ds
            }),
    ;
    assert(0 <= sc < 16 * c * a) by (nonlinear_arith)
        requires
            sc == 8 * c * a + 7 * c * d_o,
            -8 * a <= 7 * d_o < 8 * a,
            c > 0,
    ;
    let oc = sc / a;
    vstd::arithmetic::div_mod::lemma_fundamental_div_mod(sc, a);
    vstd::arithmetic::div_mod::lemma_mod_pos_bound(sc, a);
    assert(0 <= oc < 16 * c) by (nonlinear_arith)
        requires
            0 <= sc < 16 * c * a,
            a > 0,
            oc == sc / a,
            a * (sc / a) + sc % a == sc,
            0 <= sc % a < a,
    ;
    assert(oc == other_coord(s, s, ds, d_o, k));
    let oi = oc / c;
    vstd::arithmetic::div_mod::lemma_fundamental_div_mod(oc, c);
    vstd::arithmetic::div_mod::lemma_mod_pos_bound(oc, c);
    assert(0 <= oi < 16) by (nonlinear_arith)
        requires
            0 <= oc < 16 * c,
            c > 0,
            oi == oc / c,
            c * (oc / c) + oc % c == oc,
            0 <= oc % c < c,
    ;
    assert(grid@[oi][step_cell(s, ds, k)] == Cell::Wall);
    assert(grid@[step_cell(s, ds, k)][oi] == Cell::Wall);
    assert(wall_crossing(grid, axis, s, s, ds, d_o, k));
    lemma_first_wall_props(grid, axis, s, s, ds, d_o, 0);
}

/// From the centre of a walled 16 by 16 map, every ray with a y component meets the border
/// within the sweeps' reach: the sweep across horizontal lines finds it unless the ray is
/// shallow, and then the sweep across vertical lines does.
pub proof fn lemma_centre_of_walled_square_sees_walls(grid: &Grid, dx: int, dy: int)
    requires
        is_walled_square(grid, 16),
        -UNIT <= dx <= UNIT,
        -UNIT <= dy <= UNIT,
        dy != 0,
    ensures
        ray_hits(grid, 8 * CELL_SIZE, 8 * CELL_SIZE, dx, dy),
{
    if -8 * abs(dy) <= 7 * dx < 8 * abs(dy) {
        lemma_centre_sweep_hits(grid, Axis::Horizontal, dy, dx);
    } else {
        lemma_centre_sweep_hits(grid, Axis::Vertical, dx, dy);
    }
}

/// From the centre of a walled 16 by 16 map, facing any angle that is a multiple of 4, every
/// column of a view (rays 2 or 4 units apart) reports a wall: a distance short of `FAR`.
pub proof fn lemma_centred_view_sees_walls(
    grid: &Grid,
    table: &TrigTable,
    p: Player,
    i: int,
    spacing: int,
    s: RaySample,
)
    requires
        is_walled_square(grid, 16),
        table.wf(),
        p.x == 8 * CELL_SIZE,
        p.y == 8 * CELL_SIZE,
        p.angle < TURN,
        p.angle % 4 == 0,
        spacing == 2 || spacing == 4,
        0 <= i,
        sample_matches(grid, table, p, ray_angle(p.angle as int, i, spacing), s),
    ensures
        s.hit.distance < FAR,
{
    let ray = ray_angle(p.angle as int, i, spacing);
    lemma_view_rays_not_level(table, p.angle as int, i, spacing);
    assert(0 <= ray < TURN);
    assert(ray % (TURN as int) == ray);
    assert((ray + QUARTER) % (TURN as int) < TURN);
    lemma_centre_of_walled_square_sees_walls(
        grid,
        table.cos_spec(ray) as int,
        table.sin_spec(ray) as int,
    );
}

} // verus!
