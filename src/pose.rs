use vstd::prelude::*;

use crate::grid::{cell_index, Grid, CELL_SIZE};
use crate::trig::{TrigTable, TURN};
use crate::UNIT;

verus! {

/// Angle units turned in one frame (about 0.03 radians). A multiple of 4, so that a facing
/// angle that starts on a multiple of 4 stays on one.
pub const ROTATE_STEP: u32 = 80;

/// How far ahead of the player, in sub-units, a move probes the map (10 world units).
pub const LOOKAHEAD: i64 = 163840;

/// A turn to one side.
#[derive(Clone, Copy, Debug, PartialEq, Eq, Structural)]
pub enum Rotation {
    Left,
    Right,
}

/// A step along the facing direction.
#[derive(Clone, Copy, Debug, PartialEq, Eq, Structural)]
pub enum Motion {
    Forward,
    Backward,
}

/// The four controls held down during one frame.
#[derive(Clone, Copy, Debug, PartialEq, Eq, Structural)]
pub struct Controls {
    pub turn_left: bool,
    pub turn_right: bool,
    pub forward: bool,
    pub backward: bool,
}

/// Position in sub-units, facing angle in angle units, and the direction vector
/// `(cos, sin)` of that angle in fixed point.
#[derive(Clone, Copy, Debug, PartialEq, Eq, Structural)]
pub struct Player {
    pub x: i64,
    pub y: i64,
    pub angle: u32,
    pub dx: i64,
    pub dy: i64,
}

/// The angle after one frame's turn, kept within `[0, TURN)`.
pub open spec fn rotated_angle(a: int, r: Rotation) -> int {
    match r {
        Rotation::Right => (a + ROTATE_STEP) % (TURN as int),
        Rotation::Left => (a + TURN - ROTATE_STEP) % (TURN as int),
    }
}

/// The rotation that the controls ask for, if exactly one turn control is held.
pub open spec fn rotation_of(c: Controls) -> Option<Rotation> {
    if c.turn_right && !c.turn_left {
        Some(Rotation::Right)
    } else if c.turn_left && !c.turn_right {
        Some(Rotation::Left)
    } else {
        None
    }
}

/// The motion that the controls ask for, if exactly one move control is held.
pub open spec fn motion_of(c: Controls) -> Option<Motion> {
    if c.backward && !c.forward {
        Some(Motion::Backward)
    } else if c.forward && !c.backward {
        Some(Motion::Forward)
    } else {
        None
    }
}

pub open spec fn motion_sign(m: Motion) -> int {
    match m {
        Motion::Forward => 1,
        Motion::Backward => -1,
    }
}

/// The probe offset along one axis: toward the side that the direction component points to.
pub open spec fn probe_offset(d: int) -> int {
    if d < 0 {
        -LOOKAHEAD
    } else {
        LOOKAHEAD as int
    }
}

impl Player {
    /// Inside the map, facing a valid angle, with a direction vector of fixed-point components.
    pub open spec fn wf(&self, grid: &Grid) -> bool {
        &&& 0 <= self.x < grid@.len() * CELL_SIZE
        &&& 0 <= self.y < grid@.len() * CELL_SIZE
        &&& self.angle < TURN
        &&& -UNIT <= self.dx <= UNIT
        &&& -UNIT <= self.dy <= UNIT
    }

    /// The direction vector is the table's cosine and sine of the facing angle.
    pub open spec fn heading_matches(&self, table: &TrigTable) -> bool {
        self.dx == table.cos_spec(self.angle as int) && self.dy == table.sin_spec(
            self.angle as int,
        )
    }

    /// The player after turning.
    pub open spec fn rotated(self, table: &TrigTable, r: Rotation) -> Player {
        let a = rotated_angle(self.angle as int, r);
        Player {
            angle: a as u32,
            dx: table.cos_spec(a),
            dy: table.sin_spec(a),
            ..self
        }
    }

    /// The player after one step, one axis at a time: x moves by its direction component only
    /// where the probe ahead along x, at the current y, is an empty cell; then y moves likewise
    /// where the probe ahead along y, at the x just reached, is an empty cell.
    pub open spec fn advanced(self, grid: &Grid, m: Motion) -> Player {
        let s = motion_sign(m);
        let nx = if grid.open_point(self.x + s * probe_offset(self.dx as int), self.y as int) {
            self.x + s * self.dx
        } else {
            self.x as int
        };
        let ny = if grid.open_point(nx, self.y + s * probe_offset(self.dy as int)) {
            self.y + s * self.dy
        } else {
            self.y as int
        };
        Player { x: nx as i64, y: ny as i64, ..self }
    }

    /// The player after one frame of the given controls: first the turn, then the step.
    pub open spec fn updated(self, grid: &Grid, table: &TrigTable, c: Controls) -> Player {
        let turned = match rotation_of(c) {
            Some(r) => self.rotated(table, r),
            None => self,
        };
        match motion_of(c) {
            Some(m) => turned.advanced(grid, m),
            None => turned,
        }
    }

    /// The starting pose: at (104, 304) world units, facing angle 0.
    pub fn new() -> (p: Player)
        ensures
            p.x == 104 * UNIT,
            p.y == 304 * UNIT,
            p.angle == 0,
            p.dx == UNIT,
            p.dy == 0,
    {
        Player { x: 104 * UNIT, y: 304 * UNIT, angle: 0, dx: UNIT, dy: 0 }
    }

    /// Turns by one frame's step and takes the direction vector from the table.
    pub fn rotate(&mut self, table: &TrigTable, r: Rotation)
        requires
            table.wf(),
            old(self).angle < TURN,
        ensures
            *final(self) == old(self).rotated(table, r),
            final(self).angle < TURN,
            final(self).heading_matches(table),
            old(self).angle % 4 == 0 ==> final(self).angle % 4 == 0,
    {
        let a = match r {
            Rotation::Right => (self.angle + ROTATE_STEP) % TURN,
            Rotation::Left => (self.angle + TURN - ROTATE_STEP) % TURN,
        };
        self.angle = a;
        self.dx = table.cos(a);
        self.dy = table.sin(a);
    }

    /// Takes one step, each axis checked against the map on its own.
    pub fn advance(&mut self, grid: &Grid, m: Motion)
        requires
            grid.wf(),
            old(self).wf(grid),
        ensures
            *final(self) == old(self).advanced(grid, m),
            final(self).wf(grid),
    {
        let xo: i64 = if self.dx < 0 {
            -LOOKAHEAD
        } else {
            LOOKAHEAD
        };
        let yo: i64 = if self.dy < 0 {
            -LOOKAHEAD
        } else {
            LOOKAHEAD
        };
        let x = self.x;
        let y = self.y;
        match m {
            Motion::Forward => {
                if grid.is_open_point(x + xo, y) {
                    self.x = x + self.dx;
                }
                if grid.is_open_point(self.x, y + yo) {
                    self.y = y + self.dy;
                }
            },
            Motion::Backward => {
                if grid.is_open_point(x - xo, y) {
                    self.x = x - self.dx;
                }
                if grid.is_open_point(self.x, y - yo) {
                    self.y = y - self.dy;
                }
            },
        }
    }

    /// One frame of movement: the turn asked for by the controls, then the step.
    pub fn update(&mut self, map: &Grid, table: &TrigTable, controls: Controls)
        requires
            map.wf(),
            table.wf(),
            old(self).wf(map),
        ensures
            *final(self) == old(self).updated(map, table, controls),
            final(self).wf(map),
            old(self).angle % 4 == 0 ==> final(self).angle % 4 == 0,
            map.open_point(old(self).x as int, old(self).y as int) ==> map.open_point(
                final(self).x as int,
                final(self).y as int,
            ),
    {
        if controls.turn_right && !controls.turn_left {
            self.rotate(table, Rotation::Right);
        } else if controls.turn_left && !controls.turn_right {
            self.rotate(table, Rotation::Left);
        }
        if controls.backward && !controls.forward {
            proof {
                if map.open_point(self.x as int, self.y as int) {
                    lemma_step_stays_open(*self, map, Motion::Backward);
                }
            }
            self.advance(map, Motion::Backward);
        } else if controls.forward && !controls.backward {
            proof {
                if map.open_point(self.x as int, self.y as int) {
                    lemma_step_stays_open(*self, map, Motion::Forward);
                }
            }
            self.advance(map, Motion::Forward);
        }
    }
}

/// A point between two nonnegative points less than a cell apart lies in the cell of one of them.
proof fn lemma_between_cells(a: int, b: int, m: int)
    requires
        0 <= a,
        0 <= b,
        a <= m <= b || b <= m <= a,
        -LOOKAHEAD <= b - a <= LOOKAHEAD,
    ensures
        cell_index(m) == cell_index(a) || cell_index(m) == cell_index(b),
{
    let c = CELL_SIZE as int;
    assert(c * (a / c) + a % c == a && 0 <= a % c < c);
    assert(c * (b / c) + b % c == b && 0 <= b % c < c);
    assert(c * (m / c) + m % c == m && 0 <= m % c < c);
}

/// A step never carries a player from an empty cell into a wall.
pub proof fn lemma_step_stays_open(p: Player, grid: &Grid, m: Motion)
    requires
        grid.wf(),
        p.wf(grid),
        grid.open_point(p.x as int, p.y as int),
    ensures
        ({
            let q = p.advanced(grid, m);
            grid.open_point(q.x as int, q.y as int)
        }),
{
    let q = p.advanced(grid, m);
    let s = motion_sign(m);
    let px = p.x + s * probe_offset(p.dx as int);
    let py = p.y + s * probe_offset(p.dy as int);
    if q.x != p.x {
        lemma_between_cells(p.x as int, px, q.x as int);
    }
    if q.y != p.y {
        lemma_between_cells(p.y as int, py, q.y as int);
    }
    assert(grid.open_point(q.x as int, p.y as int));
}

/// The player after `n` forward steps.
pub open spec fn forward_steps(p: Player, grid: &Grid, n: nat) -> Player
    decreases n,
{
    if n == 0 {
        p
    } else {
        forward_steps(p, grid, (n - 1) as nat).advanced(grid, Motion::Forward)
    }
}

/// A player facing along increasing x, short of a wall in its own row at column `k`, never
/// reaches that wall however many steps forward it takes: it stays in its row, never moves
/// back, and stops once the probe ahead meets the wall, at most one step past `LOOKAHEAD`
/// before the wall's face.
pub proof fn lemma_forward_steps_stop_at_wall(p: Player, grid: &Grid, k: int, n: nat)
    requires
        grid.wf(),
        p.dy == 0,
        0 < p.dx <= UNIT,
        0 <= p.x < k * CELL_SIZE,
        0 <= p.y,
        grid.wall_at(k, cell_index(p.y as int)),
    ensures
        ({
            let q = forward_steps(p, grid, n);
            &&& q.y == p.y
            &&& q.dx == p.dx
            &&& q.dy == 0
            &&& p.x <= q.x < k * CELL_SIZE
            &&& q.x <= p.x || q.x <= k * CELL_SIZE - LOOKAHEAD + UNIT
        }),
    decreases n,
{
    if n > 0 {
        lemma_forward_steps_stop_at_wall(p, grid, k, (n - 1) as nat);
        let q = forward_steps(p, grid, (n - 1) as nat);
        let c = CELL_SIZE as int;
        let probe = q.x + LOOKAHEAD;
        if grid.open_point(probe, q.y as int) {
            let qx = q.x as int;
            let cq = qx / c;
            let cp = probe / c;
            vstd::arithmetic::div_mod::lemma_fundamental_div_mod(qx, c);
            vstd::arithmetic::div_mod::lemma_mod_pos_bound(qx, c);
            vstd::arithmetic::div_mod::lemma_fundamental_div_mod(probe, c);
            vstd::arithmetic::div_mod::lemma_mod_pos_bound(probe, c);
            assert(cq < k) by (nonlinear_arith)
                requires
                    qx < k * c,
                    qx == c * cq + qx % c,
                    0 <= qx % c,
                    c > 0,
            ;
            assert(cp <= cq + 1) by (nonlinear_arith)
                requires
                    probe == qx + LOOKAHEAD,
                    LOOKAHEAD < c,
                    qx == c * cq + qx % c,
                    qx % c < c,
                    probe == c * cp + probe % c,
                    0 <= probe % c,
                    c > 0,
            ;
            assert(cp != k);
            assert(probe < k * c) by (nonlinear_arith)
                requires
                    cp < k,
                    probe == c * cp + probe % c,
                    probe % c < c,
                    c > 0,
            ;
        }
    }
}

} // verus!
