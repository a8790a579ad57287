use vstd::prelude::*;

use crate::grid::{Grid, CELL_SIZE};
use crate::pose::Player;
use crate::raycast::{
    cast_rays, lemma_view_rays_not_level, ray_angle, sample_matches, RaySample, FOV, MAX_COLUMNS,
};
use crate::trig::TrigTable;

verus! {

/// Width of the window, in pixels.
pub const WINDOW_WIDTH: i64 = 2048;

/// Height of the window, in pixels.
pub const WINDOW_HEIGHT: i64 = 1024;

/// Largest width or height, in pixels, that a view may have.
pub const MAX_VIEW: i64 = 1048576;

/// The two display modes, chosen once at start.
#[derive(Clone, Copy, Debug, PartialEq, Eq, Structural)]
pub enum GameState {
    /// The map, the player and the rays on the left half, the 3D view on the right half.
    Debug,
    /// The 3D view over the whole window.
    Normal,
}

/// A rectangle of the window that the 3D view fills.
#[derive(Clone, Copy, Debug, PartialEq, Eq, Structural)]
pub struct Viewport {
    pub left: i64,
    pub width: i64,
    pub height: i64,
}

/// One column of the 3D view: the ray behind it, and where its wall band lies. The ceiling
/// band runs from the top to `wall_top`, the floor band from the wall band's bottom to
/// the view's bottom.
#[derive(Clone, Copy, Debug, PartialEq, Eq, Structural)]
pub struct Strip {
    pub sample: RaySample,
    pub left: i64,
    pub width: i64,
    pub wall_top: i64,
    pub wall_height: i64,
}

pub open spec fn view_ok(v: Viewport) -> bool {
    0 <= v.left <= MAX_VIEW && 0 <= v.width <= MAX_VIEW && 0 <= v.height <= MAX_VIEW
}

/// Height of a wall band for a distance: a cell's size scaled to the view height over the
/// distance, never taller than the view.
pub open spec fn strip_height_spec(distance: int, view_height: int) -> int {
    if distance <= 0 {
        view_height
    } else if CELL_SIZE * view_height / distance < view_height {
        CELL_SIZE * view_height / distance
    } else {
        view_height
    }
}

/// Where the `i`-th of `columns` strips lies in a view.
pub open spec fn strip_placed(i: int, columns: int, v: Viewport, s: Strip) -> bool {
    &&& s.width == (v.width as int) / columns
    &&& s.left == v.left + i * s.width
    &&& s.wall_height == strip_height_spec(s.sample.corrected as int, v.height as int)
    &&& s.wall_top == v.height / 2 - s.wall_height / 2
}

/// Rays cast per view in a mode.
pub open spec fn columns_of(state: GameState) -> int {
    match state {
        GameState::Normal => (FOV / 2) as int,
        GameState::Debug => (FOV / 4) as int,
    }
}

/// Angle units between neighbouring rays in a mode.
pub open spec fn spacing_of(state: GameState) -> int {
    match state {
        GameState::Normal => 2,
        GameState::Debug => 4,
    }
}

/// The part of the window that the 3D view fills in a mode.
pub open spec fn viewport_of(state: GameState) -> Viewport {
    match state {
        GameState::Normal => Viewport { left: 0, width: WINDOW_WIDTH, height: WINDOW_HEIGHT },
        GameState::Debug => Viewport {
            left: 1024,
            width: 1024,
            height: WINDOW_HEIGHT,
        },
    }
}

/// Height of the wall band for a corrected distance, clamped to the view height.
pub fn strip_height(distance: i64, view_height: i64) -> (r: i64)
    requires
        0 <= view_height <= MAX_VIEW,
    ensures
        r == strip_height_spec(distance as int, view_height as int),
        0 <= r <= view_height,
{
    if distance <= 0 {
        return view_height;
    }
    assert(0 <= CELL_SIZE * view_height <= CELL_SIZE * MAX_VIEW) by (nonlinear_arith)
        requires
            0 <= view_height <= MAX_VIEW,
            CELL_SIZE > 0,
    ;
    let h = CELL_SIZE * view_height / distance;
    if h < view_height {
        h
    } else {
        view_height
    }
}

/// Lays out the `i`-th of `columns` strips of a view for a ray.
pub fn layout_strip(i: usize, columns: usize, view: Viewport, sample: RaySample) -> (s: Strip)
    requires
        i < columns <= MAX_COLUMNS,
        view_ok(view),
    ensures
        s.sample == sample,
        strip_placed(i as int, columns as int, view, s),
{
    let cols = columns as i64;
    let width = view.width / cols;
    assert(0 <= width <= view.width) by (nonlinear_arith)
        requires
            width == (view.width as int) / (cols as int),
            0 <= view.width,
            cols >= 1,
    ;
    assert(0 <= i * width <= columns * width <= view.width) by (nonlinear_arith)
        requires
            i < columns,
            0 <= width,
            width == (view.width as int) / (cols as int),
            cols == columns,
            0 <= view.width,
            columns > 0,
    ;
    let wall_height = strip_height(sample.corrected, view.height);
    Strip {
        sample,
        left: view.left + i as i64 * width,
        width,
        wall_top: view.height / 2 - wall_height / 2,
        wall_height,
    }
}

/// The wall band grows no taller as the distance grows, and is never taller than the view.
pub proof fn lemma_strip_height_monotone(d1: int, d2: int, view_height: int)
    requires
        0 <= view_height,
        d1 <= d2,
    ensures
        strip_height_spec(d2, view_height) <= strip_height_spec(d1, view_height),
        strip_height_spec(d1, view_height) <= view_height,
        strip_height_spec(d2, view_height) <= view_height,
{
    if d1 > 0 {
        assert(0 <= CELL_SIZE * view_height) by (nonlinear_arith)
            requires
                0 <= view_height,
                CELL_SIZE > 0,
        ;
        vstd::arithmetic::div_mod::lemma_div_is_ordered_by_denominator(
            CELL_SIZE * view_height,
            d1,
            d2,
        );
    }
}

impl Player {
    /// Casts the rays of the 3D view for the mode (the debug mode, `should_draw_rays`, casts
    /// half as many, twice as far apart, into the right half of the window) and lays out one
    /// strip per ray.
    pub fn draw_rays_3d(&self, map: &Grid, table: &TrigTable, should_draw_rays: bool) -> (r: Vec<
        Strip,
    >)
        requires
            map.wf(),
            table.wf(),
            self.wf(map),
        ensures
            ({
                let state = if should_draw_rays {
                    GameState::Debug
                } else {
                    GameState::Normal
                };
                &&& r@.len() == columns_of(state)
                &&& forall|i: int|
                    0 <= i < r@.len() ==> {
                        &&& sample_matches(
                            map,
                            table,
                            *self,
                            ray_angle(self.angle as int, i, spacing_of(state)),
                            (#[trigger] r@[i]).sample,
                        )
                        &&& strip_placed(i, columns_of(state), viewport_of(state), r@[i])
                        &&& (self.angle % 4 == 0 ==> table.sin_spec(r@[i].sample.angle as int)
                            != 0)
                    }
            }),
    {
        let (columns, spacing, view): (usize, u32, Viewport) = if should_draw_rays {
            (
                (FOV / 4) as usize,
                4,
                Viewport { left: WINDOW_WIDTH / 2, width: WINDOW_WIDTH / 2, height: WINDOW_HEIGHT },
            )
        } else {
            ((FOV / 2) as usize, 2, Viewport { left: 0, width: WINDOW_WIDTH, height: WINDOW_HEIGHT })
        };
        let samples = cast_rays(map, table, self, columns, spacing);
        let mut out: Vec<Strip> = Vec::new();
        let mut i: usize = 0;
        while i < columns
            invariant
                samples@.len() == columns,
                columns <= MAX_COLUMNS,
                view_ok(view),
                i <= columns,
                out@.len() == i,
                forall|j: int| 0 <= j < i ==> (#[trigger] out@[j]).sample == samples@[j],
                forall|j: int| 0 <= j < i ==> strip_placed(j, columns as int, view, #[trigger] out@[j]),
            decreases columns - i,
        {
            out.push(layout_strip(i, columns, view, samples[i]));
            i += 1;
        }
        proof {
            assert forall|j: int| 0 <= j < columns && self.angle % 4 == 0 implies table.sin_spec(
                #[trigger] ray_angle(self.angle as int, j, spacing as int),
            ) != 0 by {
                lemma_view_rays_not_level(table, self.angle as int, j, spacing as int);
            }
        }
        out
    }
}

} // verus!
