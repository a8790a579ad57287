use raycaster::grid::{Cell, Grid, World, CELL_SIZE};
use raycaster::pose::{Controls, Motion, Player, Rotation, ROTATE_STEP};
use raycaster::raycast::{
    cast_ray, cast_rays, correct_fisheye, floor_sqrt, sweep, Axis, Face, FAR, FOV,
};
use raycaster::render::{layout_strip, strip_height, Viewport};
use raycaster::trig::{TrigTable, QUARTER, TURN};
use raycaster::UNIT;

fn quarter_sines() -> Vec<i64> {
    (0..=QUARTER)
        .map(|a| {
            let theta = (a as f64) * std::f64::consts::FRAC_PI_2 / (QUARTER as f64);
            (theta.sin() * UNIT as f64).round() as i64
        })
        .collect()
}

fn table() -> TrigTable {
    TrigTable::from_quarter(&quarter_sines()).unwrap()
}

fn at(x: i64, y: i64, angle: u32, t: &TrigTable) -> Player {
    Player { x, y, angle, dx: t.cos(angle), dy: t.sin(angle) }
}

fn cell_of_point(g: &Grid, x: i64, y: i64) -> Option<Cell> {
    g.cell_at(x / CELL_SIZE, y / CELL_SIZE)
}

#[test]
fn walled_grid_has_border_and_open_inside() {
    let g = Grid::walled(16);
    assert_eq!(g.size(), 16);
    assert_eq!(g.cell_at(0, 5), Some(Cell::Wall));
    assert_eq!(g.cell_at(15, 15), Some(Cell::Wall));
    assert_eq!(g.cell_at(7, 0), Some(Cell::Wall));
    assert_eq!(g.cell_at(1, 1), Some(Cell::Empty));
    assert_eq!(g.cell_at(8, 8), Some(Cell::Empty));
}

#[test]
fn cell_lookup_out_of_bounds_is_none() {
    let g = Grid::walled(16);
    assert_eq!(g.cell_at(-1, 3), None);
    assert_eq!(g.cell_at(3, -1), None);
    assert_eq!(g.cell_at(16, 3), None);
    assert_eq!(g.cell_at(3, 16), None);
}

#[test]
fn rows_are_read_as_cells() {
    let rows = vec![vec![1, 1, 1], vec![1, 0, 1], vec![1, 1, 0]];
    let g = Grid::from_rows(&rows).unwrap();
    assert_eq!(g.size(), 3);
    assert_eq!(g.cell_at(1, 1), Some(Cell::Empty));
    assert_eq!(g.cell_at(2, 2), Some(Cell::Empty));
    assert_eq!(g.cell_at(2, 1), Some(Cell::Wall));
}

#[test]
fn rows_that_are_not_square_or_hold_other_values_are_refused() {
    assert!(Grid::from_rows(&vec![vec![1, 1], vec![1]]).is_none());
    assert!(Grid::from_rows(&vec![vec![0, 2], vec![1, 0]]).is_none());
    assert!(Grid::from_rows(&vec![vec![0; 257]; 257]).is_none());
    assert_eq!(Grid::from_rows(&vec![]).unwrap().size(), 0);
}

#[test]
fn starting_world_holds_the_room() {
    let w = World::new();
    assert_eq!(w.map.size(), 16);
    assert_eq!(w.map.cell_at(4, 4), Some(Cell::Wall));
    assert_eq!(w.map.cell_at(4, 7), Some(Cell::Wall));
    assert_eq!(w.map.cell_at(8, 5), Some(Cell::Wall));
    assert_eq!(w.map.cell_at(8, 6), Some(Cell::Empty));
    assert_eq!(w.map.cell_at(5, 5), Some(Cell::Empty));
    assert_eq!(w.map.cell_at(9, 4), Some(Cell::Empty));
    assert_eq!(w.map.cell_at(0, 9), Some(Cell::Wall));
}

#[test]
fn trig_table_from_quarter() {
    let t = table();
    assert_eq!(t.sin(0), 0);
    assert_eq!(t.cos(0), UNIT);
    assert_eq!(t.sin(QUARTER), UNIT);
    assert_eq!(t.cos(QUARTER), 0);
    assert_eq!(t.sin(2 * QUARTER), 0);
    assert_eq!(t.cos(2 * QUARTER), -UNIT);
    assert_eq!(t.sin(3 * QUARTER), -UNIT);
    assert_eq!(t.sin(QUARTER / 2), 11585);
    assert_eq!(t.sin(TURN - QUARTER / 2), -11585);
    assert_eq!(t.cos(QUARTER / 2), 11585);
    assert_eq!(t.sin(1), 6);
}

#[test]
fn trig_table_refuses_bad_quarters() {
    let mut q = quarter_sines();
    q.pop();
    assert!(TrigTable::from_quarter(&q).is_none());
    let mut q = quarter_sines();
    q[10] = -1;
    assert!(TrigTable::from_quarter(&q).is_none());
    let mut q = quarter_sines();
    q[10] = 0;
    assert!(TrigTable::from_quarter(&q).is_none());
    let mut q = quarter_sines();
    q[QUARTER as usize] = UNIT - 1;
    assert!(TrigTable::from_quarter(&q).is_none());
}

#[test]
fn new_player_faces_angle_zero() {
    let p = Player::new();
    assert_eq!((p.x, p.y), (104 * UNIT, 304 * UNIT));
    assert_eq!((p.angle, p.dx, p.dy), (0, UNIT, 0));
}

#[test]
fn rotation_wraps_into_one_turn() {
    let t = table();
    let mut p = Player::new();
    p.rotate(&t, Rotation::Left);
    assert_eq!(p.angle, TURN - ROTATE_STEP);
    assert_eq!(p.dx, t.cos(TURN - ROTATE_STEP));
    assert_eq!(p.dy, t.sin(TURN - ROTATE_STEP));
    p.rotate(&t, Rotation::Right);
    assert_eq!(p.angle, 0);
    assert_eq!((p.dx, p.dy), (UNIT, 0));
    let mut q = at(0, 0, TURN - 10, &t);
    q.rotate(&t, Rotation::Right);
    assert_eq!(q.angle, ROTATE_STEP - 10);
}

#[test]
fn rotation_stays_in_range_for_every_angle() {
    let t = table();
    for a in 0..TURN {
        for r in [Rotation::Left, Rotation::Right] {
            let mut p = at(0, 0, a, &t);
            p.rotate(&t, r);
            assert!(p.angle < TURN);
        }
    }
}

#[test]
fn step_forward_and_back_in_open_space() {
    let t = table();
    let g = Grid::walled(16);
    let mut p = at(8 * CELL_SIZE, 8 * CELL_SIZE, QUARTER / 2, &t);
    p.advance(&g, Motion::Forward);
    assert_eq!((p.x, p.y), (8 * CELL_SIZE + 11585, 8 * CELL_SIZE + 11585));
    p.advance(&g, Motion::Backward);
    assert_eq!((p.x, p.y), (8 * CELL_SIZE, 8 * CELL_SIZE));
}

#[test]
fn step_into_wall_reaches_a_fixed_point() {
    let t = table();
    let g = Grid::walled(16);
    let start_x = 15 * CELL_SIZE - UNIT;
    let mut p = at(start_x, 8 * CELL_SIZE + CELL_SIZE / 2, 0, &t);
    for _ in 0..100 {
        p.advance(&g, Motion::Forward);
        assert_eq!(p.x, start_x);
        assert_eq!(p.y, 8 * CELL_SIZE + CELL_SIZE / 2);
    }
    let mut q = at(15 * CELL_SIZE - 30 * UNIT, 8 * CELL_SIZE, 0, &t);
    for _ in 0..100 {
        q.advance(&g, Motion::Forward);
        assert_eq!(cell_of_point(&g, q.x, q.y), Some(Cell::Empty));
    }
    let stopped = q.x;
    q.advance(&g, Motion::Forward);
    assert_eq!(q.x, stopped);
    assert!(stopped < 15 * CELL_SIZE - 10 * UNIT + UNIT);
}

#[test]
fn diagonal_step_slides_along_a_wall() {
    let t = table();
    let g = Grid::walled(16);
    let y0 = 15 * CELL_SIZE - 5 * UNIT;
    let mut p = at(8 * CELL_SIZE, y0, QUARTER / 2, &t);
    p.advance(&g, Motion::Forward);
    assert_eq!(p.x, 8 * CELL_SIZE + 11585);
    assert_eq!(p.y, y0);
}

#[test]
fn steps_from_open_cells_stay_open() {
    let t = table();
    let w = World::new();
    for cx in 1..15i64 {
        for cy in 1..15i64 {
            for (ox, oy) in [(UNIT, UNIT), (CELL_SIZE / 2, CELL_SIZE / 2), (CELL_SIZE - UNIT, 3 * UNIT)] {
                let x = cx * CELL_SIZE + ox;
                let y = cy * CELL_SIZE + oy;
                if cell_of_point(&w.map, x, y) != Some(Cell::Empty) {
                    continue;
                }
                for a in (0..TURN).step_by(256) {
                    for m in [Motion::Forward, Motion::Backward] {
                        let mut p = at(x, y, a, &t);
                        p.advance(&w.map, m);
                        assert_eq!(cell_of_point(&w.map, p.x, p.y), Some(Cell::Empty));
                    }
                }
            }
        }
    }
}

#[test]
fn diagonal_step_at_a_corner_does_not_enter_the_wall() {
    let t = table();
    let w = World::new();
    let (x, y) = (9 * CELL_SIZE + 100, 6 * CELL_SIZE + 100);
    let mut p = at(x, y, 5 * QUARTER / 2, &t);
    assert_eq!((p.dx, p.dy), (-11585, -11585));
    p.advance(&w.map, Motion::Forward);
    assert_eq!((p.x, p.y), (x - 11585, y));
    assert_eq!(cell_of_point(&w.map, p.x, p.y), Some(Cell::Empty));
    assert_eq!((p.x / CELL_SIZE, p.y / CELL_SIZE), (8, 6));
}

#[test]
fn update_turns_then_steps() {
    let t = table();
    let w = World::new();
    let mut p = Player::new();
    let c = Controls { turn_left: false, turn_right: true, forward: true, backward: false };
    p.update(&w.map, &t, c);
    assert_eq!(p.angle, ROTATE_STEP);
    assert_eq!(p.x, 104 * UNIT + t.cos(ROTATE_STEP));
    assert_eq!(p.y, 304 * UNIT + t.sin(ROTATE_STEP));
    let both = Controls { turn_left: true, turn_right: true, forward: true, backward: true };
    let before = p;
    p.update(&w.map, &t, both);
    assert_eq!(p, before);
}

#[test]
fn straight_ray_hits_wall_at_grid_distance() {
    let g = Grid::walled(16);
    let down = cast_ray(&g, 3 * CELL_SIZE, 5 * CELL_SIZE, 0, UNIT);
    assert_eq!(down.distance, 10 * CELL_SIZE);
    assert_eq!(down.face, Face::Horizontal);
    assert_eq!((down.hit_x, down.hit_y), (3 * CELL_SIZE, 15 * CELL_SIZE));
    let up = cast_ray(&g, 3 * CELL_SIZE + 99, 5 * CELL_SIZE + 10, 0, -UNIT);
    assert_eq!(up.distance, 4 * CELL_SIZE + 10);
    assert_eq!(up.face, Face::Horizontal);
    assert_eq!((up.hit_x, up.hit_y), (3 * CELL_SIZE + 99, CELL_SIZE));
}

#[test]
fn ray_at_angle_zero_reports_the_far_sentinel() {
    let t = table();
    let g = Grid::walled(16);
    let (px, py) = (5 * CELL_SIZE + 1234, 6 * CELL_SIZE + 777);
    let (dx, dy) = (t.cos(0), t.sin(0));
    assert_eq!(dy, 0);
    assert_eq!(sweep(&g, Axis::Horizontal, py, px, dy, dx), None);
    let hit = cast_ray(&g, px, py, dx, dy);
    assert_eq!(hit.distance, FAR);
    assert_eq!(hit.face, Face::Neither);
    assert_eq!((hit.hit_x, hit.hit_y), (px, py));
    let back = cast_ray(&g, px, py, t.cos(TURN / 2), t.sin(TURN / 2));
    assert_eq!(back.distance, FAR);
    assert_eq!(back.face, Face::Neither);
}

#[test]
fn view_columns_never_lie_at_angle_zero() {
    let t = table();
    let g = Grid::walled(16);
    let p = at(5 * CELL_SIZE + 1234, 6 * CELL_SIZE + 777, 0, &t);
    let samples = cast_rays(&g, &t, &p, (FOV / 2) as usize, 2);
    assert_eq!(samples[1023].angle, TURN - 1);
    assert_eq!(samples[1024].angle, 1);
    for s in &samples {
        assert!(s.angle != 0 && s.angle != TURN / 2);
        assert!(s.hit.distance < FAR);
    }
}

#[test]
fn ray_meeting_no_wall_reports_far() {
    let g = Grid::from_rows(&vec![vec![0; 4]; 4]).unwrap();
    let hit = cast_ray(&g, CELL_SIZE, CELL_SIZE, 11585, 11585);
    assert_eq!(hit.distance, FAR);
    assert_eq!(hit.face, Face::Neither);
    assert_eq!((hit.hit_x, hit.hit_y), (CELL_SIZE, CELL_SIZE));
}

#[test]
fn equal_sweep_distances_mark_neither_face() {
    let g = Grid::walled(3);
    let c = CELL_SIZE + CELL_SIZE / 2;
    let hit = cast_ray(&g, c, c, 11585, 11585);
    assert_eq!(hit.face, Face::Neither);
    assert_eq!((hit.hit_x, hit.hit_y), (2 * CELL_SIZE, 2 * CELL_SIZE));
    assert_eq!(hit.distance, 741455);
}

#[test]
fn sweep_reports_first_wall_line() {
    let g = Grid::walled(4);
    let c = sweep(&g, Axis::Vertical, CELL_SIZE + 10, CELL_SIZE + 10, UNIT, 0).unwrap();
    assert_eq!(c.steps, 1);
    assert_eq!((c.x, c.y), (3 * CELL_SIZE, CELL_SIZE + 10));
    let up = sweep(&g, Axis::Horizontal, CELL_SIZE + 10, CELL_SIZE + 10, -UNIT, 0).unwrap();
    assert_eq!(up.steps, 0);
    assert_eq!((up.x, up.y), (CELL_SIZE + 10, CELL_SIZE));
}

#[test]
fn floor_sqrt_rounds_down() {
    assert_eq!(floor_sqrt(0), 0);
    assert_eq!(floor_sqrt(15), 3);
    assert_eq!(floor_sqrt(16), 4);
    assert_eq!(floor_sqrt(1 << 62), 1 << 31);
    assert_eq!(floor_sqrt(u64::MAX), (1 << 32) - 1);
}

#[test]
fn fisheye_scales_by_absolute_cosine() {
    assert_eq!(correct_fisheye(1000, UNIT), 1000);
    assert_eq!(correct_fisheye(1000, -UNIT), 1000);
    assert_eq!(correct_fisheye(1000, UNIT / 2), 500);
    assert_eq!(correct_fisheye(1000, 0), 0);
}

#[test]
fn aligned_ray_is_not_corrected() {
    let t = table();
    let w = World::new();
    let p = at(104 * UNIT, 304 * UNIT, QUARTER / 2, &t);
    let hit = cast_ray(&w.map, p.x, p.y, p.dx, p.dy);
    assert!(hit.distance < FAR);
    assert_eq!(correct_fisheye(hit.distance, t.cos(0)), hit.distance);
    let samples = cast_rays(&w.map, &t, &p, (FOV / 2) as usize, 2);
    assert!(samples[0].corrected < samples[0].hit.distance);
}

#[test]
fn centred_view_in_walled_grid_is_symmetric() {
    let t = table();
    let g = Grid::walled(16);
    let p = at(8 * CELL_SIZE, 8 * CELL_SIZE, 0, &t);
    let n = (FOV / 2) as usize;
    let samples = cast_rays(&g, &t, &p, n, 2);
    assert_eq!(samples.len(), n);
    assert_eq!(samples[0].angle, TURN - FOV / 2 + 1);
    assert_eq!(samples[n / 2].angle, 1);
    assert!((samples[n / 2].hit.distance - 7 * CELL_SIZE).abs() <= 2);
    for i in 0..n {
        assert!(samples[i].hit.distance < FAR, "column {} reports no wall", i);
        let c = samples[i].corrected;
        assert!((c - 7 * CELL_SIZE).abs() <= 7 * CELL_SIZE / 1000, "column {}: {}", i, c);
        let a = samples[i].hit.distance;
        let b = samples[n - 1 - i].hit.distance;
        assert!((a - b).abs() <= 1, "column {}: {} against {}", i, a, b);
    }
}

#[test]
fn strip_height_is_clamped_and_shrinks_with_distance() {
    assert_eq!(strip_height(0, 1024), 1024);
    assert_eq!(strip_height(CELL_SIZE / 2, 1024), 1024);
    assert_eq!(strip_height(CELL_SIZE, 1024), 1024);
    assert_eq!(strip_height(2 * CELL_SIZE, 1024), 512);
    assert_eq!(strip_height(3 * CELL_SIZE, 1024), 341);
    assert_eq!(strip_height(FAR, 1024), 0);
    let mut last = strip_height(1, 1024);
    for d in (1..(20 * CELL_SIZE)).step_by(4099) {
        let h = strip_height(d, 1024);
        assert!(h <= last && h <= 1024);
        last = h;
    }
}

#[test]
fn strips_are_laid_out_side_by_side() {
    let t = table();
    let w = World::new();
    let p = Player::new();
    let normal = p.draw_rays_3d(&w.map, &t, false);
    assert_eq!(normal.len(), 2048);
    assert_eq!((normal[0].left, normal[0].width), (0, 1));
    assert_eq!(normal[2047].left, 2047);
    let debug = p.draw_rays_3d(&w.map, &t, true);
    assert_eq!(debug.len(), 1024);
    assert_eq!((debug[0].left, debug[0].width), (1024, 1));
    assert_eq!(debug[1023].left, 2047);
    assert_eq!(debug[512].sample.angle, 2);
    assert_eq!(normal[1024].sample.angle, 1);
    for s in normal.iter().chain(debug.iter()) {
        assert_eq!(s.wall_top, 512 - s.wall_height / 2);
        assert_eq!(s.wall_height, strip_height(s.sample.corrected, 1024));
    }
}

#[test]
fn strip_layout_centres_the_wall() {
    let g = Grid::walled(16);
    let hit = cast_ray(&g, 8 * CELL_SIZE, 8 * CELL_SIZE, UNIT, 0);
    let sample = raycaster::raycast::RaySample { angle: 0, hit, corrected: 2 * CELL_SIZE };
    let view = Viewport { left: 100, width: 1000, height: 600 };
    let s = layout_strip(3, 10, view, sample);
    assert_eq!((s.left, s.width), (400, 100));
    assert_eq!(s.wall_height, 300);
    assert_eq!(s.wall_top, 150);
}
