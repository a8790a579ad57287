use vstd::prelude::*;

verus! {

/// Side length of one grid cell, in sub-units (64 world units).
pub const CELL_SIZE: i64 = 1048576;

/// Largest side length that a grid may have.
pub const MAX_GRID: usize = 256;

/// What one cell of the map holds.
#[derive(Clone, Copy, Debug, PartialEq, Eq, Structural)]
pub enum Cell {
    Empty,
    Wall,
}

/// A square map of cells, indexed as `[x][y]`.
pub struct Grid {
    cells: Vec<Vec<Cell>>,
}

impl View for Grid {
    type V = Seq<Seq<Cell>>;

    closed spec fn view(&self) -> Seq<Seq<Cell>> {
        self.cells@.map_values(|row: Vec<Cell>| row@)
    }
}

/// The cell that a number of a map's rows stands for.
pub open spec fn cell_of(v: u32) -> Cell {
    if v == 1 {
        Cell::Wall
    } else {
        Cell::Empty
    }
}

/// Rows that form a square of side at most `MAX_GRID`, each number `0` or `1`.
pub open spec fn rows_valid(rows: Seq<Vec<u32>>) -> bool {
    &&& rows.len() <= MAX_GRID
    &&& forall|i: int| 0 <= i < rows.len() ==> (#[trigger] rows[i]@).len() == rows.len()
    &&& forall|i: int, j: int|
        0 <= i < rows.len() && 0 <= j < rows.len() ==> (#[trigger] rows[i]@[j] == 0
            || rows[i]@[j] == 1)
}

/// Index of the cell that holds a coordinate given in sub-units.
pub open spec fn cell_index(c: int) -> int {
    c / (CELL_SIZE as int)
}

impl Grid {
    /// The map is square and no larger than `MAX_GRID`.
    pub open spec fn wf(&self) -> bool {
        &&& self@.len() <= MAX_GRID
        &&& forall|i: int| 0 <= i < self@.len() ==> (#[trigger] self@[i]).len() == self@.len()
    }

    pub open spec fn in_bounds(&self, x: int, y: int) -> bool {
        0 <= x < self@.len() && 0 <= y < self@.len()
    }

    /// The cell at `(x, y)`, or `None` outside the map.
    pub open spec fn cell_spec(&self, x: int, y: int) -> Option<Cell> {
        if self.in_bounds(x, y) {
            Some(self@[x][y])
        } else {
            None
        }
    }

    pub open spec fn wall_at(&self, x: int, y: int) -> bool {
        self.cell_spec(x, y) == Some(Cell::Wall)
    }

    pub open spec fn empty_at(&self, x: int, y: int) -> bool {
        self.cell_spec(x, y) == Some(Cell::Empty)
    }

    /// Whether the point `(px, py)`, in sub-units, lies in an empty cell of the map.
    pub open spec fn open_point(&self, px: int, py: int) -> bool {
        0 <= px && 0 <= py && self.empty_at(cell_index(px), cell_index(py))
    }

    /// Whether the point `(px, py)`, in sub-units, lies in an empty cell of the map.
    pub fn is_open_point(&self, px: i64, py: i64) -> (r: bool)
        requires
            self.wf(),
        ensures
            r == self.open_point(px as int, py as int),
    {
        if px < 0 || py < 0 {
            return false;
        }
        match self.cell_at(px / CELL_SIZE, py / CELL_SIZE) {
            Some(Cell::Empty) => true,
            _ => false,
        }
    }

    /// Side length of the map.
    pub fn size(&self) -> (r: usize)
        requires
            self.wf(),
        ensures
            r == self@.len(),
    {
        self.cells.len()
    }

    /// The cell at `(x, y)`; `None` where an index lies outside `[0, size)`.
    pub fn cell_at(&self, x: i64, y: i64) -> (r: Option<Cell>)
        requires
            self.wf(),
        ensures
            r == self.cell_spec(x as int, y as int),
    {
        let n = self.cells.len() as i64;
        assert(self.cells@.len() == self@.len());
        if 0 <= x && 0 <= y && x < n && y < n {
            let row = &self.cells[x as usize];
            assert(self@[x as int] == row@);
            Some(row[y as usize])
        } else {
            None
        }
    }

    /// A map of side `n` whose border cells are walls and whose inside is empty.
    pub fn walled(n: usize) -> (g: Grid)
        requires
            n <= MAX_GRID,
        ensures
            g.wf(),
            g@.len() == n,
            forall|x: int, y: int|
                0 <= x < n && 0 <= y < n ==> #[trigger] g@[x][y] == (if x == 0 || y == 0 || x
                    == n - 1 || y == n - 1 {
                    Cell::Wall
                } else {
                    Cell::Empty
                }),
    {
        let mut cells: Vec<Vec<Cell>> = Vec::new();
        let mut x: usize = 0;
        while x < n
            invariant
                x <= n,
                cells@.len() == x,
                forall|i: int| 0 <= i < x ==> (#[trigger] cells@[i])@.len() == n,
                forall|i: int, j: int|
                    0 <= i < x && 0 <= j < n ==> #[trigger] cells@[i]@[j] == (if i == 0 || j == 0
                        || i == n - 1 || j == n - 1 {
                        Cell::Wall
                    } else {
                        Cell::Empty
                    }),
            decreases n - x,
        {
            let mut row: Vec<Cell> = Vec::new();
            let mut y: usize = 0;
            while y < n
                invariant
                    x < n,
                    y <= n,
                    row@.len() == y,
                    forall|j: int|
                        0 <= j < y ==> #[trigger] row@[j] == (if x == 0 || j == 0 || x == n - 1
                            || j == n - 1 {
                            Cell::Wall
                        } else {
                            Cell::Empty
                        }),
                decreases n - y,
            {
                if x == 0 || y == 0 || x == n - 1 || y == n - 1 {
                    row.push(Cell::Wall);
                } else {
                    row.push(Cell::Empty);
                }
                y += 1;
            }
            cells.push(row);
            x += 1;
        }
        let g = Grid { cells };
        assert forall|i: int| 0 <= i < g@.len() implies (#[trigger] g@[i]).len() == g@.len() by {
            assert(g@[i] == cells@[i]@);
        }
        assert forall|i: int, j: int| 0 <= i < n && 0 <= j < n implies #[trigger] g@[i][j] == (
        if i == 0 || j == 0 || i == n - 1 || j == n - 1 {
            Cell::Wall
        } else {
            Cell::Empty
        }) by {
            assert(g@[i] == cells@[i]@);
        }
        g
    }

    /// Makes the cell at `(x, y)` a wall.
    fn set_wall(&mut self, x: usize, y: usize)
        requires
            old(self).wf(),
            old(self).in_bounds(x as int, y as int),
        ensures
            final(self).wf(),
            final(self)@ == old(self)@.update(x as int, old(self)@[x as int].update(y as int, Cell::Wall)),
    {
        let ghost before = self@;
        assert(self.cells@.len() == self@.len());
        let mut row = self.cells[x].clone();
        assert(row@ == before[x as int]);
        row.set(y, Cell::Wall);
        self.cells.set(x, row);
        assert(self@ =~= before.update(x as int, before[x as int].update(y as int, Cell::Wall)));
    }

    /// A map read from rows of numbers, `0` for an empty cell and `1` for a wall, where
    /// `rows[x][y]` is the cell at `(x, y)`. `None` unless the rows form a square of side at
    /// most `MAX_GRID` and hold no other number.
    pub fn from_rows(rows: &Vec<Vec<u32>>) -> (r: Option<Grid>)
        ensures
            r.is_some() == rows_valid(rows@),
            r matches Some(g) ==> {
                &&& g.wf()
                &&& g@.len() == rows@.len()
                &&& forall|x: int, y: int|
                    0 <= x < g@.len() && 0 <= y < g@.len() ==> #[trigger] g@[x][y] == cell_of(
                        rows@[x]@[y],
                    )
            },
    {
        let n = rows.len();
        if n > MAX_GRID {
            return None;
        }
        let mut cells: Vec<Vec<Cell>> = Vec::new();
        let mut x: usize = 0;
        while x < n
            invariant
                n == rows@.len(),
                n <= MAX_GRID,
                x <= n,
                cells@.len() == x,
                forall|i: int| 0 <= i < x ==> (#[trigger] rows@[i]@).len() == n,
                forall|i: int, j: int|
                    0 <= i < x && 0 <= j < n ==> (#[trigger] rows@[i]@[j] == 0 || rows@[i]@[j] == 1),
                forall|i: int| 0 <= i < x ==> (#[trigger] cells@[i])@.len() == n,
                forall|i: int, j: int|
                    0 <= i < x && 0 <= j < n ==> #[trigger] cells@[i]@[j] == cell_of(rows@[i]@[j]),
            decreases n - x,
        {
            let src = &rows[x];
            if src.len() != n {
                assert(rows@[x as int]@.len() != rows@.len());
                return None;
            }
            let mut row: Vec<Cell> = Vec::new();
            let mut y: usize = 0;
            while y < n
                invariant
                    n == rows@.len(),
                    x < n,
                    y <= n,
                    src@.len() == n,
                    rows@[x as int] == src,
                    row@.len() == y,
                    forall|j: int| 0 <= j < y ==> (#[trigger] src@[j] == 0 || src@[j] == 1),
                    forall|j: int| 0 <= j < y ==> #[trigger] row@[j] == cell_of(src@[j]),
                decreases n - y,
            {
                let value = src[y];
                if value == 0 {
                    row.push(Cell::Empty);
                } else if value == 1 {
                    row.push(Cell::Wall);
                } else {
                    assert(!(rows@[x as int]@[y as int] == 0 || rows@[x as int]@[y as int] == 1));
                    return None;
                }
                y += 1;
            }
            cells.push(row);
            x += 1;
        }
        let g = Grid { cells };
        assert(rows_valid(rows@));
        assert forall|i: int| 0 <= i < g@.len() implies (#[trigger] g@[i]).len() == g@.len() by {
            assert(g@[i] == cells@[i]@);
        }
        assert forall|i: int, j: int| 0 <= i < n && 0 <= j < n implies #[trigger] g@[i][j]
            == cell_of(rows@[i]@[j]) by {
            assert(g@[i] == cells@[i]@);
        }
        Some(g)
    }
}

/// Whether `(x, y)` is one of the walls inside the border of the starting map.
pub open spec fn inner_wall(x: int, y: int) -> bool {
    ||| (x == 4 && 4 <= y <= 7)
    ||| (5 <= x <= 7 && (y == 4 || y == 7))
    ||| (x == 8 && (y == 4 || y == 5 || y == 7))
}

/// The map that play starts on.
pub struct World {
    pub map: Grid,
}

impl World {
    /// A 16 by 16 map with a walled border and a small room inside it.
    pub fn new() -> (w: World)
        ensures
            w.map.wf(),
            w.map@.len() == 16,
            forall|x: int, y: int|
                0 <= x < 16 && 0 <= y < 16 ==> (#[trigger] w.map@[x][y] == Cell::Wall <==> (x == 0
                    || y == 0 || x == 15 || y == 15 || inner_wall(x, y))),
    {
        let mut map = Grid::walled(16);
        map.set_wall(4, 4);
        map.set_wall(4, 5);
        map.set_wall(4, 6);
        map.set_wall(4, 7);
        map.set_wall(5, 4);
        map.set_wall(5, 7);
        map.set_wall(6, 4);
        map.set_wall(6, 7);
        map.set_wall(7, 4);
        map.set_wall(7, 7);
        map.set_wall(8, 4);
        map.set_wall(8, 5);
        map.set_wall(8, 7);
        World { map }
    }
}

} // verus!
