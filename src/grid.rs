use vstd::prelude::*;
use vstd::arithmetic::div_mod::{lemma_mod_add_multiples_vanish, lemma_small_mod};

verus! {

/// Number of columns of the board that `State::new` creates.
pub const GRID_WIDTH: usize = 40;

/// Number of rows of the board that `State::new` creates.
pub const GRID_HEIGHT: usize = 40;

/// What a `State` holds, as mathematical values: `cells[x][y]` is the cell
/// in column `x` and row `y`.
pub struct Board {
    pub cells: Seq<Seq<bool>>,
    pub rate: nat,
    pub running: bool,
}

/// A non-empty rectangle of cells: every column has the same, non-zero, height.
pub open spec fn is_grid(cells: Seq<Seq<bool>>) -> bool {
    &&& cells.len() > 0
    &&& cells[0].len() > 0
    &&& forall|x: int| 0 <= x < cells.len() ==> #[trigger] cells[x].len() == cells[0].len()
}

pub open spec fn grid_width(cells: Seq<Seq<bool>>) -> int {
    cells.len() as int
}

pub open spec fn grid_height(cells: Seq<Seq<bool>>) -> int {
    cells[0].len() as int
}

pub open spec fn in_grid(cells: Seq<Seq<bool>>, x: int, y: int) -> bool {
    0 <= x < grid_width(cells) && 0 <= y < grid_height(cells)
}

pub open spec fn live(cells: Seq<Seq<bool>>, x: int, y: int) -> int {
    if cells[x][y] { 1 } else { 0 }
}

/// The cell at offset `(dx, dy)` from `(x, y)`, each axis wrapping around
/// modulo its dimension; 1 when it is alive, else 0.
pub open spec fn neighbor(cells: Seq<Seq<bool>>, x: int, y: int, dx: int, dy: int) -> int {
    let w = grid_width(cells);
    let h = grid_height(cells);
    live(cells, (x + dx + w) % w, (y + dy + h) % h)
}

/// How many of the eight toroidal neighbours of `(x, y)` are alive.
pub open spec fn neighbor_count(cells: Seq<Seq<bool>>, x: int, y: int) -> int {
    neighbor(cells, x, y, -1, -1) + neighbor(cells, x, y, 0, -1) + neighbor(cells, x, y, 1, -1)
        + neighbor(cells, x, y, -1, 0) + neighbor(cells, x, y, 1, 0)
        + neighbor(cells, x, y, -1, 1) + neighbor(cells, x, y, 0, 1) + neighbor(cells, x, y, 1, 1)
}

/// The rule: a live cell survives with two or three live neighbours, a dead
/// cell is born with exactly three.
pub open spec fn next_state(alive: bool, n: int) -> bool {
    if alive {
        n == 2 || n == 3
    } else {
        n == 3
    }
}

/// One generation, every cell computed from `cells` as it was before the step.
pub open spec fn next_generation(cells: Seq<Seq<bool>>) -> Seq<Seq<bool>> {
    Seq::new(
        cells.len(),
        |x: int| Seq::new(cells[x].len(), |y: int| next_state(cells[x][y], neighbor_count(cells, x, y))),
    )
}

/// `cells` with the cell at `(x, y)` flipped.
pub open spec fn flip(cells: Seq<Seq<bool>>, x: int, y: int) -> Seq<Seq<bool>> {
    cells.update(x, cells[x].update(y, !cells[x][y]))
}

/// A board of the given size with every cell dead.
pub open spec fn dead_cells(w: int, h: int) -> Seq<Seq<bool>> {
    Seq::new(w as nat, |x: int| Seq::new(h as nat, |y: int| false))
}

/// The rate after adding `delta`: never below 1, never above `u32::MAX`.
pub open spec fn adjusted_rate(rate: int, delta: int) -> int {
    if rate + delta < 1 {
        1
    } else if rate + delta > u32::MAX {
        u32::MAX as int
    } else {
        rate + delta
    }
}

/// The game: a toroidal board of cells, a run/pause flag and a rate in
/// generations per second.
pub struct State {
    grid: Vec<Vec<bool>>,
    fps: u32,
    running: bool,
}

impl View for State {
    type V = Board;

    closed spec fn view(&self) -> Board {
        Board {
            cells: self.grid@.map_values(|c: Vec<bool>| c@),
            rate: self.fps as nat,
            running: self.running,
        }
    }
}

/// Relies on rand::random: a fresh value drawn from the thread-local
/// generator; nothing is known of it.
pub assume_specification<T>[ rand::random::<T> ]() -> (r: T)
    where
        rand::distributions::Standard: rand::distributions::Distribution<T>,
;

/// `i - 1`, wrapping from 0 to `n - 1`.
fn wrap_prev(i: usize, n: usize) -> (r: usize)
    requires
        i < n,
    ensures
        r as int == (i - 1 + n) % (n as int),
        r < n,
{
    proof {
        if i > 0 {
            lemma_mod_add_multiples_vanish(i - 1, n as int);
            lemma_small_mod((i - 1) as nat, n as nat);
        } else {
            lemma_small_mod((n - 1) as nat, n as nat);
        }
    }
    if i > 0 {
        i - 1
    } else {
        n - 1
    }
}

/// `i + 1`, wrapping from `n - 1` to 0.
fn wrap_next(i: usize, n: usize) -> (r: usize)
    requires
        i < n,
    ensures
        r as int == (i + 1 + n) % (n as int),
        r < n,
{
    proof {
        lemma_mod_add_multiples_vanish(i + 1, n as int);
        if i + 1 < n {
            lemma_small_mod((i + 1) as nat, n as nat);
        } else {
            lemma_mod_add_multiples_vanish(0, n as int);
            lemma_small_mod(0, n as nat);
        }
    }
    if i + 1 < n {
        i + 1
    } else {
        0
    }
}

proof fn lemma_mod_same(i: int, n: int)
    requires
        0 <= i < n,
    ensures
        (i + 0 + n) % n == i,
{
    lemma_mod_add_multiples_vanish(i, n);
    lemma_small_mod(i as nat, n as nat);
}

/// A column of `h` dead cells.
fn dead_column(h: usize) -> (r: Vec<bool>)
    ensures
        r@ == Seq::new(h as nat, |y: int| false),
{
    let mut col: Vec<bool> = Vec::new();
    let mut j: usize = 0;
    while j < h
        invariant
            j <= h,
            col@ == Seq::new(j as nat, |y: int| false),
        decreases h - j,
    {
        col.push(false);
        j = j + 1;
        assert(col@ =~= Seq::new(j as nat, |y: int| false));
    }
    col
}

/// A `w` by `h` board of dead cells.
fn dead_grid(w: usize, h: usize) -> (r: Vec<Vec<bool>>)
    ensures
        r@.map_values(|c: Vec<bool>| c@) == dead_cells(w as int, h as int),
{
    let mut grid: Vec<Vec<bool>> = Vec::new();
    let mut i: usize = 0;
    while i < w
        invariant
            i <= w,
            grid@.len() == i,
            forall|x: int| 0 <= x < i ==> #[trigger] grid@[x]@ == Seq::new(h as nat, |y: int| false),
        decreases w - i,
    {
        let col = dead_column(h);
        grid.push(col);
        i = i + 1;
    }
    assert(grid@.map_values(|c: Vec<bool>| c@) =~= dead_cells(w as int, h as int));
    grid
}

/// A `w` by `h` board whose cells are drawn at random.
fn random_grid(w: usize, h: usize) -> (r: Vec<Vec<bool>>)
    ensures
        r@.len() == w,
        forall|x: int| 0 <= x < w ==> (#[trigger] r@[x])@.len() == h,
{
    let mut grid: Vec<Vec<bool>> = Vec::new();
    let mut i: usize = 0;
    while i < w
        invariant
            i <= w,
            grid@.len() == i,
            forall|x: int| 0 <= x < i ==> (#[trigger] grid@[x])@.len() == h,
        decreases w - i,
    {
        let mut col: Vec<bool> = Vec::new();
        let mut j: usize = 0;
        while j < h
            invariant
                j <= h,
                col@.len() == j,
            decreases h - j,
        {
            let cell: bool = rand::random::<bool>();
            col.push(cell);
            j = j + 1;
        }
        grid.push(col);
        i = i + 1;
    }
    grid
}

impl State {
    /// The board is a non-empty rectangle and the rate is at least 1.
    pub open spec fn wf(&self) -> bool {
        is_grid(self@.cells) && self@.rate >= 1
    }

    proof fn lemma_view(&self)
        ensures
            self@.cells.len() == self.grid@.len(),
            forall|x: int| 0 <= x < self.grid@.len() ==> #[trigger] self@.cells[x] == self.grid@[x]@,
            self@.rate == self.fps as nat,
            self@.running == self.running,
    {
    }

    /// A `GRID_WIDTH` by `GRID_HEIGHT` board seeded at random, running, at
    /// one generation per second.
    pub fn new() -> (s: State)
        ensures
            s.wf(),
            grid_width(s@.cells) == GRID_WIDTH,
            grid_height(s@.cells) == GRID_HEIGHT,
            s@.rate == 1,
            s@.running,
    {
        let grid = random_grid(GRID_WIDTH, GRID_HEIGHT);
        let s = State { grid, fps: 1, running: true };
        proof {
            s.lemma_view();
        }
        s
    }

    pub fn width(&self) -> (r: usize)
        requires
            self.wf(),
        ensures
            r == grid_width(self@.cells),
    {
        proof {
            self.lemma_view();
        }
        self.grid.len()
    }

    pub fn height(&self) -> (r: usize)
        requires
            self.wf(),
        ensures
            r == grid_height(self@.cells),
    {
        proof {
            self.lemma_view();
        }
        self.grid[0].len()
    }

    /// Whether `(x, y)` is on the board and alive.
    pub fn is_alive(&self, x: usize, y: usize) -> (r: bool)
        requires
            self.wf(),
        ensures
            r == (in_grid(self@.cells, x as int, y as int) && self@.cells[x as int][y as int]),
    {
        proof {
            self.lemma_view();
        }
        if x < self.grid.len() && y < self.grid[0].len() {
            assert(self@.cells[x as int].len() == self@.cells[0].len());
            self.grid[x][y]
        } else {
            false
        }
    }

    pub fn rate(&self) -> (r: u32)
        ensures
            r == self@.rate,
    {
        proof {
            self.lemma_view();
        }
        self.fps
    }

    pub fn is_running(&self) -> (r: bool)
        ensures
            r == self@.running,
    {
        proof {
            self.lemma_view();
        }
        self.running
    }
}

impl State {
    /// How many of the eight toroidal neighbours of `(x, y)` are alive.
    fn count_neighbors(&self, x: usize, y: usize) -> (n: u8)
        requires
            self.wf(),
            in_grid(self@.cells, x as int, y as int),
        ensures
            n as int == neighbor_count(self@.cells, x as int, y as int),
    {
        proof {
            self.lemma_view();
        }
        let w = self.grid.len();
        let h = self.grid[0].len();
        let left = wrap_prev(x, w);
        let right = wrap_next(x, w);
        let up = wrap_prev(y, h);
        let down = wrap_next(y, h);
        let ghost cells = self@.cells;
        proof {
            lemma_mod_same(x as int, w as int);
            lemma_mod_same(y as int, h as int);
            assert(cells[left as int].len() == h);
            assert(cells[x as int].len() == h);
            assert(cells[right as int].len() == h);
        }
        let a = self.grid[left][up] as u8;
        let b = self.grid[x][up] as u8;
        let c = self.grid[right][up] as u8;
        let d = self.grid[left][y] as u8;
        let e = self.grid[right][y] as u8;
        let f = self.grid[left][down] as u8;
        let g = self.grid[x][down] as u8;
        let k = self.grid[right][down] as u8;
        a + b + c + d + e + f + g + k
    }

    /// Advances the board by one generation. Every cell's next state is
    /// computed from the board as it was before the step.
    pub fn step(&mut self)
        requires
            old(self).wf(),
        ensures
            final(self).wf(),
            final(self)@ == (Board { cells: next_generation(old(self)@.cells), ..old(self)@ }),
    {
        proof {
            self.lemma_view();
        }
        let ghost cells = self@.cells;
        let w = self.grid.len();
        let h = self.grid[0].len();
        let mut next: Vec<Vec<bool>> = Vec::new();
        let mut i: usize = 0;
        while i < w
            invariant
                self.wf(),
                self@.cells == cells,
                w == grid_width(cells),
                h == grid_height(cells),
                i <= w,
                next@.len() == i,
                forall|x: int| 0 <= x < i ==> #[trigger] next@[x]@ == next_generation(cells)[x],
            decreases w - i,
        {
            assert(cells[i as int].len() == h);
            let mut col: Vec<bool> = Vec::new();
            let mut j: usize = 0;
            while j < h
                invariant
                    self.wf(),
                    self@.cells == cells,
                    w == grid_width(cells),
                    h == grid_height(cells),
                    i < w,
                    j <= h,
                    cells[i as int].len() == h,
                    col@.len() == j,
                    forall|y: int| 0 <= y < j ==> #[trigger] col@[y] == next_state(cells[i as int][y], neighbor_count(cells, i as int, y)),
                decreases h - j,
            {
                let n = self.count_neighbors(i, j);
                let alive = self.is_alive(i, j);
                let cell = if alive {
                    n == 2 || n == 3
                } else {
                    n == 3
                };
                col.push(cell);
                j = j + 1;
            }
            assert(col@ =~= next_generation(cells)[i as int]);
            next.push(col);
            i = i + 1;
        }
        self.grid = next;
        proof {
            self.lemma_view();
            assert(self@.cells =~= next_generation(cells));
            assert(self@.cells[0].len() == cells[0].len());
        }
    }

    /// Flips the cell at `(x, y)`; a coordinate off the board changes nothing.
    pub fn toggle(&mut self, x: usize, y: usize)
        requires
            old(self).wf(),
        ensures
            final(self).wf(),
            final(self)@ == (if in_grid(old(self)@.cells, x as int, y as int) {
                Board { cells: flip(old(self)@.cells, x as int, y as int), ..old(self)@ }
            } else {
                old(self)@
            }),
    {
        proof {
            self.lemma_view();
        }
        let ghost cells = self@.cells;
        if x < self.grid.len() && y < self.grid[0].len() {
            assert(cells[x as int].len() == cells[0].len());
            let h = self.grid[x].len();
            let mut col: Vec<bool> = Vec::new();
            let mut j: usize = 0;
            while j < h
                invariant
                    self@.cells == cells,
                    x < cells.len(),
                    h == cells[x as int].len(),
                    j <= h,
                    col@ == cells[x as int].subrange(0, j as int),
                decreases h - j,
            {
                proof {
                    self.lemma_view();
                }
                let cell = self.grid[x][j];
                col.push(cell);
                j = j + 1;
                assert(col@ =~= cells[x as int].subrange(0, j as int));
            }
            assert(col@ =~= cells[x as int]);
            let cur = col[y];
            col.set(y, !cur);
            self.grid.set(x, col);
            proof {
                self.lemma_view();
                assert(self@.cells =~= flip(cells, x as int, y as int));
                assert(self@.cells[0].len() == cells[0].len());
            }
        }
    }

    /// Kills every cell; the size, the rate and the run flag stay.
    pub fn clear(&mut self)
        requires
            old(self).wf(),
        ensures
            final(self).wf(),
            final(self)@ == (Board {
                cells: dead_cells(grid_width(old(self)@.cells), grid_height(old(self)@.cells)),
                ..old(self)@
            }),
    {
        proof {
            self.lemma_view();
        }
        let w = self.grid.len();
        let h = self.grid[0].len();
        self.grid = dead_grid(w, h);
        proof {
            self.lemma_view();
            assert(self@.cells[0] == Seq::new(h as nat, |y: int| false));
        }
    }

    pub fn set_running(&mut self, running: bool)
        requires
            old(self).wf(),
        ensures
            final(self).wf(),
            final(self)@ == (Board { running, ..old(self)@ }),
    {
        self.running = running;
    }

    /// Pauses a running game, resumes a paused one.
    pub fn toggle_running(&mut self)
        requires
            old(self).wf(),
        ensures
            final(self).wf(),
            final(self)@ == (Board { running: !old(self)@.running, ..old(self)@ }),
    {
        self.running = !self.running;
    }

    /// Adds `delta` to the rate, which stays at least 1 and within `u32`.
    pub fn adjust_rate(&mut self, delta: i64)
        requires
            old(self).wf(),
        ensures
            final(self).wf(),
            final(self)@ == (Board { rate: adjusted_rate(old(self)@.rate as int, delta as int) as nat, ..old(self)@ }),
    {
        let r: i128 = self.fps as i128 + delta as i128;
        if r < 1 {
            self.fps = 1;
        } else if r > u32::MAX as i128 {
            self.fps = u32::MAX;
        } else {
            self.fps = r as u32;
        }
    }

    /// One admitted tick of the clock: a generation when the game runs,
    /// nothing when it is paused. Returns whether the game runs, that is
    /// whether further ticks that are due should be handed in.
    pub fn tick(&mut self) -> (running: bool)
        requires
            old(self).wf(),
        ensures
            final(self).wf(),
            running == old(self)@.running,
            final(self)@ == (if old(self)@.running {
                Board { cells: next_generation(old(self)@.cells), ..old(self)@ }
            } else {
                old(self)@
            }),
    {
        if self.running {
            self.step();
            true
        } else {
            false
        }
    }
}

} // verus!
