use vstd::prelude::*;

verus! {

/// Mathematical model of a grid: cell columns, cell rows, the pixel edge
/// length of one cell, and the row-major cell matrix (`true` is alive).
#[verifier::ext_equal]
pub ghost struct GridView {
    pub width: nat,
    pub height: nat,
    pub cell_size: nat,
    pub cells: Seq<Seq<bool>>,
}

impl GridView {
    /// Well-formed: positive dimensions, a full `height`-by-`width`
    /// rectangular cell matrix, and pixel extents that fit in `u32`.
    pub open spec fn wf(self) -> bool {
        &&& self.width > 0
        &&& self.height > 0
        &&& self.cell_size > 0
        &&& self.cells.len() == self.height
        &&& forall|r: int|
            0 <= r < self.height ==> (#[trigger] self.cells[r]).len() == self.width
        &&& self.width * self.cell_size <= u32::MAX
        &&& self.height * self.cell_size <= u32::MAX
    }

    /// True when `(row, col)` is a position on the grid.
    pub open spec fn in_bounds(self, row: int, col: int) -> bool {
        0 <= row < self.height && 0 <= col < self.width
    }

    /// True when `(row, col)` is on the grid and holds a live cell.
    /// Positions off the grid count as dead: edges are hard, not toroidal.
    pub open spec fn live_at(self, row: int, col: int) -> bool {
        self.in_bounds(row, col) && self.cells[row][col]
    }

    /// 1 if `(row, col)` holds a live cell, else 0.
    pub open spec fn live_count(self, row: int, col: int) -> int {
        if self.live_at(row, col) {
            1
        } else {
            0
        }
    }

    /// The number of live cells among the 8 positions adjacent to
    /// `(row, col)`. Off-grid positions contribute nothing.
    pub open spec fn neighbor_count(self, row: int, col: int) -> int {
        self.live_count(row - 1, col - 1) + self.live_count(row - 1, col) + self.live_count(
            row - 1,
            col + 1,
        ) + self.live_count(row, col - 1) + self.live_count(row, col + 1) + self.live_count(
            row + 1,
            col - 1,
        ) + self.live_count(row + 1, col) + self.live_count(row + 1, col + 1)
    }

    /// The birth/survival rule for one cell: a live cell survives with
    /// two or three live neighbors, a dead cell is born with exactly
    /// three, and every other cell is dead next generation.
    pub open spec fn next_cell(self, row: int, col: int) -> bool {
        if self.cells[row][col] {
            2 <= self.neighbor_count(row, col) <= 3
        } else {
            self.neighbor_count(row, col) == 3
        }
    }

    /// The grid one generation later: every cell stepped synchronously
    /// from this generation's state.
    pub open spec fn step(self) -> GridView {
        GridView {
            cells: Seq::new(
                self.height,
                |r: int| Seq::new(self.width, |c: int| self.next_cell(r, c)),
            ),
            ..self
        }
    }

    /// The grid `n` generations later.
    pub open spec fn step_n(self, n: nat) -> GridView
        decreases n,
    {
        if n == 0 {
            self
        } else {
            self.step_n((n - 1) as nat).step()
        }
    }
}

/// The error a grid constructor reports.
#[derive(Clone, Copy, Debug, PartialEq, Eq, Structural)]
pub enum GridError {
    /// A dimension is zero, or the grid would span more pixels along an
    /// axis than `u32` holds.
    InvalidDimension,
}

/// A bounded rectangular Game of Life grid with hard, non-wrapping edges.
#[derive(Debug)]
pub struct Grid {
    width: u32,
    height: u32,
    cell_size: u32,
    cells: Vec<Vec<bool>>,
}

impl View for Grid {
    type V = GridView;

    closed spec fn view(&self) -> GridView {
        GridView {
            width: self.width as nat,
            height: self.height as nat,
            cell_size: self.cell_size as nat,
            cells: self.cells@.map_values(|row: Vec<bool>| row@),
        }
    }
}

/// True when a grid of `count` cells of `size` pixels spans no more
/// pixels along its axis than `u32` holds.
fn pixel_extent_fits(count: u32, size: u32) -> (fits: bool)
    ensures
        fits <==> count * size <= u32::MAX,
{
    proof {
        assert((count as int) * (size as int) <= 0xffff_ffff * 0xffff_ffff) by (nonlinear_arith)
            requires
                count <= 0xffff_ffffu32,
                size <= 0xffff_ffffu32,
        ;
    }
    (count as u64) * (size as u64) <= u32::MAX as u64
}

impl Grid {
    /// Well-formed: the abstract view is, and every public constructor
    /// establishes this.
    pub open spec fn wf(&self) -> bool {
        self@.wf()
    }

    /// Builds a grid of `width` cell columns by `height` cell rows, each
    /// cell drawn independently from `rng` with equal probability of
    /// starting alive or dead.
    #[verifier::loop_isolation(false)]
    pub fn new(width: u32, height: u32, cell_size: u32, rng: &mut rand::rngs::StdRng) -> (result:
        Result<Grid, GridError>)
        ensures
            result is Ok <==> width > 0 && height > 0 && cell_size > 0 && width * cell_size
                <= u32::MAX && height * cell_size <= u32::MAX,
            result matches Ok(g) ==> g.wf() && g@.width == width && g@.height == height
                && g@.cell_size == cell_size,
    {
        if width == 0 || height == 0 || cell_size == 0 {
            return Err(GridError::InvalidDimension);
        }
        if !pixel_extent_fits(width, cell_size) || !pixel_extent_fits(height, cell_size) {
            return Err(GridError::InvalidDimension);
        }
        let mut cells: Vec<Vec<bool>> = Vec::new();
        let mut r: u32 = 0;
        while r < height
            invariant
                r <= height,
                cells@.len() == r,
                forall|i: int| 0 <= i < r ==> (#[trigger] cells@[i])@.len() == width,
            decreases height - r,
        {
            let mut row: Vec<bool> = Vec::new();
            let mut c: u32 = 0;
            while c < width
                invariant
                    c <= width,
                    row@.len() == c,
                decreases width - c,
            {
                row.push(crate::rng::random_cell(rng));
                c = c + 1;
            }
            cells.push(row);
            r = r + 1;
        }
        Ok(Grid { width, height, cell_size, cells })
    }

    /// Builds a grid from an explicit, row-major cell matrix, for callers
    /// that want a chosen starting pattern rather than a random one. The
    /// matrix must be rectangular and non-empty.
    #[verifier::loop_isolation(false)]
    pub fn from_cells(cells: Vec<Vec<bool>>, cell_size: u32) -> (result: Result<Grid, GridError>)
        ensures
            result is Ok <==> cells@.len() > 0 && cells@[0]@.len() > 0 && cell_size > 0 && (
            forall|i: int| 0 <= i < cells@.len() ==> (#[trigger] cells@[i])@.len()
                == cells@[0]@.len()) && cells@[0]@.len() * cell_size <= u32::MAX && cells@.len()
                * cell_size <= u32::MAX,
            result matches Ok(g) ==> g.wf() && g@.height == cells@.len() && g@.width
                == cells@[0]@.len() && g@.cell_size == cell_size && (forall|i: int|
                0 <= i < cells@.len() ==> g@.cells[i] == (#[trigger] cells@[i])@),
    {
        if cells.len() == 0 || cell_size == 0 {
            return Err(GridError::InvalidDimension);
        }
        let width_us: usize = cells[0].len();
        if width_us == 0 {
            return Err(GridError::InvalidDimension);
        }
        let mut i: usize = 1;
        while i < cells.len()
            invariant
                1 <= i <= cells@.len(),
                forall|k: int| 0 <= k < i ==> (#[trigger] cells@[k])@.len() == cells@[0]@.len(),
            decreases cells@.len() - i,
        {
            if cells[i].len() != width_us {
                return Err(GridError::InvalidDimension);
            }
            i = i + 1;
        }
        if width_us > u32::MAX as usize || cells.len() > u32::MAX as usize {
            proof {
                assert(cells@[0]@.len() * cell_size >= cells@[0]@.len() * 1) by (nonlinear_arith)
                    requires
                        cell_size >= 1,
                ;
                assert(cells@.len() * cell_size >= cells@.len() * 1) by (nonlinear_arith)
                    requires
                        cell_size >= 1,
                ;
            }
            return Err(GridError::InvalidDimension);
        }
        let width: u32 = width_us as u32;
        let height: u32 = cells.len() as u32;
        if !pixel_extent_fits(width, cell_size) || !pixel_extent_fits(height, cell_size) {
            return Err(GridError::InvalidDimension);
        }
        Ok(Grid { width, height, cell_size, cells })
    }

    /// The number of whole cells that fit along one axis of `pixels`
    /// pixels: the pixel dimension divided by the cell size, truncating.
    /// A remainder is left as an unused border, not rounded or rejected.
    pub fn cells_per_axis(pixels: u32, cell_size: u32) -> (count: u32)
        requires
            cell_size > 0,
        ensures
            count == pixels as int / cell_size as int,
            count * cell_size <= pixels,
    {
        proof {
            vstd::arithmetic::div_mod::lemma_fundamental_div_mod(pixels as int, cell_size as int);
            vstd::arithmetic::div_mod::lemma_mod_bound(pixels as int, cell_size as int);
            assert((pixels as int / cell_size as int) * cell_size == cell_size * (
            pixels as int / cell_size as int)) by (nonlinear_arith);
        }
        pixels / cell_size
    }

    /// True when the cell at `(row, col)` is alive this generation.
    pub fn is_alive(&self, row: usize, col: usize) -> (alive: bool)
        requires
            self.wf(),
            row < self@.height,
            col < self@.width,
        ensures
            alive == self@.cells[row as int][col as int],
    {
        proof {
            assert(self@.cells.len() == self.cells@.len());
            assert(self@.cells[row as int] == self.cells@[row as int]@);
        }
        self.cells[row][col]
    }

    /// The grid's cell columns and cell rows, in that order.
    pub fn dimensions(&self) -> (dims: (u32, u32))
        ensures
            dims.0 == self@.width,
            dims.1 == self@.height,
    {
        (self.width, self.height)
    }

    /// The pixel edge length of one cell.
    pub fn cell_size(&self) -> (size: u32)
        ensures
            size == self@.cell_size,
    {
        self.cell_size
    }

    /// Counts the live cells among the 8 positions adjacent to
    /// `(row, col)`. Positions off the grid contribute nothing: the
    /// edges are hard, so nothing wraps around.
    pub fn count_live_neighbors(&self, row: usize, col: usize) -> (count: usize)
        requires
            self.wf(),
            row < self@.height,
            col < self@.width,
        ensures
            count == self@.neighbor_count(row as int, col as int),
            count <= 8,
    {
        proof {
            assert(self@.cells.len() == self.cells@.len());
            assert forall|i: int| 0 <= i < self.cells@.len() implies self@.cells[i] == (
            #[trigger] self.cells@[i])@ by {}
        }
        let width: usize = self.width as usize;
        let height: usize = self.height as usize;
        let mut count: usize = 0;
        if row > 0 {
            if col > 0 && self.cells[row - 1][col - 1] {
                count = count + 1;
            }
            if self.cells[row - 1][col] {
                count = count + 1;
            }
            if col + 1 < width && self.cells[row - 1][col + 1] {
                count = count + 1;
            }
        }
        if col > 0 && self.cells[row][col - 1] {
            count = count + 1;
        }
        if col + 1 < width && self.cells[row][col + 1] {
            count = count + 1;
        }
        if row + 1 < height {
            if col > 0 && self.cells[row + 1][col - 1] {
                count = count + 1;
            }
            if self.cells[row + 1][col] {
                count = count + 1;
            }
            if col + 1 < width && self.cells[row + 1][col + 1] {
                count = count + 1;
            }
        }
        count
    }

    /// Advances the grid one generation. Every cell's next state is
    /// decided from this generation's neighbor counts, and the new
    /// generation is committed in one piece (a double buffer), so no
    /// half-updated state is ever read during the scan.
    #[verifier::loop_isolation(false)]
    pub fn advance(&mut self)
        requires
            old(self).wf(),
        ensures
            final(self).wf(),
            final(self)@ == old(self)@.step(),
    {
        let width: u32 = self.width;
        let height: u32 = self.height;
        let mut next: Vec<Vec<bool>> = Vec::new();
        let mut r: u32 = 0;
        while r < height
            invariant
                r <= height,
                next@.len() == r,
                forall|i: int| 0 <= i < r ==> (#[trigger] next@[i])@ == old(self)@.step().cells[i],
            decreases height - r,
        {
            let mut row_vec: Vec<bool> = Vec::new();
            let mut c: u32 = 0;
            while c < width
                invariant
                    c <= width,
                    row_vec@.len() == c,
                    forall|j: int|
                        0 <= j < c ==> #[trigger] row_vec@[j] == old(self)@.next_cell(r as int, j),
                decreases width - c,
            {
                let neighbors = self.count_live_neighbors(r as usize, c as usize);
                let alive = self.is_alive(r as usize, c as usize);
                let lives_on = if alive {
                    neighbors >= 2 && neighbors <= 3
                } else {
                    neighbors == 3
                };
                row_vec.push(lives_on);
                c = c + 1;
            }
            proof {
                assert(row_vec@ =~= old(self)@.step().cells[r as int]);
            }
            next.push(row_vec);
            r = r + 1;
        }
        self.cells = next;
        proof {
            lemma_step_preserves_wf(old(self)@);
            assert forall|i: int| 0 <= i < height implies self@.cells[i] =~~= old(
                self,
            )@.step().cells[i] by {
                assert(self@.cells[i] == self.cells@[i]@);
            }
            assert(self@.cells =~~= old(self)@.step().cells);
            assert(self@ =~~= old(self)@.step());
        }
    }
}

/// Every neighbor count lies between 0 and 8: each of the eight adjacent
/// positions contributes at most one.
pub proof fn lemma_neighbor_count_bound(v: GridView, row: int, col: int)
    ensures
        0 <= v.neighbor_count(row, col) <= 8,
{
}

/// A corner cell never has more than three live neighbors, however many
/// cells are alive: at least five of its eight adjacent positions fall
/// off a hard-edged grid and contribute nothing.
pub proof fn lemma_corner_neighbor_bound(v: GridView, row: int, col: int)
    requires
        v.wf(),
        row == 0 || row == v.height - 1,
        col == 0 || col == v.width - 1,
    ensures
        v.neighbor_count(row, col) <= 3,
{
}

/// Advancing is deterministic: two grids in the same state are in the
/// same state again after any number of generations. The rule reads
/// nothing but the current cells.
pub proof fn lemma_step_deterministic(a: GridView, b: GridView, n: nat)
    requires
        a == b,
    ensures
        a.step_n(n) == b.step_n(n),
{
}

/// Hard edges do not wrap: the neighbor count at the origin corner reads
/// only the three positions adjacent to it, so on any grid with at least
/// three rows or three columns the far corner `(height-1, width-1)` never
/// contributes to it, live or dead.
pub proof fn lemma_edge_non_wrapping(a: GridView, b: GridView)
    requires
        a.wf(),
        b.wf(),
        a.width == b.width,
        a.height == b.height,
        a.height >= 3 || a.width >= 3,
        forall|r: int, c: int|
            a.in_bounds(r, c) && !(r == a.height - 1 && c == a.width - 1) ==> a.cells[r][c]
                == #[trigger] b.cells[r][c],
    ensures
        a.neighbor_count(0, 0) == b.neighbor_count(0, 0),
{
    assert(a.live_at(0, 1) == b.live_at(0, 1));
    assert(a.live_at(1, 0) == b.live_at(1, 0));
    assert(a.live_at(1, 1) == b.live_at(1, 1));
}

/// The rule, cell by cell: a dead cell comes alive next generation
/// exactly when it has three live neighbors, and a live cell stays alive
/// exactly when it has two or three.
pub proof fn lemma_rule_exactness(v: GridView, row: int, col: int)
    requires
        v.wf(),
        v.in_bounds(row, col),
    ensures
        v.cells[row][col] ==> (v.step().cells[row][col] <==> 2 <= v.neighbor_count(row, col) <= 3),
        !v.cells[row][col] ==> (v.step().cells[row][col] <==> v.neighbor_count(row, col) == 3),
{
}

/// True when the grid's live cells are exactly the 2-by-2 block whose
/// upper-left corner is `(row, col)`: every other cell is dead.
pub open spec fn is_block(v: GridView, row: int, col: int) -> bool {
    &&& v.in_bounds(row, col)
    &&& v.in_bounds(row + 1, col + 1)
    &&& forall|r: int, c: int|
        v.in_bounds(r, c) ==> (#[trigger] v.cells[r][c] <==> (row <= r <= row + 1 && col <= c <= col
            + 1))
}

/// A 2-by-2 block of live cells in an otherwise dead grid is a still
/// life: one generation leaves the grid unchanged. Each block cell keeps
/// exactly three live neighbors, and no dead cell reaches three.
pub proof fn lemma_block_still_life(v: GridView, row: int, col: int)
    requires
        v.wf(),
        is_block(v, row, col),
    ensures
        v.step() == v,
{
    assert forall|r: int| 0 <= r < v.height implies v.step().cells[r] =~= v.cells[r] by {
        assert forall|c: int| 0 <= c < v.width implies v.step().cells[r][c] == v.cells[r][c] by {
            assert(v.step().cells[r][c] == v.next_cell(r, c));
        }
    }
    assert(v.step().cells =~~= v.cells);
    assert(v.step() =~~= v);
}

/// A still life stays a still life: the block grid is unchanged after
/// any number of generations.
pub proof fn lemma_block_still_life_n(v: GridView, row: int, col: int, n: nat)
    requires
        v.wf(),
        is_block(v, row, col),
    ensures
        v.step_n(n) == v,
    decreases n,
{
    if n > 0 {
        lemma_block_still_life_n(v, row, col, (n - 1) as nat);
        lemma_block_still_life(v, row, col);
    }
}

/// True when the grid's live cells are exactly the horizontal three-cell
/// line `(row, col-1)`, `(row, col)`, `(row, col+1)`, with a margin of at
/// least one dead row or column to every edge.
pub open spec fn is_horizontal_blinker(v: GridView, row: int, col: int) -> bool {
    &&& 1 <= row && row + 1 < v.height
    &&& 1 <= col && col + 1 < v.width
    &&& forall|r: int, c: int|
        v.in_bounds(r, c) ==> (#[trigger] v.cells[r][c] <==> (r == row && col - 1 <= c <= col + 1))
}

/// True when the grid's live cells are exactly the vertical three-cell
/// line `(row-1, col)`, `(row, col)`, `(row+1, col)`, with a margin of at
/// least one dead row or column to every edge.
pub open spec fn is_vertical_blinker(v: GridView, row: int, col: int) -> bool {
    &&& 1 <= row && row + 1 < v.height
    &&& 1 <= col && col + 1 < v.width
    &&& forall|r: int, c: int|
        v.in_bounds(r, c) ==> (#[trigger] v.cells[r][c] <==> (c == col && row - 1 <= r <= row + 1))
}

/// One generation turns the horizontal blinker into the vertical one
/// through the same center: the ends die with one neighbor each, the
/// center survives with two, and the cells above and below the center
/// are born with three.
pub proof fn lemma_blinker_flips(v: GridView, row: int, col: int)
    requires
        v.wf(),
        is_horizontal_blinker(v, row, col),
    ensures
        is_vertical_blinker(v.step(), row, col),
{
    lemma_step_preserves_wf(v);
    assert forall|r: int, c: int| v.step().in_bounds(r, c) implies (#[trigger] v.step().cells[r][c]
        <==> (c == col && row - 1 <= r <= row + 1)) by {
        assert(v.step().cells[r][c] == v.next_cell(r, c));
    }
}

/// One generation turns the vertical blinker back into the horizontal
/// one through the same center.
pub proof fn lemma_blinker_flips_back(v: GridView, row: int, col: int)
    requires
        v.wf(),
        is_vertical_blinker(v, row, col),
    ensures
        is_horizontal_blinker(v.step(), row, col),
{
    lemma_step_preserves_wf(v);
    assert forall|r: int, c: int| v.step().in_bounds(r, c) implies (#[trigger] v.step().cells[r][c]
        <==> (r == row && col - 1 <= c <= col + 1)) by {
        assert(v.step().cells[r][c] == v.next_cell(r, c));
    }
}

/// The blinker oscillates with period two: two generations restore the
/// horizontal blinker grid exactly.
pub proof fn lemma_blinker_period_two(v: GridView, row: int, col: int)
    requires
        v.wf(),
        is_horizontal_blinker(v, row, col),
    ensures
        v.step().step() == v,
{
    lemma_blinker_flips(v, row, col);
    lemma_step_preserves_wf(v);
    lemma_blinker_flips_back(v.step(), row, col);
    lemma_step_preserves_wf(v.step());
    let w = v.step().step();
    assert forall|r: int| 0 <= r < v.height implies w.cells[r] =~= v.cells[r] by {
        assert forall|c: int| 0 <= c < v.width implies w.cells[r][c] == v.cells[r][c] by {
            assert(v.in_bounds(r, c));
            assert(w.in_bounds(r, c));
        }
    }
    assert(w.cells =~~= v.cells);
    assert(w =~~= v);
}

/// One generation preserves well-formedness: the dimensions and the cell
/// size are untouched and the new cell matrix is rectangular again.
pub proof fn lemma_step_preserves_wf(v: GridView)
    requires
        v.wf(),
    ensures
        v.step().wf(),
        v.step().width == v.width,
        v.step().height == v.height,
        v.step().cell_size == v.cell_size,
{
    assert forall|r: int| 0 <= r < v.step().height implies (#[trigger] v.step().cells[r]).len()
        == v.step().width by {}
}

} // verus!
