//! The grid store: one generation of cells and its mathematical model.

use vstd::prelude::*;
use vstd::arithmetic::div_mod::{lemma_fundamental_div_mod, lemma_fundamental_div_mod_converse};
use vstd::seq_lib::to_multiset_build;
use crate::cell::Cell;
use crate::error::ConfigError;

verus! {

/// The mathematical model of one generation: a rectangle of cells stored
/// row by row, the cell at column `x` of row `y` at position
/// `y * width + x`.
pub struct GridModel {
    pub width: int,
    pub height: int,
    pub cells: Seq<Cell>,
}

impl GridModel {
    /// Both dimensions are positive and there is exactly one cell per
    /// coordinate.
    pub open spec fn wf(self) -> bool {
        &&& 0 < self.width
        &&& 0 < self.height
        &&& self.cells.len() == self.width * self.height
    }

    pub open spec fn in_bounds(self, x: int, y: int) -> bool {
        0 <= x < self.width && 0 <= y < self.height
    }

    /// Where the cell at `(x, y)` is stored.
    pub open spec fn index(self, x: int, y: int) -> int {
        y * self.width + x
    }

    /// The column of the cell stored at position `i`.
    pub open spec fn column(self, i: int) -> int {
        i % self.width
    }

    /// The row of the cell stored at position `i`.
    pub open spec fn row(self, i: int) -> int {
        i / self.width
    }

    /// The cell at `(x, y)`; every coordinate outside the grid reads as
    /// `Solid`.
    pub open spec fn read(self, x: int, y: int) -> Cell {
        if self.in_bounds(x, y) {
            self.cells[self.index(x, y)]
        } else {
            Cell::Solid
        }
    }

    pub open spec fn same_size(self, other: GridModel) -> bool {
        self.width == other.width && self.height == other.height
    }
}

/// In a `width` by `height` rectangle stored row by row, the coordinate
/// `(x, y)` is stored inside the `width * height` slots, and its column and
/// row can be recovered from where it is stored.
pub proof fn lemma_row_major_index(width: int, height: int, x: int, y: int)
    requires
        0 <= x < width,
        0 <= y < height,
    ensures
        0 <= y * width + x < width * height,
        (y * width + x) % width == x,
        (y * width + x) / width == y,
{
    assert(0 <= y * width && y * width + width <= height * width && height * width == width
        * height) by (nonlinear_arith)
        requires
            0 <= y < height,
            0 < width,
    ;
    assert(width * y == y * width) by (nonlinear_arith);
    lemma_fundamental_div_mod_converse(y * width + x, width, y, x);
}

/// In a `width` by `height` rectangle stored row by row, every slot is the
/// slot of exactly one coordinate of the rectangle.
pub proof fn lemma_row_major_position(width: int, height: int, i: int)
    requires
        0 < width,
        0 <= i < width * height,
    ensures
        0 <= i % width < width,
        0 <= i / width < height,
        (i / width) * width + i % width == i,
{
    lemma_fundamental_div_mod(i, width);
    let q = i / width;
    assert(width * q == q * width) by (nonlinear_arith);
    assert(0 <= i % width < width);
    assert(0 <= q < height) by (nonlinear_arith)
        requires
            0 <= i < width * height,
            0 < width,
            i == q * width + i % width,
            0 <= i % width < width,
    ;
}

/// A coordinate inside the grid is stored inside the cell sequence, and
/// its column and row can be recovered from where it is stored.
pub proof fn lemma_index_of_position(g: GridModel, x: int, y: int)
    requires
        g.wf(),
        g.in_bounds(x, y),
    ensures
        0 <= g.index(x, y) < g.cells.len(),
        g.column(g.index(x, y)) == x,
        g.row(g.index(x, y)) == y,
{
    lemma_row_major_index(g.width, g.height, x, y);
}

/// Every stored position is the position of exactly one coordinate inside
/// the grid.
pub proof fn lemma_position_of_index(g: GridModel, i: int)
    requires
        g.wf(),
        0 <= i < g.cells.len(),
    ensures
        g.in_bounds(g.column(i), g.row(i)),
        g.index(g.column(i), g.row(i)) == i,
{
    lemma_row_major_position(g.width, g.height, i);
}

/// The integer codes of a sequence of cells.
pub open spec fn cell_codes(cells: Seq<Cell>) -> Seq<u32> {
    Seq::new(cells.len(), |i: int| cells[i].spec_code())
}

/// Where a rectangle of the given width, stored row by row, keeps the
/// element at `(x, y)`.
pub open spec fn slot(width: int, x: int, y: int) -> int {
    y * width + x
}

/// Builds a `width` by `height` rectangle row by row, asking `element` once
/// for each coordinate.
pub(crate) fn row_major<T, F: Fn(u32, u32) -> T>(width: u32, height: u32, element: F) -> (elements:
    Vec<T>)
    requires
        width * height <= usize::MAX,
        forall|x: u32, y: u32| x < width && y < height ==> call_requires(element, (x, y)),
    ensures
        elements@.len() == width * height,
        forall|x: u32, y: u32|
            x < width && y < height ==> 0 <= slot(width as int, x as int, y as int)
                < elements@.len() && call_ensures(
                element,
                (x, y),
                #[trigger] elements@[slot(width as int, x as int, y as int)],
            ),
{
    let mut elements: Vec<T> = Vec::with_capacity((width as usize) * (height as usize));
    let mut y: u32 = 0;
    while y < height
        invariant
            y <= height,
            width * height <= usize::MAX,
            elements@.len() == y * width,
            forall|x: u32, y: u32| x < width && y < height ==> call_requires(element, (x, y)),
            forall|cx: u32, cy: u32|
                cx < width && cy < height && slot(width as int, cx as int, cy as int)
                    < elements@.len() ==> call_ensures(
                    element,
                    (cx, cy),
                    #[trigger] elements@[slot(width as int, cx as int, cy as int)],
                ),
        decreases height - y,
    {
        let mut x: u32 = 0;
        while x < width
            invariant
                y < height,
                x <= width,
                width * height <= usize::MAX,
                elements@.len() == y * width + x,
                forall|x: u32, y: u32| x < width && y < height ==> call_requires(element, (x, y)),
                forall|cx: u32, cy: u32|
                    cx < width && cy < height && slot(width as int, cx as int, cy as int)
                        < elements@.len() ==> call_ensures(
                        element,
                        (cx, cy),
                        #[trigger] elements@[slot(width as int, cx as int, cy as int)],
                    ),
            decreases width - x,
        {
            let value = element(x, y);
            let ghost before = elements@;
            elements.push(value);
            proof {
                assert forall|cx: u32, cy: u32|
                    cx < width && cy < height && slot(width as int, cx as int, cy as int)
                        < elements@.len() implies call_ensures(
                    element,
                    (cx, cy),
                    #[trigger] elements@[slot(width as int, cx as int, cy as int)],
                ) by {
                    lemma_row_major_index(width as int, height as int, cx as int, cy as int);
                    lemma_row_major_index(width as int, height as int, x as int, y as int);
                    let k = slot(width as int, cx as int, cy as int);
                    if k < before.len() {
                        assert(elements@[k] == before[k]);
                    }
                }
            }
            x = x + 1;
        }
        proof {
            assert(y * width + width == (y + 1) * width) by (nonlinear_arith);
        }
        y = y + 1;
    }
    proof {
        assert(height * width == width * height) by (nonlinear_arith);
        assert forall|x: u32, y: u32| x < width && y < height implies 0 <= #[trigger] slot(
            width as int,
            x as int,
            y as int,
        ) < elements@.len() by {
            lemma_row_major_index(width as int, height as int, x as int, y as int);
        }
    }
    elements
}

/// One generation of the simulated world.
///
/// A grid is only ever built whole: by `create`, or by a step of the update
/// engine that writes a complete new generation. Every grid that these hand
/// out is well formed (`wf` of its model), and the methods rely on that.
#[derive(Clone, PartialEq, Eq, Debug)]
pub struct Grid {
    width: u32,
    height: u32,
    cells: Vec<Cell>,
}

impl View for Grid {
    type V = GridModel;

    closed spec fn view(&self) -> GridModel {
        GridModel { width: self.width as int, height: self.height as int, cells: self.cells@ }
    }
}

impl Grid {
    /// Allocates a `width` by `height` grid and fills every cell with what
    /// `seed` returns for its coordinate. Fails exactly when a dimension is
    /// zero.
    pub fn create<F: Fn(u32, u32) -> Cell>(width: u32, height: u32, seed: F) -> (grid: Result<
        Grid,
        ConfigError,
    >)
        requires
            width * height <= usize::MAX,
            forall|x: u32, y: u32| x < width && y < height ==> call_requires(seed, (x, y)),
        ensures
            grid is Err <==> width == 0 || height == 0,
            grid matches Err(e) ==> e == ConfigError::ZeroDimension,
            grid matches Ok(g) ==> {
                &&& g@.wf()
                &&& g@.width == width
                &&& g@.height == height
                &&& forall|x: u32, y: u32|
                    x < width && y < height ==> call_ensures(
                        seed,
                        (x, y),
                        #[trigger] g@.read(x as int, y as int),
                    )
            },
    {
        if width == 0 || height == 0 {
            return Err(ConfigError::ZeroDimension);
        }
        let cells = row_major(width, height, seed);
        let grid = Grid { width, height, cells };
        proof {
            assert forall|x: u32, y: u32| x < width && y < height implies call_ensures(
                seed,
                (x, y),
                #[trigger] grid@.read(x as int, y as int),
            ) by {
                assert(grid@.index(x as int, y as int) == slot(width as int, x as int, y as int));
            }
        }
        Ok(grid)
    }

    /// Both dimensions of a grid are 32-bit numbers.
    pub proof fn lemma_dimensions_fit(&self)
        ensures
            self@.width <= u32::MAX,
            self@.height <= u32::MAX,
    {
    }

    pub fn width(&self) -> (width: u32)
        ensures
            width == self@.width,
    {
        self.width
    }

    pub fn height(&self) -> (height: u32)
        ensures
            height == self@.height,
    {
        self.height
    }

    /// A grid of the same size as this one with every cell `Empty`, on
    /// storage of its own.
    pub fn blank_like(&self) -> (blank: Grid)
        requires
            self@.wf(),
        ensures
            blank@.wf(),
            blank@.same_size(self@),
            forall|i: int| 0 <= i < blank@.cells.len() ==> blank@.cells[i] == Cell::Empty,
    {
        let count = self.cells.len();
        let mut cells: Vec<Cell> = Vec::with_capacity(count);
        while cells.len() < count
            invariant
                cells@.len() <= count,
                forall|i: int| 0 <= i < cells@.len() ==> cells@[i] == Cell::Empty,
            decreases count - cells@.len(),
        {
            cells.push(Cell::Empty);
        }
        Grid { width: self.width, height: self.height, cells }
    }

    /// How many cells of the given kind the grid holds.
    pub fn count(&self, kind: Cell) -> (n: usize)
        ensures
            n == self@.cells.to_multiset().count(kind),
    {
        let mut n: usize = 0;
        let mut i: usize = 0;
        proof {
            let none = self.cells@.take(0);
            none.to_multiset_ensures();
            assert(!none.contains(kind));
        }
        while i < self.cells.len()
            invariant
                i <= self.cells.len(),
                n <= i,
                n == self.cells@.take(i as int).to_multiset().count(kind),
            decreases self.cells.len() - i,
        {
            proof {
                let seen = self.cells@.take(i as int);
                assert(self.cells@.take(i + 1) =~= seen.push(self.cells@[i as int]));
                to_multiset_build(seen, self.cells@[i as int]);
            }
            if self.cells[i] == kind {
                n = n + 1;
            }
            i = i + 1;
        }
        assert(self.cells@.take(i as int) =~= self.cells@);
        n
    }

    /// The integer codes of the cells, in storage order.
    pub fn codes(&self) -> (codes: Vec<u32>)
        ensures
            codes@ == cell_codes(self@.cells),
    {
        let mut codes: Vec<u32> = Vec::with_capacity(self.cells.len());
        let mut i: usize = 0;
        while i < self.cells.len()
            invariant
                i <= self.cells.len(),
                codes@.len() == i,
                forall|k: int| 0 <= k < i ==> codes@[k] == self.cells@[k].spec_code(),
            decreases self.cells.len() - i,
        {
            codes.push(self.cells[i].code());
            i = i + 1;
        }
        assert(codes@ =~= cell_codes(self@.cells));
        codes
    }

    /// Overwrites the cell at `(x, y)` and nothing else. Only the update
    /// engine writes, and only into the buffer of the generation it is
    /// producing.
    pub(crate) fn write(&mut self, x: u32, y: u32, cell: Cell)
        requires
            old(self)@.wf(),
            old(self)@.in_bounds(x as int, y as int),
        ensures
            final(self)@.wf(),
            final(self)@.same_size(old(self)@),
            forall|cx: int, cy: int|
                #[trigger] final(self)@.read(cx, cy) == if cx == x && cy == y {
                    cell
                } else {
                    old(self)@.read(cx, cy)
                },
    {
        proof {
            lemma_index_of_position(self@, x as int, y as int);
            assert(self.cells.len() <= usize::MAX);
            assert(0 <= y * self.width) by (nonlinear_arith)
                requires
                    0 <= y,
                    0 <= self.width,
            ;
        }
        let ghost before = self@;
        let i = (y as usize) * (self.width as usize) + (x as usize);
        self.cells.set(i, cell);
        proof {
            assert forall|cx: int, cy: int|
                #[trigger] self@.read(cx, cy) == if cx == x && cy == y {
                    cell
                } else {
                    before.read(cx, cy)
                } by {
                if before.in_bounds(cx, cy) {
                    lemma_index_of_position(before, cx, cy);
                }
            }
        }
    }

    /// The cell at `(x, y)`. Coordinates outside the grid, negative ones
    /// included, read as `Solid`.
    pub fn read(&self, x: i64, y: i64) -> (cell: Cell)
        requires
            self@.wf(),
        ensures
            cell == self@.read(x as int, y as int),
    {
        if 0 <= x && x < self.width as i64 && 0 <= y && y < self.height as i64 {
            let column = x as usize;
            let row = y as usize;
            let width = self.width as usize;
            proof {
                lemma_index_of_position(self@, x as int, y as int);
                assert(self.cells.len() <= usize::MAX);
                assert(self@.index(x as int, y as int) == row * width + column);
                assert(0 <= row * width) by (nonlinear_arith)
                    requires
                        0 <= row,
                        0 <= width,
                ;
            }
            let i = row * width + column;
            self.cells[i]
        } else {
            Cell::Solid
        }
    }
}

} // verus!
