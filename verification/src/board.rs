//! The board: a rectangle of cells, each empty or holding one player's mark.

use vstd::prelude::*;
use vstd::string::StringExecFns;

verus! {

/// A coordinate on the board, or one of its dimensions.
pub type Coord = usize;

/// What a cell holds: nothing, or the mark of one player.
pub type Cell = Option<PlayerMark>;

/// The two sides of the game.
#[derive(Debug, Clone, Copy, PartialEq, Eq, Structural)]
pub enum PlayerMark {
    X,
    O,
}

/// Why a pair of coordinates names no cell of a board. Each fault names the
/// axis that failed, the bound on that axis and the coordinate given.
#[derive(Debug, Clone, Copy, PartialEq, Eq, Structural)]
pub enum OutOfBounds {
    /// The column is not below the width.
    X { width: Coord, x: Coord },
    /// The column is in range, but the row is not below the height.
    Y { height: Coord, y: Coord },
}

/// The mathematical model of a board: its dimensions and its cells in
/// row-major order.
pub struct Grid {
    pub width: nat,
    pub height: nat,
    pub cells: Seq<Cell>,
}

impl Grid {
    /// Both dimensions are positive and there is one cell per coordinate.
    pub open spec fn wf(self) -> bool {
        &&& self.width > 0
        &&& self.height > 0
        &&& self.cells.len() == self.width * self.height
    }

    /// Whether `(x, y)` names a cell of the grid.
    pub open spec fn in_bounds(self, x: int, y: int) -> bool {
        0 <= x < self.width && 0 <= y < self.height
    }

    /// What a bounds check of `(x, y)` reports. The column is checked first.
    pub open spec fn check(self, x: Coord, y: Coord) -> Result<(), OutOfBounds> {
        if x >= self.width {
            Err(OutOfBounds::X { width: self.width as Coord, x })
        } else if y >= self.height {
            Err(OutOfBounds::Y { height: self.height as Coord, y })
        } else {
            Ok(())
        }
    }

    /// The position of the cell `(x, y)` in the row-major cell sequence.
    pub open spec fn offset(self, x: int, y: int) -> int {
        y * self.width + x
    }

    /// The cell at `(x, y)`.
    pub open spec fn at(self, x: int, y: int) -> Cell {
        self.cells[self.offset(x, y)]
    }

    /// The grid with the cell at `(x, y)` replaced by `cell`.
    pub open spec fn put(self, x: int, y: int, cell: Cell) -> Grid {
        Grid { cells: self.cells.update(self.offset(x, y), cell), ..self }
    }

    /// The character that stands for a cell in the text form of a grid.
    pub open spec fn glyph(cell: Cell) -> char {
        match cell {
            None => ' ',
            Some(PlayerMark::X) => 'x',
            Some(PlayerMark::O) => 'o',
        }
    }

    /// The first `count` cells of row `y` as text.
    pub open spec fn glyphs(self, y: int, count: int) -> Seq<char> {
        Seq::new(count as nat, |x: int| Grid::glyph(self.at(x, y)))
    }

    /// Row `y` as text: one character per cell, then a line feed.
    pub open spec fn line(self, y: int) -> Seq<char> {
        self.glyphs(y, self.width as int).push('\n')
    }

    /// The first `count` rows as text, one after the other.
    pub open spec fn lines(self, count: nat) -> Seq<char>
        decreases count,
    {
        if count == 0 {
            Seq::empty()
        } else {
            self.lines((count - 1) as nat) + self.line(count - 1)
        }
    }

    /// The text form of the grid: its rows from top to bottom.
    pub open spec fn text(self) -> Seq<char> {
        self.lines(self.height)
    }

    /// The grid of the given dimensions with every cell empty.
    pub open spec fn blank(width: nat, height: nat) -> Grid {
        Grid { width, height, cells: Seq::new(width * height, |i: int| None::<PlayerMark>) }
    }
}

/// A cell's offset lies inside the cell sequence.
pub proof fn lemma_offset_in_range(grid: Grid, x: int, y: int)
    requires
        grid.wf(),
        grid.in_bounds(x, y),
    ensures
        0 <= y * grid.width <= grid.offset(x, y) < grid.cells.len(),
{
    let w = grid.width as int;
    let h = grid.height as int;
    assert(y * w + x < h * w) by (nonlinear_arith)
        requires
            0 <= x < w,
            0 <= y < h,
    ;
    assert(0 <= y * w) by (nonlinear_arith)
        requires
            0 <= w,
            0 <= y,
    ;
    assert(h * w == w * h) by (nonlinear_arith);
}

/// Cells at different coordinates lie at different offsets.
pub proof fn lemma_offset_injective(grid: Grid, x1: int, y1: int, x2: int, y2: int)
    requires
        grid.in_bounds(x1, y1),
        grid.in_bounds(x2, y2),
        grid.offset(x1, y1) == grid.offset(x2, y2),
    ensures
        x1 == x2,
        y1 == y2,
{
    let w = grid.width as int;
    assert(y1 == y2) by (nonlinear_arith)
        requires
            0 <= x1 < w,
            0 <= x2 < w,
            y1 * w + x1 == y2 * w + x2,
    ;
}

/// The bounds are exclusive: no cell lies in column `width` or in row
/// `height`, and the last column of the last row holds one.
pub proof fn lemma_bounds(grid: Grid, x: int, y: int)
    requires
        grid.wf(),
    ensures
        !grid.in_bounds(grid.width as int, y),
        !grid.in_bounds(x, grid.height as int),
        grid.in_bounds(grid.width - 1, grid.height - 1),
{
}

/// A blank grid is well formed and every cell of it is empty.
pub proof fn lemma_blank(width: nat, height: nat, x: int, y: int)
    requires
        width > 0,
        height > 0,
        0 <= x < width,
        0 <= y < height,
    ensures
        Grid::blank(width, height).wf(),
        Grid::blank(width, height).at(x, y) is None,
{
    lemma_offset_in_range(Grid::blank(width, height), x, y);
}

/// A cell that was written reads back as written, and the grid keeps its
/// shape.
pub proof fn lemma_put_at(grid: Grid, x: int, y: int, cell: Cell)
    requires
        grid.wf(),
        grid.in_bounds(x, y),
    ensures
        grid.put(x, y, cell).at(x, y) == cell,
        grid.put(x, y, cell).wf(),
        grid.put(x, y, cell).width == grid.width,
        grid.put(x, y, cell).height == grid.height,
{
    lemma_offset_in_range(grid, x, y);
}

/// Of two writes to one cell only the second shows.
pub proof fn lemma_put_put(grid: Grid, x: int, y: int, first: Cell, second: Cell)
    requires
        grid.wf(),
        grid.in_bounds(x, y),
    ensures
        grid.put(x, y, first).put(x, y, second) == grid.put(x, y, second),
        grid.put(x, y, first).put(x, y, second).at(x, y) == second,
{
    lemma_offset_in_range(grid, x, y);
    assert(grid.put(x, y, first).put(x, y, second).cells =~= grid.put(x, y, second).cells);
}

/// A write to one cell leaves every other cell as it was.
pub proof fn lemma_put_at_other(grid: Grid, x: int, y: int, cell: Cell, other_x: int, other_y: int)
    requires
        grid.wf(),
        grid.in_bounds(x, y),
        grid.in_bounds(other_x, other_y),
        x != other_x || y != other_y,
    ensures
        grid.put(x, y, cell).at(other_x, other_y) == grid.at(other_x, other_y),
{
    lemma_offset_in_range(grid, x, y);
    lemma_offset_in_range(grid, other_x, other_y);
    if grid.offset(x, y) == grid.offset(other_x, other_y) {
        lemma_offset_injective(grid, x, y, other_x, other_y);
    }
}

/// The first `count` rows of a grid take `width + 1` characters each: the
/// cell `(x, y)` shows at index `y * (width + 1) + x`, and a line feed ends
/// each row.
pub proof fn lemma_lines_layout(grid: Grid, count: nat, x: int, y: int)
    requires
        0 <= x < grid.width,
        0 <= y < count,
    ensures
        grid.lines(count).len() == count * (grid.width + 1),
        0 <= y * (grid.width + 1) + x < y * (grid.width + 1) + grid.width < grid.lines(
            count,
        ).len(),
        grid.lines(count)[y * (grid.width + 1) + x] == Grid::glyph(grid.at(x, y)),
        grid.lines(count)[y * (grid.width + 1) + grid.width] == '\n',
    decreases count,
{
    let stride = grid.width + 1;
    assert((count - 1) * stride + stride == count * stride) by (nonlinear_arith);
    assert(0 <= y * stride && y * stride + stride <= count * stride) by (nonlinear_arith)
        requires
            0 <= y < count,
            stride > 0,
    ;
    if count == 1 {
        assert(0 * stride == 0) by (nonlinear_arith);
    } else {
        lemma_lines_layout(grid, (count - 1) as nat, x, if y < count - 1 {
            y
        } else {
            0
        });
    }
}

/// The text of a grid has `width + 1` characters for each row: the cell
/// `(x, y)` shows at index `y * (width + 1) + x`, and a line feed ends each
/// row.
pub proof fn lemma_text_layout(grid: Grid, x: int, y: int)
    requires
        grid.in_bounds(x, y),
    ensures
        grid.text().len() == grid.height * (grid.width + 1),
        0 <= y * (grid.width + 1) + x < y * (grid.width + 1) + grid.width < grid.text().len(),
        grid.text()[y * (grid.width + 1) + x] == Grid::glyph(grid.at(x, y)),
        grid.text()[y * (grid.width + 1) + grid.width] == '\n',
{
    lemma_lines_layout(grid, grid.height, x, y);
}

/// A board of fixed size.
#[derive(Debug)]
pub struct Board {
    width: Coord,
    height: Coord,
    cells: Vec<Cell>,
}

impl View for Board {
    type V = Grid;

    closed spec fn view(&self) -> Grid {
        Grid { width: self.width as nat, height: self.height as nat, cells: self.cells@ }
    }
}

impl Board {
    /// Holds of every value of this type.
    #[verifier::type_invariant]
    pub open spec fn well_formed(self) -> bool {
        self@.wf()
    }

    /// A board of `width` by `height` empty cells.
    pub fn new(width: Coord, height: Coord) -> (board: Self)
        requires
            width > 0,
            height > 0,
            width * height <= usize::MAX,
        ensures
            board@ == Grid::blank(width as nat, height as nat),
            board@.wf(),
    {
        let cells: Vec<Cell> = vec![None; width * height];
        assert(cells@ =~= Grid::blank(width as nat, height as nat).cells);
        Self { width, height, cells }
    }

    /// The number of columns.
    pub fn width(&self) -> (width: Coord)
        ensures
            width == self@.width,
    {
        self.width
    }

    /// The number of rows.
    pub fn height(&self) -> (height: Coord)
        ensures
            height == self@.height,
    {
        self.height
    }

    /// The cells, row after row.
    pub fn cells(&self) -> (cells: &Vec<Cell>)
        ensures
            cells@ == self@.cells,
    {
        &self.cells
    }

    /// Checks that `(x, y)` names a cell of the board, and says which axis
    /// fails where it does not.
    pub fn check_bounds(&self, x: Coord, y: Coord) -> (checked: Result<(), OutOfBounds>)
        ensures
            checked == self@.check(x, y),
            checked.is_ok() == self@.in_bounds(x as int, y as int),
    {
        if x >= self.width {
            Err(OutOfBounds::X { width: self.width, x })
        } else if y >= self.height {
            Err(OutOfBounds::Y { height: self.height, y })
        } else {
            Ok(())
        }
    }

    /// The board as text: one line per row, one character per cell, a space
    /// for an empty cell, `x` and `o` for the marks.
    pub fn render(&self) -> (text: String)
        ensures
            text@ == self@.text(),
    {
        proof {
            use_type_invariant(self);
        }
        let mut text = String::new();
        let mut y: Coord = 0;
        while y < self.height
            invariant
                self@.wf(),
                y <= self.height,
                text@ == self@.lines(y as nat),
            decreases self.height - y,
        {
            let mut x: Coord = 0;
            while x < self.width
                invariant
                    self@.wf(),
                    y < self.height,
                    x <= self.width,
                    text@ == self@.lines(y as nat) + self@.glyphs(y as int, x as int),
                decreases self.width - x,
            {
                proof {
                    reveal_strlit(" ");
                    reveal_strlit("x");
                    reveal_strlit("o");
                }
                match self.get(x, y) {
                    None => text.append(" "),
                    Some(PlayerMark::X) => text.append("x"),
                    Some(PlayerMark::O) => text.append("o"),
                }
                assert(self@.glyphs(y as int, x + 1) == self@.glyphs(y as int, x as int).push(
                    Grid::glyph(self@.at(x as int, y as int)),
                ));
                x += 1;
            }
            proof {
                reveal_strlit("\n");
            }
            text.append("\n");
            y += 1;
        }
        text
    }

    /// Where the cell `(x, y)` lies among the cells.
    fn offset(&self, x: Coord, y: Coord) -> (index: usize)
        requires
            self@.in_bounds(x as int, y as int),
        ensures
            index == self@.offset(x as int, y as int),
            index < self.cells.len(),
    {
        proof {
            use_type_invariant(self);
            lemma_offset_in_range(self@, x as int, y as int);
            assert(self@.cells.len() == self.cells.len());
        }
        y * self.width + x
    }

    /// The cell at `(x, y)`.
    pub fn get(&self, x: Coord, y: Coord) -> (cell: Cell)
        requires
            self@.in_bounds(x as int, y as int),
        ensures
            cell == self@.at(x as int, y as int),
    {
        let index: usize = self.offset(x, y);
        self.cells[index]
    }

    /// Overwrites the cell at `(x, y)`.
    pub fn set(&mut self, x: Coord, y: Coord, cell: Cell)
        requires
            old(self)@.in_bounds(x as int, y as int),
        ensures
            final(self)@ == old(self)@.put(x as int, y as int, cell),
            final(self)@.wf(),
    {
        proof {
            use_type_invariant(&*self);
        }
        let index: usize = self.offset(x, y);
        self.cells[index] = cell;
    }
}

} // verus!
