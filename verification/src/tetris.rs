//! The pieces of the game and one player's board: the shapes and their
//! orientations, a piece on the field, and the board with its moves, its
//! ticks, its line clears and its end.

use crate::grid::{
    clear_full_rows, copy_field, empty_grid, full_row_count, grid_view, grid_width,
    lemma_clear_full_rows, lemma_with_garbage, new_field, push_garbage_rows, rectangular,
    remove_full_rows, with_garbage,
};
use crate::random::gen_below;
use vstd::prelude::*;
use vstd::std_specs::ops::AddSpecImpl;

verus! {

/// One cell of a playing field: empty, or filled by a piece of the given colour.
#[derive(Debug, Clone, Copy, PartialEq, Eq, Hash, Structural)]
pub enum CellType {
    Empty,
    I,
    J,
    L,
    O,
    S,
    T,
    Z,
}

/// One of the four orientations of a piece, counted in clockwise quarter turns.
#[derive(Debug, Clone, Copy, PartialEq, Eq, Hash, Structural)]
pub enum Rotation {
    R0,
    R90,
    R180,
    R270,
}

impl Rotation {
    /// The number of clockwise quarter turns, in `0..4`.
    pub open spec fn quarter_turns(self) -> int {
        match self {
            Rotation::R0 => 0,
            Rotation::R90 => 1,
            Rotation::R180 => 2,
            Rotation::R270 => 3,
        }
    }

    /// The orientation reached after `n` clockwise quarter turns from `R0`,
    /// for any integer `n` (negative turns are counter-clockwise).
    pub open spec fn from_quarter_turns(n: int) -> Rotation {
        let k = n % 4;
        if k == 0 {
            Rotation::R0
        } else if k == 1 {
            Rotation::R90
        } else if k == 2 {
            Rotation::R180
        } else {
            Rotation::R270
        }
    }

    /// Composition in the cyclic group of order four.
    pub open spec fn compose(self, other: Rotation) -> Rotation {
        Rotation::from_quarter_turns(self.quarter_turns() + other.quarter_turns())
    }

    /// The orientation one quarter turn clockwise from this one.
    pub open spec fn turned_right(self) -> Rotation {
        Rotation::from_quarter_turns(self.quarter_turns() + 1)
    }

    /// The orientation one quarter turn counter-clockwise from this one.
    pub open spec fn turned_left(self) -> Rotation {
        Rotation::from_quarter_turns(self.quarter_turns() - 1)
    }

    /// One quarter turn counter-clockwise.
    pub fn rotate_left(&self) -> (r: Rotation)
        ensures
            r == self.turned_left(),
    {
        match self {
            Rotation::R0 => Rotation::R270,
            Rotation::R90 => Rotation::R0,
            Rotation::R180 => Rotation::R90,
            Rotation::R270 => Rotation::R180,
        }
    }

    /// One quarter turn clockwise.
    pub fn rotate_right(&self) -> (r: Rotation)
        ensures
            r == self.turned_right(),
    {
        match self {
            Rotation::R0 => Rotation::R90,
            Rotation::R90 => Rotation::R180,
            Rotation::R180 => Rotation::R270,
            Rotation::R270 => Rotation::R0,
        }
    }
}

impl core::ops::Add<Rotation> for Rotation {
    type Output = Rotation;

    /// Turns this orientation on by the other.
    fn add(self, other: Rotation) -> (r: Rotation) {
        match other {
            Rotation::R0 => self,
            Rotation::R90 => self.rotate_right(),
            Rotation::R180 => self.rotate_right().rotate_right(),
            Rotation::R270 => self.rotate_left(),
        }
    }
}

impl AddSpecImpl<Rotation> for Rotation {
    open spec fn obeys_add_spec() -> bool {
        true
    }

    open spec fn add_req(self, other: Rotation) -> bool {
        true
    }

    open spec fn add_spec(self, other: Rotation) -> Rotation {
        self.compose(other)
    }
}

impl Rotation {
    /// Four quarter turns in the same direction lead back to the start.
    pub proof fn lemma_four_turns_identity(self)
        ensures
            self.turned_right().turned_right().turned_right().turned_right() == self,
            self.turned_left().turned_left().turned_left().turned_left() == self,
    {
    }

    /// A quarter turn and the opposite quarter turn cancel.
    pub proof fn lemma_opposite_turns_cancel(self)
        ensures
            self.turned_right().turned_left() == self,
            self.turned_left().turned_right() == self,
    {
    }

    /// Composition is closed over the four orientations, commutative and
    /// associative, with `R0` as its unit; a quarter turn is composition
    /// with `R90` or `R270`.
    pub proof fn lemma_compose_is_cyclic_group(a: Rotation, b: Rotation, c: Rotation)
        ensures
            a.compose(b) == b.compose(a),
            a.compose(b).compose(c) == a.compose(b.compose(c)),
            a.compose(Rotation::R0) == a,
            a.compose(Rotation::R90) == a.turned_right(),
            a.compose(Rotation::R270) == a.turned_left(),
            Rotation::from_quarter_turns(a.quarter_turns()) == a,
            0 <= a.compose(b).quarter_turns() < 4,
    {
    }
}

/// The occupancy mask of a piece in its canonical orientation, inside a
/// four by four box, with the size of the part of the box that it uses.
#[derive(Debug, Clone, Copy)]
pub struct TetrominoMatrix {
    matrix: [[bool; 4]; 4],
    width: usize,
    height: usize,
}

impl TetrominoMatrix {
    /// The bounding box is at least one cell and lies inside the mask.
    pub closed spec fn wf(&self) -> bool {
        &&& 1 <= self.width <= 4
        &&& 1 <= self.height <= 4
    }

    /// Width of the bounding box in the canonical orientation.
    pub closed spec fn base_width(&self) -> int {
        self.width as int
    }

    /// Height of the bounding box in the canonical orientation.
    pub closed spec fn base_height(&self) -> int {
        self.height as int
    }

    /// Whether the canonical mask is set at column `x` of row `y`; cells
    /// outside the bounding box are never set.
    pub closed spec fn base_cell(&self, x: int, y: int) -> bool {
        &&& 0 <= x < self.width
        &&& 0 <= y < self.height
        &&& self.matrix[y][x]
    }

    /// Width of the bounding box after turning the mask.
    pub open spec fn width_at(&self, rotation: Rotation) -> int {
        match rotation {
            Rotation::R0 | Rotation::R180 => self.base_width(),
            Rotation::R90 | Rotation::R270 => self.base_height(),
        }
    }

    /// Height of the bounding box after turning the mask.
    pub open spec fn height_at(&self, rotation: Rotation) -> int {
        match rotation {
            Rotation::R0 | Rotation::R180 => self.base_height(),
            Rotation::R90 | Rotation::R270 => self.base_width(),
        }
    }

    /// Whether the turned mask is set at column `x` of row `y` of the turned
    /// bounding box. Nothing is set outside that box.
    pub open spec fn cell_at(&self, x: int, y: int, rotation: Rotation) -> bool {
        let w = self.base_width();
        let h = self.base_height();
        &&& 0 <= x < self.width_at(rotation)
        &&& 0 <= y < self.height_at(rotation)
        &&& match rotation {
            Rotation::R0 => self.base_cell(x, y),
            Rotation::R90 => self.base_cell(y, h - 1 - x),
            Rotation::R180 => self.base_cell(w - 1 - x, h - 1 - y),
            Rotation::R270 => self.base_cell(w - 1 - y, x),
        }
    }

    /// Width of the bounding box after turning the mask.
    pub fn get_width(&self, rotation: &Rotation) -> (w: usize)
        ensures
            w == self.width_at(*rotation),
    {
        match rotation {
            Rotation::R0 => self.width,
            Rotation::R90 => self.height,
            Rotation::R180 => self.width,
            Rotation::R270 => self.height,
        }
    }

    /// Height of the bounding box after turning the mask.
    pub fn get_height(&self, rotation: &Rotation) -> (h: usize)
        ensures
            h == self.height_at(*rotation),
    {
        match rotation {
            Rotation::R0 => self.height,
            Rotation::R90 => self.width,
            Rotation::R180 => self.height,
            Rotation::R270 => self.width,
        }
    }

    /// Looks up one cell of the turned mask; a position outside the turned
    /// bounding box is not occupied.
    pub fn get_cell(&self, x: usize, y: usize, rotation: &Rotation) -> (b: bool)
        requires
            self.wf(),
        ensures
            b == self.cell_at(x as int, y as int, *rotation),
    {
        if x >= self.get_width(rotation) || y >= self.get_height(rotation) {
            return false;
        }
        match rotation {
            Rotation::R0 => self.matrix[y][x],
            Rotation::R90 => self.matrix[self.height - x - 1][y],
            Rotation::R180 => self.matrix[self.height - y - 1][self.width - x - 1],
            Rotation::R270 => self.matrix[x][self.width - y - 1],
        }
    }
}

/// The seven piece shapes.
#[derive(Debug, Clone, Copy, PartialEq, Eq, Hash, Structural)]
pub enum TetrominoType {
    I,
    J,
    L,
    O,
    S,
    T,
    Z,
}

/// The canonical mask of each shape.
pub fn get_tetromino_matrix(tetromino_type: &TetrominoType) -> (m: TetrominoMatrix)
    ensures
        m.wf(),
        m.base_width() == tetromino_type.base_width(),
        m.base_height() == tetromino_type.base_height(),
        forall|x: int, y: int| #[trigger] m.base_cell(x, y) == tetromino_type.base_cell(x, y),
{
    match tetromino_type {
        TetrominoType::I => TetrominoMatrix {
            matrix: [
                [true, true, true, true],
                [false, false, false, false],
                [false, false, false, false],
                [false, false, false, false],
            ],
            width: 4,
            height: 1,
        },
        TetrominoType::J => TetrominoMatrix {
            matrix: [
                [true, false, false, false],
                [true, true, true, false],
                [false, false, false, false],
                [false, false, false, false],
            ],
            width: 3,
            height: 2,
        },
        TetrominoType::L => TetrominoMatrix {
            matrix: [
                [false, false, true, false],
                [true, true, true, false],
                [false, false, false, false],
                [false, false, false, false],
            ],
            width: 3,
            height: 2,
        },
        TetrominoType::O => TetrominoMatrix {
            matrix: [
                [true, true, false, false],
                [true, true, false, false],
                [false, false, false, false],
                [false, false, false, false],
            ],
            width: 2,
            height: 2,
        },
        TetrominoType::S => TetrominoMatrix {
            matrix: [
                [false, true, true, false],
                [true, true, false, false],
                [false, false, false, false],
                [false, false, false, false],
            ],
            width: 3,
            height: 2,
        },
        TetrominoType::T => TetrominoMatrix {
            matrix: [
                [false, true, false, false],
                [true, true, true, false],
                [false, false, false, false],
                [false, false, false, false],
            ],
            width: 3,
            height: 2,
        },
        TetrominoType::Z => TetrominoMatrix {
            matrix: [
                [true, true, false, false],
                [false, true, true, false],
                [false, false, false, false],
                [false, false, false, false],
            ],
            width: 3,
            height: 2,
        },
    }
}

impl TetrominoType {
    /// The shape with the given number, `0` to `6` in the order I, J, L, O,
    /// S, T, Z; any other number gives I.
    pub open spec fn from_index(n: int) -> TetrominoType {
        if n == 1 {
            TetrominoType::J
        } else if n == 2 {
            TetrominoType::L
        } else if n == 3 {
            TetrominoType::O
        } else if n == 4 {
            TetrominoType::S
        } else if n == 5 {
            TetrominoType::T
        } else if n == 6 {
            TetrominoType::Z
        } else {
            TetrominoType::I
        }
    }

    /// Width of the shape's bounding box in its canonical orientation.
    pub open spec fn base_width(self) -> int {
        match self {
            TetrominoType::I => 4,
            TetrominoType::O => 2,
            _ => 3,
        }
    }

    /// Height of the shape's bounding box in its canonical orientation.
    pub open spec fn base_height(self) -> int {
        match self {
            TetrominoType::I => 1,
            _ => 2,
        }
    }

    /// The four cells of the shape in its canonical orientation, by column
    /// `x` and row `y` of its bounding box.
    pub open spec fn base_cell(self, x: int, y: int) -> bool {
        match self {
            TetrominoType::I => y == 0 && 0 <= x < 4,
            TetrominoType::J => (y == 0 && x == 0) || (y == 1 && 0 <= x < 3),
            TetrominoType::L => (y == 0 && x == 2) || (y == 1 && 0 <= x < 3),
            TetrominoType::O => 0 <= y < 2 && 0 <= x < 2,
            TetrominoType::S => (y == 0 && 1 <= x < 3) || (y == 1 && 0 <= x < 2),
            TetrominoType::T => (y == 0 && x == 1) || (y == 1 && 0 <= x < 3),
            TetrominoType::Z => (y == 0 && 0 <= x < 2) || (y == 1 && 1 <= x < 3),
        }
    }

    /// Width of the bounding box in the given orientation.
    pub open spec fn width(self, rotation: Rotation) -> int {
        match rotation {
            Rotation::R0 | Rotation::R180 => self.base_width(),
            Rotation::R90 | Rotation::R270 => self.base_height(),
        }
    }

    /// Height of the bounding box in the given orientation.
    pub open spec fn height(self, rotation: Rotation) -> int {
        match rotation {
            Rotation::R0 | Rotation::R180 => self.base_height(),
            Rotation::R90 | Rotation::R270 => self.base_width(),
        }
    }

    /// Whether the shape, in the given orientation, occupies column `x` of
    /// row `y` of its bounding box. Nothing is occupied outside the box.
    pub open spec fn cell(self, x: int, y: int, rotation: Rotation) -> bool {
        let w = self.base_width();
        let h = self.base_height();
        &&& 0 <= x < self.width(rotation)
        &&& 0 <= y < self.height(rotation)
        &&& match rotation {
            Rotation::R0 => self.base_cell(x, y),
            Rotation::R90 => self.base_cell(y, h - 1 - x),
            Rotation::R180 => self.base_cell(w - 1 - x, h - 1 - y),
            Rotation::R270 => self.base_cell(w - 1 - y, x),
        }
    }

    /// The colour that this shape leaves in the field.
    pub open spec fn cell_type(self) -> CellType {
        match self {
            TetrominoType::I => CellType::I,
            TetrominoType::J => CellType::J,
            TetrominoType::L => CellType::L,
            TetrominoType::O => CellType::O,
            TetrominoType::S => CellType::S,
            TetrominoType::T => CellType::T,
            TetrominoType::Z => CellType::Z,
        }
    }

    /// Turns a drawn number into a shape: `0` to `6` give I, J, L, O, S, T,
    /// Z in this order, and every other number gives I.
    pub fn new(random_number: u32) -> (t: TetrominoType)
        ensures
            t == TetrominoType::from_index(random_number as int),
    {
        match random_number {
            0 => TetrominoType::I,
            1 => TetrominoType::J,
            2 => TetrominoType::L,
            3 => TetrominoType::O,
            4 => TetrominoType::S,
            5 => TetrominoType::T,
            6 => TetrominoType::Z,
            _ => TetrominoType::I,
        }
    }

    /// A shape that chance picked.
    pub fn random() -> (t: TetrominoType) {
        let mut rng = rand::thread_rng();
        TetrominoType::new(gen_below(&mut rng, 7) as u32)
    }

    /// Width of the shape's bounding box in the given orientation.
    pub fn get_width(&self, rotation: &Rotation) -> (w: usize)
        ensures
            w == self.width(*rotation),
            1 <= w <= 4,
    {
        get_tetromino_matrix(self).get_width(rotation)
    }

    /// Height of the shape's bounding box in the given orientation.
    pub fn get_height(&self, rotation: &Rotation) -> (h: usize)
        ensures
            h == self.height(*rotation),
            1 <= h <= 4,
    {
        get_tetromino_matrix(self).get_height(rotation)
    }

    /// Whether the shape, in the given orientation, occupies column `x` of
    /// row `y` of its bounding box; a position outside the box is not occupied.
    pub fn get_cell(&self, x: usize, y: usize, rotation: &Rotation) -> (b: bool)
        ensures
            b == self.cell(x as int, y as int, *rotation),
    {
        get_tetromino_matrix(self).get_cell(x, y, rotation)
    }

    /// The colour that this shape leaves in the field.
    pub fn get_cell_type(&self) -> (c: CellType)
        ensures
            c == self.cell_type(),
            c != CellType::Empty,
    {
        match self {
            TetrominoType::I => CellType::I,
            TetrominoType::J => CellType::J,
            TetrominoType::L => CellType::L,
            TetrominoType::O => CellType::O,
            TetrominoType::S => CellType::S,
            TetrominoType::T => CellType::T,
            TetrominoType::Z => CellType::Z,
        }
    }

    /// A clockwise quarter turn moves the cell at column `y`, row
    /// `height - 1 - x` of the bounding box to column `x`, row `y`, and swaps
    /// the box's width and height.
    pub proof fn lemma_quarter_turn_moves_cells(self, rotation: Rotation, x: int, y: int)
        ensures
            self.width(rotation.turned_right()) == self.height(rotation),
            self.height(rotation.turned_right()) == self.width(rotation),
            self.cell(x, y, rotation.turned_right()) == self.cell(
                y,
                self.height(rotation) - 1 - x,
                rotation,
            ),
    {
    }

    /// Turning a shape four times in one direction restores its
    /// orientation, and with it its bounding box and every cell.
    pub proof fn lemma_four_turns_restore_shape(self, rotation: Rotation)
        ensures
            ({
                let r4 = rotation.turned_right().turned_right().turned_right().turned_right();
                let l4 = rotation.turned_left().turned_left().turned_left().turned_left();
                &&& r4 == rotation
                &&& l4 == rotation
                &&& forall|x: int, y: int|
                    self.cell(x, y, r4) == self.cell(x, y, rotation) && self.cell(x, y, l4)
                        == self.cell(x, y, rotation)
            }),
    {
        rotation.lemma_four_turns_identity();
    }
}


/// Whether a piece of the given shape and orientation, with the top left
/// corner of its bounding box at column `px` and row `py` of the grid,
/// occupies the grid cell at column `x` and row `y`.
pub open spec fn piece_covers(
    shape: TetrominoType,
    rotation: Rotation,
    px: int,
    py: int,
    x: int,
    y: int,
) -> bool {
    shape.cell(x - px, y - py, rotation)
}

/// Whether the bounding box of the piece lies inside the grid.
pub open spec fn piece_in_bounds(
    shape: TetrominoType,
    rotation: Rotation,
    px: int,
    py: int,
    g: Seq<Seq<CellType>>,
) -> bool {
    &&& 0 <= px
    &&& 0 <= py
    &&& px + shape.width(rotation) <= grid_width(g)
    &&& py + shape.height(rotation) <= g.len()
}

/// Whether the piece occupies a cell of the grid that is not empty.
pub open spec fn piece_overlaps(
    shape: TetrominoType,
    rotation: Rotation,
    px: int,
    py: int,
    g: Seq<Seq<CellType>>,
) -> bool {
    exists|x: int, y: int|
        0 <= y < g.len() && 0 <= x < g[y].len() && #[trigger] piece_covers(
            shape,
            rotation,
            px,
            py,
            x,
            y,
        ) && g[y][x] != CellType::Empty
}

/// A piece collides when it leaves the grid or overlaps a filled cell.
pub open spec fn piece_collides(
    shape: TetrominoType,
    rotation: Rotation,
    px: int,
    py: int,
    g: Seq<Seq<CellType>>,
) -> bool {
    !piece_in_bounds(shape, rotation, px, py, g) || piece_overlaps(shape, rotation, px, py, g)
}

/// A piece on the field: its shape, its orientation, and the position of
/// the top left corner of its bounding box. The position is signed, so that
/// a candidate position outside the field can be written down and refused.
#[derive(Debug, Clone, Copy, PartialEq, Eq, Structural)]
pub struct Tetromino {
    pub tetromino_type: TetrominoType,
    pub rotation: Rotation,
    pub x: isize,
    pub y: isize,
}

impl Tetromino {
    /// Whether the piece occupies the grid cell at column `x`, row `y`.
    pub open spec fn covers(self, x: int, y: int) -> bool {
        piece_covers(self.tetromino_type, self.rotation, self.x as int, self.y as int, x, y)
    }

    /// Whether the piece lies inside the grid.
    pub open spec fn in_bounds(self, g: Seq<Seq<CellType>>) -> bool {
        piece_in_bounds(self.tetromino_type, self.rotation, self.x as int, self.y as int, g)
    }

    /// Whether the piece occupies a filled cell of the grid.
    pub open spec fn overlaps(self, g: Seq<Seq<CellType>>) -> bool {
        piece_overlaps(self.tetromino_type, self.rotation, self.x as int, self.y as int, g)
    }

    /// Whether the piece leaves the grid or overlaps a filled cell.
    pub open spec fn collides(self, g: Seq<Seq<CellType>>) -> bool {
        piece_collides(self.tetromino_type, self.rotation, self.x as int, self.y as int, g)
    }

    /// The grid with the piece drawn into it: the cells of the grid that the
    /// piece occupies take its colour, all others stay. The part of a piece
    /// that lies outside the grid is left out.
    pub open spec fn drawn_on(self, g: Seq<Seq<CellType>>) -> Seq<Seq<CellType>> {
        Seq::new(
            g.len(),
            |y: int|
                Seq::new(
                    g[y].len(),
                    |x: int|
                        if self.covers(x, y) {
                            self.tetromino_type.cell_type()
                        } else {
                            g[y][x]
                        },
                ),
        )
    }

    /// The grid while the piece is being drawn: the cells of the rows of its
    /// bounding box above `rows`, and those of row `rows` left of `cols`, are
    /// done.
    pub open spec fn drawn_partly(
        self,
        g: Seq<Seq<CellType>>,
        rows: int,
        cols: int,
    ) -> Seq<Seq<CellType>> {
        Seq::new(
            g.len(),
            |y: int|
                Seq::new(
                    g[y].len(),
                    |x: int|
                        if self.covers(x, y) && (y - self.y < rows || (y - self.y == rows && x
                            - self.x < cols)) {
                            self.tetromino_type.cell_type()
                        } else {
                            g[y][x]
                        },
                ),
        )
    }

    /// A piece of the given shape and orientation at the given place.
    pub fn new(tetromino_type: TetrominoType, rotation: Rotation, x: isize, y: isize) -> (t:
        Tetromino)
        ensures
            t == (Tetromino { tetromino_type, rotation, x, y }),
    {
        Tetromino { tetromino_type, rotation, x, y }
    }

    /// Whether the piece leaves the field or overlaps a filled cell of it.
    pub fn intersects(&self, field: &Vec<Vec<CellType>>) -> (b: bool)
        requires
            rectangular(grid_view(*field), grid_width(grid_view(*field))),
        ensures
            b == self.collides(grid_view(*field)),
    {
        let ghost g = grid_view(*field);
        if self.x < 0 || self.y < 0 {
            return true;
        }
        let x = self.x as usize;
        let y = self.y as usize;
        let width = self.tetromino_type.get_width(&self.rotation);
        let height = self.tetromino_type.get_height(&self.rotation);
        if field.len() < height || y > field.len() - height {
            return true;
        }
        if field[0].len() < width || x > field[0].len() - width {
            return true;
        }
        assert(self.in_bounds(g));
        let mut cell_y: usize = 0;
        while cell_y < height
            invariant
                cell_y <= height,
                g == grid_view(*field),
                rectangular(g, grid_width(g)),
                self.in_bounds(g),
                x == self.x,
                y == self.y,
                width == self.tetromino_type.width(self.rotation),
                height == self.tetromino_type.height(self.rotation),
                forall|cx: int, cy: int|
                    0 <= cy < cell_y && 0 <= cx < width && #[trigger] self.tetromino_type.cell(
                        cx,
                        cy,
                        self.rotation,
                    ) ==> g[y + cy][x + cx] == CellType::Empty,
            decreases height - cell_y,
        {
            let mut cell_x: usize = 0;
            while cell_x < width
                invariant
                    cell_x <= width,
                    cell_y < height,
                    g == grid_view(*field),
                    rectangular(g, grid_width(g)),
                    self.in_bounds(g),
                    x == self.x,
                    y == self.y,
                    width == self.tetromino_type.width(self.rotation),
                    height == self.tetromino_type.height(self.rotation),
                    forall|cx: int, cy: int|
                        0 <= cx < width && (0 <= cy < cell_y || (cy == cell_y && cx < cell_x))
                            && #[trigger] self.tetromino_type.cell(cx, cy, self.rotation) ==> g[y
                            + cy][x + cx] == CellType::Empty,
                decreases width - cell_x,
            {
                assert(g[y + cell_y].len() == grid_width(g));
                if self.tetromino_type.get_cell(cell_x, cell_y, &self.rotation) && field[y
                    + cell_y][x + cell_x] != CellType::Empty {
                    assert(self.covers(x + cell_x, y + cell_y));
                    assert(self.overlaps(g));
                    return true;
                }
                cell_x += 1;
            }
            cell_y += 1;
        }
        assert(!self.overlaps(g)) by {
            assert forall|gx: int, gy: int|
                0 <= gy < g.len() && 0 <= gx < g[gy].len() && #[trigger] piece_covers(
                    self.tetromino_type,
                    self.rotation,
                    self.x as int,
                    self.y as int,
                    gx,
                    gy,
                ) implies g[gy][gx] == CellType::Empty by {
                assert(self.tetromino_type.cell(gx - x, gy - y, self.rotation));
            }
        }
        false
    }

    /// Draws the piece into the field. A piece that reaches over the border
    /// of the field is drawn as far as it lies inside.
    pub fn draw(&self, field: &mut Vec<Vec<CellType>>)
        ensures
            grid_view(*final(field)) == self.drawn_on(grid_view(*old(field))),
    {
        let ghost g = grid_view(*field);
        let width = self.tetromino_type.get_width(&self.rotation);
        let height = self.tetromino_type.get_height(&self.rotation);
        let cell_type = self.tetromino_type.get_cell_type();
        assert(grid_view(*field) =~~= self.drawn_partly(g, 0, 0));
        let mut cell_y: usize = 0;
        while cell_y < height
            invariant
                cell_y <= height,
                width == self.tetromino_type.width(self.rotation),
                height == self.tetromino_type.height(self.rotation),
                cell_type == self.tetromino_type.cell_type(),
                grid_view(*field) == self.drawn_partly(g, cell_y as int, 0),
            decreases height - cell_y,
        {
            let mut cell_x: usize = 0;
            while cell_x < width
                invariant
                    cell_x <= width,
                    cell_y < height,
                    width == self.tetromino_type.width(self.rotation),
                    height == self.tetromino_type.height(self.rotation),
                    cell_type == self.tetromino_type.cell_type(),
                    grid_view(*field) == self.drawn_partly(g, cell_y as int, cell_x as int),
                decreases width - cell_x,
            {
                let ghost before = grid_view(*field);
                if self.tetromino_type.get_cell(cell_x, cell_y, &self.rotation) {
                    let x: i128 = self.x as i128 + cell_x as i128;
                    let y: i128 = self.y as i128 + cell_y as i128;
                    if y >= 0 && y < field.len() as i128 {
                        let row = y as usize;
                        if x >= 0 && x < field[row].len() as i128 {
                            let col = x as usize;
                            field[row][col] = cell_type;
                            assert(self.covers(x as int, y as int));
                        }
                    }
                }
                proof {
                    let after = grid_view(*field);
                    let done = self.drawn_partly(g, cell_y as int, cell_x as int);
                    let target = self.drawn_partly(g, cell_y as int, cell_x as int + 1);
                    assert(before.len() == g.len());
                    assert forall|yy: int| 0 <= yy < after.len() implies #[trigger] after[yy]
                        =~= target[yy] by {
                        assert(before[yy] == done[yy]);
                        assert(done[yy].len() == g[yy].len());
                        assert(target[yy].len() == g[yy].len());
                        assert(after[yy].len() == before[yy].len());
                        assert forall|xx: int| 0 <= xx < after[yy].len() implies after[yy][xx]
                            == target[yy][xx] by {
                            assert(before[yy][xx] == done[yy][xx]);
                            assert(target[yy][xx] == if self.covers(xx, yy) && (yy - self.y
                                < cell_y || (yy - self.y == cell_y && xx - self.x < cell_x + 1)) {
                                self.tetromino_type.cell_type()
                            } else {
                                g[yy][xx]
                            });
                            assert(done[yy][xx] == if self.covers(xx, yy) && (yy - self.y
                                < cell_y || (yy - self.y == cell_y && xx - self.x < cell_x)) {
                                self.tetromino_type.cell_type()
                            } else {
                                g[yy][xx]
                            });
                        }
                    }
                    assert(after =~= target);
                }
                cell_x += 1;
            }
            assert(grid_view(*field) =~~= self.drawn_partly(g, cell_y as int + 1, 0));
            cell_y += 1;
        }
        assert(grid_view(*field) =~~= self.drawn_on(g));
    }
}

/// What one tick of game time did to a board.
#[derive(Debug, Clone, Copy, PartialEq, Eq, Structural)]
pub enum StepResult {
    /// The active piece fell by one row.
    Moved,
    /// The active piece, if there was one, was locked into the field; the
    /// given number of full rows was removed, and the next piece came in.
    LineCleared(usize),
    /// The game is over: the active piece was found on filled cells, or the
    /// next piece had no room, or the game was over before.
    GameOver,
}

/// What a player can ask of a board.
#[derive(Debug, Clone, Copy, PartialEq, Eq, Structural)]
pub enum Action {
    MoveLeft,
    MoveRight,
    MoveDown,
    RotateLeft,
    RotateRight,
    /// Lets the piece fall as far as it can, then locks it as a tick would.
    Drop,
    /// Pushes one penalty row into the field from below.
    BottomRefill,
}

/// What an action did to a board.
#[derive(Debug, Clone, Copy, PartialEq, Eq, Structural)]
pub enum ActionResult {
    /// The action was not possible; nothing has changed.
    Rejected,
    /// The piece moved or turned, or the penalty row came in.
    Applied,
    /// The piece fell to rest and the tick that followed ended as given.
    Dropped(StepResult),
}

/// What chance decides for a board: the shape that follows the one that
/// comes in next, and the column of the hole of a penalty row.
#[derive(Debug, Clone, Copy, PartialEq, Eq, Structural)]
pub struct Chance {
    pub shape: TetrominoType,
    pub hole: usize,
}

/// The state of a board as contracts speak of it.
pub struct Board {
    pub width: int,
    pub height: int,
    /// The cells, top row first.
    pub grid: Seq<Seq<CellType>>,
    /// The falling piece, if there is one.
    pub current: Option<Tetromino>,
    /// The shape of the piece that comes in next.
    pub next: TetrominoType,
    pub game_over: bool,
}

impl Board {
    /// The grid has the board's size, and the active piece lies inside it.
    pub open spec fn wf(self) -> bool {
        &&& 0 <= self.width <= isize::MAX
        &&& 0 <= self.height <= isize::MAX
        &&& self.grid.len() == self.height
        &&& rectangular(self.grid, self.width)
        &&& (self.current matches Some(p) ==> p.in_bounds(self.grid))
    }

    /// The active piece lies on empty cells only.
    pub open spec fn piece_is_free(self) -> bool {
        self.current matches Some(p) ==> !p.collides(self.grid)
    }

    /// The piece that comes in next, where it enters the field: in its
    /// canonical orientation, in the top row, two columns left of the middle.
    pub open spec fn spawn_piece(self) -> Tetromino {
        Tetromino {
            tetromino_type: self.next,
            rotation: Rotation::R0,
            x: (self.width / 2 - 2) as isize,
            y: 0,
        }
    }

    /// Whether the next piece can come in.
    pub open spec fn can_spawn(self) -> bool {
        !self.game_over && !self.spawn_piece().collides(self.grid)
    }

    /// The board after the next piece came in, with `drawn` as the shape
    /// that follows it; the board as it is where the piece has no room.
    pub open spec fn after_spawn(self, drawn: TetrominoType) -> Board {
        if self.can_spawn() {
            Board { current: Some(self.spawn_piece()), next: drawn, ..self }
        } else {
            self
        }
    }

    /// The active piece moved by `dx` columns and `dy` rows and turned by
    /// `rotation`, where there is an active piece, the game is not over, and
    /// the piece does not collide in that place.
    pub open spec fn candidate(self, dx: int, dy: int, rotation: Rotation) -> Option<Tetromino> {
        match self.current {
            Some(p) => {
                if !self.game_over && !piece_collides(
                    p.tetromino_type,
                    p.rotation.compose(rotation),
                    p.x + dx,
                    p.y + dy,
                    self.grid,
                ) {
                    Some(
                        Tetromino {
                            tetromino_type: p.tetromino_type,
                            rotation: p.rotation.compose(rotation),
                            x: (p.x + dx) as isize,
                            y: (p.y + dy) as isize,
                        },
                    )
                } else {
                    None
                }
            },
            None => None,
        }
    }

    /// The board after an attempt to move and turn the active piece.
    pub open spec fn after_move(self, dx: int, dy: int, rotation: Rotation) -> Board {
        match self.candidate(dx, dy, rotation) {
            Some(q) => Board { current: Some(q), ..self },
            None => self,
        }
    }

    /// The grid with the active piece drawn into it.
    pub open spec fn locked_grid(self) -> Seq<Seq<CellType>> {
        match self.current {
            Some(p) => p.drawn_on(self.grid),
            None => self.grid,
        }
    }

    /// The board after the active piece was locked: the piece is part of the
    /// grid, and no piece is active. A game that is over stays as it is.
    pub open spec fn after_lock(self) -> Board {
        if self.game_over {
            self
        } else {
            Board { grid: self.locked_grid(), current: None, ..self }
        }
    }

    /// The board after the active piece was locked and the full rows were
    /// cleared.
    pub open spec fn settled(self) -> Board {
        Board { grid: clear_full_rows(self.locked_grid()), current: None, ..self }
    }

    /// The game is over, or the active piece lies on filled cells.
    pub open spec fn stuck(self) -> bool {
        self.game_over || (self.current matches Some(p) && p.collides(self.grid))
    }

    /// What a tick reports.
    pub open spec fn step_result(self) -> StepResult {
        if self.stuck() {
            StepResult::GameOver
        } else if self.candidate(0, 1, Rotation::R0) is Some {
            StepResult::Moved
        } else if self.settled().can_spawn() {
            StepResult::LineCleared(full_row_count(self.locked_grid()) as usize)
        } else {
            StepResult::GameOver
        }
    }

    /// The board after a tick, with `drawn` as the shape that chance gave.
    pub open spec fn after_step(self, drawn: TetrominoType) -> Board {
        if self.game_over {
            self
        } else if self.stuck() {
            Board { game_over: true, ..self }
        } else if self.candidate(0, 1, Rotation::R0) is Some {
            self.after_move(0, 1, Rotation::R0)
        } else if self.settled().can_spawn() {
            self.settled().after_spawn(drawn)
        } else {
            Board { game_over: true, ..self.settled() }
        }
    }

    /// The board after `n` penalty rows with their hole at `hole` came in; a
    /// game that is over stays as it is.
    pub open spec fn after_penalty(self, n: int, hole: int) -> Board {
        if self.game_over {
            self
        } else {
            Board { grid: with_garbage(self.grid, n, hole), ..self }
        }
    }

    /// The board after the active piece fell as far as it can.
    pub open spec fn fallen(self) -> Board
        decreases self.grid.len() - self.piece_row(),
        when self.wf()
    {
        if self.candidate(0, 1, Rotation::R0) is Some {
            self.after_move(0, 1, Rotation::R0).fallen()
        } else {
            self
        }
    }

    /// The row of the active piece, or zero without one.
    pub open spec fn piece_row(self) -> int {
        match self.current {
            Some(p) => p.y as int,
            None => 0,
        }
    }

    /// What an action reports.
    pub open spec fn action_result(self, action: Action) -> ActionResult {
        match action {
            Action::MoveLeft => self.move_result(-1, 0, Rotation::R0),
            Action::MoveRight => self.move_result(1, 0, Rotation::R0),
            Action::MoveDown => self.move_result(0, 1, Rotation::R0),
            Action::RotateLeft => self.move_result(0, 0, Rotation::R270),
            Action::RotateRight => self.move_result(0, 0, Rotation::R90),
            Action::Drop => if self.game_over || self.current is None {
                ActionResult::Rejected
            } else {
                ActionResult::Dropped(self.fallen().step_result())
            },
            Action::BottomRefill => if self.game_over {
                ActionResult::Rejected
            } else {
                ActionResult::Applied
            },
        }
    }

    /// What an attempt to move reports.
    pub open spec fn move_result(self, dx: int, dy: int, rotation: Rotation) -> ActionResult {
        if self.candidate(dx, dy, rotation) is Some {
            ActionResult::Applied
        } else {
            ActionResult::Rejected
        }
    }

    /// The board after an action, with what chance gave.
    pub open spec fn after_action(self, action: Action, chance: Chance) -> Board {
        match action {
            Action::MoveLeft => self.after_move(-1, 0, Rotation::R0),
            Action::MoveRight => self.after_move(1, 0, Rotation::R0),
            Action::MoveDown => self.after_move(0, 1, Rotation::R0),
            Action::RotateLeft => self.after_move(0, 0, Rotation::R270),
            Action::RotateRight => self.after_move(0, 0, Rotation::R90),
            Action::Drop => if self.game_over || self.current is None {
                self
            } else {
                self.fallen().after_step(chance.shape)
            },
            Action::BottomRefill => self.after_penalty(1, chance.hole as int),
        }
    }
}

/// A snapshot of a board, for whoever shows or sends it.
#[derive(Debug, Clone)]
pub struct TetrisGameState {
    /// The cells, top row first, each row from left to right.
    pub field: Vec<Vec<CellType>>,
    pub current: Option<Tetromino>,
    pub next: TetrominoType,
    pub game_over: bool,
}

impl TetrisGameState {
    /// The snapshot holds what the board holds.
    pub open spec fn shows(&self, board: Board) -> bool {
        &&& grid_view(self.field) == board.grid
        &&& self.current == board.current
        &&& self.next == board.next
        &&& self.game_over == board.game_over
    }
}

/// One player's board: the field, the falling piece, and the shape of the
/// piece that comes in next.
pub struct Tetris {
    width: usize,
    height: usize,
    field: Vec<Vec<CellType>>,
    current: Option<Tetromino>,
    next: TetrominoType,
    game_over: bool,
}

impl View for Tetris {
    type V = Board;

    closed spec fn view(&self) -> Board {
        Board {
            width: self.width as int,
            height: self.height as int,
            grid: grid_view(self.field),
            current: self.current,
            next: self.next,
            game_over: self.game_over,
        }
    }
}

/// Drawing a piece keeps the size of the grid.
pub proof fn lemma_drawn_on_keeps_shape(p: Tetromino, g: Seq<Seq<CellType>>, width: int)
    requires
        rectangular(g, width),
    ensures
        p.drawn_on(g).len() == g.len(),
        rectangular(p.drawn_on(g), width),
        grid_width(p.drawn_on(g)) == grid_width(g),
{
    assert forall|y: int| 0 <= y < g.len() implies (#[trigger] p.drawn_on(g)[y]).len()
        == width by {
        assert(g[y].len() == width);
    }
}

impl Tetris {
    /// The board's invariant: see [`Board::wf`].
    pub open spec fn wf(&self) -> bool {
        self@.wf()
    }

    /// The board at the start of a game: empty, without a piece, with the
    /// given shape to come in first.
    pub open spec fn new_board(width: int, height: int, next: TetrominoType) -> Board {
        Board {
            width,
            height,
            grid: empty_grid(width, height),
            current: None,
            next,
            game_over: false,
        }
    }

    /// An empty board of the given size, with the given shape to come in
    /// first.
    pub fn with_next(width: usize, height: usize, next: TetrominoType) -> (t: Tetris)
        requires
            width <= isize::MAX,
            height <= isize::MAX,
        ensures
            t.wf(),
            t@ == Tetris::new_board(width as int, height as int, next),
    {
        let field = new_field(width, height);
        Tetris { width, height, field, current: None, next, game_over: false }
    }

    /// An empty board of the given size; chance decides which shape comes
    /// in first.
    pub fn new(width: usize, height: usize) -> (t: Tetris)
        requires
            width <= isize::MAX,
            height <= isize::MAX,
        ensures
            t.wf(),
            t@ == Tetris::new_board(width as int, height as int, t@.next),
    {
        let next = TetrominoType::random();
        Tetris::with_next(width, height, next)
    }

    /// Asks chance for what a tick or an action may need: any shape, and a
    /// hole in any column of the board. On a board without columns nothing is
    /// drawn for the hole, which is zero then.
    pub fn draw_chance(&self) -> (chance: Chance)
        ensures
            self@.width > 0 ==> chance.hole < self@.width,
            self@.width == 0 ==> chance.hole == 0,
    {
        let mut rng = rand::thread_rng();
        let shape = TetrominoType::new(gen_below(&mut rng, 7) as u32);
        let hole = if self.width > 0 {
            gen_below(&mut rng, self.width)
        } else {
            0
        };
        Chance { shape, hole }
    }

    /// The cells of the field, top row first.
    pub fn get_field(&self) -> (field: &Vec<Vec<CellType>>)
        ensures
            grid_view(*field) == self@.grid,
    {
        &self.field
    }

    /// The falling piece, if there is one.
    pub fn get_current(&self) -> (current: &Option<Tetromino>)
        ensures
            *current == self@.current,
    {
        &self.current
    }

    /// The shape of the piece that comes in next.
    pub fn get_next(&self) -> (next: &TetrominoType)
        ensures
            *next == self@.next,
    {
        &self.next
    }

    /// Whether the game on this board has ended.
    pub fn is_game_over(&self) -> (over: bool)
        ensures
            over == self@.game_over,
    {
        self.game_over
    }

    /// A snapshot of the board.
    pub fn get_game_state(&self) -> (state: TetrisGameState)
        ensures
            state.shows(self@),
    {
        TetrisGameState {
            field: copy_field(&self.field),
            current: self.current,
            next: self.next,
            game_over: self.game_over,
        }
    }

    /// Lets the next piece come in, and makes `drawn` the shape that
    /// follows it. Where the piece has no room, or the game is over, the board
    /// stays as it is and the answer is `false`.
    pub fn place_new_tetromino_with(&mut self, drawn: TetrominoType) -> (placed: bool)
        requires
            old(self).wf(),
        ensures
            final(self).wf(),
            placed == old(self)@.can_spawn(),
            final(self)@ == old(self)@.after_spawn(drawn),
            placed ==> final(self)@.piece_is_free(),
    {
        if self.game_over {
            return false;
        }
        let new_tetromino = Tetromino::new(
            self.next,
            Rotation::R0,
            (self.width / 2) as isize - 2,
            0,
        );
        if new_tetromino.intersects(&self.field) {
            return false;
        }
        self.current = Some(new_tetromino);
        self.next = drawn;
        true
    }

    /// Lets the next piece come in; chance decides which shape follows it.
    /// Where the piece has no room, or the game is over, the board stays as it
    /// is and the answer is `false`.
    pub fn place_new_tetromino(&mut self) -> (placed: bool)
        requires
            old(self).wf(),
        ensures
            final(self).wf(),
            placed == old(self)@.can_spawn(),
            final(self)@ == old(self)@.after_spawn(final(self)@.next),
            placed ==> final(self)@.piece_is_free(),
    {
        let drawn = TetrominoType::random();
        self.place_new_tetromino_with(drawn)
    }

    /// Moves the active piece by `x` columns and `y` rows and turns it by
    /// `rotation`, if it does not collide in the new place. Otherwise, and
    /// without an active piece or after the game's end, nothing changes and
    /// the answer is `false`.
    pub fn change_current_tetromino(&mut self, x: isize, y: isize, rotation: Rotation) -> (accepted:
        bool)
        requires
            old(self).wf(),
        ensures
            final(self).wf(),
            accepted == old(self)@.candidate(x as int, y as int, rotation).is_some(),
            final(self)@ == old(self)@.after_move(x as int, y as int, rotation),
            accepted ==> final(self)@.piece_is_free(),
    {
        if self.game_over {
            return false;
        }
        let current = match self.current {
            Some(current) => current,
            None => {
                return false;
            },
        };
        let new_x = match current.x.checked_add(x) {
            Some(new_x) => new_x,
            None => {
                return false;
            },
        };
        let new_y = match current.y.checked_add(y) {
            Some(new_y) => new_y,
            None => {
                return false;
            },
        };
        let new_tetromino = Tetromino::new(
            current.tetromino_type,
            current.rotation + rotation,
            new_x,
            new_y,
        );
        if new_tetromino.intersects(&self.field) {
            return false;
        }
        self.current = Some(new_tetromino);
        true
    }

    /// Moves the active piece down by one row, if it has room there.
    pub fn move_down(&mut self) -> (accepted: bool)
        requires
            old(self).wf(),
        ensures
            final(self).wf(),
            accepted == old(self)@.candidate(0, 1, Rotation::R0).is_some(),
            final(self)@ == old(self)@.after_move(0, 1, Rotation::R0),
            accepted ==> final(self)@.piece_is_free(),
    {
        self.change_current_tetromino(0, 1, Rotation::R0)
    }

    /// Moves the active piece left by one column, if it has room there.
    pub fn move_left(&mut self) -> (accepted: bool)
        requires
            old(self).wf(),
        ensures
            final(self).wf(),
            accepted == old(self)@.candidate(-1, 0, Rotation::R0).is_some(),
            final(self)@ == old(self)@.after_move(-1, 0, Rotation::R0),
            accepted ==> final(self)@.piece_is_free(),
    {
        self.change_current_tetromino(-1, 0, Rotation::R0)
    }

    /// Moves the active piece right by one column, if it has room there.
    pub fn move_right(&mut self) -> (accepted: bool)
        requires
            old(self).wf(),
        ensures
            final(self).wf(),
            accepted == old(self)@.candidate(1, 0, Rotation::R0).is_some(),
            final(self)@ == old(self)@.after_move(1, 0, Rotation::R0),
            accepted ==> final(self)@.piece_is_free(),
    {
        self.change_current_tetromino(1, 0, Rotation::R0)
    }

    /// Turns the active piece by a quarter turn counter-clockwise, if it has
    /// room so.
    pub fn rotate_left(&mut self) -> (accepted: bool)
        requires
            old(self).wf(),
        ensures
            final(self).wf(),
            accepted == old(self)@.candidate(0, 0, Rotation::R270).is_some(),
            final(self)@ == old(self)@.after_move(0, 0, Rotation::R270),
            accepted ==> final(self)@.piece_is_free(),
    {
        self.change_current_tetromino(0, 0, Rotation::R270)
    }

    /// Turns the active piece by a quarter turn clockwise, if it has room so.
    pub fn rotate_right(&mut self) -> (accepted: bool)
        requires
            old(self).wf(),
        ensures
            final(self).wf(),
            accepted == old(self)@.candidate(0, 0, Rotation::R90).is_some(),
            final(self)@ == old(self)@.after_move(0, 0, Rotation::R90),
            accepted ==> final(self)@.piece_is_free(),
    {
        self.change_current_tetromino(0, 0, Rotation::R90)
    }

    /// Locks the active piece: draws it into the field, after which no
    /// piece is active. Nothing changes once the game is over.
    pub fn draw_current(&mut self)
        requires
            old(self).wf(),
        ensures
            final(self).wf(),
            final(self)@ == old(self)@.after_lock(),
    {
        if self.game_over {
            return ;
        }
        match self.current {
            Some(current) => {
                proof {
                    lemma_drawn_on_keeps_shape(current, grid_view(self.field), self.width as int);
                }
                current.draw(&mut self.field);
                self.current = None;
            },
            None => {},
        }
    }

    /// Pushes `n` penalty rows with their hole at column `hole` into the
    /// field from below. The active piece stays where it is: whether it now
    /// lies on filled cells is found at the next tick. Nothing changes once
    /// the game is over.
    pub fn add_external_rows_with(&mut self, n: usize, hole: usize)
        requires
            old(self).wf(),
        ensures
            final(self).wf(),
            final(self)@ == old(self)@.after_penalty(n as int, hole as int),
    {
        if self.game_over {
            return ;
        }
        proof {
            lemma_with_garbage(grid_view(self.field), self.width as int, n as int, hole as int);
            if self.height > 0 {
                assert(grid_view(self.field)[0].len() == self.width);
                assert(with_garbage(grid_view(self.field), n as int, hole as int)[0].len()
                    == self.width);
            }
        }
        push_garbage_rows(&mut self.field, n, hole);
    }

    /// Pushes `n` penalty rows into the field from below; chance decides in
    /// which column their hole is. See [`Tetris::add_external_rows_with`].
    pub fn add_external_rows(&mut self, n: usize)
        requires
            old(self).wf(),
        ensures
            final(self).wf(),
            exists|hole: usize|
                (old(self)@.width > 0 ==> hole < old(self)@.width) && final(self)@ == old(self)@.after_penalty(n as int, hole as int),
    {
        let chance = self.draw_chance();
        self.add_external_rows_with(n, chance.hole);
    }

    /// One tick of game time, with `drawn` as the shape that chance gave.
    ///
    /// A game that is over stays as it is. A piece that lies on filled
    /// cells, as it may after penalty rows came in, ends the game. A piece that
    /// can fall by one row does so. Otherwise the piece is locked, the full
    /// rows are cleared, and the next piece comes in, followed by `drawn`;
    /// where it has no room, the game is over.
    pub fn step_with(&mut self, drawn: TetrominoType) -> (result: StepResult)
        requires
            old(self).wf(),
        ensures
            final(self).wf(),
            result == old(self)@.step_result(),
            final(self)@ == old(self)@.after_step(drawn),
            result != StepResult::GameOver ==> final(self)@.piece_is_free(),
            result == StepResult::GameOver <==> final(self)@.game_over,
    {
        if self.game_over {
            return StepResult::GameOver;
        }
        match self.current {
            Some(current) => {
                if current.intersects(&self.field) {
                    self.game_over = true;
                    return StepResult::GameOver;
                }
            },
            None => {},
        }
        if self.change_current_tetromino(0, 1, Rotation::R0) {
            return StepResult::Moved;
        }
        let ghost locked = self@.locked_grid();
        self.draw_current();
        proof {
            if old(self)@.current is Some {
                lemma_drawn_on_keeps_shape(
                    old(self)@.current.unwrap(),
                    old(self)@.grid,
                    self.width as int,
                );
            }
            lemma_clear_full_rows(locked, self.width as int);
            if self.height > 0 {
                assert(locked[0].len() == self.width);
                assert(clear_full_rows(locked)[0].len() == self.width);
            }
        }
        let count = remove_full_rows(&mut self.field);
        if self.place_new_tetromino_with(drawn) {
            StepResult::LineCleared(count)
        } else {
            self.game_over = true;
            StepResult::GameOver
        }
    }

    /// One tick of game time; chance decides which shape follows the piece
    /// that comes in. See [`Tetris::step_with`].
    pub fn step(&mut self) -> (result: StepResult)
        requires
            old(self).wf(),
        ensures
            final(self).wf(),
            result == old(self)@.step_result(),
            final(self)@ == old(self)@.after_step(final(self)@.next),
            result != StepResult::GameOver ==> final(self)@.piece_is_free(),
            result == StepResult::GameOver <==> final(self)@.game_over,
    {
        let drawn = TetrominoType::random();
        self.step_with(drawn)
    }

    /// Carries out an action, with what chance gave.
    pub fn add_action_with(&mut self, action: Action, chance: Chance) -> (result: ActionResult)
        requires
            old(self).wf(),
        ensures
            final(self).wf(),
            result == old(self)@.action_result(action),
            final(self)@ == old(self)@.after_action(action, chance),
            result == ActionResult::Rejected ==> final(self)@ == old(self)@,
            result == ActionResult::Applied && action != Action::BottomRefill ==> final(self)@.piece_is_free(),
    {
        match action {
            Action::MoveLeft => Self::applied(self.move_left()),
            Action::MoveRight => Self::applied(self.move_right()),
            Action::MoveDown => Self::applied(self.move_down()),
            Action::RotateLeft => Self::applied(self.rotate_left()),
            Action::RotateRight => Self::applied(self.rotate_right()),
            Action::Drop => {
                if self.game_over || self.current.is_none() {
                    return ActionResult::Rejected;
                }
                loop
                    invariant
                        self.wf(),
                        self@.fallen() == old(self)@.fallen(),
                    ensures
                        self.wf(),
                        self@ == old(self)@.fallen(),
                    decreases self@.grid.len() - self@.piece_row(),
                {
                    if !self.move_down() {
                        break ;
                    }
                }
                ActionResult::Dropped(self.step_with(chance.shape))
            },
            Action::BottomRefill => {
                if self.game_over {
                    return ActionResult::Rejected;
                }
                self.add_external_rows_with(1, chance.hole);
                ActionResult::Applied
            },
        }
    }

    /// Carries out an action; chance decides what it needs of it. See
    /// [`Tetris::add_action_with`].
    pub fn add_action(&mut self, action: Action) -> (result: ActionResult)
        requires
            old(self).wf(),
        ensures
            final(self).wf(),
            result == old(self)@.action_result(action),
            exists|chance: Chance|
                (old(self)@.width > 0 ==> chance.hole < old(self)@.width) && final(self)@ == old(self)@.after_action(action, chance),
            result == ActionResult::Rejected ==> final(self)@ == old(self)@,
            result == ActionResult::Applied && action != Action::BottomRefill ==> final(self)@.piece_is_free(),
    {
        let chance = self.draw_chance();
        self.add_action_with(action, chance)
    }

    /// What an attempt to move reports.
    fn applied(accepted: bool) -> (result: ActionResult)
        ensures
            result == if accepted {
                ActionResult::Applied
            } else {
                ActionResult::Rejected
            },
    {
        if accepted {
            ActionResult::Applied
        } else {
            ActionResult::Rejected
        }
    }
}

impl Default for Tetris {
    /// A board of ten columns and twenty rows.
    fn default() -> (t: Tetris)
        ensures
            t.wf(),
            t@ == Tetris::new_board(10, 20, t@.next),
    {
        Tetris::new(10, 20)
    }
}

} // verus!
