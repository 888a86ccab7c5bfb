//! Piece kinds, orientations and the shape catalog.
use vstd::prelude::*;
use vstd::string::StrSliceExecFns;
use super::board::{Board, BoardView, Coordinate};

verus! {

broadcast use vstd::string::group_string_axioms;

/// Orientation of a piece; the four values form the cycle N, E, S, W.
#[derive(Clone, Copy, Debug, PartialEq, Eq, Structural)]
pub enum Rotation {
    N,
    E,
    S,
    W,
}

impl Rotation {
    /// The next orientation clockwise: N, E, S, W and back to N.
    pub open spec fn next_cw(self) -> Rotation {
        match self {
            Rotation::N => Rotation::E,
            Rotation::E => Rotation::S,
            Rotation::S => Rotation::W,
            Rotation::W => Rotation::N,
        }
    }

    /// The next orientation counterclockwise: N, W, S, E and back to N.
    pub open spec fn next_ccw(self) -> Rotation {
        match self {
            Rotation::N => Rotation::W,
            Rotation::W => Rotation::S,
            Rotation::S => Rotation::E,
            Rotation::E => Rotation::N,
        }
    }
}

/// A requested move of the falling piece.
#[derive(Clone, Copy, Debug, PartialEq, Eq, Structural)]
pub enum Direction {
    LEFT,
    RIGHT,
    CW,
    CCW,
}

impl Direction {
    /// Horizontal displacement of a sideways direction; zero for a rotation.
    pub open spec fn spec_value(&self) -> int {
        match *self {
            Direction::LEFT => -1,
            Direction::RIGHT => 1,
            _ => 0,
        }
    }

    /// True for the two directions that shift the piece sideways.
    pub open spec fn is_lateral(&self) -> bool {
        *self == Direction::LEFT || *self == Direction::RIGHT
    }

    /// Displacement along x of a sideways move: -1 for left, +1 for right.
    /// Rotations have no displacement and are not accepted.
    pub fn value(&self) -> (r: isize)
        requires
            self.is_lateral(),
        ensures
            r == self.spec_value(),
    {
        match *self {
            Direction::LEFT => -1,
            _ => 1,
        }
    }
}

/// The seven piece shapes.
#[derive(Clone, Copy, Debug, PartialEq, Eq, Structural)]
pub enum Kind {
    O,
    I,
    T,
    L,
    J,
    S,
    Z,
}

/// Cells that a textual grid marks, scanning from character `i` on, where
/// that character stands in column `x` of line `y`. A line feed starts the
/// next line, `X` marks a cell, every other character is an empty column.
pub open spec fn scan_cells(s: Seq<char>, i: int, x: int, y: int) -> Seq<Coordinate>
    decreases s.len() - i,
{
    if i < 0 || i >= s.len() {
        Seq::empty()
    } else if s[i] == '\n' {
        scan_cells(s, i + 1, 0, y + 1)
    } else if s[i] == 'X' {
        seq![Coordinate { x: x as isize, y: y as isize }] + scan_cells(s, i + 1, x + 1, y)
    } else {
        scan_cells(s, i + 1, x + 1, y)
    }
}

/// The cells of a textual grid, line by line and left to right.
pub open spec fn grid_cells(s: Seq<char>) -> Seq<Coordinate> {
    scan_cells(s, 0, 0, 0)
}

/// Four cells, written as x and y in turn.
pub open spec fn quad(
    x0: isize, y0: isize, x1: isize, y1: isize, x2: isize, y2: isize, x3: isize, y3: isize,
) -> Seq<Coordinate> {
    seq![
        Coordinate { x: x0, y: y0 },
        Coordinate { x: x1, y: y1 },
        Coordinate { x: x2, y: y2 },
        Coordinate { x: x3, y: y3 },
    ]
}

impl Kind {
    pub const ALL: [Kind; 7] = [Kind::O, Kind::I, Kind::T, Kind::L, Kind::J, Kind::S, Kind::Z];

    /// The letter that names the kind.
    pub open spec fn letter(self) -> Seq<char> {
        match self {
            Kind::O => "O"@,
            Kind::I => "I"@,
            Kind::T => "T"@,
            Kind::L => "L"@,
            Kind::J => "J"@,
            Kind::S => "S"@,
            Kind::Z => "Z"@,
        }
    }

    /// The kind as text: its letter.
    pub fn to_string(&self) -> (text: String)
        ensures
            text@ == self.letter(),
    {
        match self {
            Kind::O => "O".to_string(),
            Kind::I => "I".to_string(),
            Kind::T => "T".to_string(),
            Kind::L => "L".to_string(),
            Kind::J => "J".to_string(),
            Kind::S => "S".to_string(),
            Kind::Z => "Z".to_string(),
        }
    }

    /// The cells that a kind occupies in an orientation, relative to the
    /// top left corner of its bounding box, line by line and left to right.
    pub open spec fn shape(self, rotation: Rotation) -> Seq<Coordinate> {
        match self {
            Kind::O => quad(1, 0, 2, 0, 1, 1, 2, 1),
            Kind::I => match rotation {
                Rotation::N => quad(0, 1, 1, 1, 2, 1, 3, 1),
                Rotation::E => quad(2, 0, 2, 1, 2, 2, 2, 3),
                Rotation::S => quad(0, 2, 1, 2, 2, 2, 3, 2),
                Rotation::W => quad(1, 0, 1, 1, 1, 2, 1, 3),
            },
            Kind::T => match rotation {
                Rotation::N => quad(1, 0, 0, 1, 1, 1, 2, 1),
                Rotation::E => quad(1, 0, 1, 1, 2, 1, 1, 2),
                Rotation::S => quad(0, 1, 1, 1, 2, 1, 1, 2),
                Rotation::W => quad(1, 0, 0, 1, 1, 1, 1, 2),
            },
            Kind::L => match rotation {
                Rotation::N => quad(2, 0, 0, 1, 1, 1, 2, 1),
                Rotation::E => quad(1, 0, 1, 1, 1, 2, 2, 2),
                Rotation::S => quad(0, 1, 1, 1, 2, 1, 0, 2),
                Rotation::W => quad(0, 0, 1, 0, 1, 1, 1, 2),
            },
            Kind::J => match rotation {
                Rotation::N => quad(0, 0, 0, 1, 1, 1, 2, 1),
                Rotation::E => quad(1, 0, 2, 0, 1, 1, 1, 2),
                Rotation::S => quad(0, 1, 1, 1, 2, 1, 2, 2),
                Rotation::W => quad(1, 0, 1, 1, 0, 2, 1, 2),
            },
            Kind::S => match rotation {
                Rotation::N => quad(1, 0, 2, 0, 0, 1, 1, 1),
                Rotation::E => quad(1, 0, 1, 1, 2, 1, 2, 2),
                Rotation::S => quad(1, 1, 2, 1, 0, 2, 1, 2),
                Rotation::W => quad(0, 0, 0, 1, 1, 1, 1, 2),
            },
            Kind::Z => match rotation {
                Rotation::N => quad(0, 0, 1, 0, 1, 1, 2, 1),
                Rotation::E => quad(2, 0, 1, 1, 2, 1, 1, 2),
                Rotation::S => quad(0, 1, 1, 1, 1, 2, 2, 2),
                Rotation::W => quad(1, 0, 0, 1, 1, 1, 0, 2),
            },
        }
    }

    /// The textual grid that the catalog holds for a kind and an orientation.
    pub open spec fn grid(self, rotation: Rotation) -> Seq<char> {
        match self {
            Kind::O => " XX\n XX"@,
            Kind::I => match rotation {
                Rotation::N => "    \nXXXX\n    \n    "@,
                Rotation::E => "  X \n  X \n  X \n  X "@,
                Rotation::S => "    \n    \nXXXX\n    "@,
                Rotation::W => " X  \n X  \n X  \n X  "@,
            },
            Kind::T => match rotation {
                Rotation::N => " X \nXXX\n   "@,
                Rotation::E => " X \n XX\n X "@,
                Rotation::S => "   \nXXX\n X "@,
                Rotation::W => " X \nXX \n X "@,
            },
            Kind::L => match rotation {
                Rotation::N => "  X\nXXX\n   "@,
                Rotation::E => " X \n X \n XX"@,
                Rotation::S => "   \nXXX\nX  "@,
                Rotation::W => "XX \n X \n X "@,
            },
            Kind::J => match rotation {
                Rotation::N => "X  \nXXX\n   "@,
                Rotation::E => " XX\n X \n X "@,
                Rotation::S => "   \nXXX\n  X"@,
                Rotation::W => " X \n X \nXX "@,
            },
            Kind::S => match rotation {
                Rotation::N => " XX\nXX \n   "@,
                Rotation::E => " X \n XX\n  X"@,
                Rotation::S => "   \n XX\nXX "@,
                Rotation::W => "X  \nXX \n X "@,
            },
            Kind::Z => match rotation {
                Rotation::N => "XX \n XX\n   "@,
                Rotation::E => "  X\n XX\n X "@,
                Rotation::S => "   \nXX \n XX"@,
                Rotation::W => " X \nXX \nX  "@,
            },
        }
    }

    /// The catalog's grid for this kind in the given orientation: up to four
    /// lines of up to four columns, an `X` for each occupied cell.
    pub fn shape_text(&self, rotation: &Rotation) -> (s: &'static str)
        ensures
            s@ == self.grid(*rotation),
    {
        match self {
            Kind::O => " XX\n XX",
            Kind::I => match rotation {
                Rotation::N => "    \nXXXX\n    \n    ",
                Rotation::E => "  X \n  X \n  X \n  X ",
                Rotation::S => "    \n    \nXXXX\n    ",
                Rotation::W => " X  \n X  \n X  \n X  ",
            },
            Kind::T => match rotation {
                Rotation::N => " X \nXXX\n   ",
                Rotation::E => " X \n XX\n X ",
                Rotation::S => "   \nXXX\n X ",
                Rotation::W => " X \nXX \n X ",
            },
            Kind::L => match rotation {
                Rotation::N => "  X\nXXX\n   ",
                Rotation::E => " X \n X \n XX",
                Rotation::S => "   \nXXX\nX  ",
                Rotation::W => "XX \n X \n X ",
            },
            Kind::J => match rotation {
                Rotation::N => "X  \nXXX\n   ",
                Rotation::E => " XX\n X \n X ",
                Rotation::S => "   \nXXX\n  X",
                Rotation::W => " X \n X \nXX ",
            },
            Kind::S => match rotation {
                Rotation::N => " XX\nXX \n   ",
                Rotation::E => " X \n XX\n  X",
                Rotation::S => "   \n XX\nXX ",
                Rotation::W => "X  \nXX \n X ",
            },
            Kind::Z => match rotation {
                Rotation::N => "XX \n XX\n   ",
                Rotation::E => "  X\n XX\n X ",
                Rotation::S => "   \nXX \n XX",
                Rotation::W => " X \nXX \nX  ",
            },
        }
    }

    /// The relative cells of this kind in the given orientation.
    pub fn cells_for(&self, rotation: &Rotation) -> (res: Vec<Coordinate>)
        ensures
            res@ == self.shape(*rotation),
    {
        proof {
            lemma_grid_shape(*self, *rotation);
        }
        self.string_to_cells(self.shape_text(rotation))
    }
    /// Reads a textual grid into the cells it marks.
    pub fn string_to_cells(&self, s: &str) -> (res: Vec<Coordinate>)
        ensures
            res@ == grid_cells(s@),
    {
        let mut res: Vec<Coordinate> = Vec::new();
        // the number of characters bounds both counters
        let n: usize = s.unicode_len();
        let mut x: usize = 0;
        let mut y: usize = 0;
        for c in it: s.chars()
            invariant
                n == s@.len(),
                it.seq() == s@,
                x <= it.index(),
                y <= it.index(),
                res@ + scan_cells(s@, it.index() as int, x as int, y as int) == grid_cells(s@),
        {
            if c == '\n' {
                x = 0;
                y = y + 1;
            } else {
                if c == 'X' {
                    res.push(Coordinate { x: x as isize, y: y as isize });
                }
                x = x + 1;
            }
        }
        res
    }
}

/// Reading the catalog's grid of a kind and an orientation gives its shape.
pub proof fn lemma_grid_shape(kind: Kind, rotation: Rotation)
    ensures
        grid_cells(kind.grid(rotation)) == kind.shape(rotation),
{
    reveal_with_fuel(scan_cells, 21);
    match kind {
        Kind::O => {
            reveal_strlit(" XX\n XX");
        },
        Kind::I => match rotation {
            Rotation::N => {
                reveal_strlit("    \nXXXX\n    \n    ");
            },
            Rotation::E => {
                reveal_strlit("  X \n  X \n  X \n  X ");
            },
            Rotation::S => {
                reveal_strlit("    \n    \nXXXX\n    ");
            },
            Rotation::W => {
                reveal_strlit(" X  \n X  \n X  \n X  ");
            },
        },
        Kind::T => match rotation {
            Rotation::N => {
                reveal_strlit(" X \nXXX\n   ");
            },
            Rotation::E => {
                reveal_strlit(" X \n XX\n X ");
            },
            Rotation::S => {
                reveal_strlit("   \nXXX\n X ");
            },
            Rotation::W => {
                reveal_strlit(" X \nXX \n X ");
            },
        },
        Kind::L => match rotation {
            Rotation::N => {
                reveal_strlit("  X\nXXX\n   ");
            },
            Rotation::E => {
                reveal_strlit(" X \n X \n XX");
            },
            Rotation::S => {
                reveal_strlit("   \nXXX\nX  ");
            },
            Rotation::W => {
                reveal_strlit("XX \n X \n X ");
            },
        },
        Kind::J => match rotation {
            Rotation::N => {
                reveal_strlit("X  \nXXX\n   ");
            },
            Rotation::E => {
                reveal_strlit(" XX\n X \n X ");
            },
            Rotation::S => {
                reveal_strlit("   \nXXX\n  X");
            },
            Rotation::W => {
                reveal_strlit(" X \n X \nXX ");
            },
        },
        Kind::S => match rotation {
            Rotation::N => {
                reveal_strlit(" XX\nXX \n   ");
            },
            Rotation::E => {
                reveal_strlit(" X \n XX\n  X");
            },
            Rotation::S => {
                reveal_strlit("   \n XX\nXX ");
            },
            Rotation::W => {
                reveal_strlit("X  \nXX \n X ");
            },
        },
        Kind::Z => match rotation {
            Rotation::N => {
                reveal_strlit("XX \n XX\n   ");
            },
            Rotation::E => {
                reveal_strlit("  X\n XX\n X ");
            },
            Rotation::S => {
                reveal_strlit("   \nXX \n XX");
            },
            Rotation::W => {
                reveal_strlit(" X \nXX \nX  ");
            },
        },
    }
}

/// How far a piece has fallen towards the next row: the part `elapsed` of
/// the fall interval `interval`, both in milliseconds.
#[derive(Clone, Copy, Debug, PartialEq, Eq, Structural)]
pub struct Offset {
    pub elapsed: u32,
    pub interval: u32,
}

impl Offset {
    /// The fraction lies between zero and one.
    pub open spec fn wf(&self) -> bool {
        self.elapsed <= self.interval
    }

    pub open spec fn spec_zero() -> Offset {
        Offset { elapsed: 0, interval: 1 }
    }

    /// No progress at all.
    pub fn zero() -> (o: Offset)
        ensures
            o == Offset::spec_zero(),
    {
        Offset { elapsed: 0, interval: 1 }
    }
}

/// The falling piece.
#[derive(Clone, Copy, Debug, PartialEq, Eq, Structural)]
pub struct Piece {
    pub kind: Kind,
    /// Top left corner of the bounding box of the shape.
    pub position: Coordinate,
    pub rotation: Rotation,
    /// Used to draw a smooth fall; plays no part in collisions.
    pub offset: Offset,
}

impl Piece {
    /// The relative cells of the piece.
    pub open spec fn shape(&self) -> Seq<Coordinate> {
        self.kind.shape(self.rotation)
    }

    /// Column of the `i`-th cell.
    pub open spec fn cell_x(&self, i: int) -> int {
        self.position.x + self.shape()[i].x
    }

    /// Row of the `i`-th cell.
    pub open spec fn cell_y(&self, i: int) -> int {
        self.position.y + self.shape()[i].y
    }

    /// Offset in the grid of the `i`-th cell.
    pub open spec fn cell_offset(&self, i: int) -> int {
        self.cell_y(i) * 10 + self.cell_x(i)
    }

    /// Whether one of the four cells stands at the given offset of the grid.
    pub open spec fn covers(&self, o: int) -> bool {
        self.cell_offset(0) == o || self.cell_offset(1) == o || self.cell_offset(2) == o
            || self.cell_offset(3) == o
    }

    /// Whether each cell lies between the side walls and above the floor.
    pub open spec fn in_field(&self) -> bool {
        forall|i: int|
            #![trigger self.shape()[i]]
            0 <= i < 4 ==> 0 <= self.cell_x(i) < 10 && self.cell_y(i) < 20
    }

    /// Whether no cell reaches above the top of the field.
    pub open spec fn below_top(&self) -> bool {
        forall|i: int| #![trigger self.shape()[i]] 0 <= i < 4 ==> self.cell_y(i) >= 0
    }

    /// Whether each cell falls on an offset of the grid.
    pub open spec fn on_grid(&self) -> bool {
        forall|i: int| #![trigger self.shape()[i]] 0 <= i < 4 ==> 0 <= self.cell_offset(i) < 200
    }

    /// Whether each cell, displaced by (dx, dy), can be written as a
    /// coordinate.
    pub open spec fn cells_fit(&self, dx: int, dy: int) -> bool {
        forall|i: int|
            #![trigger self.shape()[i]]
            0 <= i < 4 ==> isize::MIN <= self.cell_x(i) + dx <= isize::MAX && isize::MIN
                <= self.cell_y(i) + dy <= isize::MAX
    }

    /// The absolute cells of the piece, in the order of its shape.
    pub open spec fn cells(&self) -> Seq<Coordinate> {
        Seq::new(
            4,
            |i: int| Coordinate { x: self.cell_x(i) as isize, y: self.cell_y(i) as isize },
        )
    }

    /// The cells of the piece on the board: its shape moved to its position.
    pub fn get_cells(&self) -> (res: Vec<Coordinate>)
        requires
            self.cells_fit(0, 0),
        ensures
            res@ == self.cells(),
    {
        let shape = self.kind.cells_for(&self.rotation);
        proof {
            lemma_shape_is_tetromino(self.kind, self.rotation);
        }
        let mut res: Vec<Coordinate> = Vec::new();
        let mut i: usize = 0;
        while i < 4
            invariant
                i <= 4,
                shape@ == self.shape(),
                shape@.len() == 4,
                self.cells_fit(0, 0),
                res@ == self.cells().take(i as int),
            decreases 4 - i,
        {
            let mino = shape[i];
            assert(mino == self.shape()[i as int]);
            res.push(Coordinate::new(mino.x + self.position.x, mino.y + self.position.y));
            i = i + 1;
            assert(res@ =~= self.cells().take(i as int));
        }
        assert(self.cells().take(4) =~= self.cells());
        res
    }
}

impl Piece {
    /// Whether the piece, displaced by (dx, dy), is in a legal place: each
    /// cell within the side walls, above the floor, and on no occupied
    /// position. Cells above the top of the field collide with nothing.
    pub open spec fn fits(&self, board: BoardView, dx: int, dy: int) -> bool {
        forall|i: int|
            #![trigger self.shape()[i]]
            0 <= i < 4 ==> 0 <= self.cell_x(i) + dx < 10 && self.cell_y(i) + dy < 20
                && !board.filled_at(self.cell_x(i) + dx, self.cell_y(i) + dy)
    }

    /// The piece displaced by (dx, dy).
    pub open spec fn shifted(&self, dx: int, dy: int) -> Piece {
        Piece {
            kind: self.kind,
            position: Coordinate {
                x: (self.position.x + dx) as isize,
                y: (self.position.y + dy) as isize,
            },
            rotation: self.rotation,
            offset: self.offset,
        }
    }

    /// The piece one row further down.
    pub open spec fn lowered(&self) -> Piece {
        self.shifted(0, 1)
    }

    /// The piece in another orientation.
    pub open spec fn turned(&self, rotation: Rotation) -> Piece {
        Piece { kind: self.kind, position: self.position, rotation, offset: self.offset }
    }

    /// How many rows the piece can fall before it is blocked.
    pub open spec fn drop_distance(&self, board: BoardView) -> nat
        decreases 20 - self.position.y,
    {
        if self.fits(board, 0, 1) {
            proof {
                lemma_shape_is_tetromino(self.kind, self.rotation);
                assert(self.cell_y(0) + 1 < 20);
            }
            1 + self.lowered().drop_distance(board)
        } else {
            0
        }
    }

    /// Whether the piece may sit where a displacement by (dx, dy) takes it.
    /// A cell beyond a side wall, on or below the floor, or on an occupied
    /// position forbids it.
    pub fn check_new_position(&self, board: &Board, dx: isize, dy: isize) -> (ok: bool)
        requires
            self.cells_fit(0, 0),
            self.cells_fit(dx as int, dy as int),
        ensures
            ok == self.fits(board@, dx as int, dy as int),
    {
        let cells = self.get_cells();
        let mut i: usize = 0;
        while i < 4
            invariant
                i <= 4,
                cells@ == self.cells(),
                self.cells_fit(0, 0),
                self.cells_fit(dx as int, dy as int),
                forall|k: int|
                    #![trigger self.shape()[k]]
                    0 <= k < i ==> 0 <= self.cell_x(k) + dx < 10 && self.cell_y(k) + dy < 20
                        && !board@.filled_at(self.cell_x(k) + dx, self.cell_y(k) + dy),
            decreases 4 - i,
        {
            let cell = cells[i];
            assert(cell == self.cells()[i as int]);
            let next_coord = Coordinate::new(cell.x + dx, cell.y + dy);
            if next_coord.x < 0 || next_coord.x >= 10 || next_coord.y >= 20 {
                return false;
            }
            if board.filled(next_coord) {
                return false;
            }
            i = i + 1;
        }
        true
    }

    /// Whether the piece can move one column to the left or to the right.
    pub fn can_move_lateral(&mut self, board: &Board, direction: Direction) -> (ok: bool)
        requires
            direction.is_lateral(),
            old(self).cells_fit(0, 0),
            old(self).cells_fit(direction.spec_value(), 0),
        ensures
            *final(self) == *old(self),
            ok == old(self).fits(board@, direction.spec_value(), 0),
    {
        self.check_new_position(board, direction.value(), 0)
    }

    /// Moves the piece one column to the left or to the right, whatever
    /// stands there.
    pub fn lateral_move(&mut self, direction: Direction)
        requires
            direction.is_lateral(),
            isize::MIN <= old(self).position.x + direction.spec_value() <= isize::MAX,
        ensures
            *final(self) == old(self).shifted(direction.spec_value(), 0),
    {
        self.position = Coordinate {
            x: self.position.x + direction.value(),
            y: self.position.y,
        };
    }

    /// Turns the piece one step clockwise, unless it would then sit in an
    /// illegal place: it then keeps its orientation.
    pub fn cw(&mut self, board: &Board)
        requires
            old(self).turned(old(self).rotation.next_cw()).cells_fit(0, 0),
        ensures
            *final(self) == (if old(self).turned(old(self).rotation.next_cw()).fits(board@, 0, 0) {
                old(self).turned(old(self).rotation.next_cw())
            } else {
                *old(self)
            }),
    {
        let current_rotation = self.rotation;
        match self.rotation {
            Rotation::N => self.rotation = Rotation::E,
            Rotation::E => self.rotation = Rotation::S,
            Rotation::S => self.rotation = Rotation::W,
            Rotation::W => self.rotation = Rotation::N,
        }
        if !self.check_new_position(board, 0, 0) {
            self.rotation = current_rotation;
        }
    }

    /// Turns the piece one step counterclockwise, unless it would then sit
    /// in an illegal place: it then keeps its orientation.
    pub fn ccw(&mut self, board: &Board)
        requires
            old(self).turned(old(self).rotation.next_ccw()).cells_fit(0, 0),
        ensures
            *final(self) == (if old(self).turned(old(self).rotation.next_ccw()).fits(board@, 0, 0) {
                old(self).turned(old(self).rotation.next_ccw())
            } else {
                *old(self)
            }),
    {
        let current_rotation = self.rotation;
        match self.rotation {
            Rotation::N => self.rotation = Rotation::W,
            Rotation::W => self.rotation = Rotation::S,
            Rotation::S => self.rotation = Rotation::E,
            Rotation::E => self.rotation = Rotation::N,
        }
        if !self.check_new_position(board, 0, 0) {
            self.rotation = current_rotation;
        }
    }

    /// Whether the piece can fall by one row.
    pub fn can_lower(&self, board: &Board) -> (ok: bool)
        requires
            self.cells_fit(0, 0),
            self.cells_fit(0, 1),
        ensures
            ok == self.fits(board@, 0, 1),
    {
        self.check_new_position(board, 0, 1)
    }

    /// The piece one row further down, whatever stands there.
    pub fn lower(&self) -> (p: Piece)
        requires
            self.position.y < isize::MAX,
        ensures
            p == self.lowered(),
    {
        Piece {
            kind: self.kind,
            position: Coordinate { x: self.position.x, y: self.position.y + 1 },
            rotation: self.rotation,
            offset: self.offset,
        }
    }
}

/// A displaced piece has its cells where the displacement takes those of
/// the piece, so it is in a legal place where the piece may go there.
pub proof fn lemma_shifted(piece: Piece, board: BoardView, dx: int, dy: int)
    requires
        isize::MIN <= piece.position.x + dx <= isize::MAX,
        isize::MIN <= piece.position.y + dy <= isize::MAX,
    ensures
        forall|i: int|
            #![trigger piece.shifted(dx, dy).shape()[i]]
            piece.shifted(dx, dy).cell_x(i) == piece.cell_x(i) + dx && piece.shifted(dx, dy).cell_y(
                i,
            ) == piece.cell_y(i) + dy,
        piece.shifted(dx, dy).fits(board, 0, 0) == piece.fits(board, dx, dy),
        piece.fits(board, dx, dy) ==> piece.shifted(dx, dy).in_field(),
        piece.shifted(dx, dy).below_top() == (forall|i: int|
            #![trigger piece.shape()[i]]
            0 <= i < 4 ==> piece.cell_y(i) + dy >= 0),
{
    let to = piece.shifted(dx, dy);
    assert(to.shape() == piece.shape());
    assert forall|i: int| #![trigger to.shape()[i]] to.cell_x(i) == piece.cell_x(i) + dx
        && to.cell_y(i) == piece.cell_y(i) + dy by {}
    if piece.fits(board, dx, dy) {
        assert forall|i: int| #![trigger to.shape()[i]] 0 <= i < 4 implies 0 <= to.cell_x(i) + 0
            < 10 && to.cell_y(i) + 0 < 20 && !board.filled_at(to.cell_x(i) + 0, to.cell_y(i) + 0) by {
            assert(piece.shape()[i] == to.shape()[i]);
        }
    }
    if to.fits(board, 0, 0) {
        assert forall|i: int| #![trigger piece.shape()[i]] 0 <= i < 4 implies 0 <= piece.cell_x(i)
            + dx < 10 && piece.cell_y(i) + dy < 20 && !board.filled_at(
            piece.cell_x(i) + dx,
            piece.cell_y(i) + dy,
        ) by {
            assert(to.shape()[i] == piece.shape()[i]);
            assert(to.cell_x(i) + 0 == piece.cell_x(i) + dx);
        }
    }
}

/// A piece in the field has cells that can be written as coordinates, and
/// so has the piece one step to either side or one row down, and the
/// piece turned.
pub proof fn lemma_in_field_fits(piece: Piece)
    requires
        piece.in_field(),
    ensures
        -3 <= piece.position.x <= 9,
        piece.position.y <= 19,
        piece.cells_fit(0, 0),
        piece.cells_fit(0, 1),
        piece.cells_fit(-1, 0),
        piece.cells_fit(1, 0),
        forall|r: Rotation| (#[trigger] piece.turned(r)).cells_fit(0, 0),
        piece.below_top() ==> piece.on_grid(),
{
    lemma_shape_is_tetromino(piece.kind, piece.rotation);
    let first = piece.shape()[0];
    assert(0 <= first.x <= 3 && 0 <= first.y <= 3);
    assert(0 <= piece.cell_x(0) < 10 && piece.cell_y(0) < 20);
    assert forall|r: Rotation| (#[trigger] piece.turned(r)).cells_fit(0, 0) by {
        lemma_shape_is_tetromino(piece.kind, r);
        let turned = piece.turned(r);
        assert forall|i: int| #![trigger turned.shape()[i]] 0 <= i < 4 implies isize::MIN
            <= turned.cell_x(i) + 0 <= isize::MAX && isize::MIN <= turned.cell_y(i) + 0
            <= isize::MAX by {
            let c = piece.kind.shape(r)[i];
            assert(0 <= c.x <= 3 && 0 <= c.y <= 3);
        }
    }
}

/// A piece in the field falls no further than to the floor: by at most as
/// many rows as lie between its position and the end of the field. This
/// bounds what a hard drop can pay.
pub proof fn lemma_drop_distance_bound(piece: Piece, board: BoardView)
    requires
        piece.in_field(),
    ensures
        piece.drop_distance(board) <= 20 - piece.position.y,
    decreases 20 - piece.position.y,
{
    lemma_in_field_fits(piece);
    if piece.fits(board, 0, 1) {
        lemma_shifted(piece, board, 0, 1);
        lemma_drop_distance_bound(piece.lowered(), board);
    }
}

/// A piece that cannot fall is blocked by something: one row further down,
/// one of its cells would leave the field or lie on a filled cell of the
/// board. The converse holds too.
pub proof fn lemma_blocked_piece_collides(piece: Piece, board: BoardView)
    requires
        piece.cells_fit(0, 1),
        piece.position.y < isize::MAX,
    ensures
        !piece.fits(board, 0, 1) <==> exists|i: int|
            0 <= i < 4 && {
                let cell = #[trigger] piece.lowered().cells()[i];
                cell.x < 0 || cell.x >= 10 || cell.y >= 20 || board.filled_at(
                    cell.x as int,
                    cell.y as int,
                )
            },
{
    let low = piece.lowered();
    assert forall|i: int| 0 <= i < 4 implies (#[trigger] low.cells()[i]).x == piece.cell_x(i)
        && low.cells()[i].y == piece.cell_y(i) + 1 by {}
    if !piece.fits(board, 0, 1) {
        let i = choose|i: int|
            #![trigger piece.shape()[i]]
            0 <= i < 4 && !(0 <= piece.cell_x(i) + 0 < 10 && piece.cell_y(i) + 1 < 20
                && !board.filled_at(piece.cell_x(i) + 0, piece.cell_y(i) + 1));
        assert(low.cells()[i].x == piece.cell_x(i));
    }
}

/// Every shape of the catalog has exactly four cells, all inside a box of
/// four by four, listed line by line and left to right; in particular no
/// shape is empty and no cell occurs twice.
pub proof fn lemma_shape_is_tetromino(kind: Kind, rotation: Rotation)
    ensures
        kind.shape(rotation).len() == 4,
        forall|i: int|
            0 <= i < 4 ==> 0 <= (#[trigger] kind.shape(rotation)[i]).x <= 3 && 0 <= kind.shape(
                rotation,
            )[i].y <= 3,
        forall|i: int, j: int|
            0 <= i < j < 4 ==> (#[trigger] kind.shape(rotation)[i]).y * 4 + kind.shape(rotation)[i].x
                < (#[trigger] kind.shape(rotation)[j]).y * 4 + kind.shape(rotation)[j].x,
{
}

} // verus!
