//! Points and path commands.
use vstd::prelude::*;

verus! {

/// How many coordinate steps make one user unit: coordinates are thousandths.
pub const UNITS_PER_USER_UNIT: i64 = 1000;

/// The largest magnitude of a source coordinate, in thousandths of a user unit.
pub const COORD_LIMIT: i64 = 1_000_000_000_000_000;

/// How the coordinates of a command are read.
#[derive(Clone, Copy, Debug, PartialEq, Eq, Structural)]
pub enum Position {
    /// In the document's own frame.
    Absolute,
    /// As an offset from the current point.
    Relative,
}

/// A point, each coordinate in thousandths of a user unit.
#[derive(Clone, Copy, Debug, PartialEq, Eq, Structural)]
pub struct Point {
    pub x: i64,
    pub y: i64,
}

impl Point {
    /// Both coordinates lie within the supported range.
    pub open spec fn in_range(self) -> bool {
        -COORD_LIMIT <= self.x <= COORD_LIMIT && -COORD_LIMIT <= self.y <= COORD_LIMIT
    }
}

/// One drawing command of a path.
#[derive(Clone, Copy, Debug, PartialEq, Eq, Structural)]
pub enum Command {
    Move(Position, Point),
    Line(Position, Point),
    Close,
    /// Any other command of the path grammar (a curve, an arc, a horizontal
    /// or vertical line), by its letter. It cannot be rewritten.
    Unsupported(char),
}

impl Command {
    /// A move or a line with absolute coordinates.
    pub open spec fn is_absolute(self) -> bool {
        match self {
            Command::Move(Position::Absolute, _) | Command::Line(Position::Absolute, _) => true,
            _ => false,
        }
    }

    /// A move or a line with relative coordinates.
    pub open spec fn is_relative(self) -> bool {
        match self {
            Command::Move(Position::Relative, _) | Command::Line(Position::Relative, _) => true,
            _ => false,
        }
    }

    /// A move or a line, whatever its position.
    pub open spec fn has_point(self) -> bool {
        self is Move || self is Line
    }

    /// The end point of a move or a line.
    pub open spec fn point(self) -> Point {
        match self {
            Command::Move(_, p) | Command::Line(_, p) => p,
            _ => Point { x: 0, y: 0 },
        }
    }
}

/// Some command of some path of the document moves or draws relatively.
pub open spec fn doc_has_relative(paths: Seq<Seq<Command>>) -> bool {
    exists|i: int, j: int|
        0 <= i < paths.len() && 0 <= j < paths[i].len() && (#[trigger] paths[i][j]).is_relative()
}

/// Some command of some path of the document has an absolute point.
pub open spec fn doc_has_absolute(paths: Seq<Seq<Command>>) -> bool {
    exists|i: int, j: int|
        0 <= i < paths.len() && 0 <= j < paths[i].len() && (#[trigger] paths[i][j]).is_absolute()
}

/// Every absolute point of the document lies within the supported range.
pub open spec fn doc_in_range(paths: Seq<Seq<Command>>) -> bool {
    forall|i: int, j: int|
        0 <= i < paths.len() && 0 <= j < paths[i].len() && (#[trigger] paths[i][j]).is_absolute()
            ==> paths[i][j].point().in_range()
}

} // verus!
