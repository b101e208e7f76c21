use vstd::prelude::*;

verus! {

/// One of the four cardinal directions.
#[derive(Clone, Copy, Debug, PartialEq, Eq, Structural)]
pub enum Direction {
    North,
    West,
    East,
    South,
}

/// Grid dimensions: `Size(width, height)`.
#[derive(Clone, Copy, Debug, PartialEq, Eq, Structural)]
pub struct Size(pub u8, pub u8);

/// Marker coordinates: `Position(row, col)`, both zero-based.
#[derive(Clone, Copy, Debug, PartialEq, Eq, Structural)]
pub struct Position(pub u8, pub u8);

/// Why a grid could not be built.
#[derive(Clone, Copy, Debug, PartialEq, Eq, Structural)]
pub enum GridError {
    /// A dimension is zero, or the start position lies outside the grid.
    OutOfBounds,
}

/// A grid of `size` holding one marker at `position`.
#[derive(Debug)]
pub struct Wearhouse {
    pub size: Size,
    pub position: Position,
}

impl Size {
    /// Both dimensions are at least one.
    pub open spec fn valid(self) -> bool {
        self.0 > 0 && self.1 > 0
    }
}

impl Position {
    /// The position names a cell of a grid of `size`.
    pub open spec fn within(self, size: Size) -> bool {
        self.0 < size.1 && self.1 < size.0
    }
}

/// The position after one step toward `d`, where a step off the grid is absorbed.
pub open spec fn stepped(p: Position, s: Size, d: Direction) -> Position {
    match d {
        Direction::North => if p.0 != 0 { Position((p.0 - 1) as u8, p.1) } else { p },
        Direction::South => if p.0 + 1 < s.1 { Position((p.0 + 1) as u8, p.1) } else { p },
        Direction::West => if p.1 != 0 { Position(p.0, (p.1 - 1) as u8) } else { p },
        Direction::East => if p.1 + 1 < s.0 { Position(p.0, (p.1 + 1) as u8) } else { p },
    }
}

/// The position after taking every step of `ds` in order.
pub open spec fn walked(p: Position, s: Size, ds: Seq<Direction>) -> Position
    decreases ds.len(),
{
    if ds.len() == 0 {
        p
    } else {
        stepped(walked(p, s, ds.drop_last()), s, ds.last())
    }
}

impl Wearhouse {
    /// The size is valid and the marker stands on the grid.
    pub open spec fn wf(&self) -> bool {
        self.size.valid() && self.position.within(self.size)
    }

    /// Builds a grid; fails unless both dimensions are positive and the
    /// position lies on the grid.
    pub fn new(size: Size, position: Position) -> (r: Result<Wearhouse, GridError>)
        ensures
            size.valid() && position.within(size) <==> r is Ok,
            r is Ok ==> r->Ok_0.size == size && r->Ok_0.position == position,
            r is Err ==> r->Err_0 == GridError::OutOfBounds,
    {
        if size.0 == 0 || size.1 == 0 || position.0 >= size.1 || position.1 >= size.0 {
            Err(GridError::OutOfBounds)
        } else {
            Ok(Wearhouse { size, position })
        }
    }

    /// Moves the marker one cell toward `dir`; a move off the grid leaves it
    /// where it is.
    pub fn moving(&mut self, dir: Direction)
        requires
            old(self).wf(),
        ensures
            final(self).wf(),
            final(self).size == old(self).size,
            final(self).position == stepped(old(self).position, old(self).size, dir),
            dir == Direction::North || dir == Direction::South ==> final(self).position.1
                == old(self).position.1,
            dir == Direction::East || dir == Direction::West ==> final(self).position.0
                == old(self).position.0,
    {
        match dir {
            Direction::North => {
                if self.position.0 != 0 {
                    self.position.0 = self.position.0 - 1;
                }
            },
            Direction::West => {
                if self.position.1 != 0 {
                    self.position.1 = self.position.1 - 1;
                }
            },
            Direction::East => {
                if self.position.1 != self.size.0 - 1 {
                    self.position.1 = self.position.1 + 1;
                }
            },
            Direction::South => {
                if self.position.0 != self.size.1 - 1 {
                    self.position.0 = self.position.0 + 1;
                }
            },
        }
    }
}

} // verus!
