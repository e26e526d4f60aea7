//! Grid coordinates and the four directions an entity can step in.

use vstd::prelude::*;

verus! {

/// A direction on the grid. `Top` decreases `y`, `Bottom` increases it,
/// `Left` decreases `x` and `Right` increases it.
#[derive(Clone, Copy, Debug, PartialEq, Eq, Structural)]
pub enum RectDirection {
    Top,
    Bottom,
    Left,
    Right,
}

/// A cell of the grid, counted from the top-left corner.
#[derive(Clone, Copy, Debug, PartialEq, Eq, Structural)]
pub struct RectCoordinate {
    pub x: usize,
    pub y: usize,
}

impl RectCoordinate {
    pub fn new(x: usize, y: usize) -> (c: Self)
        ensures
            c == (RectCoordinate { x, y }),
    {
        RectCoordinate { x, y }
    }

    /// The pair `(x, y)`.
    pub fn repr(&self) -> (r: (usize, usize))
        ensures
            r == (self.x, self.y),
    {
        (self.x, self.y)
    }

    /// Whether a step in `direction` stays clear of the numeric limits of
    /// the coordinate type.
    pub open spec fn can_step(self, direction: RectDirection) -> bool {
        match direction {
            RectDirection::Top => self.y > 0,
            RectDirection::Bottom => self.y < usize::MAX,
            RectDirection::Left => self.x > 0,
            RectDirection::Right => self.x < usize::MAX,
        }
    }

    /// The cell one step away in `direction`.
    pub open spec fn spec_adjacent(self, direction: RectDirection) -> RectCoordinate {
        match direction {
            RectDirection::Top => RectCoordinate { x: self.x, y: (self.y - 1) as usize },
            RectDirection::Bottom => RectCoordinate { x: self.x, y: (self.y + 1) as usize },
            RectDirection::Left => RectCoordinate { x: (self.x - 1) as usize, y: self.y },
            RectDirection::Right => RectCoordinate { x: (self.x + 1) as usize, y: self.y },
        }
    }

    /// Steps one cell in `direction`.
    pub fn adjacent(&self, direction: RectDirection) -> (c: Self)
        requires
            self.can_step(direction),
        ensures
            c == self.spec_adjacent(direction),
    {
        match direction {
            RectDirection::Top => RectCoordinate { x: self.x, y: self.y - 1 },
            RectDirection::Bottom => RectCoordinate { x: self.x, y: self.y + 1 },
            RectDirection::Left => RectCoordinate { x: self.x - 1, y: self.y },
            RectDirection::Right => RectCoordinate { x: self.x + 1, y: self.y },
        }
    }

    /// The distance from `self` to `target` when `target` lies strictly
    /// ahead of `self` on the straight line that `direction` points along.
    pub open spec fn spec_ahead(self, direction: RectDirection, target: RectCoordinate) -> Option<
        usize,
    > {
        match direction {
            RectDirection::Top => if target.x == self.x && target.y < self.y {
                Some((self.y - target.y) as usize)
            } else {
                None
            },
            RectDirection::Bottom => if target.x == self.x && target.y > self.y {
                Some((target.y - self.y) as usize)
            } else {
                None
            },
            RectDirection::Left => if target.y == self.y && target.x < self.x {
                Some((self.x - target.x) as usize)
            } else {
                None
            },
            RectDirection::Right => if target.y == self.y && target.x > self.x {
                Some((target.x - self.x) as usize)
            } else {
                None
            },
        }
    }

    /// Computes [`Self::spec_ahead`].
    pub fn ahead(&self, direction: RectDirection, target: &RectCoordinate) -> (r: Option<usize>)
        ensures
            r == self.spec_ahead(direction, *target),
    {
        match direction {
            RectDirection::Top => if target.x == self.x && target.y < self.y {
                Some(self.y - target.y)
            } else {
                None
            },
            RectDirection::Bottom => if target.x == self.x && target.y > self.y {
                Some(target.y - self.y)
            } else {
                None
            },
            RectDirection::Left => if target.y == self.y && target.x < self.x {
                Some(self.x - target.x)
            } else {
                None
            },
            RectDirection::Right => if target.y == self.y && target.x > self.x {
                Some(target.x - self.x)
            } else {
                None
            },
        }
    }
}

} // verus!
