//! The place and heading of one line, and the rule that moves it by one tick.

use vstd::prelude::*;

verus! {

/// A pair of screen coordinates, or the width and height of a screen.
#[derive(Clone, Copy, Debug, PartialEq, Eq, Structural)]
pub struct Vec2 {
    pub x: usize,
    pub y: usize,
}

impl Vec2 {
    pub fn new(x: usize, y: usize) -> (v: Vec2)
        ensures
            v == (Vec2 { x, y }),
    {
        Vec2 { x, y }
    }
}

/// The way a line is heading.
#[derive(Clone, Copy, Debug, PartialEq, Eq, Structural)]
pub enum Direction {
    Right,
    Left,
}

/// Where a line stands and which way it is heading.
#[derive(Clone, Copy, Debug, PartialEq, Eq, Structural)]
pub struct LineState {
    pub position: Vec2,
    pub direction: Direction,
}

impl LineState {
    /// Whether one tick can be computed in machine integers: a line heading
    /// right must not leave the range of `usize` and must not be longer than
    /// the screen is wide, a line heading left must not pass below zero.
    pub open spec fn can_advance(self, shift: nat, width: nat, len: nat) -> bool {
        match self.direction {
            Direction::Right => self.position.x + shift <= usize::MAX && len <= width,
            Direction::Left => shift <= self.position.x,
        }
    }

    /// The line after one tick.  Heading right it moves `shift` columns to the
    /// right and turns left once its column exceeds `width - len`; heading left
    /// it moves `shift` columns to the left and turns right when it stands in
    /// column 0.  The row never changes.
    pub open spec fn advanced(self, shift: nat, width: nat, len: nat) -> LineState
        recommends
            self.can_advance(shift, width, len),
    {
        match self.direction {
            Direction::Right => {
                let x = (self.position.x + shift) as usize;
                LineState {
                    position: Vec2 { x, y: self.position.y },
                    direction: if x > width - len {
                        Direction::Left
                    } else {
                        Direction::Right
                    },
                }
            },
            Direction::Left => {
                let x = (self.position.x - shift) as usize;
                LineState {
                    position: Vec2 { x, y: self.position.y },
                    direction: if x == 0 {
                        Direction::Right
                    } else {
                        Direction::Left
                    },
                }
            },
        }
    }

    /// Tests whether `advance` may be called with these arguments.
    pub fn may_advance(self, shift: usize, width: usize, len: usize) -> (ok: bool)
        ensures
            ok == self.can_advance(shift as nat, width as nat, len as nat),
    {
        match self.direction {
            Direction::Right => shift <= usize::MAX - self.position.x && len <= width,
            Direction::Left => shift <= self.position.x,
        }
    }

    /// Moves the line by one tick of `shift` columns on a screen `width`
    /// columns wide, the line itself being `len` columns long.
    pub fn advance(self, shift: usize, width: usize, len: usize) -> (next: LineState)
        requires
            self.can_advance(shift as nat, width as nat, len as nat),
        ensures
            next == self.advanced(shift as nat, width as nat, len as nat),
    {
        match self.direction {
            Direction::Right => {
                let x: usize = self.position.x + shift;
                LineState {
                    position: Vec2 { x, y: self.position.y },
                    direction: if x > width - len {
                        Direction::Left
                    } else {
                        Direction::Right
                    },
                }
            },
            Direction::Left => {
                let x: usize = self.position.x - shift;
                LineState {
                    position: Vec2 { x, y: self.position.y },
                    direction: if x == 0 {
                        Direction::Right
                    } else {
                        Direction::Left
                    },
                }
            },
        }
    }
}

/// A line heading right turns left on the very tick that carries it past
/// `width - len`, and on no other; a line heading left turns right on the
/// tick that brings it to column 0, and on no other.
pub proof fn direction_flips_at_the_edges(state: LineState, shift: nat, width: nat, len: nat)
    requires
        state.can_advance(shift, width, len),
    ensures
        state.direction == Direction::Right ==> (state.advanced(shift, width, len).direction
            == Direction::Left <==> state.position.x + shift > width - len),
        state.direction == Direction::Left ==> (state.advanced(shift, width, len).direction
            == Direction::Right <==> state.position.x == shift),
{
}

/// A line that heads right after a tick stands on the screen with all its
/// length, if it headed right before; a line that headed left has come closer
/// to column 0 by the shift.
pub proof fn where_a_line_stands_after_a_tick(state: LineState, shift: nat, width: nat, len: nat)
    requires
        state.can_advance(shift, width, len),
    ensures
        state.direction == Direction::Right && state.advanced(shift, width, len).direction
            == Direction::Right ==> state.advanced(shift, width, len).position.x + len <= width,
        state.direction == Direction::Left ==> state.advanced(shift, width, len).position.x + shift
            == state.position.x,
        state.advanced(shift, width, len).position.y == state.position.y,
{
}

} // verus!
