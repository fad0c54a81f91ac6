//! One tick's discrete input.

use vstd::prelude::*;

verus! {

/// The input of one tick: three independent switches.
#[derive(Clone, Copy, Debug, PartialEq, Eq, Structural)]
pub struct Move {
    pub left: bool,
    pub right: bool,
    pub up: bool,
}

impl Move {
    /// The move with no switch set.
    pub open spec fn idle() -> Move {
        Move { left: false, right: false, up: false }
    }

    /// The move that an action index in `0..8` stands for: bit 0 clear means
    /// left, bit 1 clear means right, bit 2 clear means up.
    pub open spec fn of_action(index: nat) -> Move {
        Move {
            left: index % 2 == 0,
            right: (index / 2) % 2 == 0,
            up: (index / 4) % 2 == 0,
        }
    }

    /// Decodes an action index.
    pub fn from_action(index: usize) -> (m: Move)
        ensures
            m == Move::of_action(index as nat),
    {
        Move { left: index % 2 == 0, right: (index / 2) % 2 == 0, up: (index / 4) % 2 == 0 }
    }
}

impl Default for Move {
    fn default() -> (m: Move)
        ensures
            m == Move::idle(),
    {
        Move { left: false, right: false, up: false }
    }
}

} // verus!
