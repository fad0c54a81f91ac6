//! Ground-contact locomotion: which floor contacts a move pushes against,
//! and when a run counts as won.
//!
//! The player has no drive of its own. Each tick the contact points under
//! its lower half are collected, and the move of that tick is turned into
//! pushes against them: sideways against the outermost contact on the side
//! asked for, upwards against all of them in equal shares.

use vstd::prelude::*;
use crate::moves::Move;
use crate::ranking::{first_least, last_greatest, leftmost, lemma_folds_in_range, rightmost};
use crate::scalar::{less, lt};

verus! {

/// The vertical offset of a contact from the player's lower centre, in
/// player radii, below which the contact counts as underfoot: the pattern
/// of -0.707, about 45 degrees off straight down.
pub const FLOOR_THRESHOLD: u32 = 0xbf34_fdf4;

/// The distance below which a goal counts as reached: the pattern of 1e-7.
pub const GOAL_EPSILON: u32 = 0x33d6_bf95;

/// A contact point under the player.
#[derive(Clone, Copy, Debug, PartialEq, Eq, Structural)]
pub struct FloorContact {
    /// Horizontal coordinate of the contact point.
    pub x: u32,
    /// Whether the collider on the other side belongs to a rigid body,
    /// which then takes the opposite impulse.
    pub attached: bool,
}

/// The way a push is directed relative to the contact normal.
#[derive(Clone, Copy, Debug, PartialEq, Eq, Structural)]
pub enum Direction {
    /// Along the tangent that rolls the player to the left.
    Left,
    /// Along the tangent that rolls the player to the right.
    Right,
    /// Along the normal, away from the contact.
    Up,
}

/// One impulse on the player, directed by one floor contact.
#[derive(Clone, Copy, Debug, PartialEq, Eq, Structural)]
pub struct Push {
    /// Index of the floor contact that directs the impulse.
    pub contact: usize,
    pub direction: Direction,
    /// Whether the contacted body takes the opposite impulse.
    pub reaction: bool,
}

/// The horizontal coordinates of the contacts, in their order.
pub open spec fn coordinates(contacts: Seq<FloorContact>) -> Seq<u32> {
    Seq::new(contacts.len(), |i: int| contacts[i].x)
}

/// The push that contact `i` directs.
pub open spec fn push_against(contacts: Seq<FloorContact>, i: int, direction: Direction) -> Push {
    Push { contact: i as usize, direction, reaction: contacts[i].attached }
}

/// The sideways pushes of a move: to the left against the contact with the
/// least horizontal coordinate, to the right against the one with the
/// greatest.
pub open spec fn side_pushes(player_move: Move, contacts: Seq<FloorContact>) -> Seq<Push> {
    let xs = coordinates(contacts);
    let left = if player_move.left {
        seq![push_against(contacts, first_least(xs), Direction::Left)]
    } else {
        Seq::empty()
    };
    let right = if player_move.right {
        seq![push_against(contacts, last_greatest(xs), Direction::Right)]
    } else {
        Seq::empty()
    };
    left + right
}

/// The upward pushes of a move: one against every contact, in their order.
pub open spec fn up_pushes(player_move: Move, contacts: Seq<FloorContact>) -> Seq<Push> {
    if player_move.up {
        Seq::new(contacts.len(), |i: int| push_against(contacts, i, Direction::Up))
    } else {
        Seq::empty()
    }
}

/// The pushes of one tick, in the order in which their impulses are
/// summed: none off the ground, else sideways pushes before upward ones.
pub open spec fn pushes(player_move: Move, contacts: Seq<FloorContact>) -> Seq<Push> {
    if contacts.len() == 0 {
        Seq::empty()
    } else {
        side_pushes(player_move, contacts) + up_pushes(player_move, contacts)
    }
}

/// Whether a contact at this vertical offset, in player radii from the
/// player's lower centre, is underfoot.
pub open spec fn underfoot(offset_y: u32) -> bool {
    lt(offset_y, FLOOR_THRESHOLD)
}

/// Whether a goal distance counts as reached. No goal is never reached.
pub open spec fn reached(distance: Option<u32>) -> bool {
    match distance {
        Some(d) => lt(d, GOAL_EPSILON),
        None => false,
    }
}

/// Classifies a contact by its vertical offset.
pub fn is_floor_contact(offset_y: u32) -> (r: bool)
    ensures
        r == underfoot(offset_y),
{
    less(offset_y, FLOOR_THRESHOLD)
}

/// Lists the horizontal coordinates of the contacts.
fn coordinates_of(contacts: &Vec<FloorContact>) -> (xs: Vec<u32>)
    ensures
        xs@ == coordinates(contacts@),
{
    let mut xs: Vec<u32> = Vec::new();
    let mut i: usize = 0;
    while i < contacts.len()
        invariant
            i <= contacts.len(),
            xs@ == coordinates(contacts@.take(i as int)),
        decreases contacts.len() - i,
    {
        xs.push(contacts[i].x);
        i += 1;
        assert(xs@ =~= coordinates(contacts@.take(i as int)));
    }
    assert(contacts@.take(i as int) == contacts@);
    xs
}

/// Turns the move of one tick into pushes against the floor contacts.
/// Every push names one of the contacts given.
pub fn plan_pushes(player_move: Move, contacts: &Vec<FloorContact>) -> (plan: Vec<Push>)
    ensures
        plan@ == pushes(player_move, contacts@),
        forall|k: int| 0 <= k < plan.len() ==> (#[trigger] plan[k]).contact < contacts.len(),
{
    let mut plan: Vec<Push> = Vec::new();
    if contacts.len() == 0 {
        return plan;
    }
    let xs = coordinates_of(contacts);
    if player_move.left {
        let i: usize = leftmost(xs.as_slice()).unwrap();
        plan.push(Push { contact: i, direction: Direction::Left, reaction: contacts[i].attached });
    }
    if player_move.right {
        let i: usize = rightmost(xs.as_slice()).unwrap();
        plan.push(Push { contact: i, direction: Direction::Right, reaction: contacts[i].attached });
    }
    assert(plan@ =~= side_pushes(player_move, contacts@));
    if player_move.up {
        let ghost sides = plan@;
        let mut i: usize = 0;
        while i < contacts.len()
            invariant
                i <= contacts.len(),
                plan@ == sides + Seq::new(
                    i as nat,
                    |j: int| push_against(contacts@, j, Direction::Up),
                ),
            decreases contacts.len() - i,
        {
            plan.push(Push { contact: i, direction: Direction::Up, reaction: contacts[i].attached });
            i += 1;
            assert(plan@ =~= sides + Seq::new(
                i as nat,
                |j: int| push_against(contacts@, j, Direction::Up),
            ));
        }
    }
    assert(plan@ =~= pushes(player_move, contacts@));
    proof {
        lemma_pushes_shape(player_move, contacts@);
    }
    plan
}

/// Off the ground no move pushes; on the ground every push names a contact,
/// an idle move pushes nothing, and a jump is shared by all contacts.
pub proof fn lemma_pushes_shape(player_move: Move, contacts: Seq<FloorContact>)
    ensures
        contacts.len() == 0 ==> pushes(player_move, contacts).len() == 0,
        player_move == Move::idle() ==> pushes(player_move, contacts).len() == 0,
        forall|k: int|
            0 <= k < pushes(player_move, contacts).len() ==> (#[trigger] pushes(
                player_move,
                contacts,
            )[k]).contact < contacts.len(),
        contacts.len() > 0 ==> pushes(player_move, contacts).len() == (if player_move.left {
            1nat
        } else {
            0nat
        }) + (if player_move.right {
            1nat
        } else {
            0nat
        }) + (if player_move.up {
            contacts.len()
        } else {
            0nat
        }),
{
    if contacts.len() > 0 {
        lemma_folds_in_range(coordinates(contacts));
    }
}

/// The flag that records whether the player has reached a goal. Once set
/// it stays set.
#[derive(Clone, Copy, Debug)]
pub struct GoalLatch {
    won: bool,
}

impl GoalLatch {
    /// Whether a goal has been reached.
    pub closed spec fn is_won(self) -> bool {
        self.won
    }

    /// The flag after a tick that ended at the given distance to the goals.
    pub open spec fn after(self, distance: Option<u32>) -> bool {
        self.is_won() || reached(distance)
    }

    /// The flag after a run of ticks that ended at the given distances.
    pub open spec fn after_all(self, distances: Seq<Option<u32>>) -> bool {
        self.is_won() || exists|i: int| 0 <= i < distances.len() && reached(#[trigger] distances[i])
    }

    /// A latch that is not set.
    pub fn new() -> (latch: GoalLatch)
        ensures
            !latch.is_won(),
    {
        GoalLatch { won: false }
    }

    /// Reads the flag.
    pub fn won(&self) -> (r: bool)
        ensures
            r == self.is_won(),
    {
        self.won
    }

    /// Records the distance to the goals at the end of a tick: the flag is
    /// set if a goal is reached, and is never cleared.
    pub fn record(&mut self, distance: Option<u32>)
        ensures
            final(self).is_won() == old(self).after(distance),
            old(self).is_won() ==> final(self).is_won(),
    {
        if !self.won {
            if let Some(d) = distance {
                if less(d, GOAL_EPSILON) {
                    self.won = true;
                }
            }
        }
    }

    /// A set flag stays set over any run of ticks, whatever distances they
    /// end at; an unset one is set by the first tick that reaches a goal.
    pub proof fn lemma_won_is_monotonic(self, distances: Seq<Option<u32>>, tick: int)
        requires
            0 <= tick <= distances.len(),
        ensures
            self.after_all(distances.take(tick)) ==> self.after_all(distances),
            self.is_won() ==> self.after_all(distances),
            tick < distances.len() ==> self.after_all(distances.take(tick + 1)) == (self.after_all(
                distances.take(tick),
            ) || reached(distances[tick])),
    {
        let front = distances.take(tick);
        if self.after_all(front) && !self.is_won() {
            let i = choose|i: int| 0 <= i < front.len() && reached(#[trigger] front[i]);
            assert(distances[i] == front[i]);
        }
        if tick < distances.len() {
            let next = distances.take(tick + 1);
            if self.after_all(next) && !self.is_won() {
                let i = choose|i: int| 0 <= i < next.len() && reached(#[trigger] next[i]);
                if i < tick {
                    assert(front[i] == next[i]);
                }
            }
            if self.after_all(front) && !self.is_won() {
                let i = choose|i: int| 0 <= i < front.len() && reached(#[trigger] front[i]);
                assert(next[i] == front[i]);
            }
            if reached(distances[tick]) {
                assert(next[tick] == distances[tick]);
            }
        }
    }
}

} // verus!
