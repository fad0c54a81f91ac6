//! The description of a world: positioned objects and the player's start.
//!
//! Coordinates, scales and rotations are patterns of single-precision
//! numbers (see [`crate::scalar`]).

use vstd::prelude::*;
use crate::scalar::{abs, magnitude};

verus! {

/// The kinds of object that a world is made of.
#[derive(Clone, Copy, Debug, PartialEq, Eq, Structural)]
pub enum WorldObject {
    /// A box; a fixed one never moves.
    Block { fixed: bool },
    /// A rectangular region that the player is to reach. Nothing collides
    /// with it.
    Goal,
}

/// What the simulation holds for a world object.
#[derive(Clone, Copy, Debug, PartialEq, Eq, Structural)]
pub enum Primitive {
    /// A box collider without a body.
    FixedCollider,
    /// A dynamic rigid body with a box collider. It alone has a handle by
    /// which its position can be read back.
    DynamicBody,
    /// An entry of the goal list; not simulated.
    GoalRegion,
}

/// An object with its place in the world.
#[derive(Clone, Copy, Debug)]
pub struct ObjectAndTransform {
    pub object: WorldObject,
    pub position: [u32; 3],
    pub scale: [u32; 2],
    pub rotation: u32,
}

/// A world: where the player starts, and the objects in their order.
#[derive(Clone, Debug)]
pub struct World {
    pub player_position: [u32; 2],
    pub objects: Vec<ObjectAndTransform>,
}

impl WorldObject {
    /// The primitive that stands for an object of this kind.
    pub open spec fn primitive_of(self) -> Primitive {
        match self {
            WorldObject::Block { fixed: true } => Primitive::FixedCollider,
            WorldObject::Block { fixed: false } => Primitive::DynamicBody,
            WorldObject::Goal => Primitive::GoalRegion,
        }
    }

    /// The primitive that stands for an object of this kind.
    pub fn primitive(&self) -> (p: Primitive)
        ensures
            p == self.primitive_of(),
    {
        match self {
            WorldObject::Block { fixed } => {
                if *fixed {
                    Primitive::FixedCollider
                } else {
                    Primitive::DynamicBody
                }
            },
            WorldObject::Goal => Primitive::GoalRegion,
        }
    }
}

impl ObjectAndTransform {
    /// The size of the object along its two axes: the scale without its
    /// signs.
    pub fn extent(&self) -> (size: [u32; 2])
        ensures
            size@ == seq![magnitude(self.scale@[0]), magnitude(self.scale@[1])],
    {
        let size = [abs(self.scale[0]), abs(self.scale[1])];
        assert(size@ =~= seq![magnitude(self.scale@[0]), magnitude(self.scale@[1])]);
        size
    }
}

/// The number of goals among the objects.
pub open spec fn goals_among(objects: Seq<ObjectAndTransform>) -> nat
    decreases objects.len(),
{
    if objects.len() == 0 {
        0
    } else {
        goals_among(objects.drop_last()) + if objects.last().object == WorldObject::Goal {
            1nat
        } else {
            0nat
        }
    }
}

impl Default for World {
    /// A world without objects, the player at the origin.
    fn default() -> (world: World)
        ensures
            world.objects@.len() == 0,
            world.player_position@ == seq![0u32, 0u32],
    {
        let player_position: [u32; 2] = [0, 0];
        assert(player_position@ =~= seq![0u32, 0u32]);
        World { player_position, objects: Vec::new() }
    }
}

impl World {
    /// The number of goals of the world. A world without a goal has no
    /// distance to its goals.
    pub fn goal_count(&self) -> (count: usize)
        ensures
            count == goals_among(self.objects@),
    {
        let mut count: usize = 0;
        let mut i: usize = 0;
        while i < self.objects.len()
            invariant
                i <= self.objects.len(),
                count <= i,
                count == goals_among(self.objects@.take(i as int)),
            decreases self.objects.len() - i,
        {
            proof {
                assert(self.objects@.take(i + 1).drop_last() == self.objects@.take(i as int));
            }
            match self.objects[i].object {
                WorldObject::Goal => {
                    count += 1;
                },
                _ => {},
            }
            i += 1;
        }
        assert(self.objects@.take(i as int) == self.objects@);
        count
    }
}

} // verus!
