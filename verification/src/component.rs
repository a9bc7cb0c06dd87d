//! The closed registry of component types.
//!
//! Every component type registered with the runtime owns one stable bit
//! position (its variant id); an entity's mask is built from these bits.
//! Storage slots all hold the same [`Component`] sum type, and each slot's
//! narrow wrapper admits only values of its own variant, so call sites stay
//! checked even though the backing slots are homogeneous.

use vstd::prelude::*;
use crate::input::{GameInput, InputManager, InputSnap, Event};

verus! {

/// Bit position of the `Position` component.
pub const POSITION_VARIANT: u32 = 0;

/// Bit position of the `Velocity` component.
pub const VELOCITY_VARIANT: u32 = 1;

/// Bit position of the `InputManager` component.
pub const INPUT_MANAGER_VARIANT: u32 = 2;

/// Bit position of the `GameInput` event-queue component.
pub const GAME_INPUT_VARIANT: u32 = 3;

/// How many component types are registered; fixed before a world is built.
pub const VARIANT_COUNT: usize = 4;

/// A location in the plane.
#[derive(Clone, Copy, PartialEq, Eq, Structural, Debug)]
pub struct Position {
    pub x: i64,
    pub y: i64,
}

/// A per-step displacement.
#[derive(Clone, Copy, PartialEq, Eq, Structural, Debug)]
pub struct Velocity {
    pub x: i64,
    pub y: i64,
}

/// A value of one of the registered component types.
pub enum Component {
    Position(Position),
    Velocity(Velocity),
    Input(InputManager),
    Events(GameInput),
}

/// The mathematical content of a component value.
pub enum CompView {
    Position(Position),
    Velocity(Velocity),
    Input(InputSnap),
    Events(Seq<Event>),
}

impl Component {
    /// The bit position this value belongs to.
    pub open spec fn variant_id(&self) -> u32 {
        match self {
            Component::Position(_) => POSITION_VARIANT,
            Component::Velocity(_) => VELOCITY_VARIANT,
            Component::Input(_) => INPUT_MANAGER_VARIANT,
            Component::Events(_) => GAME_INPUT_VARIANT,
        }
    }

    /// Stateful component values carry their own well-formedness.
    pub open spec fn wf(&self) -> bool {
        match self {
            Component::Input(m) => m.wf(),
            Component::Events(g) => g.wf(),
            _ => true,
        }
    }

    /// The mathematical content of this value.
    pub open spec fn view(&self) -> CompView {
        match self {
            Component::Position(p) => CompView::Position(*p),
            Component::Velocity(v) => CompView::Velocity(*v),
            Component::Input(m) => CompView::Input(m@),
            Component::Events(g) => CompView::Events(g@),
        }
    }

    pub fn variant(&self) -> (r: u32)
        ensures
            r == self.variant_id(),
    {
        match self {
            Component::Position(_) => POSITION_VARIANT,
            Component::Velocity(_) => VELOCITY_VARIANT,
            Component::Input(_) => INPUT_MANAGER_VARIANT,
            Component::Events(_) => GAME_INPUT_VARIANT,
        }
    }
}

/// The mask with exactly the given bit set.
pub fn to_mask(id: u32) -> (r: u32)
    requires
        id < 32,
    ensures
        r == (1u32 << id),
{
    1u32 << id
}

} // verus!
