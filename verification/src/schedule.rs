//! Systems and the schedule that runs them.
//!
//! A [`System`] is one unit of per-step logic; its contract says that running
//! it changes the world's data exactly as its own step function `next` says,
//! and leaves the world ready again. A [`ScheduleBlock`] is an ordered list
//! of systems; executing it folds their step functions over the world, first
//! system first, so a fixed schedule on a fixed state is deterministic.

use vstd::prelude::*;
use crate::component::{
    Component,
    CompView,
    GAME_INPUT_VARIANT,
    INPUT_MANAGER_VARIANT,
    POSITION_VARIANT,
    Position,
    VELOCITY_VARIANT,
    Velocity,
};
use crate::entity::EntityInfo;
use crate::input::{
    GameInput,
    InputManager,
    InputSnap,
    apply_events,
    default_snap,
    step_prepared,
    Event,
};
use crate::world::{World, WorldSnap};

verus! {

/// A unit of per-step logic, polymorphic over one operation.
pub trait System: Sized {
    /// The step function this system implements on the world's data.
    spec fn next(&self, s: WorldSnap, dt: i64) -> WorldSnap;

    /// Runs once per step. The system may acquire storage handles and entity
    /// access and mutate the world through them; it leaves the world ready
    /// and changes its data exactly as `next` says.
    fn run(&self, world: &mut World, dt: i64)
        requires
            old(world).ready(),
        ensures
            final(world).ready(),
            final(world).snap() == self.next(old(world).snap(), dt),
            final(world).sched() == old(world).sched(),
            final(world).n_variants() == old(world).n_variants(),
            final(world).singleton_id() == old(world).singleton_id(),
    ;
}

/// Saturating sum, the arithmetic the movement system uses.
pub open spec fn spec_sat_add(a: i64, b: i64) -> i64 {
    if a + b > i64::MAX {
        i64::MAX
    } else if a + b < i64::MIN {
        i64::MIN
    } else {
        (a + b) as i64
    }
}

fn sat_add(a: i64, b: i64) -> (r: i64)
    ensures
        r == spec_sat_add(a, b),
{
    if b >= 0 {
        if a > i64::MAX - b {
            i64::MAX
        } else {
            a + b
        }
    } else {
        if a < i64::MIN - b {
            i64::MIN
        } else {
            a + b
        }
    }
}

/// Writes its configured velocity onto the singleton entity.
pub struct SetVelocitySystem {
    pub velocity: Velocity,
}

/// Reads the singleton's velocity and adds it to the singleton's position,
/// saturating at the coordinate limits.
pub struct ApplyVelocitySystem {
}

/// Drains the queued input events into the singleton's input manager.
pub struct InputSystem {
}

/// The closed set of systems a schedule can hold.
pub enum SystemKind {
    Input(InputSystem),
    SetVelocity(SetVelocitySystem),
    ApplyVelocity(ApplyVelocitySystem),
}

impl System for SetVelocitySystem {
    open spec fn next(&self, s: WorldSnap, dt: i64) -> WorldSnap {
        let sm = s.stores[VELOCITY_VARIANT as int];
        WorldSnap {
            entities: s.entities.insert(
                s.singleton,
                EntityInfo {
                    components: s.entities[s.singleton].components | (1u32 << VELOCITY_VARIANT),
                },
            ),
            stores: s.stores.update(
                VELOCITY_VARIANT as int,
                sm.insert(s.singleton, CompView::Velocity(self.velocity)),
            ),
            ..s
        }
    }

    fn run(&self, world: &mut World, dt: i64) {
        let sing = world.singleton_entity();
        let mut ws = match world.write(VELOCITY_VARIANT) {
            Some(ws) => ws,
            None => unreached(),
        };
        world.insert(&mut ws, sing, Component::Velocity(self.velocity));
        world.release_write(ws);
        proof {
            crate::world::lemma_world_shape(world);
            crate::world::lemma_world_shape(&old(world));
            let s0 = old(world).snap();
            let s1 = self.next(s0, dt);
            assert(world.snap().entities == s1.entities);
            assert(world.snap().stores =~~= s1.stores);
            assert(world.snap() =~~= s1);
            assert forall|i: int| 0 <= i < world.n_variants() implies #[trigger] world.locks()[i] is Free by {
                assert(old(world).locks()[i] is Free);
            }
        }
    }
}

impl System for ApplyVelocitySystem {
    open spec fn next(&self, s: WorldSnap, dt: i64) -> WorldSnap {
        let velm = s.stores[VELOCITY_VARIANT as int];
        let posm = s.stores[POSITION_VARIANT as int];
        let vel = if velm.contains_key(s.singleton) {
            match velm[s.singleton] {
                CompView::Velocity(v) => v,
                _ => Velocity { x: 0, y: 0 },
            }
        } else {
            Velocity { x: 0, y: 0 }
        };
        let pos0 = if posm.contains_key(s.singleton) {
            match posm[s.singleton] {
                CompView::Position(p) => p,
                _ => Position { x: 0, y: 0 },
            }
        } else {
            Position { x: 0, y: 0 }
        };
        let pos1 = Position { x: spec_sat_add(pos0.x, vel.x), y: spec_sat_add(pos0.y, vel.y) };
        WorldSnap {
            entities: s.entities.insert(
                s.singleton,
                EntityInfo {
                    components: s.entities[s.singleton].components | (1u32 << POSITION_VARIANT),
                },
            ),
            stores: s.stores.update(
                POSITION_VARIANT as int,
                posm.insert(s.singleton, CompView::Position(pos1)),
            ),
            ..s
        }
    }

    fn run(&self, world: &mut World, dt: i64) {
        let sing = world.singleton_entity();
        let rs = match world.read(VELOCITY_VARIANT) {
            Some(rs) => rs,
            None => unreached(),
        };
        let vel: Velocity = match world.get(&rs, sing) {
            Some(Component::Velocity(v)) => *v,
            Some(_) => unreached(),
            None => Velocity { x: 0, y: 0 },
        };
        world.release_read(rs);
        let mut ws = match world.write(POSITION_VARIANT) {
            Some(ws) => ws,
            None => unreached(),
        };
        let pos0: Position = match ws.get(sing) {
            Some(Component::Position(p)) => *p,
            Some(_) => unreached(),
            None => Position { x: 0, y: 0 },
        };
        let pos1 = Position { x: sat_add(pos0.x, vel.x), y: sat_add(pos0.y, vel.y) };
        world.insert(&mut ws, sing, Component::Position(pos1));
        world.release_write(ws);
        proof {
            crate::world::lemma_world_shape(world);
            crate::world::lemma_world_shape(&old(world));
            let s0 = old(world).snap();
            let s1 = self.next(s0, dt);
            assert(world.snap().entities == s1.entities);
            assert(world.snap().stores =~~= s1.stores);
            assert(world.snap() =~~= s1);
            assert forall|i: int| 0 <= i < world.n_variants() implies #[trigger] world.locks()[i] is Free by {
                assert(old(world).locks()[i] is Free);
            }
        }
    }
}

impl System for InputSystem {
    open spec fn next(&self, s: WorldSnap, dt: i64) -> WorldSnap {
        let sing = s.singleton;
        let qm = s.stores[GAME_INPUT_VARIANT as int];
        let events = if qm.contains_key(sing) {
            match qm[sing] {
                CompView::Events(es) => es,
                _ => Seq::<Event>::empty(),
            }
        } else {
            Seq::<Event>::empty()
        };
        let em1 = s.entities.insert(
            sing,
            EntityInfo { components: s.entities[sing].components | (1u32 << GAME_INPUT_VARIANT) },
        );
        let stores1 = s.stores.update(
            GAME_INPUT_VARIANT as int,
            qm.insert(sing, CompView::Events(Seq::<Event>::empty())),
        );
        let im = stores1[INPUT_MANAGER_VARIANT as int];
        let snap0 = if im.contains_key(sing) {
            match im[sing] {
                CompView::Input(isnap) => isnap,
                _ => default_snap(),
            }
        } else {
            default_snap()
        };
        let snap1 = apply_events(step_prepared(snap0), events);
        let em2 = em1.insert(
            sing,
            EntityInfo { components: em1[sing].components | (1u32 << INPUT_MANAGER_VARIANT) },
        );
        let stores2 = stores1.update(
            INPUT_MANAGER_VARIANT as int,
            im.insert(sing, CompView::Input(snap1)),
        );
        WorldSnap { entities: em2, stores: stores2, ..s }
    }

    fn run(&self, world: &mut World, dt: i64) {
        let sing = world.singleton_entity();
        let mut wq = match world.write(GAME_INPUT_VARIANT) {
            Some(ws) => ws,
            None => unreached(),
        };
        let events: Vec<Event> = if world.has_component(sing, GAME_INPUT_VARIANT) {
            let mut g = match wq.replace(sing, Component::Events(GameInput::new())) {
                Component::Events(g) => g,
                _ => unreached(),
            };
            proof {
                crate::entity::lemma_set_bit_noop(
                    old(world).snap().entities[sing.id].components,
                    GAME_INPUT_VARIANT,
                );
            }
            g.take()
        } else {
            world.insert(&mut wq, sing, Component::Events(GameInput::new()));
            Vec::new()
        };
        world.release_write(wq);
        let mut wm = match world.write(INPUT_MANAGER_VARIANT) {
            Some(ws) => ws,
            None => unreached(),
        };
        let mut mgr: InputManager = if world.has_component(sing, INPUT_MANAGER_VARIANT) {
            let m0 = match wm.replace(sing, Component::Input(InputManager::default())) {
                Component::Input(m) => m,
                _ => unreached(),
            };
            proof {
                crate::entity::lemma_set_bit_noop(
                    world.snap().entities[sing.id].components,
                    INPUT_MANAGER_VARIANT,
                );
            }
            m0
        } else {
            world.insert(&mut wm, sing, Component::Input(InputManager::default()));
            InputManager::default()
        };
        mgr.apply(&events);
        let _ = wm.replace(sing, Component::Input(mgr));
        world.release_write(wm);
        proof {
            crate::world::lemma_world_shape(world);
            crate::world::lemma_world_shape(&old(world));
            let s0 = old(world).snap();
            let s1 = self.next(s0, dt);
            assert(world.snap().entities =~= s1.entities);
            assert(world.snap().stores =~~= s1.stores);
            assert(world.snap() =~~= s1);
            assert forall|i: int| 0 <= i < world.n_variants() implies #[trigger] world.locks()[i] is Free by {
                assert(old(world).locks()[i] is Free);
            }
        }
    }
}

impl System for SystemKind {
    open spec fn next(&self, s: WorldSnap, dt: i64) -> WorldSnap {
        match self {
            SystemKind::Input(sys) => sys.next(s, dt),
            SystemKind::SetVelocity(sys) => sys.next(s, dt),
            SystemKind::ApplyVelocity(sys) => sys.next(s, dt),
        }
    }

    fn run(&self, world: &mut World, dt: i64) {
        match self {
            SystemKind::Input(sys) => sys.run(world, dt),
            SystemKind::SetVelocity(sys) => sys.run(world, dt),
            SystemKind::ApplyVelocity(sys) => sys.run(world, dt),
        }
    }
}

/// The effect of running a list of systems in order, first system first.
pub open spec fn schedule_apply(ss: Seq<SystemKind>, s: WorldSnap, dt: i64) -> WorldSnap
    decreases ss.len(),
{
    if ss.len() == 0 {
        s
    } else {
        schedule_apply(ss.drop_first(), ss[0].next(s, dt), dt)
    }
}

/// The effect of running a whole schedule once per step, for a sequence of
/// step deltas.
pub open spec fn steps_apply(ss: Seq<SystemKind>, s: WorldSnap, dts: Seq<i64>) -> WorldSnap
    decreases dts.len(),
{
    if dts.len() == 0 {
        s
    } else {
        steps_apply(ss, schedule_apply(ss, s, dts[0]), dts.drop_first())
    }
}

/// Schedule-order determinism: a fixed schedule run for the same step deltas
/// from equal initial states reaches equal states.
pub proof fn lemma_steps_deterministic(
    ss: Seq<SystemKind>,
    s1: WorldSnap,
    s2: WorldSnap,
    dts: Seq<i64>,
)
    requires
        s1 == s2,
    ensures
        steps_apply(ss, s1, dts) == steps_apply(ss, s2, dts),
{
}

/// An ordered collection of systems; executing it runs every system once per
/// step, in order, each seeing the effects of those before it.
pub struct ScheduleBlock {
    systems: Vec<SystemKind>,
}

impl ScheduleBlock {
    /// The systems, in execution order.
    pub closed spec fn view(&self) -> Seq<SystemKind> {
        self.systems@
    }

    pub fn new() -> (r: ScheduleBlock)
        ensures
            r@ == Seq::<SystemKind>::empty(),
    {
        ScheduleBlock { systems: Vec::new() }
    }

    /// Appends a system to the end of the schedule.
    pub fn with_system(self, s: SystemKind) -> (r: ScheduleBlock)
        ensures
            r@ == self@.push(s),
    {
        let mut systems = self.systems;
        systems.push(s);
        ScheduleBlock { systems }
    }

    /// How many systems the schedule holds.
    pub fn len(&self) -> (r: usize)
        ensures
            r == self@.len(),
    {
        self.systems.len()
    }

    /// Runs every system once, in schedule order.
    pub fn execute(&self, world: &mut World, dt: i64)
        requires
            old(world).ready(),
        ensures
            final(world).ready(),
            final(world).snap() == schedule_apply(self@, old(world).snap(), dt),
            final(world).sched() == old(world).sched(),
            final(world).n_variants() == old(world).n_variants(),
            final(world).singleton_id() == old(world).singleton_id(),
    {
        proof {
            assert(self@.skip(0) =~= self@);
        }
        let n: usize = self.systems.len();
        let mut i: usize = 0;
        while i < n
            invariant
                n == self@.len(),
                i <= n,
                world.ready(),
                world.sched() == old(world).sched(),
                world.n_variants() == old(world).n_variants(),
                world.singleton_id() == old(world).singleton_id(),
                schedule_apply(self@.skip(i as int), world.snap(), dt) == schedule_apply(
                    self@,
                    old(world).snap(),
                    dt,
                ),
            decreases n - i,
        {
            let ghost pre = world.snap();
            let ghost rest = self@.skip(i as int);
            proof {
                assert(rest[0] == self@[i as int]);
                assert(rest.drop_first() =~= self@.skip(i as int + 1));
            }
            let s = &self.systems[i];
            s.run(world, dt);
            i = i + 1;
        }
        proof {
            assert(self@.skip(n as int) =~= Seq::<SystemKind>::empty());
        }
    }
}

impl Default for ScheduleBlock {
    /// The empty schedule.
    fn default() -> (r: ScheduleBlock)
        ensures
            r@ == Seq::<SystemKind>::empty(),
    {
        ScheduleBlock::new()
    }
}

} // verus!
