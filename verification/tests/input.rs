use newport::component::{Component, GAME_INPUT_VARIANT, INPUT_MANAGER_VARIANT};
use newport::input::{Event, GameInput, InputManager, InputState, MOUSE_AXIS_X, MOUSE_AXIS_Y};
use newport::schedule::{InputSystem, ScheduleBlock, SystemKind};
use newport::statemap::StateTable;
use newport::world::World;

const KEY_A: u64 = 65;
const KEY_B: u64 = 66;

fn input_world() -> World {
    let schedule = ScheduleBlock::new().with_system(SystemKind::Input(InputSystem {}));
    World::new(schedule)
}

fn queue_events(world: &mut World, events: Vec<Event>) {
    let sing = world.singleton_entity();
    let mut ws = world.write(GAME_INPUT_VARIANT).unwrap();
    let mut queue = GameInput::new();
    for e in events {
        queue.push(e);
    }
    world.insert(&mut ws, sing, Component::Events(queue));
    world.release_write(ws);
}

fn manager_of(world: &mut World) -> InputManager {
    let sing = world.singleton_entity();
    let rs = world.read(INPUT_MANAGER_VARIANT).unwrap();
    let mgr = match world.get(&rs, sing) {
        Some(Component::Input(m)) => m.clone_state(),
        _ => panic!("input manager missing"),
    };
    world.release_read(rs);
    mgr
}

#[test]
fn key_press_is_seen_after_step() {
    let mut world = input_world();
    queue_events(
        &mut world,
        vec![Event::Key { key: KEY_A, pressed: true }],
    );
    world.step(16);
    let mgr = manager_of(&mut world);
    assert!(mgr.is_button_down(KEY_A));
    assert!(mgr.was_button_pressed(KEY_A));
    assert!(!mgr.was_button_released(KEY_A));
    assert!(!mgr.is_button_down(KEY_B));
}

#[test]
fn button_state_persists_and_pressed_edge_clears() {
    let mut world = input_world();
    queue_events(
        &mut world,
        vec![Event::Key { key: KEY_A, pressed: true }],
    );
    world.step(16);
    world.step(16);
    let mgr = manager_of(&mut world);
    assert!(mgr.is_button_down(KEY_A));
    assert!(!mgr.was_button_pressed(KEY_A));
}

#[test]
fn release_edge_is_reported_once() {
    let mut world = input_world();
    queue_events(
        &mut world,
        vec![Event::Key { key: KEY_A, pressed: true }],
    );
    world.step(16);
    queue_events(
        &mut world,
        vec![Event::Key { key: KEY_A, pressed: false }],
    );
    world.step(16);
    let mgr = manager_of(&mut world);
    assert!(!mgr.is_button_down(KEY_A));
    assert!(mgr.was_button_released(KEY_A));
}

#[test]
fn mouse_motion_resets_each_step() {
    let mut world = input_world();
    queue_events(&mut world, vec![Event::MouseMotion(12, -7)]);
    world.step(16);
    let mgr = manager_of(&mut world);
    assert_eq!(mgr.current_axis1d(MOUSE_AXIS_X), 12);
    assert_eq!(mgr.current_axis1d(MOUSE_AXIS_Y), -7);
    world.step(16);
    let mgr = manager_of(&mut world);
    assert_eq!(mgr.current_axis1d(MOUSE_AXIS_X), 0);
    assert_eq!(mgr.last_axis1d(MOUSE_AXIS_X), 12);
    assert_eq!(mgr.delta_axis1d(MOUSE_AXIS_X), -12);
}

#[test]
fn focus_events_update_focus_flags() {
    let mut world = input_world();
    queue_events(&mut world, vec![Event::FocusLost]);
    world.step(16);
    let mgr = manager_of(&mut world);
    assert!(!mgr.has_focus());
    assert!(mgr.lost_focus());
    assert!(!mgr.gained_focus());
    queue_events(&mut world, vec![Event::FocusGained]);
    world.step(16);
    let mgr = manager_of(&mut world);
    assert!(mgr.has_focus());
    assert!(mgr.gained_focus());
}

#[test]
fn manager_applies_events_directly() {
    let mut mgr = InputManager::default();
    let events = vec![
        Event::Key { key: KEY_A, pressed: true },
        Event::MouseButton { mouse_button: KEY_B, pressed: true },
        Event::Char('x'),
        Event::Resized(640, 480),
    ];
    mgr.apply(&events);
    assert!(mgr.is_button_down(KEY_A));
    assert!(mgr.is_button_down(KEY_B));
    assert!(mgr.has_focus());
}

#[test]
fn zero_motion_is_not_recorded() {
    let mut mgr = InputManager::default();
    mgr.apply(&vec![Event::MouseMotion(0, 9)]);
    assert_eq!(mgr.current_axis1d(MOUSE_AXIS_X), 0);
    assert_eq!(mgr.current_axis1d(MOUSE_AXIS_Y), 9);
}

#[test]
fn events_apply_in_queue_order() {
    let mut world = input_world();
    queue_events(
        &mut world,
        vec![
            Event::Key { key: KEY_A, pressed: true },
            Event::Key { key: KEY_A, pressed: false },
        ],
    );
    world.step(16);
    let mgr = manager_of(&mut world);
    assert!(!mgr.is_button_down(KEY_A));
    assert!(!mgr.was_button_pressed(KEY_A));
}

#[test]
fn later_motion_overwrites_earlier_within_a_step() {
    let mut world = input_world();
    queue_events(
        &mut world,
        vec![Event::MouseMotion(3, 0), Event::MouseMotion(11, 0)],
    );
    world.step(16);
    let mgr = manager_of(&mut world);
    assert_eq!(mgr.current_axis1d(MOUSE_AXIS_X), 11);
}

#[test]
fn input_state_accessors() {
    assert!(InputState::Button(true).button());
    assert!(!InputState::Button(false).button());
    assert_eq!(InputState::Axis1D(-3).axis1d(), -3);
}

#[test]
fn game_input_take_empties_queue() {
    let mut q = GameInput::new();
    q.push(Event::FocusLost);
    q.push(Event::Key { key: KEY_A, pressed: true });
    let taken = q.take();
    assert_eq!(taken.len(), 2);
    assert!(matches!(taken[0], Event::FocusLost));
    let again = q.take();
    assert_eq!(again.len(), 0);
}

#[test]
fn state_table_set_get_and_zero() {
    let mut t = StateTable::new();
    assert!(t.get(KEY_A).is_none());
    t.set(KEY_A, InputState::Button(true));
    t.set(MOUSE_AXIS_X, InputState::Axis1D(40));
    t.set(KEY_A, InputState::Button(false));
    assert_eq!(t.len(), 2);
    assert!(matches!(t.get(KEY_A), Some(InputState::Button(false))));
    let copy = t.duplicate();
    t.zero_axes();
    assert!(matches!(t.get(MOUSE_AXIS_X), Some(InputState::Axis1D(0))));
    assert!(matches!(copy.get(MOUSE_AXIS_X), Some(InputState::Axis1D(40))));
}
