//! The aim latch, pads and the commands of a frame.

use bigbox::game::entity::Command;
use bigbox::scalar::Scalar;
use bigbox::ui::input::{
    collect_commands, keyboard_move, AimFrame, AimSource, AimState, Cursor, Keys, Moved,
};
use bigbox::ui::pad::{Heading, PadInput, PadState, Pads, Stick};

fn f(x: Scalar) -> f32 {
    f32::from_bits(x.bits)
}

fn s(x: f32) -> Scalar {
    Scalar { bits: x.to_bits() }
}

fn heading(dx: f32, dy: f32) -> Heading {
    Heading { dx: s(dx), dy: s(dy) }
}

fn normalize(v: (f32, f32)) -> Heading {
    let len = (v.0 * v.0 + v.1 * v.1).sqrt();
    heading(v.0 / len, v.1 / len)
}

fn pair(h: Heading) -> (f32, f32) {
    (f(h.dx), f(h.dy))
}

/// Where the player stands.
const PLAYER: (f32, f32) = (10.0, 10.0);

fn pad(aim_dir: Option<(f32, f32)>, move_dir: Option<(f32, f32)>) -> PadInput {
    PadInput {
        move_dir: move_dir.map(|(x, y)| heading(x, y)),
        aim_dir: aim_dir.map(|(x, y)| heading(x, y)),
        ..PadInput::none()
    }
}

fn latch(at: (f32, f32)) -> AimState {
    AimState::new(Cursor { x: s(at.0), y: s(at.1) })
}

/// One frame of the latch; `hit` is where the cursor meets the ground.
fn update(
    state: &mut AimState,
    pad: &PadInput,
    mouse: (f32, f32),
    hit: Option<(f32, f32)>,
) -> AimFrame {
    let last = state.last_mouse();
    let moved = Moved { x: s((mouse.0 - f(last.x)).abs()), y: s((mouse.1 - f(last.y)).abs()) };
    let facing = pad.move_dir.map(|h| normalize(pair(h)));
    let aim = hit.map(|(x, y)| normalize((x - PLAYER.0, y - PLAYER.1)));
    state.update(pad, facing, Cursor { x: s(mouse.0), y: s(mouse.1) }, &moved, aim)
}

// Right-stick aim claims the source and points where the stick points.
#[test]
fn pad_aim_claims_source() {
    let mut s = latch((0.0, 0.0));
    let f = update(&mut s, &pad(Some((1.0, 0.0)), None), (0.0, 0.0), None);
    assert_eq!(s.source, AimSource::Pad);
    assert_eq!(f.dir.map(pair), Some((1.0, 0.0)));
}

// With the stick re-centered (no pad input) and no mouse movement, the last
// pad heading is held rather than snapping back to the mouse.
#[test]
fn pad_heading_held_on_recenter() {
    let mut s = latch((0.0, 0.0));
    update(&mut s, &pad(Some((0.0, 1.0)), None), (0.0, 0.0), None);
    let f = update(&mut s, &pad(None, None), (0.0, 0.0), None);
    assert_eq!(s.source, AimSource::Pad);
    assert_eq!(f.dir.map(pair), Some((0.0, 1.0)));
}

// Left-stick movement (no aim) faces the movement direction.
#[test]
fn pad_move_drives_facing() {
    let mut s = latch((0.0, 0.0));
    let f = update(&mut s, &pad(None, Some((3.0, 4.0))), (0.0, 0.0), None);
    assert_eq!(s.source, AimSource::Pad);
    let (dx, dy) = pair(f.dir.unwrap());
    assert!((dx - 0.6).abs() < 1e-5 && (dy - 0.8).abs() < 1e-5);
}

// After the pad latches, real mouse movement (> 1px) reclaims the source
// and aim follows the ground hit.
#[test]
fn mouse_movement_reclaims_source() {
    let mut s = latch((0.0, 0.0));
    update(&mut s, &pad(Some((1.0, 0.0)), None), (0.0, 0.0), None);
    let hit = (13.0, 14.0); // dx=3, dz=4 → (0.6, 0.8)
    let f = update(&mut s, &pad(None, None), (50.0, 50.0), Some(hit));
    assert_eq!(s.source, AimSource::Mouse);
    let (dx, dy) = pair(f.dir.unwrap());
    assert!((dx - 0.6).abs() < 1e-5 && (dy - 0.8).abs() < 1e-5);
}

// Sub-pixel jitter (≤ 1px) does not count as mouse movement, so the pad
// keeps the source.
#[test]
fn subpixel_mouse_jitter_ignored() {
    let mut s = latch((0.0, 0.0));
    update(&mut s, &pad(Some((1.0, 0.0)), None), (0.0, 0.0), None);
    let f = update(&mut s, &pad(None, None), (0.5, 0.5), None);
    assert_eq!(s.source, AimSource::Pad);
    assert_eq!(f.dir.map(pair), Some((1.0, 0.0))); // held heading, not the mouse
}

#[test]
fn the_latch_remembers_the_cursor() {
    let mut state = latch((2.0, 3.0));
    assert_eq!(state.last_mouse(), Cursor { x: s(2.0), y: s(3.0) });
    let frame = update(&mut state, &PadInput::none(), (2.0, 3.5), Some((10.0, 12.0)));
    assert_eq!(state.last_mouse(), Cursor { x: s(2.0), y: s(3.5) });
    assert_eq!(frame.source, AimSource::Mouse);
    assert_eq!(frame.dir.map(pair), Some((0.0, 1.0)));
}

const NO_KEYS: Keys = Keys {
    up: false,
    down: false,
    left: false,
    right: false,
    space: false,
    digit1: false,
    digit2: false,
    digit3: false,
    digit4: false,
    next: false,
    prev: false,
};

#[test]
fn keys_move_in_eight_directions() {
    let at = |up, down, left, right| keyboard_move(&Keys { up, down, left, right, ..NO_KEYS });
    assert_eq!(at(false, false, false, false), None);
    assert_eq!(at(true, true, true, true), None);
    assert_eq!(at(true, false, false, false).map(pair), Some((0.0, -1.0)));
    assert_eq!(at(false, true, false, false).map(pair), Some((0.0, 1.0)));
    assert_eq!(at(true, true, true, false).map(pair), Some((-1.0, 0.0)));
    // The diagonal is 1 / √2, as the division rounds it.
    let diagonal = 1.0 / 2.0_f32.sqrt();
    assert_eq!(at(false, true, false, true).map(pair), Some((diagonal, diagonal)));
    assert_eq!(at(true, false, true, false).map(pair), Some((-diagonal, -diagonal)));
}

#[test]
fn a_frame_without_input_asks_for_nothing() {
    let aim = Some(heading(1.0, 0.0));
    assert!(collect_commands(aim, &PadInput::none(), &NO_KEYS, false, &s(0.0)).is_empty());
}

#[test]
fn a_frame_may_ask_for_several_things() {
    let keys = Keys { right: true, space: true, digit2: true, digit4: true, prev: true, ..NO_KEYS };
    let cmds = collect_commands(Some(heading(0.0, 1.0)), &PadInput::none(), &keys, false, &s(-2.0));
    assert_eq!(
        cmds,
        vec![
            Command::Move { dx: s(1.0), dy: s(0.0) },
            Command::Fire { dx: s(0.0), dy: s(1.0) },
            Command::SwitchWeapon { slot: 1 },
            Command::SwitchWeapon { slot: 3 },
            Command::CycleWeapon { dir: 1 },
            Command::CycleWeapon { dir: -1 },
        ]
    );
    // Nothing to aim at, nothing to fire at.
    assert!(collect_commands(None, &PadInput::none(), &NO_KEYS, true, &s(0.0)).is_empty());
    // The pad moves before the keys do.
    let pad = pad(None, Some((0.25, -0.5)));
    let cmds = collect_commands(None, &pad, &keys, false, &s(0.0));
    assert_eq!(cmds[0], Command::Move { dx: s(0.25), dy: s(-0.5) });
}

fn stick(x: f32, y: f32) -> Stick {
    let magnitude = (x * x + y * y).sqrt();
    Stick { x: s(x), y: s(y), magnitude: s(magnitude), unit: heading(x / magnitude, y / magnitude) }
}

fn held(left: Stick, right: Stick, bumpers: bool) -> PadState {
    PadState { left, right, trigger: false, right_bumper: bumpers, left_bumper: bumpers }
}

#[test]
fn sticks_inside_the_deadzone_are_neutral() {
    let mut pads = Pads::new();
    let deadzone = s(0.2);
    let input = pads.read(Some(held(stick(0.1, 0.1), stick(0.0, 0.19), false)), &deadzone);
    assert_eq!(input, PadInput::none());
    // Up on a stick is the negative direction in tile space; only the aim is normalized.
    let input = pads.read(Some(held(stick(0.3, 0.4), stick(0.0, 0.5), false)), &deadzone);
    assert_eq!(input.move_dir.map(pair), Some((0.3, -0.4)));
    assert_eq!(input.aim_dir.map(pair), Some((0.0, -1.0)));
}

#[test]
fn a_held_bumper_cycles_once() {
    let mut pads = Pads::new();
    let still = stick(0.1, 0.0);
    let deadzone = s(0.2);
    let down = pads.read(Some(held(still, still, true)), &deadzone);
    assert!(down.cycle_next && down.cycle_prev);
    let hold = pads.read(Some(held(still, still, true)), &deadzone);
    assert!(!hold.cycle_next && !hold.cycle_prev);
    // Without a pad nothing is asked for, and nothing is forgotten.
    assert_eq!(pads.read(None, &deadzone), PadInput::none());
    let hold = pads.read(Some(held(still, still, true)), &deadzone);
    assert!(!hold.cycle_next && !hold.cycle_prev);
    pads.read(Some(held(still, still, false)), &deadzone);
    let down = pads.read(Some(held(still, still, true)), &deadzone);
    assert!(down.cycle_next && down.cycle_prev);
}
