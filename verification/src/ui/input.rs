//! Input: raw devices (keyboard, mouse, gamepad) turned into gameplay intent. The latch that
//! decides which device aims is the one piece of input state that carries across frames.

use vstd::prelude::*;

use crate::game::entity::Command;
use crate::scalar::Scalar;
use crate::ui::pad::{Heading, PadInput};

verus! {

/// Mouse movement of more than one pixel counts.
pub const ONE_PIXEL: u32 = 0x3f80_0000;

/// One, and the components of a diagonal of length one.
pub const UNIT: u32 = 0x3f80_0000;

pub const DIAGONAL: u32 = 0x3f35_04f3;

/// The sign bit.
pub const SIGN: u32 = 0x8000_0000;

/// Which device currently drives aim. The right stick switches to `Pad` (and the last
/// direction is held when the stick re-centers); only actual mouse movement switches back
/// to `Mouse`. Prevents the aim snapping to the cursor the moment you let go of the stick.
#[derive(Debug, Clone, Copy, PartialEq, Eq, Structural)]
pub enum AimSource {
    Mouse,
    Pad,
}

/// Where the cursor is on the screen.
#[derive(Debug, Clone, Copy, PartialEq, Eq, Structural)]
pub struct Cursor {
    pub x: Scalar,
    pub y: Scalar,
}

/// How far the cursor moved along each axis since the last frame.
#[derive(Debug, Clone, Copy, PartialEq, Eq, Structural)]
pub struct Moved {
    pub x: Scalar,
    pub y: Scalar,
}

impl Moved {
    /// Whether the mouse really moved, by more than a pixel along an axis.
    pub open spec fn counts(self) -> bool {
        (Scalar { bits: ONE_PIXEL }).less_than(self.x) || (Scalar { bits: ONE_PIXEL }).less_than(
            self.y,
        )
    }
}

/// The aim resolved for one frame: what aims, and the direction in tile space, `None` when
/// nothing aims.
#[derive(Debug, Clone, Copy, PartialEq, Eq, Structural)]
pub struct AimFrame {
    pub source: AimSource,
    pub dir: Option<Heading>,
}

/// The mouse-vs-pad aim latch plus the held heading.
#[derive(Debug, Clone, Copy, PartialEq, Eq, Structural)]
pub struct AimState {
    pub source: AimSource,
    /// Last pad-aim direction, held when the right stick re-centers.
    pub held: Option<Heading>,
    pub prev_mouse: Cursor,
}

/// The first of two that is there.
pub open spec fn either(a: Option<Heading>, b: Option<Heading>) -> Option<Heading> {
    match a {
        Some(h) => Some(h),
        None => b,
    }
}

impl AimState {
    /// At first the mouse aims.
    pub fn new(mouse_pos: Cursor) -> (s: AimState)
        ensures
            s == (AimState { source: AimSource::Mouse, held: None, prev_mouse: mouse_pos }),
    {
        AimState { source: AimSource::Mouse, held: None, prev_mouse: mouse_pos }
    }

    /// Last cursor position the latch saw. It stands in for the cursor when that leaves
    /// the window, so that its absence doesn't read as movement.
    pub fn last_mouse(&self) -> (m: Cursor)
        ensures
            m == self.prev_mouse,
    {
        self.prev_mouse
    }

    /// The device that aims next: a pad that aims or moves claims the aim; otherwise a
    /// mouse that really moved does; otherwise it stays.
    pub open spec fn next_source(self, pad: PadInput, moved: Moved) -> AimSource {
        if pad.aim_dir is Some || pad.move_dir is Some {
            AimSource::Pad
        } else if moved.counts() {
            AimSource::Mouse
        } else {
            self.source
        }
    }

    /// The latch one frame on, and that frame's aim. On the pad the right stick aims;
    /// otherwise the aim follows the movement; otherwise the last heading is held.
    pub open spec fn step(
        self,
        pad: PadInput,
        facing: Option<Heading>,
        mouse_pos: Cursor,
        moved: Moved,
        mouse_aim: Option<Heading>,
    ) -> (AimState, AimFrame) {
        let source = self.next_source(pad, moved);
        match source {
            AimSource::Pad => {
                let held = either(either(pad.aim_dir, facing), self.held);
                (
                    AimState { source, held, prev_mouse: mouse_pos },
                    AimFrame { source, dir: held },
                )
            },
            AimSource::Mouse => (
                AimState { source, held: self.held, prev_mouse: mouse_pos },
                AimFrame { source, dir: mouse_aim },
            ),
        }
    }

    /// Advance the latch one frame. `facing` is the direction of the pad's movement,
    /// normalized; `moved` is how far the cursor is from `last_mouse`; `mouse_aim` is the
    /// direction to where the cursor points at, if anywhere.
    pub fn update(
        &mut self,
        pad: &PadInput,
        facing: Option<Heading>,
        mouse_pos: Cursor,
        moved: &Moved,
        mouse_aim: Option<Heading>,
    ) -> (frame: AimFrame)
        requires
            facing is Some <==> pad.move_dir is Some,
        ensures
            (*final(self), frame) == old(self).step(*pad, facing, mouse_pos, *moved, mouse_aim),
    {
        let pixel = Scalar { bits: ONE_PIXEL };
        let mouse_moved = pixel.lt(&moved.x) || pixel.lt(&moved.y);
        self.prev_mouse = mouse_pos;
        if pad.aim_dir.is_some() || pad.move_dir.is_some() {
            self.source = AimSource::Pad;
        } else if mouse_moved {
            self.source = AimSource::Mouse;
        }
        let dir = match self.source {
            AimSource::Pad => {
                let active = match pad.aim_dir {
                    Some(h) => Some(h),
                    None => facing,
                };
                if active.is_some() {
                    self.held = active;
                }
                self.held
            },
            AimSource::Mouse => mouse_aim,
        };
        AimFrame { source: self.source, dir }
    }
}

/// Letting go of the sticks changes nothing: as long as the mouse does not really move, the
/// pad keeps the aim, at the heading that it had.
pub proof fn law_heading_is_held(
    s: AimState,
    pad: PadInput,
    facing: Option<Heading>,
    at: Cursor,
    moved: Moved,
    aim: Option<Heading>,
    rest: PadInput,
    at2: Cursor,
    moved2: Moved,
    aim2: Option<Heading>,
)
    requires
        facing is Some <==> pad.move_dir is Some,
        pad.aim_dir is Some || pad.move_dir is Some,
        rest.aim_dir is None,
        rest.move_dir is None,
        !moved2.counts(),
    ensures
        ({
            let (s1, f1) = s.step(pad, facing, at, moved, aim);
            let (s2, f2) = s1.step(rest, None, at2, moved2, aim2);
            f1.source == AimSource::Pad && f2 == f1 && s2.held == s1.held
        }),
{
}

/// Real mouse movement takes the aim back from a pad at rest.
pub proof fn law_mouse_takes_the_aim_back(
    s: AimState,
    rest: PadInput,
    at: Cursor,
    moved: Moved,
    aim: Option<Heading>,
)
    requires
        rest.aim_dir is None,
        rest.move_dir is None,
        moved.counts(),
    ensures
        s.step(rest, None, at, moved, aim).1 == (AimFrame { source: AimSource::Mouse, dir: aim }),
{
}

/// The keys of one frame: those that are held, and those that were pressed in it.
#[derive(Debug, Clone, Copy, PartialEq, Eq, Structural)]
pub struct Keys {
    /// W or the up arrow, and so on.
    pub up: bool,
    pub down: bool,
    pub left: bool,
    pub right: bool,
    pub space: bool,
    /// The number keys, E and Q, when they go down.
    pub digit1: bool,
    pub digit2: bool,
    pub digit3: bool,
    pub digit4: bool,
    pub next: bool,
    pub prev: bool,
}

/// The component along an axis of a move in a direction of length one.
pub open spec fn component(minus: bool, plus: bool, other: bool) -> Scalar {
    if minus == plus {
        Scalar { bits: 0 }
    } else if plus {
        Scalar { bits: if other { DIAGONAL } else { UNIT } }
    } else {
        Scalar { bits: if other { (DIAGONAL + SIGN) as u32 } else { (UNIT + SIGN) as u32 } }
    }
}

/// The direction that the movement keys ask for; opposite keys cancel out.
pub open spec fn keys_move(keys: Keys) -> Option<Heading> {
    let horizontal = keys.left != keys.right;
    let vertical = keys.up != keys.down;
    if horizontal || vertical {
        Some(
            Heading {
                dx: component(keys.left, keys.right, vertical),
                dy: component(keys.up, keys.down, horizontal),
            },
        )
    } else {
        None
    }
}

fn axis(minus: bool, plus: bool, other: bool) -> (c: Scalar)
    ensures
        c == component(minus, plus, other),
{
    if minus == plus {
        Scalar { bits: 0 }
    } else if plus {
        Scalar { bits: if other { DIAGONAL } else { UNIT } }
    } else {
        Scalar { bits: if other { DIAGONAL + SIGN } else { UNIT + SIGN } }
    }
}

/// Normalized WASD/arrow movement direction, or `None` if no key is held. `dy` is along
/// world Z, so W (−dy) moves north on screen.
pub fn keyboard_move(keys: &Keys) -> (dir: Option<Heading>)
    ensures
        dir == keys_move(*keys),
{
    let horizontal = keys.left != keys.right;
    let vertical = keys.up != keys.down;
    if horizontal || vertical {
        Some(
            Heading {
                dx: axis(keys.left, keys.right, vertical),
                dy: axis(keys.up, keys.down, horizontal),
            },
        )
    } else {
        None
    }
}

/// A command, if it is given.
pub open spec fn given(when: bool, cmd: Command) -> Seq<Command> {
    if when {
        seq![cmd]
    } else {
        Seq::empty()
    }
}

/// The command to go in a direction, if there is one.
pub open spec fn moving(dir: Option<Heading>) -> Seq<Command> {
    match dir {
        Some(h) => seq![Command::Move { dx: h.dx, dy: h.dy }],
        None => Seq::empty(),
    }
}

/// The command to fire where the aim points, if there is an aim.
pub open spec fn firing(held: bool, aim: Option<Heading>) -> Seq<Command> {
    match aim {
        Some(h) => given(held, Command::Fire { dx: h.dx, dy: h.dy }),
        None => Seq::empty(),
    }
}

/// One frame's commands.
pub open spec fn commands(
    aim: Option<Heading>,
    pad: PadInput,
    keys: Keys,
    mouse_left: bool,
    wheel_y: Scalar,
) -> Seq<Command> {
    let zero = Scalar { bits: 0 };
    moving(either(pad.move_dir, keys_move(keys)))
        + firing(pad.fire || mouse_left || keys.space, aim)
        + given(keys.digit1, Command::SwitchWeapon { slot: 0 })
        + given(keys.digit2, Command::SwitchWeapon { slot: 1 })
        + given(keys.digit3, Command::SwitchWeapon { slot: 2 })
        + given(keys.digit4, Command::SwitchWeapon { slot: 3 })
        + given(
            keys.next || wheel_y.less_than(zero) || pad.cycle_next,
            Command::CycleWeapon { dir: 1 },
        )
        + given(
            keys.prev || zero.less_than(wheel_y) || pad.cycle_prev,
            Command::CycleWeapon { dir: -1i32 },
        )
}

/// Appends a command, if it is given.
fn push_if(cmds: &mut Vec<Command>, when: bool, cmd: Command)
    ensures
        final(cmds)@ == old(cmds)@ + given(when, cmd),
{
    if when {
        cmds.push(cmd);
    }
    assert(cmds@ =~= old(cmds)@ + given(when, cmd));
}

/// Build this frame's commands from the resolved aim plus live device state. The gamepad's
/// left stick takes priority over the keys. Firing goes on while the right trigger, the
/// left mouse button or space is held. The number keys pick a rack slot; E, Q, the wheel
/// and the bumpers cycle.
pub fn collect_commands(
    aim: Option<Heading>,
    pad: &PadInput,
    keys: &Keys,
    mouse_left: bool,
    wheel_y: &Scalar,
) -> (cmds: Vec<Command>)
    ensures
        cmds@ == commands(aim, *pad, *keys, mouse_left, *wheel_y),
{
    let mut cmds: Vec<Command> = Vec::new();
    let dir = match pad.move_dir {
        Some(h) => Some(h),
        None => keyboard_move(keys),
    };
    if let Some(h) = dir {
        cmds.push(Command::Move { dx: h.dx, dy: h.dy });
    }
    assert(cmds@ =~= moving(either(pad.move_dir, keys_move(*keys))));
    let held = pad.fire || mouse_left || keys.space;
    let ghost sofar = cmds@;
    if let Some(h) = aim {
        push_if(&mut cmds, held, Command::Fire { dx: h.dx, dy: h.dy });
    }
    assert(cmds@ =~= sofar + firing(held, aim));
    push_if(&mut cmds, keys.digit1, Command::SwitchWeapon { slot: 0 });
    push_if(&mut cmds, keys.digit2, Command::SwitchWeapon { slot: 1 });
    push_if(&mut cmds, keys.digit3, Command::SwitchWeapon { slot: 2 });
    push_if(&mut cmds, keys.digit4, Command::SwitchWeapon { slot: 3 });
    let zero = Scalar::zero();
    let next = keys.next || wheel_y.lt(&zero) || pad.cycle_next;
    push_if(&mut cmds, next, Command::CycleWeapon { dir: 1 });
    let prev = keys.prev || zero.lt(wheel_y) || pad.cycle_prev;
    push_if(&mut cmds, prev, Command::CycleWeapon { dir: -1i32 });
    cmds
}

/// Who aims. A stick of the pad that is pushed claims the aim, even against the mouse. With
/// the sticks at rest a mouse that moved more than a pixel along an axis claims it, and
/// otherwise it stays with whoever has it. The mouse aims where it points. On the pad the
/// right stick aims; if it rests, the aim follows the movement; if that rests too, the last
/// heading is held.
pub proof fn law_who_aims(
    s: AimState,
    pad: PadInput,
    facing: Option<Heading>,
    at: Cursor,
    moved: Moved,
    mouse_aim: Option<Heading>,
)
    requires
        facing is Some <==> pad.move_dir is Some,
    ensures
        ({
            let (after, frame) = s.step(pad, facing, at, moved, mouse_aim);
            let one = Scalar { bits: 0x3f80_0000 };
            let pushed = pad.aim_dir is Some || pad.move_dir is Some;
            let jumped = one.less_than(moved.x) || one.less_than(moved.y);
            let padded = pushed || (!jumped && s.source == AimSource::Pad);
            &&& frame.source == AimSource::Pad <==> padded
            &&& after.source == frame.source
            &&& after.prev_mouse == at
            &&& !padded ==> frame.dir == mouse_aim && after.held == s.held
            &&& padded && pad.aim_dir is Some ==> frame.dir == pad.aim_dir
            &&& padded && pad.aim_dir is None && facing is Some ==> frame.dir == facing
            &&& padded && !pushed ==> frame.dir == s.held
            &&& padded ==> after.held == frame.dir
        }),
{
}

/// Where the movement keys lead: right and down are positive, opposite keys cancel out, and
/// without any other key the whole of a step goes along one axis. Together two axes share
/// the step evenly, and none of it is lost or gained beyond rounding.
pub proof fn law_keys_lead(keys: Keys)
    ensures
        ({
            let x = (if keys.right {
                1int
            } else {
                0
            }) - (if keys.left {
                1int
            } else {
                0
            });
            let y = (if keys.down {
                1int
            } else {
                0
            }) - (if keys.up {
                1int
            } else {
                0
            });
            &&& keys_move(keys) is None <==> x == 0 && y == 0
            &&& keys_move(keys) matches Some(h) ==> {
                let size = if x != 0 && y != 0 {
                    0x3f35_04f3u32
                } else {
                    0x3f80_0000u32
                };
                &&& h.dx.bits == if x == 0 {
                    0
                } else if x > 0 {
                    size as int
                } else {
                    size + 0x8000_0000
                }
                &&& h.dy.bits == if y == 0 {
                    0
                } else if y > 0 {
                    size as int
                } else {
                    size + 0x8000_0000
                }
            }
        }),
{
}

/// What is asked for in a frame. There is a move if the left stick or the keys ask for one,
/// and the stick has its way; a shot where the aim points if a trigger is held and there is
/// an aim; a switch for each number key; and a turn of the rack in each direction that a
/// key, the wheel or a bumper asks for.
pub proof fn law_what_is_asked_for(
    aim: Option<Heading>,
    pad: PadInput,
    keys: Keys,
    mouse_left: bool,
    wheel_y: Scalar,
    h: Heading,
    slot: usize,
)
    ensures
        ({
            let all = commands(aim, pad, keys, mouse_left, wheel_y);
            let zero = Scalar { bits: 0 };
            let pulled = pad.fire || mouse_left || keys.space;
            let wanted = if pad.move_dir is Some {
                pad.move_dir
            } else {
                keys_move(keys)
            };
            &&& all.contains(Command::Move { dx: h.dx, dy: h.dy }) <==> wanted == Some(h)
            &&& all.contains(Command::Fire { dx: h.dx, dy: h.dy }) <==> pulled && aim == Some(h)
            &&& all.contains(Command::SwitchWeapon { slot }) <==> (slot == 0 && keys.digit1) || (
            slot == 1 && keys.digit2) || (slot == 2 && keys.digit3) || (slot == 3 && keys.digit4)
            &&& all.contains(Command::CycleWeapon { dir: 1 }) <==> keys.next || wheel_y.less_than(
                zero,
            ) || pad.cycle_next
            &&& all.contains(Command::CycleWeapon { dir: -1i32 }) <==> keys.prev || zero.less_than(
                wheel_y,
            ) || pad.cycle_prev
        }),
{
    lemma_commands(aim, pad, keys, mouse_left, wheel_y, Command::Move { dx: h.dx, dy: h.dy });
    lemma_commands(aim, pad, keys, mouse_left, wheel_y, Command::Fire { dx: h.dx, dy: h.dy });
    lemma_commands(aim, pad, keys, mouse_left, wheel_y, Command::SwitchWeapon { slot });
    lemma_commands(aim, pad, keys, mouse_left, wheel_y, Command::CycleWeapon { dir: 1 });
    lemma_commands(aim, pad, keys, mouse_left, wheel_y, Command::CycleWeapon { dir: -1i32 });
}

/// A command is asked for if one of the devices asks for it.
#[verifier::rlimit(40)]
proof fn lemma_commands(
    aim: Option<Heading>,
    pad: PadInput,
    keys: Keys,
    mouse_left: bool,
    wheel_y: Scalar,
    x: Command,
)
    ensures
        ({
            let zero = Scalar { bits: 0 };
            let pulled = pad.fire || mouse_left || keys.space;
            commands(aim, pad, keys, mouse_left, wheel_y).contains(x) <==> {
                ||| (either(pad.move_dir, keys_move(keys)) matches Some(h) && x == (Command::Move {
                    dx: h.dx,
                    dy: h.dy,
                }))
                ||| (aim matches Some(h) && pulled && x == (Command::Fire { dx: h.dx, dy: h.dy }))
                ||| keys.digit1 && x == (Command::SwitchWeapon { slot: 0 })
                ||| keys.digit2 && x == (Command::SwitchWeapon { slot: 1 })
                ||| keys.digit3 && x == (Command::SwitchWeapon { slot: 2 })
                ||| keys.digit4 && x == (Command::SwitchWeapon { slot: 3 })
                ||| (keys.next || wheel_y.less_than(zero) || pad.cycle_next) && x == (
                Command::CycleWeapon { dir: 1 })
                ||| (keys.prev || zero.less_than(wheel_y) || pad.cycle_prev) && x == (
                Command::CycleWeapon { dir: -1i32 })
            }
        }),
{
    let zero = Scalar { bits: 0 };
    let pulled = pad.fire || mouse_left || keys.space;
    let on = keys.next || wheel_y.less_than(zero) || pad.cycle_next;
    let back = keys.prev || zero.less_than(wheel_y) || pad.cycle_prev;
    let a = moving(either(pad.move_dir, keys_move(keys)));
    let b = firing(pulled, aim);
    let c = given(keys.digit1, Command::SwitchWeapon { slot: 0 });
    let d = given(keys.digit2, Command::SwitchWeapon { slot: 1 });
    let e = given(keys.digit3, Command::SwitchWeapon { slot: 2 });
    let f = given(keys.digit4, Command::SwitchWeapon { slot: 3 });
    let g = given(on, Command::CycleWeapon { dir: 1 });
    let i = given(back, Command::CycleWeapon { dir: -1i32 });
    if let Some(h) = either(pad.move_dir, keys_move(keys)) {
        lemma_given(true, Command::Move { dx: h.dx, dy: h.dy }, x);
        assert(a =~= given(true, Command::Move { dx: h.dx, dy: h.dy }));
    }
    if let Some(h) = aim {
        lemma_given(pulled, Command::Fire { dx: h.dx, dy: h.dy }, x);
    }
    lemma_given(keys.digit1, Command::SwitchWeapon { slot: 0 }, x);
    lemma_given(keys.digit2, Command::SwitchWeapon { slot: 1 }, x);
    lemma_given(keys.digit3, Command::SwitchWeapon { slot: 2 }, x);
    lemma_given(keys.digit4, Command::SwitchWeapon { slot: 3 }, x);
    lemma_given(on, Command::CycleWeapon { dir: 1 }, x);
    lemma_given(back, Command::CycleWeapon { dir: -1i32 }, x);
    lemma_either_contains(a, b, x);
    lemma_either_contains(a + b, c, x);
    lemma_either_contains(a + b + c, d, x);
    lemma_either_contains(a + b + c + d, e, x);
    lemma_either_contains(a + b + c + d + e, f, x);
    lemma_either_contains(a + b + c + d + e + f, g, x);
    lemma_either_contains(a + b + c + d + e + f + g, i, x);
}

proof fn lemma_given(when: bool, cmd: Command, x: Command)
    ensures
        given(when, cmd).contains(x) <==> when && x == cmd,
{
    if when {
        assert(given(when, cmd)[0] == cmd);
    }
}

proof fn lemma_either_contains(a: Seq<Command>, b: Seq<Command>, x: Command)
    ensures
        (a + b).contains(x) <==> a.contains(x) || b.contains(x),
{
    if a.contains(x) {
        let k = choose|k: int| 0 <= k < a.len() && a[k] == x;
        assert((a + b)[k] == x);
    }
    if b.contains(x) {
        let k = choose|k: int| 0 <= k < b.len() && b[k] == x;
        assert((a + b)[a.len() + k] == x);
    }
    if (a + b).contains(x) {
        let k = choose|k: int| 0 <= k < (a + b).len() && (a + b)[k] == x;
        if k < a.len() {
            assert(a[k] == x);
        } else {
            assert(b[k - a.len()] == x);
        }
    }
}

} // verus!
