//! The gamepad: left stick moves, right stick aims, right trigger fires, bumpers cycle the
//! weapons.

use vstd::prelude::*;

use crate::scalar::Scalar;

verus! {

/// A direction in tile space.
#[derive(Debug, Clone, Copy, PartialEq, Eq, Structural)]
pub struct Heading {
    pub dx: Scalar,
    pub dy: Scalar,
}

/// One frame of gamepad intent. Everything is off when no pad is connected.
#[derive(Debug, Clone, Copy, PartialEq, Eq, Structural)]
pub struct PadInput {
    /// Left-stick move vector in tile space (analog magnitude preserved), `None` inside
    /// the deadzone.
    pub move_dir: Option<Heading>,
    /// Right-stick aim direction (normalized), `None` inside the deadzone.
    pub aim_dir: Option<Heading>,
    /// Right trigger held.
    pub fire: bool,
    /// Right bumper pressed in this frame: cycle to the next weapon.
    pub cycle_next: bool,
    /// Left bumper pressed in this frame: cycle to the previous weapon.
    pub cycle_prev: bool,
}

impl PadInput {
    /// The intent of a pad that is not there.
    pub fn none() -> (p: PadInput)
        ensures
            p == (PadInput {
                move_dir: None,
                aim_dir: None,
                fire: false,
                cycle_next: false,
                cycle_prev: false,
            }),
    {
        PadInput {
            move_dir: None,
            aim_dir: None,
            fire: false,
            cycle_next: false,
            cycle_prev: false,
        }
    }
}

/// A stick: where it points (up is positive), how far it is pushed, and the direction it
/// points in, normalized.
#[derive(Debug, Clone, Copy, PartialEq, Eq, Structural)]
pub struct Stick {
    pub x: Scalar,
    pub y: Scalar,
    pub magnitude: Scalar,
    pub unit: Heading,
}

/// The state of a pad in one frame.
#[derive(Debug, Clone, Copy, PartialEq, Eq, Structural)]
pub struct PadState {
    pub left: Stick,
    pub right: Stick,
    pub trigger: bool,
    pub right_bumper: bool,
    pub left_bumper: bool,
}

/// The number with the other sign.
pub open spec fn negated(s: Scalar) -> Scalar {
    Scalar { bits: (s.bits ^ 0x8000_0000u32) as u32 }
}

fn negate(s: Scalar) -> (r: Scalar)
    ensures
        r == negated(s),
{
    Scalar { bits: s.bits ^ 0x8000_0000 }
}

/// The other sign makes the opposite number.
pub proof fn law_negation_is_opposite(s: Scalar)
    ensures
        negated(s).is_nan() == s.is_nan(),
        negated(s).value() == -s.value(),
{
    let b = s.bits;
    assert((b ^ 0x8000_0000u32) == if b >= 0x8000_0000u32 {
        (b - 0x8000_0000) as u32
    } else {
        (b + 0x8000_0000) as u32
    }) by (bit_vector);
}

/// Whether a stick is pushed out of the deadzone.
pub open spec fn pushed(s: Stick, deadzone: Scalar) -> bool {
    !s.magnitude.less_than(deadzone)
}

/// The previous frame's bumpers, so that a press is told from a hold.
#[derive(Debug, Clone, Copy, PartialEq, Eq, Structural)]
pub struct Pads {
    pub prev_next: bool,
    pub prev_prev: bool,
}

impl Pads {
    pub fn new() -> (p: Pads)
        ensures
            p == (Pads { prev_next: false, prev_prev: false }),
    {
        Pads { prev_next: false, prev_prev: false }
    }

    /// What a pad asks for in a frame. Up on a stick is the negative direction in tile
    /// space.
    pub open spec fn intent(self, pad: PadState, deadzone: Scalar) -> PadInput {
        PadInput {
            move_dir: if pushed(pad.left, deadzone) {
                Some(Heading { dx: pad.left.x, dy: negated(pad.left.y) })
            } else {
                None
            },
            aim_dir: if pushed(pad.right, deadzone) {
                Some(Heading { dx: pad.right.unit.dx, dy: negated(pad.right.unit.dy) })
            } else {
                None
            },
            fire: pad.trigger,
            cycle_next: pad.right_bumper && !self.prev_next,
            cycle_prev: pad.left_bumper && !self.prev_prev,
        }
    }

    /// What is remembered of a frame.
    pub open spec fn after(pad: PadState) -> Pads {
        Pads { prev_next: pad.right_bumper, prev_prev: pad.left_bumper }
    }

    /// One frame's intent, read off the first connected pad. A stick that is pushed less
    /// than `deadzone` reads as neutral. Without a pad nothing changes.
    pub fn read(&mut self, pad: Option<PadState>, deadzone: &Scalar) -> (input: PadInput)
        ensures
            match pad {
                Some(pad) => {
                    &&& input == old(self).intent(pad, *deadzone)
                    &&& *final(self) == Pads::after(pad)
                },
                None => {
                    &&& input == (PadInput {
                        move_dir: None,
                        aim_dir: None,
                        fire: false,
                        cycle_next: false,
                        cycle_prev: false,
                    })
                    &&& *final(self) == *old(self)
                },
            },
    {
        let pad = match pad {
            Some(pad) => pad,
            None => {
                return PadInput::none();
            },
        };
        let move_dir = if pad.left.magnitude.lt(deadzone) {
            None
        } else {
            Some(Heading { dx: pad.left.x, dy: negate(pad.left.y) })
        };
        let aim_dir = if pad.right.magnitude.lt(deadzone) {
            None
        } else {
            Some(Heading { dx: pad.right.unit.dx, dy: negate(pad.right.unit.dy) })
        };
        let cycle_next = pad.right_bumper && !self.prev_next;
        let cycle_prev = pad.left_bumper && !self.prev_prev;
        self.prev_next = pad.right_bumper;
        self.prev_prev = pad.left_bumper;
        PadInput { move_dir, aim_dir, fire: pad.trigger, cycle_next, cycle_prev }
    }
}

/// A bumper cycles in the frame in which it goes down, and holding it down in the next
/// frame cycles no more.
pub proof fn law_holding_a_bumper_cycles_once(
    before: PadState,
    first: PadState,
    second: PadState,
    deadzone: Scalar,
)
    ensures
        !before.right_bumper && first.right_bumper ==> Pads::after(before).intent(
            first,
            deadzone,
        ).cycle_next,
        !before.left_bumper && first.left_bumper ==> Pads::after(before).intent(
            first,
            deadzone,
        ).cycle_prev,
        first.right_bumper ==> !Pads::after(first).intent(second, deadzone).cycle_next,
        first.left_bumper ==> !Pads::after(first).intent(second, deadzone).cycle_prev,
{
}

/// What a pad asks for. Each stick counts unless it is pushed less than the deadzone; up on
/// it leads up on the map, which is the negative direction there. The left one moves as far
/// as it is pushed, the right one only points. The trigger fires as long as it is held, and
/// a bumper cycles when it goes down.
pub proof fn law_what_a_pad_asks_for(pads: Pads, pad: PadState, deadzone: Scalar)
    ensures
        ({
            let want = pads.intent(pad, deadzone);
            &&& want.move_dir is None <==> pad.left.magnitude.less_than(deadzone)
            &&& want.aim_dir is None <==> pad.right.magnitude.less_than(deadzone)
            &&& want.move_dir matches Some(h) ==> h.dx.value() == pad.left.x.value()
                && h.dy.value() == -pad.left.y.value()
            &&& want.aim_dir matches Some(h) ==> h.dx.value() == pad.right.unit.dx.value()
                && h.dy.value() == -pad.right.unit.dy.value()
            &&& want.fire == pad.trigger
            &&& want.cycle_next <==> pad.right_bumper && !pads.prev_next
            &&& want.cycle_prev <==> pad.left_bumper && !pads.prev_prev
            &&& Pads::after(pad).prev_next == pad.right_bumper
            &&& Pads::after(pad).prev_prev == pad.left_bumper
        }),
{
    law_negation_is_opposite(pad.left.y);
    law_negation_is_opposite(pad.right.unit.dy);
}

} // verus!
