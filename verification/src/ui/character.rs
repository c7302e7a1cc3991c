//! Characters: which model plays which role, and which animation it plays.

use vstd::prelude::*;

use crate::scalar::Scalar;
use crate::text::same_text;

verus! {

/// Ground speed above which a character plays its walk cycle: 0.35 tiles per second.
pub const WALK_SPEED: u32 = 0x3eb3_3333;

/// Ground speed above which a character breaks into a run: 3.2 tiles per second.
pub const SPRINT_SPEED: u32 = 0x404c_cccd;

/// How long the player holds the shoot pose after a shot: 0.28 seconds.
pub const SHOOT_HOLD: u32 = 0x3e8f_5c29;

/// One character role's art: the model to show and its relative size in percent.
#[derive(Debug, Clone, Copy)]
pub struct CharSpec {
    pub model: &'static str,
    pub scale_percent: u32,
}

/// The player's model. Distinct look so the player reads apart from the swarm.
pub fn player_spec() -> (s: CharSpec)
    ensures
        s.model@ == "characters/kennys/character-a.glb"@,
        s.scale_percent == 105,
{
    CharSpec { model: "characters/kennys/character-a.glb", scale_percent: 105 }
}

/// The model of an enemy archetype.
pub open spec fn enemy_model(id: Seq<char>) -> (Seq<char>, u32) {
    if id == "swarm_rusher"@ {
        ("characters/kennys/character-n.glb"@, 80)
    } else if id == "fast_zombie"@ {
        ("characters/kennys/character-h.glb"@, 90)
    } else if id == "spitter"@ {
        ("characters/kennys/character-k.glb"@, 100)
    } else if id == "fat_zombie"@ {
        ("characters/kennys/character-m.glb"@, 135)
    } else if id == "patient_zero"@ {
        ("characters/kennys/character-r.glb"@, 190)
    } else {
        ("characters/kennys/character-c.glb"@, 100)
    }
}

/// The model for an enemy archetype id. Unknown ids fall back to the basic zombie's look.
pub fn enemy_spec(archetype_id: &str) -> (s: CharSpec)
    ensures
        (s.model@, s.scale_percent) == enemy_model(archetype_id@),
{
    if same_text(archetype_id, "swarm_rusher") {
        CharSpec { model: "characters/kennys/character-n.glb", scale_percent: 80 }
    } else if same_text(archetype_id, "fast_zombie") {
        CharSpec { model: "characters/kennys/character-h.glb", scale_percent: 90 }
    } else if same_text(archetype_id, "spitter") {
        CharSpec { model: "characters/kennys/character-k.glb", scale_percent: 100 }
    } else if same_text(archetype_id, "fat_zombie") {
        CharSpec { model: "characters/kennys/character-m.glb", scale_percent: 135 }
    } else if same_text(archetype_id, "patient_zero") {
        CharSpec { model: "characters/kennys/character-r.glb", scale_percent: 190 }
    } else {
        CharSpec { model: "characters/kennys/character-c.glb", scale_percent: 100 }
    }
}

/// The animation states the game drives.
#[derive(Debug, Clone, Copy, PartialEq, Eq, Structural)]
pub enum AnimClip {
    Idle,
    Walk,
    Sprint,
    HoldBoth,
    Shoot,
    Attack,
    /// For a death animation; nothing triggers it yet.
    Die,
}

impl AnimClip {
    /// The place of the state in a model's table of clips.
    pub open spec fn place(self) -> int {
        match self {
            AnimClip::Idle => 0,
            AnimClip::Walk => 1,
            AnimClip::Sprint => 2,
            AnimClip::HoldBoth => 3,
            AnimClip::Shoot => 4,
            AnimClip::Attack => 5,
            AnimClip::Die => 6,
        }
    }

    pub fn index(self) -> (i: usize)
        ensures
            i == self.place(),
            i < 7,
    {
        match self {
            AnimClip::Idle => 0,
            AnimClip::Walk => 1,
            AnimClip::Sprint => 2,
            AnimClip::HoldBoth => 3,
            AnimClip::Shoot => 4,
            AnimClip::Attack => 5,
            AnimClip::Die => 6,
        }
    }

    /// The name of the clip in a model that plays the state.
    pub open spec fn label(self) -> Seq<char> {
        match self {
            AnimClip::Idle => "idle"@,
            AnimClip::Walk => "walk"@,
            AnimClip::Sprint => "sprint"@,
            AnimClip::HoldBoth => "holding-both"@,
            AnimClip::Shoot => "holding-both-shoot"@,
            AnimClip::Attack => "attack-melee-right"@,
            AnimClip::Die => "die"@,
        }
    }

    pub fn name(self) -> (s: &'static str)
        ensures
            s@ == self.label(),
    {
        match self {
            AnimClip::Idle => "idle",
            AnimClip::Walk => "walk",
            AnimClip::Sprint => "sprint",
            AnimClip::HoldBoth => "holding-both",
            AnimClip::Shoot => "holding-both-shoot",
            AnimClip::Attack => "attack-melee-right",
            AnimClip::Die => "die",
        }
    }
}

/// The animation of a character that moves at a speed.
pub open spec fn gait(speed: Scalar, armed: bool) -> AnimClip {
    if (Scalar { bits: SPRINT_SPEED }).less_than(speed) {
        AnimClip::Sprint
    } else if (Scalar { bits: WALK_SPEED }).less_than(speed) {
        AnimClip::Walk
    } else if armed {
        AnimClip::HoldBoth
    } else {
        AnimClip::Idle
    }
}

/// Pick the idle/walk/sprint animation for a character moving at `speed` (tiles/sec).
/// Armed characters (the player) idle in the gun-holding pose so the weapon shows.
pub fn locomotion(speed: &Scalar, armed: bool) -> (clip: AnimClip)
    ensures
        clip == gait(*speed, armed),
{
    let sprint = Scalar { bits: SPRINT_SPEED };
    let walk = Scalar { bits: WALK_SPEED };
    if sprint.lt(speed) {
        AnimClip::Sprint
    } else if walk.lt(speed) {
        AnimClip::Walk
    } else if armed {
        AnimClip::HoldBoth
    } else {
        AnimClip::Idle
    }
}

/// The player's shoot pose: it follows the fire cooldown, whose rising edge is a shot.
#[derive(Debug, Clone, Copy, PartialEq, Eq, Structural)]
pub struct PlayerAnim {
    pub prev_cooldown: Scalar,
    pub shoot_ttl: Scalar,
}

impl PlayerAnim {
    /// Looks at the cooldown. A fresh shot sets it upward, past `edge`, which lies a hair
    /// above what it was; each shot re-arms the pose, so continuous fire stays in it.
    pub fn observe(&mut self, cooldown: Scalar, edge: &Scalar)
        ensures
            *final(self) == (PlayerAnim {
                prev_cooldown: cooldown,
                shoot_ttl: if edge.less_than(cooldown) {
                    Scalar { bits: SHOOT_HOLD }
                } else {
                    old(self).shoot_ttl
                },
            }),
    {
        if edge.lt(&cooldown) {
            self.shoot_ttl = Scalar { bits: SHOOT_HOLD };
        }
        self.prev_cooldown = cooldown;
    }

    /// Takes what is left of the pose, never less than nothing, and gives the player's
    /// animation: the pose while any of it is left, otherwise that of the movement.
    pub fn player_anim_state(&mut self, left: Scalar, speed: &Scalar) -> (clip: AnimClip)
        ensures
            *final(self) == (PlayerAnim { shoot_ttl: left.or_zero(), ..*old(self) }),
            clip == if !left.is_nan() && left.value() > 0 {
                AnimClip::Shoot
            } else {
                gait(*speed, true)
            },
    {
        self.shoot_ttl = left.floored();
        if left.is_positive() {
            AnimClip::Shoot
        } else {
            locomotion(speed, true)
        }
    }
}

/// A character on screen: the state it should be in, and the one that was applied last.
#[derive(Debug, Clone, Copy, PartialEq, Eq, Structural)]
pub struct CharModel {
    pub state: AnimClip,
    pub applied: Option<AnimClip>,
    /// Whether the model's animations are bound to its player.
    pub attached: bool,
}

/// What there is to be done for a character in a frame.
#[derive(Debug, Clone, Copy, PartialEq, Eq, Structural)]
pub struct Drive {
    /// Bind the animations to the player.
    pub bind: bool,
    /// Cross-fade to a clip.
    pub play: Option<AnimClip>,
}

/// The clip for a state: a model that lacks the state's own clip idles, one that lacks
/// that too plays nothing.
pub open spec fn clip_for(clips: Seq<bool>, state: AnimClip) -> Option<AnimClip> {
    if clips[state.place()] {
        Some(state)
    } else if clips[0] {
        Some(AnimClip::Idle)
    } else {
        None
    }
}

impl CharModel {
    pub fn new(state: AnimClip) -> (m: CharModel)
        ensures
            m == (CharModel { state, applied: None, attached: false }),
    {
        CharModel { state, applied: None, attached: false }
    }

    /// Binds the model's animations to its player once both are there (`ready`), then
    /// applies the desired state, cross-fading on change. `clips` tells which states the
    /// model has clips for. Where the player cannot take a transition yet, the change is
    /// tried again in the next frame.
    pub fn drive_char_animation(&mut self, ready: bool, clips: &Vec<bool>, transitions: bool) -> (
        d: Drive)
        requires
            clips.len() == 7,
        ensures
            !ready ==> *final(self) == *old(self) && d == (Drive { bind: false, play: None }),
            ready ==> ({
                let applied = if old(self).attached {
                    old(self).applied
                } else {
                    None
                };
                let clip = clip_for(clips@, old(self).state);
                let changes = applied != Some(old(self).state) && clip is Some && transitions;
                &&& d.bind == !old(self).attached
                &&& d.play == if changes {
                    clip
                } else {
                    None
                }
                &&& *final(self) == (CharModel {
                    state: old(self).state,
                    attached: true,
                    applied: if changes {
                        Some(old(self).state)
                    } else {
                        applied
                    },
                })
            }),
    {
        if !ready {
            return Drive { bind: false, play: None };
        }
        let bind = !self.attached;
        if bind {
            self.attached = true;
            self.applied = None;
        }
        let settled = match self.applied {
            Some(clip) => clip == self.state,
            None => false,
        };
        if settled {
            return Drive { bind, play: None };
        }
        let clip = if clips[self.state.index()] {
            Some(self.state)
        } else if clips[0] {
            Some(AnimClip::Idle)
        } else {
            None
        };
        if clip.is_none() || !transitions {
            return Drive { bind, play: None };
        }
        self.applied = Some(self.state);
        Drive { bind, play: clip }
    }
}

/// How characters move: above 3.2 tiles per second they run, above 0.35 they walk, and
/// otherwise they stand, with the gun held if they have one.
pub proof fn law_gaits(speed: Scalar, armed: bool)
    ensures
        ({
            let run = Scalar { bits: 0x404c_cccd };
            let walk = Scalar { bits: 0x3eb3_3333 };
            let clip = gait(speed, armed);
            &&& clip == AnimClip::Sprint <==> run.less_than(speed)
            &&& clip == AnimClip::Walk <==> walk.less_than(speed) && !run.less_than(speed)
            &&& clip == AnimClip::HoldBoth <==> !walk.less_than(speed) && !run.less_than(speed)
                && armed
            &&& clip == AnimClip::Idle <==> !walk.less_than(speed) && !run.less_than(speed)
                && !armed
        }),
{
}

/// A model plays the clip of its state if it has it, else it idles if it can.
pub proof fn law_models_fall_back_to_idling(clips: Seq<bool>, state: AnimClip)
    requires
        clips.len() == 7,
    ensures
        ({
            let own = match state {
                AnimClip::Idle => clips[0],
                AnimClip::Walk => clips[1],
                AnimClip::Sprint => clips[2],
                AnimClip::HoldBoth => clips[3],
                AnimClip::Shoot => clips[4],
                AnimClip::Attack => clips[5],
                AnimClip::Die => clips[6],
            };
            &&& own ==> clip_for(clips, state) == Some(state)
            &&& !own && clips[0] ==> clip_for(clips, state) == Some(AnimClip::Idle)
            &&& !own && !clips[0] ==> clip_for(clips, state) is None
        }),
{
}

} // verus!
