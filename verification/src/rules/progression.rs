//! Character progression — the XP curve and helpers around it. Player-side
//! state (current level, total XP) lives in the gameplay layer.
//!
//! The XP needed to reach level `L`, cumulative from level 1, is
//! `(L - 1) × L × 50`; it stops growing at `MAX_LEVEL`.

use vstd::prelude::*;

verus! {

pub const MAX_LEVEL: u8 = 30;

/// The XP curve.
pub open spec fn xp_curve(level: int) -> int {
    if level <= 1 {
        0
    } else if level <= MAX_LEVEL {
        (level - 1) * level * 50
    } else {
        (MAX_LEVEL - 1) * MAX_LEVEL * 50
    }
}

/// Total XP required to reach `level`, cumulative from level 1.
/// Level 1 returns 0 (starting point). Caps at `xp_to_reach(MAX_LEVEL)` for
/// any level beyond.
pub fn xp_to_reach(level: u8) -> (xp: u64)
    ensures
        xp == xp_curve(level as int),
{
    let lvl: u64 = if level < MAX_LEVEL { level as u64 } else { MAX_LEVEL as u64 };
    if lvl <= 1 {
        return 0;
    }
    proof {
        assert((lvl - 1) * lvl <= 29 * 30) by (nonlinear_arith)
            requires
                2 <= lvl <= 30,
        ;
    }
    (lvl - 1) * lvl * 50
}

/// XP needed to advance from `level` to `level + 1`.
/// Returns `None` at `MAX_LEVEL` — no advancement left.
pub fn xp_for_next_level(level: u8) -> (xp: Option<u64>)
    ensures
        xp is None <==> level >= MAX_LEVEL,
        xp matches Some(n) ==> n == xp_curve(level + 1) - xp_curve(level as int),
{
    if level >= MAX_LEVEL {
        return None;
    }
    proof {
        law_curve_is_monotonic(level as int, level + 1);
    }
    Some(xp_to_reach(level + 1) - xp_to_reach(level))
}

/// Whether `level` is the one that `total_xp` corresponds to: the highest level whose
/// XP has been gathered.
pub open spec fn is_level_for(level: int, total_xp: int) -> bool {
    &&& 1 <= level <= MAX_LEVEL
    &&& xp_curve(level) <= total_xp
    &&& level < MAX_LEVEL ==> total_xp < xp_curve(level + 1)
}

/// What level corresponds to having accumulated `total_xp`. Clamped to
/// `[1, MAX_LEVEL]`.
pub fn level_for_total_xp(total_xp: u64) -> (level: u8)
    ensures
        is_level_for(level as int, total_xp as int),
{
    let mut level: u8 = 1;
    while level < MAX_LEVEL && xp_to_reach(level + 1) <= total_xp
        invariant
            1 <= level <= MAX_LEVEL,
            xp_curve(level as int) <= total_xp,
        decreases MAX_LEVEL - level,
    {
        level = level + 1;
    }
    level
}

/// A higher level never takes less XP, and from the first to the highest it takes more.
pub proof fn law_curve_is_monotonic(a: int, b: int)
    requires
        a < b,
    ensures
        xp_curve(a) <= xp_curve(b),
        1 <= a && b <= MAX_LEVEL ==> xp_curve(a) < xp_curve(b),
{
    let m: int = if b <= MAX_LEVEL { b } else { MAX_LEVEL as int };
    if 1 <= a && a < m {
        assert((a - 1) * a < (m - 1) * m) by (nonlinear_arith)
            requires
                1 <= a < m,
        ;
    }
    if 1 <= m {
        assert((m - 1) * m >= 0) by (nonlinear_arith)
            requires
                1 <= m,
        ;
    }
}

/// Only one level corresponds to a given amount of XP.
pub proof fn law_level_is_unique(a: int, b: int, total_xp: int)
    requires
        is_level_for(a, total_xp),
        is_level_for(b, total_xp),
    ensures
        a == b,
{
    if a < b {
        if a + 1 < b {
            law_curve_is_monotonic(a + 1, b);
        }
    } else if b < a {
        if b + 1 < a {
            law_curve_is_monotonic(b + 1, a);
        }
    }
}

/// Round trip: whoever has exactly the XP that a level takes is at that level.
pub proof fn law_round_trip(level: int, reached: int)
    requires
        1 <= level <= MAX_LEVEL,
        is_level_for(reached, xp_curve(level)),
    ensures
        reached == level,
{
    if level < MAX_LEVEL {
        law_curve_is_monotonic(level, level + 1);
    }
    law_level_is_unique(level, reached, xp_curve(level));
}

/// More XP never means a lower level.
pub proof fn law_level_grows_with_xp(a: int, b: int, less: int, more: int)
    requires
        is_level_for(a, less),
        is_level_for(b, more),
        less <= more,
    ensures
        a <= b,
{
    if b < a && b + 1 < a {
        law_curve_is_monotonic(b + 1, a);
    }
}

/// Each level takes 100 XP more than the one before: the first takes none, the next one 100,
/// then 200 more, up to the thirtieth; after that nothing is left to reach.
pub proof fn law_each_level_takes_100_more(level: int)
    ensures
        level <= 1 ==> xp_curve(level) == 0,
        1 <= level < 30 ==> xp_curve(level + 1) == xp_curve(level) + 100 * level,
        level >= 30 ==> xp_curve(level) == xp_curve(30),
{
    if 1 <= level < 30 {
        assert(level * (level + 1) * 50 == (level - 1) * level * 50 + 100 * level)
            by (nonlinear_arith);
    }
}

/// The level is the highest whose XP has been gathered: none above it, up to the thirtieth,
/// can be paid for.
pub proof fn law_level_is_the_highest(level: int, total_xp: int, other: int)
    requires
        is_level_for(level, total_xp),
        1 <= other <= 30,
        total_xp >= 0,
    ensures
        1 <= level <= 30,
        other <= level <==> xp_curve(other) <= total_xp,
{
    if other < level {
        law_curve_is_monotonic(other, level);
    } else if level < other && level + 1 < other {
        law_curve_is_monotonic(level + 1, other);
    }
}

} // verus!
