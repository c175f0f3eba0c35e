//! Derived game formulas: attribute bonuses, hit points and mana per level.

use vstd::prelude::*;

verus! {

/// The bonus an attribute value grants: `(value - 10) / 2`, rounded toward zero.
pub open spec fn spec_attr_bonus(value: int) -> int {
    if value >= 10 {
        (value - 10) / 2
    } else {
        -((10 - value) / 2)
    }
}

/// Bonus granted by an attribute value.
pub fn attr_bonus(value: i32) -> (r: i32)
    requires
        -1000 <= value <= 1000,
    ensures
        r == spec_attr_bonus(value as int),
        -505 <= r <= 495,
{
    if value >= 10 {
        (value - 10) / 2
    } else {
        -((10 - value) / 2)
    }
}

/// Hit points a player has at a given level and fitness.
pub open spec fn spec_player_hp_at_level(fitness: int, level: int) -> int {
    10 + (10 + spec_attr_bonus(fitness)) * level
}

/// Player hit-point maximum for a fitness value and level.
pub fn player_hp_at_level(fitness: i32, level: i32) -> (r: i32)
    requires
        -1000 <= fitness <= 1000,
        0 <= level <= 1000,
    ensures
        r == spec_player_hp_at_level(fitness as int, level as int),
{
    let per_level = 10 + attr_bonus(fitness);
    assert(-495_000 <= per_level * level <= 505_000) by (nonlinear_arith)
        requires
            -495 <= per_level <= 505,
            0 <= level <= 1000,
    ;
    10 + per_level * level
}

/// Hit points a non-player creature has: one base point plus
/// `8 + fitness bonus` per level, floored at 1 per level.
pub open spec fn spec_npc_hp(fitness: int, level: int) -> int {
    if 8 + spec_attr_bonus(fitness) >= 1 {
        1 + (8 + spec_attr_bonus(fitness)) * level
    } else {
        1 + level
    }
}

/// Non-player hit-point maximum for a fitness value and level.
pub fn npc_hp(fitness: i32, level: i32) -> (r: i32)
    requires
        -1000 <= fitness <= 1000,
        0 <= level <= 1000,
    ensures
        r == spec_npc_hp(fitness as int, level as int),
{
    let per_level = 8 + attr_bonus(fitness);
    if per_level >= 1 {
        assert(0 <= per_level * level <= 503_000) by (nonlinear_arith)
            requires
                1 <= per_level <= 503,
                0 <= level <= 1000,
        ;
        1 + per_level * level
    } else {
        1 + level
    }
}

/// A sum clamped into the `i32` range, a machine limit.
pub open spec fn spec_clamped(v: int) -> int {
    if v > i32::MAX as int {
        i32::MAX as int
    } else if v < i32::MIN as int {
        i32::MIN as int
    } else {
        v
    }
}

/// `a + b`, clamped into the `i32` range.
pub fn clamped_add(a: i32, b: i32) -> (r: i32)
    ensures
        r == spec_clamped(a + b),
{
    let s: i64 = (a as i64) + (b as i64);
    if s > i32::MAX as i64 {
        i32::MAX
    } else if s < i32::MIN as i64 {
        i32::MIN
    } else {
        s as i32
    }
}

/// `a - b`, clamped into the `i32` range.
pub fn clamped_sub(a: i32, b: i32) -> (r: i32)
    ensures
        r == spec_clamped(a - b),
{
    let s: i64 = (a as i64) - (b as i64);
    if s > i32::MAX as i64 {
        i32::MAX
    } else if s < i32::MIN as i64 {
        i32::MIN
    } else {
        s as i32
    }
}

/// `a * b`, clamped into the `i32` range.
pub fn clamped_mul(a: i32, b: i32) -> (r: i32)
    ensures
        r == spec_clamped(a * b),
{
    proof {
        assert(-5_000_000_000_000_000_000 < (a as int) * (b as int) < 5_000_000_000_000_000_000)
            by (nonlinear_arith)
            requires
                i32::MIN <= a <= i32::MAX,
                i32::MIN <= b <= i32::MAX,
        ;
    }
    let s: i64 = (a as i64) * (b as i64);
    if s > i32::MAX as i64 {
        i32::MAX
    } else if s < i32::MIN as i64 {
        i32::MIN
    } else {
        s as i32
    }
}

/// A value clamped into `lo ..= hi`.
pub open spec fn spec_clamp_range(v: int, lo: int, hi: int) -> int {
    if v < lo {
        lo
    } else if v > hi {
        hi
    } else {
        v
    }
}

/// `v` clamped into `lo ..= hi`.
pub fn clamp_range(v: i32, lo: i32, hi: i32) -> (r: i32)
    requires
        lo <= hi,
    ensures
        r == spec_clamp_range(v as int, lo as int, hi as int),
{
    if v < lo {
        lo
    } else if v > hi {
        hi
    } else {
        v
    }
}

/// Mana a player has at a given level and intelligence, at least 1 per level.
pub open spec fn spec_mana_at_level(intelligence: int, level: int) -> int {
    if 4 + spec_attr_bonus(intelligence) >= 1 {
        (4 + spec_attr_bonus(intelligence)) * level
    } else {
        1 * level
    }
}

/// Player mana maximum for an intelligence value and level.
pub fn mana_at_level(intelligence: i32, level: i32) -> (r: i32)
    requires
        -1000 <= intelligence <= 1000,
        0 <= level <= 1000,
    ensures
        r == spec_mana_at_level(intelligence as int, level as int),
{
    let per_level = 4 + attr_bonus(intelligence);
    if per_level >= 1 {
        assert(0 <= per_level * level <= 499_000) by (nonlinear_arith)
            requires
                1 <= per_level <= 499,
                0 <= level <= 1000,
        ;
        per_level * level
    } else {
        level
    }
}

} // verus!
