//! The numeric attribute model: a base value with a multiplicative and an
//! additive modifier, resolved as `base * multiply + add`.

use vstd::prelude::*;

use crate::fixed;
use crate::fixed::SCALE;

verus! {

/// One attribute. All three fields are milli-unit scalars; `multiply`
/// starts at one (stored as `SCALE`) and `add` at zero.
#[derive(Clone, Copy, PartialEq, Eq, Structural, Debug)]
pub struct Stat {
    pub base: i64,
    pub multiply: i64,
    pub add: i64,
}

impl Stat {
    /// Every field is a storable scalar.
    pub open spec fn wf(self) -> bool {
        fixed::in_range(self.base as int) && fixed::in_range(self.multiply as int)
            && fixed::in_range(self.add as int)
    }

    pub open spec fn spec_new(base: int) -> Stat {
        Stat { base: base as i64, multiply: SCALE, add: 0 }
    }

    /// A fresh attribute: multiplier one, nothing added.
    pub fn new(base: i64) -> (r: Stat)
        ensures
            r == Stat::spec_new(base as int),
    {
        Stat { base, multiply: SCALE, add: 0 }
    }

    /// The resolved value: `base * multiply + add`, saturated.
    pub open spec fn spec_value(self) -> int {
        fixed::sat_spec(
            fixed::sat_spec(fixed::mul_milli_spec(self.base as int, self.multiply as int))
                + self.add,
        )
    }

    /// The resolved value: `base * multiply + add`. Pure; the only mutators
    /// of a `Stat` are `apply_multiply` and `apply_add`.
    pub fn value(&self) -> (r: i64)
        requires
            self.wf(),
        ensures
            r == self.spec_value(),
            fixed::in_range(r as int),
    {
        fixed::sat_add(fixed::mul_milli(self.base, self.multiply), self.add)
    }

    pub open spec fn spec_apply_multiply(self, delta: int) -> Stat {
        Stat { multiply: fixed::sat_spec(self.multiply + delta) as i64, ..self }
    }

    /// Shift the multiplier by `delta`. Invoked only by pickup effects.
    pub fn apply_multiply(&mut self, delta: i64)
        ensures
            *final(self) == old(self).spec_apply_multiply(delta as int),
            old(self).wf() ==> final(self).wf(),
    {
        self.multiply = fixed::sat_add(self.multiply, delta);
    }

    pub open spec fn spec_apply_add(self, delta: int) -> Stat {
        Stat { add: fixed::sat_spec(self.add + delta) as i64, ..self }
    }

    /// Shift the additive part by `delta`. Invoked only by pickup effects.
    pub fn apply_add(&mut self, delta: i64)
        ensures
            *final(self) == old(self).spec_apply_add(delta as int),
            old(self).wf() ==> final(self).wf(),
    {
        self.add = fixed::sat_add(self.add, delta);
    }
}

/// Two multiplier shifts land on the same attribute as the single shift by
/// their sum, in either order — as long as no intermediate multiplier
/// saturates at the storable bound.
pub proof fn lemma_stat_multiply_order_merges(s: Stat, d1: int, d2: int)
    requires
        fixed::in_range(s.multiply + d1),
        fixed::in_range(s.multiply + d2),
        fixed::in_range(s.multiply + d1 + d2),
    ensures
        s.spec_apply_multiply(d1).spec_apply_multiply(d2) == s.spec_apply_multiply(d1 + d2),
        s.spec_apply_multiply(d1).spec_apply_multiply(d2) == s.spec_apply_multiply(
            d2,
        ).spec_apply_multiply(d1),
{
}

/// Two additive shifts land on the same attribute as the single shift by
/// their sum, in either order — as long as no intermediate sum saturates
/// at the storable bound.
pub proof fn lemma_stat_add_order_merges(s: Stat, d1: int, d2: int)
    requires
        fixed::in_range(s.add + d1),
        fixed::in_range(s.add + d2),
        fixed::in_range(s.add + d1 + d2),
    ensures
        s.spec_apply_add(d1).spec_apply_add(d2) == s.spec_apply_add(d1 + d2),
        s.spec_apply_add(d1).spec_apply_add(d2) == s.spec_apply_add(d2).spec_apply_add(d1),
{
}

/// The attribute bundle a player carries.
#[derive(Clone, Copy, PartialEq, Eq, Structural, Debug)]
pub struct Stats {
    pub damage: Stat,
    pub speed: Stat,
    pub max_health: Stat,
    pub shot_duration: Stat,
    pub shot_speed: Stat,
    pub shot_size: Stat,
    pub fire_interval: Stat,
    pub piercing: Stat,
    pub mass: Stat,
}

impl Stats {
    pub open spec fn wf(self) -> bool {
        self.damage.wf() && self.speed.wf() && self.max_health.wf() && self.shot_duration.wf()
            && self.shot_speed.wf() && self.shot_size.wf() && self.fire_interval.wf()
            && self.piercing.wf() && self.mass.wf()
    }

    pub open spec fn spec_new() -> Stats {
        Stats {
            damage: Stat::spec_new(60_000),
            speed: Stat::spec_new(100_000),
            max_health: Stat::spec_new(100_000),
            fire_interval: Stat::spec_new(250),
            shot_speed: Stat::spec_new(500_000),
            shot_duration: Stat::spec_new(1_000),
            shot_size: Stat::spec_new(10_000),
            piercing: Stat::spec_new(1_000),
            mass: Stat::spec_new(100_000),
        }
    }

    /// The default combat attributes of a fresh player.
    pub fn new() -> (r: Stats)
        ensures
            r == Stats::spec_new(),
            r.wf(),
    {
        Stats {
            damage: Stat::new(60_000),
            speed: Stat::new(100_000),
            max_health: Stat::new(100_000),
            fire_interval: Stat::new(250),
            shot_speed: Stat::new(500_000),
            shot_duration: Stat::new(1_000),
            shot_size: Stat::new(10_000),
            piercing: Stat::new(1_000),
            mass: Stat::new(100_000),
        }
    }
}

} // verus!
