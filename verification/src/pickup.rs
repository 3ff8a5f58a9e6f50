//! Pickups: one-shot stat modifiers the player collects by touch.

use vstd::prelude::*;

use vstd::pervasive::VecAdditionalExecFns;

use crate::fixed;
use crate::physics_sprite::PhysicsSpriteBundle;
use crate::player::Player;
use crate::random;
use crate::stat::Stats;
use crate::vec2::Vec2;

verus! {

/// Side length of a wave-spawned pickup, in milli-units.
pub const PICKUP_SIZE: i64 = 50_000;

/// How many pickup kinds exist.
pub const KIND_COUNT: u64 = 4;

/// What a pickup improves.
#[derive(Clone, Copy, PartialEq, Eq, Structural, Debug, Default)]
pub enum PickupKind {
    #[default]
    MaxHealthUp,
    DamageUp,
    ShotSpeedUp,
    FireRateUp,
}

/// The pickup kinds in their fixed order, for turning a drawn index into
/// a kind; any index past the last kind falls back to the first.
pub open spec fn spec_kind_from_index(i: u64) -> PickupKind {
    if i == 1 {
        PickupKind::DamageUp
    } else if i == 2 {
        PickupKind::ShotSpeedUp
    } else if i == 3 {
        PickupKind::FireRateUp
    } else {
        PickupKind::MaxHealthUp
    }
}

/// The pickup kind at index `i` of the fixed order.
pub fn kind_from_index(i: u64) -> (k: PickupKind)
    ensures
        k == spec_kind_from_index(i),
{
    if i == 1 {
        PickupKind::DamageUp
    } else if i == 2 {
        PickupKind::ShotSpeedUp
    } else if i == 3 {
        PickupKind::FireRateUp
    } else {
        PickupKind::MaxHealthUp
    }
}

/// Which attribute a pickup adjusts.
#[derive(Clone, Copy, PartialEq, Eq, Structural, Debug)]
pub enum StatTarget {
    Damage,
    MaxHealth,
    ShotSpeed,
    FireInterval,
}

/// The whole effect of one pickup: a shift of one attribute's modifiers,
/// and an immediate heal.
#[derive(Clone, Copy, PartialEq, Eq, Structural, Debug)]
pub struct StatDelta {
    pub target: StatTarget,
    pub multiply_delta: i64,
    pub add_delta: i64,
    pub heal: i64,
}

pub open spec fn spec_effect(kind: PickupKind) -> StatDelta {
    match kind {
        PickupKind::MaxHealthUp => StatDelta {
            target: StatTarget::MaxHealth,
            multiply_delta: 0,
            add_delta: 20_000,
            heal: 20_000,
        },
        PickupKind::DamageUp => StatDelta {
            target: StatTarget::Damage,
            multiply_delta: 100,
            add_delta: 0,
            heal: 0,
        },
        PickupKind::ShotSpeedUp => StatDelta {
            target: StatTarget::ShotSpeed,
            multiply_delta: 100,
            add_delta: 0,
            heal: 0,
        },
        PickupKind::FireRateUp => StatDelta {
            target: StatTarget::FireInterval,
            multiply_delta: -100i64,
            add_delta: 0,
            heal: 0,
        },
    }
}

/// What each kind does: more max health (and an equal heal), a tenth more
/// damage, a tenth more shot speed, or a tenth off the fire interval.
pub fn effect(kind: PickupKind) -> (d: StatDelta)
    ensures
        d == spec_effect(kind),
{
    match kind {
        PickupKind::MaxHealthUp => StatDelta {
            target: StatTarget::MaxHealth,
            multiply_delta: 0,
            add_delta: 20_000,
            heal: 20_000,
        },
        PickupKind::DamageUp => StatDelta {
            target: StatTarget::Damage,
            multiply_delta: 100,
            add_delta: 0,
            heal: 0,
        },
        PickupKind::ShotSpeedUp => StatDelta {
            target: StatTarget::ShotSpeed,
            multiply_delta: 100,
            add_delta: 0,
            heal: 0,
        },
        PickupKind::FireRateUp => StatDelta {
            target: StatTarget::FireInterval,
            multiply_delta: -100i64,
            add_delta: 0,
            heal: 0,
        },
    }
}

/// The attribute bundle after one pickup's delta: the targeted stat takes
/// the multiplier shift then the additive shift.
pub open spec fn spec_stats_after(stats: Stats, d: StatDelta) -> Stats {
    match d.target {
        StatTarget::Damage => Stats {
            damage: stats.damage.spec_apply_multiply(d.multiply_delta as int).spec_apply_add(
                d.add_delta as int,
            ),
            ..stats
        },
        StatTarget::MaxHealth => Stats {
            max_health: stats.max_health.spec_apply_multiply(d.multiply_delta as int).spec_apply_add(
                d.add_delta as int,
            ),
            ..stats
        },
        StatTarget::ShotSpeed => Stats {
            shot_speed: stats.shot_speed.spec_apply_multiply(d.multiply_delta as int).spec_apply_add(
                d.add_delta as int,
            ),
            ..stats
        },
        StatTarget::FireInterval => Stats {
            fire_interval: stats.fire_interval.spec_apply_multiply(
                d.multiply_delta as int,
            ).spec_apply_add(d.add_delta as int),
            ..stats
        },
    }
}

/// The player after collecting a pickup of the given kind.
pub open spec fn spec_apply_pickup(kind: PickupKind, p: Player) -> Player {
    let d = spec_effect(kind);
    Player {
        stats: spec_stats_after(p.stats, d),
        health: fixed::sat_spec(p.health + d.heal) as i64,
        ..p
    }
}

/// A pickup waiting on the floor.
#[derive(Clone, Copy, PartialEq, Eq, Structural, Debug)]
pub struct Pickup {
    pub kind: PickupKind,
    pub position: Vec2,
    /// Stable handle of this pickup.
    pub id: u64,
    /// Set the moment the effect is applied, so the effect can never be
    /// applied twice; the end-of-frame sweep removes the pickup.
    pub consumed: bool,
}

impl Pickup {
    pub open spec fn wf(self) -> bool {
        self.position.in_range()
    }

    /// Apply this pickup's effect to the player, exactly once.
    pub fn apply(&self, player: &mut Player)
        ensures
            *final(player) == spec_apply_pickup(self.kind, *old(player)),
            old(player).wf() ==> final(player).wf(),
    {
        let d = effect(self.kind);
        match d.target {
            StatTarget::Damage => {
                player.stats.damage.apply_multiply(d.multiply_delta);
                player.stats.damage.apply_add(d.add_delta);
            },
            StatTarget::MaxHealth => {
                player.stats.max_health.apply_multiply(d.multiply_delta);
                player.stats.max_health.apply_add(d.add_delta);
            },
            StatTarget::ShotSpeed => {
                player.stats.shot_speed.apply_multiply(d.multiply_delta);
                player.stats.shot_speed.apply_add(d.add_delta);
            },
            StatTarget::FireInterval => {
                player.stats.fire_interval.apply_multiply(d.multiply_delta);
                player.stats.fire_interval.apply_add(d.add_delta);
            },
        }
        player.health = fixed::sat_add(player.health, d.heal);
    }

    /// The tint the renderer draws a pickup of this kind with.
    pub fn get_color(kind: PickupKind) -> (c: Rgba)
        ensures
            c == spec_get_color(kind),
    {
        match kind {
            PickupKind::MaxHealthUp => Rgba { red: 1000, green: 0, blue: 0, alpha: 1000 },
            PickupKind::DamageUp => Rgba { red: 1000, green: 650, blue: 0, alpha: 1000 },
            PickupKind::FireRateUp => Rgba { red: 0, green: 1000, blue: 0, alpha: 1000 },
            PickupKind::ShotSpeedUp => Rgba { red: 200, green: 800, blue: 200, alpha: 1000 },
        }
    }
}

/// A colour, each channel in milli-units of full intensity.
#[derive(Clone, Copy, PartialEq, Eq, Structural, Debug)]
pub struct Rgba {
    pub red: i64,
    pub green: i64,
    pub blue: i64,
    pub alpha: i64,
}

pub open spec fn spec_get_color(kind: PickupKind) -> Rgba {
    match kind {
        PickupKind::MaxHealthUp => Rgba { red: 1000, green: 0, blue: 0, alpha: 1000 },
        PickupKind::DamageUp => Rgba { red: 1000, green: 650, blue: 0, alpha: 1000 },
        PickupKind::FireRateUp => Rgba { red: 0, green: 1000, blue: 0, alpha: 1000 },
        PickupKind::ShotSpeedUp => Rgba { red: 200, green: 800, blue: 200, alpha: 1000 },
    }
}

/// Radius of a pickup's collision circle: a quarter of its drawn size.
pub const PICKUP_RADIUS: i64 = 10_000;

/// Whether an unconsumed pickup is touching the player.
pub open spec fn spec_pickup_hits(p: Pickup, player_pos: Vec2) -> bool {
    !p.consumed && crate::spatial::spec_circles_overlap(
        p.position,
        PICKUP_RADIUS as int,
        player_pos,
        crate::player::PLAYER_RADIUS as int,
    )
}

/// The pickup pass over the first `n` pickups, in order: each unconsumed
/// pickup touching the player applies its effect once and is marked
/// consumed in the same step, so nothing can apply it again.
pub open spec fn spec_pickup_pass(s: Seq<Pickup>, player: Player, n: int) -> (Seq<Pickup>, Player)
    decreases n,
{
    if n <= 0 {
        (s, player)
    } else {
        let prev = spec_pickup_pass(s, player, n - 1);
        if spec_pickup_hits(s[n - 1], player.position) {
            (
                prev.0.update(n - 1, Pickup { consumed: true, ..s[n - 1] }),
                spec_apply_pickup(s[n - 1].kind, prev.1),
            )
        } else {
            prev
        }
    }
}

/// The pickup pass touches each slot independently: a processed slot is
/// consumed exactly when it was hit, an unprocessed slot is untouched,
/// and the player's position never moves.
pub proof fn lemma_pickup_pass_props(s: Seq<Pickup>, player: Player, n: int)
    requires
        0 <= n <= s.len(),
    ensures
        spec_pickup_pass(s, player, n).0.len() == s.len(),
        forall|k: int|
            0 <= k < n ==> #[trigger] spec_pickup_pass(s, player, n).0[k] == (if spec_pickup_hits(
                s[k],
                player.position,
            ) {
                Pickup { consumed: true, ..s[k] }
            } else {
                s[k]
            }),
        forall|k: int| n <= k < s.len() ==> #[trigger] spec_pickup_pass(s, player, n).0[k] == s[k],
        spec_pickup_pass(s, player, n).1.position == player.position,
        spec_pickup_pass(s, player, n).1.id == player.id,
        spec_pickup_pass(s, player, n).1.momentum == player.momentum,
        spec_pickup_pass(s, player, n).1.direction == player.direction,
        spec_pickup_pass(s, player, n).1.score == player.score,
        spec_pickup_pass(s, player, n).1.shot_clock == player.shot_clock,
        player.wf() ==> spec_pickup_pass(s, player, n).1.wf(),
    decreases n,
{
    if n > 0 {
        lemma_pickup_pass_props(s, player, n - 1);
    }
}

/// The pickup system, run once per frame: every unconsumed pickup the
/// player is touching applies its effect exactly once and is consumed in
/// the same step; the end-of-frame sweep then removes it. Nothing else
/// changes.
pub fn tick(game: &mut crate::game::Game)
    requires
        old(game).wf(),
    ensures
        final(game).wf(),
        final(game).pickups@ == spec_pickup_pass(
            old(game).pickups@,
            old(game).player,
            old(game).pickups@.len() as int,
        ).0,
        final(game).player == spec_pickup_pass(
            old(game).pickups@,
            old(game).player,
            old(game).pickups@.len() as int,
        ).1,
        final(game).enemies@ == old(game).enemies@,
        final(game).bullets@ == old(game).bullets@,
        final(game).wave == old(game).wave,
        final(game).kills == old(game).kills,
        final(game).next_id == old(game).next_id,
        final(game).game_over == old(game).game_over,
        final(game).arena == old(game).arena,
        final(game).mouse_world_pos == old(game).mouse_world_pos,
        final(game).mouse_rel_pos == old(game).mouse_rel_pos,
        final(game).window_size == old(game).window_size,
{
    let n = game.pickups.len();
    let ghost orig_p = game.pickups@;
    let ghost orig_player = game.player;
    let mut i: usize = 0;
    while i < n
        invariant
            n == game.pickups@.len(),
            n == orig_p.len(),
            i <= n,
            game.pickups@ == spec_pickup_pass(orig_p, orig_player, i as int).0,
            game.player == spec_pickup_pass(orig_p, orig_player, i as int).1,
            old(game).wf(),
            orig_p == old(game).pickups@,
            orig_player == old(game).player,
            game.enemies@ == old(game).enemies@,
            game.bullets@ == old(game).bullets@,
            game.wave == old(game).wave,
            game.kills == old(game).kills,
            game.next_id == old(game).next_id,
            game.game_over == old(game).game_over,
            game.arena == old(game).arena,
            game.mouse_world_pos == old(game).mouse_world_pos,
            game.mouse_rel_pos == old(game).mouse_rel_pos,
            game.window_size == old(game).window_size,
        decreases n - i,
    {
        proof {
            lemma_pickup_pass_props(orig_p, orig_player, i as int);
        }
        let cur = game.pickups[i];
        let hit = !cur.consumed && crate::spatial::circles_overlap(
            cur.position,
            PICKUP_RADIUS,
            game.player.position,
            crate::player::PLAYER_RADIUS,
        );
        if hit {
            cur.apply(&mut game.player);
            game.pickups.set(i, Pickup { consumed: true, ..cur });
        }
        proof {
            assert(spec_pickup_pass(orig_p, orig_player, i + 1 as int).0 == game.pickups@);
        }
        i = i + 1;
    }
    proof {
        lemma_pickup_pass_props(orig_p, orig_player, n as int);
        let r = spec_pickup_pass(orig_p, orig_player, n as int);
        assert forall|k: int| 0 <= k < game.pickups@.len() implies (
        #[trigger] game.pickups@[k]).wf() by {
            assert(game.pickups@[k] == if spec_pickup_hits(orig_p[k], orig_player.position) {
                Pickup { consumed: true, ..orig_p[k] }
            } else {
                orig_p[k]
            });
        }
        assert forall|k: int| 0 <= k < game.pickups@.len() implies (
        #[trigger] game.pickups@[k]).id == orig_p[k].id by {
            assert(game.pickups@[k] == if spec_pickup_hits(orig_p[k], orig_player.position) {
                Pickup { consumed: true, ..orig_p[k] }
            } else {
                orig_p[k]
            });
        }
    }
}

/// A pickup together with what the renderer needs.
#[derive(Clone, Copy, PartialEq, Eq, Structural, Debug)]
pub struct PickupBundle {
    pub pickup: Pickup,
    pub sprite: PhysicsSpriteBundle,
}

impl PickupBundle {
    /// A pickup of a random kind, at the centre of the arena.
    pub fn new(id: u64) -> (r: PickupBundle)
        ensures
            r.pickup.position == Vec2::spec_zero(),
            r.pickup.id == id,
            r.pickup.consumed == false,
            r.pickup.wf(),
            exists|i: u64| i < KIND_COUNT && r.pickup.kind == spec_kind_from_index(i),
            r.sprite == PhysicsSpriteBundle::spec_new(
                Vec2 { x: PICKUP_SIZE, y: PICKUP_SIZE },
                Vec2::spec_zero(),
            ),
    {
        let drawn = random::gen_range_i64(0, KIND_COUNT as i64);
        let kind = kind_from_index(drawn as u64);
        proof {
            assert((drawn as u64) < KIND_COUNT);
            assert(kind == spec_kind_from_index(drawn as u64));
        }
        let dims = Vec2 { x: PICKUP_SIZE, y: PICKUP_SIZE };
        let pos = Vec2::zero();
        PickupBundle {
            pickup: Pickup { kind, position: pos, id, consumed: false },
            sprite: PhysicsSpriteBundle::new(&dims, &pos),
        }
    }

    /// A pickup of the given kind at the given position.
    pub fn from_kind(pos: Vec2, kind: PickupKind, id: u64) -> (r: PickupBundle)
        ensures
            r.pickup == (Pickup { kind, position: pos, id, consumed: false }),
            r.sprite == PhysicsSpriteBundle::spec_new(Vec2 { x: 40_000, y: 40_000 }, pos),
    {
        let dims = Vec2 { x: 40_000, y: 40_000 };
        PickupBundle {
            pickup: Pickup { kind, position: pos, id, consumed: false },
            sprite: PhysicsSpriteBundle::new(&dims, &pos),
        }
    }
}

} // verus!
