//! Enemies: steered combatants that home in on the player, keep apart from
//! each other, and damage the player on contact at a bounded rate.

use vstd::prelude::*;

use crate::fixed;
use crate::map::{spec_clamp_position, ArenaBounds};
use crate::physics_sprite::Collider;
use crate::player::Player;
use crate::spatial::spec_circles_overlap;
use vstd::pervasive::VecAdditionalExecFns;
use crate::vec2::Vec2;

verus! {

/// Drawn width of an enemy, in milli-units.
pub const ENEMY_WIDTH: i64 = 70_000;

/// Drawn height of an enemy, in milli-units.
pub const ENEMY_HEIGHT: i64 = 90_000;

/// Weight of an enemy's previous heading in the steering blend.
pub const STEER_KEEP: i64 = 25_500;

/// Weight of the random wander term in the steering blend.
pub const STEER_WANDER: i64 = 10_500;

/// Weight of the attraction toward the player in the steering blend.
pub const STEER_SEEK: i64 = 5_250;

/// Distance past which wandering dominates seeking, in milli-units.
pub const AWARENESS_RADIUS: i64 = 700_000;

/// Strength of the separation push between overlapping enemies.
pub const REPULSION_STRENGTH: i64 = 10_000;

/// One enemy.
#[derive(Clone, Copy, PartialEq, Eq, Structural, Debug)]
pub struct Enemy {
    pub position: Vec2,
    pub direction: Vec2,
    pub radius: i64,
    /// Health removed from the player per contact hit, in milli-units.
    pub damage: i64,
    pub health: i64,
    pub max_health: i64,
    /// Least time between two contact hits, in milli-seconds.
    pub hit_interval: i64,
    /// Score awarded when it dies, in plain points.
    pub point_value: i64,
    pub speed: i64,
    /// Time since the last contact hit, in milli-seconds.
    pub hit_timer: i64,
    /// Stable handle of this enemy.
    pub id: u64,
}

impl Enemy {
    pub open spec fn wf(self) -> bool {
        self.position.in_range() && self.direction.in_range() && 0 <= self.radius
            <= fixed::COORD_LIMIT && fixed::in_range(self.damage as int) && fixed::in_range(
            self.health as int,
        ) && fixed::in_range(self.max_health as int) && 0 <= self.hit_interval
            <= fixed::COORD_LIMIT && fixed::in_range(self.point_value as int) && fixed::in_range(
            self.speed as int,
        ) && 0 <= self.hit_timer <= fixed::COORD_LIMIT
    }

    /// Whether the renderer should mirror the sprite: the enemy walks left.
    pub fn facing_flipped(&self) -> (r: bool)
        ensures
            r == (self.direction.x < 0),
    {
        self.direction.x < 0
    }
}

/// An enemy together with what the renderer needs. The enemy's `radius`
/// is the circle standing in for the drawn capsule: the capsule's own
/// radius, a quarter of the drawn width.
#[derive(Clone, Copy, PartialEq, Eq, Structural, Debug)]
pub struct EnemyBundle {
    pub enemy: Enemy,
    pub collider: Collider,
    pub sprite_dims: Vec2,
}

impl EnemyBundle {
    pub open spec fn spec_new(pos: Vec2, id: u64) -> EnemyBundle {
        EnemyBundle {
            enemy: Enemy {
                position: pos,
                direction: Vec2 { x: 1000, y: 0 },
                radius: 17_500,
                damage: 10_000,
                point_value: 100,
                health: 100_000,
                max_health: 100_000,
                hit_interval: 300,
                speed: 5_000,
                hit_timer: 0,
                id,
            },
            collider: Collider::CapsuleY {
                half_height: 18_000,
                radius: 17_500,
            },
            sprite_dims: Vec2 { x: ENEMY_WIDTH, y: ENEMY_HEIGHT },
        }
    }

    /// A fresh enemy with the default combat values, at `pos`.
    pub fn new(pos: Vec2, id: u64) -> (r: EnemyBundle)
        ensures
            r == EnemyBundle::spec_new(pos, id),
            pos.in_range() ==> r.enemy.wf(),
    {
        EnemyBundle {
            enemy: Enemy {
                position: pos,
                direction: Vec2 { x: 1000, y: 0 },
                radius: 17_500,
                damage: 10_000,
                point_value: 100,
                health: 100_000,
                max_health: 100_000,
                hit_interval: 300,
                speed: 5_000,
                hit_timer: 0,
                id,
            },
            collider: Collider::CapsuleY {
                half_height: 18_000,
                radius: 17_500,
            },
            sprite_dims: Vec2 { x: ENEMY_WIDTH, y: ENEMY_HEIGHT },
        }
    }
}

/// The steering blend: keep some of the old heading, wander more when far
/// from the player, seek the player more when near, and move away from
/// overlapping neighbours; then normalize.
pub open spec fn spec_steer(
    old_dir: Vec2,
    enemy_pos: Vec2,
    player_pos: Vec2,
    rand_unit: Vec2,
    repulsion: Vec2,
) -> Vec2 {
    let delta = player_pos.spec_sub_sat(enemy_pos);
    let player_dir = delta.spec_normalize_or_zero();
    let dist = delta.spec_length();
    let t = fixed::div_trunc(dist * (fixed::SCALE as int), AWARENESS_RADIUS as int);
    let keep = old_dir.spec_scale_milli(STEER_KEEP as int);
    let wander = rand_unit.spec_scale_milli(STEER_WANDER as int).spec_scale_milli(t);
    let seek = player_dir.spec_scale_milli(STEER_SEEK as int).spec_scale_milli(
        fixed::sat_spec((fixed::SCALE as int) - t),
    );
    keep.spec_add_sat(wander).spec_add_sat(seek).spec_add_sat(repulsion).spec_normalize_or_zero()
}

/// The steering blend (see `spec_steer`).
pub fn steer(
    old_dir: Vec2,
    enemy_pos: Vec2,
    player_pos: Vec2,
    rand_unit: Vec2,
    repulsion: Vec2,
) -> (d: Vec2)
    requires
        old_dir.in_range(),
        enemy_pos.in_range(),
        player_pos.in_range(),
        rand_unit.in_range(),
        repulsion.in_range(),
    ensures
        d == spec_steer(old_dir, enemy_pos, player_pos, rand_unit, repulsion),
        d.unit_box(),
{
    let delta = player_pos.sub_sat(enemy_pos);
    let player_dir = delta.normalize_or_zero();
    let dist = delta.length();
    proof {
        delta.lemma_len_bounds();
    }
    let num: i128 = (dist as i128) * (fixed::SCALE as i128);
    let t_wide = fixed::div_trunc_i128(num, AWARENESS_RADIUS as i128);
    proof {
        fixed::lemma_div_trunc_bound(num as int, AWARENESS_RADIUS as int);
    }
    let t = fixed::sat_narrow(t_wide);
    proof {
        assert(t as int == fixed::div_trunc(num as int, AWARENESS_RADIUS as int));
    }
    let keep = old_dir.scale_milli(STEER_KEEP);
    let wander = rand_unit.scale_milli(STEER_WANDER).scale_milli(t);
    let seek = player_dir.scale_milli(STEER_SEEK).scale_milli(fixed::sat_sub(fixed::SCALE, t));
    keep.add_sat(wander).add_sat(seek).add_sat(repulsion).normalize_or_zero()
}

/// One enemy's frame, given the separation push and the wander draw it
/// uses: a dead enemy does not act (the end-of-frame sweep removes it);
/// a live one steers, moves by `direction * speed` clamped into the
/// arena, and — once its hit cooldown has run past its hit interval and
/// its collider touches the player — lands one contact hit and resets the
/// cooldown. The second component is the damage dealt to the player.
pub open spec fn spec_enemy_step(
    e: Enemy,
    repulsion: Vec2,
    rand_unit: Vec2,
    player_pos: Vec2,
    dt: int,
    bounds: ArenaBounds,
) -> (Enemy, int) {
    if e.health <= 0 {
        (e, 0)
    } else {
        let dir = spec_steer(e.direction, e.position, player_pos, rand_unit, repulsion);
        let pos = spec_clamp_position(
            bounds,
            e.position.spec_add_sat(dir.spec_scale_milli(e.speed as int)),
        );
        let timer = fixed::sat_spec(e.hit_timer + dt);
        if timer > e.hit_interval && spec_circles_overlap(
            pos,
            e.radius as int,
            player_pos,
            crate::player::PLAYER_RADIUS as int,
        ) {
            (Enemy { direction: dir, position: pos, hit_timer: 0, ..e }, e.damage as int)
        } else {
            (Enemy { direction: dir, position: pos, hit_timer: timer as i64, ..e }, 0)
        }
    }
}

/// One enemy's frame (see `spec_enemy_step`).
pub fn enemy_step(
    e: Enemy,
    repulsion: Vec2,
    rand_unit: Vec2,
    player_pos: Vec2,
    dt: i64,
    bounds: &ArenaBounds,
) -> (r: (Enemy, i64))
    requires
        e.wf(),
        repulsion.in_range(),
        rand_unit.in_range(),
        player_pos.in_range(),
        0 <= dt,
        bounds.wf(),
    ensures
        r.0 == spec_enemy_step(e, repulsion, rand_unit, player_pos, dt as int, *bounds).0,
        r.1 as int == spec_enemy_step(e, repulsion, rand_unit, player_pos, dt as int, *bounds).1,
        r.0.wf(),
        fixed::in_range(r.1 as int),
{
    if e.health <= 0 {
        return (e, 0);
    }
    let dir = steer(e.direction, e.position, player_pos, rand_unit, repulsion);
    let pos = crate::map::clamp_position(bounds, &e.position.add_sat(dir.scale_milli(e.speed)));
    let timer = fixed::sat_add(e.hit_timer, dt);
    if timer > e.hit_interval && crate::spatial::circles_overlap(
        pos,
        e.radius,
        player_pos,
        crate::player::PLAYER_RADIUS,
    ) {
        (Enemy { direction: dir, position: pos, hit_timer: 0, ..e }, e.damage)
    } else {
        (Enemy { direction: dir, position: pos, hit_timer: timer, ..e }, 0)
    }
}

/// The mutating enemy pass over the first `n` enemies, in order, given
/// each enemy's separation push and wander draw. The player's position is
/// read once for the whole pass — only health changes, one saturated
/// subtraction per landed contact hit.
pub open spec fn spec_enemy_pass(
    s: Seq<Enemy>,
    reps: Seq<Vec2>,
    rands: Seq<Vec2>,
    player_pos: Vec2,
    health: int,
    dt: int,
    bounds: ArenaBounds,
    n: int,
) -> (Seq<Enemy>, int)
    decreases n,
{
    if n <= 0 {
        (s, health)
    } else {
        let prev = spec_enemy_pass(s, reps, rands, player_pos, health, dt, bounds, n - 1);
        let step = spec_enemy_step(s[n - 1], reps[n - 1], rands[n - 1], player_pos, dt, bounds);
        (
            prev.0.update(n - 1, step.0),
            if step.1 == 0 {
                prev.1
            } else {
                fixed::sat_spec(prev.1 - step.1)
            },
        )
    }
}

/// The enemy pass touches each slot independently, leaves unprocessed
/// slots alone, and keeps the player's health storable.
pub proof fn lemma_enemy_pass_props(
    s: Seq<Enemy>,
    reps: Seq<Vec2>,
    rands: Seq<Vec2>,
    player_pos: Vec2,
    health: int,
    dt: int,
    bounds: ArenaBounds,
    n: int,
)
    requires
        0 <= n <= s.len(),
        fixed::in_range(health),
    ensures
        spec_enemy_pass(s, reps, rands, player_pos, health, dt, bounds, n).0.len() == s.len(),
        forall|k: int|
            0 <= k < n ==> #[trigger] spec_enemy_pass(
                s,
                reps,
                rands,
                player_pos,
                health,
                dt,
                bounds,
                n,
            ).0[k] == spec_enemy_step(s[k], reps[k], rands[k], player_pos, dt, bounds).0,
        forall|k: int|
            n <= k < s.len() ==> #[trigger] spec_enemy_pass(
                s,
                reps,
                rands,
                player_pos,
                health,
                dt,
                bounds,
                n,
            ).0[k] == s[k],
        fixed::in_range(spec_enemy_pass(s, reps, rands, player_pos, health, dt, bounds, n).1),
    decreases n,
{
    if n > 0 {
        lemma_enemy_pass_props(s, reps, rands, player_pos, health, dt, bounds, n - 1);
    }
}

/// The separation push on enemy `i` from the first `n` enemies: for each
/// other enemy whose collider overlaps, a fixed-strength step away from it.
pub open spec fn spec_repulsion_prefix(enemies: Seq<Enemy>, i: int, n: int) -> Vec2
    decreases n,
{
    if n <= 0 {
        Vec2::spec_zero()
    } else {
        let prev = spec_repulsion_prefix(enemies, i, n - 1);
        let j = n - 1;
        if j != i && spec_circles_overlap(
            enemies[i].position,
            enemies[i].radius as int,
            enemies[j].position,
            enemies[j].radius as int,
        ) {
            prev.spec_add_sat(
                enemies[i].position.spec_sub_sat(
                    enemies[j].position,
                ).spec_normalize_or_zero().spec_scale_milli(REPULSION_STRENGTH as int),
            )
        } else {
            prev
        }
    }
}

/// The separation push on enemy `i` from all its neighbours.
pub open spec fn spec_repulsion(enemies: Seq<Enemy>, i: int) -> Vec2 {
    spec_repulsion_prefix(enemies, i, enemies.len() as int)
}

/// First pass of the enemy system: the separation push for every enemy,
/// computed before any enemy moves, so the forces of one frame do not
/// depend on the order enemies are visited in.
pub fn compute_repulsions(enemies: &Vec<Enemy>) -> (r: Vec<Vec2>)
    requires
        forall|k: int| 0 <= k < enemies@.len() ==> (#[trigger] enemies@[k]).wf(),
    ensures
        r@.len() == enemies@.len(),
        forall|k: int|
            0 <= k < enemies@.len() ==> #[trigger] r@[k] == spec_repulsion(enemies@, k),
        forall|k: int| 0 <= k < enemies@.len() ==> (#[trigger] r@[k]).in_range(),
{
    let n = enemies.len();
    let mut r: Vec<Vec2> = Vec::new();
    let mut i: usize = 0;
    while i < n
        invariant
            n == enemies@.len(),
            i <= n,
            r@.len() == i,
            forall|k: int| 0 <= k < enemies@.len() ==> (#[trigger] enemies@[k]).wf(),
            forall|k: int| 0 <= k < i ==> #[trigger] r@[k] == spec_repulsion(enemies@, k),
            forall|k: int| 0 <= k < i ==> (#[trigger] r@[k]).in_range(),
        decreases n - i,
    {
        let mut push = Vec2::zero();
        let mut j: usize = 0;
        while j < n
            invariant
                n == enemies@.len(),
                i < n,
                j <= n,
                forall|k: int| 0 <= k < enemies@.len() ==> (#[trigger] enemies@[k]).wf(),
                push == spec_repulsion_prefix(enemies@, i as int, j as int),
                push.in_range(),
            decreases n - j,
        {
            if j != i && crate::spatial::circles_overlap(
                enemies[i].position,
                enemies[i].radius,
                enemies[j].position,
                enemies[j].radius,
            ) {
                let away = enemies[i].position.sub_sat(enemies[j].position).normalize_or_zero();
                push = push.add_sat(away.scale_milli(REPULSION_STRENGTH));
            }
            j = j + 1;
        }
        r.push(push);
        i = i + 1;
    }
    r
}

/// The enemy system, run once per frame, in the required two passes:
/// first every separation push is computed against unmoved neighbour
/// positions, then each enemy takes its frame in order. Each live enemy's
/// wander draw is random, so the result is stated for the drawn sequence:
/// some sequence of unit-square draws explains the final state, and
/// everything else about the frame is exact in it.
pub fn tick(game: &mut crate::game::Game, dt: i64)
    requires
        old(game).wf(),
        0 <= dt,
    ensures
        final(game).wf(),
        exists|rands: Seq<Vec2>|
            #![trigger rands.len()]
            {
                &&& rands.len() == old(game).enemies@.len()
                &&& (forall|k: int| 0 <= k < rands.len() ==> (#[trigger] rands[k]).unit_box())
                &&& final(game).enemies@ == spec_enemy_pass(
                    old(game).enemies@,
                    Seq::new(old(game).enemies@.len(), |i: int| spec_repulsion(old(game).enemies@, i)),
                    rands,
                    old(game).player.position,
                    old(game).player.health as int,
                    dt as int,
                    old(game).arena,
                    old(game).enemies@.len() as int,
                ).0
                &&& final(game).player.health as int == spec_enemy_pass(
                    old(game).enemies@,
                    Seq::new(old(game).enemies@.len(), |i: int| spec_repulsion(old(game).enemies@, i)),
                    rands,
                    old(game).player.position,
                    old(game).player.health as int,
                    dt as int,
                    old(game).arena,
                    old(game).enemies@.len() as int,
                ).1
            },
        final(game).player == (Player {
            health: final(game).player.health,
            ..old(game).player
        }),
        final(game).bullets@ == old(game).bullets@,
        final(game).pickups@ == old(game).pickups@,
        final(game).wave == old(game).wave,
        final(game).kills == old(game).kills,
        final(game).next_id == old(game).next_id,
        final(game).game_over == old(game).game_over,
        final(game).arena == old(game).arena,
        final(game).mouse_world_pos == old(game).mouse_world_pos,
        final(game).mouse_rel_pos == old(game).mouse_rel_pos,
        final(game).window_size == old(game).window_size,
{
    let reps = compute_repulsions(&game.enemies);
    let ghost repspec = Seq::new(
        old(game).enemies@.len(),
        |i: int| spec_repulsion(old(game).enemies@, i),
    );
    proof {
        assert(reps@ =~= repspec);
    }
    let ghost orig = game.enemies@;
    let ghost orig_player = game.player;
    let ghost mut rands: Seq<Vec2> = Seq::empty();
    let n = game.enemies.len();
    let player_pos = game.player.position;
    let bounds = game.arena;
    let mut i: usize = 0;
    while i < n
        invariant
            n == game.enemies@.len(),
            n == orig.len(),
            n == reps@.len(),
            i <= n,
            0 <= dt,
            rands.len() == i,
            forall|k: int| 0 <= k < rands.len() ==> (#[trigger] rands[k]).unit_box(),
            forall|k: int| 0 <= k < n ==> #[trigger] reps@[k] == repspec[k],
            forall|k: int| 0 <= k < n ==> (#[trigger] reps@[k]).in_range(),
            repspec.len() == n,
            game.enemies@ == spec_enemy_pass(
                orig,
                repspec,
                rands,
                player_pos,
                orig_player.health as int,
                dt as int,
                bounds,
                i as int,
            ).0,
            game.player.health as int == spec_enemy_pass(
                orig,
                repspec,
                rands,
                player_pos,
                orig_player.health as int,
                dt as int,
                bounds,
                i as int,
            ).1,
            game.player == (Player { health: game.player.health, ..orig_player }),
            player_pos == orig_player.position,
            bounds == old(game).arena,
            orig == old(game).enemies@,
            orig_player == old(game).player,
            old(game).wf(),
            forall|k: int| 0 <= k < n ==> (#[trigger] game.enemies@[k]).wf(),
            forall|k: int| 0 <= k < n ==> (#[trigger] game.enemies@[k]).id == orig[k].id,
            game.arena == old(game).arena,
            game.bullets@ == old(game).bullets@,
            game.pickups@ == old(game).pickups@,
            game.wave == old(game).wave,
            game.kills == old(game).kills,
            game.next_id == old(game).next_id,
            game.game_over == old(game).game_over,
            game.mouse_world_pos == old(game).mouse_world_pos,
            game.mouse_rel_pos == old(game).mouse_rel_pos,
            game.window_size == old(game).window_size,
        decreases n - i,
    {
        proof {
            lemma_enemy_pass_props(
                orig,
                repspec,
                rands,
                player_pos,
                orig_player.health as int,
                dt as int,
                bounds,
                i as int,
            );
        }
        let e = game.enemies[i];
        let ghost prev_rands = rands;
        let rv = if e.health <= 0 {
            Vec2 { x: 1000, y: 0 }
        } else {
            crate::random::rand_norm_vec2()
        };
        proof {
            rands = rands.push(rv);
            lemma_enemy_pass_rands_prefix(
                orig,
                repspec,
                prev_rands,
                rands,
                player_pos,
                orig_player.health as int,
                dt as int,
                bounds,
                i as int,
            );
        }
        let step = enemy_step(e, reps[i], rv, player_pos, dt, &bounds);
        game.enemies.set(i, step.0);
        if step.1 != 0 {
            game.player.health = fixed::sat_sub(game.player.health, step.1);
        }
        i = i + 1;
    }
    proof {
        lemma_enemy_pass_props(
            orig,
            repspec,
            rands,
            player_pos,
            orig_player.health as int,
            dt as int,
            bounds,
            n as int,
        );
        let r = spec_enemy_pass(
            orig,
            repspec,
            rands,
            player_pos,
            orig_player.health as int,
            dt as int,
            bounds,
            n as int,
        );
        assert(rands.len() == old(game).enemies@.len() && (forall|k: int|
            0 <= k < rands.len() ==> (#[trigger] rands[k]).unit_box()) && game.enemies@ == r.0
            && game.player.health as int == r.1);
        assert(fixed::in_range(game.player.health as int));
        assert(game.player.wf());
    }
}

/// The enemy pass reads only the first `n` wander draws: extending the
/// draw sequence does not change it.
pub proof fn lemma_enemy_pass_rands_prefix(
    s: Seq<Enemy>,
    reps: Seq<Vec2>,
    rands1: Seq<Vec2>,
    rands2: Seq<Vec2>,
    player_pos: Vec2,
    health: int,
    dt: int,
    bounds: ArenaBounds,
    n: int,
)
    requires
        0 <= n <= rands1.len(),
        rands1.len() <= rands2.len(),
        forall|k: int| 0 <= k < rands1.len() ==> rands1[k] == rands2[k],
    ensures
        spec_enemy_pass(s, reps, rands1, player_pos, health, dt, bounds, n) == spec_enemy_pass(
            s,
            reps,
            rands2,
            player_pos,
            health,
            dt,
            bounds,
            n,
        ),
    decreases n,
{
    if n > 0 {
        lemma_enemy_pass_rands_prefix(
            s,
            reps,
            rands1,
            rands2,
            player_pos,
            health,
            dt,
            bounds,
            n - 1,
        );
    }
}

} // verus!
