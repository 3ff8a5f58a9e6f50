//! The simulation context: the player, every live entity, the wave and
//! kill counters, and the handle allocator. Each per-frame system takes it
//! by reference; there is no ambient global state.

use vstd::prelude::*;
use vstd::pervasive::VecAdditionalExecFns;

use crate::bullet::Bullet;
use crate::fixed;
use crate::enemy::Enemy;
use crate::map::ArenaBounds;
use crate::pickup::Pickup;
use crate::player::Player;
use crate::vec2::Vec2;

verus! {

/// The whole simulation state.
#[derive(Clone, Debug)]
pub struct Game {
    pub player: Player,
    /// The rectangle positions are clamped into.
    pub arena: ArenaBounds,
    pub enemies: Vec<Enemy>,
    pub bullets: Vec<Bullet>,
    pub pickups: Vec<Pickup>,
    /// How many waves have been dispatched.
    pub wave: u64,
    /// How many enemies have died, saturated at the storable bound.
    pub kills: i64,
    /// The next unused entity handle.
    pub next_id: u64,
    /// Set once, when the player's health first reaches zero; the
    /// simulation then stands still until `reset`.
    pub game_over: bool,
    /// Where the cursor last pointed, in world coordinates.
    pub mouse_world_pos: Vec2,
    /// Where the cursor last pointed, as a fraction of the window.
    pub mouse_rel_pos: Vec2,
    /// The window's size in milli-pixels, as last reported.
    pub window_size: Vec2,
}

impl Game {
    /// Every enemy handle is unused-from `next_id`, and no two enemies
    /// share a handle.
    pub open spec fn enemy_ids_ok(self) -> bool {
        (forall|i: int|
            0 <= i < self.enemies@.len() ==> (#[trigger] self.enemies@[i]).id < self.next_id)
            && (forall|i: int, j: int|
            0 <= i < j < self.enemies@.len() ==> self.enemies@[i].id != self.enemies@[j].id)
    }

    pub open spec fn bullet_ids_ok(self) -> bool {
        (forall|i: int|
            0 <= i < self.bullets@.len() ==> (#[trigger] self.bullets@[i]).id < self.next_id)
            && (forall|i: int, j: int|
            0 <= i < j < self.bullets@.len() ==> self.bullets@[i].id != self.bullets@[j].id)
    }

    pub open spec fn pickup_ids_ok(self) -> bool {
        (forall|i: int|
            0 <= i < self.pickups@.len() ==> (#[trigger] self.pickups@[i]).id < self.next_id)
            && (forall|i: int, j: int|
            0 <= i < j < self.pickups@.len() ==> self.pickups@[i].id != self.pickups@[j].id)
    }

    /// The whole-state invariant: every record is well formed and every
    /// handle is unique.
    pub open spec fn wf(self) -> bool {
        self.player.wf() && self.arena.wf() && crate::fixed::in_range(self.kills as int) && (forall|i: int|
            0 <= i < self.enemies@.len() ==> (#[trigger] self.enemies@[i]).wf()) && (forall|i: int|
            0 <= i < self.bullets@.len() ==> (#[trigger] self.bullets@[i]).wf()) && (forall|i: int|
            0 <= i < self.pickups@.len() ==> (#[trigger] self.pickups@[i]).wf())
            && self.enemy_ids_ok() && self.bullet_ids_ok() && self.pickup_ids_ok()
    }

    /// A fresh session: a default player holding handle zero, an empty
    /// arena with the stock bounds, counters at zero.
    pub fn new() -> (r: Game)
        ensures
            r.player == (Player { id: Some(0u64), ..Player::spec_default() }),
            r.arena == ArenaBounds::spec_standard(),
            r.enemies@ =~= Seq::<Enemy>::empty(),
            r.bullets@ =~= Seq::<Bullet>::empty(),
            r.pickups@ =~= Seq::<Pickup>::empty(),
            r.wave == 0,
            r.kills == 0,
            r.next_id == 1,
            r.game_over == false,
            r.wf(),
    {
        let mut player = Player::default();
        player.id = Some(0);
        Game {
            player,
            arena: ArenaBounds::standard(),
            enemies: Vec::new(),
            bullets: Vec::new(),
            pickups: Vec::new(),
            wave: 0,
            kills: 0,
            next_id: 1,
            game_over: false,
            mouse_world_pos: Vec2::zero(),
            mouse_rel_pos: Vec2::zero(),
            window_size: Vec2::zero(),
        }
    }

    /// Return to the start of a session: every enemy, bullet and pickup is
    /// cleared, the player returns to the default state while keeping its
    /// handle, and the wave and kill counters return to zero.
    pub fn reset(&mut self)
        ensures
            final(self).player == (Player { id: old(self).player.id, ..Player::spec_default() }),
            final(self).enemies@ =~= Seq::<Enemy>::empty(),
            final(self).bullets@ =~= Seq::<Bullet>::empty(),
            final(self).pickups@ =~= Seq::<Pickup>::empty(),
            final(self).wave == 0,
            final(self).kills == 0,
            final(self).game_over == false,
            final(self).arena == old(self).arena,
            final(self).next_id == old(self).next_id,
            final(self).mouse_world_pos == old(self).mouse_world_pos,
            final(self).mouse_rel_pos == old(self).mouse_rel_pos,
            final(self).window_size == old(self).window_size,
            old(self).arena.wf() ==> final(self).wf(),
    {
        let id = self.player.id;
        self.player = Player::default();
        self.player.id = id;
        self.enemies = Vec::new();
        self.bullets = Vec::new();
        self.pickups = Vec::new();
        self.wave = 0;
        self.kills = 0;
        self.game_over = false;
    }
}

/// The mathematical image of the whole simulation state: the same record
/// with the bullets as a sequence of bullet models.
#[verifier::ext_equal]
pub ghost struct GameModel {
    pub player: Player,
    pub arena: ArenaBounds,
    pub enemies: Seq<Enemy>,
    pub bullets: Seq<crate::bullet::BulletModel>,
    pub pickups: Seq<Pickup>,
    pub wave: u64,
    pub kills: i64,
    pub next_id: u64,
    pub game_over: bool,
    pub mouse_world_pos: Vec2,
    pub mouse_rel_pos: Vec2,
    pub window_size: Vec2,
}

impl View for Game {
    type V = GameModel;

    open spec fn view(&self) -> GameModel {
        GameModel {
            player: self.player,
            arena: self.arena,
            enemies: self.enemies@,
            bullets: self.bullets@.map_values(|b: Bullet| b@),
            pickups: self.pickups@,
            wave: self.wave,
            kills: self.kills,
            next_id: self.next_id,
            game_over: self.game_over,
            mouse_world_pos: self.mouse_world_pos,
            mouse_rel_pos: self.mouse_rel_pos,
            window_size: self.window_size,
        }
    }
}

/// The wave director's dispatch on the model, given the chance it
/// consumes: the kind index of an item wave and the landing positions of
/// an enemy wave. While anything is alive nothing happens at all.
#[verifier::opaque]
pub open spec fn spec_spawn_waves_model(
    g: GameModel,
    kind_draw: u64,
    positions: Seq<Vec2>,
) -> GameModel {
    if g.enemies.len() > 0 || g.pickups.len() > 0 {
        g
    } else if g.wave % 2 == 0 {
        GameModel {
            pickups: g.pickups.push(
                Pickup {
                    kind: crate::pickup::spec_kind_from_index(kind_draw),
                    position: Vec2::spec_zero(),
                    id: g.next_id,
                    consumed: false,
                },
            ),
            next_id: (g.next_id + 1) as u64,
            wave: (g.wave + 1) as u64,
            ..g
        }
    } else {
        GameModel {
            enemies: Seq::new(
                (g.wave + 5) as nat,
                |k: int| crate::enemy::EnemyBundle::spec_new(
                    positions[k],
                    (g.next_id + k) as u64,
                ).enemy,
            ),
            next_id: (g.next_id + g.wave + 5) as u64,
            wave: (g.wave + 1) as u64,
            ..g
        }
    }
}

/// The player's frame on the model: the fire clock advances, the aim
/// turns the facing, movement integrates, and when the fire button is
/// held with the clock past the effective interval a fresh bullet joins
/// the registry and the clock resets.
#[verifier::opaque]
pub open spec fn spec_player_step_model(
    g: GameModel,
    dt: int,
    input: crate::player::InputState,
    aim: Option<Vec2>,
) -> GameModel {
    let clock = fixed::sat_spec(g.player.shot_clock + dt);
    let dir = crate::player::spec_aimed_direction(g.player, aim);
    let idir = input.move_dir.spec_normalize_or_zero();
    let p1 = Player { shot_clock: clock as i64, direction: dir, ..g.player };
    let p2 = p1.spec_integrate(idir, dt, g.arena);
    let interval = crate::player::spec_effective_fire_interval(g.player.stats, input.rapid);
    let fires = input.fire && clock >= interval;
    GameModel {
        player: Player {
            shot_clock: if fires {
                0i64
            } else {
                clock as i64
            },
            ..p2
        },
        bullets: if fires {
            g.bullets.push(crate::player::spec_spawned_bullet_model(p2, g.next_id))
        } else {
            g.bullets
        },
        next_id: if fires {
            (g.next_id + 1) as u64
        } else {
            g.next_id
        },
        mouse_world_pos: match aim {
            Option::Some(w) => w,
            Option::None => g.mouse_world_pos,
        },
        ..g
    }
}

/// The bullet models of the first `n` that are not spent, in order.
pub open spec fn spec_live_bullet_models(
    s: Seq<crate::bullet::BulletModel>,
    n: int,
) -> Seq<crate::bullet::BulletModel>
    decreases n,
{
    if n <= 0 {
        Seq::empty()
    } else {
        let prev = spec_live_bullet_models(s, n - 1);
        if !s[n - 1].spent {
            prev.push(s[n - 1])
        } else {
            prev
        }
    }
}

/// Filtering the spent bullets commutes with taking the bullets' models.
proof fn lemma_live_bullets_view(s: Seq<Bullet>, n: int)
    requires
        0 <= n <= s.len(),
    ensures
        spec_live_bullets(s, n).map_values(|b: Bullet| b@) == spec_live_bullet_models(
            s.map_values(|b: Bullet| b@),
            n,
        ),
    decreases n,
{
    if n > 0 {
        lemma_live_bullets_view(s, n - 1);
        if !s[n - 1].spent {
            assert(spec_live_bullets(s, n).map_values(|b: Bullet| b@) =~= spec_live_bullets(
                s,
                n - 1,
            ).map_values(|b: Bullet| b@).push(s[n - 1]@));
        }
    }
}

/// One live frame as a relation between the state models before and
/// after, given the chance the frame consumed: the item-kind draw and the
/// landing positions of a dispatch, and each enemy's wander draw. The
/// frame is the composition, in order, of the wave dispatch, the player's
/// step, the flight pass over the bullets that existed before the step
/// (the fresh bullet sits the pass out), the enemy pass against
/// separation pushes taken before anything moved, the pickup pass, and
/// the live-entity sweep.
#[verifier::opaque]
pub open spec fn spec_frame_rel(
    g0: GameModel,
    gf: GameModel,
    dt: int,
    input: crate::player::InputState,
    aim: Option<Vec2>,
    kind_draw: u64,
    positions: Seq<Vec2>,
    wander_draws: Seq<Vec2>,
) -> bool {
    let g1 = spec_spawn_waves_model(g0, kind_draw, positions);
    let g2 = spec_player_step_model(g1, dt, input, aim);
    let fired = g2.bullets.len() > g1.bullets.len();
    let fp = crate::bullet::spec_bullet_pass(
        g1.bullets,
        g2.enemies,
        g2.kills as int,
        g2.player.score as int,
        dt,
        g1.bullets.len() as int,
    );
    let g3 = GameModel {
        bullets: if fired {
            fp.0.push(g2.bullets.last())
        } else {
            fp.0
        },
        enemies: fp.1,
        kills: fp.2 as i64,
        player: Player { score: fp.3 as i64, ..g2.player },
        ..g2
    };
    let reps = Seq::new(g3.enemies.len(), |i: int| crate::enemy::spec_repulsion(g3.enemies, i));
    let ep = crate::enemy::spec_enemy_pass(
        g3.enemies,
        reps,
        wander_draws,
        g3.player.position,
        g3.player.health as int,
        dt,
        g3.arena,
        g3.enemies.len() as int,
    );
    let g4 = GameModel { enemies: ep.0, player: Player { health: ep.1 as i64, ..g3.player }, ..g3 };
    let pp = crate::pickup::spec_pickup_pass(g4.pickups, g4.player, g4.pickups.len() as int);
    let g5 = GameModel { pickups: pp.0, player: pp.1, ..g4 };
    &&& kind_draw < crate::pickup::KIND_COUNT
    &&& positions.len() == g0.wave + 5
    &&& (forall|k: int|
        0 <= k < positions.len() ==> -600_000 <= (#[trigger] positions[k]).x <= 600_000
            && -400_000 <= positions[k].y <= 400_000)
    &&& wander_draws.len() == g3.enemies.len()
    &&& (forall|k: int| 0 <= k < wander_draws.len() ==> (#[trigger] wander_draws[k]).unit_box())
    &&& gf == GameModel {
        enemies: spec_live_enemies(g5.enemies, g5.enemies.len() as int),
        bullets: spec_live_bullet_models(g5.bullets, g5.bullets.len() as int),
        pickups: spec_live_pickups(g5.pickups, g5.pickups.len() as int),
        ..g5
    }
}

/// The enemies of the first `n` that are still alive, in order.
pub open spec fn spec_live_enemies(s: Seq<Enemy>, n: int) -> Seq<Enemy>
    decreases n,
{
    if n <= 0 {
        Seq::empty()
    } else {
        let prev = spec_live_enemies(s, n - 1);
        if s[n - 1].health > 0 {
            prev.push(s[n - 1])
        } else {
            prev
        }
    }
}

/// The bullets of the first `n` that are not spent, in order.
pub open spec fn spec_live_bullets(s: Seq<Bullet>, n: int) -> Seq<Bullet>
    decreases n,
{
    if n <= 0 {
        Seq::empty()
    } else {
        let prev = spec_live_bullets(s, n - 1);
        if !s[n - 1].spent {
            prev.push(s[n - 1])
        } else {
            prev
        }
    }
}

/// The pickups of the first `n` not yet consumed, in order.
pub open spec fn spec_live_pickups(s: Seq<Pickup>, n: int) -> Seq<Pickup>
    decreases n,
{
    if n <= 0 {
        Seq::empty()
    } else {
        let prev = spec_live_pickups(s, n - 1);
        if !s[n - 1].consumed {
            prev.push(s[n - 1])
        } else {
            prev
        }
    }
}

/// Every kept enemy is one of the originals, and uniqueness of handles
/// carries over.
pub proof fn lemma_live_enemies_props(s: Seq<Enemy>, n: int)
    requires
        0 <= n <= s.len(),
    ensures
        spec_live_enemies(s, n).len() <= n,
        forall|k: int|
            0 <= k < spec_live_enemies(s, n).len() ==> (#[trigger] spec_live_enemies(s, n)[k]).health > 0,
        forall|k: int|
            0 <= k < spec_live_enemies(s, n).len() ==> exists|j: int|
                0 <= j < n && #[trigger] spec_live_enemies(s, n)[k] == s[j],
        (forall|i: int, j: int| 0 <= i < j < n ==> s[i].id != s[j].id) ==> (forall|i: int, j: int|
            0 <= i < j < spec_live_enemies(s, n).len() ==> spec_live_enemies(s, n)[i].id
                != spec_live_enemies(s, n)[j].id),
    decreases n,
{
    if n > 0 {
        lemma_live_enemies_props(s, n - 1);
        let prev = spec_live_enemies(s, n - 1);
        let cur = spec_live_enemies(s, n);
        assert forall|k: int| 0 <= k < cur.len() implies exists|j: int|
            0 <= j < n && #[trigger] cur[k] == s[j] by {
            if k < prev.len() {
                assert(cur[k] == prev[k]);
                let j = choose|j: int| 0 <= j < n - 1 && prev[k] == s[j];
                assert(0 <= j < n && cur[k] == s[j]);
            } else {
                assert(cur[k] == s[n - 1]);
            }
        }
        if forall|i: int, j: int| 0 <= i < j < n ==> s[i].id != s[j].id {
            assert forall|i: int, j: int| 0 <= i < j < cur.len() implies cur[i].id != cur[j].id by {
                if j < prev.len() {
                    assert(cur[i] == prev[i] && cur[j] == prev[j]);
                } else {
                    assert(cur[j] == s[n - 1]);
                    assert(cur[i] == prev[i]);
                    let m = choose|m: int| 0 <= m < n - 1 && prev[i] == s[m];
                    assert(s[m].id != s[n - 1].id);
                }
            }
        }
    }
}

/// Every kept bullet is one of the originals, and uniqueness of handles
/// carries over.
pub proof fn lemma_live_bullets_props(s: Seq<Bullet>, n: int)
    requires
        0 <= n <= s.len(),
    ensures
        spec_live_bullets(s, n).len() <= n,
        forall|k: int|
            0 <= k < spec_live_bullets(s, n).len() ==> !(#[trigger] spec_live_bullets(s, n)[k]).spent,
        forall|k: int|
            0 <= k < spec_live_bullets(s, n).len() ==> exists|j: int|
                0 <= j < n && #[trigger] spec_live_bullets(s, n)[k] == s[j],
        (forall|i: int, j: int| 0 <= i < j < n ==> s[i].id != s[j].id) ==> (forall|i: int, j: int|
            0 <= i < j < spec_live_bullets(s, n).len() ==> spec_live_bullets(s, n)[i].id
                != spec_live_bullets(s, n)[j].id),
    decreases n,
{
    if n > 0 {
        lemma_live_bullets_props(s, n - 1);
        let prev = spec_live_bullets(s, n - 1);
        let cur = spec_live_bullets(s, n);
        assert forall|k: int| 0 <= k < cur.len() implies exists|j: int|
            0 <= j < n && #[trigger] cur[k] == s[j] by {
            if k < prev.len() {
                assert(cur[k] == prev[k]);
                let j = choose|j: int| 0 <= j < n - 1 && prev[k] == s[j];
                assert(0 <= j < n && cur[k] == s[j]);
            } else {
                assert(cur[k] == s[n - 1]);
            }
        }
        if forall|i: int, j: int| 0 <= i < j < n ==> s[i].id != s[j].id {
            assert forall|i: int, j: int| 0 <= i < j < cur.len() implies cur[i].id != cur[j].id by {
                if j < prev.len() {
                    assert(cur[i] == prev[i] && cur[j] == prev[j]);
                } else {
                    assert(cur[j] == s[n - 1]);
                    assert(cur[i] == prev[i]);
                    let m = choose|m: int| 0 <= m < n - 1 && prev[i] == s[m];
                    assert(s[m].id != s[n - 1].id);
                }
            }
        }
    }
}

/// Every kept pickup is one of the originals, and uniqueness of handles
/// carries over.
pub proof fn lemma_live_pickups_props(s: Seq<Pickup>, n: int)
    requires
        0 <= n <= s.len(),
    ensures
        spec_live_pickups(s, n).len() <= n,
        forall|k: int|
            0 <= k < spec_live_pickups(s, n).len() ==> !(#[trigger] spec_live_pickups(s, n)[k]).consumed,
        forall|k: int|
            0 <= k < spec_live_pickups(s, n).len() ==> exists|j: int|
                0 <= j < n && #[trigger] spec_live_pickups(s, n)[k] == s[j],
        (forall|i: int, j: int| 0 <= i < j < n ==> s[i].id != s[j].id) ==> (forall|i: int, j: int|
            0 <= i < j < spec_live_pickups(s, n).len() ==> spec_live_pickups(s, n)[i].id
                != spec_live_pickups(s, n)[j].id),
    decreases n,
{
    if n > 0 {
        lemma_live_pickups_props(s, n - 1);
        let prev = spec_live_pickups(s, n - 1);
        let cur = spec_live_pickups(s, n);
        assert forall|k: int| 0 <= k < cur.len() implies exists|j: int|
            0 <= j < n && #[trigger] cur[k] == s[j] by {
            if k < prev.len() {
                assert(cur[k] == prev[k]);
                let j = choose|j: int| 0 <= j < n - 1 && prev[k] == s[j];
                assert(0 <= j < n && cur[k] == s[j]);
            } else {
                assert(cur[k] == s[n - 1]);
            }
        }
        if forall|i: int, j: int| 0 <= i < j < n ==> s[i].id != s[j].id {
            assert forall|i: int, j: int| 0 <= i < j < cur.len() implies cur[i].id != cur[j].id by {
                if j < prev.len() {
                    assert(cur[i] == prev[i] && cur[j] == prev[j]);
                } else {
                    assert(cur[j] == s[n - 1]);
                    assert(cur[i] == prev[i]);
                    let m = choose|m: int| 0 <= m < n - 1 && prev[i] == s[m];
                    assert(s[m].id != s[n - 1].id);
                }
            }
        }
    }
}

/// One whole simulated frame, in the fixed order the design requires:
/// wave director, player, bullets, enemies, pickups — later systems see
/// the frame's earlier writes — and then the one deferred-despawn sweep.
/// The one exception to read-after-write: a bullet fired this frame sits
/// out this frame's flight pass, so firing and flying are never both
/// integrated in the bullet's spawn frame. Once the session is over
/// nothing advances until `reset`; the frame that finds the player's
/// health empty raises the defeated signal exactly once and skips the
/// remaining passes — nothing else acts in or after the defeat frame.
/// The bullet system's postconditions, together with the fresh bullet
/// held out and re-added, pin the flight stage on the model.
proof fn lemma_bullet_stage(g2: GameModel, s3: Game, bs0: Seq<crate::bullet::BulletModel>, dt: int, fired: bool)
    requires
        fired ==> g2.bullets.len() == bs0.len() + 1 && g2.bullets.subrange(0, bs0.len() as int)
            == bs0,
        !fired ==> g2.bullets == bs0,
        ({
            let r = crate::bullet::spec_bullet_pass(
                bs0,
                g2.enemies,
                g2.kills as int,
                g2.player.score as int,
                dt,
                bs0.len() as int,
            );
            &&& (fired ==> s3.bullets@.map_values(|b: Bullet| b@) == r.0.push(g2.bullets.last()))
            &&& (!fired ==> s3.bullets@.map_values(|b: Bullet| b@) == r.0)
            &&& s3.enemies@ == r.1
            &&& s3.kills as int == r.2
            &&& s3.player.score as int == r.3
        }),
        s3.player == (Player { score: s3.player.score, ..g2.player }),
        s3.pickups@ == g2.pickups,
        s3.wave == g2.wave,
        s3.next_id == g2.next_id,
        s3.game_over == g2.game_over,
        s3.arena == g2.arena,
        s3.mouse_world_pos == g2.mouse_world_pos,
        s3.mouse_rel_pos == g2.mouse_rel_pos,
        s3.window_size == g2.window_size,
    ensures
        ({
            let r = crate::bullet::spec_bullet_pass(
                bs0,
                g2.enemies,
                g2.kills as int,
                g2.player.score as int,
                dt,
                bs0.len() as int,
            );
            s3@ =~~= GameModel {
                bullets: if fired {
                    r.0.push(g2.bullets.last())
                } else {
                    r.0
                },
                enemies: r.1,
                kills: r.2 as i64,
                player: Player { score: r.3 as i64, ..g2.player },
                ..g2
            }
        }),
{
}

/// The enemy system's postconditions, with the drawn wander sequence, pin
/// the enemy stage on the model.
proof fn lemma_enemy_stage(g3: GameModel, s4: Game, ws: Seq<Vec2>, dt: int)
    requires
        ({
            let reps = Seq::new(g3.enemies.len(), |i: int| crate::enemy::spec_repulsion(g3.enemies, i));
            let ep = crate::enemy::spec_enemy_pass(
                g3.enemies,
                reps,
                ws,
                g3.player.position,
                g3.player.health as int,
                dt,
                g3.arena,
                g3.enemies.len() as int,
            );
            &&& s4.enemies@ == ep.0
            &&& s4.player.health as int == ep.1
        }),
        s4.player == (Player { health: s4.player.health, ..g3.player }),
        s4.bullets@.map_values(|b: Bullet| b@) == g3.bullets,
        s4.pickups@ == g3.pickups,
        s4.wave == g3.wave,
        s4.kills == g3.kills,
        s4.next_id == g3.next_id,
        s4.game_over == g3.game_over,
        s4.arena == g3.arena,
        s4.mouse_world_pos == g3.mouse_world_pos,
        s4.mouse_rel_pos == g3.mouse_rel_pos,
        s4.window_size == g3.window_size,
    ensures
        ({
            let reps = Seq::new(g3.enemies.len(), |i: int| crate::enemy::spec_repulsion(g3.enemies, i));
            let ep = crate::enemy::spec_enemy_pass(
                g3.enemies,
                reps,
                ws,
                g3.player.position,
                g3.player.health as int,
                dt,
                g3.arena,
                g3.enemies.len() as int,
            );
            s4@ =~~= GameModel {
                enemies: ep.0,
                player: Player { health: ep.1 as i64, ..g3.player },
                ..g3
            }
        }),
{
}

/// The pickup system's postconditions pin the pickup stage on the model.
proof fn lemma_pickup_stage(g4: GameModel, s5: Game)
    requires
        ({
            let pp = crate::pickup::spec_pickup_pass(g4.pickups, g4.player, g4.pickups.len() as int);
            &&& s5.pickups@ == pp.0
            &&& s5.player == pp.1
        }),
        s5.enemies@ == g4.enemies,
        s5.bullets@.map_values(|b: Bullet| b@) == g4.bullets,
        s5.wave == g4.wave,
        s5.kills == g4.kills,
        s5.next_id == g4.next_id,
        s5.game_over == g4.game_over,
        s5.arena == g4.arena,
        s5.mouse_world_pos == g4.mouse_world_pos,
        s5.mouse_rel_pos == g4.mouse_rel_pos,
        s5.window_size == g4.window_size,
    ensures
        ({
            let pp = crate::pickup::spec_pickup_pass(g4.pickups, g4.player, g4.pickups.len() as int);
            s5@ =~~= GameModel { pickups: pp.0, player: pp.1, ..g4 }
        }),
{
}

/// The sweep's postconditions pin the sweep stage on the model.
proof fn lemma_sweep_stage(g5: GameModel, s5: Game, gf: Game)
    requires
        s5@ == g5,
        gf.enemies@ == spec_live_enemies(s5.enemies@, s5.enemies@.len() as int),
        gf.bullets@ == spec_live_bullets(s5.bullets@, s5.bullets@.len() as int),
        gf.pickups@ == spec_live_pickups(s5.pickups@, s5.pickups@.len() as int),
        gf.player == s5.player,
        gf.arena == s5.arena,
        gf.wave == s5.wave,
        gf.kills == s5.kills,
        gf.next_id == s5.next_id,
        gf.game_over == s5.game_over,
        gf.mouse_world_pos == s5.mouse_world_pos,
        gf.mouse_rel_pos == s5.mouse_rel_pos,
        gf.window_size == s5.window_size,
    ensures
        ({
            gf@ =~~= GameModel {
                enemies: spec_live_enemies(g5.enemies, g5.enemies.len() as int),
                bullets: spec_live_bullet_models(g5.bullets, g5.bullets.len() as int),
                pickups: spec_live_pickups(g5.pickups, g5.pickups.len() as int),
                ..g5
            }
        }),
{
    lemma_live_bullets_view(s5.bullets@, s5.bullets@.len() as int);
    assert(s5.bullets@.map_values(|b: Bullet| b@) == g5.bullets);
    assert(s5.enemies@ == g5.enemies && s5.pickups@ == g5.pickups);
}

/// The player system's postconditions pin its whole effect: a state
/// satisfying them is exactly the player step on the model.
proof fn lemma_player_stage(s1: Game, mid: Game, dt: i64, input: crate::player::InputState, aim: Option<Vec2>)
    requires
        ({
            let clock = fixed::sat_spec(s1.player.shot_clock + dt);
            let dir = crate::player::spec_aimed_direction(s1.player, aim);
            let idir = input.move_dir.spec_normalize_or_zero();
            let p1 = Player { shot_clock: clock as i64, direction: dir, ..s1.player };
            let p2 = p1.spec_integrate(idir, dt as int, s1.arena);
            let interval = crate::player::spec_effective_fire_interval(s1.player.stats, input.rapid);
            let fires = input.fire && clock >= interval;
            &&& mid.player == (Player {
                shot_clock: if fires {
                    0i64
                } else {
                    clock as i64
                },
                ..p2
            })
            &&& (fires ==> mid.bullets@.len() == s1.bullets@.len() + 1 && mid.bullets@.subrange(
                0,
                s1.bullets@.len() as int,
            ) == s1.bullets@ && crate::player::spec_is_spawned_bullet(
                mid.bullets@.last(),
                p2,
                s1.next_id,
            ) && mid.next_id == s1.next_id + 1)
            &&& (!fires ==> mid.bullets@ == s1.bullets@ && mid.next_id == s1.next_id)
            &&& mid.enemies@ == s1.enemies@
            &&& mid.pickups@ == s1.pickups@
            &&& mid.wave == s1.wave
            &&& mid.kills == s1.kills
            &&& mid.arena == s1.arena
            &&& mid.game_over == s1.game_over
            &&& mid.mouse_world_pos == (match aim {
                Option::Some(w) => w,
                Option::None => s1.mouse_world_pos,
            })
            &&& mid.mouse_rel_pos == s1.mouse_rel_pos
            &&& mid.window_size == s1.window_size
        }),
    ensures
        mid@ =~~= spec_player_step_model(s1@, dt as int, input, aim),
{
    reveal(spec_player_step_model);
    let clock = fixed::sat_spec(s1.player.shot_clock + dt);
    let dir = crate::player::spec_aimed_direction(s1.player, aim);
    let idir = input.move_dir.spec_normalize_or_zero();
    let p1 = Player { shot_clock: clock as i64, direction: dir, ..s1.player };
    let p2 = p1.spec_integrate(idir, dt as int, s1.arena);
    let interval = crate::player::spec_effective_fire_interval(s1.player.stats, input.rapid);
    let fires = input.fire && clock >= interval;
    let g2 = spec_player_step_model(s1@, dt as int, input, aim);
    if fires {
        assert(mid.bullets@ =~= s1.bullets@.push(mid.bullets@.last()));
        assert(mid.bullets@.last()@ == crate::player::spec_spawned_bullet_model(p2, s1.next_id));
        assert(mid@.bullets =~= g2.bullets);
    } else {
        assert(mid@.bullets =~= g2.bullets);
    }
}

#[verifier::rlimit(100)]
pub fn frame(
    game: &mut Game,
    dt: i64,
    input: &crate::player::InputState,
    aim: Option<Vec2>,
) -> (defeated: bool)
    requires
        old(game).wf(),
        0 <= dt <= crate::player::MAX_FRAME_DT,
        input.move_dir.in_range(),
        aim matches Some(w) ==> w.in_range(),
        old(game).wave < 0xFFFF_FFFF,
        old(game).next_id + old(game).wave + 7 < 0xFFFF_FFFF_FFFF_FFFF,
    ensures
        final(game).wf(),
        old(game).game_over ==> *final(game) == *old(game) && !defeated,
        !old(game).game_over ==> {
            &&& (defeated <==> old(game).player.health <= 0)
            &&& final(game).game_over == (old(game).player.health <= 0)
        },
        !old(game).game_over && old(game).player.health > 0 ==> exists|
            kd: u64,
            ps: Seq<Vec2>,
            ws: Seq<Vec2>,
        | spec_frame_rel(old(game)@, final(game)@, dt as int, *input, aim, kd, ps, ws),
        !old(game).game_over && old(game).enemies@.len() == 0 && old(game).pickups@.len() == 0
            ==> final(game).wave == old(game).wave + 1,
        !old(game).game_over && old(game).player.health > 0 ==> old(game).arena.contains(
            final(game).player.position,
        ),
        !old(game).game_over && old(game).player.health <= 0 ==> {
            &&& final(game).player == old(game).player
            &&& final(game).bullets@ == old(game).bullets@
            &&& final(game).kills == old(game).kills
        },
        !old(game).game_over && old(game).player.health > 0 ==> {
            &&& (forall|k: int|
                0 <= k < final(game).enemies@.len() ==> (#[trigger] final(game).enemies@[k]).health
                    > 0)
            &&& (forall|k: int|
                0 <= k < final(game).bullets@.len() ==> !(#[trigger] final(game).bullets@[k]).spent)
            &&& (forall|k: int|
                0 <= k < final(game).pickups@.len() ==> !(
                #[trigger] final(game).pickups@[k]).consumed)
        },
        final(game).arena == old(game).arena,
{
    if game.game_over {
        return false;
    }
    let ghost g0 = (*old(game))@;
    spawn_waves(game);
    let ghost s1 = *game;
    let n_before = game.bullets.len();
    let defeated = crate::player::tick(game, dt, input, aim);
    if defeated {
        return true;
    }
    let ghost mid = *game;
    let fresh: Option<Bullet> = if game.bullets.len() > n_before {
        game.bullets.pop()
    } else {
        None
    };
    proof {
        if fresh is Some {
            assert(game.bullets@ =~= mid.bullets@.subrange(0, mid.bullets@.len() - 1));
            assert(game.bullets@ =~= s1.bullets@);
            assert(game.wf());
        }
    }
    let ghost before_bullets = game.bullets@;
    crate::bullet::tick(game, dt);
    proof {
        crate::bullet::lemma_bullet_pass_props(
            before_bullets.map_values(|b: Bullet| b@),
            mid.enemies@,
            mid.kills as int,
            mid.player.score as int,
            dt as int,
            before_bullets.len() as int,
        );
    }
    match fresh {
        Some(b) => {
            proof {
                assert forall|k: int| 0 <= k < game.bullets@.len() implies (
                #[trigger] game.bullets@[k]).id != b.id by {
                    assert(game.bullets@.map_values(|bb: Bullet| bb@)[k].id
                        == before_bullets.map_values(|bb: Bullet| bb@)[k].id);
                    assert(game.bullets@[k].id == before_bullets[k].id);
                }
            }
            game.bullets.push(b);
        },
        None => {},
    }
    let ghost s3 = *game;
    crate::enemy::tick(game, dt);
    let ghost s4 = *game;
    let ghost before_pickups = game.pickups@;
    let ghost before_player = game.player;
    crate::pickup::tick(game);
    proof {
        crate::pickup::lemma_pickup_pass_props(
            before_pickups,
            before_player,
            before_pickups.len() as int,
        );
    }
    let ghost s5 = *game;
    sweep_despawns(game);
    proof {
        let gf = (*game)@;
        let item_wave = g0.enemies.len() == 0 && g0.pickups.len() == 0 && g0.wave % 2 == 0;
        let enemy_wave = g0.enemies.len() == 0 && g0.pickups.len() == 0 && g0.wave % 2 == 1;
        let kd: u64 = if item_wave {
            choose|i: u64|
                i < crate::pickup::KIND_COUNT && s1.pickups@[0].kind
                    == crate::pickup::spec_kind_from_index(i)
        } else {
            0
        };
        let ps: Seq<Vec2> = Seq::new(
            (g0.wave + 5) as nat,
            |k: int|
                if enemy_wave {
                    s1.enemies@[k].position
                } else {
                    Vec2 { x: 0, y: 0 }
                },
        );
        let g1 = spec_spawn_waves_model(g0, kd, ps);
        assert(s1@ =~~= g1) by {
            reveal(spec_spawn_waves_model);
            if g0.enemies.len() > 0 || g0.pickups.len() > 0 {
                assert(s1 == *old(game));
            } else if g0.wave % 2 == 0 {
                assert(kd < crate::pickup::KIND_COUNT && s1.pickups@[0].kind
                    == crate::pickup::spec_kind_from_index(kd));
                assert(s1.pickups@ =~= g0.pickups.push(
                    Pickup {
                        kind: crate::pickup::spec_kind_from_index(kd),
                        position: Vec2::spec_zero(),
                        id: g0.next_id,
                        consumed: false,
                    },
                ));
            } else {
                assert forall|k: int| 0 <= k < s1.enemies@.len() implies #[trigger] s1.enemies@[k]
                    == g1.enemies[k] by {
                    assert(ps[k] == s1.enemies@[k].position);
                }
                assert(s1@.enemies =~= g1.enemies);
            }
        }
        let g2 = spec_player_step_model(g1, dt as int, *input, aim);
        assert(mid@ =~~= g2) by {
            lemma_player_stage(s1, mid, dt, *input, aim);
        }
        let fired = g2.bullets.len() > g1.bullets.len();
        assert(fired == (fresh is Some));
        assert(before_bullets.map_values(|b: Bullet| b@) == g1.bullets);
        let fp = crate::bullet::spec_bullet_pass(
            g1.bullets,
            g2.enemies,
            g2.kills as int,
            g2.player.score as int,
            dt as int,
            g1.bullets.len() as int,
        );
        let g3 = GameModel {
            bullets: if fired {
                fp.0.push(g2.bullets.last())
            } else {
                fp.0
            },
            enemies: fp.1,
            kills: fp.2 as i64,
            player: Player { score: fp.3 as i64, ..g2.player },
            ..g2
        };
        assert(s3@ =~~= g3) by {
            if fired {
                assert(mid.bullets@.last()@ == g2.bullets.last());
                assert(g2.bullets.subrange(0, g1.bullets.len() as int) =~= g1.bullets);
                assert(s3.bullets@.map_values(|b: Bullet| b@) =~= fp.0.push(g2.bullets.last()));
            } else {
                assert(s3.bullets@.map_values(|b: Bullet| b@) == fp.0);
            }
            lemma_bullet_stage(g2, s3, g1.bullets, dt as int, fired);
        }
        let reps = Seq::new(g3.enemies.len(), |i: int| crate::enemy::spec_repulsion(g3.enemies, i));
        assert(Seq::new(
            s3.enemies@.len(),
            |i: int| crate::enemy::spec_repulsion(s3.enemies@, i),
        ) =~= reps);
        let ws = choose|rands: Seq<Vec2>|
            #![trigger rands.len()]
            {
                &&& rands.len() == s3.enemies@.len()
                &&& (forall|k: int| 0 <= k < rands.len() ==> (#[trigger] rands[k]).unit_box())
                &&& s4.enemies@ == crate::enemy::spec_enemy_pass(
                    s3.enemies@,
                    Seq::new(s3.enemies@.len(), |i: int| crate::enemy::spec_repulsion(s3.enemies@, i)),
                    rands,
                    s3.player.position,
                    s3.player.health as int,
                    dt as int,
                    s3.arena,
                    s3.enemies@.len() as int,
                ).0
                &&& s4.player.health as int == crate::enemy::spec_enemy_pass(
                    s3.enemies@,
                    Seq::new(s3.enemies@.len(), |i: int| crate::enemy::spec_repulsion(s3.enemies@, i)),
                    rands,
                    s3.player.position,
                    s3.player.health as int,
                    dt as int,
                    s3.arena,
                    s3.enemies@.len() as int,
                ).1
            };
        let ep = crate::enemy::spec_enemy_pass(
            g3.enemies,
            reps,
            ws,
            g3.player.position,
            g3.player.health as int,
            dt as int,
            g3.arena,
            g3.enemies.len() as int,
        );
        let g4 = GameModel {
            enemies: ep.0,
            player: Player { health: ep.1 as i64, ..g3.player },
            ..g3
        };
        assert(s4@ =~~= g4) by {
            assert(s4.bullets@.map_values(|b: Bullet| b@) == g3.bullets);
            lemma_enemy_stage(g3, s4, ws, dt as int);
        }
        let pp = crate::pickup::spec_pickup_pass(g4.pickups, g4.player, g4.pickups.len() as int);
        let g5 = GameModel { pickups: pp.0, player: pp.1, ..g4 };
        assert(s5@ =~~= g5) by {
            assert(s5.bullets@.map_values(|b: Bullet| b@) == g4.bullets);
            lemma_pickup_stage(g4, s5);
        }
        assert(gf =~~= GameModel {
            enemies: spec_live_enemies(g5.enemies, g5.enemies.len() as int),
            bullets: spec_live_bullet_models(g5.bullets, g5.bullets.len() as int),
            pickups: spec_live_pickups(g5.pickups, g5.pickups.len() as int),
            ..g5
        }) by {
            lemma_sweep_stage(g5, s5, *game);
        }
        assert forall|k: int|
            0 <= k < ps.len() implies -600_000 <= (#[trigger] ps[k]).x <= 600_000 && -400_000
                <= ps[k].y <= 400_000 by {
            if enemy_wave {
                assert(ps[k] == s1.enemies@[k].position);
            }
        }
        assert(spec_frame_rel(g0, gf, dt as int, *input, aim, kd, ps, ws)) by {
            reveal(spec_frame_rel);
        }
    }
    defeated
}

/// Where a wave-spawned enemy lands: a random direction scaled to the
/// arena half-extent.
fn rand_spawn_pos() -> (p: Vec2)
    ensures
        p.in_range(),
        -600_000 <= p.x <= 600_000,
        -400_000 <= p.y <= 400_000,
{
    let v = crate::random::rand_norm_vec2();
    proof {
        crate::fixed::lemma_div_trunc_ratio(
            (v.x as int) * 600_000,
            crate::fixed::SCALE as int,
            600_000,
        );
        crate::fixed::lemma_div_trunc_ratio(
            (v.y as int) * 400_000,
            crate::fixed::SCALE as int,
            400_000,
        );
    }
    Vec2 { x: crate::fixed::mul_milli(v.x, 600_000), y: crate::fixed::mul_milli(v.y, 400_000) }
}

/// The wave director, run once per frame. While any enemy or pickup is
/// alive it does nothing at all. On an empty arena it dispatches the next
/// wave and advances the wave counter: an even counter spawns exactly one
/// pickup of a random kind at the centre, an odd counter spawns
/// `wave + 5` fully initialized enemies at random positions inside the
/// arena half-extent. This is the only place enemies or pickups enter the
/// simulation during play.
pub fn spawn_waves(game: &mut Game)
    requires
        old(game).wf(),
        old(game).wave < 0xFFFF_FFFF,
        old(game).next_id + old(game).wave + 6 < 0xFFFF_FFFF_FFFF_FFFF,
    ensures
        final(game).wf(),
        old(game).enemies@.len() > 0 || old(game).pickups@.len() > 0 ==> *final(game) == *old(
            game,
        ),
        (old(game).enemies@.len() == 0 && old(game).pickups@.len() == 0) ==> {
            &&& final(game).wave == old(game).wave + 1
            &&& final(game).bullets@ == old(game).bullets@
            &&& final(game).player == old(game).player
            &&& final(game).kills == old(game).kills
            &&& final(game).game_over == old(game).game_over
            &&& final(game).arena == old(game).arena
            &&& final(game).mouse_world_pos == old(game).mouse_world_pos
            &&& final(game).mouse_rel_pos == old(game).mouse_rel_pos
            &&& final(game).window_size == old(game).window_size
        },
        (old(game).enemies@.len() == 0 && old(game).pickups@.len() == 0 && old(game).wave % 2
            == 0) ==> {
            &&& final(game).pickups@.len() == 1
            &&& final(game).pickups@[0].position == Vec2::spec_zero()
            &&& final(game).pickups@[0].id == old(game).next_id
            &&& final(game).pickups@[0].consumed == false
            &&& exists|i: u64|
                i < crate::pickup::KIND_COUNT && final(game).pickups@[0].kind
                    == crate::pickup::spec_kind_from_index(i)
            &&& final(game).enemies@ == old(game).enemies@
            &&& final(game).next_id == old(game).next_id + 1
        },
        (old(game).enemies@.len() == 0 && old(game).pickups@.len() == 0 && old(game).wave % 2
            == 1) ==> {
            &&& final(game).enemies@.len() == old(game).wave + 5
            &&& forall|k: int|
                0 <= k < final(game).enemies@.len() ==> #[trigger] final(game).enemies@[k]
                    == crate::enemy::EnemyBundle::spec_new(
                    final(game).enemies@[k].position,
                    (old(game).next_id + k) as u64,
                ).enemy
            &&& forall|k: int|
                0 <= k < final(game).enemies@.len() ==> -600_000 <= (
                #[trigger] final(game).enemies@[k]).position.x <= 600_000 && -400_000
                    <= final(game).enemies@[k].position.y <= 400_000
            &&& final(game).pickups@ == old(game).pickups@
            &&& final(game).next_id == old(game).next_id + old(game).wave + 5
        },
{
    if game.enemies.len() == 0 && game.pickups.len() == 0 {
        if game.wave % 2 == 0 {
            let b = crate::pickup::PickupBundle::new(game.next_id);
            game.pickups.push(b.pickup);
            game.next_id = game.next_id + 1;
        } else {
            let count = game.wave + 5;
            let ghost first_id = game.next_id;
            let mut i: u64 = 0;
            while i < count
                invariant
                    count == old(game).wave + 5,
                    count < 0x1_0000_0004,
                    first_id + count < 0xFFFF_FFFF_FFFF_FFFF,
                    i <= count,
                    game.enemies@.len() == i,
                    game.next_id == first_id + i,
                    forall|k: int|
                        0 <= k < i ==> #[trigger] game.enemies@[k]
                            == crate::enemy::EnemyBundle::spec_new(
                            game.enemies@[k].position,
                            (first_id + k) as u64,
                        ).enemy,
                    forall|k: int|
                        0 <= k < i ==> -600_000 <= (#[trigger] game.enemies@[k]).position.x
                            <= 600_000 && -400_000 <= game.enemies@[k].position.y <= 400_000,
                    forall|k: int| 0 <= k < i ==> (#[trigger] game.enemies@[k]).wf(),
                    game.player == old(game).player,
                    game.arena == old(game).arena,
                    game.bullets@ == old(game).bullets@,
                    game.pickups@ == old(game).pickups@,
                    game.wave == old(game).wave,
                    game.kills == old(game).kills,
                    game.game_over == old(game).game_over,
                    game.mouse_world_pos == old(game).mouse_world_pos,
                    game.mouse_rel_pos == old(game).mouse_rel_pos,
                    game.window_size == old(game).window_size,
                    old(game).wf(),
                decreases count - i,
            {
                let pos = rand_spawn_pos();
                let eb = crate::enemy::EnemyBundle::new(pos, game.next_id);
                game.enemies.push(eb.enemy);
                game.next_id = game.next_id + 1;
                i = i + 1;
            }
        }
        game.wave = game.wave + 1;
    }
}

/// The end-of-frame sweep: the one place entities leave the registry.
/// Enemies whose health is gone, spent bullets and consumed pickups are
/// removed; everything else keeps its order.
pub fn sweep_despawns(game: &mut Game)
    requires
        old(game).wf(),
    ensures
        final(game).enemies@ == spec_live_enemies(
            old(game).enemies@,
            old(game).enemies@.len() as int,
        ),
        final(game).bullets@ == spec_live_bullets(
            old(game).bullets@,
            old(game).bullets@.len() as int,
        ),
        final(game).pickups@ == spec_live_pickups(
            old(game).pickups@,
            old(game).pickups@.len() as int,
        ),
        final(game).player == old(game).player,
        final(game).arena == old(game).arena,
        final(game).wave == old(game).wave,
        final(game).kills == old(game).kills,
        final(game).next_id == old(game).next_id,
        final(game).game_over == old(game).game_over,
        final(game).mouse_world_pos == old(game).mouse_world_pos,
        final(game).mouse_rel_pos == old(game).mouse_rel_pos,
        final(game).window_size == old(game).window_size,
        final(game).wf(),
        forall|k: int|
            0 <= k < final(game).enemies@.len() ==> (#[trigger] final(game).enemies@[k]).health > 0,
        forall|k: int|
            0 <= k < final(game).bullets@.len() ==> !(#[trigger] final(game).bullets@[k]).spent,
        forall|k: int|
            0 <= k < final(game).pickups@.len() ==> !(#[trigger] final(game).pickups@[k]).consumed,
{
    let n_e = game.enemies.len();
    let mut kept_e: Vec<Enemy> = Vec::new();
    let mut i: usize = 0;
    while i < n_e
        invariant
            n_e == game.enemies@.len(),
            i <= n_e,
            kept_e@ == spec_live_enemies(game.enemies@, i as int),
        decreases n_e - i,
    {
        if game.enemies[i].health > 0 {
            let e = game.enemies[i];
            kept_e.push(e);
        }
        i = i + 1;
    }
    proof {
        lemma_live_enemies_props(game.enemies@, n_e as int);
    }

    let ghost orig_b = game.bullets@;
    let mut kept_b: Vec<Bullet> = Vec::new();
    while game.bullets.len() > 0
        invariant
            game.player == old(game).player,
            game.arena == old(game).arena,
            game.enemies@ == old(game).enemies@,
            game.pickups@ == old(game).pickups@,
            game.wave == old(game).wave,
            game.kills == old(game).kills,
            game.next_id == old(game).next_id,
            game.game_over == old(game).game_over,
            game.mouse_world_pos == old(game).mouse_world_pos,
            game.mouse_rel_pos == old(game).mouse_rel_pos,
            game.window_size == old(game).window_size,
            game.bullets@.len() <= orig_b.len(),
            game.bullets@ =~= orig_b.subrange(
                orig_b.len() - game.bullets@.len(),
                orig_b.len() as int,
            ),
            kept_b@ == spec_live_bullets(orig_b, orig_b.len() - game.bullets@.len()),
        decreases game.bullets@.len(),
    {
        let ghost done = orig_b.len() - game.bullets@.len();
        let b = game.bullets.remove(0);
        proof {
            assert(b == orig_b[done]);
        }
        if !b.spent {
            kept_b.push(b);
        }
    }
    proof {
        lemma_live_bullets_props(orig_b, orig_b.len() as int);
    }

    let n_p = game.pickups.len();
    let mut kept_p: Vec<Pickup> = Vec::new();
    let mut k: usize = 0;
    while k < n_p
        invariant
            n_p == game.pickups@.len(),
            k <= n_p,
            kept_p@ == spec_live_pickups(game.pickups@, k as int),
        decreases n_p - k,
    {
        if !game.pickups[k].consumed {
            let p = game.pickups[k];
            kept_p.push(p);
        }
        k = k + 1;
    }
    proof {
        lemma_live_pickups_props(game.pickups@, n_p as int);
    }

    game.enemies = kept_e;
    game.bullets = kept_b;
    game.pickups = kept_p;
}

} // verus!
