//! Bullets: projectiles that pierce through a bounded number of distinct
//! enemies before being consumed.

use vstd::prelude::*;

use crate::enemy::Enemy;
use crate::fixed;
use crate::physics_sprite::{Collider, Dims, PhysicsSpriteBundle};
use crate::spatial::spec_circles_overlap;
use crate::vec2::Vec2;

verus! {

/// A sequence of handles with no handle repeated.
pub open spec fn no_dup(s: Seq<u64>) -> bool {
    forall|i: int, j: int| 0 <= i < j < s.len() ==> s[i] != s[j]
}

/// A projectile in flight.
#[derive(Clone, Debug)]
pub struct Bullet {
    /// Handle of the entity that fired it; absent for sourceless shots.
    pub shooter: Option<u64>,
    /// Whether the projectile can harm the player. Player-fired shots
    /// cannot.
    pub hits_player: bool,
    pub position: Vec2,
    pub velocity: Vec2,
    pub damage: i64,
    pub radius: i64,
    /// How many further distinct enemies it may damage before it is spent.
    pub piercing: i64,
    /// Handles of enemies already damaged, so none is damaged twice.
    pub hit_enemies: Vec<u64>,
    /// Stable handle of this bullet.
    pub id: u64,
    /// Set when piercing is exhausted; the end-of-frame sweep removes it.
    pub spent: bool,
}

impl Bullet {
    pub open spec fn wf(self) -> bool {
        self.position.in_range() && self.velocity.in_range() && fixed::in_range(self.damage as int)
            && 0 <= self.radius <= fixed::COORD_LIMIT && fixed::in_range(self.piercing as int)
            && no_dup(self.hit_enemies@)
    }

    pub open spec fn spec_update_position(self, dt: int) -> Bullet {
        Bullet { position: self.position.spec_add_sat(self.velocity.spec_scale_milli(dt)), ..self }
    }

    /// Advance the bullet along its velocity for `dt`.
    pub fn update_position(&mut self, dt: i64)
        requires
            old(self).position.in_range(),
            old(self).velocity.in_range(),
            fixed::in_range(dt as int),
        ensures
            *final(self) == old(self).spec_update_position(dt as int),
            final(self).position.in_range(),
    {
        self.position = self.position.add_sat(self.velocity.scale_milli(dt));
    }
}

/// The mathematical image of a bullet: the same record with the hit list
/// as a sequence.
pub ghost struct BulletModel {
    pub shooter: Option<u64>,
    pub hits_player: bool,
    pub position: Vec2,
    pub velocity: Vec2,
    pub damage: i64,
    pub radius: i64,
    pub piercing: i64,
    pub hit_enemies: Seq<u64>,
    pub id: u64,
    pub spent: bool,
}

impl BulletModel {
    pub open spec fn wf(self) -> bool {
        self.position.in_range() && self.velocity.in_range() && fixed::in_range(self.damage as int)
            && 0 <= self.radius <= fixed::COORD_LIMIT && fixed::in_range(self.piercing as int)
            && no_dup(self.hit_enemies)
    }
}

impl View for Bullet {
    type V = BulletModel;

    open spec fn view(&self) -> BulletModel {
        BulletModel {
            shooter: self.shooter,
            hits_player: self.hits_player,
            position: self.position,
            velocity: self.velocity,
            damage: self.damage,
            radius: self.radius,
            piercing: self.piercing,
            hit_enemies: self.hit_enemies@,
            id: self.id,
            spent: self.spent,
        }
    }
}

/// One bullet's strikes against the first `n` enemies, in order. The
/// bullet damages each overlapping enemy whose handle is not yet in its
/// hit list, turns the enemy to face along the shot, counts a kill and
/// awards the enemy's point value exactly when the blow crosses the
/// enemy's health to zero, and spends one piercing charge — clamped at
/// zero, so piercing never goes negative. A bullet whose piercing is
/// exhausted is marked spent and strikes nothing further; otherwise the
/// enemy's handle joins the hit list so the same bullet can never damage
/// it again.
pub open spec fn spec_strikes(
    b: BulletModel,
    s: Seq<Enemy>,
    kills: int,
    score: int,
    n: int,
) -> (BulletModel, Seq<Enemy>, int, int)
    decreases n,
{
    if n <= 0 {
        (b, s, kills, score)
    } else {
        let prev = spec_strikes(b, s, kills, score, n - 1);
        let b1 = prev.0;
        let e = s[n - 1];
        if !b1.spent && !b1.hit_enemies.contains(e.id) && spec_circles_overlap(
            b1.position,
            b1.radius as int,
            e.position,
            e.radius as int,
        ) {
            let e2 = Enemy {
                health: fixed::sat_spec(e.health - b1.damage) as i64,
                direction: b1.velocity.spec_normalize_or_zero(),
                ..e
            };
            let kill = e.health > 0 && e2.health <= 0;
            let p2: i64 = if b1.piercing <= 0 {
                0
            } else {
                (b1.piercing - 1) as i64
            };
            let b2 = if p2 <= 0 {
                BulletModel { piercing: p2, spent: true, ..b1 }
            } else {
                BulletModel { piercing: p2, hit_enemies: b1.hit_enemies.push(e.id), ..b1 }
            };
            (
                b2,
                prev.1.update(n - 1, e2),
                if kill {
                    fixed::sat_spec(prev.2 + 1)
                } else {
                    prev.2
                },
                if kill {
                    fixed::sat_spec(prev.3 + e.point_value)
                } else {
                    prev.3
                },
            )
        } else {
            prev
        }
    }
}

/// Shape facts about a strike pass: it touches only processed enemy
/// slots, never changes a handle, keeps every record well formed and
/// every counter storable, and only moves the bullet's piercing, hit
/// list and spent flag.
pub proof fn lemma_strikes_props(b: BulletModel, s: Seq<Enemy>, kills: int, score: int, n: int)
    requires
        0 <= n <= s.len(),
    ensures
        ({
            let r = spec_strikes(b, s, kills, score, n);
            &&& r.1.len() == s.len()
            &&& (forall|k: int| n <= k < s.len() ==> #[trigger] r.1[k] == s[k])
            &&& (forall|k: int| 0 <= k < s.len() ==> (#[trigger] r.1[k]).id == s[k].id)
            &&& (fixed::in_range(kills) ==> fixed::in_range(r.2))
            &&& (fixed::in_range(score) ==> fixed::in_range(r.3))
            &&& r.0.position == b.position
            &&& r.0.velocity == b.velocity
            &&& r.0.damage == b.damage
            &&& r.0.radius == b.radius
            &&& r.0.id == b.id
            &&& r.0.shooter == b.shooter
            &&& r.0.hits_player == b.hits_player
            &&& (b.piercing >= 0 ==> r.0.piercing >= 0)
            &&& (b.wf() && (forall|k: int| 0 <= k < s.len() ==> (#[trigger] s[k]).wf()) ==> (
            r.0.wf() && (forall|k: int| 0 <= k < s.len() ==> (#[trigger] r.1[k]).wf())))
        }),
    decreases n,
{
    if n > 0 {
        lemma_strikes_props(b, s, kills, score, n - 1);
        let prev = spec_strikes(b, s, kills, score, n - 1);
        let r = spec_strikes(b, s, kills, score, n);
        if b.wf() && (forall|k: int| 0 <= k < s.len() ==> (#[trigger] s[k]).wf()) {
            assert forall|k: int| 0 <= k < s.len() implies (#[trigger] r.1[k]).wf() by {
                if r.1[k] != prev.1[k] {
                    assert(k == n - 1);
                    prev.0.velocity.lemma_normalize_bounds();
                }
            }
            if r.0 != prev.0 {
                assert(no_dup(r.0.hit_enemies)) by {
                    if r.0.hit_enemies != prev.0.hit_enemies {
                        let h = prev.0.hit_enemies;
                        let h2 = r.0.hit_enemies;
                        assert(h2 == h.push(s[n - 1].id));
                        assert(!h.contains(s[n - 1].id));
                        assert forall|i: int, j: int| 0 <= i < j < h2.len() implies h2[i]
                            != h2[j] by {
                            if j < h.len() {
                            } else {
                                assert(h2[j] == s[n - 1].id);
                                assert(h2[i] == h[i]);
                                assert(h.contains(h[i]));
                            }
                        }
                    }
                }
            }
        }
    }
}

/// A bullet's piercing counter can never go negative: despawning clamps
/// it at zero, however many strikes a pass lands and whatever the
/// counter began at — so a bullet is never despawned twice over.
pub proof fn lemma_piercing_never_negative(
    b: BulletModel,
    s: Seq<Enemy>,
    kills: int,
    score: int,
    n: int,
)
    requires
        0 <= n <= s.len(),
        b.piercing >= 0,
    ensures
        spec_strikes(b, s, kills, score, n).0.piercing >= 0,
    decreases n,
{
    if n > 0 {
        lemma_piercing_never_negative(b, s, kills, score, n - 1);
    }
}

/// A bullet never registers two damage events against the same enemy in
/// its lifetime. Within one strike pass: an enemy whose handle is already
/// in the hit list is left untouched; the hit list only ever grows; a
/// spent bullet does nothing at all; and any enemy the pass damages
/// leaves the bullet spent or its handle in the hit list. Chained over
/// the frames of the bullet's life, these give the dedup: once damaged,
/// an enemy's handle stays in the list (or the bullet is gone), and a
/// listed enemy is never damaged again.
pub proof fn lemma_bullet_hits_each_enemy_once(
    b: BulletModel,
    s: Seq<Enemy>,
    kills: int,
    score: int,
    n: int,
)
    requires
        0 <= n <= s.len(),
    ensures
        ({
            let r = spec_strikes(b, s, kills, score, n);
            &&& (forall|k: int|
                0 <= k < n && b.hit_enemies.contains(s[k].id) ==> #[trigger] r.1[k] == s[k])
            &&& b.hit_enemies.len() <= r.0.hit_enemies.len()
            &&& (forall|l: int|
                0 <= l < b.hit_enemies.len() ==> #[trigger] r.0.hit_enemies[l]
                    == b.hit_enemies[l])
            &&& (b.spent ==> r.0 == b && r.1 == s && r.2 == kills && r.3 == score)
            &&& (b.spent ==> r.0.spent)
            &&& (forall|k: int|
                0 <= k < n && #[trigger] r.1[k] != s[k] ==> r.0.spent
                    || r.0.hit_enemies.contains(s[k].id))
        }),
    decreases n,
{
    lemma_strikes_props(b, s, kills, score, n);
    if n > 0 {
        lemma_bullet_hits_each_enemy_once(b, s, kills, score, n - 1);
        lemma_strikes_props(b, s, kills, score, n - 1);
        let prev = spec_strikes(b, s, kills, score, n - 1);
        let r = spec_strikes(b, s, kills, score, n);
        let b1 = prev.0;
        let e = s[n - 1];
        assert forall|k: int|
            0 <= k < n && b.hit_enemies.contains(s[k].id) implies #[trigger] r.1[k] == s[k] by {
            if k == n - 1 {
                if !b1.spent {
                    let l = choose|l: int|
                        0 <= l < b.hit_enemies.len() && b.hit_enemies[l] == s[k].id;
                    assert(b1.hit_enemies[l] == s[k].id);
                    assert(b1.hit_enemies.contains(s[k].id));
                }
            }
        }
        assert forall|k: int|
            0 <= k < n && #[trigger] r.1[k] != s[k] implies r.0.spent || r.0.hit_enemies.contains(
            s[k].id,
        ) by {
            if k < n - 1 {
                assert(prev.1[k] == r.1[k]);
                if !prev.0.spent {
                    let l = choose|l: int|
                        0 <= l < prev.0.hit_enemies.len() && prev.0.hit_enemies[l] == s[k].id;
                    if r.0.hit_enemies.len() > prev.0.hit_enemies.len() {
                        assert(r.0.hit_enemies == prev.0.hit_enemies.push(e.id));
                        assert(r.0.hit_enemies[l] == s[k].id);
                    } else {
                        assert(r.0.hit_enemies =~= prev.0.hit_enemies || r.0.spent);
                    }
                    assert(r.0.spent || r.0.hit_enemies.contains(s[k].id));
                }
            } else {
                if r.0.hit_enemies.len() > b1.hit_enemies.len() {
                    assert(r.0.hit_enemies == b1.hit_enemies.push(e.id));
                    assert(r.0.hit_enemies[b1.hit_enemies.len() as int] == e.id);
                    assert(r.0.hit_enemies.contains(e.id));
                }
            }
        }
    }
}

/// The bullet pass over the first `n` bullets, in order: each unspent
/// bullet advances by its velocity for `dt`, then strikes the enemies it
/// overlaps.
pub open spec fn spec_bullet_pass(
    bs: Seq<BulletModel>,
    s: Seq<Enemy>,
    kills: int,
    score: int,
    dt: int,
    n: int,
) -> (Seq<BulletModel>, Seq<Enemy>, int, int)
    decreases n,
{
    if n <= 0 {
        (bs, s, kills, score)
    } else {
        let prev = spec_bullet_pass(bs, s, kills, score, dt, n - 1);
        let bm = bs[n - 1];
        if bm.spent {
            (prev.0.update(n - 1, bm), prev.1, prev.2, prev.3)
        } else {
            let moved = BulletModel {
                position: bm.position.spec_add_sat(bm.velocity.spec_scale_milli(dt)),
                ..bm
            };
            let st = spec_strikes(moved, prev.1, prev.2, prev.3, prev.1.len() as int);
            (prev.0.update(n - 1, st.0), st.1, st.2, st.3)
        }
    }
}

/// Shape facts about the bullet pass: handles never change, records stay
/// well formed, counters stay storable, unprocessed bullets are left
/// alone.
pub proof fn lemma_bullet_pass_props(
    bs: Seq<BulletModel>,
    s: Seq<Enemy>,
    kills: int,
    score: int,
    dt: int,
    n: int,
)
    requires
        0 <= n <= bs.len(),
        fixed::in_range(kills),
        fixed::in_range(score),
    ensures
        ({
            let r = spec_bullet_pass(bs, s, kills, score, dt, n);
            &&& r.0.len() == bs.len()
            &&& r.1.len() == s.len()
            &&& (forall|k: int| n <= k < bs.len() ==> #[trigger] r.0[k] == bs[k])
            &&& (forall|k: int| 0 <= k < bs.len() ==> (#[trigger] r.0[k]).id == bs[k].id)
            &&& (forall|k: int| 0 <= k < s.len() ==> (#[trigger] r.1[k]).id == s[k].id)
            &&& fixed::in_range(r.2)
            &&& fixed::in_range(r.3)
            &&& ((forall|k: int| 0 <= k < bs.len() ==> (#[trigger] bs[k]).wf()) && (forall|k: int|
                0 <= k < s.len() ==> (#[trigger] s[k]).wf()) ==> ((forall|k: int|
                0 <= k < bs.len() ==> (#[trigger] r.0[k]).wf()) && (forall|k: int|
                0 <= k < s.len() ==> (#[trigger] r.1[k]).wf())))
        }),
    decreases n,
{
    if n > 0 {
        lemma_bullet_pass_props(bs, s, kills, score, dt, n - 1);
        let prev = spec_bullet_pass(bs, s, kills, score, dt, n - 1);
        let bm = bs[n - 1];
        if !bm.spent {
            let moved = BulletModel {
                position: bm.position.spec_add_sat(bm.velocity.spec_scale_milli(dt)),
                ..bm
            };
            lemma_strikes_props(moved, prev.1, prev.2, prev.3, prev.1.len() as int);
        }
    }
}

/// Whether a handle is already in a bullet's hit list.
fn contains_id(v: &Vec<u64>, id: u64) -> (r: bool)
    ensures
        r == v@.contains(id),
{
    let n = v.len();
    let mut i: usize = 0;
    while i < n
        invariant
            i <= n,
            n == v@.len(),
            forall|k: int| 0 <= k < i ==> v@[k] != id,
        decreases n - i,
    {
        if v[i] == id {
            return true;
        }
        i = i + 1;
    }
    proof {
        if v@.contains(id) {
            let k = choose|k: int| 0 <= k < v@.len() && v@[k] == id;
            assert(false);
        }
    }
    false
}

/// The bullet system, run once per frame: every bullet flies forward for
/// `dt` and strikes the enemies it newly overlaps (see `spec_strikes`).
/// Kills and score land the frame the killing blow does.
pub fn tick(game: &mut crate::game::Game, dt: i64)
    requires
        old(game).wf(),
        0 <= dt <= fixed::COORD_LIMIT,
    ensures
        final(game).wf(),
        ({
            let r = spec_bullet_pass(
                old(game).bullets@.map_values(|b: Bullet| b@),
                old(game).enemies@,
                old(game).kills as int,
                old(game).player.score as int,
                dt as int,
                old(game).bullets@.len() as int,
            );
            &&& final(game).bullets@.map_values(|b: Bullet| b@) == r.0
            &&& final(game).enemies@ == r.1
            &&& final(game).kills as int == r.2
            &&& final(game).player.score as int == r.3
        }),
        final(game).player == (crate::player::Player {
            score: final(game).player.score,
            ..old(game).player
        }),
        final(game).pickups@ == old(game).pickups@,
        final(game).wave == old(game).wave,
        final(game).next_id == old(game).next_id,
        final(game).game_over == old(game).game_over,
        final(game).arena == old(game).arena,
        final(game).mouse_world_pos == old(game).mouse_world_pos,
        final(game).mouse_rel_pos == old(game).mouse_rel_pos,
        final(game).window_size == old(game).window_size,
{
    let ghost orig = game.bullets@;
    let ghost models = orig.map_values(|b: Bullet| b@);
    let ghost orig_enemies = game.enemies@;
    let ghost orig_kills = game.kills as int;
    let ghost orig_score = game.player.score as int;
    let ghost orig_player = game.player;
    let n = game.bullets.len();
    let mut done: Vec<Bullet> = Vec::new();
    while game.bullets.len() > 0
        invariant
            0 <= dt <= fixed::COORD_LIMIT,
            n == orig.len(),
            models == orig.map_values(|b: Bullet| b@),
            done@.len() + game.bullets@.len() == n,
            game.bullets@ =~= orig.subrange(done@.len() as int, n as int),
            ({
                let k = done@.len() as int;
                let r = spec_bullet_pass(models, orig_enemies, orig_kills, orig_score, dt as int, k);
                &&& done@.map_values(|b: Bullet| b@) =~= r.0.subrange(0, k)
                &&& game.enemies@ == r.1
                &&& game.kills as int == r.2
                &&& game.player.score as int == r.3
            }),
            game.player == (crate::player::Player { score: game.player.score, ..orig_player }),
            orig_player == old(game).player,
            orig == old(game).bullets@,
            orig_enemies == old(game).enemies@,
            orig_kills == old(game).kills as int,
            orig_score == old(game).player.score as int,
            old(game).wf(),
            forall|k: int| 0 <= k < game.enemies@.len() ==> (#[trigger] game.enemies@[k]).wf(),
            forall|k: int|
                0 <= k < game.enemies@.len() ==> (#[trigger] game.enemies@[k]).id
                    == old(game).enemies@[k].id,
            game.enemies@.len() == old(game).enemies@.len(),
            forall|k: int| 0 <= k < done@.len() ==> (#[trigger] done@[k]).wf(),
            forall|k: int| 0 <= k < done@.len() ==> (#[trigger] done@[k]).id == orig[k]@.id,
            game.pickups@ == old(game).pickups@,
            game.wave == old(game).wave,
            game.next_id == old(game).next_id,
            game.game_over == old(game).game_over,
            game.arena == old(game).arena,
            game.mouse_world_pos == old(game).mouse_world_pos,
            game.mouse_rel_pos == old(game).mouse_rel_pos,
            game.window_size == old(game).window_size,
        decreases game.bullets@.len(),
    {
        let ghost k = done@.len() as int;
        let ghost prev = spec_bullet_pass(models, orig_enemies, orig_kills, orig_score, dt as int, k);
        proof {
            lemma_bullet_pass_props(models, orig_enemies, orig_kills, orig_score, dt as int, k);
            assert(orig.subrange(k, n as int)[0] == orig[k]);
        }
        let mut b = game.bullets.remove(0);
        proof {
            assert(b == orig[k]);
            assert(b@ == models[k]);
        }
        if !b.spent {
            b.update_position(dt);
            let ghost moved = b@;
            let ghost s_in = game.enemies@;
            let ghost k_in = game.kills as int;
            let ghost sc_in = game.player.score as int;
            let m = game.enemies.len();
            let mut j: usize = 0;
            while j < m
                invariant
                    0 <= dt <= fixed::COORD_LIMIT,
                    m == game.enemies@.len(),
                    m == s_in.len(),
                    j <= m,
                    moved.wf(),
                    b.wf(),
                    fixed::in_range(k_in),
                    fixed::in_range(sc_in),
                    forall|l: int| 0 <= l < s_in.len() ==> (#[trigger] s_in[l]).wf(),
                    ({
                        let st = spec_strikes(moved, s_in, k_in, sc_in, j as int);
                        &&& b@ == st.0
                        &&& game.enemies@ == st.1
                        &&& game.kills as int == st.2
                        &&& game.player.score as int == st.3
                    }),
                    game.player == (crate::player::Player {
                        score: game.player.score,
                        ..orig_player
                    }),
                    game.bullets@ == orig.subrange(k + 1, n as int),
                    game.pickups@ == old(game).pickups@,
                    game.wave == old(game).wave,
                    game.next_id == old(game).next_id,
                    game.game_over == old(game).game_over,
                    game.arena == old(game).arena,
                    game.mouse_world_pos == old(game).mouse_world_pos,
                    game.mouse_rel_pos == old(game).mouse_rel_pos,
                    game.window_size == old(game).window_size,
                decreases m - j,
            {
                proof {
                    lemma_strikes_props(moved, s_in, k_in, sc_in, j as int);
                }
                let e = game.enemies[j];
                if !b.spent && !contains_id(&b.hit_enemies, e.id) && crate::spatial::circles_overlap(
                    b.position,
                    b.radius,
                    e.position,
                    e.radius,
                ) {
                    let e2 = Enemy {
                        health: fixed::sat_sub(e.health, b.damage),
                        direction: b.velocity.normalize_or_zero(),
                        ..e
                    };
                    let kill = e.health > 0 && e2.health <= 0;
                    game.enemies.set(j, e2);
                    if kill {
                        game.kills = fixed::sat_add(game.kills, 1);
                        game.player.score = fixed::sat_add(game.player.score, e.point_value);
                    }
                    let p2: i64 = if b.piercing <= 0 {
                        0
                    } else {
                        b.piercing - 1
                    };
                    b.piercing = p2;
                    if p2 <= 0 {
                        b.spent = true;
                    } else {
                        b.hit_enemies.push(e.id);
                    }
                }
                j = j + 1;
            }
            proof {
                lemma_strikes_props(moved, s_in, k_in, sc_in, m as int);
            }
        }
        let ghost done_before = done@;
        done.push(b);
        proof {
            let k2 = k + 1;
            let r2 = spec_bullet_pass(models, orig_enemies, orig_kills, orig_score, dt as int, k2);
            let prevp = spec_bullet_pass(
                models,
                orig_enemies,
                orig_kills,
                orig_score,
                dt as int,
                k2 - 1,
            );
            assert(prevp == prev);
            assert(r2.0 == prevp.0.update(k, b@));
            assert forall|l: int| 0 <= l < k2 implies done@.map_values(|bb: Bullet| bb@)[l]
                == r2.0.subrange(0, k2)[l] by {
                if l < k {
                    assert(done@[l] == done_before[l]);
                    assert(done_before.map_values(|bb: Bullet| bb@)[l] == prevp.0[l]);
                    assert(r2.0[l] == prevp.0[l]);
                } else {
                    assert(done@[l] == b);
                    assert(r2.0[l] == b@);
                }
            }
            assert(done@.map_values(|bb: Bullet| bb@) =~= r2.0.subrange(0, k2));
        }
    }
    game.bullets = done;
    proof {
        lemma_bullet_pass_props(models, orig_enemies, orig_kills, orig_score, dt as int, n as int);
        let r = spec_bullet_pass(models, orig_enemies, orig_kills, orig_score, dt as int, n as int);
        assert(game.bullets@.map_values(|b: Bullet| b@) =~= r.0);
    }
}

/// A bullet together with what the renderer needs: a ball collider of the
/// bullet's radius at the bullet's position.
#[derive(Clone, Debug)]
pub struct BulletBundle {
    pub bullet: Bullet,
    pub sprite: PhysicsSpriteBundle,
}

impl BulletBundle {
    pub fn new(bullet: Bullet) -> (r: BulletBundle)
        ensures
            r.bullet == bullet,
            r.sprite.dims == (Dims(Vec2 { x: bullet.radius, y: bullet.radius })),
            r.sprite.collider == (Collider::Ball { radius: bullet.radius }),
            r.sprite.pos == bullet.position,
    {
        let sprite = PhysicsSpriteBundle {
            dims: Dims(Vec2 { x: bullet.radius, y: bullet.radius }),
            collider: Collider::Ball { radius: bullet.radius },
            pos: bullet.position,
        };
        BulletBundle { bullet, sprite }
    }
}

} // verus!
