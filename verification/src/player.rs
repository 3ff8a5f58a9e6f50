//! The player: movement under accelerate-then-drag integration, aiming,
//! fire cooldown, and bullet spawning.

use vstd::prelude::*;

use crate::bullet::Bullet;
use crate::fixed;
use crate::map::{spec_clamp_position, ArenaBounds};
use crate::stat::Stats;
use crate::vec2::Vec2;

verus! {

/// Drawn width of the player, in milli-units.
pub const PLAYER_WIDTH: i64 = 40_000;

/// Drawn height of the player, in milli-units.
pub const PLAYER_HEIGHT: i64 = 45_000;

/// Radius of the player's collision circle: a quarter of the drawn width,
/// matching the capsule the renderer shows.
pub const PLAYER_RADIUS: i64 = 10_000;

/// The drag coefficient, in milli-units (three quarters).
pub const DRAG_K: i64 = 750;

/// Divisor folding the three milli-unit factors of the drag product back
/// into milli-units.
pub const DRAG_DIV: i64 = 1_000_000_000;

/// Longest single step the per-frame functions accept, in milli-seconds.
pub const MAX_FRAME_DT: i64 = 1_000_000;

/// Smallest effective fire interval: the interval a stat combination may
/// not shrink below, in milli-seconds.
pub const FIRE_EPSILON: i64 = 1;

/// The player.
#[derive(Clone, Copy, Debug)]
pub struct Player {
    pub position: Vec2,
    /// Unit facing direction; bullets leave along it.
    pub direction: Vec2,
    /// Displacement applied per frame, decayed by quadratic drag.
    pub momentum: Vec2,
    /// Stable handle, once the session has assigned one.
    pub id: Option<u64>,
    /// Time since the last shot, in milli-seconds.
    pub shot_clock: i64,
    pub score: i64,
    pub health: i64,
    pub stats: Stats,
}

impl Player {
    pub open spec fn wf(self) -> bool {
        self.position.in_range() && self.direction.in_range() && self.momentum.in_range()
            && fixed::in_range(self.health as int) && 0 <= self.shot_clock <= fixed::COORD_LIMIT
            && fixed::in_range(self.score as int) && self.stats.wf()
    }

    pub open spec fn spec_default() -> Player {
        Player {
            position: Vec2::spec_zero(),
            shot_clock: 0,
            direction: Vec2 { x: 1000, y: 0 },
            health: 100_000,
            score: 0,
            id: None,
            stats: Stats::spec_new(),
            momentum: Vec2::spec_zero(),
        }
    }

    /// Advance the fire-cooldown clock by `delta`.
    pub fn tick_cooldowns(&mut self, delta: i64)
        requires
            0 <= delta,
            0 <= old(self).shot_clock <= fixed::COORD_LIMIT,
        ensures
            *final(self) == (Player {
                shot_clock: fixed::sat_spec(old(self).shot_clock + delta) as i64,
                ..*old(self)
            }),
            0 <= final(self).shot_clock <= fixed::COORD_LIMIT,
    {
        self.shot_clock = fixed::sat_add(self.shot_clock, delta);
    }

    /// One movement step: gain momentum from input, lose some to drag,
    /// move by the result, stay inside the arena.
    pub open spec fn spec_integrate(self, input_dir: Vec2, dt: int, bounds: ArenaBounds) -> Player {
        let force = input_dir.spec_scale_milli(self.stats.speed.spec_value()).spec_scale_milli(dt);
        let m1 = self.momentum.spec_add_sat(force);
        let m2 = spec_momentum_after_drag(m1, dt);
        Player {
            momentum: m2,
            position: spec_clamp_position(bounds, self.position.spec_add_sat(m2)),
            ..self
        }
    }

    /// One movement step (see `spec_integrate`).
    pub fn integrate_movement(&mut self, input_dir: Vec2, dt: i64, bounds: &ArenaBounds)
        requires
            old(self).wf(),
            input_dir.in_range(),
            0 <= dt <= MAX_FRAME_DT,
            bounds.wf(),
        ensures
            *final(self) == old(self).spec_integrate(input_dir, dt as int, *bounds),
            final(self).wf(),
            bounds.contains(final(self).position),
    {
        let speed = self.stats.speed.value();
        let force = input_dir.scale_milli(speed).scale_milli(dt);
        let m1 = self.momentum.add_sat(force);
        let m2 = momentum_after_drag(m1, dt);
        self.momentum = m2;
        self.position = crate::map::clamp_position(bounds, &self.position.add_sat(m2));
    }
}

impl Default for Player {
    /// A fresh player: centred, at full health, facing right, with the
    /// stock attribute bundle and no handle yet.
    fn default() -> (r: Player)
        ensures
            r == Player::spec_default(),
            r.wf(),
    {
        Player {
            position: Vec2::zero(),
            shot_clock: 0,
            direction: Vec2 { x: 1000, y: 0 },
            health: 100_000,
            score: 0,
            id: None,
            stats: Stats::new(),
            momentum: Vec2::zero(),
        }
    }
}

/// The uncapped drag on one momentum component:
/// `k * component * |momentum| * dt`, all in milli-units.
pub open spec fn spec_drag_delta(mx: int, len: int, dt: int) -> int {
    fixed::div_trunc(((DRAG_K as int) * mx * len) * dt, DRAG_DIV as int)
}

/// One momentum component after drag. The drag is capped at the component
/// itself: drag slows a body, it never reverses it.
pub open spec fn spec_drag_component(mx: int, len: int, dt: int) -> int {
    let d = spec_drag_delta(mx, len, dt);
    if mx >= 0 {
        mx - fixed::clamp_spec(d, 0, mx)
    } else {
        mx - fixed::clamp_spec(d, mx, 0)
    }
}

/// The momentum after one frame of quadratic drag: each component loses
/// `k * component * |momentum| * dt`, capped so no component changes sign.
pub open spec fn spec_momentum_after_drag(m: Vec2, dt: int) -> Vec2 {
    let len = m.spec_length();
    Vec2 {
        x: spec_drag_component(m.x as int, len, dt) as i64,
        y: spec_drag_component(m.y as int, len, dt) as i64,
    }
}

/// One momentum component after drag (see `spec_drag_component`).
fn drag_component(mx: i64, len: u64, dt: i64) -> (r: i64)
    requires
        fixed::in_range(mx as int),
        0 <= len as int <= 2 * (fixed::COORD_LIMIT as int),
        0 <= dt <= MAX_FRAME_DT,
    ensures
        r == spec_drag_component(mx as int, len as int, dt as int),
        mx >= 0 ==> 0 <= r <= mx,
        mx < 0 ==> mx <= r <= 0,
{
    proof {
        let p2 = (DRAG_K as int) * (mx as int);
        let p3 = p2 * (len as int);
        let p4 = p3 * (dt as int);
        assert(-1_000_000_000_000_000 <= p2 <= 1_000_000_000_000_000
            && -2_000_000_000_000_000_000_000_000_000 <= p3 <= 2_000_000_000_000_000_000_000_000_000
            && -2_000_000_000_000_000_000_000_000_000_000_000 <= p4
                <= 2_000_000_000_000_000_000_000_000_000_000_000) by (nonlinear_arith)
            requires
                p2 == (DRAG_K as int) * (mx as int),
                p3 == p2 * (len as int),
                p4 == p3 * (dt as int),
                0 <= DRAG_K as int <= 1000,
                -(fixed::COORD_LIMIT as int) <= mx as int <= fixed::COORD_LIMIT as int,
                0 <= len as int <= 2 * (fixed::COORD_LIMIT as int),
                0 <= dt as int <= MAX_FRAME_DT as int,
                fixed::COORD_LIMIT as int == 1_000_000_000_000,
                MAX_FRAME_DT as int == 1_000_000,
        ;
    }
    let prod: i128 = ((DRAG_K as i128) * (mx as i128) * (len as i128)) * (dt as i128);
    let d = fixed::div_trunc_i128(prod, DRAG_DIV as i128);
    if mx >= 0 {
        let capped: i128 = if d < 0 {
            0
        } else if d > mx as i128 {
            mx as i128
        } else {
            d
        };
        mx - (capped as i64)
    } else {
        let capped: i128 = if d > 0 {
            0
        } else if d < mx as i128 {
            mx as i128
        } else {
            d
        };
        mx - (capped as i64)
    }
}

/// The momentum after one frame of quadratic drag.
pub fn momentum_after_drag(m: Vec2, dt: i64) -> (r: Vec2)
    requires
        m.in_range(),
        0 <= dt <= MAX_FRAME_DT,
    ensures
        r == spec_momentum_after_drag(m, dt as int),
        r.in_range(),
{
    proof {
        m.lemma_len_bounds();
    }
    let len = m.length();
    Vec2 { x: drag_component(m.x, len, dt), y: drag_component(m.y, len, dt) }
}

/// Drag only ever shrinks momentum: after a drag step each component keeps
/// its sign and loses magnitude, and the squared length never grows. With
/// zero input a frame's momentum update is exactly a drag step, so repeated
/// frames decay monotonically toward zero — they cannot oscillate through
/// zero or diverge, whatever the step length.
pub proof fn lemma_drag_decays(m: Vec2, dt: int)
    requires
        m.in_range(),
    ensures
        m.x >= 0 ==> 0 <= spec_momentum_after_drag(m, dt).x <= m.x,
        m.x < 0 ==> m.x <= spec_momentum_after_drag(m, dt).x <= 0,
        m.y >= 0 ==> 0 <= spec_momentum_after_drag(m, dt).y <= m.y,
        m.y < 0 ==> m.y <= spec_momentum_after_drag(m, dt).y <= 0,
        spec_momentum_after_drag(m, dt).len2() <= m.len2(),
{
    let r = spec_momentum_after_drag(m, dt);
    assert(r.len2() <= m.len2()) by (nonlinear_arith)
        requires
            r.len2() == (r.x as int) * (r.x as int) + (r.y as int) * (r.y as int),
            m.len2() == (m.x as int) * (m.x as int) + (m.y as int) * (m.y as int),
            m.x >= 0 ==> 0 <= r.x as int <= m.x as int,
            m.x < 0 ==> m.x as int <= r.x as int <= 0,
            m.y >= 0 ==> 0 <= r.y as int <= m.y as int,
            m.y < 0 ==> m.y as int <= r.y as int <= 0,
    ;
}

/// One frame under zero input leaves movement to the drag alone.
pub proof fn lemma_zero_input_frame(p: Player, dt: int, bounds: ArenaBounds)
    requires
        p.momentum.in_range(),
    ensures
        p.spec_integrate(Vec2::spec_zero(), dt, bounds).momentum == spec_momentum_after_drag(
            p.momentum,
            dt,
        ),
{
    let k = p.stats.speed.spec_value();
    assert(0 * k == 0 && 0 * dt == 0) by (nonlinear_arith);
    vstd::arithmetic::div_mod::lemma_div_of0(fixed::SCALE as int);
    assert(fixed::div_trunc(0, fixed::SCALE as int) == 0);
    assert(Vec2::spec_zero().spec_scale_milli(k) == Vec2::spec_zero());
    let force = Vec2::spec_zero().spec_scale_milli(k).spec_scale_milli(dt);
    assert(force == Vec2::spec_zero());
    assert(p.momentum.spec_add_sat(force) == p.momentum);
}

/// The player coasting: the given number of frames integrated under
/// constant zero input.
pub open spec fn spec_coast(p: Player, dts: Seq<int>, bounds: ArenaBounds, n: int) -> Player
    decreases n,
{
    if n <= 0 {
        p
    } else {
        spec_coast(p, dts, bounds, n - 1).spec_integrate(Vec2::spec_zero(), dts[n - 1], bounds)
    }
}

/// Under constant zero input the quadratic drag governs the momentum
/// alone: over any number of frames, of any step lengths, the momentum's
/// squared magnitude never grows and neither component ever crosses zero.
/// The decay is monotone — it cannot oscillate or diverge.
pub proof fn lemma_momentum_decays_without_input(
    p: Player,
    dts: Seq<int>,
    bounds: ArenaBounds,
    n: int,
)
    requires
        p.momentum.in_range(),
        0 <= n <= dts.len(),
    ensures
        ({
            let m = spec_coast(p, dts, bounds, n).momentum;
            &&& m.in_range()
            &&& m.len2() <= p.momentum.len2()
            &&& (p.momentum.x >= 0 ==> 0 <= m.x <= p.momentum.x)
            &&& (p.momentum.x < 0 ==> p.momentum.x <= m.x <= 0)
            &&& (p.momentum.y >= 0 ==> 0 <= m.y <= p.momentum.y)
            &&& (p.momentum.y < 0 ==> p.momentum.y <= m.y <= 0)
        }),
    decreases n,
{
    if n > 0 {
        lemma_momentum_decays_without_input(p, dts, bounds, n - 1);
        let q = spec_coast(p, dts, bounds, n - 1);
        lemma_zero_input_frame(q, dts[n - 1], bounds);
        lemma_drag_decays(q.momentum, dts[n - 1]);
        let before = q.momentum;
        let after = spec_coast(p, dts, bounds, n).momentum;
        assert(after.len2() <= p.momentum.len2()) by (nonlinear_arith)
            requires
                after.len2() <= before.len2(),
                before.len2() <= p.momentum.len2(),
        ;
    }
}

/// The fire interval the cooldown is held against: the fire-interval stat,
/// divided by ten while rapid fire is held, floored at a small positive
/// epsilon so the interval can never reach zero or invert.
pub open spec fn spec_effective_fire_interval(stats: Stats, rapid: bool) -> int {
    let base = stats.fire_interval.spec_value();
    let f = if rapid {
        fixed::sat_spec(fixed::mul_milli_spec(base, 100))
    } else {
        base
    };
    fixed::clamp_spec(f, FIRE_EPSILON as int, fixed::COORD_LIMIT as int)
}

/// The fire interval the cooldown is held against.
pub fn effective_fire_interval(stats: &Stats, rapid: bool) -> (r: i64)
    requires
        stats.wf(),
    ensures
        r == spec_effective_fire_interval(*stats, rapid),
        FIRE_EPSILON <= r <= fixed::COORD_LIMIT,
{
    let base = stats.fire_interval.value();
    let f = if rapid {
        fixed::mul_milli(base, 100)
    } else {
        base
    };
    fixed::clamp_i64(f, FIRE_EPSILON, fixed::COORD_LIMIT)
}

/// The bullet a player fires: it starts at the player, flies along the
/// facing direction at the shot-speed stat, and carries the damage, size
/// and piercing stats. Piercing is the stat rounded to a whole count; a
/// negative size collapses to zero; the hit list starts empty.
pub open spec fn spec_is_spawned_bullet(b: Bullet, p: Player, id: u64) -> bool {
    b.shooter == p.id && b.hits_player == false && b.position == p.position && b.velocity
        == p.direction.spec_scale_milli(p.stats.shot_speed.spec_value()) && b.damage as int
        == fixed::sat_spec(p.stats.damage.spec_value()) && b.radius as int == fixed::clamp_spec(
        p.stats.shot_size.spec_value(),
        0,
        fixed::COORD_LIMIT as int,
    ) && b.piercing as int == fixed::round_milli_spec(p.stats.piercing.spec_value())
        && b.hit_enemies@ =~= Seq::<u64>::empty() && b.id == id && b.spent == false
}

/// The model of the bullet `spec_is_spawned_bullet` describes.
pub open spec fn spec_spawned_bullet_model(p: Player, id: u64) -> crate::bullet::BulletModel {
    crate::bullet::BulletModel {
        shooter: p.id,
        hits_player: false,
        position: p.position,
        velocity: p.direction.spec_scale_milli(p.stats.shot_speed.spec_value()),
        damage: fixed::sat_spec(p.stats.damage.spec_value()) as i64,
        radius: fixed::clamp_spec(p.stats.shot_size.spec_value(), 0, fixed::COORD_LIMIT as int)
            as i64,
        piercing: fixed::round_milli_spec(p.stats.piercing.spec_value()) as i64,
        hit_enemies: Seq::empty(),
        id,
        spent: false,
    }
}

/// The bullet a player fires (see `spec_is_spawned_bullet`).
pub fn spawn_bullet(p: &Player, id: u64) -> (b: Bullet)
    requires
        p.wf(),
    ensures
        spec_is_spawned_bullet(b, *p, id),
        b.wf(),
{
    Bullet {
        shooter: p.id,
        hits_player: false,
        position: p.position,
        velocity: p.direction.scale_milli(p.stats.shot_speed.value()),
        damage: p.stats.damage.value(),
        radius: fixed::clamp_i64(p.stats.shot_size.value(), 0, fixed::COORD_LIMIT),
        piercing: fixed::round_milli(p.stats.piercing.value()),
        hit_enemies: Vec::new(),
        id,
        spent: false,
    }
}

/// The player together with what the renderer needs.
#[derive(Clone, Copy, Debug)]
pub struct PlayerBundle {
    pub player: Player,
    pub sprite: crate::physics_sprite::PhysicsSpriteBundle,
}

impl PlayerBundle {
    /// A fresh player with its capsule-collided sprite at the centre.
    pub fn new() -> (r: PlayerBundle)
        ensures
            r.player == Player::spec_default(),
            r.sprite == crate::physics_sprite::PhysicsSpriteBundle::spec_new(
                Vec2 { x: PLAYER_WIDTH, y: PLAYER_HEIGHT },
                Vec2::spec_zero(),
            ),
    {
        let dims = Vec2 { x: PLAYER_WIDTH, y: PLAYER_HEIGHT };
        let pos = Vec2::zero();
        PlayerBundle {
            player: Player::default(),
            sprite: crate::physics_sprite::PhysicsSpriteBundle::new(&dims, &pos),
        }
    }
}

/// The debounced input one frame acts on.
#[derive(Clone, Copy, Debug)]
pub struct InputState {
    /// Raw movement axis; it is normalized before use, so any magnitude
    /// (including zero) is accepted.
    pub move_dir: Vec2,
    /// The fire button is held.
    pub fire: bool,
    /// The rapid-fire modifier is held.
    pub rapid: bool,
}

/// The facing direction after one frame's aim input: toward the aim point
/// when one is given and distinct from the player's position; otherwise
/// the last-known-good direction is kept, so a degenerate aim never
/// produces an undefined facing.
pub open spec fn spec_aimed_direction(p: Player, aim: Option<Vec2>) -> Vec2 {
    match aim {
        Option::None => p.direction,
        Option::Some(w) => {
            let d = w.spec_sub_sat(p.position).spec_normalize_or_zero();
            if d == Vec2::spec_zero() {
                p.direction
            } else {
                d
            }
        },
    }
}

/// The player system, run once per frame. While the session is over it
/// does nothing. The frame a player's health is first found empty it
/// raises the defeated signal — exactly once — and from then on movement
/// and firing stay suppressed until the session is reset. Otherwise it
/// advances the fire clock, turns toward the aim point, integrates
/// movement, and fires a bullet when the fire button is held and the
/// clock has reached the effective fire interval.
pub fn tick(game: &mut crate::game::Game, dt: i64, input: &InputState, aim: Option<Vec2>) -> (defeated: bool)
    requires
        old(game).wf(),
        0 <= dt <= MAX_FRAME_DT,
        input.move_dir.in_range(),
        aim matches Some(w) ==> w.in_range(),
        old(game).next_id < 0xFFFF_FFFF_FFFF_FFFF,
    ensures
        final(game).wf(),
        final(game).arena == old(game).arena,
        final(game).game_over == (old(game).game_over || old(game).player.health <= 0),
        old(game).game_over ==> *final(game) == *old(game) && !defeated,
        !old(game).game_over && old(game).player.health <= 0 ==> {
            &&& defeated
            &&& final(game).game_over
            &&& final(game).player == old(game).player
            &&& final(game).enemies@ == old(game).enemies@
            &&& final(game).bullets@ == old(game).bullets@
            &&& final(game).pickups@ == old(game).pickups@
            &&& final(game).wave == old(game).wave
            &&& final(game).kills == old(game).kills
            &&& final(game).next_id == old(game).next_id
            &&& final(game).mouse_world_pos == old(game).mouse_world_pos
            &&& final(game).mouse_rel_pos == old(game).mouse_rel_pos
            &&& final(game).window_size == old(game).window_size
        },
        !old(game).game_over && old(game).player.health > 0 ==> {
            let clock = fixed::sat_spec(old(game).player.shot_clock + dt);
            let dir = spec_aimed_direction(old(game).player, aim);
            let idir = input.move_dir.spec_normalize_or_zero();
            let p1 = Player { shot_clock: clock as i64, direction: dir, ..old(game).player };
            let p2 = p1.spec_integrate(idir, dt as int, old(game).arena);
            let interval = spec_effective_fire_interval(old(game).player.stats, input.rapid);
            let fires = input.fire && clock >= interval;
            &&& !defeated
            &&& !final(game).game_over
            &&& final(game).player == (Player {
                shot_clock: if fires {
                    0i64
                } else {
                    clock as i64
                },
                ..p2
            })
            &&& (fires ==> {
                &&& final(game).bullets@.len() == old(game).bullets@.len() + 1
                &&& final(game).bullets@.subrange(0, old(game).bullets@.len() as int) == old(
                    game,
                ).bullets@
                &&& spec_is_spawned_bullet(final(game).bullets@.last(), p2, old(game).next_id)
                &&& final(game).next_id == old(game).next_id + 1
            })
            &&& (!fires ==> final(game).bullets@ == old(game).bullets@ && final(game).next_id
                == old(game).next_id)
            &&& final(game).enemies@ == old(game).enemies@
            &&& final(game).pickups@ == old(game).pickups@
            &&& final(game).wave == old(game).wave
            &&& final(game).kills == old(game).kills
            &&& final(game).arena == old(game).arena
            &&& final(game).mouse_world_pos == (match aim {
                Option::Some(w) => w,
                Option::None => old(game).mouse_world_pos,
            })
            &&& final(game).mouse_rel_pos == old(game).mouse_rel_pos
            &&& final(game).window_size == old(game).window_size
        },
{
    if game.game_over {
        return false;
    }
    if game.player.health <= 0 {
        game.game_over = true;
        return true;
    }
    game.player.tick_cooldowns(dt);
    let clock = game.player.shot_clock;
    match aim {
        Option::Some(w) => {
            let d = w.sub_sat(game.player.position).normalize_or_zero();
            let dz = d.x == 0 && d.y == 0;
            if !dz {
                game.player.direction = d;
            }
            game.mouse_world_pos = w;
        },
        Option::None => {},
    }
    let idir = input.move_dir.normalize_or_zero();
    let bounds = game.arena;
    game.player.integrate_movement(idir, dt, &bounds);
    let interval = effective_fire_interval(&game.player.stats, input.rapid);
    if input.fire && clock >= interval {
        let b = spawn_bullet(&game.player, game.next_id);
        game.bullets.push(b);
        game.next_id = game.next_id + 1;
        game.player.shot_clock = 0;
    }
    false
}

/// The window's cursor, folded into world coordinates: the cursor's
/// fraction across the window, mapped across the camera projection's
/// extents. Run once per frame, before the player system.
pub fn tick_cursor(
    game: &mut crate::game::Game,
    proj: &Projection,
    window_size: Vec2,
    mouse_pos: Option<Vec2>,
    cursor: &mut Cursor,
)
    requires
        proj.wf(),
        0 < window_size.x,
        0 < window_size.y,
        window_size.in_range(),
        mouse_pos matches Some(m) ==> m.in_range(),
    ensures
        final(game).player == old(game).player,
        final(game).enemies@ == old(game).enemies@,
        final(game).bullets@ == old(game).bullets@,
        final(game).pickups@ == old(game).pickups@,
        final(game).wave == old(game).wave,
        final(game).kills == old(game).kills,
        final(game).next_id == old(game).next_id,
        final(game).game_over == old(game).game_over,
        final(game).arena == old(game).arena,
        final(game).mouse_world_pos == old(game).mouse_world_pos,
        final(game).window_size == window_size,
        old(game).wf() ==> final(game).wf(),
        mouse_pos matches Option::None ==> *final(cursor) == *old(cursor)
            && final(game).mouse_rel_pos == old(game).mouse_rel_pos,
        mouse_pos matches Option::Some(m) ==> {
            let rel = Vec2 {
                x: fixed::lerp_inverse_spec(0, window_size.x as int, m.x as int) as i64,
                y: fixed::lerp_inverse_spec(0, window_size.y as int, m.y as int) as i64,
            };
            let world = Vec2 {
                x: fixed::lerp_spec(proj.left as int, proj.right as int, rel.x as int) as i64,
                y: fixed::lerp_spec(proj.bottom as int, proj.top as int, rel.y as int) as i64,
            };
            &&& final(cursor).screen_pos == m
            &&& final(cursor).world_pos == world
            &&& final(game).mouse_rel_pos == rel
        },
{
    game.window_size = window_size;
    match mouse_pos {
        Option::Some(m) => {
            cursor.screen_pos = m;
            let rel = Vec2 {
                x: fixed::lerp_inverse(0, window_size.x, m.x),
                y: fixed::lerp_inverse(0, window_size.y, m.y),
            };
            let world = Vec2 {
                x: fixed::lerp(proj.left, proj.right, rel.x),
                y: fixed::lerp(proj.bottom, proj.top, rel.y),
            };
            game.mouse_rel_pos = rel;
            cursor.world_pos = world;
        },
        Option::None => {},
    }
}

/// The camera projection's extents in world coordinates, as the external
/// camera reports them.
#[derive(Clone, Copy, Debug)]
pub struct Projection {
    pub left: i64,
    pub right: i64,
    pub bottom: i64,
    pub top: i64,
}

impl Projection {
    pub open spec fn wf(self) -> bool {
        self.left < self.right && self.bottom < self.top && fixed::in_range(self.left as int)
            && fixed::in_range(self.right as int) && fixed::in_range(self.bottom as int)
            && fixed::in_range(self.top as int)
    }
}

/// Where the player is pointing: the input the external camera hands back.
#[derive(Clone, Copy, Debug)]
pub struct Cursor {
    /// Position on the window, in milli-pixels.
    pub screen_pos: Vec2,
    /// The same position in world coordinates.
    pub world_pos: Vec2,
}

impl Default for Cursor {
    fn default() -> (r: Cursor)
        ensures
            r.screen_pos == Vec2::spec_zero(),
            r.world_pos == Vec2::spec_zero(),
    {
        Cursor { screen_pos: Vec2::zero(), world_pos: Vec2::zero() }
    }
}

/// The cursor together with the drawn size of its marker.
#[derive(Clone, Copy, Debug)]
pub struct CursorBundle {
    pub cursor: Cursor,
    pub sprite_size: Vec2,
}

impl Default for CursorBundle {
    fn default() -> (r: CursorBundle)
        ensures
            r.cursor.screen_pos == Vec2::spec_zero(),
            r.cursor.world_pos == Vec2::spec_zero(),
            r.sprite_size == (Vec2 { x: 10_000, y: 10_000 }),
    {
        CursorBundle { cursor: Cursor::default(), sprite_size: Vec2 { x: 10_000, y: 10_000 } }
    }
}

} // verus!
