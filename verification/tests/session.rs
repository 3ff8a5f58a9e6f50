use shooter_core::enemy;
use shooter_core::enemy::EnemyBundle;
use shooter_core::game::{frame, Game};
use shooter_core::map::ArenaBounds;
use shooter_core::player;
use shooter_core::player::{InputState, Player};
use shooter_core::vec2::Vec2;

fn idle_input() -> InputState {
    InputState { move_dir: Vec2 { x: 0, y: 0 }, fire: false, rapid: false }
}

#[test]
fn defeat_signals_once_and_freezes_the_session() {
    let mut g = Game::new();
    g.player.health = 0;

    let first = frame(&mut g, 17, &idle_input(), None);
    assert!(first);
    assert!(g.game_over);

    let wave = g.wave;
    let second = frame(&mut g, 17, &idle_input(), None);
    assert!(!second);
    assert!(g.game_over);
    assert_eq!(g.wave, wave);
    assert_eq!(g.player.health, 0);

    g.reset();
    assert!(!g.game_over);
    assert_eq!(g.player.health, 100_000);
    assert_eq!(g.player.score, 0);
    assert_eq!(g.player.id, Some(0));
    assert_eq!(g.wave, 0);
    assert_eq!(g.kills, 0);
    assert!(g.enemies.is_empty() && g.bullets.is_empty() && g.pickups.is_empty());
}

#[test]
fn contact_damage_respects_the_hit_interval() {
    let mut g = Game::new();
    let mut e = EnemyBundle::new(Vec2 { x: 0, y: 0 }, 1).enemy;
    e.hit_timer = 300;
    g.enemies.push(e);
    g.next_id = 2;

    enemy::tick(&mut g, 1);
    assert_eq!(g.player.health, 90_000);
    assert_eq!(g.enemies[0].hit_timer, 0);

    // the cooldown was reset: the very next frame cannot hit again
    enemy::tick(&mut g, 1);
    assert_eq!(g.player.health, 90_000);
}

#[test]
fn dead_enemies_do_not_act() {
    let mut g = Game::new();
    let mut e = EnemyBundle::new(Vec2 { x: 0, y: 0 }, 1).enemy;
    e.hit_timer = 300;
    e.health = 0;
    g.enemies.push(e);
    g.next_id = 2;

    enemy::tick(&mut g, 1);
    assert_eq!(g.player.health, 100_000);
    assert_eq!(g.enemies[0].position, Vec2 { x: 0, y: 0 });
}

#[test]
fn momentum_decays_and_never_oscillates() {
    let mut p = Player::default();
    p.momentum = Vec2 { x: 5_000, y: -3_000 };
    let bounds = ArenaBounds::standard();
    let zero = Vec2 { x: 0, y: 0 };

    let mut last = len2(p.momentum);
    for _ in 0..1_000 {
        p.integrate_movement(zero, 17, &bounds);
        let cur = len2(p.momentum);
        assert!(cur <= last);
        assert!(p.momentum.x >= 0);
        assert!(p.momentum.y <= 0);
        last = cur;
    }
    // after a thousand steps at sixty steps a second almost nothing is left
    assert!(last <= 1_000_000);
}

fn len2(v: Vec2) -> i128 {
    (v.x as i128) * (v.x as i128) + (v.y as i128) * (v.y as i128)
}

#[test]
fn holding_fire_spawns_a_bullet_when_the_clock_is_ready() {
    let mut g = Game::new();
    let input = InputState { move_dir: Vec2 { x: 0, y: 0 }, fire: true, rapid: false };

    let defeated = player::tick(&mut g, 17, &input, None);
    assert!(!defeated);
    assert!(g.bullets.is_empty());
    assert_eq!(g.player.shot_clock, 17);

    player::tick(&mut g, 300, &input, None);
    assert_eq!(g.bullets.len(), 1);
    assert_eq!(g.player.shot_clock, 0);
    let b = &g.bullets[0];
    assert_eq!(b.shooter, Some(0));
    assert_eq!(b.damage, 60_000);
    assert_eq!(b.radius, 10_000);
    assert_eq!(b.piercing, 1);
    assert_eq!(b.velocity, Vec2 { x: 500_000, y: 0 });
    assert!(b.hit_enemies.is_empty());
    assert!(!b.spent);
}

#[test]
fn a_fresh_bullet_sits_out_its_spawn_frame() {
    let mut g = Game::new();
    // park a pickup far away so the wave director stays idle
    g.pickups.push(shooter_core::pickup::Pickup {
        kind: shooter_core::pickup::PickupKind::DamageUp,
        position: Vec2 { x: 500_000, y: 0 },
        id: 0,
        consumed: false,
    });
    g.next_id = 1;
    let input = InputState { move_dir: Vec2 { x: 0, y: 0 }, fire: true, rapid: false };

    frame(&mut g, 300, &input, None);
    assert_eq!(g.bullets.len(), 1);
    // fired this frame: it has not flown yet
    assert_eq!(g.bullets[0].position, Vec2 { x: 0, y: 0 });

    frame(&mut g, 300, &input, None);
    assert_eq!(g.bullets.len(), 2);
    // one frame old: it has flown exactly once
    assert_eq!(g.bullets[0].position, Vec2 { x: 150_000, y: 0 });
    assert_eq!(g.bullets[1].position, Vec2 { x: 0, y: 0 });
}

#[test]
fn rapid_fire_divides_the_interval_by_ten() {
    let mut g = Game::new();
    let input = InputState { move_dir: Vec2 { x: 0, y: 0 }, fire: true, rapid: true };

    player::tick(&mut g, 30, &input, None);
    assert_eq!(g.bullets.len(), 1);
}

#[test]
fn aiming_turns_the_player() {
    let mut g = Game::new();
    let defeated = player::tick(
        &mut g,
        17,
        &idle_input(),
        Some(Vec2 { x: 0, y: 250_000 }),
    );
    assert!(!defeated);
    assert_eq!(g.player.direction, Vec2 { x: 0, y: 1_000 });
    assert_eq!(g.mouse_world_pos, Vec2 { x: 0, y: 250_000 });

    // aiming at the player's own position keeps the last facing
    let own_pos = g.player.position;
    player::tick(&mut g, 17, &idle_input(), Some(own_pos));
    assert_eq!(g.player.direction, Vec2 { x: 0, y: 1_000 });
}

#[test]
fn movement_stays_inside_the_arena() {
    let mut g = Game::new();
    g.player.position = Vec2 { x: 545_000, y: 0 };
    g.player.momentum = Vec2 { x: 50_000, y: 0 };
    let input = InputState { move_dir: Vec2 { x: 1_000, y: 0 }, fire: false, rapid: false };
    for _ in 0..100 {
        player::tick(&mut g, 17, &input, None);
    }
    assert_eq!(g.player.position.x, 545_454);
}
