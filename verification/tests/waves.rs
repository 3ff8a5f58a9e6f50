use shooter_core::enemy::EnemyBundle;
use shooter_core::game::{spawn_waves, Game};
use shooter_core::vec2::Vec2;

#[test]
fn even_wave_spawns_exactly_one_pickup() {
    let mut g = Game::new();
    g.wave = 4;
    spawn_waves(&mut g);
    assert_eq!(g.pickups.len(), 1);
    assert_eq!(g.pickups[0].position, Vec2 { x: 0, y: 0 });
    assert!(g.enemies.is_empty());
    assert_eq!(g.wave, 5);
}

#[test]
fn odd_wave_spawns_wave_plus_five_enemies() {
    let mut g = Game::new();
    g.wave = 5;
    spawn_waves(&mut g);
    assert_eq!(g.enemies.len(), 10);
    assert!(g.pickups.is_empty());
    assert_eq!(g.wave, 6);
    for e in g.enemies.iter() {
        assert!(-600_000 <= e.position.x && e.position.x <= 600_000);
        assert!(-400_000 <= e.position.y && e.position.y <= 400_000);
        assert_eq!(e.health, 100_000);
        assert_eq!(e.max_health, 100_000);
    }
    for i in 0..g.enemies.len() {
        for j in (i + 1)..g.enemies.len() {
            assert_ne!(g.enemies[i].id, g.enemies[j].id);
        }
    }
}

#[test]
fn dispatch_waits_while_the_arena_is_occupied() {
    let mut g = Game::new();
    g.wave = 3;
    g.enemies.push(EnemyBundle::new(Vec2 { x: 0, y: 0 }, 1).enemy);
    g.next_id = 2;

    // the director is idempotent while anything is alive
    spawn_waves(&mut g);
    spawn_waves(&mut g);
    spawn_waves(&mut g);
    assert_eq!(g.wave, 3);
    assert_eq!(g.enemies.len(), 1);
    assert!(g.pickups.is_empty());

    g.enemies = Vec::new();
    g.pickups.push(shooter_core::pickup::PickupBundle::new(2).pickup);
    spawn_waves(&mut g);
    assert_eq!(g.wave, 3);
    assert_eq!(g.pickups.len(), 1);
}

#[test]
fn fresh_enemies_have_the_stock_combat_values() {
    let b = EnemyBundle::new(Vec2 { x: 7, y: -8 }, 42);
    assert_eq!(b.enemy.position, Vec2 { x: 7, y: -8 });
    assert_eq!(b.enemy.direction, Vec2 { x: 1_000, y: 0 });
    assert_eq!(b.enemy.radius, 17_500);
    assert_eq!(b.enemy.damage, 10_000);
    assert_eq!(b.enemy.point_value, 100);
    assert_eq!(b.enemy.health, 100_000);
    assert_eq!(b.enemy.hit_interval, 300);
    assert_eq!(b.enemy.speed, 5_000);
    assert_eq!(b.enemy.hit_timer, 0);
    assert_eq!(b.enemy.id, 42);
}
