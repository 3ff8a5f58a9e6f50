use shooter_core::bullet;
use shooter_core::bullet::{Bullet, BulletBundle};
use shooter_core::enemy::EnemyBundle;
use shooter_core::game::{sweep_despawns, Game};
use shooter_core::vec2::Vec2;

fn still_bullet(id: u64, piercing: i64) -> Bullet {
    Bullet {
        shooter: Some(0),
        hits_player: false,
        position: Vec2 { x: 0, y: 0 },
        velocity: Vec2 { x: 0, y: 0 },
        damage: 40_000,
        radius: 1_000,
        piercing,
        hit_enemies: Vec::new(),
        id,
        spent: false,
    }
}

#[test]
fn three_hits_kill_at_the_third_blow() {
    let mut g = Game::new();
    g.enemies.push(EnemyBundle::new(Vec2 { x: 0, y: 0 }, 1).enemy);
    g.next_id = 2;
    assert_eq!(g.enemies[0].health, 100_000);

    g.bullets.push(still_bullet(10, 3));
    bullet::tick(&mut g, 0);
    assert_eq!(g.enemies[0].health, 60_000);
    assert_eq!(g.kills, 0);
    assert_eq!(g.player.score, 0);

    g.bullets.push(still_bullet(11, 3));
    bullet::tick(&mut g, 0);
    assert_eq!(g.enemies[0].health, 20_000);
    assert_eq!(g.kills, 0);
    assert_eq!(g.player.score, 0);

    g.bullets.push(still_bullet(12, 3));
    bullet::tick(&mut g, 0);
    assert_eq!(g.enemies[0].health, -20_000);
    // the kill and the points land at the frame of the killing blow
    assert_eq!(g.kills, 1);
    assert_eq!(g.player.score, 100);

    sweep_despawns(&mut g);
    assert!(g.enemies.is_empty());
}

#[test]
fn one_bullet_damages_one_enemy_only_once() {
    let mut g = Game::new();
    g.enemies.push(EnemyBundle::new(Vec2 { x: 0, y: 0 }, 1).enemy);
    g.next_id = 2;
    g.bullets.push(still_bullet(10, 9));

    bullet::tick(&mut g, 0);
    assert_eq!(g.enemies[0].health, 60_000);
    assert_eq!(g.bullets[0].piercing, 8);
    assert_eq!(g.bullets[0].hit_enemies, vec![1]);

    // the enemy is in the hit list: later frames leave it alone
    bullet::tick(&mut g, 0);
    assert_eq!(g.enemies[0].health, 60_000);
    assert_eq!(g.bullets[0].piercing, 8);
}

#[test]
fn piercing_is_clamped_at_zero() {
    let mut g = Game::new();
    g.enemies.push(EnemyBundle::new(Vec2 { x: 0, y: 0 }, 1).enemy);
    g.next_id = 2;
    g.bullets.push(still_bullet(10, 0));

    bullet::tick(&mut g, 0);
    assert_eq!(g.enemies[0].health, 60_000);
    assert_eq!(g.bullets[0].piercing, 0);
    assert!(g.bullets[0].spent);

    sweep_despawns(&mut g);
    assert!(g.bullets.is_empty());
}

#[test]
fn piercing_lets_one_bullet_damage_two_enemies() {
    let mut g = Game::new();
    g.enemies.push(EnemyBundle::new(Vec2 { x: 0, y: 0 }, 1).enemy);
    g.enemies.push(EnemyBundle::new(Vec2 { x: 500, y: 0 }, 2).enemy);
    g.next_id = 3;
    g.bullets.push(still_bullet(10, 2));

    bullet::tick(&mut g, 0);
    assert_eq!(g.enemies[0].health, 60_000);
    assert_eq!(g.enemies[1].health, 60_000);
    assert!(g.bullets[0].spent);
    assert_eq!(g.bullets[0].piercing, 0);
}

#[test]
fn bullets_fly_by_their_velocity() {
    let mut b = still_bullet(1, 1);
    b.velocity = Vec2 { x: 1_000, y: -2_000 };
    b.update_position(500);
    assert_eq!(b.position, Vec2 { x: 500, y: -1_000 });
}

#[test]
fn struck_enemy_faces_along_the_shot() {
    let mut g = Game::new();
    g.enemies.push(EnemyBundle::new(Vec2 { x: 0, y: 0 }, 1).enemy);
    g.next_id = 2;
    let mut b = still_bullet(10, 3);
    b.velocity = Vec2 { x: 0, y: -700 };
    b.position = Vec2 { x: 0, y: 0 };
    g.bullets.push(b);

    bullet::tick(&mut g, 0);
    assert_eq!(g.enemies[0].direction, Vec2 { x: 0, y: -1_000 });
}

#[test]
fn bullet_bundle_wraps_a_ball_collider() {
    let b = still_bullet(4, 1);
    let bundle = BulletBundle::new(b);
    assert_eq!(bundle.bullet.id, 4);
    assert_eq!(bundle.sprite.pos, Vec2 { x: 0, y: 0 });
}
