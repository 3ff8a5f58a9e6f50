use shooter_core::game::{sweep_despawns, Game};
use shooter_core::pickup;
use shooter_core::pickup::{
    effect, kind_from_index, Pickup, PickupBundle, PickupKind, StatTarget,
};
use shooter_core::vec2::Vec2;

#[test]
fn effects_by_kind() {
    let d = effect(PickupKind::MaxHealthUp);
    assert!(matches!(d.target, StatTarget::MaxHealth));
    assert_eq!(d.multiply_delta, 0);
    assert_eq!(d.add_delta, 20_000);
    assert_eq!(d.heal, 20_000);

    let d = effect(PickupKind::DamageUp);
    assert!(matches!(d.target, StatTarget::Damage));
    assert_eq!(d.multiply_delta, 100);

    let d = effect(PickupKind::ShotSpeedUp);
    assert!(matches!(d.target, StatTarget::ShotSpeed));
    assert_eq!(d.multiply_delta, 100);

    let d = effect(PickupKind::FireRateUp);
    assert!(matches!(d.target, StatTarget::FireInterval));
    assert_eq!(d.multiply_delta, -100);
    assert_eq!(d.heal, 0);
}

#[test]
fn kinds_come_in_a_fixed_order() {
    assert!(matches!(kind_from_index(0), PickupKind::MaxHealthUp));
    assert!(matches!(kind_from_index(1), PickupKind::DamageUp));
    assert!(matches!(kind_from_index(2), PickupKind::ShotSpeedUp));
    assert!(matches!(kind_from_index(3), PickupKind::FireRateUp));
    assert!(matches!(kind_from_index(7), PickupKind::MaxHealthUp));
}

#[test]
fn colors_tell_the_kinds_apart() {
    let a = Pickup::get_color(PickupKind::MaxHealthUp);
    let b = Pickup::get_color(PickupKind::DamageUp);
    let c = Pickup::get_color(PickupKind::ShotSpeedUp);
    let d = Pickup::get_color(PickupKind::FireRateUp);
    assert_ne!(a, b);
    assert_ne!(a, c);
    assert_ne!(a, d);
    assert_ne!(b, c);
    assert_ne!(b, d);
    assert_ne!(c, d);
}

#[test]
fn fire_rate_pickup_applies_once_and_disappears() {
    let mut g = Game::new();
    g.pickups.push(Pickup {
        kind: PickupKind::FireRateUp,
        position: Vec2 { x: 0, y: 0 },
        id: 0,
        consumed: false,
    });
    assert_eq!(g.player.stats.fire_interval.multiply, 1_000);

    pickup::tick(&mut g);
    assert_eq!(g.player.stats.fire_interval.multiply, 900);
    assert!(g.pickups[0].consumed);

    // a second query within the same frame cannot double-apply the effect
    pickup::tick(&mut g);
    assert_eq!(g.player.stats.fire_interval.multiply, 900);

    sweep_despawns(&mut g);
    assert!(g.pickups.is_empty());
}

#[test]
fn max_health_pickup_heals_by_what_it_adds() {
    let mut g = Game::new();
    g.player.health = 70_000;
    g.pickups.push(Pickup {
        kind: PickupKind::MaxHealthUp,
        position: Vec2 { x: 0, y: 0 },
        id: 0,
        consumed: false,
    });
    pickup::tick(&mut g);
    assert_eq!(g.player.health, 90_000);
    assert_eq!(g.player.stats.max_health.value(), 120_000);
}

#[test]
fn apply_shifts_exactly_the_targeted_stat() {
    let mut player = shooter_core::player::Player::default();
    let p = Pickup {
        kind: PickupKind::DamageUp,
        position: Vec2 { x: 0, y: 0 },
        id: 0,
        consumed: false,
    };
    p.apply(&mut player);
    assert_eq!(player.stats.damage.multiply, 1_100);
    assert_eq!(player.stats.damage.value(), 66_000);
    assert_eq!(player.stats.shot_speed.multiply, 1_000);
    assert_eq!(player.health, 100_000);

    let q = Pickup {
        kind: PickupKind::ShotSpeedUp,
        position: Vec2 { x: 0, y: 0 },
        id: 1,
        consumed: false,
    };
    q.apply(&mut player);
    assert_eq!(player.stats.shot_speed.multiply, 1_100);
    assert_eq!(player.stats.shot_speed.value(), 550_000);
}

#[test]
fn distant_pickup_is_left_alone() {
    let mut g = Game::new();
    g.pickups.push(Pickup {
        kind: PickupKind::DamageUp,
        position: Vec2 { x: 500_000, y: 0 },
        id: 0,
        consumed: false,
    });
    pickup::tick(&mut g);
    assert!(!g.pickups[0].consumed);
    assert_eq!(g.player.stats.damage.multiply, 1_000);
}

#[test]
fn pickup_bundle_carries_kind_and_position() {
    let b = PickupBundle::from_kind(Vec2 { x: 7, y: 8 }, PickupKind::ShotSpeedUp, 3);
    assert!(matches!(b.pickup.kind, PickupKind::ShotSpeedUp));
    assert_eq!(b.pickup.position, Vec2 { x: 7, y: 8 });
    assert_eq!(b.pickup.id, 3);
    assert!(!b.pickup.consumed);
    assert_eq!(b.sprite.pos, Vec2 { x: 7, y: 8 });

    let r = PickupBundle::new(11);
    assert_eq!(r.pickup.id, 11);
    assert_eq!(r.pickup.position, Vec2 { x: 0, y: 0 });
}
