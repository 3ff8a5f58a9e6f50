use shooter_core::stat::{Stat, Stats};

#[test]
fn fresh_stat_resolves_to_its_base() {
    let s = Stat::new(60_000);
    assert_eq!(s.base, 60_000);
    assert_eq!(s.multiply, 1_000);
    assert_eq!(s.add, 0);
    assert_eq!(s.value(), 60_000);
}

#[test]
fn value_is_base_times_multiply_plus_add() {
    let mut s = Stat::new(60_000);
    s.apply_multiply(100);
    assert_eq!(s.value(), 66_000);
    s.apply_add(5_000);
    assert_eq!(s.value(), 71_000);
}

#[test]
fn two_multiply_shifts_merge_into_their_sum() {
    let mut twice = Stat::new(60_000);
    twice.apply_multiply(100);
    twice.apply_multiply(100);

    let mut once = Stat::new(60_000);
    once.apply_multiply(200);

    assert_eq!(twice, once);
    assert_eq!(twice.value(), 72_000);
}

#[test]
fn two_add_shifts_merge_into_their_sum() {
    let mut twice = Stat::new(10_000);
    twice.apply_add(3_000);
    twice.apply_add(4_000);

    let mut once = Stat::new(10_000);
    once.apply_add(7_000);

    assert_eq!(twice, once);
    assert_eq!(twice.value(), 17_000);
}

#[test]
fn stock_attribute_bundle() {
    let s = Stats::new();
    assert_eq!(s.damage.value(), 60_000);
    assert_eq!(s.speed.value(), 100_000);
    assert_eq!(s.max_health.value(), 100_000);
    assert_eq!(s.fire_interval.value(), 250);
    assert_eq!(s.shot_speed.value(), 500_000);
    assert_eq!(s.shot_duration.value(), 1_000);
    assert_eq!(s.shot_size.value(), 10_000);
    assert_eq!(s.piercing.value(), 1_000);
    assert_eq!(s.mass.value(), 100_000);
}
