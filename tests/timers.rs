use parrylord::health::{hurt, InvincibilityTimer, Vitals, PLAYER_HIT_GRACE};
use parrylord::projectile::{get_done_ttl_timers, handle_done_ttl_timers, tick_ttl, Projectile};
use parrylord::geometry::Point;
use parrylord::timer::{Timer, TimerMode, NANOS_PER_MILLI, NANOS_PER_SEC};

#[test]
fn once_timer_fires_on_the_tick_that_reaches_duration() {
    let mut t = Timer::new(NANOS_PER_SEC, TimerMode::Once);
    t.tick(400 * NANOS_PER_MILLI);
    assert!(!t.just_finished());
    t.tick(400 * NANOS_PER_MILLI);
    assert!(!t.just_finished());
    assert_eq!(t.remaining(), 200 * NANOS_PER_MILLI);
    t.tick(400 * NANOS_PER_MILLI);
    assert!(t.just_finished());
    assert!(t.is_finished());
    assert_eq!(t.remaining(), 0);
    t.tick(400 * NANOS_PER_MILLI);
    assert!(!t.just_finished());
    assert!(t.is_finished());
}

#[test]
fn once_timer_fires_when_exactly_reached() {
    let mut t = Timer::new(NANOS_PER_SEC, TimerMode::Once);
    t.tick(500 * NANOS_PER_MILLI);
    t.tick(500 * NANOS_PER_MILLI);
    assert!(t.just_finished());
}

#[test]
fn repeating_timer_wraps_and_counts() {
    let mut t = Timer::new(2 * NANOS_PER_SEC, TimerMode::Repeating);
    t.tick(3 * NANOS_PER_SEC);
    assert!(t.just_finished());
    assert_eq!(t.times_finished_this_tick, 1);
    assert_eq!(t.elapsed, NANOS_PER_SEC);
    t.tick(500 * NANOS_PER_MILLI);
    assert!(!t.just_finished());
    t.tick(4 * NANOS_PER_SEC);
    assert_eq!(t.times_finished_this_tick, 2);
    assert_eq!(t.elapsed, 1_500 * NANOS_PER_MILLI);
}

fn shot(id: u64, ttl: u64) -> Projectile {
    Projectile::enemy_attack(id, Point::new(0, 0), Point::new(1000, 0), 100_000, ttl)
}

#[test]
fn ttl_expiry_despawns_exactly_once() {
    let mut ps = vec![shot(1, NANOS_PER_SEC), shot(2, 3 * NANOS_PER_SEC)];
    tick_ttl(&mut ps, 600 * NANOS_PER_MILLI);
    assert!(get_done_ttl_timers(&ps).is_empty());
    tick_ttl(&mut ps, 600 * NANOS_PER_MILLI);
    let done = get_done_ttl_timers(&ps);
    assert_eq!(done, vec![1]);
    handle_done_ttl_timers(&mut ps, &done);
    assert_eq!(ps.len(), 1);
    assert_eq!(ps[0].id, 2);
    // despawning again is harmless
    handle_done_ttl_timers(&mut ps, &done);
    assert_eq!(ps.len(), 1);
}

#[test]
fn invincibility_is_removed_on_the_tick_it_finishes() {
    let mut v = Vitals::new(5);
    v.take_damage(1, 200 * NANOS_PER_MILLI);
    assert_eq!(v.health.unwrap().0, 4);
    assert!(!v.is_damageable());
    v.tick_invincibility(100 * NANOS_PER_MILLI);
    assert!(v.invincibility.is_some());
    v.tick_invincibility(100 * NANOS_PER_MILLI);
    assert!(v.invincibility.is_none());
    assert!(v.is_damageable());
}

#[test]
fn zero_health_is_tagged_and_cleared() {
    let mut v = Vitals::new(1);
    v.take_damage(3, 200 * NANOS_PER_MILLI);
    assert!(v.check_health());
    v.handle_health();
    assert_eq!(v.health, None);
    assert_eq!(v.invincibility, None);
    assert!(v.zero_health);
    let mut alive = Vitals::new(2);
    alive.handle_health();
    assert_eq!(alive, Vitals::new(2));
}

#[test]
fn player_hurt_takes_one_and_grants_grace() {
    let mut p = Vitals::new(20);
    assert!(!hurt(&mut p, false));
    assert_eq!(p.health.unwrap().0, 20);
    assert!(hurt(&mut p, true));
    assert_eq!(p.health.unwrap().0, 19);
    assert_eq!(p.invincibility, Some(InvincibilityTimer::new(PLAYER_HIT_GRACE)));
    assert!(!hurt(&mut p, true));
    assert_eq!(p.health.unwrap().0, 19);
}
