use parrylord::damage::{deal_damage, isqrt, spawn_fragments, FragmentBurst, FRAGMENT_LIMIT};
use parrylord::enemy::Enemy;
use parrylord::geometry::Point;
use parrylord::health::ENEMY_HIT_GRACE;
use parrylord::parry::{get_parry_attempt, handle_parries, merge_candidates};
use parrylord::projectile::{tick_ttl, Projectile, Side};
use parrylord::stats::ParrylordSingleton;
use parrylord::timer::{Timer, TimerMode, NANOS_PER_MILLI, NANOS_PER_SEC};

fn enemy_shot(id: u64, x: i32, y: i32, speed: u32, ttl: u64) -> Projectile {
    Projectile::enemy_attack(id, Point::new(x, y), Point::new(0, 1000), speed, ttl)
}

fn player_shot(id: u64, power: u32) -> Projectile {
    Projectile::player_attack(id, power, Point::new(5_000, 7_000), Point::new(1000, 0), 400_000, 2 * NANOS_PER_SEC)
}

#[test]
fn parry_of_three_merges_into_one() {
    let mut ps = vec![
        enemy_shot(1, 0, 0, 100_000, NANOS_PER_SEC),
        enemy_shot(2, 10_000, 0, 100_000, NANOS_PER_SEC),
        enemy_shot(3, -10_000, 0, 100_000, NANOS_PER_SEC),
    ];
    let mut stats = ParrylordSingleton::default();
    let attempt = get_parry_attempt(true, &vec![1, 2, 3], &ps);
    let heading = Point::new(0, 1000);
    let merged = handle_parries(attempt, heading, 10, &mut ps, &mut stats).unwrap();
    assert_eq!(merged.position, Point::new(0, 0));
    assert_eq!(merged.power, 4);
    assert_eq!(merged.ttl, 2 * NANOS_PER_SEC);
    assert_eq!(merged.speed, 100_000);
    assert_eq!(merged.total, 3);
    assert_eq!(stats.max_parried, 3);
    assert_eq!(ps.len(), 1);
    let p = ps[0];
    assert_eq!(p.id, 10);
    assert_eq!(p.side, Side::Player);
    assert_eq!(p.power, 4);
    assert_eq!(p.position, Point::new(0, 0));
    assert_eq!(p.heading, heading);
    assert_eq!(p.ttl.0, Timer::new(2 * NANOS_PER_SEC, TimerMode::Once));
}

#[test]
fn single_parry_has_power_one() {
    let mut ps = vec![enemy_shot(1, 3_000, -4_000, 250_000, 500 * NANOS_PER_MILLI)];
    let mut stats = ParrylordSingleton::default();
    let attempt = get_parry_attempt(true, &vec![1], &ps);
    let m = handle_parries(attempt, Point::new(1000, 0), 2, &mut ps, &mut stats).unwrap();
    assert_eq!(m.power, 1);
    assert_eq!(m.position, Point::new(3_000, -4_000));
    assert_eq!(m.ttl, 1_500 * NANOS_PER_MILLI);
    assert_eq!(stats.max_parried, 1);
}

#[test]
fn parry_means_round_toward_zero() {
    let cs = vec![
        enemy_shot(1, -1, -3, 1, NANOS_PER_SEC),
        enemy_shot(2, -2, 4, 2, 2 * NANOS_PER_SEC),
    ];
    let m = merge_candidates(&cs).unwrap();
    assert_eq!(m.position, Point::new(-1, 0));
    assert_eq!(m.speed, 1);
    assert_eq!(m.ttl, 2_500 * NANOS_PER_MILLI);
    assert_eq!(merge_candidates(&vec![]), None);
}

#[test]
fn parry_uses_remaining_ttl() {
    let mut ps = vec![enemy_shot(1, 0, 0, 100, NANOS_PER_SEC), enemy_shot(2, 0, 0, 100, NANOS_PER_SEC)];
    tick_ttl(&mut ps, 400 * NANOS_PER_MILLI);
    let mut stats = ParrylordSingleton::default();
    let attempt = get_parry_attempt(true, &vec![1, 2], &ps);
    let m = handle_parries(attempt, Point::new(1000, 0), 3, &mut ps, &mut stats).unwrap();
    assert_eq!(m.ttl, 1_600 * NANOS_PER_MILLI);
    assert_eq!(m.power, 2);
}

#[test]
fn no_click_no_parry() {
    let mut ps = vec![enemy_shot(1, 0, 0, 100, NANOS_PER_SEC)];
    let mut stats = ParrylordSingleton::default();
    let attempt = get_parry_attempt(false, &vec![1], &ps);
    assert!(attempt.is_none());
    assert_eq!(handle_parries(attempt, Point::new(1000, 0), 9, &mut ps, &mut stats), None);
    assert_eq!(ps.len(), 1);
    assert_eq!(stats.max_parried, 0);
}

#[test]
fn empty_overlap_is_a_wasted_click() {
    let mut ps = vec![enemy_shot(1, 0, 0, 100, NANOS_PER_SEC)];
    let mut stats = ParrylordSingleton::default();
    let attempt = get_parry_attempt(true, &vec![], &ps);
    assert_eq!(attempt, Some(vec![]));
    assert_eq!(handle_parries(attempt, Point::new(1000, 0), 9, &mut ps, &mut stats), None);
    assert_eq!(ps.len(), 1);
}

#[test]
fn player_projectiles_are_not_parried_again() {
    let mut ps = vec![enemy_shot(1, 0, 0, 100, NANOS_PER_SEC), player_shot(2, 8)];
    let mut stats = ParrylordSingleton::default();
    let attempt = get_parry_attempt(true, &vec![2, 1], &ps);
    assert_eq!(attempt, Some(vec![1]));
    let m = handle_parries(attempt, Point::new(1000, 0), 3, &mut ps, &mut stats).unwrap();
    assert_eq!(m.total, 1);
    assert_eq!(ps.len(), 2);
    assert_eq!(ps[0].id, 2);
    assert_eq!(ps[1].id, 3);
}

#[test]
fn vanished_candidates_are_skipped_and_despawned() {
    let mut ps = vec![enemy_shot(1, 2_000, 0, 100, NANOS_PER_SEC)];
    let mut stats = ParrylordSingleton::default();
    let m = handle_parries(Some(vec![7, 1]), Point::new(1000, 0), 3, &mut ps, &mut stats).unwrap();
    assert_eq!(m.total, 1);
    assert_eq!(m.position, Point::new(2_000, 0));
    assert_eq!(stats.max_parried, 1);
    let mut stats2 = ParrylordSingleton::default();
    let mut ps2 = vec![enemy_shot(1, 0, 0, 100, NANOS_PER_SEC)];
    assert_eq!(handle_parries(Some(vec![7, 8]), Point::new(1000, 0), 3, &mut ps2, &mut stats2), None);
    assert_eq!(ps2.len(), 1);
    assert_eq!(stats2.max_parried, 0);
}

#[test]
fn max_parried_never_drops_across_parries() {
    let mut stats = ParrylordSingleton::default();
    let mut ps = vec![
        enemy_shot(1, 0, 0, 100, NANOS_PER_SEC),
        enemy_shot(2, 0, 0, 100, NANOS_PER_SEC),
        enemy_shot(3, 0, 0, 100, NANOS_PER_SEC),
        enemy_shot(4, 0, 0, 100, NANOS_PER_SEC),
    ];
    handle_parries(Some(vec![1, 2, 3]), Point::new(1000, 0), 5, &mut ps, &mut stats);
    assert_eq!(stats.max_parried, 3);
    handle_parries(Some(vec![4]), Point::new(1000, 0), 6, &mut ps, &mut stats);
    assert_eq!(stats.max_parried, 3);
}

#[test]
fn integer_square_roots() {
    assert_eq!(isqrt(0), 0);
    assert_eq!(isqrt(1), 1);
    assert_eq!(isqrt(3), 1);
    assert_eq!(isqrt(4), 2);
    assert_eq!(isqrt(99), 9);
    assert_eq!(isqrt(100), 10);
    assert_eq!(isqrt(u32::MAX), 65535);
}

#[test]
fn wall_impact_splits_power_five_into_three() {
    let mut ps = vec![player_shot(1, 5)];
    let mut es: Vec<Enemy> = vec![];
    let walls = vec![100];
    let bursts = deal_damage(&mut ps, &mut es, &walls, &vec![vec![100]]);
    assert!(ps.is_empty());
    assert_eq!(bursts.len(), 1);
    let b = bursts[0];
    assert_eq!(b.count, 3);
    assert_eq!(b.power, 4);
    assert_eq!(b.parent, 1);
    assert!(b.wall_grace);
    assert_eq!(b.ttl, 2 * NANOS_PER_SEC);
    let ids = vec![11, 12, 13];
    let headings = vec![Point::new(0, 1000), Point::new(50, 998), Point::new(-50, 998)];
    spawn_fragments(&mut ps, &b, &ids, &headings);
    assert_eq!(ps.len(), 3);
    for (k, p) in ps.iter().enumerate() {
        assert_eq!(p.power, 4);
        assert_eq!(p.id, ids[k]);
        assert_eq!(p.heading, headings[k]);
        assert_eq!(p.speed, 400_000);
        assert!(p.invincibility.is_some());
    }
}

#[test]
fn power_one_projectile_does_not_split() {
    let mut ps = vec![player_shot(1, 1)];
    let mut es: Vec<Enemy> = vec![];
    let bursts = deal_damage(&mut ps, &mut es, &vec![100], &vec![vec![100]]);
    assert!(ps.is_empty());
    assert!(bursts.is_empty());
}

#[test]
fn enemy_hit_takes_power_as_damage() {
    let mut ps = vec![player_shot(1, 4)];
    let mut es = vec![Enemy::bundle(50, Point::new(0, 0), 10)];
    let bursts = deal_damage(&mut ps, &mut es, &vec![], &vec![vec![50]]);
    assert!(ps.is_empty());
    assert_eq!(es[0].vitals.health.unwrap().0, 6);
    assert_eq!(es[0].vitals.invincibility.unwrap().0, Timer::new(ENEMY_HIT_GRACE, TimerMode::Once));
    assert_eq!(bursts.len(), 1);
    assert_eq!(bursts[0].count, 2);
    assert_eq!(bursts[0].power, 3);
    assert!(!bursts[0].wall_grace);
}

#[test]
fn damage_saturates_at_zero() {
    let mut ps = vec![player_shot(1, 9)];
    let mut es = vec![Enemy::bundle(50, Point::new(0, 0), 2)];
    deal_damage(&mut ps, &mut es, &vec![], &vec![vec![50]]);
    assert_eq!(es[0].vitals.health.unwrap().0, 0);
}

#[test]
fn immune_enemy_is_passed_through() {
    let mut ps = vec![player_shot(1, 4)];
    let mut es = vec![Enemy::bundle(50, Point::new(0, 0), 10)];
    es[0].vitals.take_damage(0, ENEMY_HIT_GRACE);
    let bursts = deal_damage(&mut ps, &mut es, &vec![], &vec![vec![50]]);
    assert_eq!(ps.len(), 1);
    assert!(bursts.is_empty());
    assert_eq!(es[0].vitals.health.unwrap().0, 10);
}

#[test]
fn wall_and_enemy_in_one_set_both_take_effect() {
    let mut ps = vec![player_shot(1, 3)];
    let mut es = vec![Enemy::bundle(50, Point::new(0, 0), 10)];
    let bursts = deal_damage(&mut ps, &mut es, &vec![100], &vec![vec![100, 50]]);
    assert!(ps.is_empty());
    assert_eq!(es[0].vitals.health.unwrap().0, 7);
    assert_eq!(bursts.len(), 1);
    assert!(bursts[0].wall_grace);
}

#[test]
fn projectile_in_grace_is_not_resolved() {
    let mut ps = vec![player_shot(1, 3)];
    let b = FragmentBurst {
        parent: 1,
        position: Point::new(0, 0),
        heading: Point::new(1000, 0),
        speed: 10,
        power: 2,
        ttl: NANOS_PER_SEC,
        count: 1,
        wall_grace: true,
    };
    ps.clear();
    spawn_fragments(&mut ps, &b, &vec![2], &vec![Point::new(0, 1000)]);
    let mut es: Vec<Enemy> = vec![];
    let bursts = deal_damage(&mut ps, &mut es, &vec![100], &vec![vec![100]]);
    assert_eq!(ps.len(), 1);
    assert!(bursts.is_empty());
}

#[test]
fn enemy_projectiles_and_empty_sets_are_untouched() {
    let mut ps = vec![enemy_shot(1, 0, 0, 100, NANOS_PER_SEC), player_shot(2, 3)];
    let mut es: Vec<Enemy> = vec![];
    let bursts = deal_damage(&mut ps, &mut es, &vec![100], &vec![vec![100], vec![]]);
    assert_eq!(ps.len(), 2);
    assert!(bursts.is_empty());
}

#[test]
fn fragmentation_stops_after_the_limit() {
    let n = FRAGMENT_LIMIT + 1;
    let mut ps: Vec<Projectile> = (0..n as u64).map(|i| player_shot(i + 1, 2)).collect();
    let contacts: Vec<Vec<u64>> = (0..n).map(|_| vec![100]).collect();
    let mut es: Vec<Enemy> = vec![];
    let bursts = deal_damage(&mut ps, &mut es, &vec![100], &contacts);
    assert!(ps.is_empty());
    assert_eq!(bursts.len(), FRAGMENT_LIMIT);
    assert_eq!(bursts[FRAGMENT_LIMIT - 1].parent, FRAGMENT_LIMIT as u64);
}
