use parrylord::enemy::{
    draw_plan, draw_shot, get_random_vec2_in_play_area, halts_motion, handle_dead_enemies,
    handle_enemy_health, handle_enemy_intent, handle_enemy_intents, handle_enemy_intents_with,
    handle_spawn_enemy_events, plan_enemy_intent, spawn_health, tick_enemy_state_timer,
    write_enemy_intents, Enemy, EnemyCommand, EnemyIntent, EnemyState, PlanDraws, ShotDraw,
    ENEMY_SPEED, PLAY_AREA_X, PLAY_AREA_Y,
};
use parrylord::geometry::Point;
use parrylord::stats::ParrylordSingleton;
use parrylord::timer::{NANOS_PER_MILLI, NANOS_PER_SEC};

fn draws(travel: bool, move_to_player: bool, aim_at_player: bool) -> PlanDraws {
    PlanDraws {
        travel,
        move_to_player,
        aim_at_player,
        offset: Point::new(1_000, -2_000),
        arena_point: Point::new(100_000, 50_000),
        shots: 3,
    }
}

const PLAYER: Point = Point { x: 40_000, y: 20_000 };
const HERE: Point = Point { x: 0, y: 0 };

#[test]
fn attacking_zero_goes_idle() {
    for expired in [false, true] {
        let i = plan_enemy_intent(7, EnemyState::Attacking(0), expired, HERE, PLAYER, &draws(true, true, true));
        assert_eq!(i, EnemyIntent::Idle(7));
    }
}

#[test]
fn idling_with_expired_timer_goes_to_start() {
    let i = plan_enemy_intent(7, EnemyState::Idling, true, HERE, PLAYER, &draws(false, false, false));
    assert_eq!(i, EnemyIntent::GoToStart(7));
    let i = plan_enemy_intent(7, EnemyState::Idling, false, HERE, PLAYER, &draws(false, false, false));
    assert_eq!(i, EnemyIntent::Nothing);
    let mut es = vec![Enemy::bundle(7, HERE, 3)];
    let shot = ShotDraw { speed_jitter: 0, ttl: NANOS_PER_SEC };
    assert_eq!(handle_enemy_intent(&mut es, EnemyIntent::GoToStart(7), &shot), None);
    assert_eq!(es[0].state, EnemyState::Start);
}

#[test]
fn attacking_reaims_at_the_player() {
    let i = plan_enemy_intent(7, EnemyState::Attacking(3), false, HERE, PLAYER, &draws(true, true, false));
    assert_eq!(i, EnemyIntent::Attack(7, PLAYER, 2));
}

#[test]
fn start_travels_or_attacks() {
    let i = plan_enemy_intent(1, EnemyState::Start, false, HERE, PLAYER, &draws(true, true, true));
    assert_eq!(i, EnemyIntent::Move(1, Point::new(41_000, 18_000)));
    let i = plan_enemy_intent(1, EnemyState::Start, false, HERE, PLAYER, &draws(true, false, true));
    assert_eq!(i, EnemyIntent::Move(1, Point::new(101_000, 48_000)));
    let i = plan_enemy_intent(1, EnemyState::Start, false, HERE, PLAYER, &draws(false, false, true));
    assert_eq!(i, EnemyIntent::Attack(1, Point::new(41_000, 18_000), 3));
    let i = plan_enemy_intent(1, EnemyState::Start, false, HERE, PLAYER, &draws(false, true, false));
    assert_eq!(i, EnemyIntent::Attack(1, Point::new(101_000, 48_000), 3));
}

#[test]
fn moving_attacks_on_arrival_or_timeout() {
    let target = Point::new(10_000, 10_000);
    let d = draws(false, false, true);
    // 15 units away on each axis: 450 square units, arrived
    let near = Point::new(25_000, 25_000);
    assert_eq!(
        plan_enemy_intent(1, EnemyState::MovingTo(target), false, near, PLAYER, &d),
        EnemyIntent::Attack(1, Point::new(41_000, 18_000), 3)
    );
    // 16 units away on each axis: 512 square units, still travelling
    let far = Point::new(26_000, 26_000);
    assert_eq!(plan_enemy_intent(1, EnemyState::MovingTo(target), false, far, PLAYER, &d), EnemyIntent::Nothing);
    assert_eq!(
        plan_enemy_intent(1, EnemyState::MovingTo(target), true, far, PLAYER, &d),
        EnemyIntent::Attack(1, Point::new(41_000, 18_000), 3)
    );
}

#[test]
fn motion_halts_in_start_and_idling() {
    assert!(halts_motion(EnemyState::Start));
    assert!(halts_motion(EnemyState::Idling));
    assert!(!halts_motion(EnemyState::Attacking(2)));
    assert!(!halts_motion(EnemyState::MovingTo(HERE)));
}

#[test]
fn intents_update_state_and_yield_commands() {
    let mut es = vec![Enemy::bundle(1, Point::new(5_000, 6_000), 3), Enemy::bundle(2, HERE, 3)];
    let intents = vec![
        EnemyIntent::Move(1, PLAYER),
        EnemyIntent::Attack(2, PLAYER, 2),
        EnemyIntent::Nothing,
        EnemyIntent::Idle(9),
    ];
    let shots = vec![
        ShotDraw { speed_jitter: 0, ttl: NANOS_PER_SEC },
        ShotDraw { speed_jitter: -100_000, ttl: 2 * NANOS_PER_SEC },
        ShotDraw { speed_jitter: 0, ttl: NANOS_PER_SEC },
        ShotDraw { speed_jitter: 0, ttl: NANOS_PER_SEC },
    ];
    let cmds = handle_enemy_intents_with(&mut es, &intents, &shots);
    assert_eq!(es[0].state, EnemyState::MovingTo(PLAYER));
    assert_eq!(es[1].state, EnemyState::Attacking(1));
    assert_eq!(
        cmds,
        vec![
            EnemyCommand::Steer { enemy: 1, from: Point::new(5_000, 6_000), target: PLAYER, speed: ENEMY_SPEED },
            EnemyCommand::Fire { enemy: 2, origin: HERE, aim: PLAYER, speed: 400_000, ttl: 2 * NANOS_PER_SEC },
        ]
    );
}

#[test]
fn last_shot_ends_in_idling() {
    let mut es = vec![Enemy::bundle(1, HERE, 3)];
    let shot = ShotDraw { speed_jitter: 0, ttl: NANOS_PER_SEC };
    let c = handle_enemy_intent(&mut es, EnemyIntent::Attack(1, PLAYER, 0), &shot);
    assert!(matches!(c, Some(EnemyCommand::Fire { speed: 500_000, .. })));
    assert_eq!(es[0].state, EnemyState::Idling);
    assert_eq!(handle_enemy_intent(&mut es, EnemyIntent::Idle(1), &shot), None);
    assert_eq!(es[0].state, EnemyState::Idling);
}

#[test]
fn random_draws_stay_in_range_and_vary() {
    let mut travels = 0;
    let mut points = Vec::new();
    for _ in 0..400 {
        let d = draw_plan(3);
        assert!(d.shots >= 1 && d.shots <= 7);
        assert!(d.offset.x >= -30_000 && d.offset.x < 30_000);
        assert!(d.offset.y >= -30_000 && d.offset.y < 30_000);
        if d.travel {
            travels += 1;
        }
        let p = get_random_vec2_in_play_area();
        assert!(p.x as i64 >= -PLAY_AREA_X && (p.x as i64) < PLAY_AREA_X);
        assert!(p.y as i64 >= -PLAY_AREA_Y && (p.y as i64) < PLAY_AREA_Y);
        points.push(p);
        let s = draw_shot();
        assert!(s.speed_jitter >= -150_000 && s.speed_jitter < 150_000);
        assert!(s.ttl >= 250 * NANOS_PER_MILLI && s.ttl < 3_250 * NANOS_PER_MILLI);
    }
    assert!(travels > 0 && travels < 400);
    assert!(points.iter().any(|p| *p != points[0]));
}

#[test]
fn shot_count_is_capped_at_u8_max() {
    for _ in 0..50 {
        let d = draw_plan(u32::MAX);
        assert!(d.shots >= 1);
    }
}

#[test]
fn intents_for_every_enemy() {
    let es = vec![
        Enemy::bundle(1, HERE, 3),
        Enemy { state: EnemyState::Attacking(0), ..Enemy::bundle(2, HERE, 3) },
    ];
    let intents = write_enemy_intents(&es, PLAYER, 1);
    assert_eq!(intents.len(), 2);
    assert_eq!(intents[0], EnemyIntent::Nothing);
    assert_eq!(intents[1], EnemyIntent::Idle(2));
    let mut es2 = es.clone();
    let cmds = handle_enemy_intents(&mut es2, &intents);
    assert!(cmds.is_empty());
    assert_eq!(es2[1].state, EnemyState::Idling);
}

#[test]
fn state_timer_expires_every_two_seconds() {
    let mut es = vec![Enemy::bundle(1, HERE, 3)];
    tick_enemy_state_timer(&mut es, 1_500 * NANOS_PER_MILLI);
    assert!(!es[0].timer.0.just_finished());
    tick_enemy_state_timer(&mut es, 600 * NANOS_PER_MILLI);
    assert!(es[0].timer.0.just_finished());
    let i = write_enemy_intents(&es, PLAYER, 1);
    assert_eq!(i[0], EnemyIntent::GoToStart(1));
}

#[test]
fn spawn_health_grows_with_level() {
    assert_eq!(spawn_health(1), 1);
    assert_eq!(spawn_health(2), 2);
    assert_eq!(spawn_health(4), 8);
    assert_eq!(spawn_health(32), 1u32 << 31);
    assert_eq!(spawn_health(33), u32::MAX);
    assert_eq!(spawn_health(0), 1);
}

#[test]
fn spawned_enemies_start_idling() {
    let mut es = vec![];
    handle_spawn_enemy_events(&mut es, &vec![4, 5, 6], 3);
    assert_eq!(es.len(), 3);
    for (k, e) in es.iter().enumerate() {
        assert_eq!(e.id, 4 + k as u64);
        assert_eq!(e.state, EnemyState::Idling);
        assert_eq!(e.vitals.health.unwrap().0, 4);
    }
}

#[test]
fn dead_enemies_are_removed_and_counted() {
    let mut es = vec![Enemy::bundle(1, HERE, 0), Enemy::bundle(2, HERE, 5), Enemy::bundle(3, HERE, 0)];
    handle_enemy_health(&mut es);
    assert!(es[0].vitals.zero_health);
    assert!(!es[1].vitals.zero_health);
    let mut stats = ParrylordSingleton::default();
    handle_dead_enemies(&mut es, &mut stats);
    assert_eq!(es.len(), 1);
    assert_eq!(es[0].id, 2);
    assert_eq!(stats.enemies_killed, 2);
    handle_dead_enemies(&mut es, &mut stats);
    assert_eq!(stats.enemies_killed, 2);
}
