use vstd::prelude::*;
use crate::geometry::{distance_squared_spec, EntityId, Point};
use crate::health::{grace_after_tick, Vitals};
use crate::random::{draw_between, draw_chance};
use crate::stats::{
    cap_at, lemma_pow_grows_past, lemma_pow_monotone_base_ge_one, pow_nat, ParrylordSingleton,
};
use crate::timer::{Timer, TimerMode, NANOS_PER_MILLI, NANOS_PER_SEC};

verus! {

/// Speed at which an enemy travels, in thousandths of a unit per second.
pub const ENEMY_SPEED: u32 = 300_000;

/// Base speed of an enemy projectile, in thousandths of a unit per second.
pub const SHOT_SPEED: i64 = 500_000;

/// Largest change to a shot's base speed, either way.
pub const SHOT_SPEED_JITTER: i64 = 150_000;

/// Shortest time-to-live of an enemy projectile.
pub const SHOT_TTL_MIN: u64 = 250 * NANOS_PER_MILLI;

/// Spread of the time-to-live of an enemy projectile above its minimum.
pub const SHOT_TTL_SPREAD: u64 = 3 * NANOS_PER_SEC;

/// An enemy closer than this (squared, in squared thousandths of a unit) to
/// its destination has arrived: 500 square units.
pub const ARRIVAL_DISTANCE_SQUARED: i128 = 500_000_000;

/// Largest jitter added to an aim or move target on each axis.
pub const TARGET_JITTER: i64 = 30_000;

/// Half-width of the play area.
pub const PLAY_AREA_X: i64 = 600_000;

/// Half-height of the play area.
pub const PLAY_AREA_Y: i64 = 200_000;

/// Period of an enemy's state timer.
pub const ENEMY_STATE_PERIOD: u64 = 2 * NANOS_PER_SEC;

/// Health of an enemy of the first level; it is raised to the power
/// `level - 1` on later levels.
pub const BASE_HEALTH: u32 = 2;

/// Which step of its cycle an enemy is in.
#[derive(Clone, Copy, Debug, PartialEq, Eq, Structural)]
pub enum EnemyState {
    Start,
    MovingTo(Point),
    Attacking(u8),
    Idling,
}

/// One enemy's decision for one tick, consumed in the same tick.
#[derive(Clone, Copy, Debug, PartialEq, Eq, Structural)]
pub enum EnemyIntent {
    Nothing,
    Idle(EntityId),
    Move(EntityId, Point),
    Attack(EntityId, Point, u8),
    GoToStart(EntityId),
}

/// The repeating timer that paces an enemy's state changes.
#[derive(Clone, Copy, Debug, PartialEq, Eq, Structural)]
pub struct EnemyStateTimer(pub Timer);

/// A live enemy.
#[derive(Clone, Copy, Debug, PartialEq, Eq, Structural)]
pub struct Enemy {
    pub id: EntityId,
    pub state: EnemyState,
    pub timer: EnemyStateTimer,
    pub position: Point,
    pub vitals: Vitals,
}

/// The random draws behind one enemy's decision for one tick.
#[derive(Clone, Copy, Debug, PartialEq, Eq, Structural)]
pub struct PlanDraws {
    /// From `Start`: travel first (rather than attack first).
    pub travel: bool,
    /// A move goes near the player (rather than to a random point).
    pub move_to_player: bool,
    /// An attack aims near the player (rather than at a random point).
    pub aim_at_player: bool,
    /// Jitter added to a chosen target.
    pub offset: Point,
    /// A random point of the play area.
    pub arena_point: Point,
    /// Number of shots of a new attack.
    pub shots: u8,
}

/// The random draws behind one enemy shot.
#[derive(Clone, Copy, Debug, PartialEq, Eq, Structural)]
pub struct ShotDraw {
    /// Change to the base speed of the shot.
    pub speed_jitter: i32,
    /// Time-to-live of the shot.
    pub ttl: u64,
}

/// What carrying out an intent asks of the physics engine and the spawner.
#[derive(Clone, Copy, Debug, PartialEq, Eq, Structural)]
pub enum EnemyCommand {
    /// Set the enemy's velocity toward `target` at `speed`.
    Steer { enemy: EntityId, from: Point, target: Point, speed: u32 },
    /// Spawn an enemy projectile at `origin`, flying toward `aim` at `speed`,
    /// with a time-to-live of `ttl` nanoseconds.
    Fire { enemy: EntityId, origin: Point, aim: Point, speed: u32, ttl: u64 },
}

/// A point drawn from the play area.
pub open spec fn in_play_area(p: Point) -> bool {
    -PLAY_AREA_X <= p.x < PLAY_AREA_X && -PLAY_AREA_Y <= p.y < PLAY_AREA_Y
}

/// The largest number of shots of an attack on `level`: `4 + level`.
pub open spec fn max_shots(level: u32) -> nat {
    (4 + level) as nat
}

/// `d` is a possible outcome of the draws of one decision on `level`.
pub open spec fn valid_draws(d: PlanDraws, level: u32) -> bool {
    &&& -TARGET_JITTER <= d.offset.x < TARGET_JITTER
    &&& -TARGET_JITTER <= d.offset.y < TARGET_JITTER
    &&& in_play_area(d.arena_point)
    &&& 1 <= d.shots
    &&& d.shots as nat <= max_shots(level)
    &&& max_shots(level) >= u8::MAX ==> exists|k: nat|
        1 <= k <= max_shots(level) && d.shots == cap_at(k, u8::MAX as nat)
}

/// `d` is a possible outcome of the draws of one shot.
pub open spec fn valid_shot(d: ShotDraw) -> bool {
    &&& -SHOT_SPEED_JITTER <= d.speed_jitter < SHOT_SPEED_JITTER
    &&& SHOT_TTL_MIN <= d.ttl < SHOT_TTL_MIN + SHOT_TTL_SPREAD
}

/// Where a new attack aims, or a move goes: near the player or near a random
/// point.
pub open spec fn target_spec(toward_player: bool, player: Point, d: PlanDraws) -> Point {
    if toward_player {
        player.plus_spec(d.offset)
    } else {
        d.arena_point.plus_spec(d.offset)
    }
}

/// The decision of enemy `id` in `state`, given whether its state timer just
/// finished, its position, the player's position and the draws `d`.
pub open spec fn plan_spec(
    id: EntityId,
    state: EnemyState,
    timer_expired: bool,
    position: Point,
    player: Point,
    d: PlanDraws,
) -> EnemyIntent {
    match state {
        EnemyState::Start => if d.travel {
            EnemyIntent::Move(id, target_spec(d.move_to_player, player, d))
        } else {
            EnemyIntent::Attack(id, target_spec(d.aim_at_player, player, d), d.shots)
        },
        EnemyState::MovingTo(target) => if timer_expired || distance_squared_spec(target, position)
            < ARRIVAL_DISTANCE_SQUARED {
            EnemyIntent::Attack(id, target_spec(d.aim_at_player, player, d), d.shots)
        } else {
            EnemyIntent::Nothing
        },
        EnemyState::Attacking(n) => if n != 0 {
            EnemyIntent::Attack(id, player, (n - 1) as u8)
        } else {
            EnemyIntent::Idle(id)
        },
        EnemyState::Idling => if timer_expired {
            EnemyIntent::GoToStart(id)
        } else {
            EnemyIntent::Nothing
        },
    }
}

impl EnemyIntent {
    /// The enemy that the intent is about, if any.
    pub open spec fn entity(self) -> Option<EntityId> {
        match self {
            EnemyIntent::Nothing => None,
            EnemyIntent::Idle(e) => Some(e),
            EnemyIntent::Move(e, _) => Some(e),
            EnemyIntent::Attack(e, _, _) => Some(e),
            EnemyIntent::GoToStart(e) => Some(e),
        }
    }

    /// The enemy that the intent is about, if any.
    pub fn get_entity(&self) -> (r: Option<EntityId>)
        ensures
            r == self.entity(),
    {
        match self {
            EnemyIntent::Nothing => None,
            EnemyIntent::Idle(e) => Some(*e),
            EnemyIntent::Move(e, _) => Some(*e),
            EnemyIntent::Attack(e, _, _) => Some(*e),
            EnemyIntent::GoToStart(e) => Some(*e),
        }
    }
}

/// The state that an intent puts its enemy in.
pub open spec fn next_state(intent: EnemyIntent, current: EnemyState) -> EnemyState {
    match intent {
        EnemyIntent::Nothing => current,
        EnemyIntent::Idle(_) => EnemyState::Idling,
        EnemyIntent::Move(_, target) => EnemyState::MovingTo(target),
        EnemyIntent::Attack(_, _, n) => if n > 0 {
            EnemyState::Attacking((n - 1) as u8)
        } else {
            EnemyState::Idling
        },
        EnemyIntent::GoToStart(_) => EnemyState::Start,
    }
}

/// What carrying out `intent` for enemy `e` asks of the outside, given the
/// draws `shot`.
pub open spec fn command_spec(intent: EnemyIntent, e: Enemy, shot: ShotDraw) -> Option<
    EnemyCommand,
> {
    match intent {
        EnemyIntent::Move(id, target) => Some(
            EnemyCommand::Steer { enemy: id, from: e.position, target, speed: ENEMY_SPEED },
        ),
        EnemyIntent::Attack(id, aim, _) => Some(
            EnemyCommand::Fire {
                enemy: id,
                origin: e.position,
                aim,
                speed: (SHOT_SPEED + shot.speed_jitter) as u32,
                ttl: shot.ttl,
            },
        ),
        _ => None,
    }
}

/// The index of the first enemy of `s` with identity `id`, if any.
pub open spec fn enemy_index(s: Seq<Enemy>, id: EntityId) -> Option<int> {
    if exists|k: int| is_first_with_id(s, id, k) {
        Some(choose|k: int| is_first_with_id(s, id, k))
    } else {
        None
    }
}

/// `k` is the index of the first enemy of `s` with identity `id`.
pub open spec fn is_first_with_id(s: Seq<Enemy>, id: EntityId, k: int) -> bool {
    0 <= k < s.len() && s[k].id == id && forall|j: int| 0 <= j < k ==> s[j].id != id
}

/// The enemies and the commands after carrying out `intent` with the draws
/// `shot`. An intent whose enemy is gone is dropped.
pub open spec fn execute_spec(s: Seq<Enemy>, intent: EnemyIntent, shot: ShotDraw) -> (
    Seq<Enemy>,
    Option<EnemyCommand>,
) {
    match intent.entity() {
        None => (s, None),
        Some(id) => match enemy_index(s, id) {
            None => (s, None),
            Some(k) => (
                s.update(k, Enemy { state: next_state(intent, s[k].state), ..s[k] }),
                command_spec(intent, s[k], shot),
            ),
        },
    }
}

/// The enemies and the commands after carrying out `intents` in turn, the
/// `i`-th with the draws `shots[i]`.
pub open spec fn execute_all(s: Seq<Enemy>, intents: Seq<EnemyIntent>, shots: Seq<ShotDraw>) -> (
    Seq<Enemy>,
    Seq<EnemyCommand>,
)
    decreases intents.len(),
{
    if intents.len() == 0 {
        (s, Seq::empty())
    } else {
        let (mid, cmds) = execute_all(s, intents.drop_last(), shots.take(intents.len() - 1));
        let (last, cmd) = execute_spec(mid, intents.last(), shots[intents.len() - 1]);
        match cmd {
            Some(c) => (last, cmds.push(c)),
            None => (last, cmds),
        }
    }
}

proof fn lemma_first_index_unique(s: Seq<Enemy>, id: EntityId, i: int)
    requires
        is_first_with_id(s, id, i),
    ensures
        enemy_index(s, id) == Some(i),
{
    let k = choose|k: int| is_first_with_id(s, id, k);
    assert(is_first_with_id(s, id, k));
    if k < i {
        assert(s[k].id != id);
    } else if k > i {
        assert(s[i].id != id);
    }
}

/// The index of the first enemy with identity `id`, if any.
pub fn find_enemy(es: &Vec<Enemy>, id: EntityId) -> (r: Option<usize>)
    ensures
        match r {
            Some(k) => enemy_index(es@, id) == Some(k as int),
            None => enemy_index(es@, id) is None,
        },
{
    let mut i: usize = 0;
    while i < es.len()
        invariant
            i <= es.len(),
            forall|j: int| 0 <= j < i ==> es@[j].id != id,
        decreases es.len() - i,
    {
        if es[i].id == id {
            proof {
                lemma_first_index_unique(es@, id, i as int);
            }
            return Some(i);
        }
        i = i + 1;
    }
    None
}

/// Whether the enemy's motion is halted (velocity, spin and orientation
/// reset) before it decides: in `Start` and in `Idling`.
pub fn halts_motion(state: EnemyState) -> (r: bool)
    ensures
        r == (state == EnemyState::Start || state == EnemyState::Idling),
{
    match state {
        EnemyState::Start => true,
        EnemyState::Idling => true,
        _ => false,
    }
}

/// Where a new attack aims, or a move goes.
fn choose_target(toward_player: bool, player: Point, d: &PlanDraws) -> (r: Point)
    ensures
        r == target_spec(toward_player, player, *d),
{
    if toward_player {
        player.plus(d.offset)
    } else {
        d.arena_point.plus(d.offset)
    }
}

/// The decision of enemy `id` for this tick, given its state, whether its
/// state timer just finished, its position, the player's position and the
/// draws `d`. It reads the state only: carrying it out is
/// `handle_enemy_intents`'s work.
pub fn plan_enemy_intent(
    id: EntityId,
    state: EnemyState,
    timer_expired: bool,
    position: Point,
    player: Point,
    d: &PlanDraws,
) -> (r: EnemyIntent)
    ensures
        r == plan_spec(id, state, timer_expired, position, player, *d),
{
    match state {
        EnemyState::Start => {
            if d.travel {
                EnemyIntent::Move(id, choose_target(d.move_to_player, player, d))
            } else {
                EnemyIntent::Attack(id, choose_target(d.aim_at_player, player, d), d.shots)
            }
        },
        EnemyState::MovingTo(target) => {
            if timer_expired || target.distance_squared(position) < ARRIVAL_DISTANCE_SQUARED {
                EnemyIntent::Attack(id, choose_target(d.aim_at_player, player, d), d.shots)
            } else {
                EnemyIntent::Nothing
            }
        },
        EnemyState::Attacking(n) => {
            if n != 0 {
                EnemyIntent::Attack(id, player, n - 1)
            } else {
                EnemyIntent::Idle(id)
            }
        },
        EnemyState::Idling => {
            if timer_expired {
                EnemyIntent::GoToStart(id)
            } else {
                EnemyIntent::Nothing
            }
        },
    }
}

/// A point drawn uniformly from the play area.
pub fn get_random_vec2_in_play_area() -> (r: Point)
    ensures
        in_play_area(r),
{
    let x = draw_between(-PLAY_AREA_X, PLAY_AREA_X - 1);
    let y = draw_between(-PLAY_AREA_Y, PLAY_AREA_Y - 1);
    Point { x: x as i32, y: y as i32 }
}

/// Draws what one enemy's decision on `level` needs: coin flips (one half to
/// travel, one half to move near the player, nine tenths to aim near the
/// player), a jitter, a random point and a number of shots between one and
/// `4 + level`, capped at `u8::MAX`.
pub fn draw_plan(level: u32) -> (r: PlanDraws)
    ensures
        valid_draws(r, level),
{
    let travel = draw_chance(1, 2);
    let move_to_player = draw_chance(1, 2);
    let aim_at_player = draw_chance(9, 10);
    let ox = draw_between(-TARGET_JITTER, TARGET_JITTER - 1);
    let oy = draw_between(-TARGET_JITTER, TARGET_JITTER - 1);
    let arena_point = get_random_vec2_in_play_area();
    let k = draw_between(1, 4 + level as i64);
    let shots: u8 = if k > u8::MAX as i64 {
        u8::MAX
    } else {
        k as u8
    };
    let r = PlanDraws {
        travel,
        move_to_player,
        aim_at_player,
        offset: Point { x: ox as i32, y: oy as i32 },
        arena_point,
        shots,
    };
    assert(1 <= k <= max_shots(level) && r.shots == cap_at(k as nat, u8::MAX as nat));
    r
}

/// Draws what one enemy shot needs: a change of speed and a time-to-live.
pub fn draw_shot() -> (r: ShotDraw)
    ensures
        valid_shot(r),
{
    let j = draw_between(-SHOT_SPEED_JITTER, SHOT_SPEED_JITTER - 1);
    let t = draw_between(SHOT_TTL_MIN as i64, (SHOT_TTL_MIN + SHOT_TTL_SPREAD - 1) as i64);
    ShotDraw { speed_jitter: j as i32, ttl: t as u64 }
}

/// `intent` is a decision that enemy `e` can make on `level`, for some
/// outcome of its draws.
pub open spec fn planned_by(intent: EnemyIntent, e: Enemy, player: Point, level: u32) -> bool {
    exists|d: PlanDraws|
        valid_draws(d, level) && intent == plan_spec(
            e.id,
            e.state,
            e.timer.0.just_finished_spec(),
            e.position,
            player,
            d,
        )
}

/// The decisions of every enemy for this tick, in order, each from its own
/// draws. They are computed from the enemies as they are before any of them
/// is carried out.
pub fn write_enemy_intents(es: &Vec<Enemy>, player: Point, level: u32) -> (r: Vec<EnemyIntent>)
    ensures
        r.len() == es.len(),
        forall|i: int| 0 <= i < es.len() ==> planned_by(#[trigger] r@[i], es@[i], player, level),
{
    let mut r: Vec<EnemyIntent> = Vec::new();
    let mut i: usize = 0;
    while i < es.len()
        invariant
            i <= es.len(),
            r.len() == i,
            forall|j: int| 0 <= j < i ==> planned_by(#[trigger] r@[j], es@[j], player, level),
        decreases es.len() - i,
    {
        let e = es[i];
        let d = draw_plan(level);
        let intent = plan_enemy_intent(
            e.id,
            e.state,
            e.timer.0.just_finished(),
            e.position,
            player,
            &d,
        );
        r.push(intent);
        i = i + 1;
    }
    r
}

/// Carries out one intent with the draws `shot`: the enemy takes its next
/// state, and a move or an attack yields its command. An intent whose enemy
/// is gone is dropped.
pub fn handle_enemy_intent(es: &mut Vec<Enemy>, intent: EnemyIntent, shot: &ShotDraw) -> (r:
    Option<EnemyCommand>)
    requires
        valid_shot(*shot),
    ensures
        (final(es)@, r) == execute_spec(old(es)@, intent, *shot),
{
    let id = match intent.get_entity() {
        Some(id) => id,
        None => {
            return None;
        },
    };
    let k = match find_enemy(es, id) {
        Some(k) => k,
        None => {
            return None;
        },
    };
    let mut e = es[k];
    let cmd = match intent {
        EnemyIntent::Move(_, target) => Some(
            EnemyCommand::Steer { enemy: id, from: e.position, target, speed: ENEMY_SPEED },
        ),
        EnemyIntent::Attack(_, aim, _) => Some(
            EnemyCommand::Fire {
                enemy: id,
                origin: e.position,
                aim,
                speed: (SHOT_SPEED + shot.speed_jitter as i64) as u32,
                ttl: shot.ttl,
            },
        ),
        _ => None,
    };
    e.state =
    match intent {
        EnemyIntent::Nothing => e.state,
        EnemyIntent::Idle(_) => EnemyState::Idling,
        EnemyIntent::Move(_, target) => EnemyState::MovingTo(target),
        EnemyIntent::Attack(_, _, n) => {
            if n > 0 {
                EnemyState::Attacking(n - 1)
            } else {
                EnemyState::Idling
            }
        },
        EnemyIntent::GoToStart(_) => EnemyState::Start,
    };
    es.set(k, e);
    cmd
}

/// Carries out every intent of this tick in turn, the `i`-th with the draws
/// `shots[i]`, and returns the commands they yield, in order.
pub fn handle_enemy_intents_with(
    es: &mut Vec<Enemy>,
    intents: &Vec<EnemyIntent>,
    shots: &Vec<ShotDraw>,
) -> (r: Vec<EnemyCommand>)
    requires
        shots.len() == intents.len(),
        forall|i: int| 0 <= i < shots.len() ==> valid_shot(#[trigger] shots@[i]),
    ensures
        (final(es)@, r@) == execute_all(old(es)@, intents@, shots@),
{
    let mut cmds: Vec<EnemyCommand> = Vec::new();
    let mut i: usize = 0;
    while i < intents.len()
        invariant
            i <= intents.len(),
            shots.len() == intents.len(),
            forall|j: int| 0 <= j < shots.len() ==> valid_shot(#[trigger] shots@[j]),
            (es@, cmds@) == execute_all(
                old(es)@,
                intents@.take(i as int),
                shots@.take(i as int),
            ),
        decreases intents.len() - i,
    {
        assert(intents@.take(i + 1).drop_last() =~= intents@.take(i as int));
        assert(shots@.take(i + 1).take(i as int) =~= shots@.take(i as int));
        assert(shots@.take(i + 1)[i as int] == shots@[i as int]);
        let shot = shots[i];
        match handle_enemy_intent(es, intents[i], &shot) {
            Some(c) => cmds.push(c),
            None => {},
        }
        i = i + 1;
    }
    assert(intents@.take(intents.len() as int) =~= intents@);
    assert(shots@.take(shots.len() as int) =~= shots@);
    cmds
}

/// Carries out every intent of this tick in turn, each attack with shot
/// draws of its own, and returns the commands they yield, in order.
pub fn handle_enemy_intents(es: &mut Vec<Enemy>, intents: &Vec<EnemyIntent>) -> (r: Vec<
    EnemyCommand,
>)
    ensures
        exists|shots: Seq<ShotDraw>|
            shots.len() == intents.len() && (forall|i: int|
                0 <= i < shots.len() ==> valid_shot(#[trigger] shots[i])) && (final(es)@, r@)
                == execute_all(old(es)@, intents@, shots),
{
    let mut shots: Vec<ShotDraw> = Vec::new();
    let mut i: usize = 0;
    while i < intents.len()
        invariant
            i <= intents.len(),
            shots.len() == i,
            forall|j: int| 0 <= j < shots.len() ==> valid_shot(#[trigger] shots@[j]),
        decreases intents.len() - i,
    {
        shots.push(draw_shot());
        i = i + 1;
    }
    handle_enemy_intents_with(es, intents, &shots)
}

/// Health of a new enemy on `level`: `BASE_HEALTH ^ (level - 1)`, saturating
/// at `u32::MAX`.
pub open spec fn spawn_health_spec(level: u32) -> nat {
    cap_at(pow_nat(BASE_HEALTH as nat, (if level >= 1 { level - 1 } else { 0 }) as nat), u32::MAX as nat)
}

/// Health of a new enemy on `level`: `BASE_HEALTH ^ (level - 1)`, saturating
/// at `u32::MAX`.
pub fn spawn_health(level: u32) -> (r: u32)
    ensures
        r as nat == spawn_health_spec(level),
{
    let e: u32 = if level >= 1 {
        level - 1
    } else {
        0
    };
    let ghost b = BASE_HEALTH as nat;
    let mut acc: u32 = 1;
    let mut i: u32 = 0;
    while i < e
        invariant
            e == (if level >= 1 { level - 1 } else { 0 }),
            i <= e,
            acc as nat == pow_nat(b, i as nat),
            b == 2,
        decreases e - i,
    {
        proof {
            lemma_pow_monotone_base_ge_one(b, i as nat);
            assert(pow_nat(b, (i + 1) as nat) == b * pow_nat(b, i as nat));
        }
        if acc > u32::MAX / BASE_HEALTH {
            proof {
                lemma_pow_grows_past(b, (i + 1) as nat, e as nat, u32::MAX as nat);
            }
            return u32::MAX;
        }
        acc = acc * BASE_HEALTH;
        i = i + 1;
    }
    acc
}

impl Enemy {
    /// The enemy's invariant: a running state timer and a well-formed health
    /// ledger.
    pub open spec fn wf(self) -> bool {
        self.timer.0.wf() && self.timer.0.mode == TimerMode::Repeating && self.vitals.wf()
    }

    /// A new enemy at `position` with `health` hit points: idling, with a
    /// fresh state timer.
    pub fn bundle(id: EntityId, position: Point, health: u32) -> (r: Enemy)
        ensures
            r == (Enemy {
                id,
                state: EnemyState::Idling,
                timer: EnemyStateTimer(Timer::new_spec(ENEMY_STATE_PERIOD, TimerMode::Repeating)),
                position,
                vitals: Vitals {
                    health: Some(crate::health::Health(health)),
                    invincibility: None,
                    zero_health: false,
                },
            }),
            r.wf(),
    {
        Enemy {
            id,
            state: EnemyState::Idling,
            timer: EnemyStateTimer(Timer::new(ENEMY_STATE_PERIOD, TimerMode::Repeating)),
            position,
            vitals: Vitals::new(health),
        }
    }
}

/// Every enemy of `s` is well formed.
pub open spec fn all_enemies_wf(s: Seq<Enemy>) -> bool {
    forall|i: int| 0 <= i < s.len() ==> (#[trigger] s[i]).wf()
}

/// Spawns one enemy for each identity of `ids`, at a random point of the play
/// area, with the health of an enemy of `level`.
pub fn handle_spawn_enemy_events(es: &mut Vec<Enemy>, ids: &Vec<EntityId>, level: u32)
    requires
        all_enemies_wf(old(es)@),
    ensures
        final(es).len() == old(es).len() + ids.len(),
        final(es)@.take(old(es).len() as int) == old(es)@,
        all_enemies_wf(final(es)@),
        forall|i: int|
            0 <= i < ids.len() ==> {
                let e = #[trigger] final(es)@[old(es).len() + i];
                &&& in_play_area(e.position)
                &&& e == Enemy::bundle_spec(ids@[i], e.position, spawn_health_spec(level) as u32)
            },
{
    let health = spawn_health(level);
    let mut i: usize = 0;
    while i < ids.len()
        invariant
            i <= ids.len(),
            health as nat == spawn_health_spec(level),
            es.len() == old(es).len() + i,
            es@.take(old(es).len() as int) == old(es)@,
            all_enemies_wf(es@),
            forall|j: int|
                0 <= j < i ==> {
                    let e = #[trigger] es@[old(es).len() + j];
                    &&& in_play_area(e.position)
                    &&& e == Enemy::bundle_spec(ids@[j], e.position, health)
                },
        decreases ids.len() - i,
    {
        let position = get_random_vec2_in_play_area();
        let e = Enemy::bundle(ids[i], position, health);
        let ghost prev = es@;
        es.push(e);
        assert(es@.take(old(es).len() as int) =~= prev.take(old(es).len() as int));
        assert forall|j: int| 0 <= j < i implies #[trigger] es@[old(es).len() + j] == prev[old(es).len() + j] by {}
        i = i + 1;
    }
}

impl Enemy {
    /// The enemy that `bundle` returns.
    pub open spec fn bundle_spec(id: EntityId, position: Point, health: u32) -> Enemy {
        Enemy {
            id,
            state: EnemyState::Idling,
            timer: EnemyStateTimer(Timer::new_spec(ENEMY_STATE_PERIOD, TimerMode::Repeating)),
            position,
            vitals: Vitals {
                health: Some(crate::health::Health(health)),
                invincibility: None,
                zero_health: false,
            },
        }
    }
}

/// Ticks every enemy's state timer and window of immunity by `delta`
/// nanoseconds; each window is removed on the tick where it finishes.
pub fn tick_enemy_state_timer(es: &mut Vec<Enemy>, delta: u64)
    requires
        all_enemies_wf(old(es)@),
    ensures
        final(es).len() == old(es).len(),
        all_enemies_wf(final(es)@),
        forall|i: int|
            0 <= i < final(es).len() ==> #[trigger] final(es)@[i] == (Enemy {
                timer: EnemyStateTimer(old(es)@[i].timer.0.ticked(delta as nat)),
                vitals: Vitals {
                    invincibility: grace_after_tick(old(es)@[i].vitals.invincibility, delta as nat),
                    ..old(es)@[i].vitals
                },
                ..old(es)@[i]
            }),
{
    let mut i: usize = 0;
    while i < es.len()
        invariant
            i <= es.len(),
            es.len() == old(es).len(),
            all_enemies_wf(es@),
            forall|j: int|
                0 <= j < i ==> #[trigger] es@[j] == (Enemy {
                    timer: EnemyStateTimer(old(es)@[j].timer.0.ticked(delta as nat)),
                    vitals: Vitals {
                        invincibility: grace_after_tick(
                            old(es)@[j].vitals.invincibility,
                            delta as nat,
                        ),
                        ..old(es)@[j].vitals
                    },
                    ..old(es)@[j]
                }),
            forall|j: int| i <= j < es.len() ==> #[trigger] es@[j] == old(es)@[j],
        decreases es.len() - i,
    {
        let mut e = es[i];
        assert(e.wf());
        e.timer.0.tick(delta);
        e.vitals.tick_invincibility(delta);
        es.set(i, e);
        i = i + 1;
    }
}

/// Marks every enemy whose health reached zero as dead (its health and
/// immunity removed).
pub fn handle_enemy_health(es: &mut Vec<Enemy>)
    requires
        all_enemies_wf(old(es)@),
    ensures
        final(es).len() == old(es).len(),
        all_enemies_wf(final(es)@),
        forall|i: int|
            0 <= i < final(es).len() ==> #[trigger] final(es)@[i] == if old(es)@[i].vitals.out_of_health() {
                Enemy {
                    vitals: Vitals { health: None, invincibility: None, zero_health: true },
                    ..old(es)@[i]
                }
            } else {
                old(es)@[i]
            },
{
    let mut i: usize = 0;
    while i < es.len()
        invariant
            i <= es.len(),
            es.len() == old(es).len(),
            all_enemies_wf(es@),
            forall|j: int|
                0 <= j < i ==> #[trigger] es@[j] == if old(es)@[j].vitals.out_of_health() {
                    Enemy {
                        vitals: Vitals { health: None, invincibility: None, zero_health: true },
                        ..old(es)@[j]
                    }
                } else {
                    old(es)@[j]
                },
            forall|j: int| i <= j < es.len() ==> #[trigger] es@[j] == old(es)@[j],
        decreases es.len() - i,
    {
        let mut e = es[i];
        e.vitals.handle_health();
        es.set(i, e);
        i = i + 1;
    }
}

/// The enemies of `s` that are not tagged dead.
pub open spec fn survivors(s: Seq<Enemy>) -> Seq<Enemy> {
    s.filter(|e: Enemy| !e.vitals.zero_health)
}

/// Removes every enemy tagged dead and counts each one as killed.
pub fn handle_dead_enemies(es: &mut Vec<Enemy>, stats: &mut ParrylordSingleton)
    ensures
        final(es)@ == survivors(old(es)@),
        final(stats).enemies_killed as nat == cap_at(
            (old(stats).enemies_killed + old(es).len() - survivors(old(es)@).len()) as nat,
            u32::MAX as nat,
        ),
        final(stats).level == old(stats).level,
        final(stats).max_parried == old(stats).max_parried,
{
    let ghost pred = |e: Enemy| !e.vitals.zero_health;
    let mut kept: Vec<Enemy> = Vec::new();
    let mut i: usize = 0;
    while i < es.len()
        invariant
            i <= es.len(),
            es@ == old(es)@,
            pred == (|e: Enemy| !e.vitals.zero_health),
            kept@ == es@.take(i as int).filter(pred),
            kept.len() <= i,
            stats.enemies_killed as nat == cap_at(
                (old(stats).enemies_killed + i - kept.len()) as nat,
                u32::MAX as nat,
            ),
            stats.level == old(stats).level,
            stats.max_parried == old(stats).max_parried,
        decreases es.len() - i,
    {
        proof {
            reveal(Seq::filter);
            assert(es@.take(i + 1).drop_last() =~= es@.take(i as int));
        }
        let e = es[i];
        if e.vitals.zero_health {
            stats.record_kill();
        } else {
            kept.push(e);
        }
        i = i + 1;
    }
    assert(es@.take(es.len() as int) =~= es@);
    *es = kept;
}

/// From `Attacking(0)` the next decision is always `Idle`; from `Idling`
/// with its timer just finished it is always `GoToStart`, and carrying that
/// out puts the enemy in `Start`. This holds whatever the draws.
pub proof fn lemma_enemy_cycle(
    id: EntityId,
    timer_expired: bool,
    position: Point,
    player: Point,
    d: PlanDraws,
    current: EnemyState,
)
    ensures
        plan_spec(id, EnemyState::Attacking(0), timer_expired, position, player, d)
            == EnemyIntent::Idle(id),
        plan_spec(id, EnemyState::Idling, true, position, player, d) == EnemyIntent::GoToStart(
            id,
        ),
        next_state(EnemyIntent::GoToStart(id), current) == EnemyState::Start,
{
}

} // verus!
