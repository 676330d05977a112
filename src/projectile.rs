use vstd::prelude::*;
use crate::geometry::{EntityId, Point};
use crate::health::{grace_after_tick, grace_wf, tick_and_expire_invincibility, InvincibilityTimer};
use crate::timer::{Timer, TimerMode};

verus! {

/// Which side fired a projectile: enemy projectiles hurt the player, player
/// projectiles hurt enemies.
#[derive(Clone, Copy, Debug, PartialEq, Eq, Structural)]
pub enum Side {
    Enemy,
    Player,
}

/// Time-to-live of a transient entity: a one-shot countdown after which it is
/// removed.
#[derive(Clone, Copy, Debug, PartialEq, Eq, Structural)]
pub struct Ttl(pub Timer);

impl Ttl {
    /// A fresh time-to-live of `nanos` nanoseconds.
    pub fn new(nanos: u64) -> (r: Ttl)
        ensures
            r.0 == Timer::new_spec(nanos, TimerMode::Once),
            r.wf(),
    {
        Ttl(Timer::new(nanos, TimerMode::Once))
    }

    /// The countdown's invariant: a well-formed one-shot timer.
    pub open spec fn wf(self) -> bool {
        self.0.wf() && self.0.mode == TimerMode::Once
    }
}

/// A live projectile. `heading` is its direction of travel as a vector of
/// length about one thousand, `speed` its speed in thousandths of a unit per
/// second; the physics engine moves it along.
#[derive(Clone, Copy, Debug, PartialEq, Eq, Structural)]
pub struct Projectile {
    pub id: EntityId,
    pub side: Side,
    pub power: u32,
    pub position: Point,
    pub heading: Point,
    pub speed: u32,
    pub ttl: Ttl,
    pub invincibility: Option<InvincibilityTimer>,
}

impl Projectile {
    /// A projectile's invariant: its power is positive and its timers are
    /// well formed.
    pub open spec fn wf(self) -> bool {
        self.power > 0 && self.ttl.wf() && grace_wf(self.invincibility)
    }

    /// Nanoseconds left of its time-to-live.
    pub open spec fn ttl_remaining(self) -> nat {
        (self.ttl.0.duration - self.ttl.0.elapsed) as nat
    }
}

impl Projectile {
    /// An enemy projectile of power one at `origin`, with a fresh
    /// time-to-live of `ttl` nanoseconds.
    pub fn enemy_attack(id: EntityId, origin: Point, heading: Point, speed: u32, ttl: u64) -> (r:
        Projectile)
        ensures
            r == (Projectile {
                id,
                side: Side::Enemy,
                power: 1,
                position: origin,
                heading,
                speed,
                ttl: Ttl(Timer::new_spec(ttl, TimerMode::Once)),
                invincibility: None,
            }),
            r.wf(),
    {
        Projectile {
            id,
            side: Side::Enemy,
            power: 1,
            position: origin,
            heading,
            speed,
            ttl: Ttl::new(ttl),
            invincibility: None,
        }
    }

    /// A player projectile of `power` at `origin`, with a fresh time-to-live
    /// of `ttl` nanoseconds.
    pub fn player_attack(
        id: EntityId,
        power: u32,
        origin: Point,
        heading: Point,
        speed: u32,
        ttl: u64,
    ) -> (r: Projectile)
        requires
            power > 0,
        ensures
            r == (Projectile {
                id,
                side: Side::Player,
                power,
                position: origin,
                heading,
                speed,
                ttl: Ttl(Timer::new_spec(ttl, TimerMode::Once)),
                invincibility: None,
            }),
            r.wf(),
    {
        Projectile {
            id,
            side: Side::Player,
            power,
            position: origin,
            heading,
            speed,
            ttl: Ttl::new(ttl),
            invincibility: None,
        }
    }
}

/// Every projectile of `s` is well formed.
pub open spec fn all_wf(s: Seq<Projectile>) -> bool {
    forall|i: int| 0 <= i < s.len() ==> (#[trigger] s[i]).wf()
}

/// The first enemy projectile of `s` with identity `id`, if any.
pub open spec fn find_enemy_projectile(s: Seq<Projectile>, id: EntityId) -> Option<Projectile>
    decreases s.len(),
{
    if s.len() == 0 {
        None
    } else if s[0].id == id && s[0].side == Side::Enemy {
        Some(s[0])
    } else {
        find_enemy_projectile(s.skip(1), id)
    }
}

/// `s` with every projectile whose identity is in `ids` removed.
pub open spec fn without_ids(s: Seq<Projectile>, ids: Seq<EntityId>) -> Seq<Projectile> {
    s.filter(|p: Projectile| !ids.contains(p.id))
}

/// `id` is the identity of a player projectile of `s`.
pub open spec fn is_player_projectile(s: Seq<Projectile>, id: EntityId) -> bool {
    exists|i: int| 0 <= i < s.len() && s[i].id == id && s[i].side == Side::Player
}

/// The identities of the projectiles of `s` whose time-to-live finished on the
/// last tick, in order.
pub open spec fn expired_ids(s: Seq<Projectile>) -> Seq<EntityId>
    decreases s.len(),
{
    if s.len() == 0 {
        Seq::empty()
    } else if s.last().ttl.0.just_finished_spec() {
        expired_ids(s.drop_last()).push(s.last().id)
    } else {
        expired_ids(s.drop_last())
    }
}

/// Whether `id` occurs in `ids`.
pub fn contains_id(ids: &Vec<EntityId>, id: EntityId) -> (r: bool)
    ensures
        r == ids@.contains(id),
{
    let mut i: usize = 0;
    while i < ids.len()
        invariant
            i <= ids.len(),
            forall|j: int| 0 <= j < i ==> ids@[j] != id,
        decreases ids.len() - i,
    {
        if ids[i] == id {
            return true;
        }
        i = i + 1;
    }
    false
}

/// The first enemy projectile with identity `id`, if it is still alive.
pub fn find_enemy_projectile_exec(ps: &Vec<Projectile>, id: EntityId) -> (r: Option<Projectile>)
    ensures
        r == find_enemy_projectile(ps@, id),
{
    let mut i: usize = 0;
    assert(ps@.skip(0) =~= ps@);
    while i < ps.len()
        invariant
            i <= ps.len(),
            find_enemy_projectile(ps@, id) == find_enemy_projectile(ps@.skip(i as int), id),
        decreases ps.len() - i,
    {
        assert(ps@.skip(i as int)[0] == ps@[i as int]);
        if ps[i].id == id && ps[i].side == Side::Enemy {
            return Some(ps[i]);
        }
        assert(ps@.skip(i as int).skip(1) =~= ps@.skip(i + 1));
        i = i + 1;
    }
    None
}

/// Whether `id` is the identity of a live player projectile.
pub fn is_player_projectile_exec(ps: &Vec<Projectile>, id: EntityId) -> (r: bool)
    ensures
        r == is_player_projectile(ps@, id),
{
    let mut i: usize = 0;
    while i < ps.len()
        invariant
            i <= ps.len(),
            forall|j: int| 0 <= j < i ==> !(ps@[j].id == id && ps@[j].side == Side::Player),
        decreases ps.len() - i,
    {
        if ps[i].id == id && ps[i].side == Side::Player {
            return true;
        }
        i = i + 1;
    }
    false
}

/// Removes every projectile whose identity is in `ids`. Identities that name
/// no live projectile are ignored, so removing twice is harmless.
pub fn despawn_all(ps: &mut Vec<Projectile>, ids: &Vec<EntityId>)
    ensures
        final(ps)@ == without_ids(old(ps)@, ids@),
{
    let ghost pred = |p: Projectile| !ids@.contains(p.id);
    let mut kept: Vec<Projectile> = Vec::new();
    let mut i: usize = 0;
    while i < ps.len()
        invariant
            i <= ps.len(),
            ps@ == old(ps)@,
            pred == (|p: Projectile| !ids@.contains(p.id)),
            kept@ == ps@.take(i as int).filter(pred),
        decreases ps.len() - i,
    {
        proof {
            reveal(Seq::filter);
            assert(ps@.take(i + 1).drop_last() =~= ps@.take(i as int));
        }
        let p = ps[i];
        if !contains_id(ids, p.id) {
            kept.push(p);
        }
        i = i + 1;
    }
    assert(ps@.take(ps.len() as int) =~= ps@);
    *ps = kept;
}

/// Ticks the time-to-live of every projectile by `delta` nanoseconds.
pub fn tick_ttl(ps: &mut Vec<Projectile>, delta: u64)
    requires
        all_wf(old(ps)@),
    ensures
        final(ps).len() == old(ps).len(),
        all_wf(final(ps)@),
        forall|i: int|
            0 <= i < final(ps).len() ==> #[trigger] final(ps)@[i] == (Projectile {
                ttl: Ttl(old(ps)@[i].ttl.0.ticked(delta as nat)),
                ..old(ps)@[i]
            }),
{
    let mut i: usize = 0;
    while i < ps.len()
        invariant
            i <= ps.len(),
            ps.len() == old(ps).len(),
            all_wf(ps@),
            forall|j: int|
                0 <= j < i ==> #[trigger] ps@[j] == (Projectile {
                    ttl: Ttl(old(ps)@[j].ttl.0.ticked(delta as nat)),
                    ..old(ps)@[j]
                }),
            forall|j: int| i <= j < ps.len() ==> #[trigger] ps@[j] == old(ps)@[j],
        decreases ps.len() - i,
    {
        let mut p = ps[i];
        assert(p.wf());
        p.ttl.0.tick(delta);
        ps.set(i, p);
        i = i + 1;
    }
}

/// Ticks the window of immunity of every projectile by `delta` nanoseconds,
/// removing each on the tick where it finishes.
pub fn tick_projectile_grace(ps: &mut Vec<Projectile>, delta: u64)
    requires
        all_wf(old(ps)@),
    ensures
        final(ps).len() == old(ps).len(),
        all_wf(final(ps)@),
        forall|i: int|
            0 <= i < final(ps).len() ==> #[trigger] final(ps)@[i] == (Projectile {
                invincibility: grace_after_tick(old(ps)@[i].invincibility, delta as nat),
                ..old(ps)@[i]
            }),
{
    let mut i: usize = 0;
    while i < ps.len()
        invariant
            i <= ps.len(),
            ps.len() == old(ps).len(),
            all_wf(ps@),
            forall|j: int|
                0 <= j < i ==> #[trigger] ps@[j] == (Projectile {
                    invincibility: grace_after_tick(old(ps)@[j].invincibility, delta as nat),
                    ..old(ps)@[j]
                }),
            forall|j: int| i <= j < ps.len() ==> #[trigger] ps@[j] == old(ps)@[j],
        decreases ps.len() - i,
    {
        let mut p = ps[i];
        assert(p.wf());
        tick_and_expire_invincibility(&mut p.invincibility, delta);
        ps.set(i, p);
        i = i + 1;
    }
}

/// The identities of the projectiles whose time-to-live finished on the last
/// tick.
pub fn get_done_ttl_timers(ps: &Vec<Projectile>) -> (r: Vec<EntityId>)
    ensures
        r@ == expired_ids(ps@),
{
    let mut r: Vec<EntityId> = Vec::new();
    let mut i: usize = 0;
    while i < ps.len()
        invariant
            i <= ps.len(),
            r@ == expired_ids(ps@.take(i as int)),
        decreases ps.len() - i,
    {
        assert(ps@.take(i + 1).drop_last() =~= ps@.take(i as int));
        if ps[i].ttl.0.just_finished() {
            r.push(ps[i].id);
        }
        i = i + 1;
    }
    assert(ps@.take(ps.len() as int) =~= ps@);
    r
}

/// Removes the projectiles named in `expired`.
pub fn handle_done_ttl_timers(ps: &mut Vec<Projectile>, expired: &Vec<EntityId>)
    ensures
        final(ps)@ == without_ids(old(ps)@, expired@),
{
    despawn_all(ps, expired);
}

} // verus!
