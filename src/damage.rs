use vstd::prelude::*;
use crate::enemy::{all_enemies_wf, enemy_index, find_enemy, Enemy};
use crate::geometry::{EntityId, Point};
use crate::health::{InvincibilityTimer, ENEMY_HIT_GRACE};
use crate::projectile::{
    all_wf, contains_id, despawn_all, without_ids, Projectile, Side, Ttl,
};
use crate::stats::cap_at;
use crate::timer::{Timer, TimerMode, NANOS_PER_MILLI, NANOS_PER_SEC};

verus! {

/// Eligible projectiles after this many in one tick no longer fragment.
pub const FRAGMENT_LIMIT: usize = 256;

/// Immunity of a fragment born against a wall, so that it does not strike the
/// same wall at once.
pub const WALL_BOUNCE_GRACE: u64 = 100 * NANOS_PER_MILLI;

/// Time-to-live added to half the parent's remaining time-to-live.
pub const FRAGMENT_TTL_BONUS: u64 = NANOS_PER_SEC;

/// The children that a spent player projectile splits into: `count`
/// projectiles of power `power`, starting at `position` with `speed`, each
/// headed a quarter turn (plus a small random turn) from `heading`.
#[derive(Clone, Copy, Debug, PartialEq, Eq, Structural)]
pub struct FragmentBurst {
    pub parent: EntityId,
    pub position: Point,
    pub heading: Point,
    pub speed: u32,
    pub power: u32,
    pub ttl: u64,
    pub count: u32,
    pub wall_grace: bool,
}

/// `r` is the integer square root of `n`.
pub open spec fn is_isqrt(n: nat, r: nat) -> bool {
    r * r <= n < (r + 1) * (r + 1)
}

/// The integer square root of `n`: the largest `r` with `r * r <= n`.
pub open spec fn isqrt_spec(n: nat) -> nat {
    choose|r: nat| is_isqrt(n, r)
}

proof fn lemma_isqrt_unique(n: nat, r: nat)
    requires
        is_isqrt(n, r),
    ensures
        isqrt_spec(n) == r,
{
    let s = isqrt_spec(n);
    assert(is_isqrt(n, s));
    if s < r {
        assert((s + 1) * (s + 1) <= r * r) by (nonlinear_arith)
            requires
                s < r,
        ;
    } else if s > r {
        assert((r + 1) * (r + 1) <= s * s) by (nonlinear_arith)
            requires
                r < s,
        ;
    }
}

proof fn lemma_isqrt_exists(n: nat)
    ensures
        is_isqrt(n, isqrt_spec(n)),
    decreases n,
{
    if n == 0 {
        assert(0nat * 0nat <= 0nat && 0nat < 1nat * 1nat) by (nonlinear_arith);
        assert(is_isqrt(0, 0));
    } else {
        lemma_isqrt_exists((n - 1) as nat);
        let r = isqrt_spec((n - 1) as nat);
        if (r + 1) * (r + 1) <= n {
            assert(n < (r + 2) * (r + 2)) by (nonlinear_arith)
                requires
                    n <= (r + 1) * (r + 1),
            ;
            assert(is_isqrt(n, r + 1));
        } else {
            assert(is_isqrt(n, r));
        }
    }
}

proof fn lemma_isqrt_small(n: nat)
    requires
        n <= u32::MAX,
    ensures
        isqrt_spec(n) < 65536,
{
    lemma_isqrt_exists(n);
    let r = isqrt_spec(n);
    if r >= 65536 {
        assert(r * r >= 65536 * 65536) by (nonlinear_arith)
            requires
                r >= 65536,
        ;
    }
}

/// The integer square root of `n`.
pub fn isqrt(n: u32) -> (r: u32)
    ensures
        is_isqrt(n as nat, r as nat),
        r as nat == isqrt_spec(n as nat),
        r < 65536,
{
    // binary search for the largest r with r * r <= n
    let mut lo: u64 = 0;
    let mut hi: u64 = 65536;
    while lo + 1 < hi
        invariant
            lo < hi <= 65536,
            lo * lo <= n,
            n < hi * hi,
        decreases hi - lo,
    {
        let mid = lo + (hi - lo) / 2;
        assert(mid * mid <= 65536 * 65536) by (nonlinear_arith)
            requires
                mid <= 65536,
        ;
        if mid * mid <= n as u64 {
            lo = mid;
        } else {
            hi = mid;
        }
    }
    proof {
        assert(hi == lo + 1);
        lemma_isqrt_unique(n as nat, lo as nat);
    }
    lo as u32
}

/// The enemy of `es` with identity `id` exists and can be damaged.
pub open spec fn damageable_enemy(es: Seq<Enemy>, id: EntityId) -> bool {
    match enemy_index(es, id) {
        Some(k) => es[k].vitals.damageable(),
        None => false,
    }
}

/// A projectile that overlaps `c` strikes: `c` holds a wall or an enemy that
/// can be damaged.
pub open spec fn strikes(es: Seq<Enemy>, walls: Seq<EntityId>, c: Seq<EntityId>) -> bool {
    exists|j: int| 0 <= j < c.len() && (walls.contains(c[j]) || damageable_enemy(es, c[j]))
}

/// `c` holds a wall.
pub open spec fn touches_wall(walls: Seq<EntityId>, c: Seq<EntityId>) -> bool {
    exists|j: int| 0 <= j < c.len() && walls.contains(c[j])
}

/// A player projectile takes part in damage resolution unless it is still in
/// its window of immunity.
pub open spec fn eligible(p: Projectile) -> bool {
    p.side == Side::Player && p.invincibility is None
}

/// The children of the spent projectile `p`: one power less, the same
/// speed, half its remaining time-to-live plus one second, and
/// `isqrt(power - 1) + 1` of them.
pub open spec fn burst_spec(p: Projectile, wall: bool) -> FragmentBurst {
    FragmentBurst {
        parent: p.id,
        position: p.position,
        heading: p.heading,
        speed: p.speed,
        power: (p.power - 1) as u32,
        ttl: cap_at(p.ttl_remaining() / 2 + FRAGMENT_TTL_BONUS as nat, u64::MAX as nat) as u64,
        count: (isqrt_spec((p.power - 1) as nat) + 1) as u32,
        wall_grace: wall,
    }
}

/// The hits of a projectile of power `power` on the damageable enemies among
/// `c`, in order.
pub open spec fn hits_of(es: Seq<Enemy>, c: Seq<EntityId>, power: u32) -> Seq<(EntityId, u32)>
    decreases c.len(),
{
    if c.len() == 0 {
        Seq::empty()
    } else if damageable_enemy(es, c.last()) {
        hits_of(es, c.drop_last(), power).push((c.last(), power))
    } else {
        hits_of(es, c.drop_last(), power)
    }
}

/// Damage resolution over the projectiles `ps`, the `i`-th overlapping the
/// entities `cs[i]`, judged against the enemies `es` and walls `walls` as
/// they stand at the start of the tick. Yields the projectiles to remove,
/// the bursts to spawn, the hits to apply and how many projectiles took part.
pub open spec fn damage_fold(
    es: Seq<Enemy>,
    walls: Seq<EntityId>,
    ps: Seq<Projectile>,
    cs: Seq<Seq<EntityId>>,
) -> (Seq<EntityId>, Seq<FragmentBurst>, Seq<(EntityId, u32)>, nat)
    decreases ps.len(),
{
    if ps.len() == 0 {
        (Seq::empty(), Seq::empty(), Seq::empty(), 0)
    } else {
        let (d, b, h, n) = damage_fold(es, walls, ps.drop_last(), cs.take(ps.len() - 1));
        let p = ps.last();
        let c = cs[ps.len() - 1];
        if !eligible(p) {
            (d, b, h, n)
        } else {
            let struck = strikes(es, walls, c);
            (
                if struck {
                    d.push(p.id)
                } else {
                    d
                },
                if struck && p.power > 1 && n < FRAGMENT_LIMIT {
                    b.push(burst_spec(p, touches_wall(walls, c)))
                } else {
                    b
                },
                h + hits_of(es, c, p.power),
                n + 1,
            )
        }
    }
}

/// `es` after the first enemy with identity `id` takes a hit of `power`.
pub open spec fn apply_hit(es: Seq<Enemy>, id: EntityId, power: u32) -> Seq<Enemy> {
    match enemy_index(es, id) {
        Some(k) => es.update(
            k,
            Enemy { vitals: es[k].vitals.hit_spec(power as nat, ENEMY_HIT_GRACE), ..es[k] },
        ),
        None => es,
    }
}

/// `es` after the hits `hs`, in turn.
pub open spec fn apply_hits(es: Seq<Enemy>, hs: Seq<(EntityId, u32)>) -> Seq<Enemy>
    decreases hs.len(),
{
    if hs.len() == 0 {
        es
    } else {
        apply_hit(apply_hits(es, hs.drop_last()), hs.last().0, hs.last().1)
    }
}

/// The collision sets of `cs`, as sequences.
pub open spec fn contact_views(cs: Seq<Vec<EntityId>>) -> Seq<Seq<EntityId>> {
    cs.map_values(|c: Vec<EntityId>| c@)
}

/// Whether enemy `id` exists and can be damaged.
fn is_damageable_enemy(es: &Vec<Enemy>, id: EntityId) -> (r: bool)
    ensures
        r == damageable_enemy(es@, id),
{
    match find_enemy(es, id) {
        Some(k) => es[k].vitals.is_damageable(),
        None => false,
    }
}

/// What one projectile's collision set `c` holds: whether it strikes,
/// whether it touches a wall, and its hits.
fn scan_contacts(
    es: &Vec<Enemy>,
    walls: &Vec<EntityId>,
    c: &Vec<EntityId>,
    power: u32,
    hits: &mut Vec<(EntityId, u32)>,
) -> (r: (bool, bool))
    ensures
        r.0 == strikes(es@, walls@, c@),
        r.1 == touches_wall(walls@, c@),
        final(hits)@ == old(hits)@ + hits_of(es@, c@, power),
{
    let mut struck = false;
    let mut wall = false;
    let mut j: usize = 0;
    while j < c.len()
        invariant
            j <= c.len(),
            struck == exists|k: int|
                0 <= k < j && (walls@.contains(c@[k]) || damageable_enemy(es@, c@[k])),
            wall == exists|k: int| 0 <= k < j && walls@.contains(c@[k]),
            hits@ == old(hits)@ + hits_of(es@, c@.take(j as int), power),
        decreases c.len() - j,
    {
        assert(c@.take(j + 1).drop_last() =~= c@.take(j as int));
        let e = c[j];
        let is_wall = contains_id(walls, e);
        let is_enemy = is_damageable_enemy(es, e);
        if is_wall {
            wall = true;
        }
        if is_wall || is_enemy {
            struck = true;
        }
        if is_enemy {
            hits.push((e, power));
            assert(hits@ =~= old(hits)@ + hits_of(es@, c@.take(j + 1), power));
        } else {
            assert(hits_of(es@, c@.take(j + 1), power) == hits_of(es@, c@.take(j as int), power));
        }
        j = j + 1;
    }
    assert(c@.take(c.len() as int) =~= c@);
    (struck, wall)
}

/// Resolves this tick's damage. Each player projectile out of its window of
/// immunity, in order, is judged against its collision set `contacts[i]`
/// and the enemies and walls as they stand at the start of the tick: if the
/// set holds a wall or an enemy that can be damaged, the projectile is
/// removed and, while its power is above one and fewer than
/// `FRAGMENT_LIMIT` projectiles took part before it, it splits into a burst
/// of children that this returns; every damageable enemy of the set loses
/// the projectile's power in health and starts a window of immunity.
pub fn deal_damage(
    ps: &mut Vec<Projectile>,
    es: &mut Vec<Enemy>,
    walls: &Vec<EntityId>,
    contacts: &Vec<Vec<EntityId>>,
) -> (r: Vec<FragmentBurst>)
    requires
        contacts.len() == old(ps).len(),
        all_wf(old(ps)@),
        all_enemies_wf(old(es)@),
    ensures
        ({
            let (d, b, h, n) = damage_fold(old(es)@, walls@, old(ps)@, contact_views(contacts@));
            &&& final(ps)@ == without_ids(old(ps)@, d)
            &&& final(es)@ == apply_hits(old(es)@, h)
            &&& r@ == b
        }),
        all_wf(final(ps)@),
        all_enemies_wf(final(es)@),
{
    let ghost cv = contact_views(contacts@);
    let mut despawned: Vec<EntityId> = Vec::new();
    let mut bursts: Vec<FragmentBurst> = Vec::new();
    let mut hits: Vec<(EntityId, u32)> = Vec::new();
    let mut n: usize = 0;
    let mut i: usize = 0;
    while i < ps.len()
        invariant
            i <= ps.len(),
            ps@ == old(ps)@,
            es@ == old(es)@,
            contacts.len() == ps.len(),
            cv == contact_views(contacts@),
            all_wf(ps@),
            n <= i,
            ({
                let (d, b, h, m) = damage_fold(es@, walls@, ps@.take(i as int), cv.take(i as int));
                &&& despawned@ == d
                &&& bursts@ == b
                &&& hits@ == h
                &&& n == m
            }),
        decreases ps.len() - i,
    {
        proof {
            assert(ps@.take(i + 1).drop_last() =~= ps@.take(i as int));
            assert(cv.take(i + 1).take(i as int) =~= cv.take(i as int));
            assert(cv.take(i + 1)[i as int] == contacts@[i as int]@);
        }
        let p = ps[i];
        assert(p.wf());
        if p.side == Side::Player && p.invincibility.is_none() {
            let (struck, wall) = scan_contacts(es, walls, &contacts[i], p.power, &mut hits);
            if struck {
                despawned.push(p.id);
                if p.power > 1 && n < FRAGMENT_LIMIT {
                    let half = p.ttl.0.remaining() / 2;
                    let ttl = half.saturating_add(FRAGMENT_TTL_BONUS);
                    let root = isqrt(p.power - 1);
                    bursts.push(
                        FragmentBurst {
                            parent: p.id,
                            position: p.position,
                            heading: p.heading,
                            speed: p.speed,
                            power: p.power - 1,
                            ttl,
                            count: root + 1,
                            wall_grace: wall,
                        },
                    );
                }
            }
            n = n + 1;
        }
        i = i + 1;
    }
    proof {
        assert(ps@.take(ps.len() as int) =~= ps@);
        assert(cv.take(ps.len() as int) =~= cv);
    }
    let ghost before = ps@;
    despawn_all(ps, &despawned);
    proof {
        assert forall|k: int| 0 <= k < ps@.len() implies (#[trigger] ps@[k]).wf() by {
            let pred = |p: Projectile| !despawned@.contains(p.id);
            before.lemma_filter_contains_rev(pred, ps@[k]);
        }
    }
    let mut j: usize = 0;
    while j < hits.len()
        invariant
            j <= hits.len(),
            es@ == apply_hits(old(es)@, hits@.take(j as int)),
            all_enemies_wf(es@),
        decreases hits.len() - j,
    {
        assert(hits@.take(j + 1).drop_last() =~= hits@.take(j as int));
        let (id, power) = hits[j];
        match find_enemy(es, id) {
            Some(k) => {
                let mut e = es[k];
                assert(e.wf());
                e.vitals.take_damage(power, ENEMY_HIT_GRACE);
                es.set(k, e);
            },
            None => {},
        }
        j = j + 1;
    }
    assert(hits@.take(hits.len() as int) =~= hits@);
    bursts
}

/// The children of `b`, the `i`-th with identity `ids[i]` and heading
/// `headings[i]`.
pub open spec fn fragment_spec(b: FragmentBurst, id: EntityId, heading: Point) -> Projectile {
    Projectile {
        id,
        side: Side::Player,
        power: b.power,
        position: b.position,
        heading,
        speed: b.speed,
        ttl: Ttl(Timer::new_spec(b.ttl, TimerMode::Once)),
        invincibility: if b.wall_grace {
            Some(InvincibilityTimer(Timer::new_spec(WALL_BOUNCE_GRACE, TimerMode::Once)))
        } else {
            None
        },
    }
}

/// Spawns the children of the burst `b`: one for each identity of `ids`,
/// with the matching heading of `headings`.
pub fn spawn_fragments(
    ps: &mut Vec<Projectile>,
    b: &FragmentBurst,
    ids: &Vec<EntityId>,
    headings: &Vec<Point>,
)
    requires
        b.power > 0,
        ids.len() == b.count,
        ids.len() == headings.len(),
        all_wf(old(ps)@),
    ensures
        final(ps)@ == old(ps)@ + Seq::new(
            ids.len() as nat,
            |i: int| fragment_spec(*b, ids@[i], headings@[i]),
        ),
        all_wf(final(ps)@),
{
    let mut i: usize = 0;
    while i < ids.len()
        invariant
            i <= ids.len(),
            ids.len() == headings.len(),
            ids.len() == b.count,
            b.power > 0,
            all_wf(ps@),
            ps@ == old(ps)@ + Seq::new(
                i as nat,
                |k: int| fragment_spec(*b, ids@[k], headings@[k]),
            ),
        decreases ids.len() - i,
    {
        let invincibility = if b.wall_grace {
            Some(InvincibilityTimer::new(WALL_BOUNCE_GRACE))
        } else {
            None
        };
        ps.push(
            Projectile {
                id: ids[i],
                side: Side::Player,
                power: b.power,
                position: b.position,
                heading: headings[i],
                speed: b.speed,
                ttl: Ttl::new(b.ttl),
                invincibility,
            },
        );
        assert(ps@ =~= old(ps)@ + Seq::new(
            (i + 1) as nat,
            |k: int| fragment_spec(*b, ids@[k], headings@[k]),
        ));
        i = i + 1;
    }
}

/// `b` is a burst of the spent projectile `p`: `p` had power two or more,
/// each child has exactly one power less, and there are
/// `isqrt(p.power - 1) + 1` children.
pub open spec fn weaker_burst_of(b: FragmentBurst, p: Projectile) -> bool {
    &&& b.parent == p.id
    &&& p.power >= 2
    &&& b.power + 1 == p.power
    &&& b.power < p.power
    &&& b.count == isqrt_spec((p.power - 1) as nat) + 1
}

/// Every burst of damage resolution comes from one of the projectiles, has
/// no more than `isqrt(power - 1) + 1` children, and gives each of them
/// strictly less power than its parent. Power is a natural number, so
/// fragments of fragments run out after finitely many generations.
pub proof fn lemma_fragments_weaken(
    es: Seq<Enemy>,
    walls: Seq<EntityId>,
    ps: Seq<Projectile>,
    cs: Seq<Seq<EntityId>>,
)
    ensures
        forall|k: int|
            0 <= k < damage_fold(es, walls, ps, cs).1.len() ==> exists|i: int|
                0 <= i < ps.len() && weaker_burst_of(
                    #[trigger] damage_fold(es, walls, ps, cs).1[k],
                    ps[i],
                ),
    decreases ps.len(),
{
    if ps.len() > 0 {
        let pre = ps.drop_last();
        let cpre = cs.take(ps.len() - 1);
        lemma_fragments_weaken(es, walls, pre, cpre);
        let b0 = damage_fold(es, walls, pre, cpre).1;
        let b = damage_fold(es, walls, ps, cs).1;
        assert forall|k: int| 0 <= k < b.len() implies exists|i: int|
            0 <= i < ps.len() && weaker_burst_of(#[trigger] b[k], ps[i]) by {
            if k < b0.len() {
                assert(b[k] == b0[k]);
                let i = choose|i: int| 0 <= i < pre.len() && weaker_burst_of(b0[k], pre[i]);
                assert(ps[i] == pre[i]);
            } else {
                lemma_isqrt_small((ps.last().power - 1) as nat);
                assert(weaker_burst_of(b[k], ps[ps.len() - 1]));
            }
        }
    }
}

/// The number of generations of fragments that a projectile of power `p`
/// can give rise to: each generation has one power less, and a projectile of
/// power one does not split.
pub open spec fn generations(p: nat) -> nat
    decreases p,
{
    if p <= 1 {
        0
    } else {
        1 + generations((p - 1) as nat)
    }
}

/// A projectile of power `p` gives rise to at most `p - 1` generations of
/// fragments.
pub proof fn lemma_generations_bounded(p: nat)
    ensures
        generations(p) + 1 <= if p == 0 { 1 } else { p },
    decreases p,
{
    if p > 1 {
        lemma_generations_bounded((p - 1) as nat);
    }
}

} // verus!
