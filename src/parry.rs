use vstd::prelude::*;
use vstd::arithmetic::div_mod::{lemma_div_is_ordered, lemma_div_multiples_vanish};
use crate::geometry::{div_toward_zero, EntityId, Point};
use crate::projectile::{
    all_wf, despawn_all, find_enemy_projectile, find_enemy_projectile_exec,
    is_player_projectile, is_player_projectile_exec, without_ids, Projectile, Side, Ttl,
};
use crate::stats::{
    cap_at, lemma_pow_grows_past, lemma_pow_monotone_base_ge_one, pow_nat, ParrylordSingleton,
};
use crate::timer::{Timer, TimerMode, NANOS_PER_SEC};

verus! {

/// Time-to-live added to the mean of the merged projectiles' remaining time.
pub const PARRY_TTL_BONUS: u64 = NANOS_PER_SEC;

/// The power of a projectile that merges `total` parried projectiles:
/// `2 ^ (total - 1)`, saturating at `u32::MAX`.
pub open spec fn parry_power_spec(total: nat) -> u32 {
    cap_at(pow_nat(2, (total - 1) as nat), u32::MAX as nat) as u32
}

/// The enemy projectiles that the identities `ids` still name, in order;
/// identities of projectiles that are gone are skipped.
pub open spec fn resolved(ps: Seq<Projectile>, ids: Seq<EntityId>) -> Seq<Projectile>
    decreases ids.len(),
{
    if ids.len() == 0 {
        Seq::empty()
    } else {
        let r = resolved(ps, ids.drop_last());
        match find_enemy_projectile(ps, ids.last()) {
            Some(p) => r.push(p),
            None => r,
        }
    }
}

/// Sum of the speeds of `cs`.
pub open spec fn sum_speed(cs: Seq<Projectile>) -> nat
    decreases cs.len(),
{
    if cs.len() == 0 {
        0
    } else {
        sum_speed(cs.drop_last()) + cs.last().speed as nat
    }
}

/// Sum of the abscissae of `cs`.
pub open spec fn sum_x(cs: Seq<Projectile>) -> int
    decreases cs.len(),
{
    if cs.len() == 0 {
        0
    } else {
        sum_x(cs.drop_last()) + cs.last().position.x
    }
}

/// Sum of the ordinates of `cs`.
pub open spec fn sum_y(cs: Seq<Projectile>) -> int
    decreases cs.len(),
{
    if cs.len() == 0 {
        0
    } else {
        sum_y(cs.drop_last()) + cs.last().position.y
    }
}

/// Sum of the remaining time-to-live of `cs`.
pub open spec fn sum_ttl(cs: Seq<Projectile>) -> nat
    decreases cs.len(),
{
    if cs.len() == 0 {
        0
    } else {
        sum_ttl(cs.drop_last()) + cs.last().ttl_remaining()
    }
}

/// What a parry of several projectiles produces: the centroid of their
/// positions, their mean speed, their mean remaining time-to-live plus one
/// second, the power of the merged projectile, and how many were merged.
#[derive(Clone, Copy, Debug, PartialEq, Eq, Structural)]
pub struct MergedAttack {
    pub position: Point,
    pub speed: u32,
    pub ttl: u64,
    pub power: u32,
    pub total: u32,
}

/// The merge of the non-empty sequence of projectiles `cs`. Means are rounded
/// toward zero.
pub open spec fn merge_spec(cs: Seq<Projectile>) -> MergedAttack {
    let n = cs.len();
    MergedAttack {
        position: Point {
            x: div_toward_zero(sum_x(cs), n) as i32,
            y: div_toward_zero(sum_y(cs), n) as i32,
        },
        speed: (sum_speed(cs) / n) as u32,
        ttl: cap_at(sum_ttl(cs) / n + PARRY_TTL_BONUS as nat, u64::MAX as nat) as u64,
        power: parry_power_spec(n),
        total: n as u32,
    }
}

/// The player projectile that a merge launches along `heading`.
pub open spec fn launched(m: MergedAttack, heading: Point, id: EntityId) -> Projectile {
    Projectile {
        id,
        side: Side::Player,
        power: m.power,
        position: m.position,
        heading,
        speed: m.speed,
        ttl: Ttl(Timer::new_spec(m.ttl, TimerMode::Once)),
        invincibility: None,
    }
}

/// The statistics after a parry that merged `total` projectiles.
pub open spec fn after_parry(s: ParrylordSingleton, total: u32) -> ParrylordSingleton {
    ParrylordSingleton {
        max_parried: if total > s.max_parried {
            total
        } else {
            s.max_parried
        },
        ..s
    }
}

/// The statistics after parries that merged `totals[0]`, `totals[1]`, ...
/// projectiles in turn.
pub open spec fn after_parries(s: ParrylordSingleton, totals: Seq<u32>) -> ParrylordSingleton
    decreases totals.len(),
{
    if totals.len() == 0 {
        s
    } else {
        after_parry(after_parries(s, totals.drop_last()), totals.last())
    }
}

proof fn lemma_find_wf(s: Seq<Projectile>, id: EntityId)
    requires
        all_wf(s),
    ensures
        find_enemy_projectile(s, id) matches Some(p) ==> p.wf() && p.side == Side::Enemy,
    decreases s.len(),
{
    if s.len() > 0 {
        assert(s[0].wf());
        assert forall|i: int| 0 <= i < s.skip(1).len() implies (#[trigger] s.skip(1)[i]).wf() by {
            assert(s.skip(1)[i] == s[i + 1]);
        }
        lemma_find_wf(s.skip(1), id);
    }
}

proof fn lemma_resolved_wf(ps: Seq<Projectile>, ids: Seq<EntityId>)
    requires
        all_wf(ps),
    ensures
        all_wf(resolved(ps, ids)),
        resolved(ps, ids).len() <= ids.len(),
    decreases ids.len(),
{
    if ids.len() > 0 {
        lemma_resolved_wf(ps, ids.drop_last());
        lemma_find_wf(ps, ids.last());
    }
}

/// `2 ^ (total - 1)`, saturating at `u32::MAX`: the power of a projectile that
/// merges `total` parried projectiles.
pub fn parry_power(total: u32) -> (r: u32)
    requires
        total >= 1,
    ensures
        r == parry_power_spec(total as nat),
{
    let e = total - 1;
    let mut acc: u32 = 1;
    let mut i: u32 = 0;
    while i < e
        invariant
            e == total - 1,
            i <= e,
            acc as nat == pow_nat(2, i as nat),
        decreases e - i,
    {
        proof {
            lemma_pow_monotone_base_ge_one(2, i as nat);
            assert(pow_nat(2, (i + 1) as nat) == 2 * pow_nat(2, i as nat));
        }
        if acc > u32::MAX / 2 {
            proof {
                lemma_pow_grows_past(2, (i + 1) as nat, e as nat, u32::MAX as nat);
            }
            return u32::MAX;
        }
        acc = acc * 2;
        i = i + 1;
    }
    acc
}

/// Merges the non-empty candidates `cs` of one parry; `None` when there are
/// none.
pub fn merge_candidates(cs: &Vec<Projectile>) -> (r: Option<MergedAttack>)
    requires
        cs.len() <= u32::MAX,
        all_wf(cs@),
    ensures
        cs.len() == 0 ==> r is None,
        cs.len() > 0 ==> r == Some(merge_spec(cs@)),
{
    let n = cs.len();
    if n == 0 {
        return None;
    }
    let mut sx: i64 = 0;
    let mut sy: i64 = 0;
    let mut ss: u64 = 0;
    let mut st: u128 = 0;
    let mut i: usize = 0;
    while i < n
        invariant
            n == cs.len(),
            n <= u32::MAX,
            all_wf(cs@),
            i <= n,
            sx == sum_x(cs@.take(i as int)),
            sy == sum_y(cs@.take(i as int)),
            ss == sum_speed(cs@.take(i as int)),
            st == sum_ttl(cs@.take(i as int)),
            -(i * 0x8000_0000) <= sx <= i * 0x7fff_ffff,
            -(i * 0x8000_0000) <= sy <= i * 0x7fff_ffff,
            ss <= i * 0xffff_ffff,
            st <= i * 0xffff_ffff_ffff_ffff,
        decreases n - i,
    {
        assert(cs@.take(i + 1).drop_last() =~= cs@.take(i as int));
        let p = cs[i];
        assert(p.wf());
        sx = sx + p.position.x as i64;
        sy = sy + p.position.y as i64;
        ss = ss + p.speed as u64;
        st = st + p.ttl.0.remaining() as u128;
        i = i + 1;
    }
    assert(cs@.take(n as int) =~= cs@);
    let total = n as u32;
    let x = mean_toward_zero(sx, total);
    let y = mean_toward_zero(sy, total);
    proof {
        lemma_div_is_ordered(ss as int, n * 0xffff_ffff, n as int);
        lemma_div_multiples_vanish(0xffff_ffff, n as int);
        lemma_div_is_ordered(st as int, n * 0xffff_ffff_ffff_ffff, n as int);
        lemma_div_multiples_vanish(0xffff_ffff_ffff_ffff, n as int);
    }
    let speed = (ss / (n as u64)) as u32;
    let mean_ttl = (st / (n as u128)) as u64;
    let ttl = mean_ttl.saturating_add(PARRY_TTL_BONUS);
    let power = parry_power(total);
    Some(MergedAttack { position: Point { x, y }, speed, ttl, power, total })
}

/// The mean `sum / n` of `n` coordinates, rounded toward zero.
fn mean_toward_zero(sum: i64, n: u32) -> (r: i32)
    requires
        n > 0,
        -(n * 0x8000_0000) <= sum <= n * 0x7fff_ffff,
    ensures
        r == div_toward_zero(sum as int, n as nat),
{
    if sum >= 0 {
        proof {
            lemma_div_is_ordered(sum as int, n * 0x7fff_ffff, n as int);
            lemma_div_multiples_vanish(0x7fff_ffff, n as int);
        }
        ((sum as u64) / (n as u64)) as i32
    } else {
        let neg: u64 = (-(sum as i128)) as u64;
        proof {
            lemma_div_is_ordered(neg as int, n * 0x8000_0000, n as int);
            lemma_div_multiples_vanish(0x8000_0000, n as int);
        }
        let q = neg / (n as u64);
        (-(q as i64)) as i32
    }
}

/// A parry attempt: on a click, the entities that overlap the aim cone,
/// leaving out those that are already player projectiles; without a click,
/// nothing.
pub fn get_parry_attempt(clicked: bool, overlapping: &Vec<EntityId>, ps: &Vec<Projectile>) -> (r:
    Option<Vec<EntityId>>)
    ensures
        !clicked ==> r is None,
        clicked ==> (r matches Some(v) && v@ == overlapping@.filter(
            |e: EntityId| !is_player_projectile(ps@, e),
        )),
{
    if !clicked {
        return None;
    }
    let ghost pred = |e: EntityId| !is_player_projectile(ps@, e);
    let mut v: Vec<EntityId> = Vec::new();
    let mut i: usize = 0;
    while i < overlapping.len()
        invariant
            i <= overlapping.len(),
            pred == (|e: EntityId| !is_player_projectile(ps@, e)),
            v@ == overlapping@.take(i as int).filter(pred),
        decreases overlapping.len() - i,
    {
        proof {
            reveal(Seq::filter);
            assert(overlapping@.take(i + 1).drop_last() =~= overlapping@.take(i as int));
        }
        let e = overlapping[i];
        if !is_player_projectile_exec(ps, e) {
            v.push(e);
        }
        i = i + 1;
    }
    assert(overlapping@.take(overlapping.len() as int) =~= overlapping@);
    Some(v)
}

/// The enemy projectiles that `ids` still name, in order; identities of
/// projectiles that are gone are skipped.
pub fn resolve_candidates(ps: &Vec<Projectile>, ids: &Vec<EntityId>) -> (r: Vec<Projectile>)
    ensures
        r@ == resolved(ps@, ids@),
{
    let mut r: Vec<Projectile> = Vec::new();
    let mut i: usize = 0;
    while i < ids.len()
        invariant
            i <= ids.len(),
            r@ == resolved(ps@, ids@.take(i as int)),
        decreases ids.len() - i,
    {
        assert(ids@.take(i + 1).drop_last() =~= ids@.take(i as int));
        match find_enemy_projectile_exec(ps, ids[i]) {
            Some(p) => r.push(p),
            None => {},
        }
        i = i + 1;
    }
    assert(ids@.take(ids.len() as int) =~= ids@);
    r
}

/// Resolves a parry attempt. The enemy projectiles that the attempt still
/// names are merged into one player projectile with identity `new_id`,
/// launched along `heading`; every entity of the attempt is removed and the
/// run's high-water mark of merged projectiles is updated. Without an
/// attempt, or when none of its entities is still an enemy projectile,
/// nothing changes.
pub fn handle_parries(
    attempt: Option<Vec<EntityId>>,
    heading: Point,
    new_id: EntityId,
    ps: &mut Vec<Projectile>,
    stats: &mut ParrylordSingleton,
) -> (r: Option<MergedAttack>)
    requires
        all_wf(old(ps)@),
        attempt matches Some(ids) ==> ids.len() <= u32::MAX,
    ensures
        match attempt {
            None => r is None && final(ps)@ == old(ps)@ && *final(stats) == *old(stats),
            Some(ids) => {
                let cs = resolved(old(ps)@, ids@);
                if cs.len() == 0 {
                    r is None && final(ps)@ == old(ps)@ && *final(stats) == *old(stats)
                } else {
                    let m = merge_spec(cs);
                    &&& r == Some(m)
                    &&& *final(stats) == after_parry(*old(stats), cs.len() as u32)
                    &&& final(ps)@ == without_ids(old(ps)@, ids@).push(launched(m, heading, new_id))
                }
            },
        },
        all_wf(final(ps)@),
{
    let ids = match attempt {
        Some(ids) => ids,
        None => {
            return None;
        },
    };
    let cs = resolve_candidates(ps, &ids);
    proof {
        lemma_resolved_wf(ps@, ids@);
    }
    let m = match merge_candidates(&cs) {
        Some(m) => m,
        None => {
            return None;
        },
    };
    stats.record_parry(m.total);
    let ghost before = ps@;
    despawn_all(ps, &ids);
    proof {
        assert forall|i: int| 0 <= i < ps@.len() implies (#[trigger] ps@[i]).wf() by {
            let pred = |p: Projectile| !ids@.contains(p.id);
            before.lemma_filter_contains_rev(pred, ps@[i]);
        }
        lemma_power_positive(cs@.len());
    }
    ps.push(
        Projectile {
            id: new_id,
            side: Side::Player,
            power: m.power,
            position: m.position,
            heading,
            speed: m.speed,
            ttl: Ttl::new(m.ttl),
            invincibility: None,
        },
    );
    Some(m)
}

proof fn lemma_power_positive(total: nat)
    requires
        total >= 1,
    ensures
        parry_power_spec(total) > 0,
{
    lemma_pow_monotone_base_ge_one(2, (total - 1) as nat);
}

/// The high-water mark of merged projectiles never decreases over a session,
/// and after any sequence of parries it is the largest of its starting value
/// and every parry's count.
pub proof fn lemma_max_parried_monotone(s: ParrylordSingleton, totals: Seq<u32>)
    ensures
        after_parries(s, totals).max_parried >= s.max_parried,
        forall|i: int| 0 <= i < totals.len() ==> after_parries(s, totals).max_parried >= #[trigger] totals[i],
        after_parries(s, totals).max_parried == s.max_parried || exists|i: int|
            0 <= i < totals.len() && after_parries(s, totals).max_parried == #[trigger] totals[i],
    decreases totals.len(),
{
    if totals.len() > 0 {
        let pre = totals.drop_last();
        lemma_max_parried_monotone(s, pre);
        assert forall|i: int| 0 <= i < pre.len() implies #[trigger] totals[i] == pre[i] by {}
        let m = after_parries(s, pre).max_parried;
        if m != s.max_parried {
            let k = choose|k: int| 0 <= k < pre.len() && m == #[trigger] pre[k];
            assert(totals[k] == pre[k]);
        }
    }
}

} // verus!
