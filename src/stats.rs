use vstd::prelude::*;

verus! {

/// `b` raised to the power `e`, over the naturals.
pub open spec fn pow_nat(b: nat, e: nat) -> nat
    decreases e,
{
    if e == 0 {
        1
    } else {
        b * pow_nat(b, (e - 1) as nat)
    }
}

/// `v`, or `cap` where `v` goes beyond it.
pub open spec fn cap_at(v: nat, cap: nat) -> nat {
    if v > cap {
        cap
    } else {
        v
    }
}

/// The score of a run: `(level + enemies_killed) ^ max_parried`, saturating at
/// the largest `u128`.
pub open spec fn score_of(level: nat, enemies_killed: nat, max_parried: nat) -> nat {
    cap_at(pow_nat(level + enemies_killed, max_parried), u128::MAX as nat)
}

pub(crate) proof fn lemma_pow_monotone_base_ge_one(b: nat, e: nat)
    requires
        b >= 1,
    ensures
        pow_nat(b, e + 1) >= pow_nat(b, e),
        pow_nat(b, e) >= 1,
    decreases e,
{
    if e > 0 {
        lemma_pow_monotone_base_ge_one(b, (e - 1) as nat);
    }
    assert(pow_nat(b, e + 1) == b * pow_nat(b, e));
    assert(b * pow_nat(b, e) >= pow_nat(b, e)) by (nonlinear_arith)
        requires
            b >= 1,
    ;
}

pub(crate) proof fn lemma_pow_grows_past(b: nat, k: nat, e: nat, bound: nat)
    requires
        b >= 1,
        k <= e,
        pow_nat(b, k) > bound,
    ensures
        pow_nat(b, e) > bound,
    decreases e - k,
{
    if k < e {
        lemma_pow_monotone_base_ge_one(b, k);
        lemma_pow_grows_past(b, k + 1, e, bound);
    }
}

proof fn lemma_pow_one(e: nat)
    ensures
        pow_nat(1, e) == 1,
    decreases e,
{
    if e > 0 {
        lemma_pow_one((e - 1) as nat);
    }
}

proof fn lemma_pow_zero(e: nat)
    ensures
        pow_nat(0, e) == if e == 0 {
            1nat
        } else {
            0nat
        },
{
}

/// Statistics of one gameplay session: enemies killed, the level reached and
/// the largest number of projectiles merged by a single parry.
#[derive(Clone, Copy, Debug, PartialEq, Eq, Structural)]
pub struct ParrylordSingleton {
    pub enemies_killed: u32,
    pub level: u32,
    pub max_parried: u32,
}

impl ParrylordSingleton {
    /// The statistics at the start of a session: level one, nothing killed,
    /// nothing parried.
    pub fn new() -> (r: Self)
        ensures
            r.enemies_killed == 0,
            r.level == 1,
            r.max_parried == 0,
    {
        ParrylordSingleton { enemies_killed: 0, level: 1, max_parried: 0 }
    }

    /// `(level + enemies_killed) ^ max_parried`, saturating at `u128::MAX`.
    pub fn calculate_score(&self) -> (r: u128)
        ensures
            r as nat == score_of(self.level as nat, self.enemies_killed as nat, self.max_parried as nat),
    {
        let base: u128 = self.level as u128 + self.enemies_killed as u128;
        let e = self.max_parried;
        let ghost b = base as nat;
        if base <= 1 {
            proof {
                lemma_pow_one(e as nat);
                lemma_pow_zero(e as nat);
            }
            if base == 1 || e == 0 {
                return 1;
            } else {
                return 0;
            }
        }
        let mut acc: u128 = 1;
        let mut i: u32 = 0;
        while i < e
            invariant
                base as nat == b,
                b == self.level as nat + self.enemies_killed as nat,
                e == self.max_parried,
                b >= 2,
                i <= e,
                acc as nat == pow_nat(b, i as nat),
            decreases e - i,
        {
            proof {
                lemma_pow_monotone_base_ge_one(b, i as nat);
                assert(pow_nat(b, (i + 1) as nat) == b * pow_nat(b, i as nat));
                assert(b * pow_nat(b, i as nat) == acc as nat * base as nat) by (nonlinear_arith)
                    requires
                        base as nat == b,
                        acc as nat == pow_nat(b, i as nat),
                ;
            }
            match acc.checked_mul(base) {
                Some(next) => {
                    acc = next;
                    i = i + 1;
                },
                None => {
                    proof {
                        assert(acc as nat * base as nat > u128::MAX);
                        lemma_pow_grows_past(b, (i + 1) as nat, e as nat, u128::MAX as nat);
                    }
                    return u128::MAX;
                },
            }
        }
        acc
    }

    /// Records a parry that merged `total` projectiles: the high-water mark
    /// `max_parried` becomes the larger of itself and `total`.
    pub fn record_parry(&mut self, total: u32)
        ensures
            final(self).max_parried == if total > old(self).max_parried {
                total
            } else {
                old(self).max_parried
            },
            final(self).enemies_killed == old(self).enemies_killed,
            final(self).level == old(self).level,
    {
        if total > self.max_parried {
            self.max_parried = total;
        }
    }

    /// Counts one more enemy killed, saturating at `u32::MAX`.
    pub fn record_kill(&mut self)
        ensures
            final(self).enemies_killed as nat == cap_at(old(self).enemies_killed as nat + 1, u32::MAX as nat),
            final(self).level == old(self).level,
            final(self).max_parried == old(self).max_parried,
    {
        self.enemies_killed = self.enemies_killed.saturating_add(1);
    }
}

impl Default for ParrylordSingleton {
    /// The statistics at the start of a session.
    fn default() -> (r: Self)
        ensures
            r.enemies_killed == 0,
            r.level == 1,
            r.max_parried == 0,
    {
        ParrylordSingleton::new()
    }
}

/// Starts the next wave once no enemy is left: returns how many enemies to
/// spawn (the current level) and raises the level by one, saturating at
/// `u32::MAX`. While enemies are left nothing changes and none are spawned.
pub fn new_level(stats: &mut ParrylordSingleton, enemies_left: usize) -> (r: u32)
    ensures
        enemies_left > 0 ==> r == 0 && *final(stats) == *old(stats),
        enemies_left == 0 ==> r == old(stats).level && final(stats).level as nat == cap_at(
            old(stats).level as nat + 1,
            u32::MAX as nat,
        ) && final(stats).enemies_killed == old(stats).enemies_killed
            && final(stats).max_parried == old(stats).max_parried,
{
    if enemies_left > 0 {
        return 0;
    }
    let spawned = stats.level;
    stats.level = stats.level.saturating_add(1);
    spawned
}

} // verus!
