use vstd::prelude::*;
use crate::timer::{Timer, TimerMode, NANOS_PER_MILLI};

verus! {

/// Immunity granted to an enemy that a player projectile has hit.
pub const ENEMY_HIT_GRACE: u64 = 200 * NANOS_PER_MILLI;

/// Immunity granted to the player after each hit.
pub const PLAYER_HIT_GRACE: u64 = 300 * NANOS_PER_MILLI;

/// Hit points of an entity.
#[derive(Clone, Copy, Debug, PartialEq, Eq, Structural)]
pub struct Health(pub u32);

/// A brief window in which an entity takes no damage.
#[derive(Clone, Copy, Debug, PartialEq, Eq, Structural)]
pub struct InvincibilityTimer(pub Timer);

impl InvincibilityTimer {
    /// A fresh window of `nanos` nanoseconds.
    pub fn new(nanos: u64) -> (r: InvincibilityTimer)
        ensures
            r.0 == Timer::new_spec(nanos, TimerMode::Once),
            r.wf(),
    {
        InvincibilityTimer(Timer::new(nanos, TimerMode::Once))
    }

    /// The window's invariant: a well-formed one-shot timer.
    pub open spec fn wf(self) -> bool {
        self.0.wf() && self.0.mode == TimerMode::Once
    }
}

/// A window of immunity after `delta` more nanoseconds: it is removed on the
/// tick where it finishes.
pub open spec fn grace_after_tick(g: Option<InvincibilityTimer>, delta: nat) -> Option<
    InvincibilityTimer,
> {
    match g {
        Some(t) => {
            let next = t.0.ticked(delta);
            if next.just_finished_spec() {
                None
            } else {
                Some(InvincibilityTimer(next))
            }
        },
        None => None,
    }
}

/// Whether an optional window of immunity is well formed.
pub open spec fn grace_wf(g: Option<InvincibilityTimer>) -> bool {
    match g {
        Some(t) => t.wf(),
        None => true,
    }
}

/// Ticks a window of immunity by `delta` nanoseconds.
pub fn tick_invincibility_timer(g: &mut Option<InvincibilityTimer>, delta: u64)
    requires
        grace_wf(*old(g)),
    ensures
        *final(g) == match *old(g) {
            Some(t) => Some(InvincibilityTimer(t.0.ticked(delta as nat))),
            None => None,
        },
        grace_wf(*final(g)),
{
    match g {
        Some(t) => {
            let mut timer = t.0;
            timer.tick(delta);
            *g = Some(InvincibilityTimer(timer));
        },
        None => {},
    }
}

/// Removes a window of immunity on the tick where it finished, and only
/// then.
pub fn despawn_done_invincibility_timers(g: &mut Option<InvincibilityTimer>)
    ensures
        *final(g) == match *old(g) {
            Some(t) => if t.0.just_finished_spec() {
                None
            } else {
                Some(t)
            },
            None => None,
        },
{
    let done = match g {
        Some(t) => t.0.just_finished(),
        None => false,
    };
    if done {
        *g = None;
    }
}

/// Ticks a window of immunity by `delta` nanoseconds and removes it on the
/// tick where it finishes.
pub fn tick_and_expire_invincibility(g: &mut Option<InvincibilityTimer>, delta: u64)
    requires
        grace_wf(*old(g)),
    ensures
        *final(g) == grace_after_tick(*old(g), delta as nat),
        grace_wf(*final(g)),
{
    tick_invincibility_timer(g, delta);
    despawn_done_invincibility_timers(g);
}

/// The health ledger of one entity: its hit points while it is alive, an
/// optional window of immunity, and the tag that marks it dead.
#[derive(Clone, Copy, Debug, PartialEq, Eq, Structural)]
pub struct Vitals {
    pub health: Option<Health>,
    pub invincibility: Option<InvincibilityTimer>,
    pub zero_health: bool,
}

impl Vitals {
    /// A living entity with `hp` hit points and no immunity.
    pub fn new(hp: u32) -> (r: Vitals)
        ensures
            r == (Vitals { health: Some(Health(hp)), invincibility: None, zero_health: false }),
            r.wf(),
    {
        Vitals { health: Some(Health(hp)), invincibility: None, zero_health: false }
    }

    /// The ledger's invariant: its window of immunity is well formed.
    pub open spec fn wf(self) -> bool {
        grace_wf(self.invincibility)
    }

    /// The entity can be damaged: it has health and no window of immunity.
    pub open spec fn damageable(self) -> bool {
        self.health is Some && self.invincibility is None
    }

    /// The ledger after a hit of `amount` that grants `grace` nanoseconds of
    /// immunity.
    pub open spec fn hit_spec(self, amount: nat, grace: u64) -> Vitals {
        match self.health {
            Some(h) => Vitals {
                health: Some(
                    Health(
                        if h.0 >= amount {
                            (h.0 - amount) as u32
                        } else {
                            0
                        },
                    ),
                ),
                invincibility: Some(InvincibilityTimer(Timer::new_spec(grace, TimerMode::Once))),
                zero_health: self.zero_health,
            },
            None => self,
        }
    }

    /// The entity has health, and it is down to zero.
    pub open spec fn out_of_health(self) -> bool {
        match self.health {
            Some(h) => h.0 == 0,
            None => false,
        }
    }

    /// Whether the entity can be damaged now.
    pub fn is_damageable(&self) -> (r: bool)
        ensures
            r == self.damageable(),
    {
        self.health.is_some() && self.invincibility.is_none()
    }

    /// Takes `amount` hit points away (stopping at zero) and grants `grace`
    /// nanoseconds of immunity; an entity without health is left unchanged.
    pub fn take_damage(&mut self, amount: u32, grace: u64)
        requires
            old(self).wf(),
        ensures
            *final(self) == old(self).hit_spec(amount as nat, grace),
            final(self).wf(),
    {
        match self.health {
            Some(h) => {
                self.health = Some(Health(h.0.saturating_sub(amount)));
                self.invincibility = Some(InvincibilityTimer::new(grace));
            },
            None => {},
        }
    }

    /// Whether the entity's health has reached zero.
    pub fn check_health(&self) -> (r: bool)
        ensures
            r == self.out_of_health(),
    {
        match self.health {
            Some(h) => h.0 == 0,
            None => false,
        }
    }

    /// Marks an entity whose health reached zero: its health and immunity are
    /// removed and it is tagged dead. Any other entity is left unchanged.
    pub fn handle_health(&mut self)
        ensures
            old(self).out_of_health() ==> *final(self) == (Vitals {
                health: None,
                invincibility: None,
                zero_health: true,
            }),
            !old(self).out_of_health() ==> *final(self) == *old(self),
    {
        if self.check_health() {
            self.health = None;
            self.invincibility = None;
            self.zero_health = true;
        }
    }

    /// Ticks the window of immunity, removing it on the tick where it
    /// finishes.
    pub fn tick_invincibility(&mut self, delta: u64)
        requires
            old(self).wf(),
        ensures
            final(self).invincibility == grace_after_tick(old(self).invincibility, delta as nat),
            final(self).health == old(self).health,
            final(self).zero_health == old(self).zero_health,
            final(self).wf(),
    {
        tick_and_expire_invincibility(&mut self.invincibility, delta);
    }
}

/// The player's response to its hurt box: when anything overlaps it and the
/// player can be damaged, one hit point is lost and a window of immunity
/// starts. Returns whether the player was hurt.
pub fn hurt(player: &mut Vitals, colliding: bool) -> (r: bool)
    requires
        old(player).wf(),
    ensures
        r == (colliding && old(player).damageable()),
        r ==> *final(player) == old(player).hit_spec(1, PLAYER_HIT_GRACE),
        !r ==> *final(player) == *old(player),
        final(player).wf(),
{
    if colliding && player.is_damageable() {
        player.take_damage(1, PLAYER_HIT_GRACE);
        true
    } else {
        false
    }
}

} // verus!
