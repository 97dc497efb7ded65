use vstd::prelude::*;

verus! {

/// Sub-units in one screen unit. Positions are integers in these sub-units.
pub const POSITION_SCALE: i64 = 120;

/// Velocities are in thousandths: 1000 is a speed factor of one, which
/// moves an entity at the base speed.
pub const VELOCITY_SCALE: i64 = 1000;

/// Scales and alphas are stored in thousandths.
pub const PER_MILLE: u64 = 1000;

/// Marks the entity steered by the keyboard.
#[derive(Clone, Copy, Debug, PartialEq, Eq, Structural)]
pub struct Player;

/// Marks an entity that bullets can destroy.
#[derive(Clone, Copy, Debug, PartialEq, Eq, Structural)]
pub struct Enemy;

/// Marks a shot fired by the player.
#[derive(Clone, Copy, Debug, PartialEq, Eq, Structural)]
pub struct Bullet;

/// Marks a visual explosion entity.
#[derive(Clone, Copy, Debug, PartialEq, Eq, Structural)]
pub struct Explosion;

/// Direction and speed factors, in thousandths.
#[derive(Clone, Copy, Debug, PartialEq, Eq, Structural)]
pub struct Velocity {
    pub x: i64,
    pub y: i64,
}

/// Marks an entity whose position is integrated from its velocity.
#[derive(Clone, Copy, Debug, PartialEq, Eq, Structural)]
pub struct Movable {
    pub auto_despawn: bool,
}

/// The two animation profiles of an explosion.
#[derive(Clone, Copy, Debug, PartialEq, Eq, Structural)]
pub enum ExplosionColor {
    BLUE,
    RED,
}

/// A position in sub-units; `z` orders drawing.
#[derive(Clone, Copy, Debug, PartialEq, Eq, Structural)]
pub struct Position {
    pub x: i64,
    pub y: i64,
    pub z: i64,
}

/// A pending explosion: where, which profile, growth per tick and alpha decay
/// factor (both in thousandths).
#[derive(Clone, Copy, Debug, PartialEq, Eq, Structural)]
pub struct ExplosionToSpawn(pub Position, pub ExplosionColor, pub u64, pub u64);

/// Growth of the scale per tick and the factor applied to alpha per tick,
/// both in thousandths.
#[derive(Clone, Copy, Debug, PartialEq, Eq, Structural)]
pub struct ExplosionAnimationTime(pub u64, pub u64);

/// A countdown in milliseconds. `repeating` timers start over when they finish.
#[derive(Clone, Copy, Debug, PartialEq, Eq, Structural)]
pub struct Timer {
    pub duration: u64,
    pub elapsed: u64,
    pub repeating: bool,
}

/// The one-shot timer that ends an explosion.
#[derive(Clone, Copy, Debug, PartialEq, Eq, Structural)]
pub struct ExplosionTimer(pub Timer);

/// Elapsed time of a one-shot timer after `delta` more milliseconds:
/// it stops at the duration.
pub open spec fn once_elapsed(t: Timer, delta: u64) -> u64 {
    if t.elapsed + delta >= t.duration {
        if t.elapsed >= t.duration { t.elapsed } else { t.duration }
    } else {
        (t.elapsed + delta) as u64
    }
}

/// Whether a repeating timer completes a cycle within `delta` more milliseconds.
pub open spec fn repeat_fires(t: Timer, delta: u64) -> bool {
    t.elapsed + delta >= t.duration
}

/// Elapsed time of a repeating timer after `delta` more milliseconds.
pub open spec fn repeat_elapsed(t: Timer, delta: u64) -> u64 {
    if t.duration == 0 {
        0
    } else if t.elapsed + delta >= t.duration {
        ((t.elapsed + delta) % (t.duration as int)) as u64
    } else {
        (t.elapsed + delta) as u64
    }
}

impl Timer {
    /// A one-shot timer of `duration` milliseconds.
    pub fn once(duration: u64) -> (r: Timer)
        ensures
            r == (Timer { duration, elapsed: 0, repeating: false }),
    {
        Timer { duration, elapsed: 0, repeating: false }
    }

    /// A repeating timer of `duration` milliseconds.
    pub fn every(duration: u64) -> (r: Timer)
        ensures
            r == (Timer { duration, elapsed: 0, repeating: true }),
    {
        Timer { duration, elapsed: 0, repeating: true }
    }

    pub open spec fn is_finished(&self) -> bool {
        self.elapsed >= self.duration
    }

    /// Whether the timer has run its full duration.
    pub fn finished(&self) -> (r: bool)
        ensures
            r == self.is_finished(),
    {
        self.elapsed >= self.duration
    }

    pub open spec fn ticked(self, delta: u64) -> (Timer, bool) {
        if self.repeating {
            (Timer { elapsed: repeat_elapsed(self, delta), ..self }, repeat_fires(self, delta))
        } else {
            let e = once_elapsed(self, delta);
            (Timer { elapsed: e, ..self }, e >= self.duration && self.elapsed < self.duration)
        }
    }

    /// Advances the timer by `delta` milliseconds; returns whether it
    /// finished during this advance.
    pub fn tick(&mut self, delta: u64) -> (just_finished: bool)
        ensures
            (*final(self), just_finished) == old(self).ticked(delta),
    {
        let total: u128 = self.elapsed as u128 + delta as u128;
        if self.repeating {
            let fires = total >= self.duration as u128;
            if self.duration == 0 {
                self.elapsed = 0;
            } else if fires {
                self.elapsed = (total % self.duration as u128) as u64;
            } else {
                self.elapsed = total as u64;
            }
            fires
        } else {
            let was_done = self.elapsed >= self.duration;
            if total >= self.duration as u128 {
                if !was_done {
                    self.elapsed = self.duration;
                }
            } else {
                self.elapsed = total as u64;
            }
            self.elapsed >= self.duration && !was_done
        }
    }
}

/// The duration of an explosion, in milliseconds.
pub const EXPLOSION_DURATION_MS: u64 = 1000;

impl Default for ExplosionTimer {
    /// A fresh one-shot explosion timer.
    fn default() -> (r: ExplosionTimer)
        ensures
            r.0 == (Timer { duration: EXPLOSION_DURATION_MS, elapsed: 0, repeating: false }),
    {
        ExplosionTimer(Timer::once(EXPLOSION_DURATION_MS))
    }
}

} // verus!
