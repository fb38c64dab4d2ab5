//! Enemies: when they are spawned, how many there may be, and what they fire.
//! How one moves is in [`crate::motion`].

use crate::formation::{Formation, FormationMaker};
use crate::laser::{sweep, swept, Laser, Origin, MUZZLE_OFFSET};
use crate::{Speed, WindowSize, DEFAULT_SPEED};
use vstd::prelude::*;

verus! {

/// How many enemies may be alive at once.
pub const MAX_ENEMIES: u32 = 5;

/// The time between two turns of the spawn timer, in microseconds.
pub const SPAWN_PERIOD: u32 = 1_000_000;

/// The time between two turns of the fire timer, in microseconds.
pub const FIRE_PERIOD: u32 = 900_000;

/// The count of enemies alive.
#[derive(Clone, Copy, Debug, PartialEq, Eq, Structural)]
pub struct ActiveEnemies(pub u32);

impl ActiveEnemies {
    /// No more enemies are alive than may be.
    pub open spec fn within_cap(self) -> bool {
        self.0 <= MAX_ENEMIES
    }

    /// Whether one more enemy may be spawned.
    pub open spec fn has_room(self) -> bool {
        self.0 < MAX_ENEMIES
    }

    /// The count after a turn of the spawn timer: one more where there was
    /// room, the same where there was none.
    pub open spec fn after_spawn(self) -> ActiveEnemies {
        if self.has_room() {
            ActiveEnemies((self.0 + 1) as u32)
        } else {
            self
        }
    }

    /// The count after the loss of an enemy: one less, and zero where it was zero.
    pub open spec fn after_loss(self) -> ActiveEnemies {
        if self.0 > 0 {
            ActiveEnemies((self.0 - 1) as u32)
        } else {
            self
        }
    }

    /// Counts one enemy off as destroyed. The count never goes under zero:
    /// with none alive it stays zero, and the result is `false` to tell the
    /// caller that an enemy was destroyed that had not been counted.
    pub fn enemy_destroyed(&mut self) -> (counted: bool)
        ensures
            counted == (old(self).0 > 0),
            *final(self) == old(self).after_loss(),
            old(self).within_cap() ==> final(self).within_cap(),
    {
        if self.0 > 0 {
            self.0 = self.0 - 1;
            true
        } else {
            false
        }
    }
}

/// An enemy ship: where it is, how fast it flies, and the path it flies.
#[derive(Clone, Copy, Debug, PartialEq, Eq)]
pub struct Enemy {
    pub x: i32,
    pub y: i32,
    pub speed: Speed,
    pub formation: Formation,
}

impl Enemy {
    /// The path is well formed.
    pub open spec fn wf(self) -> bool {
        self.formation.wf()
    }

    /// The enemy that enters along `formation`: at the start of the path, at the default speed.
    pub open spec fn entering(formation: Formation) -> Enemy {
        Enemy {
            x: formation.start.0,
            y: formation.start.1,
            speed: Speed(DEFAULT_SPEED),
            formation,
        }
    }

    /// The laser that the enemy fires: from just under it, downward, at the default speed.
    pub open spec fn shot(self) -> Laser {
        Laser {
            x: self.x as i64,
            y: (self.y - MUZZLE_OFFSET) as i64,
            speed: Speed(DEFAULT_SPEED),
            origin: Origin::FromEnemy,
        }
    }

    /// Computes [`Enemy::shot`].
    pub fn fire(&self) -> (laser: Laser)
        ensures
            laser == self.shot(),
    {
        Laser {
            x: self.x as i64,
            y: self.y as i64 - MUZZLE_OFFSET as i64,
            speed: Speed(DEFAULT_SPEED),
            origin: Origin::FromEnemy,
        }
    }
}

/// One turn of the spawn timer: if fewer than [`MAX_ENEMIES`] enemies are
/// alive, a formation is taken from the maker, an enemy enters at the start of
/// it and is counted; at the cap nothing happens.
pub fn enemy_spawn<F: Fn(i64, i64) -> i64>(
    active_enemies: &mut ActiveEnemies,
    formation_maker: &mut FormationMaker,
    window_size: &WindowSize,
    atan2: F,
) -> (spawned: Option<Enemy>)
    requires
        old(active_enemies).has_room() ==> {
            &&& old(formation_maker).wf()
            &&& old(formation_maker).ready(*window_size)
            &&& old(formation_maker).can_ask(*window_size, atan2)
        },
    ensures
        old(formation_maker).wf() ==> final(formation_maker).wf(),
        *final(active_enemies) == old(active_enemies).after_spawn(),
        final(active_enemies).0 == old(active_enemies).0 + if spawned is Some {
            1int
        } else {
            0int
        },
        old(active_enemies).within_cap() ==> final(active_enemies).within_cap(),
        match spawned {
            None => {
                &&& !old(active_enemies).has_room()
                &&& *final(formation_maker) == *old(formation_maker)
            },
            Some(enemy) => {
                &&& old(active_enemies).has_room()
                &&& old(formation_maker).made(*final(formation_maker), enemy.formation)
                &&& old(formation_maker).needs_fresh() ==> enemy.formation.fresh_in(*window_size)
                    && atan2.ensures(enemy.formation.entry_vector(), enemy.formation.angle)
                &&& enemy == Enemy::entering(enemy.formation)
                &&& enemy.wf()
            },
        },
{
    if active_enemies.0 < MAX_ENEMIES {
        let formation = formation_maker.make(window_size, atan2);
        active_enemies.0 = active_enemies.0 + 1;
        Some(
            Enemy {
                x: formation.start.0,
                y: formation.start.1,
                speed: Speed(DEFAULT_SPEED),
                formation,
            },
        )
    } else {
        None
    }
}

/// One turn of the fire timer: every enemy fires one laser.
pub fn enemy_fire(enemies: &Vec<Enemy>) -> (lasers: Vec<Laser>)
    ensures
        lasers@.len() == enemies@.len(),
        forall|i: int| 0 <= i < enemies@.len() ==> #[trigger] lasers@[i] == enemies@[i].shot(),
{
    let mut lasers: Vec<Laser> = Vec::new();
    let n: usize = enemies.len();
    let mut i: usize = 0;
    while i < n
        invariant
            i <= n,
            n == enemies@.len(),
            lasers@.len() == i,
            forall|j: int| 0 <= j < i ==> #[trigger] lasers@[j] == enemies@[j].shot(),
        decreases n - i,
    {
        lasers.push(enemies[i].fire());
        i = i + 1;
    }
    lasers
}

/// One tick of `tick` microseconds for the lasers that enemies fired: each
/// flies down and is removed once it is off screen. The player's lasers are
/// left as they are. The result says of each laser that was there, in its
/// place, whether it still is.
pub fn enemy_laser_movment(lasers: &mut Vec<Laser>, window_size: &WindowSize, tick: u32) -> (stays:
    Vec<bool>)
    ensures
        final(lasers)@ == swept(old(lasers)@, Origin::FromEnemy, *window_size, tick),
        stays@.len() == old(lasers)@.len(),
        forall|i: int|
            0 <= i < old(lasers)@.len() ==> #[trigger] stays@[i] == old(lasers)@[i].stays(
                Origin::FromEnemy,
                *window_size,
                tick,
            ),
{
    sweep(lasers, Origin::FromEnemy, window_size, tick)
}

/// One tick of `tick` microseconds for every enemy, `trig` supplying the
/// cosine and sine, in millionths and in this order, of the angle that it is
/// handed in microradians.
pub fn enemy_movment<F: Fn(i64) -> (i32, i32)>(enemies: &mut Vec<Enemy>, tick: u32, trig: F)
    requires
        forall|i: int|
            0 <= i < old(enemies)@.len() ==> (#[trigger] old(enemies)@[i]).wf() && trig.requires(
                (old(enemies)@[i].candidate_angle(tick),),
            ),
    ensures
        final(enemies)@.len() == old(enemies)@.len(),
        forall|i: int|
            0 <= i < old(enemies)@.len() ==> old(enemies)@[i].flown(
                #[trigger] final(enemies)@[i],
                tick,
                trig,
            ) && final(enemies)@[i].wf(),
{
    let ghost before = enemies@;
    let n: usize = enemies.len();
    let mut i: usize = 0;
    while i < n
        invariant
            i <= n,
            n == before.len(),
            enemies@.len() == n,
            forall|j: int| i <= j < n ==> #[trigger] enemies@[j] == before[j],
            forall|j: int|
                0 <= j < n ==> (#[trigger] before[j]).wf() && trig.requires(
                    (before[j].candidate_angle(tick),),
                ),
            forall|j: int|
                0 <= j < i ==> before[j].flown(#[trigger] enemies@[j], tick, trig)
                    && enemies@[j].wf(),
        decreases n - i,
    {
        let mut enemy: Enemy = enemies[i];
        assert(before[i as int].wf());
        enemy.fly(tick, &trig);
        enemies.set(i, enemy);
        i = i + 1;
    }
}

/// A record of the count of enemies over time: each entry follows from the
/// one before it by a turn of the spawn timer or by the loss of an enemy.
pub open spec fn census(counts: Seq<ActiveEnemies>) -> bool {
    forall|i: int|
        0 < i < counts.len() ==> #[trigger] counts[i] == counts[i - 1].after_spawn() || counts[i]
            == counts[i - 1].after_loss()
}

/// The population cap: a count that starts within the cap stays within it,
/// whatever turns of the spawn timer and losses follow; and a turn of the
/// spawn timer at the cap changes nothing.
pub proof fn law_population_cap(counts: Seq<ActiveEnemies>, i: int)
    requires
        census(counts),
        0 <= i < counts.len(),
        counts[0].within_cap(),
    ensures
        counts[i].within_cap(),
        counts[i].0 >= MAX_ENEMIES ==> counts[i].after_spawn() == counts[i],
    decreases i,
{
    if i > 0 {
        law_population_cap(counts, i - 1);
    }
}

} // verus!
