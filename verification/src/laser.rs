//! Projectiles: they fly straight up or down and are culled once off screen.
//!
//! The window is centred on the origin, so its lower edge lies half its
//! height under the middle and its upper edge half its height over it. A
//! laser is culled once it is more than [`CULL_MARGIN`] beyond the edge that
//! it flies toward.

use crate::{Speed, WindowSize, UNIT};
use vstd::prelude::*;

verus! {

/// How far ahead of the ship that fires it a laser appears, in sub-units.
pub const MUZZLE_OFFSET: i32 = 15 * UNIT;

/// How far beyond the edge of the window a laser is culled, in sub-units.
pub const CULL_MARGIN: i32 = 50 * UNIT;

/// Who fired a laser. It decides which way the laser flies and whom it can hit.
#[derive(Clone, Copy, Debug, PartialEq, Eq, Structural)]
pub enum Origin {
    FromPlayer,
    FromEnemy,
}

/// A laser in flight.
#[derive(Clone, Copy, Debug, PartialEq, Eq, Structural)]
pub struct Laser {
    pub x: i64,
    pub y: i64,
    pub speed: Speed,
    pub origin: Origin,
}

impl Laser {
    /// The height of the laser after `tick` microseconds: an enemy's laser
    /// flies down, the player's up.
    pub open spec fn next_y(self, tick: u32) -> int {
        match self.origin {
            Origin::FromEnemy => self.y - self.speed.reach(tick),
            Origin::FromPlayer => self.y + self.speed.reach(tick),
        }
    }

    /// Whether a laser of `origin` at height `y` has left the screen. An
    /// enemy's laser has once it is more than [`CULL_MARGIN`] below the lower
    /// edge, the player's once it is more than [`CULL_MARGIN`] above the upper
    /// edge. Both bounds are held against twice the height, so that half an
    /// odd window height is not rounded.
    pub open spec fn off_screen(origin: Origin, y: int, window: WindowSize) -> bool {
        match origin {
            Origin::FromEnemy => 2 * y < -window.height - 2 * CULL_MARGIN,
            Origin::FromPlayer => 2 * y > window.height + 2 * CULL_MARGIN,
        }
    }

    /// Whether the laser is still there after a tick of `tick` microseconds
    /// in which the lasers of `origin` fly.
    pub open spec fn stays(self, origin: Origin, window: WindowSize, tick: u32) -> bool {
        self.origin != origin || self.advanced(window, tick) is Some
    }

    /// The laser after `tick` microseconds, or `None` once it has left the screen.
    pub open spec fn advanced(self, window: WindowSize, tick: u32) -> Option<Laser> {
        if Laser::off_screen(self.origin, self.next_y(tick), window) {
            None
        } else {
            Some(Laser { y: self.next_y(tick) as i64, ..self })
        }
    }

    /// Moves the laser through one tick of `tick` microseconds. Returns the
    /// laser where it is now, or `None` if it has left the screen and is to
    /// be removed.
    pub fn advance(&self, window: &WindowSize, tick: u32) -> (moved: Option<Laser>)
        ensures
            moved == self.advanced(*window, tick),
            moved matches Some(laser) ==> laser.y == self.next_y(tick),
    {
        let reach: u64 = self.speed.distance_in(tick);
        match self.origin {
            Origin::FromEnemy => {
                let y: i128 = self.y as i128 - reach as i128;
                if 2 * y < -(window.height as i128) - 2 * (CULL_MARGIN as i128) {
                    None
                } else {
                    Some(Laser { x: self.x, y: y as i64, speed: self.speed, origin: self.origin })
                }
            },
            Origin::FromPlayer => {
                let y: i128 = self.y as i128 + reach as i128;
                if 2 * y > window.height as i128 + 2 * (CULL_MARGIN as i128) {
                    None
                } else {
                    Some(Laser { x: self.x, y: y as i64, speed: self.speed, origin: self.origin })
                }
            },
        }
    }
}

/// The lasers left after one tick in which those of `origin` fly: each of
/// them in its place, moved, unless it has left the screen; the others as
/// they were.
pub open spec fn swept(lasers: Seq<Laser>, origin: Origin, window: WindowSize, tick: u32) -> Seq<
    Laser,
>
    decreases lasers.len(),
{
    if lasers.len() == 0 {
        Seq::empty()
    } else {
        let before = swept(lasers.drop_last(), origin, window, tick);
        let last = lasers.last();
        if last.origin != origin {
            before.push(last)
        } else {
            match last.advanced(window, tick) {
                Some(moved) => before.push(moved),
                None => before,
            }
        }
    }
}

fn is_from(laser: &Laser, origin: Origin) -> (b: bool)
    ensures
        b == (laser.origin == origin),
{
    match (laser.origin, origin) {
        (Origin::FromEnemy, Origin::FromEnemy) => true,
        (Origin::FromPlayer, Origin::FromPlayer) => true,
        _ => false,
    }
}

/// Moves every laser of `origin` through one tick of `tick` microseconds and
/// removes those that leave the screen. The result says of each laser that
/// was there, in its place, whether it still is.
pub fn sweep(lasers: &mut Vec<Laser>, origin: Origin, window: &WindowSize, tick: u32) -> (stays:
    Vec<bool>)
    ensures
        final(lasers)@ == swept(old(lasers)@, origin, *window, tick),
        stays@.len() == old(lasers)@.len(),
        forall|i: int|
            0 <= i < old(lasers)@.len() ==> #[trigger] stays@[i] == old(lasers)@[i].stays(
                origin,
                *window,
                tick,
            ),
{
    let ghost before = lasers@;
    let mut kept: Vec<Laser> = Vec::new();
    let mut stays: Vec<bool> = Vec::new();
    let n: usize = lasers.len();
    let mut i: usize = 0;
    while i < n
        invariant
            i <= n,
            n == lasers.len(),
            lasers@ == before,
            kept@ == swept(before.take(i as int), origin, *window, tick),
            stays@.len() == i,
            forall|j: int|
                0 <= j < i ==> #[trigger] stays@[j] == before[j].stays(origin, *window, tick),
        decreases n - i,
    {
        let laser: Laser = lasers[i];
        proof {
            assert(before.take(i + 1).drop_last() == before.take(i as int));
            assert(before.take(i + 1).last() == before[i as int]);
        }
        if is_from(&laser, origin) {
            match laser.advance(window, tick) {
                Some(moved) => {
                    kept.push(moved);
                    stays.push(true);
                },
                None => {
                    stays.push(false);
                },
            }
        } else {
            kept.push(laser);
            stays.push(true);
        }
        i = i + 1;
    }
    proof {
        assert(before.take(n as int) == before);
    }
    *lasers = kept;
    stays
}

/// Culling: a laser that is beyond its cull line is gone after the tick,
/// however short the tick. For an enemy's laser the line is [`CULL_MARGIN`]
/// under the lower edge of the window, for the player's as far over the upper
/// edge.
pub proof fn law_culled_beyond_the_line(laser: Laser, window: WindowSize, tick: u32)
    requires
        Laser::off_screen(laser.origin, laser.y as int, window),
    ensures
        laser.advanced(window, tick) is None,
{
    laser.speed.lemma_reach_not_negative(tick);
}

/// The two cull lines mirror each other in the middle of the window: the
/// player's laser at a height is off screen where an enemy's laser as far
/// under the middle is.
pub proof fn law_cull_lines_are_mirrored(y: int, window: WindowSize)
    ensures
        Laser::off_screen(Origin::FromPlayer, y, window) <==> Laser::off_screen(
            Origin::FromEnemy,
            -y,
            window,
        ),
{
}

/// Persistence: a laser is gone after the tick only if the tick took it off
/// the screen; any other is still there, at the height the tick took it to
/// and otherwise as it was.
pub proof fn law_persists_on_screen(laser: Laser, window: WindowSize, tick: u32)
    ensures
        laser.advanced(window, tick) is None <==> Laser::off_screen(
            laser.origin,
            laser.next_y(tick),
            window,
        ),
        laser.advanced(window, tick) matches Some(moved) ==> moved.y == laser.next_y(tick)
            && moved.x == laser.x && moved.speed == laser.speed && moved.origin == laser.origin,
{
    laser.speed.lemma_reach_not_negative(tick);
}

/// After a sweep no laser of the swept origin is off the screen, and no more
/// lasers are left than there were.
pub proof fn law_sweep_leaves_none_off_screen(
    lasers: Seq<Laser>,
    origin: Origin,
    window: WindowSize,
    tick: u32,
)
    ensures
        swept(lasers, origin, window, tick).len() <= lasers.len(),
        forall|k: int|
            #![trigger swept(lasers, origin, window, tick)[k]]
            0 <= k < swept(lasers, origin, window, tick).len() && swept(
                lasers,
                origin,
                window,
                tick,
            )[k].origin == origin ==> !Laser::off_screen(
                origin,
                swept(lasers, origin, window, tick)[k].y as int,
                window,
            ),
    decreases lasers.len(),
{
    if lasers.len() > 0 {
        law_sweep_leaves_none_off_screen(lasers.drop_last(), origin, window, tick);
        law_persists_on_screen(lasers.last(), window, tick);
    }
}

/// A sweep in which no laser leaves the screen keeps every laser in its place.
pub proof fn law_sweep_keeps_all_on_screen(
    lasers: Seq<Laser>,
    origin: Origin,
    window: WindowSize,
    tick: u32,
)
    requires
        forall|i: int|
            0 <= i < lasers.len() && (#[trigger] lasers[i]).origin == origin ==> !Laser::off_screen(
                origin,
                lasers[i].next_y(tick),
                window,
            ),
    ensures
        swept(lasers, origin, window, tick).len() == lasers.len(),
        forall|i: int|
            #![trigger swept(lasers, origin, window, tick)[i]]
            0 <= i < lasers.len() ==> swept(lasers, origin, window, tick)[i] == if lasers[i].origin
                == origin {
                lasers[i].advanced(window, tick)->0
            } else {
                lasers[i]
            },
    decreases lasers.len(),
{
    if lasers.len() > 0 {
        let front = lasers.drop_last();
        assert forall|i: int|
            0 <= i < front.len() && (#[trigger] front[i]).origin == origin implies !Laser::off_screen(
            origin,
            front[i].next_y(tick),
            window,
        ) by {
            assert(front[i] == lasers[i]);
        }
        law_sweep_keeps_all_on_screen(front, origin, window, tick);
        law_persists_on_screen(lasers.last(), window, tick);
        assert forall|i: int| 0 <= i < front.len() implies front[i] == lasers[i] by {}
    }
}

} // verus!
