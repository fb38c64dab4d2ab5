//! How an enemy moves along its formation.
//!
//! Every tick the enemy makes for the point of its orbit a little ahead of
//! its phase. It flies straight toward that point, by no more than its speed
//! allows and never past the point, and only once it has come close does it
//! adopt the angle of the point as its new phase. An enemy that enters from
//! afar so spirals in toward its orbit and then circles it.

use crate::arith::{
    ceil_sqrt, ceil_sqrt_of, lemma_ceil_sqrt_exists, lemma_ceil_sqrt_is, lemma_square_grows,
};
use crate::enemy::Enemy;
use crate::formation::Formation;
use crate::{PI, RADIAN, SECOND, TRIG_ONE, UNIT};
use vstd::prelude::*;

verus! {

/// The cosine and sine of an angle, in millionths.
#[derive(Clone, Copy, Debug, PartialEq, Eq)]
pub struct SinCos {
    pub cos: i32,
    pub sin: i32,
}

/// `part` brought into the range from minus one to one.
pub open spec fn unit_clamp(part: i32) -> i32 {
    if part < -TRIG_ONE {
        (-TRIG_ONE) as i32
    } else if part > TRIG_ONE {
        TRIG_ONE
    } else {
        part
    }
}

impl SinCos {
    /// Neither part is beyond one.
    pub open spec fn wf(self) -> bool {
        &&& -TRIG_ONE <= self.cos <= TRIG_ONE
        &&& -TRIG_ONE <= self.sin <= TRIG_ONE
    }

    /// The pair with each part brought into range.
    pub open spec fn clamped(cos: i32, sin: i32) -> SinCos {
        SinCos { cos: unit_clamp(cos), sin: unit_clamp(sin) }
    }

    /// Makes a pair from two parts in millionths; a part beyond one is taken as one.
    pub fn new(cos: i32, sin: i32) -> (at: SinCos)
        ensures
            at == SinCos::clamped(cos, sin),
            at.wf(),
    {
        let cos: i32 = if cos < -TRIG_ONE {
            -TRIG_ONE
        } else if cos > TRIG_ONE {
            TRIG_ONE
        } else {
            cos
        };
        let sin: i32 = if sin < -TRIG_ONE {
            -TRIG_ONE
        } else if sin > TRIG_ONE {
            TRIG_ONE
        } else {
            sin
        };
        SinCos { cos, sin }
    }
}

/// `radius` times `part` millionths, rounded toward zero.
pub open spec fn scaled(radius: int, part: int) -> int {
    if part >= 0 {
        (radius * part) / (TRIG_ONE as int)
    } else {
        -((radius * -part) / (TRIG_ONE as int))
    }
}

/// The absolute value of `n`.
pub open spec fn magnitude(n: int) -> int {
    if n >= 0 {
        n
    } else {
        -n
    }
}

/// `n` kept within the range of `i64`.
pub open spec fn saturated(n: int) -> i64 {
    if n < i64::MIN {
        i64::MIN
    } else if n > i64::MAX {
        i64::MAX
    } else {
        n as i64
    }
}

/// Where a step along one axis ends: `from` moved toward `to` by
/// `reach / distance` of what separates them, and no further than `to`. With
/// `distance` zero nothing moves.
pub open spec fn approach(from: int, to: int, reach: int, distance: int) -> int {
    let shift = if distance == 0 {
        0
    } else {
        (magnitude(from - to) * reach) / distance
    };
    if from > to {
        if from - shift > to {
            from - shift
        } else {
            to
        }
    } else {
        if from + shift < to {
            from + shift
        } else {
            to
        }
    }
}

proof fn lemma_scaled_within(radius: int, part: int)
    requires
        radius >= 0,
        -TRIG_ONE <= part <= TRIG_ONE,
    ensures
        -radius <= scaled(radius, part) <= radius,
{
    let p: int = magnitude(part);
    assert(0 <= radius * p <= radius * TRIG_ONE) by (nonlinear_arith)
        requires
            radius >= 0,
            0 <= p <= TRIG_ONE,
    ;
}

fn scale(radius: i32, part: i32) -> (r: i32)
    requires
        radius >= 0,
        -TRIG_ONE <= part <= TRIG_ONE,
    ensures
        r == scaled(radius as int, part as int),
        -radius <= r <= radius,
{
    proof {
        lemma_scaled_within(radius as int, part as int);
    }
    if part >= 0 {
        assert(0 <= radius * part <= radius * TRIG_ONE) by (nonlinear_arith)
            requires
                radius >= 0,
                0 <= part <= TRIG_ONE,
        ;
        ((radius as i64 * part as i64) / (TRIG_ONE as i64)) as i32
    } else {
        assert(0 <= radius * -part <= radius * TRIG_ONE) by (nonlinear_arith)
            requires
                radius >= 0,
                0 <= -part <= TRIG_ONE,
        ;
        (-((radius as i64 * -(part as i64)) / (TRIG_ONE as i64))) as i32
    }
}

fn step_toward(from: i32, to: i32, reach: u64, distance: u128) -> (r: i32)
    ensures
        r == approach(from as int, to as int, reach as int, distance as int),
{
    let gap: u64 = if from > to {
        (from as i64 - to as i64) as u64
    } else {
        (to as i64 - from as i64) as u64
    };
    if distance == 0 {
        return from;
    }
    assert(gap * reach <= 0xffff_ffff * 0xffff_ffff_ffff_ffff) by (nonlinear_arith)
        requires
            gap <= 0xffff_ffff,
            reach <= 0xffff_ffff_ffff_ffff,
    ;
    let shift: u128 = (gap as u128 * reach as u128) / distance;
    if shift >= gap as u128 {
        to
    } else if from > to {
        (from as i64 - shift as i64) as i32
    } else {
        (from as i64 + shift as i64) as i32
    }
}

impl Formation {
    /// The sense in which the orbit is flown: one for a path that starts to
    /// the right of the middle, minus one for any other.
    pub open spec fn direction(self) -> int {
        if self.start.0 > 0 {
            1
        } else {
            -1
        }
    }

    /// The lesser of the two radii.
    pub open spec fn least_radius(self) -> int {
        if self.radius.0 <= self.radius.1 {
            self.radius.0 as int
        } else {
            self.radius.1 as int
        }
    }

    /// The point of the orbit at the angle whose cosine and sine are `at`.
    pub open spec fn point(self, at: SinCos) -> (int, int) {
        (
            self.offset.0 + scaled(self.radius.0 as int, at.cos as int),
            self.offset.1 + scaled(self.radius.1 as int, at.sin as int),
        )
    }

    /// Computes [`Formation::point`].
    pub fn point_at(&self, at: SinCos) -> (p: (i32, i32))
        requires
            self.wf(),
            at.wf(),
        ensures
            (p.0 as int, p.1 as int) == self.point(at),
    {
        (self.offset.0 + scale(self.radius.0, at.cos), self.offset.1 + scale(self.radius.1, at.sin))
    }
}

impl Enemy {
    /// The most the enemy moves in `tick` microseconds.
    pub open spec fn max_distance(self, tick: u32) -> int {
        self.speed.reach(tick)
    }

    /// By how much the phase would grow in `tick` microseconds: the way
    /// flown, over the quarter turn of a circle of the lesser radius, in
    /// microradians and rounded down.
    pub open spec fn angle_step(self, tick: u32) -> int {
        ((self.speed.0 * tick) * 2 * RADIAN * RADIAN) / (self.formation.least_radius() * PI
            * SECOND)
    }

    /// The phase the enemy makes for in a tick of `tick` microseconds.
    pub open spec fn candidate_angle(self, tick: u32) -> i64 {
        saturated(self.formation.angle + self.formation.direction() * self.angle_step(tick))
    }

    /// The square of what separates the enemy from the point of its orbit at `at`.
    pub open spec fn gap_squared(self, at: SinCos) -> int {
        let (x, y) = self.formation.point(at);
        (self.x - x) * (self.x - x) + (self.y - y) * (self.y - y)
    }

    /// What separates the enemy from the point of its orbit at `at`, rounded up to whole sub-units.
    pub open spec fn distance(self, at: SinCos) -> int {
        ceil_sqrt(self.gap_squared(at) as nat) as int
    }

    /// Whether the enemy is close enough to the point it makes for to adopt
    /// the new phase: what separates them is less than a twentieth of the
    /// tick's reach times the speed, both in world units.
    pub open spec fn commits(self, tick: u32, at: SinCos) -> bool {
        400 * UNIT * UNIT * self.gap_squared(at) < (self.max_distance(tick) * self.speed.0) * (
        self.max_distance(tick) * self.speed.0)
    }

    /// The enemy after a tick of `tick` microseconds, `at` being the cosine
    /// and sine of [`Enemy::candidate_angle`].
    pub open spec fn advanced(self, tick: u32, at: SinCos) -> Enemy {
        let (x, y) = self.formation.point(at);
        Enemy {
            x: approach(self.x as int, x, self.max_distance(tick), self.distance(at)) as i32,
            y: approach(self.y as int, y, self.max_distance(tick), self.distance(at)) as i32,
            speed: self.speed,
            formation: Formation {
                angle: if self.commits(tick, at) {
                    self.candidate_angle(tick)
                } else {
                    self.formation.angle
                },
                ..self.formation
            },
        }
    }

    /// Computes [`Enemy::candidate_angle`].
    pub fn next_angle(&self, tick: u32) -> (angle: i64)
        requires
            self.wf(),
        ensures
            angle == self.candidate_angle(tick),
    {
        let way: u64 = {
            assert(self.speed.0 * tick <= u32::MAX * u32::MAX) by (nonlinear_arith);
            self.speed.0 as u64 * tick as u64
        };
        let least: i32 = if self.formation.radius.0 <= self.formation.radius.1 {
            self.formation.radius.0
        } else {
            self.formation.radius.1
        };
        let turns: u128 = way as u128 * 2_000_000_000_000;
        let quarter: u128 = least as u128 * 3_141_593_000_000;
        assert(turns == (self.speed.0 * tick) * 2 * RADIAN * RADIAN) by (nonlinear_arith)
            requires
                turns == way * 2_000_000_000_000,
                way == self.speed.0 * tick,
                RADIAN == 1_000_000,
        ;
        assert(quarter == self.formation.least_radius() * PI * SECOND) by (nonlinear_arith)
            requires
                quarter == least * 3_141_593_000_000,
                least == self.formation.least_radius(),
                PI == 3_141_593,
                SECOND == 1_000_000,
        ;
        let step: u128 = turns / quarter;
        let wide: i128 = if self.formation.start.0 > 0 {
            self.formation.angle as i128 + step as i128
        } else {
            self.formation.angle as i128 - step as i128
        };
        if wide < i64::MIN as i128 {
            i64::MIN
        } else if wide > i64::MAX as i128 {
            i64::MAX
        } else {
            wide as i64
        }
    }

    /// Moves the enemy through one tick of `tick` microseconds.
    ///
    /// `at` is the cosine and sine of [`Enemy::candidate_angle`]. The enemy
    /// flies toward the point of its orbit at that angle, by the tick's reach
    /// at most and never past the point, and adopts the angle as its new
    /// phase if it was close enough to the point.
    pub fn advance(&mut self, tick: u32, at: SinCos)
        requires
            old(self).wf(),
            at.wf(),
        ensures
            *final(self) == old(self).advanced(tick, at),
            final(self).wf(),
    {
        let reach: u64 = self.speed.distance_in(tick);
        let angle: i64 = self.next_angle(tick);
        let (x_dst, y_dst) = self.formation.point_at(at);
        let delta_x: u64 = if self.x > x_dst {
            (self.x as i64 - x_dst as i64) as u64
        } else {
            (x_dst as i64 - self.x as i64) as u64
        };
        let delta_y: u64 = if self.y > y_dst {
            (self.y as i64 - y_dst as i64) as u64
        } else {
            (y_dst as i64 - self.y as i64) as u64
        };
        assert(delta_x * delta_x <= 0xffff_ffff * 0xffff_ffff) by (nonlinear_arith)
            requires
                delta_x <= 0xffff_ffff,
        ;
        assert(delta_y * delta_y <= 0xffff_ffff * 0xffff_ffff) by (nonlinear_arith)
            requires
                delta_y <= 0xffff_ffff,
        ;
        let gap2: u128 = delta_x as u128 * delta_x as u128 + delta_y as u128 * delta_y as u128;
        assert(gap2 == self.gap_squared(at)) by (nonlinear_arith)
            requires
                gap2 == delta_x * delta_x + delta_y * delta_y,
                delta_x == magnitude(self.x - x_dst),
                delta_y == magnitude(self.y - y_dst),
                self.gap_squared(at) == (self.x - x_dst) * (self.x - x_dst) + (self.y - y_dst) * (
                self.y - y_dst),
        ;
        let distance: u128 = ceil_sqrt_of(gap2);
        let x: i32 = step_toward(self.x, x_dst, reach, distance);
        let y: i32 = step_toward(self.y, y_dst, reach, distance);
        if within_commit_range(gap2, reach, self.speed.0) {
            self.formation.angle = angle;
        }
        self.x = x;
        self.y = y;
    }

    /// What one tick of `tick` microseconds makes of `self`, `trig` supplying
    /// the cosine and sine, in this order: `trig` was asked for those of
    /// [`Enemy::candidate_angle`], and `after` is the enemy advanced at what it
    /// answered, each part brought into range.
    pub open spec fn flown<F: Fn(i64) -> (i32, i32)>(
        self,
        after: Enemy,
        tick: u32,
        trig: F,
    ) -> bool {
        exists|cos: i32, sin: i32|
            #![trigger SinCos::clamped(cos, sin)]
            trig.ensures((self.candidate_angle(tick),), (cos, sin)) && after == self.advanced(
                tick,
                SinCos::clamped(cos, sin),
            )
    }

    /// Moves the enemy through one tick of `tick` microseconds, asking `trig`
    /// for the cosine and sine, in millionths and in this order, of the angle
    /// that it is handed in microradians.
    pub fn fly<F: Fn(i64) -> (i32, i32)>(&mut self, tick: u32, trig: &F)
        requires
            old(self).wf(),
            trig.requires((old(self).candidate_angle(tick),)),
        ensures
            old(self).flown(*final(self), tick, *trig),
            final(self).wf(),
    {
        let angle: i64 = self.next_angle(tick);
        let (cos, sin) = trig(angle);
        let at = SinCos::new(cos, sin);
        self.advance(tick, at);
    }
}

/// Decides whether `gap2`, a squared distance in sub-units, is under the
/// square of a twentieth of `reach` times `speed`.
fn within_commit_range(gap2: u128, reach: u64, speed: u32) -> (b: bool)
    requires
        gap2 <= 2 * (0xffff_ffff * 0xffff_ffff),
        reach <= 0x4000_0000_0000,
    ensures
        b == (400 * UNIT * UNIT * gap2 < (reach * speed) * (reach * speed)),
{
    assert(reach * speed <= 0x4000_0000_0000 * 0xffff_ffff) by (nonlinear_arith)
        requires
            reach <= 0x4000_0000_0000,
            speed <= 0xffff_ffff,
    ;
    let product: u128 = reach as u128 * speed as u128;
    let scaled_gap: u128 = 400 * (UNIT as u128) * (UNIT as u128) * gap2;
    if product >= 0x8000_0000_0000 {
        assert(product * product >= 0x8000_0000_0000 * 0x8000_0000_0000) by (nonlinear_arith)
            requires
                product >= 0x8000_0000_0000,
        ;
        true
    } else {
        assert(product * product <= 0x8000_0000_0000 * 0x8000_0000_0000) by (nonlinear_arith)
            requires
                product <= 0x8000_0000_0000,
        ;
        scaled_gap < product * product
    }
}

/// A quotient rounded down, times its divisor, does not exceed the dividend.
proof fn lemma_quotient_below(n: int, d: int)
    by (nonlinear_arith)
    requires
        n >= 0,
        d > 0,
    ensures
        0 <= n / d,
        0 <= (n / d) * d <= n,
{
}

/// The square of a product is the product of the squares.
proof fn lemma_square_of_product(a: int, b: int)
    by (nonlinear_arith)
    ensures
        (a * b) * (a * b) == (a * a) * (b * b),
{
}

/// From `a * d <= x * r`, `b * d <= y * r` and `x + y <= d` follows `(a + b) * d <= r * d`.
proof fn lemma_sum_of_bounds(a: int, b: int, d: int, x: int, y: int, r: int)
    by (nonlinear_arith)
    requires
        a * d <= x * r,
        b * d <= y * r,
        x + y <= d,
        r >= 0,
    ensures
        (a + b) * d <= r * d,
{
}

/// A positive factor can be dropped from both sides of an inequality.
proof fn lemma_drop_factor(p: int, r: int, d: int)
    by (nonlinear_arith)
    requires
        p * d <= r * d,
        d > 0,
    ensures
        p <= r,
{
}

/// A step of `(dx * reach) / distance` along one axis and `(dy * reach) /
/// distance` along the other is no longer than `reach`, where `distance` is
/// no less than the length of `(dx, dy)`.
proof fn lemma_shifts_within_reach(dx: int, dy: int, reach: int, distance: int)
    requires
        dx >= 0,
        dy >= 0,
        reach >= 0,
        distance > 0,
        distance * distance >= dx * dx + dy * dy,
    ensures
        ({
            let sx = (dx * reach) / distance;
            let sy = (dy * reach) / distance;
            sx >= 0 && sy >= 0 && sx * sx + sy * sy <= reach * reach
        }),
{
    let sx = (dx * reach) / distance;
    let sy = (dy * reach) / distance;
    lemma_square_grows(0, dx);
    lemma_square_grows(0, dy);
    lemma_square_grows(0, reach);
    lemma_square_grows(0, distance);
    assert(dx * reach >= 0 && dy * reach >= 0) by (nonlinear_arith)
        requires
            dx >= 0,
            dy >= 0,
            reach >= 0,
    ;
    lemma_quotient_below(dx * reach, distance);
    lemma_quotient_below(dy * reach, distance);
    lemma_square_grows(sx * distance, dx * reach);
    lemma_square_grows(sy * distance, dy * reach);
    lemma_square_of_product(sx, distance);
    lemma_square_of_product(sy, distance);
    lemma_square_of_product(dx, reach);
    lemma_square_of_product(dy, reach);
    lemma_sum_of_bounds(
        sx * sx,
        sy * sy,
        distance * distance,
        dx * dx,
        dy * dy,
        reach * reach,
    );
    lemma_drop_factor(sx * sx + sy * sy, reach * reach, distance * distance);
}

/// A step ends between where it began and where it aims, and is no longer
/// than its shift.
proof fn lemma_approach_between(from: int, to: int, reach: int, distance: int)
    requires
        reach >= 0,
        distance >= 0,
    ensures
        ({
            let after = approach(from, to, reach, distance);
            let shift = if distance == 0 {
                0
            } else {
                (magnitude(from - to) * reach) / distance
            };
            &&& shift >= 0
            &&& magnitude(after - to) <= magnitude(from - to)
            &&& magnitude(after - from) <= shift
            &&& from <= to ==> from <= after <= to
            &&& from >= to ==> to <= after <= from
        }),
{
    if distance > 0 {
        let gap = magnitude(from - to);
        assert((gap * reach) / distance >= 0) by (nonlinear_arith)
            requires
                gap >= 0,
                reach >= 0,
                distance > 0,
        ;
    }
}

proof fn lemma_square_of_magnitude(n: int)
    ensures
        magnitude(n) * magnitude(n) == n * n,
{
    assert(magnitude(n) * magnitude(n) == n * n) by (nonlinear_arith)
        requires
            magnitude(n) == n || magnitude(n) == -n,
    ;
}

/// No overshoot: after a tick the enemy is no further from the point it made
/// for than before, along each axis and so in all; it lies between where it
/// was and that point; and it has moved by no more than the tick's reach.
pub proof fn law_no_overshoot(enemy: Enemy, tick: u32, at: SinCos)
    requires
        enemy.wf(),
        at.wf(),
    ensures
        ({
            let after = enemy.advanced(tick, at);
            let (x, y) = enemy.formation.point(at);
            let reach = enemy.max_distance(tick);
            &&& after.formation.point(at) == enemy.formation.point(at)
            &&& magnitude(after.x - x) <= magnitude(enemy.x - x)
            &&& magnitude(after.y - y) <= magnitude(enemy.y - y)
            &&& after.gap_squared(at) <= enemy.gap_squared(at)
            &&& enemy.x <= x ==> enemy.x <= after.x <= x
            &&& enemy.x >= x ==> x <= after.x <= enemy.x
            &&& enemy.y <= y ==> enemy.y <= after.y <= y
            &&& enemy.y >= y ==> y <= after.y <= enemy.y
            &&& (after.x - enemy.x) * (after.x - enemy.x) + (after.y - enemy.y) * (after.y
                - enemy.y) <= reach * reach
        }),
{
    let after = enemy.advanced(tick, at);
    let (x, y) = enemy.formation.point(at);
    let reach = enemy.max_distance(tick);
    let distance = enemy.distance(at);
    let dx = magnitude(enemy.x - x);
    let dy = magnitude(enemy.y - y);
    lemma_scaled_within(enemy.formation.radius.0 as int, at.cos as int);
    lemma_scaled_within(enemy.formation.radius.1 as int, at.sin as int);
    enemy.speed.lemma_reach_not_negative(tick);
    lemma_approach_between(enemy.x as int, x, reach, distance);
    lemma_approach_between(enemy.y as int, y, reach, distance);
    assert(after.x == approach(enemy.x as int, x, reach, distance));
    assert(after.y == approach(enemy.y as int, y, reach, distance));
    // closer along each axis, so closer in all
    lemma_square_grows(magnitude(after.x - x), dx);
    lemma_square_grows(magnitude(after.y - y), dy);
    lemma_square_of_magnitude(after.x - x);
    lemma_square_of_magnitude(after.y - y);
    lemma_square_of_magnitude(enemy.x - x);
    lemma_square_of_magnitude(enemy.y - y);
    // no further than the reach
    lemma_square_of_magnitude(after.x - enemy.x);
    lemma_square_of_magnitude(after.y - enemy.y);
    if distance == 0 {
        assert(reach * reach >= 0) by (nonlinear_arith);
    } else {
        lemma_ceil_sqrt_exists(enemy.gap_squared(at) as nat);
        assert(enemy.gap_squared(at) >= 0) by (nonlinear_arith)
            requires
                enemy.gap_squared(at) == (enemy.x - x) * (enemy.x - x) + (enemy.y - y) * (enemy.y
                    - y),
        ;
        lemma_shifts_within_reach(dx, dy, reach, distance);
        let sx = (dx * reach) / distance;
        let sy = (dy * reach) / distance;
        lemma_square_grows(magnitude(after.x - enemy.x), sx);
        lemma_square_grows(magnitude(after.y - enemy.y), sy);
    }
}

/// The phase is adopted under the threshold and only there: an enemy that
/// was close enough to the point it made for has the candidate angle as its
/// phase after the tick, any other enemy the phase it had; nothing else of
/// its path changes.
pub proof fn law_angle_commit(enemy: Enemy, tick: u32, at: SinCos)
    requires
        enemy.wf(),
        at.wf(),
    ensures
        ({
            let after = enemy.advanced(tick, at);
            &&& enemy.commits(tick, at) ==> after.formation.angle == enemy.candidate_angle(tick)
            &&& !enemy.commits(tick, at) ==> after.formation.angle == enemy.formation.angle
            &&& after.formation == Formation { angle: after.formation.angle, ..enemy.formation }
            &&& after.speed == enemy.speed
        }),
{
}

/// An enemy that is at the point it makes for stays where it is.
pub proof fn law_at_rest_on_target(enemy: Enemy, tick: u32, at: SinCos)
    requires
        enemy.wf(),
        at.wf(),
        enemy.formation.point(at) == (enemy.x as int, enemy.y as int),
    ensures
        enemy.distance(at) == 0,
        enemy.advanced(tick, at).x == enemy.x,
        enemy.advanced(tick, at).y == enemy.y,
{
    let (x, y) = enemy.formation.point(at);
    assert((enemy.x - x) * (enemy.x - x) + (enemy.y - y) * (enemy.y - y) == 0) by (nonlinear_arith)
        requires
            enemy.x - x == 0,
            enemy.y - y == 0,
    ;
    lemma_ceil_sqrt_is(0, 0);
}

} // verus!
