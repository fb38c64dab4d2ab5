//! The simulation core of a small arcade shooter: enemy ships enter in
//! batches along elliptical flight paths, fire back at the player, and are
//! held under a population cap.
//!
//! Everything here is integer arithmetic on fixed-point quantities, so that
//! every function can carry a contract and a proof:
//!
//! * lengths and coordinates are whole numbers of sub-units, [`UNIT`] to the
//!   world unit;
//! * durations and instants are whole numbers of microseconds, [`SECOND`] to
//!   the second;
//! * angles are whole numbers of microradians, [`RADIAN`] to the radian;
//! * a cosine or sine is a whole number of millionths, [`TRIG_ONE`] standing
//!   for one.
//!
//! Trigonometry itself is not done here. The functions that need an arc
//! tangent, a cosine or a sine take it from the caller as a function value,
//! and their contracts say what was handed to it and what was done with its
//! answer.

use vstd::prelude::*;

pub mod arith;
pub mod entropy;
pub mod formation;
pub mod laser;
pub mod player;
pub mod collision;
pub mod enemy;
pub mod motion;

verus! {

/// Sub-units in one world unit.
pub const UNIT: i32 = 1000;

/// Microseconds in one second.
pub const SECOND: u32 = 1_000_000;

/// Microradians in one radian.
pub const RADIAN: i64 = 1_000_000;

/// Half a turn in microradians, to the nearest microradian.
pub const PI: i64 = 3_141_593;

/// The fixed-point value of a cosine or sine equal to one.
pub const TRIG_ONE: i32 = 1_000_000;

/// The length of one frame at sixty frames a second, to the nearest microsecond.
pub const TIME_PER_FRAME: u32 = 16_667;

/// The speed an entity is given when nothing else is asked for, in sub-units a second.
pub const DEFAULT_SPEED: u32 = 500_000;

/// The margin kept free above and below the starts of the flight paths, in sub-units.
pub const ENTRY_MARGIN: i32 = 100 * UNIT;

/// A speed along a path, in sub-units a second.
#[derive(Clone, Copy, Debug, PartialEq, Eq, Structural)]
pub struct Speed(pub u32);

impl Speed {
    /// The distance covered at this speed in `tick` microseconds, rounded down to whole sub-units.
    pub open spec fn reach(self, tick: u32) -> int {
        (self.0 * tick) / (SECOND as int)
    }

    /// A reach is never negative.
    pub proof fn lemma_reach_not_negative(self, tick: u32)
        ensures
            self.reach(tick) >= 0,
    {
        assert((self.0 * tick) / (SECOND as int) >= 0) by (nonlinear_arith)
            requires
                SECOND == 1_000_000,
                self.0 >= 0,
                tick >= 0,
        ;
    }

    /// Computes [`Speed::reach`].
    pub fn distance_in(&self, tick: u32) -> (d: u64)
        ensures
            d == self.reach(tick),
            d * SECOND <= u64::MAX,
    {
        assert(self.0 * tick <= u32::MAX * u32::MAX) by (nonlinear_arith);
        (self.0 as u64 * tick as u64) / (SECOND as u64)
    }
}

impl Default for Speed {
    fn default() -> (speed: Speed)
        ensures
            speed == Speed(DEFAULT_SPEED),
    {
        Speed(DEFAULT_SPEED)
    }
}

/// The size of the window the game is shown in, in sub-units.
#[derive(Clone, Copy, Debug, PartialEq, Eq, Structural)]
pub struct WindowSize {
    pub width: i32,
    pub height: i32,
}

impl WindowSize {
    /// How far above and below the middle of the window a flight path may begin.
    pub open spec fn h_span(self) -> int {
        self.height / 2 - ENTRY_MARGIN
    }

    /// How far left and right of the middle of the window an orbit may be centred.
    pub open spec fn w_span(self) -> int {
        self.width / 4
    }

    /// Whether the window leaves room to lay a formation out: neither span is negative.
    pub open spec fn admits_formations(self) -> bool {
        self.width >= 0 && self.h_span() >= 0
    }

    /// Decides [`WindowSize::admits_formations`].
    pub fn has_room(&self) -> (b: bool)
        ensures
            b == self.admits_formations(),
    {
        self.width >= 0 && self.height >= 2 * ENTRY_MARGIN
    }
}

} // verus!
