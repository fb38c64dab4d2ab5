//! Flight paths and the maker that issues them in batches.
//!
//! A [`Formation`] describes an elliptical orbit and the point from which an
//! enemy flies into it. The [`FormationMaker`] lays a new one out at random
//! for every batch of [`MAX_FORMATION_MEMBERS`] enemies and numbers the
//! batches from one.

use crate::entropy::{between, flip};
use crate::{WindowSize, ENTRY_MARGIN, UNIT};
use vstd::prelude::*;

verus! {

/// How many enemies share one formation.
pub const MAX_FORMATION_MEMBERS: u32 = 2;

/// The least horizontal radius of an orbit, in sub-units.
pub const ORBIT_WIDTH_MIN: i32 = 80 * UNIT;

/// The greatest horizontal radius of an orbit, in sub-units.
pub const ORBIT_WIDTH_MAX: i32 = 150 * UNIT;

/// The vertical radius of every orbit, in sub-units.
pub const ORBIT_HEIGHT: i32 = 100 * UNIT;

/// An elliptical flight path.
#[derive(Clone, Copy, Debug, PartialEq, Eq)]
pub struct Formation {
    /// Where an enemy on this path enters.
    pub start: (i32, i32),
    /// The half-axes of the orbit.
    pub radius: (i32, i32),
    /// The centre of the orbit.
    pub offset: (i32, i32),
    /// The phase along the orbit, in microradians.
    pub angle: i64,
    /// The number of the batch this path was laid out for.
    pub group_id: u32,
}

impl Formation {
    /// Both radii are positive, and the whole orbit lies on the `i32` plane.
    pub open spec fn wf(self) -> bool {
        &&& self.radius.0 > 0
        &&& self.radius.1 > 0
        &&& i32::MIN <= self.offset.0 - self.radius.0
        &&& self.offset.0 + self.radius.0 <= i32::MAX
        &&& i32::MIN <= self.offset.1 - self.radius.1
        &&& self.offset.1 + self.radius.1 <= i32::MAX
    }

    /// Decides [`Formation::wf`].
    pub fn is_valid(&self) -> (b: bool)
        ensures
            b == self.wf(),
    {
        self.radius.0 > 0 && self.radius.1 > 0 && self.offset.0 as i64 - self.radius.0 as i64
            >= i32::MIN as i64 && self.offset.0 as i64 + self.radius.0 as i64 <= i32::MAX as i64
            && self.offset.1 as i64 - self.radius.1 as i64 >= i32::MIN as i64 && self.offset.1 as i64
            + self.radius.1 as i64 <= i32::MAX as i64
    }

    /// What holds of every path laid out afresh in `window`, whatever chance decided.
    pub open spec fn fresh_in(self, window: WindowSize) -> bool {
        &&& self.start.0 == window.width || self.start.0 == window.height
        &&& -window.h_span() <= self.start.1 <= window.h_span()
        &&& -window.w_span() <= self.offset.0 <= window.w_span()
        &&& 0 <= self.offset.1 <= window.h_span()
        &&& ORBIT_WIDTH_MIN <= self.radius.0 <= ORBIT_WIDTH_MAX
        &&& self.radius.1 == ORBIT_HEIGHT
    }

    /// The `(y, x)` pair whose arc tangent is the phase a path starts with.
    ///
    /// The horizontal offset is taken from the vertical start and the
    /// vertical offset from the horizontal start: the entry spiral depends on
    /// exactly this pairing.
    pub open spec fn entry_vector(self) -> (i64, i64) {
        ((self.start.1 - self.offset.0) as i64, (self.start.0 - self.offset.1) as i64)
    }
}

/// What chance decides of a new formation.
#[derive(Clone, Copy, Debug, PartialEq, Eq)]
pub struct Draw {
    /// Whether the path starts as far out as the window is wide, or as it is high.
    pub from_width: bool,
    /// The height at which the path starts.
    pub start_y: i32,
    /// The centre of the orbit.
    pub offset: (i32, i32),
    /// The horizontal radius of the orbit.
    pub radius_x: i32,
}

impl Draw {
    /// Every number lies in the range that `window` allows it.
    pub open spec fn within(self, window: WindowSize) -> bool {
        &&& -window.h_span() <= self.start_y <= window.h_span()
        &&& -window.w_span() <= self.offset.0 <= window.w_span()
        &&& 0 <= self.offset.1 <= window.h_span()
        &&& ORBIT_WIDTH_MIN <= self.radius_x <= ORBIT_WIDTH_MAX
    }

    /// The formation that this draw gives in `window`, with the phase and batch number supplied.
    pub open spec fn formation(self, window: WindowSize, angle: i64, group_id: u32) -> Formation {
        Formation {
            start: (
                if self.from_width {
                    window.width
                } else {
                    window.height
                },
                self.start_y,
            ),
            radius: (self.radius_x, ORBIT_HEIGHT),
            offset: self.offset,
            angle,
            group_id,
        }
    }

    /// Draws the five numbers: the side first, then the start height, the
    /// centre's two coordinates and the horizontal radius.
    pub fn sample(window: &WindowSize) -> (draw: Draw)
        requires
            window.admits_formations(),
        ensures
            draw.within(*window),
    {
        let mut rng = rand::thread_rng();
        let h_span: i32 = window.height / 2 - ENTRY_MARGIN;
        let w_span: i32 = window.width / 4;
        let from_width = flip(&mut rng);
        let start_y: i32 = between(&mut rng, -h_span, h_span);
        let offset_x: i32 = between(&mut rng, -w_span, w_span);
        let offset_y: i32 = between(&mut rng, 0, h_span);
        let radius_x: i32 = between(&mut rng, ORBIT_WIDTH_MIN, ORBIT_WIDTH_MAX);
        Draw { from_width, start_y, offset: (offset_x, offset_y), radius_x }
    }

    /// Computes [`Formation::entry_vector`] of the formation that this draw gives.
    pub fn entry_vector(&self, window: &WindowSize) -> (v: (i64, i64))
        ensures
            v == self.formation(*window, 0, 0).entry_vector(),
    {
        let start_x: i32 = if self.from_width {
            window.width
        } else {
            window.height
        };
        (self.start_y as i64 - self.offset.0 as i64, start_x as i64 - self.offset.1 as i64)
    }

    /// Computes [`Draw::formation`].
    pub fn lay_out(&self, window: &WindowSize, angle: i64, group_id: u32) -> (formation: Formation)
        ensures
            formation == self.formation(*window, angle, group_id),
            self.within(*window) ==> formation.fresh_in(*window),
            self.within(*window) && window.admits_formations() ==> formation.wf(),
    {
        let start_x: i32 = if self.from_width {
            window.width
        } else {
            window.height
        };
        Formation {
            start: (start_x, self.start_y),
            radius: (self.radius_x, ORBIT_HEIGHT),
            offset: self.offset,
            angle,
            group_id,
        }
    }
}

/// Issues formations, a new one for every batch.
#[derive(Clone, Copy, Debug, PartialEq, Eq)]
pub struct FormationMaker {
    /// The number of the latest batch; zero before the first.
    pub group_seq: u32,
    /// The formation of the latest batch.
    pub current_formation: Option<Formation>,
    /// How many enemies have been given the formation of the latest batch.
    pub current_formation_members: u32,
}

impl FormationMaker {
    /// The maker before its first call.
    pub open spec fn initial() -> FormationMaker {
        FormationMaker { group_seq: 0, current_formation: None, current_formation_members: 0 }
    }

    /// The states a maker passes through: either it has issued nothing, or
    /// its current formation carries the latest batch number and has gone to
    /// at least one enemy and at most [`MAX_FORMATION_MEMBERS`].
    pub open spec fn wf(self) -> bool {
        match self.current_formation {
            None => self.group_seq == 0 && self.current_formation_members == 0,
            Some(formation) => {
                &&& formation.wf()
                &&& formation.group_id == self.group_seq
                &&& self.group_seq >= 1
                &&& 1 <= self.current_formation_members <= MAX_FORMATION_MEMBERS
            },
        }
    }

    /// Whether the next call lays out a new formation: there is none yet, or
    /// the current one has gone to a full batch.
    pub open spec fn needs_fresh(self) -> bool {
        self.current_formation is None || self.current_formation_members
            >= MAX_FORMATION_MEMBERS
    }

    /// Whether the next call can be made in `window`. A call that reuses the
    /// current formation always can; one that lays out a new formation needs
    /// room in the window and a batch number that is still free.
    pub open spec fn ready(self, window: WindowSize) -> bool {
        self.needs_fresh() ==> window.admits_formations() && self.group_seq < u32::MAX
    }

    /// Whether `atan2` can be asked all that the next call in `window` may
    /// ask it: nothing where the call reuses the current formation, and else
    /// the entry vector of any formation that can be laid out in the window.
    pub open spec fn can_ask<F: Fn(i64, i64) -> i64>(self, window: WindowSize, atan2: F) -> bool {
        self.needs_fresh() ==> forall|formation: Formation| #[trigger]
            formation.fresh_in(window) ==> atan2.requires(formation.entry_vector())
    }

    /// One call of [`FormationMaker::make`], seen from outside: the maker
    /// before and after it, and the formation it returned.
    pub open spec fn made(self, after: FormationMaker, issued: Formation) -> bool {
        &&& issued.wf()
        &&& after.current_formation == Some(issued)
        &&& issued.group_id == after.group_seq
        &&& if self.needs_fresh() {
            &&& after.group_seq == self.group_seq + 1
            &&& after.current_formation_members == 1
        } else {
            &&& after.group_seq == self.group_seq
            &&& after.current_formation_members == self.current_formation_members + 1
            &&& self.current_formation == Some(issued)
        }
    }

    /// Decides [`FormationMaker::wf`].
    pub fn is_valid(&self) -> (b: bool)
        ensures
            b == self.wf(),
    {
        match self.current_formation {
            None => self.group_seq == 0 && self.current_formation_members == 0,
            Some(formation) => formation.is_valid() && formation.group_id == self.group_seq
                && self.group_seq >= 1 && 1 <= self.current_formation_members
                && self.current_formation_members <= MAX_FORMATION_MEMBERS,
        }
    }

    /// Decides [`FormationMaker::needs_fresh`].
    pub fn is_exhausted(&self) -> (b: bool)
        ensures
            b == self.needs_fresh(),
    {
        self.current_formation.is_none() || self.current_formation_members
            >= MAX_FORMATION_MEMBERS
    }

    /// Decides [`FormationMaker::ready`].
    pub fn is_ready(&self, window: &WindowSize) -> (b: bool)
        ensures
            b == self.ready(*window),
    {
        !self.is_exhausted() || (window.has_room() && self.group_seq < u32::MAX)
    }

    /// Issues the formation for the next enemy.
    ///
    /// While the current formation has gone to fewer than
    /// [`MAX_FORMATION_MEMBERS`] enemies it is issued again, unchanged.
    /// Otherwise a new one is laid out at random in the window, its phase is
    /// what `atan2` returns for its [`Formation::entry_vector`], and it gets
    /// the next batch number.
    pub fn make<F: Fn(i64, i64) -> i64>(
        &mut self,
        window_size: &WindowSize,
        atan2: F,
    ) -> (formation: Formation)
        requires
            old(self).wf(),
            old(self).ready(*window_size),
            old(self).can_ask(*window_size, atan2),
        ensures
            final(self).wf(),
            old(self).made(*final(self), formation),
            old(self).needs_fresh() ==> formation.fresh_in(*window_size) && atan2.ensures(
                formation.entry_vector(),
                formation.angle,
            ),
    {
        if self.is_exhausted() {
            let draw = Draw::sample(window_size);
            let (y, x) = draw.entry_vector(window_size);
            assert(draw.formation(*window_size, 0, 0).fresh_in(*window_size));
            let angle: i64 = atan2(y, x);
            self.group_seq = self.group_seq + 1;
            let formation = draw.lay_out(window_size, angle, self.group_seq);
            self.current_formation = Some(formation);
            self.current_formation_members = 1;
            formation
        } else {
            self.current_formation_members = self.current_formation_members + 1;
            self.current_formation.unwrap()
        }
    }
}

impl Default for FormationMaker {
    fn default() -> (maker: FormationMaker)
        ensures
            maker == FormationMaker::initial(),
    {
        FormationMaker { group_seq: 0, current_formation: None, current_formation_members: 0 }
    }
}

/// A run of calls of [`FormationMaker::make`] on one maker: `states[i]` is
/// the maker before call `i`, `states[i + 1]` the maker after it, and
/// `issued[i]` the formation that the call returned.
pub open spec fn run(states: Seq<FormationMaker>, issued: Seq<Formation>) -> bool {
    &&& states.len() == issued.len() + 1
    &&& states[0].wf()
    &&& forall|i: int|
        0 <= i < issued.len() ==> states[i].made(states[i + 1], #[trigger] issued[i])
}

/// How many of the first `n` calls of a run laid out a new formation.
pub open spec fn fresh_calls(states: Seq<FormationMaker>, n: int) -> int
    decreases n,
{
    if n <= 0 {
        0
    } else {
        fresh_calls(states, n - 1) + if states[n - 1].needs_fresh() {
            1int
        } else {
            0int
        }
    }
}

/// Every state of a run is well formed, and up to each state the latest batch
/// number has grown by one for every new formation.
pub proof fn lemma_run_counts(states: Seq<FormationMaker>, issued: Seq<Formation>, n: int)
    requires
        run(states, issued),
        0 <= n <= issued.len(),
    ensures
        states[n].wf(),
        states[n].group_seq == states[0].group_seq + fresh_calls(states, n),
    decreases n,
{
    if n > 0 {
        lemma_run_counts(states, issued, n - 1);
        assert(states[n - 1].made(states[n - 1 + 1], issued[n - 1]));
    }
}

/// Formation reuse is bounded: whatever calls are made on a maker, no three
/// in a row return formations of one batch.
pub proof fn law_reuse_bound(states: Seq<FormationMaker>, issued: Seq<Formation>, i: int)
    requires
        run(states, issued),
        0 <= i,
        i + 2 < issued.len(),
    ensures
        !(issued[i].group_id == issued[i + 1].group_id && issued[i + 1].group_id == issued[i
            + 2].group_id),
{
    lemma_run_counts(states, issued, i);
    assert(states[i].made(states[i + 1], issued[i]));
    assert(states[i + 1].made(states[i + 1 + 1], issued[i + 1]));
    assert(states[i + 2].made(states[i + 2 + 1], issued[i + 2]));
}

/// Batch numbers count the formations laid out: the formation that call `i`
/// of a run returns carries the maker's batch number at the start of the run
/// plus the number of new formations laid out up to and with that call.
pub proof fn law_group_ids_count(states: Seq<FormationMaker>, issued: Seq<Formation>, i: int)
    requires
        run(states, issued),
        0 <= i < issued.len(),
    ensures
        issued[i].group_id == states[0].group_seq + fresh_calls(states, i + 1),
{
    lemma_run_counts(states, issued, i + 1);
    assert(states[i].made(states[i + 1], issued[i]));
}

/// Batch numbers last: a maker that starts from the initial one has, after
/// `n` calls, issued no batch number beyond `n`. So it is ready for its next
/// call in any window with room, unless it has been called as often as there
/// are numbers.
pub proof fn law_numbers_last(
    states: Seq<FormationMaker>,
    issued: Seq<Formation>,
    n: int,
    window: WindowSize,
)
    requires
        run(states, issued),
        states[0] == FormationMaker::initial(),
        0 <= n <= issued.len(),
    ensures
        states[n].wf(),
        states[n].group_seq <= n,
        n < u32::MAX && window.admits_formations() ==> states[n].ready(window),
    decreases n,
{
    lemma_run_counts(states, issued, n);
    lemma_fresh_calls_within(states, n);
}

/// No more of the first `n` calls laid out a new formation than there were calls.
proof fn lemma_fresh_calls_within(states: Seq<FormationMaker>, n: int)
    requires
        0 <= n,
    ensures
        0 <= fresh_calls(states, n) <= n,
    decreases n,
{
    if n > 0 {
        lemma_fresh_calls_within(states, n - 1);
    }
}

/// After `n` calls on a maker that starts from the initial one, the latest
/// batch number is half of `n`, rounded up, and the current formation has
/// gone to one enemy if `n` is odd and to two if it is even.
proof fn lemma_run_in_pairs(states: Seq<FormationMaker>, issued: Seq<Formation>, n: int)
    requires
        run(states, issued),
        states[0] == FormationMaker::initial(),
        0 < n <= issued.len(),
    ensures
        states[n].group_seq == (n + 1) / 2,
        states[n].current_formation is Some,
        states[n].current_formation_members == if n % 2 == 1 {
            1int
        } else {
            2int
        },
    decreases n,
{
    if n > 1 {
        lemma_run_in_pairs(states, issued, n - 1);
    }
    assert(states[n - 1].made(states[n - 1 + 1], issued[n - 1]));
}

/// The batch numbers in closed form: the calls on a maker that starts from
/// the initial one return batches 1, 1, 2, 2, 3 and so on, call `i`, counted
/// from zero, the batch `i / 2 + 1`.
pub proof fn law_batches_come_in_pairs(
    states: Seq<FormationMaker>,
    issued: Seq<Formation>,
    i: int,
)
    requires
        run(states, issued),
        states[0] == FormationMaker::initial(),
        0 <= i < issued.len(),
    ensures
        issued[i].group_id == i / 2 + 1,
{
    lemma_run_in_pairs(states, issued, i + 1);
    assert(states[i].made(states[i + 1], issued[i]));
}

/// The first formation that a maker lays out is batch one.
pub proof fn law_first_batch_is_one(states: Seq<FormationMaker>, issued: Seq<Formation>)
    requires
        run(states, issued),
        states[0] == FormationMaker::initial(),
        issued.len() >= 1,
    ensures
        states[0].needs_fresh(),
        issued[0].group_id == 1,
{
    assert(states[0].made(states[0int + 1], issued[0]));
}

/// Each new formation follows the last: where calls `i` and `j` of a run both
/// lay out a new formation and no call between them does, the batch number of
/// the later is one more than that of the earlier.
pub proof fn law_new_batch_follows_last(
    states: Seq<FormationMaker>,
    issued: Seq<Formation>,
    i: int,
    j: int,
)
    requires
        run(states, issued),
        0 <= i < j < issued.len(),
        states[i].needs_fresh(),
        states[j].needs_fresh(),
        forall|k: int| i < k < j ==> !(#[trigger] states[k]).needs_fresh(),
    ensures
        issued[j].group_id == issued[i].group_id + 1,
{
    lemma_quiet_stretch(states, issued, i, j);
    assert(states[j].made(states[j + 1], issued[j]));
}

/// Between two calls with none in between that lays out a new formation, the
/// latest batch number stays what the first of them returned.
proof fn lemma_quiet_stretch(
    states: Seq<FormationMaker>,
    issued: Seq<Formation>,
    i: int,
    j: int,
)
    requires
        run(states, issued),
        0 <= i < j <= issued.len(),
        forall|k: int| i < k < j ==> !(#[trigger] states[k]).needs_fresh(),
    ensures
        states[j].group_seq == issued[i].group_id,
    decreases j - i,
{
    if j == i + 1 {
        assert(states[i].made(states[i + 1], issued[i]));
    } else {
        lemma_quiet_stretch(states, issued, i, j - 1);
        assert(states[j - 1].made(states[j - 1 + 1], issued[j - 1]));
    }
}

} // verus!
