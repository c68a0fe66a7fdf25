//! The packer: it fills a square area with circles of shrinking radius that
//! keep their clearance, and colours them along a random walk.

use crate::circles::{
    all_in_limits, circles_too_close, intersects_any, intersects_any2, radius_in_limits, Circle,
    Point, COORD_LIMIT,
};
use crate::color_generator::{ColorGenerator, Hsl};
use crate::fixed::PIXEL;
use crate::random::uniform;
use rand::rngs::ThreadRng;
use vstd::prelude::*;

verus! {

/// The packer stops when the radius has come down to this; no circle is ever
/// this small. Four pixels.
pub const MIN_RADIUS: i64 = 4 * PIXEL;

/// The radius that the packer starts with. Twenty pixels.
pub const START_RADIUS: i64 = 20 * PIXEL;

/// What the radius comes down by at a time. One pixel.
pub const RADIUS_STEP: i64 = PIXEL;

/// After this many circles of one radius the packer goes on to the next.
pub const MAX_CIRCLES_PER_RADIUS: u32 = 100;

/// How many random centres are tried for one circle.
pub const MAX_ATTEMPTS: u32 = 100;

/// Every circle whose index is a multiple of this gets its colour from a hue
/// jump, the others from a drift.
pub const COLOR_CHANGE_PERIOD: u32 = 30;

/// How the colour moves after a round of placement.
#[derive(Clone, Copy, Debug, PartialEq, Eq, Structural)]
pub enum ColorStep {
    /// Nothing was placed: the colour stays.
    Keep,
    /// A circle was placed: the colour drifts.
    Drift,
    /// A circle was placed and the period is full: the hue jumps.
    Jump,
}

/// Where a packing run stands.
#[derive(Clone, Copy, Debug, PartialEq, Eq, Structural)]
pub struct PackingState {
    /// The radius of the circle that is placed next.
    pub target_radius: i64,
    /// How many circles of that radius have been placed.
    pub circles_at_current_radius: u32,
    /// How many circles have been placed since the last hue jump.
    pub color_change_count: u32,
}

impl PackingState {
    /// The radius is a whole number of steps above the minimum and not above
    /// the start, and both counters are below their limits.
    pub open spec fn wf(self) -> bool {
        &&& MIN_RADIUS <= self.target_radius <= START_RADIUS
        &&& (self.target_radius - MIN_RADIUS) % (RADIUS_STEP as int) == 0
        &&& self.circles_at_current_radius < MAX_CIRCLES_PER_RADIUS
        &&& self.color_change_count < COLOR_CHANGE_PERIOD
    }

    /// The radius has come down to the minimum: the run is over.
    pub open spec fn finished(self) -> bool {
        self.target_radius <= MIN_RADIUS
    }

    /// The state at the start of a run.
    pub open spec fn spec_new() -> PackingState {
        PackingState {
            target_radius: START_RADIUS,
            circles_at_current_radius: 0,
            color_change_count: 0,
        }
    }

    /// How the colour moves after a round in which a circle was placed or not.
    pub open spec fn color_step(self, placed: bool) -> ColorStep {
        if !placed {
            ColorStep::Keep
        } else if self.color_change_count + 1 >= COLOR_CHANGE_PERIOD {
            ColorStep::Jump
        } else {
            ColorStep::Drift
        }
    }

    /// The state after a round. A placed circle counts towards its radius and
    /// towards the next hue jump. The radius comes down by one step when
    /// nothing could be placed, or when the radius has had all its circles.
    pub open spec fn next(self, placed: bool) -> PackingState {
        let placed_here = if placed {
            self.circles_at_current_radius + 1
        } else {
            self.circles_at_current_radius as int
        };
        let since_jump = match self.color_step(placed) {
            ColorStep::Keep => self.color_change_count,
            ColorStep::Drift => (self.color_change_count + 1) as u32,
            ColorStep::Jump => 0,
        };
        if !placed || placed_here >= MAX_CIRCLES_PER_RADIUS {
            PackingState {
                target_radius: (self.target_radius - RADIUS_STEP) as i64,
                circles_at_current_radius: 0,
                color_change_count: since_jump,
            }
        } else {
            PackingState {
                target_radius: self.target_radius,
                circles_at_current_radius: placed_here as u32,
                color_change_count: since_jump,
            }
        }
    }

    /// The state at the start of a run.
    pub fn new() -> (state: PackingState)
        ensures
            state == PackingState::spec_new(),
            state.wf(),
            !state.finished(),
    {
        PackingState {
            target_radius: START_RADIUS,
            circles_at_current_radius: 0,
            color_change_count: 0,
        }
    }

    /// Whether the run is over.
    pub fn is_finished(&self) -> (done: bool)
        ensures
            done == self.finished(),
    {
        self.target_radius <= MIN_RADIUS
    }

    /// Takes note of a round and says how the colour moves after it. The
    /// radius never grows and never falls below the minimum.
    pub fn record(&mut self, placed: bool) -> (step: ColorStep)
        requires
            old(self).wf(),
            !old(self).finished(),
        ensures
            *final(self) == old(self).next(placed),
            step == old(self).color_step(placed),
            final(self).wf(),
            MIN_RADIUS <= final(self).target_radius <= old(self).target_radius,
    {
        let mut step = ColorStep::Keep;
        if placed {
            self.circles_at_current_radius += 1;
            self.color_change_count += 1;
            if self.color_change_count >= COLOR_CHANGE_PERIOD {
                self.color_change_count = 0;
                step = ColorStep::Jump;
            } else {
                step = ColorStep::Drift;
            }
        }
        if !placed || self.circles_at_current_radius >= MAX_CIRCLES_PER_RADIUS {
            self.circles_at_current_radius = 0;
            self.target_radius -= RADIUS_STEP;
        }
        step
    }
}

/// Half the width of the area: how far it reaches from the origin.
pub open spec fn half_width(area_width: u32) -> int {
    area_width * (PIXEL / 2)
}

/// A circle of radius `r` fits into the area.
pub open spec fn fits(r: int, area_width: u32) -> bool {
    r <= half_width(area_width)
}

/// The circle lies within the area.
pub open spec fn inside(c: Circle, area_width: u32) -> bool {
    let reach = half_width(area_width) - c.r;
    &&& -reach <= c.pos.x <= reach
    &&& -reach <= c.pos.y <= reach
}

/// A radius that the packer uses: a whole number of steps, above the minimum
/// and not above the start.
pub open spec fn packed_radius(r: i64) -> bool {
    &&& MIN_RADIUS < r <= START_RADIUS
    &&& (r - MIN_RADIUS) % (RADIUS_STEP as int) == 0
}

/// No two circles of the sequence, in either order, are closer than a packing
/// allows.
pub open spec fn no_overlap(s: Seq<Circle>) -> bool {
    forall|i: int, j: int|
        0 <= i < s.len() && 0 <= j < s.len() && i != j ==> !circles_too_close(
            #[trigger] s[i],
            #[trigger] s[j],
        )
}

/// What holds of every result of the packer, and of what it has placed at any
/// moment of a run: the circles keep their clearance; each has a radius that
/// the packer uses and lies within the area; the radii never grow along the
/// sequence; and no radius occurs more often than it may.
pub open spec fn is_packing(s: Seq<Circle>, area_width: u32) -> bool {
    &&& no_overlap(s)
    &&& forall|i: int|
        0 <= i < s.len() ==> packed_radius((#[trigger] s[i]).r) && inside(s[i], area_width)
    &&& forall|i: int, j: int| 0 <= i <= j < s.len() ==> (#[trigger] s[i]).r >= (#[trigger] s[j]).r
    &&& forall|i: int|
        0 <= i && i + MAX_CIRCLES_PER_RADIUS < s.len() ==> (#[trigger] s[i]).r > s[i
            + MAX_CIRCLES_PER_RADIUS].r
}

/// The colour `next` of the circle at `index` can follow the colour `prev` of
/// the circle before it: by a hue jump where the index is a multiple of the
/// period, by a drift elsewhere.
pub open spec fn walk_step(prev: Hsl, next: Hsl, index: int) -> bool {
    if index % (COLOR_CHANGE_PERIOD as int) == 0 {
        prev.jumps_to(next)
    } else {
        prev.drifts_to(next)
    }
}

/// The colours of the sequence are a walk from `first`: the first circle has
/// that colour, and each later one a colour that can follow the one before.
pub open spec fn color_chain(s: Seq<Circle>, first: Hsl) -> bool {
    &&& s.len() > 0 ==> s[0].c == first
    &&& forall|i: int| 0 < i < s.len() ==> walk_step(s[i - 1].c, (#[trigger] s[i]).c, i)
}

/// The largest radius that the packer uses and that fits into the area is the
/// radius `r`.
pub open spec fn largest_fitting(r: i64, area_width: u32) -> bool {
    &&& packed_radius(r)
    &&& fits(r as int, area_width)
    &&& r == START_RADIUS || !fits(r + RADIUS_STEP, area_width)
}

/// The circles of a packing are within the limits.
pub proof fn lemma_packing_in_limits(s: Seq<Circle>, area_width: u32)
    requires
        is_packing(s, area_width),
    ensures
        all_in_limits(s),
{
    assert(half_width(area_width) == area_width * 500_000);
    assert forall|j: int| 0 <= j < s.len() implies (#[trigger] s[j]).in_limits() by {
        assert(packed_radius(s[j].r) && inside(s[j], area_width));
    }
}

/// The circles too close to each other are so in either order.
pub proof fn lemma_too_close_symmetric(a: Circle, b: Circle)
    ensures
        circles_too_close(a, b) == circles_too_close(b, a),
{
    assert((a.r + b.r) * (a.r + b.r) == (b.r + a.r) * (b.r + a.r));
    assert((a.pos.x - b.pos.x) * (a.pos.x - b.pos.x) == (b.pos.x - a.pos.x) * (b.pos.x - a.pos.x))
        by (nonlinear_arith);
    assert((a.pos.y - b.pos.y) * (a.pos.y - b.pos.y) == (b.pos.y - a.pos.y) * (b.pos.y - a.pos.y))
        by (nonlinear_arith);
}

/// Adds the candidate to the circles if it keeps its clearance from each of
/// them, and says whether it did.
pub fn accept(circs: &mut Vec<Circle>, candidate: Circle) -> (accepted: bool)
    requires
        candidate.in_limits(),
        all_in_limits(old(circs)@),
    ensures
        accepted == !(exists|j: int|
            0 <= j < old(circs)@.len() && circles_too_close(candidate, #[trigger] old(circs)@[j])),
        accepted ==> final(circs)@ == old(circs)@.push(candidate),
        !accepted ==> final(circs)@ == old(circs)@,
        all_in_limits(final(circs)@),
{
    if intersects_any(&candidate, circs.as_slice()) {
        false
    } else {
        circs.push(candidate);
        true
    }
}

/// Tries up to `MAX_ATTEMPTS` random centres for a circle of radius `r` and
/// colour `color` within the area, and adds the first that keeps its clearance
/// from the circles already there. Where the radius does not fit into the
/// area nothing is tried; into an empty set the first centre goes.
pub fn place(
    circs: &mut Vec<Circle>,
    r: i64,
    area_width: u32,
    color: Hsl,
    rng: &mut ThreadRng,
) -> (placed: bool)
    requires
        radius_in_limits(r),
        all_in_limits(old(circs)@),
    ensures
        placed ==> ({
            let c = final(circs)@.last();
            &&& final(circs)@ == old(circs)@.push(c)
            &&& c.r == r
            &&& c.c == color
            &&& inside(c, area_width)
            &&& forall|j: int|
                0 <= j < old(circs)@.len() ==> !circles_too_close(c, #[trigger] old(circs)@[j])
        }),
        !placed ==> final(circs)@ == old(circs)@,
        !fits(r as int, area_width) ==> !placed,
        fits(r as int, area_width) && old(circs)@.len() == 0 ==> placed,
        all_in_limits(final(circs)@),
{
    let half: i64 = area_width as i64 * (PIXEL / 2);
    if r > half {
        return false;
    }
    let reach: i64 = half - r;
    let mut attempt: u32 = 0;
    while attempt < MAX_ATTEMPTS
        invariant
            circs@ == old(circs)@,
            all_in_limits(circs@),
            half == half_width(area_width),
            0 <= r <= half,
            reach == half - r,
            half <= COORD_LIMIT,
            attempt > 0 ==> circs@.len() > 0,
        decreases MAX_ATTEMPTS - attempt,
    {
        let x: i64 = uniform(rng, -reach, reach);
        let y: i64 = uniform(rng, -reach, reach);
        let candidate = Circle { pos: Point { x, y }, r, c: color };
        if accept(circs, candidate) {
            return true;
        }
        attempt += 1;
    }
    false
}

/// What holds between the rounds of a run, of the circles placed so far and
/// the state.
spec fn partial_packing(s: Seq<Circle>, state: PackingState, area_width: u32) -> bool {
    let here = s.len() - state.circles_at_current_radius;
    &&& state.wf()
    &&& is_packing(s, area_width)
    &&& here >= 0
    &&& forall|i: int| 0 <= i < here ==> (#[trigger] s[i]).r > state.target_radius
    &&& forall|i: int| here <= i < s.len() ==> (#[trigger] s[i]).r == state.target_radius
    &&& state.color_change_count == s.len() % (COLOR_CHANGE_PERIOD as nat)
    &&& s.len() == 0 ==> state.target_radius == START_RADIUS || !fits(
        state.target_radius + RADIUS_STEP,
        area_width,
    )
    &&& s.len() > 0 ==> largest_fitting(s[0].r, area_width)
}

/// A round keeps what holds between the rounds.
proof fn lemma_round(
    before: Seq<Circle>,
    after: Seq<Circle>,
    state: PackingState,
    placed: bool,
    area_width: u32,
)
    requires
        partial_packing(before, state, area_width),
        !state.finished(),
        placed ==> ({
            let c = after.last();
            &&& after == before.push(c)
            &&& c.r == state.target_radius
            &&& inside(c, area_width)
            &&& forall|j: int| 0 <= j < before.len() ==> !circles_too_close(c, #[trigger] before[j])
        }),
        !placed ==> after == before,
        !fits(state.target_radius as int, area_width) ==> !placed,
        fits(state.target_radius as int, area_width) && before.len() == 0 ==> placed,
    ensures
        partial_packing(after, state.next(placed), area_width),
{
    let next = state.next(placed);
    if placed {
        let c = after.last();
        let n = before.len() as int;
        assert(after.len() == n + 1);
        assert forall|i: int, j: int|
            0 <= i < after.len() && 0 <= j < after.len() && i != j implies !circles_too_close(
            #[trigger] after[i],
            #[trigger] after[j],
        ) by {
            if i < n && j < n {
                assert(after[i] == before[i]);
                assert(after[j] == before[j]);
            } else if i == n {
                assert(after[j] == before[j]);
            } else {
                assert(after[i] == before[i]);
                lemma_too_close_symmetric(before[i], c);
            }
        }
        assert forall|i: int| 0 <= i < after.len() implies packed_radius((#[trigger] after[i]).r)
            && inside(after[i], area_width) by {
            if i < n {
                assert(after[i] == before[i]);
            }
        }
        assert forall|i: int, j: int| 0 <= i <= j < after.len() implies (#[trigger] after[i]).r >= (
        #[trigger] after[j]).r by {
            if j < n {
                assert(after[i] == before[i]);
                assert(after[j] == before[j]);
            } else if i < n {
                assert(after[i] == before[i]);
            }
        }
        assert forall|i: int| 0 <= i && i + MAX_CIRCLES_PER_RADIUS < after.len() implies (
        #[trigger] after[i]).r > after[i + MAX_CIRCLES_PER_RADIUS].r by {
            assert(after[i] == before[i]);
            if i + MAX_CIRCLES_PER_RADIUS < n {
                assert(after[i + MAX_CIRCLES_PER_RADIUS] == before[i + MAX_CIRCLES_PER_RADIUS]);
            }
        }
        assert(is_packing(after, area_width));
        if n > 0 {
            assert(after[0] == before[0]);
        }
        let here = after.len() - next.circles_at_current_radius;
        assert forall|i: int| 0 <= i < here implies (#[trigger] after[i]).r
            > next.target_radius by {
            if i < n {
                assert(after[i] == before[i]);
            }
        }
        assert forall|i: int| here <= i < after.len() implies (#[trigger] after[i]).r
            == next.target_radius by {
            if i < n {
                assert(after[i] == before[i]);
            }
        }
    }
}

/// What holds between the rounds of a run: of the circles placed so far, the
/// state, and the colour that the walk has reached, which the next circle
/// gets.
#[verifier::opaque]
spec fn run_state(
    s: Seq<Circle>,
    state: PackingState,
    area_width: u32,
    first: Hsl,
    current: Hsl,
) -> bool {
    &&& partial_packing(s, state, area_width)
    &&& color_chain(s, first)
    &&& s.len() == 0 ==> current == first
    &&& s.len() > 0 ==> walk_step(s.last().c, current, s.len() as int)
}

/// A run starts in a state in which all of that holds.
proof fn lemma_run_start(area_width: u32, first: Hsl)
    ensures
        run_state(Seq::empty(), PackingState::spec_new(), area_width, first, first),
{
    reveal(run_state);
}

/// A round with the step of the walk that follows it keeps all of that.
proof fn lemma_run_round(
    before: Seq<Circle>,
    after: Seq<Circle>,
    state: PackingState,
    placed: bool,
    area_width: u32,
    first: Hsl,
    current: Hsl,
    next: Hsl,
)
    requires
        run_state(before, state, area_width, first, current),
        !state.finished(),
        placed ==> ({
            let c = after.last();
            &&& after == before.push(c)
            &&& c.r == state.target_radius
            &&& c.c == current
            &&& inside(c, area_width)
            &&& forall|j: int| 0 <= j < before.len() ==> !circles_too_close(c, #[trigger] before[j])
        }),
        !placed ==> after == before,
        !fits(state.target_radius as int, area_width) ==> !placed,
        fits(state.target_radius as int, area_width) && before.len() == 0 ==> placed,
        match state.color_step(placed) {
            ColorStep::Keep => next == current,
            ColorStep::Drift => current.drifts_to(next),
            ColorStep::Jump => current.jumps_to(next),
        },
    ensures
        run_state(after, state.next(placed), area_width, first, next),
{
    reveal(run_state);
    lemma_round(before, after, state, placed, area_width);
    if placed {
        let n = before.len() as int;
        assert(after.len() == n + 1);
        assert(after.last().c == current);
        assert forall|i: int| 0 < i < after.len() implies walk_step(
            after[i - 1].c,
            (#[trigger] after[i]).c,
            i,
        ) by {
            if i < n {
                assert(after[i] == before[i]);
                assert(after[i - 1] == before[i - 1]);
            } else {
                assert(after[i - 1] == before.last());
            }
        }
        if n > 0 {
            assert(after[0] == before[0]);
        }
        assert(state.color_change_count == n % (COLOR_CHANGE_PERIOD as int));
        assert((state.color_change_count + 1 >= COLOR_CHANGE_PERIOD) == ((n + 1) % (
        COLOR_CHANGE_PERIOD as int) == 0));
    }
}

/// At the end of a run the circles are a packing, empty only where nothing
/// fits, and begin with the largest radius that fits.
proof fn lemma_run_end(
    s: Seq<Circle>,
    state: PackingState,
    area_width: u32,
    first: Hsl,
    current: Hsl,
)
    requires
        run_state(s, state, area_width, first, current),
        state.finished(),
    ensures
        is_packing(s, area_width),
        color_chain(s, first),
        s.len() == 0 ==> current == first,
        s.len() > 0 ==> walk_step(s.last().c, current, s.len() as int),
        s.len() == 0 <==> !fits(MIN_RADIUS + RADIUS_STEP, area_width),
        s.len() > 0 ==> largest_fitting(s[0].r, area_width),
{
    reveal(run_state);
    if s.len() > 0 {
        assert(packed_radius(s[0].r) && inside(s[0], area_width));
    }
}

/// Packs the square area of the given width, in pixels, with circles and
/// colours them along the walk of the generator, starting with its current
/// colour.
///
/// The radius starts at `START_RADIUS` and comes down by `RADIUS_STEP` whenever a
/// circle could not be placed in `MAX_ATTEMPTS` attempts or the radius has had
/// `MAX_CIRCLES_PER_RADIUS` circles; the run ends when it reaches `MIN_RADIUS`.
/// After each circle the walk moves on: by a hue jump where the next index is a
/// multiple of `COLOR_CHANGE_PERIOD`, by a drift elsewhere.
///
/// The circles come in the order in which they were placed. The result is
/// empty exactly where the area is too small for the smallest radius that is
/// used; elsewhere its first circle has the largest radius that fits.
pub fn pack(area_width: u32, generator: &mut ColorGenerator, rng: &mut ThreadRng) -> (circs: Vec<
    Circle,
>)
    ensures
        is_packing(circs@, area_width),
        all_in_limits(circs@),
        color_chain(circs@, old(generator)@),
        circs@.len() == 0 ==> final(generator)@ == old(generator)@,
        circs@.len() > 0 ==> walk_step(circs@.last().c, final(generator)@, circs@.len() as int),
        circs@.len() == 0 <==> !fits(MIN_RADIUS + RADIUS_STEP, area_width),
        circs@.len() > 0 ==> largest_fitting(circs@[0].r, area_width),
{
    let mut circs: Vec<Circle> = Vec::new();
    let mut state = PackingState::new();
    let ghost first = generator@;
    proof {
        lemma_run_start(area_width, first);
    }
    loop
        invariant_except_break
            !state.finished(),
        invariant
            state.wf(),
            run_state(circs@, state, area_width, first, generator@),
            all_in_limits(circs@),
        ensures
            state.finished(),
        decreases state.target_radius, MAX_CIRCLES_PER_RADIUS - state.circles_at_current_radius,
    {
        let ghost before = circs@;
        let ghost was = state;
        let color = generator.current();
        let placed = place(&mut circs, state.target_radius, area_width, color, rng);
        let step = state.record(placed);
        match step {
            ColorStep::Jump => {
                generator.rand_color();
            },
            ColorStep::Drift => {
                generator.rand_color_variation();
            },
            ColorStep::Keep => {},
        }
        proof {
            lemma_run_round(before, circs@, was, placed, area_width, first, color, generator@);
        }
        if state.is_finished() {
            break ;
        }
    }
    proof {
        lemma_run_end(circs@, state, area_width, first, generator@);
    }
    circs
}

/// Circles kept by column: the centres, the radii and the colours each in a
/// vector of their own, a circle being what the three hold at one index.
pub struct AllCircles {
    pub pos: Vec<Point>,
    pub r: Vec<i64>,
    pub c: Vec<Hsl>,
}

impl View for AllCircles {
    type V = Seq<Circle>;

    /// The circles, one for each index of the column of centres.
    open spec fn view(&self) -> Seq<Circle> {
        Seq::new(
            self.pos@.len(),
            |i: int| Circle { pos: self.pos@[i], r: self.r@[i], c: self.c@[i] },
        )
    }
}

impl AllCircles {
    /// The three columns have the same length.
    pub open spec fn wf(self) -> bool {
        &&& self.pos@.len() == self.r@.len()
        &&& self.pos@.len() == self.c@.len()
    }

    /// No circles.
    pub fn new() -> (all: AllCircles)
        ensures
            all.wf(),
            all@.len() == 0,
    {
        AllCircles { pos: Vec::new(), r: Vec::new(), c: Vec::new() }
    }

    /// Whether the three columns have the same length and every circle is
    /// within the limits.
    pub fn is_valid(&self) -> (valid: bool)
        ensures
            valid == (self.wf() && all_in_limits(self@)),
    {
        let n = self.pos.len();
        if self.r.len() != n || self.c.len() != n {
            return false;
        }
        let mut i: usize = 0;
        while i < n
            invariant
                self.wf(),
                n == self@.len(),
                i <= n,
                forall|k: int| 0 <= k < i ==> (#[trigger] self@[k]).in_limits(),
            decreases n - i,
        {
            let p = self.pos[i];
            let r = self.r[i];
            if p.x < -COORD_LIMIT || p.x > COORD_LIMIT || p.y < -COORD_LIMIT || p.y > COORD_LIMIT
                || r < 0 || r > COORD_LIMIT {
                assert(!self@[i as int].in_limits());
                return false;
            }
            i += 1;
        }
        true
    }

    /// How many circles there are.
    pub fn len(&self) -> (n: usize)
        requires
            self.wf(),
        ensures
            n == self@.len(),
    {
        self.pos.len()
    }

    /// The circle at the index.
    pub fn get(&self, i: usize) -> (circle: Circle)
        requires
            self.wf(),
            i < self@.len(),
        ensures
            circle == self@[i as int],
    {
        Circle { pos: self.pos[i], r: self.r[i], c: self.c[i] }
    }
}

/// Tries up to `MAX_ATTEMPTS` random centres for a circle of radius `r` and
/// colour `color` within the area, and adds the first that keeps its clearance
/// from the circles already there. Where the radius does not fit into the
/// area nothing is tried; into an empty set the first centre goes.
pub fn place_in_columns(
    all: &mut AllCircles,
    r: i64,
    area_width: u32,
    color: Hsl,
    rng: &mut ThreadRng,
) -> (placed: bool)
    requires
        old(all).wf(),
        radius_in_limits(r),
        all_in_limits(old(all)@),
    ensures
        final(all).wf(),
        placed ==> ({
            let c = final(all)@.last();
            &&& final(all)@ == old(all)@.push(c)
            &&& c.r == r
            &&& c.c == color
            &&& inside(c, area_width)
            &&& forall|j: int|
                0 <= j < old(all)@.len() ==> !circles_too_close(c, #[trigger] old(all)@[j])
        }),
        !placed ==> final(all)@ == old(all)@,
        !fits(r as int, area_width) ==> !placed,
        fits(r as int, area_width) && old(all)@.len() == 0 ==> placed,
        all_in_limits(final(all)@),
{
    let half: i64 = area_width as i64 * (PIXEL / 2);
    if r > half {
        return false;
    }
    let reach: i64 = half - r;
    let mut attempt: u32 = 0;
    while attempt < MAX_ATTEMPTS
        invariant
            *all == *old(all),
            all.wf(),
            all_in_limits(all@),
            half == half_width(area_width),
            0 <= r <= half,
            reach == half - r,
            half <= COORD_LIMIT,
            attempt > 0 ==> all@.len() > 0,
        decreases MAX_ATTEMPTS - attempt,
    {
        let x: i64 = uniform(rng, -reach, reach);
        let y: i64 = uniform(rng, -reach, reach);
        let npos = Point { x, y };
        let ghost candidate = Circle { pos: npos, r, c: color };
        assert forall|j: int| 0 <= j < all.pos@.len() implies (#[trigger] all.pos@[j]).in_limits() by {
            assert(all@[j].in_limits());
        }
        assert forall|j: int| 0 <= j < all.r@.len() implies radius_in_limits(
            #[trigger] all.r@[j],
        ) by {
            assert(all@[j].in_limits());
        }
        if !intersects_any2(npos, r, all.pos.as_slice(), all.r.as_slice()) {
            all.pos.push(npos);
            all.r.push(r);
            all.c.push(color);
            assert(all@ == old(all)@.push(candidate));
            assert forall|j: int| 0 <= j < old(all)@.len() implies !circles_too_close(
                candidate,
                #[trigger] old(all)@[j],
            ) by {
                assert(old(all)@[j].pos == old(all).pos@[j]);
            }
            return true;
        }
        attempt += 1;
    }
    false
}

/// Packs as `pack` does, into columns.
pub fn pack_columns(area_width: u32, generator: &mut ColorGenerator, rng: &mut ThreadRng) -> (all:
    AllCircles)
    ensures
        all.wf(),
        is_packing(all@, area_width),
        all_in_limits(all@),
        color_chain(all@, old(generator)@),
        all@.len() == 0 ==> final(generator)@ == old(generator)@,
        all@.len() > 0 ==> walk_step(all@.last().c, final(generator)@, all@.len() as int),
        all@.len() == 0 <==> !fits(MIN_RADIUS + RADIUS_STEP, area_width),
        all@.len() > 0 ==> largest_fitting(all@[0].r, area_width),
{
    let mut all = AllCircles::new();
    let mut state = PackingState::new();
    let ghost first = generator@;
    proof {
        lemma_run_start(area_width, first);
        assert(all@ == Seq::<Circle>::empty());
    }
    loop
        invariant_except_break
            !state.finished(),
        invariant
            state.wf(),
            all.wf(),
            run_state(all@, state, area_width, first, generator@),
            all_in_limits(all@),
        ensures
            state.finished(),
        decreases state.target_radius, MAX_CIRCLES_PER_RADIUS - state.circles_at_current_radius,
    {
        let ghost before = all@;
        let ghost was = state;
        let color = generator.current();
        let placed = place_in_columns(&mut all, state.target_radius, area_width, color, rng);
        let step = state.record(placed);
        match step {
            ColorStep::Jump => {
                generator.rand_color();
            },
            ColorStep::Drift => {
                generator.rand_color_variation();
            },
            ColorStep::Keep => {},
        }
        proof {
            lemma_run_round(before, all@, was, placed, area_width, first, color, generator@);
        }
        if state.is_finished() {
            break ;
        }
    }
    proof {
        lemma_run_end(all@, state, area_width, first, generator@);
    }
    all
}

} // verus!
