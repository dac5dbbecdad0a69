//! The spiral spinner: a state machine over two rotating angles and a
//! cumulative angular offset.
//!
//! Each step advances all three angles by the configured increment,
//! wrapping at a full turn, builds the bloom curve of the two angles
//! (origin-anchored cubic with the theta-0 direction as the outgoing
//! tangent, a contraction of theta-0 as the incoming tangent, and the
//! theta-1 rim point as the endpoint), samples it at evenly spaced
//! parameters, and scales the samples onto the configured circle. Two
//! stepping modes are supported: `compute_points` runs one step per frame
//! and hands back only that frame's points (the canonical mode), and
//! `update` runs the whole sweep in one burst, accumulating every emitted
//! point in the state.

use vstd::prelude::*;

verus! {

use vstd::arithmetic::div_mod::{lemma_multiply_divide_lt, lemma_div_is_ordered};
use crate::fixed::{
    FIXED_ONE,
    Vec2,
    tdiv,
    dist2,
    norm2,
    div_trunc,
    mul_in_range,
    lemma_tdiv_sq_bound,
    lemma_tdiv_le_bound,
    COORD_LIMIT,
};
use crate::trig::{TURN, polar_unit, polar_unit_spec};
use crate::bezier::{bezier_point, bezier_sample, lemma_bezier_in_disk};
use crate::config::{
    SpinnerConfig,
    SpinnerDefaultConfig,
    SpinnerPartialConfig,
    ConfigError,
    spinner_config_valid,
    merged_config,
    resolve_config,
    density_at,
    point_count,
    lemma_point_count_bounds,
    DENSITY_DENOM,
};
use crate::rng::{SpinRng, rng_next_state, rng_output};

/// Numerator of the tangent contraction; see [`contract_angle`].
pub const CONTRACT_NUM: u64 = 17_453;

/// Denominator of the tangent contraction; see [`contract_angle`].
pub const CONTRACT_DEN: u64 = 1_000_000;

/// The incoming-tangent angle derived from theta-0: the angle scaled down
/// by [`CONTRACT_NUM`] / [`CONTRACT_DEN`]. Mirroring the rim direction
/// through this contracted control is what bends the bloom asymmetrically.
pub open spec fn contract_angle(a: int) -> int {
    (a * CONTRACT_NUM) / (CONTRACT_DEN as int)
}

/// An angle advanced by `inc`, wrapping at a full turn.
pub open spec fn next_angle(a: int, inc: int) -> int {
    (a + inc) % (TURN as int)
}

/// The unit-disk direction of angle `a`, as a vector.
pub open spec fn polar_vec(a: int) -> Vec2 {
    let (x, y) = polar_unit_spec(a);
    Vec2 { x: x as i64, y: y as i64 }
}

/// The evenly spaced curve parameter of sample `i` out of `n`.
pub open spec fn sample_t(i: int, n: int) -> int {
    (i * FIXED_ONE) / n
}

/// Sample `i` of `n` on the bloom curve of angles `t0` and `t1`, scaled
/// by `radius` and translated to `center`.
pub open spec fn spin_sample(
    center: Vec2,
    radius: i64,
    t0: int,
    t1: int,
    i: int,
    n: int,
) -> Vec2 {
    let u = polar_vec(t0);
    let v = polar_vec(contract_angle(t0));
    let b = polar_vec(t1);
    let (sx, sy) = bezier_point(u, v, b, sample_t(i, n));
    Vec2 {
        x: (center.x + tdiv(sx * radius, FIXED_ONE as int)) as i64,
        y: (center.y + tdiv(sy * radius, FIXED_ONE as int)) as i64,
    }
}

/// The points one step emits once the angles have advanced to `t0`, `t1`
/// and the cumulative offset to `off`.
pub open spec fn frame_points(c: SpinnerConfig, t0: int, t1: int, off: int) -> Seq<Vec2> {
    let n = point_count(c, off);
    Seq::new(n as nat, |i: int| spin_sample(c.center, c.radius, t0, t1, i, n))
}

/// The rotating state of one spinner.
pub struct SpinnerState {
    pub theta_0: u64,
    pub theta_1: u64,
    pub theta_offset: u64,
    pub points: Vec<Vec2>,
}

/// A spiral generator: its validated configuration, its rotating state,
/// and the step bound of its sweep.
pub struct Spinner {
    pub config: SpinnerConfig,
    pub state: SpinnerState,
    pub max_iterations: u64,
}

/// The spinner's abstract state: the three angles and the accumulated
/// points.
pub open spec fn spin_model(s: &Spinner) -> (int, int, int, Seq<Vec2>) {
    (
        s.state.theta_0 as int,
        s.state.theta_1 as int,
        s.state.theta_offset as int,
        s.state.points@,
    )
}

/// One step of the abstract state under configuration `c`.
pub open spec fn spin_step_model(
    c: SpinnerConfig,
    m: (int, int, int, Seq<Vec2>),
) -> (int, int, int, Seq<Vec2>) {
    let inc = c.theta_increment as int;
    let t0 = next_angle(m.0, inc);
    let t1 = next_angle(m.1, inc);
    let off = next_angle(m.2, inc);
    (t0, t1, off, m.3 + frame_points(c, t0, t1, off))
}

/// `k` steps of the abstract state under configuration `c`.
pub open spec fn spin_run(
    c: SpinnerConfig,
    m: (int, int, int, Seq<Vec2>),
    k: nat,
) -> (int, int, int, Seq<Vec2>)
    decreases k,
{
    if k == 0 {
        m
    } else {
        spin_step_model(c, spin_run(c, m, (k - 1) as nat))
    }
}

/// Determinism: the abstract step is a function of state and
/// configuration alone, so two generators that agree on seed-derived
/// state and configuration emit the same points after any number of
/// steps.
pub proof fn lemma_generator_deterministic(
    c1: SpinnerConfig,
    c2: SpinnerConfig,
    m1: (int, int, int, Seq<Vec2>),
    m2: (int, int, int, Seq<Vec2>),
    k: nat,
)
    requires
        c1 == c2,
        m1 == m2,
    ensures
        spin_run(c1, m1, k) == spin_run(c2, m2, k),
{
}

/// What every spinner operation preserves: a valid configuration, angles
/// within one turn, and the step bound of the sweep.
pub open spec fn spinner_wf(s: &Spinner) -> bool {
    &&& spinner_config_valid(s.config)
    &&& s.state.theta_0 < TURN
    &&& s.state.theta_1 < TURN
    &&& s.state.theta_offset < TURN
    &&& s.max_iterations == s.config.theta_max as int / s.config.theta_increment as int
}

impl Spinner {
    /// Builds a spinner over a validated configuration; both starting
    /// angles are drawn from the seeded stream, the offset starts at
    /// zero and no points have been emitted.
    pub fn new(config: SpinnerConfig, rng: &mut SpinRng) -> (r: Spinner)
        requires
            spinner_config_valid(config),
        ensures
            spinner_wf(&r),
            r.config == config,
            r.state.theta_0 == rng_output(rng_next_state(old(rng)@)) % TURN,
            r.state.theta_1 == rng_output(rng_next_state(rng_next_state(old(rng)@))) % TURN,
            r.state.theta_offset == 0,
            r.state.points@ == Seq::<Vec2>::empty(),
            final(rng)@ == rng_next_state(rng_next_state(old(rng)@)),
    {
        let theta_0: u64 = rng.next_angle();
        let theta_1: u64 = rng.next_angle();
        let max_iterations: u64 = config.theta_max / config.theta_increment;
        Spinner {
            config,
            state: SpinnerState { theta_0, theta_1, theta_offset: 0, points: Vec::new() },
            max_iterations,
        }
    }

    /// Builds a spinner from a partial configuration over defaults,
    /// rejecting the resolved configuration if it is malformed.
    pub fn from_input(input: &SpinnerInput, rng: &mut SpinRng) -> (r: Result<Spinner, ConfigError>)
        ensures
            r is Ok <==> spinner_config_valid(merged_config(input.config, input.default_config)),
            r is Ok ==> {
                let s = r->Ok_0;
                &&& spinner_wf(&s)
                &&& s.config == merged_config(input.config, input.default_config)
                &&& s.state.theta_0 == rng_output(rng_next_state(old(rng)@)) % TURN
                &&& s.state.theta_1 == rng_output(rng_next_state(rng_next_state(old(rng)@)))
                    % TURN
                &&& s.state.theta_offset == 0
                &&& s.state.points@ == Seq::<Vec2>::empty()
            },
            r is Err ==> final(rng)@ == old(rng)@,
    {
        match resolve_config(&input.config, &input.default_config) {
            Ok(config) => Ok(Spinner::new(config, rng)),
            Err(e) => Err(e),
        }
    }

    /// Advances the three angles and computes that step's points, without
    /// touching the accumulated state.
    fn step_core(&mut self) -> (pts: Vec<Vec2>)
        requires
            spinner_wf(old(self)),
        ensures
            spinner_wf(final(self)),
            final(self).config == old(self).config,
            final(self).max_iterations == old(self).max_iterations,
            final(self).state.points == old(self).state.points,
            final(self).state.theta_0 == next_angle(
                old(self).state.theta_0 as int,
                old(self).config.theta_increment as int,
            ),
            final(self).state.theta_1 == next_angle(
                old(self).state.theta_1 as int,
                old(self).config.theta_increment as int,
            ),
            final(self).state.theta_offset == next_angle(
                old(self).state.theta_offset as int,
                old(self).config.theta_increment as int,
            ),
            pts@ == frame_points(
                old(self).config,
                final(self).state.theta_0 as int,
                final(self).state.theta_1 as int,
                final(self).state.theta_offset as int,
            ),
    {
        let inc: u64 = self.config.theta_increment;
        self.state.theta_0 = (self.state.theta_0 + inc) % TURN;
        self.state.theta_1 = (self.state.theta_1 + inc) % TURN;
        self.state.theta_offset = (self.state.theta_offset + inc) % TURN;
        let n: u64 = self.point_budget();
        let t0: u64 = self.state.theta_0;
        let t1: u64 = self.state.theta_1;
        let u: Vec2 = polar_unit(t0);
        let va: u64 = (t0 * CONTRACT_NUM) / CONTRACT_DEN;
        proof {
            lemma_multiply_divide_lt(t0 as int * CONTRACT_NUM as int, CONTRACT_DEN as int, TURN as int);
            assert(t0 as int * CONTRACT_NUM < CONTRACT_DEN * TURN) by (nonlinear_arith)
                requires t0 < TURN == 1_000_000u64 && CONTRACT_NUM == 17_453u64
                    && CONTRACT_DEN == 1_000_000u64;
        }
        let v: Vec2 = polar_unit(va);
        let b: Vec2 = polar_unit(t1);
        let ghost nn = point_count(self.config, self.state.theta_offset as int);
        let mut pts: Vec<Vec2> = Vec::new();
        let mut i: u64 = 0;
        proof {
            assert(va == contract_angle(t0 as int));
        }
        while i < n
            invariant
                spinner_config_valid(self.config),
                i <= n,
                n == nn,
                nn == point_count(self.config, self.state.theta_offset as int),
                t0 == self.state.theta_0,
                t1 == self.state.theta_1,
                t0 < TURN && t1 < TURN,
                u == polar_vec(t0 as int),
                v == polar_vec(contract_angle(t0 as int)),
                b == polar_vec(t1 as int),
                norm2(u) <= FIXED_ONE * FIXED_ONE,
                norm2(v) <= FIXED_ONE * FIXED_ONE,
                norm2(b) <= FIXED_ONE * FIXED_ONE,
                -FIXED_ONE <= u.x <= FIXED_ONE && -FIXED_ONE <= u.y <= FIXED_ONE,
                -FIXED_ONE <= v.x <= FIXED_ONE && -FIXED_ONE <= v.y <= FIXED_ONE,
                -FIXED_ONE <= b.x <= FIXED_ONE && -FIXED_ONE <= b.y <= FIXED_ONE,
                n <= 10_000_000,
                pts@ =~= Seq::new(i as nat, |j: int| spin_sample(
                    self.config.center,
                    self.config.radius,
                    t0 as int,
                    t1 as int,
                    j,
                    nn,
                )),
            decreases n - i,
        {
            proof {
                assert(i * (FIXED_ONE as u64) < n * (FIXED_ONE as u64)
                    && i * (FIXED_ONE as u64) <= 10_000_000_000u64) by (nonlinear_arith)
                    requires i < n <= 10_000_000u64 && FIXED_ONE == 1000i64;
                lemma_multiply_divide_lt(i as int * FIXED_ONE as int, n as int, FIXED_ONE as int);
                assert(i as int * (FIXED_ONE as int) / (n as int) >= 0) by {
                    assert(i as int * FIXED_ONE as int >= 0) by (nonlinear_arith)
                        requires i >= 0;
                    lemma_div_is_ordered(0, i as int * FIXED_ONE as int, n as int);
                };
            }
            let t: i64 = ((i * (FIXED_ONE as u64)) / n) as i64;
            proof {
                assert(t == sample_t(i as int, nn));
            }
            let s: Vec2 = bezier_sample(u, v, b, t);
            let sxr: i64 = mul_in_range(s.x, self.config.radius, FIXED_ONE, COORD_LIMIT);
            let syr: i64 = mul_in_range(s.y, self.config.radius, FIXED_ONE, COORD_LIMIT);
            proof {
                assert(FIXED_ONE * COORD_LIMIT == COORD_LIMIT * (FIXED_ONE as int));
                lemma_tdiv_le_bound(sxr as int, FIXED_ONE as int, COORD_LIMIT as int);
                lemma_tdiv_le_bound(syr as int, FIXED_ONE as int, COORD_LIMIT as int);
                assert(-(self.config.radius * FIXED_ONE) <= sxr <= self.config.radius
                    * FIXED_ONE) by (nonlinear_arith)
                    requires sxr == s.x * self.config.radius && -FIXED_ONE <= s.x <= FIXED_ONE
                        && self.config.radius >= 0;
                lemma_tdiv_le_bound(sxr as int, FIXED_ONE as int, self.config.radius as int);
                assert(-(self.config.radius * FIXED_ONE) <= syr <= self.config.radius
                    * FIXED_ONE) by (nonlinear_arith)
                    requires syr == s.y * self.config.radius && -FIXED_ONE <= s.y <= FIXED_ONE
                        && self.config.radius >= 0;
                lemma_tdiv_le_bound(syr as int, FIXED_ONE as int, self.config.radius as int);
            }
            let px: i64 = self.config.center.x + div_trunc(sxr, FIXED_ONE);
            let py: i64 = self.config.center.y + div_trunc(syr, FIXED_ONE);
            pts.push(Vec2 { x: px, y: py });
            i = i + 1;
        }
        proof {
            assert(pts@ =~= frame_points(
                self.config,
                self.state.theta_0 as int,
                self.state.theta_1 as int,
                self.state.theta_offset as int,
            ));
        }
        pts
    }

    /// The number of points owed at the current cumulative offset.
    fn point_budget(&self) -> (n: u64)
        requires
            spinner_config_valid(self.config),
            self.state.theta_offset < TURN,
        ensures
            n == point_count(self.config, self.state.theta_offset as int),
            n <= 10_000_000,
    {
        proof {
            lemma_point_count_bounds(self.config, self.state.theta_offset as int);
        }
        let off: i64 = self.state.theta_offset as i64;
        let decay: i64 = mul_in_range(self.config.density_factor, off, 100_000, 1_000_000);
        let num: i64 = mul_in_range(
            self.config.density,
            DENSITY_DENOM - decay,
            100_000,
            101_000_000_000,
        );
        if num <= 0 {
            proof {
                vstd::arithmetic::div_mod::lemma_div_is_ordered(
                    num as int,
                    0,
                    DENSITY_DENOM as int,
                );
                assert(density_at(
                    self.config.density as int,
                    self.config.density_factor as int,
                    self.state.theta_offset as int,
                ) <= 0);
            }
            0
        } else {
            let d: i64 = div_trunc(num, DENSITY_DENOM);
            proof {
                assert(d == density_at(
                    self.config.density as int,
                    self.config.density_factor as int,
                    self.state.theta_offset as int,
                ));
            }
            if d <= 0 {
                0
            } else {
                proof {
                    assert(num <= 100_000 * DENSITY_DENOM) by (nonlinear_arith)
                        requires
                            num == self.config.density * (DENSITY_DENOM - decay),
                            0 <= self.config.density <= 100_000i64,
                            DENSITY_DENOM - decay <= DENSITY_DENOM,
                            num > 0,
                            DENSITY_DENOM == 1_000_000_000i64;
                    lemma_tdiv_le_bound(num as int, DENSITY_DENOM as int, 100_000);
                }
                let scaled: i64 = mul_in_range(self.config.initial_points, d, 100_000, 100_000);
                let n: i64 = div_trunc(scaled, FIXED_ONE);
                proof {
                    assert(n >= 0) by {
                        lemma_div_is_ordered(0, scaled as int, FIXED_ONE as int);
                        assert(scaled >= 0) by (nonlinear_arith)
                            requires scaled == self.config.initial_points * d
                                && self.config.initial_points >= 0 && d > 0;
                    }
                }
                n as u64
            }
        }
    }

    /// Burst mode: runs the whole sweep — `theta_max / theta_increment`
    /// steps — in one call, accumulating every emitted point.
    pub fn update(&mut self)
        requires
            spinner_wf(old(self)),
        ensures
            spinner_wf(final(self)),
            final(self).config == old(self).config,
            final(self).max_iterations == old(self).max_iterations,
            spin_model(final(self)) == spin_run(
                old(self).config,
                spin_model(old(self)),
                old(self).max_iterations as nat,
            ),
    {
        let iterations: u64 = self.max_iterations;
        let mut k: u64 = 0;
        while k < iterations
            invariant
                spinner_wf(self),
                k <= iterations,
                self.config == old(self).config,
                self.max_iterations == old(self).max_iterations,
                spin_model(self) == spin_run(old(self).config, spin_model(old(self)), k as nat),
            decreases iterations - k,
        {
            let mut pts: Vec<Vec2> = self.step_core();
            self.state.points.append(&mut pts);
            k = k + 1;
            proof {
                assert(spin_model(self) == spin_step_model(
                    old(self).config,
                    spin_run(old(self).config, spin_model(old(self)), (k - 1) as nat),
                ));
            }
        }
    }

    /// Per-frame mode: while the sweep is not finished — `iteration` has
    /// not passed `theta_max / theta_increment` — runs exactly one step
    /// and hands back that frame's points; afterwards the spiral is done
    /// and every further call leaves the state alone and returns no
    /// points.
    pub fn compute_points(&mut self, iteration: u64) -> (pts: Vec<Vec2>)
        requires
            spinner_wf(old(self)),
        ensures
            spinner_wf(final(self)),
            final(self).config == old(self).config,
            final(self).max_iterations == old(self).max_iterations,
            final(self).state.points == old(self).state.points,
            iteration <= old(self).max_iterations ==> {
                &&& final(self).state.theta_0 == next_angle(
                    old(self).state.theta_0 as int,
                    old(self).config.theta_increment as int,
                )
                &&& final(self).state.theta_1 == next_angle(
                    old(self).state.theta_1 as int,
                    old(self).config.theta_increment as int,
                )
                &&& final(self).state.theta_offset == next_angle(
                    old(self).state.theta_offset as int,
                    old(self).config.theta_increment as int,
                )
                &&& pts@ == frame_points(
                    old(self).config,
                    final(self).state.theta_0 as int,
                    final(self).state.theta_1 as int,
                    final(self).state.theta_offset as int,
                )
            },
            iteration > old(self).max_iterations ==> final(self).state == old(self).state
                && pts@ == Seq::<Vec2>::empty(),
    {
        if iteration <= self.max_iterations {
            self.step_core()
        } else {
            Vec::new()
        }
    }
}

/// A partial spinner configuration paired with the defaults it falls
/// back onto.
#[derive(Clone, Copy, PartialEq, Eq, Structural, Debug)]
pub struct SpinnerInput {
    pub config: SpinnerPartialConfig,
    pub default_config: SpinnerDefaultConfig,
}

impl SpinnerInput {
    pub fn new(config: SpinnerPartialConfig, default_config: SpinnerDefaultConfig) -> (r:
        SpinnerInput)
        ensures
            r.config == config,
            r.default_config == default_config,
    {
        SpinnerInput { config, default_config }
    }
}

/// Every point a step emits lies within the configured radius of the
/// configured center: the bloom curve never leaves its circle.
pub proof fn lemma_frame_points_in_circle(c: SpinnerConfig, t0: int, t1: int, off: int, i: int)
    requires
        spinner_config_valid(c),
        0 <= t0 < TURN,
        0 <= t1 < TURN,
        0 <= i < frame_points(c, t0, t1, off).len(),
    ensures
        dist2(frame_points(c, t0, t1, off)[i], c.center) <= c.radius * c.radius,
{
    let n = point_count(c, off);
    let u = polar_vec(t0);
    let v = polar_vec(contract_angle(t0));
    let b = polar_vec(t1);
    let t = sample_t(i, n);
    assert(0 <= t < FIXED_ONE) by {
        assert(i * FIXED_ONE < n * FIXED_ONE) by (nonlinear_arith)
            requires 0 <= i < n;
        lemma_multiply_divide_lt(i * FIXED_ONE, n, FIXED_ONE as int);
        assert(i * FIXED_ONE >= 0) by (nonlinear_arith)
            requires i >= 0;
        lemma_div_is_ordered(0, i * FIXED_ONE, n);
    }
    lemma_polar_vec_in_disk(t0);
    lemma_polar_vec_in_disk(contract_angle(t0));
    lemma_polar_vec_in_disk(t1);
    lemma_bezier_in_disk(u, v, b, t);
    let (sx, sy) = bezier_point(u, v, b, t);
    let qx = tdiv(sx * c.radius, FIXED_ONE as int);
    let qy = tdiv(sy * c.radius, FIXED_ONE as int);
    lemma_tdiv_sq_bound(sx * c.radius, FIXED_ONE as int);
    lemma_tdiv_sq_bound(sy * c.radius, FIXED_ONE as int);
    assert((sx * c.radius) * (sx * c.radius) + (sy * c.radius) * (sy * c.radius) <= (FIXED_ONE
        * FIXED_ONE) * ((c.radius * c.radius))) by (nonlinear_arith)
        requires sx * sx + sy * sy <= FIXED_ONE * FIXED_ONE;
    assert((qx * qx + qy * qy) * (FIXED_ONE * FIXED_ONE) <= (FIXED_ONE * FIXED_ONE) * (c.radius
        * c.radius)) by (nonlinear_arith)
        requires
            qx * qx * ((FIXED_ONE as int) * (FIXED_ONE as int)) <= (sx * c.radius) * (sx
                * c.radius),
            qy * qy * ((FIXED_ONE as int) * (FIXED_ONE as int)) <= (sy * c.radius) * (sy
                * c.radius),
            (sx * c.radius) * (sx * c.radius) + (sy * c.radius) * (sy * c.radius) <= (FIXED_ONE
                * FIXED_ONE) * ((c.radius * c.radius));
    assert(qx * qx + qy * qy <= c.radius * c.radius) by (nonlinear_arith)
        requires (qx * qx + qy * qy) * (FIXED_ONE * FIXED_ONE) <= (FIXED_ONE * FIXED_ONE) * (
            c.radius * c.radius) && FIXED_ONE == 1000i64;
    let p = frame_points(c, t0, t1, off)[i];
    assert(p == spin_sample(c.center, c.radius, t0, t1, i, n));
    assert(sx * sx >= 0 && sy * sy >= 0) by (nonlinear_arith);
    assert(-FIXED_ONE <= sx <= FIXED_ONE && -FIXED_ONE <= sy <= FIXED_ONE) by (nonlinear_arith)
        requires
            sx * sx + sy * sy <= FIXED_ONE * FIXED_ONE,
            sx * sx >= 0,
            sy * sy >= 0,
            FIXED_ONE == 1000i64;
    assert(-(c.radius * (FIXED_ONE as int)) <= sx * c.radius <= c.radius * (FIXED_ONE as int)
        && -(c.radius * (FIXED_ONE as int)) <= sy * c.radius <= c.radius * (FIXED_ONE as int))
        by (nonlinear_arith)
        requires
            -FIXED_ONE <= sx <= FIXED_ONE,
            -FIXED_ONE <= sy <= FIXED_ONE,
            c.radius >= 0;
    lemma_tdiv_le_bound(sx * c.radius, FIXED_ONE as int, c.radius as int);
    lemma_tdiv_le_bound(sy * c.radius, FIXED_ONE as int, c.radius as int);
    assert(p.x == c.center.x + qx && p.y == c.center.y + qy);
    assert(dist2(p, c.center) == qx * qx + qy * qy);
}

/// The unit-disk direction really lies in the unit disk, with each
/// component within one unit.
pub proof fn lemma_polar_vec_in_disk(a: int)
    ensures
        norm2(polar_vec(a)) <= FIXED_ONE * FIXED_ONE,
        -FIXED_ONE <= polar_vec(a).x <= FIXED_ONE,
        -FIXED_ONE <= polar_vec(a).y <= FIXED_ONE,
{
    let w = Vec2 {
        x: crate::trig::sin_unit((a + crate::trig::QUARTER_TURN) % (TURN as int)) as i64,
        y: crate::trig::sin_unit(a) as i64,
    };
    crate::fixed::lemma_clamp_vec_bound(w, FIXED_ONE as int);
    let (rx, ry) = crate::fixed::clamp_vec(w, FIXED_ONE as int);
    assert(rx * rx >= 0 && ry * ry >= 0) by (nonlinear_arith);
    assert(-FIXED_ONE <= rx <= FIXED_ONE && -FIXED_ONE <= ry <= FIXED_ONE) by (nonlinear_arith)
        requires
            rx * rx + ry * ry <= FIXED_ONE * FIXED_ONE,
            rx * rx >= 0,
            ry * ry >= 0,
            FIXED_ONE == 1000i64;
    assert(polar_vec(a).x == rx && polar_vec(a).y == ry);
    assert(norm2(polar_vec(a)) == rx * rx + ry * ry);
}

} // verus!
