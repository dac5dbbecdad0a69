//! The traveler: a 2D point-mass with steering behavior.
//!
//! Seeking accumulates a clamped steering force into the acceleration;
//! the per-iteration update integrates symplectically — velocity before
//! position — and clamps the velocity so that no sequence of seeks or
//! border avoidances can ever push it past the kinematic limit. A
//! traveler pair is drawn as a thread of point-pairs mirrored exactly
//! across the midpoint between the two agents.

use vstd::prelude::*;

verus! {

use crate::fixed::{
    FIXED_ONE,
    COORD_LIMIT,
    Vec2,
    norm2,
    dist2,
    clamp_vec,
    clamp_coord,
    clamp_length_max,
    sat_add_coord,
    sqrt_ceil,
    isqrt_ceil,
    is_sqrt_ceil,
    tdiv,
    div_trunc,
    mul_in_range,
    vec_in_range,
    in_coord_range,
    abs64,
};
use crate::trig::{TURN, sin_unit, sin_fixed};
use crate::rng::{SpinRng, rng_next_state, rng_output, rng_state_after};
use crate::config::Color;
use crate::scene::{Primitive, ShapeKind};

/// Largest kinematic limit a traveler may be given, in raw fixed-point
/// steps per iteration.
pub const KINEMATIC_LIMIT: i64 = 1_000_000;

/// A steering strategy a driver can apply to a traveler.
#[derive(Clone, Copy, PartialEq, Eq, Structural, Debug)]
#[allow(non_camel_case_types)]
pub enum Strategy {
    SEEK,
}

/// A 2D point-mass with steering state and kinematic limits.
#[derive(Clone, Copy, PartialEq, Eq, Structural, Debug)]
pub struct Traveler {
    pub position: Vec2,
    pub velocity: Vec2,
    pub acceleration: Vec2,
    pub n_points: u64,
    pub max_velocity: i64,
    pub max_force: i64,
}

/// What construction establishes and every operation preserves: the
/// position within the world, the velocity and limits within the
/// kinematic range, and the accumulated acceleration within the world
/// range it saturates at.
pub open spec fn traveler_wf(t: Traveler) -> bool {
    &&& vec_in_range(t.position)
    &&& 0 <= t.max_velocity <= KINEMATIC_LIMIT
    &&& 0 <= t.max_force <= KINEMATIC_LIMIT
    &&& -KINEMATIC_LIMIT <= t.velocity.x <= KINEMATIC_LIMIT
    &&& -KINEMATIC_LIMIT <= t.velocity.y <= KINEMATIC_LIMIT
    &&& in_coord_range(t.acceleration.x as int)
    &&& in_coord_range(t.acceleration.y as int)
}

/// The steering force a seek toward `target` under `max_force` adds: the
/// desired velocity is the offset to the target clamped to the velocity
/// limit, and the force is the correction from the current velocity
/// clamped to `max_force`.
pub open spec fn seek_force(t: Traveler, target: Vec2, max_force: int) -> (int, int) {
    let desired = clamp_vec(
        (Vec2 { x: (target.x - t.position.x) as i64, y: (target.y - t.position.y) as i64 }),
        t.max_velocity as int,
    );
    clamp_vec(
        (Vec2 { x: (desired.0 - t.velocity.x) as i64, y: (desired.1 - t.velocity.y) as i64 }),
        max_force,
    )
}

/// The traveler after a seek toward `target` under `max_force`: the
/// force accumulated into the acceleration, saturating at the world
/// range; nothing else moves.
pub open spec fn seek_model(t: Traveler, target: Vec2, max_force: int) -> Traveler {
    let f = seek_force(t, target, max_force);
    Traveler {
        acceleration: Vec2 {
            x: clamp_coord(t.acceleration.x + f.0) as i64,
            y: clamp_coord(t.acceleration.y + f.1) as i64,
        },
        ..t
    }
}

/// The traveler after one update: velocity plus accumulated
/// acceleration, clamped to the velocity limit; then the position moved
/// by the new velocity, saturating at the world edge; then the
/// acceleration reset.
pub open spec fn update_model(t: Traveler) -> Traveler {
    let v = clamp_vec(
        (Vec2 {
            x: (t.velocity.x + t.acceleration.x) as i64,
            y: (t.velocity.y + t.acceleration.y) as i64,
        }),
        t.max_velocity as int,
    );
    Traveler {
        velocity: Vec2 { x: v.0 as i64, y: v.1 as i64 },
        position: Vec2 {
            x: clamp_coord(t.position.x + v.0) as i64,
            y: clamp_coord(t.position.y + v.1) as i64,
        },
        acceleration: Vec2 { x: 0, y: 0 },
        ..t
    }
}

impl Traveler {
    /// Builds a traveler; the ranges asked for are what the fixed-point
    /// world can carry.
    pub fn new(
        position: Vec2,
        velocity: Vec2,
        acceleration: Vec2,
        n_points: u64,
        max_velocity: i64,
        max_force: i64,
    ) -> (r: Traveler)
        requires
            vec_in_range(position),
            0 <= max_velocity <= KINEMATIC_LIMIT,
            0 <= max_force <= KINEMATIC_LIMIT,
            -KINEMATIC_LIMIT <= velocity.x <= KINEMATIC_LIMIT,
            -KINEMATIC_LIMIT <= velocity.y <= KINEMATIC_LIMIT,
            vec_in_range(acceleration),
        ensures
            r == (Traveler { position, velocity, acceleration, n_points, max_velocity, max_force }),
            traveler_wf(r),
    {
        Traveler { position, velocity, acceleration, n_points, max_velocity, max_force }
    }

    fn apply_force(&mut self, force: Vec2)
        requires
            traveler_wf(*old(self)),
            -2 * KINEMATIC_LIMIT <= force.x <= 2 * KINEMATIC_LIMIT,
            -2 * KINEMATIC_LIMIT <= force.y <= 2 * KINEMATIC_LIMIT,
        ensures
            traveler_wf(*final(self)),
            *final(self) == (Traveler {
                acceleration: Vec2 {
                    x: clamp_coord(old(self).acceleration.x + force.x) as i64,
                    y: clamp_coord(old(self).acceleration.y + force.y) as i64,
                },
                ..*old(self)
            }),
    {
        let ax: i64 = sat_add_coord(self.acceleration.x, force.x);
        let ay: i64 = sat_add_coord(self.acceleration.y, force.y);
        self.acceleration = Vec2 { x: ax, y: ay };
    }

    /// Seeks toward `target` under this traveler's own force limit:
    /// accumulates the clamped steering correction into the
    /// acceleration. Seeks compose: each call adds its force.
    pub fn seek(&mut self, position: Vec2)
        requires
            traveler_wf(*old(self)),
            vec_in_range(position),
        ensures
            traveler_wf(*final(self)),
            *final(self) == seek_model(*old(self), position, old(self).max_force as int),
    {
        let mf: i64 = self.max_force;
        seek_with_force(self, position, mf);
    }

    /// Steers back toward the center axis of any dimension whose
    /// coordinate has come within `radius` of that dimension's half
    /// extent, each dimension independently.
    pub fn avoid_border(&mut self, width: i64, height: i64, radius: i64)
        requires
            traveler_wf(*old(self)),
            0 <= width <= COORD_LIMIT,
            0 <= height <= COORD_LIMIT,
            0 <= radius <= COORD_LIMIT,
        ensures
            traveler_wf(*final(self)),
            ({
                let t0 = *old(self);
                let near_x = abs_of(t0.position.x - width / 2) < radius;
                let t1 = if near_x {
                    seek_model(t0, Vec2 { x: 0, y: t0.position.y }, t0.max_force as int)
                } else {
                    t0
                };
                let near_y = abs_of(t1.position.y - height / 2) < radius;
                let t2 = if near_y {
                    seek_model(t1, Vec2 { x: t1.position.x, y: 0 }, t1.max_force as int)
                } else {
                    t1
                };
                *final(self) == t2
            }),
    {
        let half_w: i64 = width / 2;
        let dx: i64 = self.position.x - half_w;
        if (if dx >= 0 { dx } else { -dx }) < radius {
            let target = Vec2 { x: 0, y: self.position.y };
            self.seek(target);
        }
        let half_h: i64 = height / 2;
        let dy: i64 = self.position.y - half_h;
        if (if dy >= 0 { dy } else { -dy }) < radius {
            let target = Vec2 { x: self.position.x, y: 0 };
            self.seek(target);
        }
    }

    /// One integration step: velocity absorbs the accumulated
    /// acceleration and is clamped to the limit, the position then moves
    /// by the new velocity, and the acceleration resets. The velocity
    /// clamp makes the kinematic bound an invariant: after any update,
    /// whatever seeks preceded it, the velocity's length never exceeds
    /// `max_velocity`.
    pub fn update(&mut self)
        requires
            traveler_wf(*old(self)),
        ensures
            traveler_wf(*final(self)),
            *final(self) == update_model(*old(self)),
            norm2(final(self).velocity) <= final(self).max_velocity * final(self).max_velocity,
    {
        let vx: i64 = self.velocity.x + self.acceleration.x;
        let vy: i64 = self.velocity.y + self.acceleration.y;
        let v = clamp_length_max(Vec2 { x: vx, y: vy }, self.max_velocity);
        proof {
            assert(v.x * v.x >= 0 && v.y * v.y >= 0) by (nonlinear_arith);
            assert(-KINEMATIC_LIMIT <= v.x <= KINEMATIC_LIMIT && -KINEMATIC_LIMIT <= v.y
                <= KINEMATIC_LIMIT) by (nonlinear_arith)
                requires
                    v.x * v.x + v.y * v.y <= self.max_velocity * self.max_velocity,
                    v.x * v.x >= 0,
                    v.y * v.y >= 0,
                    0 <= self.max_velocity <= KINEMATIC_LIMIT == 1_000_000i64;
        }
        self.velocity = v;
        let px: i64 = sat_add_coord(self.position.x, v.x);
        let py: i64 = sat_add_coord(self.position.y, v.y);
        self.position = Vec2 { x: px, y: py };
        self.acceleration = Vec2 { x: 0, y: 0 };
    }
}

/// The magnitude of a value.
pub open spec fn abs_of(x: int) -> int {
    if x >= 0 {
        x
    } else {
        -x
    }
}

/// Seeks toward `position` under an explicit force limit, as a strategy
/// application does.
fn seek_with_force(traveler: &mut Traveler, position: Vec2, max_force: i64)
    requires
        traveler_wf(*old(traveler)),
        vec_in_range(position),
        0 <= max_force <= KINEMATIC_LIMIT,
    ensures
        traveler_wf(*final(traveler)),
        *final(traveler) == seek_model(*old(traveler), position, max_force as int),
{
    let dx: i64 = position.x - traveler.position.x;
    let dy: i64 = position.y - traveler.position.y;
    let desired = clamp_length_max(Vec2 { x: dx, y: dy }, traveler.max_velocity);
    proof {
        assert(desired.x * desired.x >= 0 && desired.y * desired.y >= 0) by (nonlinear_arith);
        assert(-KINEMATIC_LIMIT <= desired.x <= KINEMATIC_LIMIT && -KINEMATIC_LIMIT <= desired.y
            <= KINEMATIC_LIMIT) by (nonlinear_arith)
            requires
                desired.x * desired.x + desired.y * desired.y <= traveler.max_velocity
                    * traveler.max_velocity,
                desired.x * desired.x >= 0,
                desired.y * desired.y >= 0,
                0 <= traveler.max_velocity <= KINEMATIC_LIMIT == 1_000_000i64;
    }
    let fx: i64 = desired.x - traveler.velocity.x;
    let fy: i64 = desired.y - traveler.velocity.y;
    let force = clamp_length_max(Vec2 { x: fx, y: fy }, max_force);
    proof {
        assert(force.x * force.x >= 0 && force.y * force.y >= 0) by (nonlinear_arith);
        assert(-KINEMATIC_LIMIT <= force.x <= KINEMATIC_LIMIT && -KINEMATIC_LIMIT <= force.y
            <= KINEMATIC_LIMIT) by (nonlinear_arith)
            requires
                force.x * force.x + force.y * force.y <= max_force * max_force,
                force.x * force.x >= 0,
                force.y * force.y >= 0,
                0 <= max_force <= KINEMATIC_LIMIT == 1_000_000i64;
    }
    traveler.apply_force(force);
}

/// Applies a steering strategy to a traveler under an explicit force
/// limit.
pub fn apply_strategy(traveler: &mut Traveler, position: &Vec2, strategy: Strategy, max_force: i64)
    requires
        traveler_wf(*old(traveler)),
        vec_in_range(*position),
        0 <= max_force <= KINEMATIC_LIMIT,
    ensures
        traveler_wf(*final(traveler)),
        *final(traveler) == seek_model(*old(traveler), *position, max_force as int),
{
    match strategy {
        Strategy::SEEK => seek_with_force(traveler, *position, max_force),
    }
}

/// The pull back toward `b` once `a` has drifted far: nothing within
/// half of `limit`, beyond that the distance's fraction of `limit`
/// capped at `max_force`.
pub open spec fn inverse_gravity(a: Vec2, b: Vec2, max_force: int, limit: int) -> int {
    let d = sqrt_ceil(dist2(a, b));
    if d < limit / 2 {
        0
    } else {
        let g = d * FIXED_ONE / limit;
        if g < max_force {
            g
        } else {
            max_force
        }
    }
}

/// The inverse-gravity force scalar for `a` relative to `b` over a world
/// of extent `limit`.
pub fn get_inverse_gravity(a: &Vec2, b: &Vec2, max_force: i64, limit: i64) -> (r: i64)
    requires
        vec_in_range(*a),
        vec_in_range(*b),
        0 <= max_force <= KINEMATIC_LIMIT,
        0 < limit <= COORD_LIMIT,
    ensures
        r == inverse_gravity(*a, *b, max_force as int, limit as int),
        0 <= r <= max_force,
{
    let dx: i64 = b.x - a.x;
    let dy: i64 = b.y - a.y;
    let xa: u64 = abs64(dx);
    let ya: u64 = abs64(dy);
    proof {
        assert(xa * xa == dx * dx && ya * ya == dy * dy) by (nonlinear_arith)
            requires (xa == dx || xa == -dx) && (ya == dy || ya == -dy);
        assert(xa * xa <= 4_000_000_000_000_000_000 && ya * ya <= 4_000_000_000_000_000_000)
            by (nonlinear_arith)
            requires xa <= 2_000_000_000 && ya <= 2_000_000_000;
    }
    let n2: u64 = xa * xa + ya * ya;
    let d: u64 = isqrt_ceil(n2);
    proof {
        assert(d * d >= n2 && (d == 0 || (d - 1) * (d - 1) < n2));
        assert(dist2(*a, *b) == n2) by (nonlinear_arith)
            requires
                n2 == xa * xa + ya * ya,
                xa * xa == dx * dx && ya * ya == dy * dy,
                dx == b.x - a.x && dy == b.y - a.y,
                dist2(*a, *b) == (a.x - b.x) * (a.x - b.x) + (a.y - b.y) * (a.y - b.y);
        crate::fixed::lemma_sqrt_ceil_is(n2 as int, d as int);
    }
    if d < (limit as u64) / 2 {
        0
    } else {
        let g: u64 = (d * (FIXED_ONE as u64)) / (limit as u64);
        proof {
            assert(d * (FIXED_ONE as u64) <= 4_294_967_295_000u64) by (nonlinear_arith)
                requires d <= 0xFFFF_FFFFu64 && FIXED_ONE == 1000i64;
            assert(g <= d * (FIXED_ONE as u64)) by {
                assert(d as int * FIXED_ONE as int >= 0);
                vstd::arithmetic::div_mod::lemma_div_is_ordered_by_denominator(
                    d as int * FIXED_ONE as int,
                    1,
                    limit as int,
                );
            }
        }
        if g < (max_force as u64) {
            g as i64
        } else {
            max_force
        }
    }
}

/// The thread pair drawn from pre-draw generator state `state`: the two
/// points mirrored across `middle`, displaced along `direction` by half
/// the sine of a drawn angle.
#[verifier::opaque]
pub open spec fn thread_pair(middle: Vec2, direction: Vec2, state: u64) -> (Vec2, Vec2) {
    let theta = rng_output(rng_next_state(state)) % TURN;
    let sx = sin_unit(theta as int);
    let ox = tdiv(sx * direction.x, 2 * FIXED_ONE);
    let oy = tdiv(sx * direction.y, 2 * FIXED_ONE);
    (
        Vec2 { x: (middle.x + ox) as i64, y: (middle.y + oy) as i64 },
        Vec2 { x: (middle.x - ox) as i64, y: (middle.y - oy) as i64 },
    )
}

/// The midpoint between a traveler and its target, rounded toward zero.
pub open spec fn thread_middle(t: Traveler, target: Vec2) -> Vec2 {
    Vec2 {
        x: tdiv(t.position.x + target.x, 2) as i64,
        y: tdiv(t.position.y + target.y, 2) as i64,
    }
}

/// The direction from a traveler to its target.
pub open spec fn thread_direction(t: Traveler, target: Vec2) -> Vec2 {
    Vec2 { x: (target.x - t.position.x) as i64, y: (target.y - t.position.y) as i64 }
}

/// Pair `k` of the emitted thread is the pair drawn from the `k`-th
/// generator state, and its two dots mirror exactly across the midpoint.
pub open spec fn thread_pair_ok(
    prims: Seq<Primitive>,
    t: Traveler,
    target: Vec2,
    seed: u64,
    k: int,
    color: Color,
) -> bool {
    let middle = thread_middle(t, target);
    let pair = thread_pair(middle, thread_direction(t, target), rng_state_after(seed, k as nat));
    &&& 0 <= 2 * k + 1 < prims.len()
    &&& prims[2 * k].x == pair.0.x
    &&& prims[2 * k].y == pair.0.y
    &&& prims[2 * k + 1].x == pair.1.x
    &&& prims[2 * k + 1].y == pair.1.y
    &&& prims[2 * k].x + prims[2 * k + 1].x == 2 * middle.x
    &&& prims[2 * k].y + prims[2 * k + 1].y == 2 * middle.y
    &&& prims[2 * k].kind == ShapeKind::Ellipse
    &&& prims[2 * k + 1].kind == ShapeKind::Ellipse
    &&& prims[2 * k].color == color
    &&& prims[2 * k + 1].color == color
}

/// Draws one thread pair from the generator's current state.
fn thread_step(
    mx: i64,
    my: i64,
    dirx: i64,
    diry: i64,
    color: Color,
    rng: &mut SpinRng,
) -> (pr: (Primitive, Primitive))
    requires
        -COORD_LIMIT <= mx <= COORD_LIMIT,
        -COORD_LIMIT <= my <= COORD_LIMIT,
        -2 * COORD_LIMIT <= dirx <= 2 * COORD_LIMIT,
        -2 * COORD_LIMIT <= diry <= 2 * COORD_LIMIT,
    ensures
        final(rng)@ == rng_next_state(old(rng)@),
        ({
            let pair = thread_pair(
                Vec2 { x: mx, y: my },
                Vec2 { x: dirx, y: diry },
                old(rng)@,
            );
            &&& pr.0.x == pair.0.x && pr.0.y == pair.0.y
            &&& pr.1.x == pair.1.x && pr.1.y == pair.1.y
            &&& pr.0.x + pr.1.x == 2 * mx && pr.0.y + pr.1.y == 2 * my
            &&& pr.0.kind == ShapeKind::Ellipse && pr.1.kind == ShapeKind::Ellipse
            &&& pr.0.color == color && pr.1.color == color
        }),
{
    let theta: u64 = rng.next_angle();
    let sx: i64 = sin_fixed(theta);
    let oxn: i64 = mul_in_range(sx, dirx, FIXED_ONE, 2 * COORD_LIMIT);
    let oyn: i64 = mul_in_range(sx, diry, FIXED_ONE, 2 * COORD_LIMIT);
    let ox: i64 = div_trunc(oxn, 2 * FIXED_ONE);
    let oy: i64 = div_trunc(oyn, 2 * FIXED_ONE);
    proof {
        assert(-(COORD_LIMIT * (2 * FIXED_ONE)) <= oxn <= COORD_LIMIT * (2 * FIXED_ONE)
            && -(COORD_LIMIT * (2 * FIXED_ONE)) <= oyn <= COORD_LIMIT * (2 * FIXED_ONE))
            by (nonlinear_arith)
            requires
                oxn == sx * dirx && oyn == sx * diry,
                -FIXED_ONE <= sx <= FIXED_ONE,
                -2 * COORD_LIMIT <= dirx <= 2 * COORD_LIMIT,
                -2 * COORD_LIMIT <= diry <= 2 * COORD_LIMIT,
                FIXED_ONE == 1000i64 && COORD_LIMIT == 1_000_000_000i64;
        crate::fixed::lemma_tdiv_le_bound(oxn as int, 2 * FIXED_ONE, COORD_LIMIT as int);
        crate::fixed::lemma_tdiv_le_bound(oyn as int, 2 * FIXED_ONE, COORD_LIMIT as int);
        reveal(thread_pair);
    }
    (
        Primitive {
            kind: ShapeKind::Ellipse,
            x: mx + ox,
            y: my + oy,
            w: FIXED_ONE,
            h: FIXED_ONE,
            color,
        },
        Primitive {
            kind: ShapeKind::Ellipse,
            x: mx - ox,
            y: my - oy,
            w: FIXED_ONE,
            h: FIXED_ONE,
            color,
        },
    )
}

impl Traveler {
    /// Emits this traveler's thread toward `target` as dot primitives:
    /// `n_points` pairs, each drawn from the seeded stream in order and
    /// mirrored exactly across the midpoint between the traveler and the
    /// target.
    pub fn draw(&self, target: &Vec2, color: Color, rng: &mut SpinRng) -> (prims: Vec<Primitive>)
        requires
            traveler_wf(*self),
            vec_in_range(*target),
            self.n_points <= 1_000_000,
        ensures
            prims@.len() == 2 * self.n_points,
            final(rng)@ == rng_state_after(old(rng)@, self.n_points as nat),
            forall|k: int| 0 <= k < self.n_points ==> #[trigger] thread_pair_ok(
                prims@,
                *self,
                *target,
                old(rng)@,
                k,
                color,
            ),
    {
        let mx: i64 = div_trunc(self.position.x + target.x, 2);
        let my: i64 = div_trunc(self.position.y + target.y, 2);
        let dirx: i64 = target.x - self.position.x;
        let diry: i64 = target.y - self.position.y;
        proof {
            crate::fixed::lemma_tdiv_le_bound(
                self.position.x + target.x as int,
                2,
                COORD_LIMIT as int,
            );
            crate::fixed::lemma_tdiv_le_bound(
                self.position.y + target.y as int,
                2,
                COORD_LIMIT as int,
            );
        }
        let ghost seed = rng@;
        let mut prims: Vec<Primitive> = Vec::new();
        let mut k: u64 = 0;
        while k < self.n_points
            invariant
                k <= self.n_points <= 1_000_000,
                mx == thread_middle(*self, *target).x,
                my == thread_middle(*self, *target).y,
                dirx == thread_direction(*self, *target).x,
                diry == thread_direction(*self, *target).y,
                -COORD_LIMIT <= mx <= COORD_LIMIT,
                -COORD_LIMIT <= my <= COORD_LIMIT,
                -2 * COORD_LIMIT <= dirx <= 2 * COORD_LIMIT,
                -2 * COORD_LIMIT <= diry <= 2 * COORD_LIMIT,
                rng@ == rng_state_after(seed, k as nat),
                prims@.len() == 2 * k,
                forall|j: int| 0 <= j < k ==> #[trigger] thread_pair_ok(
                    prims@,
                    *self,
                    *target,
                    seed,
                    j,
                    color,
                ),
            decreases self.n_points - k,
        {
            let pr = thread_step(mx, my, dirx, diry, color, rng);
            let ghost before = prims@;
            prims.push(pr.0);
            prims.push(pr.1);
            proof {
                assert(rng_state_after(seed, (k + 1) as nat) == rng_next_state(
                    rng_state_after(seed, k as nat),
                ));
                assert forall|j: int| 0 <= j < k + 1 implies #[trigger] thread_pair_ok(
                    prims@,
                    *self,
                    *target,
                    seed,
                    j,
                    color,
                ) by {
                    if j < k {
                        assert(thread_pair_ok(before, *self, *target, seed, j, color));
                        assert(prims@[2 * j] == before[2 * j]);
                        assert(prims@[2 * j + 1] == before[2 * j + 1]);
                    } else {
                        assert(thread_middle(*self, *target) == (Vec2 { x: mx, y: my }));
                        assert(thread_direction(*self, *target) == (Vec2 { x: dirx, y: diry }));
                        assert(prims@[2 * j] == pr.0 && prims@[2 * j + 1] == pr.1);
                    }
                }
            }
            k = k + 1;
        }
        prims
    }
}

/// Emits a traveler's thread toward `target`, colored `color`.
pub fn draw_traveler(
    traveler: &Traveler,
    target: &Vec2,
    color: &Color,
    rng: &mut SpinRng,
) -> (prims: Vec<Primitive>)
    requires
        traveler_wf(*traveler),
        vec_in_range(*target),
        traveler.n_points <= 1_000_000,
    ensures
        prims@.len() == 2 * traveler.n_points,
        final(rng)@ == rng_state_after(old(rng)@, traveler.n_points as nat),
{
    traveler.draw(target, *color, rng)
}

} // verus!
