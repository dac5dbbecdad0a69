//! Spinner configuration: colors, draw styles, the validated generator
//! parameters, the defaults, and the per-spinner overrides that fall back
//! onto them.
//!
//! A malformed configuration is rejected when it is built, never during
//! stepping: a zero angular increment, a negative density or a circle that
//! leaves the world range can therefore not reach a generator.

use vstd::prelude::*;

verus! {

use vstd::arithmetic::div_mod::{lemma_div_is_ordered, lemma_div_multiples_vanish};
use crate::fixed::{FIXED_ONE, COORD_LIMIT, Vec2, vec_in_range};
use crate::trig::TURN;

/// An 8-bit RGB color.
#[derive(Clone, Copy, PartialEq, Eq, Structural, Debug)]
pub struct Color {
    pub r: u8,
    pub g: u8,
    pub b: u8,
}

/// How a spinner's points are drawn.
#[derive(Clone, Copy, PartialEq, Eq, Structural, Debug)]
pub struct SpinnerDrawingConfig {
    pub color: Color,
    pub point_weight: i64,
}

impl SpinnerDrawingConfig {
    pub fn new(color: Color, point_weight: i64) -> (r: SpinnerDrawingConfig)
        ensures
            r.color == color,
            r.point_weight == point_weight,
    {
        SpinnerDrawingConfig { color, point_weight }
    }
}

/// Largest density, in fixed-point units.
pub const DENSITY_LIMIT: i64 = 100_000;

/// Largest density decay factor, in fixed-point units.
pub const FACTOR_LIMIT: i64 = 100_000;

/// Largest point budget per step.
pub const POINTS_LIMIT: i64 = 100_000;

/// Largest angular sweep, in angle units.
pub const THETA_MAX_LIMIT: u64 = 1_000_000_000;

/// Why a configuration was rejected.
#[derive(Clone, Copy, PartialEq, Eq, Structural, Debug)]
pub enum ConfigError {
    ThetaIncrementOutOfRange,
    ThetaMaxOutOfRange,
    DensityOutOfRange,
    DensityFactorOutOfRange,
    InitialPointsOutOfRange,
    RadiusOutOfRange,
    CircleOutOfWorld,
    PointWeightOutOfRange,
}

impl ConfigError {
    /// A short account of the rejection, for reporting at the edge.
    pub fn describe(&self) -> (r: &'static str)
    {
        match self {
            ConfigError::ThetaIncrementOutOfRange => "theta increment must be positive and at most one turn",
            ConfigError::ThetaMaxOutOfRange => "theta max is out of range",
            ConfigError::DensityOutOfRange => "density is out of range",
            ConfigError::DensityFactorOutOfRange => "density factor is out of range",
            ConfigError::InitialPointsOutOfRange => "initial point count is out of range",
            ConfigError::RadiusOutOfRange => "radius is out of range",
            ConfigError::CircleOutOfWorld => "center and radius leave the world range",
            ConfigError::PointWeightOutOfRange => "point weight is out of range",
        }
    }
}

/// The validated parameters of one spinner.
#[derive(Clone, Copy, PartialEq, Eq, Structural, Debug)]
pub struct SpinnerConfig {
    pub center: Vec2,
    pub density: i64,
    pub density_factor: i64,
    pub drawing: SpinnerDrawingConfig,
    pub initial_points: i64,
    pub radius: i64,
    pub theta_increment: u64,
    pub theta_max: u64,
}

/// What the constructor establishes and every generator step relies on.
pub open spec fn spinner_config_valid(c: SpinnerConfig) -> bool {
    &&& 0 < c.theta_increment <= TURN
    &&& c.theta_max <= THETA_MAX_LIMIT
    &&& 0 <= c.density <= DENSITY_LIMIT
    &&& 0 <= c.density_factor <= FACTOR_LIMIT
    &&& 0 <= c.initial_points <= POINTS_LIMIT
    &&& 0 <= c.radius <= COORD_LIMIT
    &&& vec_in_range(c.center)
    &&& -COORD_LIMIT <= c.center.x - c.radius
    &&& c.center.x + c.radius <= COORD_LIMIT
    &&& -COORD_LIMIT <= c.center.y - c.radius
    &&& c.center.y + c.radius <= COORD_LIMIT
    &&& 0 <= c.drawing.point_weight <= COORD_LIMIT
}

impl SpinnerConfig {
    /// Builds a spinner configuration, rejecting malformed parameters
    /// up front: exactly the valid configurations are accepted, and each
    /// rejection names the first parameter at fault.
    pub fn new(
        center: Vec2,
        density: i64,
        density_factor: i64,
        drawing: SpinnerDrawingConfig,
        initial_points: i64,
        radius: i64,
        theta_increment: u64,
        theta_max: u64,
    ) -> (r: Result<SpinnerConfig, ConfigError>)
        ensures
            ({
                let c = SpinnerConfig {
                    center,
                    density,
                    density_factor,
                    drawing,
                    initial_points,
                    radius,
                    theta_increment,
                    theta_max,
                };
                &&& r is Ok <==> spinner_config_valid(c)
                &&& r is Ok ==> r->Ok_0 == c
                &&& r == Err::<SpinnerConfig, ConfigError>(ConfigError::ThetaIncrementOutOfRange)
                    <==> !(0 < theta_increment <= TURN)
                &&& r == Err::<SpinnerConfig, ConfigError>(ConfigError::ThetaMaxOutOfRange) <==> (0
                    < theta_increment <= TURN && theta_max > THETA_MAX_LIMIT)
            }),
    {
        if theta_increment == 0 || theta_increment > TURN {
            Err(ConfigError::ThetaIncrementOutOfRange)
        } else if theta_max > THETA_MAX_LIMIT {
            Err(ConfigError::ThetaMaxOutOfRange)
        } else if density < 0 || density > DENSITY_LIMIT {
            Err(ConfigError::DensityOutOfRange)
        } else if density_factor < 0 || density_factor > FACTOR_LIMIT {
            Err(ConfigError::DensityFactorOutOfRange)
        } else if initial_points < 0 || initial_points > POINTS_LIMIT {
            Err(ConfigError::InitialPointsOutOfRange)
        } else if radius < 0 || radius > COORD_LIMIT {
            Err(ConfigError::RadiusOutOfRange)
        } else if center.x < -COORD_LIMIT || center.x > COORD_LIMIT || center.y < -COORD_LIMIT
            || center.y > COORD_LIMIT || center.x - radius < -COORD_LIMIT || center.x + radius
            > COORD_LIMIT || center.y - radius < -COORD_LIMIT || center.y + radius > COORD_LIMIT {
            Err(ConfigError::CircleOutOfWorld)
        } else if drawing.point_weight < 0 || drawing.point_weight > COORD_LIMIT {
            Err(ConfigError::PointWeightOutOfRange)
        } else {
            Ok(
                SpinnerConfig {
                    center,
                    density,
                    density_factor,
                    drawing,
                    initial_points,
                    radius,
                    theta_increment,
                    theta_max,
                },
            )
        }
    }
}

/// The fallback parameters a partial configuration completes itself with.
#[derive(Clone, Copy, PartialEq, Eq, Structural, Debug)]
pub struct SpinnerDefaultConfig {
    pub density: i64,
    pub density_factor: i64,
    pub drawing: SpinnerDrawingConfig,
    pub initial_points: i64,
    pub radius: i64,
    pub theta_increment: u64,
    pub theta_max: u64,
}

/// One spinner's own parameters; whatever is absent falls back to the
/// defaults.
#[derive(Clone, Copy, PartialEq, Eq, Structural, Debug)]
pub struct SpinnerPartialConfig {
    pub center: Vec2,
    pub density: Option<i64>,
    pub density_factor: Option<i64>,
    pub drawing: Option<SpinnerDrawingConfig>,
    pub initial_points: Option<i64>,
    pub radius: Option<i64>,
    pub theta_increment: Option<u64>,
    pub theta_max: Option<u64>,
}

/// What a partial configuration resolves to over given defaults.
pub open spec fn merged_config(
    partial: SpinnerPartialConfig,
    defaults: SpinnerDefaultConfig,
) -> SpinnerConfig {
    SpinnerConfig {
        center: partial.center,
        density: if partial.density is Some {
            partial.density->0
        } else {
            defaults.density
        },
        density_factor: if partial.density_factor is Some {
            partial.density_factor->0
        } else {
            defaults.density_factor
        },
        drawing: if partial.drawing is Some {
            partial.drawing->0
        } else {
            defaults.drawing
        },
        initial_points: if partial.initial_points is Some {
            partial.initial_points->0
        } else {
            defaults.initial_points
        },
        radius: if partial.radius is Some {
            partial.radius->0
        } else {
            defaults.radius
        },
        theta_increment: if partial.theta_increment is Some {
            partial.theta_increment->0
        } else {
            defaults.theta_increment
        },
        theta_max: if partial.theta_max is Some {
            partial.theta_max->0
        } else {
            defaults.theta_max
        },
    }
}

/// Resolves a partial configuration over the defaults, then validates it
/// as [`SpinnerConfig::new`] does.
pub fn resolve_config(
    partial: &SpinnerPartialConfig,
    defaults: &SpinnerDefaultConfig,
) -> (r: Result<SpinnerConfig, ConfigError>)
    ensures
        r is Ok <==> spinner_config_valid(merged_config(*partial, *defaults)),
        r is Ok ==> r->Ok_0 == merged_config(*partial, *defaults),
{
    let density: i64 = match partial.density {
        Some(d) => d,
        None => defaults.density,
    };
    let density_factor: i64 = match partial.density_factor {
        Some(d) => d,
        None => defaults.density_factor,
    };
    let drawing: SpinnerDrawingConfig = match partial.drawing {
        Some(d) => d,
        None => defaults.drawing,
    };
    let initial_points: i64 = match partial.initial_points {
        Some(d) => d,
        None => defaults.initial_points,
    };
    let radius: i64 = match partial.radius {
        Some(d) => d,
        None => defaults.radius,
    };
    let theta_increment: u64 = match partial.theta_increment {
        Some(d) => d,
        None => defaults.theta_increment,
    };
    let theta_max: u64 = match partial.theta_max {
        Some(d) => d,
        None => defaults.theta_max,
    };
    SpinnerConfig::new(
        partial.center,
        density,
        density_factor,
        drawing,
        initial_points,
        radius,
        theta_increment,
        theta_max,
    )
}

/// The scale the density formula divides by: one fixed-point unit over a
/// whole turn of angular offset.
pub const DENSITY_DENOM: i64 = 1_000_000_000;

/// The point density once the cumulative angular offset has reached
/// `offset`: the configured density decayed linearly by
/// `density_factor * offset` over a full turn, never re-normalized.
pub open spec fn density_at(density: int, density_factor: int, offset: int) -> int {
    (density * (DENSITY_DENOM - density_factor * offset)) / (DENSITY_DENOM as int)
}

/// How many points a step emits at cumulative offset `offset`: the
/// initial budget scaled by the decayed density, clamped to zero from
/// below once the density has decayed past nothing.
pub open spec fn point_count(c: SpinnerConfig, offset: int) -> int {
    let d = density_at(c.density as int, c.density_factor as int, offset);
    if d <= 0 {
        0
    } else {
        (c.initial_points * d) / (FIXED_ONE as int)
    }
}

/// The density never decays upward: for a nonnegative density and decay
/// factor it is monotonically non-increasing in the offset, and at offset
/// zero it is exactly the configured density.
pub proof fn lemma_density_monotone(density: int, density_factor: int, o1: int, o2: int)
    requires
        0 <= density,
        0 <= density_factor,
        0 <= o1 <= o2,
    ensures
        density_at(density, density_factor, o2) <= density_at(density, density_factor, o1),
        density_at(density, density_factor, 0) == density,
{
    let k = DENSITY_DENOM as int;
    assert(density * (k - density_factor * o2) <= density * (k - density_factor * o1))
        by (nonlinear_arith)
        requires 0 <= density && 0 <= density_factor && 0 <= o1 <= o2;
    lemma_div_is_ordered(
        density * (k - density_factor * o2),
        density * (k - density_factor * o1),
        k,
    );
    assert(density * (k - density_factor * 0) == k * density) by (nonlinear_arith);
    lemma_div_multiples_vanish(density, k);
}

/// The point budget is never negative, and never exceeds what the full
/// density would give.
pub proof fn lemma_point_count_bounds(c: SpinnerConfig, offset: int)
    requires
        spinner_config_valid(c),
        offset >= 0,
    ensures
        0 <= point_count(c, offset) <= 10_000_000,
{
    let k = DENSITY_DENOM as int;
    let d = density_at(c.density as int, c.density_factor as int, offset);
    if d <= 0 {
    } else {
        assert(c.density * (k - c.density_factor * offset) <= c.density * k) by (nonlinear_arith)
            requires 0 <= c.density && 0 <= c.density_factor && offset >= 0;
        lemma_div_is_ordered(c.density * (k - c.density_factor * offset), c.density * k, k);
        lemma_div_multiples_vanish(c.density as int, k);
        assert(c.density * k == k * c.density) by (nonlinear_arith);
        assert(d <= c.density);
        assert(c.initial_points * d <= POINTS_LIMIT * DENSITY_LIMIT) by (nonlinear_arith)
            requires 0 <= c.initial_points <= POINTS_LIMIT && 0 < d <= DENSITY_LIMIT;
        assert(c.initial_points * d >= 0) by (nonlinear_arith)
            requires c.initial_points >= 0 && d > 0;
        lemma_div_is_ordered(0, c.initial_points * d, FIXED_ONE as int);
        lemma_div_is_ordered(
            c.initial_points * d,
            POINTS_LIMIT * DENSITY_LIMIT,
            FIXED_ONE as int,
        );
    }
}

} // verus!
