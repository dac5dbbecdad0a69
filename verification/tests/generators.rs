use nadou::config::{Color, ConfigError, SpinnerConfig, SpinnerDrawingConfig};
use nadou::fixed::Vec2;
use nadou::rng::{seed_or_fresh, SpinRng};
use nadou::spinner::Spinner;
use nadou::traveler::{apply_strategy, get_inverse_gravity, Strategy, Traveler};
use nadou::trig::{cos_fixed, sin_fixed};

fn white() -> Color {
    Color { r: 255, g: 255, b: 255 }
}

fn style() -> SpinnerDrawingConfig {
    SpinnerDrawingConfig::new(white(), 1000)
}

fn valid_config() -> SpinnerConfig {
    SpinnerConfig::new(
        Vec2 { x: 0, y: 0 },
        2000,
        1000,
        style(),
        1000,
        100_000,
        100_000,
        900_000,
    )
    .unwrap()
}

#[test]
fn spinner_runs_are_deterministic() {
    let mut rng1 = SpinRng::new(42);
    let mut rng2 = SpinRng::new(42);
    let mut sp1 = Spinner::new(valid_config(), &mut rng1);
    let mut sp2 = Spinner::new(valid_config(), &mut rng2);
    sp1.update();
    sp2.update();
    assert_eq!(sp1.state.points.len(), sp2.state.points.len());
    assert!(sp1.state.points == sp2.state.points);
    assert_eq!(sp1.state.theta_0, sp2.state.theta_0);
    assert_eq!(sp1.state.theta_1, sp2.state.theta_1);
}

#[test]
fn rng_streams_from_one_seed_agree() {
    let mut a = SpinRng::new(7);
    let mut b = SpinRng::new(7);
    for _ in 0..10 {
        assert_eq!(a.next_u64(), b.next_u64());
    }
}

#[test]
fn rng_matches_the_reference_mix() {
    let mut r = SpinRng::new(0);
    assert_eq!(r.next_u64(), 0xE220A8397B1DCDAFu64);
}

#[test]
fn density_decay_shrinks_every_frame() {
    let mut rng = SpinRng::new(5);
    let mut sp = Spinner::new(valid_config(), &mut rng);
    // With density 2.0, decay factor 1.0 and a tenth of a turn per step,
    // the first frame carries 1800 points and each later frame 200 fewer.
    let mut prev: usize = usize::MAX;
    for iteration in 0..9u64 {
        let pts = sp.compute_points(iteration);
        assert_eq!(pts.len(), (1800 - 200 * iteration) as usize);
        assert!(pts.len() <= prev);
        prev = pts.len();
    }
}

#[test]
fn finished_spiral_emits_nothing() {
    let config = SpinnerConfig::new(
        Vec2 { x: 0, y: 0 },
        1000,
        0,
        style(),
        100,
        50_000,
        100_000,
        100_000,
    )
    .unwrap();
    let mut rng = SpinRng::new(42);
    let mut sp = Spinner::new(config, &mut rng);
    let first = sp.compute_points(0);
    assert!(first.len() > 0);
    let second = sp.compute_points(1);
    assert!(second.len() > 0);
    let done = sp.compute_points(2);
    assert_eq!(done.len(), 0);
    let after = sp.compute_points(3);
    assert_eq!(after.len(), 0);
}

#[test]
fn one_step_scenario_stays_within_its_circle() {
    // center (0,0), density 1.0, no decay, 100 initial points, radius 50,
    // theta increment equal to theta max, seed 42: exactly one step of
    // exactly 100 points, each within distance 50 of the origin.
    let config = SpinnerConfig::new(
        Vec2 { x: 0, y: 0 },
        1000,
        0,
        style(),
        100,
        50_000,
        100_000,
        100_000,
    )
    .unwrap();
    let mut rng = SpinRng::new(42);
    let mut sp = Spinner::new(config, &mut rng);
    sp.update();
    assert_eq!(sp.state.points.len(), 100);
    for p in sp.state.points.iter() {
        assert!(p.x * p.x + p.y * p.y <= 50_000i64 * 50_000i64);
    }
}

#[test]
fn config_rejections_name_the_fault() {
    let c = Vec2 { x: 0, y: 0 };
    let s = style();
    assert_eq!(
        SpinnerConfig::new(c, 1000, 0, s, 100, 50_000, 0, 100_000).unwrap_err(),
        ConfigError::ThetaIncrementOutOfRange
    );
    assert_eq!(
        SpinnerConfig::new(c, 1000, 0, s, 100, 50_000, 2_000_000, 100_000).unwrap_err(),
        ConfigError::ThetaIncrementOutOfRange
    );
    assert_eq!(
        SpinnerConfig::new(c, 1000, 0, s, 100, 50_000, 100_000, 2_000_000_000).unwrap_err(),
        ConfigError::ThetaMaxOutOfRange
    );
    assert_eq!(
        SpinnerConfig::new(c, -1, 0, s, 100, 50_000, 100_000, 100_000).unwrap_err(),
        ConfigError::DensityOutOfRange
    );
    assert_eq!(
        SpinnerConfig::new(c, 1000, -2, s, 100, 50_000, 100_000, 100_000).unwrap_err(),
        ConfigError::DensityFactorOutOfRange
    );
    assert_eq!(
        SpinnerConfig::new(c, 1000, 0, s, -5, 50_000, 100_000, 100_000).unwrap_err(),
        ConfigError::InitialPointsOutOfRange
    );
    assert_eq!(
        SpinnerConfig::new(c, 1000, 0, s, 100, -1, 100_000, 100_000).unwrap_err(),
        ConfigError::RadiusOutOfRange
    );
    let far = Vec2 { x: 999_999_999, y: 0 };
    assert_eq!(
        SpinnerConfig::new(far, 1000, 0, s, 100, 50_000, 100_000, 100_000).unwrap_err(),
        ConfigError::CircleOutOfWorld
    );
    let bad_style = SpinnerDrawingConfig::new(white(), -1);
    assert_eq!(
        SpinnerConfig::new(c, 1000, 0, bad_style, 100, 50_000, 100_000, 100_000).unwrap_err(),
        ConfigError::PointWeightOutOfRange
    );
    assert!(SpinnerConfig::new(c, 1000, 0, s, 100, 50_000, 100_000, 100_000).is_ok());
}

#[test]
fn velocity_never_exceeds_the_limit() {
    let mut t = Traveler::new(
        Vec2 { x: 0, y: 0 },
        Vec2 { x: 3000, y: 0 },
        Vec2 { x: 0, y: 0 },
        10,
        3000,
        100,
    );
    for k in 0..50i64 {
        t.seek(Vec2 { x: 700_000, y: -300_000 + 10_000 * k });
        t.seek(Vec2 { x: -200_000, y: 400_000 });
        t.avoid_border(1_470_000, 1_470_000, 100_000);
        t.update();
        assert!(
            t.velocity.x * t.velocity.x + t.velocity.y * t.velocity.y <= 3000i64 * 3000i64
        );
    }
}

#[test]
fn seek_and_update_compute_exact_kinematics() {
    let mut t = Traveler::new(
        Vec2 { x: 0, y: 0 },
        Vec2 { x: 3000, y: 0 },
        Vec2 { x: 0, y: 0 },
        10,
        3000,
        100,
    );
    apply_strategy(&mut t, &Vec2 { x: 100_000, y: 0 }, Strategy::SEEK, 100);
    // Desired velocity (3000, 0) equals the current velocity along x is
    // off by nothing, so the force vanishes.
    assert_eq!(t.acceleration, Vec2 { x: 0, y: 0 });
    let mut still = Traveler::new(
        Vec2 { x: 0, y: 0 },
        Vec2 { x: 0, y: 0 },
        Vec2 { x: 0, y: 0 },
        10,
        3000,
        100,
    );
    still.seek(Vec2 { x: 100_000, y: 0 });
    assert_eq!(still.acceleration, Vec2 { x: 100, y: 0 });
    still.update();
    assert_eq!(still.velocity, Vec2 { x: 100, y: 0 });
    assert_eq!(still.position, Vec2 { x: 100, y: 0 });
    assert_eq!(still.acceleration, Vec2 { x: 0, y: 0 });
}

#[test]
fn inverse_gravity_pulls_only_from_afar() {
    let a = Vec2 { x: 0, y: 0 };
    let far = Vec2 { x: 600_000, y: 800_000 };
    let near = Vec2 { x: 100_000, y: 0 };
    assert_eq!(get_inverse_gravity(&a, &far, 10_000, 1_000_000), 1000);
    assert_eq!(get_inverse_gravity(&a, &near, 10_000, 1_000_000), 0);
    // Capped by the force limit.
    assert_eq!(get_inverse_gravity(&a, &far, 500, 1_000_000), 500);
}

#[test]
fn traveler_threads_mirror_across_the_midpoint() {
    let t = Traveler::new(
        Vec2 { x: 1000, y: 1000 },
        Vec2 { x: 0, y: 0 },
        Vec2 { x: 0, y: 0 },
        8,
        3000,
        100,
    );
    let target = Vec2 { x: 5000, y: 3000 };
    let mut rng = SpinRng::new(11);
    let prims = t.draw(&target, Color { r: 1, g: 2, b: 3 }, &mut rng);
    assert_eq!(prims.len(), 16);
    for k in 0..8usize {
        assert_eq!(prims[2 * k].x + prims[2 * k + 1].x, 6000);
        assert_eq!(prims[2 * k].y + prims[2 * k + 1].y, 4000);
        assert_eq!(prims[2 * k].color, Color { r: 1, g: 2, b: 3 });
    }
}

#[test]
fn circle_functions_hit_the_axes() {
    assert_eq!(sin_fixed(0), 0);
    assert_eq!(sin_fixed(250_000), 1000);
    assert_eq!(sin_fixed(750_000), -1000);
    assert_eq!(cos_fixed(0), 1000);
    assert_eq!(cos_fixed(500_000), -1000);
}

#[test]
fn clamping_shortens_only_long_vectors() {
    let v = Vec2 { x: 3000, y: 4000 };
    assert_eq!(nadou::fixed::clamp_length_max(v, 5000), v);
    assert_eq!(
        nadou::fixed::clamp_length_max(v, 2500),
        Vec2 { x: 1500, y: 2000 }
    );
}

#[test]
fn bezier_ends_meet_their_controls() {
    let u = Vec2 { x: 1000, y: 0 };
    let v = Vec2 { x: 0, y: 1000 };
    let b = Vec2 { x: -1000, y: 0 };
    assert_eq!(nadou::bezier::bezier_sample(u, v, b, 0), Vec2 { x: 0, y: 0 });
    assert_eq!(nadou::bezier::bezier_sample(u, v, b, 1000), b);
}

#[test]
fn supplied_seed_wins() {
    assert_eq!(seed_or_fresh(Some(9)), 9);
    let _fresh = seed_or_fresh(None);
}
