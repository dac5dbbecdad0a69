use nadou::cli::{
    cli_flags, cli_options, config_path_or_default, parse_centers, parse_fixed_bytes,
    parse_int_bytes, split_bytes, CliFlag, CliOpt, CliParamValues, Config, EnvValues, ParseError,
};
use nadou::config::Color;
use nadou::fixed::Vec2;
use nadou::scene::{draw_signature, Frame, ShapeKind};

#[test]
fn fixed_point_numerals_parse_to_thousandths() {
    assert_eq!(parse_fixed_bytes(b"12.5"), Some(12_500));
    assert_eq!(parse_fixed_bytes(b"-3.25"), Some(-3_250));
    assert_eq!(parse_fixed_bytes(b"0.1"), Some(100));
    assert_eq!(parse_fixed_bytes(b"7"), Some(7_000));
    assert_eq!(parse_fixed_bytes(b"-2"), Some(-2_000));
    assert_eq!(parse_fixed_bytes(b"1.2345"), Some(1_234));
    assert_eq!(parse_fixed_bytes(b"0.007"), Some(7));
    assert_eq!(parse_fixed_bytes(b""), None);
    assert_eq!(parse_fixed_bytes(b"-"), None);
    assert_eq!(parse_fixed_bytes(b"1."), None);
    assert_eq!(parse_fixed_bytes(b".5"), None);
    assert_eq!(parse_fixed_bytes(b"1.2.3"), None);
    assert_eq!(parse_fixed_bytes(b"abc"), None);
    assert_eq!(parse_fixed_bytes(b"1a"), None);
}

#[test]
fn integers_parse_plainly() {
    assert_eq!(parse_int_bytes(b"0"), Some(0));
    assert_eq!(parse_int_bytes(b"1470"), Some(1470));
    assert_eq!(parse_int_bytes(b"-12"), Some(-12));
    assert_eq!(parse_int_bytes(b"1.5"), None);
    assert_eq!(parse_int_bytes(b""), None);
}

#[test]
fn splitting_keeps_empty_segments() {
    let segs = split_bytes(b"a;b;;c", b';');
    assert_eq!(segs.len(), 4);
    assert_eq!(segs[0], b"a".to_vec());
    assert_eq!(segs[1], b"b".to_vec());
    assert_eq!(segs[2], b"".to_vec());
    assert_eq!(segs[3], b"c".to_vec());
    let empty = split_bytes(b"", b';');
    assert_eq!(empty.len(), 1);
    assert_eq!(empty[0], b"".to_vec());
}

#[test]
fn center_lists_parse_point_by_point() {
    let pts = parse_centers(b"1,2;3.5,-4").unwrap();
    assert_eq!(pts.len(), 2);
    assert_eq!(pts[0], Vec2 { x: 1000, y: 2000 });
    assert_eq!(pts[1], Vec2 { x: 3500, y: -4000 });
}

#[test]
fn malformed_center_entries_are_skipped_bad_coordinates_rejected() {
    // An entry without exactly two halves is tolerated and skipped.
    let pts = parse_centers(b"1,2,3;4,5").unwrap();
    assert_eq!(pts.len(), 1);
    assert_eq!(pts[0], Vec2 { x: 4000, y: 5000 });
    // A half that is no numeral rejects the whole list.
    assert_eq!(parse_centers(b"x,1"), Err(ParseError::InvalidCenter));
    assert_eq!(parse_centers(b"1,2;3,y"), Err(ParseError::InvalidCenter));
}

#[test]
fn the_environment_loads_all_or_nothing() {
    let values = EnvValues {
        centers: b"0,0;100.5,-20".to_vec(),
        density_factor: b"1.5".to_vec(),
        density_max: b"2".to_vec(),
        point_max: b"500".to_vec(),
        point_weight: b"1.5".to_vec(),
        theta_max: b"6.28".to_vec(),
        theta_step: b"0.01".to_vec(),
        win_size: b"1470".to_vec(),
    };
    let c = Config::load_env_values(&values).unwrap();
    assert_eq!(c.centers.len(), 2);
    assert_eq!(c.centers[1], Vec2 { x: 100_500, y: -20_000 });
    assert_eq!(c.density_factor, 1500);
    assert_eq!(c.density_max, 2000);
    assert_eq!(c.point_max, 500);
    assert_eq!(c.point_weight, 1500);
    assert_eq!(c.theta_max, 6280);
    assert_eq!(c.theta_step, 10);
    assert_eq!(c.win_size, 1470);

    let mut bad = EnvValues {
        centers: b"0,0".to_vec(),
        density_factor: b"oops".to_vec(),
        density_max: b"2".to_vec(),
        point_max: b"500".to_vec(),
        point_weight: b"1.5".to_vec(),
        theta_max: b"6.28".to_vec(),
        theta_step: b"0.01".to_vec(),
        win_size: b"1470".to_vec(),
    };
    assert!(matches!(
        Config::load_env_values(&bad),
        Err(ParseError::InvalidNumber)
    ));
    bad.density_factor = b"1".to_vec();
    bad.centers = b"a,b".to_vec();
    assert!(matches!(
        Config::load_env_values(&bad),
        Err(ParseError::InvalidCenter)
    ));
}

#[test]
fn cli_overrides_apply_fully_or_not_at_all() {
    let values = EnvValues {
        centers: b"0,0".to_vec(),
        density_factor: b"1".to_vec(),
        density_max: b"2".to_vec(),
        point_max: b"500".to_vec(),
        point_weight: b"1".to_vec(),
        theta_max: b"6".to_vec(),
        theta_step: b"0.1".to_vec(),
        win_size: b"1470".to_vec(),
    };
    let mut c = Config::load_env_values(&values).unwrap();
    let params = CliParamValues {
        centers: Some(b"5,5;6,-6".to_vec()),
        density_factor: Some(b"2.5".to_vec()),
        density_max: None,
        point_max: None,
        point_weight: None,
        theta_max: None,
        theta_step: Some(b"0.2".to_vec()),
        win_size: Some(b"735".to_vec()),
    };
    c.update_with_cli_params(&params).unwrap();
    assert_eq!(c.centers.len(), 2);
    assert_eq!(c.centers[0], Vec2 { x: 5000, y: 5000 });
    assert_eq!(c.density_factor, 2500);
    assert_eq!(c.density_max, 2000);
    assert_eq!(c.theta_step, 200);
    assert_eq!(c.win_size, 735);

    let before_density = c.density_factor;
    let bad = CliParamValues {
        centers: None,
        density_factor: Some(b"not-a-number".to_vec()),
        density_max: None,
        point_max: None,
        point_weight: None,
        theta_max: None,
        theta_step: None,
        win_size: None,
    };
    assert_eq!(
        c.update_with_cli_params(&bad),
        Err(ParseError::InvalidNumber)
    );
    assert_eq!(c.density_factor, before_density);
    assert_eq!(c.win_size, 735);
}

#[test]
fn the_option_table_matches_the_surface() {
    let opts = cli_options();
    assert_eq!(opts.len(), 9);
    assert_eq!(opts[1].long_name, "centers");
    assert_eq!(opts[1].short_name, "c");
    assert_eq!(opts[1].evar_name, "CENTERS");
    assert_eq!(opts[8].long_name, "size");
    let flags = cli_flags();
    assert_eq!(flags.len(), 1);
    assert_eq!(flags[0].long_name, "help");
    let o = CliOpt::new("x", "example", "desc", "PLACE", "EVAR");
    assert_eq!(o.placeholder, "PLACE");
    let f = CliFlag::new("h", "help", "display this message");
    assert_eq!(f.short_name, "h");
}

#[test]
fn the_configuration_path_falls_back_to_the_default() {
    assert_eq!(
        config_path_or_default(Some("mine.toml".to_string())),
        "mine.toml"
    );
    assert_eq!(
        config_path_or_default(None),
        "configs/spinners/default.toml"
    );
}

#[test]
fn the_watermark_band_lays_out_exactly() {
    let mut frame = Frame::new();
    frame.draw_points(
        &vec![Vec2 { x: 1, y: 2 }, Vec2 { x: 3, y: 4 }],
        &nadou::config::SpinnerDrawingConfig::new(Color { r: 9, g: 9, b: 9 }, 777),
    );
    assert_eq!(frame.primitives.len(), 2);
    assert_eq!(frame.primitives[0].x, 1);
    assert_eq!(frame.primitives[0].w, 777);
    assert_eq!(frame.primitives[1].kind, ShapeKind::Ellipse);

    draw_signature(
        &mut frame,
        1_000_000,
        1_000_000,
        "the title".to_string(),
        Color { r: 5, g: 5, b: 5 },
    );
    assert_eq!(frame.texts.len(), 2);
    let title = &frame.texts[0];
    assert_eq!(title.content, "the title");
    assert_eq!(title.x, 0);
    assert_eq!(title.y, -450_000);
    assert_eq!(title.w, 500_000);
    assert_eq!(title.h, 25_000);
    assert_eq!(title.font_size, 6_250);
    let brand = &frame.texts[1];
    assert_eq!(brand.content, "Nadou");
    assert_eq!(brand.x, 450_000);
    assert_eq!(brand.y, -475_000);
    assert_eq!(brand.w, 100_000);
    assert_eq!(brand.h, 25_000);
    assert_eq!(brand.font_size, 8_333);
}
