use nadou::model::capture_rel_path;
use nadou::signature::{build_signature, generate_git_hash, generate_seed_hash, Signature};

#[test]
fn filename_joins_with_underscores() {
    let sig = Signature::new(vec![
        "abc".to_string(),
        "def".to_string(),
        "123".to_string(),
    ]);
    assert_eq!(sig.generate_filename(), "abc_def_123");
}

#[test]
fn title_joins_with_spaced_dashes() {
    let sig = Signature::new(vec![
        "abc".to_string(),
        "def".to_string(),
        "123".to_string(),
    ]);
    assert_eq!(sig.generate_title(), "abc - def - 123");
}

#[test]
fn empty_and_single_signatures_join_plainly() {
    let none = Signature::new(vec![]);
    assert_eq!(none.generate_filename(), "");
    assert_eq!(none.generate_title(), "");
    let one = Signature::new(vec!["solo".to_string()]);
    assert_eq!(one.generate_filename(), "solo");
    assert_eq!(one.generate_title(), "solo");
}

#[test]
fn changing_the_seed_changes_only_the_third_component() {
    let a = Signature::new(vec![
        "rev".to_string(),
        "cfg".to_string(),
        generate_seed_hash(42),
    ]);
    let b = Signature::new(vec![
        "rev".to_string(),
        "cfg".to_string(),
        generate_seed_hash(43),
    ]);
    let fa = a.generate_filename();
    let fb = b.generate_filename();
    assert_eq!(fa, "rev_cfg_42");
    assert_eq!(fb, "rev_cfg_43");
    assert_eq!(&fa[..8], &fb[..8]);
    assert_eq!(&fa[8..], "42");
    assert_eq!(&fb[8..], "43");
    let ta = a.generate_title();
    let tb = b.generate_title();
    assert_eq!(ta, "rev - cfg - 42");
    assert_eq!(tb, "rev - cfg - 43");
}

#[test]
fn seed_hash_is_plain_decimal() {
    assert_eq!(generate_seed_hash(0), "0");
    assert_eq!(generate_seed_hash(7), "7");
    assert_eq!(generate_seed_hash(10), "10");
    assert_eq!(generate_seed_hash(90125), "90125");
    assert_eq!(
        generate_seed_hash(18446744073709551615),
        "18446744073709551615"
    );
}

#[test]
fn signature_carries_the_digest_of_the_bytes() {
    let bytes: Vec<u8> = b"hello".to_vec();
    let sig = build_signature("rev".to_string(), &bytes, 7);
    assert_eq!(
        sig.generate_filename(),
        "rev_2cf24dba5fb0a30e26e83b2ac5b9e29e1b161e5c1fa7425e73043362938b9824_7"
    );
}

#[test]
fn revision_marker_is_best_effort() {
    let h = generate_git_hash();
    assert!(h.len() == 0 || h.len() == 7);
}

#[test]
fn capture_paths_are_iteration_indexed() {
    assert_eq!(
        capture_rel_path("spinners", "abc_def_42", 7),
        "frames/spinners/abc_def_42/7"
    );
    assert_eq!(
        capture_rel_path("travelers", "x", 120),
        "frames/travelers/x/120"
    );
}
