use nadou::capture::{read_snapshot, CapturePhase, CapturePipeline};
use nadou::config::{Color, SpinnerConfig, SpinnerDrawingConfig};
use nadou::fixed::Vec2;
use nadou::model::Model;

fn one_config() -> SpinnerConfig {
    SpinnerConfig::new(
        Vec2 { x: 0, y: 0 },
        1000,
        0,
        SpinnerDrawingConfig::new(Color { r: 10, g: 20, b: 30 }, 1000),
        100,
        50_000,
        100_000,
        300_000,
    )
    .unwrap()
}

#[test]
fn a_submitted_snapshot_reflects_its_own_scene() {
    let mut p = CapturePipeline::new();
    p.build_scene(41);
    p.render();
    let mut first = p.capture();
    p.submit(&mut first);
    p.build_scene(42);
    p.render();
    let mut second = p.capture();
    p.submit(&mut second);
    // Each readback observes the scene of its own submission, whatever
    // was rendered since.
    assert_eq!(read_snapshot(first), 41);
    assert_eq!(read_snapshot(second), 42);
}

#[test]
fn the_barrier_counts_every_issued_snapshot() {
    let mut p = CapturePipeline::new();
    for scene in 0..50u64 {
        p.build_scene(scene);
        p.render();
        let mut t = p.capture();
        p.submit(&mut t);
    }
    assert!(!p.all_done());
    for k in 0..50u64 {
        assert!(!p.all_done());
        let _completed_so_far = k;
        p.complete_one();
    }
    assert!(p.all_done());
    assert_eq!(p.issued, 50);
    assert_eq!(p.completed, 50);
}

#[test]
fn a_fresh_pipeline_is_already_drained() {
    let p = CapturePipeline::new();
    assert!(p.all_done());
    assert_eq!(p.phase, CapturePhase::Idle);
}

#[test]
fn one_iteration_walks_the_whole_machine() {
    let configs = vec![one_config()];
    let bytes: Vec<u8> = b"configuration".to_vec();
    let mut m = Model::new(&configs, 42, "rev".to_string(), &bytes);
    assert_eq!(m.iteration, 0);
    assert_eq!(m.spinners.len(), 1);
    let (frame, ticket) = m.update_frame(
        Color { r: 0, g: 0, b: 0 },
        Color { r: 200, g: 200, b: 200 },
        1_000_000,
        1_000_000,
        3,
    );
    assert_eq!(m.iteration, 1);
    assert!(ticket.submitted);
    assert_eq!(read_snapshot(ticket), 0);
    assert_eq!(frame.background, Some(Color { r: 0, g: 0, b: 0 }));
    assert_eq!(frame.primitives.len(), 100);
    // The known-color marker of the scene is present in what was captured.
    assert_eq!(frame.primitives[0].color, Color { r: 10, g: 20, b: 30 });
    assert_eq!(frame.texts.len(), 0);
    assert!(!m.pipeline.all_done());
    m.pipeline.complete_one();
    assert!(m.pipeline.all_done());
}

#[test]
fn the_last_frame_carries_the_watermark() {
    let configs = vec![one_config()];
    let bytes: Vec<u8> = b"configuration".to_vec();
    let mut m = Model::new(&configs, 42, "rev".to_string(), &bytes);
    let title = m.signature().generate_title();
    let (f0, _t0) = m.update_frame(
        Color { r: 0, g: 0, b: 0 },
        Color { r: 200, g: 200, b: 200 },
        1_000_000,
        1_000_000,
        2,
    );
    assert_eq!(f0.texts.len(), 0);
    assert_eq!(f0.background, Some(Color { r: 0, g: 0, b: 0 }));
    let (f1, t1) = m.update_frame(
        Color { r: 0, g: 0, b: 0 },
        Color { r: 200, g: 200, b: 200 },
        1_000_000,
        1_000_000,
        2,
    );
    assert_eq!(f1.background, None);
    assert_eq!(f1.texts.len(), 2);
    assert_eq!(f1.texts[0].content, title);
    assert_eq!(f1.texts[1].content, "Nadou");
    assert_eq!(read_snapshot(t1), 1);
    assert_eq!(m.pipeline.issued, 2);
}

#[test]
fn model_runs_are_deterministic() {
    let configs = vec![one_config(), one_config()];
    let bytes: Vec<u8> = b"c".to_vec();
    let mut m1 = Model::new(&configs, 7, "r".to_string(), &bytes);
    let mut m2 = Model::new(&configs, 7, "r".to_string(), &bytes);
    for _ in 0..3 {
        let (f1, _) = m1.update_frame(
            Color { r: 0, g: 0, b: 0 },
            Color { r: 1, g: 1, b: 1 },
            1_000_000,
            1_000_000,
            10,
        );
        let (f2, _) = m2.update_frame(
            Color { r: 0, g: 0, b: 0 },
            Color { r: 1, g: 1, b: 1 },
            1_000_000,
            1_000_000,
            10,
        );
        assert!(f1.primitives == f2.primitives);
    }
}
