//! The lifecycle driver: per-iteration orchestration over the whole run.
//!
//! The model owns every generator, the iteration counter, the run's
//! provenance signature and the capture machine. Each iteration advances
//! every generator, assembles their emitted points into one frame with
//! each entity's own style, composites the watermark onto the final
//! frame, and walks the capture machine through render, capture and
//! submit, handing back the frame and the submitted — and only then
//! readable — snapshot. Data flows one way: generators, then scene,
//! then capture, then the platform's disk.

use vstd::prelude::*;

verus! {

use vstd::string::StringExecFns;
use crate::fixed::{Vec2, COORD_LIMIT};
use crate::trig::TURN;
use crate::rng::{SpinRng, rng_state_after, rng_next_state, rng_output};
use crate::config::{Color, SpinnerConfig, spinner_config_valid};
use crate::spinner::{Spinner, SpinnerState, spinner_wf, next_angle, frame_points};
use crate::scene::{Frame, Primitive, point_primitive, draw_signature};
use crate::signature::{Signature, build_signature, sha256_hex, dec_digits, join_with};
use crate::capture::{CapturePipeline, CapturePhase, SnapshotTicket, capture_wf};

/// A spinner freshly built as the `j`-th of a run seeded with `seed`:
/// its angles are the `2j`-th and `2j+1`-th draws of the stream, its
/// offset and point store empty.
pub open spec fn spinner_seeded(s: Spinner, c: SpinnerConfig, seed: u64, j: int) -> bool {
    &&& spinner_wf(&s)
    &&& s.config == c
    &&& s.state.theta_0 == rng_output(rng_state_after(seed, (2 * j + 1) as nat)) % TURN
    &&& s.state.theta_1 == rng_output(rng_state_after(seed, (2 * j + 2) as nat)) % TURN
    &&& s.state.theta_offset == 0
    &&& s.state.points@ == Seq::<Vec2>::empty()
}

/// What one spinner contributes to the frame of `iteration`: one step's
/// points while its sweep lasts, nothing afterwards.
pub open spec fn spinner_frame_pts(s: Spinner, iteration: u64) -> Seq<Vec2> {
    if iteration <= s.max_iterations {
        let inc = s.config.theta_increment as int;
        frame_points(
            s.config,
            next_angle(s.state.theta_0 as int, inc),
            next_angle(s.state.theta_1 as int, inc),
            next_angle(s.state.theta_offset as int, inc),
        )
    } else {
        Seq::empty()
    }
}

/// A spinner once the frame of `iteration` has been taken from it.
pub open spec fn spinner_after_frame(s: Spinner, iteration: u64) -> Spinner {
    if iteration <= s.max_iterations {
        let inc = s.config.theta_increment as int;
        Spinner {
            state: SpinnerState {
                theta_0: next_angle(s.state.theta_0 as int, inc) as u64,
                theta_1: next_angle(s.state.theta_1 as int, inc) as u64,
                theta_offset: next_angle(s.state.theta_offset as int, inc) as u64,
                points: s.state.points,
            },
            ..s
        }
    } else {
        s
    }
}

/// The primitives of one frame: every spinner's points, in spinner
/// order, each under its spinner's style.
pub open spec fn scene_of(spinners: Seq<Spinner>, iteration: u64) -> Seq<Primitive>
    decreases spinners.len(),
{
    if spinners.len() == 0 {
        Seq::empty()
    } else {
        spinner_frame_pts(spinners[0], iteration).map_values(
            |p: Vec2| point_primitive(p, spinners[0].config.drawing),
        ) + scene_of(spinners.skip(1), iteration)
    }
}

/// One more spinner appends its own primitives after the others'.
proof fn lemma_scene_push(spinners: Seq<Spinner>, s: Spinner, iteration: u64)
    ensures
        scene_of(spinners.push(s), iteration) == scene_of(spinners, iteration)
            + spinner_frame_pts(s, iteration).map_values(
            |p: Vec2| point_primitive(p, s.config.drawing),
        ),
    decreases spinners.len(),
{
    let all = spinners.push(s);
    if spinners.len() == 0 {
        assert(all.skip(1) =~= Seq::<Spinner>::empty());
        assert(all[0] == s);
        assert(scene_of(all.skip(1), iteration) == Seq::<Primitive>::empty());
        assert(spinner_frame_pts(s, iteration).map_values(
            |p: Vec2| point_primitive(p, s.config.drawing),
        ) + Seq::<Primitive>::empty() =~= spinner_frame_pts(s, iteration).map_values(
            |p: Vec2| point_primitive(p, s.config.drawing),
        ));
        assert(scene_of(all, iteration) =~= spinner_frame_pts(s, iteration).map_values(
            |p: Vec2| point_primitive(p, s.config.drawing),
        ));
        assert(scene_of(spinners, iteration) == Seq::<Primitive>::empty());
        assert(scene_of(spinners, iteration) + spinner_frame_pts(s, iteration).map_values(
            |p: Vec2| point_primitive(p, s.config.drawing),
        ) =~= spinner_frame_pts(s, iteration).map_values(
            |p: Vec2| point_primitive(p, s.config.drawing),
        ));
    } else {
        lemma_scene_push(spinners.skip(1), s, iteration);
        assert(all.skip(1) =~= spinners.skip(1).push(s));
        assert(all[0] == spinners[0]);
        assert(scene_of(spinners, iteration) + spinner_frame_pts(s, iteration).map_values(
            |p: Vec2| point_primitive(p, s.config.drawing),
        ) =~= spinner_frame_pts(spinners[0], iteration).map_values(
            |p: Vec2| point_primitive(p, spinners[0].config.drawing),
        ) + (scene_of(spinners.skip(1), iteration) + spinner_frame_pts(s, iteration).map_values(
            |p: Vec2| point_primitive(p, s.config.drawing),
        )));
    }
}

/// The run's whole state: generators, iteration counter, provenance and
/// the capture machine.
pub struct Model {
    pub spinners: Vec<Spinner>,
    pub iteration: u64,
    pub signature: Signature,
    pub pipeline: CapturePipeline,
}

/// What every iteration preserves of the model.
pub open spec fn model_wf(m: &Model) -> bool {
    &&& capture_wf(m.pipeline)
    &&& forall|i: int| 0 <= i < m.spinners@.len() ==> spinner_wf(&#[trigger] m.spinners@[i])
}

impl Model {
    /// The run's provenance signature, fixed at construction.
    pub open spec fn signature_view(&self) -> Seq<Seq<char>> {
        self.signature@
    }

    /// Builds the run: one spinner per configuration, each seeded from
    /// the run's stream in order, the signature assembled from the
    /// revision marker, the configuration bytes and the seed, and a
    /// fresh capture machine.
    pub fn new(
        configs: &Vec<SpinnerConfig>,
        seed: u64,
        revision: String,
        config_bytes: &Vec<u8>,
    ) -> (m: Model)
        requires
            forall|i: int| 0 <= i < configs@.len() ==> spinner_config_valid(
                #[trigger] configs@[i],
            ),
        ensures
            model_wf(&m),
            m.iteration == 0,
            m.pipeline == (CapturePipeline {
                phase: CapturePhase::Idle,
                staged_scene: None,
                surface_scene: None,
                issued: 0,
                completed: 0,
            }),
            m.spinners@.len() == configs@.len(),
            forall|i: int| 0 <= i < configs@.len() ==> spinner_seeded(
                #[trigger] m.spinners@[i],
                configs@[i],
                seed,
                i,
            ),
            m.signature_view() =~= seq![
                revision@,
                sha256_hex(config_bytes@),
                dec_digits(seed as nat),
            ],
    {
        let mut rng = SpinRng::new(seed);
        let mut spinners: Vec<Spinner> = Vec::new();
        let mut i: usize = 0;
        while i < configs.len()
            invariant
                i <= configs@.len(),
                forall|j: int| 0 <= j < configs@.len() ==> spinner_config_valid(
                    #[trigger] configs@[j],
                ),
                rng@ == rng_state_after(seed, (2 * i) as nat),
                spinners@.len() == i,
                forall|j: int| 0 <= j < i ==> spinner_seeded(
                    #[trigger] spinners@[j],
                    configs@[j],
                    seed,
                    j,
                ),
            decreases configs@.len() - i,
        {
            let sp = Spinner::new(configs[i], &mut rng);
            spinners.push(sp);
            proof {
                assert(rng_state_after(seed, (2 * i + 1) as nat) == rng_next_state(
                    rng_state_after(seed, (2 * i) as nat),
                ));
                assert(rng_state_after(seed, (2 * i + 2) as nat) == rng_next_state(
                    rng_state_after(seed, (2 * i + 1) as nat),
                ));
            }
            i = i + 1;
        }
        let signature = build_signature(revision, config_bytes, seed);
        Model {
            spinners,
            iteration: 0,
            signature,
            pipeline: CapturePipeline::new(),
        }
    }

    /// The run's signature.
    pub fn signature(&self) -> (r: &Signature)
        ensures
            r@ == self.signature_view(),
    {
        &self.signature
    }

    /// One iteration: advances every generator, assembles the frame —
    /// clearing to the background on the first iteration, compositing
    /// the watermark onto the last — and walks the capture machine
    /// through render, capture and submit. The snapshot handed back is
    /// submitted, so it may be read, and what it reflects is this very
    /// iteration's scene.
    pub fn update_frame(
        &mut self,
        background: Color,
        signature_color: Color,
        width: i64,
        height: i64,
        n_iterations: u64,
    ) -> (r: (Frame, SnapshotTicket))
        requires
            model_wf(old(self)),
            old(self).pipeline.phase == CapturePhase::Idle,
            old(self).pipeline.issued < u64::MAX,
            old(self).iteration < n_iterations,
            0 <= width <= COORD_LIMIT,
            0 <= height <= COORD_LIMIT,
        ensures
            model_wf(final(self)),
            final(self).iteration == old(self).iteration + 1,
            final(self).signature_view() == old(self).signature_view(),
            final(self).spinners@.len() == old(self).spinners@.len(),
            forall|i: int| 0 <= i < old(self).spinners@.len() ==> final(self).spinners@[i]
                == spinner_after_frame(#[trigger] old(self).spinners@[i], old(self).iteration),
            final(self).pipeline == (CapturePipeline {
                phase: CapturePhase::Idle,
                staged_scene: Some(old(self).iteration),
                surface_scene: Some(old(self).iteration),
                issued: (old(self).pipeline.issued + 1) as u64,
                completed: old(self).pipeline.completed,
            }),
            r.1.scene == old(self).iteration,
            r.1.submitted,
            r.0.background == if old(self).iteration == 0 {
                Some(background)
            } else {
                None::<Color>
            },
            r.0.primitives@ == scene_of(old(self).spinners@, old(self).iteration),
            r.0.texts@.len() == if old(self).iteration + 1 == n_iterations {
                2int
            } else {
                0int
            },
            old(self).iteration + 1 == n_iterations ==> r.0.texts@[0].content@ == join_with(
                old(self).signature_view(),
                " - "@,
            ),
    {
        let mut frame = Frame::new();
        if self.iteration == 0 {
            frame.background = Some(background);
        }
        let ghost spinners0 = self.spinners@;
        let it: u64 = self.iteration;
        let mut i: usize = 0;
        while i < self.spinners.len()
            invariant
                i <= spinners0.len(),
                self.iteration == it,
                self.signature == old(self).signature,
                self.pipeline == old(self).pipeline,
                self.spinners@.len() == spinners0.len(),
                forall|j: int| 0 <= j < spinners0.len() ==> spinner_wf(
                    &#[trigger] spinners0[j],
                ),
                forall|j: int| i <= j < spinners0.len() ==> #[trigger] self.spinners@[j]
                    == spinners0[j],
                forall|j: int| 0 <= j < i ==> #[trigger] self.spinners@[j]
                    == spinner_after_frame(spinners0[j], it),
                forall|j: int| 0 <= j < self.spinners@.len() ==> spinner_wf(
                    &#[trigger] self.spinners@[j],
                ),
                frame.background == if it == 0 {
                    Some(background)
                } else {
                    None::<Color>
                },
                frame.texts@.len() == 0,
                frame.primitives@ == scene_of(spinners0.take(i as int), it),
            decreases spinners0.len() - i,
        {
            let ghost before = self.spinners@[i as int];
            let pts = self.spinners[i].compute_points(it);
            proof {
                assert(self.spinners@[i as int] == spinner_after_frame(before, it));
                assert(pts@ == spinner_frame_pts(before, it));
            }
            let drawing = self.spinners[i].config.drawing;
            frame.draw_points(&pts, &drawing);
            proof {
                lemma_scene_push(spinners0.take(i as int), spinners0[i as int], it);
                assert(spinners0.take(i + 1) =~= spinners0.take(i as int).push(
                    spinners0[i as int],
                ));
            }
            i = i + 1;
        }
        proof {
            assert(spinners0.take(spinners0.len() as int) =~= spinners0);
        }
        if self.iteration + 1 == n_iterations {
            let title = self.signature.generate_title();
            draw_signature(&mut frame, width, height, title, signature_color);
        }
        self.iteration = self.iteration + 1;
        self.pipeline.build_scene(it);
        self.pipeline.render();
        let mut ticket = self.pipeline.capture();
        self.pipeline.submit(&mut ticket);
        (frame, ticket)
    }
}

/// The relative directory one capture is saved under:
/// `frames/<program>/<signature>/<iteration>`.
pub open spec fn capture_rel_path_spec(
    program: Seq<char>,
    sig_filename: Seq<char>,
    iteration: nat,
) -> Seq<char> {
    "frames/"@ + program + "/"@ + sig_filename + "/"@ + dec_digits(iteration)
}

/// Builds the relative path a capture is saved under.
pub fn capture_rel_path(program: &str, sig_filename: &str, iteration: u64) -> (r: String)
    ensures
        r@ == capture_rel_path_spec(program@, sig_filename@, iteration as nat),
{
    let mut out = String::from_str("frames/");
    out.append(program);
    out.append("/");
    out.append(sig_filename);
    out.append("/");
    let digits = crate::signature::generate_seed_hash(iteration);
    out.append(digits.as_str());
    out
}

} // verus!
