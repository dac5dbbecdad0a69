//! The render-and-capture pipeline, as a verified state machine.
//!
//! The platform owns the GPU; this machine owns the protocol. Per
//! iteration the phases run `Idle -> SceneBuilt -> Rendered ->
//! CaptureRequested -> Idle` (the last transition is the submit), and the
//! machine enforces the one ordering that matters: a snapshot's commands
//! must be flushed — submitted — before the snapshot may be read, and
//! what the read observes is then exactly the scene rendered in that same
//! submission, never a prior or blank frame. Issued and completed counts
//! model the asynchronous readbacks in flight: the driver reports each
//! finished callback (success or reported failure), and the exit barrier
//! holds exactly when every issued snapshot has been reported back.

use vstd::prelude::*;

verus! {

/// Where the machine stands within one iteration.
#[derive(Clone, Copy, PartialEq, Eq, Structural, Debug)]
pub enum CapturePhase {
    Idle,
    SceneBuilt,
    Rendered,
    CaptureRequested,
}

/// An in-flight snapshot handle: the scene it captured and whether its
/// commands have been flushed to the queue.
#[derive(Clone, Copy, PartialEq, Eq, Structural, Debug)]
pub struct SnapshotTicket {
    pub scene: u64,
    pub submitted: bool,
}

/// The capture machine: phase, what the staged and rendered surface
/// hold, and how many snapshots have been issued and reported back.
#[derive(Clone, Copy, PartialEq, Eq, Structural, Debug)]
pub struct CapturePipeline {
    pub phase: CapturePhase,
    pub staged_scene: Option<u64>,
    pub surface_scene: Option<u64>,
    pub issued: u64,
    pub completed: u64,
}

/// Never more reported back than issued, and a scene on hand in the
/// phases that need one.
pub open spec fn capture_wf(p: CapturePipeline) -> bool {
    &&& p.completed <= p.issued
    &&& (p.phase == CapturePhase::SceneBuilt ==> p.staged_scene is Some)
    &&& (p.phase == CapturePhase::Rendered ==> p.surface_scene is Some)
    &&& (p.phase == CapturePhase::CaptureRequested ==> p.surface_scene is Some)
}

impl CapturePipeline {
    /// A fresh machine: idle, empty surface, nothing in flight.
    pub fn new() -> (r: CapturePipeline)
        ensures
            capture_wf(r),
            r.phase == CapturePhase::Idle,
            r.staged_scene is None,
            r.surface_scene is None,
            r.issued == 0,
            r.completed == 0,
    {
        CapturePipeline {
            phase: CapturePhase::Idle,
            staged_scene: None,
            surface_scene: None,
            issued: 0,
            completed: 0,
        }
    }

    /// Stages the scene of this iteration for rendering.
    pub fn build_scene(&mut self, scene: u64)
        requires
            capture_wf(*old(self)),
            old(self).phase == CapturePhase::Idle,
        ensures
            capture_wf(*final(self)),
            *final(self) == (CapturePipeline {
                phase: CapturePhase::SceneBuilt,
                staged_scene: Some(scene),
                ..*old(self)
            }),
    {
        self.staged_scene = Some(scene);
        self.phase = CapturePhase::SceneBuilt;
    }

    /// Issues the render pass: the reused offscreen surface now holds
    /// exactly the staged scene.
    pub fn render(&mut self)
        requires
            capture_wf(*old(self)),
            old(self).phase == CapturePhase::SceneBuilt,
        ensures
            capture_wf(*final(self)),
            *final(self) == (CapturePipeline {
                phase: CapturePhase::Rendered,
                surface_scene: old(self).staged_scene,
                ..*old(self)
            }),
    {
        self.surface_scene = self.staged_scene;
        self.phase = CapturePhase::Rendered;
    }

    /// Requests the GPU-side copy of the just-rendered surface and hands
    /// back the snapshot at once, unsubmitted: non-blocking, and not yet
    /// readable.
    pub fn capture(&mut self) -> (t: SnapshotTicket)
        requires
            capture_wf(*old(self)),
            old(self).phase == CapturePhase::Rendered,
            old(self).issued < u64::MAX,
        ensures
            capture_wf(*final(self)),
            *final(self) == (CapturePipeline {
                phase: CapturePhase::CaptureRequested,
                issued: (old(self).issued + 1) as u64,
                ..*old(self)
            }),
            t.scene == old(self).surface_scene->0,
            !t.submitted,
    {
        self.phase = CapturePhase::CaptureRequested;
        self.issued = self.issued + 1;
        let scene: u64 = match self.surface_scene {
            Some(s) => s,
            None => 0,
        };
        SnapshotTicket { scene, submitted: false }
    }

    /// Flushes the render and capture commands to the queue; only now
    /// does the snapshot become readable, and the machine is ready for
    /// the next iteration.
    pub fn submit(&mut self, ticket: &mut SnapshotTicket)
        requires
            capture_wf(*old(self)),
            old(self).phase == CapturePhase::CaptureRequested,
            !old(ticket).submitted,
        ensures
            capture_wf(*final(self)),
            *final(self) == (CapturePipeline { phase: CapturePhase::Idle, ..*old(self) }),
            *final(ticket) == (SnapshotTicket { submitted: true, ..*old(ticket) }),
    {
        self.phase = CapturePhase::Idle;
        ticket.submitted = true;
    }

    /// Reports one finished readback callback — a written file or a
    /// reported per-frame failure.
    pub fn complete_one(&mut self)
        requires
            capture_wf(*old(self)),
            old(self).completed < old(self).issued,
        ensures
            capture_wf(*final(self)),
            *final(self) == (CapturePipeline {
                completed: (old(self).completed + 1) as u64,
                ..*old(self)
            }),
    {
        self.completed = self.completed + 1;
    }

    /// Whether the exit barrier may fall: true exactly when every issued
    /// snapshot has been reported back.
    pub fn all_done(&self) -> (r: bool)
        ensures
            r <==> self.completed == self.issued,
    {
        self.completed == self.issued
    }
}

/// Consumes a submitted snapshot and reads it back: the data observed is
/// the scene of that snapshot's own submission. An unsubmitted snapshot
/// cannot be read at all — reading before submission would observe a
/// stale or blank surface, and the precondition rules it out.
pub fn read_snapshot(ticket: SnapshotTicket) -> (scene: u64)
    requires
        ticket.submitted,
    ensures
        scene == ticket.scene,
{
    ticket.scene
}

/// The capture ordering, end to end: from an idle machine, staging a
/// scene, rendering it, capturing and submitting yields a readable
/// snapshot whose readback observes exactly that scene — never a prior
/// one and never a blank surface.
pub proof fn lemma_snapshot_reflects_submission(p: CapturePipeline, scene: u64)
    requires
        capture_wf(p),
        p.phase == CapturePhase::Idle,
        p.issued < u64::MAX,
    ensures
        ({
            let built = CapturePipeline {
                phase: CapturePhase::SceneBuilt,
                staged_scene: Some(scene),
                ..p
            };
            let rendered = CapturePipeline {
                phase: CapturePhase::Rendered,
                surface_scene: built.staged_scene,
                ..built
            };
            let ticket = SnapshotTicket { scene: rendered.surface_scene->0, submitted: true };
            ticket.scene == scene
        }),
{
}

/// Snapshots issued and not yet reported back.
pub open spec fn outstanding(p: CapturePipeline) -> int {
    p.issued - p.completed
}

/// The exit barrier is a true barrier: the machine never reports more
/// readbacks than it issued, and the barrier falls exactly when nothing
/// is outstanding — so once a drain that polls until [`CapturePipeline::all_done`]
/// returns, every issued snapshot's callback has run, and none can be
/// dropped by leaving.
pub proof fn lemma_wait_barrier(p: CapturePipeline)
    requires
        capture_wf(p),
    ensures
        outstanding(p) >= 0,
        p.completed == p.issued <==> outstanding(p) == 0,
{
}

} // verus!
