//! Decisions of the continuous optimization worker: what to run and what to
//! publish after each batch, and when to stop. The loop that snapshots the
//! shared state, sends the messages and reads the generation counter runs
//! outside the library.

use vstd::prelude::*;
use crate::cost::Rgb;
use crate::engine::{DrawingState, EngineModel, draw_ok};
use crate::params::DrawingParams;
use crate::stroke::PixelData;
use crate::MAX_SIDELEN;

verus! {

/// Swap attempts per batch, per canvas cell.
pub const SWAPS_PER_GENERATION_PER_PIXEL: usize = 8;

/// A message from a worker to its consumer.
#[derive(Clone, Debug)]
pub enum ProgressMsg {
    /// The full permutation after a batch that made at least one swap.
    UpdateAssignments(Vec<usize>),
    /// A renderable RGBA snapshot.
    UpdatePreview { width: u32, height: u32, rgba: Vec<u8> },
    /// The run finished; carries where its result was stored.
    Done(String),
    /// The worker saw that it was superseded and stopped.
    Cancelled,
}

#[derive(Clone, Copy, Debug, PartialEq, Eq, Structural)]
pub enum WorkerPhase {
    Running,
    Terminated,
}

/// Phase after comparing the worker's stamp with the live generation.
pub open spec fn phase_after_observe(phase: WorkerPhase, stamp: u32, current: u32) -> WorkerPhase {
    if phase == WorkerPhase::Running && stamp != current {
        WorkerPhase::Terminated
    } else {
        phase
    }
}

/// Number of cancellation notices emitted by that comparison.
pub open spec fn notices_on_observe(phase: WorkerPhase, stamp: u32, current: u32) -> nat {
    if phase == WorkerPhase::Running && stamp != current {
        1
    } else {
        0
    }
}

/// A worker: its own engine, the generation it was launched for, and its phase.
pub struct Worker {
    engine: DrawingState,
    my_id: u32,
    phase: WorkerPhase,
}

impl Worker {
    pub closed spec fn engine_view(&self) -> EngineModel {
        self.engine@
    }

    pub closed spec fn stamp(&self) -> u32 {
        self.my_id
    }

    pub closed spec fn phase(&self) -> WorkerPhase {
        self.phase
    }

    pub closed spec fn wf(&self) -> bool {
        self.engine.wf()
    }

    /// A running worker stamped with generation `my_id`.
    pub fn new(engine: DrawingState, my_id: u32) -> (r: Worker)
        requires
            engine.wf(),
        ensures
            r.wf(),
            r.engine_view() == engine@,
            r.stamp() == my_id,
            r.phase() == WorkerPhase::Running,
    {
        Worker { engine, my_id, phase: WorkerPhase::Running }
    }

    pub fn is_running(&self) -> (r: bool)
        ensures
            r == (self.phase() == WorkerPhase::Running),
    {
        match self.phase {
            WorkerPhase::Running => true,
            WorkerPhase::Terminated => false,
        }
    }

    /// The permutation the worker currently holds.
    pub fn assignments(&self) -> (r: Vec<usize>)
        requires
            self.wf(),
        ensures
            r@.len() == self.engine_view().cells(),
            forall|i: int| 0 <= i < r@.len() ==> r@[i] == #[trigger] self.engine_view().assignments()[i],
    {
        self.engine.assignments()
    }

    /// Runs one batch of `SWAPS_PER_GENERATION_PER_PIXEL` attempts per cell
    /// against a snapshot, when running. Returns the permutation as an
    /// update when a swap was made. A terminated worker does nothing.
    pub fn run_batch(
        &mut self,
        colors: &[Rgb],
        pixel_data: &[PixelData],
        frame_count: u32,
        params: &DrawingParams,
    ) -> (r: Vec<ProgressMsg>)
        requires
            old(self).wf(),
            old(self).engine_view().inputs_ok(colors@, pixel_data@, *params),
        ensures
            final(self).wf(),
            final(self).stamp() == old(self).stamp(),
            final(self).phase() == old(self).phase(),
            final(self).engine_view().cells() == old(self).engine_view().cells(),
            old(self).phase() == WorkerPhase::Terminated ==> final(self).engine_view() == old(self).engine_view()
                && r@.len() == 0,
            old(self).phase() == WorkerPhase::Running ==> exists|draws: Seq<(int, int, int)>|
                {
                    &&& draws.len() == SWAPS_PER_GENERATION_PER_PIXEL * old(self).engine_view().cells()
                    &&& forall|k: int|
                        0 <= k < draws.len() ==> draw_ok(
                            old(self).engine_view(),
                            pixel_data@,
                            frame_count,
                            *params,
                            #[trigger] draws[k],
                        )
                    &&& old(self).engine_view().batch(colors@, pixel_data@, frame_count, *params, draws).0
                        == final(self).engine_view()
                    &&& (r@.len() == 1 <==> old(self).engine_view().batch(
                        colors@,
                        pixel_data@,
                        frame_count,
                        *params,
                        draws,
                    ).1 > 0)
                },
            r@.len() <= 1,
            forall|i: int| 0 <= i < r@.len() ==> (#[trigger] r@[i] matches ProgressMsg::UpdateAssignments(v)
                && v@.len() == final(self).engine_view().cells()
                && forall|j: int| 0 <= j < v@.len() ==> v@[j] == #[trigger] final(self).engine_view().assignments()[j]),
    {
        let mut out: Vec<ProgressMsg> = Vec::new();
        if !self.is_running() {
            return out;
        }
        let cells = colors.len();
        assert(cells <= MAX_SIDELEN * MAX_SIDELEN) by (nonlinear_arith)
            requires cells == self.engine@.sidelen * self.engine@.sidelen, self.engine@.sidelen <= MAX_SIDELEN;
        let swaps = SWAPS_PER_GENERATION_PER_PIXEL * cells;
        let update = self.engine.step(colors, pixel_data, frame_count, swaps, params);
        match update {
            Some(v) => {
                out.push(ProgressMsg::UpdateAssignments(v));
            },
            None => {},
        }
        out
    }

    /// Compares the stamp with the live generation `current_id`. A running
    /// worker that was superseded emits one cancellation notice and
    /// terminates; otherwise nothing changes and nothing is emitted.
    pub fn observe_generation(&mut self, current_id: u32) -> (r: Vec<ProgressMsg>)
        ensures
            final(self).wf() == old(self).wf(),
            final(self).engine_view() == old(self).engine_view(),
            final(self).stamp() == old(self).stamp(),
            final(self).phase() == phase_after_observe(old(self).phase(), old(self).stamp(), current_id),
            r@.len() == notices_on_observe(old(self).phase(), old(self).stamp(), current_id),
            forall|i: int| 0 <= i < r@.len() ==> #[trigger] r@[i] is Cancelled,
    {
        let mut out: Vec<ProgressMsg> = Vec::new();
        if self.is_running() && self.my_id != current_id {
            self.phase = WorkerPhase::Terminated;
            out.push(ProgressMsg::Cancelled);
        }
        out
    }
}

/// Once a running worker sees a generation other than its own it emits
/// exactly one cancellation notice and terminates; from then on no
/// comparison emits anything or revives it.
pub proof fn lemma_cancellation_is_final(stamp: u32, current: u32, later: u32)
    requires
        stamp != current,
    ensures
        phase_after_observe(WorkerPhase::Running, stamp, current) == WorkerPhase::Terminated,
        notices_on_observe(WorkerPhase::Running, stamp, current) == 1,
        phase_after_observe(WorkerPhase::Terminated, stamp, later) == WorkerPhase::Terminated,
        notices_on_observe(WorkerPhase::Terminated, stamp, later) == 0,
{
}

} // verus!
