//! Matches delayed decoder outputs with the batches that they came from.

use crate::clock::Instant;
use crate::media::compositor::{CompositorModel, SliceCompositor};
use crate::media::errors::PipelineError;
use crate::media::queue::AVC_RECEIVE_QUEUE_CAPACITY;
use crate::media::{AvcFrameTiming, DecodedFrame, DecodedOutput, DecodedSlice, FrameModel};
use crate::media::compositor;
use std::collections::HashMap;
use vstd::prelude::*;

verus! {

broadcast use vstd::std_specs::hash::group_hash_axioms;

/// When the batch of a frame passed the network stations.
#[derive(Debug, Clone, Copy)]
pub struct PendingFrameTiming {
    pub first_packet_received_at: Instant,
    pub first_access_unit_completed_at: Instant,
    pub batch_released_at: Instant,
}

/// A batch that waits for its decoder outputs.
#[derive(Debug, Clone, Copy)]
pub struct PendingDecodeBatch {
    pub expected_outputs: usize,
    pub timing: PendingFrameTiming,
}

/// The batches that may wait for the decoder at once.
pub const MAX_PENDING_BATCHES: usize = 64;

/// What a `DecoderOutputAssembler` holds.
pub struct AssemblerModel {
    pub compositor: CompositorModel,
    pub pending: Map<u32, PendingDecodeBatch>,
    pub active_timestamp: Option<u32>,
    pub active_outputs: nat,
    pub negotiated: Option<(u32, u32)>,
}

/// The error of a batch that cannot be registered, if any.
pub open spec fn registration_error(
    state: AssemblerModel,
    timestamp: u32,
    expected_outputs: usize,
) -> Option<PipelineError> {
    if expected_outputs == 0 {
        Some(PipelineError::EmptyBatch { timestamp })
    } else if state.pending.len() >= MAX_PENDING_BATCHES {
        Some(PipelineError::TooManyBatches)
    } else if state.pending.contains_key(timestamp) {
        Some(PipelineError::DuplicateBatch { timestamp })
    } else {
        None
    }
}

/// The state after a batch was registered. A batch with the timestamp of a
/// waiting one takes its place, though it is refused.
pub open spec fn registered(
    state: AssemblerModel,
    timestamp: u32,
    batch: PendingDecodeBatch,
) -> AssemblerModel {
    if batch.expected_outputs == 0 || state.pending.len() >= MAX_PENDING_BATCHES {
        state
    } else {
        AssemblerModel { pending: state.pending.insert(timestamp, batch), ..state }
    }
}

/// What one decoder output comes to.
pub enum Step {
    /// The batch needs more outputs.
    Waiting,
    Frame(FrameModel),
    Failed(PipelineError),
}

/// The state with the output counted in: its batch is the active one and its
/// slice is with the compositor.
pub open spec fn counted(state: AssemblerModel, output: DecodedOutput) -> AssemblerModel {
    AssemblerModel {
        active_timestamp: Some(output.timestamp),
        active_outputs: state.active_outputs + 1,
        compositor: compositor::slice_pushed(
            state.compositor,
            output.stream_index,
            output.encoded_bytes,
            output.frame,
        ),
        ..state
    }
}

/// What is wrong with an output before its slice is looked at, if anything.
pub open spec fn output_error(state: AssemblerModel, output: DecodedOutput) -> Option<
    PipelineError,
> {
    if output.conversion_error is Some {
        Some(PipelineError::Conversion(output.conversion_error->0))
    } else if output.status != 0 {
        Some(PipelineError::DecodeStatus { status: output.status, flags: output.info_flags })
    } else if !state.pending.contains_key(output.timestamp) {
        Some(PipelineError::UnknownTimestamp { timestamp: output.timestamp })
    } else {
        match state.active_timestamp {
            Some(previous) => if previous != output.timestamp {
                Some(
                    PipelineError::TimestampChanged {
                        previous,
                        outputs: state.active_outputs as usize,
                        expected: if state.pending.contains_key(previous) {
                            state.pending[previous].expected_outputs
                        } else {
                            0
                        },
                        actual: output.timestamp,
                    },
                )
            } else {
                None
            },
            None => None,
        }
    }
}

/// `frame` with the times of its batch and the moment of decoding.
pub open spec fn timed(
    frame: FrameModel,
    timing: PendingFrameTiming,
    decoded_at: Instant,
    negotiated: Option<(u32, u32)>,
) -> FrameModel {
    FrameModel {
        timing: Some(
            AvcFrameTiming {
                first_packet_received_at: timing.first_packet_received_at,
                first_access_unit_completed_at: timing.first_access_unit_completed_at,
                batch_released_at: timing.batch_released_at,
                decoded_at,
                negotiated_dimensions: negotiated,
            },
        ),
        ..frame
    }
}

/// What `output` comes to in `state`, and the state after it.
pub open spec fn step(state: AssemblerModel, output: DecodedOutput, now: Instant) -> (
    AssemblerModel,
    Step,
) {
    match output_error(state, output) {
        Some(error) => (state, Step::Failed(error)),
        None => if output.frame is Some && output.stream_index
            >= compositor::AVC_VIDEO_SLICE_COUNT {
            (
                AssemblerModel { active_timestamp: Some(output.timestamp), ..state },
                Step::Failed(PipelineError::SliceIndex { index: output.stream_index }),
            )
        } else {
            let next = counted(state, output);
            let batch = state.pending[output.timestamp];
            if next.active_outputs > batch.expected_outputs {
                (
                    next,
                    Step::Failed(
                        PipelineError::TooManyOutputs {
                            timestamp: output.timestamp,
                            outputs: next.active_outputs as usize,
                            expected: batch.expected_outputs,
                        },
                    ),
                )
            } else if next.active_outputs < batch.expected_outputs {
                (next, Step::Waiting)
            } else {
                let closed = AssemblerModel {
                    compositor: compositor::finished_state(next.compositor),
                    ..next
                };
                match compositor::finish_outcome(next.compositor) {
                    compositor::Finished::Failed(error) => (closed, Step::Failed(error)),
                    compositor::Finished::Frame(frame) => (
                        AssemblerModel {
                            pending: state.pending.remove(output.timestamp),
                            active_timestamp: None,
                            active_outputs: 0,
                            ..closed
                        },
                        Step::Frame(timed(frame, batch.timing, now, state.negotiated)),
                    ),
                    _ => (
                        closed,
                        Step::Failed(
                            PipelineError::NothingToShow { timestamp: output.timestamp },
                        ),
                    ),
                }
            }
        },
    }
}

/// What a run of outputs comes to.
pub enum Run {
    Frames(Seq<FrameModel>),
    Failed(PipelineError),
}

/// What the first `count` of `outputs` come to in `state`, and the state after
/// them. The first failure ends the run.
pub open spec fn run(
    state: AssemblerModel,
    outputs: Seq<DecodedOutput>,
    count: nat,
    now: Instant,
) -> (AssemblerModel, Run)
    decreases count,
{
    if count == 0 {
        (state, Run::Frames(Seq::empty()))
    } else {
        match run(state, outputs, (count - 1) as nat, now) {
            (before, Run::Failed(error)) => (before, Run::Failed(error)),
            (before, Run::Frames(frames)) => match step(before, outputs[count - 1], now) {
                (after, Step::Waiting) => (after, Run::Frames(frames)),
                (after, Step::Frame(frame)) => (after, Run::Frames(frames.push(frame))),
                (after, Step::Failed(error)) => (after, Run::Failed(error)),
            },
        }
    }
}

/// The state after everything in flight is forgotten.
pub open spec fn forgotten(state: AssemblerModel) -> AssemblerModel {
    AssemblerModel {
        compositor: compositor::cleared(state.compositor),
        pending: Map::empty(),
        active_timestamp: None,
        active_outputs: 0,
        ..state
    }
}

/// The views of frames.
pub open spec fn frame_models(frames: Seq<DecodedFrame>) -> Seq<FrameModel> {
    frames.map_values(|frame: DecodedFrame| frame@)
}

/// Matches decoder outputs with the batches that they came from, and hands out
/// a frame for each batch whose outputs are complete.
#[derive(Debug)]
pub struct DecoderOutputAssembler {
    compositor: SliceCompositor,
    pending: HashMap<u32, PendingDecodeBatch>,
    active_timestamp: Option<u32>,
    active_outputs: usize,
    negotiated_dimensions: Option<(u32, u32)>,
}

impl View for DecoderOutputAssembler {
    type V = AssemblerModel;

    closed spec fn view(&self) -> AssemblerModel {
        AssemblerModel {
            compositor: self.compositor@,
            pending: self.pending@,
            active_timestamp: self.active_timestamp,
            active_outputs: self.active_outputs as nat,
            negotiated: self.negotiated_dimensions,
        }
    }
}

impl DecoderOutputAssembler {
    /// Whether the parts are as they should be.
    pub closed spec fn wf(&self) -> bool {
        self.compositor.wf() && self.pending@.dom().finite()
    }

    /// An assembler for frames of the given size.
    pub fn new(target_dimensions: (u32, u32), negotiated_dimensions: Option<(u32, u32)>) -> (
        assembler: Self)
        ensures
            assembler.wf(),
            assembler@ == (AssemblerModel {
                compositor: CompositorModel {
                    metadata: compositor::no_slices(),
                    pending: compositor::no_slices(),
                    target: target_dimensions,
                    pending_bytes: 0,
                    dirty: false,
                },
                pending: Map::empty(),
                active_timestamp: None,
                active_outputs: 0,
                negotiated: negotiated_dimensions,
            }),
    {
        DecoderOutputAssembler {
            compositor: SliceCompositor::new(target_dimensions),
            pending: HashMap::new(),
            active_timestamp: None,
            active_outputs: 0,
            negotiated_dimensions,
        }
    }

    /// Announces a batch whose outputs will come.
    pub fn register_batch(
        &mut self,
        timestamp: u32,
        expected_outputs: usize,
        timing: PendingFrameTiming,
    ) -> (result: Result<(), PipelineError>)
        requires
            old(self).wf(),
        ensures
            final(self).wf(),
            final(self)@ == registered(
                old(self)@,
                timestamp,
                PendingDecodeBatch { expected_outputs, timing },
            ),
            match registration_error(old(self)@, timestamp, expected_outputs) {
                None => result is Ok,
                Some(error) => result matches Err(e) && e == error,
            },
    {
        if expected_outputs == 0 {
            return Err(PipelineError::EmptyBatch { timestamp });
        }
        if self.pending.len() >= AVC_RECEIVE_QUEUE_CAPACITY * 4 {
            return Err(PipelineError::TooManyBatches);
        }
        let replaced = self.pending.insert(
            timestamp,
            PendingDecodeBatch { expected_outputs, timing },
        );
        if replaced.is_some() {
            return Err(PipelineError::DuplicateBatch { timestamp });
        }
        Ok(())
    }

    /// Takes one decoder output.
    fn push_one(&mut self, output: DecodedOutput, now: Instant) -> (result: Result<
        Option<DecodedFrame>,
        PipelineError,
    >)
        requires
            old(self).wf(),
            old(self)@.active_outputs < usize::MAX,
        ensures
            final(self).wf(),
            final(self)@ == step(old(self)@, output, now).0,
            final(self)@.active_outputs <= old(self)@.active_outputs + 1,
            match step(old(self)@, output, now).1 {
                Step::Waiting => result matches Ok(None),
                Step::Frame(frame) => result matches Ok(Some(f)) && f@ == frame,
                Step::Failed(error) => result matches Err(e) && e == error,
            },
    {
        if let Some(error) = output.conversion_error {
            return Err(PipelineError::Conversion(error));
        }
        if output.status != 0 {
            return Err(
                PipelineError::DecodeStatus { status: output.status, flags: output.info_flags },
            );
        }
        let batch = match self.pending.get(&output.timestamp) {
            Some(batch) => *batch,
            None => {
                return Err(PipelineError::UnknownTimestamp { timestamp: output.timestamp });
            },
        };
        if let Some(previous) = self.active_timestamp {
            if previous != output.timestamp {
                let expected: usize = match self.pending.get(&previous) {
                    Some(waiting) => waiting.expected_outputs,
                    None => 0,
                };
                return Err(
                    PipelineError::TimestampChanged {
                        previous,
                        outputs: self.active_outputs,
                        expected,
                        actual: output.timestamp,
                    },
                );
            }
        }
        self.active_timestamp = Some(output.timestamp);
        if let Err(error) = self.compositor.push(
            output.stream_index,
            output.encoded_bytes,
            output.frame,
        ) {
            return Err(error);
        }
        self.active_outputs = self.active_outputs + 1;
        if self.active_outputs > batch.expected_outputs {
            return Err(
                PipelineError::TooManyOutputs {
                    timestamp: output.timestamp,
                    outputs: self.active_outputs,
                    expected: batch.expected_outputs,
                },
            );
        }
        if self.active_outputs < batch.expected_outputs {
            return Ok(None);
        }
        match self.compositor.finish_frame() {
            Err(error) => Err(error),
            Ok(None) => Err(PipelineError::NothingToShow { timestamp: output.timestamp }),
            Ok(Some(mut frame)) => {
                let _ = self.pending.remove(&output.timestamp);
                frame.timing =
                Some(
                    AvcFrameTiming {
                        first_packet_received_at: batch.timing.first_packet_received_at,
                        first_access_unit_completed_at: batch.timing.first_access_unit_completed_at,
                        batch_released_at: batch.timing.batch_released_at,
                        decoded_at: now,
                        negotiated_dimensions: self.negotiated_dimensions,
                    },
                );
                self.active_timestamp = None;
                self.active_outputs = 0;
                Ok(Some(frame))
            },
        }
    }

    /// Takes decoder outputs, in the order in which the decoder gave them, and
    /// returns the frames that they complete. The first failure ends the run.
    pub fn push(&mut self, outputs: Vec<DecodedOutput>, now: Instant) -> (result: Result<
        Vec<DecodedFrame>,
        PipelineError,
    >)
        requires
            old(self).wf(),
            old(self)@.active_outputs + outputs@.len() <= usize::MAX,
        ensures
            final(self).wf(),
            final(self)@ == run(old(self)@, outputs@, outputs@.len(), now).0,
            match run(old(self)@, outputs@, outputs@.len(), now).1 {
                Run::Frames(frames) => result matches Ok(f) && frame_models(f@) == frames,
                Run::Failed(error) => result matches Err(e) && e == error,
            },
    {
        let mut frames: Vec<DecodedFrame> = Vec::new();
        let ghost all = outputs@;
        let ghost start = self@;
        assert(frame_models(frames@) =~= Seq::<FrameModel>::empty());
        for output in it: outputs
            invariant
                it.seq() == all,
                self.wf(),
                start == old(self)@,
                start.active_outputs + all.len() <= usize::MAX,
                self@.active_outputs <= start.active_outputs + it.index(),
                run(start, all, it.index() as nat, now) == (
                    self@,
                    Run::Frames(frame_models(frames@)),
                ),
        {
            let ghost index = it.index() as nat;
            let ghost before = self@;
            match self.push_one(output, now) {
                Err(error) => {
                    proof {
                        lemma_failure_stays(start, all, index + 1, all.len(), now);
                    }
                    return Err(error);
                },
                Ok(None) => {},
                Ok(Some(frame)) => {
                    let ghost so_far = frames@;
                    frames.push(frame);
                    assert(frame_models(frames@) =~= frame_models(so_far).push(frame@));
                },
            }
        }
        Ok(frames)
    }

    /// Forgets everything in flight.
    pub fn reset(&mut self)
        requires
            old(self).wf(),
        ensures
            final(self).wf(),
            final(self)@ == forgotten(old(self)@),
    {
        self.compositor.reset();
        self.pending.clear();
        self.active_timestamp = None;
        self.active_outputs = 0;
    }
}

/// A frame is handed out with the last expected output of its batch, never
/// before; all of the outputs counted for it carry its timestamp, and the batch
/// is no longer waited for.
pub proof fn law_frame_needs_every_output(
    state: AssemblerModel,
    output: DecodedOutput,
    now: Instant,
)
    requires
        step(state, output, now).1 is Frame,
    ensures
        state.pending.contains_key(output.timestamp),
        state.active_outputs + 1 == state.pending[output.timestamp].expected_outputs,
        state.active_timestamp is None || state.active_timestamp == Some(output.timestamp),
        !step(state, output, now).0.pending.contains_key(output.timestamp),
        step(state, output, now).0.active_timestamp is None,
        step(state, output, now).0.active_outputs == 0,
{
}

/// However batches and outputs come in, no more batches wait than are allowed.
pub proof fn law_waiting_batches_are_bounded(
    state: AssemblerModel,
    timestamp: u32,
    batch: PendingDecodeBatch,
    output: DecodedOutput,
    now: Instant,
)
    requires
        state.pending.dom().finite(),
        state.pending.len() <= MAX_PENDING_BATCHES,
    ensures
        registered(state, timestamp, batch).pending.len() <= MAX_PENDING_BATCHES,
        step(state, output, now).0.pending.len() <= MAX_PENDING_BATCHES,
        forgotten(state).pending.len() == 0,
{
    if state.pending.contains_key(output.timestamp) {
        assert(state.pending.remove(output.timestamp).len() + 1 == state.pending.len());
    }
}

proof fn lemma_failure_stays(
    state: AssemblerModel,
    outputs: Seq<DecodedOutput>,
    from: nat,
    to: nat,
    now: Instant,
)
    requires
        from <= to,
        run(state, outputs, from, now).1 is Failed,
    ensures
        run(state, outputs, to, now) == run(state, outputs, from, now),
    decreases to - from,
{
    if from < to {
        lemma_failure_stays(state, outputs, from, (to - 1) as nat, now);
    }
}

/// What is wrong with an output is told in this order: an image that could not be
/// copied, a failed decode, a timestamp that nobody waits for, and one that comes while
/// another batch is open. An output with none of that is taken.
pub proof fn law_wrong_outputs_are_told_apart(state: AssemblerModel, output: DecodedOutput)
    ensures
        output.conversion_error matches Some(error) ==> output_error(state, output) == Some(
            PipelineError::Conversion(error),
        ),
        output.conversion_error is None && output.status != 0 ==> output_error(state, output)
            == Some(
            PipelineError::DecodeStatus { status: output.status, flags: output.info_flags },
        ),
        output.conversion_error is None && output.status == 0 && !state.pending.contains_key(
            output.timestamp,
        ) ==> output_error(state, output) == Some(
            PipelineError::UnknownTimestamp { timestamp: output.timestamp },
        ),
        output_error(state, output) is None <==> {
            &&& output.conversion_error is None
            &&& output.status == 0
            &&& state.pending.contains_key(output.timestamp)
            &&& state.active_timestamp is None || state.active_timestamp == Some(output.timestamp)
        },
        output.conversion_error is None && output.status == 0 && state.pending.contains_key(
            output.timestamp,
        ) ==> (state.active_timestamp matches Some(previous) ==> previous != output.timestamp ==> {
            &&& output_error(state, output) matches Some(
                PipelineError::TimestampChanged { previous: p, outputs: _, expected, actual },
            )
            &&& p == previous
            &&& actual == output.timestamp
            &&& state.pending.contains_key(previous) ==> expected
                == state.pending[previous].expected_outputs
        }),
{
}

/// A batch is announced exactly if it has outputs, there are fewer than 64 of them
/// waiting, and none with its timestamp; it then waits with its times beside the others.
pub proof fn law_batches_are_announced_once(
    state: AssemblerModel,
    timestamp: u32,
    batch: PendingDecodeBatch,
    other: u32,
)
    requires
        other != timestamp,
    ensures
        ({
            let error = registration_error(state, timestamp, batch.expected_outputs);
            let after = registered(state, timestamp, batch);
            &&& error is None <==> batch.expected_outputs > 0 && state.pending.len() < 64
                && !state.pending.contains_key(timestamp)
            &&& batch.expected_outputs == 0 ==> error == Some(
                PipelineError::EmptyBatch { timestamp },
            )
            &&& error is None ==> after.pending.contains_key(timestamp)
                && after.pending[timestamp] == batch
            &&& after.pending.contains_key(other) <==> state.pending.contains_key(other)
            &&& state.pending.contains_key(other) ==> after.pending[other] == state.pending[other]
            &&& after.active_timestamp == state.active_timestamp
            &&& after.active_outputs == state.active_outputs
            &&& after.compositor == state.compositor
            &&& after.negotiated == state.negotiated
        }),
{
}

/// An output that belongs to the open batch is counted: as long as more are expected
/// the batch stays open, and one too many is an error that names both numbers.
pub proof fn law_outputs_are_counted(state: AssemblerModel, output: DecodedOutput, now: Instant)
    requires
        output.conversion_error is None,
        output.status == 0,
        state.pending.contains_key(output.timestamp),
        state.active_timestamp is None || state.active_timestamp == Some(output.timestamp),
        output.frame is None || output.stream_index < 4,
    ensures
        ({
            let expected = state.pending[output.timestamp].expected_outputs;
            let (after, outcome) = step(state, output, now);
            &&& state.active_outputs + 1 < expected ==> {
                &&& outcome is Waiting
                &&& after.active_timestamp == Some(output.timestamp)
                &&& after.active_outputs == state.active_outputs + 1
                &&& after.pending == state.pending
                &&& after.compositor == compositor::slice_pushed(
                    state.compositor,
                    output.stream_index,
                    output.encoded_bytes,
                    output.frame,
                )
            }
            &&& state.active_outputs + 1 > expected ==> outcome == Step::Failed(
                PipelineError::TooManyOutputs {
                    timestamp: output.timestamp,
                    outputs: (state.active_outputs + 1) as usize,
                    expected,
                },
            )
            &&& state.active_outputs + 1 == expected ==> match outcome {
                Step::Waiting => false,
                Step::Frame(frame) => {
                    &&& frame.timing is Some
                    &&& {
                        let times = frame.timing->0;
                        let batch = state.pending[output.timestamp].timing;
                        &&& times.first_packet_received_at == batch.first_packet_received_at
                        &&& times.first_access_unit_completed_at
                            == batch.first_access_unit_completed_at
                        &&& times.batch_released_at == batch.batch_released_at
                        &&& times.decoded_at == now
                        &&& times.negotiated_dimensions == state.negotiated
                    }
                    &&& (frame.width, frame.height) == state.compositor.target
                },
                Step::Failed(_) => true,
            }
        }),
{
}

/// The decoder's outputs for four slices of one picture are one frame, whichever way
/// the slices are cut: it comes with the fourth of them, shows each slice at its rows,
/// and carries the times of its batch.
pub proof fn law_four_outputs_are_one_frame(
    state: AssemblerModel,
    outputs: Seq<DecodedOutput>,
    slices: Seq<DecodedSlice>,
    timestamp: u32,
    now: Instant,
)
    requires
        state.compositor.metadata == compositor::no_slices::<compositor::SliceMetadata>(),
        state.compositor.pending == compositor::no_slices::<DecodedSlice>(),
        state.compositor.pending_bytes == 0,
        state.active_timestamp is None,
        state.active_outputs == 0,
        state.pending.contains_key(timestamp),
        state.pending[timestamp].expected_outputs == 4,
        outputs.len() == 4,
        slices.len() == 4,
        forall|k: int|
            0 <= k < 4 ==> {
                let o = #[trigger] outputs[k];
                &&& o.timestamp == timestamp
                &&& o.stream_index == k
                &&& o.status == 0
                &&& o.conversion_error is None
                &&& o.frame == Some(slices[k])
            },
        outputs[0].encoded_bytes + outputs[1].encoded_bytes + outputs[2].encoded_bytes
            + outputs[3].encoded_bytes <= usize::MAX,
        forall|k: int|
            0 <= k < 4 ==> {
                &&& (#[trigger] slices[k]).width == slices[0].width
                &&& slices[k].height == slices[0].height
                &&& slices[k].range == slices[0].range
                &&& slices[k].matrix == slices[0].matrix
                &&& slices[k].primaries == slices[0].primaries
            },
        state.compositor.target.0 == slices[0].width,
        state.compositor.target.0 > 0,
        state.compositor.target.0 % 2 == 0,
        state.compositor.target.1 > 0,
        state.compositor.target.1 % 2 == 0,
        ({
            let (h, s) = (state.compositor.target.1, slices[0].height);
            4 * s == h || (s % 16 == 0 && 3 * s < h <= 4 * s && 4 * (s - 16) < h)
        }),
    ensures
        ({
            let (after, outcome) = run(state, outputs, 4, now);
            &&& outcome is Frames
            &&& outcome->Frames_0.len() == 1
            &&& {
                let frame = outcome->Frames_0[0];
                &&& (frame.width, frame.height) == state.compositor.target
                &&& frame.updates.len() == 4
                &&& forall|k: int|
                    0 <= k < 4 ==> (#[trigger] frame.updates[k]).pixels == slices[k]
                        && frame.updates[k].y_origin == k * slices[0].height
                &&& frame.timing is Some
                &&& frame.timing->0.decoded_at == now
                &&& frame.timing->0.batch_released_at
                    == state.pending[timestamp].timing.batch_released_at
            }
            &&& !after.pending.contains_key(timestamp)
            &&& after.active_timestamp is None
            &&& after.active_outputs == 0
        }),
{
    let bytes = seq![
        outputs[0].encoded_bytes,
        outputs[1].encoded_bytes,
        outputs[2].encoded_bytes,
        outputs[3].encoded_bytes,
    ];
    compositor::law_four_slices_make_a_frame(state.compositor, slices, bytes);
    reveal_with_fuel(run, 5);
    let one = step(state, outputs[0], now);
    assert(one.1 is Waiting && one.0 == counted(state, outputs[0]));
    let two = step(one.0, outputs[1], now);
    assert(two.1 is Waiting && two.0 == counted(one.0, outputs[1]));
    let three = step(two.0, outputs[2], now);
    assert(three.1 is Waiting && three.0 == counted(two.0, outputs[2]));
    let next = counted(three.0, outputs[3]);
    assert(next.compositor == compositor::four_pushed(state.compositor, slices, bytes));
    let four = step(three.0, outputs[3], now);
    assert(four.1 is Frame);
    let first = run(state, outputs, 1, now);
    assert(first.0 == one.0 && first.1 == Run::Frames(Seq::empty()));
    let second = run(state, outputs, 2, now);
    assert(second.0 == two.0 && second.1 == Run::Frames(Seq::empty()));
    let third = run(state, outputs, 3, now);
    assert(third.0 == three.0 && third.1 == Run::Frames(Seq::empty()));
}

/// The first failure ends a run, and nothing behind it is looked at; without one, the
/// frames come in the order of the outputs that complete them.
pub proof fn law_failures_end_the_run(
    state: AssemblerModel,
    outputs: Seq<DecodedOutput>,
    count: nat,
    now: Instant,
)
    requires
        count < outputs.len(),
    ensures
        run(state, outputs, 0, now) == (state, Run::Frames(Seq::empty())),
        run(state, outputs, count, now).1 is Failed ==> run(state, outputs, count + 1, now) == run(
            state,
            outputs,
            count,
            now,
        ),
        run(state, outputs, count, now).1 matches Run::Frames(frames) ==> {
            let (before, outcome) = step(
                run(state, outputs, count, now).0,
                outputs[count as int],
                now,
            );
            &&& run(state, outputs, count + 1, now).0 == before
            &&& outcome is Waiting ==> run(state, outputs, count + 1, now).1 == Run::Frames(frames)
            &&& outcome matches Step::Frame(frame) ==> run(state, outputs, count + 1, now).1
                == Run::Frames(frames.push(frame))
            &&& outcome matches Step::Failed(error) ==> run(state, outputs, count + 1, now).1
                == Run::Failed(error)
        },
{
}

/// Forgetting leaves nothing of what came before: no batch waits, none is under way and
/// no output of one is counted; the size that was agreed on stays.
pub proof fn law_forgetting_starts_afresh(state: AssemblerModel)
    ensures
        forgotten(state).pending == Map::<u32, PendingDecodeBatch>::empty(),
        forgotten(state).active_timestamp is None,
        forgotten(state).active_outputs == 0,
        forgotten(state).negotiated == state.negotiated,
        forgotten(forgotten(state)) == forgotten(state),
{
}

} // verus!
