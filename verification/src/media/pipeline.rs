//! The live decode path as a state machine: which access unit is decoded next,
//! what is shown, and how a failure is recovered from. The decoder and the
//! network are outside; each call reports what they did.

use crate::clock::{Duration, Instant};
use crate::media;
use crate::media::access_unit::MediaStreamCodec;
use crate::media::assembler;
use crate::media::assembler::{AssemblerModel, DecoderOutputAssembler, PendingFrameTiming};
use crate::media::errors::PipelineError;
use crate::media::queue::AvcReceiveResetReason;
use crate::media::{DecodedFrame, DecodedOutput};
use vstd::prelude::*;

verus! {

/// How many seconds may pass without a frame before the path gives up.
pub const IDLE_TIMEOUT_SECS: u64 = 30;

/// What was negotiated for the video stream.
#[derive(Debug, Clone, Copy)]
pub struct NegotiatedStream {
    pub codec: MediaStreamCodec,
    pub payload_type: u8,
    pub dimensions: Option<(u32, u32)>,
}

/// Checks what was negotiated: a codec and a payload type there must be, and
/// the size counts only if both sides of it are known.
pub fn negotiated_stream(
    codec: Option<MediaStreamCodec>,
    payload_type: Option<u8>,
    width: Option<u32>,
    height: Option<u32>,
) -> (result: Result<NegotiatedStream, PipelineError>)
    ensures
        match (codec, payload_type) {
            (None, _) => result matches Err(PipelineError::NoCodec),
            (Some(_), None) => result matches Err(PipelineError::NoPayloadType),
            (Some(c), Some(p)) => result matches Ok(stream) && stream == (NegotiatedStream {
                codec: c,
                payload_type: p,
                dimensions: match (width, height) {
                    (Some(w), Some(h)) => Some((w, h)),
                    _ => None,
                },
            }),
        },
{
    let codec = match codec {
        Some(codec) => codec,
        None => {
            return Err(PipelineError::NoCodec);
        },
    };
    let payload_type: u8 = match payload_type {
        Some(payload_type) => payload_type,
        None => {
            return Err(PipelineError::NoPayloadType);
        },
    };
    let dimensions = match (width, height) {
        (Some(width), Some(height)) => Some((width, height)),
        _ => None,
    };
    Ok(NegotiatedStream { codec, payload_type, dimensions })
}

/// A batch whose access units are being decoded.
#[derive(Debug)]
pub struct OpenBatch {
    pub next: usize,
    pub count: usize,
    pub outputs: Vec<DecodedOutput>,
}

/// What an `OpenBatch` holds.
pub struct OpenBatchModel {
    pub next: usize,
    pub count: usize,
    pub outputs: Seq<DecodedOutput>,
}

/// What a `VideoPipeline` holds.
pub struct PipelineModel {
    pub assembler: AssemblerModel,
    pub last_frame: Instant,
    pub batch: Option<OpenBatchModel>,
}

/// What is to be done next for the open batch.
#[derive(Debug)]
pub enum NextStep {
    /// Decode the access unit with this index.
    DecodeUnit(usize),
    /// All access units are decoded: let the decoder finish the frame.
    FinishFrame,
    /// Show these frames.
    Deliver(Vec<DecodedFrame>),
    /// Make the decoder wait for a sync frame, ask the sender for one, and
    /// report the error.
    Recover(PipelineError),
}

/// The state after everything in flight is given up.
pub open spec fn given_up(state: PipelineModel) -> PipelineModel {
    PipelineModel { assembler: assembler::forgotten(state.assembler), batch: None, ..state }
}

/// Whether no frame came for longer than the path waits.
pub open spec fn idle_too_long(last_frame: nat, now: nat) -> bool {
    media::elapsed_between(last_frame, now) > IDLE_TIMEOUT_SECS * 1_000_000_000
}

/// The report for an error after a sync frame was asked for.
pub open spec fn recovery_text(error: PipelineError, failure: Option<Seq<char>>) -> Seq<char> {
    match failure {
        Some(feedback) => error.text() + "；关键帧请求失败："@ + feedback,
        None => error.text(),
    }
}

/// The report for an error after a sync frame was asked for; `failure` says why
/// that request failed, if it did.
pub fn recovery_report(error: &PipelineError, failure: Option<String>) -> (report: String)
    ensures
        report@ == recovery_text(*error, crate::media::queue::text_of(failure)),
{
    let mut report = error.message();
    if let Some(feedback) = failure {
        report.append("；关键帧请求失败：");
        report.append(feedback.as_str());
    }
    report
}

/// The live decode path of one video stream.
#[derive(Debug)]
pub struct VideoPipeline {
    assembler: DecoderOutputAssembler,
    last_frame: Instant,
    batch: Option<OpenBatch>,
}

impl View for VideoPipeline {
    type V = PipelineModel;

    closed spec fn view(&self) -> PipelineModel {
        PipelineModel {
            assembler: self.assembler@,
            last_frame: self.last_frame,
            batch: match self.batch {
                Some(batch) => Some(
                    OpenBatchModel {
                        next: batch.next,
                        count: batch.count,
                        outputs: batch.outputs@,
                    },
                ),
                None => None,
            },
        }
    }
}

impl VideoPipeline {
    /// Whether the parts are as they should be.
    pub closed spec fn wf(&self) -> bool {
        &&& self.assembler.wf()
        &&& self.batch matches Some(batch) ==> batch.next <= batch.count
    }

    /// A path for frames of the given size that starts at `now`.
    pub fn new(
        target_dimensions: (u32, u32),
        negotiated_dimensions: Option<(u32, u32)>,
        now: Instant,
    ) -> (pipeline: Self)
        ensures
            pipeline.wf(),
            pipeline@.batch is None,
            pipeline@.last_frame == now,
            pipeline@.assembler.pending == Map::<u32, assembler::PendingDecodeBatch>::empty(),
            pipeline@.assembler.active_timestamp is None,
            pipeline@.assembler.active_outputs == 0,
            pipeline@.assembler.negotiated == negotiated_dimensions,
            pipeline@.assembler.compositor == crate::media::compositor::cleared(
                pipeline@.assembler.compositor,
            ),
            pipeline@.assembler.compositor.target == target_dimensions,
    {
        VideoPipeline {
            assembler: DecoderOutputAssembler::new(target_dimensions, negotiated_dimensions),
            last_frame: now,
            batch: None,
        }
    }

    /// Gives up everything in flight.
    fn give_up(&mut self)
        requires
            old(self).wf(),
        ensures
            final(self).wf(),
            final(self)@ == given_up(old(self)@),
    {
        self.assembler.reset();
        self.batch = None;
    }

    /// A batch came in.
    pub fn start_batch(&mut self, timestamp: u32, unit_count: usize, timing: PendingFrameTiming)
        -> (step: NextStep)
        requires
            old(self).wf(),
        ensures
            final(self).wf(),
            match assembler::registration_error(old(self)@.assembler, timestamp, unit_count) {
                Some(error) => {
                    &&& step matches NextStep::Recover(e) && e == error
                    &&& final(self)@ == given_up(old(self)@)
                },
                None => {
                    &&& step matches NextStep::DecodeUnit(index) && index == 0
                    &&& final(self)@ == (PipelineModel {
                        assembler: assembler::registered(
                            old(self)@.assembler,
                            timestamp,
                            assembler::PendingDecodeBatch { expected_outputs: unit_count, timing },
                        ),
                        batch: Some(
                            OpenBatchModel {
                                next: 0,
                                count: unit_count,
                                outputs: Seq::empty(),
                            },
                        ),
                        ..old(self)@
                    })
                },
            },
    {
        match self.assembler.register_batch(timestamp, unit_count, timing) {
            Err(error) => {
                self.give_up();
                NextStep::Recover(error)
            },
            Ok(()) => {
                self.batch = Some(OpenBatch { next: 0, count: unit_count, outputs: Vec::new() });
                NextStep::DecodeUnit(0)
            },
        }
    }

    /// The decoder took the next access unit: it gave `outputs`, and `error` is
    /// the first error that it reported.
    pub fn unit_decoded(&mut self, outputs: Vec<DecodedOutput>, error: Option<String>) -> (step:
        NextStep)
        requires
            old(self).wf(),
            old(self)@.batch is Some,
            old(self)@.batch->0.next < old(self)@.batch->0.count,
        ensures
            final(self).wf(),
            ({
                let batch = old(self)@.batch->0;
                match error {
                    Some(message) => {
                        &&& step matches NextStep::Recover(e) && e == PipelineError::Decoder(
                            message,
                        )
                        &&& final(self)@ == given_up(old(self)@)
                    },
                    None => {
                        &&& final(self)@ == (PipelineModel {
                            batch: Some(
                                OpenBatchModel {
                                    next: (batch.next + 1) as usize,
                                    count: batch.count,
                                    outputs: batch.outputs + outputs@,
                                },
                            ),
                            ..old(self)@
                        })
                        &&& if batch.next + 1 < batch.count {
                            step matches NextStep::DecodeUnit(index) && index == batch.next + 1
                        } else {
                            step is FinishFrame
                        }
                    },
                }
            }),
    {
        if let Some(message) = error {
            self.give_up();
            return NextStep::Recover(PipelineError::Decoder(message));
        }
        let mut outputs = outputs;
        match self.batch.take() {
            Some(mut batch) => {
                batch.outputs.append(&mut outputs);
                batch.next = batch.next + 1;
                let step = if batch.next < batch.count {
                    NextStep::DecodeUnit(batch.next)
                } else {
                    NextStep::FinishFrame
                };
                self.batch = Some(batch);
                step
            },
            None => NextStep::FinishFrame,
        }
    }

    /// The decoder finished the frame: it gave the last `outputs`, and `error`
    /// is the first error that it reported.
    pub fn frame_finished(
        &mut self,
        outputs: Vec<DecodedOutput>,
        error: Option<String>,
        now: Instant,
    ) -> (step: NextStep)
        requires
            old(self).wf(),
            old(self)@.batch is Some,
            old(self)@.assembler.active_outputs + old(self)@.batch->0.outputs.len() + outputs@.len()
                <= usize::MAX,
        ensures
            final(self).wf(),
            ({
                let all = old(self)@.batch->0.outputs + outputs@;
                let run = assembler::run(old(self)@.assembler, all, all.len(), now);
                match error {
                    Some(message) => {
                        &&& step matches NextStep::Recover(e) && e == PipelineError::Decoder(
                            message,
                        )
                        &&& final(self)@ == given_up(old(self)@)
                    },
                    None => match run.1 {
                        assembler::Run::Failed(error) => {
                            &&& step matches NextStep::Recover(e) && e == error
                            &&& final(self)@ == given_up(PipelineModel {
                                assembler: run.0,
                                ..old(self)@
                            })
                        },
                        assembler::Run::Frames(frames) => {
                            &&& step matches NextStep::Deliver(f) && assembler::frame_models(f@)
                                == frames
                            &&& final(self)@ == (PipelineModel {
                                assembler: run.0,
                                last_frame: if frames.len() > 0 {
                                    now
                                } else {
                                    old(self)@.last_frame
                                },
                                batch: None,
                            })
                        },
                    },
                }
            }),
    {
        if let Some(message) = error {
            self.give_up();
            return NextStep::Recover(PipelineError::Decoder(message));
        }
        let ghost expected = old(self)@.batch->0.outputs + outputs@;
        let mut outputs = outputs;
        let mut all: Vec<DecodedOutput> = Vec::new();
        if let Some(mut batch) = self.batch.take() {
            all.append(&mut batch.outputs);
        }
        all.append(&mut outputs);
        assert(all@ =~= expected);
        match self.assembler.push(all, now) {
            Ok(frames) => {
                if frames.len() > 0 {
                    self.last_frame = now;
                }
                NextStep::Deliver(frames)
            },
            Err(error) => {
                self.give_up();
                NextStep::Recover(error)
            },
        }
    }

    /// The receiver reset the prediction chain. The decoder has to wait for a
    /// sync frame; an overrun is reported.
    pub fn chain_reset(&mut self, reason: AvcReceiveResetReason) -> (report: Option<PipelineError>)
        requires
            old(self).wf(),
        ensures
            final(self).wf(),
            final(self)@ == given_up(old(self)@),
            report is Some <==> reason == AvcReceiveResetReason::ConsumerOverrun,
            report matches Some(error) ==> error is ConsumerOverrun,
    {
        self.give_up();
        if reason == AvcReceiveResetReason::ConsumerOverrun {
            Some(PipelineError::ConsumerOverrun)
        } else {
            None
        }
    }

    /// The receiver reported an error: the decoder has to wait for a sync frame.
    /// The answer says whether the path gives up.
    pub fn receive_failed(&mut self, now: Instant) -> (stop: bool)
        requires
            old(self).wf(),
        ensures
            final(self).wf(),
            final(self)@ == given_up(old(self)@),
            stop == idle_too_long(old(self)@.last_frame@, now@),
    {
        self.give_up();
        self.is_idle(now)
    }

    /// Whether no frame came for longer than the path waits.
    pub fn is_idle(&self, now: Instant) -> (idle: bool)
        ensures
            idle == idle_too_long(self@.last_frame@, now@),
    {
        Duration::from_secs(IDLE_TIMEOUT_SECS).is_shorter_than(
            now.saturating_duration_since(self.last_frame),
        )
    }

    /// The decoder was flushed at the end of the stream: the frames that its
    /// last outputs complete.
    pub fn flushed(&mut self, outputs: Vec<DecodedOutput>, now: Instant) -> (result: Result<
        Vec<DecodedFrame>,
        PipelineError,
    >)
        requires
            old(self).wf(),
            old(self)@.assembler.active_outputs + outputs@.len() <= usize::MAX,
        ensures
            final(self).wf(),
            ({
                let run = assembler::run(old(self)@.assembler, outputs@, outputs@.len(), now);
                &&& final(self)@ == (PipelineModel { assembler: run.0, ..old(self)@ })
                &&& match run.1 {
                    assembler::Run::Frames(frames) => result matches Ok(f)
                        && assembler::frame_models(f@) == frames,
                    assembler::Run::Failed(error) => result matches Err(e) && e == error,
                }
            }),
    {
        self.assembler.push(outputs, now)
    }
}

/// Whatever was in flight, after a failure nothing of it is left: no batch, no
/// waiting output and no slice of an older frame.
pub proof fn law_recovery_forgets_everything(state: PipelineModel)
    ensures
        given_up(state).batch is None,
        given_up(state).assembler.pending == Map::<u32, assembler::PendingDecodeBatch>::empty(),
        given_up(state).assembler.active_timestamp is None,
        given_up(state).assembler.active_outputs == 0,
        given_up(state).assembler.compositor.metadata == crate::media::compositor::no_slices::<
            crate::media::compositor::SliceMetadata,
        >(),
        given_up(state).assembler.compositor.pending == crate::media::compositor::no_slices::<
            crate::media::DecodedSlice,
        >(),
{
}

/// The path gives up when no frame came for more than thirty seconds.
pub proof fn law_thirty_seconds_without_a_frame(last_frame: nat, now: nat)
    ensures
        idle_too_long(last_frame, now) <==> now > last_frame + 30_000_000_000,
{
}

/// A report says what went wrong, and why no sync frame could be asked for if so.
pub proof fn law_reports_name_the_error(error: PipelineError, failure: Seq<char>)
    ensures
        recovery_text(error, None) == error.text(),
        recovery_text(error, Some(failure)) == error.text() + "；关键帧请求失败："@
            + failure,
{
}

/// Giving up keeps what the stream is: the size of its frames, what was negotiated, and
/// when the last frame came.
pub proof fn law_giving_up_keeps_the_stream(state: PipelineModel)
    ensures
        given_up(state).assembler.compositor.target == state.assembler.compositor.target,
        given_up(state).assembler.negotiated == state.assembler.negotiated,
        given_up(state).last_frame == state.last_frame,
        !given_up(state).assembler.compositor.dirty,
        given_up(state).assembler.compositor.pending_bytes == 0,
{
}

} // verus!
