//! A take on its way into files as a state machine: what is done next with the
//! system's encoder and with the file, and in which order. Both are outside; each
//! call reports what they did.

use crate::clock::{Duration, Instant};
use crate::recording::encoder;
use crate::recording::encoder::{
    EncodeRequest, EncoderModel, EncoderSettings, Platform, SampleModel,
};
use crate::recording::errors::RecordingError;
use crate::recording::layout::FrameLayout;
use crate::recording::muxer::MuxerSummary;
use crate::recording::quality::RecordingQuality;
use crate::recording::state;
use crate::recording::state::{DrainedSamples, RecordingState, SegmentEnd, StateModel};
use crate::recording::take;
use crate::recording::timeline;
use crate::recording::take::{RecordingOutcome, RecordingStats, StatsModel};
use vstd::prelude::*;

verus! {

/// A captured frame that is to be encoded.
#[derive(Debug, Clone, Copy, PartialEq, Eq, Structural)]
pub struct FrameEntry {
    pub layout: FrameLayout,
    /// Position on the take's timeline.
    pub pts: Duration,
}

/// What follows once the encoder has been drained.
#[derive(Debug, Clone, Copy, PartialEq, Eq, Structural)]
pub enum Purpose {
    /// The segment goes on.
    Resume,
    /// The segment is closed, and this frame starts the next one.
    Replace(FrameEntry),
    /// The segment is closed, and the take is over.
    Finish,
}

/// What the take waits for.
#[derive(Debug, Clone, Copy, PartialEq, Eq, Structural)]
pub enum Phase {
    /// The next frame, or the end.
    Waiting,
    /// The encoder and the file of a new segment.
    Opening(FrameEntry),
    /// The copy of a frame for the encoder.
    Staging(FrameEntry),
    /// The encoding of the frame before it.
    Encoding(FrameEntry),
    /// The frame to take the place of the one before it.
    Holding(FrameEntry),
    /// The encoding of the last frame of a segment.
    EncodingLast(Purpose),
    /// The encoder to finish.
    Flushing(Purpose),
    /// What the encoder has ready.
    Collecting(Purpose),
    /// The samples to be written.
    Writing(Purpose),
    /// The file to be removed.
    Removing(Purpose),
    /// The file to be completed.
    Completing(Purpose),
    /// Nothing more.
    Over,
}

/// What is done next.
#[derive(Debug)]
pub enum WriterAction {
    /// Wait for a frame, or for the end.
    Wait,
    /// Open the system's encoder and the file.
    Open { settings: EncoderSettings, file: String },
    /// Copy the frame for the encoder.
    Stage,
    /// Encode the held frame.
    Encode(EncodeRequest),
    /// Hold the copied frame, and hand over what the encoder has ready.
    Hold,
    /// Let the encoder finish everything.
    Flush,
    /// Hand over what the encoder has ready.
    Collect,
    /// Write samples to the file.
    Write(DrainedSamples),
    /// Remove the file, which holds nothing.
    RemoveFile,
    /// Write the index of the file and close it.
    CompleteFile,
    /// The take is over.
    Report(RecordingOutcome),
}

/// What a `WriterAction` holds.
pub enum WriterActionModel {
    Wait,
    Open { settings: EncoderSettings, file: Seq<char> },
    Stage,
    Encode(EncodeRequest),
    Hold,
    Flush,
    Collect,
    Write { width: u32, height: u32, sps: Seq<u8>, pps: Seq<u8>, samples: Seq<SampleModel> },
    RemoveFile,
    CompleteFile,
    Report { segments: Seq<Seq<char>>, error: Option<Seq<char>> },
}

impl View for WriterAction {
    type V = WriterActionModel;

    open spec fn view(&self) -> WriterActionModel {
        match *self {
            WriterAction::Wait => WriterActionModel::Wait,
            WriterAction::Open { settings, file } => WriterActionModel::Open {
                settings,
                file: file@,
            },
            WriterAction::Stage => WriterActionModel::Stage,
            WriterAction::Encode(request) => WriterActionModel::Encode(request),
            WriterAction::Hold => WriterActionModel::Hold,
            WriterAction::Flush => WriterActionModel::Flush,
            WriterAction::Collect => WriterActionModel::Collect,
            WriterAction::Write(drained) => WriterActionModel::Write {
                width: drained.format.width,
                height: drained.format.height,
                sps: drained.format.sps@,
                pps: drained.format.pps@,
                samples: encoder::all_samples(drained.samples@),
            },
            WriterAction::RemoveFile => WriterActionModel::RemoveFile,
            WriterAction::CompleteFile => WriterActionModel::CompleteFile,
            WriterAction::Report(outcome) => WriterActionModel::Report {
                segments: take::all_texts(outcome.segments@),
                error: encoder::text_view(outcome.error),
            },
        }
    }
}

/// A take that is being written, and what it waits for.
pub struct WriterModel {
    pub state: StateModel,
    pub platform: Platform,
    pub phase: Phase,
}

impl WriterModel {
    /// Between two frames there may be no segment; everything else is about one. A
    /// file that is completed holds samples.
    pub open spec fn wf(self) -> bool {
        &&& self.phase is Waiting || self.phase is Over || self.state.segment is Some
        &&& self.phase is Completing ==> self.state.segment->0.muxer.samples > 0
    }
}

/// A take that is being written, and what it waits for.
#[derive(Debug)]
pub struct TakeWriter {
    pub state: RecordingState,
    platform: Platform,
    phase: Phase,
}

impl View for TakeWriter {
    type V = WriterModel;

    closed spec fn view(&self) -> WriterModel {
        WriterModel { state: self.state@, platform: self.platform, phase: self.phase }
    }
}

/// A take after a step, and what is done next.
pub struct WriterStep {
    pub writer: WriterModel,
    pub action: WriterActionModel,
}

/// The step into a phase.
pub open spec fn into_phase(
    writer: WriterModel,
    state: StateModel,
    phase: Phase,
    action: WriterActionModel,
) -> WriterStep {
    WriterStep { writer: WriterModel { state, phase, ..writer }, action }
}

/// The end of a take, with what went wrong.
pub open spec fn over(writer: WriterModel, state: StateModel, error: Option<Seq<char>>) -> WriterStep {
    into_phase(
        writer,
        StateModel { segments: Seq::empty(), ..state },
        Phase::Over,
        WriterActionModel::Report { segments: state.segments, error },
    )
}

/// A take that ended by itself: one without a file is a failure.
pub open spec fn completed(writer: WriterModel, state: StateModel) -> WriterStep {
    over(
        writer,
        state,
        if state.segments.len() == 0 {
            Some(RecordingError::NothingCaptured.text())
        } else {
            None
        },
    )
}

/// A segment is opened for a frame.
pub open spec fn segment_opened(
    writer: WriterModel,
    state: StateModel,
    entry: FrameEntry,
) -> WriterStep {
    let settings = state::segment_settings(state.quality, entry.layout);
    match encoder::settings_error(settings, writer.platform) {
        Some(error) => over(writer, state, Some(error.text())),
        None => {
            let segment = state::fresh_segment(
                state.label,
                state.quality,
                state.index,
                state.segment_number,
                entry.layout,
            );
            into_phase(
                writer,
                StateModel { segment: Some(segment), ..state },
                Phase::Opening(entry),
                WriterActionModel::Open { settings, file: segment.file },
            )
        },
    }
}

/// What follows a segment that was closed.
pub open spec fn segment_closed(
    writer: WriterModel,
    state: StateModel,
    purpose: Purpose,
) -> WriterStep {
    match purpose {
        Purpose::Resume => into_phase(writer, state, Phase::Waiting, WriterActionModel::Wait),
        Purpose::Replace(entry) => segment_opened(writer, state, entry),
        Purpose::Finish => completed(writer, state),
    }
}

/// The segment is closed: the frame that is still held is encoded for as long as
/// it was on screen, and then the encoder is flushed.
pub open spec fn closing(writer: WriterModel, purpose: Purpose, now: nat) -> WriterStep {
    match writer.state.segment {
        None => segment_closed(writer, writer.state, purpose),
        Some(segment) => if segment.encoder.finished {
            into_phase(writer, writer.state, Phase::Flushing(purpose), WriterActionModel::Flush)
        } else {
            let state = state::with_encoder(writer.state, encoder::closed(segment.encoder));
            match encoder::request_at(segment.encoder, state::end_position(writer.state, now)) {
                Some(request) => into_phase(
                    writer,
                    state,
                    Phase::EncodingLast(purpose),
                    WriterActionModel::Encode(request),
                ),
                None => into_phase(
                    writer,
                    state,
                    Phase::Flushing(purpose),
                    WriterActionModel::Flush,
                ),
            }
        },
    }
}

/// What follows once the samples that were ready are written: a segment that goes
/// on waits for the next frame; of one that is closed, the file is completed, or
/// removed if nothing is in it.
pub open spec fn drained(writer: WriterModel, state: StateModel, purpose: Purpose) -> WriterStep {
    let muxer = state.segment->0.muxer;
    if purpose is Resume {
        into_phase(writer, state, Phase::Waiting, WriterActionModel::Wait)
    } else if muxer.samples == 0 {
        into_phase(writer, state, Phase::Removing(purpose), WriterActionModel::RemoveFile)
    } else if !muxer.open {
        over(writer, state::file_closed(state), Some(RecordingError::FileFinished.text()))
    } else {
        into_phase(
            writer,
            state::file_closed(state),
            Phase::Completing(purpose),
            WriterActionModel::CompleteFile,
        )
    }
}

/// What the encoder handed over is taken out of it. Where the segment is closed,
/// a failure that the encoder kept ends the take.
pub open spec fn collected(writer: WriterModel, purpose: Purpose) -> WriterStep {
    let encoder = writer.state.segment->0.encoder;
    let checked = if purpose is Resume {
        writer.state
    } else {
        state::with_encoder(writer.state, EncoderModel { error: None, ..encoder })
    };
    if purpose !is Resume && encoder.error is Some {
        over(writer, checked, encoder.error)
    } else {
        let segment = checked.segment->0;
        let taken = state::samples_taken(checked);
        if state::can_write(segment) {
            into_phase(
                writer,
                taken,
                Phase::Writing(purpose),
                WriterActionModel::Write {
                    width: segment.width,
                    height: segment.height,
                    sps: encoder.parameter_sets->0.sps,
                    pps: encoder.parameter_sets->0.pps,
                    samples: encoder.samples,
                },
            )
        } else {
            drained(writer, taken, purpose)
        }
    }
}

/// A frame was copied for the encoder: the one before it is encoded.
pub open spec fn staged(writer: WriterModel, entry: FrameEntry) -> WriterStep {
    let encoder = writer.state.segment->0.encoder;
    if encoder.finished {
        over(writer, writer.state, Some(RecordingError::EncoderFinished.text()))
    } else {
        let state = state::with_encoder(
            writer.state,
            EncoderModel { last_pts: Some(entry.pts@), held: Some(entry.pts@), ..encoder },
        );
        match encoder::request_at(encoder, entry.pts@) {
            Some(request) => into_phase(
                writer,
                state,
                Phase::Encoding(entry),
                WriterActionModel::Encode(request),
            ),
            None => into_phase(writer, state, Phase::Holding(entry), WriterActionModel::Hold),
        }
    }
}

/// A frame is held now. A failure that the encoder kept ends the take.
pub open spec fn held(writer: WriterModel, entry: FrameEntry, now: nat) -> WriterStep {
    let encoder = writer.state.segment->0.encoder;
    let checked = state::with_encoder(writer.state, EncoderModel { error: None, ..encoder });
    match encoder.error {
        Some(error) => over(writer, checked, Some(error)),
        None => into_phase(
            writer,
            StateModel { last_frame: Some((entry.pts@, now)), ..checked },
            Phase::Collecting(Purpose::Resume),
            WriterActionModel::Collect,
        ),
    }
}

/// A frame came.
pub open spec fn frame_step(writer: WriterModel, entry: FrameEntry, now: nat) -> WriterStep {
    let same = writer.state.segment matches Some(segment) && state::belongs(segment, entry.layout);
    if same {
        into_phase(writer, writer.state, Phase::Staging(entry), WriterActionModel::Stage)
    } else {
        closing(writer, Purpose::Replace(entry), now)
    }
}

/// No frame came for a while: what the encoder has ready is written.
pub open spec fn wake_step(writer: WriterModel) -> WriterStep {
    if writer.state.segment is Some {
        into_phase(
            writer,
            writer.state,
            Phase::Collecting(Purpose::Resume),
            WriterActionModel::Collect,
        )
    } else {
        into_phase(writer, writer.state, Phase::Waiting, WriterActionModel::Wait)
    }
}

/// Whether a phase ends with a report that holds nothing but that it was done.
pub open spec fn is_plain(phase: Phase) -> bool {
    match phase {
        Phase::Staging(_) => true,
        Phase::Encoding(_) => true,
        Phase::Holding(_) => true,
        Phase::EncodingLast(_) => true,
        Phase::Flushing(_) => true,
        Phase::Collecting(_) => true,
        Phase::Removing(_) => true,
        _ => false,
    }
}

/// What was asked for is done.
pub open spec fn done_step(writer: WriterModel, now: nat) -> WriterStep {
    let state = writer.state;
    match writer.phase {
        Phase::Staging(entry) => staged(writer, entry),
        Phase::Encoding(entry) => into_phase(
            writer,
            state::with_encoder(
                state,
                EncoderModel { submitted: true, ..state.segment->0.encoder },
            ),
            Phase::Holding(entry),
            WriterActionModel::Hold,
        ),
        Phase::Holding(entry) => held(writer, entry, now),
        Phase::EncodingLast(purpose) => into_phase(
            writer,
            state,
            Phase::Flushing(purpose),
            WriterActionModel::Flush,
        ),
        Phase::Flushing(purpose) => into_phase(
            writer,
            state,
            Phase::Collecting(purpose),
            WriterActionModel::Collect,
        ),
        Phase::Collecting(purpose) => collected(writer, purpose),
        Phase::Removing(purpose) => segment_closed(
            writer,
            StateModel { segment: None, ..state },
            purpose,
        ),
        _ => into_phase(writer, state, writer.phase, WriterActionModel::Wait),
    }
}

/// The samples were written.
pub open spec fn written_step(writer: WriterModel) -> WriterStep {
    drained(writer, writer.state, writer.phase->Writing_0)
}

/// The summary of the file of a segment.
pub open spec fn file_summary(state: StateModel, on_disk: Option<u64>) -> MuxerSummary {
    let muxer = state.segment->0.muxer;
    MuxerSummary {
        bytes: match on_disk {
            Some(bytes) => bytes,
            None => muxer.payload_bytes,
        },
        duration_units: muxer.duration_units,
    }
}

/// The state after the file of its segment was completed.
pub open spec fn file_completed(state: StateModel, on_disk: Option<u64>) -> StateModel {
    state::segment_completed(
        StateModel { segment: None, ..state },
        state.segment->0.file,
        file_summary(state, on_disk),
    )
}

/// The file was completed.
pub open spec fn completed_step(writer: WriterModel, on_disk: Option<u64>) -> WriterStep {
    segment_closed(
        writer,
        file_completed(writer.state, on_disk),
        writer.phase->Completing_0,
    )
}

impl TakeWriter {
    /// A take without a frame.
    pub fn new(label: String, quality: RecordingQuality, index: usize, platform: Platform) -> (writer:
        Self)
        ensures
            writer@.wf(),
            writer@ == (WriterModel {
                state: StateModel {
                    label: label@,
                    quality,
                    index: index as nat,
                    segment: None,
                    segment_number: 1,
                    segments: Seq::empty(),
                    last_frame: None,
                    completed_units: 0,
                    completed_bytes: 0,
                },
                platform,
                phase: Phase::Waiting,
            }),
    {
        TakeWriter {
            state: RecordingState::new(label, quality, index),
            platform,
            phase: Phase::Waiting,
        }
    }

    fn end(&mut self, failure: Option<RecordingError>) -> (action: WriterAction)
        ensures
            (WriterStep { writer: final(self)@, action: action@ }) == match failure {
                Some(error) => over(old(self)@, old(self)@.state, Some(error.text())),
                None => completed(old(self)@, old(self)@.state),
            },
    {
        self.phase = Phase::Over;
        WriterAction::Report(self.state.finish(failure))
    }

    fn open_segment(&mut self, entry: FrameEntry) -> (action: WriterAction)
        ensures
            (WriterStep { writer: final(self)@, action: action@ }) == segment_opened(
                old(self)@,
                old(self)@.state,
                entry,
            ),
            final(self)@.wf(),
    {
        match self.state.start_segment(&entry.layout, self.platform) {
            Ok(()) => {},
            Err(error) => {
                return self.end(Some(error));
            },
        }
        self.phase = Phase::Opening(entry);
        match self.state.opening() {
            Some((settings, file)) => WriterAction::Open { settings, file },
            None => WriterAction::Wait,
        }
    }

    fn go_on(&mut self, purpose: Purpose) -> (action: WriterAction)
        ensures
            (WriterStep { writer: final(self)@, action: action@ }) == segment_closed(
                old(self)@,
                old(self)@.state,
                purpose,
            ),
            final(self)@.wf(),
    {
        match purpose {
            Purpose::Resume => {
                self.phase = Phase::Waiting;
                WriterAction::Wait
            },
            Purpose::Replace(entry) => self.open_segment(entry),
            Purpose::Finish => self.end(None),
        }
    }

    fn close(&mut self, purpose: Purpose, now: Instant) -> (action: WriterAction)
        ensures
            (WriterStep { writer: final(self)@, action: action@ }) == closing(
                old(self)@,
                purpose,
                now@,
            ),
            final(self)@.wf(),
    {
        if !self.state.has_segment() {
            return self.go_on(purpose);
        }
        match self.state.finish_encoder(now) {
            Some(request) => {
                self.phase = Phase::EncodingLast(purpose);
                WriterAction::Encode(request)
            },
            None => {
                self.phase = Phase::Flushing(purpose);
                WriterAction::Flush
            },
        }
    }

    fn after_writing(&mut self, purpose: Purpose) -> (action: WriterAction)
        requires
            old(self)@.state.segment is Some,
        ensures
            (WriterStep { writer: final(self)@, action: action@ }) == drained(
                old(self)@,
                old(self)@.state,
                purpose,
            ),
            final(self)@.wf(),
    {
        if purpose == Purpose::Resume {
            self.phase = Phase::Waiting;
            return WriterAction::Wait;
        }
        if self.state.file_samples() == 0 {
            self.phase = Phase::Removing(purpose);
            return WriterAction::RemoveFile;
        }
        match self.state.close_file() {
            Ok(()) => {
                self.phase = Phase::Completing(purpose);
                WriterAction::CompleteFile
            },
            Err(error) => self.end(Some(error)),
        }
    }

    fn collect(&mut self, purpose: Purpose) -> (action: WriterAction)
        requires
            old(self)@.state.segment is Some,
        ensures
            (WriterStep { writer: final(self)@, action: action@ }) == collected(
                old(self)@,
                purpose,
            ),
            final(self)@.wf(),
    {
        if purpose != Purpose::Resume {
            match self.state.take_error() {
                Ok(()) => {},
                Err(error) => {
                    return self.end(Some(error));
                },
            }
        }
        match self.state.drain() {
            Some(drained) => {
                self.phase = Phase::Writing(purpose);
                WriterAction::Write(drained)
            },
            None => self.after_writing(purpose),
        }
    }

    /// A frame came that was presented at `presented`.
    pub fn frame_came(
        &mut self,
        stats: &mut RecordingStats,
        entry: FrameEntry,
        presented: Instant,
        now: Instant,
    ) -> (action: WriterAction)
        requires
            old(self)@.wf(),
            old(self)@.phase is Waiting,
        ensures
            final(self)@.wf(),
            (WriterStep { writer: final(self)@, action: action@ }) == frame_step(
                old(self)@,
                entry,
                now@,
            ),
            final(stats)@ == (StatsModel {
                origin: match old(stats)@.origin {
                    Some(origin) => Some(origin),
                    None => Some(presented@),
                },
                ..old(stats)@
            }),
    {
        stats.record_presented(presented);
        if self.state.needs_segment(&entry.layout) {
            self.close(Purpose::Replace(entry), now)
        } else {
            self.phase = Phase::Staging(entry);
            WriterAction::Stage
        }
    }

    /// No frame came for a while.
    pub fn woke_up(&mut self) -> (action: WriterAction)
        requires
            old(self)@.wf(),
            old(self)@.phase is Waiting,
        ensures
            final(self)@.wf(),
            (WriterStep { writer: final(self)@, action: action@ }) == wake_step(old(self)@),
    {
        if self.state.has_segment() {
            self.phase = Phase::Collecting(Purpose::Resume);
            WriterAction::Collect
        } else {
            WriterAction::Wait
        }
    }

    /// No frame will come any more.
    pub fn ended(&mut self, now: Instant) -> (action: WriterAction)
        requires
            old(self)@.wf(),
            old(self)@.phase is Waiting,
        ensures
            final(self)@.wf(),
            (WriterStep { writer: final(self)@, action: action@ }) == closing(
                old(self)@,
                Purpose::Finish,
                now@,
            ),
    {
        self.close(Purpose::Finish, now)
    }

    /// The encoder and the file of the segment are open; `hardware` is what the
    /// encoder said of its acceleration.
    pub fn opened(&mut self, stats: &mut RecordingStats, hardware: Option<bool>) -> (action:
        WriterAction)
        requires
            old(self)@.wf(),
            old(self)@.phase is Opening,
        ensures
            final(self)@.wf(),
            (WriterStep { writer: final(self)@, action: action@ }) == into_phase(
                old(self)@,
                old(self)@.state,
                Phase::Staging(old(self)@.phase->Opening_0),
                WriterActionModel::Stage,
            ),
            final(stats)@ == (StatsModel { hardware, ..old(stats)@ }),
    {
        stats.record_encoder_kind(hardware);
        if let Phase::Opening(entry) = self.phase {
            self.phase = Phase::Staging(entry);
        }
        WriterAction::Stage
    }

    /// What was asked for is done.
    pub fn done(&mut self, now: Instant) -> (action: WriterAction)
        requires
            old(self)@.wf(),
            is_plain(old(self)@.phase),
        ensures
            final(self)@.wf(),
            (WriterStep { writer: final(self)@, action: action@ }) == done_step(old(self)@, now@),
    {
        match self.phase {
            Phase::Staging(entry) => match self.state.push_frame(entry.pts) {
                Ok(Some(request)) => {
                    self.phase = Phase::Encoding(entry);
                    WriterAction::Encode(request)
                },
                Ok(None) => {
                    self.phase = Phase::Holding(entry);
                    WriterAction::Hold
                },
                Err(error) => self.end(Some(error)),
            },
            Phase::Encoding(entry) => {
                self.state.frame_accepted();
                self.phase = Phase::Holding(entry);
                WriterAction::Hold
            },
            Phase::Holding(entry) => match self.state.take_error() {
                Ok(()) => {
                    self.state.frame_taken(entry.pts, now);
                    self.phase = Phase::Collecting(Purpose::Resume);
                    WriterAction::Collect
                },
                Err(error) => self.end(Some(error)),
            },
            Phase::EncodingLast(purpose) => {
                self.phase = Phase::Flushing(purpose);
                WriterAction::Flush
            },
            Phase::Flushing(purpose) => {
                self.phase = Phase::Collecting(purpose);
                WriterAction::Collect
            },
            Phase::Collecting(purpose) => self.collect(purpose),
            Phase::Removing(purpose) => {
                let _ = self.state.end_segment();
                self.go_on(purpose)
            },
            _ => WriterAction::Wait,
        }
    }

    /// The samples were written, `written` of them; `on_disk` is the size of the
    /// file, if it is known.
    pub fn samples_written(
        &mut self,
        stats: &mut RecordingStats,
        written: u64,
        on_disk: Option<u64>,
    ) -> (action: WriterAction)
        requires
            old(self)@.wf(),
            old(self)@.phase is Writing,
        ensures
            final(self)@.wf(),
            (WriterStep { writer: final(self)@, action: action@ }) == written_step(old(self)@),
            final(stats)@ == state::published(old(self)@.state, old(stats)@, written, on_disk),
    {
        self.state.publish(stats, written, on_disk);
        match self.phase {
            Phase::Writing(purpose) => self.after_writing(purpose),
            _ => WriterAction::Wait,
        }
    }

    /// The file was completed; `on_disk` is its size, if it is known.
    pub fn file_completed(&mut self, stats: &mut RecordingStats, on_disk: Option<u64>) -> (action:
        WriterAction)
        requires
            old(self)@.wf(),
            old(self)@.phase is Completing,
            old(self)@.state.segment_number < usize::MAX,
        ensures
            final(self)@.wf(),
            (WriterStep { writer: final(self)@, action: action@ }) == completed_step(
                old(self)@,
                on_disk,
            ),
            ({
                let state = file_completed(old(self)@.state, on_disk);
                final(stats)@ == StatsModel {
                    recorded_units: state.completed_units,
                    written_bytes: state.completed_bytes,
                    ..old(stats)@
                }
            }),
    {
        match self.state.end_segment() {
            Some(SegmentEnd::Finalize(segment)) => {
                let summary = segment.muxer.summary(on_disk);
                self.state.segment_finished(segment.file, summary, stats);
            },
            _ => {},
        }
        match self.phase {
            Phase::Completing(purpose) => self.go_on(purpose),
            _ => WriterAction::Wait,
        }
    }

    /// What was asked for failed, which ends the take.
    pub fn failed(&mut self, error: RecordingError) -> (action: WriterAction)
        ensures
            final(self)@.wf(),
            (WriterStep { writer: final(self)@, action: action@ }) == over(
                old(self)@,
                old(self)@.state,
                Some(error.text()),
            ),
    {
        self.end(Some(error))
    }
}

/// A segment leaves the take only with its file: as long as the file is neither
/// removed nor completed, the take goes on with the same file, whatever happens.
pub proof fn law_files_are_closed_one_by_one(writer: WriterModel, entry: FrameEntry, now: nat)
    requires
        writer.wf(),
        writer.state.segment is Some,
    ensures
        ({
            let keeps = |step: WriterStep|
                step.writer.state.segment matches Some(segment) && segment.file
                    == writer.state.segment->0.file;
            &&& keeps(frame_step(writer, entry, now))
            &&& keeps(wake_step(writer))
            &&& keeps(closing(writer, Purpose::Finish, now))
            &&& writer.phase !is Removing ==> keeps(done_step(writer, now))
            &&& keeps(written_step(writer))
            &&& forall|error: Option<Seq<char>>|
                keeps(#[trigger] over(writer, writer.state, error))
        }),
{
}

/// What the phases of closing a segment are for.
pub open spec fn closing_purpose(phase: Phase) -> Option<Purpose> {
    match phase {
        Phase::EncodingLast(purpose) => Some(purpose),
        Phase::Flushing(purpose) => Some(purpose),
        Phase::Collecting(purpose) => Some(purpose),
        Phase::Writing(purpose) => Some(purpose),
        Phase::Removing(purpose) => Some(purpose),
        Phase::Completing(purpose) => Some(purpose),
        _ => None,
    }
}

/// The order of closing a segment: the frame that is held, the flush, what the
/// encoder then hands over, its samples, and the file; what follows the segment
/// comes last.
pub open spec fn closing_order(phase: Phase) -> nat {
    match phase {
        Phase::EncodingLast(_) => 1,
        Phase::Flushing(_) => 2,
        Phase::Collecting(_) => 3,
        Phase::Writing(_) => 4,
        Phase::Removing(_) => 5,
        Phase::Completing(_) => 5,
        Phase::Opening(_) => 6,
        Phase::Over => 6,
        _ => 0,
    }
}

/// What follows the end of a phase of closing.
pub open spec fn closing_step(writer: WriterModel, on_disk: Option<u64>, now: nat) -> WriterStep {
    match writer.phase {
        Phase::Writing(_) => written_step(writer),
        Phase::Completing(_) => completed_step(writer, on_disk),
        _ => done_step(writer, now),
    }
}

/// Closing a segment goes through its phases in their order and comes to an end:
/// each step leads to a later phase for the same purpose. The next segment is
/// opened, or a take reported that did not fail, only once the file was removed or
/// completed.
pub proof fn law_closing_keeps_its_order(writer: WriterModel, on_disk: Option<u64>, now: nat)
    requires
        writer.wf(),
        closing_purpose(writer.phase) is Some,
        closing_purpose(writer.phase) != Some(Purpose::Resume),
    ensures
        ({
            let next = closing_step(writer, on_disk, now);
            let file_done = writer.phase is Removing || writer.phase is Completing;
            &&& closing_order(next.writer.phase) > closing_order(writer.phase)
            &&& closing_purpose(next.writer.phase) is Some ==> closing_purpose(next.writer.phase)
                == closing_purpose(writer.phase)
            &&& next.action is Open ==> file_done
            &&& next.action matches WriterActionModel::Report { error, .. } ==> error is Some
                || file_done
        }),
{
}

/// What a frame leads to: one that belongs to the open segment is copied for its
/// encoder; the first one opens a file, and one of another kind first closes the file
/// before it.
pub proof fn law_frames_find_their_file(writer: WriterModel, entry: FrameEntry, now: nat)
    requires
        writer.wf(),
        writer.phase is Waiting,
    ensures
        ({
            let next = frame_step(writer, entry, now);
            match writer.state.segment {
                Some(segment) => if state::belongs(segment, entry.layout) {
                    &&& next.action is Stage
                    &&& next.writer.phase == Phase::Staging(entry)
                    &&& next.writer.state == writer.state
                } else {
                    &&& next.action is Encode || next.action is Flush
                    &&& next.writer.phase == if next.action is Encode {
                        Phase::EncodingLast(Purpose::Replace(entry))
                    } else {
                        Phase::Flushing(Purpose::Replace(entry))
                    }
                    &&& next.writer.state.segment is Some
                    &&& next.writer.state.segment->0.encoder.finished
                },
                None => match encoder::settings_error(
                    state::segment_settings(writer.state.quality, entry.layout),
                    writer.platform,
                ) {
                    None => {
                        &&& next.action is Open
                        &&& next.writer.phase == Phase::Opening(entry)
                        &&& next.writer.state.segment is Some
                        &&& next.action->Open_file == next.writer.state.segment->0.file
                        &&& next.action->Open_settings
                            == next.writer.state.segment->0.encoder.settings
                        &&& state::belongs(next.writer.state.segment->0, entry.layout)
                    },
                    Some(error) => next.action is Report && next.action->error == Some(
                        error.text(),
                    ),
                },
            }
        }),
{
}

/// A copied frame takes its place on the timeline: the frame before it is encoded, from
/// its own position to that of this one, and this one is held.
pub proof fn law_a_frame_ends_the_one_before(
    writer: WriterModel,
    entry: FrameEntry,
    previous: nat,
    now: nat,
)
    requires
        writer.wf(),
        writer.phase == Phase::Staging(entry),
        !writer.state.segment->0.encoder.finished,
    ensures
        ({
            let before = writer.state.segment->0.encoder;
            let next = done_step(writer, now);
            let after = next.writer.state.segment->0.encoder;
            &&& next.writer.state.segment is Some
            &&& after.held == Some(entry.pts@)
            &&& after.last_pts == Some(entry.pts@)
            &&& before.held == Some(previous) && before.last_pts == Some(previous) ==> {
                &&& next.action matches WriterActionModel::Encode(request)
                &&& request.pts == timeline::position_units(previous)
                &&& request.duration == timeline::sample_units(
                    timeline::shown_for(previous, entry.pts@),
                )
                &&& request.force_key_frame == !before.submitted
                &&& next.writer.phase == Phase::Encoding(entry)
            }
            &&& before.held is None ==> next.action is Hold && next.writer.phase == Phase::Holding(
                entry,
            )
        }),
{
}

/// The end of a take: without a segment it is over at once; otherwise the frame that is
/// still held is encoded up to now, and the encoder finishes.
pub proof fn law_the_end_encodes_the_held_frame(
    writer: WriterModel,
    purpose: Purpose,
    held: nat,
    now: nat,
)
    requires
        writer.wf(),
    ensures
        writer.state.segment is Some && !writer.state.segment->0.encoder.finished
            && writer.state.segment->0.encoder.held == Some(held)
            && writer.state.segment->0.encoder.last_pts == Some(held) ==> {
            let next = closing(writer, purpose, now);
            &&& next.action matches WriterActionModel::Encode(request)
            &&& request.pts == timeline::position_units(held)
            &&& request.duration == timeline::sample_units(
                timeline::shown_for(held, state::end_position(writer.state, now)),
            )
            &&& next.writer.phase == Phase::EncodingLast(purpose)
            &&& next.writer.state.segment->0.encoder.finished
        },
        writer.state.segment is Some && writer.state.segment->0.encoder.held is None ==> closing(
            writer,
            purpose,
            now,
        ).action is Flush,
        writer.state.segment is None ==> {
            let next = closing(writer, Purpose::Finish, now);
            &&& next.action matches WriterActionModel::Report { segments, error }
            &&& segments == writer.state.segments
            &&& error is None <==> writer.state.segments.len() > 0
            &&& writer.state.segments.len() == 0 ==> error == Some(
                "录制没有捕获到任何画面"@,
            )
        },
{
}

/// What the encoder handed over is written as it is; a failure that it kept ends the
/// take when the segment is closed, and with a frame that was just held.
pub proof fn law_what_was_encoded_is_written(writer: WriterModel, purpose: Purpose, now: nat)
    requires
        writer.wf(),
        writer.phase == Phase::Collecting(purpose),
    ensures
        ({
            let segment = writer.state.segment->0;
            let encoder = segment.encoder;
            let next = done_step(writer, now);
            &&& encoder.error is Some && purpose != Purpose::Resume ==> next.action is Report
                && next.action->error == encoder.error && next.action->segments
                == writer.state.segments
            &&& (encoder.error is None || purpose == Purpose::Resume) && encoder.samples.len() > 0
                && encoder.parameter_sets is Some ==> {
                &&& next.action matches WriterActionModel::Write {
                    width,
                    height,
                    sps,
                    pps,
                    samples,
                }
                &&& samples == encoder.samples
                &&& (width, height) == (segment.width, segment.height)
                &&& sps == encoder.parameter_sets->0.sps
                &&& pps == encoder.parameter_sets->0.pps
                &&& next.writer.phase == Phase::Writing(purpose)
                &&& next.writer.state.segment->0.encoder.samples.len() == 0
            }
            &&& (encoder.error is None || purpose == Purpose::Resume) && encoder.samples.len() == 0
                && purpose == Purpose::Resume ==> next.action is Wait && next.writer.phase
                is Waiting
        }),
{
}

/// A file that is closed is completed if anything is in it, and removed otherwise.
pub proof fn law_empty_files_are_removed(writer: WriterModel, purpose: Purpose)
    requires
        writer.wf(),
        writer.phase == Phase::Writing(purpose),
        purpose != Purpose::Resume,
        writer.state.segment->0.muxer.open,
    ensures
        ({
            let next = written_step(writer);
            &&& writer.state.segment->0.muxer.samples == 0 ==> next.action is RemoveFile
                && next.writer.phase == Phase::Removing(purpose)
            &&& writer.state.segment->0.muxer.samples > 0 ==> next.action is CompleteFile
                && next.writer.phase == Phase::Completing(purpose)
                && !next.writer.state.segment->0.muxer.open
        }),
{
}

/// A file that was completed is one of the take's, with its size and its timeline; what
/// follows is the next segment or the report of all files.
pub proof fn law_completed_files_are_reported(writer: WriterModel, on_disk: u64)
    requires
        writer.wf(),
        writer.phase == Phase::Completing(Purpose::Finish),
        writer.state.completed_bytes + on_disk <= u64::MAX,
        writer.state.completed_units + writer.state.segment->0.muxer.duration_units <= u64::MAX,
    ensures
        ({
            let next = completed_step(writer, Some(on_disk));
            &&& next.action matches WriterActionModel::Report { segments, error }
            &&& segments == writer.state.segments.push(writer.state.segment->0.file)
            &&& error is None
            &&& next.writer.phase is Over
            &&& next.writer.state.segment is None
            &&& next.writer.state.completed_bytes == writer.state.completed_bytes + on_disk
            &&& next.writer.state.completed_units == writer.state.completed_units
                + writer.state.segment->0.muxer.duration_units
        }),
{
}

/// The steps between: a frame that was encoded is followed by the one that is held, a
/// held frame is remembered with the time at which it was taken, and what the encoder
/// has ready is collected behind it; closing flushes before it collects.
pub proof fn law_steps_follow_each_other(writer: WriterModel, entry: FrameEntry, now: nat)
    requires
        writer.wf(),
        writer.state.segment is Some,
    ensures
        writer.phase == Phase::Encoding(entry) ==> {
            let next = done_step(writer, now);
            &&& next.action is Hold
            &&& next.writer.phase == Phase::Holding(entry)
            &&& next.writer.state.segment->0.encoder.submitted
        },
        writer.phase == Phase::Holding(entry) && writer.state.segment->0.encoder.error is None ==> {
            let next = done_step(writer, now);
            &&& next.action is Collect
            &&& next.writer.phase == Phase::Collecting(Purpose::Resume)
            &&& next.writer.state.last_frame == Some((entry.pts@, now))
        },
        writer.phase == Phase::Holding(entry) && writer.state.segment->0.encoder.error is Some ==> {
            let next = done_step(writer, now);
            next.action is Report && next.action->error
                == writer.state.segment->0.encoder.error
        },
        writer.phase is EncodingLast ==> done_step(writer, now).action is Flush && done_step(
            writer,
            now,
        ).writer.phase == Phase::Flushing(writer.phase->EncodingLast_0),
        writer.phase is Flushing ==> done_step(writer, now).action is Collect && done_step(
            writer,
            now,
        ).writer.phase == Phase::Collecting(writer.phase->Flushing_0),
        wake_step(writer).action is Collect,
{
}

} // verus!
