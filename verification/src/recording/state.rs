//! A take on its way into files: which frames share a file, what is written when,
//! and how the take ends.

use crate::clock;
use crate::clock::{Duration, Instant};
use crate::media::YuvPrimaries;
use crate::recording::encoder;
use crate::recording::encoder::{
    EncodeRequest, EncodedSample, EncoderModel, EncoderSettings, H264Encoder, Platform, SampleModel,
};
use crate::recording::errors::RecordingError;
use crate::recording::labels;
use crate::recording::layout::FrameLayout;
use crate::recording::muxer;
use crate::recording::muxer::{Mp4Muxer, MuxerSummary, VideoTrackFormat};
use crate::recording::quality;
use crate::recording::quality::{RecordingQuality, FRAME_RATE_HINT};
use crate::recording::take;
use crate::recording::take::{RecordingOutcome, RecordingStats, StatsModel};
use vstd::prelude::*;

verus! {

/// The size of the frames of a layout.
pub open spec fn layout_size(layout: FrameLayout) -> (u32, u32) {
    match layout {
        FrameLayout::Bgra { width, height, .. } => (width, height),
        FrameLayout::Nv12 { width, height, .. } => (width, height),
    }
}

/// The primaries that the frames of a layout are recorded with.
pub open spec fn layout_primaries(layout: FrameLayout) -> YuvPrimaries {
    match layout {
        FrameLayout::Bgra { .. } => YuvPrimaries::Bt709,
        FrameLayout::Nv12 { primaries, .. } => primaries,
    }
}

/// The settings of the encoder for the frames of a layout.
pub open spec fn segment_settings(quality: RecordingQuality, layout: FrameLayout) -> EncoderSettings {
    let (width, height) = layout_size(layout);
    EncoderSettings {
        width,
        height,
        bitrate: quality::target_bitrate(quality, width as nat, height as nat) as u32,
        frame_rate_hint: FRAME_RATE_HINT,
        primaries: layout_primaries(layout),
    }
}

/// One encoded segment: a change of size, format or primaries starts a new file,
/// so that no frame is scaled or converted.
#[derive(Debug)]
pub struct Segment {
    pub width: u32,
    pub height: u32,
    pub nv12: bool,
    pub encoder: H264Encoder,
    pub muxer: Mp4Muxer,
    /// The name of the file.
    pub file: String,
}

/// What a `Segment` holds.
pub struct SegmentModel {
    pub width: u32,
    pub height: u32,
    pub nv12: bool,
    pub encoder: EncoderModel,
    pub muxer: Mp4Muxer,
    pub file: Seq<char>,
}

impl View for Segment {
    type V = SegmentModel;

    open spec fn view(&self) -> SegmentModel {
        SegmentModel {
            width: self.width,
            height: self.height,
            nv12: self.nv12,
            encoder: self.encoder@,
            muxer: self.muxer,
            file: self.file@,
        }
    }
}

/// Whether the frames of a layout belong to a segment.
pub open spec fn belongs(segment: SegmentModel, layout: FrameLayout) -> bool {
    let (width, height) = layout_size(layout);
    &&& width == segment.width
    &&& height == segment.height
    &&& (layout is Nv12) == segment.nv12
    &&& layout_primaries(layout) == segment.encoder.settings.primaries
}

/// The segment that starts with a frame of the given layout.
pub open spec fn fresh_segment(
    label: Seq<char>,
    quality: RecordingQuality,
    index: nat,
    number: nat,
    layout: FrameLayout,
) -> SegmentModel {
    let (width, height) = layout_size(layout);
    SegmentModel {
        width,
        height,
        nv12: layout is Nv12,
        encoder: encoder::fresh_encoder(segment_settings(quality, layout)),
        muxer: Mp4Muxer { open: true, samples: 0, payload_bytes: 0, duration_units: 0 },
        file: labels::file_name(label, index, number),
    }
}

fn primaries_of(layout: &FrameLayout) -> (primaries: YuvPrimaries)
    ensures
        primaries == layout_primaries(*layout),
{
    match layout.primaries() {
        Some(primaries) => primaries,
        None => YuvPrimaries::Bt709,
    }
}

impl Segment {
    /// A segment for frames of the given layout.
    pub fn start(
        label: &str,
        quality: RecordingQuality,
        index: usize,
        number: usize,
        layout: &FrameLayout,
        platform: Platform,
    ) -> (result: Result<Segment, RecordingError>)
        ensures
            match encoder::settings_error(segment_settings(quality, *layout), platform) {
                Some(error) => result matches Err(e) && e == error,
                None => result matches Ok(segment) && segment@ == fresh_segment(
                    label@,
                    quality,
                    index as nat,
                    number as nat,
                    *layout,
                ),
            },
    {
        let width: u32 = layout.width();
        let height: u32 = layout.height();
        let settings = EncoderSettings {
            width,
            height,
            bitrate: quality.bitrate(width, height),
            frame_rate_hint: FRAME_RATE_HINT,
            primaries: primaries_of(layout),
        };
        assert(settings == segment_settings(quality, *layout));
        let encoder = H264Encoder::new(settings, platform)?;
        Ok(
            Segment {
                width,
                height,
                nv12: layout.is_nv12(),
                encoder,
                muxer: Mp4Muxer::create(),
                file: labels::output_path(label, index, number),
            },
        )
    }

    /// Whether frames of the given layout belong to this segment.
    pub fn matches(&self, layout: &FrameLayout) -> (yes: bool)
        ensures
            yes == belongs(self@, *layout),
    {
        layout.width() == self.width && layout.height() == self.height && layout.is_nv12()
            == self.nv12 && primaries_of(layout) == self.encoder.settings().primaries
    }
}

/// The state of a take that is being written.
pub struct StateModel {
    pub label: Seq<char>,
    pub quality: RecordingQuality,
    pub index: nat,
    pub segment: Option<SegmentModel>,
    pub segment_number: nat,
    pub segments: Seq<Seq<char>>,
    /// Position of the last frame, and when it was taken.
    pub last_frame: Option<(nat, nat)>,
    pub completed_units: u64,
    pub completed_bytes: u64,
}

/// A take that is being written.
#[derive(Debug)]
pub struct RecordingState {
    label: String,
    quality: RecordingQuality,
    index: usize,
    /// The segment that is being written.
    pub segment: Option<Segment>,
    segment_number: usize,
    segments: Vec<String>,
    last_frame: Option<(Duration, Instant)>,
    completed_units: u64,
    completed_bytes: u64,
}

/// What an optional segment holds.
pub open spec fn segment_view(segment: Option<Segment>) -> Option<SegmentModel> {
    match segment {
        Some(segment) => Some(segment@),
        None => None,
    }
}

impl RecordingState {
    /// What the take holds.
    pub closed spec fn model(&self) -> StateModel {
        StateModel {
            label: self.label@,
            quality: self.quality,
            index: self.index as nat,
            segment: segment_view(self.segment),
            segment_number: self.segment_number as nat,
            segments: take::all_texts(self.segments@),
            last_frame: match self.last_frame {
                Some((pts, at)) => Some((pts@, at@)),
                None => None,
            },
            completed_units: self.completed_units,
            completed_bytes: self.completed_bytes,
        }
    }
}

impl View for RecordingState {
    type V = StateModel;

    open spec fn view(&self) -> StateModel {
        self.model()
    }
}

/// What is written next: the samples, and what their track is like.
#[derive(Debug)]
pub struct DrainedSamples {
    pub format: VideoTrackFormat,
    pub samples: Vec<EncodedSample>,
}

/// The state after the samples were taken out of the encoder.
pub open spec fn samples_taken(state: StateModel) -> StateModel {
    match state.segment {
        Some(segment) => StateModel {
            segment: Some(
                SegmentModel {
                    encoder: EncoderModel { samples: Seq::empty(), ..segment.encoder },
                    ..segment
                },
            ),
            ..state
        },
        None => state,
    }
}

/// Whether there is anything to write: samples that can be described. Without
/// parameter sets they cannot.
pub open spec fn can_write(segment: SegmentModel) -> bool {
    segment.encoder.samples.len() > 0 && segment.encoder.parameter_sets is Some
}

/// What closing a segment asks for.
#[derive(Debug)]
pub enum SegmentEnd {
    /// Nothing was captured for this size: the file is removed.
    Remove(String),
    /// The index of the file is to be written.
    Finalize(Segment),
}

/// The state after a segment was written completely.
pub open spec fn segment_completed(
    state: StateModel,
    file: Seq<char>,
    summary: MuxerSummary,
) -> StateModel {
    StateModel {
        completed_units: muxer::saturated(
            state.completed_units as nat,
            summary.duration_units as nat,
        ),
        completed_bytes: muxer::saturated(state.completed_bytes as nat, summary.bytes as nat),
        segments: state.segments.push(file),
        segment_number: state.segment_number + 1,
        ..state
    }
}

/// The position at which the last frame stopped being on screen.
pub open spec fn end_position(state: StateModel, now: nat) -> nat {
    match state.last_frame {
        Some((pts, at)) => clock::clipped(pts + take::since(at, now)),
        None => 0,
    }
}

/// The state with another encoder in its segment.
pub open spec fn with_encoder(state: StateModel, encoder: EncoderModel) -> StateModel {
    match state.segment {
        Some(segment) => StateModel { segment: Some(SegmentModel { encoder, ..segment }), ..state },
        None => state,
    }
}

/// The state with the file of its segment closed to further samples.
pub open spec fn file_closed(state: StateModel) -> StateModel {
    match state.segment {
        Some(segment) => StateModel {
            segment: Some(
                SegmentModel { muxer: Mp4Muxer { open: false, ..segment.muxer }, ..segment },
            ),
            ..state
        },
        None => state,
    }
}

/// What the counters are after samples were written to the segment.
pub open spec fn published(
    state: StateModel,
    stats: StatsModel,
    written: u64,
    on_disk: Option<u64>,
) -> StatsModel {
    match state.segment {
        Some(segment) => StatsModel {
            encoded: stats.encoded.wrapping_add(written),
            written_bytes: muxer::saturated(
                state.completed_bytes as nat,
                match on_disk {
                    Some(bytes) => bytes as nat,
                    None => segment.muxer.payload_bytes as nat,
                },
            ),
            recorded_units: muxer::saturated(
                state.completed_units as nat,
                segment.muxer.duration_units as nat,
            ),
            ..stats
        },
        None => stats,
    }
}

impl RecordingState {
    /// A take without a frame.
    pub fn new(label: String, quality: RecordingQuality, index: usize) -> (state: Self)
        ensures
            state@ == (StateModel {
                label: label@,
                quality,
                index: index as nat,
                segment: None,
                segment_number: 1,
                segments: Seq::empty(),
                last_frame: None,
                completed_units: 0,
                completed_bytes: 0,
            }),
    {
        let state = RecordingState {
            label,
            quality,
            index,
            segment: None,
            segment_number: 1,
            segments: Vec::new(),
            last_frame: None,
            completed_units: 0,
            completed_bytes: 0,
        };
        assert(state@.segments =~= Seq::<Seq<char>>::empty());
        state
    }

    /// The files that are complete.
    pub fn segments(&self) -> (segments: Vec<String>)
        ensures
            take::all_texts(segments@) == self@.segments,
    {
        take::copy_texts(&self.segments)
    }

    /// Whether a frame of the given layout needs a new segment.
    pub fn needs_segment(&self, layout: &FrameLayout) -> (yes: bool)
        ensures
            yes == match self@.segment {
                Some(segment) => !belongs(segment, *layout),
                None => true,
            },
    {
        match &self.segment {
            Some(segment) => !segment.matches(layout),
            None => true,
        }
    }

    /// Starts the next segment.
    pub fn start_segment(&mut self, layout: &FrameLayout, platform: Platform) -> (result: Result<
        (),
        RecordingError,
    >)
        ensures
            ({
                let settings = segment_settings(old(self)@.quality, *layout);
                match encoder::settings_error(settings, platform) {
                    Some(error) => {
                        &&& result matches Err(e) && e == error
                        &&& final(self)@ == old(self)@
                    },
                    None => {
                        &&& result is Ok
                        &&& final(self)@ == (StateModel {
                            segment: Some(
                                fresh_segment(
                                    old(self)@.label,
                                    old(self)@.quality,
                                    old(self)@.index,
                                    old(self)@.segment_number,
                                    *layout,
                                ),
                            ),
                            ..old(self)@
                        })
                    },
                }
            }),
    {
        let segment = Segment::start(
            self.label.as_str(),
            self.quality,
            self.index,
            self.segment_number,
            layout,
            platform,
        )?;
        self.segment = Some(segment);
        Ok(())
    }

    /// Whether a segment is being written.
    pub fn has_segment(&self) -> (yes: bool)
        ensures
            yes == self@.segment is Some,
    {
        self.segment.is_some()
    }

    /// What the system needs to open the segment: its settings and its file.
    pub fn opening(&self) -> (opening: Option<(EncoderSettings, String)>)
        ensures
            match self@.segment {
                Some(segment) => {
                    &&& opening matches Some(o)
                    &&& o.0 == segment.encoder.settings
                    &&& o.1@ == segment.file
                },
                None => opening is None,
            },
    {
        match &self.segment {
            Some(segment) => Some((segment.encoder.settings(), segment.file.clone())),
            None => None,
        }
    }

    /// Hands a frame to the encoder of the segment; the answer is what to encode.
    pub fn push_frame(&mut self, pts: Duration) -> (result: Result<
        Option<EncodeRequest>,
        RecordingError,
    >)
        requires
            old(self)@.segment is Some,
        ensures
            ({
                let encoder = old(self)@.segment->0.encoder;
                if encoder.finished {
                    &&& result matches Err(e) && e == RecordingError::EncoderFinished
                    &&& final(self)@ == old(self)@
                } else {
                    &&& result matches Ok(request) && request == encoder::request_at(encoder, pts@)
                    &&& final(self)@ == with_encoder(
                        old(self)@,
                        EncoderModel { last_pts: Some(pts@), held: Some(pts@), ..encoder },
                    )
                }
            }),
    {
        match self.segment.take() {
            Some(segment) => {
                let mut segment = segment;
                let result = segment.encoder.push(pts);
                self.segment = Some(segment);
                result
            },
            None => Ok(None),
        }
    }

    /// Takes note that the system took what it was asked to encode.
    pub fn frame_accepted(&mut self)
        ensures
            final(self)@ == match old(self)@.segment {
                Some(segment) => with_encoder(
                    old(self)@,
                    EncoderModel { submitted: true, ..segment.encoder },
                ),
                None => old(self)@,
            },
    {
        if let Some(segment) = self.segment.take() {
            let mut segment = segment;
            segment.encoder.accepted();
            self.segment = Some(segment);
        }
    }

    /// Hands over the failure that the encoder of the segment kept.
    pub fn take_error(&mut self) -> (result: Result<(), RecordingError>)
        ensures
            match old(self)@.segment {
                Some(segment) => {
                    &&& final(self)@ == with_encoder(
                        old(self)@,
                        EncoderModel { error: None, ..segment.encoder },
                    )
                    &&& match segment.encoder.error {
                        Some(message) => result matches Err(e) && e.text() == message,
                        None => result is Ok,
                    }
                },
                None => final(self)@ == old(self)@ && result is Ok,
            },
    {
        match self.segment.take() {
            Some(segment) => {
                let mut segment = segment;
                let result = segment.encoder.take_error();
                self.segment = Some(segment);
                result
            },
            None => Ok(()),
        }
    }

    /// The number of samples in the file of the segment.
    pub fn file_samples(&self) -> (samples: u64)
        ensures
            samples == match self@.segment {
                Some(segment) => segment.muxer.samples,
                None => 0,
            },
    {
        match &self.segment {
            Some(segment) => segment.muxer.samples(),
            None => 0,
        }
    }

    /// Closes the file of the segment to further samples; it can be done once.
    pub fn close_file(&mut self) -> (result: Result<(), RecordingError>)
        ensures
            final(self)@ == file_closed(old(self)@),
            match old(self)@.segment {
                Some(segment) => if segment.muxer.open {
                    result is Ok
                } else {
                    result matches Err(e) && e == RecordingError::FileFinished
                },
                None => result is Ok,
            },
    {
        match self.segment.take() {
            Some(segment) => {
                let mut segment = segment;
                let result = segment.muxer.finalize();
                self.segment = Some(segment);
                result
            },
            None => Ok(()),
        }
    }

    /// Takes note of a frame that the encoder took.
    pub fn frame_taken(&mut self, pts: Duration, now: Instant)
        ensures
            final(self)@ == (StateModel { last_frame: Some((pts@, now@)), ..old(self)@ }),
    {
        self.last_frame = Some((pts, now));
    }

    /// Takes what the encoder has ready. Samples that come before the parameter
    /// sets cannot be described and are given up.
    pub fn drain(&mut self) -> (drained: Option<DrainedSamples>)
        ensures
            final(self)@ == samples_taken(old(self)@),
            match old(self)@.segment {
                Some(segment) => if can_write(segment) {
                    &&& drained matches Some(d)
                    &&& encoder::all_samples(d.samples@) == segment.encoder.samples
                    &&& d.format.width == segment.width
                    &&& d.format.height == segment.height
                    &&& d.format.sps@ == segment.encoder.parameter_sets->0.sps
                    &&& d.format.pps@ == segment.encoder.parameter_sets->0.pps
                } else {
                    drained is None
                },
                None => drained is None,
            },
    {
        let ghost before = self.segment;
        match self.segment.take() {
            Some(segment) => {
                let mut segment = segment;
                let mut samples: Vec<EncodedSample> = Vec::new();
                assert(encoder::all_samples(samples@) =~= Seq::<SampleModel>::empty());
                segment.encoder.take_samples(&mut samples);
                assert(encoder::all_samples(samples@) =~= before->0@.encoder.samples);
                let sets = segment.encoder.parameter_sets();
                let width: u32 = segment.width;
                let height: u32 = segment.height;
                self.segment = Some(segment);
                assert(samples@.len() == encoder::all_samples(samples@).len());
                if samples.len() == 0 {
                    return None;
                }
                match sets {
                    Some(sets) => Some(
                        DrainedSamples {
                            format: VideoTrackFormat {
                                width,
                                height,
                                sps: sets.sps,
                                pps: sets.pps,
                            },
                            samples,
                        },
                    ),
                    None => None,
                }
            },
            None => None,
        }
    }

    /// Publishes what has been written: the samples of this time, and the totals
    /// of every segment.
    pub fn publish(&self, stats: &mut RecordingStats, written: u64, on_disk: Option<u64>)
        ensures
            final(stats)@ == published(self@, old(stats)@, written, on_disk),
    {
        if let Some(segment) = &self.segment {
            stats.record_encoded(written);
            let bytes: u64 = segment.muxer.file_bytes(on_disk);
            stats.publish_totals(
                self.completed_bytes.saturating_add(bytes),
                self.completed_units.saturating_add(segment.muxer.duration_units()),
            );
        }
    }

    /// The position at which the frame that the encoder still holds stopped being
    /// on screen.
    pub fn take_end_position(&self, now: Instant) -> (position: Duration)
        ensures
            position@ == end_position(self@, now@),
    {
        match self.last_frame {
            Some((pts, at)) => pts.saturating_add(now.saturating_duration_since(at)),
            None => Duration::zero(),
        }
    }

    /// Closes the encoder of the segment at the end of its last frame.
    pub fn finish_encoder(&mut self, now: Instant) -> (request: Option<EncodeRequest>)
        ensures
            match old(self)@.segment {
                Some(segment) => if segment.encoder.finished {
                    request is None && final(self)@ == old(self)@
                } else {
                    &&& request == encoder::request_at(
                        segment.encoder,
                        end_position(old(self)@, now@),
                    )
                    &&& final(self)@ == StateModel {
                        segment: Some(
                            SegmentModel { encoder: encoder::closed(segment.encoder), ..segment },
                        ),
                        ..old(self)@
                    }
                },
                None => request is None && final(self)@ == old(self)@,
            },
    {
        let end = self.take_end_position(now);
        match self.segment.take() {
            Some(segment) => {
                let mut segment = segment;
                let request = segment.encoder.finish(end);
                self.segment = Some(segment);
                request
            },
            None => None,
        }
    }

    /// Takes the segment out to be closed; a file without samples is removed.
    pub fn end_segment(&mut self) -> (end: Option<SegmentEnd>)
        ensures
            final(self)@ == (StateModel { segment: None, ..old(self)@ }),
            match old(self)@.segment {
                Some(segment) => if segment.muxer.samples == 0 {
                    end matches Some(SegmentEnd::Remove(file)) && file@ == segment.file
                } else {
                    end matches Some(SegmentEnd::Finalize(s)) && s@ == segment
                },
                None => end is None,
            },
    {
        match self.segment.take() {
            Some(segment) => if segment.muxer.samples() == 0 {
                Some(SegmentEnd::Remove(segment.file))
            } else {
                Some(SegmentEnd::Finalize(segment))
            },
            None => None,
        }
    }

    /// Takes note of a file that is complete.
    pub fn segment_finished(&mut self, file: String, summary: MuxerSummary, stats: &mut RecordingStats)
        requires
            old(self)@.segment_number < usize::MAX,
        ensures
            final(self)@ == segment_completed(old(self)@, file@, summary),
            final(stats)@ == (StatsModel {
                recorded_units: final(self)@.completed_units,
                written_bytes: final(self)@.completed_bytes,
                ..old(stats)@
            }),
    {
        self.completed_units = self.completed_units.saturating_add(summary.duration_units);
        self.completed_bytes = self.completed_bytes.saturating_add(summary.bytes);
        stats.publish_totals(self.completed_bytes, self.completed_units);
        let ghost before = self.segments@;
        let ghost name = file@;
        self.segments.push(file);
        assert(take::all_texts(self.segments@) =~= take::all_texts(before).push(name));
        self.segment_number = self.segment_number + 1;
    }

    /// How the take ends: with the failure of closing the last segment, if there
    /// was one; a take without a file is a failure of its own.
    pub fn finish(&mut self, failure: Option<RecordingError>) -> (outcome: RecordingOutcome)
        ensures
            take::all_texts(outcome.segments@) == old(self)@.segments,
            encoder::text_view(outcome.error) == match failure {
                Some(error) => Some(error.text()),
                None => if old(self)@.segments.len() == 0 {
                    Some(RecordingError::NothingCaptured.text())
                } else {
                    None
                },
            },
            final(self)@ == (StateModel { segments: Seq::empty(), ..old(self)@ }),
    {
        let mut segments: Vec<String> = Vec::new();
        std::mem::swap(&mut segments, &mut self.segments);
        assert(self@.segments =~= Seq::<Seq<char>>::empty());
        assert(segments@.len() == take::all_texts(segments@).len());
        let error = match failure {
            Some(error) => Some(error.message()),
            None => if segments.len() == 0 {
                Some(RecordingError::NothingCaptured.message())
            } else {
                None
            },
        };
        RecordingOutcome { segments, error }
    }
}

/// A frame that matches the segment it would start needs no other segment: two
/// frames share a file exactly if size, format and primaries agree.
pub proof fn law_equal_frames_share_a_file(
    label: Seq<char>,
    quality: RecordingQuality,
    index: nat,
    number: nat,
    first: FrameLayout,
    second: FrameLayout,
)
    ensures
        belongs(fresh_segment(label, quality, index, number, first), second) <==> (layout_size(
            first,
        ) == layout_size(second) && (first is Nv12) == (second is Nv12) && layout_primaries(first)
            == layout_primaries(second)),
{
}

/// The published totals never shrink when a segment is closed.
pub proof fn law_totals_never_shrink(state: StateModel, file: Seq<char>, summary: MuxerSummary)
    ensures
        segment_completed(state, file, summary).completed_units >= state.completed_units,
        segment_completed(state, file, summary).completed_bytes >= state.completed_bytes,
        segment_completed(state, file, summary).segments.drop_last() == state.segments,
{
    assert(segment_completed(state, file, summary).segments.drop_last() =~= state.segments);
}

/// The segments of a take get different files.
pub proof fn law_segments_get_their_own_files(
    label: Seq<char>,
    quality: RecordingQuality,
    index: nat,
    first: nat,
    second: nat,
    layout: FrameLayout,
)
    requires
        1 <= first < second,
    ensures
        fresh_segment(label, quality, index, first, layout).file != fresh_segment(
            label,
            quality,
            index,
            second,
            layout,
        ).file,
{
    labels::law_files_differ(label, index, first, index, second);
}

/// The encoder of a segment is made for its frames: in their size and with their
/// primaries, or the common ones where they have none, at the bitrate of the quality.
pub proof fn law_segments_are_made_for_their_frames(
    label: Seq<char>,
    quality: RecordingQuality,
    index: nat,
    number: nat,
    layout: FrameLayout,
)
    ensures
        ({
            let segment = fresh_segment(label, quality, index, number, layout);
            let settings = segment.encoder.settings;
            &&& match layout {
                FrameLayout::Bgra { width, height, .. } => {
                    &&& (settings.width, settings.height) == (width, height)
                    &&& settings.primaries == YuvPrimaries::Bt709
                    &&& !segment.nv12
                },
                FrameLayout::Nv12 { width, height, primaries, .. } => {
                    &&& (settings.width, settings.height) == (width, height)
                    &&& settings.primaries == primaries
                    &&& segment.nv12
                },
            }
            &&& (segment.width, segment.height) == (settings.width, settings.height)
            &&& settings.bitrate == quality::target_bitrate(
                quality,
                settings.width as nat,
                settings.height as nat,
            )
            &&& settings.frame_rate_hint == 30
            &&& segment.muxer.open
            &&& segment.muxer.samples == 0
            &&& segment.muxer.duration_units == 0
            &&& segment.encoder.samples.len() == 0
            &&& !segment.encoder.finished
            &&& segment.file == labels::file_name(label, index, number)
            &&& segment_settings(quality, layout) == settings
        }),
{
    quality::law_bits_are_spent_on_pixels(
        quality,
        layout_size(layout).0 as nat,
        layout_size(layout).1 as nat,
    );
}

/// A frame goes into the file of a segment exactly if it has the size, the format and
/// the primaries of its frames.
pub proof fn law_frames_of_a_file_are_alike(segment: SegmentModel, layout: FrameLayout)
    ensures
        belongs(segment, layout) <==> match layout {
            FrameLayout::Bgra { width, height, .. } => !segment.nv12 && (width, height) == (
                segment.width,
                segment.height,
            ) && segment.encoder.settings.primaries == YuvPrimaries::Bt709,
            FrameLayout::Nv12 { width, height, primaries, .. } => segment.nv12 && (
                width,
                height,
            ) == (segment.width, segment.height) && segment.encoder.settings.primaries
                == primaries,
        },
{
}

/// The last frame of a take stays on screen until the take ends: its position and the
/// time since it was taken.
pub proof fn law_the_last_frame_stays_until_the_end(
    state: StateModel,
    pts: nat,
    at: nat,
    now: nat,
)
    requires
        pts + now <= clock::max_nanos(),
    ensures
        state.last_frame == Some((pts, at)) && at <= now ==> end_position(state, now) == pts + (now
            - at),
        state.last_frame == Some((pts, at)) && at > now ==> end_position(state, now) == pts,
        state.last_frame is None ==> end_position(state, now) == 0,
{
}

/// What is published while a segment is written: the samples that were written, and the
/// bytes and the timeline of the files before it and of its own.
pub proof fn law_totals_cover_all_files(
    state: StateModel,
    stats: StatsModel,
    segment: SegmentModel,
    written: u64,
    on_disk: Option<u64>,
)
    requires
        state.segment == Some(segment),
        state.completed_units + segment.muxer.duration_units <= u64::MAX,
        stats.encoded + written <= u64::MAX,
    ensures
        ({
            let after = published(state, stats, written, on_disk);
            let own = match on_disk {
                Some(bytes) => bytes,
                None => segment.muxer.payload_bytes,
            };
            &&& after.encoded == stats.encoded + written
            &&& after.recorded_units == state.completed_units + segment.muxer.duration_units
            &&& state.completed_bytes + own <= u64::MAX ==> after.written_bytes
                == state.completed_bytes + own
            &&& (after.captured, after.dropped) == (stats.captured, stats.dropped)
            &&& after.finished == stats.finished
        }),
{
}

/// A file that is complete counts for the take, in front of the next segment.
pub proof fn law_complete_files_count(state: StateModel, file: Seq<char>, summary: MuxerSummary)
    requires
        state.completed_units + summary.duration_units <= u64::MAX,
        state.completed_bytes + summary.bytes <= u64::MAX,
    ensures
        ({
            let after = segment_completed(state, file, summary);
            &&& after.completed_units == state.completed_units + summary.duration_units
            &&& after.completed_bytes == state.completed_bytes + summary.bytes
            &&& after.segments == state.segments.push(file)
            &&& after.segment_number == state.segment_number + 1
            &&& after.segment == state.segment
            &&& after.last_frame == state.last_frame
        }),
{
}

/// Samples are written exactly if there are any and the parameter sets are known;
/// taking them out leaves everything else of the segment.
pub proof fn law_samples_wait_for_the_sets(state: StateModel, segment: SegmentModel)
    requires
        state.segment == Some(segment),
    ensures
        can_write(segment) <==> segment.encoder.samples.len() > 0
            && segment.encoder.parameter_sets is Some,
        samples_taken(state).segment is Some,
        ({
            let after = samples_taken(state).segment->0;
            &&& after.encoder.samples.len() == 0
            &&& after.encoder.parameter_sets == segment.encoder.parameter_sets
            &&& after.encoder.held == segment.encoder.held
            &&& after.muxer == segment.muxer
            &&& after.file == segment.file
        }),
{
}

/// Handing a segment another encoder changes its encoder and nothing else, and closing
/// its file keeps what was counted of it.
pub proof fn law_segments_change_in_one_place(
    state: StateModel,
    segment: SegmentModel,
    encoder: EncoderModel,
)
    requires
        state.segment == Some(segment),
    ensures
        with_encoder(state, encoder).segment is Some,
        with_encoder(state, encoder).segment->0.encoder == encoder,
        with_encoder(state, encoder).segment->0.muxer == segment.muxer,
        with_encoder(state, encoder).segment->0.file == segment.file,
        with_encoder(state, encoder).last_frame == state.last_frame,
        with_encoder(state, encoder).segments == state.segments,
        with_encoder(with_encoder(state, encoder), segment.encoder) == state,
        file_closed(state).segment is Some,
        !file_closed(state).segment->0.muxer.open,
        file_closed(state).segment->0.muxer.samples == segment.muxer.samples,
        file_closed(state).segment->0.muxer.payload_bytes == segment.muxer.payload_bytes,
        file_closed(state).segment->0.muxer.duration_units == segment.muxer.duration_units,
        file_closed(state).segment->0.encoder == segment.encoder,
        file_closed(with_encoder(state, encoder)) == with_encoder(file_closed(state), encoder),
{
}

} // verus!
