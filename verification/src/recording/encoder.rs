//! The encoder that turns presented frames into access units: what it is asked
//! for, when, and what becomes of its answers. The system calls themselves are
//! outside.

use crate::clock::Duration;
use crate::media::YuvPrimaries;
use crate::recording::errors::RecordingError;
use crate::recording::nal;
use crate::recording::timeline;
use crate::recording::timeline::FrameTimeline;
use vstd::prelude::*;

verus! {

/// The systems that are told apart.
#[derive(Debug, Clone, Copy, PartialEq, Eq, Structural)]
pub enum Platform {
    MacOs,
    Windows,
    Other,
}

/// Whether a platform has a system encoder.
pub open spec fn has_encoder(platform: Platform) -> bool {
    platform is MacOs || platform is Windows
}

/// Whether recordings can be encoded at all on a platform.
pub fn supported(platform: Platform) -> (yes: bool)
    ensures
        yes == has_encoder(platform),
{
    match platform {
        Platform::MacOs => true,
        Platform::Windows => true,
        Platform::Other => false,
    }
}

/// Whether a session can be recorded on a platform.
pub fn available(platform: Platform) -> (yes: bool)
    ensures
        yes == has_encoder(platform),
{
    supported(platform)
}

/// What an encoder is made for.
#[derive(Debug, Clone, Copy, PartialEq, Eq, Structural)]
pub struct EncoderSettings {
    pub width: u32,
    pub height: u32,
    /// Target average bitrate in bits per second.
    pub bitrate: u32,
    /// Expected presentation rate, a hint for rate control.
    pub frame_rate_hint: u32,
    /// Colour primaries of the frames that will be submitted.
    pub primaries: YuvPrimaries,
}

/// One encoded access unit, each NAL unit with its length in front.
#[derive(Debug)]
pub struct EncodedSample {
    pub bytes: Vec<u8>,
    /// The access unit starts a new prediction chain.
    pub is_sync: bool,
    /// Presentation time in track units.
    pub pts: u64,
    /// How long the frame stays on screen, in track units.
    pub duration: u32,
}

/// What an `EncodedSample` holds.
pub struct SampleModel {
    pub bytes: Seq<u8>,
    pub is_sync: bool,
    pub pts: u64,
    pub duration: u32,
}

impl View for EncodedSample {
    type V = SampleModel;

    open spec fn view(&self) -> SampleModel {
        SampleModel {
            bytes: self.bytes@,
            is_sync: self.is_sync,
            pts: self.pts,
            duration: self.duration,
        }
    }
}

/// What samples hold.
pub open spec fn all_samples(samples: Seq<EncodedSample>) -> Seq<SampleModel> {
    samples.map_values(|sample: EncodedSample| sample@)
}

/// The parameter sets that a container needs, without start codes.
#[derive(Debug)]
pub struct ParameterSets {
    pub sps: Vec<u8>,
    pub pps: Vec<u8>,
}

/// What `ParameterSets` hold.
pub struct SetsModel {
    pub sps: Seq<u8>,
    pub pps: Seq<u8>,
}

impl View for ParameterSets {
    type V = SetsModel;

    open spec fn view(&self) -> SetsModel {
        SetsModel { sps: self.sps@, pps: self.pps@ }
    }
}

/// What optional parameter sets hold.
pub open spec fn sets_view(sets: Option<ParameterSets>) -> Option<SetsModel> {
    match sets {
        Some(sets) => Some(sets@),
        None => None,
    }
}

impl ParameterSets {
    /// A copy of the sets.
    pub fn copy(&self) -> (copy: ParameterSets)
        ensures
            copy@ == self@,
    {
        ParameterSets {
            sps: nal::copy_bytes(self.sps.as_slice()),
            pps: nal::copy_bytes(self.pps.as_slice()),
        }
    }
}

/// What a text option holds.
pub open spec fn text_view(message: Option<String>) -> Option<Seq<char>> {
    match message {
        Some(message) => Some(message@),
        None => None,
    }
}

/// A frame that goes to the system encoder now.
#[derive(Debug, Clone, Copy, PartialEq, Eq, Structural)]
pub struct EncodeRequest {
    /// Presentation time in track units.
    pub pts: u64,
    /// How long the frame stays on screen, in track units.
    pub duration: u32,
    /// The frame has to start a prediction chain, so that the file can be played
    /// from its first sample.
    pub force_key_frame: bool,
}

/// The state of an encoder.
pub struct EncoderModel {
    pub settings: EncoderSettings,
    /// The position of the last frame, until its duration is known.
    pub last_pts: Option<nat>,
    /// The position of the frame that waits for its duration.
    pub held: Option<nat>,
    pub samples: Seq<SampleModel>,
    pub parameter_sets: Option<SetsModel>,
    pub error: Option<Seq<char>>,
    pub submitted: bool,
    pub finished: bool,
}

/// An encoder for frames of one size. A frame is held until its duration is
/// known, so output lags the captured timeline by exactly one frame.
#[derive(Debug)]
pub struct H264Encoder {
    settings: EncoderSettings,
    timeline: FrameTimeline,
    held: Option<Duration>,
    samples: Vec<EncodedSample>,
    parameter_sets: Option<ParameterSets>,
    error: Option<String>,
    submitted: bool,
    finished: bool,
}

impl View for H264Encoder {
    type V = EncoderModel;

    closed spec fn view(&self) -> EncoderModel {
        EncoderModel {
            settings: self.settings,
            last_pts: self.timeline@,
            held: match self.held {
                Some(pts) => Some(pts@),
                None => None,
            },
            samples: all_samples(self.samples@),
            parameter_sets: sets_view(self.parameter_sets),
            error: text_view(self.error),
            submitted: self.submitted,
            finished: self.finished,
        }
    }
}

/// What is wrong with the settings of an encoder, if anything.
pub open spec fn settings_error(settings: EncoderSettings, platform: Platform) -> Option<
    RecordingError,
> {
    if !has_encoder(platform) {
        Some(RecordingError::Unsupported)
    } else if settings.width == 0 || settings.height == 0 {
        Some(RecordingError::InvalidSize)
    } else if platform is MacOs && settings.width > i32::MAX {
        Some(RecordingError::WidthRange)
    } else if platform is MacOs && settings.height > i32::MAX {
        Some(RecordingError::HeightRange)
    } else {
        None
    }
}

/// The encoder before its first frame.
pub open spec fn fresh_encoder(settings: EncoderSettings) -> EncoderModel {
    EncoderModel {
        settings,
        last_pts: None,
        held: None,
        samples: Seq::empty(),
        parameter_sets: None,
        error: None,
        submitted: false,
        finished: false,
    }
}

/// An open encoder after it was finished.
pub open spec fn closed(encoder: EncoderModel) -> EncoderModel {
    EncoderModel {
        last_pts: None,
        held: if encoder.last_pts is Some {
            None
        } else {
            encoder.held
        },
        finished: true,
        ..encoder
    }
}

/// The encoder after it was given a sequence header: it keeps the parameter sets
/// if both are in it.
pub open spec fn header_read(encoder: EncoderModel, header: Seq<u8>) -> EncoderModel {
    let units = nal::annex_b(header);
    let sps = nal::last_of_type(units, false, 7);
    let pps = nal::last_of_type(units, false, 8);
    EncoderModel {
        parameter_sets: match (sps, pps) {
            (Some(sps), Some(pps)) => Some(SetsModel { sps, pps }),
            _ => encoder.parameter_sets,
        },
        ..encoder
    }
}

/// The request for the held frame when `now` is reached, if there is one.
pub open spec fn request_at(encoder: EncoderModel, now: nat) -> Option<EncodeRequest> {
    match (timeline::closed_duration(encoder.last_pts, now), encoder.held) {
        (Some(duration), Some(held)) => Some(
            EncodeRequest {
                pts: timeline::position_units(held),
                duration,
                force_key_frame: !encoder.submitted,
            },
        ),
        _ => None,
    }
}

/// A sample that a transform returned: its bytes with start codes, whether it is
/// marked as a clean point, and its time in units of 100 nanoseconds.
#[derive(Debug, Clone, Copy)]
pub struct TransformSample<'a> {
    pub bytes: &'a [u8],
    pub clean_point: Option<bool>,
    pub time: Option<i64>,
    pub duration: Option<i64>,
}

/// Whether a NAL unit type is a parameter set.
pub open spec fn is_parameter_set(unit_type: u8) -> bool {
    unit_type == 7 || unit_type == 8
}

/// The bytes of the access unit with lengths in front. The parameter sets are
/// left out if they are known already: they belong in the container's
/// configuration.
pub open spec fn access_unit(bytes: Seq<u8>, known: bool) -> Option<Seq<u8>> {
    if known {
        nal::sample_without(bytes, |unit_type: u8| is_parameter_set(unit_type))
    } else if nal::annex_b(bytes).len() > 0 && nal::lengths_fit(nal::annex_b(bytes)) {
        Some(nal::length_prefixed(nal::annex_b(bytes)))
    } else {
        None
    }
}

/// Whether the bytes hold the start of a prediction chain.
pub open spec fn holds_sync(bytes: Seq<u8>) -> bool {
    exists|i: int|
        0 <= i < nal::annex_b(bytes).len() && nal::h264_type(#[trigger] nal::annex_b(bytes)[i]) == 5
}

/// The encoder after a transform's sample came, or why it is refused. A sample
/// without any access unit is passed over.
pub open spec fn sample_taken(encoder: EncoderModel, sample: TransformSample<'_>) -> Result<
    EncoderModel,
    RecordingError,
> {
    let unit = access_unit(sample.bytes@, encoder.parameter_sets is Some);
    if sample.bytes@.len() == 0 || unit is None {
        Ok(encoder)
    } else if sample.time is None || sample.duration is None {
        Err(RecordingError::MissingTimestamps)
    } else {
        Ok(
            EncoderModel {
                samples: encoder.samples.push(
                    SampleModel {
                        bytes: unit->0,
                        is_sync: match sample.clean_point {
                            Some(clean) => clean,
                            None => holds_sync(sample.bytes@),
                        },
                        pts: timeline::reported_position(sample.time->0),
                        duration: timeline::reported_duration(sample.duration->0),
                    },
                ),
                ..encoder
            },
        )
    }
}

/// A parameter set as a system encoder's format description gives it.
#[derive(Debug)]
pub struct SetReading {
    pub status: i32,
    pub bytes: Option<Vec<u8>>,
    /// The bytes of the length in front of each unit of the samples.
    pub header_length: i32,
}

/// What is wrong with a reading, if anything.
pub open spec fn reading_error(reading: SetReading) -> Option<RecordingError> {
    if reading.status != 0 || reading.bytes is None || reading.bytes->0@.len() == 0 {
        Some(RecordingError::ParameterSetStatus { status: reading.status })
    } else if reading.header_length != 4 {
        Some(RecordingError::LengthPrefix { length: reading.header_length })
    } else {
        None
    }
}

/// Takes the bytes of a parameter set out of its reading.
fn read_set(reading: SetReading) -> (result: Result<Vec<u8>, RecordingError>)
    ensures
        match reading_error(reading) {
            Some(error) => result matches Err(e) && e == error,
            None => result matches Ok(bytes) && bytes@ == reading.bytes->0@,
        },
{
    let status: i32 = reading.status;
    match reading.bytes {
        Some(bytes) if status == 0 && bytes.len() > 0 => if reading.header_length != 4 {
            Err(RecordingError::LengthPrefix { length: reading.header_length })
        } else {
            Ok(bytes)
        },
        _ => Err(RecordingError::ParameterSetStatus { status }),
    }
}

/// Joins the two readings of a format description.
pub fn h264_parameter_sets(sps: SetReading, pps: SetReading) -> (result: Result<
    ParameterSets,
    RecordingError,
>)
    ensures
        match reading_error(sps) {
            Some(error) => result matches Err(e) && e == error,
            None => match reading_error(pps) {
                Some(error) => result matches Err(e) && e == error,
                None => result matches Ok(sets) && sets@ == (SetsModel {
                    sps: sps.bytes->0@,
                    pps: pps.bytes->0@,
                }),
            },
        },
{
    let sps = read_set(sps)?;
    let pps = read_set(pps)?;
    Ok(ParameterSets { sps, pps })
}

/// What a system encoder's callback hands over.
#[derive(Debug)]
pub struct CompressedImage {
    /// The parameter sets, or why they cannot be read; none if the sample does
    /// not describe its format.
    pub sets: Option<Result<ParameterSets, RecordingError>>,
    /// The data, if there is any.
    pub data: Option<Vec<u8>>,
    /// The status of copying the data.
    pub copy_status: i32,
    /// The sample is marked as one that cannot be seeked to.
    pub not_sync: bool,
}

/// Why a callback's sample cannot be taken, if anything is wrong with it.
pub open spec fn image_error(encoder: EncoderModel, image: CompressedImage) -> Option<
    RecordingError,
> {
    if image.sets is None {
        Some(RecordingError::NoDescription)
    } else if encoder.parameter_sets is None && image.sets->0 is Err {
        Some(image.sets->0->Err_0)
    } else if image.data is None {
        Some(RecordingError::NoData)
    } else if image.data->0@.len() == 0 {
        Some(RecordingError::EmptyData)
    } else if image.copy_status != 0 {
        Some(RecordingError::CopyStatus { status: image.copy_status })
    } else {
        None
    }
}

/// The encoder after an error: the first one is kept.
pub open spec fn error_noted(encoder: EncoderModel, message: Seq<char>) -> EncoderModel {
    if encoder.error is None {
        EncoderModel { error: Some(message), ..encoder }
    } else {
        encoder
    }
}

/// The encoder after a callback for the request `meta` came.
pub open spec fn callback_taken(
    encoder: EncoderModel,
    meta: Option<EncodeRequest>,
    status: i32,
    image: Option<CompressedImage>,
) -> EncoderModel {
    if status != 0 {
        error_noted(encoder, RecordingError::EncodeStatus { status }.text())
    } else if meta is None || image is None {
        encoder
    } else {
        let known = EncoderModel {
            parameter_sets: if encoder.parameter_sets is Some {
                encoder.parameter_sets
            } else {
                match image->0.sets {
                    Some(Ok(sets)) => Some(sets@),
                    _ => None,
                }
            },
            ..encoder
        };
        match image_error(encoder, image->0) {
            Some(error) => error_noted(known, error.text()),
            None => EncoderModel {
                samples: encoder.samples.push(
                    SampleModel {
                        bytes: image->0.data->0@,
                        is_sync: !image->0.not_sync,
                        pts: meta->0.pts,
                        duration: meta->0.duration,
                    },
                ),
                ..known
            },
        }
    }
}

impl H264Encoder {
    /// An encoder for frames of the given size.
    pub fn new(settings: EncoderSettings, platform: Platform) -> (result: Result<
        Self,
        RecordingError,
    >)
        ensures
            match settings_error(settings, platform) {
                Some(error) => result matches Err(e) && e == error,
                None => result matches Ok(encoder) && encoder@ == fresh_encoder(settings),
            },
    {
        if !supported(platform) {
            return Err(RecordingError::Unsupported);
        }
        if settings.width == 0 || settings.height == 0 {
            return Err(RecordingError::InvalidSize);
        }
        if platform == Platform::MacOs {
            if settings.width > i32::MAX as u32 {
                return Err(RecordingError::WidthRange);
            }
            if settings.height > i32::MAX as u32 {
                return Err(RecordingError::HeightRange);
            }
        }
        let encoder = H264Encoder {
            settings,
            timeline: FrameTimeline::default(),
            held: None,
            samples: Vec::new(),
            parameter_sets: None,
            error: None,
            submitted: false,
            finished: false,
        };
        assert(encoder@.samples =~= Seq::<SampleModel>::empty());
        Ok(encoder)
    }

    /// Settings this encoder was created with.
    pub fn settings(&self) -> (settings: EncoderSettings)
        ensures
            settings == self@.settings,
    {
        self.settings
    }

    /// Takes the next presented frame, which is held; the answer is the request
    /// for the frame that was held before it.
    pub fn push(&mut self, pts: Duration) -> (result: Result<Option<EncodeRequest>, RecordingError>)
        ensures
            if old(self)@.finished {
                &&& result matches Err(e) && e == RecordingError::EncoderFinished
                &&& final(self)@ == old(self)@
            } else {
                &&& result matches Ok(request) && request == request_at(old(self)@, pts@)
                &&& final(self)@ == (EncoderModel {
                    last_pts: Some(pts@),
                    held: Some(pts@),
                    ..old(self)@
                })
            },
    {
        if self.finished {
            return Err(RecordingError::EncoderFinished);
        }
        let duration = self.timeline.advance(pts);
        let held = self.held;
        self.held = Some(pts);
        match (duration, held) {
            (Some(duration), Some(held)) => Ok(
                Some(
                    EncodeRequest {
                        pts: timeline::timeline_position(held),
                        duration,
                        force_key_frame: !self.submitted,
                    },
                ),
            ),
            _ => Ok(None),
        }
    }

    /// Takes note of a request that the system encoder accepted.
    pub fn accepted(&mut self)
        ensures
            final(self)@ == (EncoderModel { submitted: true, ..old(self)@ }),
    {
        self.submitted = true;
    }

    /// Closes the held frame at the end of the take and stops accepting input.
    /// Ending twice does nothing more.
    pub fn finish(&mut self, now: Duration) -> (request: Option<EncodeRequest>)
        ensures
            if old(self)@.finished {
                &&& request is None
                &&& final(self)@ == old(self)@
            } else {
                &&& request == request_at(old(self)@, now@)
                &&& final(self)@ == closed(old(self)@)
            },
    {
        if self.finished {
            return None;
        }
        self.finished = true;
        match self.timeline.finish(now) {
            Some(duration) => match self.held.take() {
                Some(held) => Some(
                    EncodeRequest {
                        pts: timeline::timeline_position(held),
                        duration,
                        force_key_frame: !self.submitted,
                    },
                ),
                None => None,
            },
            None => None,
        }
    }

    /// Moves every access unit that came since the last call.
    pub fn take_samples(&mut self, out: &mut Vec<EncodedSample>)
        ensures
            all_samples(final(out)@) == all_samples(old(out)@) + old(self)@.samples,
            final(self)@ == (EncoderModel { samples: Seq::empty(), ..old(self)@ }),
    {
        let ghost before = out@;
        let ghost moved = self.samples@;
        let mut samples: Vec<EncodedSample> = Vec::new();
        std::mem::swap(&mut samples, &mut self.samples);
        out.append(&mut samples);
        assert(all_samples(out@) =~= all_samples(before) + all_samples(moved));
        assert(self@.samples =~= Seq::<SampleModel>::empty());
    }

    /// Parameter sets of the encoded stream, available after the first sample.
    pub fn parameter_sets(&self) -> (sets: Option<ParameterSets>)
        ensures
            sets_view(sets) == self@.parameter_sets,
    {
        match &self.parameter_sets {
            Some(sets) => Some(sets.copy()),
            None => None,
        }
    }

    /// Takes the parameter sets out of a sequence header, if it holds both.
    pub fn read_sequence_header(&mut self, header: &[u8])
        ensures
            final(self)@ == header_read(old(self)@, header@),
    {
        let (sps, pps) = nal::parameter_sets(header, false);
        if let (Some(sps), Some(pps)) = (sps, pps) {
            self.parameter_sets = Some(ParameterSets { sps, pps });
        }
    }

    /// Takes a sample that a transform returned.
    pub fn convert_output(&mut self, sample: TransformSample<'_>) -> (result: Result<
        (),
        RecordingError,
    >)
        ensures
            match sample_taken(old(self)@, sample) {
                Ok(encoder) => result is Ok && final(self)@ == encoder,
                Err(error) => result matches Err(e) && e == error && final(self)@ == old(self)@,
            },
    {
        if sample.bytes.len() == 0 {
            return Ok(());
        }
        let is_sync = match sample.clean_point {
            Some(clean) => clean,
            None => nal::annex_b_is_sync(sample.bytes),
        };
        let unit = match &self.parameter_sets {
            Some(_) => {
                let skip = |unit_type: u8| -> (skip: bool)
                    ensures
                        skip == is_parameter_set(unit_type),
                    { unit_type == 7 || unit_type == 8 };
                let unit = nal::to_avcc_skipping(sample.bytes, skip);
                assert(nal::computes(skip, |unit_type: u8| is_parameter_set(unit_type)));
                unit
            },
            None => nal::to_avcc(sample.bytes),
        };
        let bytes = match unit {
            Some(bytes) => bytes,
            None => {
                return Ok(());
            },
        };
        let (time, duration) = match (sample.time, sample.duration) {
            (Some(time), Some(duration)) => (time, duration),
            _ => {
                return Err(RecordingError::MissingTimestamps);
            },
        };
        let ghost before = self.samples@;
        let taken = EncodedSample {
            bytes,
            is_sync,
            pts: timeline::position_from_hns(time),
            duration: timeline::duration_from_hns(duration),
        };
        self.samples.push(taken);
        assert(all_samples(self.samples@) =~= all_samples(before).push(taken@));
        Ok(())
    }

    /// Keeps a failure that came outside of a call; only the first one counts.
    pub fn push_error(&mut self, message: String)
        ensures
            final(self)@ == error_noted(old(self)@, message@),
    {
        if self.error.is_none() {
            self.error = Some(message);
        }
    }

    /// Hands over the failure that was kept.
    pub fn take_error(&mut self) -> (result: Result<(), RecordingError>)
        ensures
            final(self)@ == (EncoderModel { error: None, ..old(self)@ }),
            match old(self)@.error {
                Some(message) => {
                    &&& result matches Err(RecordingError::System(m))
                    &&& m@ == message
                },
                None => result is Ok,
            },
    {
        match self.error.take() {
            Some(message) => Err(RecordingError::System(message)),
            None => Ok(()),
        }
    }

    /// Takes what a system encoder's callback hands over for the request `meta`.
    pub fn compression_output(
        &mut self,
        meta: Option<EncodeRequest>,
        status: i32,
        image: Option<CompressedImage>,
    )
        ensures
            final(self)@ == callback_taken(old(self)@, meta, status, image),
    {
        if status != 0 {
            self.push_error(RecordingError::EncodeStatus { status }.message());
            return;
        }
        let (meta, image) = match (meta, image) {
            (Some(meta), Some(image)) => (meta, image),
            _ => {
                return;
            },
        };
        match self.extract_sample(image, meta) {
            Ok(()) => {},
            Err(error) => self.push_error(error.message()),
        }
    }

    fn extract_sample(&mut self, image: CompressedImage, meta: EncodeRequest) -> (result: Result<
        (),
        RecordingError,
    >)
        ensures
            ({
                let known = EncoderModel {
                    parameter_sets: if old(self)@.parameter_sets is Some {
                        old(self)@.parameter_sets
                    } else {
                        match image.sets {
                            Some(Ok(sets)) => Some(sets@),
                            _ => None,
                        }
                    },
                    ..old(self)@
                };
                match image_error(old(self)@, image) {
                    Some(error) => result matches Err(e) && e == error && final(self)@ == known,
                    None => {
                        &&& result is Ok
                        &&& final(self)@ == EncoderModel {
                            samples: old(self)@.samples.push(
                                SampleModel {
                                    bytes: image.data->0@,
                                    is_sync: !image.not_sync,
                                    pts: meta.pts,
                                    duration: meta.duration,
                                },
                            ),
                            ..known
                        }
                    },
                }
            }),
    {
        let sets = match image.sets {
            Some(sets) => sets,
            None => {
                return Err(RecordingError::NoDescription);
            },
        };
        if self.parameter_sets.is_none() {
            match sets {
                Ok(sets) => {
                    self.parameter_sets = Some(sets);
                },
                Err(error) => {
                    return Err(error);
                },
            }
        }
        let bytes = match image.data {
            Some(bytes) => bytes,
            None => {
                return Err(RecordingError::NoData);
            },
        };
        if bytes.len() == 0 {
            return Err(RecordingError::EmptyData);
        }
        if image.copy_status != 0 {
            return Err(RecordingError::CopyStatus { status: image.copy_status });
        }
        let ghost before = self.samples@;
        let taken = EncodedSample {
            bytes,
            is_sync: !image.not_sync,
            pts: meta.pts,
            duration: meta.duration,
        };
        self.samples.push(taken);
        assert(all_samples(self.samples@) =~= all_samples(before).push(taken@));
        Ok(())
    }
}

/// The encoder after a frame was pushed and the request for the frame before it
/// was accepted.
pub open spec fn frame_pushed(encoder: EncoderModel, pts: nat) -> EncoderModel {
    EncoderModel {
        last_pts: Some(pts),
        held: Some(pts),
        submitted: encoder.submitted || request_at(encoder, pts) is Some,
        ..encoder
    }
}

/// The requests that a run of frames and the end of the take lead to.
pub open spec fn requests_of(encoder: EncoderModel, frames: Seq<nat>, end: nat) -> Seq<
    Option<EncodeRequest>,
>
    decreases frames.len(),
{
    if frames.len() == 0 {
        seq![request_at(encoder, end)]
    } else {
        seq![request_at(encoder, frames[0])] + requests_of(
            frame_pushed(encoder, frames[0]),
            frames.drop_first(),
            end,
        )
    }
}

/// Every frame of a take is encoded exactly once, at its own position and for as
/// long as it stayed on screen: the first call has nothing to encode, and each
/// later one, the end included, encodes the frame before it. Only the first
/// frame is made to start a prediction chain.
pub proof fn law_every_frame_is_encoded(settings: EncoderSettings, frames: Seq<nat>, end: nat)
    ensures
        requests_of(fresh_encoder(settings), frames, end).len() == frames.len() + 1,
        requests_of(fresh_encoder(settings), frames, end)[0] is None,
        forall|i: int|
            0 <= i < frames.len() ==> {
                let next = if i + 1 < frames.len() {
                    frames[i + 1]
                } else {
                    end
                };
                #[trigger] requests_of(fresh_encoder(settings), frames, end)[i + 1] == Some(
                    EncodeRequest {
                        pts: timeline::position_units(frames[i]),
                        duration: timeline::sample_units(timeline::shown_for(frames[i], next)),
                        force_key_frame: i == 0,
                    },
                )
            },
{
    let encoder = fresh_encoder(settings);
    if frames.len() > 0 {
        let held = frame_pushed(encoder, frames[0]);
        lemma_held_frames(held, frames[0], frames.drop_first(), end);
        let rest = requests_of(held, frames.drop_first(), end);
        let all = requests_of(encoder, frames, end);
        assert(all == seq![request_at(encoder, frames[0])] + rest);
        assert forall|i: int| 0 <= i < frames.len() implies {
            let next = if i + 1 < frames.len() {
                frames[i + 1]
            } else {
                end
            };
            #[trigger] all[i + 1] == Some(
                EncodeRequest {
                    pts: timeline::position_units(frames[i]),
                    duration: timeline::sample_units(timeline::shown_for(frames[i], next)),
                    force_key_frame: i == 0,
                },
            )
        } by {
            assert(all[i + 1] == rest[i]);
        }
    }
}

/// A frame that goes through a transform comes back at its own position and for as
/// long as it stayed on screen: what is read of the sample are the times that the
/// frame was asked to be encoded with, as long as the position fits.
pub proof fn law_transform_keeps_times(
    encoder: EncoderModel,
    request: EncodeRequest,
    sample: TransformSample<'_>,
)
    requires
        request.duration >= 1,
        request.pts * 10_000_000 + 45_000 <= u64::MAX,
        sample.bytes@.len() > 0,
        access_unit(sample.bytes@, encoder.parameter_sets is Some) is Some,
        sample.time == Some(timeline::rounded_hns(request.pts as nat)),
        sample.duration == Some(timeline::hns_duration(request.duration as nat) as i64),
    ensures
        ({
            &&& sample_taken(encoder, sample) matches Ok(after)
            &&& after.samples.len() == encoder.samples.len() + 1
            &&& after.samples.drop_last() == encoder.samples
            &&& after.samples.last().pts == request.pts
            &&& after.samples.last().duration == request.duration
        }),
{
    timeline::law_times_survive_the_transform(request.pts, request.duration);
    let after = sample_taken(encoder, sample)->Ok_0;
    assert(after.samples.drop_last() =~= encoder.samples);
}

/// The position at which the frame with index `i` leaves the screen.
pub open spec fn shown_until(frames: Seq<nat>, end: nat, i: int) -> nat {
    if i + 1 < frames.len() {
        frames[i + 1]
    } else {
        end
    }
}

/// The request that the frame with index `i` leads to.
pub open spec fn request_of(frames: Seq<nat>, end: nat, i: int) -> EncodeRequest {
    EncodeRequest {
        pts: timeline::position_units(frames[i]),
        duration: timeline::sample_units(
            timeline::shown_for(frames[i], shown_until(frames, end, i)),
        ),
        force_key_frame: i == 0,
    }
}

/// What happens to an encoder.
pub enum EncoderEvent<'a> {
    /// A frame is pushed, and the request that this leads to is accepted.
    Frame(nat),
    /// The encoder is finished.
    End(nat),
    /// A transform publishes a sequence header.
    Header(Seq<u8>),
    /// A transform returns a sample.
    Transformed(TransformSample<'a>),
    /// A system encoder calls back with a status and an image for a request.
    CalledBack(Option<EncodeRequest>, i32, Option<CompressedImage>),
    /// The samples are taken.
    Taken,
}

/// An encoder in use: what it asked for, and what was taken of it.
pub struct EncoderRun {
    pub encoder: EncoderModel,
    pub requests: Seq<EncodeRequest>,
    pub out: Seq<SampleModel>,
}

/// `requests` with one more, if there is one.
pub open spec fn and_request(requests: Seq<EncodeRequest>, request: Option<EncodeRequest>) -> Seq<
    EncodeRequest,
> {
    match request {
        Some(request) => requests.push(request),
        None => requests,
    }
}

/// The run after one more event: what the function that it stands for does.
pub open spec fn run_on(run: EncoderRun, event: EncoderEvent<'_>) -> EncoderRun {
    let encoder = run.encoder;
    match event {
        EncoderEvent::Frame(pts) => if encoder.finished {
            run
        } else {
            EncoderRun {
                encoder: frame_pushed(encoder, pts),
                requests: and_request(run.requests, request_at(encoder, pts)),
                ..run
            }
        },
        EncoderEvent::End(end) => if encoder.finished {
            run
        } else {
            EncoderRun {
                encoder: closed(encoder),
                requests: and_request(run.requests, request_at(encoder, end)),
                ..run
            }
        },
        EncoderEvent::Header(header) => EncoderRun { encoder: header_read(encoder, header), ..run },
        EncoderEvent::Transformed(sample) => EncoderRun {
            encoder: match sample_taken(encoder, sample) {
                Ok(after) => after,
                Err(_) => encoder,
            },
            ..run
        },
        EncoderEvent::CalledBack(meta, status, image) => EncoderRun {
            encoder: callback_taken(encoder, meta, status, image),
            ..run
        },
        EncoderEvent::Taken => EncoderRun {
            encoder: EncoderModel { samples: Seq::empty(), ..encoder },
            out: run.out + encoder.samples,
            ..run
        },
    }
}

/// The run of a new encoder through events.
pub open spec fn run_of(settings: EncoderSettings, events: Seq<EncoderEvent<'_>>) -> EncoderRun
    decreases events.len(),
{
    if events.len() == 0 {
        EncoderRun { encoder: fresh_encoder(settings), requests: Seq::empty(), out: Seq::empty() }
    } else {
        run_on(run_of(settings, events.drop_last()), events.last())
    }
}

/// The calls that hand frames over or finish the encoder.
pub open spec fn calls_of<'a>(events: Seq<EncoderEvent<'a>>) -> Seq<EncoderEvent<'a>>
    decreases events.len(),
{
    if events.len() == 0 {
        Seq::empty()
    } else if events.last() is Frame || events.last() is End {
        calls_of(events.drop_last()).push(events.last())
    } else {
        calls_of(events.drop_last())
    }
}

/// The answers of the system: what a transform returned, and callbacks.
pub open spec fn answers_of<'a>(events: Seq<EncoderEvent<'a>>) -> Seq<EncoderEvent<'a>>
    decreases events.len(),
{
    if events.len() == 0 {
        Seq::empty()
    } else if events.last() is Transformed || events.last() is CalledBack {
        answers_of(events.drop_last()).push(events.last())
    } else {
        answers_of(events.drop_last())
    }
}

/// The calls of a take: its frames, and then its end.
pub open spec fn take_calls<'a>(frames: Seq<nat>, end: nat) -> Seq<EncoderEvent<'a>> {
    frames.map_values(|pts: nat| EncoderEvent::<'a>::Frame(pts)).push(EncoderEvent::End(end))
}

/// Whether an event is the answer to a request, with a picture in it. A transform
/// returns the times that it was given, in its own units, where they fit; a
/// callback comes with the request itself.
pub open spec fn answers(event: EncoderEvent<'_>, request: EncodeRequest) -> bool {
    match event {
        EncoderEvent::Transformed(sample) => {
            &&& sample.bytes@.len() > 0
            &&& access_unit(sample.bytes@, true) is Some
            &&& access_unit(sample.bytes@, false) is Some
            &&& sample.time == Some(timeline::rounded_hns(request.pts as nat))
            &&& sample.duration == Some(timeline::hns_duration(request.duration as nat) as i64)
            &&& request.pts * 10_000_000 + 45_000 <= u64::MAX
        },
        EncoderEvent::CalledBack(meta, status, image) => {
            &&& meta == Some(request)
            &&& status == 0
            &&& image matches Some(image)
            &&& image.sets matches Some(sets)
            &&& sets is Ok
            &&& image.data matches Some(data)
            &&& data@.len() > 0
            &&& image.copy_status == 0
        },
        _ => false,
    }
}

/// Whether the calls and answers among events are the first ones of a take, each
/// answer for the frame with its index.
spec fn belongs_to_take(events: Seq<EncoderEvent<'_>>, frames: Seq<nat>, end: nat) -> bool {
    let calls = calls_of(events);
    let replies = answers_of(events);
    &&& calls.len() <= frames.len() + 1
    &&& forall|i: int| 0 <= i < calls.len() ==> #[trigger] calls[i] == take_calls(frames, end)[i]
    &&& replies.len() <= frames.len()
    &&& forall|i: int|
        0 <= i < replies.len() ==> answers(#[trigger] replies[i], request_of(frames, end, i))
}

/// How far a run is through a take.
spec fn is_through(run: EncoderRun, frames: Seq<nat>, end: nat, calls: nat, replies: nat) -> bool {
    let taken = run.out + run.encoder.samples;
    &&& run.encoder.error is None
    &&& run.encoder.finished == (calls == frames.len() + 1)
    &&& calls == 0 ==> run.encoder.last_pts is None && run.encoder.held is None
        && !run.encoder.submitted
    &&& 1 <= calls <= frames.len() ==> {
        &&& run.encoder.last_pts == Some(frames[calls - 1])
        &&& run.encoder.held == Some(frames[calls - 1])
        &&& run.encoder.submitted == (calls >= 2)
    }
    &&& run.requests.len() == if calls == 0 {
        0
    } else {
        (calls - 1) as nat
    }
    &&& forall|i: int|
        0 <= i < run.requests.len() ==> #[trigger] run.requests[i] == request_of(frames, end, i)
    &&& taken.len() == replies
    &&& forall|i: int|
        0 <= i < replies ==> {
            let sample = #[trigger] taken[i];
            &&& sample.pts == request_of(frames, end, i).pts
            &&& sample.duration == request_of(frames, end, i).duration
        }
}

proof fn lemma_run_through(
    settings: EncoderSettings,
    events: Seq<EncoderEvent<'_>>,
    frames: Seq<nat>,
    end: nat,
)
    requires
        belongs_to_take(events, frames, end),
    ensures
        is_through(
            run_of(settings, events),
            frames,
            end,
            calls_of(events).len(),
            answers_of(events).len(),
        ),
    decreases events.len(),
{
    if events.len() > 0 {
        let earlier = events.drop_last();
        let event = events.last();
        let calls = calls_of(earlier);
        let replies = answers_of(earlier);
        assert forall|i: int| 0 <= i < calls.len() implies #[trigger] calls[i] == take_calls(
            frames,
            end,
        )[i] by {
            assert(calls_of(events)[i] == calls[i]);
        }
        assert forall|i: int| 0 <= i < replies.len() implies answers(
            #[trigger] replies[i],
            request_of(frames, end, i),
        ) by {
            assert(answers_of(events)[i] == replies[i]);
        }
        lemma_run_through(settings, earlier, frames, end);
        let before = run_of(settings, earlier);
        let after = run_of(settings, events);
        let held = before.out + before.encoder.samples;
        let taken = after.out + after.encoder.samples;
        assert(after == run_on(before, event));
        if event is Frame || event is End {
            let count = calls.len() as int;
            assert(calls_of(events)[count] == event);
            assert(event == take_calls(frames, end)[count]);
            assert(taken == held);
        } else if event is Transformed || event is CalledBack {
            let count = replies.len() as int;
            assert(answers_of(events)[count] == event);
            let request = request_of(frames, end, count);
            assert(answers(event, request));
            let shown = timeline::shown_for(frames[count], shown_until(frames, end, count));
            timeline::law_timeline_is_monotone(shown, shown);
            if let EncoderEvent::Transformed(sample) = event {
                law_transform_keeps_times(before.encoder, request, sample);
            }
            let sample = after.encoder.samples.last();
            assert(after.encoder.samples =~= before.encoder.samples.push(sample));
            assert(taken =~= held.push(sample));
        } else if event is Taken {
            assert(taken =~= held);
        } else {
            assert(taken == held);
        }
    }
}

/// The whole way of a take through the encoder, whichever way the system answers:
/// where it drops no frame, each pushed frame is asked for once and comes back as
/// one sample, in the order of the frames, at the position of its frame and for as
/// long as that frame stayed on screen. It does not matter when the answers come
/// and when the samples are taken. Once they were taken, there is nothing more.
pub proof fn law_taken_samples_are_the_frames(
    settings: EncoderSettings,
    events: Seq<EncoderEvent<'_>>,
    frames: Seq<nat>,
    end: nat,
)
    requires
        calls_of(events) == take_calls(frames, end),
        answers_of(events).len() == frames.len(),
        forall|i: int|
            0 <= i < frames.len() ==> answers(
                #[trigger] answers_of(events)[i],
                request_of(frames, end, i),
            ),
    ensures
        ({
            let run = run_of(settings, events);
            let taken = run_on(run, EncoderEvent::Taken);
            &&& run.encoder.finished
            &&& run.encoder.error is None
            &&& run.requests.len() == frames.len()
            &&& forall|i: int|
                0 <= i < frames.len() ==> #[trigger] run.requests[i] == request_of(frames, end, i)
            &&& taken.out.len() == frames.len()
            &&& forall|i: int|
                0 <= i < frames.len() ==> {
                    let sample = #[trigger] taken.out[i];
                    &&& sample.pts == timeline::position_units(frames[i])
                    &&& sample.duration == timeline::sample_units(
                        timeline::shown_for(frames[i], shown_until(frames, end, i)),
                    )
                }
            &&& run_on(taken, EncoderEvent::Taken).out == taken.out
        }),
{
    lemma_run_through(settings, events, frames, end);
    let taken = run_on(run_of(settings, events), EncoderEvent::Taken);
    assert(run_on(taken, EncoderEvent::Taken).out =~= taken.out);
}

proof fn lemma_held_frames(encoder: EncoderModel, current: nat, frames: Seq<nat>, end: nat)
    requires
        encoder.last_pts == Some(current),
        encoder.held == Some(current),
    ensures
        requests_of(encoder, frames, end).len() == frames.len() + 1,
        forall|i: int|
            0 <= i <= frames.len() ==> {
                let shown = if i == 0 {
                    current
                } else {
                    frames[i - 1]
                };
                let next = if i < frames.len() {
                    frames[i]
                } else {
                    end
                };
                #[trigger] requests_of(encoder, frames, end)[i] == Some(
                    EncodeRequest {
                        pts: timeline::position_units(shown),
                        duration: timeline::sample_units(timeline::shown_for(shown, next)),
                        force_key_frame: i == 0 && !encoder.submitted,
                    },
                )
            },
    decreases frames.len(),
{
    if frames.len() > 0 {
        let held = frame_pushed(encoder, frames[0]);
        lemma_held_frames(held, frames[0], frames.drop_first(), end);
        let rest = requests_of(held, frames.drop_first(), end);
        let all = requests_of(encoder, frames, end);
        assert(all == seq![request_at(encoder, frames[0])] + rest);
        assert forall|i: int| 0 <= i <= frames.len() implies {
            let shown = if i == 0 {
                current
            } else {
                frames[i - 1]
            };
            let next = if i < frames.len() {
                frames[i]
            } else {
                end
            };
            #[trigger] all[i] == Some(
                EncodeRequest {
                    pts: timeline::position_units(shown),
                    duration: timeline::sample_units(timeline::shown_for(shown, next)),
                    force_key_frame: i == 0 && !encoder.submitted,
                },
            )
        } by {
            if i > 0 {
                assert(all[i] == rest[i - 1]);
                assert(frames.drop_first()[i - 1] == frames[i] || i == frames.len());
            }
        }
    }
}

/// Only the first failure outside of a call is kept, whatever comes after it.
pub proof fn law_first_error_is_kept(encoder: EncoderModel, first: Seq<char>, second: Seq<char>)
    requires
        encoder.error is None,
    ensures
        error_noted(error_noted(encoder, first), second).error == Some(first),
{
}

/// Samples hold the units of what a transform returned: all of them, or without the
/// parameter sets once those are known, for they then stand in the file's header.
pub proof fn law_known_sets_stay_out_of_samples(units: Seq<Seq<u8>>, long: Seq<bool>, known: bool)
    requires
        long.len() == units.len(),
        forall|i: int|
            0 <= i < units.len() ==> (#[trigger] units[i]).len() > 0 && nal::is_free_of_codes(
                units[i],
            ),
        forall|i: int| 0 <= i < units.len() ==> (#[trigger] units[i]).len() <= u32::MAX,
    ensures
        ({
            let left = units.filter(
                |u: Seq<u8>| !known || !(u[0] % 32 == 7 || u[0] % 32 == 8),
            );
            match access_unit(nal::joined(units, long), known) {
                Some(sample) => left.len() > 0 && nal::sample_units(sample, 0) == Some(left),
                None => left.len() == 0,
            }
        }),
        holds_sync(nal::joined(units, long)) <==> exists|i: int|
            0 <= i < units.len() && (#[trigger] units[i])[0] % 32 == 5,
{
    let data = nal::joined(units, long);
    let none = Seq::<u8>::empty();
    assert(none + data =~= data);
    nal::law_split_undoes_joining(none, units, long);
    assert forall|i: int| 0 <= i < units.len() implies nal::h264_type(#[trigger] units[i])
        == units[i][0] % 32 by {
        nal::law_types_stand_in_the_header(units[i]);
    }
    let p = |u: Seq<u8>| !known || !(u[0] % 32 == 7 || u[0] % 32 == 8);
    if known {
        let skip = |unit_type: u8| is_parameter_set(unit_type);
        nal::law_sample_holds_the_units_of_the_stream(none, units, long, skip);
        let q = |u: Seq<u8>| !skip(u[0] & 0x1f);
        assert forall|u: Seq<u8>| #[trigger] p(u) == q(u) by {
            nal::law_types_stand_in_the_header(u);
        }
        assert(p =~= q);
    } else {
        lemma_filter_all(units, p);
        assert(nal::lengths_fit(units));
        nal::law_sample_holds_its_units(units);
    }
}

proof fn lemma_filter_all(units: Seq<Seq<u8>>, p: spec_fn(Seq<u8>) -> bool)
    requires
        forall|u: Seq<u8>| #[trigger] p(u),
    ensures
        units.filter(p) == units,
    decreases units.len(),
{
    reveal(Seq::filter);
    if units.len() > 0 {
        lemma_filter_all(units.drop_last(), p);
        assert(units =~= units.drop_last().push(units.last()));
    }
}

/// What a transform returned becomes one sample: at the position and for the duration
/// that it reports, to be sought to if it says so, or if it says nothing and holds the
/// start of a chain. Without times it is refused, and without a unit passed over.
pub proof fn law_transform_samples(encoder: EncoderModel, sample: TransformSample<'_>)
    ensures
        ({
            let unit = access_unit(sample.bytes@, encoder.parameter_sets is Some);
            match sample_taken(encoder, sample) {
                Ok(after) => {
                    &&& sample.bytes@.len() == 0 || unit is None ==> after == encoder
                    &&& sample.bytes@.len() > 0 && unit is Some ==> {
                        let taken = after.samples.last();
                        &&& sample.time is Some && sample.duration is Some
                        &&& after == EncoderModel {
                            samples: encoder.samples.push(taken),
                            ..encoder
                        }
                        &&& Some(taken.bytes) == unit
                        &&& taken.pts == timeline::reported_position(sample.time->0)
                        &&& taken.duration == timeline::reported_duration(sample.duration->0)
                        &&& sample.clean_point matches Some(clean) ==> taken.is_sync == clean
                        &&& sample.clean_point is None ==> taken.is_sync == holds_sync(
                            sample.bytes@,
                        )
                    }
                },
                Err(error) => {
                    &&& error is MissingTimestamps
                    &&& sample.time is None || sample.duration is None
                    &&& sample.bytes@.len() > 0 && unit is Some
                },
            }
        }),
{
}

/// What a callback delivers becomes one sample, of its bytes and with the times of the
/// request that it answers; the parameter sets of the first one are kept. Anything that
/// is wrong with it is kept as the error, unless there is one already.
pub proof fn law_callback_samples(
    encoder: EncoderModel,
    meta: EncodeRequest,
    status: i32,
    image: CompressedImage,
)
    ensures
        ({
            let after = callback_taken(encoder, Some(meta), status, Some(image));
            let readable = encoder.parameter_sets is Some || (image.sets is Some && image.sets->0
                is Ok);
            let good = status == 0 && image.sets is Some && readable && image.data is Some
                && image.data->0@.len() > 0 && image.copy_status == 0;
            &&& good ==> {
                let taken = after.samples.last();
                &&& after.samples == encoder.samples.push(taken)
                &&& after.error == encoder.error
                &&& taken.bytes == image.data->0@
                &&& taken.is_sync == !image.not_sync
                &&& taken.pts == meta.pts
                &&& taken.duration == meta.duration
            }
            &&& !good ==> after.samples == encoder.samples && after.error is Some
            &&& encoder.error is Some ==> after.error == encoder.error
            &&& encoder.parameter_sets is Some ==> after.parameter_sets == encoder.parameter_sets
            &&& good && encoder.parameter_sets is None ==> {
                &&& image.sets matches Some(Ok(sets))
                &&& after.parameter_sets == Some(sets@)
            }
            &&& (after.settings, after.last_pts, after.held) == (
                encoder.settings,
                encoder.last_pts,
                encoder.held,
            )
            &&& (after.submitted, after.finished) == (encoder.submitted, encoder.finished)
        }),
        status == 0 ==> callback_taken(encoder, None, status, Some(image)) == encoder,
        status == 0 ==> callback_taken(encoder, Some(meta), status, None) == encoder,
{
}

/// What is wrong with the reading of a parameter set: a failure of the system, nothing
/// in it, or lengths of other than four bytes in front of the units.
pub proof fn law_readings_are_checked(reading: SetReading)
    ensures
        reading_error(reading) is None <==> reading.status == 0 && reading.bytes is Some
            && reading.bytes->0@.len() > 0 && reading.header_length == 4,
        reading.status != 0 ==> reading_error(reading) == Some(
            RecordingError::ParameterSetStatus { status: reading.status },
        ),
        reading.status == 0 && reading.bytes is Some && reading.bytes->0@.len() > 0
            && reading.header_length != 4 ==> reading_error(reading) == Some(
            RecordingError::LengthPrefix { length: reading.header_length },
        ),
{
}

/// An encoder is made exactly for frames of some size where the system has one, and of
/// a size that fits its numbers.
pub proof fn law_encoders_take_frames_of_some_size(settings: EncoderSettings, platform: Platform)
    ensures
        settings_error(settings, platform) is None <==> {
            &&& platform == Platform::MacOs || platform == Platform::Windows
            &&& settings.width > 0
            &&& settings.height > 0
            &&& platform == Platform::MacOs ==> settings.width <= i32::MAX && settings.height
                <= i32::MAX
        },
        platform == Platform::Other ==> settings_error(settings, platform) == Some(
            RecordingError::Unsupported,
        ),
        platform != Platform::Other && (settings.width == 0 || settings.height == 0)
            ==> settings_error(settings, platform) == Some(RecordingError::InvalidSize),
{
}

/// The sequence header of a stream holds its parameter sets: the last ones of each
/// kind count, and a header without both changes nothing.
pub proof fn law_headers_hold_the_sets(
    encoder: EncoderModel,
    units: Seq<Seq<u8>>,
    long: Seq<bool>,
    s: int,
    p: int,
)
    requires
        long.len() == units.len(),
        forall|i: int|
            0 <= i < units.len() ==> (#[trigger] units[i]).len() > 0 && nal::is_free_of_codes(
                units[i],
            ),
        0 <= s < units.len(),
        0 <= p < units.len(),
        units[s][0] % 32 == 7,
        units[p][0] % 32 == 8,
        forall|j: int| s < j < units.len() ==> (#[trigger] units[j])[0] % 32 != 7,
        forall|j: int| p < j < units.len() ==> (#[trigger] units[j])[0] % 32 != 8,
    ensures
        header_read(encoder, nal::joined(units, long)) == (EncoderModel {
            parameter_sets: Some(SetsModel { sps: units[s], pps: units[p] }),
            ..encoder
        }),
{
    let none = Seq::<u8>::empty();
    assert(none + nal::joined(units, long) =~= nal::joined(units, long));
    nal::law_split_undoes_joining(none, units, long);
    nal::law_last_parameter_sets_count(units, s);
    nal::law_last_parameter_sets_count(units, p);
}

/// The end of a take closes its encoder for good: the held frame is given out and no
/// further one is taken; nothing that was encoded is lost.
pub proof fn law_the_end_closes_the_encoder(encoder: EncoderModel)
    ensures
        closed(encoder).finished,
        closed(encoder).last_pts is None,
        encoder.last_pts is Some ==> closed(encoder).held is None,
        closed(encoder).samples == encoder.samples,
        closed(encoder).parameter_sets == encoder.parameter_sets,
        closed(encoder).error == encoder.error,
        closed(encoder).settings == encoder.settings,
{
}

} // verus!
