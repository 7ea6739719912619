//! The bookkeeping of one recording file: when its track is created, what each
//! sample is written with, and what has been written so far. The container
//! itself is written outside.

use crate::recording::encoder::EncodedSample;
use crate::recording::errors::RecordingError;
use vstd::prelude::*;

verus! {

/// Everything the container needs about the encoded video except the samples.
#[derive(Debug)]
pub struct VideoTrackFormat {
    pub width: u32,
    pub height: u32,
    /// H.264 sequence parameter set, without a start code.
    pub sps: Vec<u8>,
    /// H.264 picture parameter set, without a start code.
    pub pps: Vec<u8>,
}

/// Summary of one finished recording file.
#[derive(Debug, Clone, Copy, PartialEq, Eq, Structural)]
pub struct MuxerSummary {
    pub bytes: u64,
    pub duration_units: u64,
}

/// The size of a track that has to be created before the next sample.
#[derive(Debug, Clone, Copy, PartialEq, Eq, Structural)]
pub struct NewTrack {
    pub width: u16,
    pub height: u16,
}

/// The state of a recording file.
#[derive(Debug, Clone, Copy, PartialEq, Eq, Structural)]
pub struct Mp4Muxer {
    /// Samples can still be written.
    pub open: bool,
    pub samples: u64,
    pub payload_bytes: u64,
    pub duration_units: u64,
}

/// `a + b`, cut off at the largest 64-bit number.
pub open spec fn saturated(a: nat, b: nat) -> u64 {
    if a + b > u64::MAX {
        u64::MAX
    } else {
        (a + b) as u64
    }
}

/// The duration that a sample is written with: never nothing, which would stall
/// playback.
pub open spec fn written_duration(duration: u32) -> u32 {
    if duration == 0 {
        1
    } else {
        duration
    }
}

/// The file after a sample was counted.
pub open spec fn counted(muxer: Mp4Muxer, bytes: nat, duration: u32) -> Mp4Muxer {
    Mp4Muxer {
        payload_bytes: saturated(muxer.payload_bytes as nat, bytes),
        duration_units: saturated(
            muxer.duration_units as nat,
            written_duration(duration) as nat,
        ),
        ..muxer
    }
}

impl Mp4Muxer {
    /// A file without samples.
    pub fn create() -> (muxer: Self)
        ensures
            muxer == (Mp4Muxer { open: true, samples: 0, payload_bytes: 0, duration_units: 0 }),
    {
        Mp4Muxer { open: true, samples: 0, payload_bytes: 0, duration_units: 0 }
    }

    /// The number of samples that were written.
    pub fn samples(&self) -> (samples: u64)
        ensures
            samples == self.samples,
    {
        self.samples
    }

    /// The length of the timeline so far.
    pub fn duration_units(&self) -> (units: u64)
        ensures
            units == self.duration_units,
    {
        self.duration_units
    }

    /// The size of the file on disk, or what was written to it where that is not
    /// known.
    pub fn file_bytes(&self, on_disk: Option<u64>) -> (bytes: u64)
        ensures
            bytes == match on_disk {
                Some(bytes) => bytes,
                None => self.payload_bytes,
            },
    {
        match on_disk {
            Some(bytes) => bytes,
            None => self.payload_bytes,
        }
    }

    /// What comes before the next sample: the first one needs a track.
    pub fn begin_sample(&self, format: &VideoTrackFormat) -> (result: Result<
        Option<NewTrack>,
        RecordingError,
    >)
        ensures
            if !self.open {
                result matches Err(e) && e == RecordingError::FileFinished
            } else if self.samples > 0 {
                result matches Ok(track) && track is None
            } else if format.width > u16::MAX {
                result matches Err(e) && e == (RecordingError::TrackWidth { width: format.width })
            } else if format.height > u16::MAX {
                result matches Err(e) && e == (RecordingError::TrackHeight {
                    height: format.height,
                })
            } else {
                result matches Ok(Some(track)) && track == (NewTrack {
                    width: format.width as u16,
                    height: format.height as u16,
                })
            },
    {
        if !self.open {
            return Err(RecordingError::FileFinished);
        }
        if self.samples > 0 {
            return Ok(None);
        }
        if format.width > u16::MAX as u32 {
            return Err(RecordingError::TrackWidth { width: format.width });
        }
        if format.height > u16::MAX as u32 {
            return Err(RecordingError::TrackHeight { height: format.height });
        }
        Ok(Some(NewTrack { width: format.width as u16, height: format.height as u16 }))
    }

    /// Counts a sample and gives the duration that it is written with.
    pub fn count_sample(&mut self, sample: &EncodedSample) -> (duration: u32)
        ensures
            duration == written_duration(sample.duration),
            *final(self) == counted(*old(self), sample.bytes@.len(), sample.duration),
    {
        let duration: u32 = if sample.duration == 0 { 1 } else { sample.duration };
        let len: usize = sample.bytes.len();
        self.payload_bytes = self.payload_bytes.saturating_add(len as u64);
        self.duration_units = self.duration_units.saturating_add(duration as u64);
        duration
    }

    /// Takes note of a sample that was written.
    pub fn sample_written(&mut self)
        ensures
            *final(self) == (Mp4Muxer {
                samples: saturated(old(self).samples as nat, 1),
                ..*old(self)
            }),
    {
        self.samples = self.samples.saturating_add(1);
    }

    /// Closes the file; it can be done once.
    pub fn finalize(&mut self) -> (result: Result<(), RecordingError>)
        ensures
            old(self).open ==> result is Ok,
            !old(self).open ==> (result matches Err(e) && e == RecordingError::FileFinished),
            *final(self) == (Mp4Muxer { open: false, ..*old(self) }),
    {
        if self.open {
            self.open = false;
            Ok(())
        } else {
            Err(RecordingError::FileFinished)
        }
    }

    /// The summary of a file that was closed.
    pub fn summary(&self, on_disk: Option<u64>) -> (summary: MuxerSummary)
        ensures
            summary == (MuxerSummary {
                bytes: match on_disk {
                    Some(bytes) => bytes,
                    None => self.payload_bytes,
                },
                duration_units: self.duration_units,
            }),
    {
        MuxerSummary {
            bytes: self.file_bytes(on_disk),
            duration_units: self.duration_units,
        }
    }
}

/// The durations of all samples together.
pub open spec fn total_duration(durations: Seq<u32>) -> nat
    decreases durations.len(),
{
    if durations.len() == 0 {
        0
    } else {
        total_duration(durations.drop_last()) + written_duration(durations.last()) as nat
    }
}

/// The timeline of a file after samples of the given durations.
pub open spec fn timeline_after(muxer: Mp4Muxer, durations: Seq<u32>) -> Mp4Muxer
    decreases durations.len(),
{
    if durations.len() == 0 {
        muxer
    } else {
        counted(timeline_after(muxer, durations.drop_last()), 0, durations.last())
    }
}

/// The timeline of a file is the sum of what its samples were shown for, and each
/// of them makes it longer, as long as the sum fits.
pub proof fn law_timeline_adds_up(muxer: Mp4Muxer, durations: Seq<u32>)
    requires
        muxer.duration_units + total_duration(durations) <= u64::MAX,
    ensures
        timeline_after(muxer, durations).duration_units == muxer.duration_units + total_duration(
            durations,
        ),
        total_duration(durations) >= durations.len(),
    decreases durations.len(),
{
    if durations.len() > 0 {
        law_timeline_adds_up(muxer, durations.drop_last());
    }
}

/// What a file counts of a sample: its bytes and its duration, which is never nothing;
/// a sample that was shown for some time counts for that time. Counts stop at the
/// largest number.
pub proof fn law_each_sample_counts(muxer: Mp4Muxer, bytes: nat, duration: u32)
    ensures
        written_duration(duration) >= 1,
        duration >= 1 ==> written_duration(duration) == duration,
        written_duration(0) == 1,
        ({
            let after = counted(muxer, bytes, duration);
            &&& after.open == muxer.open
            &&& after.samples == muxer.samples
            &&& muxer.payload_bytes + bytes <= u64::MAX ==> after.payload_bytes
                == muxer.payload_bytes + bytes
            &&& muxer.payload_bytes + bytes > u64::MAX ==> after.payload_bytes == u64::MAX
            &&& duration >= 1 && muxer.duration_units + duration <= u64::MAX
                ==> after.duration_units == muxer.duration_units + duration
            &&& after.duration_units >= muxer.duration_units
        }),
{
}

} // verus!
