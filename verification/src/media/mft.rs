//! The decisions around a transform that takes whole access units and returns
//! images later: which submission an image answers, and how its memory is read.

use crate::media::decoder::Submission;
use crate::media::decoder_errors::DecoderError;
use crate::media::{decoder, planes};
use crate::media::{DecodedOutput, DecodedSlice, YuvMatrix, YuvPrimaries, YuvRange};
use std::collections::BTreeMap;
use vstd::prelude::*;

verus! {

broadcast use {
    vstd::std_specs::btree::group_btree_axioms,
    vstd::laws_cmp::group_laws_cmp,
};

/// Whether `key` is the smallest key of `map`.
pub open spec fn is_first_key(map: Map<i64, Submission>, key: i64) -> bool {
    &&& map.contains_key(key)
    &&& forall|other: i64| #[trigger] map.contains_key(other) ==> key <= other
}

/// The access units that a transform has not answered yet, by their time.
#[derive(Debug)]
pub struct PendingSamples {
    samples: BTreeMap<i64, Submission>,
}

impl View for PendingSamples {
    type V = Map<i64, Submission>;

    closed spec fn view(&self) -> Map<i64, Submission> {
        self.samples@
    }
}

impl PendingSamples {
    /// Nothing is pending.
    pub fn new() -> (pending: Self)
        ensures
            pending@ == Map::<i64, Submission>::empty(),
    {
        PendingSamples { samples: BTreeMap::new() }
    }

    /// Forgets every submission.
    pub fn clear(&mut self)
        ensures
            final(self)@ == Map::<i64, Submission>::empty(),
    {
        self.samples.clear();
    }

    /// The time under which a submission goes into the transform.
    pub fn sample_time(submission: u64) -> (result: Result<i64, DecoderError>)
        ensures
            if submission > i64::MAX {
                result matches Err(e) && e == DecoderError::SubmissionRange
            } else {
                result matches Ok(time) && time == if submission == i64::MAX {
                    i64::MAX as int
                } else {
                    submission + 1
                }
            },
    {
        if submission > i64::MAX as u64 {
            Err(DecoderError::SubmissionRange)
        } else if submission == i64::MAX as u64 {
            Ok(i64::MAX)
        } else {
            Ok(submission as i64 + 1)
        }
    }

    /// Takes note of a submission that the transform accepted.
    pub fn accepted(&mut self, time: i64, submission: Submission)
        ensures
            final(self)@ == old(self)@.insert(time, submission),
    {
        self.samples.insert(time, submission);
    }

    fn first_key(&self) -> (first: Option<i64>)
        ensures
            match first {
                Some(key) => is_first_key(self@, key),
                None => self@.dom() =~= Set::<i64>::empty(),
            },
    {
        let mut first: Option<i64> = None;
        for key in it: self.samples.keys()
            invariant
                match first {
                    Some(f) => {
                        &&& it.index() > 0
                        &&& self@.contains_key(f)
                        &&& forall|i: int| 0 <= i < it.index() ==> f <= *#[trigger] it.seq()[i]
                    },
                    None => it.index() == 0,
                },
                it.seq().unref().to_set() == self@.dom(),
        {
            assert(it.seq().unref()[it.index() as int] == *key);
            assert(it.seq().unref().to_set().contains(*key));
            let smaller = match first {
                Some(f) => *key < f,
                None => true,
            };
            if smaller {
                first = Some(*key);
            }
        }
        proof {
            let keys = vstd::std_specs::iter::IteratorSpec::remaining(&self.samples.keys());
            assert(keys.unref().to_set() == self@.dom());
            assert forall|other: i64| #[trigger] self@.contains_key(other) implies match first {
                Some(f) => f <= other,
                None => false,
            } by {
                assert(keys.unref().to_set().contains(other));
                let i = choose|i: int| 0 <= i < keys.unref().len() && keys.unref()[i] == other;
                assert(*keys[i] == other);
            }
        }
        first
    }

    /// Finds the submission that an image answers: the one at its time, else the
    /// one that waits longest.
    pub fn answered(&mut self, time: Option<i64>) -> (result: Result<Submission, DecoderError>)
        ensures
            match answered_key(old(self)@, time) {
                Some(key) => {
                    &&& result matches Ok(s) && s == old(self)@[key]
                    &&& final(self)@ == old(self)@.remove(key)
                },
                None => {
                    &&& result matches Err(e) && e == DecoderError::UnmatchedOutput
                    &&& final(self)@ == old(self)@
                },
            },
    {
        if let Some(time) = time {
            if let Some(submission) = self.samples.remove(&time) {
                return Ok(submission);
            }
            assert(old(self)@.remove(time) =~= old(self)@);
        }
        match self.first_key() {
            Some(first) => {
                proof {
                    lemma_first_key_is_unique(self@);
                }
                match self.samples.remove(&first) {
                    Some(submission) => Ok(submission),
                    None => Err(DecoderError::UnmatchedOutput),
                }
            },
            None => Err(DecoderError::UnmatchedOutput),
        }
    }
}

/// The key of the submission that an image of the given time answers.
pub open spec fn answered_key(map: Map<i64, Submission>, time: Option<i64>) -> Option<i64> {
    if time is Some && map.contains_key(time->0) {
        time
    } else if exists|key: i64| is_first_key(map, key) {
        Some(choose|key: i64| is_first_key(map, key))
    } else {
        None
    }
}

proof fn lemma_first_key_is_unique(map: Map<i64, Submission>)
    ensures
        forall|a: i64, b: i64| is_first_key(map, a) && is_first_key(map, b) ==> a == b,
{
}

/// Every image answers a submission as long as one is pending, and no submission
/// is answered twice.
pub proof fn law_each_submission_is_answered_once(map: Map<i64, Submission>, time: Option<i64>)
    requires
        map.dom().finite(),
        map.dom().len() > 0,
    ensures
        answered_key(map, time) is Some,
        map.contains_key(answered_key(map, time)->0),
        map.remove(answered_key(map, time)->0).dom().len() == map.dom().len() - 1,
{
    lemma_first_key_exists(map);
}

proof fn lemma_first_key_exists(map: Map<i64, Submission>)
    requires
        map.dom().finite(),
        map.dom().len() > 0,
    ensures
        exists|key: i64| is_first_key(map, key),
    decreases map.dom().len(),
{
    let any = map.dom().choose();
    let rest = map.remove(any);
    if rest.dom().len() == 0 {
        assert(rest.dom() =~= Set::<i64>::empty());
        assert forall|other: i64| #[trigger] map.contains_key(other) implies any <= other by {
            if other != any {
                assert(rest.dom().contains(other));
            }
        }
        assert(is_first_key(map, any));
    } else {
        lemma_first_key_exists(rest);
        let first = choose|key: i64| is_first_key(rest, key);
        let least = if any < first {
            any
        } else {
            first
        };
        assert forall|other: i64| #[trigger] map.contains_key(other) implies least <= other by {
            if other != any {
                assert(rest.contains_key(other));
            }
        }
        assert(is_first_key(map, least));
    }
}

/// How a transform lays out its images.
#[derive(Debug, Clone, Copy, PartialEq, Eq, Structural)]
pub struct OutputFormat {
    pub width: u32,
    pub height: u32,
    pub stride: usize,
    pub range: YuvRange,
    pub matrix: YuvMatrix,
}

/// The nominal range that covers all values of a byte, and the one that leaves
/// head and foot room.
pub const NOMINAL_RANGE_FULL: u32 = 1;

pub const NOMINAL_RANGE_VIDEO: u32 = 2;

/// The transfer matrices.
pub const MATRIX_BT709: u32 = 1;

pub const MATRIX_BT601: u32 = 2;

pub const MATRIX_BT2020_10: u32 = 4;

pub const MATRIX_BT2020_12: u32 = 5;

/// The range that a nominal range attribute stands for.
pub open spec fn range_named(nominal_range: Option<u32>) -> YuvRange {
    if nominal_range == Some(NOMINAL_RANGE_FULL) {
        YuvRange::Full
    } else {
        YuvRange::Video
    }
}

/// The matrix that a transfer matrix attribute stands for.
pub open spec fn matrix_named(transfer_matrix: Option<u32>) -> YuvMatrix {
    if transfer_matrix == Some(MATRIX_BT601) {
        YuvMatrix::Bt601
    } else if transfer_matrix == Some(MATRIX_BT2020_10) || transfer_matrix == Some(
        MATRIX_BT2020_12,
    ) {
        YuvMatrix::Bt2020
    } else {
        YuvMatrix::Bt709
    }
}

/// The nominal range attribute of a range.
pub open spec fn range_code(range: YuvRange) -> u32 {
    match range {
        YuvRange::Video => NOMINAL_RANGE_VIDEO,
        YuvRange::Full => NOMINAL_RANGE_FULL,
    }
}

/// The transfer matrix attribute of a matrix.
pub open spec fn matrix_code(matrix: YuvMatrix) -> u32 {
    match matrix {
        YuvMatrix::Bt601 => MATRIX_BT601,
        YuvMatrix::Bt709 => MATRIX_BT709,
        YuvMatrix::Bt2020 => MATRIX_BT2020_10,
    }
}

/// The attributes that describe the colours of frames to a transform: the
/// nominal range and the transfer matrix.
pub fn color_attributes(range: YuvRange, matrix: YuvMatrix) -> (codes: (u32, u32))
    ensures
        codes == (range_code(range), matrix_code(matrix)),
{
    let nominal: u32 = match range {
        YuvRange::Video => NOMINAL_RANGE_VIDEO,
        YuvRange::Full => NOMINAL_RANGE_FULL,
    };
    let transfer: u32 = match matrix {
        YuvMatrix::Bt601 => MATRIX_BT601,
        YuvMatrix::Bt709 => MATRIX_BT709,
        YuvMatrix::Bt2020 => MATRIX_BT2020_10,
    };
    (nominal, transfer)
}

/// Colours that are described to one transform are read back from another as
/// they were.
pub proof fn law_color_attributes_round_trip(range: YuvRange, matrix: YuvMatrix)
    ensures
        range_named(Some(range_code(range))) == range,
        matrix_named(Some(matrix_code(matrix))) == matrix,
{
}

/// The length of a row: the magnitude of the stride attribute, which is signed,
/// or the width.
pub open spec fn row_stride(width: u32, stride: Option<i32>) -> nat {
    match stride {
        Some(value) => if value < 0 {
            -value as nat
        } else {
            value as nat
        },
        None => width as nat,
    }
}

/// The format that the attributes of an output type describe.
pub fn output_format(
    packed_size: u64,
    stride: Option<i32>,
    nominal_range: Option<u32>,
    transfer_matrix: Option<u32>,
) -> (result: Result<OutputFormat, DecoderError>)
    ensures
        ({
            let width = (packed_size / 0x1_0000_0000) as u32;
            let height = (packed_size % 0x1_0000_0000) as u32;
            match result {
                Ok(format) => {
                    &&& width > 0
                    &&& height > 0
                    &&& row_stride(width, stride) >= width
                    &&& format.width == width
                    &&& format.height == height
                    &&& format.stride == row_stride(width, stride)
                    &&& format.range == range_named(nominal_range)
                    &&& format.matrix == matrix_named(transfer_matrix)
                },
                Err(e) => if width == 0 || height == 0 {
                    e == DecoderError::ZeroOutput
                } else {
                    &&& row_stride(width, stride) < width
                    &&& e == (DecoderError::NarrowStride {
                        stride: row_stride(width, stride) as usize,
                        width: width as usize,
                    })
                },
            }
        }),
{
    let width: u32 = (packed_size / 0x1_0000_0000) as u32;
    let height: u32 = (packed_size % 0x1_0000_0000) as u32;
    if width == 0 || height == 0 {
        return Err(DecoderError::ZeroOutput);
    }
    let stride: usize = match stride {
        Some(value) => if value < 0 {
            -(value as i64) as usize
        } else {
            value as usize
        },
        None => width as usize,
    };
    if stride < width as usize {
        return Err(DecoderError::NarrowStride { stride, width: width as usize });
    }
    let range = match nominal_range {
        Some(value) if value == NOMINAL_RANGE_FULL => YuvRange::Full,
        _ => YuvRange::Video,
    };
    let matrix = match transfer_matrix {
        Some(value) if value == MATRIX_BT601 => YuvMatrix::Bt601,
        Some(value) if value == MATRIX_BT2020_10 || value == MATRIX_BT2020_12 => YuvMatrix::Bt2020,
        _ => YuvMatrix::Bt709,
    };
    Ok(OutputFormat { width, height, stride, range, matrix })
}

impl OutputFormat {
    /// The bytes of the luma plane in memory.
    pub open spec fn luma_bytes(self) -> nat {
        self.stride as nat * self.height as nat
    }

    /// The bytes of the chroma plane in memory.
    pub open spec fn chroma_bytes(self) -> nat {
        self.stride as nat * decoder::half_up(self.height as nat)
    }

    /// The capacity that an output buffer needs, of which the transform asks for
    /// at least `requested` bytes.
    pub fn output_capacity(&self, requested: u32) -> (result: Result<u32, DecoderError>)
        ensures
            ({
                let minimum = self.luma_bytes() + self.chroma_bytes();
                let needed = if minimum > requested {
                    minimum
                } else {
                    requested as nat
                };
                if minimum > usize::MAX {
                    result matches Err(e) && e == DecoderError::OutputSizeOverflow
                } else if needed > u32::MAX {
                    result matches Err(e) && e == DecoderError::OutputTooLarge
                } else {
                    result matches Ok(capacity) && capacity == needed
                }
            }),
    {
        let rows: usize = (self.height / 2 + self.height % 2) as usize;
        assert(rows == decoder::half_up(self.height as nat));
        let luma: usize = match self.stride.checked_mul(self.height as usize) {
            Some(luma) => luma,
            None => {
                return Err(DecoderError::OutputSizeOverflow);
            },
        };
        let chroma: usize = match self.stride.checked_mul(rows) {
            Some(chroma) => chroma,
            None => {
                return Err(DecoderError::OutputSizeOverflow);
            },
        };
        let minimum: usize = match luma.checked_add(chroma) {
            Some(minimum) => minimum,
            None => {
                return Err(DecoderError::OutputSizeOverflow);
            },
        };
        let needed: usize = if minimum > requested as usize { minimum } else { requested as usize };
        if needed > u32::MAX as usize {
            Err(DecoderError::OutputTooLarge)
        } else {
            Ok(needed as u32)
        }
    }

    /// What is wrong with `len` bytes as an image of this format, if anything.
    pub open spec fn copy_error(self, len: nat) -> Option<DecoderError> {
        if self.luma_bytes() > usize::MAX {
            Some(DecoderError::LumaOverflow)
        } else if self.chroma_bytes() > usize::MAX {
            Some(DecoderError::ChromaOverflow)
        } else if self.luma_bytes() + self.chroma_bytes() > usize::MAX {
            Some(DecoderError::BufferOverflow)
        } else if len < self.luma_bytes() + self.chroma_bytes() {
            Some(
                DecoderError::Truncated {
                    required: (self.luma_bytes() + self.chroma_bytes()) as usize,
                    actual: len as usize,
                },
            )
        } else {
            None
        }
    }

    /// Whether `slice` is the image of this format in `bytes`.
    pub open spec fn is_image(self, slice: DecodedSlice, bytes: Seq<u8>) -> bool {
        &&& slice.width == self.width
        &&& slice.height == self.height
        &&& slice.y_plane@ == planes::rows_of(
            bytes,
            0,
            self.stride as nat,
            self.width as nat,
            self.height as nat,
        )
        &&& slice.uv_plane@ == planes::rows_of(
            bytes,
            self.luma_bytes(),
            self.stride as nat,
            self.width as nat,
            decoder::half_up(self.height as nat),
        )
        &&& slice.range == self.range
        &&& slice.matrix == self.matrix
        &&& slice.primaries == YuvPrimaries::Bt709
    }

    /// Copies an image out of the bytes of a buffer.
    pub fn copy_nv12(&self, bytes: &[u8]) -> (result: Result<DecodedSlice, DecoderError>)
        requires
            self.stride >= self.width,
        ensures
            match self.copy_error(bytes@.len()) {
                Some(error) => result matches Err(e) && e == error,
                None => result matches Ok(slice) && self.is_image(slice, bytes@),
            },
    {
        let total: usize = bytes.len();
        let rows: usize = (self.height / 2 + self.height % 2) as usize;
        assert(rows == decoder::half_up(self.height as nat));
        let luma: usize = match self.stride.checked_mul(self.height as usize) {
            Some(luma) => luma,
            None => {
                return Err(DecoderError::LumaOverflow);
            },
        };
        let chroma: usize = match self.stride.checked_mul(rows) {
            Some(chroma) => chroma,
            None => {
                return Err(DecoderError::ChromaOverflow);
            },
        };
        let required: usize = match luma.checked_add(chroma) {
            Some(required) => required,
            None => {
                return Err(DecoderError::BufferOverflow);
            },
        };
        if total < required {
            return Err(DecoderError::Truncated { required, actual: total });
        }
        proof {
            lemma_plane_inside(
                bytes@.len(),
                0,
                self.stride as nat,
                self.width as nat,
                self.height as nat,
            );
            lemma_plane_inside(
                bytes@.len(),
                luma as nat,
                self.stride as nat,
                self.width as nat,
                rows as nat,
            );
        }
        let y_plane = planes::gather_rows(
            bytes,
            0,
            self.stride,
            self.width as usize,
            self.height as usize,
        );
        let uv_plane = planes::gather_rows(bytes, luma, self.stride, self.width as usize, rows);
        Ok(
            DecodedSlice {
                width: self.width,
                height: self.height,
                y_plane,
                uv_plane,
                range: self.range,
                matrix: self.matrix,
                primaries: YuvPrimaries::Bt709,
            },
        )
    }
}

proof fn lemma_plane_inside(len: nat, first: nat, stride: nat, row_bytes: nat, rows: nat)
    requires
        first + stride * rows <= len,
        row_bytes <= stride,
    ensures
        planes::rows_inside(len, first, stride, row_bytes, rows),
{
    assert(rows > 0 ==> stride * rows == (rows - 1) * stride + stride) by (nonlinear_arith);
}

/// The output for an image that a transform returned.
pub fn transform_output(submission: Submission, info_flags: u32, slice: DecodedSlice) -> (output:
    DecodedOutput)
    ensures
        output.stream_index == submission.stream_index,
        output.timestamp == submission.timestamp,
        output.submission == submission.submission,
        output.encoded_bytes == submission.encoded_bytes,
        output.status == 0,
        output.info_flags == info_flags,
        output.conversion_error is None,
        output.frame == Some(slice),
{
    DecodedOutput {
        stream_index: submission.stream_index,
        timestamp: submission.timestamp,
        submission: submission.submission,
        encoded_bytes: submission.encoded_bytes,
        status: 0,
        info_flags,
        conversion_error: None,
        frame: Some(slice),
    }
}

/// An image answers the submission of its own time, and if there is none, the one that
/// waits longest.
pub proof fn law_images_answer_their_submission(map: Map<i64, Submission>, time: i64, first: i64)
    ensures
        map.contains_key(time) ==> answered_key(map, Some(time)) == Some(time),
        map.contains_key(first) && !map.contains_key(time) && (forall|other: i64| #[trigger]
            map.contains_key(other) ==> first <= other) ==> answered_key(map, Some(time)) == Some(
            first,
        ),
        map.contains_key(first) && (forall|other: i64| #[trigger]
            map.contains_key(other) ==> first <= other) ==> answered_key(map, None) == Some(first),
        (forall|other: i64| !#[trigger] map.contains_key(other)) ==> answered_key(map, Some(time))
            is None && answered_key(map, None) is None,
{
    lemma_first_key_is_unique(map);
    if map.contains_key(first) && (forall|other: i64| #[trigger]
        map.contains_key(other) ==> first <= other) {
        assert(is_first_key(map, first));
    }
}

/// The numbers that the system has for ranges and matrices; what it does not name is
/// the video range and the matrix of high definition.
pub proof fn law_color_numbers(number: u32)
    ensures
        range_code(YuvRange::Full) == 1,
        range_code(YuvRange::Video) == 2,
        matrix_code(YuvMatrix::Bt709) == 1,
        matrix_code(YuvMatrix::Bt601) == 2,
        matrix_code(YuvMatrix::Bt2020) == 4,
        range_named(None) is Video,
        range_named(Some(number)) is Full <==> number == 1,
        matrix_named(None) is Bt709,
        matrix_named(Some(number)) is Bt601 <==> number == 2,
        matrix_named(Some(number)) is Bt2020 <==> number == 4 || number == 5,
{
}

/// A stride counts by its magnitude; without one, rows are as long as they are wide.
pub proof fn law_strides_count_by_magnitude(width: u32, stride: i32)
    ensures
        row_stride(width, None) == width,
        stride >= 0 ==> row_stride(width, Some(stride)) == stride,
        stride < 0 ==> row_stride(width, Some(stride)) == -stride,
{
}

/// An image in a buffer is accepted exactly if both planes are there as a whole, and is
/// then read pixel by pixel, with the chroma plane right behind the luma plane.
pub proof fn law_buffers_hold_their_image(
    format: OutputFormat,
    slice: DecodedSlice,
    bytes: Seq<u8>,
    row: nat,
    column: nat,
)
    requires
        format.stride >= format.width,
        format.copy_error(bytes.len()) is None,
        format.is_image(slice, bytes),
        bytes.len() <= usize::MAX,
    ensures
        bytes.len() >= format.stride * format.height + format.stride * ((format.height + 1) / 2),
        (slice.width, slice.height) == (format.width, format.height),
        (slice.range, slice.matrix) == (format.range, format.matrix),
        slice.primaries == YuvPrimaries::Bt709,
        row < format.height && column < format.width ==> slice.y_plane@.len() == format.height
            * format.width && slice.y_plane@[(row * format.width + column) as int] == bytes[(row
            * format.stride + column) as int],
        row < (format.height + 1) / 2 && column < format.width ==> slice.uv_plane@.len() == (
        format.height + 1) / 2 * format.width && slice.uv_plane@[(row * format.width
            + column) as int] == bytes[(format.stride * format.height + row * format.stride
            + column) as int],
{
    let stride = format.stride as nat;
    let width = format.width as nat;
    let height = format.height as nat;
    let chroma = decoder::half_up(height);
    if row < height && column < width {
        lemma_plane_inside(bytes.len(), 0, stride, width, height);
        planes::law_gathered_rows(bytes, 0, stride, width, height, row, column);
    }
    if row < chroma && column < width {
        lemma_plane_inside(bytes.len(), format.luma_bytes(), stride, width, chroma);
        planes::law_gathered_rows(
            bytes,
            format.luma_bytes(),
            stride,
            width,
            chroma,
            row,
            column,
        );
    }
}

/// Exactly when an image is refused: its planes must be there as a whole.
pub proof fn law_short_buffers_are_refused(format: OutputFormat, len: nat)
    requires
        format.stride * format.height + format.stride * ((format.height + 1) / 2) <= usize::MAX,
    ensures
        format.copy_error(len) is None <==> len >= format.stride * format.height + format.stride * ((
        format.height + 1) / 2),
        format.copy_error(len) matches Some(error) ==> error == (DecoderError::Truncated {
            required: (format.stride * format.height + format.stride * ((format.height + 1)
                / 2)) as usize,
            actual: len as usize,
        }),
{
    assert(format.stride * ((format.height + 1) / 2) >= 0) by (nonlinear_arith);
    assert(format.stride * format.height >= 0) by (nonlinear_arith);
}

} // verus!
