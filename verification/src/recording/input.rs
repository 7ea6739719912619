//! How a captured frame is laid out for a system encoder.

use crate::media::planes;
use crate::media::{YuvMatrix, YuvRange};
use crate::recording::encoder::EncoderSettings;
use crate::recording::errors::RecordingError;
use crate::recording::layout::{SourceFrame, SourceModel};
use vstd::prelude::*;

verus! {

/// How the bytes of a frame are laid out for a transform.
#[derive(Debug, Clone, Copy, PartialEq, Eq, Structural)]
pub enum InputLayout {
    /// Packed 32-bit BGRA with `stride` bytes to a row.
    Bgra { stride: usize },
    /// The luma plane and then the interleaved chroma plane, both with `stride`
    /// bytes to a row.
    Nv12 { stride: usize },
}

/// Half of `n`, rounded up.
pub open spec fn half_up(n: nat) -> nat {
    (n + 1) / 2
}

/// The bytes of a chroma row: two for every pair of columns.
pub open spec fn chroma_row(width: nat) -> nat {
    2 * half_up(width)
}

/// Chooses the input of a transform: RGB where it is accepted, since a conversion
/// would lose chroma samples, and NV12 otherwise.
pub fn input_layout(width: u32, takes_bgra: bool, takes_nv12: bool) -> (result: Result<
    InputLayout,
    RecordingError,
>)
    requires
        width * 4 <= usize::MAX,
    ensures
        if takes_bgra {
            result matches Ok(layout) && layout == (InputLayout::Bgra {
                stride: (width * 4) as usize,
            })
        } else if takes_nv12 {
            result matches Ok(layout) && layout == (InputLayout::Nv12 { stride: width as usize })
        } else {
            result matches Err(e) && e == RecordingError::NoInputFormat
        },
{
    if takes_bgra {
        Ok(InputLayout::Bgra { stride: width as usize * 4 })
    } else if takes_nv12 {
        Ok(InputLayout::Nv12 { stride: width as usize })
    } else {
        Err(RecordingError::NoInputFormat)
    }
}

/// The bytes of a frame for a transform, and the capacity of their buffer.
#[derive(Debug)]
pub struct PackedFrame {
    pub bytes: Vec<u8>,
    pub capacity: u32,
}

/// `n` without what exceeds the largest size in memory.
pub open spec fn in_memory(n: nat) -> nat {
    if n > usize::MAX {
        usize::MAX as nat
    } else {
        n
    }
}

/// What is wrong with a frame for a transform, before its size is considered.
pub open spec fn packing_error(
    layout: InputLayout,
    frame: SourceModel,
    width: nat,
    height: nat,
) -> Option<RecordingError> {
    match (layout, frame) {
        (InputLayout::Bgra { stride }, SourceModel::Bgra { stride: source, bytes }) => if stride
            < width * 4 || bytes.len() < in_memory(source * height) {
            Some(RecordingError::BgraMismatch)
        } else {
            None
        },
        (InputLayout::Nv12 { stride }, SourceModel::Nv12 { y_stride, y, uv_stride, uv, .. }) =>
            if stride < width || y.len() < in_memory(y_stride * height) || uv.len() < in_memory(
            uv_stride * half_up(height),
        ) {
            Some(RecordingError::Nv12Mismatch)
        } else {
            None
        },
        _ => Some(RecordingError::FormatMismatch),
    }
}

/// Whether every row of a frame lies inside its memory.
pub open spec fn rows_readable(frame: SourceModel, width: nat, height: nat) -> bool {
    match frame {
        SourceModel::Bgra { stride, bytes } => planes::rows_inside(
            bytes.len(),
            0,
            stride,
            width * 4,
            height,
        ),
        SourceModel::Nv12 { y_stride, y, uv_stride, uv, .. } => {
            &&& planes::rows_inside(y.len(), 0, y_stride, width, height)
            &&& planes::rows_inside(uv.len(), 0, uv_stride, chroma_row(width), half_up(height))
        },
    }
}

/// The bytes of a frame in the layout of a transform: BGRA rows without
/// anything between them; NV12 rows filled up with zeros to the stride.
pub open spec fn packed_bytes(
    layout: InputLayout,
    frame: SourceModel,
    width: nat,
    height: nat,
) -> Seq<u8> {
    match (layout, frame) {
        (InputLayout::Nv12 { stride }, SourceModel::Nv12 { y_stride, y, uv_stride, uv, .. }) =>
            planes::padded_rows(y, y_stride, width, stride as nat, height) + planes::padded_rows(
            uv,
            uv_stride,
            chroma_row(width),
            stride as nat,
            half_up(height),
        ),
        (_, SourceModel::Bgra { stride, bytes }) => planes::rows_of(
            bytes,
            0,
            stride,
            width * 4,
            height,
        ),
        _ => Seq::empty(),
    }
}

/// The bytes that the layout of a transform takes in all.
pub open spec fn layout_bytes(layout: InputLayout, height: nat) -> nat {
    match layout {
        InputLayout::Bgra { stride } => stride as nat * height,
        InputLayout::Nv12 { stride } => in_memory(stride as nat * (height + half_up(height))),
    }
}

fn half(n: usize) -> (h: usize)
    ensures
        h == half_up(n as nat),
{
    n / 2 + n % 2
}

fn saturating_product(a: usize, b: usize) -> (p: usize)
    ensures
        p == in_memory(a as nat * b as nat),
{
    match a.checked_mul(b) {
        Some(p) => p,
        None => usize::MAX,
    }
}

/// Puts a frame into the layout of a transform.
pub fn pack_frame(layout: InputLayout, frame: &SourceFrame<'_>, width: u32, height: u32) -> (result:
    Result<PackedFrame, RecordingError>)
    requires
        height > 0,
        packing_error(layout, frame@, width as nat, height as nat) is None ==> rows_readable(
            frame@,
            width as nat,
            height as nat,
        ),
    ensures
        match packing_error(layout, frame@, width as nat, height as nat) {
            Some(error) => result matches Err(e) && e == error,
            None => {
                let bytes = packed_bytes(layout, frame@, width as nat, height as nat);
                let whole = layout_bytes(layout, height as nat);
                let capacity = if whole > bytes.len() {
                    whole
                } else {
                    bytes.len()
                };
                if capacity > u32::MAX {
                    result matches Err(e) && e == RecordingError::FrameTooLarge
                } else {
                    &&& result matches Ok(packed)
                    &&& packed.bytes@ == bytes
                    &&& packed.capacity == capacity
                }
            },
        },
{
    let rows: usize = height as usize;
    let columns: usize = width as usize;
    match (layout, *frame) {
        (InputLayout::Bgra { stride }, SourceFrame::Bgra { stride: source, bytes }) => {
            let len: usize = bytes.len();
            let row_bytes: usize = match columns.checked_mul(4) {
                Some(row_bytes) => row_bytes,
                None => {
                    return Err(RecordingError::BgraMismatch);
                },
            };
            if stride < row_bytes || len < saturating_product(source, rows) {
                return Err(RecordingError::BgraMismatch);
            }
            let packed = planes::gather_rows(bytes, 0, source, row_bytes, rows);
            let whole: usize = match stride.checked_mul(rows) {
                Some(whole) => whole,
                None => {
                    return Err(RecordingError::FrameTooLarge);
                },
            };
            with_capacity(packed, whole)
        },
        (InputLayout::Nv12 { stride }, SourceFrame::Nv12 { y_stride, y, uv_stride, uv, .. }) => {
            let y_len: usize = y.len();
            let uv_len: usize = uv.len();
            let chroma_rows: usize = half(rows);
            if stride < columns || y_len < saturating_product(y_stride, rows) || uv_len
                < saturating_product(uv_stride, chroma_rows) {
                return Err(RecordingError::Nv12Mismatch);
            }
            assert(0 <= (chroma_rows - 1) * uv_stride) by (nonlinear_arith)
                requires
                    chroma_rows >= 1,
                    0 <= uv_stride,
            ;
            assert(chroma_row(columns as nat) <= uv_len);
            let chroma_bytes: usize = half(columns) * 2;
            let mut packed: Vec<u8> = Vec::new();
            planes::push_padded_rows(&mut packed, y, y_stride, columns, stride, rows);
            planes::push_padded_rows(
                &mut packed,
                uv,
                uv_stride,
                chroma_bytes,
                stride,
                chroma_rows,
            );
            assert(packed@ =~= packed_bytes(layout, frame@, width as nat, height as nat));
            let whole: usize = match rows.checked_add(chroma_rows) {
                Some(all_rows) => saturating_product(stride, all_rows),
                None => {
                    proof {
                        lemma_more_rows(stride as nat, rows as nat + chroma_rows as nat);
                    }
                    if stride == 0 {
                        0
                    } else {
                        usize::MAX
                    }
                },
            };
            with_capacity(packed, whole)
        },
        _ => Err(RecordingError::FormatMismatch),
    }
}

proof fn lemma_more_rows(stride: nat, rows: nat)
    requires
        rows > usize::MAX,
    ensures
        stride > 0 ==> stride * rows > usize::MAX,
        stride == 0 ==> stride * rows == 0,
{
    assert(stride > 0 ==> stride * rows >= rows) by (nonlinear_arith);
}

fn with_capacity(bytes: Vec<u8>, whole: usize) -> (result: Result<PackedFrame, RecordingError>)
    ensures
        ({
            let capacity = if whole > bytes@.len() {
                whole as nat
            } else {
                bytes@.len()
            };
            if capacity > u32::MAX {
                result matches Err(e) && e == RecordingError::FrameTooLarge
            } else {
                &&& result matches Ok(packed)
                &&& packed.bytes@ == bytes@
                &&& packed.capacity == capacity
            }
        }),
{
    let len: usize = bytes.len();
    let capacity: usize = if whole > len { whole } else { len };
    if capacity > u32::MAX as usize {
        Err(RecordingError::FrameTooLarge)
    } else {
        Ok(PackedFrame { bytes, capacity: capacity as u32 })
    }
}

/// The image formats that a system encoder's pixel buffers have.
#[derive(Debug, Clone, Copy, PartialEq, Eq, Structural)]
pub enum ImageFormat {
    Bgra,
    Nv12VideoRange,
    Nv12FullRange,
}

/// The format of the pixel buffer for a frame, and the matrix that it is tagged
/// with.
pub fn image_format(frame: &SourceFrame<'_>) -> (format: (ImageFormat, YuvMatrix))
    ensures
        format == match frame@ {
            SourceModel::Bgra { .. } => (ImageFormat::Bgra, YuvMatrix::Bt709),
            SourceModel::Nv12 { range: YuvRange::Video, matrix, .. } => (
                ImageFormat::Nv12VideoRange,
                matrix,
            ),
            SourceModel::Nv12 { range: YuvRange::Full, matrix, .. } => (
                ImageFormat::Nv12FullRange,
                matrix,
            ),
        },
{
    match *frame {
        SourceFrame::Bgra { .. } => (ImageFormat::Bgra, YuvMatrix::Bt709),
        SourceFrame::Nv12 { range, matrix, .. } => match range {
            YuvRange::Video => (ImageFormat::Nv12VideoRange, matrix),
            YuvRange::Full => (ImageFormat::Nv12FullRange, matrix),
        },
    }
}

/// What is wrong with a frame for a pixel buffer, if anything.
pub open spec fn image_error(frame: SourceModel, width: nat, height: nat) -> Option<
    RecordingError,
> {
    match frame {
        SourceModel::Bgra { stride, bytes } => if bytes.len() < stride * height || stride < width
            * 4 {
            Some(RecordingError::BgraMismatch)
        } else {
            None
        },
        SourceModel::Nv12 { y_stride, y, uv_stride, uv, .. } => if y.len() < y_stride
            * height || y_stride < width || uv.len() < uv_stride * half_up(height) || uv_stride
            < chroma_row(width) {
            Some(RecordingError::Nv12Mismatch)
        } else {
            None
        },
    }
}

/// The contents of the planes of a pixel buffer; a BGRA image has only the first.
#[derive(Debug)]
pub struct ImagePlanes {
    pub first: Vec<u8>,
    pub second: Vec<u8>,
}

proof fn lemma_rows_fit(stride: nat, row_bytes: nat, rows: nat, len: nat)
    requires
        row_bytes <= stride,
        stride * rows <= len,
    ensures
        planes::rows_inside(len, 0, stride, row_bytes, rows),
{
    assert(rows > 0 ==> stride * rows == (rows - 1) * stride + stride) by (nonlinear_arith);
}

/// Whether memory holds all the rows of a plane.
fn holds_rows(bytes: &[u8], stride: usize, rows: usize) -> (yes: bool)
    ensures
        yes == (bytes@.len() >= stride * rows),
{
    let len: usize = bytes.len();
    match stride.checked_mul(rows) {
        Some(all) => len >= all,
        None => false,
    }
}

/// Lays a frame out for the planes of a pixel buffer, whose rows have the given
/// lengths.
pub fn create_image(
    frame: &SourceFrame<'_>,
    settings: &EncoderSettings,
    first_stride: usize,
    second_stride: usize,
) -> (result: Result<ImagePlanes, RecordingError>)
    ensures
        match image_error(frame@, settings.width as nat, settings.height as nat) {
            Some(error) => result matches Err(e) && e == error,
            None => {
                &&& result matches Ok(image)
                &&& match frame@ {
                    SourceModel::Bgra { stride, bytes } => {
                        &&& image.first@ == planes::padded_rows(
                            bytes,
                            stride,
                            settings.width as nat * 4,
                            first_stride as nat,
                            settings.height as nat,
                        )
                        &&& image.second@ == Seq::<u8>::empty()
                    },
                    SourceModel::Nv12 { y_stride, y, uv_stride, uv, .. } => {
                        &&& image.first@ == planes::padded_rows(
                            y,
                            y_stride,
                            settings.width as nat,
                            first_stride as nat,
                            settings.height as nat,
                        )
                        &&& image.second@ == planes::padded_rows(
                            uv,
                            uv_stride,
                            chroma_row(settings.width as nat),
                            second_stride as nat,
                            half_up(settings.height as nat),
                        )
                    },
                }
            },
        },
{
    let rows: usize = settings.height as usize;
    let columns: usize = settings.width as usize;
    let mut first: Vec<u8> = Vec::new();
    let mut second: Vec<u8> = Vec::new();
    match *frame {
        SourceFrame::Bgra { stride, bytes } => {
            let row_bytes: usize = match columns.checked_mul(4) {
                Some(row_bytes) => row_bytes,
                None => {
                    return Err(RecordingError::BgraMismatch);
                },
            };
            if !holds_rows(bytes, stride, rows) || stride < row_bytes {
                return Err(RecordingError::BgraMismatch);
            }
            proof {
                lemma_rows_fit(stride as nat, row_bytes as nat, rows as nat, bytes@.len());
            }
            planes::push_padded_rows(&mut first, bytes, stride, row_bytes, first_stride, rows);
            assert(first@ =~= planes::padded_rows(
                bytes@,
                stride as nat,
                row_bytes as nat,
                first_stride as nat,
                rows as nat,
            ));
        },
        SourceFrame::Nv12 { y_stride, y, uv_stride, uv, .. } => {
            let chroma_rows: usize = half(rows);
            let chroma_bytes: usize = match half(columns).checked_mul(2) {
                Some(chroma_bytes) => chroma_bytes,
                None => {
                    return Err(RecordingError::Nv12Mismatch);
                },
            };
            if !holds_rows(y, y_stride, rows) || y_stride < columns || !holds_rows(
                uv,
                uv_stride,
                chroma_rows,
            ) || uv_stride < chroma_bytes {
                return Err(RecordingError::Nv12Mismatch);
            }
            proof {
                lemma_rows_fit(y_stride as nat, columns as nat, rows as nat, y@.len());
                lemma_rows_fit(
                    uv_stride as nat,
                    chroma_bytes as nat,
                    chroma_rows as nat,
                    uv@.len(),
                );
            }
            planes::push_padded_rows(&mut first, y, y_stride, columns, first_stride, rows);
            planes::push_padded_rows(
                &mut second,
                uv,
                uv_stride,
                chroma_bytes,
                second_stride,
                chroma_rows,
            );
            assert(first@ =~= planes::padded_rows(
                y@,
                y_stride as nat,
                columns as nat,
                first_stride as nat,
                rows as nat,
            ));
            assert(second@ =~= planes::padded_rows(
                uv@,
                uv_stride as nat,
                chroma_bytes as nat,
                second_stride as nat,
                chroma_rows as nat,
            ));
        },
    }
    Ok(ImagePlanes { first, second })
}

/// `n` without what exceeds the largest 32-bit number.
pub open spec fn in_u32(n: nat) -> nat {
    if n > u32::MAX {
        u32::MAX as nat
    } else {
        n
    }
}

/// The size of the buffer for an encoded sample: at least what the transform asks
/// for, and at least twice as many bytes as the frame has pixels. A transform
/// that brings its own samples only needs some buffer.
pub fn output_capacity(width: u32, height: u32, provides_samples: bool, requested: u32) -> (capacity:
    u32)
    ensures
        capacity == if provides_samples {
            1024
        } else {
            let estimate = in_u32(in_u32(in_u32(width as nat * height as nat) * 2) + 0x1_0000);
            if requested > estimate {
                requested as nat
            } else {
                estimate
            }
        },
{
    if provides_samples {
        return 1024;
    }
    let pixels: u64 = match (width as u64).checked_mul(height as u64) {
        Some(pixels) => pixels,
        None => u64::MAX,
    };
    assert(width as nat * height as nat <= 0xffff_ffff * 0xffff_ffff) by (nonlinear_arith)
        requires
            0 <= width <= 0xffff_ffff,
            0 <= height <= 0xffff_ffff,
    ;
    let pixels: u64 = if pixels > u32::MAX as u64 { u32::MAX as u64 } else { pixels };
    let doubled: u64 = if pixels * 2 > u32::MAX as u64 { u32::MAX as u64 } else { pixels * 2 };
    let estimate: u64 = if doubled + 0x1_0000 > u32::MAX as u64 {
        u32::MAX as u64
    } else {
        doubled + 0x1_0000
    };
    if requested as u64 > estimate {
        requested
    } else {
        estimate as u32
    }
}

/// Two 32-bit numbers as one attribute.
pub fn packed_pair(high: u32, low: u32) -> (packed: u64)
    ensures
        packed == high * 0x1_0000_0000 + low,
{
    high as u64 * 0x1_0000_0000 + low as u64
}

/// The frame rate attribute: frames to one second, at least one.
pub fn packed_frame_rate(frame_rate_hint: u32) -> (packed: u64)
    ensures
        packed == (if frame_rate_hint == 0 {
            1
        } else {
            frame_rate_hint as int
        }) * 0x1_0000_0000 + 1,
{
    packed_pair(if frame_rate_hint == 0 { 1 } else { frame_rate_hint }, 1)
}

/// The average bitrate as a signed number, cut off where it does not fit.
pub fn signed_bitrate(bitrate: u32) -> (signed: i32)
    ensures
        signed == if bitrate > i32::MAX {
            i32::MAX as int
        } else {
            bitrate as int
        },
{
    if bitrate > i32::MAX as u32 {
        i32::MAX
    } else {
        bitrate as i32
    }
}

/// A number of track units as a signed number, cut off where it does not fit.
pub fn signed_units(units: u64) -> (signed: i64)
    ensures
        signed == if units > i64::MAX {
            i64::MAX as int
        } else {
            units as int
        },
{
    if units > i64::MAX as u64 {
        i64::MAX
    } else {
        units as i64
    }
}

/// A frame is packed exactly if it is in the format of the transform, the transform's
/// rows hold its pixels, and all of its rows are there.
pub proof fn law_frames_must_fit_the_transform(
    layout: InputLayout,
    frame: SourceModel,
    width: nat,
    height: nat,
)
    ensures
        match (layout, frame) {
            (InputLayout::Bgra { stride }, SourceModel::Bgra { stride: source, bytes }) => {
                &&& source * height <= usize::MAX ==> (packing_error(layout, frame, width, height)
                    is None <==> stride >= 4 * width && bytes.len() >= source * height)
                &&& packing_error(layout, frame, width, height) matches Some(e) ==> e
                    is BgraMismatch
            },
            (InputLayout::Nv12 { stride }, SourceModel::Nv12 { y_stride, y, uv_stride, uv, .. }) => {
                &&& y_stride * height <= usize::MAX && uv_stride * ((height + 1) / 2) <= usize::MAX
                    ==> (packing_error(layout, frame, width, height) is None <==> stride >= width
                    && y.len() >= y_stride * height && uv.len() >= uv_stride * ((height + 1) / 2))
                &&& packing_error(layout, frame, width, height) matches Some(e) ==> e
                    is Nv12Mismatch
            },
            _ => packing_error(layout, frame, width, height) == Some(
                RecordingError::FormatMismatch,
            ),
        },
{
}

/// A packed BGRA frame: each byte of a row comes from its place in the frame, one row
/// behind the other.
pub proof fn law_packed_rows_are_those_of_the_frame(
    stride: usize,
    source: nat,
    bytes: Seq<u8>,
    width: nat,
    height: nat,
    row: nat,
    column: nat,
)
    requires
        rows_readable(SourceModel::Bgra { stride: source, bytes }, width, height),
        row < height,
        column < 4 * width,
    ensures
        ({
            let packed = packed_bytes(
                InputLayout::Bgra { stride },
                SourceModel::Bgra { stride: source, bytes },
                width,
                height,
            );
            &&& packed.len() == height * (width * 4)
            &&& packed[(row * (width * 4) + column) as int] == bytes[(row * source + column) as int]
        }),
{
    planes::law_gathered_rows(bytes, 0, source, width * 4, height, row, column);
}

/// A packed NV12 frame: the luma rows, and behind all of them the chroma rows, each
/// from its place in its plane and filled up with zeros to the transform's row.
pub proof fn law_packed_planes_are_those_of_the_frame(
    stride: usize,
    frame: SourceModel,
    width: nat,
    height: nat,
    row: nat,
    column: nat,
)
    requires
        frame is Nv12,
        rows_readable(frame, width, height),
        width + 1 <= stride,
        column < stride,
    ensures
        ({
            let packed = packed_bytes(InputLayout::Nv12 { stride }, frame, width, height);
            let chroma = 2 * ((width + 1) / 2);
            &&& row < height ==> packed[(row * stride + column) as int] == if column < width {
                frame->y[(row * frame->y_stride + column) as int]
            } else {
                0
            }
            &&& row < (height + 1) / 2 ==> packed[(height * stride + row * stride + column) as int]
                == if column < chroma {
                frame->uv[(row * frame->uv_stride + column) as int]
            } else {
                0
            }
        }),
{
    if let SourceModel::Nv12 { y_stride, y, uv_stride, uv, .. } = frame {
        let s = stride as nat;
        let luma = planes::padded_rows(y, y_stride, width, s, height);
        let packed = packed_bytes(InputLayout::Nv12 { stride }, frame, width, height);
        if height > 0 {
            planes::law_padded_rows(y, y_stride, width, s, height, 0, column);
        }
        if row < height {
            planes::law_padded_rows(y, y_stride, width, s, height, row, column);
            assert(packed[(row * s + column) as int] == luma[(row * s + column) as int]);
        }
        if row < (height + 1) / 2 {
            planes::law_padded_rows(
                uv,
                uv_stride,
                chroma_row(width),
                s,
                half_up(height),
                row,
                column,
            );
            assert(luma.len() == height * s);
        }
    }
}

/// The rows of a frame are readable if its memory holds them up to their last pixel.
pub proof fn law_readable_rows(frame: SourceModel, width: nat, height: nat, row: nat)
    requires
        rows_readable(frame, width, height),
    ensures
        frame matches SourceModel::Bgra { stride, bytes } ==> (row < height ==> row * stride + 4
            * width <= bytes.len()),
        frame matches SourceModel::Nv12 { y_stride, y, uv_stride, uv, .. } ==> (row < height ==> row
            * y_stride + width <= y.len()) && (row < (height + 1) / 2 ==> row * uv_stride + 2 * ((
        width + 1) / 2) <= uv.len()),
{
    match frame {
        SourceModel::Bgra { stride, bytes } => {
            if row < height {
                planes::law_rows_lie_inside(bytes.len(), 0, stride, width * 4, height, row);
            }
        },
        SourceModel::Nv12 { y_stride, y, uv_stride, uv, .. } => {
            if row < height {
                planes::law_rows_lie_inside(y.len(), 0, y_stride, width, height, row);
            }
            if row < half_up(height) {
                planes::law_rows_lie_inside(
                    uv.len(),
                    0,
                    uv_stride,
                    chroma_row(width),
                    half_up(height),
                    row,
                );
            }
        },
    }
}

/// A frame is laid out for a pixel buffer exactly if its rows hold its pixels and all
/// of them are there.
pub proof fn law_frames_must_fit_the_image(frame: SourceModel, width: nat, height: nat)
    ensures
        image_error(frame, width, height) is None <==> match frame {
            SourceModel::Bgra { stride, bytes } => stride >= 4 * width && bytes.len() >= stride
                * height,
            SourceModel::Nv12 { y_stride, y, uv_stride, uv, .. } => y_stride >= width && y.len()
                >= y_stride * height && uv_stride >= 2 * ((width + 1) / 2) && uv.len() >= uv_stride
                * ((height + 1) / 2),
        },
        frame is Bgra ==> (image_error(frame, width, height) matches Some(e) ==> e
            is BgraMismatch),
        frame is Nv12 ==> (image_error(frame, width, height) matches Some(e) ==> e
            is Nv12Mismatch),
{
}

/// The buffer of a transform holds all rows of its layout, of both planes for NV12.
pub proof fn law_layouts_hold_all_rows(stride: usize, height: nat)
    ensures
        layout_bytes(InputLayout::Bgra { stride }, height) == stride * height,
        stride * (height + (height + 1) / 2) <= usize::MAX ==> layout_bytes(
            InputLayout::Nv12 { stride },
            height,
        ) == stride * (height + (height + 1) / 2),
{
}

} // verus!
