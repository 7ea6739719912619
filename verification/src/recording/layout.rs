//! Where the parts of a captured frame sit in their staging buffer.

use crate::media::{YuvMatrix, YuvPrimaries, YuvRange};
use crate::renderer::presentation::PresentedSource;
use crate::renderer::presentation;
use vstd::prelude::*;

verus! {

/// Buffer copies require rows to start on a 256-byte boundary.
pub const ROW_ALIGNMENT: u64 = 256;

/// The image formats an encoder can be handed.
#[derive(Debug, Clone, Copy)]
pub enum SourceFrame<'a> {
    /// Packed 8-bit BGRA.
    Bgra { stride: usize, bytes: &'a [u8] },
    /// Biplanar 8-bit 4:2:0 with interleaved chroma.
    Nv12 {
        y_stride: usize,
        y: &'a [u8],
        uv_stride: usize,
        uv: &'a [u8],
        range: YuvRange,
        matrix: YuvMatrix,
    },
}

/// What a `SourceFrame` holds.
pub enum SourceModel {
    Bgra { stride: nat, bytes: Seq<u8> },
    Nv12 {
        y_stride: nat,
        y: Seq<u8>,
        uv_stride: nat,
        uv: Seq<u8>,
        range: YuvRange,
        matrix: YuvMatrix,
    },
}

impl<'a> View for SourceFrame<'a> {
    type V = SourceModel;

    open spec fn view(&self) -> SourceModel {
        match *self {
            SourceFrame::Bgra { stride, bytes } => SourceModel::Bgra {
                stride: stride as nat,
                bytes: bytes@,
            },
            SourceFrame::Nv12 { y_stride, y, uv_stride, uv, range, matrix } => SourceModel::Nv12 {
                y_stride: y_stride as nat,
                y: y@,
                uv_stride: uv_stride as nat,
                uv: uv@,
                range,
                matrix,
            },
        }
    }
}

/// Where each part of a captured frame sits inside its staging buffer.
#[derive(Debug, Clone, Copy, PartialEq, Eq, Structural)]
pub enum FrameLayout {
    Bgra { width: u32, height: u32, stride: u32, offset: u64 },
    Nv12 {
        width: u32,
        height: u32,
        y_stride: u32,
        y_offset: u64,
        uv_stride: u32,
        uv_offset: u64,
        range: YuvRange,
        matrix: YuvMatrix,
        /// Colour primaries the planes are encoded in.
        primaries: YuvPrimaries,
    },
}

/// The least multiple of the row alignment that holds `bytes`.
pub open spec fn aligned(bytes: nat) -> nat {
    (bytes + 255) / 256 * 256
}

/// The least multiple of the row alignment that holds `bytes`.
fn align_row(bytes: u64) -> (row: u64)
    requires
        bytes + 255 <= u64::MAX,
    ensures
        row == aligned(bytes as nat),
        bytes <= row < bytes + 256,
        row % 256 == 0,
{
    (bytes + 255) / 256 * 256
}

/// The layout of a BGRA frame.
pub open spec fn bgra_layout(width: u32, height: u32) -> FrameLayout {
    FrameLayout::Bgra { width, height, stride: aligned(4 * width as nat) as u32, offset: 0 }
}

/// The layout of an NV12 frame: the luma plane, and behind it the chroma plane.
pub open spec fn nv12_layout(
    width: u32,
    height: u32,
    range: YuvRange,
    matrix: YuvMatrix,
    primaries: YuvPrimaries,
) -> FrameLayout {
    FrameLayout::Nv12 {
        width,
        height,
        y_stride: aligned(width as nat) as u32,
        y_offset: 0,
        uv_stride: aligned(2 * presentation::half_up(width as nat)) as u32,
        uv_offset: aligned(aligned(width as nat) * height as nat) as u64,
        range,
        matrix,
        primaries,
    }
}

/// The bytes of one frame of a layout.
pub open spec fn layout_bytes(layout: FrameLayout) -> nat {
    match layout {
        FrameLayout::Bgra { height, stride, offset, .. } => offset as nat + stride as nat
            * height as nat,
        FrameLayout::Nv12 { height, uv_stride, uv_offset, .. } => uv_offset as nat + uv_stride
            as nat * presentation::half_up(height as nat),
    }
}

/// The frame that `data` holds in a layout.
pub open spec fn frame_in(layout: FrameLayout, data: Seq<u8>) -> SourceModel {
    match layout {
        FrameLayout::Bgra { stride, offset, .. } => SourceModel::Bgra {
            stride: stride as nat,
            bytes: data.skip(offset as int),
        },
        FrameLayout::Nv12 { y_stride, y_offset, uv_stride, uv_offset, range, matrix, .. } =>
            SourceModel::Nv12 {
            y_stride: y_stride as nat,
            y: data.skip(y_offset as int),
            uv_stride: uv_stride as nat,
            uv: data.skip(uv_offset as int),
            range,
            matrix,
        },
    }
}

/// The view of an optional frame.
pub open spec fn source_view(frame: Option<SourceFrame<'_>>) -> Option<SourceModel> {
    match frame {
        Some(f) => Some(f@),
        None => None,
    }
}

/// The widest BGRA frame whose rows a layout can describe.
pub const MAX_BGRA_WIDTH: u32 = 0x3fff_ffc0;

/// The widest NV12 frame whose rows a layout can describe.
pub const MAX_NV12_WIDTH: u32 = 0xffff_ff00;

proof fn lemma_area(stride: nat, height: nat)
    requires
        stride <= 0xffff_ffff,
        height <= 0xffff_ffff,
    ensures
        stride * height <= 0xffff_ffff * 0xffff_ffff,
{
    assert(stride * height <= 0xffff_ffff * 0xffff_ffff) by (nonlinear_arith)
        requires
            0 <= stride <= 0xffff_ffff,
            0 <= height <= 0xffff_ffff,
    ;
}

fn tail_of(data: &[u8], from: u64) -> (tail: &[u8])
    requires
        from <= data@.len(),
    ensures
        tail@ == data@.skip(from as int),
{
    let len: usize = data.len();
    let tail = vstd::slice::slice_subrange(data, from as usize, len);
    assert(tail@ =~= data@.skip(from as int));
    tail
}

impl FrameLayout {
    /// Whether the offsets and rows of the layout stay within what a buffer can
    /// have. Layouts for frames of a plausible size do.
    pub open spec fn wf(self) -> bool {
        match self {
            FrameLayout::Bgra { offset, .. } => layout_bytes(self) <= u64::MAX,
            FrameLayout::Nv12 { y_offset, uv_offset, .. } => layout_bytes(self) <= u64::MAX
                && y_offset <= uv_offset,
        }
    }

    /// The layout of a BGRA frame.
    pub fn bgra(width: u32, height: u32) -> (layout: Self)
        requires
            width <= MAX_BGRA_WIDTH,
        ensures
            layout == bgra_layout(width, height),
            layout.wf(),
    {
        let stride: u64 = align_row(width as u64 * 4);
        proof {
            lemma_area(stride as nat, height as nat);
        }
        FrameLayout::Bgra { width, height, stride: stride as u32, offset: 0 }
    }

    /// Colour primaries of the planes, when this layout carries planes.
    pub fn primaries(&self) -> (primaries: Option<YuvPrimaries>)
        ensures
            primaries == match *self {
                FrameLayout::Bgra { .. } => None,
                FrameLayout::Nv12 { primaries, .. } => Some(primaries),
            },
    {
        match self {
            FrameLayout::Bgra { .. } => None,
            FrameLayout::Nv12 { primaries, .. } => Some(*primaries),
        }
    }

    /// The layout of an NV12 frame.
    pub fn nv12(
        width: u32,
        height: u32,
        range: YuvRange,
        matrix: YuvMatrix,
        primaries: YuvPrimaries,
    ) -> (layout: Self)
        requires
            width <= MAX_NV12_WIDTH,
        ensures
            layout == nv12_layout(width, height, range, matrix, primaries),
            layout.wf() <==> layout_bytes(layout) <= u64::MAX,
    {
        let uv_width: u32 = presentation::half(width);
        let y_stride: u64 = align_row(width as u64);
        let uv_stride: u64 = align_row(uv_width as u64 * 2);
        proof {
            lemma_luma_plane(y_stride as nat, height as nat);
        }
        let uv_offset: u64 = align_row(y_stride * height as u64);
        FrameLayout::Nv12 {
            width,
            height,
            y_stride: y_stride as u32,
            y_offset: 0,
            uv_stride: uv_stride as u32,
            uv_offset,
            range,
            matrix,
            primaries,
        }
    }

    /// The width of the frame.
    pub fn width(&self) -> (w: u32)
        ensures
            w == match *self {
                FrameLayout::Bgra { width, .. } => width,
                FrameLayout::Nv12 { width, .. } => width,
            },
    {
        match self {
            FrameLayout::Bgra { width, .. } => *width,
            FrameLayout::Nv12 { width, .. } => *width,
        }
    }

    /// The height of the frame.
    pub fn height(&self) -> (h: u32)
        ensures
            h == match *self {
                FrameLayout::Bgra { height, .. } => height,
                FrameLayout::Nv12 { height, .. } => height,
            },
    {
        match self {
            FrameLayout::Bgra { height, .. } => *height,
            FrameLayout::Nv12 { height, .. } => *height,
        }
    }

    /// Whether the frame is made of NV12 planes.
    pub fn is_nv12(&self) -> (nv12: bool)
        ensures
            nv12 == (*self is Nv12),
    {
        match self {
            FrameLayout::Bgra { .. } => false,
            FrameLayout::Nv12 { .. } => true,
        }
    }

    /// Bytes a staging buffer needs for one frame of this layout.
    pub fn buffer_size(&self) -> (size: u64)
        requires
            self.wf(),
        ensures
            size == layout_bytes(*self),
    {
        match self {
            FrameLayout::Bgra { height, stride, offset, .. } => {
                proof {
                    lemma_area(*stride as nat, *height as nat);
                }
                *offset + *stride as u64 * *height as u64
            },
            FrameLayout::Nv12 { height, uv_stride, uv_offset, .. } => {
                let rows: u32 = presentation::half(*height);
                proof {
                    lemma_area(*uv_stride as nat, rows as nat);
                }
                *uv_offset + *uv_stride as u64 * rows as u64
            },
        }
    }

    /// Borrows one frame out of a mapped staging buffer. `None` if the mapping is
    /// shorter than the layout promises.
    pub fn source_frame<'a>(&self, data: &'a [u8]) -> (frame: Option<SourceFrame<'a>>)
        requires
            self.wf(),
        ensures
            source_view(frame) == if data@.len() >= layout_bytes(*self) {
                Some(frame_in(*self, data@))
            } else {
                None::<SourceModel>
            },
    {
        let required: u64 = self.buffer_size();
        if (data.len() as u64) < required {
            return None;
        }
        match self {
            FrameLayout::Bgra { stride, offset, .. } => {
                assert(*offset <= layout_bytes(*self)) by (nonlinear_arith)
                    requires
                        layout_bytes(*self) == *offset as nat + *stride as nat * (match *self {
                            FrameLayout::Bgra { height, .. } => height,
                            _ => 0,
                        }) as nat,
                ;
                Some(SourceFrame::Bgra { stride: *stride as usize, bytes: tail_of(data, *offset) })
            },
            FrameLayout::Nv12 {
                height,
                y_stride,
                y_offset,
                uv_stride,
                uv_offset,
                range,
                matrix,
                ..
            } => {
                let ghost rows = presentation::half_up(*height as nat);
                assert(*uv_stride as nat * rows >= 0) by (nonlinear_arith);
                Some(
                    SourceFrame::Nv12 {
                        y_stride: *y_stride as usize,
                        y: tail_of(data, *y_offset),
                        uv_stride: *uv_stride as usize,
                        uv: tail_of(data, *uv_offset),
                        range: *range,
                        matrix: *matrix,
                    },
                )
            },
        }
    }

    /// The bytes from one row of the first plane to the next.
    pub fn row_bytes(&self) -> (bytes: u32)
        ensures
            bytes == match *self {
                FrameLayout::Bgra { stride, .. } => stride,
                FrameLayout::Nv12 { y_stride, .. } => y_stride,
            },
    {
        match self {
            FrameLayout::Bgra { stride, .. } => *stride,
            FrameLayout::Nv12 { y_stride, .. } => *y_stride,
        }
    }

    /// The layout in which a picture on screen is captured.
    pub fn of_source(source: PresentedSource) -> (layout: Self)
        requires
            source matches PresentedSource::Nv12 { width, .. } ==> width <= MAX_NV12_WIDTH,
            source matches PresentedSource::Rgba { width, .. } ==> width <= MAX_BGRA_WIDTH,
        ensures
            layout == captured_layout(source),
            layout.wf() <==> layout_bytes(layout) <= u64::MAX,
    {
        match source {
            PresentedSource::Rgba { width, height } => FrameLayout::bgra(width, height),
            PresentedSource::Nv12 { width, height, range, matrix, primaries } => FrameLayout::nv12(
                width,
                height,
                range,
                matrix,
                primaries,
            ),
        }
    }
}

/// The layout in which a picture on screen is captured.
pub open spec fn captured_layout(source: PresentedSource) -> FrameLayout {
    match source {
        PresentedSource::Rgba { width, height } => bgra_layout(width, height),
        PresentedSource::Nv12 { width, height, range, matrix, primaries } => nv12_layout(
            width,
            height,
            range,
            matrix,
            primaries,
        ),
    }
}

proof fn lemma_luma_plane(y_stride: nat, height: nat)
    requires
        y_stride <= 0xffff_ff00,
        height <= 0xffff_ffff,
    ensures
        y_stride * height <= 0xffff_ff00 * 0xffff_ffff,
        y_stride * height <= aligned(y_stride * height) <= u64::MAX,
{
    assert(y_stride * height <= 0xffff_ff00 * 0xffff_ffff) by (nonlinear_arith)
        requires
            0 <= y_stride <= 0xffff_ff00,
            0 <= height <= 0xffff_ffff,
    ;
}

/// The planes of an NV12 layout start on aligned rows, do not overlap, and fit
/// the buffer: the chroma plane begins behind the last luma row, and each row
/// holds its samples.
pub proof fn law_planes_are_aligned_and_apart(
    width: u32,
    height: u32,
    range: YuvRange,
    matrix: YuvMatrix,
    primaries: YuvPrimaries,
)
    requires
        width <= MAX_NV12_WIDTH,
    ensures
        ({
            let layout = nv12_layout(width, height, range, matrix, primaries);
            &&& layout matches FrameLayout::Nv12 {
                y_stride,
                y_offset,
                uv_stride,
                uv_offset,
                ..
            }
            &&& y_offset == 0
            &&& y_stride % 256 == 0
            &&& uv_stride % 256 == 0
            &&& uv_offset % 256 == 0
            &&& width <= y_stride
            &&& 2 * presentation::half_up(width as nat) <= uv_stride
            &&& y_stride * height <= uv_offset
            &&& layout_bytes(layout) == uv_offset + uv_stride * presentation::half_up(
                height as nat,
            )
        }),
{
    lemma_luma_plane(aligned(width as nat), height as nat);
}

/// The rows of a BGRA layout are aligned, hold their pixels, and fill the buffer.
pub proof fn law_bgra_rows_are_aligned(width: u32, height: u32)
    requires
        width <= MAX_BGRA_WIDTH,
    ensures
        ({
            let layout = bgra_layout(width, height);
            &&& layout matches FrameLayout::Bgra { stride, offset, .. }
            &&& offset == 0
            &&& stride % 256 == 0
            &&& 4 * width <= stride < 4 * width + 256
            &&& layout_bytes(layout) == stride * height
        }),
{
}

/// A row is padded to the next boundary of 256 bytes, and no further.
pub proof fn law_rows_are_padded_to_the_next_boundary(bytes: nat, other: nat)
    ensures
        aligned(bytes) % 256 == 0,
        bytes <= aligned(bytes) < bytes + 256,
        other % 256 == 0 && other >= bytes ==> aligned(bytes) <= other,
{
}

/// The layout in which a picture is captured has its size and its colours, rows for its
/// pixels and nothing between the planes but the padding to the next boundary.
pub proof fn law_captured_layouts_fit_their_picture(source: PresentedSource)
    requires
        source matches PresentedSource::Nv12 { width, .. } ==> width <= MAX_NV12_WIDTH,
        source matches PresentedSource::Rgba { width, .. } ==> width <= MAX_BGRA_WIDTH,
    ensures
        match source {
            PresentedSource::Rgba { width, height } => {
                &&& captured_layout(source) matches FrameLayout::Bgra {
                    width: w,
                    height: h,
                    stride,
                    offset,
                }
                &&& (w, h) == (width, height)
                &&& offset == 0
                &&& stride % 256 == 0
                &&& 4 * width <= stride < 4 * width + 256
                &&& layout_bytes(captured_layout(source)) == stride * height
            },
            PresentedSource::Nv12 { width, height, range, matrix, primaries } => {
                &&& captured_layout(source) matches FrameLayout::Nv12 {
                    width: w,
                    height: h,
                    y_stride,
                    y_offset,
                    uv_stride,
                    uv_offset,
                    range: r,
                    matrix: m,
                    primaries: p,
                }
                &&& (w, h, r, m, p) == (width, height, range, matrix, primaries)
                &&& y_offset == 0
                &&& y_stride % 256 == 0 && width <= y_stride < width + 256
                &&& uv_stride % 256 == 0 && width <= uv_stride < width + 257
                &&& uv_offset % 256 == 0
                &&& y_stride * height <= uv_offset < y_stride * height + 256
                &&& layout_bytes(captured_layout(source)) == uv_offset + uv_stride * ((height + 1)
                    / 2)
            },
        },
{
    match source {
        PresentedSource::Rgba { width, height } => {
            law_bgra_rows_are_aligned(width, height);
        },
        PresentedSource::Nv12 { width, height, range, matrix, primaries } => {
            law_planes_are_aligned_and_apart(width, height, range, matrix, primaries);
            law_rows_are_padded_to_the_next_boundary(width as nat, 0);
            law_rows_are_padded_to_the_next_boundary(
                2 * presentation::half_up(width as nat),
                0,
            );
            law_rows_are_padded_to_the_next_boundary(
                aligned(width as nat) * height as nat,
                0,
            );
            lemma_luma_plane(aligned(width as nat), height as nat);
        },
    }
}

/// The frame in a buffer: each plane is what stands from its offset on, row by row.
pub proof fn law_planes_stand_at_their_offsets(layout: FrameLayout, data: Seq<u8>, k: int)
    requires
        layout_bytes(layout) <= data.len(),
        layout matches FrameLayout::Nv12 { y_offset, uv_offset, .. } ==> y_offset <= uv_offset,
        0 <= k,
    ensures
        match layout {
            FrameLayout::Bgra { stride, offset, .. } => {
                &&& frame_in(layout, data) matches SourceModel::Bgra { stride: s, bytes }
                &&& s == stride
                &&& bytes.len() == data.len() - offset
                &&& k < bytes.len() ==> bytes[k] == data[offset + k]
            },
            FrameLayout::Nv12 {
                y_stride,
                y_offset,
                uv_stride,
                uv_offset,
                range,
                matrix,
                ..
            } => {
                &&& frame_in(layout, data) matches SourceModel::Nv12 {
                    y_stride: ys,
                    y,
                    uv_stride: us,
                    uv,
                    range: r,
                    matrix: m,
                }
                &&& (ys, us) == (y_stride as nat, uv_stride as nat)
                &&& (r, m) == (range, matrix)
                &&& k < y.len() ==> y[k] == data[y_offset + k]
                &&& k < uv.len() ==> uv[k] == data[uv_offset + k]
                &&& uv.len() == data.len() - uv_offset
            },
        },
{
}

} // verus!
