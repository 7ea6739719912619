//! Puts the horizontal slices of a frame together: which rows each slice
//! covers, and when the slices make up a whole frame.

use crate::media::errors::PipelineError;
use crate::media::{
    DecodedFrame, DecodedSlice, DecodedSliceUpdate, FrameModel, YuvMatrix, YuvPrimaries, YuvRange,
};
use crate::media;
use vstd::prelude::*;

verus! {

/// The horizontal slices of one frame.
pub const AVC_VIDEO_SLICE_COUNT: usize = 4;

/// What the slices of one frame have in common.
#[derive(Debug, Clone, Copy, PartialEq, Eq, Structural)]
pub struct SliceMetadata {
    pub width: u32,
    pub height: u32,
    pub range: YuvRange,
    pub matrix: YuvMatrix,
    pub primaries: YuvPrimaries,
}

/// The size and colour description of `slice`.
pub open spec fn metadata_of(slice: DecodedSlice) -> SliceMetadata {
    SliceMetadata {
        width: slice.width,
        height: slice.height,
        range: slice.range,
        matrix: slice.matrix,
        primaries: slice.primaries,
    }
}

impl SliceMetadata {
    /// The size and colour description of `slice`.
    pub fn of(slice: &DecodedSlice) -> (metadata: Self)
        ensures
            metadata == metadata_of(*slice),
    {
        SliceMetadata {
            width: slice.width,
            height: slice.height,
            range: slice.range,
            matrix: slice.matrix,
            primaries: slice.primaries,
        }
    }
}

/// What a `SliceCompositor` holds: for each slice its last description and its
/// pixels if they changed, the size of the frame, the payload bytes since the
/// last frame, and whether anything changed.
pub struct CompositorModel {
    pub metadata: Seq<Option<SliceMetadata>>,
    pub pending: Seq<Option<DecodedSlice>>,
    pub target: (u32, u32),
    pub pending_bytes: usize,
    pub dirty: bool,
}

/// A sequence with nothing in it for any slice.
pub open spec fn no_slices<T>() -> Seq<Option<T>> {
    seq![None, None, None, None]
}

/// The state after everything is forgotten but the size of the frame.
pub open spec fn cleared(state: CompositorModel) -> CompositorModel {
    CompositorModel {
        metadata: no_slices(),
        pending: no_slices(),
        target: state.target,
        pending_bytes: 0,
        dirty: false,
    }
}

/// Whether `slice` does not fit what was seen before of the slice `index`.
pub open spec fn layout_changes(state: CompositorModel, index: usize, slice: DecodedSlice) -> bool {
    state.metadata[index as int] is Some && state.metadata[index as int] != Some(
        metadata_of(slice),
    )
}

/// The state after the output for one access unit. A slice of another layout
/// starts over with nothing but itself.
pub open spec fn slice_pushed(
    state: CompositorModel,
    index: usize,
    bytes: usize,
    slice: Option<DecodedSlice>,
) -> CompositorModel {
    match slice {
        Some(slice) => {
            let changes = layout_changes(state, index, slice);
            let base = if changes {
                cleared(state)
            } else {
                state
            };
            CompositorModel {
                metadata: base.metadata.update(index as int, Some(metadata_of(slice))),
                pending: base.pending.update(index as int, Some(slice)),
                target: state.target,
                pending_bytes: media::saturating_sum(base.pending_bytes, bytes),
                dirty: true,
            }
        },
        None => CompositorModel {
            pending_bytes: media::saturating_sum(state.pending_bytes, bytes),
            ..state
        },
    }
}

/// How the slices compare with the first one.
pub enum Uniformity {
    Uniform,
    Missing,
    Mismatch(usize),
}

/// How the slices from `index` on compare with `first`: the first one that is
/// missing or different decides.
pub open spec fn uniformity(
    metadata: Seq<Option<SliceMetadata>>,
    first: SliceMetadata,
    index: usize,
) -> Uniformity
    decreases AVC_VIDEO_SLICE_COUNT - index,
{
    if index >= AVC_VIDEO_SLICE_COUNT {
        Uniformity::Uniform
    } else if metadata[index as int] is None {
        Uniformity::Missing
    } else if metadata[index as int] != Some(first) {
        Uniformity::Mismatch(index)
    } else {
        uniformity(metadata, first, (index + 1) as usize)
    }
}

/// The least multiple of 16 rows that holds a quarter of `target_height`.
pub open spec fn aligned_height(target_height: nat) -> nat {
    (((target_height + 3) / 4 + 15) / 16 * 16) as nat
}

/// Whether four slices of `slice_height` rows make up `target_height` rows: each
/// a quarter of them, or each of the aligned height with padding only in the
/// last one.
pub open spec fn fits(slice_height: nat, target_height: nat) -> bool {
    ||| 4 * slice_height == target_height
    ||| {
        &&& slice_height == aligned_height(target_height)
        &&& 3 * slice_height < target_height <= 4 * slice_height
    }
}

/// The rows that one slice covers in the luma plane and in the chroma plane.
pub struct Band {
    pub y_origin: nat,
    pub y_rows: nat,
    pub uv_origin: nat,
    pub uv_rows: nat,
}

/// The smaller of two numbers.
pub open spec fn smaller(a: nat, b: nat) -> nat {
    if a <= b {
        a
    } else {
        b
    }
}

/// The rows of the slice `index`: the slices follow each other from the top, and
/// nothing goes beyond the frame.
pub open spec fn band(slice_height: nat, target_height: nat, index: nat) -> Band {
    let half = (slice_height + 1) / 2;
    let chroma = (target_height + 1) / 2;
    Band {
        y_origin: smaller(index * slice_height, target_height),
        y_rows: (smaller((index + 1) * slice_height, target_height) - smaller(
            index * slice_height,
            target_height,
        )) as nat,
        uv_origin: smaller(index * half, chroma),
        uv_rows: (smaller((index + 1) * half, chroma) - smaller(index * half, chroma)) as nat,
    }
}

/// The update that shows `slice` as the slice `index`.
pub open spec fn placed(
    slice: DecodedSlice,
    slice_height: nat,
    target_height: nat,
    index: usize,
) -> DecodedSliceUpdate {
    let rows = band(slice_height, target_height, index as nat);
    DecodedSliceUpdate {
        slice_index: index,
        y_origin: rows.y_origin as u32,
        y_rows: rows.y_rows as u32,
        uv_origin: rows.uv_origin as u32,
        uv_rows: rows.uv_rows as u32,
        pixels: slice,
    }
}

/// The updates for the changed ones among the first `count` slices.
pub open spec fn changed_slices(
    pending: Seq<Option<DecodedSlice>>,
    slice_height: nat,
    target_height: nat,
    count: nat,
) -> Seq<DecodedSliceUpdate>
    decreases count,
{
    if count == 0 {
        Seq::empty()
    } else {
        let before = changed_slices(pending, slice_height, target_height, (count - 1) as nat);
        match pending[count - 1] {
            Some(slice) => before.push(
                placed(slice, slice_height, target_height, (count - 1) as usize),
            ),
            None => before,
        }
    }
}

/// What closing a frame comes to.
pub enum Finished {
    /// Nothing changed.
    Unchanged,
    /// Not every slice is known yet.
    Incomplete,
    Failed(PipelineError),
    Frame(FrameModel),
}

/// What closing the frame comes to in `state`.
pub open spec fn finish_outcome(state: CompositorModel) -> Finished {
    let (target_width, target_height) = state.target;
    match state.metadata[0] {
        None => if state.dirty {
            Finished::Incomplete
        } else {
            Finished::Unchanged
        },
        Some(first) => if !state.dirty {
            Finished::Unchanged
        } else if target_width == 0 || target_height == 0 || target_width % 2 != 0 || target_height
            % 2 != 0 {
            Finished::Failed(
                PipelineError::TargetSize { width: target_width, height: target_height },
            )
        } else {
            match uniformity(state.metadata, first, 0) {
                Uniformity::Missing => Finished::Incomplete,
                Uniformity::Mismatch(index) => Finished::Failed(
                    PipelineError::SliceMismatch { index },
                ),
                Uniformity::Uniform => if 3 * first.height > u32::MAX {
                    Finished::Failed(PipelineError::HeightOverflow)
                } else if first.width != target_width || !fits(
                    first.height as nat,
                    target_height as nat,
                ) {
                    Finished::Failed(
                        PipelineError::Geometry {
                            target_width,
                            target_height,
                            width: first.width,
                            slice_height: first.height,
                            total_height: if 4 * first.height > u32::MAX {
                                u32::MAX
                            } else {
                                (4 * first.height) as u32
                            },
                            aligned_height: aligned_height(target_height as nat) as u32,
                        },
                    )
                } else {
                    Finished::Frame(
                        FrameModel {
                            width: target_width,
                            height: target_height,
                            encoded_bytes: state.pending_bytes,
                            range: first.range,
                            matrix: first.matrix,
                            primaries: first.primaries,
                            updates: changed_slices(
                                state.pending,
                                first.height as nat,
                                target_height as nat,
                                4,
                            ),
                            timing: None,
                        },
                    )
                },
            }
        },
    }
}

/// The state after the frame was closed.
pub open spec fn finished_state(state: CompositorModel) -> CompositorModel {
    match finish_outcome(state) {
        Finished::Unchanged => CompositorModel { pending_bytes: 0, ..state },
        Finished::Frame(_) => CompositorModel {
            pending: no_slices(),
            pending_bytes: 0,
            dirty: false,
            ..state
        },
        _ => state,
    }
}

/// Gathers the slices of a frame until all of them are known, and from then on
/// hands out the changed ones.
#[derive(Debug)]
pub struct SliceCompositor {
    metadata: Vec<Option<SliceMetadata>>,
    pending: Vec<Option<DecodedSlice>>,
    target_dimensions: (u32, u32),
    pending_encoded_bytes: usize,
    dirty: bool,
}

impl View for SliceCompositor {
    type V = CompositorModel;

    closed spec fn view(&self) -> CompositorModel {
        CompositorModel {
            metadata: self.metadata@,
            pending: self.pending@,
            target: self.target_dimensions,
            pending_bytes: self.pending_encoded_bytes,
            dirty: self.dirty,
        }
    }
}

fn empty_metadata() -> (slots: Vec<Option<SliceMetadata>>)
    ensures
        slots@ == no_slices::<SliceMetadata>(),
{
    let mut slots: Vec<Option<SliceMetadata>> = Vec::new();
    slots.push(None);
    slots.push(None);
    slots.push(None);
    slots.push(None);
    assert(slots@ =~= no_slices::<SliceMetadata>());
    slots
}

fn empty_slices() -> (slots: Vec<Option<DecodedSlice>>)
    ensures
        slots@ == no_slices::<DecodedSlice>(),
{
    let mut slots: Vec<Option<DecodedSlice>> = Vec::new();
    slots.push(None);
    slots.push(None);
    slots.push(None);
    slots.push(None);
    assert(slots@ =~= no_slices::<DecodedSlice>());
    slots
}

/// The least multiple of 16 rows that holds a quarter of `target_height`.
fn align_slice_height(target_height: u32) -> (height: u32)
    ensures
        height == aligned_height(target_height as nat),
{
    let quarter: u64 = (target_height as u64 + 3) / 4;
    ((quarter + 15) / 16 * 16) as u32
}

proof fn lemma_band_steps(slice_height: nat, target_height: nat, index: nat)
    requires
        fits(slice_height, target_height),
        target_height % 2 == 0,
        index < 4,
    ensures
        ({
            let rows = band(slice_height, target_height, index);
            let chroma = (target_height + 1) / 2;
            &&& rows.y_origin == index * slice_height
            &&& rows.y_rows == smaller(slice_height, (target_height - rows.y_origin) as nat)
            &&& rows.uv_rows == smaller(
                (rows.y_rows + 1) / 2,
                (chroma - rows.uv_origin) as nat,
            )
        }),
{
    let half = (slice_height + 1) / 2;
    if index == 0 {
        lemma_multiples(index, slice_height, half);
    } else if index == 1 {
        lemma_multiples(index, slice_height, half);
    } else if index == 2 {
        lemma_multiples(index, slice_height, half);
    } else {
        lemma_multiples(index, slice_height, half);
    }
}

proof fn lemma_multiples(index: nat, a: nat, b: nat)
    requires
        index < 4,
    ensures
        index == 0 ==> index * a == 0 && index * b == 0 && (index + 1) * a == a && (index + 1) * b
            == b,
        index == 1 ==> index * a == a && index * b == b && (index + 1) * a == a + a && (index + 1)
            * b == b + b,
        index == 2 ==> index * a == a + a && index * b == b + b && (index + 1) * a == a + a + a && (
        index + 1) * b == b + b + b,
        index == 3 ==> index * a == a + a + a && index * b == b + b + b && (index + 1) * a == a + a
            + a + a && (index + 1) * b == b + b + b + b,
{
    assert((index + 1) * a == index * a + a) by (nonlinear_arith);
    assert((index + 1) * b == index * b + b) by (nonlinear_arith);
    assert(index == 0 ==> index * a == 0 && index * b == 0) by (nonlinear_arith);
    assert(index == 1 ==> index * a == a && index * b == b) by (nonlinear_arith);
    assert(index == 2 ==> index * a == a + a && index * b == b + b) by (nonlinear_arith);
    assert(index == 3 ==> index * a == a + a + a && index * b == b + b + b) by (nonlinear_arith);
}

/// Where four slices fit a frame of even height, their bands lie inside it,
/// each begins where the one above ends, and together they cover every luma and
/// every chroma row.
pub proof fn law_bands_cover_the_frame(slice_height: nat, target_height: nat)
    requires
        fits(slice_height, target_height),
        target_height % 2 == 0,
    ensures
        band(slice_height, target_height, 0).y_origin == 0,
        band(slice_height, target_height, 0).uv_origin == 0,
        forall|i: nat|
            i < 3 ==> #[trigger] band(slice_height, target_height, i).y_origin + band(
                slice_height,
                target_height,
                i,
            ).y_rows == band(slice_height, target_height, i + 1).y_origin,
        forall|i: nat|
            i < 3 ==> #[trigger] band(slice_height, target_height, i).uv_origin + band(
                slice_height,
                target_height,
                i,
            ).uv_rows == band(slice_height, target_height, i + 1).uv_origin,
        band(slice_height, target_height, 3).y_origin + band(slice_height, target_height, 3).y_rows
            == target_height,
        band(slice_height, target_height, 3).uv_origin + band(
            slice_height,
            target_height,
            3,
        ).uv_rows == target_height / 2,
        forall|i: nat|
            i < 4 ==> #[trigger] band(slice_height, target_height, i).y_rows <= slice_height,
{
    let half = (slice_height + 1) / 2;
    lemma_multiples(0, slice_height, half);
    lemma_multiples(1, slice_height, half);
    lemma_multiples(2, slice_height, half);
    lemma_multiples(3, slice_height, half);
    assert forall|i: nat| i < 4 implies #[trigger] band(slice_height, target_height, i).y_rows
        <= slice_height by {
        lemma_band_steps(slice_height, target_height, i);
    }
    assert forall|i: nat| i < 3 implies #[trigger] band(slice_height, target_height, i).y_origin
        + band(slice_height, target_height, i).y_rows == band(
        slice_height,
        target_height,
        i + 1,
    ).y_origin && band(slice_height, target_height, i).uv_origin + band(
        slice_height,
        target_height,
        i,
    ).uv_rows == band(slice_height, target_height, i + 1).uv_origin by {
        lemma_multiples(i, slice_height, half);
    }
}

proof fn lemma_changed_slices(
    pending: Seq<Option<DecodedSlice>>,
    slice_height: nat,
    target_height: nat,
    count: nat,
)
    requires
        count <= 4,
    ensures
        forall|i: int|
            0 <= i < changed_slices(pending, slice_height, target_height, count).len() ==> {
                let u = #[trigger] changed_slices(pending, slice_height, target_height, count)[i];
                &&& u.slice_index < count
                &&& pending[u.slice_index as int] == Some(u.pixels)
                &&& u == placed(u.pixels, slice_height, target_height, u.slice_index)
            },
        forall|k: usize|
            k < count && pending[k as int] is Some ==> #[trigger] media::has_slice(
                changed_slices(pending, slice_height, target_height, count),
                k,
            ),
        forall|i: int, j: int|
            0 <= i < j < changed_slices(pending, slice_height, target_height, count).len()
                ==> changed_slices(pending, slice_height, target_height, count)[i].slice_index
                < changed_slices(pending, slice_height, target_height, count)[j].slice_index,
    decreases count,
{
    if count > 0 {
        lemma_changed_slices(pending, slice_height, target_height, (count - 1) as nat);
        let before = changed_slices(pending, slice_height, target_height, (count - 1) as nat);
        let after = changed_slices(pending, slice_height, target_height, count);
        assert forall|k: usize| k < count && pending[k as int] is Some implies #[trigger] media::has_slice(
            after,
            k,
        ) by {
            if k + 1 == count {
                assert(after[before.len() as int].slice_index == k);
            } else {
                assert(media::has_slice(before, k));
                let i = choose|i: int| 0 <= i < before.len() && before[i].slice_index == k;
                assert(after[i].slice_index == k);
            }
        }
    }
}

/// A frame that is handed out has the requested size, is made of slices whose
/// layout fits that size without cropping or scaling, and shows exactly the
/// slices that changed, each at its own rows and from top to bottom.
pub proof fn law_frame_shows_the_changed_slices(state: CompositorModel, frame: FrameModel)
    requires
        state.metadata.len() == 4,
        state.pending.len() == 4,
        finish_outcome(state) == Finished::Frame(frame),
    ensures
        (frame.width, frame.height) == state.target,
        state.metadata[0] is Some,
        state.metadata[0]->0.width == frame.width,
        fits(state.metadata[0]->0.height as nat, frame.height as nat),
        forall|i: int|
            0 <= i < frame.updates.len() ==> {
                let u = #[trigger] frame.updates[i];
                &&& u.slice_index < 4
                &&& state.pending[u.slice_index as int] == Some(u.pixels)
                &&& u == placed(
                    u.pixels,
                    state.metadata[0]->0.height as nat,
                    frame.height as nat,
                    u.slice_index,
                )
            },
        forall|k: usize|
            k < 4 && state.pending[k as int] is Some ==> #[trigger] media::has_slice(
                frame.updates,
                k,
            ),
        forall|i: int, j: int|
            0 <= i < j < frame.updates.len() ==> frame.updates[i].slice_index
                < frame.updates[j].slice_index,
        finished_state(state).metadata == state.metadata,
        finished_state(state).pending == no_slices::<DecodedSlice>(),
{
    lemma_changed_slices(
        state.pending,
        state.metadata[0]->0.height as nat,
        frame.height as nat,
        4,
    );
}

impl SliceCompositor {
    /// Whether there is a place for each slice.
    pub open spec fn wf(&self) -> bool {
        &&& self@.metadata.len() == 4
        &&& self@.pending.len() == 4
    }

    /// A compositor for frames of the given size.
    pub fn new(target_dimensions: (u32, u32)) -> (compositor: Self)
        ensures
            compositor.wf(),
            compositor@ == (CompositorModel {
                metadata: no_slices(),
                pending: no_slices(),
                target: target_dimensions,
                pending_bytes: 0,
                dirty: false,
            }),
    {
        SliceCompositor {
            metadata: empty_metadata(),
            pending: empty_slices(),
            target_dimensions,
            pending_encoded_bytes: 0,
            dirty: false,
        }
    }

    /// Forgets everything but the size of the frame.
    pub fn reset(&mut self)
        ensures
            final(self).wf(),
            final(self)@ == cleared(old(self)@),
    {
        self.metadata = empty_metadata();
        self.pending = empty_slices();
        self.pending_encoded_bytes = 0;
        self.dirty = false;
    }

    /// Takes the output for one access unit: its payload bytes, and the pixels
    /// of its slice if the decoder gave an image.
    pub fn push(&mut self, slice_index: usize, encoded_bytes: usize, frame: Option<DecodedSlice>)
        -> (result: Result<(), PipelineError>)
        requires
            old(self).wf(),
        ensures
            final(self).wf(),
            result is Err <==> frame is Some && slice_index >= AVC_VIDEO_SLICE_COUNT,
            result matches Err(error) ==> error == (PipelineError::SliceIndex {
                index: slice_index,
            }) && final(self)@ == old(self)@,
            result is Ok ==> final(self)@ == slice_pushed(
                old(self)@,
                slice_index,
                encoded_bytes,
                frame,
            ),
    {
        if let Some(slice) = frame {
            if slice_index >= AVC_VIDEO_SLICE_COUNT {
                return Err(PipelineError::SliceIndex { index: slice_index });
            }
            let metadata = SliceMetadata::of(&slice);
            let changes = match self.metadata[slice_index] {
                Some(current) => current != metadata,
                None => false,
            };
            if changes {
                self.reset();
            }
            self.metadata.set(slice_index, Some(metadata));
            self.pending.set(slice_index, Some(slice));
            self.dirty = true;
        }
        self.pending_encoded_bytes = self.pending_encoded_bytes.saturating_add(encoded_bytes);
        Ok(())
    }

    /// Compares the slices with the first one.
    fn check_uniform(&self, first: SliceMetadata) -> (result: Result<bool, PipelineError>)
        requires
            self.wf(),
        ensures
            match uniformity(self@.metadata, first, 0) {
                Uniformity::Uniform => result == Ok::<bool, PipelineError>(true),
                Uniformity::Missing => result == Ok::<bool, PipelineError>(false),
                Uniformity::Mismatch(index) => result == Err::<bool, PipelineError>(
                    PipelineError::SliceMismatch { index },
                ),
            },
    {
        let mut index: usize = 0;
        while index < AVC_VIDEO_SLICE_COUNT
            invariant
                self.wf(),
                index <= AVC_VIDEO_SLICE_COUNT,
                uniformity(self@.metadata, first, index) == uniformity(self@.metadata, first, 0),
            decreases AVC_VIDEO_SLICE_COUNT - index,
        {
            match self.metadata[index] {
                None => {
                    return Ok(false);
                },
                Some(metadata) => {
                    if metadata != first {
                        return Err(PipelineError::SliceMismatch { index });
                    }
                },
            }
            index += 1;
        }
        Ok(true)
    }

    /// Closes the frame: hands out the changed slices once every slice is known
    /// and their layout makes up the requested frame.
    pub fn finish_frame(&mut self) -> (result: Result<Option<DecodedFrame>, PipelineError>)
        requires
            old(self).wf(),
        ensures
            final(self).wf(),
            final(self)@ == finished_state(old(self)@),
            match finish_outcome(old(self)@) {
                Finished::Unchanged => result matches Ok(None),
                Finished::Incomplete => result matches Ok(None),
                Finished::Failed(error) => result matches Err(e) && e == error,
                Finished::Frame(frame) => result matches Ok(Some(f)) && f@ == frame,
            },
    {
        if !self.dirty {
            self.pending_encoded_bytes = 0;
            return Ok(None);
        }
        let first = match self.metadata[0] {
            Some(first) => first,
            None => {
                return Ok(None);
            },
        };
        let (target_width, target_height) = self.target_dimensions;
        if target_width == 0 || target_height == 0 || target_width % 2 != 0 || target_height % 2
            != 0 {
            return Err(PipelineError::TargetSize { width: target_width, height: target_height });
        }
        if !self.check_uniform(first)? {
            return Ok(None);
        }
        let height: u64 = first.height as u64;
        let aligned: u32 = align_slice_height(target_height);
        if 3 * height > u32::MAX as u64 {
            return Err(PipelineError::HeightOverflow);
        }
        let quarters = 4 * height == target_height as u64;
        let padded = first.height == aligned && 3 * height < target_height as u64 && target_height
            as u64 <= 4 * height;
        if first.width != target_width || !(quarters || padded) {
            let total_height: u32 = if 4 * height > u32::MAX as u64 {
                u32::MAX
            } else {
                (4 * height) as u32
            };
            return Err(
                PipelineError::Geometry {
                    target_width,
                    target_height,
                    width: first.width,
                    slice_height: first.height,
                    total_height,
                    aligned_height: aligned,
                },
            );
        }
        let updates = self.take_changed(first.height, target_height);
        self.dirty = false;
        let encoded_bytes: usize = self.pending_encoded_bytes;
        self.pending_encoded_bytes = 0;
        Ok(
            Some(
                DecodedFrame {
                    width: target_width,
                    height: target_height,
                    encoded_bytes,
                    range: first.range,
                    matrix: first.matrix,
                    primaries: first.primaries,
                    updates,
                    timing: None,
                },
            ),
        )
    }

    /// Takes out the changed slices, each with the rows that it covers.
    fn take_changed(&mut self, slice_height: u32, target_height: u32) -> (updates: Vec<
        DecodedSliceUpdate,
    >)
        requires
            old(self).wf(),
            fits(slice_height as nat, target_height as nat),
            target_height % 2 == 0,
        ensures
            final(self).wf(),
            final(self)@ == (CompositorModel { pending: no_slices(), ..old(self)@ }),
            updates@ == changed_slices(
                old(self)@.pending,
                slice_height as nat,
                target_height as nat,
                4,
            ),
    {
        let mut updates: Vec<DecodedSliceUpdate> = Vec::new();
        let ghost all = self.pending@;
        let ghost height = slice_height as nat;
        let ghost target = target_height as nat;
        let half: u64 = (slice_height as u64 + 1) / 2;
        let mut slots: Vec<Option<DecodedSlice>> = empty_slices();
        std::mem::swap(&mut slots, &mut self.pending);
        let mut index: usize = 0;
        let mut remaining_y: u32 = target_height;
        let mut remaining_uv: u32 = target_height / 2;
        let mut y_origin: u32 = 0;
        let mut uv_origin: u32 = 0;
        for slot in it: slots
            invariant
                it.seq() == all,
                all.len() == 4,
                index == it.index(),
                height == slice_height,
                target == target_height,
                fits(height, target),
                target % 2 == 0,
                half == (height + 1) / 2,
                y_origin == smaller(index as nat * height, target),
                y_origin + remaining_y == target,
                uv_origin == smaller(index as nat * half as nat, (target + 1) / 2),
                uv_origin + remaining_uv == (target + 1) / 2,
                updates@ == changed_slices(all, height, target, index as nat),
        {
            proof {
                lemma_band_steps(height, target, index as nat);
                assert((index as nat + 1) * height == index as nat * height + height)
                    by (nonlinear_arith);
                assert((index as nat + 1) * (half as nat) == index as nat * half as nat + half
                    as nat) by (nonlinear_arith);
            }
            let y_rows: u32 = if slice_height < remaining_y { slice_height } else { remaining_y };
            let chroma_rows: u32 = ((y_rows as u64 + 1) / 2) as u32;
            let uv_rows: u32 = if chroma_rows < remaining_uv { chroma_rows } else { remaining_uv };
            let ghost rows = band(height, target, index as nat);
            assert(y_rows == rows.y_rows);
            assert(uv_rows == rows.uv_rows);
            if let Some(pixels) = slot {
                updates.push(
                    DecodedSliceUpdate {
                        slice_index: index,
                        y_origin,
                        y_rows,
                        uv_origin,
                        uv_rows,
                        pixels,
                    },
                );
            }
            y_origin = y_origin + y_rows;
            uv_origin = uv_origin + uv_rows;
            remaining_y = remaining_y - y_rows;
            remaining_uv = remaining_uv - uv_rows;
            index += 1;
        }
        updates
    }
}

/// The aligned height is the least number of whole rows of macroblocks, of 16
/// rows each, with which four slices hold the frame.
pub proof fn law_aligned_height_is_the_least(target_height: nat, other: nat)
    ensures
        aligned_height(target_height) % 16 == 0,
        4 * aligned_height(target_height) >= target_height,
        aligned_height(target_height) < (target_height + 3) / 4 + 16,
        other % 16 == 0 && 4 * other >= target_height ==> aligned_height(target_height) <= other,
{
}

proof fn lemma_uniformity(metadata: Seq<Option<SliceMetadata>>, first: SliceMetadata, index: usize)
    requires
        index <= 4,
    ensures
        uniformity(metadata, first, index) is Uniform <==> forall|k: int|
            index <= k < 4 ==> #[trigger] metadata[k] == Some(first),
        uniformity(metadata, first, index) is Missing <==> exists|k: int|
            index <= k < 4 && #[trigger] metadata[k] is None && forall|j: int|
                index <= j < k ==> #[trigger] metadata[j] == Some(first),
        uniformity(metadata, first, index) matches Uniformity::Mismatch(k) ==> index <= k < 4
            && metadata[k as int] is Some && metadata[k as int] != Some(first) && forall|j: int|
            index <= j < k ==> #[trigger] metadata[j] == Some(first),
    decreases 4 - index,
{
    if index < 4 {
        lemma_uniformity(metadata, first, (index + 1) as usize);
        if metadata[index as int] is None {
            assert(metadata[index as int] != Some(first));
        } else if metadata[index as int] == Some(first) {
            if uniformity(metadata, first, index) is Missing {
                let k = choose|k: int|
                    index + 1 <= k < 4 && #[trigger] metadata[k] is None && forall|j: int|
                        index + 1 <= j < k ==> #[trigger] metadata[j] == Some(first);
                assert forall|j: int| index <= j < k implies #[trigger] metadata[j] == Some(
                    first,
                ) by {}
            }
            if exists|k: int|
                index <= k < 4 && #[trigger] metadata[k] is None && forall|j: int|
                    index <= j < k ==> #[trigger] metadata[j] == Some(first) {
                let k = choose|k: int|
                    index <= k < 4 && #[trigger] metadata[k] is None && forall|j: int|
                        index <= j < k ==> #[trigger] metadata[j] == Some(first);
                assert(k != index);
                assert(index + 1 <= k < 4 && metadata[k] is None);
            }
        } else {
            if exists|k: int|
                index <= k < 4 && #[trigger] metadata[k] is None && forall|j: int|
                    index <= j < k ==> #[trigger] metadata[j] == Some(first) {
                let k = choose|k: int|
                    index <= k < 4 && #[trigger] metadata[k] is None && forall|j: int|
                        index <= j < k ==> #[trigger] metadata[j] == Some(first);
                assert(k != index);
                assert(metadata[index as int] == Some(first));
                assert(false);
            }
        }
    }
}

/// Exactly when closing a frame hands one out: something changed, the frame has an
/// even size, the four slices are known, alike and as wide as the frame, and they
/// either are quarters of it, or have the least height in macroblocks that holds it
/// with a visible row in each of them.
pub proof fn law_frames_come_of_fitting_slices(state: CompositorModel)
    requires
        state.metadata.len() == 4,
        state.pending.len() == 4,
    ensures
        finish_outcome(state) is Frame <==> {
            let (w, h) = state.target;
            &&& state.dirty
            &&& w > 0 && w % 2 == 0
            &&& h > 0 && h % 2 == 0
            &&& state.metadata[0] is Some
            &&& forall|k: int| 0 <= k < 4 ==> #[trigger] state.metadata[k] == state.metadata[0]
            &&& state.metadata[0]->0.width == w
            &&& {
                let s = state.metadata[0]->0.height;
                ||| 4 * s == h
                ||| {
                    &&& s % 16 == 0
                    &&& 4 * s >= h
                    &&& 4 * (s - 16) < h
                    &&& 3 * s < h
                }
            }
        },
{
    if let Some(first) = state.metadata[0] {
        lemma_uniformity(state.metadata, first, 0);
        let h = state.target.1 as nat;
        let s = first.height as nat;
        law_aligned_height_is_the_least(h, s);
        if s % 16 == 0 && 4 * s >= h && 4 * (s - 16) < h {
            assert(aligned_height(h) == s);
        }
        if forall|k: int| 0 <= k < 4 ==> #[trigger] state.metadata[k] == state.metadata[0] {
            assert forall|k: int| 0 <= k < 4 implies #[trigger] state.metadata[k] == Some(
                first,
            ) by {
                assert(state.metadata[k] == state.metadata[0]);
            }
        }
    }
}

/// What a frame that cannot be handed out yet, or never, comes to: without a change
/// there is nothing; slices that were never seen are waited for; a frame of odd or no
/// size is named with that size, and the first slice unlike the others with its
/// place.
pub proof fn law_unfit_frames_are_told_apart(state: CompositorModel)
    requires
        state.metadata.len() == 4,
        state.pending.len() == 4,
    ensures
        !state.dirty <==> finish_outcome(state) is Unchanged,
        finish_outcome(state) is Incomplete ==> exists|k: int|
            0 <= k < 4 && #[trigger] state.metadata[k] is None,
        state.dirty && state.metadata[0] is None ==> finish_outcome(state) is Incomplete,
        finish_outcome(state) matches Finished::Failed(
            PipelineError::TargetSize { width: w, height: h },
        ) ==> state.target == (w, h) && (w % 2 == 1 || h % 2 == 1 || w == 0 || h == 0),
        finish_outcome(state) matches Finished::Failed(
            PipelineError::SliceMismatch { index },
        ) ==> 0 < index < 4 && state.metadata[index as int] is Some
                && state.metadata[index as int] != state.metadata[0] && forall|j: int|
                0 <= j < index ==> #[trigger] state.metadata[j] == state.metadata[0],
        finish_outcome(state) matches Finished::Failed(PipelineError::Geometry {
            target_width,
            target_height,
            width,
            slice_height,
            total_height,
            aligned_height,
        }) ==> {
            &&& (target_width, target_height) == state.target
            &&& width == state.metadata[0]->0.width
            &&& slice_height == state.metadata[0]->0.height
            &&& 4 * slice_height <= u32::MAX ==> total_height == 4 * slice_height
            &&& aligned_height % 16 == 0
            &&& target_height <= 4 * aligned_height < target_height + 64
            &&& width != target_width || 4 * slice_height != target_height
        },
        ({
            let (w, h) = state.target;
            state.dirty && w > 0 && h > 0 && w % 2 == 0 && h % 2 == 0 && state.metadata[0] is Some
        }) ==> {
            &&& forall|k: int|
                0 < k < 4 && #[trigger] state.metadata[k] is None && (forall|j: int|
                    0 <= j < k ==> #[trigger] state.metadata[j] == state.metadata[0])
                    ==> finish_outcome(state) is Incomplete
            &&& forall|k: int|
                0 < k < 4 && #[trigger] state.metadata[k] is Some && state.metadata[k]
                    != state.metadata[0] && (forall|j: int|
                    0 <= j < k ==> #[trigger] state.metadata[j] == state.metadata[0])
                    ==> finish_outcome(state) is Failed
        },
        !(finish_outcome(state) is Frame) ==> finished_state(state).metadata == state.metadata
            && finished_state(state).pending == state.pending && finished_state(state).target
            == state.target && finished_state(state).dirty == state.dirty,
        finish_outcome(state) is Unchanged || finish_outcome(state) is Frame
            ==> finished_state(state).pending_bytes == 0,
        finish_outcome(state) is Frame ==> finish_outcome(finished_state(state)) is Unchanged,
{
    if let Some(first) = state.metadata[0] {
        lemma_uniformity(state.metadata, first, 0);
        law_aligned_height_is_the_least(state.target.1 as nat, 0);
    }
}

proof fn lemma_update_of(
    pending: Seq<Option<DecodedSlice>>,
    slice_height: nat,
    target_height: nat,
    k: int,
)
    requires
        pending.len() == 4,
        forall|i: int| 0 <= i < 4 ==> #[trigger] pending[i] is Some,
        0 <= k < 4,
    ensures
        changed_slices(pending, slice_height, target_height, 4).len() == 4,
        changed_slices(pending, slice_height, target_height, 4)[k] == placed(
            pending[k]->0,
            slice_height,
            target_height,
            k as usize,
        ),
{
    reveal_with_fuel(changed_slices, 5);
    assert(pending[0] is Some && pending[1] is Some && pending[2] is Some && pending[3] is Some);
}

/// The state after four slices were pushed one after another.
pub open spec fn four_pushed(
    state: CompositorModel,
    slices: Seq<DecodedSlice>,
    bytes: Seq<usize>,
) -> CompositorModel {
    let one = slice_pushed(state, 0, bytes[0], Some(slices[0]));
    let two = slice_pushed(one, 1, bytes[1], Some(slices[1]));
    let three = slice_pushed(two, 2, bytes[2], Some(slices[2]));
    slice_pushed(three, 3, bytes[3], Some(slices[3]))
}

/// Four slices alike make a whole frame, whether the decoder cuts the picture into
/// exact quarters or pads the last slice to whole macroblocks: the frame has the
/// requested size and the colours of the slices, counts the bytes of all of them,
/// and shows each slice once, from its first row on, at the rows below the slices
/// above it and no further than the frame goes.
pub proof fn law_four_slices_make_a_frame(
    state: CompositorModel,
    slices: Seq<DecodedSlice>,
    bytes: Seq<usize>,
)
    requires
        state.metadata == no_slices::<SliceMetadata>(),
        state.pending == no_slices::<DecodedSlice>(),
        state.pending_bytes == 0,
        slices.len() == 4,
        bytes.len() == 4,
        bytes[0] + bytes[1] + bytes[2] + bytes[3] <= usize::MAX,
        forall|k: int|
            0 <= k < 4 ==> {
                &&& (#[trigger] slices[k]).width == slices[0].width
                &&& slices[k].height == slices[0].height
                &&& slices[k].range == slices[0].range
                &&& slices[k].matrix == slices[0].matrix
                &&& slices[k].primaries == slices[0].primaries
            },
        state.target.0 == slices[0].width,
        state.target.0 > 0,
        state.target.0 % 2 == 0,
        state.target.1 > 0,
        state.target.1 % 2 == 0,
        ({
            let (h, s) = (state.target.1, slices[0].height);
            4 * s == h || (s % 16 == 0 && 3 * s < h <= 4 * s && 4 * (s - 16) < h)
        }),
    ensures
        finish_outcome(four_pushed(state, slices, bytes)) is Frame,
        ({
            let frame = finish_outcome(four_pushed(state, slices, bytes))->Frame_0;
            let (h, s) = (state.target.1, slices[0].height);
            let half = (s + 1) / 2;
            &&& (frame.width, frame.height) == state.target
            &&& frame.range == slices[0].range
            &&& frame.matrix == slices[0].matrix
            &&& frame.primaries == slices[0].primaries
            &&& frame.encoded_bytes == bytes[0] + bytes[1] + bytes[2] + bytes[3]
            &&& frame.updates.len() == 4
            &&& forall|k: int|
                0 <= k < 4 ==> {
                    let u = #[trigger] frame.updates[k];
                    &&& u.slice_index == k
                    &&& u.pixels == slices[k]
                    &&& u.y_origin == k * s
                    &&& u.y_rows == if k < 3 {
                        s as int
                    } else {
                        h - 3 * s
                    }
                    &&& s % 2 == 0 ==> 2 * u.uv_origin == u.y_origin && 2 * u.uv_rows == u.y_rows
                    &&& s % 2 == 1 && s > 1 ==> u.uv_origin == k * half && u.uv_rows == if k < 3 {
                        half as int
                    } else {
                        h / 2 - 3 * half
                    }
                }
        }),
{
    let (h, s) = (state.target.1 as nat, slices[0].height as nat);
    let pushed = four_pushed(state, slices, bytes);
    let m = Some(metadata_of(slices[0]));
    assert(metadata_of(slices[1]) == metadata_of(slices[0]));
    assert(metadata_of(slices[2]) == metadata_of(slices[0]));
    assert(metadata_of(slices[3]) == metadata_of(slices[0]));
    assert(pushed.metadata =~= seq![m, m, m, m]);
    assert(pushed.pending =~= seq![
        Some(slices[0]),
        Some(slices[1]),
        Some(slices[2]),
        Some(slices[3]),
    ]);
    assert forall|k: int| 0 <= k < 4 implies #[trigger] pushed.metadata[k]
        == pushed.metadata[0] by {}
    law_frames_come_of_fitting_slices(pushed);
    let frame = finish_outcome(pushed)->Frame_0;
    law_aligned_height_is_the_least(h, s);
    assert forall|k: int| 0 <= k < 4 implies {
        let u = #[trigger] frame.updates[k];
        let half = (s + 1) / 2;
        &&& u.slice_index == k
        &&& u.pixels == slices[k]
        &&& u.y_origin == k * s
        &&& u.y_rows == if k < 3 {
            s as int
        } else {
            h - 3 * s
        }
        &&& s % 2 == 0 ==> 2 * u.uv_origin == u.y_origin && 2 * u.uv_rows == u.y_rows
        &&& s % 2 == 1 && s > 1 ==> u.uv_origin == k * half && u.uv_rows == if k < 3 {
            half as int
        } else {
            h / 2 - 3 * half
        }
    } by {
        lemma_update_of(pushed.pending, s, h, k);
        lemma_multiples(k as nat, s, (s + 1) / 2);
        assert(k == 0 || k == 1 || k == 2 || k == 3);
    }
    lemma_update_of(pushed.pending, s, h, 0);
}

/// A slice changes nothing of the other slices unless its layout does: then they are
/// all forgotten, for none of them can be shown next to it. An output without a
/// picture only counts its bytes.
pub proof fn law_a_slice_keeps_the_others(
    state: CompositorModel,
    index: usize,
    bytes: usize,
    slice: DecodedSlice,
    other: int,
)
    requires
        state.metadata.len() == 4,
        state.pending.len() == 4,
        index < 4,
        0 <= other < 4,
        other != index,
    ensures
        ({
            let after = slice_pushed(state, index, bytes, Some(slice));
            let known = state.metadata[index as int];
            let same = known matches Some(m) ==> m.width == slice.width && m.height == slice.height
                && m.range == slice.range && m.matrix == slice.matrix && m.primaries
                == slice.primaries;
            &&& after.dirty
            &&& after.target == state.target
            &&& after.pending[index as int] == Some(slice)
            &&& after.metadata[index as int] is Some
            &&& after.metadata[index as int]->0.width == slice.width
            &&& after.metadata[index as int]->0.height == slice.height
            &&& after.metadata[index as int]->0.range == slice.range
            &&& after.metadata[index as int]->0.matrix == slice.matrix
            &&& after.metadata[index as int]->0.primaries == slice.primaries
            &&& if same {
                &&& after.pending[other] == state.pending[other]
                &&& after.metadata[other] == state.metadata[other]
                &&& state.pending_bytes + bytes <= usize::MAX ==> after.pending_bytes
                    == state.pending_bytes + bytes
            } else {
                &&& after.pending[other] is None
                &&& after.metadata[other] is None
                &&& after.pending_bytes == bytes
            }
        }),
        ({
            let after = slice_pushed(state, index, bytes, None);
            &&& after.pending == state.pending
            &&& after.metadata == state.metadata
            &&& after.dirty == state.dirty
            &&& after.target == state.target
            &&& after.pending_bytes == if state.pending_bytes + bytes > usize::MAX {
                usize::MAX as int
            } else {
                state.pending_bytes + bytes
            }
        }),
{
}

} // verus!
