//! The capture of presented frames: which staging buffer a frame is copied to,
//! where its planes go, and when it is handed over.

use crate::clock::{Duration, Instant};
use crate::recording::layout;
use crate::recording::layout::FrameLayout;
use crate::recording::take;
use crate::recording::take::{
    PoolModel, RecordingStats, StagingBuffer, StagingPool, StatsModel, Take, TakeModel,
};
use crate::renderer::presentation;
use crate::renderer::presentation::PresentedSource;
use vstd::prelude::*;

verus! {

/// The textures that are copied.
#[derive(Debug, Clone, Copy, PartialEq, Eq, Structural)]
pub enum CopySource {
    /// The presented picture, drawn once more with its channels in BGRA order.
    Swizzled,
    Luma,
    Chroma,
}

/// The copy of one texture into a staging buffer.
#[derive(Debug, Clone, Copy, PartialEq, Eq, Structural)]
pub struct PlaneCopy {
    pub source: CopySource,
    pub offset: u64,
    pub bytes_per_row: u32,
    pub width: u32,
    pub height: u32,
}

/// A staging buffer and the pool that it belongs to.
#[derive(Debug, Clone, Copy, PartialEq, Eq, Structural)]
pub struct BufferId {
    pub pool: u64,
    pub index: u64,
}

/// A frame whose copy is under way, until it can be handed over.
#[derive(Debug, Clone, Copy, PartialEq, Eq, Structural)]
pub struct PendingCapture {
    pub buffer: BufferId,
    pub layout: FrameLayout,
    /// Position on the take's timeline.
    pub pts: Duration,
    pub presented: Instant,
}

/// What is to be done for a frame.
#[derive(Debug)]
pub enum CapturePlan {
    /// No take is open, or there is nothing to copy.
    Nothing,
    /// Every staging buffer is in use.
    Dropped,
    /// Copy the planes into the buffer.
    Copy {
        buffer: BufferId,
        /// The size of the buffer, if it has to be made first.
        create: Option<u64>,
        /// The picture for the copy has to be made anew, in the frame's size.
        resize_swizzle: bool,
        copies: Vec<PlaneCopy>,
    },
}

/// What a `CapturePlan` says.
pub enum PlanModel {
    Nothing,
    Dropped,
    Copy {
        buffer: BufferId,
        create: Option<u64>,
        resize_swizzle: bool,
        copies: Seq<PlaneCopy>,
    },
}

impl View for CapturePlan {
    type V = PlanModel;

    open spec fn view(&self) -> PlanModel {
        match *self {
            CapturePlan::Nothing => PlanModel::Nothing,
            CapturePlan::Dropped => PlanModel::Dropped,
            CapturePlan::Copy { buffer, create, resize_swizzle, copies } => PlanModel::Copy {
                buffer,
                create,
                resize_swizzle,
                copies: copies@,
            },
        }
    }
}

/// What following the switch led to.
#[derive(Debug, Clone, Copy, PartialEq, Eq, Structural)]
pub struct SyncOutcome {
    /// Frames are to be captured.
    pub active: bool,
    /// A take came whose recording has to be told of the device.
    pub new_take: bool,
}

/// A frame in flight as a model: its buffer, layout, position and instant.
pub struct PendingModel {
    pub buffer: BufferId,
    pub layout: FrameLayout,
    pub pts: nat,
    pub presented: nat,
}

impl View for PendingCapture {
    type V = PendingModel;

    open spec fn view(&self) -> PendingModel {
        PendingModel {
            buffer: self.buffer,
            layout: self.layout,
            pts: self.pts@,
            presented: self.presented@,
        }
    }
}

/// What frames in flight hold.
pub open spec fn all_pending(pending: Seq<PendingCapture>) -> Seq<PendingModel> {
    pending.map_values(|p: PendingCapture| p@)
}

/// The state of the capture.
pub struct TapModel {
    pub take_id: u64,
    pub has_take: bool,
    pub layout: Option<FrameLayout>,
    pub pool: Option<PoolModel>,
    pub pool_id: u64,
    pub swizzle: Option<(u32, u32)>,
    pub awaiting_first_frame: bool,
    pub pending: Seq<PendingModel>,
}

/// The capture of one window.
#[derive(Debug)]
pub struct RecordingTap {
    take_id: u64,
    has_take: bool,
    layout: Option<FrameLayout>,
    pool: Option<StagingPool>,
    /// The number of the pool, so that a buffer of an earlier one is known.
    pool_id: u64,
    /// The size of the picture that is copied in place of the presented one.
    swizzle: Option<(u32, u32)>,
    /// A take starts with the frame that is already on screen.
    awaiting_first_frame: bool,
    /// Frames that cannot be handed over before their copy was submitted.
    pending: Vec<PendingCapture>,
}

/// What an optional pool holds.
pub open spec fn pool_view(pool: Option<StagingPool>) -> Option<PoolModel> {
    match pool {
        Some(pool) => Some(pool@),
        None => None,
    }
}

impl View for RecordingTap {
    type V = TapModel;

    closed spec fn view(&self) -> TapModel {
        TapModel {
            take_id: self.take_id,
            has_take: self.has_take,
            layout: self.layout,
            pool: pool_view(self.pool),
            pool_id: self.pool_id,
            swizzle: self.swizzle,
            awaiting_first_frame: self.awaiting_first_frame,
            pending: all_pending(self.pending@),
        }
    }
}

/// The tap after it followed the switch. Another take starts without a pool,
/// since its frames may differ.
pub open spec fn synced(tap: TapModel, active: Option<TakeModel>) -> (TapModel, SyncOutcome) {
    let id = match active {
        Some(take) => take.id,
        None => 0,
    };
    let changed = id != tap.take_id;
    let has_take = if changed {
        active is Some
    } else {
        tap.has_take
    };
    (
        if changed {
            TapModel {
                take_id: id,
                has_take,
                awaiting_first_frame: has_take,
                layout: None,
                pool: None,
                ..tap
            }
        } else {
            tap
        },
        SyncOutcome {
            active: has_take && active is Some && !active->0.stopping,
            new_take: changed && has_take,
        },
    )
}

/// The size of a picture on screen.
pub open spec fn source_size(source: PresentedSource) -> (u32, u32) {
    match source {
        PresentedSource::Rgba { width, height } => (width, height),
        PresentedSource::Nv12 { width, height, .. } => (width, height),
    }
}

/// The copies of the planes of a frame into its layout.
pub open spec fn plane_copies(layout: FrameLayout) -> Seq<PlaneCopy> {
    match layout {
        FrameLayout::Bgra { width, height, stride, .. } => seq![
            PlaneCopy {
                source: CopySource::Swizzled,
                offset: 0,
                bytes_per_row: stride,
                width,
                height,
            },
        ],
        FrameLayout::Nv12 { width, height, y_stride, uv_stride, uv_offset, .. } => seq![
            PlaneCopy {
                source: CopySource::Luma,
                offset: 0,
                bytes_per_row: y_stride,
                width,
                height,
            },
            PlaneCopy {
                source: CopySource::Chroma,
                offset: uv_offset,
                bytes_per_row: uv_stride,
                width: presentation::half_up(width as nat) as u32,
                height: presentation::half_up(height as nat) as u32,
            },
        ],
    }
}

/// The tap with a pool for frames of the given layout.
pub open spec fn with_pool(tap: TapModel, layout: FrameLayout) -> TapModel {
    if tap.pool is None || tap.layout != Some(layout) {
        TapModel {
            pool: Some(
                PoolModel {
                    size: layout::layout_bytes(layout) as u64,
                    free: Seq::empty(),
                    created: 0,
                },
            ),
            pool_id: tap.pool_id.wrapping_add(1),
            layout: Some(layout),
            ..tap
        }
    } else {
        tap
    }
}

/// The tap, the counters and the take after one of its frames was captured, and
/// what is to be done for it.
pub open spec fn captured(
    tap: TapModel,
    stats: StatsModel,
    take: TakeModel,
    source: PresentedSource,
    now: nat,
) -> (TapModel, StatsModel, TakeModel, PlanModel) {
    let layout = layout::captured_layout(source);
    let (width, height) = source_size(source);
    if !tap.has_take || !take.open || width == 0 || height == 0 {
        (tap, stats, take, PlanModel::Nothing)
    } else {
        let ready = with_pool(tap, layout);
        let (pool, buffer) = take::acquired(ready.pool->0);
        match buffer {
            None => (
                ready,
                StatsModel { dropped: stats.dropped.wrapping_add(1), ..stats },
                take,
                PlanModel::Dropped,
            ),
            Some(buffer) => {
                let id = BufferId { pool: ready.pool_id, index: buffer.index };
                let noted = take::frame_noted(take, now);
                let resize = source is Rgba && ready.swizzle != Some((width, height));
                (
                    TapModel {
                        pool: Some(pool),
                        swizzle: if resize {
                            Some((width, height))
                        } else {
                            ready.swizzle
                        },
                        pending: ready.pending.push(
                            PendingModel {
                                buffer: id,
                                layout,
                                pts: take::position_in(noted, now),
                                presented: now,
                            },
                        ),
                        ..ready
                    },
                    StatsModel { captured: stats.captured.wrapping_add(1), ..stats },
                    noted,
                    PlanModel::Copy {
                        buffer: id,
                        create: if buffer.is_new {
                            Some(ready.pool->0.size)
                        } else {
                            None
                        },
                        resize_swizzle: resize,
                        copies: plane_copies(layout),
                    },
                )
            },
        }
    }
}

/// The tap after a buffer came back: one of an earlier pool is gone.
pub open spec fn returned(tap: TapModel, buffer: BufferId) -> TapModel {
    match tap.pool {
        Some(pool) => if buffer.pool == tap.pool_id {
            TapModel {
                pool: Some(PoolModel { free: pool.free.push(buffer.index), ..pool }),
                ..tap
            }
        } else {
            tap
        },
        None => tap,
    }
}

fn copies_of(layout: FrameLayout) -> (copies: Vec<PlaneCopy>)
    ensures
        copies@ == plane_copies(layout),
{
    let mut copies: Vec<PlaneCopy> = Vec::new();
    match layout {
        FrameLayout::Bgra { width, height, stride, .. } => {
            copies.push(
                PlaneCopy {
                    source: CopySource::Swizzled,
                    offset: 0,
                    bytes_per_row: stride,
                    width,
                    height,
                },
            );
        },
        FrameLayout::Nv12 { width, height, y_stride, uv_stride, uv_offset, .. } => {
            copies.push(
                PlaneCopy {
                    source: CopySource::Luma,
                    offset: 0,
                    bytes_per_row: y_stride,
                    width,
                    height,
                },
            );
            copies.push(
                PlaneCopy {
                    source: CopySource::Chroma,
                    offset: uv_offset,
                    bytes_per_row: uv_stride,
                    width: presentation::half(width),
                    height: presentation::half(height),
                },
            );
        },
    }
    assert(copies@ =~= plane_copies(layout));
    copies
}

impl RecordingTap {
    /// A tap without a take.
    pub fn new() -> (tap: Self)
        ensures
            tap@ == (TapModel {
                take_id: 0,
                has_take: false,
                layout: None,
                pool: None,
                pool_id: 0,
                swizzle: None,
                awaiting_first_frame: false,
                pending: Seq::empty(),
            }),
    {
        let tap = RecordingTap {
            take_id: 0,
            has_take: false,
            layout: None,
            pool: None,
            pool_id: 0,
            swizzle: None,
            awaiting_first_frame: false,
            pending: Vec::new(),
        };
        assert(tap@.pending =~= Seq::<PendingModel>::empty());
        tap
    }

    /// Follows the switch: `active` is the take that it names. The frames of
    /// earlier draws are to be handed over first.
    pub fn sync(&mut self, active: Option<&Take>) -> (outcome: SyncOutcome)
        ensures
            (final(self)@, outcome) == synced(
                old(self)@,
                match active {
                    Some(take) => Some(take@),
                    None => None,
                },
            ),
    {
        let id: u64 = match active {
            Some(take) => take.id(),
            None => 0,
        };
        let changed = id != self.take_id;
        if changed {
            self.take_id = id;
            self.has_take = active.is_some();
            self.awaiting_first_frame = self.has_take;
            self.layout = None;
            self.pool = None;
        }
        let running = match active {
            Some(take) => !take.is_stopping(),
            None => false,
        };
        SyncOutcome { active: self.has_take && running, new_take: changed && self.has_take }
    }

    /// The frames that can be handed over now.
    pub fn flush_pending(&mut self) -> (frames: Vec<PendingCapture>)
        ensures
            all_pending(frames@) == old(self)@.pending,
            final(self)@ == (TapModel { pending: Seq::empty(), ..old(self)@ }),
    {
        let mut frames: Vec<PendingCapture> = Vec::new();
        std::mem::swap(&mut frames, &mut self.pending);
        assert(self@.pending =~= Seq::<PendingModel>::empty());
        frames
    }

    /// Whether the first frame of a new take still has to be captured: it is the
    /// one that is already on screen.
    pub fn take_started(&mut self) -> (started: bool)
        ensures
            started == old(self)@.awaiting_first_frame,
            final(self)@ == (TapModel { awaiting_first_frame: false, ..old(self)@ }),
    {
        let started = self.awaiting_first_frame;
        self.awaiting_first_frame = false;
        started
    }

    /// Captures one frame of the take. The first one that is captured is the zero
    /// of the take's timeline.
    pub fn capture(
        &mut self,
        stats: &mut RecordingStats,
        take: &mut Take,
        source: PresentedSource,
        now: Instant,
    ) -> (plan: CapturePlan)
        requires
            source matches PresentedSource::Nv12 { width, .. } ==> width <= layout::MAX_NV12_WIDTH,
            source matches PresentedSource::Rgba { width, .. } ==> width <= layout::MAX_BGRA_WIDTH,
            layout::layout_bytes(layout::captured_layout(source)) <= u64::MAX,
        ensures
            (final(self)@, final(stats)@, final(take)@, plan@) == captured(
                old(self)@,
                old(stats)@,
                old(take)@,
                source,
                now@,
            ),
    {
        if !self.has_take || !take.is_open() {
            return CapturePlan::Nothing;
        }
        let layout = FrameLayout::of_source(source);
        let width: u32 = layout.width();
        let height: u32 = layout.height();
        if width == 0 || height == 0 {
            return CapturePlan::Nothing;
        }
        let same_layout = match self.layout {
            Some(current) => current == layout,
            None => false,
        };
        let mut pool = match self.pool.take() {
            Some(pool) if same_layout => pool,
            _ => {
                self.pool_id = self.pool_id.wrapping_add(1);
                self.layout = Some(layout);
                StagingPool::new(layout.buffer_size())
            },
        };
        let size: u64 = pool.size();
        let acquired = pool.acquire();
        self.pool = Some(pool);
        let buffer = match acquired {
            Some(buffer) => buffer,
            None => {
                stats.record_dropped_frame();
                return CapturePlan::Dropped;
            },
        };
        let resize_swizzle = match source {
            PresentedSource::Rgba { .. } => match self.swizzle {
                Some((w, h)) => w != width || h != height,
                None => true,
            },
            PresentedSource::Nv12 { .. } => false,
        };
        if resize_swizzle {
            self.swizzle = Some((width, height));
        }
        stats.record_captured_frame();
        take.note_frame(now);
        let id = BufferId { pool: self.pool_id, index: buffer.index };
        let pending = PendingCapture {
            buffer: id,
            layout,
            pts: take.position(now),
            presented: now,
        };
        let ghost before = self.pending@;
        self.pending.push(pending);
        assert(all_pending(self.pending@) =~= all_pending(before).push(pending@));
        CapturePlan::Copy {
            buffer: id,
            create: if buffer.is_new { Some(size) } else { None },
            resize_swizzle,
            copies: copies_of(layout),
        }
    }

    /// Takes a buffer back whose frame was encoded.
    pub fn release(&mut self, buffer: BufferId)
        ensures
            final(self)@ == returned(old(self)@, buffer),
    {
        if buffer.pool == self.pool_id {
            if let Some(pool) = self.pool.take() {
                let mut pool = pool;
                pool.release(buffer.index);
                self.pool = Some(pool);
            }
        }
    }
}

/// A take that is being saved captures nothing more, and neither does a switch
/// without a take.
pub proof fn law_stopped_take_stops_capturing(tap: TapModel, active: Option<TakeModel>)
    requires
        active is None || active->0.stopping,
    ensures
        !synced(tap, active).1.active,
        active is None && tap.take_id != 0 ==> !synced(tap, active).0.has_take,
{
}

/// A closed take gets no frame, whatever the tap was told before.
pub proof fn law_closed_take_gets_nothing(
    tap: TapModel,
    stats: StatsModel,
    take: TakeModel,
    source: PresentedSource,
    now: nat,
)
    requires
        !take.open,
    ensures
        captured(tap, stats, take, source, now) == (tap, stats, take, PlanModel::Nothing),
{
}

/// Every frame is either counted as captured or as dropped, never as both.
pub proof fn law_each_frame_is_counted_once(
    tap: TapModel,
    stats: StatsModel,
    take: TakeModel,
    source: PresentedSource,
    now: nat,
)
    ensures
        ({
            let (after, counted, _, plan) = captured(tap, stats, take, source, now);
            &&& plan is Nothing ==> counted == stats && after == tap
            &&& plan is Dropped ==> {
                &&& counted.dropped == stats.dropped.wrapping_add(1)
                &&& counted.captured == stats.captured
                &&& after.pending == tap.pending
            }
            &&& plan is Copy ==> {
                &&& counted.captured == stats.captured.wrapping_add(1)
                &&& counted.dropped == stats.dropped
                &&& after.pending.len() == tap.pending.len() + 1
            }
        }),
{
}

/// The timeline of a take starts with its first captured frame: that frame stands
/// at zero, each later one at the time since then, and a frame that is given up
/// moves nothing.
pub proof fn law_timeline_starts_with_the_first_frame(
    tap: TapModel,
    stats: StatsModel,
    take: TakeModel,
    source: PresentedSource,
    now: nat,
)
    ensures
        ({
            let (after, _, noted, plan) = captured(tap, stats, take, source, now);
            let staged = after.pending.last();
            &&& plan !is Copy ==> noted == take
            &&& plan is Copy ==> {
                &&& staged.presented == now
                &&& take.first is None ==> noted.first == Some(now) && staged.pts == 0
                &&& take.first matches Some(first) ==> noted == take && staged.pts == take::since(
                    first,
                    now,
                )
                &&& staged.pts == take::position_in(noted, staged.presented)
            }
        }),
{
}

/// The bytes of one texel that a copy reads.
pub open spec fn texel_bytes(source: CopySource) -> nat {
    match source {
        CopySource::Swizzled => 4,
        CopySource::Luma => 1,
        CopySource::Chroma => 2,
    }
}

/// Each copy of a frame stays inside its staging buffer: the rows start on the
/// alignment that a copy needs, hold their texels, and end before the buffer
/// does.
pub proof fn law_copies_fit_the_buffer(source: PresentedSource, i: int)
    requires
        source matches PresentedSource::Nv12 { width, .. } ==> width <= layout::MAX_NV12_WIDTH,
        source matches PresentedSource::Rgba { width, .. } ==> width <= layout::MAX_BGRA_WIDTH,
        0 <= i < plane_copies(layout::captured_layout(source)).len(),
    ensures
        ({
            let layout = layout::captured_layout(source);
            let copy = plane_copies(layout)[i];
            &&& copy.offset % 256 == 0
            &&& copy.bytes_per_row % 256 == 0
            &&& copy.width * texel_bytes(copy.source) <= copy.bytes_per_row
            &&& copy.offset + copy.bytes_per_row * copy.height <= layout::layout_bytes(layout)
        }),
{
    match source {
        PresentedSource::Rgba { width, height } => {
            layout::law_bgra_rows_are_aligned(width, height);
        },
        PresentedSource::Nv12 { width, height, range, matrix, primaries } => {
            layout::law_planes_are_aligned_and_apart(width, height, range, matrix, primaries);
            let layout = layout::captured_layout(source);
            if let FrameLayout::Nv12 { uv_stride, .. } = layout {
                let rows = presentation::half_up(height as nat);
                assert(0 <= uv_stride * rows) by (nonlinear_arith)
                    requires
                        0 <= uv_stride,
                        0 <= rows,
                ;
            }
        },
    }
}

/// Following the switch: another take starts with the frame on screen and without the
/// buffers of the one before, the same one goes on, and frames are captured exactly for
/// a take that does not stop.
pub proof fn law_takes_start_afresh(tap: TapModel, take: TakeModel)
    ensures
        ({
            let (after, outcome) = synced(tap, Some(take));
            &&& after.take_id == take.id
            &&& take.id != tap.take_id ==> {
                &&& after.has_take
                &&& after.awaiting_first_frame
                &&& after.layout is None
                &&& after.pool is None
                &&& outcome.new_take
                &&& outcome.active == !take.stopping
            }
            &&& take.id == tap.take_id ==> {
                &&& after == tap
                &&& !outcome.new_take
                &&& outcome.active == (tap.has_take && !take.stopping)
            }
            &&& after.pending == tap.pending
            &&& after.pool_id == tap.pool_id
        }),
        ({
            let (after, outcome) = synced(tap, None);
            &&& !outcome.active
            &&& !outcome.new_take
            &&& tap.take_id != 0 ==> !after.has_take && after.pool is None && after.take_id == 0
            &&& after.pending == tap.pending
        }),
{
}

/// The planes of a frame are copied as a whole: the picture itself, or its luma and
/// half as wide and half as high its chroma, each to its place in the buffer.
pub proof fn law_planes_are_copied_as_a_whole(layout: FrameLayout)
    ensures
        match layout {
            FrameLayout::Bgra { width, height, stride, .. } => {
                let copies = plane_copies(layout);
                &&& copies.len() == 1
                &&& copies[0].source == CopySource::Swizzled
                &&& copies[0].offset == 0
                &&& copies[0].bytes_per_row == stride
                &&& (copies[0].width, copies[0].height) == (width, height)
            },
            FrameLayout::Nv12 { width, height, y_stride, uv_stride, uv_offset, .. } => {
                let copies = plane_copies(layout);
                &&& copies.len() == 2
                &&& copies[0].source == CopySource::Luma
                &&& copies[0].offset == 0
                &&& copies[0].bytes_per_row == y_stride
                &&& (copies[0].width, copies[0].height) == (width, height)
                &&& copies[1].source == CopySource::Chroma
                &&& copies[1].offset == uv_offset
                &&& copies[1].bytes_per_row == uv_stride
                &&& copies[1].width == (width + 1) / 2
                &&& copies[1].height == (height + 1) / 2
            },
        },
{
}

/// A captured frame: an open take gets every frame of some size for which there is a
/// buffer. The buffer is of the frame's own size and of the pool for its layout, and the
/// frame is remembered with it.
pub proof fn law_frames_get_a_buffer_of_their_size(
    tap: TapModel,
    stats: StatsModel,
    take: TakeModel,
    source: PresentedSource,
    now: nat,
)
    requires
        tap.has_take,
        take.open,
        source matches PresentedSource::Nv12 { width, height, .. } ==> width > 0 && height > 0,
        source matches PresentedSource::Rgba { width, height } ==> width > 0 && height > 0,
        layout::layout_bytes(layout::captured_layout(source)) <= u64::MAX,
    ensures
        ({
            let layout = layout::captured_layout(source);
            let (after, _, _, plan) = captured(tap, stats, take, source, now);
            let fresh = tap.pool is None || tap.layout != Some(layout);
            &&& after.layout == Some(layout)
            &&& after.pool is Some
            &&& fresh ==> plan is Copy && after.pool_id == tap.pool_id.wrapping_add(1)
                && after.pool->0.size == layout::layout_bytes(layout)
            &&& !fresh ==> after.pool_id == tap.pool_id && after.pool->0.size == tap.pool->0.size
            &&& plan is Dropped ==> !fresh && tap.pool->0.free.len() == 0
            &&& plan matches PlanModel::Copy { buffer, create, resize_swizzle, copies } ==> {
                let staged = after.pending.last();
                &&& buffer.pool == after.pool_id
                &&& staged.buffer == buffer
                &&& staged.layout == layout
                &&& copies == plane_copies(layout)
                &&& create matches Some(size) ==> size == after.pool->0.size
                &&& create is Some <==> (fresh || tap.pool->0.free.len() == 0)
                &&& resize_swizzle ==> source is Rgba
                &&& source matches PresentedSource::Rgba { width, height } ==> after.swizzle == Some(
                    (width, height),
                )
            }
        }),
{
    let layout = layout::captured_layout(source);
    let ready = with_pool(tap, layout);
    if tap.pool is None || tap.layout != Some(layout) {
        take::law_buffers_fill_the_budget(layout::layout_bytes(layout) as u64);
        take::law_new_buffers_are_numbered(ready.pool->0);
    }
}

/// A buffer that comes back is free again in the pool that it belongs to; one of an
/// earlier pool is gone.
pub proof fn law_buffers_return_to_their_pool(tap: TapModel, buffer: BufferId)
    requires
        tap.pool is Some,
    ensures
        buffer.pool == tap.pool_id ==> returned(tap, buffer).pool->0.free
            == tap.pool->0.free.push(buffer.index) && returned(tap, buffer).pool->0.created
            == tap.pool->0.created,
        buffer.pool != tap.pool_id ==> returned(tap, buffer) == tap,
        returned(tap, buffer).pending == tap.pending,
{
}

/// A picture without a size is not captured, and neither is one for no take.
pub proof fn law_nothing_is_captured_of_nothing(
    tap: TapModel,
    stats: StatsModel,
    take: TakeModel,
    source: PresentedSource,
    now: nat,
)
    requires
        !tap.has_take || source_size(source).0 == 0 || source_size(source).1 == 0,
    ensures
        captured(tap, stats, take, source, now) == (tap, stats, take, PlanModel::Nothing),
        match source {
            PresentedSource::Rgba { width, height } => source_size(source) == (width, height),
            PresentedSource::Nv12 { width, height, .. } => source_size(source) == (width, height),
        },
{
}

} // verus!
