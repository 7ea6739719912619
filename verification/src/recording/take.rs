//! A recording take: what it counts, how it is switched on and off, and the
//! staging buffers that its frames travel in.

use crate::clock::{Duration, Instant};
use crate::recording::encoder;
use vstd::prelude::*;

verus! {

/// What a finished take left behind.
#[derive(Debug)]
pub struct RecordingOutcome {
    /// The files of the take.
    pub segments: Vec<String>,
    pub error: Option<String>,
}

/// What texts hold.
pub open spec fn all_texts(texts: Seq<String>) -> Seq<Seq<char>> {
    texts.map_values(|t: String| t@)
}

/// A copy of texts.
pub fn copy_texts(texts: &Vec<String>) -> (copy: Vec<String>)
    ensures
        all_texts(copy@) == all_texts(texts@),
{
    let mut copy: Vec<String> = Vec::new();
    for i in 0..texts.len()
        invariant
            copy@.len() == i,
            forall|k: int| 0 <= k < i ==> #[trigger] copy@[k]@ == texts@[k]@,
    {
        copy.push(texts[i].clone());
    }
    assert(all_texts(copy@) =~= all_texts(texts@));
    copy
}

/// What a `RecordingStats` counts.
pub struct StatsModel {
    pub captured: u64,
    pub dropped: u64,
    pub encoded: u64,
    pub written_bytes: u64,
    pub recorded_units: u64,
    pub hardware: Option<bool>,
    pub origin: Option<nat>,
    pub finished: bool,
    pub segments: Seq<Seq<char>>,
    pub error: Option<Seq<char>>,
}

/// The counters that a running take publishes.
#[derive(Debug)]
pub struct RecordingStats {
    captured: u64,
    dropped: u64,
    encoded: u64,
    written_bytes: u64,
    recorded_units: u64,
    /// Whether the encoder reported hardware acceleration, once known.
    hardware: Option<bool>,
    /// When the take's first frame was presented.
    origin: Option<Instant>,
    finished: bool,
    segments: Vec<String>,
    error: Option<String>,
}

impl View for RecordingStats {
    type V = StatsModel;

    closed spec fn view(&self) -> StatsModel {
        StatsModel {
            captured: self.captured,
            dropped: self.dropped,
            encoded: self.encoded,
            written_bytes: self.written_bytes,
            recorded_units: self.recorded_units,
            hardware: self.hardware,
            origin: match self.origin {
                Some(origin) => Some(origin@),
                None => None,
            },
            finished: self.finished,
            segments: all_texts(self.segments@),
            error: encoder::text_view(self.error),
        }
    }
}

impl Default for RecordingStats {
    fn default() -> (stats: Self)
        ensures
            stats@ == (StatsModel {
                captured: 0,
                dropped: 0,
                encoded: 0,
                written_bytes: 0,
                recorded_units: 0,
                hardware: None,
                origin: None,
                finished: false,
                segments: Seq::empty(),
                error: None,
            }),
    {
        let stats = RecordingStats {
            captured: 0,
            dropped: 0,
            encoded: 0,
            written_bytes: 0,
            recorded_units: 0,
            hardware: None,
            origin: None,
            finished: false,
            segments: Vec::new(),
            error: None,
        };
        assert(stats@.segments =~= Seq::<Seq<char>>::empty());
        stats
    }
}

/// Snapshot of a take.
#[derive(Debug)]
pub struct RecordingProgress {
    pub captured_frames: u64,
    pub dropped_frames: u64,
    pub encoded_frames: u64,
    pub written_bytes: u64,
    /// Length of the recorded timeline.
    pub recorded: Duration,
    /// Whether the encoder reported hardware acceleration, once known.
    pub hardware_encoder: Option<bool>,
    pub finished: bool,
    pub segments: Vec<String>,
    pub error: Option<String>,
}

/// The nanoseconds of a number of track units; the product is cut off at the
/// largest 64-bit number before it is divided.
pub open spec fn recorded_nanos(units: u64) -> nat {
    (if units * 1_000_000_000 > u64::MAX {
        u64::MAX as nat
    } else {
        units as nat * 1_000_000_000
    }) / 90_000
}

/// Whether `progress` shows the counters, with the given length.
pub open spec fn shows(progress: RecordingProgress, stats: StatsModel, recorded: nat) -> bool {
    &&& progress.captured_frames == stats.captured
    &&& progress.dropped_frames == stats.dropped
    &&& progress.encoded_frames == stats.encoded
    &&& progress.written_bytes == stats.written_bytes
    &&& progress.recorded@ == recorded
    &&& progress.hardware_encoder == stats.hardware
    &&& progress.finished == stats.finished
    &&& all_texts(progress.segments@) == stats.segments
    &&& encoder::text_view(progress.error) == stats.error
}

impl RecordingStats {
    /// The counters as they stand.
    pub fn snapshot(&self) -> (progress: RecordingProgress)
        ensures
            shows(progress, self@, recorded_nanos(self@.recorded_units)),
    {
        let wide: u128 = self.recorded_units as u128 * 1_000_000_000;
        let nanos: u64 = if wide > u64::MAX as u128 { u64::MAX } else { wide as u64 };
        RecordingProgress {
            captured_frames: self.captured,
            dropped_frames: self.dropped,
            encoded_frames: self.encoded,
            written_bytes: self.written_bytes,
            recorded: Duration::from_nanos(nanos / 90_000),
            hardware_encoder: self.hardware,
            finished: self.finished,
            segments: copy_texts(&self.segments),
            error: match &self.error {
                Some(error) => Some(error.clone()),
                None => None,
            },
        }
    }

    /// What is shown of a take that runs since `elapsed`: as long as it does, the
    /// length is that of the clock.
    pub fn progress(&self, elapsed: Duration) -> (progress: RecordingProgress)
        ensures
            shows(
                progress,
                self@,
                if self@.finished {
                    recorded_nanos(self@.recorded_units)
                } else {
                    elapsed@
                },
            ),
    {
        let mut progress = self.snapshot();
        if !progress.finished {
            progress.recorded = elapsed;
        }
        progress
    }

    /// Counts a frame that was captured.
    pub fn record_captured_frame(&mut self)
        ensures
            final(self)@ == (StatsModel {
                captured: old(self)@.captured.wrapping_add(1),
                ..old(self)@
            }),
    {
        self.captured = self.captured.wrapping_add(1);
    }

    /// Counts a frame that was given up.
    pub fn record_dropped_frame(&mut self)
        ensures
            final(self)@ == (StatsModel {
                dropped: old(self)@.dropped.wrapping_add(1),
                ..old(self)@
            }),
    {
        self.dropped = self.dropped.wrapping_add(1);
    }

    /// Counts samples that were written.
    pub fn record_encoded(&mut self, written: u64)
        ensures
            final(self)@ == (StatsModel {
                encoded: old(self)@.encoded.wrapping_add(written),
                ..old(self)@
            }),
    {
        self.encoded = self.encoded.wrapping_add(written);
    }

    /// Keeps what the encoder said of its acceleration.
    pub fn record_encoder_kind(&mut self, hardware: Option<bool>)
        ensures
            final(self)@ == (StatsModel { hardware, ..old(self)@ }),
    {
        self.hardware = hardware;
    }

    /// When the take's first frame was presented.
    pub fn take_origin(&self) -> (origin: Option<Instant>)
        ensures
            match origin {
                Some(o) => self@.origin == Some(o@),
                None => self@.origin is None,
            },
    {
        self.origin
    }

    /// Takes note of a frame; the first one is the origin of the timeline.
    pub fn record_presented(&mut self, presented: Instant)
        ensures
            final(self)@ == (StatsModel {
                origin: match old(self)@.origin {
                    Some(origin) => Some(origin),
                    None => Some(presented@),
                },
                ..old(self)@
            }),
    {
        if self.origin.is_none() {
            self.origin = Some(presented);
        }
    }

    /// Publishes the size and the timeline of everything written so far.
    pub fn publish_totals(&mut self, written_bytes: u64, recorded_units: u64)
        ensures
            final(self)@ == (StatsModel { written_bytes, recorded_units, ..old(self)@ }),
    {
        self.written_bytes = written_bytes;
        self.recorded_units = recorded_units;
    }

    /// Whether the take is over.
    pub fn is_finished(&self) -> (finished: bool)
        ensures
            finished == self@.finished,
    {
        self.finished
    }

    /// Ends the take with its outcome.
    pub fn mark_finished(&mut self, outcome: RecordingOutcome)
        ensures
            final(self)@ == (StatsModel {
                segments: all_texts(outcome.segments@),
                error: encoder::text_view(outcome.error),
                finished: true,
                ..old(self)@
            }),
    {
        self.segments = outcome.segments;
        self.error = outcome.error;
        self.finished = true;
    }
}

/// One recording take: whether the renderer should hand frames over, and when
/// they count from.
#[derive(Debug, Clone, Copy, PartialEq, Eq, Structural)]
pub struct Take {
    id: u64,
    /// When the first captured frame was presented: the zero of the timeline.
    first: Option<Instant>,
    /// No more frames are to be captured.
    stopping: bool,
    /// Frames can still be handed over.
    open: bool,
}

/// What a `Take` holds.
pub struct TakeModel {
    pub id: u64,
    pub first: Option<nat>,
    pub stopping: bool,
    pub open: bool,
}

impl View for Take {
    type V = TakeModel;

    closed spec fn view(&self) -> TakeModel {
        TakeModel {
            id: self.id,
            first: match self.first {
                Some(first) => Some(first@),
                None => None,
            },
            stopping: self.stopping,
            open: self.open,
        }
    }
}

/// The time from `start` to `now`, or none if `now` comes first.
pub open spec fn since(start: nat, now: nat) -> nat {
    if now >= start {
        (now - start) as nat
    } else {
        0
    }
}

/// The position of `now` on the timeline of a take, which starts with the first
/// captured frame.
pub open spec fn position_in(take: TakeModel, now: nat) -> nat {
    match take.first {
        Some(first) => since(first, now),
        None => 0,
    }
}

/// The take after a frame was captured at `now`: the first one is the zero of its
/// timeline.
pub open spec fn frame_noted(take: TakeModel, now: nat) -> TakeModel {
    TakeModel {
        first: if take.first is None {
            Some(now)
        } else {
            take.first
        },
        ..take
    }
}

impl Take {
    /// A take without frames.
    pub fn new(id: u64) -> (take: Self)
        ensures
            take@ == (TakeModel { id, first: None, stopping: false, open: true }),
    {
        Take { id, first: None, stopping: false, open: true }
    }

    pub fn id(&self) -> (id: u64)
        ensures
            id == self@.id,
    {
        self.id
    }

    /// Timeline position of `now`, measured from the first captured frame; as long
    /// as there is none, the timeline has not started.
    pub fn position(&self, now: Instant) -> (position: Duration)
        ensures
            position@ == position_in(self@, now@),
    {
        match self.first {
            Some(first) => now.saturating_duration_since(first),
            None => Duration::zero(),
        }
    }

    /// Takes note of a frame that was captured at `now`.
    pub fn note_frame(&mut self, now: Instant)
        ensures
            final(self)@ == frame_noted(old(self)@, now@),
    {
        if self.first.is_none() {
            self.first = Some(now);
        }
    }

    /// Whether frames can still be handed over.
    pub fn is_open(&self) -> (open: bool)
        ensures
            open == self@.open,
    {
        self.open
    }

    pub fn request_stop(&mut self)
        ensures
            final(self)@ == (TakeModel { stopping: true, ..old(self)@ }),
    {
        self.stopping = true;
    }

    pub fn is_stopping(&self) -> (stopping: bool)
        ensures
            stopping == self@.stopping,
    {
        self.stopping
    }

    /// Stops taking frames.
    pub fn close(&mut self)
        ensures
            final(self)@ == (TakeModel { open: false, ..old(self)@ }),
    {
        self.open = false;
    }
}

/// What an optional take holds.
pub open spec fn take_view(take: Option<Take>) -> Option<TakeModel> {
    match take {
        Some(take) => Some(take@),
        None => None,
    }
}

/// The switch between the window, the renderer and the recording. Its view is
/// the active take, and the number of the next one.
#[derive(Debug)]
pub struct RecordingControl {
    take: Option<Take>,
    next_id: u64,
}

impl View for RecordingControl {
    type V = (Option<TakeModel>, u64);

    closed spec fn view(&self) -> (Option<TakeModel>, u64) {
        (take_view(self.take), self.next_id)
    }
}

impl RecordingControl {
    /// No take, and the first one has the number 1.
    pub fn new() -> (control: Self)
        ensures
            control@ == (None::<TakeModel>, 1u64),
    {
        RecordingControl { take: None, next_id: 1 }
    }

    /// The take that the renderer should capture into, if any.
    pub fn active(&self) -> (take: Option<Take>)
        ensures
            take_view(take) == self@.0,
    {
        self.take
    }

    /// Makes a take the active one.
    pub fn publish(&mut self, take: Take)
        ensures
            final(self)@ == (Some(take@), old(self)@.1),
    {
        self.take = Some(take);
    }

    /// Asks the active take to stop capturing; it stays published, so that what
    /// is already staged can still be handed over.
    pub fn request_stop(&mut self)
        ensures
            final(self)@ == (
                match old(self)@.0 {
                    Some(take) => Some(TakeModel { stopping: true, ..take }),
                    None => None,
                },
                old(self)@.1,
            ),
    {
        if let Some(take) = self.take {
            let mut take = take;
            take.request_stop();
            self.take = Some(take);
        }
    }

    /// Drops the active take, closed.
    pub fn clear(&mut self) -> (closed: Option<Take>)
        ensures
            final(self)@ == (None::<TakeModel>, old(self)@.1),
            take_view(closed) == match old(self)@.0 {
                Some(take) => Some(TakeModel { open: false, ..take }),
                None => None,
            },
    {
        match self.take.take() {
            Some(take) => {
                let mut take = take;
                take.close();
                Some(take)
            },
            None => None,
        }
    }

    /// The number for a new take.
    pub fn allocate_id(&mut self) -> (id: u64)
        ensures
            id == old(self)@.1,
            final(self)@ == (old(self)@.0, old(self)@.1.wrapping_add(1)),
    {
        let id: u64 = self.next_id;
        self.next_id = id.wrapping_add(1);
        id
    }
}

/// Memory budget for the staging buffers of a take.
pub const STAGING_MEMORY_BUDGET: u64 = 201_326_592;

/// The smallest and the largest number of staging buffers.
pub const MIN_STAGING_BUFFERS: u64 = 3;

pub const MAX_STAGING_BUFFERS: u64 = 6;

/// How many staging buffers of a size there may be.
pub open spec fn buffer_limit(size: u64) -> nat {
    let fitting = STAGING_MEMORY_BUDGET as nat / (if size == 0 {
        1
    } else {
        size as nat
    });
    if fitting < MIN_STAGING_BUFFERS {
        MIN_STAGING_BUFFERS as nat
    } else if fitting > MAX_STAGING_BUFFERS {
        MAX_STAGING_BUFFERS as nat
    } else {
        fitting
    }
}

/// A staging buffer: which one of its pool, and whether it has to be made first.
#[derive(Debug, Clone, Copy, PartialEq, Eq, Structural)]
pub struct StagingBuffer {
    pub index: u64,
    pub is_new: bool,
}

/// The staging buffers of one size. Its view is the indices of the free ones, in
/// the order in which they came back.
#[derive(Debug)]
pub struct StagingPool {
    size: u64,
    free: Vec<u64>,
    created: u64,
}

/// What a `StagingPool` holds.
pub struct PoolModel {
    pub size: u64,
    pub free: Seq<u64>,
    pub created: u64,
}

impl View for StagingPool {
    type V = PoolModel;

    closed spec fn view(&self) -> PoolModel {
        PoolModel { size: self.size, free: self.free@, created: self.created }
    }
}

/// The buffer that a pool gives out, and the pool after that: the free one that
/// came back last, or a new one as long as the limit allows it.
pub open spec fn acquired(pool: PoolModel) -> (PoolModel, Option<StagingBuffer>) {
    if pool.free.len() > 0 {
        (
            PoolModel { free: pool.free.drop_last(), ..pool },
            Some(StagingBuffer { index: pool.free.last(), is_new: false }),
        )
    } else if pool.created >= buffer_limit(pool.size) {
        (pool, None)
    } else {
        (
            PoolModel { created: (pool.created + 1) as u64, ..pool },
            Some(StagingBuffer { index: pool.created, is_new: true }),
        )
    }
}

impl StagingPool {
    /// A pool without buffers.
    pub fn new(size: u64) -> (pool: Self)
        ensures
            pool@ == (PoolModel { size, free: Seq::empty(), created: 0 }),
    {
        StagingPool { size, free: Vec::new(), created: 0 }
    }

    /// The size of each buffer.
    pub fn size(&self) -> (size: u64)
        ensures
            size == self@.size,
    {
        self.size
    }

    /// A buffer that is ready for a copy, or none when every one is in use.
    pub fn acquire(&mut self) -> (buffer: Option<StagingBuffer>)
        ensures
            (final(self)@, buffer) == acquired(old(self)@),
    {
        if let Some(index) = self.free.pop() {
            return Some(StagingBuffer { index, is_new: false });
        }
        let divisor: u64 = if self.size == 0 { 1 } else { self.size };
        let fitting: u64 = STAGING_MEMORY_BUDGET / divisor;
        let limit: u64 = if fitting < MIN_STAGING_BUFFERS {
            MIN_STAGING_BUFFERS
        } else if fitting > MAX_STAGING_BUFFERS {
            MAX_STAGING_BUFFERS
        } else {
            fitting
        };
        if self.created >= limit {
            return None;
        }
        let index: u64 = self.created;
        self.created = index + 1;
        Some(StagingBuffer { index, is_new: true })
    }

    /// Gives a buffer back.
    pub fn release(&mut self, index: u64)
        ensures
            final(self)@ == (PoolModel { free: old(self)@.free.push(index), ..old(self)@ }),
    {
        self.free.push(index);
    }
}

/// A pool never makes more buffers than its limit, and there are never fewer than
/// three nor more than six of them allowed.
pub proof fn law_staging_memory_is_bounded(pool: PoolModel)
    requires
        pool.created <= buffer_limit(pool.size),
    ensures
        acquired(pool).0.created <= buffer_limit(pool.size),
        3 <= buffer_limit(pool.size) <= 6,
        pool.size > 0 && buffer_limit(pool.size) > 3 ==> buffer_limit(pool.size) * pool.size
            <= STAGING_MEMORY_BUDGET,
{
    if pool.size > 0 {
        let size = pool.size as nat;
        let budget = STAGING_MEMORY_BUDGET as nat;
        let fitting = budget / size;
        let limit = buffer_limit(pool.size);
        assert(fitting * size <= budget) by (nonlinear_arith)
            requires
                size > 0,
                fitting == budget / size,
        ;
        assert(limit <= fitting ==> limit * size <= fitting * size) by (nonlinear_arith);
    }
}

/// What is given back is given out again before anything new is made.
pub proof fn law_released_buffers_are_reused(pool: PoolModel, index: u64)
    ensures
        ({
            let released = PoolModel { free: pool.free.push(index), ..pool };
            acquired(released) == (pool, Some(StagingBuffer { index, is_new: false }))
        }),
{
    assert(pool.free.push(index).drop_last() =~= pool.free);
}

/// What woke the recording up.
#[derive(Debug, Clone, Copy, PartialEq, Eq, Structural)]
pub enum WakeUp {
    Frame,
    Timeout,
    Disconnected,
}

/// What the recording does next.
#[derive(Debug, Clone, Copy, PartialEq, Eq, Structural)]
pub enum RecordingStep {
    /// Encode the frame and write what is ready.
    Push,
    /// Write what is ready.
    Drain,
    /// Close the file.
    Finish,
}

/// How long a stopped take waits for frames that are already staged.
pub const STOP_GRACE_MILLIS: u64 = 1_000;

/// How often finished access units are written while no frame arrives.
pub const SAMPLE_DRAIN_MILLIS: u64 = 5;

/// How long stopping a take waits for the file to be closed.
pub const FINALIZE_TIMEOUT_MILLIS: u64 = 5_000;

/// What follows a wake-up: a stopped take is closed once nothing came for the
/// grace period, and any take once no frame can come any more.
pub fn next_step(wake_up: WakeUp, stopping: bool, idle: Duration) -> (step: RecordingStep)
    ensures
        step == match wake_up {
            WakeUp::Frame => RecordingStep::Push,
            WakeUp::Timeout => if stopping && idle@ >= STOP_GRACE_MILLIS * 1_000_000 {
                RecordingStep::Finish
            } else {
                RecordingStep::Drain
            },
            WakeUp::Disconnected => RecordingStep::Finish,
        },
{
    match wake_up {
        WakeUp::Frame => RecordingStep::Push,
        WakeUp::Timeout => if stopping && !idle.is_shorter_than(
            Duration::from_millis(STOP_GRACE_MILLIS),
        ) {
            RecordingStep::Finish
        } else {
            RecordingStep::Drain
        },
        WakeUp::Disconnected => RecordingStep::Finish,
    }
}

/// The recorded time that is shown: that of its track units, in whole nanoseconds.
pub proof fn law_recorded_time_is_that_of_its_units(units: u64)
    requires
        units * 1_000_000_000 <= u64::MAX,
    ensures
        recorded_nanos(units) * 90_000 <= units * 1_000_000_000 < (recorded_nanos(units) + 1)
            * 90_000,
{
}

/// There are as many staging buffers as the memory for them allows, but never fewer
/// than three nor more than six.
pub proof fn law_buffers_fill_the_budget(size: u64)
    ensures
        size > 0 ==> {
            let n = buffer_limit(size);
            &&& 3 <= n <= 6
            &&& n > 3 ==> n * size <= 201_326_592
            &&& n < 6 ==> (n + 1) * size > 201_326_592
        },
        buffer_limit(0) == 6,
{
    if size > 0 {
        let s = size as int;
        let fitting = 201_326_592int / s;
        vstd::arithmetic::div_mod::lemma_fundamental_div_mod(201_326_592, s);
        vstd::arithmetic::div_mod::lemma_mod_bound(201_326_592, s);
        let n = buffer_limit(size) as int;
        assert(n > 3 ==> n * s <= 201_326_592) by (nonlinear_arith)
            requires
                n > 3 ==> n <= fitting,
                s * fitting <= 201_326_592,
                s > 0,
        ;
        assert(n < 6 ==> (n + 1) * s > 201_326_592) by (nonlinear_arith)
            requires
                n < 6 ==> n >= fitting,
                s * fitting + s > 201_326_592,
                s > 0,
        ;
    }
}

/// A new buffer gets the next number, so that no two of a pool share one; a pool that
/// has given out all it may has none.
pub proof fn law_new_buffers_are_numbered(pool: PoolModel)
    requires
        pool.free.len() == 0,
    ensures
        pool.created < buffer_limit(pool.size) ==> {
            let (after, buffer) = acquired(pool);
            &&& buffer == Some(StagingBuffer { index: pool.created, is_new: true })
            &&& after.created == pool.created + 1
            &&& after.free.len() == 0
            &&& after.size == pool.size
        },
        pool.created >= buffer_limit(pool.size) ==> acquired(pool) == (
            pool,
            None::<StagingBuffer>,
        ),
{
    law_staging_memory_is_bounded(PoolModel { created: 0, ..pool });
}

/// The position of a point on a take's timeline: the time since its first frame, and
/// none before it. Noting frames keeps the first one.
pub proof fn law_positions_count_from_the_first_frame(take: TakeModel, first: nat, now: nat)
    ensures
        take.first is None ==> position_in(take, now) == 0,
        take.first == Some(first) && first <= now ==> position_in(take, now) + first == now,
        take.first == Some(first) && first > now ==> position_in(take, now) == 0,
        take.first is None ==> frame_noted(take, first).first == Some(first),
        frame_noted(frame_noted(take, first), now) == frame_noted(take, first),
        frame_noted(take, now).id == take.id,
        frame_noted(take, now).open == take.open,
        frame_noted(take, now).stopping == take.stopping,
        first <= now ==> since(first, now) + first == now,
{
}

/// What the progress tells is what was counted, and the recorded time in nanoseconds.
pub proof fn law_progress_tells_what_was_counted(
    progress: RecordingProgress,
    stats: StatsModel,
    recorded: nat,
    i: int,
)
    requires
        shows(progress, stats, recorded),
    ensures
        progress.captured_frames == stats.captured,
        progress.dropped_frames == stats.dropped,
        progress.encoded_frames == stats.encoded,
        progress.written_bytes == stats.written_bytes,
        progress.recorded@ == recorded,
        progress.hardware_encoder == stats.hardware,
        progress.finished == stats.finished,
        progress.error is Some <==> stats.error is Some,
        progress.error matches Some(error) ==> stats.error == Some(error@),
        progress.segments@.len() == stats.segments.len(),
        0 <= i < stats.segments.len() ==> progress.segments@[i]@ == stats.segments[i],
{
}

} // verus!
