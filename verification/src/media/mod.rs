//! Decoded video: native YUV slices, the frames made of them, and the path from
//! received access units to displayable frames.

pub mod access_unit;
pub mod assembler;
pub mod compositor;
pub mod decoder;
pub mod decoder_errors;
pub mod errors;
pub mod mft;
pub mod pipeline;
pub mod planes;
pub mod queue;

use crate::clock::{Duration, Instant};
use vstd::prelude::*;

verus! {

/// The range of sample values that a plane uses.
#[derive(Debug, Clone, Copy, PartialEq, Eq, Structural)]
pub enum YuvRange {
    Video,
    Full,
}

/// The matrix between RGB and luma/chroma samples.
#[derive(Debug, Clone, Copy, PartialEq, Eq, Structural)]
pub enum YuvMatrix {
    Bt601,
    Bt709,
    Bt2020,
}

/// Colour primaries the decoded planes are encoded in.
#[derive(Debug, Clone, Copy, PartialEq, Eq, Structural)]
pub enum YuvPrimaries {
    /// Identity: the planes already carry sRGB/Rec.709 primaries.
    Bt709,
    /// Display P3, D65 white point.
    P3D65,
    /// Rec.2020 / BT.2100 primaries.
    Bt2020,
}

impl Default for YuvPrimaries {
    fn default() -> (primaries: Self)
        ensures
            primaries == YuvPrimaries::Bt709,
    {
        YuvPrimaries::Bt709
    }
}

/// One decoded NV12 slice.
#[derive(Debug, Clone)]
pub struct DecodedSlice {
    pub width: u32,
    pub height: u32,
    /// Luma plane, one byte per sample, tightly packed and row-major.
    pub y_plane: Vec<u8>,
    /// Interleaved CbCr plane, two bytes per 2x2 luma block, tightly packed.
    pub uv_plane: Vec<u8>,
    pub range: YuvRange,
    pub matrix: YuvMatrix,
    pub primaries: YuvPrimaries,
}

/// A changed slice and the rows of the frame that it covers.
#[derive(Debug, Clone)]
pub struct DecodedSliceUpdate {
    pub slice_index: usize,
    pub y_origin: u32,
    pub y_rows: u32,
    pub uv_origin: u32,
    pub uv_rows: u32,
    pub pixels: DecodedSlice,
}

/// One display boundary: the NV12 slices that changed.
#[derive(Debug, Clone)]
pub struct DecodedFrame {
    pub width: u32,
    pub height: u32,
    /// Encoded video payload bytes that this frame stands for.
    pub encoded_bytes: usize,
    pub range: YuvRange,
    pub matrix: YuvMatrix,
    pub primaries: YuvPrimaries,
    pub updates: Vec<DecodedSliceUpdate>,
    /// Timestamps of the live receive and decode path, if the frame came by it.
    pub timing: Option<AvcFrameTiming>,
}

/// What a `DecodedFrame` holds.
pub struct FrameModel {
    pub width: u32,
    pub height: u32,
    pub encoded_bytes: usize,
    pub range: YuvRange,
    pub matrix: YuvMatrix,
    pub primaries: YuvPrimaries,
    pub updates: Seq<DecodedSliceUpdate>,
    pub timing: Option<AvcFrameTiming>,
}

impl View for DecodedFrame {
    type V = FrameModel;

    open spec fn view(&self) -> FrameModel {
        FrameModel {
            width: self.width,
            height: self.height,
            encoded_bytes: self.encoded_bytes,
            range: self.range,
            matrix: self.matrix,
            primaries: self.primaries,
            updates: self.updates@,
            timing: self.timing,
        }
    }
}

/// When the parts of one frame passed the stations of the live path.
#[derive(Debug, Clone, Copy)]
pub struct AvcFrameTiming {
    pub first_packet_received_at: Instant,
    pub first_access_unit_completed_at: Instant,
    pub batch_released_at: Instant,
    pub decoded_at: Instant,
    pub negotiated_dimensions: Option<(u32, u32)>,
}

/// The time from `earlier` to `later`, or 0 if `later` comes first.
pub open spec fn elapsed_between(earlier: nat, later: nat) -> nat {
    if later >= earlier {
        (later - earlier) as nat
    } else {
        0
    }
}

impl AvcFrameTiming {
    /// From the first packet to the first whole access unit.
    pub fn packet_reassembly_duration(self) -> (d: Duration)
        ensures
            d@ == elapsed_between(
                self.first_packet_received_at@,
                self.first_access_unit_completed_at@,
            ),
    {
        self.first_access_unit_completed_at.saturating_duration_since(
            self.first_packet_received_at,
        )
    }

    /// From the first whole access unit to the release of the batch.
    pub fn batch_holdback(self) -> (d: Duration)
        ensures
            d@ == elapsed_between(self.first_access_unit_completed_at@, self.batch_released_at@),
    {
        self.batch_released_at.saturating_duration_since(self.first_access_unit_completed_at)
    }

    /// From the release of the batch to the decoded frame.
    pub fn decode_duration(self) -> (d: Duration)
        ensures
            d@ == elapsed_between(self.batch_released_at@, self.decoded_at@),
    {
        self.decoded_at.saturating_duration_since(self.batch_released_at)
    }

    /// From the first packet to the decoded frame.
    pub fn receive_to_decode(self) -> (d: Duration)
        ensures
            d@ == elapsed_between(self.first_packet_received_at@, self.decoded_at@),
    {
        self.decoded_at.saturating_duration_since(self.first_packet_received_at)
    }
}

/// The three stages of the live path, where its timestamps are in order, add up
/// to the time from receipt to decode.
pub proof fn law_stages_add_up(timing: AvcFrameTiming)
    requires
        timing.first_packet_received_at@ <= timing.first_access_unit_completed_at@,
        timing.first_access_unit_completed_at@ <= timing.batch_released_at@,
        timing.batch_released_at@ <= timing.decoded_at@,
    ensures
        elapsed_between(timing.first_packet_received_at@, timing.decoded_at@) == elapsed_between(
            timing.first_packet_received_at@,
            timing.first_access_unit_completed_at@,
        ) + elapsed_between(timing.first_access_unit_completed_at@, timing.batch_released_at@)
            + elapsed_between(timing.batch_released_at@, timing.decoded_at@),
{
}

/// The outcome for one submitted compressed access unit.
#[derive(Debug)]
pub struct DecodedOutput {
    pub stream_index: usize,
    pub timestamp: u32,
    pub submission: u64,
    pub encoded_bytes: usize,
    pub status: i32,
    pub info_flags: u32,
    pub conversion_error: Option<String>,
    pub frame: Option<DecodedSlice>,
}

/// Whether one of `updates` is for the slice `index`.
pub open spec fn has_slice(updates: Seq<DecodedSliceUpdate>, index: usize) -> bool {
    exists|i: int| 0 <= i < updates.len() && #[trigger] updates[i].slice_index == index
}

/// `newer`, followed by those of `older` whose slice does not stand before them.
pub open spec fn with_missing(
    newer: Seq<DecodedSliceUpdate>,
    older: Seq<DecodedSliceUpdate>,
) -> Seq<DecodedSliceUpdate>
    decreases older.len(),
{
    if older.len() == 0 {
        newer
    } else {
        let before = with_missing(newer, older.drop_last());
        if has_slice(before, older.last().slice_index) {
            before
        } else {
            before.push(older.last())
        }
    }
}

/// `update` put into `sorted` behind everything whose slice is not greater,
/// looking from the end.
pub open spec fn put_sorted(
    sorted: Seq<DecodedSliceUpdate>,
    update: DecodedSliceUpdate,
) -> Seq<DecodedSliceUpdate>
    decreases sorted.len(),
{
    if sorted.len() > 0 && sorted.last().slice_index > update.slice_index {
        put_sorted(sorted.drop_last(), update).push(sorted.last())
    } else {
        sorted.push(update)
    }
}

/// `updates` in the order of their slices; those of one slice keep their order.
pub open spec fn slice_order(updates: Seq<DecodedSliceUpdate>) -> Seq<DecodedSliceUpdate>
    decreases updates.len(),
{
    if updates.len() == 0 {
        updates
    } else {
        put_sorted(slice_order(updates.drop_last()), updates.last())
    }
}

/// Whether no slice stands before a smaller one.
pub open spec fn in_slice_order(updates: Seq<DecodedSliceUpdate>) -> bool {
    forall|i: int, j: int|
        0 <= i <= j < updates.len() ==> updates[i].slice_index <= updates[j].slice_index
}

proof fn lemma_put_sorted(sorted: Seq<DecodedSliceUpdate>, update: DecodedSliceUpdate)
    requires
        in_slice_order(sorted),
    ensures
        in_slice_order(put_sorted(sorted, update)),
        put_sorted(sorted, update).len() == sorted.len() + 1,
        put_sorted(sorted, update).to_multiset() == sorted.to_multiset().insert(update),
        forall|i: int|
            0 <= i < put_sorted(sorted, update).len() ==> #[trigger] put_sorted(
                sorted,
                update,
            )[i].slice_index <= update.slice_index || (sorted.len() > 0 && put_sorted(
                sorted,
                update,
            )[i].slice_index <= sorted.last().slice_index),
    decreases sorted.len(),
{
    broadcast use vstd::seq_lib::group_to_multiset_ensures;

    let result = put_sorted(sorted, update);
    if sorted.len() > 0 && sorted.last().slice_index > update.slice_index {
        lemma_put_sorted(sorted.drop_last(), update);
        let front = put_sorted(sorted.drop_last(), update);
        assert(result == front.push(sorted.last()));
        assert(sorted =~= sorted.drop_last().push(sorted.last()));
        assert(result.to_multiset() =~= sorted.to_multiset().insert(update));
    } else {
        assert(result.to_multiset() =~= sorted.to_multiset().insert(update));
    }
}

proof fn lemma_slice_order(updates: Seq<DecodedSliceUpdate>)
    ensures
        in_slice_order(slice_order(updates)),
        slice_order(updates).len() == updates.len(),
        slice_order(updates).to_multiset() == updates.to_multiset(),
    decreases updates.len(),
{
    broadcast use vstd::seq_lib::group_to_multiset_ensures;

    if updates.len() > 0 {
        lemma_slice_order(updates.drop_last());
        lemma_put_sorted(slice_order(updates.drop_last()), updates.last());
        assert(updates =~= updates.drop_last().push(updates.last()));
    }
}

/// Puts `update` behind everything whose slice is not greater.
fn insert_sorted(sorted: &mut Vec<DecodedSliceUpdate>, update: DecodedSliceUpdate)
    ensures
        final(sorted)@ == put_sorted(old(sorted)@, update),
{
    let mut at: usize = sorted.len();
    let ghost all = sorted@;
    assert(all.take(at as int) =~= all);
    assert(put_sorted(all.take(at as int), update) + all.skip(at as int) =~= put_sorted(
        all,
        update,
    ));
    while at > 0 && sorted[at - 1].slice_index > update.slice_index
        invariant
            at <= all.len(),
            sorted@ == all,
            put_sorted(all.take(at as int), update) + all.skip(at as int) == put_sorted(
                all,
                update,
            ),
        decreases at,
    {
        assert(all.take(at as int).drop_last() =~= all.take(at as int - 1));
        assert(put_sorted(all.take(at as int), update) + all.skip(at as int) =~= put_sorted(
            all.take(at as int - 1),
            update,
        ) + all.skip(at as int - 1));
        at -= 1;
    }
    assert(put_sorted(all.take(at as int), update) == all.take(at as int).push(update));
    sorted.insert(at, update);
    assert(sorted@ =~= all.take(at as int).push(update) + all.skip(at as int));
}

fn holds_slice(updates: &Vec<DecodedSliceUpdate>, index: usize) -> (holds: bool)
    ensures
        holds == has_slice(updates@, index),
{
    for i in 0..updates.len()
        invariant
            forall|k: int| 0 <= k < i ==> #[trigger] updates@[k].slice_index != index,
    {
        if updates[i].slice_index == index {
            return true;
        }
    }
    false
}

/// The sum of two counts, cut off at the largest one.
pub open spec fn saturating_sum(a: usize, b: usize) -> usize {
    if a + b > usize::MAX {
        usize::MAX
    } else {
        (a + b) as usize
    }
}

/// `newer` with what `older` still shows of the slices that `newer` left
/// unchanged. Frames of another size or colour description do not merge.
pub open spec fn merged_frame(newer: FrameModel, older: FrameModel) -> FrameModel {
    if newer.width != older.width || newer.height != older.height || newer.range != older.range
        || newer.matrix != older.matrix || newer.primaries != older.primaries {
        newer
    } else {
        FrameModel {
            updates: slice_order(with_missing(newer.updates, older.updates)),
            encoded_bytes: saturating_sum(newer.encoded_bytes, older.encoded_bytes),
            timing: if newer.timing is None {
                older.timing
            } else {
                newer.timing
            },
            ..newer
        }
    }
}

impl DecodedFrame {
    /// Takes over from `older` the slices that this frame left unchanged.
    pub fn merge_older_updates(&mut self, older: Self)
        ensures
            final(self)@ == merged_frame(old(self)@, older@),
    {
        if self.width != older.width || self.height != older.height || self.range != older.range
            || self.matrix != older.matrix || self.primaries != older.primaries {
            return;
        }
        let ghost newer = self.updates@;
        let ghost before = older.updates@;
        let mut gathered: Vec<DecodedSliceUpdate> = Vec::new();
        gathered.append(&mut self.updates);
        assert(gathered@ =~= newer);
        assert(before.take(0) =~= Seq::<DecodedSliceUpdate>::empty());
        for update in it: older.updates
            invariant
                it.seq() == before,
                gathered@ == with_missing(newer, before.take(it.index() as int)),
        {
            assert(before.take(it.index() as int + 1).drop_last() =~= before.take(
                it.index() as int,
            ));
            if !holds_slice(&gathered, update.slice_index) {
                gathered.push(update);
            }
        }
        assert(before.take(before.len() as int) =~= before);
        let ghost all = gathered@;
        let mut sorted: Vec<DecodedSliceUpdate> = Vec::new();
        assert(all.take(0) =~= Seq::<DecodedSliceUpdate>::empty());
        for update in it: gathered
            invariant
                it.seq() == all,
                sorted@ == slice_order(all.take(it.index() as int)),
        {
            assert(all.take(it.index() as int + 1).drop_last() =~= all.take(it.index() as int));
            insert_sorted(&mut sorted, update);
        }
        assert(all.take(all.len() as int) =~= all);
        self.updates = sorted;
        self.encoded_bytes = self.encoded_bytes.saturating_add(older.encoded_bytes);
        if self.timing.is_none() {
            self.timing = older.timing;
        }
    }
}

proof fn lemma_with_missing(newer: Seq<DecodedSliceUpdate>, older: Seq<DecodedSliceUpdate>)
    ensures
        newer.is_prefix_of(with_missing(newer, older)),
        forall|index: usize|
            has_slice(with_missing(newer, older), index) <==> has_slice(newer, index) || has_slice(
                older,
                index,
            ),
        forall|i: int|
            newer.len() <= i < with_missing(newer, older).len() ==> older.contains(
                #[trigger] with_missing(newer, older)[i],
            ) && !has_slice(newer, with_missing(newer, older)[i].slice_index),
    decreases older.len(),
{
    if older.len() > 0 {
        let last = older.last();
        let rest = older.drop_last();
        lemma_with_missing(newer, rest);
        let before = with_missing(newer, rest);
        let after = with_missing(newer, older);
        assert(older =~= rest.push(last));
        assert forall|index: usize| has_slice(after, index) <==> has_slice(newer, index)
            || has_slice(older, index) by {
            if has_slice(rest, index) {
                let i = choose|i: int| 0 <= i < rest.len() && rest[i].slice_index == index;
                assert(older[i].slice_index == index);
            }
            if has_slice(older, index) {
                let i = choose|i: int| 0 <= i < older.len() && older[i].slice_index == index;
                if i < rest.len() {
                    assert(rest[i].slice_index == index);
                }
            }
            if has_slice(before, index) {
                let i = choose|i: int| 0 <= i < before.len() && before[i].slice_index == index;
                assert(after[i].slice_index == index);
            }
            if index == last.slice_index {
                assert(older[older.len() - 1].slice_index == index);
                if after.len() > before.len() {
                    assert(after[before.len() as int].slice_index == index);
                }
            }
            if has_slice(after, index) {
                let i = choose|i: int| 0 <= i < after.len() && after[i].slice_index == index;
                if i < before.len() {
                    assert(before[i].slice_index == index);
                }
            }
        }
        assert forall|i: int| newer.len() <= i < after.len() implies older.contains(
            #[trigger] after[i],
        ) && !has_slice(newer, after[i].slice_index) by {
            if i < before.len() {
                assert(after[i] == before[i]);
                let k = choose|k: int| 0 <= k < rest.len() && rest[k] == before[i];
                assert(older[k] == after[i]);
            } else {
                assert(older[older.len() - 1] == after[i]);
            }
        }
    } else {
        assert(newer =~= with_missing(newer, older).subrange(0, newer.len() as int));
    }
}

/// A merged frame shows its slices in order, keeps every slice of the newer
/// frame as it is, and shows each slice that either frame shows.
pub proof fn law_merge_keeps_the_newest(newer: FrameModel, older: FrameModel)
    requires
        newer.width == older.width,
        newer.height == older.height,
        newer.range == older.range,
        newer.matrix == older.matrix,
        newer.primaries == older.primaries,
    ensures
        in_slice_order(merged_frame(newer, older).updates),
        forall|u: DecodedSliceUpdate|
            newer.updates.contains(u) ==> #[trigger] merged_frame(newer, older).updates.contains(u),
        forall|u: DecodedSliceUpdate| #[trigger]
            merged_frame(newer, older).updates.contains(u) ==> newer.updates.contains(u) || (
            older.updates.contains(u) && !has_slice(newer.updates, u.slice_index)),
        forall|index: usize|
            has_slice(older.updates, index) ==> has_slice(
                merged_frame(newer, older).updates,
                index,
            ),
        forall|k: int|
            0 <= k < older.updates.len() ==> exists|i: int|
                0 <= i < merged_frame(newer, older).updates.len() && (
                #[trigger] merged_frame(newer, older).updates[i]).slice_index == (
                #[trigger] older.updates[k]).slice_index,
        forall|i: int, j: int|
            0 <= i < merged_frame(newer, older).updates.len() && 0 <= j < newer.updates.len() && (
            #[trigger] merged_frame(newer, older).updates[i]).slice_index == (
            #[trigger] newer.updates[j]).slice_index ==> newer.updates.contains(
                merged_frame(newer, older).updates[i],
            ),
        forall|i: int, j: int|
            0 <= i < j < merged_frame(newer, older).updates.len() ==> (
            #[trigger] merged_frame(newer, older).updates[i]).slice_index <= (
            #[trigger] merged_frame(newer, older).updates[j]).slice_index,
{
    broadcast use vstd::seq_lib::group_to_multiset_ensures;

    let gathered = with_missing(newer.updates, older.updates);
    let merged = merged_frame(newer, older).updates;
    lemma_with_missing(newer.updates, older.updates);
    lemma_slice_order(gathered);
    assert forall|u: DecodedSliceUpdate| gathered.contains(u) <==> merged.contains(u) by {
        assert(gathered.to_multiset().count(u) == merged.to_multiset().count(u));
    }
    assert forall|u: DecodedSliceUpdate| newer.updates.contains(u) implies merged.contains(u) by {
        let i = choose|i: int| 0 <= i < newer.updates.len() && newer.updates[i] == u;
        assert(gathered[i] == u);
        assert(gathered.contains(u));
    }
    assert forall|u: DecodedSliceUpdate| #[trigger] merged.contains(u) implies newer.updates.contains(u) || (
    older.updates.contains(u) && !has_slice(newer.updates, u.slice_index)) by {
        assert(gathered.contains(u));
        let i = choose|i: int| 0 <= i < gathered.len() && gathered[i] == u;
        if i < newer.updates.len() {
            assert(newer.updates[i] == u);
        }
    }
    assert forall|index: usize| has_slice(older.updates, index) implies has_slice(merged, index) by {
        assert(has_slice(gathered, index));
        let i = choose|i: int| 0 <= i < gathered.len() && gathered[i].slice_index == index;
        assert(gathered.contains(gathered[i]));
        let k = choose|k: int| 0 <= k < merged.len() && merged[k] == gathered[i];
        assert(merged[k].slice_index == index);
    }
    assert forall|k: int| 0 <= k < older.updates.len() implies exists|i: int|
        0 <= i < merged.len() && (#[trigger] merged[i]).slice_index == (
        #[trigger] older.updates[k]).slice_index by {
        assert(has_slice(older.updates, older.updates[k].slice_index));
        assert(has_slice(merged, older.updates[k].slice_index));
    }
    assert forall|i: int, j: int|
        0 <= i < merged.len() && 0 <= j < newer.updates.len() && (
        #[trigger] merged[i]).slice_index == (
        #[trigger] newer.updates[j]).slice_index implies newer.updates.contains(merged[i]) by {
        assert(merged.contains(merged[i]));
        assert(has_slice(newer.updates, newer.updates[j].slice_index));
    }
}

/// A merged frame is of the newer one in everything but its slices and its count of
/// bytes, which is that of both; frames of another size or other colours leave it as it
/// is.
pub proof fn law_merging_counts_both(newer: FrameModel, older: FrameModel)
    ensures
        ({
            let merged = merged_frame(newer, older);
            let alike = newer.width == older.width && newer.height == older.height && newer.range
                == older.range && newer.matrix == older.matrix && newer.primaries
                == older.primaries;
            &&& (merged.width, merged.height) == (newer.width, newer.height)
            &&& (merged.range, merged.matrix, merged.primaries) == (
                newer.range,
                newer.matrix,
                newer.primaries,
            )
            &&& !alike ==> merged == newer
            &&& alike && newer.encoded_bytes + older.encoded_bytes <= usize::MAX
                ==> merged.encoded_bytes == newer.encoded_bytes + older.encoded_bytes
            &&& newer.timing is Some ==> merged.timing == newer.timing
            &&& alike && newer.timing is None ==> merged.timing == older.timing
        }),
{
}

/// The time between two points: from the earlier to the later one, and none backwards.
pub proof fn law_time_between_points(earlier: nat, later: nat)
    ensures
        earlier <= later ==> earlier + elapsed_between(earlier, later) == later,
        earlier > later ==> elapsed_between(earlier, later) == 0,
{
}

} // verus!
