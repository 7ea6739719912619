//! The decisions of the platform decoders: which access units are submitted,
//! when a session starts anew, and how images become slices. The system calls
//! themselves are outside.

use crate::media::access_unit::{AccessUnit, MediaStreamCodec};
use crate::media::decoder_errors::DecoderError;
use crate::media::planes;
use crate::media::{DecodedOutput, DecodedSlice, YuvMatrix, YuvPrimaries, YuvRange};
use crate::recording::nal;
use vstd::prelude::*;

verus! {

/// The type of a NAL unit, unless it is empty.
pub open spec fn nal_type(codec: MediaStreamCodec, unit: Seq<u8>) -> Option<u8> {
    if unit.len() == 0 {
        None
    } else {
        Some(
            match codec {
                MediaStreamCodec::H264 => unit[0] & 0x1f,
                MediaStreamCodec::Hevc => (unit[0] >> 1) & 0x3f,
            },
        )
    }
}

/// The type of a NAL unit, unless it is empty.
fn nal_type_of(codec: MediaStreamCodec, unit: &Vec<u8>) -> (kind: Option<u8>)
    ensures
        kind == nal_type(codec, unit@),
{
    if unit.len() == 0 {
        return None;
    }
    match codec {
        MediaStreamCodec::H264 => Some(unit[0] & 0x1f),
        MediaStreamCodec::Hevc => Some((unit[0] >> 1) & 0x3f),
    }
}

/// Whether a unit of this type starts a new prediction chain.
pub open spec fn is_sync_type(codec: MediaStreamCodec, kind: Option<u8>) -> bool {
    match (codec, kind) {
        (MediaStreamCodec::H264, Some(k)) => k == 5,
        (MediaStreamCodec::Hevc, Some(k)) => 16 <= k <= 23,
        (_, None) => false,
    }
}

/// Whether a unit of this type is a parameter set.
pub open spec fn is_parameter_type(codec: MediaStreamCodec, kind: Option<u8>) -> bool {
    match (codec, kind) {
        (MediaStreamCodec::H264, Some(k)) => k == 7 || k == 8,
        (MediaStreamCodec::Hevc, Some(k)) => 32 <= k <= 34,
        (_, None) => false,
    }
}

/// What byte vectors hold.
pub open spec fn all_bytes(units: Seq<Vec<u8>>) -> Seq<Seq<u8>> {
    units.map_values(|unit: Vec<u8>| unit@)
}

/// Whether one of the units starts a new prediction chain.
pub open spec fn has_sync(codec: MediaStreamCodec, units: Seq<Seq<u8>>) -> bool {
    exists|i: int| 0 <= i < units.len() && is_sync_type(codec, nal_type(codec, #[trigger] units[i]))
}

/// Whether an access unit starts a new prediction chain.
pub fn is_sync_unit(codec: MediaStreamCodec, unit: &AccessUnit) -> (sync: bool)
    ensures
        sync == has_sync(codec, all_bytes(unit.nal_units@)),
{
    let ghost units = all_bytes(unit.nal_units@);
    for i in 0..unit.nal_units.len()
        invariant
            units == all_bytes(unit.nal_units@),
            forall|k: int|
                0 <= k < i ==> !is_sync_type(codec, nal_type(codec, #[trigger] units[k])),
    {
        let kind = nal_type_of(codec, &unit.nal_units[i]);
        assert(units[i as int] == unit.nal_units@[i as int]@);
        let sync = match (codec, kind) {
            (MediaStreamCodec::H264, Some(k)) => k == 5,
            (MediaStreamCodec::Hevc, Some(k)) => 16 <= k && k <= 23,
            (_, None) => false,
        };
        if sync {
            return true;
        }
    }
    false
}

/// The parameter sets among the units.
pub open spec fn parameter_units(codec: MediaStreamCodec, units: Seq<Seq<u8>>) -> Seq<Seq<u8>>
    decreases units.len(),
{
    if units.len() == 0 {
        Seq::empty()
    } else {
        let before = parameter_units(codec, units.drop_last());
        if is_parameter_type(codec, nal_type(codec, units.last())) {
            before.push(units.last())
        } else {
            before
        }
    }
}

/// The parameter sets of an access unit.
pub fn parameter_sets_for(codec: MediaStreamCodec, unit: &AccessUnit) -> (sets: Vec<Vec<u8>>)
    ensures
        all_bytes(sets@) == parameter_units(codec, all_bytes(unit.nal_units@)),
{
    let mut sets: Vec<Vec<u8>> = Vec::new();
    let ghost units = all_bytes(unit.nal_units@);
    assert(units.take(0) =~= Seq::<Seq<u8>>::empty());
    assert(all_bytes(sets@) =~= Seq::<Seq<u8>>::empty());
    for i in 0..unit.nal_units.len()
        invariant
            units == all_bytes(unit.nal_units@),
            all_bytes(sets@) == parameter_units(codec, units.take(i as int)),
    {
        let kind = nal_type_of(codec, &unit.nal_units[i]);
        assert(units[i as int] == unit.nal_units@[i as int]@);
        assert(units.take(i as int + 1).drop_last() =~= units.take(i as int));
        let keep = match (codec, kind) {
            (MediaStreamCodec::H264, Some(k)) => k == 7 || k == 8,
            (MediaStreamCodec::Hevc, Some(k)) => 32 <= k && k <= 34,
            (_, None) => false,
        };
        if keep {
            let ghost before = sets@;
            let copy = nal::copy_bytes(unit.nal_units[i].as_slice());
            sets.push(copy);
            assert(all_bytes(sets@) =~= all_bytes(before).push(copy@));
        }
    }
    assert(units.take(units.len() as int) =~= units);
    sets
}

/// The index of the first set of the given type, or the number of sets.
pub open spec fn first_of_type(codec: MediaStreamCodec, sets: Seq<Seq<u8>>, kind: u8) -> nat
    decreases sets.len(),
{
    if sets.len() == 0 {
        0
    } else if nal_type(codec, sets[0]) == Some(kind) {
        0
    } else {
        1 + first_of_type(codec, sets.drop_first(), kind)
    }
}

/// The sets after `set` came: it takes the place of the first one of its type, or
/// is added. An empty one does not count.
pub open spec fn set_merged(codec: MediaStreamCodec, sets: Seq<Seq<u8>>, set: Seq<u8>) -> Seq<
    Seq<u8>,
> {
    match nal_type(codec, set) {
        None => sets,
        Some(kind) => {
            let index = first_of_type(codec, sets, kind);
            if index < sets.len() {
                sets.update(index as int, set)
            } else {
                sets.push(set)
            }
        },
    }
}

/// The sets after the first `count` of `incoming` came.
pub open spec fn sets_merged(
    codec: MediaStreamCodec,
    sets: Seq<Seq<u8>>,
    incoming: Seq<Seq<u8>>,
    count: nat,
) -> Seq<Seq<u8>>
    decreases count,
{
    if count == 0 {
        sets
    } else {
        set_merged(
            codec,
            sets_merged(codec, sets, incoming, (count - 1) as nat),
            incoming[count - 1],
        )
    }
}

/// Whether any of the first `count` of `incoming` changes the sets when it comes.
pub open spec fn sets_change(
    codec: MediaStreamCodec,
    sets: Seq<Seq<u8>>,
    incoming: Seq<Seq<u8>>,
    count: nat,
) -> bool
    decreases count,
{
    if count == 0 {
        false
    } else {
        sets_change(codec, sets, incoming, (count - 1) as nat) || sets_merged(
            codec,
            sets,
            incoming,
            (count - 1) as nat,
        ) != sets_merged(codec, sets, incoming, count)
    }
}

fn find_type(codec: MediaStreamCodec, sets: &Vec<Vec<u8>>, kind: u8) -> (index: usize)
    ensures
        index == first_of_type(codec, all_bytes(sets@), kind),
        index <= sets@.len(),
{
    let ghost all = all_bytes(sets@);
    let mut index: usize = 0;
    assert(all.skip(0) =~= all);
    while index < sets.len()
        invariant
            index <= sets@.len(),
            all == all_bytes(sets@),
            first_of_type(codec, all, kind) == index + first_of_type(
                codec,
                all.skip(index as int),
                kind,
            ),
        decreases sets@.len() - index,
    {
        assert(all.skip(index as int)[0] == sets@[index as int]@);
        if let Some(current) = nal_type_of(codec, &sets[index]) {
            if current == kind {
                return index;
            }
        }
        assert(all.skip(index as int).drop_first() =~= all.skip(index as int + 1));
        index += 1;
    }
    index
}

fn same_bytes(a: &Vec<u8>, b: &Vec<u8>) -> (same: bool)
    ensures
        same == (a@ == b@),
{
    if a.len() != b.len() {
        return false;
    }
    for i in 0..a.len()
        invariant
            a@.len() == b@.len(),
            forall|k: int| 0 <= k < i ==> a@[k] == b@[k],
    {
        if a[i] != b[i] {
            return false;
        }
    }
    assert(a@ =~= b@);
    true
}

/// Takes over parameter sets; the answer says whether any of them is new.
pub fn merge_parameter_sets(
    codec: MediaStreamCodec,
    current: &mut Vec<Vec<u8>>,
    sets: Vec<Vec<u8>>,
) -> (changed: bool)
    ensures
        all_bytes(final(current)@) == sets_merged(
            codec,
            all_bytes(old(current)@),
            all_bytes(sets@),
            sets@.len(),
        ),
        changed == sets_change(codec, all_bytes(old(current)@), all_bytes(sets@), sets@.len()),
{
    let ghost start = all_bytes(current@);
    let ghost incoming = all_bytes(sets@);
    let mut changed: bool = false;
    for set in it: sets
        invariant
            incoming == all_bytes(it.seq()),
            all_bytes(current@) == sets_merged(codec, start, incoming, it.index() as nat),
            changed == sets_change(codec, start, incoming, it.index() as nat),
    {
        let ghost before = current@;
        let ghost index = it.index() as nat;
        assert(incoming[index as int] == set@);
        if let Some(kind) = nal_type_of(codec, &set) {
            let at: usize = find_type(codec, current, kind);
            if at < current.len() {
                if !same_bytes(&current[at], &set) {
                    let ghost bytes = set@;
                    assert(all_bytes(before)[at as int] != bytes);
                    current.set(at, set);
                    changed = true;
                    assert(all_bytes(current@) =~= all_bytes(before).update(at as int, bytes));
                    assert(all_bytes(current@)[at as int] != all_bytes(before)[at as int]);
                } else {
                    assert(all_bytes(before).update(at as int, set@) =~= all_bytes(before));
                }
            } else {
                let ghost bytes = set@;
                current.push(set);
                changed = true;
                assert(all_bytes(current@) =~= all_bytes(before).push(bytes));
                assert(all_bytes(current@).len() != all_bytes(before).len());
            }
        }
    }
    changed
}

/// After a set came, there is exactly that set of its type in first place, and
/// the sets of every other type stay as they were.
pub proof fn law_newest_set_wins(codec: MediaStreamCodec, sets: Seq<Seq<u8>>, set: Seq<u8>)
    requires
        set.len() > 0,
    ensures
        ({
            let kind = nal_type(codec, set)->0;
            let merged = set_merged(codec, sets, set);
            let index = first_of_type(codec, sets, kind);
            &&& index < merged.len()
            &&& merged[index as int] == set
            &&& forall|i: int|
                0 <= i < sets.len() && i != index ==> #[trigger] merged[i] == sets[i]
            &&& merged.len() == if index < sets.len() {
                sets.len()
            } else {
                sets.len() + 1
            }
        }),
{
    lemma_first_of_type(codec, sets, nal_type(codec, set)->0);
}

proof fn lemma_first_of_type(codec: MediaStreamCodec, sets: Seq<Seq<u8>>, kind: u8)
    ensures
        first_of_type(codec, sets, kind) <= sets.len(),
    decreases sets.len(),
{
    if sets.len() > 0 {
        lemma_first_of_type(codec, sets.drop_first(), kind);
    }
}

/// An access unit on its way through a decoder.
#[derive(Debug, Clone, Copy, PartialEq, Eq, Structural)]
pub struct Submission {
    pub stream_index: usize,
    pub timestamp: u32,
    pub submission: u64,
    pub encoded_bytes: usize,
}

/// What is to be done with an access unit.
#[derive(Debug, Clone, Copy, PartialEq, Eq, Structural)]
pub enum UnitPlan {
    /// It depends on a picture that was lost.
    Skip,
    /// Decode it, after the session was finished and a new one was created as
    /// the two marks say.
    Submit { finish_session: bool, create_session: bool, is_sync: bool },
}

/// What a `DecoderState` holds.
pub struct DecoderModel {
    pub codec: MediaStreamCodec,
    pub parameter_sets: Seq<Seq<u8>>,
    pub next_submission: u64,
    pub needs_sync: bool,
    pub has_session: bool,
}

/// The state of a decoder whose session is bound to its parameter sets.
#[derive(Debug)]
pub struct DecoderState {
    pub codec: MediaStreamCodec,
    pub parameter_sets: Vec<Vec<u8>>,
    pub next_submission: u64,
    pub needs_sync: bool,
    pub has_session: bool,
}

impl View for DecoderState {
    type V = DecoderModel;

    open spec fn view(&self) -> DecoderModel {
        DecoderModel {
            codec: self.codec,
            parameter_sets: all_bytes(self.parameter_sets@),
            next_submission: self.next_submission,
            needs_sync: self.needs_sync,
            has_session: self.has_session,
        }
    }
}

/// What is to be done with the units, and the state after that.
pub open spec fn unit_prepared(state: DecoderModel, units: Seq<Seq<u8>>) -> (
    DecoderModel,
    UnitPlan,
) {
    let sync = has_sync(state.codec, units);
    if state.needs_sync && !sync {
        (state, UnitPlan::Skip)
    } else {
        let sets = parameter_units(state.codec, units);
        let changed = sets_change(state.codec, state.parameter_sets, sets, sets.len());
        let finish = state.has_session && (state.needs_sync || changed);
        let open = state.has_session && !finish;
        (
            DecoderModel {
                parameter_sets: sets_merged(state.codec, state.parameter_sets, sets, sets.len()),
                needs_sync: false,
                has_session: open,
                ..state
            },
            UnitPlan::Submit { finish_session: finish, create_session: !open, is_sync: sync },
        )
    }
}

impl DecoderState {
    /// A decoder that has seen nothing yet.
    pub fn new(codec: MediaStreamCodec) -> (state: Self)
        ensures
            state@ == (DecoderModel {
                codec,
                parameter_sets: Seq::empty(),
                next_submission: 0,
                needs_sync: false,
                has_session: false,
            }),
    {
        let state = DecoderState {
            codec,
            parameter_sets: Vec::new(),
            next_submission: 0,
            needs_sync: false,
            has_session: false,
        };
        assert(state@.parameter_sets =~= Seq::<Seq<u8>>::empty());
        state
    }

    /// Stops decoding until the next sync unit; the answer says whether the
    /// session is to be finished now, so that no callback of the old prediction
    /// chain comes later.
    pub fn require_sync(&mut self) -> (finish_session: bool)
        ensures
            finish_session == (!old(self)@.needs_sync && old(self)@.has_session),
            final(self)@ == (DecoderModel {
                needs_sync: true,
                has_session: old(self)@.has_session && old(self)@.needs_sync,
                ..old(self)@
            }),
    {
        let finish = !self.needs_sync && self.has_session;
        if !self.needs_sync {
            self.has_session = false;
        }
        self.needs_sync = true;
        finish
    }

    /// Looks at an access unit before it is decoded. A sync unit after a loss and
    /// a changed parameter set both end the session; a unit that depends on a
    /// lost picture is left out.
    pub fn prepare_unit(&mut self, unit: &AccessUnit) -> (plan: UnitPlan)
        ensures
            (final(self)@, plan) == unit_prepared(old(self)@, all_bytes(unit.nal_units@)),
    {
        let is_sync = is_sync_unit(self.codec, unit);
        if self.needs_sync && !is_sync {
            return UnitPlan::Skip;
        }
        let mut finish = self.needs_sync;
        self.needs_sync = false;
        let sets = parameter_sets_for(self.codec, unit);
        if merge_parameter_sets(self.codec, &mut self.parameter_sets, sets) {
            finish = true;
        }
        let finish_session = self.has_session && finish;
        if finish_session {
            self.has_session = false;
        }
        UnitPlan::Submit { finish_session, create_session: !self.has_session, is_sync }
    }

    /// Checks that there are parameter sets, and that the frames that they describe
    /// have a size that can be decoded.
    pub fn check_dimensions(&self, encoded_width: i32, encoded_height: i32) -> (result: Result<
        (),
        DecoderError,
    >)
        ensures
            match dimension_error(self@, encoded_width, encoded_height) {
                Some(error) => result matches Err(e) && e == error,
                None => result is Ok,
            },
    {
        if self.parameter_sets.len() == 0 {
            return Err(DecoderError::NoParameterSets);
        }
        if encoded_width <= 0 || encoded_height <= 0 || encoded_width > 16_384 || encoded_height
            > 16_384 {
            return Err(DecoderError::FrameDimensions);
        }
        Ok(())
    }

    /// Checks that a session can be created, for a frame of the encoded size and
    /// with the given visible part.
    pub fn check_session(
        &self,
        encoded_width: i32,
        encoded_height: i32,
        aperture: PixelRect,
    ) -> (result: Result<PixelRect, DecoderError>)
        ensures
            match session_error(self@, encoded_width, encoded_height, aperture) {
                Some(error) => result matches Err(e) && e == error,
                None => result matches Ok(rect) && rect == aperture && rect.wf(),
            },
    {
        self.check_dimensions(encoded_width, encoded_height)?;
        check_aperture(encoded_width as usize, encoded_height as usize, aperture)
    }

    /// Takes note of a session that was created.
    pub fn session_created(&mut self)
        ensures
            final(self)@ == (DecoderModel { has_session: true, ..old(self)@ }),
    {
        self.has_session = true;
    }

    /// Numbers an access unit that is submitted.
    pub fn submit(&mut self, stream_index: usize, timestamp: u32, encoded_bytes: usize) -> (s:
        Submission)
        ensures
            s == (Submission {
                stream_index,
                timestamp,
                submission: old(self)@.next_submission,
                encoded_bytes,
            }),
            final(self)@ == (DecoderModel {
                next_submission: if old(self)@.next_submission == u64::MAX {
                    0
                } else {
                    (old(self)@.next_submission + 1) as u64
                },
                ..old(self)@
            }),
    {
        let submission: u64 = self.next_submission;
        self.next_submission = if submission == u64::MAX { 0 } else { submission + 1 };
        Submission { stream_index, timestamp, submission, encoded_bytes }
    }

    /// Whether a decoder that keeps its parameter sets itself takes an access
    /// unit; if so, whether it is a sync unit.
    pub fn accept_unit(&mut self, unit: &AccessUnit) -> (sync: Option<bool>)
        ensures
            ({
                let is_sync = has_sync(old(self)@.codec, all_bytes(unit.nal_units@));
                if old(self)@.needs_sync && !is_sync {
                    &&& sync is None
                    &&& final(self)@ == old(self)@
                } else {
                    &&& sync == Some(is_sync)
                    &&& final(self)@ == (DecoderModel { needs_sync: false, ..old(self)@ })
                }
            }),
    {
        let is_sync = is_sync_unit(self.codec, unit);
        if self.needs_sync && !is_sync {
            return None;
        }
        self.needs_sync = false;
        Some(is_sync)
    }
}

/// After a loss nothing is decoded before a sync unit.
pub proof fn law_loss_waits_for_sync(state: DecoderModel, units: Seq<Seq<u8>>)
    requires
        state.needs_sync,
    ensures
        unit_prepared(state, units).1 is Skip <==> !has_sync(state.codec, units),
        unit_prepared(state, units).1 is Skip ==> unit_prepared(state, units).0 == state,
        !(unit_prepared(state, units).1 is Skip) ==> !unit_prepared(state, units).0.has_session,
{
}

/// A part of a frame, in whole pixels.
#[derive(Debug, Clone, Copy, PartialEq, Eq, Structural)]
pub struct PixelRect {
    pub x: usize,
    pub y: usize,
    pub width: usize,
    pub height: usize,
}

impl PixelRect {
    /// Whether the part is not empty and begins on a chroma sample.
    pub open spec fn wf(self) -> bool {
        &&& self.width > 0
        &&& self.height > 0
        &&& self.x % 2 == 0
        &&& self.y % 2 == 0
    }
}

/// What is wrong with the visible part of a frame, if anything.
pub open spec fn aperture_error(encoded_width: nat, encoded_height: nat, rect: PixelRect) -> Option<
    DecoderError,
> {
    if rect.width == 0 || rect.height == 0 {
        Some(DecoderError::EmptyAperture)
    } else if rect.x % 2 != 0 || rect.y % 2 != 0 {
        Some(DecoderError::UnalignedAperture { x: rect.x, y: rect.y })
    } else if rect.x + rect.width > usize::MAX {
        Some(DecoderError::ApertureWidthOverflow)
    } else if rect.y + rect.height > usize::MAX {
        Some(DecoderError::ApertureHeightOverflow)
    } else if rect.x + rect.width > encoded_width || rect.y + rect.height > encoded_height {
        Some(
            DecoderError::ApertureOutside {
                width: rect.width,
                height: rect.height,
                x: rect.x,
                y: rect.y,
                encoded_width: encoded_width as usize,
                encoded_height: encoded_height as usize,
            },
        )
    } else {
        None
    }
}

/// What is wrong with the size of the frames of a session, if anything.
pub open spec fn dimension_error(
    state: DecoderModel,
    encoded_width: i32,
    encoded_height: i32,
) -> Option<DecoderError> {
    if state.parameter_sets.len() == 0 {
        Some(DecoderError::NoParameterSets)
    } else if encoded_width <= 0 || encoded_height <= 0 || encoded_width > 16_384 || encoded_height
        > 16_384 {
        Some(DecoderError::FrameDimensions)
    } else {
        None
    }
}

/// What is wrong with a session that is to be created, if anything.
pub open spec fn session_error(
    state: DecoderModel,
    encoded_width: i32,
    encoded_height: i32,
    aperture: PixelRect,
) -> Option<DecoderError> {
    match dimension_error(state, encoded_width, encoded_height) {
        Some(error) => Some(error),
        None => aperture_error(encoded_width as nat, encoded_height as nat, aperture),
    }
}

/// Checks the visible part of a frame: only such a crop is allowed.
pub fn check_aperture(encoded_width: usize, encoded_height: usize, rect: PixelRect) -> (result:
    Result<PixelRect, DecoderError>)
    ensures
        match aperture_error(encoded_width as nat, encoded_height as nat, rect) {
            Some(error) => result matches Err(e) && e == error,
            None => result matches Ok(r) && r == rect && r.wf(),
        },
{
    if rect.width == 0 || rect.height == 0 {
        return Err(DecoderError::EmptyAperture);
    }
    if rect.x % 2 != 0 || rect.y % 2 != 0 {
        return Err(DecoderError::UnalignedAperture { x: rect.x, y: rect.y });
    }
    let right: usize = match rect.x.checked_add(rect.width) {
        Some(right) => right,
        None => {
            return Err(DecoderError::ApertureWidthOverflow);
        },
    };
    let bottom: usize = match rect.y.checked_add(rect.height) {
        Some(bottom) => bottom,
        None => {
            return Err(DecoderError::ApertureHeightOverflow);
        },
    };
    if right > encoded_width || bottom > encoded_height {
        return Err(
            DecoderError::ApertureOutside {
                width: rect.width,
                height: rect.height,
                x: rect.x,
                y: rect.y,
                encoded_width,
                encoded_height,
            },
        );
    }
    Ok(rect)
}

/// The two pixel formats of NV12: `420v` and `420f`.
pub const NV12_VIDEO_RANGE: u32 = 0x3432_3076;

pub const NV12_FULL_RANGE: u32 = 0x3432_3066;

/// An image that a decoder returned, with the storage of its planes if it can be
/// read.
#[derive(Debug, Clone, Copy)]
pub struct PixelBuffer<'a> {
    pub width: usize,
    pub height: usize,
    pub format: u32,
    pub plane_count: usize,
    pub y_width: usize,
    pub y_height: usize,
    pub uv_width: usize,
    pub uv_height: usize,
    pub y_stride: usize,
    pub uv_stride: usize,
    pub y: Option<&'a [u8]>,
    pub uv: Option<&'a [u8]>,
    /// The matrix and the primaries that the image is tagged with.
    pub matrix: Option<YuvMatrix>,
    pub primaries: Option<YuvPrimaries>,
}

/// Half of `n`, rounded up.
pub open spec fn half_up(n: nat) -> nat {
    (n + 1) / 2
}

/// What is wrong with an image, if anything.
pub open spec fn buffer_error(buffer: PixelBuffer<'_>, rect: PixelRect) -> Option<DecoderError> {
    if buffer.width == 0 || buffer.height == 0 || buffer.width > 16_384 || buffer.height > 16_384 {
        Some(DecoderError::BufferDimensions { width: buffer.width, height: buffer.height })
    } else if rect.x + rect.width > usize::MAX {
        Some(DecoderError::VisibleWidthOverflow)
    } else if rect.y + rect.height > usize::MAX {
        Some(DecoderError::VisibleHeightOverflow)
    } else if rect.x + rect.width > buffer.width || rect.y + rect.height > buffer.height {
        Some(
            DecoderError::BufferSmaller {
                buffer_width: buffer.width,
                buffer_height: buffer.height,
                width: rect.width,
                height: rect.height,
                x: rect.x,
                y: rect.y,
            },
        )
    } else if buffer.format != NV12_VIDEO_RANGE && buffer.format != NV12_FULL_RANGE {
        Some(DecoderError::PixelFormat { format: buffer.format })
    } else if buffer.plane_count != 2 {
        Some(DecoderError::PlaneCount { count: buffer.plane_count })
    } else if buffer.y_width != buffer.width || buffer.y_height != buffer.height || buffer.uv_width
        != half_up(buffer.width as nat) || buffer.uv_height != half_up(buffer.height as nat) {
        Some(
            DecoderError::PlaneGeometry {
                buffer_width: buffer.width,
                buffer_height: buffer.height,
                y_width: buffer.y_width,
                y_height: buffer.y_height,
                uv_width: buffer.uv_width,
                uv_height: buffer.uv_height,
            },
        )
    } else if buffer.y is None || buffer.uv is None || buffer.y_stride < buffer.width
        || buffer.uv_stride < 2 * buffer.uv_width {
        Some(
            DecoderError::Inaccessible {
                y_len: (rect.width * rect.height) as usize,
                uv_len: (2 * half_up(rect.width as nat) * half_up(rect.height as nat)) as usize,
            },
        )
    } else {
        None
    }
}

/// The matrix of an image without a tag: the conventional split between standard
/// and high definition.
pub open spec fn default_matrix(width: nat, height: nat) -> YuvMatrix {
    if width <= 1024 && height <= 576 {
        YuvMatrix::Bt601
    } else {
        YuvMatrix::Bt709
    }
}

/// Whether `slice` is the visible part `rect` of `buffer`: its rows of both
/// planes, and its colour description.
pub open spec fn is_visible_part(
    slice: DecodedSlice,
    buffer: PixelBuffer<'_>,
    rect: PixelRect,
) -> bool {
    &&& slice.width == rect.width
    &&& slice.height == rect.height
    &&& slice.y_plane@ == planes::rows_of(
        buffer.y->0@,
        (rect.y * buffer.y_stride + rect.x) as nat,
        buffer.y_stride as nat,
        rect.width as nat,
        rect.height as nat,
    )
    &&& slice.uv_plane@ == planes::rows_of(
        buffer.uv->0@,
        (rect.y / 2 * buffer.uv_stride + rect.x) as nat,
        buffer.uv_stride as nat,
        2 * half_up(rect.width as nat),
        half_up(rect.height as nat),
    )
    &&& slice.range == if buffer.format == NV12_VIDEO_RANGE {
        YuvRange::Video
    } else {
        YuvRange::Full
    }
    &&& slice.matrix == match buffer.matrix {
        Some(matrix) => matrix,
        None => default_matrix(rect.width as nat, rect.height as nat),
    }
    &&& slice.primaries == match buffer.primaries {
        Some(primaries) => primaries,
        None => YuvPrimaries::Bt709,
    }
}

/// Whether the storage of the planes holds all of their rows.
pub open spec fn storage_complete(buffer: PixelBuffer<'_>) -> bool {
    &&& buffer.y matches Some(y) ==> y@.len() >= buffer.y_stride * buffer.y_height
    &&& buffer.uv matches Some(uv) ==> uv@.len() >= buffer.uv_stride * buffer.uv_height
}

proof fn lemma_part_inside(
    origin: nat,
    stride: nat,
    offset: nat,
    row_bytes: nat,
    rows: nat,
    height: nat,
    len: nat,
)
    requires
        rows > 0,
        origin + rows <= height,
        offset + row_bytes <= stride,
        stride * height <= len,
    ensures
        planes::rows_inside(len, origin * stride + offset, stride, row_bytes, rows),
        origin * stride + offset <= len,
{
    assert((origin + rows) * stride <= height * stride) by (nonlinear_arith)
        requires
            origin + rows <= height,
            0 <= stride,
    ;
    assert((origin + rows) * stride == origin * stride + (rows - 1) * stride + stride)
        by (nonlinear_arith);
    assert(height * stride == stride * height) by (nonlinear_arith);
    assert((rows - 1) * stride >= 0) by (nonlinear_arith)
        requires
            rows > 0,
            0 <= stride,
    ;
}

/// Half of `n`, rounded up.
fn half(n: usize) -> (h: usize)
    ensures
        h == half_up(n as nat),
{
    n / 2 + n % 2
}

/// Copies the visible part of an image.
pub fn pixel_buffer_to_nv12(buffer: &PixelBuffer<'_>, rect: PixelRect) -> (result: Result<
    DecodedSlice,
    DecoderError,
>)
    requires
        rect.wf(),
        storage_complete(*buffer),
    ensures
        match buffer_error(*buffer, rect) {
            Some(error) => result matches Err(e) && e == error,
            None => result matches Ok(slice) && is_visible_part(slice, *buffer, rect),
        },
{
    if buffer.width == 0 || buffer.height == 0 || buffer.width > 16_384 || buffer.height > 16_384 {
        return Err(DecoderError::BufferDimensions { width: buffer.width, height: buffer.height });
    }
    let right: usize = match rect.x.checked_add(rect.width) {
        Some(right) => right,
        None => {
            return Err(DecoderError::VisibleWidthOverflow);
        },
    };
    let bottom: usize = match rect.y.checked_add(rect.height) {
        Some(bottom) => bottom,
        None => {
            return Err(DecoderError::VisibleHeightOverflow);
        },
    };
    if right > buffer.width || bottom > buffer.height {
        return Err(
            DecoderError::BufferSmaller {
                buffer_width: buffer.width,
                buffer_height: buffer.height,
                width: rect.width,
                height: rect.height,
                x: rect.x,
                y: rect.y,
            },
        );
    }
    let range = if buffer.format == NV12_VIDEO_RANGE {
        YuvRange::Video
    } else if buffer.format == NV12_FULL_RANGE {
        YuvRange::Full
    } else {
        return Err(DecoderError::PixelFormat { format: buffer.format });
    };
    if buffer.plane_count != 2 {
        return Err(DecoderError::PlaneCount { count: buffer.plane_count });
    }
    if buffer.y_width != buffer.width || buffer.y_height != buffer.height || buffer.uv_width
        != half(buffer.width) || buffer.uv_height != half(buffer.height) {
        return Err(
            DecoderError::PlaneGeometry {
                buffer_width: buffer.width,
                buffer_height: buffer.height,
                y_width: buffer.y_width,
                y_height: buffer.y_height,
                uv_width: buffer.uv_width,
                uv_height: buffer.uv_height,
            },
        );
    }
    let uv_row_bytes: usize = 2 * half(rect.width);
    let uv_rows: usize = half(rect.height);
    assert(0 <= rect.width * rect.height <= 16_384 * 16_384) by (nonlinear_arith)
        requires
            0 <= rect.width <= 16_384,
            0 <= rect.height <= 16_384,
    ;
    assert(0 <= uv_row_bytes * uv_rows <= 16_384 * 16_384) by (nonlinear_arith)
        requires
            0 <= uv_row_bytes <= 16_384,
            0 <= uv_rows <= 16_384,
    ;
    let readable = buffer.y_stride >= buffer.width && buffer.uv_stride >= 2 * buffer.uv_width;
    let (y, uv) = match (buffer.y, buffer.uv) {
        (Some(y), Some(uv)) if readable => (y, uv),
        _ => {
            return Err(
                DecoderError::Inaccessible {
                    y_len: rect.width * rect.height,
                    uv_len: uv_row_bytes * uv_rows,
                },
            );
        },
    };
    let y_total: usize = y.len();
    let uv_total: usize = uv.len();
    proof {
        lemma_part_inside(
            rect.y as nat,
            buffer.y_stride as nat,
            rect.x as nat,
            rect.width as nat,
            rect.height as nat,
            buffer.height as nat,
            y@.len(),
        );
        lemma_part_inside(
            rect.y as nat / 2,
            buffer.uv_stride as nat,
            rect.x as nat,
            uv_row_bytes as nat,
            uv_rows as nat,
            buffer.uv_height as nat,
            uv@.len(),
        );
        assert(0 <= rect.y * buffer.y_stride) by (nonlinear_arith)
            requires
                0 <= rect.y,
                0 <= buffer.y_stride,
        ;
        let chroma_y = rect.y / 2;
        assert(0 <= chroma_y * buffer.uv_stride) by (nonlinear_arith)
            requires
                0 <= chroma_y,
                0 <= buffer.uv_stride,
        ;
    }
    let y_plane = planes::gather_rows(
        y,
        rect.y * buffer.y_stride + rect.x,
        buffer.y_stride,
        rect.width,
        rect.height,
    );
    let uv_plane = planes::gather_rows(
        uv,
        rect.y / 2 * buffer.uv_stride + rect.x,
        buffer.uv_stride,
        uv_row_bytes,
        uv_rows,
    );
    let matrix = match buffer.matrix {
        Some(matrix) => matrix,
        None => if rect.width <= 1024 && rect.height <= 576 {
            YuvMatrix::Bt601
        } else {
            YuvMatrix::Bt709
        },
    };
    let primaries = match buffer.primaries {
        Some(primaries) => primaries,
        None => YuvPrimaries::Bt709,
    };
    Ok(
        DecodedSlice {
            width: rect.width as u32,
            height: rect.height as u32,
            y_plane,
            uv_plane,
            range,
            matrix,
            primaries,
        },
    )
}

/// What a decoder's callback says of an image.
#[derive(Debug)]
pub enum CallbackImage {
    /// There is none.
    Missing,
    /// It is no image.
    NotPixelBuffer,
    /// It was copied, or could not be.
    Copied(Result<DecodedSlice, DecoderError>),
}

/// The output that a decoder's callback stands for. A failed decode and one
/// without an image give an output without a slice.
pub fn callback_output(
    submission: Submission,
    status: i32,
    info_flags: u32,
    image: CallbackImage,
) -> (output: DecodedOutput)
    ensures
        output.stream_index == submission.stream_index,
        output.timestamp == submission.timestamp,
        output.submission == submission.submission,
        output.encoded_bytes == submission.encoded_bytes,
        output.status == status,
        output.info_flags == info_flags,
        status != 0 || image is Missing ==> output.frame is None && output.conversion_error is None,
        status == 0 && image is NotPixelBuffer ==> {
            &&& output.frame is None
            &&& output.conversion_error is Some
            &&& output.conversion_error->0@ == DecoderError::NotPixelBuffer.text()
        },
        status == 0 && image is Copied ==> match image->Copied_0 {
            Ok(slice) => output.frame == Some(slice) && output.conversion_error is None,
            Err(error) => {
                &&& output.frame is None
                &&& output.conversion_error is Some
                &&& output.conversion_error->0@ == error.text()
            },
        },
{
    let (frame, conversion_error) = if status != 0 {
        (None, None)
    } else {
        match image {
            CallbackImage::Missing => (None, None),
            CallbackImage::NotPixelBuffer => (None, Some(DecoderError::NotPixelBuffer.message())),
            CallbackImage::Copied(Ok(slice)) => (Some(slice), None),
            CallbackImage::Copied(Err(error)) => (None, Some(error.message())),
        }
    };
    DecodedOutput {
        stream_index: submission.stream_index,
        timestamp: submission.timestamp,
        submission: submission.submission,
        encoded_bytes: submission.encoded_bytes,
        status,
        info_flags,
        conversion_error,
        frame,
    }
}

/// `output` put into `sorted` behind everything that was not submitted later,
/// looking from the end.
pub open spec fn put_ordered(sorted: Seq<DecodedOutput>, output: DecodedOutput) -> Seq<
    DecodedOutput,
>
    decreases sorted.len(),
{
    if sorted.len() > 0 && sorted.last().submission > output.submission {
        put_ordered(sorted.drop_last(), output).push(sorted.last())
    } else {
        sorted.push(output)
    }
}

/// `outputs` in the order of their submission; equal ones keep their order.
pub open spec fn submission_order(outputs: Seq<DecodedOutput>) -> Seq<DecodedOutput>
    decreases outputs.len(),
{
    if outputs.len() == 0 {
        outputs
    } else {
        put_ordered(submission_order(outputs.drop_last()), outputs.last())
    }
}

fn insert_ordered(sorted: &mut Vec<DecodedOutput>, output: DecodedOutput)
    ensures
        final(sorted)@ == put_ordered(old(sorted)@, output),
{
    let mut at: usize = sorted.len();
    let ghost all = sorted@;
    assert(all.take(at as int) =~= all);
    assert(put_ordered(all.take(at as int), output) + all.skip(at as int) =~= put_ordered(
        all,
        output,
    ));
    while at > 0 && sorted[at - 1].submission > output.submission
        invariant
            at <= all.len(),
            sorted@ == all,
            put_ordered(all.take(at as int), output) + all.skip(at as int) == put_ordered(
                all,
                output,
            ),
        decreases at,
    {
        assert(all.take(at as int).drop_last() =~= all.take(at as int - 1));
        assert(put_ordered(all.take(at as int), output) + all.skip(at as int) =~= put_ordered(
            all.take(at as int - 1),
            output,
        ) + all.skip(at as int - 1));
        at -= 1;
    }
    assert(put_ordered(all.take(at as int), output) == all.take(at as int).push(output));
    sorted.insert(at, output);
    assert(sorted@ =~= all.take(at as int).push(output) + all.skip(at as int));
}

/// Puts outputs in the order of their submission.
pub fn order_outputs(outputs: Vec<DecodedOutput>) -> (ordered: Vec<DecodedOutput>)
    ensures
        ordered@ == submission_order(outputs@),
{
    let ghost all = outputs@;
    let mut ordered: Vec<DecodedOutput> = Vec::new();
    assert(all.take(0) =~= Seq::<DecodedOutput>::empty());
    for output in it: outputs
        invariant
            it.seq() == all,
            ordered@ == submission_order(all.take(it.index() as int)),
    {
        assert(all.take(it.index() as int + 1).drop_last() =~= all.take(it.index() as int));
        insert_ordered(&mut ordered, output);
    }
    assert(all.take(all.len() as int) =~= all);
    ordered
}

proof fn lemma_put_ordered(sorted: Seq<DecodedOutput>, output: DecodedOutput)
    requires
        forall|i: int, j: int|
            0 <= i <= j < sorted.len() ==> sorted[i].submission <= sorted[j].submission,
    ensures
        forall|i: int, j: int|
            0 <= i <= j < put_ordered(sorted, output).len() ==> put_ordered(
                sorted,
                output,
            )[i].submission <= put_ordered(sorted, output)[j].submission,
        put_ordered(sorted, output).to_multiset() == sorted.to_multiset().insert(output),
        forall|i: int|
            0 <= i < put_ordered(sorted, output).len() ==> #[trigger] put_ordered(
                sorted,
                output,
            )[i].submission <= output.submission || (sorted.len() > 0 && put_ordered(
                sorted,
                output,
            )[i].submission <= sorted.last().submission),
    decreases sorted.len(),
{
    broadcast use vstd::seq_lib::group_to_multiset_ensures;

    let result = put_ordered(sorted, output);
    if sorted.len() > 0 && sorted.last().submission > output.submission {
        lemma_put_ordered(sorted.drop_last(), output);
        assert(sorted =~= sorted.drop_last().push(sorted.last()));
        assert(result.to_multiset() =~= sorted.to_multiset().insert(output));
    } else {
        assert(result.to_multiset() =~= sorted.to_multiset().insert(output));
    }
}

/// Ordering outputs loses none and adds none, and none stands before one that
/// was submitted earlier.
pub proof fn law_outputs_are_ordered(outputs: Seq<DecodedOutput>)
    ensures
        submission_order(outputs).to_multiset() == outputs.to_multiset(),
        forall|i: int, j: int|
            0 <= i <= j < submission_order(outputs).len() ==> submission_order(
                outputs,
            )[i].submission <= submission_order(outputs)[j].submission,
    decreases outputs.len(),
{
    broadcast use vstd::seq_lib::group_to_multiset_ensures;

    if outputs.len() > 0 {
        law_outputs_are_ordered(outputs.drop_last());
        lemma_put_ordered(submission_order(outputs.drop_last()), outputs.last());
        assert(outputs =~= outputs.drop_last().push(outputs.last()));
    }
}

proof fn lemma_nal_type(codec: MediaStreamCodec, unit: Seq<u8>)
    ensures
        unit.len() == 0 ==> nal_type(codec, unit) is None,
        unit.len() > 0 ==> nal_type(codec, unit) == Some(
            match codec {
                MediaStreamCodec::H264 => (unit[0] % 32) as u8,
                MediaStreamCodec::Hevc => (unit[0] / 2 % 64) as u8,
            },
        ),
{
    let header = unit[0];
    assert(header & 0x1f == header % 32) by (bit_vector);
    assert((header >> 1) & 0x3f == header / 2 % 64) by (bit_vector);
}

/// An access unit starts a new prediction chain if one of its units does: of H.264 one
/// of the type 5, of HEVC one of the types 16 to 23, as the headers say.
pub proof fn law_sync_units_are_known_by_their_headers(units: Seq<Seq<u8>>)
    ensures
        has_sync(MediaStreamCodec::H264, units) <==> exists|i: int|
            0 <= i < units.len() && (#[trigger] units[i]).len() > 0 && units[i][0] % 32 == 5,
        has_sync(MediaStreamCodec::Hevc, units) <==> exists|i: int|
            0 <= i < units.len() && (#[trigger] units[i]).len() > 0 && 16 <= units[i][0] / 2 % 64
                <= 23,
{
    assert forall|i: int| 0 <= i < units.len() implies (is_sync_type(
        MediaStreamCodec::H264,
        nal_type(MediaStreamCodec::H264, #[trigger] units[i]),
    ) <==> units[i].len() > 0 && units[i][0] % 32 == 5) && (is_sync_type(
        MediaStreamCodec::Hevc,
        nal_type(MediaStreamCodec::Hevc, units[i]),
    ) <==> units[i].len() > 0 && 16 <= units[i][0] / 2 % 64 <= 23) by {
        lemma_nal_type(MediaStreamCodec::H264, units[i]);
        lemma_nal_type(MediaStreamCodec::Hevc, units[i]);
    }
}

/// Whether the header of a unit is that of a parameter set: of H.264 the types 7 and 8,
/// of HEVC the types 32 to 34.
pub open spec fn header_of_set(codec: MediaStreamCodec, unit: Seq<u8>) -> bool {
    unit.len() > 0 && match codec {
        MediaStreamCodec::H264 => unit[0] % 32 == 7 || unit[0] % 32 == 8,
        MediaStreamCodec::Hevc => 32 <= unit[0] / 2 % 64 <= 34,
    }
}

/// The parameter sets of an access unit are the units with such a header, in their
/// order.
pub proof fn law_parameter_sets_are_known_by_their_headers(
    codec: MediaStreamCodec,
    units: Seq<Seq<u8>>,
)
    ensures
        parameter_units(codec, units) == units.filter(|u: Seq<u8>| header_of_set(codec, u)),
    decreases units.len(),
{
    reveal(Seq::filter);
    if units.len() > 0 {
        law_parameter_sets_are_known_by_their_headers(codec, units.drop_last());
        lemma_nal_type(codec, units.last());
    }
}

/// The first set of a type: it is of that type, and none before it is.
pub proof fn law_first_set_of_a_type(codec: MediaStreamCodec, sets: Seq<Seq<u8>>, kind: u8)
    ensures
        ({
            let index = first_of_type(codec, sets, kind);
            &&& index <= sets.len()
            &&& index < sets.len() ==> nal_type(codec, sets[index as int]) == Some(kind)
            &&& forall|i: int| 0 <= i < index ==> nal_type(codec, #[trigger] sets[i]) != Some(kind)
        }),
    decreases sets.len(),
{
    if sets.len() > 0 {
        let rest = sets.drop_first();
        law_first_set_of_a_type(codec, rest, kind);
        assert forall|i: int| 0 <= i < first_of_type(codec, sets, kind) implies nal_type(
            codec,
            #[trigger] sets[i],
        ) != Some(kind) by {
            if i > 0 {
                assert(rest[i - 1] == sets[i]);
            }
        }
    }
}

/// Sets that come again change nothing, and a new one changes what is there.
pub proof fn law_only_new_sets_change_anything(
    codec: MediaStreamCodec,
    sets: Seq<Seq<u8>>,
    incoming: Seq<Seq<u8>>,
    count: nat,
)
    requires
        count <= incoming.len(),
    ensures
        !sets_change(codec, sets, incoming, count) ==> sets_merged(codec, sets, incoming, count)
            == sets,
        sets_merged(codec, sets, incoming, count) != sets ==> sets_change(
            codec,
            sets,
            incoming,
            count,
        ),
        sets_merged(codec, sets, incoming, 0) == sets,
        !sets_change(codec, sets, incoming, 0),
        count > 0 ==> (sets_change(codec, sets, incoming, 1) <==> set_merged(
            codec,
            sets,
            incoming[0],
        ) != sets),
    decreases count,
{
    if count > 0 {
        law_only_new_sets_change_anything(codec, sets, incoming, (count - 1) as nat);
    }
    reveal_with_fuel(sets_change, 2);
    reveal_with_fuel(sets_merged, 2);
}

/// A session lives as long as its parameter sets and its prediction chain do: a unit
/// without new ones goes on in it, new sets end it, and so does a sync unit after a
/// loss. Whenever a unit is decoded there is a session or one is created.
pub proof fn law_sessions_follow_the_stream(state: DecoderModel, units: Seq<Seq<u8>>)
    ensures
        ({
            let (after, plan) = unit_prepared(state, units);
            let sets = parameter_units(state.codec, units);
            &&& after.codec == state.codec
            &&& after.next_submission == state.next_submission
            &&& plan is Skip <==> state.needs_sync && !has_sync(state.codec, units)
            &&& plan matches UnitPlan::Submit { finish_session, create_session, is_sync } ==> {
                &&& is_sync == has_sync(state.codec, units)
                &&& !after.needs_sync
                &&& finish_session ==> state.has_session
                &&& create_session == !after.has_session
                &&& after.has_session == (state.has_session && !finish_session)
                &&& state.needs_sync && state.has_session ==> finish_session
                &&& !state.needs_sync && sets.len() == 0 ==> !finish_session
                    && after.parameter_sets == state.parameter_sets
                &&& state.has_session && after.parameter_sets != state.parameter_sets
                    ==> finish_session
            }
        }),
{
    let sets = parameter_units(state.codec, units);
    law_only_new_sets_change_anything(state.codec, state.parameter_sets, sets, sets.len());
}

/// The visible part of a frame is accepted exactly if it is not empty, begins on a
/// chroma sample and lies inside the frame.
pub proof fn law_visible_parts_lie_inside(encoded_width: nat, encoded_height: nat, rect: PixelRect)
    requires
        encoded_width <= usize::MAX,
        encoded_height <= usize::MAX,
    ensures
        aperture_error(encoded_width, encoded_height, rect) is None <==> {
            &&& rect.width > 0
            &&& rect.height > 0
            &&& rect.x % 2 == 0
            &&& rect.y % 2 == 0
            &&& rect.x + rect.width <= encoded_width
            &&& rect.y + rect.height <= encoded_height
        },
        aperture_error(encoded_width, encoded_height, rect) is Some && (rect.width == 0
            || rect.height == 0) ==> aperture_error(encoded_width, encoded_height, rect)->0
            is EmptyAperture,
        rect.width > 0 && rect.height > 0 && (rect.x % 2 == 1 || rect.y % 2 == 1)
            ==> aperture_error(encoded_width, encoded_height, rect) == Some(
            DecoderError::UnalignedAperture { x: rect.x, y: rect.y },
        ),
{
}

/// A session is created exactly with parameter sets, for frames of at most 16384 by
/// 16384 pixels and a visible part of them.
pub proof fn law_sessions_have_a_size(
    state: DecoderModel,
    encoded_width: i32,
    encoded_height: i32,
    aperture: PixelRect,
)
    ensures
        dimension_error(state, encoded_width, encoded_height) is None <==> state.parameter_sets.len()
            > 0 && 1 <= encoded_width <= 16_384 && 1 <= encoded_height <= 16_384,
        state.parameter_sets.len() == 0 ==> dimension_error(state, encoded_width, encoded_height)
            == Some(DecoderError::NoParameterSets),
        session_error(state, encoded_width, encoded_height, aperture) is None <==> {
            &&& state.parameter_sets.len() > 0
            &&& 1 <= encoded_width <= 16_384
            &&& 1 <= encoded_height <= 16_384
            &&& aperture.width > 0
            &&& aperture.height > 0
            &&& aperture.x % 2 == 0
            &&& aperture.y % 2 == 0
            &&& aperture.x + aperture.width <= encoded_width
            &&& aperture.y + aperture.height <= encoded_height
        },
{
}

/// An image is read exactly if it has a plausible size that holds the visible part, is
/// NV12 with both of its planes, of the sizes that belong to it, and its rows are as
/// long as its pixels.
pub proof fn law_images_are_checked(buffer: PixelBuffer<'_>, rect: PixelRect)
    requires
        rect.wf(),
    ensures
        buffer_error(buffer, rect) is None <==> {
            &&& 1 <= buffer.width <= 16_384
            &&& 1 <= buffer.height <= 16_384
            &&& rect.x + rect.width <= buffer.width
            &&& rect.y + rect.height <= buffer.height
            &&& buffer.format == 0x3432_3076 || buffer.format == 0x3432_3066
            &&& buffer.plane_count == 2
            &&& buffer.y_width == buffer.width
            &&& buffer.y_height == buffer.height
            &&& buffer.uv_width == (buffer.width + 1) / 2
            &&& buffer.uv_height == (buffer.height + 1) / 2
            &&& buffer.y is Some
            &&& buffer.uv is Some
            &&& buffer.y_stride >= buffer.width
            &&& buffer.uv_stride >= 2 * ((buffer.width + 1) / 2)
        },
{
}

/// A copied image is the visible part, pixel by pixel: each luma sample, and each pair
/// of chroma samples, comes from its own place in the image.
pub proof fn law_copies_show_the_visible_part(
    slice: DecodedSlice,
    buffer: PixelBuffer<'_>,
    rect: PixelRect,
    row: nat,
    column: nat,
)
    requires
        rect.wf(),
        storage_complete(buffer),
        buffer_error(buffer, rect) is None,
        is_visible_part(slice, buffer, rect),
    ensures
        (slice.width as nat, slice.height as nat) == (rect.width as nat, rect.height as nat),
        row < rect.height && column < rect.width ==> {
            &&& slice.y_plane@.len() == rect.height * rect.width
            &&& slice.y_plane@[(row * rect.width + column) as int] == buffer.y->0@[(rect.y
                * buffer.y_stride + rect.x + row * buffer.y_stride + column) as int]
        },
        row < (rect.height + 1) / 2 && column < 2 * ((rect.width + 1) / 2) ==> {
            let bytes = 2 * ((rect.width + 1) / 2);
            &&& slice.uv_plane@.len() == (rect.height + 1) / 2 * bytes
            &&& slice.uv_plane@[(row * bytes + column) as int] == buffer.uv->0@[(rect.y / 2
                * buffer.uv_stride + rect.x + row * buffer.uv_stride + column) as int]
        },
        slice.range == if buffer.format == 0x3432_3076 {
            YuvRange::Video
        } else {
            YuvRange::Full
        },
        buffer.matrix matches Some(matrix) ==> slice.matrix == matrix,
        buffer.matrix is None ==> slice.matrix == if rect.width <= 1024 && rect.height <= 576 {
            YuvMatrix::Bt601
        } else {
            YuvMatrix::Bt709
        },
        buffer.primaries matches Some(primaries) ==> slice.primaries == primaries,
        buffer.primaries is None ==> slice.primaries == YuvPrimaries::Bt709,
{
    lemma_part_inside(
        rect.y as nat,
        buffer.y_stride as nat,
        rect.x as nat,
        rect.width as nat,
        rect.height as nat,
        buffer.height as nat,
        buffer.y->0@.len(),
    );
    lemma_part_inside(
        rect.y as nat / 2,
        buffer.uv_stride as nat,
        rect.x as nat,
        2 * half_up(rect.width as nat),
        half_up(rect.height as nat),
        half_up(buffer.height as nat),
        buffer.uv->0@.len(),
    );
    if row < rect.height && column < rect.width {
        planes::law_gathered_rows(
            buffer.y->0@,
            (rect.y * buffer.y_stride + rect.x) as nat,
            buffer.y_stride as nat,
            rect.width as nat,
            rect.height as nat,
            row,
            column,
        );
    }
    if row < (rect.height + 1) / 2 && column < 2 * ((rect.width + 1) / 2) {
        planes::law_gathered_rows(
            buffer.uv->0@,
            (rect.y / 2 * buffer.uv_stride + rect.x) as nat,
            buffer.uv_stride as nat,
            2 * half_up(rect.width as nat),
            half_up(rect.height as nat),
            row,
            column,
        );
    }
}

} // verus!
