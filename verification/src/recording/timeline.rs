//! The timeline of a recording: positions and durations in track units, and how
//! long each frame stays on screen.

use crate::clock;
use crate::clock::Duration;
use vstd::prelude::*;

verus! {

/// Timescale of the recorded video track: 90 kHz, the MP4 video standard. It
/// represents 24, 25, 30, 50 and 60 frames per second exactly.
pub const TIMESCALE: u32 = 90_000;

/// The units of 100 nanoseconds in a second.
pub const HNS_PER_SECOND: i64 = 10_000_000;

/// Nanoseconds in track units; up to half a microsecond short of a unit counts
/// as the unit.
pub open spec fn track_units(nanos: nat) -> nat {
    (nanos * 90_000 + 500_000) / 1_000_000_000
}

/// `n`, cut off at `max`.
pub open spec fn capped(n: nat, max: nat) -> nat {
    if n <= max {
        n
    } else {
        max
    }
}

/// The length of a sample for a span of nanoseconds: at least one unit, because
/// a sample without length would stall playback.
pub open spec fn sample_units(nanos: nat) -> u32 {
    let units = capped(track_units(nanos), u32::MAX as nat);
    if units < 1 {
        1
    } else {
        units as u32
    }
}

/// The position in track units of a point on the timeline.
pub open spec fn position_units(nanos: nat) -> u64 {
    capped(track_units(nanos), u64::MAX as nat) as u64
}

fn units_of(span: Duration) -> (units: u128)
    ensures
        units == track_units(span@),
        span@ <= clock::max_nanos(),
{
    let nanos: u128 = span.as_nanos();
    (nanos * 90_000 + 500_000) / 1_000_000_000
}

/// Converts a timeline delta into track timescale units.
pub fn timeline_units(delta: Duration) -> (units: u32)
    ensures
        units == sample_units(delta@),
{
    let units: u128 = units_of(delta);
    if units > u32::MAX as u128 {
        u32::MAX
    } else if units < 1 {
        1
    } else {
        units as u32
    }
}

/// Converts a point on the take's timeline into track timescale units.
pub fn timeline_position(position: Duration) -> (units: u64)
    ensures
        units == position_units(position@),
{
    let units: u128 = units_of(position);
    if units > u64::MAX as u128 {
        u64::MAX
    } else {
        units as u64
    }
}

/// `n` times ten million, cut off at the largest 64-bit number.
pub open spec fn saturated_hns(units: nat) -> nat {
    capped(units * 10_000_000, u64::MAX as nat)
}

/// A number of track units in units of 100 nanoseconds, rounded to the nearest one.
pub open spec fn rounded_hns(units: nat) -> i64 {
    (capped(saturated_hns(units) + 45_000, u64::MAX as nat) / 90_000) as i64
}

/// The position in units of 100 nanoseconds, by way of the position in track units.
pub open spec fn hns_position(nanos: nat) -> i64 {
    rounded_hns(position_units(nanos) as nat)
}

/// Converts a position in track units into units of 100 nanoseconds.
pub fn units_hns(units: u64) -> (hns: i64)
    ensures
        hns == rounded_hns(units as nat),
        hns >= 0,
{
    let wide: u128 = units as u128 * 10_000_000;
    let scaled: u64 = if wide > u64::MAX as u128 { u64::MAX } else { wide as u64 };
    (scaled.saturating_add(45_000) / 90_000) as i64
}

/// Converts a point on the take's timeline into units of 100 nanoseconds.
pub fn position_hns(pts: Duration) -> (hns: i64)
    ensures
        hns == hns_position(pts@),
        hns >= 0,
{
    units_hns(timeline_position(pts))
}

/// The duration of a sample in units of 100 nanoseconds, rounded to the nearest
/// one and at least one.
pub open spec fn hns_duration(units: nat) -> nat {
    let hns = (units * 10_000_000 + 45_000) / 90_000;
    if hns < 1 {
        1
    } else {
        hns
    }
}

/// Converts the duration of a sample into units of 100 nanoseconds.
pub fn duration_hns(duration: u32) -> (hns: i64)
    ensures
        hns == hns_duration(duration as nat),
{
    let hns: i64 = (duration as i64 * 10_000_000 + 45_000) / 90_000;
    if hns < 1 {
        1
    } else {
        hns
    }
}

/// Units of 100 nanoseconds in track units, rounded to the nearest one.
pub open spec fn units_from_hns(hns: nat) -> nat {
    (hns * 90_000 + 5_000_000) / 10_000_000
}

/// The track units of a position in units of 100 nanoseconds that an encoder
/// reported; one before the start counts as the start.
pub open spec fn reported_position(hns: i64) -> u64 {
    units_from_hns(if hns < 0 {
        0
    } else {
        hns as nat
    }) as u64
}

/// The track units of a position that an encoder reported.
pub fn position_from_hns(hns: i64) -> (units: u64)
    ensures
        units == reported_position(hns),
{
    let start: u128 = if hns < 0 { 0 } else { hns as u128 };
    ((start * 90_000 + 5_000_000) / 10_000_000) as u64
}

/// The track units of a duration in units of 100 nanoseconds that an encoder
/// reported, cut off at the longest sample.
pub open spec fn reported_duration(hns: i64) -> u32 {
    capped(units_from_hns(if hns < 1 {
        1
    } else {
        hns as nat
    }), u32::MAX as nat) as u32
}

/// The track units of a duration that an encoder reported.
pub fn duration_from_hns(hns: i64) -> (units: u32)
    ensures
        units == reported_duration(hns),
{
    let length: u128 = if hns < 1 { 1 } else { hns as u128 };
    let units: u128 = (length * 90_000 + 5_000_000) / 10_000_000;
    if units > u32::MAX as u128 {
        u32::MAX
    } else {
        units as u32
    }
}

/// Times survive the way to an encoder that counts in units of 100 nanoseconds and
/// back: every position, as long as it fits, and the duration of every sample.
pub proof fn law_times_survive_the_transform(position: u64, duration: u32)
    ensures
        position * 10_000_000 + 45_000 <= u64::MAX ==> reported_position(
            rounded_hns(position as nat),
        ) == position,
        duration >= 1 ==> {
            &&& hns_duration(duration as nat) <= i64::MAX
            &&& reported_duration(hns_duration(duration as nat) as i64) == duration
        },
{
    if position * 10_000_000 + 45_000 <= u64::MAX {
        lemma_rounded_twice(position as nat);
    }
    lemma_rounded_twice(duration as nat);
}

proof fn lemma_rounded_twice(units: nat)
    ensures
        units_from_hns((units * 10_000_000 + 45_000) / 90_000) == units,
{
    let hns = (units * 10_000_000 + 45_000) / 90_000;
    assert(units * 10_000_000 - 45_000 < hns * 90_000 <= units * 10_000_000 + 45_000);
}

/// Time runs forward on every scale: a later point never has a smaller position,
/// and a longer span never a shorter sample. A sample always has a length.
pub proof fn law_timeline_is_monotone(earlier: nat, later: nat)
    requires
        earlier <= later,
    ensures
        position_units(earlier) <= position_units(later),
        hns_position(earlier) <= hns_position(later),
        1 <= sample_units(earlier) <= sample_units(later),
{
    assert(earlier * 90_000 <= later * 90_000);
    assert(track_units(earlier) <= track_units(later));
    let a = capped(saturated_hns(position_units(earlier) as nat) + 45_000, u64::MAX as nat);
    let b = capped(saturated_hns(position_units(later) as nat) + 45_000, u64::MAX as nat);
    assert(a <= b);
    assert(a / 90_000 <= b / 90_000);
}

/// A whole number of seconds is a whole number of units on both scales, as long
/// as the number fits.
pub proof fn law_seconds_are_exact(seconds: nat)
    requires
        seconds * 10_000_000 * 90_000 <= u64::MAX - 45_000,
    ensures
        position_units(seconds * 1_000_000_000) == seconds * 90_000,
        hns_position(seconds * 1_000_000_000) == seconds * 10_000_000,
{
    let units = seconds * 90_000;
    assert(seconds * 1_000_000_000 * 90_000 + 500_000 == units * 1_000_000_000 + 500_000);
    assert(track_units(seconds * 1_000_000_000) == units);
    assert(units * 10_000_000 + 45_000 == seconds * 10_000_000 * 90_000 + 45_000);
    assert((seconds * 10_000_000 * 90_000 + 45_000) / 90_000 == seconds * 10_000_000);
}

/// Measures how long each frame stays on screen. A frame's duration is only
/// known once the next one arrives, so the previous position is kept. Its view
/// is that position in nanoseconds.
#[derive(Debug)]
pub struct FrameTimeline {
    last_pts: Option<Duration>,
}

impl View for FrameTimeline {
    type V = Option<nat>;

    closed spec fn view(&self) -> Option<nat> {
        match self.last_pts {
            Some(pts) => Some(pts@),
            None => None,
        }
    }
}

/// The time from `earlier` to `later`, or 0 if `later` comes first.
pub open spec fn shown_for(earlier: nat, later: nat) -> nat {
    if later >= earlier {
        (later - earlier) as nat
    } else {
        0
    }
}

/// The duration of the frame at the position `previous` when `now` is reached.
pub open spec fn closed_duration(previous: Option<nat>, now: nat) -> Option<u32> {
    match previous {
        Some(p) => Some(sample_units(shown_for(p, now))),
        None => None,
    }
}

impl Default for FrameTimeline {
    fn default() -> (timeline: Self)
        ensures
            timeline@ is None,
    {
        FrameTimeline { last_pts: None }
    }
}

impl FrameTimeline {
    /// Duration to stamp on the previously held frame, given the next frame.
    pub fn advance(&mut self, pts: Duration) -> (duration: Option<u32>)
        ensures
            duration == closed_duration(old(self)@, pts@),
            final(self)@ == Some(pts@),
    {
        let previous = self.last_pts;
        self.last_pts = Some(pts);
        match previous {
            Some(previous) => Some(timeline_units(pts.saturating_sub(previous))),
            None => None,
        }
    }

    /// Duration of the frame that is still on screen when the take ends.
    pub fn finish(&mut self, now: Duration) -> (duration: Option<u32>)
        ensures
            duration == closed_duration(old(self)@, now@),
            final(self)@ is None,
    {
        match self.last_pts.take() {
            Some(previous) => Some(timeline_units(now.saturating_sub(previous))),
            None => None,
        }
    }
}

/// A number of track units stands for its nanoseconds, to the unit below, with half a
/// microsecond of tolerance for clocks that count a little short.
pub proof fn law_units_stand_for_their_time(nanos: nat)
    ensures
        track_units(nanos) * 1_000_000_000 <= nanos * 90_000 + 500_000 < (track_units(nanos) + 1)
            * 1_000_000_000,
        track_units(nanos) <= u32::MAX ==> position_units(nanos) == track_units(nanos),
        1 <= track_units(nanos) <= u32::MAX ==> sample_units(nanos) == track_units(nanos),
        track_units(nanos) == 0 ==> sample_units(nanos) == 1,
        track_units(nanos) > u32::MAX ==> sample_units(nanos) == u32::MAX,
{
}

/// Every frame rate that divides the timescale is exact: a frame that is shown for a
/// rate's part of a second, in whole nanoseconds, has that part of the timescale.
pub proof fn law_common_rates_are_exact(rate: nat)
    requires
        1 <= rate <= 90_000,
        90_000nat % rate == 0,
    ensures
        sample_units(1_000_000_000nat / rate) * rate == 90_000,
{
    let part = 90_000int / rate as int;
    let nanos = 1_000_000_000int / rate as int;
    let r = rate as int;
    let rest = 1_000_000_000int % r;
    vstd::arithmetic::div_mod::lemma_fundamental_div_mod(90_000, r);
    vstd::arithmetic::div_mod::lemma_fundamental_div_mod(1_000_000_000, r);
    vstd::arithmetic::div_mod::lemma_mod_bound(1_000_000_000, r);
    assert(90_000 == r * part);
    assert(1_000_000_000 == r * nanos + rest);
    assert(nanos * 90_000 + part * rest == part * 1_000_000_000) by (nonlinear_arith)
        requires
            90_000 == r * part,
            1_000_000_000 == r * nanos + rest,
    ;
    assert(0 <= part * rest <= 90_000) by (nonlinear_arith)
        requires
            90_000 == r * part,
            0 <= rest < r,
            part >= 0,
            r >= 1,
    ;
    assert(part >= 1) by (nonlinear_arith)
        requires
            90_000 == r * part,
            r >= 1,
    ;
    assert(part <= 90_000) by (nonlinear_arith)
        requires
            90_000 == r * part,
            r >= 1,
            part >= 1,
    ;
    law_units_stand_for_their_time(nanos as nat);
    let t = track_units(nanos as nat) as int;
    assert(t == part);
    assert(part * r == r * part) by (nonlinear_arith);
}

/// Times on the scale of 100 nanoseconds are the nearest ones to those in track units,
/// and the other way round; nothing comes before the start, and no sample is without
/// length on the way there.
pub proof fn law_scales_meet_at_the_nearest_unit(units: nat, hns: i64)
    requires
        units * 10_000_000 + 45_000 <= u64::MAX,
    ensures
        -90_000 <= 2 * (rounded_hns(units) * 90_000 - units * 10_000_000) <= 90_000,
        units >= 1 ==> -90_000 <= 2 * (hns_duration(units) * 90_000 - units * 10_000_000) <= 90_000,
        hns_duration(units) >= 1,
        hns >= 0 ==> -10_000_000 <= 2 * (reported_position(hns) * 10_000_000 - hns * 90_000)
            <= 10_000_000,
        hns < 0 ==> reported_position(hns) == 0,
        1 <= hns <= 0x1_0000_0000 ==> -10_000_000 <= 2 * (reported_duration(hns) * 10_000_000 - hns
            * 90_000) <= 10_000_000,
        hns < 1 ==> reported_duration(hns) == reported_duration(1),
{
}

/// A frame is shown from its own position to the next one; a clock that goes back
/// shows it for no time, and without a frame there is nothing to show.
pub proof fn law_frames_are_shown_until_the_next(earlier: nat, later: nat)
    ensures
        earlier <= later ==> shown_for(earlier, later) + earlier == later,
        earlier > later ==> shown_for(earlier, later) == 0,
        closed_duration(None, later) is None,
        closed_duration(Some(earlier), later) == Some(sample_units(shown_for(earlier, later))),
{
}

} // verus!
