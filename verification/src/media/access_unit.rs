//! Compressed video as it arrives: access units, and the batches of them that
//! make up one frame.

use crate::clock::Instant;
use crate::media::decoder;
use crate::recording::nal;
use vstd::prelude::*;

verus! {

/// The codecs of the media stream.
#[derive(Debug, Clone, Copy, PartialEq, Eq, Structural)]
pub enum MediaStreamCodec {
    H264,
    Hevc,
}

/// The NAL units of one coded picture slice.
#[derive(Debug, Clone)]
pub struct AccessUnit {
    pub timestamp: u32,
    pub decode_order_number: Option<u16>,
    pub nal_units: Vec<Vec<u8>>,
}

/// The units one after another, each behind a start code.
pub open spec fn start_coded(units: Seq<Seq<u8>>) -> Seq<u8>
    decreases units.len(),
{
    if units.len() == 0 {
        Seq::empty()
    } else {
        start_coded(units.drop_last()) + seq![0u8, 0, 0, 1] + units.last()
    }
}

impl AccessUnit {
    /// The units one after another, each behind its length; nothing if a length
    /// does not fit in four bytes.
    pub fn to_avcc(&self) -> (bytes: Option<Vec<u8>>)
        ensures
            ({
                let units = decoder::all_bytes(self.nal_units@);
                nal::bytes_view(bytes) == if nal::lengths_fit(units) {
                    Some(nal::length_prefixed(units))
                } else {
                    None
                }
            }),
    {
        let ghost units = decoder::all_bytes(self.nal_units@);
        let mut bytes: Vec<u8> = Vec::new();
        assert(units.take(0) =~= Seq::<Seq<u8>>::empty());
        for i in 0..self.nal_units.len()
            invariant
                units == decoder::all_bytes(self.nal_units@),
                nal::lengths_fit(units.take(i as int)),
                bytes@ == nal::length_prefixed(units.take(i as int)),
        {
            let unit = self.nal_units[i].as_slice();
            let ghost before = bytes@;
            assert(units[i as int] == unit@);
            assert(units.take(i as int + 1).drop_last() =~= units.take(i as int));
            if unit.len() as u64 > u32::MAX as u64 {
                return None;
            }
            nal::push_length(&mut bytes, unit.len() as u32);
            nal::push_bytes(&mut bytes, unit);
            assert(bytes@ =~= before + nal::length_prefix(unit@.len()) + unit@);
            assert forall|k: int| 0 <= k < i + 1 implies (#[trigger] units.take(
                i as int + 1,
            )[k]).len() <= u32::MAX by {
                if k < i {
                    assert(units.take(i as int)[k] == units.take(i as int + 1)[k]);
                }
            }
        }
        assert(units.take(units.len() as int) =~= units);
        Some(bytes)
    }

    /// The units one after another, each behind a start code.
    pub fn to_annex_b(&self) -> (bytes: Vec<u8>)
        ensures
            bytes@ == start_coded(decoder::all_bytes(self.nal_units@)),
    {
        let ghost units = decoder::all_bytes(self.nal_units@);
        let code: [u8; 4] = [0, 0, 0, 1];
        let mut bytes: Vec<u8> = Vec::new();
        assert(units.take(0) =~= Seq::<Seq<u8>>::empty());
        for i in 0..self.nal_units.len()
            invariant
                units == decoder::all_bytes(self.nal_units@),
                code@ == seq![0u8, 0, 0, 1],
                bytes@ == start_coded(units.take(i as int)),
        {
            let unit = self.nal_units[i].as_slice();
            let ghost before = bytes@;
            assert(units[i as int] == unit@);
            assert(units.take(i as int + 1).drop_last() =~= units.take(i as int));
            nal::push_bytes(&mut bytes, code.as_slice());
            nal::push_bytes(&mut bytes, unit);
            assert(bytes@ =~= before + code@ + unit@);
        }
        assert(units.take(units.len() as int) =~= units);
        bytes
    }
}

/// The access units of one frame, each with the index of its slice.
#[derive(Debug, Clone)]
pub struct AvcFrameBatch {
    pub timestamp: u32,
    pub access_units: Vec<(usize, AccessUnit)>,
    pub first_packet_received_at: Instant,
    pub first_access_unit_completed_at: Instant,
    pub released_at: Instant,
}

proof fn lemma_joined_last(units: Seq<Seq<u8>>, long: Seq<bool>)
    requires
        units.len() > 0,
        long.len() == units.len(),
    ensures
        nal::joined(units, long) == nal::joined(units.drop_last(), long.drop_last())
            + nal::start_code(long.last()) + units.last(),
    decreases units.len(),
{
    let code = nal::start_code(long[0]);
    if units.len() == 1 {
        assert(nal::joined(units.drop_first(), long.drop_first()) =~= Seq::<u8>::empty());
        assert(nal::joined(units.drop_last(), long.drop_last()) =~= Seq::<u8>::empty());
        assert(nal::joined(units, long) =~= Seq::<u8>::empty() + nal::start_code(long.last())
            + units.last());
    } else {
        lemma_joined_last(units.drop_first(), long.drop_first());
        assert(units.drop_first().drop_last() =~= units.drop_last().drop_first());
        assert(long.drop_first().drop_last() =~= long.drop_last().drop_first());
        assert(units.drop_first().last() == units.last());
        assert(long.drop_first().last() == long.last());
        assert(units.drop_last()[0] == units[0]);
        assert(long.drop_last()[0] == long[0]);
        assert(nal::joined(units, long) =~= nal::joined(units.drop_last(), long.drop_last())
            + nal::start_code(long.last()) + units.last());
    }
}

proof fn lemma_start_coded(units: Seq<Seq<u8>>, long: Seq<bool>)
    requires
        long.len() == units.len(),
        forall|i: int| 0 <= i < long.len() ==> #[trigger] long[i],
    ensures
        start_coded(units) == nal::joined(units, long),
    decreases units.len(),
{
    if units.len() > 0 {
        assert forall|i: int| 0 <= i < long.drop_last().len() implies #[trigger] long.drop_last()[i] by {
            assert(long.drop_last()[i] == long[i]);
        }
        lemma_start_coded(units.drop_last(), long.drop_last());
        lemma_joined_last(units, long);
        assert(long[long.len() - 1]);
    } else {
        assert(nal::joined(units, long) =~= Seq::<u8>::empty());
    }
}

/// What a decoder that reads start codes finds in an access unit are its units, all of
/// them and in their order.
pub proof fn law_start_codes_separate_the_units(units: Seq<Seq<u8>>)
    requires
        forall|i: int|
            0 <= i < units.len() ==> (#[trigger] units[i]).len() > 0 && nal::is_free_of_codes(
                units[i],
            ),
    ensures
        nal::annex_b(start_coded(units)) == units,
{
    let long = Seq::new(units.len(), |i: int| true);
    lemma_start_coded(units, long);
    nal::law_split_undoes_joining(Seq::empty(), units, long);
    assert(Seq::<u8>::empty() + nal::joined(units, long) =~= nal::joined(units, long));
}

} // verus!
