//! H.264 bitstream helpers: the NAL units of an Annex B byte stream, and samples
//! in which every unit stands behind its length.

use vstd::prelude::*;

verus! {

/// One NAL unit carved out of a byte stream.
#[derive(Debug, Clone, Copy)]
pub struct NalUnit<'a> {
    /// NAL header byte, whose low five bits are the unit's type.
    pub header: u8,
    /// Whole NAL unit including its header byte.
    pub bytes: &'a [u8],
}

/// The type of an H.264 unit.
pub open spec fn h264_type(unit: Seq<u8>) -> u8 {
    unit[0] & 0x1f
}

/// The type of an HEVC unit.
pub open spec fn hevc_type(unit: Seq<u8>) -> u8 {
    (unit[0] >> 1) & 0x3f
}

impl NalUnit<'_> {
    /// The type of the unit.
    pub fn unit_type(&self) -> (unit_type: u8)
        ensures
            unit_type == self.header & 0x1f,
    {
        self.header & 0x1f
    }

    /// Whether the unit belongs to a picture that starts a new prediction chain.
    pub fn is_idr(&self) -> (idr: bool)
        ensures
            idr == (self.header & 0x1f == 5),
    {
        self.unit_type() == 5
    }
}

/// The length of the start code at `i`: two zeros and a one, or three zeros and a
/// one; 0 if there is none.
pub open spec fn start_code_at(data: Seq<u8>, i: int) -> int {
    if i + 3 <= data.len() && data[i] == 0 && data[i + 1] == 0 && data[i + 2] == 1 {
        3
    } else if i + 4 <= data.len() && data[i] == 0 && data[i + 1] == 0 && data[i + 2] == 0 && data[i
        + 3] == 1 {
        4
    } else {
        0
    }
}

/// Where the next start code at or behind `i` begins, or the end of the data.
pub open spec fn next_start_code(data: Seq<u8>, i: int) -> int
    decreases data.len() - i,
{
    if i >= data.len() {
        data.len() as int
    } else if start_code_at(data, i) > 0 {
        i
    } else {
        next_start_code(data, i + 1)
    }
}

/// The units behind the start codes from `i` on: each goes up to the next start
/// code or the end, and empty ones do not count.
pub open spec fn units_from(data: Seq<u8>, i: int) -> Seq<Seq<u8>>
    decreases data.len() - i,
{
    if i >= data.len() {
        Seq::empty()
    } else if start_code_at(data, i) > 0 {
        let begin = i + start_code_at(data, i);
        let end = next_start_code(data, begin);
        if begin < end {
            seq![data.subrange(begin, end)] + units_from(data, begin)
        } else {
            units_from(data, begin)
        }
    } else {
        units_from(data, i + 1)
    }
}

/// The units of a byte stream.
pub open spec fn annex_b(data: Seq<u8>) -> Seq<Seq<u8>> {
    units_from(data, 0)
}

/// What the units hold.
pub open spec fn unit_bytes(units: Seq<NalUnit<'_>>) -> Seq<Seq<u8>> {
    units.map_values(|unit: NalUnit<'_>| unit.bytes@)
}

/// Length of the start code at `at`, if there is one.
fn start_code_len(data: &[u8], at: usize) -> (len: Option<usize>)
    requires
        at <= data@.len(),
    ensures
        len is Some <==> start_code_at(data@, at as int) > 0,
        len matches Some(n) ==> n == start_code_at(data@, at as int) && at + n <= data@.len(),
{
    let left: usize = data.len() - at;
    if left >= 3 && data[at] == 0 && data[at + 1] == 0 && data[at + 2] == 1 {
        Some(3)
    } else if left >= 4 && data[at] == 0 && data[at + 1] == 0 && data[at + 2] == 0 && data[at + 3]
        == 1 {
        Some(4)
    } else {
        None
    }
}

/// Where the next start code at or behind `from` begins, or the end of the data.
fn find_start_code(data: &[u8], from: usize) -> (at: usize)
    requires
        from <= data@.len(),
    ensures
        at == next_start_code(data@, from as int),
        from <= at <= data@.len(),
{
    let mut at: usize = from;
    while at < data.len()
        invariant
            from <= at <= data@.len(),
            next_start_code(data@, at as int) == next_start_code(data@, from as int),
        decreases data@.len() - at,
    {
        if start_code_len(data, at).is_some() {
            return at;
        }
        at += 1;
    }
    at
}

proof fn lemma_next_start_code(data: Seq<u8>, i: int)
    requires
        0 <= i,
    ensures
        i <= data.len() ==> i <= next_start_code(data, i) <= data.len(),
    decreases data.len() - i,
{
    if i < data.len() && start_code_at(data, i) == 0 {
        lemma_next_start_code(data, i + 1);
    }
}

proof fn lemma_units_from_skip(data: Seq<u8>, i: int)
    requires
        0 <= i <= data.len(),
    ensures
        units_from(data, i) == units_from(data, next_start_code(data, i)),
    decreases data.len() - i,
{
    if i < data.len() && start_code_at(data, i) == 0 {
        lemma_units_from_skip(data, i + 1);
    }
}

/// The NAL units of a byte stream, in order. Bytes in front of the first start
/// code belong to no unit.
pub fn annex_b_units(data: &[u8]) -> (units: Vec<NalUnit<'_>>)
    ensures
        unit_bytes(units@) == annex_b(data@),
        forall|i: int|
            0 <= i < units@.len() ==> (#[trigger] units@[i]).bytes@.len() > 0 && units@[i].header
                == units@[i].bytes@[0],
{
    let mut units: Vec<NalUnit<'_>> = Vec::new();
    let mut cursor: usize = find_start_code(data, 0);
    proof {
        lemma_units_from_skip(data@, 0);
        lemma_code_follows(data@, 0);
        assert(unit_bytes(units@) + units_from(data@, cursor as int) =~= annex_b(data@));
    }
    while cursor < data.len()
        invariant
            cursor <= data@.len(),
            cursor < data@.len() ==> start_code_at(data@, cursor as int) > 0,
            unit_bytes(units@) + units_from(data@, cursor as int) == annex_b(data@),
            forall|i: int|
                0 <= i < units@.len() ==> (#[trigger] units@[i]).bytes@.len() > 0
                    && units@[i].header == units@[i].bytes@[0],
        decreases data@.len() - cursor,
    {
        let prefix: usize = match start_code_len(data, cursor) {
            Some(prefix) => prefix,
            None => 1,
        };
        let begin: usize = cursor + prefix;
        let end: usize = find_start_code(data, begin);
        proof {
            lemma_units_from_skip(data@, begin as int);
            lemma_code_follows(data@, begin as int);
        }
        let ghost before = units@;
        if begin < end {
            let bytes = vstd::slice::slice_subrange(data, begin, end);
            units.push(NalUnit { header: bytes[0], bytes });
            assert(unit_bytes(units@) =~= unit_bytes(before).push(
                data@.subrange(begin as int, end as int),
            ));
        }
        assert(unit_bytes(units@) + units_from(data@, end as int) =~= unit_bytes(before)
            + units_from(data@, cursor as int));
        cursor = end;
    }
    assert(unit_bytes(units@) =~= annex_b(data@));
    units
}

proof fn lemma_code_follows(data: Seq<u8>, i: int)
    requires
        0 <= i <= data.len(),
    ensures
        next_start_code(data, i) < data.len() ==> start_code_at(data, next_start_code(data, i)) > 0,
    decreases data.len() - i,
{
    if i < data.len() && start_code_at(data, i) == 0 {
        lemma_code_follows(data, i + 1);
    }
}

/// A length in four bytes, the highest first.
pub open spec fn length_prefix(n: nat) -> Seq<u8> {
    seq![
        (n / 0x100_0000 % 0x100) as u8,
        (n / 0x1_0000 % 0x100) as u8,
        (n / 0x100 % 0x100) as u8,
        (n % 0x100) as u8,
    ]
}

/// The units one after another, each behind its length.
pub open spec fn length_prefixed(units: Seq<Seq<u8>>) -> Seq<u8>
    decreases units.len(),
{
    if units.len() == 0 {
        Seq::empty()
    } else {
        length_prefixed(units.drop_last()) + length_prefix(units.last().len()) + units.last()
    }
}

/// The units whose type is not left out.
pub open spec fn kept(units: Seq<Seq<u8>>, skip: spec_fn(u8) -> bool) -> Seq<Seq<u8>>
    decreases units.len(),
{
    if units.len() == 0 {
        Seq::empty()
    } else if skip(h264_type(units.last())) {
        kept(units.drop_last(), skip)
    } else {
        kept(units.drop_last(), skip).push(units.last())
    }
}

/// Whether the length of every unit fits in its prefix.
pub open spec fn lengths_fit(units: Seq<Seq<u8>>) -> bool {
    forall|i: int| 0 <= i < units.len() ==> (#[trigger] units[i]).len() <= u32::MAX
}

/// The sample for a byte stream without the units of the types that `skip`
/// names; `None` if no unit is left, or one is too long.
pub open spec fn sample_without(data: Seq<u8>, skip: spec_fn(u8) -> bool) -> Option<Seq<u8>> {
    let units = kept(annex_b(data), skip);
    if units.len() > 0 && lengths_fit(units) {
        Some(length_prefixed(units))
    } else {
        None
    }
}

/// Whether `f` computes the predicate `p`.
pub open spec fn computes<F: Fn(u8) -> bool>(f: F, p: spec_fn(u8) -> bool) -> bool {
    forall|t: u8, answer: bool| f.ensures((t,), answer) ==> answer == p(t)
}

/// The view of an optional sample.
pub open spec fn bytes_view(bytes: Option<Vec<u8>>) -> Option<Seq<u8>> {
    match bytes {
        Some(b) => Some(b@),
        None => None,
    }
}

/// Appends a length in four bytes, the highest first.
pub fn push_length(output: &mut Vec<u8>, length: u32)
    ensures
        final(output)@ == old(output)@ + length_prefix(length as nat),
{
    output.push((length / 0x100_0000 % 0x100) as u8);
    output.push((length / 0x1_0000 % 0x100) as u8);
    output.push((length / 0x100 % 0x100) as u8);
    output.push((length % 0x100) as u8);
    assert(output@ =~= old(output)@ + length_prefix(length as nat));
}

/// Appends a copy of `bytes`.
pub fn push_bytes(output: &mut Vec<u8>, bytes: &[u8])
    ensures
        final(output)@ == old(output)@ + bytes@,
{
    let ghost before = output@;
    for i in 0..bytes.len()
        invariant
            output@ == before + bytes@.take(i as int),
    {
        output.push(bytes[i]);
        assert(output@ =~= before + bytes@.take(i as int + 1));
    }
    assert(bytes@.take(bytes@.len() as int) =~= bytes@);
}

/// A copy of `bytes`.
pub fn copy_bytes(bytes: &[u8]) -> (copy: Vec<u8>)
    ensures
        copy@ == bytes@,
{
    let mut copy: Vec<u8> = Vec::new();
    push_bytes(&mut copy, bytes);
    assert(copy@ =~= bytes@);
    copy
}

/// Rewrites a byte stream as a sample in which every unit stands behind its
/// length. `None` if it holds no unit, so that nothing empty is ever written.
pub fn to_avcc(data: &[u8]) -> (sample: Option<Vec<u8>>)
    ensures
        bytes_view(sample) == if annex_b(data@).len() > 0 && lengths_fit(annex_b(data@)) {
            Some(length_prefixed(annex_b(data@)))
        } else {
            None::<Seq<u8>>
        },
{
    let keep_all = |unit_type: u8| -> (skip: bool)
        ensures
            !skip,
        { false };
    let sample = to_avcc_skipping(data, keep_all);
    proof {
        let nothing = |t: u8| false;
        assert(computes(keep_all, nothing));
        lemma_kept_all(annex_b(data@), nothing);
    }
    sample
}

proof fn lemma_kept_all(units: Seq<Seq<u8>>, skip: spec_fn(u8) -> bool)
    requires
        forall|t: u8| !(#[trigger] skip(t)),
    ensures
        kept(units, skip) == units,
    decreases units.len(),
{
    if units.len() > 0 {
        lemma_kept_all(units.drop_last(), skip);
        assert(units =~= units.drop_last().push(units.last()));
    }
}

/// Rewrites a byte stream as a sample, leaving out the units whose type `skip`
/// selects.
pub fn to_avcc_skipping<F: Fn(u8) -> bool>(data: &[u8], skip: F) -> (sample: Option<Vec<u8>>)
    requires
        forall|t: u8| skip.requires((t,)),
    ensures
        forall|p: spec_fn(u8) -> bool|
            #[trigger] computes(skip, p) ==> bytes_view(sample) == sample_without(data@, p),
{
    let units = annex_b_units(data);
    let ghost all = annex_b(data@);
    let mut output: Vec<u8> = Vec::new();
    let mut written: bool = false;
    assert(all.take(0) =~= Seq::<Seq<u8>>::empty());
    for i in 0..units.len()
        invariant
            forall|t: u8| skip.requires((t,)),
            all == annex_b(data@),
            unit_bytes(units@) == all,
            forall|i: int|
                0 <= i < units@.len() ==> (#[trigger] units@[i]).bytes@.len() > 0
                    && units@[i].header == units@[i].bytes@[0],
            forall|p: spec_fn(u8) -> bool| #[trigger]
                computes(skip, p) ==> {
                    let so_far = kept(all.take(i as int), p);
                    &&& output@ == length_prefixed(so_far)
                    &&& lengths_fit(so_far)
                    &&& written == (so_far.len() > 0)
                },
    {
        let unit = units[i];
        let unit_type: u8 = unit.unit_type();
        assert(all[i as int] == unit.bytes@);
        assert(all.take(i as int + 1).drop_last() =~= all.take(i as int));
        let ghost before = output@;
        let leave_out = skip(unit_type);
        if !leave_out {
            if unit.bytes.len() as u64 > u32::MAX as u64 {
                proof {
                    assert forall|p: spec_fn(u8) -> bool| #[trigger] computes(
                        skip,
                        p,
                    ) implies sample_without(data@, p) is None by {
                        let so_far = kept(all.take(i as int + 1), p);
                        assert(so_far.last() == unit.bytes@);
                        assert(!lengths_fit(so_far)) by {
                            assert(so_far[so_far.len() - 1].len() > u32::MAX);
                        }
                        lemma_kept_prefix(all, p, i as int + 1, all.len() as int);
                        let whole = kept(all, p);
                        assert(all.take(all.len() as int) =~= all);
                        assert(whole[so_far.len() - 1] == so_far[so_far.len() - 1]);
                        assert(!lengths_fit(whole));
                    }
                }
                return None;
            }
            push_length(&mut output, unit.bytes.len() as u32);
            push_bytes(&mut output, unit.bytes);
            written = true;
            assert(output@ =~= before + length_prefix(unit.bytes@.len()) + unit.bytes@);
            assert forall|p: spec_fn(u8) -> bool| #[trigger] computes(skip, p) implies {
                let so_far = kept(all.take(i as int + 1), p);
                &&& output@ == length_prefixed(so_far)
                &&& lengths_fit(so_far)
                &&& written == (so_far.len() > 0)
            } by {
                let earlier = kept(all.take(i as int), p);
                let so_far = kept(all.take(i as int + 1), p);
                assert(so_far == earlier.push(unit.bytes@));
                assert(so_far.drop_last() =~= earlier);
            }
        }
    }
    assert(all.take(all.len() as int) =~= all);
    if written {
        Some(output)
    } else {
        None
    }
}

proof fn lemma_kept_prefix(units: Seq<Seq<u8>>, skip: spec_fn(u8) -> bool, from: int, to: int)
    requires
        0 <= from <= to <= units.len(),
    ensures
        kept(units.take(from), skip).len() <= kept(units.take(to), skip).len(),
        forall|i: int|
            0 <= i < kept(units.take(from), skip).len() ==> #[trigger] kept(units.take(to), skip)[i]
                == kept(units.take(from), skip)[i],
    decreases to - from,
{
    if from < to {
        lemma_kept_prefix(units, skip, from, to - 1);
        assert(units.take(to).drop_last() =~= units.take(to - 1));
    }
}

/// Whether a byte stream holds a picture that starts a new prediction chain.
pub fn annex_b_is_sync(data: &[u8]) -> (sync: bool)
    ensures
        sync == exists|i: int|
            0 <= i < annex_b(data@).len() && h264_type(#[trigger] annex_b(data@)[i]) == 5,
{
    let units = annex_b_units(data);
    for i in 0..units.len()
        invariant
            unit_bytes(units@) == annex_b(data@),
            forall|i: int|
                0 <= i < units@.len() ==> (#[trigger] units@[i]).bytes@.len() > 0
                    && units@[i].header == units@[i].bytes@[0],
            forall|k: int| 0 <= k < i ==> h264_type(#[trigger] annex_b(data@)[k]) != 5,
    {
        assert(annex_b(data@)[i as int] == units@[i as int].bytes@);
        if units[i].is_idr() {
            return true;
        }
    }
    assert(annex_b(data@).len() == units@.len());
    false
}

/// The type of a unit of either codec.
pub open spec fn unit_type_of(unit: Seq<u8>, is_hevc: bool) -> u8 {
    if is_hevc {
        hevc_type(unit)
    } else {
        h264_type(unit)
    }
}

/// The last of `units` that is of the given type.
pub open spec fn last_of_type(units: Seq<Seq<u8>>, is_hevc: bool, unit_type: u8) -> Option<Seq<u8>>
    decreases units.len(),
{
    if units.len() == 0 {
        None
    } else if unit_type_of(units.last(), is_hevc) == unit_type {
        Some(units.last())
    } else {
        last_of_type(units.drop_last(), is_hevc, unit_type)
    }
}

/// The type of the sequence parameter set of a codec.
pub open spec fn sps_type(is_hevc: bool) -> u8 {
    if is_hevc {
        33
    } else {
        7
    }
}

/// The type of the picture parameter set of a codec.
pub open spec fn pps_type(is_hevc: bool) -> u8 {
    if is_hevc {
        34
    } else {
        8
    }
}

/// The last sequence and the last picture parameter set of a byte stream.
pub fn parameter_sets(data: &[u8], is_hevc: bool) -> (sets: (Option<Vec<u8>>, Option<Vec<u8>>))
    ensures
        bytes_view(sets.0) == last_of_type(annex_b(data@), is_hevc, sps_type(is_hevc)),
        bytes_view(sets.1) == last_of_type(annex_b(data@), is_hevc, pps_type(is_hevc)),
{
    let units = annex_b_units(data);
    let ghost all = annex_b(data@);
    let mut sps: Option<Vec<u8>> = None;
    let mut pps: Option<Vec<u8>> = None;
    let sequence: u8 = if is_hevc { 33 } else { 7 };
    let picture: u8 = if is_hevc { 34 } else { 8 };
    assert(all.take(0) =~= Seq::<Seq<u8>>::empty());
    for i in 0..units.len()
        invariant
            all == annex_b(data@),
            unit_bytes(units@) == all,
            sequence == sps_type(is_hevc),
            picture == pps_type(is_hevc),
            forall|i: int|
                0 <= i < units@.len() ==> (#[trigger] units@[i]).bytes@.len() > 0
                    && units@[i].header == units@[i].bytes@[0],
            bytes_view(sps) == last_of_type(all.take(i as int), is_hevc, sequence),
            bytes_view(pps) == last_of_type(all.take(i as int), is_hevc, picture),
    {
        let unit = units[i];
        assert(all[i as int] == unit.bytes@);
        assert(all.take(i as int + 1).drop_last() =~= all.take(i as int));
        let unit_type: u8 = if is_hevc { (unit.header >> 1) & 0x3f } else { unit.unit_type() };
        if unit_type == sequence {
            sps = Some(copy_bytes(unit.bytes));
        } else if unit_type == picture {
            pps = Some(copy_bytes(unit.bytes));
        }
    }
    assert(all.take(all.len() as int) =~= all);
    (sps, pps)
}

/// The length that stands in the four bytes at `i`.
pub open spec fn length_at(sample: Seq<u8>, i: int) -> nat {
    (sample[i] * 0x100_0000 + sample[i + 1] * 0x1_0000 + sample[i + 2] * 0x100 + sample[i
        + 3]) as nat
}

/// The units of a sample from `i` on, if it is made of whole units.
pub open spec fn sample_units(sample: Seq<u8>, i: int) -> Option<Seq<Seq<u8>>>
    decreases sample.len() - i,
{
    if i == sample.len() {
        Some(Seq::empty())
    } else if i + 4 > sample.len() || i + 4 + length_at(sample, i) > sample.len() {
        None
    } else {
        let end = i + 4 + length_at(sample, i);
        match sample_units(sample, end) {
            Some(rest) => Some(seq![sample.subrange(i + 4, end)] + rest),
            None => None,
        }
    }
}

proof fn lemma_length_prefix(n: nat)
    requires
        n <= u32::MAX,
    ensures
        length_prefix(n).len() == 4,
        length_at(length_prefix(n), 0) == n,
{
    let p = length_prefix(n);
    assert(p[0] * 0x100_0000 + p[1] * 0x1_0000 + p[2] * 0x100 + p[3] == n) by {
        assert(n / 0x100_0000 % 0x100 == n / 0x100_0000);
    }
}

proof fn lemma_sample_units(units: Seq<Seq<u8>>, count: int)
    requires
        0 <= count <= units.len(),
        lengths_fit(units),
    ensures
        sample_units(length_prefixed(units), length_prefixed(units.take(count)).len() as int)
            == Some(units.skip(count)),
        length_prefixed(units.take(count)).len() <= length_prefixed(units).len(),
    decreases units.len() - count,
{
    let sample = length_prefixed(units);
    let front = length_prefixed(units.take(count));
    if count == units.len() {
        assert(units.take(count) =~= units);
        assert(units.skip(count) =~= Seq::<Seq<u8>>::empty());
    } else {
        lemma_sample_units(units, count + 1);
        let unit = units[count];
        let through = length_prefixed(units.take(count + 1));
        assert(units.take(count + 1).drop_last() =~= units.take(count));
        assert(through == front + length_prefix(unit.len()) + unit);
        lemma_prefixed_front(units, count + 1);
        lemma_length_prefix(unit.len());
        let i = front.len() as int;
        assert(sample.subrange(0, through.len() as int) == through);
        assert forall|k: int| 0 <= k < through.len() implies sample[k] == through[k] by {
            assert(sample.subrange(0, through.len() as int)[k] == sample[k]);
        }
        assert(length_at(sample, i) == unit.len()) by {
            let p = length_prefix(unit.len());
            assert(sample[i] == p[0]);
            assert(sample[i + 1] == p[1]);
            assert(sample[i + 2] == p[2]);
            assert(sample[i + 3] == p[3]);
        }
        let end = i + 4 + unit.len();
        assert(end == through.len());
        assert(sample.subrange(i + 4, end) =~= unit);
        assert(seq![unit] + units.skip(count + 1) =~= units.skip(count));
    }
}

proof fn lemma_prefixed_front(units: Seq<Seq<u8>>, count: int)
    requires
        0 <= count <= units.len(),
    ensures
        length_prefixed(units.take(count)).len() <= length_prefixed(units).len(),
        length_prefixed(units).subrange(0, length_prefixed(units.take(count)).len() as int)
            == length_prefixed(units.take(count)),
    decreases units.len() - count,
{
    let front = length_prefixed(units.take(count));
    if count == units.len() {
        assert(units.take(count) =~= units);
        assert(front.subrange(0, front.len() as int) =~= front);
    } else {
        lemma_prefixed_front(units, count + 1);
        assert(units.take(count + 1).drop_last() =~= units.take(count));
        let through = length_prefixed(units.take(count + 1));
        let whole = length_prefixed(units);
        assert(whole.subrange(0, front.len() as int) =~= through.subrange(0, front.len() as int));
        assert(through.subrange(0, front.len() as int) =~= front);
    }
}

/// Reading a sample by its lengths gives back the units that it was made of.
pub proof fn law_sample_holds_its_units(units: Seq<Seq<u8>>)
    requires
        lengths_fit(units),
    ensures
        sample_units(length_prefixed(units), 0) == Some(units),
{
    lemma_sample_units(units, 0);
    assert(units.take(0) =~= Seq::<Seq<u8>>::empty());
    assert(units.skip(0) =~= units);
}

proof fn lemma_unit_from(data: Seq<u8>, i: int, k: int)
    requires
        0 <= i <= data.len(),
        0 <= k < units_from(data, i).len(),
    ensures
        exists|begin: int, end: int|
            0 <= begin < end <= data.len() && #[trigger] data.subrange(begin, end) == units_from(
                data,
                i,
            )[k] && forall|j: int| begin <= j < end ==> start_code_at(data, j) == 0,
    decreases data.len() - i,
{
    if i < data.len() {
        if start_code_at(data, i) > 0 {
            let begin = i + start_code_at(data, i);
            let end = next_start_code(data, begin);
            lemma_next_start_code(data, begin);
            if begin < end {
                let rest = units_from(data, begin);
                if k == 0 {
                    lemma_no_code_before(data, begin);
                    assert(units_from(data, i)[0] == data.subrange(begin, end));
                } else {
                    assert(units_from(data, i)[k] == rest[k - 1]);
                    lemma_unit_from(data, begin, k - 1);
                }
            } else {
                lemma_unit_from(data, begin, k);
            }
        } else {
            lemma_unit_from(data, i + 1, k);
        }
    }
}

proof fn lemma_no_code_before(data: Seq<u8>, i: int)
    requires
        0 <= i <= data.len(),
    ensures
        forall|j: int| i <= j < next_start_code(data, i) ==> start_code_at(data, j) == 0,
    decreases data.len() - i,
{
    if i < data.len() && start_code_at(data, i) == 0 {
        lemma_no_code_before(data, i + 1);
    }
}

/// No unit of a byte stream holds a start code: two zeros and a one stand nowhere in
/// it, so that none has swallowed the one behind it.
pub proof fn law_units_hold_no_start_code(data: Seq<u8>, k: int, i: int)
    requires
        0 <= k < annex_b(data).len(),
        0 <= i,
        i + 3 <= annex_b(data)[k].len(),
    ensures
        ({
            let unit = annex_b(data)[k];
            !(unit[i] == 0 && unit[i + 1] == 0 && unit[i + 2] == 1)
        }),
{
    lemma_unit_from(data, 0, k);
    let unit = annex_b(data)[k];
    let (begin, end) = choose|begin: int, end: int|
        0 <= begin < end <= data.len() && #[trigger] data.subrange(begin, end) == unit && forall|
            j: int,
        | begin <= j < end ==> start_code_at(data, j) == 0;
    assert(start_code_at(data, begin + i) == 0);
    assert(unit[i] == data[begin + i]);
    assert(unit[i + 1] == data[begin + i + 1]);
    assert(unit[i + 2] == data[begin + i + 2]);
}

/// A start code of four bytes, or one of three.
pub open spec fn start_code(long: bool) -> Seq<u8> {
    if long {
        seq![0u8, 0, 0, 1]
    } else {
        seq![0u8, 0, 1]
    }
}

/// Units one after another, each behind a start code of three or four bytes.
pub open spec fn joined(units: Seq<Seq<u8>>, long: Seq<bool>) -> Seq<u8>
    decreases units.len(),
{
    if units.len() == 0 {
        Seq::empty()
    } else {
        start_code(long[0]) + units[0] + joined(units.drop_first(), long.drop_first())
    }
}

/// Whether bytes can stand between start codes: they hold none, and do not end in a
/// zero, which would count for the code behind them.
pub open spec fn is_free_of_codes(bytes: Seq<u8>) -> bool {
    &&& bytes.len() > 0 ==> bytes.last() != 0
    &&& forall|i: int|
        0 <= i && i + 3 <= bytes.len() ==> !(#[trigger] bytes[i] == 0 && bytes[i + 1] == 0 && bytes[i
            + 2] == 1)
}

proof fn lemma_shift_code(front: Seq<u8>, data: Seq<u8>, i: int)
    requires
        0 <= i,
    ensures
        start_code_at(front + data, front.len() + i) == start_code_at(data, i),
{
    let all = front + data;
    let at = front.len() + i;
    if i + 3 <= data.len() {
        assert(all[at] == data[i] && all[at + 1] == data[i + 1] && all[at + 2] == data[i + 2]);
    }
    if i + 4 <= data.len() {
        assert(all[at + 3] == data[i + 3]);
    }
}

proof fn lemma_shift_next(front: Seq<u8>, data: Seq<u8>, i: int)
    requires
        0 <= i <= data.len(),
    ensures
        next_start_code(front + data, front.len() + i) == front.len() + next_start_code(data, i),
    decreases data.len() - i,
{
    lemma_shift_code(front, data, i);
    if i < data.len() && start_code_at(data, i) == 0 {
        lemma_shift_next(front, data, i + 1);
    }
}

proof fn lemma_shift_units(front: Seq<u8>, data: Seq<u8>, i: int)
    requires
        0 <= i <= data.len(),
    ensures
        units_from(front + data, front.len() + i) == units_from(data, i),
    decreases data.len() - i,
{
    let all = front + data;
    lemma_shift_code(front, data, i);
    if i < data.len() {
        if start_code_at(data, i) > 0 {
            let begin = i + start_code_at(data, i);
            lemma_shift_next(front, data, begin);
            lemma_shift_units(front, data, begin);
            lemma_next_start_code(data, begin);
            let end = next_start_code(data, begin);
            if begin < end {
                assert(all.subrange(front.len() + begin, front.len() + end) =~= data.subrange(
                    begin,
                    end,
                ));
            }
        } else {
            lemma_shift_units(front, data, i + 1);
        }
    }
}

proof fn lemma_skip_to(data: Seq<u8>, from: int, to: int)
    requires
        0 <= from <= to <= data.len(),
        forall|j: int| from <= j < to ==> start_code_at(data, j) == 0,
        to < data.len() ==> start_code_at(data, to) > 0,
    ensures
        next_start_code(data, from) == to,
    decreases to - from,
{
    if from < to {
        lemma_skip_to(data, from + 1, to);
    }
}

/// The bytes between two start codes hold none.
proof fn lemma_no_code_inside(front: Seq<u8>, bytes: Seq<u8>, behind: Seq<u8>, j: int)
    requires
        is_free_of_codes(bytes),
        0 <= j < bytes.len(),
        behind.len() > 0 ==> behind[0] == 0,
    ensures
        start_code_at(front + bytes + behind, front.len() + j) == 0,
{
    let all = front + bytes + behind;
    let at = front.len() + j;
    assert(all[at] == bytes[j]);
    if j + 3 <= bytes.len() {
        assert(all[at + 1] == bytes[j + 1] && all[at + 2] == bytes[j + 2]);
        if j + 4 <= bytes.len() {
            assert(all[at + 3] == bytes[j + 3]);
            assert(bytes[j + 1] == bytes[j + 1]);
        } else {
            assert(bytes[j + 2] == bytes.last());
        }
    } else if j + 2 == bytes.len() {
        assert(all[at + 1] == bytes.last());
    } else {
        assert(all[at] == bytes.last());
    }
}

proof fn lemma_joined(units: Seq<Seq<u8>>, long: Seq<bool>)
    requires
        long.len() == units.len(),
        forall|i: int|
            0 <= i < units.len() ==> (#[trigger] units[i]).len() > 0 && is_free_of_codes(units[i]),
    ensures
        units_from(joined(units, long), 0) == units,
        joined(units, long).len() > 0 ==> joined(units, long)[0] == 0 && start_code_at(
            joined(units, long),
            0,
        ) > 0,
        joined(units, long).len() == 0 <==> units.len() == 0,
    decreases units.len(),
{
    if units.len() > 0 {
        let data = joined(units, long);
        let code = start_code(long[0]);
        let unit = units[0];
        let rest = joined(units.drop_first(), long.drop_first());
        assert forall|i: int| 0 <= i < units.drop_first().len() implies (
        #[trigger] units.drop_first()[i]).len() > 0 && is_free_of_codes(
            units.drop_first()[i],
        ) by {
            assert(units.drop_first()[i] == units[i + 1]);
        }
        lemma_joined(units.drop_first(), long.drop_first());
        assert(data == code + unit + rest);
        assert(is_free_of_codes(unit));
        let begin = code.len() as int;
        let end = begin + unit.len();
        assert forall|j: int| 0 <= j < code.len() implies data[j] == code[j] by {}
        assert(data[0] == code[0] && data[1] == code[1] && data[2] == code[2]);
        if long[0] {
            assert(data[3] == code[3]);
        }
        assert(start_code_at(data, 0) == begin);
        assert forall|j: int| begin <= j < end implies start_code_at(data, j) == 0 by {
            lemma_no_code_inside(code, unit, rest, j - begin);
        }
        lemma_shift_code(code + unit, rest, 0);
        assert((code + unit).len() == end);
        lemma_skip_to(data, begin, end);
        lemma_units_from_skip(data, begin);
        lemma_shift_units(code + unit, rest, 0);
        assert(data.subrange(begin, end) =~= unit);
        assert(seq![unit] + units.drop_first() =~= units);
    }
}

/// Splitting undoes joining: units that are joined behind start codes of three and
/// four bytes in any mix come back, all of them and in their order, and bytes in
/// front of the first code belong to none of them.
pub proof fn law_split_undoes_joining(lead: Seq<u8>, units: Seq<Seq<u8>>, long: Seq<bool>)
    requires
        long.len() == units.len(),
        is_free_of_codes(lead),
        forall|i: int|
            0 <= i < units.len() ==> (#[trigger] units[i]).len() > 0 && is_free_of_codes(units[i]),
    ensures
        annex_b(lead + joined(units, long)) == units,
{
    let data = joined(units, long);
    let all = lead + data;
    lemma_joined(units, long);
    assert forall|j: int| 0 <= j < lead.len() implies start_code_at(all, j) == 0 by {
        lemma_no_code_inside(Seq::empty(), lead, data, j);
        assert(Seq::<u8>::empty() + lead + data =~= all);
    }
    lemma_shift_code(lead, data, 0);
    lemma_shift_units(lead, data, 0);
    lemma_skip_to(all, 0, lead.len() as int);
    lemma_units_from_skip(all, 0);
}

proof fn lemma_kept_is_filter(units: Seq<Seq<u8>>, skip: spec_fn(u8) -> bool)
    ensures
        kept(units, skip) == units.filter(|u: Seq<u8>| !skip(u[0] & 0x1f)),
    decreases units.len(),
{
    reveal(Seq::filter);
    if units.len() > 0 {
        lemma_kept_is_filter(units.drop_last(), skip);
    }
}

proof fn lemma_lengths_fit_filter(units: Seq<Seq<u8>>, skip: spec_fn(u8) -> bool)
    requires
        lengths_fit(units),
    ensures
        lengths_fit(kept(units, skip)),
    decreases units.len(),
{
    if units.len() > 0 {
        let before = units.drop_last();
        assert forall|i: int| 0 <= i < before.len() implies (#[trigger] before[i]).len()
            <= u32::MAX by {
            assert(before[i] == units[i]);
        }
        lemma_lengths_fit_filter(before, skip);
        assert(units[units.len() - 1].len() <= u32::MAX);
        let all = kept(units, skip);
        assert forall|i: int| 0 <= i < all.len() implies (#[trigger] all[i]).len() <= u32::MAX by {
            if i < kept(before, skip).len() {
                assert(all[i] == kept(before, skip)[i]);
            }
        }
    }
}

/// The sample of a byte stream holds exactly the units of the stream whose type is
/// not left out, whole and in their order; there is no sample only if none is left.
pub proof fn law_sample_holds_the_units_of_the_stream(
    lead: Seq<u8>,
    units: Seq<Seq<u8>>,
    long: Seq<bool>,
    skip: spec_fn(u8) -> bool,
)
    requires
        long.len() == units.len(),
        is_free_of_codes(lead),
        forall|i: int|
            0 <= i < units.len() ==> (#[trigger] units[i]).len() > 0 && is_free_of_codes(units[i]),
        forall|i: int| 0 <= i < units.len() ==> (#[trigger] units[i]).len() <= u32::MAX,
    ensures
        ({
            let left = units.filter(|u: Seq<u8>| !skip(u[0] & 0x1f));
            match sample_without(lead + joined(units, long), skip) {
                Some(sample) => left.len() > 0 && sample_units(sample, 0) == Some(left),
                None => left.len() == 0,
            }
        }),
{
    law_split_undoes_joining(lead, units, long);
    lemma_kept_is_filter(units, skip);
    lemma_lengths_fit_filter(units, skip);
    law_sample_holds_its_units(kept(units, skip));
}

/// A length stands in four bytes, the highest first.
pub proof fn law_lengths_stand_highest_first(n: nat)
    requires
        n <= u32::MAX,
    ensures
        length_prefix(n).len() == 4,
        ({
            let p = length_prefix(n);
            p[0] * 0x100_0000 + p[1] * 0x1_0000 + p[2] * 0x100 + p[3] == n
        }),
        forall|sample: Seq<u8>, i: int|
            0 <= i && i + 4 <= sample.len() ==> #[trigger] length_at(sample, i) == sample[i]
                * 0x100_0000 + sample[i + 1] * 0x1_0000 + sample[i + 2] * 0x100 + sample[i + 3],
{
    lemma_length_prefix(n);
}

/// The type of a unit: the five lowest bits of its header for H.264, and the six bits
/// above the lowest one for HEVC.
pub proof fn law_types_stand_in_the_header(unit: Seq<u8>)
    ensures
        h264_type(unit) == unit[0] % 32,
        hevc_type(unit) == unit[0] / 2 % 64,
        unit_type_of(unit, false) == unit[0] % 32,
        unit_type_of(unit, true) == unit[0] / 2 % 64,
{
    let header = unit[0];
    assert(header & 0x1f == header % 32) by (bit_vector);
    assert((header >> 1) & 0x3f == header / 2 % 64) by (bit_vector);
}

proof fn lemma_last_of_type(units: Seq<Seq<u8>>, is_hevc: bool, unit_type: u8)
    ensures
        match last_of_type(units, is_hevc, unit_type) {
            Some(u) => exists|k: int|
                0 <= k < units.len() && #[trigger] units[k] == u && unit_type_of(u, is_hevc)
                    == unit_type && forall|j: int|
                    k < j < units.len() ==> unit_type_of(#[trigger] units[j], is_hevc) != unit_type,
            None => forall|j: int|
                0 <= j < units.len() ==> unit_type_of(#[trigger] units[j], is_hevc) != unit_type,
        },
    decreases units.len(),
{
    if units.len() > 0 {
        let n = units.len() - 1;
        lemma_last_of_type(units.drop_last(), is_hevc, unit_type);
        if unit_type_of(units.last(), is_hevc) == unit_type {
            assert(units[n] == units.last());
        } else {
            match last_of_type(units.drop_last(), is_hevc, unit_type) {
                Some(u) => {
                    let k = choose|k: int|
                        0 <= k < n && #[trigger] units.drop_last()[k] == u && unit_type_of(
                            u,
                            is_hevc,
                        ) == unit_type && forall|j: int|
                            k < j < n ==> unit_type_of(#[trigger] units.drop_last()[j], is_hevc)
                                != unit_type;
                    assert(units[k] == u);
                    assert forall|j: int| k < j < units.len() implies unit_type_of(
                        #[trigger] units[j],
                        is_hevc,
                    ) != unit_type by {
                        if j < n {
                            assert(units.drop_last()[j] == units[j]);
                        }
                    }
                },
                None => {
                    assert forall|j: int| 0 <= j < units.len() implies unit_type_of(
                        #[trigger] units[j],
                        is_hevc,
                    ) != unit_type by {
                        if j < n {
                            assert(units.drop_last()[j] == units[j]);
                        }
                    }
                },
            }
        }
    }
}

/// The parameter sets of a stream are the last ones in it: of H.264 the units of the
/// types 7 and 8, of HEVC those of the types 33 and 34.
pub proof fn law_last_parameter_sets_count(units: Seq<Seq<u8>>, k: int)
    requires
        0 <= k < units.len(),
    ensures
        units[k][0] % 32 == 7 && (forall|j: int|
            k < j < units.len() ==> (#[trigger] units[j])[0] % 32 != 7) ==> last_of_type(
            units,
            false,
            sps_type(false),
        ) == Some(units[k]),
        units[k][0] % 32 == 8 && (forall|j: int|
            k < j < units.len() ==> (#[trigger] units[j])[0] % 32 != 8) ==> last_of_type(
            units,
            false,
            pps_type(false),
        ) == Some(units[k]),
        units[k][0] / 2 % 64 == 33 && (forall|j: int|
            k < j < units.len() ==> (#[trigger] units[j])[0] / 2 % 64 != 33) ==> last_of_type(
            units,
            true,
            sps_type(true),
        ) == Some(units[k]),
        units[k][0] / 2 % 64 == 34 && (forall|j: int|
            k < j < units.len() ==> (#[trigger] units[j])[0] / 2 % 64 != 34) ==> last_of_type(
            units,
            true,
            pps_type(true),
        ) == Some(units[k]),
{
    assert forall|j: int| 0 <= j < units.len() implies unit_type_of(#[trigger] units[j], false)
        == units[j][0] % 32 && unit_type_of(units[j], true) == units[j][0] / 2 % 64 by {
        law_types_stand_in_the_header(units[j]);
    }
    lemma_last_of_type(units, false, 7);
    lemma_last_of_type(units, false, 8);
    lemma_last_of_type(units, true, 33);
    lemma_last_of_type(units, true, 34);
}

} // verus!
