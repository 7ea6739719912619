//! Storage buffers of the decode shader: how large they are kept and the bytes
//! that go into them.

use vstd::prelude::*;

verus! {

/// Byte `i` of `w`, counted from the lowest one.
pub open spec fn byte_of(w: u32, i: int) -> u8 {
    if i == 0 {
        (w % 0x100) as u8
    } else if i == 1 {
        (w / 0x100 % 0x100) as u8
    } else if i == 2 {
        (w / 0x1_0000 % 0x100) as u8
    } else {
        (w / 0x100_0000) as u8
    }
}

/// The bytes of `words`, each word with its lowest byte first or last.
pub open spec fn bytes_of(words: Seq<u32>, lowest_first: bool) -> Seq<u8> {
    Seq::new(
        4 * words.len(),
        |k: int| byte_of(words[k / 4], if lowest_first { k % 4 } else { 3 - k % 4 }),
    )
}

/// `bytemuck::cast_slice` from 32-bit words to bytes: the memory of the slice as
/// it is. It holds the four bytes of each word in order, with the lowest byte
/// first or last as the machine keeps its words; which of the two is left open.
#[verifier::external_body]
fn cast_words(words: &[u32]) -> (bytes: &[u8])
    ensures
        bytes@ == bytes_of(words@, true) || bytes@ == bytes_of(words@, false),
{
    bytemuck::cast_slice(words)
}

/// The bytes that a write of `values` puts into a buffer.
pub fn upload_bytes(values: &[u32]) -> (bytes: &[u8])
    ensures
        bytes@ == bytes_of(values@, true) || bytes@ == bytes_of(values@, false),
{
    cast_words(values)
}

/// The word with the bits of the signed number `n`.
pub open spec fn unsigned_word(n: i32) -> u32 {
    if n >= 0 {
        n as u32
    } else {
        (n + 0x1_0000_0000) as u32
    }
}

/// The words with the bits of signed numbers.
pub fn words_of(numbers: &[i32]) -> (words: Vec<u32>)
    ensures
        words@ == numbers@.map_values(|n: i32| unsigned_word(n)),
{
    let mut words: Vec<u32> = Vec::new();
    for i in 0..numbers.len()
        invariant
            words@ == numbers@.take(i as int).map_values(|n: i32| unsigned_word(n)),
    {
        let n: i32 = numbers[i];
        let w: u32 = if n >= 0 { n as u32 } else { (n as i64 + 0x1_0000_0000) as u32 };
        words.push(w);
        assert(words@ =~= numbers@.take(i as int + 1).map_values(|n: i32| unsigned_word(n)));
    }
    assert(numbers@.take(numbers@.len() as int) =~= numbers@);
    words
}

/// The bytes that a buffer has to hold for a write of `len` bytes.
pub open spec fn needed_capacity(len: nat) -> nat {
    if len < 4 {
        4
    } else {
        len
    }
}

/// Whether a buffer has to be made anew.
pub open spec fn must_grow(capacity: Option<u64>, needed: nat) -> bool {
    match capacity {
        None => true,
        Some(c) => c < needed,
    }
}

/// A capacity and a quarter of it, cut off at the largest one.
pub open spec fn grown(capacity: u64) -> nat {
    if capacity + capacity / 4 > u64::MAX {
        u64::MAX as nat
    } else {
        (capacity + capacity / 4) as nat
    }
}

/// The capacity after a write of `needed` bytes: a buffer that is too small
/// grows by at least a quarter.
pub open spec fn capacity_after(capacity: Option<u64>, needed: nat) -> nat {
    match capacity {
        None => needed,
        Some(c) => if c >= needed {
            c as nat
        } else if grown(c) > needed {
            grown(c)
        } else {
            needed
        },
    }
}

/// A write into a storage buffer.
#[derive(Debug)]
pub struct StorageWrite<'a> {
    /// Whether the buffer has to be made anew, with the new capacity.
    pub recreated: bool,
    /// What goes into it.
    pub bytes: &'a [u8],
}

/// Plans a write of `values` into the buffer whose capacity is in `slot`.
pub fn write_storage_buffer<'a>(slot: &mut Option<u64>, values: &'a [u32]) -> (write: StorageWrite<
    'a,
>)
    ensures
        write.bytes@ == bytes_of(values@, true) || write.bytes@ == bytes_of(values@, false),
        write.recreated == must_grow(*old(slot), needed_capacity(4 * values@.len())),
        *final(slot) == Some(
            capacity_after(*old(slot), needed_capacity(4 * values@.len())) as u64,
        ),
        capacity_after(*old(slot), needed_capacity(4 * values@.len())) <= u64::MAX,
{
    let bytes = cast_words(values);
    let len: u64 = bytes.len() as u64;
    let needed: u64 = if len < 4 { 4 } else { len };
    let recreated = match *slot {
        None => true,
        Some(capacity) => capacity < needed,
    };
    if recreated {
        let capacity: u64 = match *slot {
            None => needed,
            Some(capacity) => {
                let larger: u64 = capacity.saturating_add(capacity / 4);
                if larger > needed {
                    larger
                } else {
                    needed
                }
            },
        };
        *slot = Some(capacity);
    }
    StorageWrite { recreated, bytes }
}

/// A buffer always holds what is written into it, and never shrinks.
pub proof fn law_buffer_holds_the_write(capacity: Option<u64>, needed: nat)
    requires
        needed <= u64::MAX,
    ensures
        capacity_after(capacity, needed) >= needed,
        capacity matches Some(c) ==> capacity_after(capacity, needed) >= c,
        capacity_after(capacity, needed) <= u64::MAX,
{
}

/// A buffer is made anew exactly if there is none or it is too small. A new one is
/// as large as what is written; one that was too small grows by at least a quarter,
/// and one that is large enough stays as it is.
pub proof fn law_buffers_grow_by_a_quarter(capacity: Option<u64>, len: nat)
    requires
        needed_capacity(len) <= u64::MAX,
    ensures
        needed_capacity(len) >= 4,
        needed_capacity(len) >= len,
        len >= 4 ==> needed_capacity(len) == len,
        capacity is None ==> must_grow(capacity, needed_capacity(len)) && capacity_after(
            capacity,
            needed_capacity(len),
        ) == needed_capacity(len),
        capacity matches Some(c) ==> {
            let after = capacity_after(capacity, needed_capacity(len));
            &&& must_grow(capacity, needed_capacity(len)) <==> after != c
            &&& c >= needed_capacity(len) <==> after == c
            &&& after > c && after < u64::MAX ==> after >= c + c / 4
        },
{
}

/// The bytes of a buffer give back its words: read with the lowest byte first or
/// last, as they were written, the four bytes at the place of a word are that word.
pub proof fn law_bytes_hold_the_words(words: Seq<u32>, k: int)
    requires
        0 <= k < words.len(),
    ensures
        bytes_of(words, true).len() == 4 * words.len(),
        bytes_of(words, false).len() == 4 * words.len(),
        ({
            let b = bytes_of(words, true);
            b[4 * k] + 0x100 * b[4 * k + 1] + 0x1_0000 * b[4 * k + 2] + 0x100_0000 * b[4 * k + 3]
                == words[k]
        }),
        ({
            let b = bytes_of(words, false);
            b[4 * k + 3] + 0x100 * b[4 * k + 2] + 0x1_0000 * b[4 * k + 1] + 0x100_0000 * b[4 * k]
                == words[k]
        }),
{
    assert((4 * k) / 4 == k && (4 * k) % 4 == 0);
    assert((4 * k + 1) / 4 == k && (4 * k + 1) % 4 == 1);
    assert((4 * k + 2) / 4 == k && (4 * k + 2) % 4 == 2);
    assert((4 * k + 3) / 4 == k && (4 * k + 3) % 4 == 3);
}

/// A signed number and its word differ by whole turns of 32 bits.
pub proof fn law_signed_numbers_keep_their_bits(n: i32)
    ensures
        unsigned_word(n) as int == n as int % 0x1_0000_0000,
{
}

} // verus!
