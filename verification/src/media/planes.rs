//! Copies of image rows: out of padded planes, and into packed ones.

use vstd::prelude::*;

verus! {

/// The first `rows` rows of `row_bytes` bytes each, the first of which begins at
/// `first` and each `stride` bytes behind the one before.
pub open spec fn rows_of(src: Seq<u8>, first: nat, stride: nat, row_bytes: nat, rows: nat) -> Seq<
    u8,
>
    decreases rows,
{
    if rows == 0 {
        Seq::empty()
    } else {
        let begin = first + (rows - 1) * stride;
        rows_of(src, first, stride, row_bytes, (rows - 1) as nat) + src.subrange(
            begin as int,
            begin + row_bytes,
        )
    }
}

/// Whether all of these rows lie in `len` bytes.
pub open spec fn rows_inside(len: nat, first: nat, stride: nat, row_bytes: nat, rows: nat) -> bool {
    rows > 0 ==> first + (rows - 1) * stride + row_bytes <= len
}

/// Appends `src` from `begin` up to `end`.
pub fn push_range(out: &mut Vec<u8>, src: &[u8], begin: usize, end: usize)
    requires
        begin <= end <= src@.len(),
    ensures
        final(out)@ == old(out)@ + src@.subrange(begin as int, end as int),
{
    let ghost before = out@;
    let ghost part = src@.subrange(begin as int, end as int);
    let mut i: usize = begin;
    assert(part.take(0) =~= Seq::<u8>::empty());
    while i < end
        invariant
            begin <= i <= end <= src@.len(),
            part == src@.subrange(begin as int, end as int),
            out@ == before + part.take(i - begin),
        decreases end - i,
    {
        out.push(src[i]);
        assert(out@ =~= before + part.take(i - begin + 1));
        i += 1;
    }
    assert(part.take(end - begin) =~= part);
}

proof fn lemma_row_inside(len: nat, first: nat, stride: nat, row_bytes: nat, rows: nat, row: nat)
    requires
        row < rows,
        rows_inside(len, first, stride, row_bytes, rows),
    ensures
        first + row * stride + row_bytes <= len,
        rows_inside(len, first, stride, row_bytes, row),
        row * stride <= (rows - 1) * stride,
{
    assert(row * stride <= (rows - 1) * stride) by (nonlinear_arith)
        requires
            row <= rows - 1,
            0 <= stride,
    ;
    if row > 0 {
        assert((row - 1) * stride <= (rows - 1) * stride) by (nonlinear_arith)
            requires
                row - 1 <= rows - 1,
                0 <= stride,
        ;
    }
}

/// Copies rows out of a plane, one behind the other.
pub fn gather_rows(src: &[u8], first: usize, stride: usize, row_bytes: usize, rows: usize) -> (out:
    Vec<u8>)
    requires
        rows_inside(src@.len(), first as nat, stride as nat, row_bytes as nat, rows as nat),
    ensures
        out@ == rows_of(src@, first as nat, stride as nat, row_bytes as nat, rows as nat),
{
    let mut out: Vec<u8> = Vec::new();
    let len: usize = src.len();
    let mut row: usize = 0;
    while row < rows
        invariant
            row <= rows,
            len == src@.len(),
            rows_inside(src@.len(), first as nat, stride as nat, row_bytes as nat, rows as nat),
            out@ == rows_of(src@, first as nat, stride as nat, row_bytes as nat, row as nat),
        decreases rows - row,
    {
        proof {
            lemma_row_inside(
                src@.len(),
                first as nat,
                stride as nat,
                row_bytes as nat,
                rows as nat,
                row as nat,
            );
        }
        assert(0 <= row * stride <= len) by {
            assert(0 <= row * stride) by (nonlinear_arith)
                requires
                    0 <= row,
                    0 <= stride,
            ;
        }
        let begin: usize = first + row * stride;
        push_range(&mut out, src, begin, begin + row_bytes);
        row += 1;
    }
    out
}

/// The rows of a plane, each filled up with zeros to `padded` bytes.
pub open spec fn padded_rows(
    src: Seq<u8>,
    stride: nat,
    row_bytes: nat,
    padded: nat,
    rows: nat,
) -> Seq<u8>
    decreases rows,
{
    if rows == 0 {
        Seq::empty()
    } else {
        let begin = (rows - 1) * stride;
        padded_rows(src, stride, row_bytes, padded, (rows - 1) as nat) + src.subrange(
            begin as int,
            begin + row_bytes,
        ) + zeros(padded, row_bytes)
    }
}

/// What is missing from `bytes` to `padded` bytes, as zeros.
pub open spec fn zeros(padded: nat, bytes: nat) -> Seq<u8> {
    if padded > bytes {
        Seq::new((padded - bytes) as nat, |i: int| 0u8)
    } else {
        Seq::empty()
    }
}

fn push_zeros(out: &mut Vec<u8>, padded: usize, bytes: usize)
    ensures
        final(out)@ == old(out)@ + zeros(padded as nat, bytes as nat),
{
    let ghost before = out@;
    let ghost all = zeros(padded as nat, bytes as nat);
    let mut i: usize = bytes;
    assert(all.take(0) =~= Seq::<u8>::empty());
    while i < padded
        invariant
            bytes <= i,
            i <= padded || padded <= bytes,
            all == zeros(padded as nat, bytes as nat),
            i - bytes <= all.len(),
            out@ == before + all.take(i - bytes),
        decreases padded - i,
    {
        out.push(0);
        assert(out@ =~= before + all.take(i - bytes + 1));
        i += 1;
    }
    assert(out@ =~= before + all);
}

/// Appends the rows of a plane, each filled up with zeros.
pub fn push_padded_rows(
    out: &mut Vec<u8>,
    src: &[u8],
    stride: usize,
    row_bytes: usize,
    padded: usize,
    rows: usize,
)
    requires
        rows_inside(src@.len(), 0, stride as nat, row_bytes as nat, rows as nat),
    ensures
        final(out)@ == old(out)@ + padded_rows(
            src@,
            stride as nat,
            row_bytes as nat,
            padded as nat,
            rows as nat,
        ),
{
    let ghost before = out@;
    let len: usize = src.len();
    let mut row: usize = 0;
    assert(out@ =~= before + padded_rows(
        src@,
        stride as nat,
        row_bytes as nat,
        padded as nat,
        0,
    ));
    while row < rows
        invariant
            row <= rows,
            len == src@.len(),
            rows_inside(src@.len(), 0, stride as nat, row_bytes as nat, rows as nat),
            out@ == before + padded_rows(
                src@,
                stride as nat,
                row_bytes as nat,
                padded as nat,
                row as nat,
            ),
        decreases rows - row,
    {
        proof {
            lemma_row_inside(
                src@.len(),
                0,
                stride as nat,
                row_bytes as nat,
                rows as nat,
                row as nat,
            );
        }
        assert(0 <= row * stride) by (nonlinear_arith)
            requires
                0 <= row,
                0 <= stride,
        ;
        let begin: usize = row * stride;
        push_range(out, src, begin, begin + row_bytes);
        push_zeros(out, padded, row_bytes);
        assert(out@ =~= before + padded_rows(
            src@,
            stride as nat,
            row_bytes as nat,
            padded as nat,
            row as nat + 1,
        ));
        row += 1;
    }
}

/// Gathered rows have the length of all rows together, and each byte of row
/// `row` stands at its place.
pub proof fn law_gathered_rows(
    src: Seq<u8>,
    first: nat,
    stride: nat,
    row_bytes: nat,
    rows: nat,
    row: nat,
    column: nat,
)
    requires
        rows_inside(src.len(), first, stride, row_bytes, rows),
        row < rows,
        column < row_bytes,
    ensures
        rows_of(src, first, stride, row_bytes, rows).len() == rows * row_bytes,
        row * row_bytes + column < rows * row_bytes,
        rows_of(src, first, stride, row_bytes, rows)[(row * row_bytes + column) as int] == src[(
        first + row * stride + column) as int],
    decreases rows,
{
    let last = (rows - 1) as nat;
    lemma_row_inside(src.len(), first, stride, row_bytes, rows, last);
    lemma_row_inside(src.len(), first, stride, row_bytes, rows, row);
    lemma_rows_len(src, first, stride, row_bytes, last);
    assert(rows * row_bytes == last * row_bytes + row_bytes) by (nonlinear_arith)
        requires
            rows == last + 1,
    ;
    let all = rows_of(src, first, stride, row_bytes, rows);
    let front = rows_of(src, first, stride, row_bytes, last);
    let begin = first + last * stride;
    assert(all == front + src.subrange(begin as int, begin as int + row_bytes));
    if row == last {
        assert(all[(row * row_bytes + column) as int] == src.subrange(
            begin as int,
            begin as int + row_bytes,
        )[column as int]);
    } else {
        law_gathered_rows(src, first, stride, row_bytes, last, row, column);
    }
}

proof fn lemma_rows_len(src: Seq<u8>, first: nat, stride: nat, row_bytes: nat, rows: nat)
    requires
        rows_inside(src.len(), first, stride, row_bytes, rows),
    ensures
        rows_of(src, first, stride, row_bytes, rows).len() == rows * row_bytes,
    decreases rows,
{
    if rows > 0 {
        let last = (rows - 1) as nat;
        lemma_row_inside(src.len(), first, stride, row_bytes, rows, last);
        lemma_rows_len(src, first, stride, row_bytes, last);
        assert(rows * row_bytes == last * row_bytes + row_bytes) by (nonlinear_arith)
            requires
                rows == last + 1,
        ;
        assert(first + last * stride + row_bytes <= src.len());
    } else {
        assert(0 * row_bytes == 0);
    }
}

proof fn lemma_padded_len(src: Seq<u8>, stride: nat, row_bytes: nat, padded: nat, rows: nat)
    requires
        rows_inside(src.len(), 0, stride, row_bytes, rows),
        row_bytes <= padded,
    ensures
        padded_rows(src, stride, row_bytes, padded, rows).len() == rows * padded,
    decreases rows,
{
    if rows > 0 {
        assert((rows - 1) * stride >= 0) by (nonlinear_arith)
            requires
                rows > 0,
                stride >= 0,
        ;
        if rows > 1 {
            assert((rows - 2) * stride <= (rows - 1) * stride) by (nonlinear_arith)
                requires
                    stride >= 0,
            ;
        }
        lemma_padded_len(src, stride, row_bytes, padded, (rows - 1) as nat);
        assert(rows * padded == (rows - 1) * padded + padded) by (nonlinear_arith);
    } else {
        assert(rows * padded == 0) by (nonlinear_arith)
            requires
                rows == 0,
        ;
    }
}

/// Padded rows: each byte of a row stands at the beginning of its padded row, and the
/// rest of that is zero.
pub proof fn law_padded_rows(
    src: Seq<u8>,
    stride: nat,
    row_bytes: nat,
    padded: nat,
    rows: nat,
    row: nat,
    column: nat,
)
    requires
        rows_inside(src.len(), 0, stride, row_bytes, rows),
        row_bytes <= padded,
        row < rows,
        column < padded,
    ensures
        padded_rows(src, stride, row_bytes, padded, rows).len() == rows * padded,
        row * padded + column < rows * padded,
        padded_rows(src, stride, row_bytes, padded, rows)[(row * padded + column) as int] == if column
            < row_bytes {
            src[(row * stride + column) as int]
        } else {
            0
        },
    decreases rows,
{
    let last = (rows - 1) as nat;
    lemma_padded_len(src, stride, row_bytes, padded, rows);
    assert(last * stride >= 0) by (nonlinear_arith)
        requires
            stride >= 0,
            last >= 0,
    ;
    if rows > 1 {
        assert((rows - 2) * stride <= (rows - 1) * stride) by (nonlinear_arith)
            requires
                stride >= 0,
        ;
    }
    lemma_padded_len(src, stride, row_bytes, padded, last);
    assert(rows * padded == last * padded + padded) by (nonlinear_arith)
        requires
            rows == last + 1,
    ;
    let before = padded_rows(src, stride, row_bytes, padded, last);
    let all = padded_rows(src, stride, row_bytes, padded, rows);
    if row < last {
        assert(row * padded + padded <= last * padded) by (nonlinear_arith)
            requires
                row < last,
                padded >= 0,
        ;
        law_padded_rows(src, stride, row_bytes, padded, last, row, column);
        assert(all[(row * padded + column) as int] == before[(row * padded + column) as int]);
    } else {
        let begin = (last * stride) as int;
        let own = src.subrange(begin, begin + row_bytes);
        assert(all == before + own + zeros(padded, row_bytes));
        if column < row_bytes {
            assert(all[(row * padded + column) as int] == own[column as int]);
        } else {
            assert(all[(row * padded + column) as int] == zeros(padded, row_bytes)[column
                - row_bytes]);
        }
    }
}

/// Whether rows lie inside: the last byte of each of them does.
pub proof fn law_rows_lie_inside(
    len: nat,
    first: nat,
    stride: nat,
    row_bytes: nat,
    rows: nat,
    row: nat,
)
    requires
        row < rows,
    ensures
        rows_inside(len, first, stride, row_bytes, rows) ==> first + row * stride + row_bytes
            <= len,
        first + (rows - 1) * stride + row_bytes <= len ==> rows_inside(
            len,
            first,
            stride,
            row_bytes,
            rows,
        ),
{
    assert(row * stride <= (rows - 1) * stride) by (nonlinear_arith)
        requires
            row <= rows - 1,
            stride >= 0,
    ;
}

} // verus!
