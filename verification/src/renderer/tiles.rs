//! Tiles of the adaptive codec, packed into the words that the decode shader
//! reads, and the size of its dispatch.

use vstd::prelude::*;

verus! {

/// What one tile shows.
#[derive(Debug, Clone)]
pub enum MvsGpuTile {
    /// One YCbCr sample for the whole tile.
    SolidYcbcr([u8; 3]),
    /// One RGBA pixel for the whole tile.
    SolidRgba([u8; 4]),
    /// YCbCr samples, row by row.
    PixelsYcbcr(Vec<[u8; 3]>),
    /// RGBA pixels, row by row.
    PixelsRgba(Vec<[u8; 4]>),
    /// Rice coded DCT coefficients of the three components.
    RiceDct([[i16; 64]; 3]),
    /// DCT coefficients of the three components.
    Dct([[i16; 64]; 3]),
}

/// A tile and where it goes.
#[derive(Debug, Clone)]
pub struct MvsGpuTileUpdate {
    pub x: u16,
    pub y: u16,
    pub width: u16,
    pub height: u16,
    pub tile: MvsGpuTile,
}

/// A tile to be drawn, with the luminance and the chrominance quantization that
/// its coefficients were coded with.
#[derive(Debug, Clone)]
pub struct DirtyTile {
    pub update: MvsGpuTileUpdate,
    pub quantization: [[u16; 64]; 2],
}

/// Four bytes as one word, the first one lowest.
pub open spec fn word(a: u8, b: u8, c: u8, d: u8) -> u32 {
    (a + b * 0x100 + c * 0x1_0000 + d * 0x100_0000) as u32
}

/// The signed number with the bits of `w`.
pub open spec fn signed_word(w: u32) -> i32 {
    if w <= 0x7fff_ffff {
        w as i32
    } else {
        (w - 0x1_0000_0000) as i32
    }
}

/// Four bytes as one word, the first one lowest.
fn word_of(bytes: [u8; 4]) -> (w: u32)
    ensures
        w == word(bytes[0], bytes[1], bytes[2], bytes[3]),
{
    bytes[0] as u32 + bytes[1] as u32 * 0x100 + bytes[2] as u32 * 0x1_0000 + bytes[3] as u32
        * 0x100_0000
}

/// Three samples and an alpha value as one word, the first sample lowest.
pub fn pack_bytes(rgb: [u8; 3], alpha: u8) -> (w: u32)
    ensures
        w == word(rgb[0], rgb[1], rgb[2], alpha),
{
    rgb[0] as u32 + rgb[1] as u32 * 0x100 + rgb[2] as u32 * 0x1_0000 + alpha as u32 * 0x100_0000
}

fn signed_word_of(w: u32) -> (s: i32)
    ensures
        s == signed_word(w),
{
    if w <= 0x7fff_ffff {
        w as i32
    } else {
        (w as i64 - 0x1_0000_0000) as i32
    }
}

/// The coefficient `k` of the three components in order, times its
/// quantization: the first component uses the luminance table.
pub open spec fn dequantized(
    coefficients: [[i16; 64]; 3],
    quantization: [[u16; 64]; 2],
    k: int,
) -> i32 {
    (coefficients[k / 64][k % 64] * quantization[if k / 64 == 0 {
        0int
    } else {
        1int
    }][k % 64]) as i32
}

/// The payload words of one tile.
pub open spec fn tile_payload(tile: MvsGpuTile, quantization: [[u16; 64]; 2]) -> Seq<i32> {
    match tile {
        MvsGpuTile::SolidYcbcr(_) => Seq::empty(),
        MvsGpuTile::SolidRgba(_) => Seq::empty(),
        MvsGpuTile::PixelsYcbcr(samples) => samples@.map_values(
            |s: [u8; 3]| signed_word(word(s[0], s[1], s[2], 255)),
        ),
        MvsGpuTile::PixelsRgba(samples) => samples@.map_values(
            |s: [u8; 4]| signed_word(word(s[0], s[1], s[2], s[3])),
        ),
        MvsGpuTile::RiceDct(coefficients) => Seq::new(
            192,
            |k: int| dequantized(coefficients, quantization, k),
        ),
        MvsGpuTile::Dct(coefficients) => Seq::new(
            192,
            |k: int| dequantized(coefficients, quantization, k),
        ),
    }
}

/// The number by which the shader tells the kinds of tiles apart.
pub open spec fn tile_kind(tile: MvsGpuTile) -> u32 {
    match tile {
        MvsGpuTile::SolidYcbcr(_) => 0,
        MvsGpuTile::SolidRgba(_) => 1,
        MvsGpuTile::PixelsYcbcr(_) => 2,
        MvsGpuTile::PixelsRgba(_) => 3,
        MvsGpuTile::Dct(_) => 4,
        MvsGpuTile::RiceDct(_) => 5,
    }
}

/// The colour word of a tile: 0 unless it is of one colour.
pub open spec fn tile_color(tile: MvsGpuTile) -> u32 {
    match tile {
        MvsGpuTile::SolidYcbcr(s) => word(s[0], s[1], s[2], 255),
        MvsGpuTile::SolidRgba(s) => word(s[0], s[1], s[2], s[3]),
        _ => 0,
    }
}

/// The eight record words of a tile whose payload begins at `offset`.
pub open spec fn tile_record(update: MvsGpuTileUpdate, offset: nat) -> Seq<u32> {
    seq![
        update.x as u32,
        update.y as u32,
        update.width as u32,
        update.height as u32,
        tile_kind(update.tile),
        (offset % 0x1_0000_0000) as u32,
        tile_color(update.tile),
        0,
    ]
}

/// The payload words of the first `count` tiles.
pub open spec fn payload_of(tiles: Seq<DirtyTile>, count: nat) -> Seq<i32>
    decreases count,
{
    if count == 0 {
        Seq::empty()
    } else {
        payload_of(tiles, (count - 1) as nat) + tile_payload(
            tiles[count - 1].update.tile,
            tiles[count - 1].quantization,
        )
    }
}

/// The record words of the first `count` tiles.
pub open spec fn records_of(tiles: Seq<DirtyTile>, count: nat) -> Seq<u32>
    decreases count,
{
    if count == 0 {
        Seq::empty()
    } else {
        records_of(tiles, (count - 1) as nat) + tile_record(
            tiles[count - 1].update,
            payload_of(tiles, (count - 1) as nat).len(),
        )
    }
}

/// Appends the dequantized coefficients of the three components.
fn extend_coefficients(
    coefficients: &[[i16; 64]; 3],
    quantization: &[[u16; 64]; 2],
    payload: &mut Vec<i32>,
)
    ensures
        final(payload)@ == old(payload)@ + Seq::new(
            192,
            |k: int| dequantized(*coefficients, *quantization, k),
        ),
{
    let ghost before = payload@;
    let ghost all = Seq::new(192, |k: int| dequantized(*coefficients, *quantization, k));
    let mut k: usize = 0;
    while k < 192
        invariant
            k <= 192,
            all == Seq::new(192, |k: int| dequantized(*coefficients, *quantization, k)),
            payload@ == before + all.take(k as int),
        decreases 192 - k,
    {
        let component: usize = k / 64;
        let table: usize = if component == 0 { 0 } else { 1 };
        let value: i16 = coefficients[component][k % 64];
        let quant: u16 = quantization[table][k % 64];
        proof {
            lemma_product_fits(value, quant);
        }
        payload.push(value as i32 * quant as i32);
        assert(payload@ =~= before + all.take(k as int + 1));
        k += 1;
    }
    assert(all.take(192) =~= all);
}

proof fn lemma_product_fits(value: i16, quant: u16)
    ensures
        i32::MIN <= value * quant <= i32::MAX,
{
    assert(-32768 * 65535 <= value * quant <= 32767 * 65535) by (nonlinear_arith)
        requires
            -32768 <= value <= 32767,
            0 <= quant <= 65535,
    ;
}

/// Appends the payload words of one tile.
fn extend_payload(tile: &MvsGpuTile, quantization: &[[u16; 64]; 2], payload: &mut Vec<i32>)
    ensures
        final(payload)@ == old(payload)@ + tile_payload(*tile, *quantization),
{
    let ghost before = payload@;
    match tile {
        MvsGpuTile::SolidYcbcr(_) => {
            assert(payload@ =~= before + tile_payload(*tile, *quantization));
        },
        MvsGpuTile::SolidRgba(_) => {
            assert(payload@ =~= before + tile_payload(*tile, *quantization));
        },
        MvsGpuTile::PixelsYcbcr(samples) => {
            let ghost all = tile_payload(*tile, *quantization);
            for i in 0..samples.len()
                invariant
                    all == samples@.map_values(
                        |s: [u8; 3]| signed_word(word(s[0], s[1], s[2], 255)),
                    ),
                    payload@ == before + all.take(i as int),
            {
                let sample = samples[i];
                payload.push(signed_word_of(pack_bytes(sample, 255)));
                assert(payload@ =~= before + all.take(i as int + 1));
            }
            assert(all.take(all.len() as int) =~= all);
        },
        MvsGpuTile::PixelsRgba(samples) => {
            let ghost all = tile_payload(*tile, *quantization);
            for i in 0..samples.len()
                invariant
                    all == samples@.map_values(
                        |s: [u8; 4]| signed_word(word(s[0], s[1], s[2], s[3])),
                    ),
                    payload@ == before + all.take(i as int),
            {
                let sample = samples[i];
                payload.push(signed_word_of(word_of(sample)));
                assert(payload@ =~= before + all.take(i as int + 1));
            }
            assert(all.take(all.len() as int) =~= all);
        },
        MvsGpuTile::RiceDct(coefficients) => {
            extend_coefficients(coefficients, quantization, payload);
        },
        MvsGpuTile::Dct(coefficients) => {
            extend_coefficients(coefficients, quantization, payload);
        },
    }
}

/// Appends the words of one tile.
pub fn pack_one_gpu_tile(
    update: &MvsGpuTileUpdate,
    quantization: &[[u16; 64]; 2],
    records: &mut Vec<u32>,
    payload: &mut Vec<i32>,
)
    ensures
        final(records)@ == old(records)@ + tile_record(*update, old(payload)@.len()),
        final(payload)@ == old(payload)@ + tile_payload(update.tile, *quantization),
{
    let data_offset: u32 = (payload.len() as u64 % 0x1_0000_0000) as u32;
    extend_payload(&update.tile, quantization, payload);
    let kind: u32 = match &update.tile {
        MvsGpuTile::SolidYcbcr(_) => 0,
        MvsGpuTile::SolidRgba(_) => 1,
        MvsGpuTile::PixelsYcbcr(_) => 2,
        MvsGpuTile::PixelsRgba(_) => 3,
        MvsGpuTile::Dct(_) => 4,
        MvsGpuTile::RiceDct(_) => 5,
    };
    let color: u32 = match &update.tile {
        MvsGpuTile::SolidYcbcr(sample) => pack_bytes(*sample, 255),
        MvsGpuTile::SolidRgba(rgba) => word_of(*rgba),
        _ => 0,
    };
    records.push(update.x as u32);
    records.push(update.y as u32);
    records.push(update.width as u32);
    records.push(update.height as u32);
    records.push(kind);
    records.push(data_offset);
    records.push(color);
    records.push(0);
    assert(records@ =~= old(records)@ + tile_record(*update, old(payload)@.len()));
}

/// Replaces `records` and `payload` by the words of `tiles`: a count and a record
/// for each tile, and the payload, which is never left empty.
pub fn pack_dirty_gpu_tiles(
    tiles: &Vec<DirtyTile>,
    records: &mut Vec<u32>,
    payload: &mut Vec<i32>,
)
    requires
        tiles@.len() <= u32::MAX,
    ensures
        final(records)@ == seq![tiles@.len() as u32] + records_of(tiles@, tiles@.len()),
        final(payload)@ == if payload_of(tiles@, tiles@.len()).len() == 0 {
            seq![0i32]
        } else {
            payload_of(tiles@, tiles@.len())
        },
{
    records.clear();
    payload.clear();
    records.push(tiles.len() as u32);
    assert(records@ =~= seq![tiles@.len() as u32] + records_of(tiles@, 0));
    for i in 0..tiles.len()
        invariant
            records@ == seq![tiles@.len() as u32] + records_of(tiles@, i as nat),
            payload@ == payload_of(tiles@, i as nat),
    {
        let tile = &tiles[i];
        pack_one_gpu_tile(&tile.update, &tile.quantization, records, payload);
        assert(records@ =~= seq![tiles@.len() as u32] + records_of(tiles@, i as nat + 1));
    }
    if payload.len() == 0 {
        payload.push(0);
        assert(payload@ =~= seq![0i32]);
    }
}

proof fn lemma_payload_prefix(tiles: Seq<DirtyTile>, i: nat, count: nat)
    requires
        i <= count <= tiles.len(),
    ensures
        payload_of(tiles, i).is_prefix_of(payload_of(tiles, count)),
        payload_of(tiles, i).len() <= payload_of(tiles, count).len(),
    decreases count - i,
{
    if i < count {
        lemma_payload_prefix(tiles, i, (count - 1) as nat);
        let a = payload_of(tiles, i);
        let b = payload_of(tiles, count);
        assert(a =~= b.subrange(0, a.len() as int));
    } else {
        let a = payload_of(tiles, i);
        assert(a =~= a.subrange(0, a.len() as int));
    }
}

proof fn lemma_record_at(tiles: Seq<DirtyTile>, i: nat, count: nat)
    requires
        i < count <= tiles.len(),
    ensures
        records_of(tiles, count).len() == 8 * count,
        records_of(tiles, count).subrange(8 * i as int, 8 * i as int + 8) == tile_record(
            tiles[i as int].update,
            payload_of(tiles, i).len(),
        ),
    decreases count,
{
    let before = records_of(tiles, (count - 1) as nat);
    if count == 1 {
        assert(before.len() == 0);
    } else {
        lemma_record_at(tiles, if i + 1 < count { i } else { 0 }, (count - 1) as nat);
    }
    let all = records_of(tiles, count);
    let record = tile_record(tiles[count - 1].update, payload_of(tiles, (count - 1) as nat).len());
    assert(all == before + record);
    if i + 1 == count {
        assert(all.subrange(8 * i as int, 8 * i as int + 8) =~= record);
    } else {
        assert(all.subrange(8 * i as int, 8 * i as int + 8) =~= before.subrange(
            8 * i as int,
            8 * i as int + 8,
        ));
    }
}

/// Each tile keeps its own quantization, whatever else is packed with it: its
/// record stands at its place, and the payload that the record points to is that
/// of the tile with its own tables.
pub proof fn law_each_tile_keeps_its_quantization(tiles: Seq<DirtyTile>, i: nat)
    requires
        i < tiles.len(),
        payload_of(tiles, tiles.len()).len() <= u32::MAX,
    ensures
        records_of(tiles, tiles.len()).len() == 8 * tiles.len(),
        records_of(tiles, tiles.len()).subrange(8 * i as int, 8 * i as int + 8) == tile_record(
            tiles[i as int].update,
            payload_of(tiles, i).len(),
        ),
        ({
            let offset = records_of(tiles, tiles.len())[8 * i as int + 5] as int;
            let words = tile_payload(tiles[i as int].update.tile, tiles[i as int].quantization);
            &&& offset + words.len() <= payload_of(tiles, tiles.len()).len()
            &&& payload_of(tiles, tiles.len()).subrange(offset, offset + words.len()) == words
        }),
{
    lemma_record_at(tiles, i, tiles.len());
    lemma_payload_prefix(tiles, i, tiles.len());
    lemma_payload_prefix(tiles, i + 1, tiles.len());
    let all = payload_of(tiles, tiles.len());
    let before = payload_of(tiles, i);
    let through = payload_of(tiles, i + 1);
    let words = tile_payload(tiles[i as int].update.tile, tiles[i as int].quantization);
    let records = records_of(tiles, tiles.len());
    assert(records.subrange(8 * i as int, 8 * i as int + 8)[5] == records[8 * i as int + 5]);
    let offset = records[8 * i as int + 5] as int;
    assert(offset == before.len());
    assert(through == before + words);
    assert(all.subrange(offset, offset + words.len()) =~= words) by {
        assert forall|k: int| 0 <= k < words.len() implies all[offset + k] == words[k] by {
            assert(through == all.subrange(0, through.len() as int));
            assert(all[offset + k] == through[offset + k]);
        }
    }
}

/// The workgroups that one dimension of a dispatch can have.
pub const MAX_PER_DIMENSION: u32 = 65_535;

/// How many rows of workgroups are needed.
pub open spec fn dispatch_rows(workgroups: nat) -> nat {
    ((workgroups + 65_534) / 65_535) as nat
}

/// The two dimensions of a dispatch: as few rows as possible, and as few columns
/// as those rows need.
pub open spec fn dispatch_size(workgroups: nat) -> (nat, nat) {
    let rows = dispatch_rows(workgroups);
    (((workgroups + rows - 1) / rows as int) as nat, rows)
}

/// Spreads the workgroups of a frame over two dimensions.
pub fn mvs_dispatch_size(workgroups: u32) -> (size: (u32, u32))
    requires
        0 < workgroups <= 65_535 * 65_535,
    ensures
        (size.0 as nat, size.1 as nat) == dispatch_size(workgroups as nat),
        size.0 <= MAX_PER_DIMENSION,
        size.1 <= MAX_PER_DIMENSION,
{
    let wide: u64 = workgroups as u64;
    let rows: u64 = (wide + 65_534) / 65_535;
    let columns: u64 = (wide + rows - 1) / rows;
    proof {
        lemma_dispatch(workgroups as nat);
    }
    (columns as u32, rows as u32)
}

proof fn lemma_dispatch(workgroups: nat)
    requires
        0 < workgroups <= 65_535 * 65_535,
    ensures
        1 <= dispatch_size(workgroups).0 <= 65_535,
        1 <= dispatch_size(workgroups).1 <= 65_535,
        workgroups <= dispatch_size(workgroups).0 * dispatch_size(workgroups).1 < workgroups
            + dispatch_size(workgroups).1,
{
    let rows = dispatch_rows(workgroups) as int;
    let n = workgroups as int;
    let columns = (n + rows - 1) / rows;
    assert(1 <= rows <= 65_535);
    assert(n <= rows * 65_535);
    assert(rows * columns <= n + rows - 1 < rows * columns + rows) by {
        vstd::arithmetic::div_mod::lemma_fundamental_div_mod(n + rows - 1, rows);
        vstd::arithmetic::div_mod::lemma_mod_bound(n + rows - 1, rows);
    }
    assert(columns <= 65_535) by (nonlinear_arith)
        requires
            rows * columns <= n + rows - 1,
            n <= rows * 65_535,
            1 <= rows,
    ;
    assert(columns >= 1) by (nonlinear_arith)
        requires
            n + rows - 1 < rows * columns + rows,
            n >= 1,
            rows >= 1,
    ;
    assert(rows * columns == columns * rows) by (nonlinear_arith);
}

/// A dispatch has a workgroup for every tile, stays within the device's limit in
/// both dimensions, and leaves less than a column over.
pub proof fn law_dispatch_covers_every_tile(workgroups: nat)
    requires
        0 < workgroups <= 65_535 * 65_535,
    ensures
        dispatch_size(workgroups).0 <= MAX_PER_DIMENSION,
        dispatch_size(workgroups).1 <= MAX_PER_DIMENSION,
        workgroups <= dispatch_size(workgroups).0 * dispatch_size(workgroups).1,
        dispatch_size(workgroups).0 * dispatch_size(workgroups).1 < workgroups + dispatch_size(
            workgroups,
        ).1,
        (dispatch_size(workgroups).1 - 1) * MAX_PER_DIMENSION < workgroups,
{
    lemma_dispatch(workgroups);
}

proof fn lemma_word(a: u8, b: u8, c: u8, d: u8)
    ensures
        word(a, b, c, d) == a + 0x100 * b + 0x1_0000 * c + 0x100_0000 * d,
        signed_word(word(a, b, c, d)) as int % 0x1_0000_0000 == a + 0x100 * b + 0x1_0000 * c
            + 0x100_0000 * d,
{
}

/// The word that the shader finds for a coefficient of a packed tile: the
/// coefficient times the entry of its table that stands at the same place, with the
/// luminance table for the first component and the chrominance table for the others.
/// Rice coded tiles are no different.
pub proof fn law_coefficients_are_scaled_in_place(
    tiles: Seq<DirtyTile>,
    i: nat,
    coefficients: [[i16; 64]; 3],
    c: int,
    j: int,
)
    requires
        i < tiles.len(),
        payload_of(tiles, tiles.len()).len() <= u32::MAX,
        tiles[i as int].update.tile == MvsGpuTile::Dct(coefficients) || tiles[i as int].update.tile
            == MvsGpuTile::RiceDct(coefficients),
        0 <= c < 3,
        0 <= j < 64,
    ensures
        ({
            let offset = records_of(tiles, tiles.len())[8 * i as int + 5] as int;
            let quantization = tiles[i as int].quantization;
            &&& offset + 192 <= payload_of(tiles, tiles.len()).len()
            &&& payload_of(tiles, tiles.len())[offset + 64 * c + j] == coefficients[c][j]
                * quantization[if c == 0 {
                0int
            } else {
                1int
            }][j]
        }),
{
    law_each_tile_keeps_its_quantization(tiles, i);
    let quantization = tiles[i as int].quantization;
    let offset = records_of(tiles, tiles.len())[8 * i as int + 5] as int;
    let words = tile_payload(tiles[i as int].update.tile, quantization);
    let k = 64 * c + j;
    assert(k / 64 == c && k % 64 == j);
    assert(words.len() == 192);
    assert(payload_of(tiles, tiles.len()).subrange(offset, offset + words.len())[k] == words[k]);
    lemma_product_fits(coefficients[c][j], quantization[if c == 0 {
        0int
    } else {
        1int
    }][j]);
}

/// The words that the shader finds for the pixels of a packed tile: one for each, in
/// their order, with the samples from the lowest byte up, and an opaque alpha where
/// the tile has none.
pub proof fn law_pixels_are_packed_in_order(tiles: Seq<DirtyTile>, i: nat, k: int)
    requires
        i < tiles.len(),
        payload_of(tiles, tiles.len()).len() <= u32::MAX,
    ensures
        ({
            let offset = records_of(tiles, tiles.len())[8 * i as int + 5] as int;
            let payload = payload_of(tiles, tiles.len());
            &&& tiles[i as int].update.tile matches MvsGpuTile::PixelsRgba(p) ==> {
                &&& offset + p@.len() <= payload.len()
                &&& 0 <= k < p@.len() ==> payload[offset + k] as int % 0x1_0000_0000 == p@[k][0]
                    + 0x100 * p@[k][1] + 0x1_0000 * p@[k][2] + 0x100_0000 * p@[k][3]
            }
            &&& tiles[i as int].update.tile matches MvsGpuTile::PixelsYcbcr(p) ==> {
                &&& offset + p@.len() <= payload.len()
                &&& 0 <= k < p@.len() ==> payload[offset + k] as int % 0x1_0000_0000 == p@[k][0]
                    + 0x100 * p@[k][1] + 0x1_0000 * p@[k][2] + 0x100_0000 * 255
            }
        }),
{
    law_each_tile_keeps_its_quantization(tiles, i);
    let offset = records_of(tiles, tiles.len())[8 * i as int + 5] as int;
    let payload = payload_of(tiles, tiles.len());
    let words = tile_payload(tiles[i as int].update.tile, tiles[i as int].quantization);
    match tiles[i as int].update.tile {
        MvsGpuTile::PixelsRgba(p) => {
            assert(words.len() == p@.len());
            if 0 <= k < p@.len() {
                assert(payload.subrange(offset, offset + words.len())[k] == payload[offset + k]);
                lemma_word(p@[k][0], p@[k][1], p@[k][2], p@[k][3]);
            }
        },
        MvsGpuTile::PixelsYcbcr(p) => {
            assert(words.len() == p@.len());
            if 0 <= k < p@.len() {
                assert(payload.subrange(offset, offset + words.len())[k] == payload[offset + k]);
                lemma_word(p@[k][0], p@[k][1], p@[k][2], 255);
            }
        },
        _ => {},
    }
}

/// The record that the shader finds for a packed tile: its place and size, a number
/// of its own for each kind of tile, and for a tile of one colour that colour, from
/// the lowest byte up.
pub proof fn law_records_describe_their_tiles(tiles: Seq<DirtyTile>, i: nat)
    requires
        i < tiles.len(),
    ensures
        ({
            let records = records_of(tiles, tiles.len());
            let update = tiles[i as int].update;
            &&& records.len() == 8 * tiles.len()
            &&& records[8 * i as int] == update.x
            &&& records[8 * i as int + 1] == update.y
            &&& records[8 * i as int + 2] == update.width
            &&& records[8 * i as int + 3] == update.height
            &&& match update.tile {
                MvsGpuTile::SolidYcbcr(s) => records[8 * i as int + 4] == 0 && records[8 * i as int
                    + 6] == s[0] + 0x100 * s[1] + 0x1_0000 * s[2] + 0x100_0000 * 255,
                MvsGpuTile::SolidRgba(s) => records[8 * i as int + 4] == 1 && records[8 * i as int
                    + 6] == s[0] + 0x100 * s[1] + 0x1_0000 * s[2] + 0x100_0000 * s[3],
                MvsGpuTile::PixelsYcbcr(_) => records[8 * i as int + 4] == 2,
                MvsGpuTile::PixelsRgba(_) => records[8 * i as int + 4] == 3,
                MvsGpuTile::Dct(_) => records[8 * i as int + 4] == 4,
                MvsGpuTile::RiceDct(_) => records[8 * i as int + 4] == 5,
            }
        }),
{
    lemma_record_at(tiles, i, tiles.len());
    let records = records_of(tiles, tiles.len());
    let record = records.subrange(8 * i as int, 8 * i as int + 8);
    assert forall|k: int| 0 <= k < 8 implies record[k] == records[8 * i as int + k] by {}
    assert(records[8 * i as int] == record[0]);
    match tiles[i as int].update.tile {
        MvsGpuTile::SolidYcbcr(s) => {
            lemma_word(s[0], s[1], s[2], 255);
        },
        MvsGpuTile::SolidRgba(s) => {
            lemma_word(s[0], s[1], s[2], s[3]);
        },
        _ => {},
    }
    assert(records[8 * i as int + 1] == record[1]);
    assert(records[8 * i as int + 2] == record[2]);
    assert(records[8 * i as int + 3] == record[3]);
    assert(records[8 * i as int + 4] == record[4]);
    assert(records[8 * i as int + 6] == record[6]);
}

/// The payload words of a tile: one for each pixel, one for each coefficient, and
/// none for a tile of one colour. Nothing else stands in the payload.
pub proof fn law_payload_holds_the_tiles(tiles: Seq<DirtyTile>, i: nat)
    requires
        i < tiles.len(),
    ensures
        payload_of(tiles, 0).len() == 0,
        payload_of(tiles, i + 1).len() - payload_of(tiles, i).len() == match tiles[i as int].update.tile {
            MvsGpuTile::SolidYcbcr(_) => 0,
            MvsGpuTile::SolidRgba(_) => 0,
            MvsGpuTile::PixelsYcbcr(p) => p@.len() as int,
            MvsGpuTile::PixelsRgba(p) => p@.len() as int,
            MvsGpuTile::Dct(_) => 192,
            MvsGpuTile::RiceDct(_) => 192,
        },
{
}

} // verus!
