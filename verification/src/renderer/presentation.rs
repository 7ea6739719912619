//! The presentation state: which textures exist, what has been written to them,
//! and what a redraw shows. The GPU calls themselves are outside; each function
//! says what they are to do.

use crate::media::{AvcFrameTiming, DecodedFrame, DecodedSliceUpdate, FrameModel};
use crate::media::{YuvMatrix, YuvPrimaries, YuvRange};
use crate::renderer::storage;
use crate::renderer::tiles;
use crate::renderer::tiles::DirtyTile;
use vstd::prelude::*;

verus! {

/// Outcome of uploading one frame.
#[derive(Debug, Clone, Copy, PartialEq, Eq, Structural)]
pub enum UploadOutcome {
    /// The frame reached the presentation texture.
    Uploaded,
    /// The frame was valid but not yet displayable. Previous content stays.
    Incomplete,
    /// The frame failed validation and was discarded.
    Invalid,
}

impl UploadOutcome {
    /// Whether the frame reached the presentation texture.
    pub fn is_uploaded(self) -> (uploaded: bool)
        ensures
            uploaded == (self == UploadOutcome::Uploaded),
    {
        match self {
            UploadOutcome::Uploaded => true,
            _ => false,
        }
    }
}

/// Half of `n`, rounded up.
pub open spec fn half_up(n: nat) -> nat {
    (n + 1) / 2
}

/// Half of `n`, rounded up.
pub fn half(n: u32) -> (h: u32)
    ensures
        h == half_up(n as nat),
{
    n / 2 + n % 2
}

/// The two NV12 textures: their size, the colour description of what they hold,
/// and the rows that have been written so far.
#[derive(Debug)]
pub struct Nv12Surface {
    pub width: u32,
    pub height: u32,
    pub range: YuvRange,
    pub matrix: YuvMatrix,
    pub primaries: YuvPrimaries,
    pub fully_initialized: bool,
    pub initialized_y: Vec<bool>,
    pub initialized_uv: Vec<bool>,
}

/// What an `Nv12Surface` holds.
pub struct SurfaceModel {
    pub width: u32,
    pub height: u32,
    pub range: YuvRange,
    pub matrix: YuvMatrix,
    pub primaries: YuvPrimaries,
    pub fully_initialized: bool,
    pub y: Seq<bool>,
    pub uv: Seq<bool>,
}

impl View for Nv12Surface {
    type V = SurfaceModel;

    open spec fn view(&self) -> SurfaceModel {
        SurfaceModel {
            width: self.width,
            height: self.height,
            range: self.range,
            matrix: self.matrix,
            primaries: self.primaries,
            fully_initialized: self.fully_initialized,
            y: self.initialized_y@,
            uv: self.initialized_uv@,
        }
    }
}

/// Whether every row has been written.
pub open spec fn all_written(rows: Seq<bool>) -> bool {
    forall|i: int| 0 <= i < rows.len() ==> rows[i]
}

impl SurfaceModel {
    /// Whether there is a mark for each row, and the surface counts as
    /// initialized exactly if every row has been written.
    pub open spec fn wf(self) -> bool {
        &&& self.y.len() == self.height
        &&& self.uv.len() == half_up(self.height as nat)
        &&& self.fully_initialized == (all_written(self.y) && all_written(self.uv))
    }
}

/// A fresh surface, with nothing written yet.
pub open spec fn fresh_surface(width: u32, height: u32) -> SurfaceModel {
    SurfaceModel {
        width,
        height,
        range: YuvRange::Video,
        matrix: YuvMatrix::Bt709,
        primaries: YuvPrimaries::Bt709,
        fully_initialized: false,
        y: Seq::new(height as nat, |i: int| false),
        uv: Seq::new(half_up(height as nat), |i: int| false),
    }
}

/// `rows` with `count` of them written from `origin` on.
pub open spec fn rows_written(rows: Seq<bool>, origin: nat, count: nat) -> Seq<bool> {
    Seq::new(rows.len(), |i: int| rows[i] || origin <= i < origin + count)
}

/// The luma rows after the first `count` updates.
pub open spec fn y_after(rows: Seq<bool>, updates: Seq<DecodedSliceUpdate>, count: nat) -> Seq<bool>
    decreases count,
{
    if count == 0 {
        rows
    } else {
        rows_written(
            y_after(rows, updates, (count - 1) as nat),
            updates[count - 1].y_origin as nat,
            updates[count - 1].y_rows as nat,
        )
    }
}

/// The chroma rows after the first `count` updates.
pub open spec fn uv_after(rows: Seq<bool>, updates: Seq<DecodedSliceUpdate>, count: nat) -> Seq<
    bool,
>
    decreases count,
{
    if count == 0 {
        rows
    } else {
        rows_written(
            uv_after(rows, updates, (count - 1) as nat),
            updates[count - 1].uv_origin as nat,
            updates[count - 1].uv_rows as nat,
        )
    }
}

/// Whether an update belongs to its frame: the same width and colour
/// description, planes of the right length, and rows inside the frame.
pub open spec fn update_fits(frame: FrameModel, update: DecodedSliceUpdate) -> bool {
    let pixels = update.pixels;
    &&& pixels.width == frame.width
    &&& pixels.range == frame.range
    &&& pixels.matrix == frame.matrix
    &&& pixels.primaries == frame.primaries
    &&& pixels.y_plane@.len() == frame.width * pixels.height
    &&& pixels.uv_plane@.len() == 2 * half_up(frame.width as nat) * half_up(pixels.height as nat)
    &&& update.y_origin + update.y_rows <= frame.height
    &&& update.uv_origin + update.uv_rows <= half_up(frame.height as nat)
    &&& update.y_rows <= pixels.height
    &&& update.uv_rows <= half_up(pixels.height as nat)
}

/// Whether a frame can go to the textures: its chroma rows can be counted and
/// every update fits.
pub open spec fn frame_fits(frame: FrameModel) -> bool {
    &&& 2 * half_up(frame.width as nat) <= u32::MAX
    &&& forall|i: int| 0 <= i < frame.updates.len() ==> update_fits(frame, #[trigger] frame.updates[i])
}

/// A product that must not exceed the size of memory.
fn checked_area(row: u32, rows: u32) -> (area: Option<usize>)
    ensures
        area is Some <==> row * rows <= usize::MAX,
        area matches Some(a) ==> a == row * rows,
{
    assert(0 <= row * rows <= 0xffff_ffff * 0xffff_ffff) by (nonlinear_arith)
        requires
            0 <= row <= 0xffff_ffff,
            0 <= rows <= 0xffff_ffff,
    ;
    let product: u64 = row as u64 * rows as u64;
    if product <= usize::MAX as u64 {
        Some(product as usize)
    } else {
        None
    }
}

fn area_is(row: u32, rows: u32, len: usize) -> (is: bool)
    ensures
        is == (len == row * rows),
{
    match checked_area(row, rows) {
        Some(area) => area == len,
        None => false,
    }
}

/// Whether an update belongs to its frame.
fn check_update(frame: &DecodedFrame, update: &DecodedSliceUpdate, uv_bytes_per_row: u32) -> (fits:
    bool)
    requires
        uv_bytes_per_row == 2 * half_up(frame.width as nat),
    ensures
        fits == update_fits(frame@, *update),
{
    let pixels = &update.pixels;
    let chroma_rows: u32 = half(pixels.height);
    pixels.width == frame.width && pixels.range == frame.range && pixels.matrix == frame.matrix
        && pixels.primaries == frame.primaries && area_is(
        frame.width,
        pixels.height,
        pixels.y_plane.len(),
    ) && area_is(uv_bytes_per_row, chroma_rows, pixels.uv_plane.len()) && update.y_origin as u64
        + update.y_rows as u64 <= frame.height as u64 && update.uv_origin as u64
        + update.uv_rows as u64 <= half(frame.height) as u64 && update.y_rows <= pixels.height
        && update.uv_rows <= chroma_rows
}

/// Whether a frame can go to the textures.
pub fn check_frame(frame: &DecodedFrame) -> (fits: bool)
    ensures
        fits == frame_fits(frame@),
{
    let uv_width: u32 = half(frame.width);
    if uv_width > u32::MAX / 2 {
        return false;
    }
    for i in 0..frame.updates.len()
        invariant
            uv_width == half_up(frame.width as nat),
            uv_width <= u32::MAX / 2,
            forall|k: int|
                0 <= k < i ==> update_fits(frame@, #[trigger] frame@.updates[k]),
    {
        if !check_update(frame, &frame.updates[i], uv_width * 2) {
            assert(!update_fits(frame@, frame@.updates[i as int]));
            return false;
        }
    }
    true
}

/// Marks `count` rows from `origin` on as written.
fn mark_rows(rows: &mut Vec<bool>, origin: u32, count: u32)
    requires
        origin + count <= old(rows)@.len(),
    ensures
        final(rows)@ == rows_written(old(rows)@, origin as nat, count as nat),
{
    let ghost before = rows@;
    let total: usize = rows.len();
    let mut k: u32 = 0;
    assert(rows@ =~= rows_written(before, origin as nat, 0));
    while k < count
        invariant
            k <= count,
            origin + count <= before.len(),
            total == before.len(),
            rows@ == rows_written(before, origin as nat, k as nat),
        decreases count - k,
    {
        rows.set(origin as usize + k as usize, true);
        assert(rows@ =~= rows_written(before, origin as nat, k as nat + 1));
        k += 1;
    }
}

fn check_written(rows: &Vec<bool>) -> (written: bool)
    ensures
        written == all_written(rows@),
{
    for i in 0..rows.len()
        invariant
            forall|k: int| 0 <= k < i ==> rows@[k],
    {
        if !rows[i] {
            return false;
        }
    }
    true
}

fn unwritten(count: u32) -> (rows: Vec<bool>)
    ensures
        rows@ == Seq::new(count as nat, |i: int| false),
{
    let mut rows: Vec<bool> = Vec::new();
    for k in 0..count
        invariant
            rows@ == Seq::new(k as nat, |i: int| false),
    {
        rows.push(false);
        assert(rows@ =~= Seq::new(k as nat + 1, |i: int| false));
    }
    rows
}

/// One write into the luma or the chroma texture: the first `byte_count` bytes of
/// a plane of the update `update`, as whole rows from `origin` on.
#[derive(Debug, Clone, Copy, PartialEq, Eq, Structural)]
pub struct PlaneWrite {
    pub update: usize,
    pub chroma: bool,
    pub origin: u32,
    pub rows: u32,
    pub width: u32,
    pub bytes_per_row: u32,
    pub byte_count: usize,
}

/// The writes for one update: none for a plane without rows.
pub open spec fn update_writes(frame: FrameModel, index: int) -> Seq<PlaneWrite> {
    let update = frame.updates[index];
    let uv_width = half_up(frame.width as nat);
    let luma = PlaneWrite {
        update: index as usize,
        chroma: false,
        origin: update.y_origin,
        rows: update.y_rows,
        width: frame.width,
        bytes_per_row: frame.width,
        byte_count: (frame.width * update.y_rows) as usize,
    };
    let chroma = PlaneWrite {
        update: index as usize,
        chroma: true,
        origin: update.uv_origin,
        rows: update.uv_rows,
        width: uv_width as u32,
        bytes_per_row: (2 * uv_width) as u32,
        byte_count: (2 * uv_width * update.uv_rows) as usize,
    };
    (if update.y_rows != 0 {
        seq![luma]
    } else {
        Seq::empty()
    }) + (if update.uv_rows != 0 {
        seq![chroma]
    } else {
        Seq::empty()
    })
}

/// The writes for the first `count` updates.
pub open spec fn frame_writes(frame: FrameModel, count: nat) -> Seq<PlaneWrite>
    decreases count,
{
    if count == 0 {
        Seq::empty()
    } else {
        frame_writes(frame, (count - 1) as nat) + update_writes(frame, count - 1)
    }
}

proof fn lemma_rows_fit(row: nat, rows: nat, height: nat, len: nat)
    requires
        rows <= height,
        len == row * height,
    ensures
        row * rows <= len,
{
    assert(row * rows <= row * height) by (nonlinear_arith)
        requires
            rows <= height,
            0 <= row,
    ;
}

/// Plans the writes of a frame whose updates fit.
fn plan_writes(frame: &DecodedFrame) -> (writes: Vec<PlaneWrite>)
    requires
        frame_fits(frame@),
    ensures
        writes@ == frame_writes(frame@, frame@.updates.len()),
{
    let mut writes: Vec<PlaneWrite> = Vec::new();
    let uv_width: u32 = half(frame.width);
    let uv_bytes_per_row: u32 = 2 * uv_width;
    for i in 0..frame.updates.len()
        invariant
            frame_fits(frame@),
            uv_width == half_up(frame.width as nat),
            uv_bytes_per_row == 2 * uv_width,
            writes@ == frame_writes(frame@, i as nat),
    {
        let update = &frame.updates[i];
        assert(update_fits(frame@, frame@.updates[i as int]));
        let ghost pixels = frame@.updates[i as int].pixels;
        proof {
            lemma_rows_fit(
                frame.width as nat,
                update.y_rows as nat,
                pixels.height as nat,
                pixels.y_plane@.len(),
            );
            lemma_rows_fit(
                uv_bytes_per_row as nat,
                update.uv_rows as nat,
                half_up(pixels.height as nat),
                pixels.uv_plane@.len(),
            );
        }
        let y_len: usize = update.pixels.y_plane.len();
        let uv_len: usize = update.pixels.uv_plane.len();
        assert(frame.width * update.y_rows <= y_len);
        assert(uv_bytes_per_row * update.uv_rows <= uv_len);
        let ghost before = writes@;
        if update.y_rows != 0 {
            writes.push(
                PlaneWrite {
                    update: i,
                    chroma: false,
                    origin: update.y_origin,
                    rows: update.y_rows,
                    width: frame.width,
                    bytes_per_row: frame.width,
                    byte_count: frame.width as usize * update.y_rows as usize,
                },
            );
        }
        if update.uv_rows != 0 {
            writes.push(
                PlaneWrite {
                    update: i,
                    chroma: true,
                    origin: update.uv_origin,
                    rows: update.uv_rows,
                    width: uv_width,
                    bytes_per_row: uv_bytes_per_row,
                    byte_count: uv_bytes_per_row as usize * update.uv_rows as usize,
                },
            );
        }
        assert(writes@ =~= before + update_writes(frame@, i as int));
    }
    writes
}

/// Every planned write reads only bytes that its plane has, and only writes rows
/// that the texture has.
pub proof fn law_writes_stay_inside(frame: FrameModel, index: int)
    requires
        frame_fits(frame),
        0 <= index < frame.updates.len(),
    ensures
        forall|k: int|
            0 <= k < update_writes(frame, index).len() ==> {
                let w = #[trigger] update_writes(frame, index)[k];
                &&& w.byte_count <= if w.chroma {
                    frame.updates[index].pixels.uv_plane@.len()
                } else {
                    frame.updates[index].pixels.y_plane@.len()
                }
                &&& w.byte_count == w.bytes_per_row * w.rows
                &&& w.origin + w.rows <= if w.chroma {
                    half_up(frame.height as nat)
                } else {
                    frame.height as nat
                }
            },
{
    let update = frame.updates[index];
    let pixels = update.pixels;
    assert(update_fits(frame, update));
    lemma_rows_fit(
        frame.width as nat,
        update.y_rows as nat,
        pixels.height as nat,
        pixels.y_plane@.len(),
    );
    lemma_rows_fit(
        2 * half_up(frame.width as nat),
        update.uv_rows as nat,
        half_up(pixels.height as nat),
        pixels.uv_plane@.len(),
    );
    assert(pixels.y_plane.len() == pixels.y_plane@.len());
    assert(pixels.uv_plane.len() == pixels.uv_plane@.len());
}

/// What the GPU is to do for an NV12 frame.
#[derive(Debug)]
pub struct Nv12Plan {
    /// Whether the textures are to be made anew, of the frame's size.
    pub recreate: bool,
    /// The writes into them.
    pub writes: Vec<PlaneWrite>,
    /// What became of the frame.
    pub outcome: UploadOutcome,
}

/// What is known of the textures and buffers on the GPU.
#[derive(Debug)]
pub struct Presentation {
    /// The size of the RGBA texture.
    pub decoded: Option<(u32, u32)>,
    pub native: Option<Nv12Surface>,
    /// Whether the NV12 textures are shown in place of the RGBA texture.
    pub present_native: bool,
    pub records_capacity: Option<u64>,
    pub payload_capacity: Option<u64>,
    pub quantization_capacity: Option<u64>,
    pub uploaded_quantization: Option<[[u16; 64]; 2]>,
    /// The size of the tile set whose tiles are in the RGBA texture.
    pub tile_size: Option<(u16, u16)>,
    /// Whether the decode shader is bound to the current buffers and texture.
    pub mvs_bound: bool,
    /// The tiles that wait for the decode shader.
    pub pending_mvs: Option<u32>,
    pub pending_timing: Option<AvcFrameTiming>,
    /// Whether a new frame is on the textures since the last capture.
    pub presented_frame: bool,
    /// Whether a failure was reported that a later upload must clear.
    pub reported_failure: bool,
}

/// What a `Presentation` holds.
pub struct PresentationModel {
    pub decoded: Option<(u32, u32)>,
    pub native: Option<SurfaceModel>,
    pub present_native: bool,
    pub records_capacity: Option<u64>,
    pub payload_capacity: Option<u64>,
    pub quantization_capacity: Option<u64>,
    pub uploaded_quantization: Option<[[u16; 64]; 2]>,
    pub tile_size: Option<(u16, u16)>,
    pub mvs_bound: bool,
    pub pending_mvs: Option<u32>,
    pub pending_timing: Option<AvcFrameTiming>,
    pub presented_frame: bool,
    pub reported_failure: bool,
}

impl View for Presentation {
    type V = PresentationModel;

    open spec fn view(&self) -> PresentationModel {
        PresentationModel {
            decoded: self.decoded,
            native: match self.native {
                Some(surface) => Some(surface@),
                None => None,
            },
            present_native: self.present_native,
            records_capacity: self.records_capacity,
            payload_capacity: self.payload_capacity,
            quantization_capacity: self.quantization_capacity,
            uploaded_quantization: self.uploaded_quantization,
            tile_size: self.tile_size,
            mvs_bound: self.mvs_bound,
            pending_mvs: self.pending_mvs,
            pending_timing: self.pending_timing,
            presented_frame: self.presented_frame,
            reported_failure: self.reported_failure,
        }
    }
}

impl PresentationModel {
    /// Whether the NV12 surface is well-formed, and is shown only when all of it
    /// has been written.
    pub open spec fn wf(self) -> bool {
        &&& self.native matches Some(surface) ==> surface.wf()
        &&& self.present_native ==> self.native is Some && self.native->0.fully_initialized
    }
}

/// The state in which nothing exists, with the reported failure kept.
pub open spec fn empty_presentation(reported_failure: bool) -> PresentationModel {
    PresentationModel {
        decoded: None,
        native: None,
        present_native: false,
        records_capacity: None,
        payload_capacity: None,
        quantization_capacity: None,
        uploaded_quantization: None,
        tile_size: None,
        mvs_bound: false,
        pending_mvs: None,
        pending_timing: None,
        presented_frame: false,
        reported_failure,
    }
}

/// Whether an NV12 frame makes the textures anew.
pub open spec fn remakes_surface(native: Option<SurfaceModel>, width: u32, height: u32) -> bool {
    &&& width != 0
    &&& height != 0
    &&& !(native is Some && native->0.width == width && native->0.height == height)
}

/// The surface that an NV12 frame is written to, if there is one.
pub open spec fn target_surface(native: Option<SurfaceModel>, width: u32, height: u32) -> Option<
    SurfaceModel,
> {
    if remakes_surface(native, width, height) {
        Some(fresh_surface(width, height))
    } else {
        native
    }
}

/// `surface` with `frame` written to it.
pub open spec fn surface_with(surface: SurfaceModel, frame: FrameModel) -> SurfaceModel {
    let y = y_after(surface.y, frame.updates, frame.updates.len());
    let uv = uv_after(surface.uv, frame.updates, frame.updates.len());
    SurfaceModel {
        range: frame.range,
        matrix: frame.matrix,
        primaries: frame.primaries,
        y,
        uv,
        fully_initialized: all_written(y) && all_written(uv),
        ..surface
    }
}

/// Whether the rows of `frame`, if it is written at all, lie inside the surface
/// that it is written to. A frame without width leaves an older surface in place.
pub open spec fn rows_inside(state: PresentationModel, frame: FrameModel) -> bool {
    frame_fits(frame) && frame.width == 0 && state.native is Some ==> forall|i: int|
        0 <= i < frame.updates.len() ==> {
            let u = #[trigger] frame.updates[i];
            &&& u.y_origin + u.y_rows <= state.native->0.height
            &&& u.uv_origin + u.uv_rows <= half_up(state.native->0.height as nat)
        }
}

proof fn lemma_rows_len(rows: Seq<bool>, updates: Seq<DecodedSliceUpdate>, count: nat)
    ensures
        y_after(rows, updates, count).len() == rows.len(),
        uv_after(rows, updates, count).len() == rows.len(),
    decreases count,
{
    if count > 0 {
        lemma_rows_len(rows, updates, (count - 1) as nat);
    }
}

impl Nv12Surface {
    fn fresh(width: u32, height: u32) -> (surface: Self)
        ensures
            surface@ == fresh_surface(width, height),
    {
        Nv12Surface {
            width,
            height,
            range: YuvRange::Video,
            matrix: YuvMatrix::Bt709,
            primaries: YuvPrimaries::Bt709,
            fully_initialized: false,
            initialized_y: unwritten(height),
            initialized_uv: unwritten(half(height)),
        }
    }

    /// Notes that `frame` is written to the surface.
    fn note_frame(&mut self, frame: &DecodedFrame)
        requires
            old(self)@.y.len() == old(self)@.height,
            old(self)@.uv.len() == half_up(old(self)@.height as nat),
            forall|i: int|
                0 <= i < frame@.updates.len() ==> {
                    let u = #[trigger] frame@.updates[i];
                    &&& u.y_origin + u.y_rows <= old(self)@.height
                    &&& u.uv_origin + u.uv_rows <= half_up(old(self)@.height as nat)
                },
        ensures
            final(self)@ == surface_with(old(self)@, frame@),
    {
        let ghost start = self@;
        self.range = frame.range;
        self.matrix = frame.matrix;
        self.primaries = frame.primaries;
        for i in 0..frame.updates.len()
            invariant
                start.y.len() == start.height,
                start.uv.len() == half_up(start.height as nat),
                forall|i: int|
                    0 <= i < frame@.updates.len() ==> {
                        let u = #[trigger] frame@.updates[i];
                        &&& u.y_origin + u.y_rows <= start.height
                        &&& u.uv_origin + u.uv_rows <= half_up(start.height as nat)
                    },
                self@ == (SurfaceModel {
                    range: frame.range,
                    matrix: frame.matrix,
                    primaries: frame.primaries,
                    y: y_after(start.y, frame@.updates, i as nat),
                    uv: uv_after(start.uv, frame@.updates, i as nat),
                    ..start
                }),
        {
            let update = &frame.updates[i];
            assert(frame@.updates[i as int] == *update);
            proof {
                lemma_rows_len(start.y, frame@.updates, i as nat);
                lemma_rows_len(start.uv, frame@.updates, i as nat);
            }
            mark_rows(&mut self.initialized_y, update.y_origin, update.y_rows);
            mark_rows(&mut self.initialized_uv, update.uv_origin, update.uv_rows);
        }
        self.fully_initialized = check_written(&self.initialized_y) && check_written(
            &self.initialized_uv,
        );
    }
}

/// Whether the RGBA texture is made anew for a frame of this size.
pub open spec fn remakes_texture(decoded: Option<(u32, u32)>, width: u32, height: u32) -> bool {
    width != 0 && height != 0 && decoded != Some((width, height))
}

/// The state with an RGBA texture of this size, unless the size is empty.
pub open spec fn with_texture(state: PresentationModel, width: u32, height: u32)
    -> PresentationModel {
    if remakes_texture(state.decoded, width, height) {
        PresentationModel { decoded: Some((width, height)), mvs_bound: false, ..state }
    } else {
        state
    }
}

/// What is to be done with the tiles of an incoming frame before they are packed.
#[derive(Debug, Clone, Copy, PartialEq, Eq, Structural)]
pub struct TileMerge {
    /// Whether the RGBA texture is to be made anew.
    pub recreated: bool,
    /// Whether the tiles are merged into those uploaded before, or replace them.
    pub into_uploaded: bool,
    /// Whether the tiles uploaded before first count as drawn. They do not while
    /// their dispatch is still waiting.
    pub clear_first: bool,
    /// Whether all tiles are to be drawn again.
    pub redraw_all: bool,
}

/// What the GPU is to do for packed tiles.
#[derive(Debug, Clone, Copy, PartialEq, Eq, Structural)]
pub enum TilePlan {
    /// There is nothing to draw. The tiles are kept or forgotten.
    Skip { keep_tiles: bool },
    Upload {
        records_recreated: bool,
        payload_recreated: bool,
        /// Whether the quantization tables are to be written.
        write_quantization: bool,
        quantization_recreated: bool,
        /// Whether the shader is to be bound anew.
        rebind: bool,
    },
}

/// Whether the quantization tables on the GPU are not `tables`.
pub open spec fn tables_differ(state: PresentationModel, tables: [[u16; 64]; 2]) -> bool {
    state.uploaded_quantization != Some(tables) || state.quantization_capacity is None
}

fn same_table(a: &[u16; 64], b: &[u16; 64]) -> (same: bool)
    ensures
        same == (*a == *b),
{
    for i in 0..64usize
        invariant
            forall|k: int| 0 <= k < i ==> a[k] == b[k],
    {
        if a[i] != b[i] {
            return false;
        }
    }
    assert(*a =~= *b);
    true
}

fn same_tables(a: &[[u16; 64]; 2], b: &[[u16; 64]; 2]) -> (same: bool)
    ensures
        same == (*a == *b),
{
    let same = same_table(&a[0], &b[0]) && same_table(&a[1], &b[1]);
    if same {
        assert(*a =~= *b);
    }
    same
}

/// The quantization tables as words, luminance first.
pub open spec fn table_words(tables: [[u16; 64]; 2]) -> Seq<u32> {
    Seq::new(128, |k: int| tables[k / 64][k % 64] as u32)
}

/// The quantization tables as words, luminance first.
pub fn quantization_words(tables: &[[u16; 64]; 2]) -> (words: Vec<u32>)
    ensures
        words@ == table_words(*tables),
{
    let mut words: Vec<u32> = Vec::new();
    for k in 0..128usize
        invariant
            words@ == table_words(*tables).take(k as int),
    {
        words.push(tables[k / 64][k % 64] as u32);
        assert(words@ =~= table_words(*tables).take(k as int + 1));
    }
    assert(table_words(*tables).take(128) =~= table_words(*tables));
    words
}

/// A notice to the session about rendering.
#[derive(Debug, Clone, Copy, PartialEq, Eq, Structural)]
pub enum RenderNotice {
    Failed,
    Recovered,
}

/// How the picture is scaled.
#[derive(Debug, Clone, Copy, PartialEq, Eq, Structural)]
pub enum Filter {
    Interpolated,
    Sharp,
    Nearest,
}

/// The textures that a redraw or a capture reads.
#[derive(Debug, Clone, Copy, PartialEq, Eq, Structural)]
pub enum PresentedSource {
    Nv12 {
        width: u32,
        height: u32,
        range: YuvRange,
        matrix: YuvMatrix,
        primaries: YuvPrimaries,
    },
    Rgba { width: u32, height: u32 },
}

/// The textures that `state` shows, if any.
pub open spec fn presented(state: PresentationModel) -> Option<PresentedSource> {
    if state.present_native && state.native is Some && state.native->0.fully_initialized {
        let surface = state.native->0;
        Some(
            PresentedSource::Nv12 {
                width: surface.width,
                height: surface.height,
                range: surface.range,
                matrix: surface.matrix,
                primaries: surface.primaries,
            },
        )
    } else {
        match state.decoded {
            Some((width, height)) => Some(PresentedSource::Rgba { width, height }),
            None => None,
        }
    }
}

impl Presentation {
    /// A state in which nothing exists yet.
    pub fn new() -> (state: Self)
        ensures
            state@ == empty_presentation(false),
            state@.wf(),
    {
        Presentation {
            decoded: None,
            native: None,
            present_native: false,
            records_capacity: None,
            payload_capacity: None,
            quantization_capacity: None,
            uploaded_quantization: None,
            tile_size: None,
            mvs_bound: false,
            pending_mvs: None,
            pending_timing: None,
            presented_frame: false,
            reported_failure: false,
        }
    }

    /// Another session is shown: nothing of the previous one is left, and a frame
    /// of it that was never drawn is not captured.
    pub fn reset_session(&mut self)
        ensures
            final(self)@ == empty_presentation(old(self)@.reported_failure),
            final(self)@.wf(),
    {
        self.decoded = None;
        self.native = None;
        self.present_native = false;
        self.records_capacity = None;
        self.payload_capacity = None;
        self.quantization_capacity = None;
        self.uploaded_quantization = None;
        self.tile_size = None;
        self.mvs_bound = false;
        self.pending_mvs = None;
        self.pending_timing = None;
        self.presented_frame = false;
    }

    /// Takes note of an RGBA texture of this size; the answer says whether it is
    /// to be made anew.
    pub fn ensure_texture(&mut self, width: u32, height: u32) -> (recreated: bool)
        ensures
            recreated == remakes_texture(old(self)@.decoded, width, height),
            final(self)@ == with_texture(old(self)@, width, height),
    {
        if width == 0 || height == 0 {
            return false;
        }
        if let Some((current_width, current_height)) = self.decoded {
            if current_width == width && current_height == height {
                return false;
            }
        }
        self.mvs_bound = false;
        self.decoded = Some((width, height));
        true
    }

    /// Takes note of NV12 textures of this size; the answer says whether they are
    /// to be made anew.
    pub fn ensure_nv12_texture(&mut self, width: u32, height: u32) -> (recreated: bool)
        ensures
            recreated == remakes_surface(old(self)@.native, width, height),
            final(self)@ == (PresentationModel {
                native: target_surface(old(self)@.native, width, height),
                ..old(self)@
            }),
    {
        if width == 0 || height == 0 {
            return false;
        }
        if let Some(native) = &self.native {
            if native.width == width && native.height == height {
                return false;
            }
        }
        self.native = Some(Nv12Surface::fresh(width, height));
        true
    }

    /// Plans the upload of an NV12 frame. The textures are shown once every row
    /// of both planes has been written, be it by several frames.
    pub fn upload_nv12(&mut self, frame: &DecodedFrame) -> (plan: Nv12Plan)
        requires
            old(self)@.wf(),
            rows_inside(old(self)@, frame@),
        ensures
            final(self)@.wf(),
            ({
                let state = old(self)@;
                let target = target_surface(state.native, frame.width, frame.height);
                if !frame_fits(frame@) || target is None {
                    &&& final(self)@ == state
                    &&& plan.outcome == UploadOutcome::Invalid
                    &&& !plan.recreate
                    &&& plan.writes@ == Seq::<PlaneWrite>::empty()
                } else {
                    let surface = surface_with(target->0, frame@);
                    &&& final(self)@ == (PresentationModel {
                        native: Some(surface),
                        present_native: surface.fully_initialized,
                        pending_mvs: None,
                        ..state
                    })
                    &&& plan.outcome == if surface.fully_initialized {
                        UploadOutcome::Uploaded
                    } else {
                        UploadOutcome::Incomplete
                    }
                    &&& plan.recreate == remakes_surface(state.native, frame.width, frame.height)
                    &&& plan.writes@ == frame_writes(frame@, frame@.updates.len())
                }
            }),
    {
        if !check_frame(frame) {
            return Nv12Plan {
                recreate: false,
                writes: Vec::new(),
                outcome: UploadOutcome::Invalid,
            };
        }
        let recreate = self.ensure_nv12_texture(frame.width, frame.height);
        let mut surface = match self.native.take() {
            Some(surface) => surface,
            None => {
                return Nv12Plan {
                    recreate: false,
                    writes: Vec::new(),
                    outcome: UploadOutcome::Invalid,
                };
            },
        };
        let ghost target = surface@;
        assert forall|i: int| 0 <= i < frame@.updates.len() implies {
            let u = #[trigger] frame@.updates[i];
            &&& u.y_origin + u.y_rows <= target.height
            &&& u.uv_origin + u.uv_rows <= half_up(target.height as nat)
        } by {
            assert(update_fits(frame@, frame@.updates[i]));
        }
        surface.note_frame(frame);
        proof {
            lemma_rows_len(target.y, frame@.updates, frame@.updates.len());
            lemma_rows_len(target.uv, frame@.updates, frame@.updates.len());
        }
        self.pending_mvs = None;
        self.present_native = surface.fully_initialized;
        let outcome = if surface.fully_initialized {
            UploadOutcome::Uploaded
        } else {
            UploadOutcome::Incomplete
        };
        self.native = Some(surface);
        Nv12Plan { recreate, writes: plan_writes(frame), outcome }
    }

    /// Plans the upload of a whole RGBA picture of `len` bytes; the answer says
    /// whether it is uploaded. Tiles that were drawn before are overwritten.
    pub fn upload_rgba(&mut self, width: u16, height: u16, len: usize) -> (uploaded: bool)
        requires
            old(self)@.wf(),
        ensures
            final(self)@.wf(),
            uploaded == (len == 4 * width * height && with_texture(
                old(self)@,
                width as u32,
                height as u32,
            ).decoded is Some),
            final(self)@ == if uploaded {
                PresentationModel {
                    pending_mvs: None,
                    present_native: false,
                    tile_size: None,
                    ..with_texture(old(self)@, width as u32, height as u32)
                }
            } else {
                old(self)@
            },
    {
        let row: u32 = width as u32 * 4;
        assert(len == 4 * width * height <==> len == row * height as u32) by (nonlinear_arith)
            requires
                row == width * 4,
        ;
        if !area_is(row, height as u32, len) {
            return false;
        }
        if !self.ensure_texture(width as u32, height as u32) && self.decoded.is_none() {
            return false;
        }
        self.pending_mvs = None;
        self.present_native = false;
        self.tile_size = None;
        true
    }

    /// A frame of tiles came in: what is to be done with its tiles. `None` if
    /// there is no texture for them.
    pub fn begin_tiles(&mut self, width: u16, height: u16) -> (merge: Option<TileMerge>)
        requires
            old(self)@.wf(),
        ensures
            final(self)@.wf(),
            final(self)@ == (PresentationModel {
                present_native: false,
                ..with_texture(old(self)@, width as u32, height as u32)
            }),
            merge is Some <==> final(self)@.decoded is Some,
            merge matches Some(m) ==> {
                let recreated = remakes_texture(
                    old(self)@.decoded,
                    width as u32,
                    height as u32,
                );
                let same = old(self)@.tile_size == Some((width, height));
                m == (TileMerge {
                    recreated,
                    into_uploaded: same,
                    clear_first: same && old(self)@.pending_mvs is None,
                    redraw_all: same && recreated,
                })
            },
    {
        self.present_native = false;
        let recreated = self.ensure_texture(width as u32, height as u32);
        if self.decoded.is_none() {
            return None;
        }
        let same = match self.tile_size {
            Some((tile_width, tile_height)) => tile_width == width && tile_height == height,
            None => false,
        };
        Some(
            TileMerge {
                recreated,
                into_uploaded: same,
                clear_first: same && self.pending_mvs.is_none(),
                redraw_all: same && recreated,
            },
        )
    }

    /// The tiles of a frame are merged and `dirty` of them are to be drawn: packs
    /// them and plans the writes. A fresh texture without anything to draw is not
    /// shown.
    pub fn finish_tiles(
        &mut self,
        width: u16,
        height: u16,
        recreated: bool,
        dirty: &Vec<DirtyTile>,
        tables: &[[u16; 64]; 2],
        records: &mut Vec<u32>,
        payload: &mut Vec<i32>,
    ) -> (plan: TilePlan)
        requires
            old(self)@.wf(),
            dirty@.len() <= u32::MAX,
        ensures
            final(self)@.wf(),
            dirty@.len() == 0 ==> {
                &&& plan == TilePlan::Skip { keep_tiles: !recreated }
                &&& final(self)@ == (PresentationModel {
                    tile_size: if recreated {
                        None
                    } else {
                        Some((width, height))
                    },
                    ..old(self)@
                })
                &&& final(records)@ == old(records)@
                &&& final(payload)@ == old(payload)@
            },
            dirty@.len() > 0 ==> {
                let state = old(self)@;
                let record_words = seq![dirty@.len() as u32] + tiles::records_of(
                    dirty@,
                    dirty@.len(),
                );
                let payload_words = if tiles::payload_of(dirty@, dirty@.len()).len() == 0 {
                    seq![0i32]
                } else {
                    tiles::payload_of(dirty@, dirty@.len())
                };
                let record_bytes = storage::needed_capacity(4 * record_words.len());
                let payload_bytes = storage::needed_capacity(4 * payload_words.len());
                let changed = tables_differ(state, *tables);
                let records_recreated = storage::must_grow(state.records_capacity, record_bytes);
                let payload_recreated = storage::must_grow(state.payload_capacity, payload_bytes);
                let quantization_recreated = changed && storage::must_grow(
                    state.quantization_capacity,
                    512,
                );
                &&& final(records)@ == record_words
                &&& final(payload)@ == payload_words
                &&& plan == (TilePlan::Upload {
                    records_recreated,
                    payload_recreated,
                    write_quantization: changed,
                    quantization_recreated,
                    rebind: records_recreated || payload_recreated || quantization_recreated
                        || !state.mvs_bound,
                })
                &&& final(self)@ == (PresentationModel {
                    records_capacity: Some(
                        storage::capacity_after(state.records_capacity, record_bytes) as u64,
                    ),
                    payload_capacity: Some(
                        storage::capacity_after(state.payload_capacity, payload_bytes) as u64,
                    ),
                    quantization_capacity: if changed {
                        Some(storage::capacity_after(state.quantization_capacity, 512) as u64)
                    } else {
                        state.quantization_capacity
                    },
                    uploaded_quantization: if changed {
                        Some(*tables)
                    } else {
                        state.uploaded_quantization
                    },
                    mvs_bound: true,
                    pending_mvs: Some(dirty@.len() as u32),
                    tile_size: Some((width, height)),
                    ..state
                })
            },
    {
        if dirty.len() == 0 {
            self.tile_size = if recreated { None } else { Some((width, height)) };
            return TilePlan::Skip { keep_tiles: !recreated };
        }
        let changed = match &self.uploaded_quantization {
            Some(uploaded) => !same_tables(uploaded, tables),
            None => true,
        } || self.quantization_capacity.is_none();
        tiles::pack_dirty_gpu_tiles(dirty, records, payload);
        let records_recreated = storage::write_storage_buffer(
            &mut self.records_capacity,
            records.as_slice(),
        ).recreated;
        let words = storage::words_of(payload.as_slice());
        let payload_recreated = storage::write_storage_buffer(
            &mut self.payload_capacity,
            words.as_slice(),
        ).recreated;
        let mut quantization_recreated = false;
        if changed {
            let table = quantization_words(tables);
            quantization_recreated =
            storage::write_storage_buffer(
                &mut self.quantization_capacity,
                table.as_slice(),
            ).recreated;
            self.uploaded_quantization = Some(*tables);
        }
        let rebind = records_recreated || payload_recreated || quantization_recreated
            || !self.mvs_bound;
        self.mvs_bound = true;
        self.pending_mvs = Some(dirty.len() as u32);
        self.tile_size = Some((width, height));
        TilePlan::Upload {
            records_recreated,
            payload_recreated,
            write_quantization: changed,
            quantization_recreated,
            rebind,
        }
    }

    /// Takes note of what became of an uploaded frame. Only a native frame that
    /// failed validation is a failure; a later upload clears it.
    pub fn note_outcome(
        &mut self,
        outcome: UploadOutcome,
        native: bool,
        timing: Option<AvcFrameTiming>,
    ) -> (notice: Option<RenderNotice>)
        ensures
            notice == if outcome == UploadOutcome::Invalid && native {
                Some(RenderNotice::Failed)
            } else if outcome == UploadOutcome::Uploaded && old(self)@.reported_failure {
                Some(RenderNotice::Recovered)
            } else {
                None
            },
            final(self)@ == (PresentationModel {
                presented_frame: old(self)@.presented_frame || outcome == UploadOutcome::Uploaded,
                pending_timing: if outcome == UploadOutcome::Uploaded {
                    timing
                } else {
                    None
                },
                reported_failure: if outcome == UploadOutcome::Invalid && native {
                    true
                } else if outcome == UploadOutcome::Uploaded {
                    false
                } else {
                    old(self)@.reported_failure
                },
                ..old(self)@
            }),
    {
        let uploaded = outcome.is_uploaded();
        if uploaded {
            self.presented_frame = true;
        }
        self.pending_timing = if uploaded { timing } else { None };
        match outcome {
            UploadOutcome::Invalid => {
                if native {
                    self.reported_failure = true;
                    return Some(RenderNotice::Failed);
                }
                None
            },
            UploadOutcome::Uploaded => {
                if self.reported_failure {
                    self.reported_failure = false;
                    return Some(RenderNotice::Recovered);
                }
                None
            },
            UploadOutcome::Incomplete => None,
        }
    }

    /// The dispatch of the decode shader that a redraw begins with, if tiles wait
    /// for it. They wait no longer.
    pub fn take_dispatch(&mut self) -> (dispatch: Option<(u32, u32)>)
        requires
            old(self)@.pending_mvs matches Some(n) ==> 0 < n <= 65_535 * 65_535,
        ensures
            final(self)@ == (PresentationModel { pending_mvs: None, ..old(self)@ }),
            dispatch is Some <==> old(self)@.pending_mvs is Some,
            dispatch matches Some((x, y)) ==> (x as nat, y as nat) == tiles::dispatch_size(
                old(self)@.pending_mvs->0 as nat,
            ),
    {
        match self.pending_mvs.take() {
            Some(workgroups) => Some(tiles::mvs_dispatch_size(workgroups)),
            None => None,
        }
    }

    /// The textures that a redraw shows, if any.
    pub fn presented_source(&self) -> (source: Option<PresentedSource>)
        ensures
            source == presented(self@),
    {
        if self.present_native {
            if let Some(native) = &self.native {
                if native.fully_initialized {
                    return Some(
                        PresentedSource::Nv12 {
                            width: native.width,
                            height: native.height,
                            range: native.range,
                            matrix: native.matrix,
                            primaries: native.primaries,
                        },
                    );
                }
            }
        }
        match self.decoded {
            Some((width, height)) => Some(PresentedSource::Rgba { width, height }),
            None => None,
        }
    }

    /// The textures that a recording captures behind a redraw, if anything is to
    /// be captured: the first picture of a take, or one that is new.
    pub fn capture_source(&mut self, take_started: bool) -> (source: Option<PresentedSource>)
        ensures
            final(self)@ == (PresentationModel { presented_frame: false, ..old(self)@ }),
            source == if take_started || old(self)@.presented_frame {
                presented(old(self)@)
            } else {
                None
            },
    {
        let pending = self.presented_frame;
        self.presented_frame = false;
        if !take_started && !pending {
            return None;
        }
        self.presented_source()
    }

    /// The times of the frame that a redraw shows for the first time.
    pub fn take_timing(&mut self) -> (timing: Option<AvcFrameTiming>)
        ensures
            timing == old(self)@.pending_timing,
            final(self)@ == (PresentationModel { pending_timing: None, ..old(self)@ }),
    {
        self.pending_timing.take()
    }
}

/// The form in which a frame comes.
#[derive(Debug, Clone, Copy, PartialEq, Eq, Structural)]
pub enum FrameKind {
    Nv12,
    Rgba,
    Tiles,
}

/// The form in which a frame is uploaded: native planes go first, then a whole
/// picture, then tiles.
pub fn frame_kind(has_nv12: bool, has_rgba: bool) -> (kind: FrameKind)
    ensures
        kind == if has_nv12 {
            FrameKind::Nv12
        } else if has_rgba {
            FrameKind::Rgba
        } else {
            FrameKind::Tiles
        },
{
    if has_nv12 {
        FrameKind::Nv12
    } else if has_rgba {
        FrameKind::Rgba
    } else {
        FrameKind::Tiles
    }
}

/// What became of a frame that is not native: a picture that is not uploaded is
/// invalid, tiles that are not uploaded only show nothing new.
pub fn plain_outcome(kind: FrameKind, uploaded: bool) -> (outcome: UploadOutcome)
    ensures
        outcome == if uploaded {
            UploadOutcome::Uploaded
        } else if kind == FrameKind::Rgba {
            UploadOutcome::Invalid
        } else {
            UploadOutcome::Incomplete
        },
{
    if uploaded {
        UploadOutcome::Uploaded
    } else if kind == FrameKind::Rgba {
        UploadOutcome::Invalid
    } else {
        UploadOutcome::Incomplete
    }
}

/// How the picture is scaled, by the two settings for it.
pub fn render_filter(should_interpolate: bool, sharp_sampling: bool) -> (filter: Filter)
    ensures
        filter == if !should_interpolate {
            Filter::Nearest
        } else if sharp_sampling {
            Filter::Sharp
        } else {
            Filter::Interpolated
        },
{
    if should_interpolate {
        if sharp_sampling {
            Filter::Sharp
        } else {
            Filter::Interpolated
        }
    } else {
        Filter::Nearest
    }
}

/// A surface with unwritten rows is never shown: NV12 textures that are shown
/// have had every luma and every chroma row written.
pub proof fn law_half_written_surface_is_never_shown(state: PresentationModel)
    requires
        state.wf(),
        presented(state) is Some,
        presented(state)->0 is Nv12,
    ensures
        state.native is Some,
        all_written(state.native->0.y),
        all_written(state.native->0.uv),
        state.native->0.y.len() == state.native->0.height,
        state.native->0.uv.len() == half_up(state.native->0.height as nat),
{
}

proof fn lemma_rows_stay(rows: Seq<bool>, updates: Seq<DecodedSliceUpdate>, count: nat, row: int)
    requires
        0 <= row < rows.len(),
        rows[row],
    ensures
        y_after(rows, updates, count)[row],
        uv_after(rows, updates, count)[row],
    decreases count,
{
    lemma_rows_len(rows, updates, count);
    if count > 0 {
        lemma_rows_len(rows, updates, (count - 1) as nat);
        lemma_rows_stay(rows, updates, (count - 1) as nat, row);
    }
}

/// A frame never takes back what earlier frames have written, as long as the
/// size stays the same.
pub proof fn law_written_rows_stay_written(surface: SurfaceModel, frame: FrameModel, row: int)
    ensures
        0 <= row < surface.y.len() && surface.y[row] ==> surface_with(surface, frame).y[row],
        0 <= row < surface.uv.len() && surface.uv[row] ==> surface_with(surface, frame).uv[row],
{
    if 0 <= row < surface.y.len() && surface.y[row] {
        lemma_rows_stay(surface.y, frame.updates, frame.updates.len(), row);
    }
    if 0 <= row < surface.uv.len() && surface.uv[row] {
        lemma_rows_stay(surface.uv, frame.updates, frame.updates.len(), row);
    }
}

/// Whether some write goes to the row `row` of one of the two planes.
pub open spec fn some_write_covers(writes: Seq<PlaneWrite>, chroma: bool, row: int) -> bool {
    exists|k: int|
        0 <= k < writes.len() && (#[trigger] writes[k]).chroma == chroma && writes[k].origin <= row
            < writes[k].origin + writes[k].rows
}

proof fn lemma_frame_writes(frame: FrameModel, count: nat)
    requires
        frame_fits(frame),
        count <= frame.updates.len(),
        frame.updates.len() <= usize::MAX,
    ensures
        forall|k: int|
            0 <= k < frame_writes(frame, count).len() ==> {
                let w = #[trigger] frame_writes(frame, count)[k];
                let u = frame.updates[w.update as int];
                &&& 0 <= w.update < count
                &&& w.origin == if w.chroma {
                    u.uv_origin
                } else {
                    u.y_origin
                }
                &&& w.rows == if w.chroma {
                    u.uv_rows
                } else {
                    u.y_rows
                }
                &&& w.rows > 0
                &&& w.width == if w.chroma {
                    (frame.width + 1) / 2
                } else {
                    frame.width as int
                }
                &&& w.bytes_per_row == if w.chroma {
                    2 * ((frame.width + 1) / 2)
                } else {
                    frame.width as int
                }
                &&& w.byte_count == w.bytes_per_row * w.rows
            },
        forall|i: int, chroma: bool|
            0 <= i < count && (if chroma {
                frame.updates[i].uv_rows
            } else {
                frame.updates[i].y_rows
            }) > 0 ==> #[trigger] writes_update(frame_writes(frame, count), i, chroma),
    decreases count,
{
    if count > 0 {
        lemma_frame_writes(frame, (count - 1) as nat);
        let before = frame_writes(frame, (count - 1) as nat);
        let own = update_writes(frame, count - 1);
        let all = frame_writes(frame, count);
        law_writes_stay_inside(frame, count - 1);
        assert(update_fits(frame, frame.updates[count - 1]));
        assert forall|k: int| 0 <= k < all.len() implies {
            let w = #[trigger] all[k];
            let u = frame.updates[w.update as int];
            &&& 0 <= w.update < count
            &&& w.origin == if w.chroma {
                u.uv_origin
            } else {
                u.y_origin
            }
            &&& w.rows == if w.chroma {
                u.uv_rows
            } else {
                u.y_rows
            }
            &&& w.rows > 0
            &&& w.width == if w.chroma {
                (frame.width + 1) / 2
            } else {
                frame.width as int
            }
            &&& w.bytes_per_row == if w.chroma {
                2 * ((frame.width + 1) / 2)
            } else {
                frame.width as int
            }
            &&& w.byte_count == w.bytes_per_row * w.rows
        } by {
            if k < before.len() {
                assert(all[k] == before[k]);
            } else {
                assert(all[k] == own[k - before.len()]);
            }
        }
        assert forall|i: int, chroma: bool|
            0 <= i < count && (if chroma {
                frame.updates[i].uv_rows
            } else {
                frame.updates[i].y_rows
            }) > 0 implies #[trigger] writes_update(all, i, chroma) by {
            if i < count - 1 {
                assert(writes_update(before, i, chroma));
                let k = choose|k: int|
                    0 <= k < before.len() && (#[trigger] before[k]).update == i && before[k].chroma
                        == chroma;
                assert(all[k] == before[k]);
            } else {
                let k = if chroma {
                    own.len() - 1
                } else {
                    0
                };
                assert(own[k].update == i && own[k].chroma == chroma);
                assert(all[before.len() + k] == own[k]);
            }
        }
    }
}

/// Whether one of the writes is for a plane of the update `index`.
pub open spec fn writes_update(writes: Seq<PlaneWrite>, index: int, chroma: bool) -> bool {
    exists|k: int|
        0 <= k < writes.len() && (#[trigger] writes[k]).update == index && writes[k].chroma
            == chroma
}

/// The writes for a frame: each goes to exactly the rows that its update names for
/// the plane, with whole rows of the frame's width, of which chroma has half, in
/// pairs of bytes; and every update with rows for a plane has its write.
pub proof fn law_each_update_is_written_to_its_rows(frame: FrameModel)
    requires
        frame_fits(frame),
        frame.updates.len() <= usize::MAX,
    ensures
        ({
            let writes = frame_writes(frame, frame.updates.len());
            &&& forall|k: int|
                0 <= k < writes.len() ==> {
                    let w = #[trigger] writes[k];
                    let u = frame.updates[w.update as int];
                    &&& w.update < frame.updates.len()
                    &&& w.chroma ==> w.origin == u.uv_origin && w.rows == u.uv_rows && w.width
                        == (frame.width + 1) / 2 && w.bytes_per_row == 2 * w.width
                    &&& !w.chroma ==> w.origin == u.y_origin && w.rows == u.y_rows && w.width
                        == frame.width && w.bytes_per_row == w.width
                    &&& w.byte_count == w.bytes_per_row * w.rows
                }
            &&& forall|i: int|
                0 <= i < frame.updates.len() && (#[trigger] frame.updates[i]).y_rows > 0
                    ==> exists|k: int|
                    0 <= k < writes.len() && (#[trigger] writes[k]).update == i && !writes[k].chroma
            &&& forall|i: int|
                0 <= i < frame.updates.len() && (#[trigger] frame.updates[i]).uv_rows > 0
                    ==> exists|k: int|
                    0 <= k < writes.len() && (#[trigger] writes[k]).update == i && writes[k].chroma
        }),
{
    lemma_frame_writes(frame, frame.updates.len());
    let writes = frame_writes(frame, frame.updates.len());
    assert forall|i: int|
        0 <= i < frame.updates.len() && (#[trigger] frame.updates[i]).y_rows > 0 implies exists|
        k: int,
    | 0 <= k < writes.len() && (#[trigger] writes[k]).update == i && !writes[k].chroma by {
        assert(writes_update(writes, i, false));
    }
    assert forall|i: int|
        0 <= i < frame.updates.len() && (#[trigger] frame.updates[i]).uv_rows > 0 implies exists|
        k: int,
    | 0 <= k < writes.len() && (#[trigger] writes[k]).update == i && writes[k].chroma by {
        assert(writes_update(writes, i, true));
    }
}

proof fn lemma_marked(rows: Seq<bool>, updates: Seq<DecodedSliceUpdate>, count: nat, row: int)
    requires
        0 <= row < rows.len(),
        count <= updates.len(),
    ensures
        y_after(rows, updates, count)[row] <==> rows[row] || exists|i: int|
            0 <= i < count && (#[trigger] updates[i]).y_origin <= row < updates[i].y_origin
                + updates[i].y_rows,
        uv_after(rows, updates, count)[row] <==> rows[row] || exists|i: int|
            0 <= i < count && (#[trigger] updates[i]).uv_origin <= row < updates[i].uv_origin
                + updates[i].uv_rows,
    decreases count,
{
    if count > 0 {
        lemma_marked(rows, updates, (count - 1) as nat, row);
        lemma_rows_len(rows, updates, (count - 1) as nat);
        let last = updates[count - 1];
    }
}

/// A row counts as written exactly if it was before, or some planned write covers
/// it; and the surface counts as whole exactly if no row of either plane is missing.
/// It then has the colours of the frame.
pub proof fn law_marks_agree_with_the_writes(surface: SurfaceModel, frame: FrameModel)
    requires
        frame_fits(frame),
        frame.updates.len() <= usize::MAX,
    ensures
        ({
            let writes = frame_writes(frame, frame.updates.len());
            let after = surface_with(surface, frame);
            &&& after.width == surface.width
            &&& after.height == surface.height
            &&& after.y.len() == surface.y.len()
            &&& after.uv.len() == surface.uv.len()
            &&& forall|row: int|
                0 <= row < surface.y.len() ==> (#[trigger] after.y[row] <==> surface.y[row]
                    || some_write_covers(writes, false, row))
            &&& forall|row: int|
                0 <= row < surface.uv.len() ==> (#[trigger] after.uv[row] <==> surface.uv[row]
                    || some_write_covers(writes, true, row))
            &&& after.fully_initialized <==> (forall|row: int|
                0 <= row < after.y.len() ==> #[trigger] after.y[row]) && (forall|row: int|
                0 <= row < after.uv.len() ==> #[trigger] after.uv[row])
            &&& after.range == frame.range
            &&& after.matrix == frame.matrix
            &&& after.primaries == frame.primaries
        }),
{
    let n = frame.updates.len();
    let writes = frame_writes(frame, n);
    let after = surface_with(surface, frame);
    lemma_frame_writes(frame, n);
    lemma_rows_len(surface.y, frame.updates, n);
    lemma_rows_len(surface.uv, frame.updates, n);
    assert forall|row: int| 0 <= row < surface.y.len() implies (#[trigger] after.y[row] <==> surface.y[row]
        || some_write_covers(writes, false, row)) by {
        lemma_marked(surface.y, frame.updates, n, row);
        if exists|i: int|
            0 <= i < n && (#[trigger] frame.updates[i]).y_origin <= row < frame.updates[i].y_origin
                + frame.updates[i].y_rows {
            let i = choose|i: int|
                0 <= i < n && (#[trigger] frame.updates[i]).y_origin <= row
                    < frame.updates[i].y_origin + frame.updates[i].y_rows;
            assert(writes_update(writes, i, false));
            let k = choose|k: int|
                0 <= k < writes.len() && (#[trigger] writes[k]).update == i && writes[k].chroma
                    == false;
            assert(writes[k].origin <= row);
        }
        if some_write_covers(writes, false, row) {
            let k = choose|k: int|
                0 <= k < writes.len() && (#[trigger] writes[k]).chroma == false && writes[k].origin
                    <= row < writes[k].origin + writes[k].rows;
            assert(frame.updates[writes[k].update as int].y_origin <= row);
        }
    }
    assert forall|row: int| 0 <= row < surface.uv.len() implies (#[trigger] after.uv[row] <==> surface.uv[row]
        || some_write_covers(writes, true, row)) by {
        lemma_marked(surface.uv, frame.updates, n, row);
        if exists|i: int|
            0 <= i < n && (#[trigger] frame.updates[i]).uv_origin <= row < frame.updates[i].uv_origin
                + frame.updates[i].uv_rows {
            let i = choose|i: int|
                0 <= i < n && (#[trigger] frame.updates[i]).uv_origin <= row
                    < frame.updates[i].uv_origin + frame.updates[i].uv_rows;
            assert(writes_update(writes, i, true));
            let k = choose|k: int|
                0 <= k < writes.len() && (#[trigger] writes[k]).update == i && writes[k].chroma
                    == true;
            assert(writes[k].origin <= row);
        }
        if some_write_covers(writes, true, row) {
            let k = choose|k: int|
                0 <= k < writes.len() && (#[trigger] writes[k]).chroma == true && writes[k].origin
                    <= row < writes[k].origin + writes[k].rows;
            assert(frame.updates[writes[k].update as int].uv_origin <= row);
        }
    }
    assert(all_written(after.y) <==> forall|row: int|
        0 <= row < after.y.len() ==> #[trigger] after.y[row]);
    assert(all_written(after.uv) <==> forall|row: int|
        0 <= row < after.uv.len() ==> #[trigger] after.uv[row]);
}

/// A frame goes to the textures exactly if each of its slices is of its width and
/// its colours, has all the bytes of its own height in both planes, with a pair of
/// chroma bytes for every two columns and every two rows, and lies inside the frame.
pub proof fn law_valid_frames(frame: FrameModel)
    requires
        frame.width < u32::MAX,
    ensures
        frame_fits(frame) <==> forall|i: int|
            0 <= i < frame.updates.len() ==> {
                let u = #[trigger] frame.updates[i];
                let p = u.pixels;
                let columns = (frame.width + 1) / 2;
                &&& p.width == frame.width
                &&& (p.range, p.matrix, p.primaries) == (frame.range, frame.matrix, frame.primaries)
                &&& p.y_plane@.len() == frame.width * p.height
                &&& p.uv_plane@.len() == 2 * columns * ((p.height + 1) / 2)
                &&& u.y_rows <= p.height
                &&& u.uv_rows <= (p.height + 1) / 2
                &&& u.y_origin + u.y_rows <= frame.height
                &&& u.uv_origin + u.uv_rows <= (frame.height + 1) / 2
            },
{
    assert forall|i: int| 0 <= i < frame.updates.len() implies (update_fits(
        frame,
        #[trigger] frame.updates[i],
    ) <==> {
        let u = frame.updates[i];
        let p = u.pixels;
        let columns = (frame.width + 1) / 2;
        &&& p.width == frame.width
        &&& (p.range, p.matrix, p.primaries) == (frame.range, frame.matrix, frame.primaries)
        &&& p.y_plane@.len() == frame.width * p.height
        &&& p.uv_plane@.len() == 2 * columns * ((p.height + 1) / 2)
        &&& u.y_rows <= p.height
        &&& u.uv_rows <= (p.height + 1) / 2
        &&& u.y_origin + u.y_rows <= frame.height
        &&& u.uv_origin + u.uv_rows <= (frame.height + 1) / 2
    }) by {}
}

/// The textures are made anew exactly for a frame of another size than theirs;
/// nothing is written in new ones. A frame of their size is written to those that
/// are there, and one of no size never makes any.
pub proof fn law_textures_have_the_size_of_the_frame(
    native: Option<SurfaceModel>,
    width: u32,
    height: u32,
)
    ensures
        width > 0 && height > 0 ==> {
            let target = target_surface(native, width, height);
            &&& target is Some
            &&& target->0.width == width
            &&& target->0.height == height
            &&& remakes_surface(native, width, height) <==> target != native || native is None
        },
        remakes_surface(native, width, height) ==> {
            let target = target_surface(native, width, height)->0;
            &&& native is None || native->0.width != width || native->0.height != height
            &&& target.y.len() == height
            &&& target.uv.len() == (height + 1) / 2
            &&& forall|i: int| 0 <= i < target.y.len() ==> !#[trigger] target.y[i]
            &&& forall|i: int| 0 <= i < target.uv.len() ==> !#[trigger] target.uv[i]
            &&& !target.fully_initialized
        },
        width == 0 || height == 0 ==> target_surface(native, width, height) == native
            && !remakes_surface(native, width, height),
{
}

/// An RGBA texture is made anew exactly for a picture of another size than its own,
/// and then the decode shader is to be bound to it; a picture of no size changes
/// nothing.
pub proof fn law_rgba_texture_has_the_size_of_the_picture(
    state: PresentationModel,
    width: u32,
    height: u32,
)
    ensures
        ({
            let after = with_texture(state, width, height);
            if width > 0 && height > 0 {
                &&& after.decoded == Some((width, height))
                &&& remakes_texture(state.decoded, width, height) <==> state.decoded != Some(
                    (width, height),
                )
                &&& state.decoded != Some((width, height)) ==> !after.mvs_bound
                &&& state.decoded == Some((width, height)) ==> after == state
            } else {
                after == state && !remakes_texture(state.decoded, width, height)
            }
        }),
        ({
            let after = with_texture(state, width, height);
            &&& after.native == state.native
            &&& after.pending_mvs == state.pending_mvs
            &&& after.tile_size == state.tile_size
            &&& after.uploaded_quantization == state.uploaded_quantization
        }),
{
}

/// What is shown: the NV12 textures with their own size and colours while they are
/// the ones presented and whole, and otherwise the RGBA texture, if there is one.
pub proof fn law_what_is_shown(state: PresentationModel)
    ensures
        match presented(state) {
            Some(PresentedSource::Nv12 { width, height, range, matrix, primaries }) => {
                &&& state.present_native
                &&& state.native is Some
                &&& state.native->0.fully_initialized
                &&& (width, height) == (state.native->0.width, state.native->0.height)
                &&& range == state.native->0.range
                &&& matrix == state.native->0.matrix
                &&& primaries == state.native->0.primaries
            },
            Some(PresentedSource::Rgba { width, height }) => state.decoded == Some((width, height)),
            None => state.decoded is None,
        },
        state.present_native && state.native is Some && state.native->0.fully_initialized
            ==> presented(state) is Some && presented(state)->0 is Nv12,
        presented(empty_presentation(state.reported_failure)) is None,
{
}

/// The quantization tables on the GPU: the luminance table comes first, each entry at
/// its place; and they are written again exactly if those that were written last are
/// others, or there is no buffer for them.
pub proof fn law_tables_keep_their_order(
    state: PresentationModel,
    tables: [[u16; 64]; 2],
    t: int,
    j: int,
)
    requires
        0 <= t < 2,
        0 <= j < 64,
    ensures
        table_words(tables).len() == 128,
        table_words(tables)[64 * t + j] == tables[t][j],
        !tables_differ(state, tables) <==> state.uploaded_quantization == Some(tables)
            && state.quantization_capacity is Some,
{
    assert((64 * t + j) / 64 == t && (64 * t + j) % 64 == j);
}

/// A frame of four slices as they come from the decoder fits its textures, and shows
/// at once: when it is written to new textures, no row of them is missing.
pub proof fn law_a_whole_frame_shows_at_once(frame: FrameModel, slice_height: u32)
    requires
        frame.updates.len() == 4,
        frame.width > 0,
        frame.height > 0,
        frame.height % 2 == 0,
        frame.width < u32::MAX,
        slice_height % 2 == 0,
        3 * slice_height < frame.height <= 4 * slice_height,
        forall|k: int|
            0 <= k < 4 ==> {
                let u = #[trigger] frame.updates[k];
                let p = u.pixels;
                &&& p.width == frame.width
                &&& p.height == slice_height
                &&& (p.range, p.matrix, p.primaries) == (frame.range, frame.matrix, frame.primaries)
                &&& p.y_plane@.len() == frame.width * p.height
                &&& p.uv_plane@.len() == 2 * ((frame.width + 1) / 2) * ((p.height + 1) / 2)
                &&& u.y_origin == k * slice_height
                &&& u.y_rows == if k < 3 {
                    slice_height as int
                } else {
                    frame.height - 3 * slice_height
                }
                &&& 2 * u.uv_origin == u.y_origin
                &&& 2 * u.uv_rows == u.y_rows
            },
    ensures
        frame_fits(frame),
        target_surface(None, frame.width, frame.height) is Some,
        surface_with(
            target_surface(None, frame.width, frame.height)->0,
            frame,
        ).fully_initialized,
{
    law_valid_frames(frame);
    let target = target_surface(None, frame.width, frame.height)->0;
    let (h, s) = (frame.height as int, slice_height as int);
    let u0 = frame.updates[0];
    let u1 = frame.updates[1];
    let u2 = frame.updates[2];
    let u3 = frame.updates[3];
    assert forall|k: int| 0 <= k < 4 implies {
        let u = #[trigger] frame.updates[k];
        &&& u.y_origin + u.y_rows <= h
        &&& u.y_rows <= s
        &&& u.uv_origin + u.uv_rows <= (h + 1) / 2
        &&& u.uv_rows <= (s + 1) / 2
    } by {
        assert(k == 0 || k == 1 || k == 2 || k == 3);
    }
    let after = surface_with(target, frame);
    lemma_rows_len(target.y, frame.updates, 4);
    lemma_rows_len(target.uv, frame.updates, 4);
    assert forall|row: int| 0 <= row < after.y.len() implies after.y[row] by {
        lemma_marked(target.y, frame.updates, 4, row);
        if row < s {
            assert(u0.y_origin <= row < u0.y_origin + u0.y_rows);
        } else if row < 2 * s {
            assert(u1.y_origin <= row < u1.y_origin + u1.y_rows);
        } else if row < 3 * s {
            assert(u2.y_origin <= row < u2.y_origin + u2.y_rows);
        } else {
            assert(u3.y_origin <= row < u3.y_origin + u3.y_rows);
        }
    }
    assert forall|row: int| 0 <= row < after.uv.len() implies after.uv[row] by {
        lemma_marked(target.uv, frame.updates, 4, row);
        if 2 * row < s {
            assert(u0.uv_origin <= row < u0.uv_origin + u0.uv_rows);
        } else if 2 * row < 2 * s {
            assert(u1.uv_origin <= row < u1.uv_origin + u1.uv_rows);
        } else if 2 * row < 3 * s {
            assert(u2.uv_origin <= row < u2.uv_origin + u2.uv_rows);
        } else {
            assert(u3.uv_origin <= row < u3.uv_origin + u3.uv_rows);
        }
    }
    assert(all_written(after.y));
    assert(all_written(after.uv));
}

} // verus!
