use ard_viewer::clock::{Duration, Instant};
use ard_viewer::media::{
    AvcFrameTiming, DecodedFrame, DecodedSlice, DecodedSliceUpdate, YuvMatrix, YuvPrimaries,
    YuvRange,
};
use ard_viewer::renderer::presentation::{
    frame_kind, plain_outcome, quantization_words, render_filter, Filter, FrameKind, PlaneWrite,
    Presentation, PresentedSource, RenderNotice, TileMerge, TilePlan, UploadOutcome,
};
use ard_viewer::renderer::storage::{upload_bytes, words_of, write_storage_buffer};
use ard_viewer::renderer::tiles::{
    mvs_dispatch_size, pack_bytes, pack_dirty_gpu_tiles, DirtyTile, MvsGpuTile, MvsGpuTileUpdate,
};

#[test]
fn mvs_dispatch_spreads_large_frames_across_two_dimensions() {
    assert_eq!(mvs_dispatch_size(65_535), (65_535, 1));
    assert_eq!(mvs_dispatch_size(118_984), (59_492, 2));
}

/// The presenter hands the surface linear values and the surface encodes
/// them with the sRGB transfer function, so every 8-bit code must survive
/// that round trip: a curve mismatch would shift the whole picture by a
/// level against the reference client and against a recording.
#[test]
fn presentation_round_trip_is_exact() {
    fn linearize(encoded: f32) -> f32 {
        if encoded <= 0.04045 {
            encoded / 12.92
        } else {
            ((encoded + 0.055) / 1.055).powf(2.4)
        }
    }
    fn encode(linear: f32) -> f32 {
        if linear <= 0.0031308 {
            12.92 * linear
        } else {
            1.055 * linear.powf(1.0 / 2.4) - 0.055
        }
    }
    for code in 0..=255_u16 {
        let encoded = f32::from(code) / 255.0;
        let round_tripped = (encode(linearize(encoded)) * 255.0).round();
        assert_eq!(
            round_tripped,
            f32::from(code),
            "code {code} came back as {round_tripped}"
        );
    }
}

fn tile(x: u16, tile: MvsGpuTile, quantizer: u16) -> DirtyTile {
    DirtyTile {
        update: MvsGpuTileUpdate {
            x,
            y: 16,
            width: 8,
            height: 4,
            tile,
        },
        quantization: [[quantizer; 64], [quantizer + 1; 64]],
    }
}

fn coefficients(value: i16) -> [[i16; 64]; 3] {
    [[value; 64], [value; 64], [-value; 64]]
}

#[test]
fn packed_tiles_keep_their_own_quantization() {
    let tiles = vec![
        tile(0, MvsGpuTile::Dct(coefficients(8)), 8),
        tile(8, MvsGpuTile::RiceDct(coefficients(8)), 24),
    ];
    let mut records = vec![99];
    let mut payload = vec![99];
    pack_dirty_gpu_tiles(&tiles, &mut records, &mut payload);
    assert_eq!(records.len(), 17);
    assert_eq!(payload.len(), 384);
    assert_eq!(records[0], 2);
    assert_eq!(&records[1..9], &[0, 16, 8, 4, 4, 0, 0, 0]);
    assert_eq!(&records[9..], &[8, 16, 8, 4, 5, 192, 0, 0]);
    for record in records[1..].chunks_exact(8) {
        assert_eq!(
            payload[record[5] as usize],
            if record[0] == 0 { 64 } else { 192 }
        );
    }
    // The chroma components use the second table.
    assert_eq!((payload[64], payload[128]), (72, -72));
    assert_eq!((payload[192 + 64], payload[192 + 128]), (200, -200));
}

#[test]
fn tiles_of_every_kind_have_their_number() {
    let tiles = vec![
        tile(0, MvsGpuTile::SolidYcbcr([1, 2, 3]), 1),
        tile(1, MvsGpuTile::SolidRgba([1, 2, 3, 4]), 1),
        tile(2, MvsGpuTile::PixelsYcbcr(vec![[1, 2, 3]; 2]), 1),
        tile(3, MvsGpuTile::PixelsRgba(vec![[1, 2, 3, 4]]), 1),
    ];
    let mut records = Vec::new();
    let mut payload = Vec::new();
    pack_dirty_gpu_tiles(&tiles, &mut records, &mut payload);
    let fields: Vec<(u32, u32, u32)> = records[1..]
        .chunks_exact(8)
        .map(|record| (record[4], record[5], record[6]))
        .collect();
    assert_eq!(
        fields,
        vec![
            (0, 0, 0xff03_0201),
            (1, 0, 0x0403_0201),
            (2, 0, 0),
            (3, 2, 0)
        ]
    );
    assert_eq!(
        payload,
        vec![
            0xff03_0201_u32 as i32,
            0xff03_0201_u32 as i32,
            0x0403_0201
        ]
    );
    assert_eq!(pack_bytes([1, 2, 3], 255), 0xff03_0201);
    pack_dirty_gpu_tiles(&Vec::new(), &mut records, &mut payload);
    assert_eq!((records, payload), (vec![0], vec![0]));
}

#[test]
fn uploads_hold_the_memory_of_their_words() {
    let words = [0x0403_0201_u32, 0xffff_fffe];
    let bytes: Vec<u8> = words.iter().flat_map(|word| word.to_ne_bytes()).collect();
    assert_eq!(upload_bytes(&words), &bytes[..]);
    assert_eq!(words_of(&[0, -1, i32::MIN]), vec![0, u32::MAX, 1 << 31]);
}

#[test]
fn storage_buffers_grow_by_at_least_a_quarter() {
    let mut slot = None;
    assert!(write_storage_buffer(&mut slot, &[]).recreated);
    assert_eq!(slot, Some(4));
    let words = vec![7; 100];
    let write = write_storage_buffer(&mut slot, &words);
    assert!(write.recreated);
    assert_eq!(write.bytes.len(), 400);
    assert_eq!(slot, Some(400));
    assert!(!write_storage_buffer(&mut slot, &words[..50]).recreated);
    assert_eq!(slot, Some(400));
    assert!(write_storage_buffer(&mut slot, &[0; 101]).recreated);
    assert_eq!(slot, Some(500));
}

fn update(slice_index: usize, y_origin: u32, y_rows: u32) -> DecodedSliceUpdate {
    DecodedSliceUpdate {
        slice_index,
        y_origin,
        y_rows,
        uv_origin: y_origin / 2,
        uv_rows: y_rows / 2,
        pixels: DecodedSlice {
            width: 3,
            height: 4,
            y_plane: vec![1; 12],
            uv_plane: vec![2; 8],
            range: YuvRange::Full,
            matrix: YuvMatrix::Bt601,
            primaries: YuvPrimaries::Bt2020,
        },
    }
}

fn nv12_frame(updates: Vec<DecodedSliceUpdate>) -> DecodedFrame {
    DecodedFrame {
        width: 3,
        height: 8,
        encoded_bytes: 0,
        range: YuvRange::Full,
        matrix: YuvMatrix::Bt601,
        primaries: YuvPrimaries::Bt2020,
        updates,
        timing: None,
    }
}

#[test]
fn nv12_surfaces_are_shown_once_every_row_is_written() {
    let mut state = Presentation::new();
    let plan = state.upload_nv12(&nv12_frame(vec![update(0, 0, 4)]));
    assert!(plan.recreate);
    assert_eq!(plan.outcome, UploadOutcome::Incomplete);
    assert_eq!(
        plan.writes,
        vec![
            PlaneWrite {
                update: 0,
                chroma: false,
                origin: 0,
                rows: 4,
                width: 3,
                bytes_per_row: 3,
                byte_count: 12,
            },
            PlaneWrite {
                update: 0,
                chroma: true,
                origin: 0,
                rows: 2,
                width: 2,
                bytes_per_row: 4,
                byte_count: 8,
            },
        ]
    );
    assert_eq!(state.presented_source(), None);
    let plan = state.upload_nv12(&nv12_frame(vec![update(1, 4, 4)]));
    assert!(!plan.recreate);
    assert!(plan.outcome.is_uploaded());
    assert_eq!(
        state.presented_source(),
        Some(PresentedSource::Nv12 {
            width: 3,
            height: 8,
            range: YuvRange::Full,
            matrix: YuvMatrix::Bt601,
            primaries: YuvPrimaries::Bt2020,
        })
    );
    // A later partial update leaves the written rows written.
    assert!(state
        .upload_nv12(&nv12_frame(vec![update(0, 0, 2)]))
        .outcome
        .is_uploaded());
}

#[test]
fn invalid_nv12_frames_are_reported_until_the_next_upload() {
    let mut state = Presentation::new();
    let mut broken = update(0, 6, 4);
    let plan = state.upload_nv12(&nv12_frame(vec![broken]));
    assert_eq!(plan.outcome, UploadOutcome::Invalid);
    assert!(plan.writes.is_empty());
    broken = update(0, 0, 4);
    broken.pixels.y_plane.pop();
    assert_eq!(
        state.upload_nv12(&nv12_frame(vec![broken])).outcome,
        UploadOutcome::Invalid
    );
    // So are frames without a width, whatever is shown.
    state.upload_nv12(&nv12_frame(vec![update(0, 0, 4)]));
    let mut empty = nv12_frame(vec![update(0, 0, 4)]);
    empty.width = 0;
    let plan = state.upload_nv12(&empty);
    assert_eq!(plan.outcome, UploadOutcome::Invalid);
    assert!(plan.writes.is_empty());
    assert_eq!(
        state.note_outcome(UploadOutcome::Invalid, true, None),
        Some(RenderNotice::Failed)
    );
    assert_eq!(
        state.note_outcome(UploadOutcome::Incomplete, true, None),
        None
    );
    state.reset_session();
    let timing = AvcFrameTiming {
        first_packet_received_at: Instant::at(Duration::from_secs(1)),
        first_access_unit_completed_at: Instant::at(Duration::from_secs(2)),
        batch_released_at: Instant::at(Duration::from_secs(3)),
        decoded_at: Instant::at(Duration::from_secs(4)),
        negotiated_dimensions: None,
    };
    assert_eq!(
        state.note_outcome(UploadOutcome::Uploaded, true, Some(timing)),
        Some(RenderNotice::Recovered)
    );
    assert_eq!(
        state.note_outcome(UploadOutcome::Uploaded, true, Some(timing)),
        None
    );
    let taken = state.take_timing().expect("timing");
    assert_eq!(taken.decoded_at, timing.decoded_at);
    assert!(state.take_timing().is_none());
    assert_eq!(
        state.note_outcome(UploadOutcome::Invalid, false, None),
        None
    );
}

#[test]
fn rgba_pictures_replace_drawn_tiles() {
    let mut state = Presentation::new();
    assert!(!state.upload_rgba(4, 2, 31));
    assert_eq!(state.presented_source(), None);
    assert!(state.upload_rgba(4, 2, 32));
    assert_eq!(
        state.presented_source(),
        Some(PresentedSource::Rgba {
            width: 4,
            height: 2
        })
    );
    let dirty = vec![tile(0, MvsGpuTile::SolidRgba([0; 4]), 1)];
    let merge = state.begin_tiles(4, 2).expect("texture");
    assert_eq!(
        merge,
        TileMerge {
            recreated: false,
            into_uploaded: false,
            clear_first: false,
            redraw_all: false,
        }
    );
    let tables = [[3; 64], [4; 64]];
    let (mut records, mut payload) = (Vec::new(), Vec::new());
    assert_eq!(
        state.finish_tiles(4, 2, false, &dirty, &tables, &mut records, &mut payload),
        TilePlan::Upload {
            records_recreated: true,
            payload_recreated: true,
            write_quantization: true,
            quantization_recreated: true,
            rebind: true,
        }
    );
    assert_eq!(records.len(), 9);
    assert_eq!(payload, vec![0]);
    let merge = state.begin_tiles(4, 2).expect("texture");
    assert!(merge.into_uploaded && !merge.clear_first);
    assert_eq!(state.take_dispatch(), Some((1, 1)));
    assert_eq!(state.take_dispatch(), None);
    let merge = state.begin_tiles(4, 2).expect("texture");
    assert!(merge.into_uploaded && merge.clear_first && !merge.redraw_all);
    assert_eq!(
        state.finish_tiles(4, 2, false, &dirty, &tables, &mut records, &mut payload),
        TilePlan::Upload {
            records_recreated: false,
            payload_recreated: false,
            write_quantization: false,
            quantization_recreated: false,
            rebind: false,
        }
    );
    assert!(state.upload_rgba(4, 2, 32));
    assert!(!state.begin_tiles(4, 2).expect("texture").into_uploaded);
    assert_eq!(
        state.finish_tiles(4, 2, true, &Vec::new(), &tables, &mut records, &mut payload),
        TilePlan::Skip { keep_tiles: false }
    );
    let words = quantization_words(&tables);
    assert_eq!((words.len(), words[63], words[64]), (128, 3, 4));
}

#[test]
fn recordings_capture_new_pictures_only() {
    let mut state = Presentation::new();
    assert_eq!(state.capture_source(true), None);
    state.upload_rgba(4, 2, 32);
    state.note_outcome(UploadOutcome::Uploaded, false, None);
    let rgba = Some(PresentedSource::Rgba {
        width: 4,
        height: 2,
    });
    assert_eq!(state.capture_source(false), rgba);
    assert_eq!(state.capture_source(false), None);
    // The first picture of a take is recorded even if it is not new.
    assert_eq!(state.capture_source(true), rgba);
    assert!(Presentation::new().begin_tiles(0, 2).is_none());
    assert!(!Presentation::new().ensure_texture(0, 1));
    assert!(Presentation::new().ensure_nv12_texture(1, 1));
}

#[test]
fn frames_are_uploaded_in_their_best_form() {
    assert_eq!(frame_kind(true, true), FrameKind::Nv12);
    assert_eq!(frame_kind(false, true), FrameKind::Rgba);
    assert_eq!(frame_kind(false, false), FrameKind::Tiles);
    assert_eq!(
        plain_outcome(FrameKind::Rgba, false),
        UploadOutcome::Invalid
    );
    assert_eq!(
        plain_outcome(FrameKind::Tiles, false),
        UploadOutcome::Incomplete
    );
    assert_eq!(
        plain_outcome(FrameKind::Tiles, true),
        UploadOutcome::Uploaded
    );
    assert_eq!(render_filter(true, true), Filter::Sharp);
    assert_eq!(render_filter(true, false), Filter::Interpolated);
    assert_eq!(render_filter(false, true), Filter::Nearest);
}
