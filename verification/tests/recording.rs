use ard_viewer::clock::{Duration, Instant};
use ard_viewer::media::{YuvMatrix, YuvPrimaries, YuvRange};
use ard_viewer::recording::encoder::{
    available, h264_parameter_sets, supported, CompressedImage, EncodeRequest, EncodedSample,
    EncoderSettings, H264Encoder, ParameterSets, Platform, SetReading, TransformSample,
};
use ard_viewer::recording::errors::RecordingError;
use ard_viewer::recording::input::{
    create_image, image_format, input_layout, output_capacity, pack_frame, packed_frame_rate,
    packed_pair, signed_bitrate, signed_units, ImageFormat, InputLayout,
};
use ard_viewer::recording::labels::{next_index, output_path, sanitize_label};
use ard_viewer::recording::layout::{FrameLayout, SourceFrame};
use ard_viewer::recording::muxer::{Mp4Muxer, MuxerSummary, NewTrack, VideoTrackFormat};
use ard_viewer::recording::nal::{
    annex_b_is_sync, annex_b_units, parameter_sets, to_avcc, to_avcc_skipping,
};
use ard_viewer::recording::quality::{RecordingQuality, FRAME_RATE_HINT};
use ard_viewer::recording::state::{RecordingState, SegmentEnd};
use ard_viewer::recording::take::{
    next_step, RecordingControl, RecordingOutcome, RecordingStats, RecordingStep, StagingBuffer,
    StagingPool, Take, WakeUp,
};
use ard_viewer::recording::tap::{BufferId, CapturePlan, CopySource, PlaneCopy, RecordingTap};
use ard_viewer::recording::timeline::{
    duration_from_hns, duration_hns, position_from_hns, position_hns, timeline_position, units_hns,
    timeline_units, FrameTimeline, HNS_PER_SECOND, TIMESCALE,
};
use ard_viewer::recording::writer::{FrameEntry, TakeWriter, WriterAction};
use ard_viewer::renderer::presentation::PresentedSource;

#[test]
fn frame_durations_follow_the_captured_timeline() {
    let mut timeline = FrameTimeline::default();
    assert_eq!(timeline.advance(Duration::zero()), None);
    // A 60 Hz presentation is stored as an exact 1/60 s sample.
    assert_eq!(
        timeline.advance(Duration::from_nanos(16_666_667)),
        Some(1500)
    );
    // A static desktop stays one sample until the next change, two seconds
    // later, instead of being filled with repeated frames.
    assert_eq!(
        timeline.advance(Duration::from_nanos(16_666_667 + 2_000_000_000)),
        Some(TIMESCALE * 2)
    );
}

#[test]
fn the_last_frame_is_closed_at_the_stop_instant() {
    let mut timeline = FrameTimeline::default();
    timeline.advance(Duration::from_millis(100));
    assert_eq!(timeline.finish(Duration::from_millis(150)), Some(4500));
    // Finishing twice (or after a flush) must not invent another sample.
    assert_eq!(timeline.finish(Duration::from_millis(200)), None);
}

#[test]
fn sub_millisecond_frames_still_advance_the_timeline() {
    let mut timeline = FrameTimeline::default();
    timeline.advance(Duration::zero());
    assert_eq!(timeline.advance(Duration::from_micros(200)), Some(18));
    assert_eq!(
        timeline.finish(Duration::from_micros(200)),
        Some(1),
        "a zero-length sample would stall playback"
    );
}

#[test]
fn recording_support_matches_the_platform_encoder() {
    for (platform, encoder) in [
        (Platform::MacOs, true),
        (Platform::Windows, true),
        (Platform::Other, false),
    ] {
        assert_eq!(supported(platform), encoder);
        assert_eq!(available(platform), encoder);
    }
}

#[test]
fn timeline_units_represent_common_frame_rates_exactly() {
    assert_eq!(timeline_units(Duration::from_nanos(16_666_667)), 1500);
    assert_eq!(timeline_units(Duration::from_nanos(33_333_333)), 3000);
    assert_eq!(timeline_units(Duration::from_millis(20)), 1800);
    assert_eq!(timeline_units(Duration::from_secs(1)), TIMESCALE);
    assert_eq!(
        timeline_position(Duration::from_secs(1)),
        u64::from(TIMESCALE)
    );
}

#[test]
fn sub_tick_deltas_still_produce_a_playable_sample() {
    assert_eq!(timeline_units(Duration::zero()), 1);
    assert_eq!(timeline_units(Duration::from_nanos(1)), 1);
    assert_eq!(timeline_position(Duration::zero()), 0);
}

#[test]
fn labels_become_safe_file_names() {
    assert_eq!(sanitize_label("192.168.0.24:5900"), "192.168.0.24");
    assert_eq!(sanitize_label("mac-mini.local:5900"), "mac-mini.local");
    assert_eq!(sanitize_label("wei@mac/studio"), "wei-mac-studio");
    assert_eq!(sanitize_label("  "), "ard");
    assert_eq!(sanitize_label(&"h".repeat(200)).len(), 48);
}

#[test]
fn labels_keep_letters_of_every_script() {
    assert_eq!(sanitize_label("客厅 电脑:5900"), "客厅 电脑");
    // 17 characters of three bytes each: the label ends with a whole one.
    let long = sanitize_label(&"画".repeat(17));
    assert_eq!(long, "画".repeat(16));
}

#[test]
fn recording_files_are_numbered_without_overwriting() {
    let mut files: Vec<String> = Vec::new();
    assert_eq!(
        next_index(|index| files.contains(&output_path("host", index, 1))),
        1
    );
    files.push(output_path("host", 1, 1));
    assert_eq!(
        next_index(|index| files.contains(&output_path("host", index, 1))),
        2
    );
    // A continuation segment of take 1 does not shift the next take.
    files.push(output_path("host", 1, 2));
    assert_eq!(
        next_index(|index| files.contains(&output_path("host", index, 1))),
        2
    );
    assert_eq!(output_path("host", 2, 2), "host 2-2.mp4");
    assert_eq!(output_path("host", 2, 1), "host 2.mp4");
    assert_eq!(next_index(|_| true), 1);
}

#[test]
fn quality_targets_scale_with_the_recorded_frame_size() {
    let small = RecordingQuality::Balanced.bitrate(640, 360);
    let large = RecordingQuality::Balanced.bitrate(2880, 1800);
    assert!(small >= 1_500_000);
    assert!(large > small);
    assert!(RecordingQuality::High.bitrate(2880, 1800) > large);
    assert!(RecordingQuality::Compact.bitrate(2880, 1800) < large);
    assert!(RecordingQuality::High.bitrate(4096, 4096) <= 120_000_000);
}

#[test]
fn bitrate_is_bits_per_pixel_at_thirty_frames() {
    for (quality, bits) in [
        (RecordingQuality::High, 0.2_f64),
        (RecordingQuality::Balanced, 0.12),
        (RecordingQuality::Compact, 0.07),
    ] {
        for (width, height) in [(1920_u32, 1080_u32), (1440, 900), (2560, 1440)] {
            let exact = f64::from(width) * f64::from(height) * f64::from(FRAME_RATE_HINT) * bits;
            let expected = exact.clamp(1_500_000.0, 120_000_000.0);
            let rate = f64::from(quality.bitrate(width, height));
            assert!(
                (rate - expected).abs() <= 1.0,
                "{quality:?} {width}x{height}: {rate} {expected}"
            );
        }
    }
}

#[test]
fn frame_layouts_describe_their_staging_regions() {
    let rgba = FrameLayout::bgra(1920, 1080);
    assert_eq!(rgba.width(), 1920);
    assert_eq!(rgba.height(), 1080);
    assert!(!rgba.is_nv12());
    assert_eq!(rgba.buffer_size(), 1920 * 4 * 1080);

    // Both planes are padded to the 256-byte copy alignment: a 1440-pixel
    // luma row occupies 1536 bytes, and the chroma plane starts on the next
    // aligned offset.
    let nv12 = FrameLayout::nv12(
        1440,
        900,
        YuvRange::Video,
        YuvMatrix::Bt709,
        YuvPrimaries::Bt709,
    );
    assert!(nv12.is_nv12());
    assert_eq!(nv12.buffer_size(), 1536 * 900 + 1536 * 450);
}

/// SPS, PPS, and an IDR slice, as an encoder emits them for a keyframe.
fn annex_b_keyframe() -> Vec<u8> {
    let mut data = Vec::new();
    for (unit_type, payload) in [
        (7_u8, &[0xaa_u8, 0xbb][..]),
        (8, &[0xcc]),
        (5, &[0xdd, 0xee]),
    ] {
        data.extend_from_slice(&[0, 0, 0, 1, 0x60 | unit_type]);
        data.extend_from_slice(payload);
    }
    data
}

#[test]
fn annex_b_units_accept_three_and_four_byte_start_codes() {
    let data = [0, 0, 1, 0x65, 0x11, 0, 0, 0, 1, 0x41, 0x22];
    let units = annex_b_units(&data);
    assert_eq!(units.len(), 2);
    assert_eq!(units[0].bytes, &[0x65, 0x11]);
    assert_eq!(units[1].bytes, &[0x41, 0x22]);
}

#[test]
fn avcc_conversion_length_prefixes_every_unit() {
    let data = annex_b_keyframe();
    let avcc = to_avcc(&data).expect("keyframe converts");
    assert_eq!(
        avcc,
        vec![
            0, 0, 0, 3, 0x67, 0xaa, 0xbb, //
            0, 0, 0, 2, 0x68, 0xcc, //
            0, 0, 0, 3, 0x65, 0xdd, 0xee,
        ]
    );
}

#[test]
fn avcc_conversion_rejects_input_without_nals() {
    assert!(to_avcc(&[]).is_none());
    assert!(to_avcc(&[0, 0, 0, 0]).is_none());
}

#[test]
fn filtered_conversion_drops_parameter_sets_from_the_sample() {
    let data = annex_b_keyframe();
    let avcc = to_avcc_skipping(&data, |unit_type| unit_type == 7 || unit_type == 8)
        .expect("the IDR survives");
    assert_eq!(avcc, vec![0, 0, 0, 3, 0x65, 0xdd, 0xee]);
    // A unit that held nothing but parameter sets is not a sample at all.
    let (sps, _) = parameter_sets(&data, false);
    let sets = sps.expect("sps");
    let mut only_sets = vec![0, 0, 0, 1];
    only_sets.extend_from_slice(&sets);
    assert!(to_avcc_skipping(&only_sets, |unit_type| unit_type == 7).is_none());
}

#[test]
fn sync_detection_requires_an_idr_slice() {
    assert!(annex_b_is_sync(&annex_b_keyframe()));
    let non_idr = [0, 0, 1, 0x67, 0xaa, 0, 0, 1, 0x41, 0xbb];
    assert!(!annex_b_is_sync(&non_idr));
}

#[test]
fn parameter_sets_are_split_without_start_codes() {
    let (sps, pps) = parameter_sets(&annex_b_keyframe(), false);
    assert_eq!(sps, Some(vec![0x67, 0xaa, 0xbb]));
    assert_eq!(pps, Some(vec![0x68, 0xcc]));
}

#[test]
fn hevc_parameter_sets_use_the_hevc_type_mapping() {
    // HEVC VPS/SPS/PPS are types 32/33/34 behind a two-byte header.
    let data = [
        0, 0, 0, 1, 0x42, 0x01, 0x07, 0, 0, 0, 1, 0x44, 0x01, 0x08, 0, 0, 0, 1, 0x26, 0x01, 0x09,
    ];
    let (sps, pps) = parameter_sets(&data, true);
    assert_eq!(sps, Some(vec![0x42, 0x01, 0x07]));
    assert_eq!(pps, Some(vec![0x44, 0x01, 0x08]));
}

#[test]
fn bgra_layout_pads_rows_to_the_copy_alignment() {
    let layout = FrameLayout::bgra(1920, 1080);
    match layout {
        FrameLayout::Bgra { stride, offset, .. } => {
            assert_eq!(stride, 1920 * 4);
            assert_eq!(offset, 0);
        }
        FrameLayout::Nv12 { .. } => panic!("expected BGRA"),
    }
    assert_eq!(layout.buffer_size(), 1920 * 4 * 1080);
    // A width whose row is not already aligned must be padded.
    let padded = FrameLayout::bgra(1919, 2);
    match padded {
        FrameLayout::Bgra { stride, .. } => assert_eq!(stride, 7680),
        FrameLayout::Nv12 { .. } => panic!("expected BGRA"),
    }
}

#[test]
fn nv12_layout_keeps_both_planes_aligned_and_apart() {
    let layout = FrameLayout::nv12(
        1440,
        900,
        YuvRange::Video,
        YuvMatrix::Bt709,
        YuvPrimaries::Bt709,
    );
    match layout {
        FrameLayout::Nv12 {
            y_stride,
            y_offset,
            uv_stride,
            uv_offset,
            range,
            matrix,
            ..
        } => {
            // 1440 luma bytes per row are padded to 1536 for the copy.
            assert_eq!(y_stride, 1536);
            assert_eq!(y_offset, 0);
            assert_eq!(uv_stride, 1536);
            assert_eq!(uv_offset, 1536 * 900);
            assert_eq!(range, YuvRange::Video);
            assert_eq!(matrix, YuvMatrix::Bt709);
        }
        FrameLayout::Bgra { .. } => panic!("expected NV12"),
    }
    assert_eq!(layout.buffer_size(), 1536 * 900 + 1536 * 450);
    // An odd width pads the luma rows to 2048 and the 960 chroma pairs to
    // the same alignment.
    let odd = FrameLayout::nv12(
        1919,
        2,
        YuvRange::Full,
        YuvMatrix::Bt601,
        YuvPrimaries::Bt709,
    );
    assert_eq!(odd.buffer_size(), 2048 * 2 + 2048);
}

#[test]
fn layouts_reject_short_mappings() {
    let layout = FrameLayout::bgra(64, 4);
    let short = vec![0_u8; layout.buffer_size() as usize - 1];
    assert!(layout.source_frame(&short).is_none());
    let exact = vec![0_u8; layout.buffer_size() as usize];
    let frame = layout.source_frame(&exact).expect("exact size is valid");
    match frame {
        SourceFrame::Bgra { stride, bytes } => {
            assert_eq!(stride, 256);
            assert_eq!(bytes.len(), exact.len());
        }
        SourceFrame::Nv12 { .. } => panic!("expected BGRA"),
    }
}

#[test]
fn positions_convert_to_media_foundation_units() {
    assert_eq!(position_hns(Duration::zero()), 0);
    assert_eq!(position_hns(Duration::from_secs(1)), HNS_PER_SECOND);
    // One 60 Hz frame in 100 ns units.
    assert_eq!(position_hns(Duration::from_nanos(16_666_667)), 166_667);
}

#[test]
fn positions_are_monotonic_at_the_track_timescale() {
    let step = 1_000_000_000 / TIMESCALE as u64;
    assert!(position_hns(Duration::from_nanos(step)) > 0);
    assert!(
        position_hns(Duration::from_nanos(step * 2)) > position_hns(Duration::from_nanos(step))
    );
}

#[test]
fn reported_times_come_back_in_track_units() {
    assert_eq!(position_from_hns(HNS_PER_SECOND), u64::from(TIMESCALE));
    assert_eq!(position_from_hns(-5), 0);
    assert_eq!(duration_from_hns(HNS_PER_SECOND), TIMESCALE);
    assert_eq!(duration_from_hns(166_667), 1500);
    assert_eq!(duration_from_hns(0), 0);
    // Five hundred seconds are more than a 32-bit number of 100 ns units.
    assert_eq!(duration_from_hns(500 * HNS_PER_SECOND), 45_000_000);
    assert_eq!(duration_from_hns(i64::MAX), u32::MAX);
    assert_eq!(duration_hns(1500), 166_667);
    assert_eq!(duration_hns(0), 1);
    assert_eq!(units_hns(1_500), 166_667);
    assert_eq!(units_hns(u64::MAX), 204_963_823_041_217);
}

#[test]
fn times_survive_the_transform() {
    for units in [1, 2, 1499, 1500, 1501, 3000, 3003, 90_000, u32::MAX] {
        assert_eq!(duration_from_hns(duration_hns(units)), units);
        let position = u64::from(units);
        assert_eq!(position_from_hns(units_hns(position)), position);
    }
}

fn settings(width: u32, height: u32) -> EncoderSettings {
    EncoderSettings {
        width,
        height,
        bitrate: 40_000_000,
        frame_rate_hint: 25,
        primaries: YuvPrimaries::Bt709,
    }
}

fn encoder() -> H264Encoder {
    H264Encoder::new(settings(320, 240), Platform::MacOs).expect("encoder starts")
}

fn message_of<T>(result: Result<T, RecordingError>) -> String {
    match result {
        Ok(_) => panic!("expected an error"),
        Err(error) => error.message(),
    }
}

#[test]
fn encoders_reject_what_they_cannot_take() {
    assert_eq!(
        message_of(H264Encoder::new(settings(320, 240), Platform::Other)),
        "当前平台没有系统 H.264 编码器，无法录制会话"
    );
    assert_eq!(
        message_of(H264Encoder::new(settings(0, 240), Platform::Windows)),
        "录制尺寸无效"
    );
    assert_eq!(
        message_of(H264Encoder::new(settings(0x8000_0000, 2), Platform::MacOs)),
        "录制宽度超出编码器范围"
    );
    assert_eq!(
        message_of(H264Encoder::new(settings(2, 0x8000_0000), Platform::MacOs)),
        "录制高度超出编码器范围"
    );
    assert!(H264Encoder::new(settings(2, 0x8000_0000), Platform::Windows).is_ok());
    assert_eq!(encoder().settings(), settings(320, 240));
}

#[test]
fn each_frame_is_encoded_when_the_next_one_comes() {
    let mut encoder = encoder();
    assert_eq!(encoder.push(Duration::zero()).expect("first"), None);
    assert_eq!(
        encoder.push(Duration::from_millis(40)).expect("second"),
        Some(EncodeRequest {
            pts: 0,
            duration: 3600,
            force_key_frame: true,
        })
    );
    encoder.accepted();
    assert_eq!(
        encoder.push(Duration::from_millis(2_000)).expect("third"),
        Some(EncodeRequest {
            pts: 3600,
            duration: 176_400,
            force_key_frame: false,
        })
    );
    assert_eq!(
        encoder.finish(Duration::from_millis(2_040)),
        Some(EncodeRequest {
            pts: 180_000,
            duration: 3600,
            force_key_frame: false,
        })
    );
    assert_eq!(encoder.finish(Duration::from_millis(3_000)), None);
    assert_eq!(
        message_of(encoder.push(Duration::from_millis(3_000))),
        "编码器已经结束"
    );
}

#[test]
fn sixty_frames_per_second_come_back_from_the_transform_exactly() {
    let mut encoder =
        H264Encoder::new(settings(320, 240), Platform::Windows).expect("encoder starts");
    let keyframe = annex_b_keyframe();
    let mut requests = Vec::new();
    for frame in 0..60_u64 {
        let pts = Duration::from_nanos(frame * 1_000_000_000 / 60);
        requests.extend(encoder.push(pts).expect("taken"));
    }
    requests.extend(encoder.finish(Duration::from_secs(1)));
    for request in &requests {
        encoder
            .convert_output(TransformSample {
                bytes: &keyframe,
                clean_point: None,
                time: Some(units_hns(request.pts)),
                duration: Some(duration_hns(request.duration)),
            })
            .expect("taken");
    }
    let mut samples = Vec::new();
    encoder.take_samples(&mut samples);
    assert_eq!(samples.len(), 60);
    for (frame, sample) in samples.iter().enumerate() {
        assert_eq!(sample.pts, frame as u64 * 1500);
        assert_eq!(sample.duration, 1500);
    }
    encoder.take_samples(&mut samples);
    assert_eq!(samples.len(), 60);
}

#[test]
fn transform_samples_become_access_units() {
    let mut encoder = encoder();
    let keyframe = annex_b_keyframe();
    let sample = TransformSample {
        bytes: &keyframe,
        clean_point: None,
        time: Some(HNS_PER_SECOND),
        duration: Some(166_667),
    };
    // Without known parameter sets the sample keeps its own.
    encoder.convert_output(sample).expect("taken");
    encoder.read_sequence_header(&keyframe);
    let sets = encoder.parameter_sets().expect("known now");
    assert_eq!(sets.sps, vec![0x67, 0xaa, 0xbb]);
    assert_eq!(sets.pps, vec![0x68, 0xcc]);
    encoder
        .convert_output(TransformSample {
            clean_point: Some(false),
            ..sample
        })
        .expect("taken");
    let mut samples = Vec::new();
    encoder.take_samples(&mut samples);
    assert_eq!(samples.len(), 2);
    assert!(samples[0].is_sync);
    assert_eq!(samples[0].bytes.len(), 20);
    assert_eq!(samples[0].pts, 90_000);
    assert_eq!(samples[0].duration, 1500);
    assert!(!samples[1].is_sync);
    assert_eq!(samples[1].bytes, vec![0, 0, 0, 3, 0x65, 0xdd, 0xee]);
    encoder.take_samples(&mut samples);
    assert_eq!(samples.len(), 2);
    // An empty sample is passed over, one without a time is refused.
    encoder
        .convert_output(TransformSample {
            bytes: &[],
            clean_point: None,
            time: None,
            duration: None,
        })
        .expect("nothing to take");
    assert_eq!(
        message_of(encoder.convert_output(TransformSample {
            time: None,
            ..sample
        })),
        "编码输出缺少时间戳"
    );
}

fn reading(status: i32, bytes: &[u8], header_length: i32) -> SetReading {
    SetReading {
        status,
        bytes: Some(bytes.to_vec()),
        header_length,
    }
}

fn image(data: Option<Vec<u8>>, copy_status: i32) -> CompressedImage {
    CompressedImage {
        sets: Some(h264_parameter_sets(
            reading(0, &[0x67], 4),
            reading(0, &[0x68], 4),
        )),
        data,
        copy_status,
        not_sync: false,
    }
}

fn request() -> EncodeRequest {
    EncodeRequest {
        pts: 7,
        duration: 9,
        force_key_frame: true,
    }
}

#[test]
fn callbacks_deliver_samples_and_keep_the_first_error() {
    let mut encoder = encoder();
    encoder.compression_output(Some(request()), 0, Some(image(Some(vec![1, 2]), 0)));
    let mut samples = Vec::new();
    encoder.take_samples(&mut samples);
    assert_eq!(samples.len(), 1);
    assert_eq!(samples[0].bytes, vec![1, 2]);
    assert!(samples[0].is_sync);
    assert_eq!((samples[0].pts, samples[0].duration), (7, 9));
    assert!(encoder.parameter_sets().is_some());
    assert!(encoder.take_error().is_ok());

    for (status, input, text) in [
        (-5, None, "VideoToolbox 编码帧失败（状态 -5）"),
        (0, Some(image(None, 0)), "VideoToolbox 输出缺少压缩数据"),
        (0, Some(image(Some(vec![]), 0)), "VideoToolbox 输出为空"),
        (
            0,
            Some(image(Some(vec![1]), 3)),
            "无法读取 VideoToolbox 输出（状态 3）",
        ),
        (
            0,
            Some(CompressedImage {
                sets: None,
                data: Some(vec![1]),
                copy_status: 0,
                not_sync: true,
            }),
            "VideoToolbox 输出缺少格式描述",
        ),
    ] {
        encoder.compression_output(Some(request()), status, input);
        encoder.push_error("later".to_owned());
        assert_eq!(message_of(encoder.take_error()), text);
    }
    // Neither a request nor an image of its own is nothing to report.
    encoder.compression_output(None, 0, Some(image(Some(vec![1]), 0)));
    encoder.compression_output(Some(request()), 0, None);
    assert!(encoder.take_error().is_ok());
}

#[test]
fn callbacks_keep_the_times_of_their_frames() {
    let mut encoder = encoder();
    let mut samples = Vec::new();
    let mut requests = Vec::new();
    for millis in [0, 40, 120] {
        requests.extend(encoder.push(Duration::from_millis(millis)).expect("taken"));
    }
    // Answers may come while frames still do.
    for request in &requests {
        encoder.compression_output(Some(*request), 0, Some(image(Some(vec![1]), 0)));
    }
    let last = encoder.finish(Duration::from_millis(150)).expect("held");
    encoder.compression_output(Some(last), 0, Some(image(Some(vec![2]), 0)));
    encoder.take_samples(&mut samples);
    let times: Vec<(u64, u32)> = samples.iter().map(|s| (s.pts, s.duration)).collect();
    assert_eq!(times, vec![(0, 3600), (3600, 7200), (10_800, 2700)]);
    encoder.take_samples(&mut samples);
    assert_eq!(samples.len(), 3);
}

#[test]
fn parameter_set_readings_are_checked() {
    assert_eq!(
        message_of(h264_parameter_sets(
            reading(-12, &[0x67], 4),
            reading(0, &[0x68], 4)
        )),
        "无法读取 H.264 参数集（状态 -12）"
    );
    assert_eq!(
        message_of(h264_parameter_sets(
            reading(0, &[0x67], 4),
            reading(0, &[], 4)
        )),
        "无法读取 H.264 参数集（状态 0）"
    );
    assert_eq!(
        message_of(h264_parameter_sets(
            reading(0, &[0x67], 4),
            reading(0, &[0x68], 2)
        )),
        "VideoToolbox 输出的 NAL 长度前缀为 2 字节，MP4 只支持 4 字节"
    );
}

#[test]
fn inputs_are_packed_for_a_transform() {
    assert_eq!(
        input_layout(2, true, true).expect("rgb"),
        InputLayout::Bgra { stride: 8 }
    );
    assert_eq!(
        input_layout(2, false, true).expect("nv12"),
        InputLayout::Nv12 { stride: 2 }
    );
    assert_eq!(
        message_of(input_layout(2, false, false)),
        "系统 H.264 编码器既不接受 ARGB32 也不接受 NV12 输入"
    );

    let bytes: Vec<u8> = (0..24).collect();
    let bgra = SourceFrame::Bgra {
        stride: 12,
        bytes: &bytes,
    };
    let packed = pack_frame(InputLayout::Bgra { stride: 8 }, &bgra, 2, 2).expect("packs");
    assert_eq!(
        packed.bytes,
        vec![0, 1, 2, 3, 4, 5, 6, 7, 12, 13, 14, 15, 16, 17, 18, 19]
    );
    assert_eq!(packed.capacity, 16);
    assert_eq!(
        message_of(pack_frame(InputLayout::Bgra { stride: 7 }, &bgra, 2, 2)),
        "录制的 BGRA 帧与编码尺寸不匹配"
    );
    assert_eq!(
        message_of(pack_frame(InputLayout::Nv12 { stride: 4 }, &bgra, 2, 2)),
        "录制帧格式与编码器输入格式不一致"
    );

    let y = [1, 2, 3, 9, 4, 5, 6, 9, 7, 8, 9, 9];
    let uv = [10, 11, 12, 13, 20, 21, 22, 23];
    let nv12 = SourceFrame::Nv12 {
        y_stride: 4,
        y: &y,
        uv_stride: 4,
        uv: &uv,
        range: YuvRange::Full,
        matrix: YuvMatrix::Bt601,
    };
    let packed = pack_frame(InputLayout::Nv12 { stride: 5 }, &nv12, 3, 3).expect("packs");
    assert_eq!(
        packed.bytes,
        vec![
            1, 2, 3, 0, 0, 4, 5, 6, 0, 0, 7, 8, 9, 0, 0, //
            10, 11, 12, 13, 0, 20, 21, 22, 23, 0,
        ]
    );
    assert_eq!(packed.capacity, 25);
    assert_eq!(
        message_of(pack_frame(InputLayout::Nv12 { stride: 2 }, &nv12, 3, 3)),
        "录制的 NV12 帧与编码尺寸不匹配"
    );
    assert_eq!(
        image_format(&nv12),
        (ImageFormat::Nv12FullRange, YuvMatrix::Bt601)
    );
    assert_eq!(image_format(&bgra), (ImageFormat::Bgra, YuvMatrix::Bt709));
}

#[test]
fn oversized_frames_are_refused() {
    let bytes = [0; 8];
    let frame = SourceFrame::Bgra {
        stride: 4,
        bytes: &bytes,
    };
    assert_eq!(
        message_of(pack_frame(
            InputLayout::Bgra {
                stride: 0x1_0000_0000
            },
            &frame,
            1,
            2
        )),
        "录制帧过大"
    );
}

#[test]
fn images_are_laid_out_for_pixel_buffers() {
    let bytes: Vec<u8> = (0..16).collect();
    let bgra = SourceFrame::Bgra {
        stride: 8,
        bytes: &bytes,
    };
    let planes = create_image(&bgra, &settings(1, 2), 6, 0).expect("fits");
    assert_eq!(
        planes.first,
        vec![0, 1, 2, 3, 0, 0, 8, 9, 10, 11, 0, 0]
    );
    assert!(planes.second.is_empty());
    assert_eq!(
        message_of(create_image(&bgra, &settings(3, 2), 12, 0)),
        "录制的 BGRA 帧与编码尺寸不匹配"
    );
    let nv12 = SourceFrame::Nv12 {
        y_stride: 2,
        y: &[1, 2, 3, 4],
        uv_stride: 2,
        uv: &[5, 6],
        range: YuvRange::Video,
        matrix: YuvMatrix::Bt2020,
    };
    let planes = create_image(&nv12, &settings(2, 2), 3, 4).expect("fits");
    assert_eq!(planes.first, vec![1, 2, 0, 3, 4, 0]);
    assert_eq!(planes.second, vec![5, 6, 0, 0]);
    assert_eq!(
        message_of(create_image(&nv12, &settings(2, 3), 3, 4)),
        "录制的 NV12 帧与编码尺寸不匹配"
    );
}

#[test]
fn encoder_attributes_are_exact() {
    assert_eq!(output_capacity(320, 240, false, 0), 320 * 240 * 2 + 65536);
    assert_eq!(output_capacity(320, 240, false, 9_000_000), 9_000_000);
    assert_eq!(output_capacity(320, 240, true, 9_000_000), 1024);
    assert_eq!(output_capacity(u32::MAX, u32::MAX, false, 1), u32::MAX);
    assert_eq!(packed_pair(1920, 1080), (1920_u64 << 32) | 1080);
    assert_eq!(packed_frame_rate(0), (1_u64 << 32) | 1);
    assert_eq!(packed_frame_rate(25), (25_u64 << 32) | 1);
    assert_eq!(signed_bitrate(u32::MAX), i32::MAX);
    assert_eq!(signed_bitrate(5), 5);
    assert_eq!(signed_units(u64::MAX), i64::MAX);
    assert_eq!(signed_units(5), 5);
}

fn sample(duration: u32) -> EncodedSample {
    EncodedSample {
        bytes: vec![0, 0, 0, 2, 0x65, 1],
        is_sync: true,
        pts: 0,
        duration,
    }
}

fn track(width: u32, height: u32) -> VideoTrackFormat {
    VideoTrackFormat {
        width,
        height,
        sps: vec![0x67],
        pps: vec![0x68],
    }
}

#[test]
fn files_count_what_they_hold() {
    let mut muxer = Mp4Muxer::create();
    assert_eq!(
        muxer.begin_sample(&track(640, 360)).expect("open"),
        Some(NewTrack {
            width: 640,
            height: 360
        })
    );
    assert_eq!(muxer.count_sample(&sample(3600)), 3600);
    muxer.sample_written();
    assert_eq!(muxer.begin_sample(&track(640, 360)).expect("open"), None);
    // A sample without a length would stall playback.
    assert_eq!(muxer.count_sample(&sample(0)), 1);
    muxer.sample_written();
    assert_eq!((muxer.samples(), muxer.duration_units()), (2, 3601));
    assert_eq!(muxer.file_bytes(None), 12);
    assert_eq!(muxer.file_bytes(Some(900)), 900);
    muxer.finalize().expect("closes");
    assert_eq!(
        muxer.summary(Some(1000)),
        MuxerSummary {
            bytes: 1000,
            duration_units: 3601
        }
    );
    assert_eq!(message_of(muxer.finalize()), "录制文件已经结束");
    assert_eq!(
        message_of(muxer.begin_sample(&track(640, 360))),
        "录制文件已经结束"
    );
}

#[test]
fn tracks_have_a_largest_size() {
    let muxer = Mp4Muxer::create();
    assert_eq!(
        message_of(muxer.begin_sample(&track(65_536, 360))),
        "录制宽度超出 MP4 限制：65536"
    );
    assert_eq!(
        message_of(muxer.begin_sample(&track(640, 70_000))),
        "录制高度超出 MP4 限制：70000"
    );
}

fn at(millis: u64) -> Instant {
    Instant::at(Duration::from_millis(millis))
}

#[test]
fn takes_are_switched_and_counted() {
    let mut control = RecordingControl::new();
    assert!(control.active().is_none());
    assert_eq!(control.allocate_id(), 1);
    assert_eq!(control.allocate_id(), 2);
    control.publish(Take::new(2));
    let mut take = control.active().expect("active");
    assert_eq!(take.id(), 2);
    // The timeline starts with the first captured frame.
    assert_eq!(take.position(at(900)), Duration::zero());
    take.note_frame(at(1_000));
    assert_eq!(take.position(at(1_000)), Duration::zero());
    take.note_frame(at(1_100));
    assert_eq!(take.position(at(1_250)), Duration::from_millis(250));
    assert_eq!(take.position(at(500)), Duration::zero());
    assert!(take.is_open() && !take.is_stopping());
    control.request_stop();
    assert!(control.active().expect("still published").is_stopping());
    let closed = control.clear().expect("was active");
    assert!(!closed.is_open());
    assert!(control.active().is_none());
    assert!(control.clear().is_none());
}

#[test]
fn stats_show_the_clock_until_the_take_is_over() {
    let mut stats = RecordingStats::default();
    stats.record_captured_frame();
    stats.record_captured_frame();
    stats.record_dropped_frame();
    stats.record_encoded(5);
    stats.record_encoder_kind(Some(true));
    stats.publish_totals(2_000, 180_000);
    stats.record_presented(at(10));
    stats.record_presented(at(20));
    assert_eq!(stats.take_origin(), Some(at(10)));
    let progress = stats.progress(Duration::from_secs(7));
    assert_eq!(progress.captured_frames, 2);
    assert_eq!(progress.dropped_frames, 1);
    assert_eq!(progress.encoded_frames, 5);
    assert_eq!(progress.written_bytes, 2_000);
    assert_eq!(progress.recorded, Duration::from_secs(7));
    assert_eq!(progress.hardware_encoder, Some(true));
    assert!(!progress.finished);
    stats.mark_finished(RecordingOutcome {
        segments: vec!["a".to_owned()],
        error: Some("b".to_owned()),
    });
    assert!(stats.is_finished());
    let progress = stats.progress(Duration::from_secs(7));
    assert_eq!(progress.recorded, Duration::from_secs(2));
    assert_eq!(progress.segments, vec!["a"]);
    assert_eq!(progress.error.as_deref(), Some("b"));
}

#[test]
fn staging_pools_stay_within_their_budget() {
    // 4K BGRA: the budget allows the most buffers there may be.
    let mut pool = StagingPool::new(3840 * 2160 * 4);
    let mut taken = Vec::new();
    while let Some(buffer) = pool.acquire() {
        assert!(buffer.is_new);
        taken.push(buffer.index);
    }
    assert_eq!(taken, vec![0, 1, 2, 3, 4, 5]);
    pool.release(2);
    assert_eq!(
        pool.acquire(),
        Some(StagingBuffer {
            index: 2,
            is_new: false
        })
    );
    assert_eq!(pool.acquire(), None);
    let mut large = StagingPool::new(100 * 1024 * 1024);
    let count = (0..10).filter(|_| large.acquire().is_some()).count();
    assert_eq!(count, 3);
    let mut middle = StagingPool::new(45 * 1024 * 1024);
    let count = (0..10).filter(|_| middle.acquire().is_some()).count();
    assert_eq!(count, 4);
}

#[test]
fn a_stopped_take_stops_capturing() {
    let mut control = RecordingControl::new();
    control.publish(Take::new(11));
    let mut tap = RecordingTap::new();
    let mut stats = RecordingStats::default();
    assert!(tap.sync(control.active().as_ref()).active);
    control.request_stop();
    assert!(
        !tap.sync(control.active().as_ref()).active,
        "a take that is being saved must not capture more frames"
    );
    let mut closed = control.clear().expect("was active");
    assert!(
        !tap.sync(control.active().as_ref()).active,
        "a cleared control has no active take"
    );
    // Must be a no-op rather than a copy into a dead take.
    let plan = tap.capture(
        &mut stats,
        &mut closed,
        PresentedSource::Rgba {
            width: 8,
            height: 8,
        },
        at(1),
    );
    assert!(matches!(plan, CapturePlan::Nothing));
}

#[test]
fn captures_copy_every_plane_of_the_presented_frame() {
    let mut take = Take::new(11);
    let mut tap = RecordingTap::new();
    let mut stats = RecordingStats::default();
    let outcome = tap.sync(Some(&take));
    assert!(outcome.active && outcome.new_take);
    assert!(!tap.sync(Some(&take)).new_take);
    assert!(tap.take_started());
    assert!(!tap.take_started());

    let rgba = PresentedSource::Rgba {
        width: 100,
        height: 50,
    };
    match tap.capture(&mut stats, &mut take, rgba, at(140)) {
        CapturePlan::Copy {
            buffer,
            create,
            resize_swizzle,
            copies,
        } => {
            assert_eq!(buffer, BufferId { pool: 1, index: 0 });
            assert_eq!(create, Some(512 * 50));
            assert!(resize_swizzle);
            assert_eq!(
                copies,
                vec![PlaneCopy {
                    source: CopySource::Swizzled,
                    offset: 0,
                    bytes_per_row: 512,
                    width: 100,
                    height: 50,
                }]
            );
        }
        plan => panic!("{plan:?}"),
    }
    let frames = tap.flush_pending();
    assert_eq!(frames.len(), 1);
    assert_eq!(frames[0].pts, Duration::zero());
    assert_eq!(frames[0].presented, at(140));
    assert_eq!(take.position(at(180)), Duration::from_millis(40));
    assert!(tap.flush_pending().is_empty());
    tap.release(frames[0].buffer);
    match tap.capture(&mut stats, &mut take, rgba, at(150)) {
        CapturePlan::Copy {
            create,
            resize_swizzle,
            ..
        } => {
            assert_eq!(create, None);
            assert!(!resize_swizzle);
        }
        plan => panic!("{plan:?}"),
    }

    let nv12 = PresentedSource::Nv12 {
        width: 5,
        height: 3,
        range: YuvRange::Full,
        matrix: YuvMatrix::Bt709,
        primaries: YuvPrimaries::Bt709,
    };
    match tap.capture(&mut stats, &mut take, nv12, at(160)) {
        CapturePlan::Copy { buffer, copies, .. } => {
            // Another layout has buffers of its own.
            assert_eq!(buffer.pool, 2);
            assert_eq!(
                copies,
                vec![
                    PlaneCopy {
                        source: CopySource::Luma,
                        offset: 0,
                        bytes_per_row: 256,
                        width: 5,
                        height: 3,
                    },
                    PlaneCopy {
                        source: CopySource::Chroma,
                        offset: 768,
                        bytes_per_row: 256,
                        width: 3,
                        height: 2,
                    },
                ]
            );
        }
        plan => panic!("{plan:?}"),
    }
    // A buffer of the first layout is not used for the second.
    tap.release(BufferId { pool: 1, index: 0 });
    let mut captured = 1;
    while matches!(
        tap.capture(&mut stats, &mut take, nv12, at(170)),
        CapturePlan::Copy { .. }
    ) {
        captured += 1;
    }
    assert_eq!(captured, 6);
    let progress = stats.snapshot();
    assert_eq!(progress.captured_frames, 8);
    assert_eq!(progress.dropped_frames, 1);
    assert!(matches!(
        tap.capture(
            &mut stats,
            &mut take,
            PresentedSource::Rgba {
                width: 0,
                height: 9
            },
            at(180)
        ),
        CapturePlan::Nothing
    ));
}

#[test]
fn recordings_end_after_the_grace_period() {
    let long = Duration::from_secs(1);
    let short = Duration::from_millis(999);
    assert_eq!(
        next_step(WakeUp::Frame, true, long),
        RecordingStep::Push
    );
    assert_eq!(
        next_step(WakeUp::Timeout, true, long),
        RecordingStep::Finish
    );
    assert_eq!(
        next_step(WakeUp::Timeout, true, short),
        RecordingStep::Drain
    );
    assert_eq!(
        next_step(WakeUp::Timeout, false, long),
        RecordingStep::Drain
    );
    assert_eq!(
        next_step(WakeUp::Disconnected, false, short),
        RecordingStep::Finish
    );
}

#[test]
fn a_size_change_starts_another_file() {
    let first = FrameLayout::bgra(640, 360);
    let second = FrameLayout::bgra(800, 600);
    let mut stats = RecordingStats::default();
    let mut state = RecordingState::new("host".to_owned(), RecordingQuality::Balanced, 3);
    assert!(state.needs_segment(&first));
    state
        .start_segment(&first, Platform::MacOs)
        .expect("segment starts");
    assert!(!state.needs_segment(&first));
    assert!(state.needs_segment(&second));
    let tagged = FrameLayout::nv12(
        640,
        360,
        YuvRange::Full,
        YuvMatrix::Bt709,
        YuvPrimaries::P3D65,
    );
    assert!(state.needs_segment(&tagged));

    let segment = state.segment.as_mut().expect("open");
    assert_eq!(segment.file, "host 3.mp4");
    assert_eq!(segment.encoder.settings().bitrate, 1_500_000);
    assert_eq!(segment.encoder.push(Duration::zero()).expect("held"), None);
    state.frame_taken(Duration::zero(), at(0));
    assert_eq!(state.take_end_position(at(40)), Duration::from_millis(40));
    let request = state.finish_encoder(at(40)).expect("held frame");
    assert_eq!(request.duration, 3600);
    let segment = state.segment.as_mut().expect("open");
    segment
        .encoder
        .compression_output(Some(request), 0, Some(image(Some(vec![1, 2, 3]), 0)));
    let drained = state.drain().expect("a sample");
    assert_eq!(drained.samples.len(), 1);
    assert_eq!(drained.format.sps, vec![0x67]);
    assert_eq!((drained.format.width, drained.format.height), (640, 360));
    assert!(state.drain().is_none());
    let segment = state.segment.as_mut().expect("open");
    segment
        .muxer
        .begin_sample(&drained.format)
        .expect("track fits");
    segment.muxer.count_sample(&drained.samples[0]);
    segment.muxer.sample_written();
    state.publish(&mut stats, 1, Some(500));
    let progress = stats.snapshot();
    assert_eq!((progress.encoded_frames, progress.written_bytes), (1, 500));
    assert_eq!(progress.recorded, Duration::from_millis(40));

    let file = match state.end_segment().expect("a segment") {
        SegmentEnd::Finalize(mut segment) => {
            segment.muxer.finalize().expect("closes");
            let summary = segment.muxer.summary(Some(700));
            state.segment_finished(segment.file, summary, &mut stats);
            state.segments()
        }
        SegmentEnd::Remove(file) => panic!("{file}"),
    };
    assert_eq!(file, vec!["host 3.mp4"]);
    state
        .start_segment(&second, Platform::MacOs)
        .expect("segment starts");
    assert_eq!(state.segment.as_ref().expect("open").file, "host 3-2.mp4");
    // Nothing was captured for this size: do not leave an empty file.
    match state.end_segment().expect("a segment") {
        SegmentEnd::Remove(file) => assert_eq!(file, "host 3-2.mp4"),
        SegmentEnd::Finalize(_) => panic!("expected removal"),
    }
    let outcome = state.finish(None);
    assert_eq!(outcome.segments, vec!["host 3.mp4"]);
    assert_eq!(outcome.error, None);
}

fn take_writer() -> TakeWriter {
    TakeWriter::new(
        "host".to_owned(),
        RecordingQuality::Balanced,
        3,
        Platform::MacOs,
    )
}

fn entry(width: u32, millis: u64) -> FrameEntry {
    FrameEntry {
        layout: FrameLayout::bgra(width, 360),
        pts: Duration::from_millis(millis),
    }
}

fn answer(writer: &mut TakeWriter, request: EncodeRequest) {
    let segment = writer.state.segment.as_mut().expect("open");
    segment
        .encoder
        .compression_output(Some(request), 0, Some(image(Some(vec![1, 2, 3]), 0)));
}

fn outcome_of(action: WriterAction) -> RecordingOutcome {
    match action {
        WriterAction::Report(outcome) => outcome,
        other => panic!("{other:?}"),
    }
}

/// The first frame of a segment, up to where the take waits for another one.
fn first_frame_is_taken(writer: &mut TakeWriter, stats: &mut RecordingStats, now: Instant) {
    assert!(matches!(writer.opened(stats, Some(true)), WriterAction::Stage));
    assert!(matches!(writer.done(now), WriterAction::Hold));
    assert!(matches!(writer.done(now), WriterAction::Collect));
    assert!(matches!(writer.done(now), WriterAction::Wait));
}

#[test]
fn a_take_goes_into_its_files_step_by_step() {
    let mut stats = RecordingStats::default();
    let mut writer = take_writer();
    assert!(matches!(writer.woke_up(), WriterAction::Wait));
    let action = writer.frame_came(&mut stats, entry(640, 0), at(0), at(0));
    assert!(matches!(
        action,
        WriterAction::Open { settings, file } if settings.width == 640 && file == "host 3.mp4"
    ));
    first_frame_is_taken(&mut writer, &mut stats, at(0));
    assert_eq!(stats.snapshot().hardware_encoder, Some(true));

    // The next frame of the same size ends the one before it.
    let action = writer.frame_came(&mut stats, entry(640, 40), at(40), at(40));
    assert!(matches!(action, WriterAction::Stage));
    let request = match writer.done(at(40)) {
        WriterAction::Encode(request) => request,
        other => panic!("{other:?}"),
    };
    assert_eq!((request.pts, request.duration), (0, 3600));
    assert!(request.force_key_frame);
    assert!(matches!(writer.done(at(40)), WriterAction::Hold));
    answer(&mut writer, request);
    assert!(matches!(writer.done(at(40)), WriterAction::Collect));
    let drained = match writer.done(at(40)) {
        WriterAction::Write(drained) => drained,
        other => panic!("{other:?}"),
    };
    assert_eq!(drained.samples.len(), 1);
    let segment = writer.state.segment.as_mut().expect("open");
    segment
        .muxer
        .begin_sample(&drained.format)
        .expect("track fits");
    segment.muxer.count_sample(&drained.samples[0]);
    segment.muxer.sample_written();
    let action = writer.samples_written(&mut stats, 1, Some(500));
    assert!(matches!(action, WriterAction::Wait));
    assert_eq!(stats.snapshot().encoded_frames, 1);
    assert!(matches!(writer.woke_up(), WriterAction::Collect));
    assert!(matches!(writer.done(at(50)), WriterAction::Wait));

    // Another size: the held frame, the flush, what comes of it, then the file.
    let action = writer.frame_came(&mut stats, entry(800, 100), at(100), at(100));
    let request = match action {
        WriterAction::Encode(request) => request,
        other => panic!("{other:?}"),
    };
    assert_eq!((request.pts, request.duration), (3600, 5400));
    assert!(matches!(writer.done(at(100)), WriterAction::Flush));
    assert!(matches!(writer.done(at(100)), WriterAction::Collect));
    assert!(matches!(writer.done(at(100)), WriterAction::CompleteFile));
    let action = writer.file_completed(&mut stats, Some(700));
    assert!(matches!(
        action,
        WriterAction::Open { settings, file } if settings.width == 800 && file == "host 3-2.mp4"
    ));
    assert_eq!(stats.snapshot().written_bytes, 700);
    first_frame_is_taken(&mut writer, &mut stats, at(100));

    // Nothing came out for the second size: do not leave an empty file.
    assert!(matches!(writer.ended(at(200)), WriterAction::Encode(_)));
    assert!(matches!(writer.done(at(200)), WriterAction::Flush));
    assert!(matches!(writer.done(at(200)), WriterAction::Collect));
    assert!(matches!(writer.done(at(200)), WriterAction::RemoveFile));
    let outcome = outcome_of(writer.done(at(200)));
    assert_eq!(outcome.segments, vec!["host 3.mp4"]);
    assert_eq!(outcome.error, None);
}

#[test]
fn a_failed_step_ends_the_take() {
    let mut stats = RecordingStats::default();
    let outcome = outcome_of(take_writer().ended(at(0)));
    assert_eq!(outcome.error.as_deref(), Some("录制没有捕获到任何画面"));

    let mut writer = take_writer();
    writer.frame_came(&mut stats, entry(640, 0), at(0), at(0));
    let outcome = outcome_of(writer.failed(RecordingError::System("disk".to_owned())));
    assert!(outcome.segments.is_empty());
    assert_eq!(outcome.error.as_deref(), Some("disk"));

    // What the encoder reported by itself is found once the frame is held.
    let mut writer = take_writer();
    writer.frame_came(&mut stats, entry(640, 0), at(0), at(0));
    writer.opened(&mut stats, None);
    writer.done(at(0));
    let segment = writer.state.segment.as_mut().expect("open");
    segment.encoder.push_error("lost".to_owned());
    let outcome = outcome_of(writer.done(at(0)));
    assert_eq!(outcome.error.as_deref(), Some("lost"));

    let mut writer = TakeWriter::new(
        "host".to_owned(),
        RecordingQuality::Balanced,
        3,
        Platform::Other,
    );
    let action = writer.frame_came(&mut stats, entry(640, 0), at(0), at(0));
    assert_eq!(
        outcome_of(action).error.as_deref(),
        Some("当前平台没有系统 H.264 编码器，无法录制会话")
    );
}

#[test]
fn a_take_without_frames_is_reported() {
    let mut state = RecordingState::new("host".to_owned(), RecordingQuality::High, 1);
    assert_eq!(state.take_end_position(at(9)), Duration::zero());
    assert!(state.end_segment().is_none());
    let outcome = state.finish(None);
    assert_eq!(
        outcome.error.as_deref(),
        Some("录制没有捕获到任何画面")
    );
    let mut state = RecordingState::new("host".to_owned(), RecordingQuality::High, 1);
    let outcome = state.finish(Some(RecordingError::BufferLayout));
    assert_eq!(
        outcome.error.as_deref(),
        Some("录制帧的缓冲区布局无效")
    );
    assert_eq!(
        message_of(
            RecordingState::new("host".to_owned(), RecordingQuality::High, 1)
                .start_segment(&FrameLayout::bgra(4, 4), Platform::Other)
        ),
        "当前平台没有系统 H.264 编码器，无法录制会话"
    );
}

#[test]
fn samples_before_the_parameter_sets_are_given_up() {
    let mut state = RecordingState::new("host".to_owned(), RecordingQuality::Compact, 1);
    state
        .start_segment(&FrameLayout::bgra(4, 4), Platform::Windows)
        .expect("segment starts");
    let segment = state.segment.as_mut().expect("open");
    segment
        .encoder
        .convert_output(TransformSample {
            bytes: &[0, 0, 1, 0x41, 1],
            clean_point: None,
            time: Some(0),
            duration: Some(1),
        })
        .expect("taken");
    assert!(state.drain().is_none());
    let mut rest = Vec::new();
    state
        .segment
        .as_mut()
        .expect("open")
        .encoder
        .take_samples(&mut rest);
    assert!(rest.is_empty());
}

#[test]
fn qualities_come_back_from_their_names() {
    for quality in RecordingQuality::all() {
        assert_eq!(RecordingQuality::from_cache(quality.to_cache()), quality);
    }
    let sets = ParameterSets {
        sps: vec![1],
        pps: vec![2],
    };
    let copy = sets.copy();
    assert_eq!((copy.sps, copy.pps), (vec![1], vec![2]));
}
