use ard_viewer::clock::{Duration, Instant};
use ard_viewer::media::access_unit::{AccessUnit, AvcFrameBatch, MediaStreamCodec};
use ard_viewer::media::assembler::{DecoderOutputAssembler, PendingFrameTiming};
use ard_viewer::media::compositor::{SliceCompositor, AVC_VIDEO_SLICE_COUNT};
use ard_viewer::media::decoder::{
    callback_output, check_aperture, is_sync_unit, merge_parameter_sets, order_outputs,
    parameter_sets_for, pixel_buffer_to_nv12, CallbackImage, DecoderState, PixelBuffer, PixelRect,
    Submission, UnitPlan, NV12_FULL_RANGE, NV12_VIDEO_RANGE,
};
use ard_viewer::media::decoder_errors::DecoderError;
use ard_viewer::media::errors::PipelineError;
use ard_viewer::media::mft::{
    output_format, transform_output, OutputFormat, PendingSamples, MATRIX_BT2020_10, MATRIX_BT601,
    NOMINAL_RANGE_FULL,
};
use ard_viewer::media::pipeline::{negotiated_stream, recovery_report, NextStep, VideoPipeline};
use ard_viewer::media::queue::{
    AvcReceiveEvent, AvcReceivePump, AvcReceiveQueue, AvcReceiveResetReason, AvcReceiveStats,
    KeyframeCause, QueuePoll, Received, AVC_RECEIVE_QUEUE_CAPACITY,
};
use ard_viewer::media::{
    AvcFrameTiming, DecodedFrame, DecodedOutput, DecodedSlice, YuvMatrix, YuvPrimaries, YuvRange,
};

fn at(millis: u64) -> Instant {
    Instant::at(Duration::from_millis(millis))
}

fn compressed_batch(timestamp: u32) -> AvcFrameBatch {
    let now = at(0);
    AvcFrameBatch {
        timestamp,
        access_units: vec![(
            0,
            AccessUnit {
                timestamp,
                decode_order_number: Some(timestamp as u16),
                nal_units: vec![vec![0x41]],
            },
        )],
        first_packet_received_at: now,
        first_access_unit_completed_at: now,
        released_at: now,
    }
}

fn pop_now(queue: &mut AvcReceiveQueue) -> Option<AvcReceiveEvent> {
    match queue.poll(Duration::zero(), true) {
        QueuePoll::Ready(event) => Some(event),
        QueuePoll::Finished => None,
        QueuePoll::Wait => panic!("nothing is left to wait for"),
    }
}

#[test]
fn receive_queue_overrun_discards_the_dependent_chain_and_emits_reset() {
    let mut queue = AvcReceiveQueue::default();
    for timestamp in 0..AVC_RECEIVE_QUEUE_CAPACITY as u32 {
        assert!(queue.push_frame(compressed_batch(timestamp)));
    }
    assert!(!queue.push_frame(compressed_batch(999)));
    assert!(matches!(
        pop_now(&mut queue),
        Some(AvcReceiveEvent::Reset(
            AvcReceiveResetReason::ConsumerOverrun
        ))
    ));
    assert!(pop_now(&mut queue).is_none());
}

#[test]
fn receive_queue_reset_cannot_leak_an_older_prediction_batch() {
    let mut queue = AvcReceiveQueue::default();
    assert!(queue.push_frame(compressed_batch(1)));
    queue.reset(AvcReceiveResetReason::DecoderRequested);
    assert!(matches!(
        pop_now(&mut queue),
        Some(AvcReceiveEvent::Reset(
            AvcReceiveResetReason::DecoderRequested
        ))
    ));
    assert!(pop_now(&mut queue).is_none());
}

#[test]
fn receive_queue_waits_until_its_time_is_up() {
    let mut queue = AvcReceiveQueue::default();
    assert!(matches!(
        queue.poll(Duration::from_millis(5), false),
        QueuePoll::Wait
    ));
    assert!(matches!(
        queue.poll(Duration::from_millis(5), true),
        QueuePoll::Finished
    ));
    queue.push_error("late".to_owned());
    assert!(matches!(queue.pop(), Some(AvcReceiveEvent::Error(text)) if text == "late"));
    queue.close();
    assert!(matches!(
        queue.poll(Duration::from_millis(5), false),
        QueuePoll::Finished
    ));
}

fn counters(packet_losses: usize) -> AvcReceiveStats {
    AvcReceiveStats {
        packets_received: 9,
        decrypted_packets: 8,
        heartbeats_sent: 7,
        packet_losses,
    }
}

fn error_text(pump: &mut AvcReceivePump) -> String {
    match pump.queue.pop() {
        Some(AvcReceiveEvent::Error(text)) => text,
        other => panic!("{other:?}"),
    }
}

fn reset_reason(pump: &mut AvcReceivePump) -> AvcReceiveResetReason {
    match pump.queue.pop() {
        Some(AvcReceiveEvent::Reset(reason)) => reason,
        other => panic!("{other:?}"),
    }
}

#[test]
fn receive_pump_turns_reads_into_events() {
    let mut pump = AvcReceivePump::new(3);
    assert!(pump.before_receive(false).is_none());
    assert!(pump
        .after_receive(counters(3), false, Received::Batch(compressed_batch(1)))
        .is_none());
    assert_eq!(pump.snapshot(), counters(3));
    assert!(matches!(
        pump.queue.pop(),
        Some(AvcReceiveEvent::Frame(batch)) if batch.timestamp == 1
    ));
    // A new loss breaks the prediction chain.
    assert!(pump
        .after_receive(counters(4), false, Received::Nothing)
        .is_none());
    assert_eq!(reset_reason(&mut pump), AvcReceiveResetReason::PacketLoss);
    // What was read across a request of the decoder is not shown.
    assert!(matches!(
        pump.after_receive(counters(4), true, Received::Batch(compressed_batch(2))),
        Some(KeyframeCause::DecoderRequested)
    ));
    assert_eq!(
        reset_reason(&mut pump),
        AvcReceiveResetReason::DecoderRequested
    );
    assert!(pump.queue.pop().is_none());

    let cause = pump.before_receive(true).expect("asks for a sync frame");
    pump.keyframe_answer(cause, Some("no route".to_owned()));
    assert_eq!(
        reset_reason(&mut pump),
        AvcReceiveResetReason::DecoderRequested
    );
    assert_eq!(error_text(&mut pump), "关键帧请求失败：no route");

    for timestamp in 0..AVC_RECEIVE_QUEUE_CAPACITY as u32 {
        assert!(pump.queue.push_frame(compressed_batch(timestamp)));
    }
    let cause = pump
        .after_receive(counters(4), false, Received::Batch(compressed_batch(99)))
        .expect("overrun");
    pump.keyframe_answer(cause, Some("no route".to_owned()));
    assert_eq!(
        reset_reason(&mut pump),
        AvcReceiveResetReason::ConsumerOverrun
    );
    assert_eq!(
        error_text(&mut pump),
        "视频接收队列过载且关键帧请求失败：no route"
    );

    for (failure, text) in [
        (None, "AVC RTP/SRTP 接收失败：closed"),
        (
            Some("no route".to_owned()),
            "AVC RTP/SRTP 接收失败：closed；关键帧请求失败：no route",
        ),
    ] {
        let cause = pump
            .after_receive(counters(4), false, Received::Failed("closed".to_owned()))
            .expect("failed read");
        pump.keyframe_answer(cause, failure);
        assert_eq!(
            reset_reason(&mut pump),
            AvcReceiveResetReason::ReceiverError
        );
        assert_eq!(error_text(&mut pump), text);
    }
    pump.stopped(counters(5));
    assert_eq!(pump.snapshot(), counters(5));
    assert!(matches!(
        pump.queue.poll(Duration::from_secs(1), false),
        QueuePoll::Finished
    ));
}

fn plain_slice(width: u32, height: u32, luma: Vec<u8>, chroma: usize) -> DecodedSlice {
    DecodedSlice {
        width,
        height,
        y_plane: luma,
        uv_plane: vec![128; chroma],
        range: YuvRange::Video,
        matrix: YuvMatrix::Bt709,
        primaries: YuvPrimaries::Bt709,
    }
}

fn slice(luma: u8) -> DecodedSlice {
    plain_slice(2, 1, vec![luma; 2], 2)
}

fn two_row_slice(top: u8, bottom: u8) -> DecodedSlice {
    plain_slice(2, 2, vec![top, top, bottom, bottom], 2)
}

fn decoded_output(timestamp: u32, slice_index: usize) -> DecodedOutput {
    DecodedOutput {
        stream_index: slice_index,
        timestamp,
        submission: u64::from(timestamp) + slice_index as u64,
        encoded_bytes: 1,
        status: 0,
        info_flags: 0,
        conversion_error: None,
        frame: Some(slice(slice_index as u8)),
    }
}

fn timing(millis: u64) -> PendingFrameTiming {
    let now = at(millis);
    PendingFrameTiming {
        first_packet_received_at: now,
        first_access_unit_completed_at: now,
        batch_released_at: now,
    }
}

#[test]
fn assembles_delayed_decoder_outputs_by_their_source_timestamp() {
    let now = at(0);
    let timing = timing(0);
    let mut assembler = DecoderOutputAssembler::new((2, 4), Some((2, 4)));
    assembler.register_batch(10, 4, timing).expect("batch 10");
    assembler.register_batch(20, 4, timing).expect("batch 20");

    assert!(assembler
        .push(vec![decoded_output(10, 0), decoded_output(10, 1)], now)
        .expect("partial delayed output")
        .is_empty());
    let first = assembler
        .push(vec![decoded_output(10, 2), decoded_output(10, 3)], now)
        .expect("complete delayed output");
    assert_eq!(first.len(), 1);
    assert_eq!(
        first[0]
            .updates
            .iter()
            .map(|update| update.slice_index)
            .collect::<Vec<_>>(),
        vec![0, 1, 2, 3]
    );

    let second = assembler
        .push((0..4).map(|index| decoded_output(20, index)).collect(), now)
        .expect("following delayed output");
    assert_eq!(second.len(), 1);
    assert_eq!(
        second[0]
            .timing
            .expect("frame timing")
            .negotiated_dimensions,
        Some((2, 4))
    );
}

fn message_of<T>(result: Result<T, PipelineError>) -> String {
    match result {
        Ok(_) => panic!("expected an error"),
        Err(error) => error.message(),
    }
}

#[test]
fn assembler_rejects_outputs_that_fit_no_batch() {
    let now = at(0);
    let mut assembler = DecoderOutputAssembler::new((2, 4), None);
    assert_eq!(
        message_of(assembler.register_batch(10, 0, timing(0))),
        "AVC 时间戳 10 没有 access unit"
    );
    assembler.register_batch(10, 4, timing(0)).expect("first");
    assert_eq!(
        message_of(assembler.register_batch(10, 4, timing(0))),
        "重复提交 AVC RTP 时间戳 10"
    );
    assert_eq!(
        message_of(assembler.push(vec![decoded_output(11, 0)], now)),
        "视频解码输出无法对应到已提交的 RTP 批次：timestamp=11"
    );

    let mut assembler = DecoderOutputAssembler::new((2, 4), None);
    assembler.register_batch(10, 4, timing(0)).expect("10");
    assembler.register_batch(20, 4, timing(0)).expect("20");
    assert_eq!(
        message_of(assembler.push(vec![decoded_output(10, 0), decoded_output(20, 0)], now)),
        "视频解码输出在上一 RTP 批次完成前改变时间戳：\
         previous=10 previous_outputs=1 expected=4 actual=20"
    );

    let mut assembler = DecoderOutputAssembler::new((2, 4), None);
    assembler.register_batch(10, 1, timing(0)).expect("10");
    let failed = DecodedOutput {
        status: -12909,
        info_flags: 0x1f,
        ..decoded_output(10, 0)
    };
    assert_eq!(
        message_of(assembler.push(vec![failed], now)),
        "视频解码失败：status=-12909 flags=0x1f"
    );
    assembler.reset();
    assembler.register_batch(10, 1, timing(0)).expect("10");
    let unconverted = DecodedOutput {
        conversion_error: Some("bad planes".to_owned()),
        ..decoded_output(10, 0)
    };
    assert_eq!(
        message_of(assembler.push(vec![unconverted], now)),
        "bad planes"
    );
    assembler.reset();
    assembler.register_batch(10, 1, timing(0)).expect("10");
    let empty = DecodedOutput {
        frame: None,
        ..decoded_output(10, 0)
    };
    assert_eq!(
        message_of(assembler.push(vec![empty], now)),
        "视频解码 RTP 批次没有可显示图像：timestamp=10"
    );

    let mut assembler = DecoderOutputAssembler::new((2, 4), None);
    for timestamp in 0..64 {
        assembler
            .register_batch(timestamp, 4, timing(0))
            .expect("waiting");
    }
    assert_eq!(
        message_of(assembler.register_batch(64, 4, timing(0))),
        "视频解码器延迟超过允许的 RTP 批次数"
    );
}

#[test]
fn frames_report_the_stages_of_their_way() {
    let mut assembler = DecoderOutputAssembler::new((2, 4), None);
    assembler
        .register_batch(
            10,
            4,
            PendingFrameTiming {
                first_packet_received_at: at(100),
                first_access_unit_completed_at: at(103),
                batch_released_at: at(110),
            },
        )
        .expect("batch");
    let frames = assembler
        .push(
            (0..4).map(|index| decoded_output(10, index)).collect(),
            at(125),
        )
        .expect("frame");
    let timing = frames[0].timing.expect("timing");
    assert_eq!(
        timing.packet_reassembly_duration(),
        Duration::from_millis(3)
    );
    assert_eq!(timing.batch_holdback(), Duration::from_millis(7));
    assert_eq!(timing.decode_duration(), Duration::from_millis(15));
    assert_eq!(timing.receive_to_decode(), Duration::from_millis(25));
}

#[test]
fn batches_four_native_slices_with_gpu_destinations() {
    let mut compositor = SliceCompositor::new((2, 4));
    compositor.push(2, 3, Some(slice(2))).expect("slice 2");
    compositor.push(0, 1, Some(slice(0))).expect("slice 0");
    compositor.push(3, 4, Some(slice(3))).expect("slice 3");
    compositor.push(1, 2, Some(slice(1))).expect("slice 1");
    let frame = compositor
        .finish_frame()
        .expect("valid native layout")
        .expect("all four slices compose");
    assert_eq!((frame.width, frame.height), (2, 4));
    assert_eq!(frame.encoded_bytes, 10);
    assert_eq!(frame.updates.len(), 4);
    assert_eq!(
        frame
            .updates
            .iter()
            .map(|update| (update.slice_index, update.y_origin, update.y_rows))
            .collect::<Vec<_>>(),
        vec![(0, 0, 1), (1, 1, 1), (2, 2, 1), (3, 3, 1)]
    );
}

#[test]
fn retains_unchanged_slices_for_incremental_updates() {
    let mut compositor = SliceCompositor::new((2, 4));
    for index in 0..AVC_VIDEO_SLICE_COUNT {
        compositor
            .push(index, 1, Some(slice(index as u8)))
            .expect("initial slice");
    }
    compositor
        .finish_frame()
        .expect("valid initial frame")
        .expect("initial frame");
    compositor
        .push(2, 9, Some(slice(9)))
        .expect("changed slice");
    let frame = compositor
        .finish_frame()
        .expect("valid sparse frame")
        .expect("one changed slice produces a complete frame");
    assert_eq!(frame.updates.len(), 1);
    assert_eq!(frame.updates[0].slice_index, 2);
    assert_eq!(frame.updates[0].y_origin, 2);
    assert_eq!(frame.updates[0].pixels.y_plane, vec![9, 9]);
}

#[test]
fn rejects_same_width_height_mismatch_instead_of_cropping() {
    let mut compositor = SliceCompositor::new((2, 7));
    for index in 0..AVC_VIDEO_SLICE_COUNT - 1 {
        compositor
            .push(index, 1, Some(two_row_slice(index as u8, index as u8)))
            .expect("padded slice");
    }
    compositor
        .push(3, 1, Some(two_row_slice(3, 255)))
        .expect("bottom padded slice");
    let error = compositor
        .finish_frame()
        .expect_err("decoded height must not be silently cropped")
        .message();
    assert!(error.contains("AVC 目标帧缓冲尺寸无效：2x7"), "{error}");
}

fn padded_slice(index: usize) -> DecodedSlice {
    let mut frame = plain_slice(2, 16, vec![index as u8; 32], 16);
    if index == 3 {
        frame.y_plane[24..].fill(255);
    }
    frame
}

#[test]
fn removes_only_proven_bottom_padding_from_the_last_native_slice() {
    // ceil(60/4)=15, encoded to the observed 16-row codec boundary.
    // The first three native bands stay 16 rows; only the last contributes
    // the remaining 12 visible rows.
    let mut compositor = SliceCompositor::new((2, 60));
    for index in 0..AVC_VIDEO_SLICE_COUNT {
        compositor
            .push(index, 1, Some(padded_slice(index)))
            .expect("native padded slice");
    }
    let frame = compositor
        .finish_frame()
        .expect("validated native padding")
        .expect("composite");
    assert_eq!((frame.width, frame.height), (2, 60));
    assert_eq!(
        frame
            .updates
            .iter()
            .map(|update| (update.y_origin, update.y_rows))
            .collect::<Vec<_>>(),
        vec![(0, 16), (16, 16), (32, 16), (48, 12)]
    );
    assert_eq!(frame.updates[3].uv_rows, 6);
}

#[test]
fn rejects_a_crop_that_does_not_match_native_codec_alignment() {
    let mut compositor = SliceCompositor::new((2, 60));
    for index in 0..AVC_VIDEO_SLICE_COUNT {
        let frame = plain_slice(2, 14, vec![index as u8; 28], 14);
        compositor
            .push(index, 1, Some(frame))
            .expect("malformed slice");
    }
    let error = compositor
        .finish_frame()
        .expect_err("arbitrary undersized slices must fail")
        .message();
    assert!(
        error.contains("expected_aligned_slice_height=16"),
        "{error}"
    );
}

#[test]
fn compositor_reports_the_slice_that_differs() {
    let mut compositor = SliceCompositor::new((2, 4));
    assert_eq!(
        message_of(compositor.push(4, 1, Some(slice(0)))),
        "无效的 AVC 分片索引：4"
    );
    for index in 0..3 {
        compositor.push(index, 1, Some(slice(0))).expect("slice");
    }
    assert!(compositor.finish_frame().expect("incomplete").is_none());
    let full = DecodedSlice {
        range: YuvRange::Full,
        ..slice(0)
    };
    compositor.push(3, 1, Some(full)).expect("slice");
    assert_eq!(
        message_of(compositor.finish_frame()),
        "AVC 分片 3 的 NV12 布局或色彩矩阵不一致"
    );
    compositor.reset();
    assert!(compositor.finish_frame().expect("nothing").is_none());
}

fn frame(slices: &[(usize, u8)], encoded_bytes: usize) -> DecodedFrame {
    let mut compositor = SliceCompositor::new((2, 4));
    for index in 0..AVC_VIDEO_SLICE_COUNT {
        compositor.push(index, 0, Some(slice(0))).expect("slice");
    }
    compositor.finish_frame().expect("frame");
    for (index, luma) in slices {
        compositor
            .push(*index, encoded_bytes, Some(slice(*luma)))
            .expect("slice");
    }
    compositor.finish_frame().expect("frame").expect("changed")
}

#[test]
fn merged_frames_keep_the_newest_slices() {
    let mut newer = frame(&[(1, 10), (3, 30)], 5);
    newer.merge_older_updates(frame(&[(0, 1), (1, 2)], 7));
    assert_eq!(
        newer
            .updates
            .iter()
            .map(|update| (update.slice_index, update.pixels.y_plane[0]))
            .collect::<Vec<_>>(),
        vec![(0, 1), (1, 10), (3, 30)]
    );
}

#[test]
fn primaries_default_to_the_identity() {
    assert_eq!(YuvPrimaries::default(), YuvPrimaries::Bt709);
    let early = AvcFrameTiming {
        first_packet_received_at: at(9),
        first_access_unit_completed_at: at(3),
        batch_released_at: at(2),
        decoded_at: at(1),
        negotiated_dimensions: None,
    };
    assert_eq!(early.receive_to_decode(), Duration::zero());
}

fn unit(timestamp: u32, nal_units: Vec<Vec<u8>>) -> AccessUnit {
    AccessUnit {
        timestamp,
        decode_order_number: None,
        nal_units,
    }
}

#[test]
fn sync_detection_is_codec_specific() {
    let h264_idr = unit(1, vec![vec![0x65]]);
    let h264_predictive = unit(2, vec![vec![0x41]]);
    let hevc_irap = unit(3, vec![vec![19 << 1]]);
    assert!(is_sync_unit(MediaStreamCodec::H264, &h264_idr));
    assert!(!is_sync_unit(MediaStreamCodec::H264, &h264_predictive));
    assert!(is_sync_unit(MediaStreamCodec::Hevc, &hevc_irap));
    assert!(!is_sync_unit(MediaStreamCodec::Hevc, &h264_idr));
}

#[test]
fn parameter_sets_replace_the_set_of_their_type() {
    let first = unit(1, vec![vec![0x67, 1], vec![0x68, 1], vec![0x65]]);
    let mut sets = Vec::new();
    let found = parameter_sets_for(MediaStreamCodec::H264, &first);
    assert_eq!(found, vec![vec![0x67, 1], vec![0x68, 1]]);
    assert!(merge_parameter_sets(
        MediaStreamCodec::H264,
        &mut sets,
        found
    ));
    assert!(!merge_parameter_sets(
        MediaStreamCodec::H264,
        &mut sets,
        vec![vec![0x68, 1]]
    ));
    assert!(merge_parameter_sets(
        MediaStreamCodec::H264,
        &mut sets,
        vec![vec![0x67, 2]]
    ));
    assert_eq!(sets, vec![vec![0x67, 2], vec![0x68, 1]]);
    let hevc = unit(1, vec![vec![32 << 1], vec![33 << 1], vec![34 << 1], vec![1]]);
    assert_eq!(
        parameter_sets_for(MediaStreamCodec::Hevc, &hevc).len(),
        3
    );
}

#[test]
fn decoders_wait_for_a_sync_unit_after_a_loss() {
    let mut state = DecoderState::new(MediaStreamCodec::H264);
    let idr = unit(1, vec![vec![0x67, 1], vec![0x68, 1], vec![0x65]]);
    let predictive = unit(2, vec![vec![0x41]]);
    assert_eq!(
        state.prepare_unit(&idr),
        UnitPlan::Submit {
            finish_session: false,
            create_session: true,
            is_sync: true,
        }
    );
    state.session_created();
    assert_eq!(state.submit(2, 1, 30).submission, 0);
    assert_eq!(
        state.prepare_unit(&predictive),
        UnitPlan::Submit {
            finish_session: false,
            create_session: false,
            is_sync: false,
        }
    );
    assert_eq!(
        state.submit(2, 2, 10),
        Submission {
            stream_index: 2,
            timestamp: 2,
            submission: 1,
            encoded_bytes: 10,
        }
    );
    assert!(state.require_sync());
    assert!(!state.require_sync());
    assert_eq!(state.prepare_unit(&predictive), UnitPlan::Skip);
    assert_eq!(
        state.prepare_unit(&idr),
        UnitPlan::Submit {
            finish_session: false,
            create_session: true,
            is_sync: true,
        }
    );
    state.session_created();
    let changed = unit(3, vec![vec![0x67, 9], vec![0x65]]);
    assert_eq!(
        state.prepare_unit(&changed),
        UnitPlan::Submit {
            finish_session: true,
            create_session: true,
            is_sync: true,
        }
    );

    let mut transform = DecoderState::new(MediaStreamCodec::H264);
    assert_eq!(transform.accept_unit(&predictive), Some(false));
    transform.require_sync();
    assert_eq!(transform.accept_unit(&predictive), None);
    assert_eq!(transform.accept_unit(&idr), Some(true));
    assert_eq!(transform.accept_unit(&predictive), Some(false));
}

fn rect(x: usize, y: usize, width: usize, height: usize) -> PixelRect {
    PixelRect {
        x,
        y,
        width,
        height,
    }
}

#[test]
fn clean_aperture_provides_the_only_authorized_codec_crop() {
    let rect = check_aperture(2_880, 464, rect(0, 0, 2_880, 450)).expect("integer clean aperture");
    assert_eq!(
        rect,
        PixelRect {
            x: 0,
            y: 0,
            width: 2_880,
            height: 450,
        }
    );
}

fn decoder_message<T>(result: Result<T, DecoderError>) -> String {
    match result {
        Ok(_) => panic!("expected an error"),
        Err(error) => error.message(),
    }
}

#[test]
fn clean_aperture_rejects_unrepresentable_or_out_of_bounds_crops() {
    assert!(check_aperture(100, 102, rect(0, 1, 100, 100)).is_err());
    assert!(check_aperture(100, 100, rect(0, 0, 101, 100)).is_err());
}

#[test]
fn access_units_are_framed_for_the_decoders() {
    let unit = unit(1, vec![vec![0x67, 1], vec![], vec![0x65]]);
    assert_eq!(
        unit.to_avcc(),
        Some(vec![0, 0, 0, 2, 0x67, 1, 0, 0, 0, 0, 0, 0, 0, 1, 0x65])
    );
    assert_eq!(
        unit.to_annex_b(),
        vec![0, 0, 0, 1, 0x67, 1, 0, 0, 0, 1, 0, 0, 0, 1, 0x65]
    );
}

#[test]
fn sessions_need_parameter_sets_and_a_valid_aperture() {
    let mut state = DecoderState::new(MediaStreamCodec::H264);
    let whole = rect(0, 0, 64, 64);
    assert_eq!(
        decoder_message(state.check_dimensions(64, 64)),
        "VCP session cannot start before codec parameter sets arrive"
    );
    assert_eq!(
        decoder_message(state.check_session(64, 64, whole)),
        "VCP session cannot start before codec parameter sets arrive"
    );
    state.prepare_unit(&unit(1, vec![vec![0x67, 1], vec![0x65]]));
    assert_eq!(
        state.check_session(64, 64, whole).expect("valid session"),
        whole
    );
    assert!(state.check_dimensions(16_384, 1).is_ok());
    for (width, height) in [(0, 64), (64, -1), (16_385, 64), (64, 16_385)] {
        assert_eq!(
            decoder_message(state.check_dimensions(width, height)),
            "codec parameter sets contain invalid frame dimensions"
        );
        assert_eq!(
            decoder_message(state.check_session(width, height, whole)),
            "codec parameter sets contain invalid frame dimensions"
        );
    }
    for (aperture, text) in [
        (rect(0, 0, 0, 4), "codec clean aperture is empty"),
        (
            rect(3, 2, 4, 4),
            "NV12 clean aperture origin must be chroma-aligned: (3, 2)",
        ),
        (
            rect(2, 0, usize::MAX, 4),
            "codec clean aperture width overflow",
        ),
        (
            rect(0, 2, 4, usize::MAX),
            "codec clean aperture height overflow",
        ),
        (
            rect(2, 0, 64, 64),
            "codec clean aperture exceeds encoded frame: aperture=64x64+2,0 encoded=64x64",
        ),
    ] {
        assert_eq!(
            decoder_message(state.check_session(64, 64, aperture)),
            text
        );
    }
}

const LUMA: [u8; 20] = [
    1, 2, 3, 4, 0, 5, 6, 7, 8, 0, 9, 10, 11, 12, 0, 13, 14, 15, 16, 0,
];
const CHROMA: [u8; 12] = [21, 22, 23, 24, 0, 0, 25, 26, 27, 28, 0, 0];

fn pixel_buffer() -> PixelBuffer<'static> {
    PixelBuffer {
        width: 4,
        height: 4,
        format: NV12_FULL_RANGE,
        plane_count: 2,
        y_width: 4,
        y_height: 4,
        uv_width: 2,
        uv_height: 2,
        y_stride: 5,
        uv_stride: 6,
        y: Some(&LUMA),
        uv: Some(&CHROMA),
        matrix: None,
        primaries: Some(YuvPrimaries::P3D65),
    }
}

#[test]
fn pixel_buffers_are_cropped_to_the_aperture() {
    let slice = pixel_buffer_to_nv12(&pixel_buffer(), rect(2, 2, 2, 2)).expect("copies");
    assert_eq!((slice.width, slice.height), (2, 2));
    assert_eq!(slice.y_plane, vec![11, 12, 15, 16]);
    assert_eq!(slice.uv_plane, vec![27, 28]);
    assert_eq!(slice.range, YuvRange::Full);
    assert_eq!(slice.matrix, YuvMatrix::Bt601);
    assert_eq!(slice.primaries, YuvPrimaries::P3D65);
    let tagged = PixelBuffer {
        format: NV12_VIDEO_RANGE,
        matrix: Some(YuvMatrix::Bt2020),
        primaries: None,
        ..pixel_buffer()
    };
    let slice = pixel_buffer_to_nv12(&tagged, rect(0, 0, 3, 3)).expect("copies");
    assert_eq!(slice.y_plane, vec![1, 2, 3, 5, 6, 7, 9, 10, 11]);
    assert_eq!(slice.uv_plane, vec![21, 22, 23, 24, 25, 26, 27, 28]);
    assert_eq!(slice.range, YuvRange::Video);
    assert_eq!(slice.matrix, YuvMatrix::Bt2020);
    assert_eq!(slice.primaries, YuvPrimaries::Bt709);
}

#[test]
fn unusable_pixel_buffers_are_described() {
    let whole = rect(0, 0, 4, 4);
    for (buffer, part, text) in [
        (
            PixelBuffer {
                width: 0,
                ..pixel_buffer()
            },
            whole,
            "VCP returned invalid CVPixelBuffer dimensions 0x4",
        ),
        (
            pixel_buffer(),
            rect(2, 0, usize::MAX, 4),
            "VCP visible width overflow",
        ),
        (
            pixel_buffer(),
            rect(0, 2, 4, usize::MAX),
            "VCP visible height overflow",
        ),
        (
            pixel_buffer(),
            rect(2, 0, 4, 4),
            "VCP output is smaller than the codec clean aperture: buffer=4x4 aperture=4x4+2,0",
        ),
        (
            PixelBuffer {
                format: 0x20,
                ..pixel_buffer()
            },
            whole,
            "VCP returned unsupported pixel format 0x00000020; expected native NV12",
        ),
        (
            PixelBuffer {
                plane_count: 3,
                ..pixel_buffer()
            },
            whole,
            "VCP returned NV12 buffer with 3 planes; expected 2",
        ),
        (
            PixelBuffer {
                uv_width: 3,
                uv_height: 1,
                ..pixel_buffer()
            },
            whole,
            "VCP returned inconsistent NV12 plane geometry: buffer=4x4, y=4x4, uv=3x1",
        ),
        (
            PixelBuffer {
                y: None,
                ..pixel_buffer()
            },
            whole,
            "VCP returned inaccessible NV12 plane storage: y=0/16, uv=0/8",
        ),
    ] {
        assert_eq!(
            decoder_message(pixel_buffer_to_nv12(&buffer, part)),
            text
        );
    }
}

fn submission(stream_index: usize, timestamp: u32, submission: u64) -> Submission {
    Submission {
        stream_index,
        timestamp,
        submission,
        encoded_bytes: submission as usize + 10,
    }
}

#[test]
fn callback_context_survives_no_output_and_reordered_callbacks() {
    let first = submission(0, 100, 0);
    let second = submission(3, 200, 1);
    let outputs = vec![
        callback_output(second, 0, 0x20, CallbackImage::Missing),
        callback_output(first, -1, 0x40, CallbackImage::Missing),
    ];
    assert_eq!(outputs.len(), 2);
    assert_eq!(
        outputs
            .iter()
            .map(|output| (
                output.stream_index,
                output.timestamp,
                output.submission,
                output.status,
                output.info_flags,
                output.frame.is_none(),
            ))
            .collect::<Vec<_>>(),
        vec![(3, 200, 1, 0, 0x20, true), (0, 100, 0, -1, 0x40, true)]
    );
    // The session hands them on in the order of their submission.
    assert_eq!(
        order_outputs(outputs)
            .iter()
            .map(|output| output.submission)
            .collect::<Vec<_>>(),
        vec![0, 1]
    );
}

#[test]
fn callbacks_carry_the_image_or_its_error() {
    let shown = callback_output(
        submission(1, 7, 3),
        0,
        0,
        CallbackImage::Copied(Ok(slice(5))),
    );
    assert_eq!(shown.frame.expect("image").y_plane, vec![5, 5]);
    assert_eq!(shown.encoded_bytes, 13);
    let broken = callback_output(
        submission(1, 7, 3),
        0,
        0,
        CallbackImage::Copied(Err(DecoderError::PlaneCount { count: 1 })),
    );
    assert_eq!(
        broken.conversion_error.as_deref(),
        Some("VCP returned NV12 buffer with 1 planes; expected 2")
    );
    let other = callback_output(submission(1, 7, 3), 0, 0, CallbackImage::NotPixelBuffer);
    assert_eq!(
        other.conversion_error.as_deref(),
        Some("VCP returned an object that is not a CVPixelBuffer")
    );
    let failed = callback_output(submission(1, 7, 3), -4, 0, CallbackImage::NotPixelBuffer);
    assert!(failed.conversion_error.is_none());
    let ordered = order_outputs(vec![
        decoded_output(30, 0),
        decoded_output(10, 0),
        decoded_output(20, 0),
        decoded_output(10, 0),
    ]);
    assert_eq!(
        ordered.iter().map(|o| o.submission).collect::<Vec<_>>(),
        vec![10, 10, 20, 30]
    );
}

#[test]
fn submission_failures_name_their_unit() {
    assert_eq!(
        DecoderError::VcpSubmission {
            stream_index: 1,
            timestamp: 90,
            submission: 4,
            error: "x".to_owned(),
        }
        .message(),
        "VCP decode submission failed: stream=1 timestamp=90 submission=4: x"
    );
    assert_eq!(
        DecoderError::MftDecode {
            stream_index: 1,
            timestamp: 90,
            submission: 4,
            error: "x".to_owned(),
        }
        .message(),
        "MFT decode failed: stream=1 timestamp=90 submission=4: x"
    );
    assert_eq!(
        DecoderError::NoOutputFormat.message(),
        "MFT 在输出格式确定前返回了 sample"
    );
}

#[test]
fn transform_outputs_are_matched_by_time() {
    let mut pending = PendingSamples::new();
    let first = PendingSamples::sample_time(0).expect("fits");
    let second = PendingSamples::sample_time(1).expect("fits");
    let third = PendingSamples::sample_time(2).expect("fits");
    assert!(first < second && second < third);
    pending.accepted(second, submission(0, 20, 1));
    pending.accepted(first, submission(0, 10, 0));
    pending.accepted(third, submission(0, 30, 2));
    assert_eq!(
        pending.answered(Some(second)).expect("exact").submission,
        1
    );
    // Without a known time the oldest one is answered.
    assert_eq!(pending.answered(None).expect("oldest").submission, 0);
    assert_eq!(
        pending
            .answered(Some(second))
            .expect("oldest again")
            .submission,
        2
    );
    assert_eq!(
        decoder_message(pending.answered(None)),
        "MFT 输出无法对应到已提交的 access unit"
    );
    pending.accepted(first, submission(0, 10, 0));
    pending.clear();
    assert!(pending.answered(Some(first)).is_err());
    assert_eq!(
        decoder_message(PendingSamples::sample_time(u64::MAX)),
        "MFT 提交序号超出时间戳范围"
    );
}

fn packed(width: u64, height: u64) -> u64 {
    (width << 32) | height
}

#[test]
fn transform_formats_are_read_from_their_attributes() {
    assert_eq!(
        output_format(
            packed(2, 3),
            Some(-4),
            Some(NOMINAL_RANGE_FULL),
            Some(MATRIX_BT601)
        )
        .expect("format"),
        OutputFormat {
            width: 2,
            height: 3,
            stride: 4,
            range: YuvRange::Full,
            matrix: YuvMatrix::Bt601,
        }
    );
    let plain = output_format(packed(2, 3), None, None, None).expect("format");
    assert_eq!(plain.stride, 2);
    assert_eq!(plain.range, YuvRange::Video);
    assert_eq!(plain.matrix, YuvMatrix::Bt709);
    assert_eq!(
        output_format(packed(2, 3), None, None, Some(MATRIX_BT2020_10))
            .expect("format")
            .matrix,
        YuvMatrix::Bt2020
    );
    assert_eq!(
        decoder_message(output_format(packed(0, 3), None, None, None)),
        "MFT 返回了零尺寸 NV12 输出"
    );
    assert_eq!(
        decoder_message(output_format(packed(9, 3), Some(8), None, None)),
        "MFT NV12 stride 小于宽度：stride=8 width=9"
    );
}

#[test]
fn transform_images_are_copied_without_their_padding() {
    let format = output_format(packed(2, 3), Some(4), None, None).expect("format");
    let bytes: Vec<u8> = (0..20).collect();
    let slice = format.copy_nv12(&bytes).expect("copies");
    assert_eq!(slice.y_plane, vec![0, 1, 4, 5, 8, 9]);
    assert_eq!(slice.uv_plane, vec![12, 13, 16, 17]);
    let output = transform_output(submission(3, 9, 4), 0x10, slice);
    assert_eq!(
        (output.stream_index, output.timestamp, output.info_flags),
        (3, 9, 0x10)
    );
    assert_eq!(format.output_capacity(7).expect("fits"), 20);
    assert_eq!(format.output_capacity(70).expect("fits"), 70);
    assert_eq!(
        decoder_message(format.copy_nv12(&bytes[..19])),
        "MFT NV12 buffer 被截断：required=20 actual=19"
    );

    let wide = |stride: usize, height: u32| OutputFormat {
        stride,
        height,
        ..format
    };
    assert_eq!(
        decoder_message(wide(usize::MAX, 2).output_capacity(0)),
        "MFT NV12 输出大小溢出"
    );
    assert_eq!(
        decoder_message(wide(u32::MAX as usize, 2).output_capacity(0)),
        "MFT 输出 sample 过大"
    );
    assert_eq!(
        decoder_message(wide(usize::MAX, 2).copy_nv12(&[])),
        "MFT NV12 亮度平面大小溢出"
    );
    assert_eq!(
        decoder_message(wide(usize::MAX, 1).copy_nv12(&[])),
        "MFT NV12 buffer 大小溢出"
    );
    assert_eq!(
        DecoderError::ChromaOverflow.message(),
        "MFT NV12 色度平面大小溢出"
    );
}

#[test]
fn streams_need_a_codec_and_a_payload_type() {
    assert_eq!(
        message_of(negotiated_stream(None, Some(96), None, None)),
        "媒体协商未选择 H.264/HEVC 编解码器"
    );
    assert_eq!(
        message_of(negotiated_stream(
            Some(MediaStreamCodec::H264),
            None,
            None,
            None
        )),
        "媒体协商未返回 RTP 负载类型"
    );
    let stream = negotiated_stream(Some(MediaStreamCodec::Hevc), Some(96), Some(8), Some(9))
        .expect("complete");
    assert_eq!(stream.dimensions, Some((8, 9)));
    assert_eq!(stream.payload_type, 96);
}

#[test]
fn the_pipeline_decodes_each_unit_and_shows_the_frame() {
    let mut pipeline = VideoPipeline::new((2, 4), None, at(0));
    assert!(matches!(
        pipeline.start_batch(10, 4, timing(0)),
        NextStep::DecodeUnit(0)
    ));
    for index in 0..3 {
        match pipeline.unit_decoded(vec![decoded_output(10, index)], None) {
            NextStep::DecodeUnit(next) => assert_eq!(next, index + 1),
            step => panic!("{step:?}"),
        }
    }
    assert!(matches!(
        pipeline.unit_decoded(vec![decoded_output(10, 3)], None),
        NextStep::FinishFrame
    ));
    match pipeline.frame_finished(Vec::new(), None, at(40_000)) {
        NextStep::Deliver(frames) => assert_eq!(frames.len(), 1),
        step => panic!("{step:?}"),
    }
    assert!(!pipeline.is_idle(at(70_000)));
    assert!(pipeline.is_idle(at(70_001)));
    assert!(pipeline.receive_failed(at(70_001)));
}

#[test]
fn the_pipeline_recovers_from_every_failure() {
    let mut pipeline = VideoPipeline::new((2, 4), None, at(0));
    assert!(matches!(
        pipeline.start_batch(10, 0, timing(0)),
        NextStep::Recover(PipelineError::EmptyBatch { timestamp: 10 })
    ));
    pipeline.start_batch(10, 4, timing(0));
    let error = match pipeline.unit_decoded(Vec::new(), Some("broken".to_owned())) {
        NextStep::Recover(error) => error,
        step => panic!("{step:?}"),
    };
    assert_eq!(recovery_report(&error, None), "broken");
    assert_eq!(
        recovery_report(&error, Some("no route".to_owned())),
        "broken；关键帧请求失败：no route"
    );
    // Nothing of the failed batch is left.
    assert!(matches!(
        pipeline.start_batch(10, 1, timing(0)),
        NextStep::DecodeUnit(0)
    ));
    pipeline.unit_decoded(vec![decoded_output(11, 0)], None);
    assert!(matches!(
        pipeline.frame_finished(Vec::new(), None, at(1)),
        NextStep::Recover(PipelineError::UnknownTimestamp { timestamp: 11 })
    ));
    assert!(pipeline
        .chain_reset(AvcReceiveResetReason::PacketLoss)
        .is_none());
    assert_eq!(
        pipeline
            .chain_reset(AvcReceiveResetReason::ConsumerOverrun)
            .expect("reported")
            .message(),
        "视频解码消费速度落后于网络接收，预测链已重置并请求真实关键帧"
    );
    assert_eq!(
        message_of(pipeline.flushed(vec![decoded_output(10, 0)], at(2))),
        "视频解码输出无法对应到已提交的 RTP 批次：timestamp=10"
    );
    assert_eq!(
        PipelineError::TooManyOutputs {
            timestamp: 1,
            outputs: 3,
            expected: 2
        }
        .message(),
        "视频解码输出数量超过 RTP 批次 access unit 数：timestamp=1 outputs=3 expected=2"
    );
    assert_eq!(
        PipelineError::HeightOverflow.message(),
        "AVC 分片总高度溢出"
    );
}
