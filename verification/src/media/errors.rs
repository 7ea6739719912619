//! What can go wrong between received access units and displayable frames.

use crate::text;
use vstd::prelude::*;

verus! {

/// Why the live decode path had to give up a frame.
#[derive(Debug)]
pub enum PipelineError {
    /// No codec was negotiated.
    NoCodec,
    /// No RTP payload type was negotiated.
    NoPayloadType,
    /// A batch without access units.
    EmptyBatch { timestamp: u32 },
    /// More batches wait for the decoder than are allowed.
    TooManyBatches,
    /// A second batch with the timestamp of a waiting one.
    DuplicateBatch { timestamp: u32 },
    /// The decoder could not hand over its image.
    Conversion(String),
    /// The decoder reported a failure.
    DecodeStatus { status: i32, flags: u32 },
    /// The decoder reported a failure in words.
    Decoder(String),
    /// An output for a batch that was never submitted.
    UnknownTimestamp { timestamp: u32 },
    /// An output of another batch while one is incomplete.
    TimestampChanged { previous: u32, outputs: usize, expected: usize, actual: u32 },
    /// More outputs than the batch has access units.
    TooManyOutputs { timestamp: u32, outputs: usize, expected: usize },
    /// A complete batch without an image.
    NothingToShow { timestamp: u32 },
    /// A slice beyond the last one.
    SliceIndex { index: usize },
    /// A requested frame size that is empty or odd.
    TargetSize { width: u32, height: u32 },
    /// A slice that does not match the first one.
    SliceMismatch { index: usize },
    /// Slices too high to be added up.
    HeightOverflow,
    /// Slices that do not make up the requested frame.
    Geometry {
        target_width: u32,
        target_height: u32,
        width: u32,
        slice_height: u32,
        total_height: u32,
        aligned_height: u32,
    },
    /// The decoder fell behind the network.
    ConsumerOverrun,
}

impl PipelineError {
    /// The text shown for this error.
    pub open spec fn text(&self) -> Seq<char> {
        match *self {
            PipelineError::NoCodec => "媒体协商未选择 H.264/HEVC 编解码器"@,
            PipelineError::NoPayloadType => "媒体协商未返回 RTP 负载类型"@,
            PipelineError::EmptyBatch { timestamp } => "AVC 时间戳 "@ + text::decimal(
                timestamp as nat,
            ) + " 没有 access unit"@,
            PipelineError::TooManyBatches => "视频解码器延迟超过允许的 RTP 批次数"@,
            PipelineError::DuplicateBatch { timestamp } => "重复提交 AVC RTP 时间戳 "@
                + text::decimal(timestamp as nat),
            PipelineError::Conversion(message) => message@,
            PipelineError::DecodeStatus { status, flags } => "视频解码失败：status="@
                + text::signed_decimal(status as int) + " flags=0x"@ + text::hexadecimal(
                flags as nat,
            ),
            PipelineError::Decoder(message) => message@,
            PipelineError::UnknownTimestamp { timestamp } =>
                "视频解码输出无法对应到已提交的 RTP 批次：timestamp="@ + text::decimal(
                timestamp as nat,
            ),
            PipelineError::TimestampChanged { previous, outputs, expected, actual } =>
                "视频解码输出在上一 RTP 批次完成前改变时间戳：previous="@ + text::decimal(
                previous as nat,
            ) + " previous_outputs="@ + text::decimal(outputs as nat) + " expected="@
                + text::decimal(expected as nat) + " actual="@ + text::decimal(actual as nat),
            PipelineError::TooManyOutputs { timestamp, outputs, expected } =>
                "视频解码输出数量超过 RTP 批次 access unit 数：timestamp="@ + text::decimal(
                timestamp as nat,
            ) + " outputs="@ + text::decimal(outputs as nat) + " expected="@ + text::decimal(
                expected as nat,
            ),
            PipelineError::NothingToShow { timestamp } =>
                "视频解码 RTP 批次没有可显示图像：timestamp="@ + text::decimal(timestamp as nat),
            PipelineError::SliceIndex { index } => "无效的 AVC 分片索引："@ + text::decimal(
                index as nat,
            ),
            PipelineError::TargetSize { width, height } => "AVC 目标帧缓冲尺寸无效："@
                + text::decimal(width as nat) + "x"@ + text::decimal(height as nat),
            PipelineError::SliceMismatch { index } => "AVC 分片 "@ + text::decimal(index as nat)
                + " 的 NV12 布局或色彩矩阵不一致"@,
            PipelineError::HeightOverflow => "AVC 分片总高度溢出"@,
            PipelineError::Geometry {
                target_width,
                target_height,
                width,
                slice_height,
                total_height,
                aligned_height,
            } => "服务器 AVC 分片几何与请求分辨率不一致：requested="@ + text::decimal(
                target_width as nat,
            ) + "x"@ + text::decimal(target_height as nat) + " decoded_slices="@ + text::decimal(
                width as nat,
            ) + "x"@ + text::decimal(slice_height as nat) + "x4 decoded_total="@ + text::decimal(
                width as nat,
            ) + "x"@ + text::decimal(total_height as nat) + " expected_aligned_slice_height="@
                + text::decimal(aligned_height as nat)
                + "；拒绝任意裁切或缩放伪装成功"@,
            PipelineError::ConsumerOverrun =>
                "视频解码消费速度落后于网络接收，预测链已重置并请求真实关键帧"@,
        }
    }

    /// The text shown for this error.
    pub fn message(&self) -> (message: String)
        ensures
            message@ == self.text(),
    {
        let mut m = String::new();
        match self {
            PipelineError::NoCodec => m.append("媒体协商未选择 H.264/HEVC 编解码器"),
            PipelineError::NoPayloadType => m.append("媒体协商未返回 RTP 负载类型"),
            PipelineError::EmptyBatch { timestamp } => {
                m.append("AVC 时间戳 ");
                text::push_decimal(&mut m, *timestamp as u64);
                m.append(" 没有 access unit");
            },
            PipelineError::TooManyBatches => m.append("视频解码器延迟超过允许的 RTP 批次数"),
            PipelineError::DuplicateBatch { timestamp } => {
                m.append("重复提交 AVC RTP 时间戳 ");
                text::push_decimal(&mut m, *timestamp as u64);
            },
            PipelineError::Conversion(message) => m.append(message.as_str()),
            PipelineError::DecodeStatus { status, flags } => {
                m.append("视频解码失败：status=");
                text::push_signed(&mut m, *status);
                m.append(" flags=0x");
                text::push_hex(&mut m, *flags as u64);
            },
            PipelineError::Decoder(message) => m.append(message.as_str()),
            PipelineError::UnknownTimestamp { timestamp } => {
                m.append("视频解码输出无法对应到已提交的 RTP 批次：timestamp=");
                text::push_decimal(&mut m, *timestamp as u64);
            },
            PipelineError::TimestampChanged { previous, outputs, expected, actual } => {
                m.append("视频解码输出在上一 RTP 批次完成前改变时间戳：previous=");
                text::push_decimal(&mut m, *previous as u64);
                m.append(" previous_outputs=");
                text::push_decimal(&mut m, *outputs as u64);
                m.append(" expected=");
                text::push_decimal(&mut m, *expected as u64);
                m.append(" actual=");
                text::push_decimal(&mut m, *actual as u64);
            },
            PipelineError::TooManyOutputs { timestamp, outputs, expected } => {
                m.append("视频解码输出数量超过 RTP 批次 access unit 数：timestamp=");
                text::push_decimal(&mut m, *timestamp as u64);
                m.append(" outputs=");
                text::push_decimal(&mut m, *outputs as u64);
                m.append(" expected=");
                text::push_decimal(&mut m, *expected as u64);
            },
            PipelineError::NothingToShow { timestamp } => {
                m.append("视频解码 RTP 批次没有可显示图像：timestamp=");
                text::push_decimal(&mut m, *timestamp as u64);
            },
            PipelineError::SliceIndex { index } => {
                m.append("无效的 AVC 分片索引：");
                text::push_decimal(&mut m, *index as u64);
            },
            PipelineError::TargetSize { width, height } => {
                m.append("AVC 目标帧缓冲尺寸无效：");
                text::push_decimal(&mut m, *width as u64);
                m.append("x");
                text::push_decimal(&mut m, *height as u64);
            },
            PipelineError::SliceMismatch { index } => {
                m.append("AVC 分片 ");
                text::push_decimal(&mut m, *index as u64);
                m.append(" 的 NV12 布局或色彩矩阵不一致");
            },
            PipelineError::HeightOverflow => m.append("AVC 分片总高度溢出"),
            PipelineError::Geometry {
                target_width,
                target_height,
                width,
                slice_height,
                total_height,
                aligned_height,
            } => {
                m.append("服务器 AVC 分片几何与请求分辨率不一致：requested=");
                text::push_decimal(&mut m, *target_width as u64);
                m.append("x");
                text::push_decimal(&mut m, *target_height as u64);
                m.append(" decoded_slices=");
                text::push_decimal(&mut m, *width as u64);
                m.append("x");
                text::push_decimal(&mut m, *slice_height as u64);
                m.append("x4 decoded_total=");
                text::push_decimal(&mut m, *width as u64);
                m.append("x");
                text::push_decimal(&mut m, *total_height as u64);
                m.append(" expected_aligned_slice_height=");
                text::push_decimal(&mut m, *aligned_height as u64);
                m.append("；拒绝任意裁切或缩放伪装成功");
            },
            PipelineError::ConsumerOverrun => m.append(
                "视频解码消费速度落后于网络接收，预测链已重置并请求真实关键帧",
            ),
        }
        assert(m@ =~= self.text());
        m
    }
}

} // verus!
