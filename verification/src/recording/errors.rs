//! What can go wrong while a session is recorded.

use crate::text;
use vstd::prelude::*;

verus! {

/// Why a frame or a file could not be recorded.
#[derive(Debug)]
pub enum RecordingError {
    /// The platform has no system encoder.
    Unsupported,
    /// The frames to be recorded are empty.
    InvalidSize,
    /// The frames are wider than the encoder can take.
    WidthRange,
    /// The frames are higher than the encoder can take.
    HeightRange,
    /// A frame came after the end.
    EncoderFinished,
    /// A BGRA frame is smaller than the encoder's frames.
    BgraMismatch,
    /// An NV12 frame is smaller than the encoder's frames.
    Nv12Mismatch,
    /// The encoder takes none of the formats that frames come in.
    NoInputFormat,
    /// A frame is not in the format that the encoder takes.
    FormatMismatch,
    /// A frame is larger than a buffer can be.
    FrameTooLarge,
    /// An encoded sample has no place on the timeline.
    MissingTimestamps,
    /// The encoder failed on a frame.
    EncodeStatus { status: i32 },
    /// An encoded sample does not describe its format.
    NoDescription,
    /// An encoded sample has no data.
    NoData,
    /// The data of an encoded sample is empty.
    EmptyData,
    /// The data of an encoded sample cannot be read.
    CopyStatus { status: i32 },
    /// A parameter set cannot be read.
    ParameterSetStatus { status: i32 },
    /// The units of a sample do not have a length of four bytes in front.
    LengthPrefix { length: i32 },
    /// A captured frame does not fit its buffer.
    BufferLayout,
    /// The take ended without a frame.
    NothingCaptured,
    /// A sample came for a file that is closed.
    FileFinished,
    /// The frames are wider than the container can describe.
    TrackWidth { width: u32 },
    /// The frames are higher than the container can describe.
    TrackHeight { height: u32 },
    /// The system reported a failure in words.
    System(String),
}

impl RecordingError {
    /// The text shown for this error.
    pub open spec fn text(&self) -> Seq<char> {
        match *self {
            RecordingError::Unsupported => "当前平台没有系统 H.264 编码器，无法录制会话"@,
            RecordingError::InvalidSize => "录制尺寸无效"@,
            RecordingError::WidthRange => "录制宽度超出编码器范围"@,
            RecordingError::HeightRange => "录制高度超出编码器范围"@,
            RecordingError::EncoderFinished => "编码器已经结束"@,
            RecordingError::BgraMismatch => "录制的 BGRA 帧与编码尺寸不匹配"@,
            RecordingError::Nv12Mismatch => "录制的 NV12 帧与编码尺寸不匹配"@,
            RecordingError::NoInputFormat =>
                "系统 H.264 编码器既不接受 ARGB32 也不接受 NV12 输入"@,
            RecordingError::FormatMismatch => "录制帧格式与编码器输入格式不一致"@,
            RecordingError::FrameTooLarge => "录制帧过大"@,
            RecordingError::MissingTimestamps => "编码输出缺少时间戳"@,
            RecordingError::EncodeStatus { status } =>
                "VideoToolbox 编码帧失败（状态 "@ + text::signed_decimal(status as int) + "）"@,
            RecordingError::NoDescription => "VideoToolbox 输出缺少格式描述"@,
            RecordingError::NoData => "VideoToolbox 输出缺少压缩数据"@,
            RecordingError::EmptyData => "VideoToolbox 输出为空"@,
            RecordingError::CopyStatus { status } =>
                "无法读取 VideoToolbox 输出（状态 "@ + text::signed_decimal(status as int) + "）"@,
            RecordingError::ParameterSetStatus { status } =>
                "无法读取 H.264 参数集（状态 "@ + text::signed_decimal(status as int) + "）"@,
            RecordingError::LengthPrefix { length } =>
                "VideoToolbox 输出的 NAL 长度前缀为 "@
                    + text::signed_decimal(length as int)
                    + " 字节，MP4 只支持 4 字节"@,
            RecordingError::BufferLayout => "录制帧的缓冲区布局无效"@,
            RecordingError::NothingCaptured => "录制没有捕获到任何画面"@,
            RecordingError::FileFinished => "录制文件已经结束"@,
            RecordingError::TrackWidth { width } =>
                "录制宽度超出 MP4 限制："@ + text::decimal(width as nat),
            RecordingError::TrackHeight { height } =>
                "录制高度超出 MP4 限制："@ + text::decimal(height as nat),
            RecordingError::System(message) => message@,
        }
    }

    /// The text shown for this error.
    pub fn message(&self) -> (message: String)
        ensures
            message@ == self.text(),
    {
        match self {
            RecordingError::Unsupported => "当前平台没有系统 H.264 编码器，无法录制会话".to_owned(),
            RecordingError::InvalidSize => "录制尺寸无效".to_owned(),
            RecordingError::WidthRange => "录制宽度超出编码器范围".to_owned(),
            RecordingError::HeightRange => "录制高度超出编码器范围".to_owned(),
            RecordingError::EncoderFinished => "编码器已经结束".to_owned(),
            RecordingError::BgraMismatch => "录制的 BGRA 帧与编码尺寸不匹配".to_owned(),
            RecordingError::Nv12Mismatch => "录制的 NV12 帧与编码尺寸不匹配".to_owned(),
            RecordingError::NoInputFormat =>
                "系统 H.264 编码器既不接受 ARGB32 也不接受 NV12 输入".to_owned(),
            RecordingError::FormatMismatch => "录制帧格式与编码器输入格式不一致".to_owned(),
            RecordingError::FrameTooLarge => "录制帧过大".to_owned(),
            RecordingError::MissingTimestamps => "编码输出缺少时间戳".to_owned(),
            RecordingError::EncodeStatus { status } => {
                let mut out = "VideoToolbox 编码帧失败（状态 ".to_owned();
                text::push_signed(&mut out, *status);
                out.append("）");
                out
            },
            RecordingError::NoDescription => "VideoToolbox 输出缺少格式描述".to_owned(),
            RecordingError::NoData => "VideoToolbox 输出缺少压缩数据".to_owned(),
            RecordingError::EmptyData => "VideoToolbox 输出为空".to_owned(),
            RecordingError::CopyStatus { status } => {
                let mut out = "无法读取 VideoToolbox 输出（状态 ".to_owned();
                text::push_signed(&mut out, *status);
                out.append("）");
                out
            },
            RecordingError::ParameterSetStatus { status } => {
                let mut out = "无法读取 H.264 参数集（状态 ".to_owned();
                text::push_signed(&mut out, *status);
                out.append("）");
                out
            },
            RecordingError::LengthPrefix { length } => {
                let mut out = "VideoToolbox 输出的 NAL 长度前缀为 ".to_owned();
                text::push_signed(&mut out, *length);
                out.append(" 字节，MP4 只支持 4 字节");
                out
            },
            RecordingError::BufferLayout => "录制帧的缓冲区布局无效".to_owned(),
            RecordingError::NothingCaptured => "录制没有捕获到任何画面".to_owned(),
            RecordingError::FileFinished => "录制文件已经结束".to_owned(),
            RecordingError::TrackWidth { width } => {
                let mut out = "录制宽度超出 MP4 限制：".to_owned();
                text::push_decimal(&mut out, *width as u64);
                out
            },
            RecordingError::TrackHeight { height } => {
                let mut out = "录制高度超出 MP4 限制：".to_owned();
                text::push_decimal(&mut out, *height as u64);
                out
            },
            RecordingError::System(message) => message.clone(),
        }
    }
}

} // verus!
