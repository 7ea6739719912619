//! What can go wrong in a platform decoder.

use crate::text;
use vstd::prelude::*;

verus! {

/// Why a platform decoder gave no image.
#[derive(Debug)]
pub enum DecoderError {
    /// A session was asked for before the codec's parameter sets came.
    NoParameterSets,
    /// The parameter sets name an empty or oversized frame.
    FrameDimensions,
    /// The visible part of the frame is empty.
    EmptyAperture,
    /// The visible part does not begin on a chroma sample.
    UnalignedAperture { x: usize, y: usize },
    /// The visible part is too wide to be added up.
    ApertureWidthOverflow,
    /// The visible part is too high to be added up.
    ApertureHeightOverflow,
    /// The visible part exceeds the frame.
    ApertureOutside {
        width: usize,
        height: usize,
        x: usize,
        y: usize,
        encoded_width: usize,
        encoded_height: usize,
    },
    /// The image is empty or oversized.
    BufferDimensions { width: usize, height: usize },
    /// The visible part of the image is too wide to be added up.
    VisibleWidthOverflow,
    /// The visible part of the image is too high to be added up.
    VisibleHeightOverflow,
    /// The image is smaller than its visible part.
    BufferSmaller {
        buffer_width: usize,
        buffer_height: usize,
        width: usize,
        height: usize,
        x: usize,
        y: usize,
    },
    /// The image is not NV12.
    PixelFormat { format: u32 },
    /// The image does not have two planes.
    PlaneCount { count: usize },
    /// The planes do not match the image.
    PlaneGeometry {
        buffer_width: usize,
        buffer_height: usize,
        y_width: usize,
        y_height: usize,
        uv_width: usize,
        uv_height: usize,
    },
    /// The planes cannot be read.
    Inaccessible { y_len: usize, uv_len: usize },
    /// The decoder returned something else than an image.
    NotPixelBuffer,
    /// The output format names an empty image.
    ZeroOutput,
    /// The rows of the output format are shorter than its width.
    NarrowStride { stride: usize, width: usize },
    /// An output image does not fit in memory.
    OutputSizeOverflow,
    /// An output image is larger than a buffer can be.
    OutputTooLarge,
    /// The luma plane does not fit in memory.
    LumaOverflow,
    /// The chroma plane does not fit in memory.
    ChromaOverflow,
    /// The two planes do not fit in memory together.
    BufferOverflow,
    /// The output is shorter than its format promises.
    Truncated { required: usize, actual: usize },
    /// An output came before its format was known.
    NoOutputFormat,
    /// An output came although nothing was submitted.
    UnmatchedOutput,
    /// A submission number cannot serve as a timestamp.
    SubmissionRange,
    /// The system decoder refused an access unit.
    VcpSubmission { stream_index: usize, timestamp: u32, submission: u64, error: String },
    /// The system decoder failed on an access unit.
    MftDecode { stream_index: usize, timestamp: u32, submission: u64, error: String },
}

impl DecoderError {
    /// The text shown for this error.
    pub open spec fn text(&self) -> Seq<char> {
        match *self {
            DecoderError::NoParameterSets =>
                "VCP session cannot start before codec parameter sets arrive"@,
            DecoderError::FrameDimensions =>
                "codec parameter sets contain invalid frame dimensions"@,
            DecoderError::EmptyAperture => "codec clean aperture is empty"@,
            DecoderError::UnalignedAperture { x, y } =>
                "NV12 clean aperture origin must be chroma-aligned: ("@
                + text::decimal(x as nat)
                + ", "@
                + text::decimal(y as nat)
                + ")"@,
            DecoderError::ApertureWidthOverflow => "codec clean aperture width overflow"@,
            DecoderError::ApertureHeightOverflow => "codec clean aperture height overflow"@,
            DecoderError::ApertureOutside {
                width,
                height,
                x,
                y,
                encoded_width,
                encoded_height,
            } => "codec clean aperture exceeds encoded frame: aperture="@
                + text::decimal(width as nat)
                + "x"@
                + text::decimal(height as nat)
                + "+"@
                + text::decimal(x as nat)
                + ","@
                + text::decimal(y as nat)
                + " encoded="@
                + text::decimal(encoded_width as nat)
                + "x"@
                + text::decimal(encoded_height as nat),
            DecoderError::BufferDimensions { width, height } =>
                "VCP returned invalid CVPixelBuffer dimensions "@
                + text::decimal(width as nat)
                + "x"@
                + text::decimal(height as nat),
            DecoderError::VisibleWidthOverflow => "VCP visible width overflow"@,
            DecoderError::VisibleHeightOverflow => "VCP visible height overflow"@,
            DecoderError::BufferSmaller {
                buffer_width,
                buffer_height,
                width,
                height,
                x,
                y,
            } => "VCP output is smaller than the codec clean aperture: buffer="@
                + text::decimal(buffer_width as nat)
                + "x"@
                + text::decimal(buffer_height as nat)
                + " aperture="@
                + text::decimal(width as nat)
                + "x"@
                + text::decimal(height as nat)
                + "+"@
                + text::decimal(x as nat)
                + ","@
                + text::decimal(y as nat),
            DecoderError::PixelFormat { format } => "VCP returned unsupported pixel format 0x"@
                + text::padded_hexadecimal(format as nat, 8)
                + "; expected native NV12"@,
            DecoderError::PlaneCount { count } => "VCP returned NV12 buffer with "@
                + text::decimal(count as nat)
                + " planes; expected 2"@,
            DecoderError::PlaneGeometry {
                buffer_width,
                buffer_height,
                y_width,
                y_height,
                uv_width,
                uv_height,
            } => "VCP returned inconsistent NV12 plane geometry: buffer="@
                + text::decimal(buffer_width as nat)
                + "x"@
                + text::decimal(buffer_height as nat)
                + ", y="@
                + text::decimal(y_width as nat)
                + "x"@
                + text::decimal(y_height as nat)
                + ", uv="@
                + text::decimal(uv_width as nat)
                + "x"@
                + text::decimal(uv_height as nat),
            DecoderError::Inaccessible { y_len, uv_len } =>
                "VCP returned inaccessible NV12 plane storage: y=0/"@
                + text::decimal(y_len as nat)
                + ", uv=0/"@
                + text::decimal(uv_len as nat),
            DecoderError::NotPixelBuffer => "VCP returned an object that is not a CVPixelBuffer"@,
            DecoderError::ZeroOutput => "MFT 返回了零尺寸 NV12 输出"@,
            DecoderError::NarrowStride { stride, width } => "MFT NV12 stride 小于宽度：stride="@
                + text::decimal(stride as nat)
                + " width="@
                + text::decimal(width as nat),
            DecoderError::OutputSizeOverflow => "MFT NV12 输出大小溢出"@,
            DecoderError::OutputTooLarge => "MFT 输出 sample 过大"@,
            DecoderError::LumaOverflow => "MFT NV12 亮度平面大小溢出"@,
            DecoderError::ChromaOverflow => "MFT NV12 色度平面大小溢出"@,
            DecoderError::BufferOverflow => "MFT NV12 buffer 大小溢出"@,
            DecoderError::Truncated { required, actual } => "MFT NV12 buffer 被截断：required="@
                + text::decimal(required as nat)
                + " actual="@
                + text::decimal(actual as nat),
            DecoderError::NoOutputFormat => "MFT 在输出格式确定前返回了 sample"@,
            DecoderError::UnmatchedOutput => "MFT 输出无法对应到已提交的 access unit"@,
            DecoderError::SubmissionRange => "MFT 提交序号超出时间戳范围"@,
            DecoderError::VcpSubmission {
                stream_index,
                timestamp,
                submission,
                error,
            } => "VCP decode submission failed: stream="@
                + text::decimal(stream_index as nat)
                + " timestamp="@
                + text::decimal(timestamp as nat)
                + " submission="@
                + text::decimal(submission as nat)
                + ": "@
                + error@,
            DecoderError::MftDecode {
                stream_index,
                timestamp,
                submission,
                error,
            } => "MFT decode failed: stream="@
                + text::decimal(stream_index as nat)
                + " timestamp="@
                + text::decimal(timestamp as nat)
                + " submission="@
                + text::decimal(submission as nat)
                + ": "@
                + error@,
        }
    }

    /// The text shown for this error.
    pub fn message(&self) -> (message: String)
        ensures
            message@ == self.text(),
    {
        let mut m = String::new();
        match self {
            DecoderError::NoParameterSets => {
                m.append("VCP session cannot start before codec parameter sets arrive");
            },
            DecoderError::FrameDimensions => {
                m.append("codec parameter sets contain invalid frame dimensions");
            },
            DecoderError::EmptyAperture => {
                m.append("codec clean aperture is empty");
            },
            DecoderError::UnalignedAperture { x, y } => {
                m.append("NV12 clean aperture origin must be chroma-aligned: (");
                text::push_decimal(&mut m, *x as u64);
                m.append(", ");
                text::push_decimal(&mut m, *y as u64);
                m.append(")");
            },
            DecoderError::ApertureWidthOverflow => {
                m.append("codec clean aperture width overflow");
            },
            DecoderError::ApertureHeightOverflow => {
                m.append("codec clean aperture height overflow");
            },
            DecoderError::ApertureOutside {
                width,
                height,
                x,
                y,
                encoded_width,
                encoded_height,
            } => {
                m.append("codec clean aperture exceeds encoded frame: aperture=");
                text::push_decimal(&mut m, *width as u64);
                m.append("x");
                text::push_decimal(&mut m, *height as u64);
                m.append("+");
                text::push_decimal(&mut m, *x as u64);
                m.append(",");
                text::push_decimal(&mut m, *y as u64);
                m.append(" encoded=");
                text::push_decimal(&mut m, *encoded_width as u64);
                m.append("x");
                text::push_decimal(&mut m, *encoded_height as u64);
            },
            DecoderError::BufferDimensions { width, height } => {
                m.append("VCP returned invalid CVPixelBuffer dimensions ");
                text::push_decimal(&mut m, *width as u64);
                m.append("x");
                text::push_decimal(&mut m, *height as u64);
            },
            DecoderError::VisibleWidthOverflow => {
                m.append("VCP visible width overflow");
            },
            DecoderError::VisibleHeightOverflow => {
                m.append("VCP visible height overflow");
            },
            DecoderError::BufferSmaller { buffer_width, buffer_height, width, height, x, y } => {
                m.append("VCP output is smaller than the codec clean aperture: buffer=");
                text::push_decimal(&mut m, *buffer_width as u64);
                m.append("x");
                text::push_decimal(&mut m, *buffer_height as u64);
                m.append(" aperture=");
                text::push_decimal(&mut m, *width as u64);
                m.append("x");
                text::push_decimal(&mut m, *height as u64);
                m.append("+");
                text::push_decimal(&mut m, *x as u64);
                m.append(",");
                text::push_decimal(&mut m, *y as u64);
            },
            DecoderError::PixelFormat { format } => {
                m.append("VCP returned unsupported pixel format 0x");
                text::push_padded_hex(&mut m, *format as u64, 8);
                m.append("; expected native NV12");
            },
            DecoderError::PlaneCount { count } => {
                m.append("VCP returned NV12 buffer with ");
                text::push_decimal(&mut m, *count as u64);
                m.append(" planes; expected 2");
            },
            DecoderError::PlaneGeometry {
                buffer_width,
                buffer_height,
                y_width,
                y_height,
                uv_width,
                uv_height,
            } => {
                m.append("VCP returned inconsistent NV12 plane geometry: buffer=");
                text::push_decimal(&mut m, *buffer_width as u64);
                m.append("x");
                text::push_decimal(&mut m, *buffer_height as u64);
                m.append(", y=");
                text::push_decimal(&mut m, *y_width as u64);
                m.append("x");
                text::push_decimal(&mut m, *y_height as u64);
                m.append(", uv=");
                text::push_decimal(&mut m, *uv_width as u64);
                m.append("x");
                text::push_decimal(&mut m, *uv_height as u64);
            },
            DecoderError::Inaccessible { y_len, uv_len } => {
                m.append("VCP returned inaccessible NV12 plane storage: y=0/");
                text::push_decimal(&mut m, *y_len as u64);
                m.append(", uv=0/");
                text::push_decimal(&mut m, *uv_len as u64);
            },
            DecoderError::NotPixelBuffer => {
                m.append("VCP returned an object that is not a CVPixelBuffer");
            },
            DecoderError::ZeroOutput => {
                m.append("MFT 返回了零尺寸 NV12 输出");
            },
            DecoderError::NarrowStride { stride, width } => {
                m.append("MFT NV12 stride 小于宽度：stride=");
                text::push_decimal(&mut m, *stride as u64);
                m.append(" width=");
                text::push_decimal(&mut m, *width as u64);
            },
            DecoderError::OutputSizeOverflow => {
                m.append("MFT NV12 输出大小溢出");
            },
            DecoderError::OutputTooLarge => {
                m.append("MFT 输出 sample 过大");
            },
            DecoderError::LumaOverflow => {
                m.append("MFT NV12 亮度平面大小溢出");
            },
            DecoderError::ChromaOverflow => {
                m.append("MFT NV12 色度平面大小溢出");
            },
            DecoderError::BufferOverflow => {
                m.append("MFT NV12 buffer 大小溢出");
            },
            DecoderError::Truncated { required, actual } => {
                m.append("MFT NV12 buffer 被截断：required=");
                text::push_decimal(&mut m, *required as u64);
                m.append(" actual=");
                text::push_decimal(&mut m, *actual as u64);
            },
            DecoderError::NoOutputFormat => {
                m.append("MFT 在输出格式确定前返回了 sample");
            },
            DecoderError::UnmatchedOutput => {
                m.append("MFT 输出无法对应到已提交的 access unit");
            },
            DecoderError::SubmissionRange => {
                m.append("MFT 提交序号超出时间戳范围");
            },
            DecoderError::VcpSubmission { stream_index, timestamp, submission, error } => {
                m.append("VCP decode submission failed: stream=");
                text::push_decimal(&mut m, *stream_index as u64);
                m.append(" timestamp=");
                text::push_decimal(&mut m, *timestamp as u64);
                m.append(" submission=");
                text::push_decimal(&mut m, *submission);
                m.append(": ");
                m.append(error.as_str());
            },
            DecoderError::MftDecode { stream_index, timestamp, submission, error } => {
                m.append("MFT decode failed: stream=");
                text::push_decimal(&mut m, *stream_index as u64);
                m.append(" timestamp=");
                text::push_decimal(&mut m, *timestamp as u64);
                m.append(" submission=");
                text::push_decimal(&mut m, *submission);
                m.append(": ");
                m.append(error.as_str());
            },
        }
        assert(m@ =~= self.text());
        m
    }
}

} // verus!
