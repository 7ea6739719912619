//! Encoder effort of a recording.

use crate::i18n::Language;
use crate::text;
use vstd::prelude::*;

verus! {

/// Hint handed to the encoder's rate control.
pub const FRAME_RATE_HINT: u32 = 30;

/// The smallest and the largest bitrate that an encoder is asked for.
pub const MIN_BITRATE: u32 = 1_500_000;

pub const MAX_BITRATE: u32 = 120_000_000;

/// Encoder effort, expressed as the bits spent per pixel of presented content.
#[derive(Debug, Clone, Copy, PartialEq, Eq, Structural)]
pub enum RecordingQuality {
    High,
    Balanced,
    Compact,
}

/// The name under which a quality is kept in the configuration.
pub open spec fn quality_name(quality: RecordingQuality) -> Seq<char> {
    match quality {
        RecordingQuality::High => "high"@,
        RecordingQuality::Balanced => "balanced"@,
        RecordingQuality::Compact => "compact"@,
    }
}

/// The quality that a name in the configuration stands for; an unknown name
/// stands for the balanced one.
pub open spec fn quality_named(name: Seq<char>) -> RecordingQuality {
    if name == "high"@ {
        RecordingQuality::High
    } else if name == "compact"@ {
        RecordingQuality::Compact
    } else {
        RecordingQuality::Balanced
    }
}

/// The label of a quality before translation.
pub open spec fn quality_label(quality: RecordingQuality) -> Seq<char> {
    match quality {
        RecordingQuality::High => "高画质"@,
        RecordingQuality::Balanced => "标准"@,
        RecordingQuality::Compact => "小体积"@,
    }
}

/// Hundredths of a bit that are spent per pixel.
pub open spec fn centibits_per_pixel(quality: RecordingQuality) -> nat {
    match quality {
        RecordingQuality::High => 20,
        RecordingQuality::Balanced => 12,
        RecordingQuality::Compact => 7,
    }
}

/// The average bitrate for a frame size: the bits of all pixels of a second, but
/// neither too few for a usable stream nor more than an encoder accepts.
pub open spec fn target_bitrate(quality: RecordingQuality, width: nat, height: nat) -> nat {
    let bits = width * height * 30 * centibits_per_pixel(quality) / 100;
    if bits < 1_500_000 {
        1_500_000
    } else if bits > 120_000_000 {
        120_000_000
    } else {
        bits
    }
}

impl RecordingQuality {
    /// The qualities, best first.
    pub fn all() -> (all: [RecordingQuality; 3])
        ensures
            all@ == seq![
                RecordingQuality::High,
                RecordingQuality::Balanced,
                RecordingQuality::Compact,
            ],
    {
        [RecordingQuality::High, RecordingQuality::Balanced, RecordingQuality::Compact]
    }

    /// The label shown for the quality.
    pub fn label(self, language: Language) -> (label: &'static str)
        ensures
            label@ == crate::i18n::translation(language, quality_label(self)),
    {
        let source: &'static str = match self {
            RecordingQuality::High => "高画质",
            RecordingQuality::Balanced => "标准",
            RecordingQuality::Compact => "小体积",
        };
        language.tr(source)
    }

    /// The quality that a name in the configuration stands for.
    pub fn from_cache(value: &str) -> (quality: Self)
        ensures
            quality == quality_named(value@),
    {
        if text::same_text(value, "high") {
            RecordingQuality::High
        } else if text::same_text(value, "compact") {
            RecordingQuality::Compact
        } else {
            RecordingQuality::Balanced
        }
    }

    /// The name under which the quality is kept in the configuration.
    pub fn to_cache(self) -> (name: &'static str)
        ensures
            name@ == quality_name(self),
    {
        match self {
            RecordingQuality::High => "high",
            RecordingQuality::Balanced => "balanced",
            RecordingQuality::Compact => "compact",
        }
    }

    fn centibits(self) -> (centibits: u128)
        ensures
            centibits == centibits_per_pixel(self),
    {
        match self {
            RecordingQuality::High => 20,
            RecordingQuality::Balanced => 12,
            RecordingQuality::Compact => 7,
        }
    }

    /// Average bitrate for a frame size.
    pub fn bitrate(self, width: u32, height: u32) -> (bitrate: u32)
        ensures
            bitrate == target_bitrate(self, width as nat, height as nat),
            MIN_BITRATE <= bitrate <= MAX_BITRATE,
    {
        assert(0 <= width * height <= 0xffff_ffff * 0xffff_ffff) by (nonlinear_arith)
            requires
                0 <= width <= 0xffff_ffff,
                0 <= height <= 0xffff_ffff,
        ;
        let pixels: u128 = width as u128 * height as u128 * 30;
        let centibits: u128 = self.centibits();
        assert(0 <= pixels * centibits <= pixels * 20) by (nonlinear_arith)
            requires
                0 <= centibits <= 20,
                0 <= pixels,
        ;
        let bits: u128 = pixels * centibits / 100;
        if bits < 1_500_000 {
            1_500_000
        } else if bits > 120_000_000 {
            120_000_000
        } else {
            bits as u32
        }
    }
}

/// A quality survives the configuration file.
pub proof fn law_quality_round_trip(quality: RecordingQuality)
    ensures
        quality_named(quality_name(quality)) == quality,
{
    reveal_strlit("high");
    reveal_strlit("balanced");
    reveal_strlit("compact");
    assert("high"@.len() == 4);
    assert("compact"@.len() == 7);
    assert("balanced"@.len() == 8);
}

/// A larger frame never gets a smaller bitrate, and a better quality never less
/// than a worse one.
pub proof fn law_bitrate_scales_with_the_frame(
    quality: RecordingQuality,
    width: nat,
    height: nat,
    larger_width: nat,
    larger_height: nat,
)
    requires
        width <= larger_width,
        height <= larger_height,
    ensures
        target_bitrate(quality, width, height) <= target_bitrate(
            quality,
            larger_width,
            larger_height,
        ),
        target_bitrate(RecordingQuality::Compact, width, height) <= target_bitrate(
            RecordingQuality::Balanced,
            width,
            height,
        ),
        target_bitrate(RecordingQuality::Balanced, width, height) <= target_bitrate(
            RecordingQuality::High,
            width,
            height,
        ),
{
    assert(width * height <= larger_width * larger_height) by (nonlinear_arith)
        requires
            width <= larger_width,
            height <= larger_height,
            0 <= width,
            0 <= height,
    ;
    let c = centibits_per_pixel(quality);
    assert(width * height * 30 * c <= larger_width * larger_height * 30 * c) by (nonlinear_arith)
        requires
            width * height <= larger_width * larger_height,
            0 <= c,
    ;
}

/// The bitrate spends 0.2, 0.12 or 0.07 bits on each pixel of thirty frames a second,
/// rounded down, between 1.5 and 120 megabits.
pub proof fn law_bits_are_spent_on_pixels(quality: RecordingQuality, width: nat, height: nat)
    ensures
        ({
            let hundredths: int = match quality {
                RecordingQuality::High => 20,
                RecordingQuality::Balanced => 12,
                RecordingQuality::Compact => 7,
            };
            let bits = width * height * 30 * hundredths;
            let rate = target_bitrate(quality, width, height);
            &&& 1_500_000 <= rate <= 120_000_000
            &&& rate > 1_500_000 ==> 100 * rate <= bits
            &&& rate < 120_000_000 ==> bits < 100 * rate + 100
        }),
{
}

/// The names of the qualities in the configuration; every other name stands for the
/// balanced one.
pub proof fn law_quality_names(name: Seq<char>)
    ensures
        quality_name(RecordingQuality::High) == "high"@,
        quality_name(RecordingQuality::Balanced) == "balanced"@,
        quality_name(RecordingQuality::Compact) == "compact"@,
        quality_named(name) is High <==> name == "high"@,
        quality_named(name) is Compact <==> name == "compact"@,
{
    reveal_strlit("high");
    reveal_strlit("compact");
    assert("high"@.len() != "compact"@.len());
}

} // verus!
