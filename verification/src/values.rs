//! The enums that mirror closed API vocabularies.
//!
//! A closed set of wire strings is an enum, never a `&str`: a field of an enum
//! with no invalid variant accepts only what the API does. Vocabularies the
//! caller sends are *closed*: an unknown string names no value, because the
//! crate would otherwise be unable to send it back. Vocabularies only the
//! server sends are *open*: Google may add a value without a new API version,
//! so an unknown string decodes as `Unrecognized` instead of failing the frame.

use vstd::prelude::*;

use crate::text::same_text;

verus! {

/// How much thinking a Gemini 3 model spends before it answers.
///
/// Each model accepts a subset, so a model type carries its own level enum
/// and converts into this one; this is the union the wire knows.
#[derive(Debug, Clone, Copy, PartialEq, Eq, Structural, Hash, PartialOrd, Ord)]
pub enum ThinkingLevel {
    /// Little to no thinking.
    Minimal,
    /// Low thinking.
    Low,
    /// Medium thinking.
    Medium,
    /// High thinking.
    High,
}

impl ThinkingLevel {
    /// The string this value takes on the wire.
    pub open spec fn wire(self) -> Seq<char> {
        match self {
            ThinkingLevel::Minimal => "minimal"@,
            ThinkingLevel::Low => "low"@,
            ThinkingLevel::Medium => "medium"@,
            ThinkingLevel::High => "high"@,
        }
    }

    /// The string this value takes on the wire.
    pub fn as_str(self) -> (r: &'static str)
        ensures
            r@ == self.wire(),
    {
        match self {
            ThinkingLevel::Minimal => "minimal",
            ThinkingLevel::Low => "low",
            ThinkingLevel::Medium => "medium",
            ThinkingLevel::High => "high",
        }
    }

    /// The value a wire string names, if it names one.
    pub fn from_wire(s: &str) -> (r: Option<Self>)
        ensures
            match r {
                Some(v) => v.wire() == s@,
                None => forall|v: Self| #[trigger] v.wire() != s@,
            },
    {
        if same_text(s, "minimal") {
            Some(ThinkingLevel::Minimal)
        } else if same_text(s, "low") {
            Some(ThinkingLevel::Low)
        } else if same_text(s, "medium") {
            Some(ThinkingLevel::Medium)
        } else if same_text(s, "high") {
            Some(ThinkingLevel::High)
        } else {
            None
        }
    }

    /// Every value, in documentation order.
    pub fn all() -> (r: Vec<Self>)
        ensures
            r@ == seq![ThinkingLevel::Minimal, ThinkingLevel::Low, ThinkingLevel::Medium, ThinkingLevel::High],
    {
        vec![ThinkingLevel::Minimal, ThinkingLevel::Low, ThinkingLevel::Medium, ThinkingLevel::High]
    }

    /// Distinct values take distinct wire strings.
    pub proof fn lemma_wire_injective(a: Self, b: Self)
        ensures
            a.wire() == b.wire() ==> a == b,
    {
        reveal_strlit("minimal");
        reveal_strlit("low");
        reveal_strlit("medium");
        reveal_strlit("high");
        if a.wire() == b.wire() {
            assert(a.wire().len() == b.wire().len());
        }
    }
}

/// Whether thought steps carry a readable summary.
///
/// Summaries change what the response contains, never what the model
/// reasons: the signature that preserves the reasoning is returned either
/// way.
#[derive(Debug, Clone, Copy, PartialEq, Eq, Structural, Hash, PartialOrd, Ord)]
pub enum ThinkingSummaries {
    /// Return summaries when the model produced enough reasoning to summarize.
    Auto,
    /// Return no summaries. The documented default.
    Off,
}

impl ThinkingSummaries {
    /// The string this value takes on the wire.
    pub open spec fn wire(self) -> Seq<char> {
        match self {
            ThinkingSummaries::Auto => "auto"@,
            ThinkingSummaries::Off => "none"@,
        }
    }

    /// The string this value takes on the wire.
    pub fn as_str(self) -> (r: &'static str)
        ensures
            r@ == self.wire(),
    {
        match self {
            ThinkingSummaries::Auto => "auto",
            ThinkingSummaries::Off => "none",
        }
    }

    /// The value a wire string names, if it names one.
    pub fn from_wire(s: &str) -> (r: Option<Self>)
        ensures
            match r {
                Some(v) => v.wire() == s@,
                None => forall|v: Self| #[trigger] v.wire() != s@,
            },
    {
        if same_text(s, "auto") {
            Some(ThinkingSummaries::Auto)
        } else if same_text(s, "none") {
            Some(ThinkingSummaries::Off)
        } else {
            None
        }
    }

    /// Every value, in documentation order.
    pub fn all() -> (r: Vec<Self>)
        ensures
            r@ == seq![ThinkingSummaries::Auto, ThinkingSummaries::Off],
    {
        vec![ThinkingSummaries::Auto, ThinkingSummaries::Off]
    }

    /// Distinct values take distinct wire strings.
    pub proof fn lemma_wire_injective(a: Self, b: Self)
        ensures
            a.wire() == b.wire() ==> a == b,
    {
        reveal_strlit("auto");
        reveal_strlit("none");
        if a.wire() == b.wire() {
            assert(a.wire().len() == b.wire().len());
            assert(a.wire()[0] == b.wire()[0]);
        }
    }
}

/// Which capacity pool serves the request.
#[derive(Debug, Clone, Copy, PartialEq, Eq, Structural, Hash, PartialOrd, Ord)]
pub enum ServiceTier {
    /// Cheaper, slower, and preemptible.
    Flex,
    /// The ordinary pool.
    Standard,
    /// Higher priority at a higher price.
    Priority,
}

impl ServiceTier {
    /// The string this value takes on the wire.
    pub open spec fn wire(self) -> Seq<char> {
        match self {
            ServiceTier::Flex => "flex"@,
            ServiceTier::Standard => "standard"@,
            ServiceTier::Priority => "priority"@,
        }
    }

    /// The string this value takes on the wire.
    pub fn as_str(self) -> (r: &'static str)
        ensures
            r@ == self.wire(),
    {
        match self {
            ServiceTier::Flex => "flex",
            ServiceTier::Standard => "standard",
            ServiceTier::Priority => "priority",
        }
    }

    /// The value a wire string names, if it names one.
    pub fn from_wire(s: &str) -> (r: Option<Self>)
        ensures
            match r {
                Some(v) => v.wire() == s@,
                None => forall|v: Self| #[trigger] v.wire() != s@,
            },
    {
        if same_text(s, "flex") {
            Some(ServiceTier::Flex)
        } else if same_text(s, "standard") {
            Some(ServiceTier::Standard)
        } else if same_text(s, "priority") {
            Some(ServiceTier::Priority)
        } else {
            None
        }
    }

    /// Every value, in documentation order.
    pub fn all() -> (r: Vec<Self>)
        ensures
            r@ == seq![ServiceTier::Flex, ServiceTier::Standard, ServiceTier::Priority],
    {
        vec![ServiceTier::Flex, ServiceTier::Standard, ServiceTier::Priority]
    }

    /// Distinct values take distinct wire strings.
    pub proof fn lemma_wire_injective(a: Self, b: Self)
        ensures
            a.wire() == b.wire() ==> a == b,
    {
        reveal_strlit("flex");
        reveal_strlit("standard");
        reveal_strlit("priority");
        if a.wire() == b.wire() {
            assert(a.wire().len() == b.wire().len());
            assert(a.wire()[0] == b.wire()[0]);
        }
    }
}

/// How the model may use the declared tools.
#[derive(Debug, Clone, Copy, PartialEq, Eq, Structural, Hash, PartialOrd, Ord)]
pub enum ToolChoiceMode {
    /// The model decides whether to call a tool.
    Auto,
    /// The model must call at least one tool.
    Any,
    /// The model must not call a tool.
    NoCalls,
    /// The model decides, and a call it makes is checked against the declared schema before it is returned.
    Validated,
}

impl ToolChoiceMode {
    /// The string this value takes on the wire.
    pub open spec fn wire(self) -> Seq<char> {
        match self {
            ToolChoiceMode::Auto => "auto"@,
            ToolChoiceMode::Any => "any"@,
            ToolChoiceMode::NoCalls => "none"@,
            ToolChoiceMode::Validated => "validated"@,
        }
    }

    /// The string this value takes on the wire.
    pub fn as_str(self) -> (r: &'static str)
        ensures
            r@ == self.wire(),
    {
        match self {
            ToolChoiceMode::Auto => "auto",
            ToolChoiceMode::Any => "any",
            ToolChoiceMode::NoCalls => "none",
            ToolChoiceMode::Validated => "validated",
        }
    }

    /// The value a wire string names, if it names one.
    pub fn from_wire(s: &str) -> (r: Option<Self>)
        ensures
            match r {
                Some(v) => v.wire() == s@,
                None => forall|v: Self| #[trigger] v.wire() != s@,
            },
    {
        if same_text(s, "auto") {
            Some(ToolChoiceMode::Auto)
        } else if same_text(s, "any") {
            Some(ToolChoiceMode::Any)
        } else if same_text(s, "none") {
            Some(ToolChoiceMode::NoCalls)
        } else if same_text(s, "validated") {
            Some(ToolChoiceMode::Validated)
        } else {
            None
        }
    }

    /// Every value, in documentation order.
    pub fn all() -> (r: Vec<Self>)
        ensures
            r@ == seq![ToolChoiceMode::Auto, ToolChoiceMode::Any, ToolChoiceMode::NoCalls, ToolChoiceMode::Validated],
    {
        vec![ToolChoiceMode::Auto, ToolChoiceMode::Any, ToolChoiceMode::NoCalls, ToolChoiceMode::Validated]
    }

    /// Distinct values take distinct wire strings.
    pub proof fn lemma_wire_injective(a: Self, b: Self)
        ensures
            a.wire() == b.wire() ==> a == b,
    {
        reveal_strlit("auto");
        reveal_strlit("any");
        reveal_strlit("none");
        reveal_strlit("validated");
        if a.wire() == b.wire() {
            assert(a.wire().len() == b.wire().len());
            assert(a.wire()[0] == b.wire()[0]);
        }
    }
}

/// How finely the model tokenizes an image or video.
#[derive(Debug, Clone, Copy, PartialEq, Eq, Structural, Hash, PartialOrd, Ord)]
pub enum MediaResolution {
    /// The fewest tokens.
    Low,
    /// Between low and high.
    Medium,
    /// Many tokens, for fine detail.
    High,
    /// The most tokens.
    UltraHigh,
}

impl MediaResolution {
    /// The string this value takes on the wire.
    pub open spec fn wire(self) -> Seq<char> {
        match self {
            MediaResolution::Low => "low"@,
            MediaResolution::Medium => "medium"@,
            MediaResolution::High => "high"@,
            MediaResolution::UltraHigh => "ultra_high"@,
        }
    }

    /// The string this value takes on the wire.
    pub fn as_str(self) -> (r: &'static str)
        ensures
            r@ == self.wire(),
    {
        match self {
            MediaResolution::Low => "low",
            MediaResolution::Medium => "medium",
            MediaResolution::High => "high",
            MediaResolution::UltraHigh => "ultra_high",
        }
    }

    /// The value a wire string names, if it names one.
    pub fn from_wire(s: &str) -> (r: Option<Self>)
        ensures
            match r {
                Some(v) => v.wire() == s@,
                None => forall|v: Self| #[trigger] v.wire() != s@,
            },
    {
        if same_text(s, "low") {
            Some(MediaResolution::Low)
        } else if same_text(s, "medium") {
            Some(MediaResolution::Medium)
        } else if same_text(s, "high") {
            Some(MediaResolution::High)
        } else if same_text(s, "ultra_high") {
            Some(MediaResolution::UltraHigh)
        } else {
            None
        }
    }

    /// Every value, in documentation order.
    pub fn all() -> (r: Vec<Self>)
        ensures
            r@ == seq![MediaResolution::Low, MediaResolution::Medium, MediaResolution::High, MediaResolution::UltraHigh],
    {
        vec![MediaResolution::Low, MediaResolution::Medium, MediaResolution::High, MediaResolution::UltraHigh]
    }

    /// Distinct values take distinct wire strings.
    pub proof fn lemma_wire_injective(a: Self, b: Self)
        ensures
            a.wire() == b.wire() ==> a == b,
    {
        reveal_strlit("low");
        reveal_strlit("medium");
        reveal_strlit("high");
        reveal_strlit("ultra_high");
        if a.wire() == b.wire() {
            assert(a.wire().len() == b.wire().len());
        }
    }
}

/// The MIME types an image block may declare.
#[derive(Debug, Clone, Copy, PartialEq, Eq, Structural, Hash, PartialOrd, Ord)]
pub enum ImageMime {
    /// PNG.
    Png,
    /// JPEG.
    Jpeg,
    /// WebP.
    Webp,
    /// HEIC.
    Heic,
    /// HEIF.
    Heif,
    /// GIF.
    Gif,
    /// BMP.
    Bmp,
    /// TIFF.
    Tiff,
}

impl ImageMime {
    /// The string this value takes on the wire.
    pub open spec fn wire(self) -> Seq<char> {
        match self {
            ImageMime::Png => "image/png"@,
            ImageMime::Jpeg => "image/jpeg"@,
            ImageMime::Webp => "image/webp"@,
            ImageMime::Heic => "image/heic"@,
            ImageMime::Heif => "image/heif"@,
            ImageMime::Gif => "image/gif"@,
            ImageMime::Bmp => "image/bmp"@,
            ImageMime::Tiff => "image/tiff"@,
        }
    }

    /// The string this value takes on the wire.
    pub fn as_str(self) -> (r: &'static str)
        ensures
            r@ == self.wire(),
    {
        match self {
            ImageMime::Png => "image/png",
            ImageMime::Jpeg => "image/jpeg",
            ImageMime::Webp => "image/webp",
            ImageMime::Heic => "image/heic",
            ImageMime::Heif => "image/heif",
            ImageMime::Gif => "image/gif",
            ImageMime::Bmp => "image/bmp",
            ImageMime::Tiff => "image/tiff",
        }
    }

    /// The value a wire string names, if it names one.
    pub fn from_wire(s: &str) -> (r: Option<Self>)
        ensures
            match r {
                Some(v) => v.wire() == s@,
                None => forall|v: Self| #[trigger] v.wire() != s@,
            },
    {
        if same_text(s, "image/png") {
            Some(ImageMime::Png)
        } else if same_text(s, "image/jpeg") {
            Some(ImageMime::Jpeg)
        } else if same_text(s, "image/webp") {
            Some(ImageMime::Webp)
        } else if same_text(s, "image/heic") {
            Some(ImageMime::Heic)
        } else if same_text(s, "image/heif") {
            Some(ImageMime::Heif)
        } else if same_text(s, "image/gif") {
            Some(ImageMime::Gif)
        } else if same_text(s, "image/bmp") {
            Some(ImageMime::Bmp)
        } else if same_text(s, "image/tiff") {
            Some(ImageMime::Tiff)
        } else {
            None
        }
    }

    /// Every value, in documentation order.
    pub fn all() -> (r: Vec<Self>)
        ensures
            r@ == seq![ImageMime::Png, ImageMime::Jpeg, ImageMime::Webp, ImageMime::Heic, ImageMime::Heif, ImageMime::Gif, ImageMime::Bmp, ImageMime::Tiff],
    {
        vec![ImageMime::Png, ImageMime::Jpeg, ImageMime::Webp, ImageMime::Heic, ImageMime::Heif, ImageMime::Gif, ImageMime::Bmp, ImageMime::Tiff]
    }

    /// Distinct values take distinct wire strings.
    pub proof fn lemma_wire_injective(a: Self, b: Self)
        ensures
            a.wire() == b.wire() ==> a == b,
    {
        reveal_strlit("image/png");
        reveal_strlit("image/jpeg");
        reveal_strlit("image/webp");
        reveal_strlit("image/heic");
        reveal_strlit("image/heif");
        reveal_strlit("image/gif");
        reveal_strlit("image/bmp");
        reveal_strlit("image/tiff");
        if a.wire() == b.wire() {
            assert(a.wire().len() == b.wire().len());
            assert(a.wire()[6] == b.wire()[6]);
            assert(a.wire()[9] == b.wire()[9]);
        }
    }
}

/// The MIME types an audio block may declare.
#[derive(Debug, Clone, Copy, PartialEq, Eq, Structural, Hash, PartialOrd, Ord)]
pub enum AudioMime {
    /// WAV.
    Wav,
    /// MP3.
    Mp3,
    /// AIFF.
    Aiff,
    /// AAC.
    Aac,
    /// Ogg.
    Ogg,
    /// FLAC.
    Flac,
    /// MPEG audio.
    Mpeg,
    /// M4A.
    M4a,
    /// Raw 16-bit linear PCM; `sample_rate` and `channels` describe it.
    L16,
    /// Opus.
    Opus,
    /// A-law.
    Alaw,
    /// μ-law.
    Mulaw,
    /// WebM audio.
    Webm,
}

impl AudioMime {
    /// The string this value takes on the wire.
    pub open spec fn wire(self) -> Seq<char> {
        match self {
            AudioMime::Wav => "audio/wav"@,
            AudioMime::Mp3 => "audio/mp3"@,
            AudioMime::Aiff => "audio/aiff"@,
            AudioMime::Aac => "audio/aac"@,
            AudioMime::Ogg => "audio/ogg"@,
            AudioMime::Flac => "audio/flac"@,
            AudioMime::Mpeg => "audio/mpeg"@,
            AudioMime::M4a => "audio/m4a"@,
            AudioMime::L16 => "audio/l16"@,
            AudioMime::Opus => "audio/opus"@,
            AudioMime::Alaw => "audio/alaw"@,
            AudioMime::Mulaw => "audio/mulaw"@,
            AudioMime::Webm => "audio/webm"@,
        }
    }

    /// The string this value takes on the wire.
    pub fn as_str(self) -> (r: &'static str)
        ensures
            r@ == self.wire(),
    {
        match self {
            AudioMime::Wav => "audio/wav",
            AudioMime::Mp3 => "audio/mp3",
            AudioMime::Aiff => "audio/aiff",
            AudioMime::Aac => "audio/aac",
            AudioMime::Ogg => "audio/ogg",
            AudioMime::Flac => "audio/flac",
            AudioMime::Mpeg => "audio/mpeg",
            AudioMime::M4a => "audio/m4a",
            AudioMime::L16 => "audio/l16",
            AudioMime::Opus => "audio/opus",
            AudioMime::Alaw => "audio/alaw",
            AudioMime::Mulaw => "audio/mulaw",
            AudioMime::Webm => "audio/webm",
        }
    }

    /// The value a wire string names, if it names one.
    pub fn from_wire(s: &str) -> (r: Option<Self>)
        ensures
            match r {
                Some(v) => v.wire() == s@,
                None => forall|v: Self| #[trigger] v.wire() != s@,
            },
    {
        if same_text(s, "audio/wav") {
            Some(AudioMime::Wav)
        } else if same_text(s, "audio/mp3") {
            Some(AudioMime::Mp3)
        } else if same_text(s, "audio/aiff") {
            Some(AudioMime::Aiff)
        } else if same_text(s, "audio/aac") {
            Some(AudioMime::Aac)
        } else if same_text(s, "audio/ogg") {
            Some(AudioMime::Ogg)
        } else if same_text(s, "audio/flac") {
            Some(AudioMime::Flac)
        } else if same_text(s, "audio/mpeg") {
            Some(AudioMime::Mpeg)
        } else if same_text(s, "audio/m4a") {
            Some(AudioMime::M4a)
        } else if same_text(s, "audio/l16") {
            Some(AudioMime::L16)
        } else if same_text(s, "audio/opus") {
            Some(AudioMime::Opus)
        } else if same_text(s, "audio/alaw") {
            Some(AudioMime::Alaw)
        } else if same_text(s, "audio/mulaw") {
            Some(AudioMime::Mulaw)
        } else if same_text(s, "audio/webm") {
            Some(AudioMime::Webm)
        } else {
            None
        }
    }

    /// Every value, in documentation order.
    pub fn all() -> (r: Vec<Self>)
        ensures
            r@ == seq![AudioMime::Wav, AudioMime::Mp3, AudioMime::Aiff, AudioMime::Aac, AudioMime::Ogg, AudioMime::Flac, AudioMime::Mpeg, AudioMime::M4a, AudioMime::L16, AudioMime::Opus, AudioMime::Alaw, AudioMime::Mulaw, AudioMime::Webm],
    {
        vec![AudioMime::Wav, AudioMime::Mp3, AudioMime::Aiff, AudioMime::Aac, AudioMime::Ogg, AudioMime::Flac, AudioMime::Mpeg, AudioMime::M4a, AudioMime::L16, AudioMime::Opus, AudioMime::Alaw, AudioMime::Mulaw, AudioMime::Webm]
    }

    /// Distinct values take distinct wire strings.
    pub proof fn lemma_wire_injective(a: Self, b: Self)
        ensures
            a.wire() == b.wire() ==> a == b,
    {
        reveal_strlit("audio/wav");
        reveal_strlit("audio/mp3");
        reveal_strlit("audio/aiff");
        reveal_strlit("audio/aac");
        reveal_strlit("audio/ogg");
        reveal_strlit("audio/flac");
        reveal_strlit("audio/mpeg");
        reveal_strlit("audio/m4a");
        reveal_strlit("audio/l16");
        reveal_strlit("audio/opus");
        reveal_strlit("audio/alaw");
        reveal_strlit("audio/mulaw");
        reveal_strlit("audio/webm");
        if a.wire() == b.wire() {
            assert(a.wire().len() == b.wire().len());
            assert(a.wire()[6] == b.wire()[6]);
            assert(a.wire()[7] == b.wire()[7]);
        }
    }
}

/// The MIME types a document block may declare.
#[derive(Debug, Clone, Copy, PartialEq, Eq, Structural, Hash, PartialOrd, Ord)]
pub enum DocumentMime {
    /// PDF.
    Pdf,
    /// Comma-separated values.
    Csv,
}

impl DocumentMime {
    /// The string this value takes on the wire.
    pub open spec fn wire(self) -> Seq<char> {
        match self {
            DocumentMime::Pdf => "application/pdf"@,
            DocumentMime::Csv => "text/csv"@,
        }
    }

    /// The string this value takes on the wire.
    pub fn as_str(self) -> (r: &'static str)
        ensures
            r@ == self.wire(),
    {
        match self {
            DocumentMime::Pdf => "application/pdf",
            DocumentMime::Csv => "text/csv",
        }
    }

    /// The value a wire string names, if it names one.
    pub fn from_wire(s: &str) -> (r: Option<Self>)
        ensures
            match r {
                Some(v) => v.wire() == s@,
                None => forall|v: Self| #[trigger] v.wire() != s@,
            },
    {
        if same_text(s, "application/pdf") {
            Some(DocumentMime::Pdf)
        } else if same_text(s, "text/csv") {
            Some(DocumentMime::Csv)
        } else {
            None
        }
    }

    /// Every value, in documentation order.
    pub fn all() -> (r: Vec<Self>)
        ensures
            r@ == seq![DocumentMime::Pdf, DocumentMime::Csv],
    {
        vec![DocumentMime::Pdf, DocumentMime::Csv]
    }

    /// Distinct values take distinct wire strings.
    pub proof fn lemma_wire_injective(a: Self, b: Self)
        ensures
            a.wire() == b.wire() ==> a == b,
    {
        reveal_strlit("application/pdf");
        reveal_strlit("text/csv");
        if a.wire() == b.wire() {
            assert(a.wire().len() == b.wire().len());
        }
    }
}

/// The MIME types a video block may declare.
#[derive(Debug, Clone, Copy, PartialEq, Eq, Structural, Hash, PartialOrd, Ord)]
pub enum VideoMime {
    /// MP4.
    Mp4,
    /// MPEG.
    Mpeg,
    /// MPG.
    Mpg,
    /// QuickTime.
    Mov,
    /// AVI.
    Avi,
    /// Flash video.
    Flv,
    /// WebM.
    Webm,
    /// Windows Media.
    Wmv,
    /// 3GPP.
    ThreeGpp,
}

impl VideoMime {
    /// The string this value takes on the wire.
    pub open spec fn wire(self) -> Seq<char> {
        match self {
            VideoMime::Mp4 => "video/mp4"@,
            VideoMime::Mpeg => "video/mpeg"@,
            VideoMime::Mpg => "video/mpg"@,
            VideoMime::Mov => "video/mov"@,
            VideoMime::Avi => "video/avi"@,
            VideoMime::Flv => "video/x-flv"@,
            VideoMime::Webm => "video/webm"@,
            VideoMime::Wmv => "video/wmv"@,
            VideoMime::ThreeGpp => "video/3gpp"@,
        }
    }

    /// The string this value takes on the wire.
    pub fn as_str(self) -> (r: &'static str)
        ensures
            r@ == self.wire(),
    {
        match self {
            VideoMime::Mp4 => "video/mp4",
            VideoMime::Mpeg => "video/mpeg",
            VideoMime::Mpg => "video/mpg",
            VideoMime::Mov => "video/mov",
            VideoMime::Avi => "video/avi",
            VideoMime::Flv => "video/x-flv",
            VideoMime::Webm => "video/webm",
            VideoMime::Wmv => "video/wmv",
            VideoMime::ThreeGpp => "video/3gpp",
        }
    }

    /// The value a wire string names, if it names one.
    pub fn from_wire(s: &str) -> (r: Option<Self>)
        ensures
            match r {
                Some(v) => v.wire() == s@,
                None => forall|v: Self| #[trigger] v.wire() != s@,
            },
    {
        if same_text(s, "video/mp4") {
            Some(VideoMime::Mp4)
        } else if same_text(s, "video/mpeg") {
            Some(VideoMime::Mpeg)
        } else if same_text(s, "video/mpg") {
            Some(VideoMime::Mpg)
        } else if same_text(s, "video/mov") {
            Some(VideoMime::Mov)
        } else if same_text(s, "video/avi") {
            Some(VideoMime::Avi)
        } else if same_text(s, "video/x-flv") {
            Some(VideoMime::Flv)
        } else if same_text(s, "video/webm") {
            Some(VideoMime::Webm)
        } else if same_text(s, "video/wmv") {
            Some(VideoMime::Wmv)
        } else if same_text(s, "video/3gpp") {
            Some(VideoMime::ThreeGpp)
        } else {
            None
        }
    }

    /// Every value, in documentation order.
    pub fn all() -> (r: Vec<Self>)
        ensures
            r@ == seq![VideoMime::Mp4, VideoMime::Mpeg, VideoMime::Mpg, VideoMime::Mov, VideoMime::Avi, VideoMime::Flv, VideoMime::Webm, VideoMime::Wmv, VideoMime::ThreeGpp],
    {
        vec![VideoMime::Mp4, VideoMime::Mpeg, VideoMime::Mpg, VideoMime::Mov, VideoMime::Avi, VideoMime::Flv, VideoMime::Webm, VideoMime::Wmv, VideoMime::ThreeGpp]
    }

    /// Distinct values take distinct wire strings.
    pub proof fn lemma_wire_injective(a: Self, b: Self)
        ensures
            a.wire() == b.wire() ==> a == b,
    {
        reveal_strlit("video/mp4");
        reveal_strlit("video/mpeg");
        reveal_strlit("video/mpg");
        reveal_strlit("video/mov");
        reveal_strlit("video/avi");
        reveal_strlit("video/x-flv");
        reveal_strlit("video/webm");
        reveal_strlit("video/wmv");
        reveal_strlit("video/3gpp");
        if a.wire() == b.wire() {
            assert(a.wire().len() == b.wire().len());
            assert(a.wire()[6] == b.wire()[6]);
            assert(a.wire()[7] == b.wire()[7]);
            assert(a.wire()[8] == b.wire()[8]);
        }
    }
}

/// How the model processes a video it is asked to understand.
#[derive(Debug, Clone, Copy, PartialEq, Eq, Structural, Hash, PartialOrd, Ord)]
pub enum VideoProcessing {
    /// Sampled frames, analyzed once.
    Static,
    /// The model decides where to look, and may look again.
    Agentic,
}

impl VideoProcessing {
    /// The string this value takes on the wire.
    pub open spec fn wire(self) -> Seq<char> {
        match self {
            VideoProcessing::Static => "static"@,
            VideoProcessing::Agentic => "agentic"@,
        }
    }

    /// The string this value takes on the wire.
    pub fn as_str(self) -> (r: &'static str)
        ensures
            r@ == self.wire(),
    {
        match self {
            VideoProcessing::Static => "static",
            VideoProcessing::Agentic => "agentic",
        }
    }

    /// The value a wire string names, if it names one.
    pub fn from_wire(s: &str) -> (r: Option<Self>)
        ensures
            match r {
                Some(v) => v.wire() == s@,
                None => forall|v: Self| #[trigger] v.wire() != s@,
            },
    {
        if same_text(s, "static") {
            Some(VideoProcessing::Static)
        } else if same_text(s, "agentic") {
            Some(VideoProcessing::Agentic)
        } else {
            None
        }
    }

    /// Every value, in documentation order.
    pub fn all() -> (r: Vec<Self>)
        ensures
            r@ == seq![VideoProcessing::Static, VideoProcessing::Agentic],
    {
        vec![VideoProcessing::Static, VideoProcessing::Agentic]
    }

    /// Distinct values take distinct wire strings.
    pub proof fn lemma_wire_injective(a: Self, b: Self)
        ensures
            a.wire() == b.wire() ==> a == b,
    {
        reveal_strlit("static");
        reveal_strlit("agentic");
        if a.wire() == b.wire() {
            assert(a.wire().len() == b.wire().len());
        }
    }
}

/// The language of code the code-execution tool runs.
#[derive(Debug, Clone, Copy, PartialEq, Eq, Structural, Hash, PartialOrd, Ord)]
pub enum CodeLanguage {
    /// Python, the only language documented.
    Python,
}

impl CodeLanguage {
    /// The string this value takes on the wire.
    pub open spec fn wire(self) -> Seq<char> {
        match self {
            CodeLanguage::Python => "python"@,
        }
    }

    /// The string this value takes on the wire.
    pub fn as_str(self) -> (r: &'static str)
        ensures
            r@ == self.wire(),
    {
        match self {
            CodeLanguage::Python => "python",
        }
    }

    /// The value a wire string names, if it names one.
    pub fn from_wire(s: &str) -> (r: Option<Self>)
        ensures
            match r {
                Some(v) => v.wire() == s@,
                None => forall|v: Self| #[trigger] v.wire() != s@,
            },
    {
        if same_text(s, "python") {
            Some(CodeLanguage::Python)
        } else {
            None
        }
    }

    /// Every value, in documentation order.
    pub fn all() -> (r: Vec<Self>)
        ensures
            r@ == seq![CodeLanguage::Python],
    {
        vec![CodeLanguage::Python]
    }

    /// Distinct values take distinct wire strings.
    pub proof fn lemma_wire_injective(a: Self, b: Self)
        ensures
            a.wire() == b.wire() ==> a == b,
    {
        reveal_strlit("python");
        if a.wire() == b.wire() {
            assert(a.wire().len() == b.wire().len());
        }
    }
}

/// Which kinds of Google Search grounding are enabled.
#[derive(Debug, Clone, Copy, PartialEq, Eq, Structural, Hash, PartialOrd, Ord)]
pub enum SearchType {
    /// Web results.
    WebSearch,
    /// Image results.
    ImageSearch,
}

impl SearchType {
    /// The string this value takes on the wire.
    pub open spec fn wire(self) -> Seq<char> {
        match self {
            SearchType::WebSearch => "web_search"@,
            SearchType::ImageSearch => "image_search"@,
        }
    }

    /// The string this value takes on the wire.
    pub fn as_str(self) -> (r: &'static str)
        ensures
            r@ == self.wire(),
    {
        match self {
            SearchType::WebSearch => "web_search",
            SearchType::ImageSearch => "image_search",
        }
    }

    /// The value a wire string names, if it names one.
    pub fn from_wire(s: &str) -> (r: Option<Self>)
        ensures
            match r {
                Some(v) => v.wire() == s@,
                None => forall|v: Self| #[trigger] v.wire() != s@,
            },
    {
        if same_text(s, "web_search") {
            Some(SearchType::WebSearch)
        } else if same_text(s, "image_search") {
            Some(SearchType::ImageSearch)
        } else {
            None
        }
    }

    /// Every value, in documentation order.
    pub fn all() -> (r: Vec<Self>)
        ensures
            r@ == seq![SearchType::WebSearch, SearchType::ImageSearch],
    {
        vec![SearchType::WebSearch, SearchType::ImageSearch]
    }

    /// Distinct values take distinct wire strings.
    pub proof fn lemma_wire_injective(a: Self, b: Self)
        ensures
            a.wire() == b.wire() ==> a == b,
    {
        reveal_strlit("web_search");
        reveal_strlit("image_search");
        if a.wire() == b.wire() {
            assert(a.wire().len() == b.wire().len());
        }
    }
}

/// The environment a computer-use model operates.
#[derive(Debug, Clone, Copy, PartialEq, Eq, Structural, Hash, PartialOrd, Ord)]
pub enum ComputerEnvironment {
    /// A web browser.
    Browser,
    /// A mobile device.
    Mobile,
    /// A desktop.
    Desktop,
}

impl ComputerEnvironment {
    /// The string this value takes on the wire.
    pub open spec fn wire(self) -> Seq<char> {
        match self {
            ComputerEnvironment::Browser => "browser"@,
            ComputerEnvironment::Mobile => "mobile"@,
            ComputerEnvironment::Desktop => "desktop"@,
        }
    }

    /// The string this value takes on the wire.
    pub fn as_str(self) -> (r: &'static str)
        ensures
            r@ == self.wire(),
    {
        match self {
            ComputerEnvironment::Browser => "browser",
            ComputerEnvironment::Mobile => "mobile",
            ComputerEnvironment::Desktop => "desktop",
        }
    }

    /// The value a wire string names, if it names one.
    pub fn from_wire(s: &str) -> (r: Option<Self>)
        ensures
            match r {
                Some(v) => v.wire() == s@,
                None => forall|v: Self| #[trigger] v.wire() != s@,
            },
    {
        if same_text(s, "browser") {
            Some(ComputerEnvironment::Browser)
        } else if same_text(s, "mobile") {
            Some(ComputerEnvironment::Mobile)
        } else if same_text(s, "desktop") {
            Some(ComputerEnvironment::Desktop)
        } else {
            None
        }
    }

    /// Every value, in documentation order.
    pub fn all() -> (r: Vec<Self>)
        ensures
            r@ == seq![ComputerEnvironment::Browser, ComputerEnvironment::Mobile, ComputerEnvironment::Desktop],
    {
        vec![ComputerEnvironment::Browser, ComputerEnvironment::Mobile, ComputerEnvironment::Desktop]
    }

    /// Distinct values take distinct wire strings.
    pub proof fn lemma_wire_injective(a: Self, b: Self)
        ensures
            a.wire() == b.wire() ==> a == b,
    {
        reveal_strlit("browser");
        reveal_strlit("mobile");
        reveal_strlit("desktop");
        if a.wire() == b.wire() {
            assert(a.wire().len() == b.wire().len());
            assert(a.wire()[0] == b.wire()[0]);
        }
    }
}

/// A computer-use safety policy the caller may switch off.
#[derive(Debug, Clone, Copy, PartialEq, Eq, Structural, Hash, PartialOrd, Ord)]
pub enum ComputerSafetyPolicy {
    /// Confirmation before financial transactions.
    FinancialTransactions,
    /// Confirmation before modifying sensitive data.
    SensitiveDataModification,
    /// Confirmation before using communication tools.
    CommunicationTool,
    /// Confirmation before creating accounts.
    AccountCreation,
    /// Confirmation before modifying data.
    DataModification,
    /// Confirmation before changing consent settings.
    UserConsentManagement,
    /// Confirmation before accepting legal terms.
    LegalTermsAndAgreements,
}

impl ComputerSafetyPolicy {
    /// The string this value takes on the wire.
    pub open spec fn wire(self) -> Seq<char> {
        match self {
            ComputerSafetyPolicy::FinancialTransactions => "financial_transactions"@,
            ComputerSafetyPolicy::SensitiveDataModification => "sensitive_data_modification"@,
            ComputerSafetyPolicy::CommunicationTool => "communication_tool"@,
            ComputerSafetyPolicy::AccountCreation => "account_creation"@,
            ComputerSafetyPolicy::DataModification => "data_modification"@,
            ComputerSafetyPolicy::UserConsentManagement => "user_consent_management"@,
            ComputerSafetyPolicy::LegalTermsAndAgreements => "legal_terms_and_agreements"@,
        }
    }

    /// The string this value takes on the wire.
    pub fn as_str(self) -> (r: &'static str)
        ensures
            r@ == self.wire(),
    {
        match self {
            ComputerSafetyPolicy::FinancialTransactions => "financial_transactions",
            ComputerSafetyPolicy::SensitiveDataModification => "sensitive_data_modification",
            ComputerSafetyPolicy::CommunicationTool => "communication_tool",
            ComputerSafetyPolicy::AccountCreation => "account_creation",
            ComputerSafetyPolicy::DataModification => "data_modification",
            ComputerSafetyPolicy::UserConsentManagement => "user_consent_management",
            ComputerSafetyPolicy::LegalTermsAndAgreements => "legal_terms_and_agreements",
        }
    }

    /// The value a wire string names, if it names one.
    pub fn from_wire(s: &str) -> (r: Option<Self>)
        ensures
            match r {
                Some(v) => v.wire() == s@,
                None => forall|v: Self| #[trigger] v.wire() != s@,
            },
    {
        if same_text(s, "financial_transactions") {
            Some(ComputerSafetyPolicy::FinancialTransactions)
        } else if same_text(s, "sensitive_data_modification") {
            Some(ComputerSafetyPolicy::SensitiveDataModification)
        } else if same_text(s, "communication_tool") {
            Some(ComputerSafetyPolicy::CommunicationTool)
        } else if same_text(s, "account_creation") {
            Some(ComputerSafetyPolicy::AccountCreation)
        } else if same_text(s, "data_modification") {
            Some(ComputerSafetyPolicy::DataModification)
        } else if same_text(s, "user_consent_management") {
            Some(ComputerSafetyPolicy::UserConsentManagement)
        } else if same_text(s, "legal_terms_and_agreements") {
            Some(ComputerSafetyPolicy::LegalTermsAndAgreements)
        } else {
            None
        }
    }

    /// Every value, in documentation order.
    pub fn all() -> (r: Vec<Self>)
        ensures
            r@ == seq![ComputerSafetyPolicy::FinancialTransactions, ComputerSafetyPolicy::SensitiveDataModification, ComputerSafetyPolicy::CommunicationTool, ComputerSafetyPolicy::AccountCreation, ComputerSafetyPolicy::DataModification, ComputerSafetyPolicy::UserConsentManagement, ComputerSafetyPolicy::LegalTermsAndAgreements],
    {
        vec![ComputerSafetyPolicy::FinancialTransactions, ComputerSafetyPolicy::SensitiveDataModification, ComputerSafetyPolicy::CommunicationTool, ComputerSafetyPolicy::AccountCreation, ComputerSafetyPolicy::DataModification, ComputerSafetyPolicy::UserConsentManagement, ComputerSafetyPolicy::LegalTermsAndAgreements]
    }

    /// Distinct values take distinct wire strings.
    pub proof fn lemma_wire_injective(a: Self, b: Self)
        ensures
            a.wire() == b.wire() ==> a == b,
    {
        reveal_strlit("financial_transactions");
        reveal_strlit("sensitive_data_modification");
        reveal_strlit("communication_tool");
        reveal_strlit("account_creation");
        reveal_strlit("data_modification");
        reveal_strlit("user_consent_management");
        reveal_strlit("legal_terms_and_agreements");
        if a.wire() == b.wire() {
            assert(a.wire().len() == b.wire().len());
        }
    }
}

/// The documented values of the open vocabulary of the same name.
#[derive(Debug, Clone, Copy, PartialEq, Eq, Structural, Hash, PartialOrd, Ord)]
pub enum KnownStatus {
    /// Still running.
    InProgress,
    /// The model called functions and waits for their results.
    RequiresAction,
    /// Finished.
    Completed,
    /// Failed.
    Failed,
    /// Cancelled.
    Cancelled,
    /// Stopped early, for example at `max_output_tokens`.
    Incomplete,
    /// Stopped because an agent's token budget ran out.
    BudgetExceeded,
    /// Waiting to start, for background interactions.
    Queued,
}

impl KnownStatus {
    /// The string this value takes on the wire.
    pub open spec fn wire(self) -> Seq<char> {
        match self {
            KnownStatus::InProgress => "in_progress"@,
            KnownStatus::RequiresAction => "requires_action"@,
            KnownStatus::Completed => "completed"@,
            KnownStatus::Failed => "failed"@,
            KnownStatus::Cancelled => "cancelled"@,
            KnownStatus::Incomplete => "incomplete"@,
            KnownStatus::BudgetExceeded => "budget_exceeded"@,
            KnownStatus::Queued => "queued"@,
        }
    }

    /// The string this value takes on the wire.
    pub fn as_str(self) -> (r: &'static str)
        ensures
            r@ == self.wire(),
    {
        match self {
            KnownStatus::InProgress => "in_progress",
            KnownStatus::RequiresAction => "requires_action",
            KnownStatus::Completed => "completed",
            KnownStatus::Failed => "failed",
            KnownStatus::Cancelled => "cancelled",
            KnownStatus::Incomplete => "incomplete",
            KnownStatus::BudgetExceeded => "budget_exceeded",
            KnownStatus::Queued => "queued",
        }
    }

    /// The value a wire string names, if it names one.
    pub fn from_wire(s: &str) -> (r: Option<Self>)
        ensures
            match r {
                Some(v) => v.wire() == s@,
                None => forall|v: Self| #[trigger] v.wire() != s@,
            },
    {
        if same_text(s, "in_progress") {
            Some(KnownStatus::InProgress)
        } else if same_text(s, "requires_action") {
            Some(KnownStatus::RequiresAction)
        } else if same_text(s, "completed") {
            Some(KnownStatus::Completed)
        } else if same_text(s, "failed") {
            Some(KnownStatus::Failed)
        } else if same_text(s, "cancelled") {
            Some(KnownStatus::Cancelled)
        } else if same_text(s, "incomplete") {
            Some(KnownStatus::Incomplete)
        } else if same_text(s, "budget_exceeded") {
            Some(KnownStatus::BudgetExceeded)
        } else if same_text(s, "queued") {
            Some(KnownStatus::Queued)
        } else {
            None
        }
    }

    /// Every value, in documentation order.
    pub fn all() -> (r: Vec<Self>)
        ensures
            r@ == seq![KnownStatus::InProgress, KnownStatus::RequiresAction, KnownStatus::Completed, KnownStatus::Failed, KnownStatus::Cancelled, KnownStatus::Incomplete, KnownStatus::BudgetExceeded, KnownStatus::Queued],
    {
        vec![KnownStatus::InProgress, KnownStatus::RequiresAction, KnownStatus::Completed, KnownStatus::Failed, KnownStatus::Cancelled, KnownStatus::Incomplete, KnownStatus::BudgetExceeded, KnownStatus::Queued]
    }

    /// Distinct values take distinct wire strings.
    pub proof fn lemma_wire_injective(a: Self, b: Self)
        ensures
            a.wire() == b.wire() ==> a == b,
    {
        reveal_strlit("in_progress");
        reveal_strlit("requires_action");
        reveal_strlit("completed");
        reveal_strlit("failed");
        reveal_strlit("cancelled");
        reveal_strlit("incomplete");
        reveal_strlit("budget_exceeded");
        reveal_strlit("queued");
        if a.wire() == b.wire() {
            assert(a.wire().len() == b.wire().len());
            assert(a.wire()[0] == b.wire()[0]);
            assert(a.wire()[1] == b.wire()[1]);
        }
    }
}

/// Where an interaction stands.
///
/// Only some are terminal; which ones end a stream is decided in
/// [`crate::settle`], not here.
#[derive(Debug, PartialEq, Eq)]
pub enum Status {
    /// A documented value.
    Known(KnownStatus),
    /// A value newer than this crate, kept verbatim.
    Unrecognized(String),
}

/// The mathematical form of a [`Status`].
pub enum StatusV {
    /// A documented value.
    Known(KnownStatus),
    /// Any other wire string.
    Unrecognized(Seq<char>),
}

impl View for Status {
    type V = StatusV;

    open spec fn view(&self) -> StatusV {
        match self {
            Status::Known(k) => StatusV::Known(*k),
            Status::Unrecognized(s) => StatusV::Unrecognized(s@),
        }
    }
}

impl Status {
    /// The string this value takes on the wire.
    pub open spec fn wire(&self) -> Seq<char> {
        match self {
            Status::Known(k) => k.wire(),
            Status::Unrecognized(s) => s@,
        }
    }

    /// Whether `v` is what the wire string `s` decodes to: the documented
    /// value it names, or else the string itself.
    pub open spec fn decodes(s: Seq<char>, v: Self) -> bool {
        match v {
            Status::Known(k) => k.wire() == s,
            Status::Unrecognized(u) => u@ == s && forall|k: KnownStatus| #[trigger] k.wire() != s,
        }
    }

    /// What a wire string decodes to: the documented value it names, or
    /// else the string itself.
    pub open spec fn decode(s: Seq<char>) -> StatusV {
        if exists|k: KnownStatus| #[trigger] k.wire() == s {
            StatusV::Known(choose|k: KnownStatus| #[trigger] k.wire() == s)
        } else {
            StatusV::Unrecognized(s)
        }
    }

    /// A documented value's wire string decodes back to it, and a string
    /// that names none decodes to itself.
    pub proof fn lemma_decode(s: Seq<char>, k: KnownStatus)
        ensures
            Self::decode(k.wire()) == StatusV::Known(k),
            (forall|j: KnownStatus| #[trigger] j.wire() != s) ==> Self::decode(s) == StatusV::Unrecognized(s),
    {
        let c = choose|c: KnownStatus| #[trigger] c.wire() == k.wire();
        KnownStatus::lemma_wire_injective(c, k);
    }

    /// The string this value takes on the wire.
    pub fn as_str(&self) -> (r: &str)
        ensures
            r@ == self.wire(),
    {
        match self {
            Status::Known(k) => k.as_str(),
            Status::Unrecognized(s) => s.as_str(),
        }
    }

    /// The value a wire string decodes to.
    pub fn from_string(s: String) -> (r: Self)
        ensures
            Self::decodes(s@, r),
            r@ == Self::decode(s@),
    {
        match KnownStatus::from_wire(s.as_str()) {
            Some(k) => {
                proof {
                    let c = choose|c: KnownStatus| #[trigger] c.wire() == s@;
                    KnownStatus::lemma_wire_injective(c, k);
                }
                Status::Known(k)
            },
            None => Status::Unrecognized(s),
        }
    }

    /// Whether this is the documented value `k`.
    pub fn is(&self, k: KnownStatus) -> (r: bool)
        ensures
            r == (*self == Status::Known(k)),
    {
        match self {
            Status::Known(j) => *j == k,
            Status::Unrecognized(_) => false,
        }
    }

    /// Whether two values take the same wire string.
    pub fn same(&self, other: &Self) -> (r: bool)
        ensures
            r == (self.wire() == other.wire()),
    {
        same_text(self.as_str(), other.as_str())
    }
}

impl Clone for Status {
    fn clone(&self) -> (r: Self)
        ensures
            r == *self,
    {
        match self {
            Status::Known(k) => Status::Known(*k),
            Status::Unrecognized(s) => Status::Unrecognized(s.clone()),
        }
    }
}

/// The documented values of the open vocabulary of the same name.
#[derive(Debug, Clone, Copy, PartialEq, Eq, Structural, Hash, PartialOrd, Ord)]
pub enum KnownModality {
    /// Text.
    Text,
    /// Images.
    Image,
    /// Audio.
    Audio,
    /// Video.
    Video,
    /// Documents.
    Document,
}

impl KnownModality {
    /// The string this value takes on the wire.
    pub open spec fn wire(self) -> Seq<char> {
        match self {
            KnownModality::Text => "text"@,
            KnownModality::Image => "image"@,
            KnownModality::Audio => "audio"@,
            KnownModality::Video => "video"@,
            KnownModality::Document => "document"@,
        }
    }

    /// The string this value takes on the wire.
    pub fn as_str(self) -> (r: &'static str)
        ensures
            r@ == self.wire(),
    {
        match self {
            KnownModality::Text => "text",
            KnownModality::Image => "image",
            KnownModality::Audio => "audio",
            KnownModality::Video => "video",
            KnownModality::Document => "document",
        }
    }

    /// The value a wire string names, if it names one.
    pub fn from_wire(s: &str) -> (r: Option<Self>)
        ensures
            match r {
                Some(v) => v.wire() == s@,
                None => forall|v: Self| #[trigger] v.wire() != s@,
            },
    {
        if same_text(s, "text") {
            Some(KnownModality::Text)
        } else if same_text(s, "image") {
            Some(KnownModality::Image)
        } else if same_text(s, "audio") {
            Some(KnownModality::Audio)
        } else if same_text(s, "video") {
            Some(KnownModality::Video)
        } else if same_text(s, "document") {
            Some(KnownModality::Document)
        } else {
            None
        }
    }

    /// Every value, in documentation order.
    pub fn all() -> (r: Vec<Self>)
        ensures
            r@ == seq![KnownModality::Text, KnownModality::Image, KnownModality::Audio, KnownModality::Video, KnownModality::Document],
    {
        vec![KnownModality::Text, KnownModality::Image, KnownModality::Audio, KnownModality::Video, KnownModality::Document]
    }

    /// Distinct values take distinct wire strings.
    pub proof fn lemma_wire_injective(a: Self, b: Self)
        ensures
            a.wire() == b.wire() ==> a == b,
    {
        reveal_strlit("text");
        reveal_strlit("image");
        reveal_strlit("audio");
        reveal_strlit("video");
        reveal_strlit("document");
        if a.wire() == b.wire() {
            assert(a.wire().len() == b.wire().len());
            assert(a.wire()[0] == b.wire()[0]);
        }
    }
}

/// The modality a token count is for.
#[derive(Debug, PartialEq, Eq)]
pub enum Modality {
    /// A documented value.
    Known(KnownModality),
    /// A value newer than this crate, kept verbatim.
    Unrecognized(String),
}

/// The mathematical form of a [`Modality`].
pub enum ModalityV {
    /// A documented value.
    Known(KnownModality),
    /// Any other wire string.
    Unrecognized(Seq<char>),
}

impl View for Modality {
    type V = ModalityV;

    open spec fn view(&self) -> ModalityV {
        match self {
            Modality::Known(k) => ModalityV::Known(*k),
            Modality::Unrecognized(s) => ModalityV::Unrecognized(s@),
        }
    }
}

impl Modality {
    /// The string this value takes on the wire.
    pub open spec fn wire(&self) -> Seq<char> {
        match self {
            Modality::Known(k) => k.wire(),
            Modality::Unrecognized(s) => s@,
        }
    }

    /// Whether `v` is what the wire string `s` decodes to: the documented
    /// value it names, or else the string itself.
    pub open spec fn decodes(s: Seq<char>, v: Self) -> bool {
        match v {
            Modality::Known(k) => k.wire() == s,
            Modality::Unrecognized(u) => u@ == s && forall|k: KnownModality| #[trigger] k.wire() != s,
        }
    }

    /// What a wire string decodes to: the documented value it names, or
    /// else the string itself.
    pub open spec fn decode(s: Seq<char>) -> ModalityV {
        if exists|k: KnownModality| #[trigger] k.wire() == s {
            ModalityV::Known(choose|k: KnownModality| #[trigger] k.wire() == s)
        } else {
            ModalityV::Unrecognized(s)
        }
    }

    /// A documented value's wire string decodes back to it, and a string
    /// that names none decodes to itself.
    pub proof fn lemma_decode(s: Seq<char>, k: KnownModality)
        ensures
            Self::decode(k.wire()) == ModalityV::Known(k),
            (forall|j: KnownModality| #[trigger] j.wire() != s) ==> Self::decode(s) == ModalityV::Unrecognized(s),
    {
        let c = choose|c: KnownModality| #[trigger] c.wire() == k.wire();
        KnownModality::lemma_wire_injective(c, k);
    }

    /// The string this value takes on the wire.
    pub fn as_str(&self) -> (r: &str)
        ensures
            r@ == self.wire(),
    {
        match self {
            Modality::Known(k) => k.as_str(),
            Modality::Unrecognized(s) => s.as_str(),
        }
    }

    /// The value a wire string decodes to.
    pub fn from_string(s: String) -> (r: Self)
        ensures
            Self::decodes(s@, r),
            r@ == Self::decode(s@),
    {
        match KnownModality::from_wire(s.as_str()) {
            Some(k) => {
                proof {
                    let c = choose|c: KnownModality| #[trigger] c.wire() == s@;
                    KnownModality::lemma_wire_injective(c, k);
                }
                Modality::Known(k)
            },
            None => Modality::Unrecognized(s),
        }
    }

    /// Whether this is the documented value `k`.
    pub fn is(&self, k: KnownModality) -> (r: bool)
        ensures
            r == (*self == Modality::Known(k)),
    {
        match self {
            Modality::Known(j) => *j == k,
            Modality::Unrecognized(_) => false,
        }
    }

    /// Whether two values take the same wire string.
    pub fn same(&self, other: &Self) -> (r: bool)
        ensures
            r == (self.wire() == other.wire()),
    {
        same_text(self.as_str(), other.as_str())
    }
}

impl Clone for Modality {
    fn clone(&self) -> (r: Self)
        ensures
            r == *self,
    {
        match self {
            Modality::Known(k) => Modality::Known(*k),
            Modality::Unrecognized(s) => Modality::Unrecognized(s.clone()),
        }
    }
}

/// The documented values of the open vocabulary of the same name.
#[derive(Debug, Clone, Copy, PartialEq, Eq, Structural, Hash, PartialOrd, Ord)]
pub enum KnownGroundingTool {
    /// Google Search.
    GoogleSearch,
    /// Google Maps.
    GoogleMaps,
}

impl KnownGroundingTool {
    /// The string this value takes on the wire.
    pub open spec fn wire(self) -> Seq<char> {
        match self {
            KnownGroundingTool::GoogleSearch => "google_search"@,
            KnownGroundingTool::GoogleMaps => "google_maps"@,
        }
    }

    /// The string this value takes on the wire.
    pub fn as_str(self) -> (r: &'static str)
        ensures
            r@ == self.wire(),
    {
        match self {
            KnownGroundingTool::GoogleSearch => "google_search",
            KnownGroundingTool::GoogleMaps => "google_maps",
        }
    }

    /// The value a wire string names, if it names one.
    pub fn from_wire(s: &str) -> (r: Option<Self>)
        ensures
            match r {
                Some(v) => v.wire() == s@,
                None => forall|v: Self| #[trigger] v.wire() != s@,
            },
    {
        if same_text(s, "google_search") {
            Some(KnownGroundingTool::GoogleSearch)
        } else if same_text(s, "google_maps") {
            Some(KnownGroundingTool::GoogleMaps)
        } else {
            None
        }
    }

    /// Every value, in documentation order.
    pub fn all() -> (r: Vec<Self>)
        ensures
            r@ == seq![KnownGroundingTool::GoogleSearch, KnownGroundingTool::GoogleMaps],
    {
        vec![KnownGroundingTool::GoogleSearch, KnownGroundingTool::GoogleMaps]
    }

    /// Distinct values take distinct wire strings.
    pub proof fn lemma_wire_injective(a: Self, b: Self)
        ensures
            a.wire() == b.wire() ==> a == b,
    {
        reveal_strlit("google_search");
        reveal_strlit("google_maps");
        if a.wire() == b.wire() {
            assert(a.wire().len() == b.wire().len());
        }
    }
}

/// Which grounding tool a usage count is for.
#[derive(Debug, PartialEq, Eq)]
pub enum GroundingTool {
    /// A documented value.
    Known(KnownGroundingTool),
    /// A value newer than this crate, kept verbatim.
    Unrecognized(String),
}

/// The mathematical form of a [`GroundingTool`].
pub enum GroundingToolV {
    /// A documented value.
    Known(KnownGroundingTool),
    /// Any other wire string.
    Unrecognized(Seq<char>),
}

impl View for GroundingTool {
    type V = GroundingToolV;

    open spec fn view(&self) -> GroundingToolV {
        match self {
            GroundingTool::Known(k) => GroundingToolV::Known(*k),
            GroundingTool::Unrecognized(s) => GroundingToolV::Unrecognized(s@),
        }
    }
}

impl GroundingTool {
    /// The string this value takes on the wire.
    pub open spec fn wire(&self) -> Seq<char> {
        match self {
            GroundingTool::Known(k) => k.wire(),
            GroundingTool::Unrecognized(s) => s@,
        }
    }

    /// Whether `v` is what the wire string `s` decodes to: the documented
    /// value it names, or else the string itself.
    pub open spec fn decodes(s: Seq<char>, v: Self) -> bool {
        match v {
            GroundingTool::Known(k) => k.wire() == s,
            GroundingTool::Unrecognized(u) => u@ == s && forall|k: KnownGroundingTool| #[trigger] k.wire() != s,
        }
    }

    /// What a wire string decodes to: the documented value it names, or
    /// else the string itself.
    pub open spec fn decode(s: Seq<char>) -> GroundingToolV {
        if exists|k: KnownGroundingTool| #[trigger] k.wire() == s {
            GroundingToolV::Known(choose|k: KnownGroundingTool| #[trigger] k.wire() == s)
        } else {
            GroundingToolV::Unrecognized(s)
        }
    }

    /// A documented value's wire string decodes back to it, and a string
    /// that names none decodes to itself.
    pub proof fn lemma_decode(s: Seq<char>, k: KnownGroundingTool)
        ensures
            Self::decode(k.wire()) == GroundingToolV::Known(k),
            (forall|j: KnownGroundingTool| #[trigger] j.wire() != s) ==> Self::decode(s) == GroundingToolV::Unrecognized(s),
    {
        let c = choose|c: KnownGroundingTool| #[trigger] c.wire() == k.wire();
        KnownGroundingTool::lemma_wire_injective(c, k);
    }

    /// The string this value takes on the wire.
    pub fn as_str(&self) -> (r: &str)
        ensures
            r@ == self.wire(),
    {
        match self {
            GroundingTool::Known(k) => k.as_str(),
            GroundingTool::Unrecognized(s) => s.as_str(),
        }
    }

    /// The value a wire string decodes to.
    pub fn from_string(s: String) -> (r: Self)
        ensures
            Self::decodes(s@, r),
            r@ == Self::decode(s@),
    {
        match KnownGroundingTool::from_wire(s.as_str()) {
            Some(k) => {
                proof {
                    let c = choose|c: KnownGroundingTool| #[trigger] c.wire() == s@;
                    KnownGroundingTool::lemma_wire_injective(c, k);
                }
                GroundingTool::Known(k)
            },
            None => GroundingTool::Unrecognized(s),
        }
    }

    /// Whether this is the documented value `k`.
    pub fn is(&self, k: KnownGroundingTool) -> (r: bool)
        ensures
            r == (*self == GroundingTool::Known(k)),
    {
        match self {
            GroundingTool::Known(j) => *j == k,
            GroundingTool::Unrecognized(_) => false,
        }
    }

    /// Whether two values take the same wire string.
    pub fn same(&self, other: &Self) -> (r: bool)
        ensures
            r == (self.wire() == other.wire()),
    {
        same_text(self.as_str(), other.as_str())
    }
}

impl Clone for GroundingTool {
    fn clone(&self) -> (r: Self)
        ensures
            r == *self,
    {
        match self {
            GroundingTool::Known(k) => GroundingTool::Known(*k),
            GroundingTool::Unrecognized(s) => GroundingTool::Unrecognized(s.clone()),
        }
    }
}

/// The documented values of the open vocabulary of the same name.
#[derive(Debug, Clone, Copy, PartialEq, Eq, Structural, Hash, PartialOrd, Ord)]
pub enum KnownErrorCode {
    /// The request is malformed or refused. A 400.
    InvalidRequest,
    /// A per-minute or per-day rate limit. A 429.
    TooManyRequests,
    /// A rate limit, as a streamed request reports it. A 429.
    RateLimitExceeded,
    /// The plan's quota does not cover the request. A 429.
    QuotaExceeded,
    /// The model is overloaded; retry later. A 503.
    ServiceUnavailable,
}

impl KnownErrorCode {
    /// The string this value takes on the wire.
    pub open spec fn wire(self) -> Seq<char> {
        match self {
            KnownErrorCode::InvalidRequest => "invalid_request"@,
            KnownErrorCode::TooManyRequests => "too_many_requests"@,
            KnownErrorCode::RateLimitExceeded => "rate_limit_exceeded"@,
            KnownErrorCode::QuotaExceeded => "quota_exceeded"@,
            KnownErrorCode::ServiceUnavailable => "service_unavailable"@,
        }
    }

    /// The string this value takes on the wire.
    pub fn as_str(self) -> (r: &'static str)
        ensures
            r@ == self.wire(),
    {
        match self {
            KnownErrorCode::InvalidRequest => "invalid_request",
            KnownErrorCode::TooManyRequests => "too_many_requests",
            KnownErrorCode::RateLimitExceeded => "rate_limit_exceeded",
            KnownErrorCode::QuotaExceeded => "quota_exceeded",
            KnownErrorCode::ServiceUnavailable => "service_unavailable",
        }
    }

    /// The value a wire string names, if it names one.
    pub fn from_wire(s: &str) -> (r: Option<Self>)
        ensures
            match r {
                Some(v) => v.wire() == s@,
                None => forall|v: Self| #[trigger] v.wire() != s@,
            },
    {
        if same_text(s, "invalid_request") {
            Some(KnownErrorCode::InvalidRequest)
        } else if same_text(s, "too_many_requests") {
            Some(KnownErrorCode::TooManyRequests)
        } else if same_text(s, "rate_limit_exceeded") {
            Some(KnownErrorCode::RateLimitExceeded)
        } else if same_text(s, "quota_exceeded") {
            Some(KnownErrorCode::QuotaExceeded)
        } else if same_text(s, "service_unavailable") {
            Some(KnownErrorCode::ServiceUnavailable)
        } else {
            None
        }
    }

    /// Every value, in documentation order.
    pub fn all() -> (r: Vec<Self>)
        ensures
            r@ == seq![KnownErrorCode::InvalidRequest, KnownErrorCode::TooManyRequests, KnownErrorCode::RateLimitExceeded, KnownErrorCode::QuotaExceeded, KnownErrorCode::ServiceUnavailable],
    {
        vec![KnownErrorCode::InvalidRequest, KnownErrorCode::TooManyRequests, KnownErrorCode::RateLimitExceeded, KnownErrorCode::QuotaExceeded, KnownErrorCode::ServiceUnavailable]
    }

    /// Distinct values take distinct wire strings.
    pub proof fn lemma_wire_injective(a: Self, b: Self)
        ensures
            a.wire() == b.wire() ==> a == b,
    {
        reveal_strlit("invalid_request");
        reveal_strlit("too_many_requests");
        reveal_strlit("rate_limit_exceeded");
        reveal_strlit("quota_exceeded");
        reveal_strlit("service_unavailable");
        if a.wire() == b.wire() {
            assert(a.wire().len() == b.wire().len());
            assert(a.wire()[0] == b.wire()[0]);
        }
    }
}

/// What an error body says went wrong.
///
/// The reference calls this "a URI that identifies the error type"; the
/// endpoint sends short snake-case codes, and those are the documented
/// values here. Measured 2026-09-24.
#[derive(Debug, PartialEq, Eq)]
pub enum ErrorCode {
    /// A documented value.
    Known(KnownErrorCode),
    /// A value newer than this crate, kept verbatim.
    Unrecognized(String),
}

/// The mathematical form of a [`ErrorCode`].
pub enum ErrorCodeV {
    /// A documented value.
    Known(KnownErrorCode),
    /// Any other wire string.
    Unrecognized(Seq<char>),
}

impl View for ErrorCode {
    type V = ErrorCodeV;

    open spec fn view(&self) -> ErrorCodeV {
        match self {
            ErrorCode::Known(k) => ErrorCodeV::Known(*k),
            ErrorCode::Unrecognized(s) => ErrorCodeV::Unrecognized(s@),
        }
    }
}

impl ErrorCode {
    /// The string this value takes on the wire.
    pub open spec fn wire(&self) -> Seq<char> {
        match self {
            ErrorCode::Known(k) => k.wire(),
            ErrorCode::Unrecognized(s) => s@,
        }
    }

    /// Whether `v` is what the wire string `s` decodes to: the documented
    /// value it names, or else the string itself.
    pub open spec fn decodes(s: Seq<char>, v: Self) -> bool {
        match v {
            ErrorCode::Known(k) => k.wire() == s,
            ErrorCode::Unrecognized(u) => u@ == s && forall|k: KnownErrorCode| #[trigger] k.wire() != s,
        }
    }

    /// What a wire string decodes to: the documented value it names, or
    /// else the string itself.
    pub open spec fn decode(s: Seq<char>) -> ErrorCodeV {
        if exists|k: KnownErrorCode| #[trigger] k.wire() == s {
            ErrorCodeV::Known(choose|k: KnownErrorCode| #[trigger] k.wire() == s)
        } else {
            ErrorCodeV::Unrecognized(s)
        }
    }

    /// A documented value's wire string decodes back to it, and a string
    /// that names none decodes to itself.
    pub proof fn lemma_decode(s: Seq<char>, k: KnownErrorCode)
        ensures
            Self::decode(k.wire()) == ErrorCodeV::Known(k),
            (forall|j: KnownErrorCode| #[trigger] j.wire() != s) ==> Self::decode(s) == ErrorCodeV::Unrecognized(s),
    {
        let c = choose|c: KnownErrorCode| #[trigger] c.wire() == k.wire();
        KnownErrorCode::lemma_wire_injective(c, k);
    }

    /// The string this value takes on the wire.
    pub fn as_str(&self) -> (r: &str)
        ensures
            r@ == self.wire(),
    {
        match self {
            ErrorCode::Known(k) => k.as_str(),
            ErrorCode::Unrecognized(s) => s.as_str(),
        }
    }

    /// The value a wire string decodes to.
    pub fn from_string(s: String) -> (r: Self)
        ensures
            Self::decodes(s@, r),
            r@ == Self::decode(s@),
    {
        match KnownErrorCode::from_wire(s.as_str()) {
            Some(k) => {
                proof {
                    let c = choose|c: KnownErrorCode| #[trigger] c.wire() == s@;
                    KnownErrorCode::lemma_wire_injective(c, k);
                }
                ErrorCode::Known(k)
            },
            None => ErrorCode::Unrecognized(s),
        }
    }

    /// Whether this is the documented value `k`.
    pub fn is(&self, k: KnownErrorCode) -> (r: bool)
        ensures
            r == (*self == ErrorCode::Known(k)),
    {
        match self {
            ErrorCode::Known(j) => *j == k,
            ErrorCode::Unrecognized(_) => false,
        }
    }

    /// Whether two values take the same wire string.
    pub fn same(&self, other: &Self) -> (r: bool)
        ensures
            r == (self.wire() == other.wire()),
    {
        same_text(self.as_str(), other.as_str())
    }
}

impl Clone for ErrorCode {
    fn clone(&self) -> (r: Self)
        ensures
            r == *self,
    {
        match self {
            ErrorCode::Known(k) => ErrorCode::Known(*k),
            ErrorCode::Unrecognized(s) => ErrorCode::Unrecognized(s.clone()),
        }
    }
}

} // verus!
