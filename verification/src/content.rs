//! Content blocks: what a caller sends, and a typed view of what the model sent.
//!
//! One wire vocabulary serves `user_input`, `model_output`, thought summaries and
//! function results, but the two directions are different types. A caller
//! writes [`InputContent`]; the model's blocks are replayed as received (see
//! [`crate::step`]) and read through [`OutputContent`], which tolerates values
//! newer than the crate because nothing is ever rebuilt from it.

use vstd::prelude::*;

use base64::Engine;

use crate::json::{
    field, group_json_view, lemma_members_view_ext, members_view, items_view, opt_field, push_field, push_str,
    str_field, unsigned, Json, JsonV, Member, MemberV, NumberV, field_of, get_str, get_member, get_string, defaulted_u32, read_defaulted_u32, optional_string, read_optional_string, optional_u32,
    read_optional_u32,
};
use crate::text::same_text;
use crate::values::{AudioMime, DocumentMime, ImageMime, MediaResolution, VideoMime, VideoProcessing};

verus! {

broadcast use group_json_view;

// ── Media bytes ──────────────────────────────────────────────────────────────

/// The standard padded base64 text of some bytes, as the `base64` crate's
/// `STANDARD` engine writes it.
pub uninterp spec fn base64_encoding(bytes: Seq<u8>) -> Seq<char>;

/// The bytes a text decodes to under the `base64` crate's `STANDARD` engine,
/// or `None` when it refuses the text.
pub uninterp spec fn base64_decoding(text: Seq<char>) -> Option<Seq<u8>>;

/// Calls `base64::engine::general_purpose::STANDARD.encode`.
///
/// The result is that engine's encoding of the bytes, and the same engine
/// decodes it back to them: a base64 codec's round trip.
#[verifier::external_body]
fn standard_encode(bytes: &[u8]) -> (r: String)
    ensures
        r@ == base64_encoding(bytes@),
        base64_decoding(r@) == Some(bytes@),
{
    base64::engine::general_purpose::STANDARD.encode(bytes)
}

/// Calls `base64::engine::general_purpose::STANDARD.decode`.
///
/// The result is that engine's decoding of the text; `None` stands for the
/// `DecodeError` it returns for a text it refuses.
#[verifier::external_body]
fn standard_decode(text: &str) -> (r: Option<Vec<u8>>)
    ensures
        match r {
            Some(bytes) => base64_decoding(text@) == Some(bytes@),
            None => base64_decoding(text@) is None,
        },
{
    match base64::engine::general_purpose::STANDARD.decode(text) {
        Ok(bytes) => Some(bytes),
        Err(_) => None,
    }
}

/// Media bytes in the standard base64 alphabet, as the wire carries them.
///
/// Holding the encoded form means a block serializes without re-encoding, and
/// a string that is not base64 is refused where it enters rather than by a 400.
#[derive(Debug, PartialEq, Eq)]
pub struct Base64 {
    encoded: String,
}

/// A string offered as base64 that is not standard padded base64.
#[derive(Debug, Clone, Copy, PartialEq, Eq, Structural)]
pub struct InvalidBase64;

impl Base64 {
    /// The text decodes.
    #[verifier::type_invariant]
    closed spec fn decodes(&self) -> bool {
        base64_decoding(self.encoded@) is Some
    }

    /// The encoded text.
    pub closed spec fn text(&self) -> Seq<char> {
        self.encoded@
    }

    /// The bytes it stands for.
    pub closed spec fn bytes(&self) -> Seq<u8> {
        base64_decoding(self.encoded@)->0
    }

    /// Encode raw bytes.
    pub fn encode(bytes: &[u8]) -> (r: Self)
        ensures
            r.text() == base64_encoding(bytes@),
            r.bytes() == bytes@,
    {
        Base64 { encoded: standard_encode(bytes) }
    }

    /// Accept an already-encoded string, checking that it decodes.
    pub fn from_encoded(encoded: String) -> (r: Result<Self, InvalidBase64>)
        ensures
            match r {
                Ok(b) => b.text() == encoded@ && base64_decoding(encoded@) == Some(b.bytes()),
                Err(_) => base64_decoding(encoded@) is None,
            },
    {
        match standard_decode(encoded.as_str()) {
            Some(_) => Ok(Base64 { encoded }),
            None => Err(InvalidBase64),
        }
    }

    /// The encoded text, as sent.
    pub fn as_str(&self) -> (r: &str)
        ensures
            r@ == self.text(),
    {
        self.encoded.as_str()
    }

    /// The raw bytes.
    pub fn decode(&self) -> (r: Vec<u8>)
        ensures
            r@ == self.bytes(),
            base64_decoding(self.text()) == Some(r@),
    {
        proof {
            use_type_invariant(self);
        }
        match standard_decode(self.encoded.as_str()) {
            Some(bytes) => bytes,
            None => {
                proof {
                    assert(false);
                }
                Vec::new()
            },
        }
    }
}

impl Clone for Base64 {
    fn clone(&self) -> (r: Self)
        ensures
            r.text() == self.text(),
            r.bytes() == self.bytes(),
    {
        proof {
            use_type_invariant(self);
        }
        Base64 { encoded: self.encoded.clone() }
    }
}

/// Where a media block's bytes come from.
///
/// The wire has two optional fields, `data` and `uri`; a block with both or
/// neither means nothing, so the type has exactly one.
#[derive(Debug, PartialEq, Eq)]
pub enum Source {
    /// The bytes themselves.
    Inline(Base64),
    /// A URI the API can fetch, such as an uploaded file's.
    Uri(String),
}

/// The member a source writes: `data` with the base64 text, or `uri`.
pub open spec fn source_fields(s: Source) -> Seq<MemberV> {
    match s {
        Source::Inline(data) => seq![str_field("data"@, data.text())],
        Source::Uri(uri) => seq![str_field("uri"@, uri@)],
    }
}

impl Source {
    fn write(&self, members: &mut Vec<Member>)
        ensures
            members_view(final(members)@) == members_view(old(members)@) + source_fields(*self),
    {
        match self {
            Source::Inline(data) => push_str(members, "data", data.as_str()),
            Source::Uri(uri) => push_str(members, "uri", uri.as_str()),
        }
    }
}

impl Clone for Source {
    fn clone(&self) -> (r: Self)
        ensures
            source_fields(r) == source_fields(*self),
    {
        match self {
            Source::Inline(data) => Source::Inline(data.clone()),
            Source::Uri(uri) => Source::Uri(uri.clone()),
        }
    }
}

// ── Caller-authored blocks ───────────────────────────────────────────────────

/// An image, in a user input or a function result.
#[derive(Debug, PartialEq, Eq)]
pub struct Image {
    /// The bytes or where to fetch them.
    pub source: Source,
    /// What the bytes are.
    pub mime: ImageMime,
    /// How finely to tokenize, when the caller says.
    pub resolution: Option<MediaResolution>,
}

/// The members an image block writes, in order: `type`, the source,
/// `mime_type`, and `resolution` when set.
pub open spec fn image_fields(i: Image) -> Seq<MemberV> {
    seq![str_field("type"@, "image"@)] + source_fields(i.source) + seq![str_field("mime_type"@, i.mime.wire())]
        + opt_field(
        "resolution"@,
        match i.resolution {
            Some(r) => Some(JsonV::Str(r.wire())),
            None => None,
        },
    )
}

impl Image {
    /// An image with the model's own choice of resolution.
    pub fn new(source: Source, mime: ImageMime) -> (r: Self)
        ensures
            r == (Image { source, mime, resolution: None }),
    {
        Image { source, mime, resolution: None }
    }

    fn write(&self, members: &mut Vec<Member>)
        ensures
            members_view(final(members)@) == members_view(old(members)@) + image_fields(*self),
    {
        push_str(members, "type", "image");
        self.source.write(members);
        push_str(members, "mime_type", self.mime.as_str());
        if let Some(resolution) = self.resolution {
            push_str(members, "resolution", resolution.as_str());
        }
        proof {
            assert(members_view(final(members)@) =~= members_view(old(members)@) + image_fields(*self));
        }
    }
}

impl Clone for Image {
    fn clone(&self) -> (r: Self)
        ensures
            image_fields(r) == image_fields(*self),
    {
        Image { source: self.source.clone(), mime: self.mime, resolution: self.resolution }
    }
}

/// Audio in a user input.
#[derive(Debug, Clone, PartialEq, Eq)]
pub struct Audio {
    /// The bytes or where to fetch them.
    pub source: Source,
    /// What the bytes are.
    pub mime: AudioMime,
    /// Samples per second, needed for headerless formats such as `audio/l16`.
    pub sample_rate: Option<u32>,
    /// Channel count, needed for headerless formats such as `audio/l16`.
    pub channels: Option<u32>,
}

/// A document in a user input.
#[derive(Debug, Clone, PartialEq, Eq)]
pub struct Document {
    /// The bytes or where to fetch them.
    pub source: Source,
    /// What the bytes are.
    pub mime: DocumentMime,
}

/// A video in a user input.
#[derive(Debug, Clone, PartialEq, Eq)]
pub struct Video {
    /// The bytes or where to fetch them.
    pub source: Source,
    /// What the bytes are.
    pub mime: VideoMime,
    /// How finely to tokenize, when the caller says.
    pub resolution: Option<MediaResolution>,
    /// How to process it, when the caller says.
    pub processing: Option<VideoProcessing>,
    /// A name the model may use to refer to it in its answer.
    pub name: Option<String>,
}

/// One block of a user input.
#[derive(Debug, Clone, PartialEq, Eq)]
pub enum InputContent {
    /// Text.
    Text(String),
    /// An image.
    Image(Image),
    /// Audio.
    Audio(Audio),
    /// A PDF or CSV document.
    Document(Document),
    /// A video.
    Video(Video),
}

/// An optional number member.
pub open spec fn opt_u32_field(key: Seq<char>, value: Option<u32>) -> Seq<MemberV> {
    opt_field(
        key,
        match value {
            Some(n) => Some(JsonV::Number(NumberV::PosInt(n as u64))),
            None => None,
        },
    )
}

/// The object a user-input block is written as.
pub open spec fn input_content_json(c: InputContent) -> JsonV {
    JsonV::Object(
        match c {
            InputContent::Text(text) => seq![str_field("type"@, "text"@), str_field("text"@, text@)],
            InputContent::Image(image) => image_fields(image),
            InputContent::Audio(audio) => seq![str_field("type"@, "audio"@)] + source_fields(audio.source)
                + seq![str_field("mime_type"@, audio.mime.wire())] + opt_u32_field("sample_rate"@, audio.sample_rate)
                + opt_u32_field("channels"@, audio.channels),
            InputContent::Document(document) => seq![str_field("type"@, "document"@)] + source_fields(
                document.source,
            ) + seq![str_field("mime_type"@, document.mime.wire())],
            InputContent::Video(video) => seq![str_field("type"@, "video"@)] + source_fields(video.source)
                + seq![str_field("mime_type"@, video.mime.wire())] + opt_field(
                "resolution"@,
                match video.resolution {
                    Some(r) => Some(JsonV::Str(r.wire())),
                    None => None,
                },
            ) + opt_field(
                "processing"@,
                match video.processing {
                    Some(p) => Some(JsonV::Str(p.wire())),
                    None => None,
                },
            ) + opt_field(
                "name"@,
                match video.name {
                    Some(n) => Some(JsonV::Str(n@)),
                    None => None,
                },
            ),
        },
    )
}

impl InputContent {
    /// A text block.
    pub fn text(text: &str) -> (r: Self)
        ensures
            r matches InputContent::Text(t) && t@ == text@,
    {
        InputContent::Text(text.to_owned())
    }

    /// The object this block is written as.
    pub fn to_json(&self) -> (r: Json)
        ensures
            r@ == input_content_json(*self),
    {
        let mut m: Vec<Member> = Vec::new();
        match self {
            InputContent::Text(text) => {
                push_str(&mut m, "type", "text");
                push_str(&mut m, "text", text.as_str());
            },
            InputContent::Image(image) => image.write(&mut m),
            InputContent::Audio(audio) => {
                push_str(&mut m, "type", "audio");
                audio.source.write(&mut m);
                push_str(&mut m, "mime_type", audio.mime.as_str());
                if let Some(rate) = audio.sample_rate {
                    push_field(&mut m, "sample_rate", unsigned(rate as u64));
                }
                if let Some(channels) = audio.channels {
                    push_field(&mut m, "channels", unsigned(channels as u64));
                }
            },
            InputContent::Document(document) => {
                push_str(&mut m, "type", "document");
                document.source.write(&mut m);
                push_str(&mut m, "mime_type", document.mime.as_str());
            },
            InputContent::Video(video) => {
                push_str(&mut m, "type", "video");
                video.source.write(&mut m);
                push_str(&mut m, "mime_type", video.mime.as_str());
                if let Some(resolution) = video.resolution {
                    push_str(&mut m, "resolution", resolution.as_str());
                }
                if let Some(processing) = video.processing {
                    push_str(&mut m, "processing", processing.as_str());
                }
                if let Some(name) = &video.name {
                    push_str(&mut m, "name", name.as_str());
                }
            },
        }
        proof {
            assert(members_view(m@) =~= input_content_json(*self)->Object_0);
        }
        Json::Object(m)
    }
}

// ── Function results ─────────────────────────────────────────────────────────

/// One block of a function result: the result vocabulary is text and images.
#[derive(Debug, Clone, PartialEq, Eq)]
pub enum ResultBlock {
    /// Text.
    Text(String),
    /// An image.
    Image(Image),
}

/// The object a result block is written as.
pub open spec fn result_block_json(b: ResultBlock) -> JsonV {
    JsonV::Object(
        match b {
            ResultBlock::Text(text) => seq![str_field("type"@, "text"@), str_field("text"@, text@)],
            ResultBlock::Image(image) => image_fields(image),
        },
    )
}

impl ResultBlock {
    /// The object this block is written as.
    pub fn to_json(&self) -> (r: Json)
        ensures
            r@ == result_block_json(*self),
    {
        let mut m: Vec<Member> = Vec::new();
        match self {
            ResultBlock::Text(text) => {
                push_str(&mut m, "type", "text");
                push_str(&mut m, "text", text.as_str());
            },
            ResultBlock::Image(image) => image.write(&mut m),
        }
        proof {
            assert(members_view(m@) =~= result_block_json(*self)->Object_0);
        }
        Json::Object(m)
    }
}

/// What a function returned, in one of the three shapes the API accepts.
///
/// All three were accepted live on 2026-09-24, and they are different requests:
/// the model sees a bare string, a JSON object, or a list of blocks.
#[derive(Debug, Clone, PartialEq)]
pub enum FunctionOutput {
    /// A plain string.
    Text(String),
    /// A JSON object.
    Json(Vec<Member>),
    /// Text and image blocks, in order.
    Blocks(Vec<ResultBlock>),
}

/// The value a function output is written as.
pub open spec fn function_output_json(o: FunctionOutput) -> JsonV {
    match o {
        FunctionOutput::Text(text) => JsonV::Str(text@),
        FunctionOutput::Json(object) => JsonV::Object(members_view(object@)),
        FunctionOutput::Blocks(blocks) => JsonV::Array(
            Seq::new(blocks@.len(), |i: int| result_block_json(blocks@[i])),
        ),
    }
}

impl FunctionOutput {
    /// The value this output is written as.
    pub fn to_json(&self) -> (r: Json)
        ensures
            r@ == function_output_json(*self),
    {
        match self {
            FunctionOutput::Text(text) => Json::Str(text.clone()),
            FunctionOutput::Json(object) => {
                let mut m: Vec<Member> = Vec::new();
                let mut i: usize = 0;
                while i < object.len()
                    invariant
                        i <= object@.len(),
                        m@.len() == i,
                        forall|k: int| 0 <= k < i ==> #[trigger] m@[k]@ == object@[k]@,
                    decreases object.len() - i,
                {
                    m.push(object[i].clone());
                    i = i + 1;
                }
                proof {
                    lemma_members_view_ext(m@, object@);
                }
                Json::Object(m)
            },
            FunctionOutput::Blocks(blocks) => {
                let mut items: Vec<Json> = Vec::new();
                let mut i: usize = 0;
                while i < blocks.len()
                    invariant
                        i <= blocks@.len(),
                        items@.len() == i,
                        forall|k: int| 0 <= k < i ==> #[trigger] items@[k]@ == result_block_json(blocks@[k]),
                    decreases blocks.len() - i,
                {
                    items.push(blocks[i].to_json());
                    i = i + 1;
                }
                proof {
                    assert(items_view(items@) =~= Seq::new(
                        blocks@.len(),
                        |i: int| result_block_json(blocks@[i]),
                    ));
                }
                Json::Array(items)
            },
        }
    }
}

// ── The model's blocks, read back ────────────────────────────────────────────

/// Which kind of media an [`OutputContent::Media`] block holds.
#[derive(Debug, Clone, Copy, PartialEq, Eq, Structural)]
pub enum MediaKind {
    /// An image.
    Image,
    /// Audio.
    Audio,
    /// A document.
    Document,
    /// A video.
    Video,
}

/// An optional string as optional text.
pub open spec fn opt_text(s: Option<String>) -> Option<Seq<char>> {
    match s {
        Some(t) => Some(t@),
        None => None,
    }
}

/// A block the model produced, as a view for reading.
///
/// A view, not a value to send: the step it belongs to replays its received
/// JSON, so this type may be lossy and open-ended without making a replay
/// wrong.
#[derive(Debug, Clone, PartialEq)]
pub enum OutputContent {
    /// Text, with any citations attached to it.
    Text {
        /// The text.
        text: String,
        /// Sources for spans of the text, in received order.
        annotations: Vec<Annotation>,
    },
    /// An image, audio clip, document or video.
    Media {
        /// Which of the four.
        kind: MediaKind,
        /// The base64 bytes, when inline.
        data: Option<String>,
        /// Where to fetch the bytes, when not inline.
        uri: Option<String>,
        /// The declared MIME type, verbatim.
        mime_type: Option<String>,
    },
    /// A block kind newer than this crate.
    Unrecognized(Json),
}

/// The mathematical form of an [`OutputContent`].
pub enum OutputContentV {
    Text { text: Seq<char>, annotations: Seq<AnnotationV> },
    Media { kind: MediaKind, data: Option<Seq<char>>, uri: Option<Seq<char>>, mime_type: Option<Seq<char>> },
    Unrecognized(JsonV),
}

impl View for OutputContent {
    type V = OutputContentV;

    open spec fn view(&self) -> OutputContentV {
        match self {
            OutputContent::Text { text, annotations } => OutputContentV::Text {
                text: text@,
                annotations: Seq::new(annotations@.len(), |i: int| annotations@[i]@),
            },
            OutputContent::Media { kind, data, uri, mime_type } => OutputContentV::Media {
                kind: *kind,
                data: opt_text(*data),
                uri: opt_text(*uri),
                mime_type: opt_text(*mime_type),
            },
            OutputContent::Unrecognized(v) => OutputContentV::Unrecognized(v@),
        }
    }
}

/// The kind of media a block `type` names.
pub open spec fn media_kind(kind: Seq<char>) -> Option<MediaKind> {
    if kind == "image"@ {
        Some(MediaKind::Image)
    } else if kind == "audio"@ {
        Some(MediaKind::Audio)
    } else if kind == "document"@ {
        Some(MediaKind::Document)
    } else if kind == "video"@ {
        Some(MediaKind::Video)
    } else {
        None
    }
}

/// What a block the model produced says: a `text` block with its text and
/// citations, a media block with its optional `data`, `uri` and `mime_type`,
/// or any other value verbatim. `None` when a known block has the wrong shape.
pub open spec fn output_content_of(j: JsonV) -> Option<OutputContentV> {
    match j {
        JsonV::Object(m) => match get_str(m, "type"@) {
            Some(kind) => if kind == "text"@ {
                match (field_of(m, "text"@), field_of(m, "annotations"@)) {
                    (Some(JsonV::Str(text)), None) => Some(
                        OutputContentV::Text { text, annotations: Seq::empty() },
                    ),
                    (Some(JsonV::Str(text)), Some(JsonV::Array(items))) => match annotations_of(items) {
                        Some(annotations) => Some(OutputContentV::Text { text, annotations }),
                        None => None,
                    },
                    _ => None,
                }
            } else {
                match media_kind(kind) {
                    Some(mk) => match (
                        optional_string(field_of(m, "data"@)),
                        optional_string(field_of(m, "uri"@)),
                        optional_string(field_of(m, "mime_type"@)),
                    ) {
                        (Some(data), Some(uri), Some(mime_type)) => Some(
                            OutputContentV::Media { kind: mk, data, uri, mime_type },
                        ),
                        _ => None,
                    },
                    None => Some(OutputContentV::Unrecognized(j)),
                }
            },
            None => Some(OutputContentV::Unrecognized(j)),
        },
        _ => Some(OutputContentV::Unrecognized(j)),
    }
}

/// The annotations a list decodes to, or `None` when one has the wrong shape.
pub open spec fn annotations_of(items: Seq<JsonV>) -> Option<Seq<AnnotationV>>
    decreases items.len(),
{
    if items.len() == 0 {
        Some(Seq::empty())
    } else {
        match (annotations_of(items.drop_last()), annotation_of(items.last())) {
            (Some(a), Some(b)) => Some(a.push(b)),
            _ => None,
        }
    }
}

/// The blocks a list decodes to, or `None` when one has the wrong shape.
pub open spec fn output_contents_of(items: Seq<JsonV>) -> Option<Seq<OutputContentV>>
    decreases items.len(),
{
    if items.len() == 0 {
        Some(Seq::empty())
    } else {
        match (output_contents_of(items.drop_last()), output_content_of(items.last())) {
            (Some(a), Some(b)) => Some(a.push(b)),
            _ => None,
        }
    }
}

impl OutputContent {
    /// The text of a text block.
    pub fn as_text(&self) -> (r: Option<&str>)
        ensures
            match r {
                Some(t) => *self matches OutputContent::Text { text, .. } && t@ == text@,
                None => !(*self is Text),
            },
    {
        match self {
            OutputContent::Text { text, .. } => Some(text.as_str()),
            _ => None,
        }
    }

    /// Decodes a block the model produced.
    pub fn from_json(value: &Json) -> (r: Result<Self, String>)
        ensures
            match r {
                Ok(c) => output_content_of(value@) == Some(c@),
                Err(_) => output_content_of(value@) is None,
            },
    {
        let m = match value {
            Json::Object(m) => m,
            _ => return Ok(OutputContent::Unrecognized(value.clone())),
        };
        let kind = match get_string(m, "type") {
            Some(k) => k,
            None => return Ok(OutputContent::Unrecognized(value.clone())),
        };
        if same_text(kind, "text") {
            let text = match get_member(m, "text") {
                Some(Json::Str(t)) => t.clone(),
                _ => return Err("a text block has no string `text`".to_owned()),
            };
            let annotations = match get_member(m, "annotations") {
                None => Vec::new(),
                Some(Json::Array(items)) => match Annotation::decode_all(items) {
                    Some(a) => a,
                    None => return Err("a text block has a malformed annotation".to_owned()),
                },
                _ => return Err("`annotations` is not an array".to_owned()),
            };
            let ghost av = Seq::new(annotations@.len(), |i: int| annotations@[i]@);
            let ghost tv = text@;
            let r = OutputContent::Text { text, annotations };
            proof {
                assert(av =~= r@->Text_annotations);
                match field_of(members_view(m@), "annotations"@) {
                    None => assert(av =~= Seq::<AnnotationV>::empty()),
                    _ => {},
                }
                assert(r@ == OutputContentV::Text { text: tv, annotations: av });
            }
            return Ok(r);
        }
        let mk = if same_text(kind, "image") {
            MediaKind::Image
        } else if same_text(kind, "audio") {
            MediaKind::Audio
        } else if same_text(kind, "document") {
            MediaKind::Document
        } else if same_text(kind, "video") {
            MediaKind::Video
        } else {
            return Ok(OutputContent::Unrecognized(value.clone()));
        };
        match (
            read_optional_string(m, "data"),
            read_optional_string(m, "uri"),
            read_optional_string(m, "mime_type"),
        ) {
            (Some(data), Some(uri), Some(mime_type)) => Ok(OutputContent::Media { kind: mk, data, uri, mime_type }),
            _ => Err("a media block has a non-string field".to_owned()),
        }
    }

    /// Decodes a list of blocks.
    pub fn decode_all(items: &Vec<Json>) -> (r: Option<Vec<OutputContent>>)
        ensures
            match r {
                Some(v) => output_contents_of(items_view(items@)) == Some(Seq::new(v@.len(), |i: int| v@[i]@)),
                None => output_contents_of(items_view(items@)) is None,
            },
    {
        let mut out: Vec<OutputContent> = Vec::new();
        let mut i: usize = 0;
        while i < items.len()
            invariant
                i <= items@.len(),
                output_contents_of(items_view(items@).take(i as int)) == Some(Seq::new(out@.len(), |k: int| out@[k]@)),
            decreases items.len() - i,
        {
            proof {
                assert(items_view(items@).take(i as int + 1).drop_last() == items_view(items@).take(i as int));
                assert(items_view(items@).take(i as int + 1).last() == items@[i as int]@);
            }
            match OutputContent::from_json(&items[i]) {
                Ok(c) => {
                    let ghost before = Seq::new(out@.len(), |k: int| out@[k]@);
                    out.push(c);
                    proof {
                        assert(Seq::new(out@.len(), |k: int| out@[k]@) =~= before.push(out@[out@.len() - 1]@));
                    }
                },
                Err(_) => {
                    proof {
                        lemma_contents_stuck(items_view(items@), i as int + 1);
                    }
                    return None;
                },
            }
            i = i + 1;
        }
        assert(items_view(items@).take(items@.len() as int) == items_view(items@));
        Some(out)
    }
}

/// Once a prefix of blocks fails to decode, the whole list does.
proof fn lemma_contents_stuck(items: Seq<JsonV>, j: int)
    requires
        0 < j <= items.len(),
        output_contents_of(items.take(j)) is None,
    ensures
        output_contents_of(items) is None,
    decreases items.len() - j,
{
    if j < items.len() {
        assert(items.take(j + 1).drop_last() == items.take(j));
        lemma_contents_stuck(items, j + 1);
    } else {
        assert(items.take(j) == items);
    }
}

/// Once a prefix of annotations fails to decode, the whole list does.
proof fn lemma_annotations_stuck(items: Seq<JsonV>, j: int)
    requires
        0 < j <= items.len(),
        annotations_of(items.take(j)) is None,
    ensures
        annotations_of(items) is None,
    decreases items.len() - j,
{
    if j < items.len() {
        assert(items.take(j + 1).drop_last() == items.take(j));
        lemma_annotations_stuck(items, j + 1);
    } else {
        assert(items.take(j) == items);
    }
}

/// A byte span of model text and what it is attributed to.
///
/// Offsets are in bytes of the UTF-8 text, as the reference states.
#[derive(Debug, Clone, Copy, PartialEq, Eq, Structural, Default)]
pub struct Span {
    /// First byte, inclusive.
    pub start_index: u32,
    /// Last byte, exclusive.
    pub end_index: u32,
}

/// The span an annotation object names: absent offsets are zero.
pub open spec fn span_of(m: Seq<MemberV>) -> Option<Span> {
    match (defaulted_u32(field_of(m, "start_index"@)), defaulted_u32(field_of(m, "end_index"@))) {
        (Some(start_index), Some(end_index)) => Some(Span { start_index, end_index }),
        _ => None,
    }
}

fn read_span(m: &Vec<Member>) -> (r: Option<Span>)
    ensures
        r == span_of(members_view(m@)),
{
    match (read_defaulted_u32(m, "start_index"), read_defaulted_u32(m, "end_index")) {
        (Some(start_index), Some(end_index)) => Some(Span { start_index, end_index }),
        _ => None,
    }
}

/// Where a span of model text came from.
#[derive(Debug, Clone, PartialEq)]
pub enum Annotation {
    /// A web page.
    Url {
        /// The span.
        span: Span,
        /// The page.
        url: String,
        /// Its title.
        title: Option<String>,
    },
    /// A file from a file-search store.
    File {
        /// The span.
        span: Span,
        /// The file's URI.
        document_uri: Option<String>,
        /// The file's name.
        file_name: Option<String>,
        /// The cited page, when the file has pages.
        page_number: Option<u32>,
        /// The quoted source text.
        source: Option<String>,
    },
    /// A Google Maps place.
    Place {
        /// The span.
        span: Span,
        /// The place's name.
        name: Option<String>,
        /// `places/{place_id}`.
        place_id: Option<String>,
        /// The place's Maps URL.
        url: Option<String>,
    },
    /// Any other annotation, verbatim: speech metadata, word timings, and
    /// kinds newer than this crate.
    Other(Json),
}

/// The mathematical form of an [`Annotation`].
pub enum AnnotationV {
    Url { span: Span, url: Seq<char>, title: Option<Seq<char>> },
    File {
        span: Span,
        document_uri: Option<Seq<char>>,
        file_name: Option<Seq<char>>,
        page_number: Option<u32>,
        source: Option<Seq<char>>,
    },
    Place { span: Span, name: Option<Seq<char>>, place_id: Option<Seq<char>>, url: Option<Seq<char>> },
    Other(JsonV),
}

impl View for Annotation {
    type V = AnnotationV;

    open spec fn view(&self) -> AnnotationV {
        match self {
            Annotation::Url { span, url, title } => AnnotationV::Url { span: *span, url: url@, title: opt_text(*title) },
            Annotation::File { span, document_uri, file_name, page_number, source } => AnnotationV::File {
                span: *span,
                document_uri: opt_text(*document_uri),
                file_name: opt_text(*file_name),
                page_number: *page_number,
                source: opt_text(*source),
            },
            Annotation::Place { span, name, place_id, url } => AnnotationV::Place {
                span: *span,
                name: opt_text(*name),
                place_id: opt_text(*place_id),
                url: opt_text(*url),
            },
            Annotation::Other(v) => AnnotationV::Other(v@),
        }
    }
}

/// What an annotation says: a URL, file or place citation with its span and
/// fields, or any other value verbatim. `None` when a citation has the wrong
/// shape.
pub open spec fn annotation_of(j: JsonV) -> Option<AnnotationV> {
    match j {
        JsonV::Object(m) => match get_str(m, "type"@) {
            Some(kind) => if kind == "url_citation"@ {
                match (span_of(m), field_of(m, "url"@), optional_string(field_of(m, "title"@))) {
                    (Some(span), Some(JsonV::Str(url)), Some(title)) => Some(AnnotationV::Url { span, url, title }),
                    _ => None,
                }
            } else if kind == "file_citation"@ {
                match (
                    span_of(m),
                    optional_string(field_of(m, "document_uri"@)),
                    optional_string(field_of(m, "file_name"@)),
                    optional_u32(field_of(m, "page_number"@)),
                    optional_string(field_of(m, "source"@)),
                ) {
                    (Some(span), Some(document_uri), Some(file_name), Some(page_number), Some(source)) => Some(
                        AnnotationV::File { span, document_uri, file_name, page_number, source },
                    ),
                    _ => None,
                }
            } else if kind == "place_citation"@ {
                match (
                    span_of(m),
                    optional_string(field_of(m, "name"@)),
                    optional_string(field_of(m, "place_id"@)),
                    optional_string(field_of(m, "url"@)),
                ) {
                    (Some(span), Some(name), Some(place_id), Some(url)) => Some(
                        AnnotationV::Place { span, name, place_id, url },
                    ),
                    _ => None,
                }
            } else {
                Some(AnnotationV::Other(j))
            },
            None => Some(AnnotationV::Other(j)),
        },
        _ => Some(AnnotationV::Other(j)),
    }
}

impl Annotation {
    /// Decodes one annotation.
    pub fn from_json(value: &Json) -> (r: Result<Self, String>)
        ensures
            match r {
                Ok(a) => annotation_of(value@) == Some(a@),
                Err(_) => annotation_of(value@) is None,
            },
    {
        let m = match value {
            Json::Object(m) => m,
            _ => return Ok(Annotation::Other(value.clone())),
        };
        let kind = match get_string(m, "type") {
            Some(k) => k,
            None => return Ok(Annotation::Other(value.clone())),
        };
        if same_text(kind, "url_citation") {
            match (read_span(m), get_member(m, "url"), read_optional_string(m, "title")) {
                (Some(span), Some(Json::Str(url)), Some(title)) => Ok(Annotation::Url { span, url: url.clone(), title }),
                _ => Err("malformed `url_citation`".to_owned()),
            }
        } else if same_text(kind, "file_citation") {
            match (
                read_span(m),
                read_optional_string(m, "document_uri"),
                read_optional_string(m, "file_name"),
                read_optional_u32(m, "page_number"),
                read_optional_string(m, "source"),
            ) {
                (Some(span), Some(document_uri), Some(file_name), Some(page_number), Some(source)) => Ok(
                    Annotation::File { span, document_uri, file_name, page_number, source },
                ),
                _ => Err("malformed `file_citation`".to_owned()),
            }
        } else if same_text(kind, "place_citation") {
            match (
                read_span(m),
                read_optional_string(m, "name"),
                read_optional_string(m, "place_id"),
                read_optional_string(m, "url"),
            ) {
                (Some(span), Some(name), Some(place_id), Some(url)) => Ok(
                    Annotation::Place { span, name, place_id, url },
                ),
                _ => Err("malformed `place_citation`".to_owned()),
            }
        } else {
            Ok(Annotation::Other(value.clone()))
        }
    }

    /// Decodes a list of annotations.
    pub fn decode_all(items: &Vec<Json>) -> (r: Option<Vec<Annotation>>)
        ensures
            match r {
                Some(v) => annotations_of(items_view(items@)) == Some(Seq::new(v@.len(), |i: int| v@[i]@)),
                None => annotations_of(items_view(items@)) is None,
            },
    {
        let mut out: Vec<Annotation> = Vec::new();
        let mut i: usize = 0;
        while i < items.len()
            invariant
                i <= items@.len(),
                annotations_of(items_view(items@).take(i as int)) == Some(Seq::new(out@.len(), |k: int| out@[k]@)),
            decreases items.len() - i,
        {
            proof {
                assert(items_view(items@).take(i as int + 1).drop_last() == items_view(items@).take(i as int));
                assert(items_view(items@).take(i as int + 1).last() == items@[i as int]@);
            }
            match Annotation::from_json(&items[i]) {
                Ok(a) => {
                    let ghost before = Seq::new(out@.len(), |k: int| out@[k]@);
                    out.push(a);
                    proof {
                        assert(Seq::new(out@.len(), |k: int| out@[k]@) =~= before.push(out@[out@.len() - 1]@));
                    }
                },
                Err(_) => {
                    proof {
                        lemma_annotations_stuck(items_view(items@), i as int + 1);
                    }
                    return None;
                },
            }
            i = i + 1;
        }
        assert(items_view(items@).take(items@.len() as int) == items_view(items@));
        Some(out)
    }
}

} // verus!
