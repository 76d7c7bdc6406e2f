use vstd::prelude::*;
use vstd::slice::*;
use vstd::string::*;
use crate::attr::{attributes_of, find_value, parse_attributes, value_of, Attribute, AttributeView};
use crate::error::{ParseError, ParseErrorView, Reason};
use crate::line::{classify_line, is_uri_line, line_kind, Line, LineView};
use crate::model::{views,
    text_opt, ByteRange, InitMap, InitMapView, Key, KeyView, MediaPlaylistType, PartialSegment,
    PartialSegmentView, Rendition, RenditionView, ServerControl, Skip, Start, StreamInf,
    StreamInfView, Variable, VariableView, VariantStream, VariantStreamView,
};
use crate::number::{decimal_integer, decimal_number, parse_decimal, parse_u64, Decimal};
use crate::records::{
    byte_range_of, i_frame_stream_of, init_map_of, key_of, ok_view, parse_byte_range, part_of,
    part_target_of, read_i_frame_stream, read_init_map, read_key, read_part, read_part_target,
    read_rendition, read_server_control, read_skip, read_start, read_stream_inf, read_variable,
    rendition_of, server_control_of, skip_of, start_of, stream_inf_of, variable_of,
};
use crate::text::{chars_of, find_char, find_from, is_text, no_empty_str, non_empty, text_of};
use crate::vars::{Binding, BindingView};

verus! {

/// One line of a manifest, read.
#[derive(Clone, Debug, PartialEq, Eq)]
pub enum Tag {
    EXTM3U,
    Version(u32),
    TargetDuration(u64),
    MediaSequence(u64),
    DiscontinuitySequence(u64),
    PlaylistType(MediaPlaylistType),
    /// The duration and the title of the next segment.
    INF(Decimal, Option<String>),
    ByteRange(ByteRange),
    Discontinuity,
    Key(Key),
    InitMap(InitMap),
    ProgramDateTime(String),
    Gap,
    Bitrate(u64),
    EndList,
    Define(Variable),
    Start(Start),
    IndependentSegments,
    IFramesOnly,
    PartInf(Decimal),
    ServerControl(ServerControl),
    Skip(Skip),
    Part(PartialSegment),
    DateRange(String),
    PreloadHint(String),
    RenditionReport(String),
    StreamInf(StreamInf),
    IFrameStreamInf(VariantStream),
    Media(Rendition),
    /// A line that is the location of a resource.
    Uri(String),
    /// A line that says nothing: empty, or a `#` without a tag name.
    Comment(String),
    /// A tag that is not among the above, with its name and its payload.
    UnknownTag(String, Option<String>),
}

/// The mathematical view of `Tag`: texts and lists as sequences.
pub enum TagView {
    EXTM3U,
    Version(u32),
    TargetDuration(u64),
    MediaSequence(u64),
    DiscontinuitySequence(u64),
    PlaylistType(MediaPlaylistType),
    INF(Decimal, Option<Seq<char>>),
    ByteRange(ByteRange),
    Discontinuity,
    Key(KeyView),
    InitMap(InitMapView),
    ProgramDateTime(Seq<char>),
    Gap,
    Bitrate(u64),
    EndList,
    Define(VariableView),
    Start(Start),
    IndependentSegments,
    IFramesOnly,
    PartInf(Decimal),
    ServerControl(ServerControl),
    Skip(Skip),
    Part(PartialSegmentView),
    DateRange(Seq<char>),
    PreloadHint(Seq<char>),
    RenditionReport(Seq<char>),
    StreamInf(StreamInfView),
    IFrameStreamInf(VariantStreamView),
    Media(RenditionView),
    Uri(Seq<char>),
    Comment(Seq<char>),
    UnknownTag(Seq<char>, Option<Seq<char>>),
}

impl View for Tag {
    type V = TagView;

    open spec fn view(&self) -> TagView {
        match self {
            Tag::EXTM3U => TagView::EXTM3U,
            Tag::Version(v) => TagView::Version(*v),
            Tag::TargetDuration(d) => TagView::TargetDuration(*d),
            Tag::MediaSequence(n) => TagView::MediaSequence(*n),
            Tag::DiscontinuitySequence(n) => TagView::DiscontinuitySequence(*n),
            Tag::PlaylistType(t) => TagView::PlaylistType(*t),
            Tag::INF(d, title) => TagView::INF(*d, text_opt(*title)),
            Tag::ByteRange(r) => TagView::ByteRange(*r),
            Tag::Discontinuity => TagView::Discontinuity,
            Tag::Key(k) => TagView::Key(k@),
            Tag::InitMap(m) => TagView::InitMap(m@),
            Tag::ProgramDateTime(t) => TagView::ProgramDateTime(t@),
            Tag::Gap => TagView::Gap,
            Tag::Bitrate(n) => TagView::Bitrate(*n),
            Tag::EndList => TagView::EndList,
            Tag::Define(v) => TagView::Define(v@),
            Tag::Start(s) => TagView::Start(*s),
            Tag::IndependentSegments => TagView::IndependentSegments,
            Tag::IFramesOnly => TagView::IFramesOnly,
            Tag::PartInf(d) => TagView::PartInf(*d),
            Tag::ServerControl(c) => TagView::ServerControl(*c),
            Tag::Skip(s) => TagView::Skip(*s),
            Tag::Part(p) => TagView::Part(p@),
            Tag::DateRange(t) => TagView::DateRange(t@),
            Tag::PreloadHint(t) => TagView::PreloadHint(t@),
            Tag::RenditionReport(t) => TagView::RenditionReport(t@),
            Tag::StreamInf(s) => TagView::StreamInf(s@),
            Tag::IFrameStreamInf(v) => TagView::IFrameStreamInf(v@),
            Tag::Media(r) => TagView::Media(r@),
            Tag::Uri(u) => TagView::Uri(u@),
            Tag::Comment(t) => TagView::Comment(t@),
            Tag::UnknownTag(name, payload) => TagView::UnknownTag(name@, text_opt(*payload)),
        }
    }
}

/// The error of a tag whose payload was not accepted.
pub open spec fn malformed(name: Seq<char>, payload: Seq<char>, reason: Reason) -> ParseErrorView {
    ParseErrorView::MalformedTag { tag_name: name, raw_payload: payload, reason }
}

/// The views of a result and of its error.
pub open spec fn result_view<T: View, E: View>(r: Result<T, E>) -> Result<T::V, E::V> {
    match r {
        Ok(value) => Ok(value@),
        Err(e) => Err(e@),
    }
}

/// Whether the payload of the tag called `name` is an attribute list.
pub open spec fn is_record_tag(name: Seq<char>) -> bool {
    ||| name == "EXT-X-KEY"@
    ||| name == "EXT-X-MAP"@
    ||| name == "EXT-X-DEFINE"@
    ||| name == "EXT-X-START"@
    ||| name == "EXT-X-PART-INF"@
    ||| name == "EXT-X-SERVER-CONTROL"@
    ||| name == "EXT-X-SKIP"@
    ||| name == "EXT-X-PART"@
    ||| name == "EXT-X-STREAM-INF"@
    ||| name == "EXT-X-I-FRAME-STREAM-INF"@
    ||| name == "EXT-X-MEDIA"@
}

/// A tag, or the reason for which there is none.
pub open spec fn tagged<T>(found: Result<T, Reason>, make: spec_fn(T) -> TagView) -> Result<
    TagView,
    Reason,
> {
    match found {
        Ok(value) => Ok(make(value)),
        Err(reason) => Err(reason),
    }
}

/// The tag called `name` whose payload is the attribute list `attrs`.
pub open spec fn record_tag_of(name: Seq<char>, attrs: Seq<AttributeView>) -> Result<
    TagView,
    Reason,
> {
    if name == "EXT-X-KEY"@ {
        tagged(key_of(attrs), |k| TagView::Key(k))
    } else if name == "EXT-X-MAP"@ {
        tagged(init_map_of(attrs), |m| TagView::InitMap(m))
    } else if name == "EXT-X-DEFINE"@ {
        tagged(variable_of(attrs), |v| TagView::Define(v))
    } else if name == "EXT-X-START"@ {
        tagged(start_of(attrs), |s| TagView::Start(s))
    } else if name == "EXT-X-PART-INF"@ {
        tagged(part_target_of(attrs), |d| TagView::PartInf(d))
    } else if name == "EXT-X-SERVER-CONTROL"@ {
        tagged(server_control_of(attrs), |c| TagView::ServerControl(c))
    } else if name == "EXT-X-SKIP"@ {
        tagged(skip_of(attrs), |s| TagView::Skip(s))
    } else if name == "EXT-X-PART"@ {
        tagged(part_of(attrs), |p| TagView::Part(p))
    } else if name == "EXT-X-STREAM-INF"@ {
        tagged(stream_inf_of(attrs), |s| TagView::StreamInf(s))
    } else if name == "EXT-X-I-FRAME-STREAM-INF"@ {
        tagged(i_frame_stream_of(attrs), |v| TagView::IFrameStreamInf(v))
    } else {
        tagged(rendition_of(attrs), |r| TagView::Media(r))
    }
}

/// The integer that is the whole payload of a tag.
pub open spec fn integer_payload(payload: Seq<char>) -> Result<u64, Reason> {
    match decimal_integer(payload) {
        Some(n) => Ok(n),
        None => Err(Reason::InvalidInteger),
    }
}

/// The duration and title of a segment: a decimal number that is not below
/// zero and, after a comma, a title, which may be missing or empty.
pub open spec fn inf_of(payload: Seq<char>) -> Result<TagView, Reason> {
    let comma = find_from(payload, ',', 0);
    let title = if comma < payload.len() {
        payload.subrange(comma + 1, payload.len() as int)
    } else {
        Seq::empty()
    };
    match decimal_number(payload.subrange(0, comma)) {
        Some(d) => if d.negative {
            Err(Reason::InvalidDecimal)
        } else {
            Ok(TagView::INF(d, non_empty(title)))
        },
        None => Err(Reason::InvalidDecimal),
    }
}

/// The tag called `name` whose payload is not an attribute list.  A name that
/// is not known gives an unknown tag, never an error.
pub open spec fn plain_tag_of(name: Seq<char>, payload: Seq<char>) -> Result<TagView, Reason> {
    if name == "EXTM3U"@ {
        Ok(TagView::EXTM3U)
    } else if name == "EXT-X-VERSION"@ {
        match decimal_integer(payload) {
            Some(n) => if n <= u32::MAX {
                Ok(TagView::Version(n as u32))
            } else {
                Err(Reason::InvalidInteger)
            },
            None => Err(Reason::InvalidInteger),
        }
    } else if name == "EXT-X-TARGETDURATION"@ {
        tagged(integer_payload(payload), |n| TagView::TargetDuration(n))
    } else if name == "EXT-X-MEDIA-SEQUENCE"@ {
        tagged(integer_payload(payload), |n| TagView::MediaSequence(n))
    } else if name == "EXT-X-DISCONTINUITY-SEQUENCE"@ {
        tagged(integer_payload(payload), |n| TagView::DiscontinuitySequence(n))
    } else if name == "EXT-X-BITRATE"@ {
        tagged(integer_payload(payload), |n| TagView::Bitrate(n))
    } else if name == "EXTINF"@ {
        inf_of(payload)
    } else if name == "EXT-X-PLAYLIST-TYPE"@ {
        if payload == "VOD"@ {
            Ok(TagView::PlaylistType(MediaPlaylistType::Vod))
        } else if payload == "EVENT"@ {
            Ok(TagView::PlaylistType(MediaPlaylistType::Event))
        } else {
            Err(Reason::InvalidValue)
        }
    } else if name == "EXT-X-BYTERANGE"@ {
        match byte_range_of(payload) {
            Some(range) => Ok(TagView::ByteRange(range)),
            None => Err(Reason::InvalidValue),
        }
    } else if name == "EXT-X-ENDLIST"@ {
        Ok(TagView::EndList)
    } else if name == "EXT-X-DISCONTINUITY"@ {
        Ok(TagView::Discontinuity)
    } else if name == "EXT-X-GAP"@ {
        Ok(TagView::Gap)
    } else if name == "EXT-X-INDEPENDENT-SEGMENTS"@ {
        Ok(TagView::IndependentSegments)
    } else if name == "EXT-X-I-FRAMES-ONLY"@ {
        Ok(TagView::IFramesOnly)
    } else if name == "EXT-X-PROGRAM-DATE-TIME"@ {
        Ok(TagView::ProgramDateTime(payload))
    } else if name == "EXT-X-DATERANGE"@ {
        Ok(TagView::DateRange(payload))
    } else if name == "EXT-X-PRELOAD-HINT"@ {
        Ok(TagView::PreloadHint(payload))
    } else if name == "EXT-X-RENDITION-REPORT"@ {
        Ok(TagView::RenditionReport(payload))
    } else {
        Ok(TagView::UnknownTag(name, non_empty(payload)))
    }
}

/// The tag called `name` with the payload `payload`, read with the variables
/// `bindings`.
///
/// A payload that is an attribute list has the variables in its values
/// replaced first.  A payload that cannot be read gives a malformed tag with
/// the reason; a variable declared by query parameter is not supported.
pub open spec fn tag_of(name: Seq<char>, payload: Seq<char>, bindings: Seq<BindingView>) -> Result<
    TagView,
    ParseErrorView,
> {
    if is_record_tag(name) {
        match attributes_of(payload, bindings) {
            Err(e) => Err(e),
            Ok(attrs) => if name == "EXT-X-DEFINE"@ && value_of(attrs, "QUERYPARAM"@) is Some {
                Err(ParseErrorView::UnsupportedFeature { name: "QUERYPARAM"@ })
            } else {
                match record_tag_of(name, attrs) {
                    Ok(tag) => Ok(tag),
                    Err(reason) => Err(malformed(name, payload, reason)),
                }
            },
        }
    } else {
        match plain_tag_of(name, payload) {
            Ok(tag) => Ok(tag),
            Err(reason) => Err(malformed(name, payload, reason)),
        }
    }
}

/// The tag that a line is.  A line that says nothing, empty or a `#` without
/// a tag name, is kept as a comment.
pub open spec fn tag_of_line(line: Seq<char>, bindings: Seq<BindingView>) -> Result<
    TagView,
    ParseErrorView,
> {
    match line_kind(line) {
        LineView::Ignorable => Ok(TagView::Comment(line)),
        LineView::Uri(text) => Ok(TagView::Uri(text)),
        LineView::Directive(name, payload) => tag_of(name, payload, bindings),
    }
}

/// Whether the payload of the tag called `name` is an attribute list.
pub fn is_record_name(name: &[char]) -> (record: bool)
    ensures
        record == is_record_tag(name@),
{
    is_text(name, "EXT-X-KEY") || is_text(name, "EXT-X-MAP") || is_text(name, "EXT-X-DEFINE")
        || is_text(name, "EXT-X-START") || is_text(name, "EXT-X-PART-INF") || is_text(
        name,
        "EXT-X-SERVER-CONTROL",
    ) || is_text(name, "EXT-X-SKIP") || is_text(name, "EXT-X-PART") || is_text(
        name,
        "EXT-X-STREAM-INF",
    ) || is_text(name, "EXT-X-I-FRAME-STREAM-INF") || is_text(name, "EXT-X-MEDIA")
}

/// Reads the tag called `name` from its attributes.
pub fn read_record(name: &[char], attrs: &Vec<Attribute>) -> (res: Result<Tag, Reason>)
    ensures
        ok_view(res) == record_tag_of(name@, views(attrs@)),
{
    if is_text(name, "EXT-X-KEY") {
        Ok(Tag::Key(read_key(attrs)?))
    } else if is_text(name, "EXT-X-MAP") {
        Ok(Tag::InitMap(read_init_map(attrs)?))
    } else if is_text(name, "EXT-X-DEFINE") {
        Ok(Tag::Define(read_variable(attrs)?))
    } else if is_text(name, "EXT-X-START") {
        Ok(Tag::Start(read_start(attrs)?))
    } else if is_text(name, "EXT-X-PART-INF") {
        Ok(Tag::PartInf(read_part_target(attrs)?))
    } else if is_text(name, "EXT-X-SERVER-CONTROL") {
        Ok(Tag::ServerControl(read_server_control(attrs)?))
    } else if is_text(name, "EXT-X-SKIP") {
        Ok(Tag::Skip(read_skip(attrs)?))
    } else if is_text(name, "EXT-X-PART") {
        Ok(Tag::Part(read_part(attrs)?))
    } else if is_text(name, "EXT-X-STREAM-INF") {
        Ok(Tag::StreamInf(read_stream_inf(attrs)?))
    } else if is_text(name, "EXT-X-I-FRAME-STREAM-INF") {
        Ok(Tag::IFrameStreamInf(read_i_frame_stream(attrs)?))
    } else {
        Ok(Tag::Media(read_rendition(attrs)?))
    }
}

/// Reads an integer that is the whole payload of a tag.
pub fn read_integer(payload: &[char]) -> (res: Result<u64, Reason>)
    ensures
        res == integer_payload(payload@),
{
    match parse_u64(payload) {
        Some(n) => Ok(n),
        None => Err(Reason::InvalidInteger),
    }
}

/// Reads the duration and the title of a segment.
pub fn read_inf(payload: &[char]) -> (res: Result<Tag, Reason>)
    ensures
        ok_view(res) == inf_of(payload@),
{
    let n = payload.len();
    let comma = find_char(payload, ',', 0);
    let title = if comma < n {
        slice_subrange(payload, comma + 1, n)
    } else {
        slice_subrange(payload, n, n)
    };
    match parse_decimal(slice_subrange(payload, 0, comma)) {
        Some(d) => if d.negative {
            Err(Reason::InvalidDecimal)
        } else {
            let text = text_of(title);
            assert(title@ =~= if comma < payload@.len() {
                payload@.subrange(comma + 1, payload@.len() as int)
            } else {
                Seq::empty()
            });
            Ok(Tag::INF(d, no_empty_str(text.as_str())))
        },
        None => Err(Reason::InvalidDecimal),
    }
}

/// Reads the tag called `name`, whose payload is not an attribute list.
pub fn read_plain(name: &[char], payload: &[char]) -> (res: Result<Tag, Reason>)
    ensures
        ok_view(res) == plain_tag_of(name@, payload@),
{
    if is_text(name, "EXTM3U") {
        Ok(Tag::EXTM3U)
    } else if is_text(name, "EXT-X-VERSION") {
        match parse_u64(payload) {
            Some(n) => if n <= u32::MAX as u64 {
                Ok(Tag::Version(n as u32))
            } else {
                Err(Reason::InvalidInteger)
            },
            None => Err(Reason::InvalidInteger),
        }
    } else if is_text(name, "EXT-X-TARGETDURATION") {
        Ok(Tag::TargetDuration(read_integer(payload)?))
    } else if is_text(name, "EXT-X-MEDIA-SEQUENCE") {
        Ok(Tag::MediaSequence(read_integer(payload)?))
    } else if is_text(name, "EXT-X-DISCONTINUITY-SEQUENCE") {
        Ok(Tag::DiscontinuitySequence(read_integer(payload)?))
    } else if is_text(name, "EXT-X-BITRATE") {
        Ok(Tag::Bitrate(read_integer(payload)?))
    } else if is_text(name, "EXTINF") {
        read_inf(payload)
    } else if is_text(name, "EXT-X-PLAYLIST-TYPE") {
        if is_text(payload, "VOD") {
            Ok(Tag::PlaylistType(MediaPlaylistType::Vod))
        } else if is_text(payload, "EVENT") {
            Ok(Tag::PlaylistType(MediaPlaylistType::Event))
        } else {
            Err(Reason::InvalidValue)
        }
    } else if is_text(name, "EXT-X-BYTERANGE") {
        match parse_byte_range(payload) {
            Some(range) => Ok(Tag::ByteRange(range)),
            None => Err(Reason::InvalidValue),
        }
    } else if is_text(name, "EXT-X-ENDLIST") {
        Ok(Tag::EndList)
    } else if is_text(name, "EXT-X-DISCONTINUITY") {
        Ok(Tag::Discontinuity)
    } else if is_text(name, "EXT-X-GAP") {
        Ok(Tag::Gap)
    } else if is_text(name, "EXT-X-INDEPENDENT-SEGMENTS") {
        Ok(Tag::IndependentSegments)
    } else if is_text(name, "EXT-X-I-FRAMES-ONLY") {
        Ok(Tag::IFramesOnly)
    } else if is_text(name, "EXT-X-PROGRAM-DATE-TIME") {
        Ok(Tag::ProgramDateTime(text_of(payload)))
    } else if is_text(name, "EXT-X-DATERANGE") {
        Ok(Tag::DateRange(text_of(payload)))
    } else if is_text(name, "EXT-X-PRELOAD-HINT") {
        Ok(Tag::PreloadHint(text_of(payload)))
    } else if is_text(name, "EXT-X-RENDITION-REPORT") {
        Ok(Tag::RenditionReport(text_of(payload)))
    } else {
        let text = text_of(payload);
        Ok(Tag::UnknownTag(text_of(name), no_empty_str(text.as_str())))
    }
}

/// Reads the tag called `name` with the payload `payload`.
pub fn parse_directive(name: &[char], payload: &[char], bindings: &Vec<Binding>) -> (res: Result<
    Tag,
    ParseError,
>)
    ensures
        result_view(res) == tag_of(name@, payload@, views(bindings@)),
{
    let found = if is_record_name(name) {
        let attrs = parse_attributes(payload, bindings)?;
        if is_text(name, "EXT-X-DEFINE") && find_value(&attrs, "QUERYPARAM").is_some() {
            return Err(ParseError::UnsupportedFeature { name: String::from_str("QUERYPARAM") });
        }
        read_record(name, &attrs)
    } else {
        read_plain(name, payload)
    };
    match found {
        Ok(tag) => Ok(tag),
        Err(reason) => Err(
            ParseError::MalformedTag {
                tag_name: text_of(name),
                raw_payload: text_of(payload),
                reason,
            },
        ),
    }
}

/// Reads one line of a manifest, with the variables that are defined so far.
///
/// A line that is not empty and does not start with `#` is a location, whole
/// and as it was written.
pub fn parse_line(line: &[char], bindings: &Vec<Binding>) -> (res: Result<Tag, ParseError>)
    ensures
        result_view(res) == tag_of_line(line@, views(bindings@)),
        is_uri_line(line@) ==> result_view(res) == Ok::<TagView, ParseErrorView>(
            TagView::Uri(line@),
        ),
{
    match classify_line(line) {
        Line::Ignorable => Ok(Tag::Comment(text_of(line))),
        Line::Uri(text) => Ok(Tag::Uri(text_of(text))),
        Line::Directive(name, payload) => parse_directive(name, payload, bindings),
    }
}

/// Reads one line of a manifest that uses no variable.
///
/// A line that is not empty and does not start with `#` is a location, whole
/// and as it was written.
pub fn parse_tag(line: &str) -> (res: Result<Tag, ParseError>)
    ensures
        result_view(res) == tag_of_line(line@, Seq::empty()),
        is_uri_line(line@) ==> result_view(res) == Ok::<TagView, ParseErrorView>(
            TagView::Uri(line@),
        ),
{
    let chars = chars_of(line);
    let bindings: Vec<Binding> = Vec::new();
    assert(views(bindings@) =~= Seq::<BindingView>::empty());
    parse_line(chars.as_slice(), &bindings)
}

} // verus!
