use vstd::prelude::*;
use crate::number::{Decimal, Resolution};

verus! {

/// The view of an optional text.
pub open spec fn text_opt(t: Option<String>) -> Option<Seq<char>> {
    match t {
        Some(s) => Some(s@),
        None => None,
    }
}

/// The views of the elements of `v`, in order.
pub open spec fn views<T: View>(v: Seq<T>) -> Seq<T::V> {
    Seq::new(v.len(), |i: int| v[i]@)
}

/// Appending an element appends its view.
pub proof fn lemma_views_push<T: View>(v: Seq<T>, x: T)
    ensures
        views(v.push(x)) == views(v).push(x@),
{
    assert(views(v.push(x)) =~= views(v).push(x@));
}

/// A copy of an optional text.
pub fn copy_text_opt(t: &Option<String>) -> (r: Option<String>)
    ensures
        r == *t,
{
    match t {
        Some(s) => Some(s.clone()),
        None => None,
    }
}

/// A sub-range of a resource: `length` bytes, starting at `offset` when it
/// is given and right after the previous range of the resource when not.
#[derive(Clone, Copy, Debug, PartialEq, Eq)]
pub struct ByteRange {
    pub length: u64,
    pub offset: Option<u64>,
}

/// Whether a media playlist may still grow at its end, or never changes.
#[derive(Clone, Copy, Debug, PartialEq, Eq)]
pub enum MediaPlaylistType {
    Event,
    Vod,
}

/// The preferred point at which to start playing.
#[derive(Clone, Copy, Debug, PartialEq, Eq)]
pub struct Start {
    pub time_offset: Decimal,
    pub precise: Option<bool>,
}

/// How many segments a playlist update leaves out.
#[derive(Clone, Copy, Debug, PartialEq, Eq)]
pub struct Skip {
    pub skipped_segments: u64,
}

/// What the server offers for low-latency delivery.
#[derive(Clone, Copy, Debug, PartialEq, Eq)]
pub struct ServerControl {
    pub can_block_reload: bool,
    pub can_skip_until: Option<Decimal>,
    pub hold_back: Option<Decimal>,
    pub part_hold_back: Option<Decimal>,
}

/// A tag that the parser does not know, kept as it was written.
#[derive(Clone, Debug, PartialEq, Eq)]
pub struct ExtTag {
    pub tag_name: String,
    pub tag_payload: Option<String>,
}

/// The mathematical view of `ExtTag`: texts and lists as sequences.
pub struct ExtTagView {
    pub tag_name: Seq<char>,
    pub tag_payload: Option<Seq<char>>,
}

impl View for ExtTag {
    type V = ExtTagView;

    open spec fn view(&self) -> ExtTagView {
        ExtTagView { tag_name: self.tag_name@, tag_payload: text_opt(self.tag_payload) }
    }
}

/// A variable of the playlist: defined with its value, or imported by name.
#[derive(Debug, PartialEq, Eq)]
pub enum Variable {
    Name((String, String)),
    Import(String),
}

/// The mathematical view of `Variable`: texts and lists as sequences.
pub enum VariableView {
    Name(Seq<char>, Seq<char>),
    Import(Seq<char>),
}

impl View for Variable {
    type V = VariableView;

    open spec fn view(&self) -> VariableView {
        match self {
            Variable::Name(pair) => VariableView::Name(pair.0@, pair.1@),
            Variable::Import(name) => VariableView::Import(name@),
        }
    }
}

impl Variable {
    /// A copy, equal in every part.
    pub fn duplicate(&self) -> (r: Variable)
        ensures
            r == *self,
    {
        match self {
            Variable::Name(pair) => Variable::Name((pair.0.clone(), pair.1.clone())),
            Variable::Import(name) => Variable::Import(name.clone()),
        }
    }
}

impl Clone for Variable {
    fn clone(&self) -> (r: Variable)
        ensures
            r == *self,
    {
        self.duplicate()
    }
}

/// How segments are encrypted.
#[derive(Clone, Debug, PartialEq, Eq)]
pub enum KeyMethod {
    NoEncryption,
    Aes128,
    SampleAes,
    Other(String),
}

/// The mathematical view of `KeyMethod`: texts and lists as sequences.
pub enum KeyMethodView {
    NoEncryption,
    Aes128,
    SampleAes,
    Other(Seq<char>),
}

impl View for KeyMethod {
    type V = KeyMethodView;

    open spec fn view(&self) -> KeyMethodView {
        match self {
            KeyMethod::NoEncryption => KeyMethodView::NoEncryption,
            KeyMethod::Aes128 => KeyMethodView::Aes128,
            KeyMethod::SampleAes => KeyMethodView::SampleAes,
            KeyMethod::Other(name) => KeyMethodView::Other(name@),
        }
    }
}

impl KeyMethod {
    /// A copy, equal in every part.
    pub fn duplicate(&self) -> (r: KeyMethod)
        ensures
            r == *self,
    {
        match self {
            KeyMethod::NoEncryption => KeyMethod::NoEncryption,
            KeyMethod::Aes128 => KeyMethod::Aes128,
            KeyMethod::SampleAes => KeyMethod::SampleAes,
            KeyMethod::Other(name) => KeyMethod::Other(name.clone()),
        }
    }
}

/// How the segments that follow are encrypted.
#[derive(Clone, Debug, PartialEq, Eq)]
pub struct Key {
    pub method: KeyMethod,
    pub uri: Option<String>,
    pub iv: Option<String>,
    pub key_format: Option<String>,
    pub key_format_versions: Option<String>,
}

/// The mathematical view of `Key`: texts and lists as sequences.
pub struct KeyView {
    pub method: KeyMethodView,
    pub uri: Option<Seq<char>>,
    pub iv: Option<Seq<char>>,
    pub key_format: Option<Seq<char>>,
    pub key_format_versions: Option<Seq<char>>,
}

impl View for Key {
    type V = KeyView;

    open spec fn view(&self) -> KeyView {
        KeyView {
            method: self.method@,
            uri: text_opt(self.uri),
            iv: text_opt(self.iv),
            key_format: text_opt(self.key_format),
            key_format_versions: text_opt(self.key_format_versions),
        }
    }
}

impl Key {
    /// A key other than "no encryption" names the resource that holds it.
    pub open spec fn wf(self) -> bool {
        self.method != KeyMethod::NoEncryption ==> self.uri is Some
    }

    /// A copy, equal in every part.
    pub fn duplicate(&self) -> (r: Key)
        ensures
            r == *self,
    {
        Key {
            method: self.method.duplicate(),
            uri: copy_text_opt(&self.uri),
            iv: copy_text_opt(&self.iv),
            key_format: copy_text_opt(&self.key_format),
            key_format_versions: copy_text_opt(&self.key_format_versions),
        }
    }
}

/// The media initialization section of the segments that follow.
#[derive(Clone, Debug, PartialEq, Eq)]
pub struct InitMap {
    pub uri: String,
    pub byte_range: Option<ByteRange>,
}

/// The mathematical view of `InitMap`: texts and lists as sequences.
pub struct InitMapView {
    pub uri: Seq<char>,
    pub byte_range: Option<ByteRange>,
}

impl View for InitMap {
    type V = InitMapView;

    open spec fn view(&self) -> InitMapView {
        InitMapView { uri: self.uri@, byte_range: self.byte_range }
    }
}

impl InitMap {
    /// A copy, equal in every part.
    pub fn duplicate(&self) -> (r: InitMap)
        ensures
            r == *self,
    {
        InitMap { uri: self.uri.clone(), byte_range: self.byte_range }
    }
}

/// A part of a segment, delivered before the segment is complete.
#[derive(Clone, Debug, PartialEq, Eq)]
pub struct PartialSegment {
    pub uri: String,
    pub duration: Decimal,
    pub indepdentent: bool,
    pub byte_range: ByteRange,
    pub gap: bool,
}

/// The mathematical view of `PartialSegment`: texts and lists as sequences.
pub struct PartialSegmentView {
    pub uri: Seq<char>,
    pub duration: Decimal,
    pub indepdentent: bool,
    pub byte_range: ByteRange,
    pub gap: bool,
}

impl View for PartialSegment {
    type V = PartialSegmentView;

    open spec fn view(&self) -> PartialSegmentView {
        PartialSegmentView {
            uri: self.uri@,
            duration: self.duration,
            indepdentent: self.indepdentent,
            byte_range: self.byte_range,
            gap: self.gap,
        }
    }
}

impl PartialSegment {
    /// A copy, equal in every part.
    pub fn duplicate(&self) -> (r: PartialSegment)
        ensures
            r == *self,
    {
        PartialSegment {
            uri: self.uri.clone(),
            duration: self.duration,
            indepdentent: self.indepdentent,
            byte_range: self.byte_range,
            gap: self.gap,
        }
    }
}

/// One playable piece of media.
#[derive(Clone, Debug, PartialEq, Eq)]
pub struct MediaSegment {
    pub uri: String,
    pub mime_type: Option<String>,
    pub duration: Decimal,
    pub title: Option<String>,
    pub byte_range: Option<ByteRange>,
    pub discontinuity: bool,
    pub key: Option<Key>,
    pub map: Option<InitMap>,
    pub program_date_time: Option<String>,
    pub gap: bool,
    pub bitrate: Option<u64>,
    pub parts: Vec<PartialSegment>,
    pub extra_tags: Vec<ExtTag>,
}

/// The mathematical view of `MediaSegment`: texts and lists as sequences.
pub struct MediaSegmentView {
    pub uri: Seq<char>,
    pub mime_type: Option<Seq<char>>,
    pub duration: Decimal,
    pub title: Option<Seq<char>>,
    pub byte_range: Option<ByteRange>,
    pub discontinuity: bool,
    pub key: Option<KeyView>,
    pub map: Option<InitMapView>,
    pub program_date_time: Option<Seq<char>>,
    pub gap: bool,
    pub bitrate: Option<u64>,
    pub parts: Seq<PartialSegmentView>,
    pub extra_tags: Seq<ExtTagView>,
}

/// The view of an optional key.
pub open spec fn key_opt(k: Option<Key>) -> Option<KeyView> {
    match k {
        Some(key) => Some(key@),
        None => None,
    }
}

/// The view of an optional initialization section.
pub open spec fn map_opt(m: Option<InitMap>) -> Option<InitMapView> {
    match m {
        Some(map) => Some(map@),
        None => None,
    }
}

impl View for MediaSegment {
    type V = MediaSegmentView;

    open spec fn view(&self) -> MediaSegmentView {
        MediaSegmentView {
            uri: self.uri@,
            mime_type: text_opt(self.mime_type),
            duration: self.duration,
            title: text_opt(self.title),
            byte_range: self.byte_range,
            discontinuity: self.discontinuity,
            key: key_opt(self.key),
            map: map_opt(self.map),
            program_date_time: text_opt(self.program_date_time),
            gap: self.gap,
            bitrate: self.bitrate,
            parts: views(self.parts@),
            extra_tags: views(self.extra_tags@),
        }
    }
}

/// The ordered list of the segments of one rendition.
#[derive(Clone, Debug, PartialEq, Eq)]
pub struct MediaPlaylist {
    pub version: Option<u32>,
    pub independent_segments: bool,
    pub start: Option<Start>,
    pub variables: Vec<Variable>,
    pub target_duration: u64,
    pub media_sequence: u64,
    pub discontinuity_sequence: u64,
    pub end_list: bool,
    pub playlist_type: Option<MediaPlaylistType>,
    pub i_frames_only: bool,
    pub part_target: Option<Decimal>,
    pub server_control: Option<ServerControl>,
    pub segments: Vec<MediaSegment>,
    pub skip: Option<Skip>,
    pub dateranges: Option<Vec<String>>,
    pub preload_hints: Option<Vec<String>>,
    pub rendition_reports: Option<Vec<String>>,
}

/// The mathematical view of `MediaPlaylist`: texts and lists as sequences.
pub struct MediaPlaylistView {
    pub version: Option<u32>,
    pub independent_segments: bool,
    pub start: Option<Start>,
    pub variables: Seq<VariableView>,
    pub target_duration: u64,
    pub media_sequence: u64,
    pub discontinuity_sequence: u64,
    pub end_list: bool,
    pub playlist_type: Option<MediaPlaylistType>,
    pub i_frames_only: bool,
    pub part_target: Option<Decimal>,
    pub server_control: Option<ServerControl>,
    pub segments: Seq<MediaSegmentView>,
    pub skip: Option<Skip>,
    pub dateranges: Option<Seq<Seq<char>>>,
    pub preload_hints: Option<Seq<Seq<char>>>,
    pub rendition_reports: Option<Seq<Seq<char>>>,
}

/// The view of an optional list of texts.
pub open spec fn texts_opt(t: Option<Vec<String>>) -> Option<Seq<Seq<char>>> {
    match t {
        Some(v) => Some(views(v@)),
        None => None,
    }
}

impl View for MediaPlaylist {
    type V = MediaPlaylistView;

    open spec fn view(&self) -> MediaPlaylistView {
        MediaPlaylistView {
            version: self.version,
            independent_segments: self.independent_segments,
            start: self.start,
            variables: views(self.variables@),
            target_duration: self.target_duration,
            media_sequence: self.media_sequence,
            discontinuity_sequence: self.discontinuity_sequence,
            end_list: self.end_list,
            playlist_type: self.playlist_type,
            i_frames_only: self.i_frames_only,
            part_target: self.part_target,
            server_control: self.server_control,
            segments: views(self.segments@),
            skip: self.skip,
            dateranges: texts_opt(self.dateranges),
            preload_hints: texts_opt(self.preload_hints),
            rendition_reports: texts_opt(self.rendition_reports),
        }
    }
}

/// The attributes of one encoding of the content.
#[derive(Clone, Debug, PartialEq, Eq)]
pub struct StreamInf {
    pub bandwidth: u64,
    pub average_bandwidth: Option<u64>,
    pub codecs: Option<String>,
    pub resolution: Option<Resolution>,
    pub frame_rate: Option<Decimal>,
    pub audio: Option<String>,
    pub video: Option<String>,
    pub subtitles: Option<String>,
    pub closed_captions: Option<String>,
}

/// The mathematical view of `StreamInf`: texts and lists as sequences.
pub struct StreamInfView {
    pub bandwidth: u64,
    pub average_bandwidth: Option<u64>,
    pub codecs: Option<Seq<char>>,
    pub resolution: Option<Resolution>,
    pub frame_rate: Option<Decimal>,
    pub audio: Option<Seq<char>>,
    pub video: Option<Seq<char>>,
    pub subtitles: Option<Seq<char>>,
    pub closed_captions: Option<Seq<char>>,
}

impl View for StreamInf {
    type V = StreamInfView;

    open spec fn view(&self) -> StreamInfView {
        StreamInfView {
            bandwidth: self.bandwidth,
            average_bandwidth: self.average_bandwidth,
            codecs: text_opt(self.codecs),
            resolution: self.resolution,
            frame_rate: self.frame_rate,
            audio: text_opt(self.audio),
            video: text_opt(self.video),
            subtitles: text_opt(self.subtitles),
            closed_captions: text_opt(self.closed_captions),
        }
    }
}

impl StreamInf {
    /// A copy, equal in every part.
    pub fn duplicate(&self) -> (r: StreamInf)
        ensures
            r == *self,
    {
        StreamInf {
            bandwidth: self.bandwidth,
            average_bandwidth: self.average_bandwidth,
            codecs: copy_text_opt(&self.codecs),
            resolution: self.resolution,
            frame_rate: self.frame_rate,
            audio: copy_text_opt(&self.audio),
            video: copy_text_opt(&self.video),
            subtitles: copy_text_opt(&self.subtitles),
            closed_captions: copy_text_opt(&self.closed_captions),
        }
    }
}

/// One encoding of the content, and where its playlist is.
#[derive(Clone, Debug, PartialEq, Eq)]
pub struct VariantStream {
    pub uri: String,
    pub stream: StreamInf,
}

/// The mathematical view of `VariantStream`: texts and lists as sequences.
pub struct VariantStreamView {
    pub uri: Seq<char>,
    pub stream: StreamInfView,
}

impl View for VariantStream {
    type V = VariantStreamView;

    open spec fn view(&self) -> VariantStreamView {
        VariantStreamView { uri: self.uri@, stream: self.stream@ }
    }
}

impl VariantStream {
    /// A copy, equal in every part.
    pub fn duplicate(&self) -> (r: VariantStream)
        ensures
            r == *self,
    {
        VariantStream { uri: self.uri.clone(), stream: self.stream.duplicate() }
    }
}

/// The kind of an alternative track.
#[derive(Clone, Copy, Debug, PartialEq, Eq)]
pub enum RenditionType {
    Audio,
    Video,
    Subtitles,
    ClosedCaptions,
}

/// An alternative track of the content.
#[derive(Clone, Debug, PartialEq, Eq)]
pub struct Rendition {
    pub media_type: RenditionType,
    pub group_id: String,
    pub name: String,
    pub uri: Option<String>,
    pub language: Option<String>,
    pub is_default: bool,
    pub autoselect: bool,
}

/// The mathematical view of `Rendition`: texts and lists as sequences.
pub struct RenditionView {
    pub media_type: RenditionType,
    pub group_id: Seq<char>,
    pub name: Seq<char>,
    pub uri: Option<Seq<char>>,
    pub language: Option<Seq<char>>,
    pub is_default: bool,
    pub autoselect: bool,
}

impl View for Rendition {
    type V = RenditionView;

    open spec fn view(&self) -> RenditionView {
        RenditionView {
            media_type: self.media_type,
            group_id: self.group_id@,
            name: self.name@,
            uri: text_opt(self.uri),
            language: text_opt(self.language),
            is_default: self.is_default,
            autoselect: self.autoselect,
        }
    }
}

impl Rendition {
    /// A copy, equal in every part.
    pub fn duplicate(&self) -> (r: Rendition)
        ensures
            r == *self,
    {
        Rendition {
            media_type: self.media_type,
            group_id: self.group_id.clone(),
            name: self.name.clone(),
            uri: copy_text_opt(&self.uri),
            language: copy_text_opt(&self.language),
            is_default: self.is_default,
            autoselect: self.autoselect,
        }
    }
}

/// The renditions that share a type and a group identifier, in source order.
#[derive(Clone, Debug, PartialEq, Eq)]
pub struct RenditionGroup {
    pub media_type: RenditionType,
    pub group_id: String,
    pub renditions: Vec<Rendition>,
}

/// The mathematical view of `RenditionGroup`: texts and lists as sequences.
pub struct RenditionGroupView {
    pub media_type: RenditionType,
    pub group_id: Seq<char>,
    pub renditions: Seq<RenditionView>,
}

impl View for RenditionGroup {
    type V = RenditionGroupView;

    open spec fn view(&self) -> RenditionGroupView {
        RenditionGroupView {
            media_type: self.media_type,
            group_id: self.group_id@,
            renditions: views(self.renditions@),
        }
    }
}

/// The index of the encodings and renditions of one content.
#[derive(Clone, Debug, PartialEq, Eq)]
pub struct MultivariantPlaylist {
    pub version: Option<u32>,
    pub independent_segments: bool,
    pub start: Option<Start>,
    pub variables: Vec<Variable>,
    pub variants: Vec<VariantStream>,
    pub i_frame_variants: Vec<VariantStream>,
    pub renditions: Vec<RenditionGroup>,
}

/// The mathematical view of `MultivariantPlaylist`: texts and lists as sequences.
pub struct MultivariantPlaylistView {
    pub version: Option<u32>,
    pub independent_segments: bool,
    pub start: Option<Start>,
    pub variables: Seq<VariableView>,
    pub variants: Seq<VariantStreamView>,
    pub i_frame_variants: Seq<VariantStreamView>,
    pub renditions: Seq<RenditionGroupView>,
}

impl View for MultivariantPlaylist {
    type V = MultivariantPlaylistView;

    open spec fn view(&self) -> MultivariantPlaylistView {
        MultivariantPlaylistView {
            version: self.version,
            independent_segments: self.independent_segments,
            start: self.start,
            variables: views(self.variables@),
            variants: views(self.variants@),
            i_frame_variants: views(self.i_frame_variants@),
            renditions: views(self.renditions@),
        }
    }
}

/// A playlist of one of the two kinds.
#[derive(Clone, Debug, PartialEq, Eq)]
pub enum Playlist {
    Multivariant(MultivariantPlaylist),
    Media(MediaPlaylist),
}

/// The mathematical view of `Playlist`: texts and lists as sequences.
pub enum PlaylistView {
    Multivariant(MultivariantPlaylistView),
    Media(MediaPlaylistView),
}

impl View for Playlist {
    type V = PlaylistView;

    open spec fn view(&self) -> PlaylistView {
        match self {
            Playlist::Multivariant(p) => PlaylistView::Multivariant(p@),
            Playlist::Media(p) => PlaylistView::Media(p@),
        }
    }
}

} // verus!
