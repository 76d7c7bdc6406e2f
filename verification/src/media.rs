use vstd::prelude::*;
use vstd::string::*;
use crate::error::ParseError;
use crate::model::{
    copy_text_opt, key_opt, lemma_views_push, map_opt, text_opt, views, ByteRange, ExtTag,
    ExtTagView, InitMap, InitMapView, Key, KeyView, MediaPlaylist, MediaPlaylistType,
    MediaPlaylistView, MediaSegment, MediaSegmentView, PartialSegment, PartialSegmentView,
    ServerControl, Skip, Start, Variable, VariableView,
};
use crate::number::Decimal;
use crate::tag::{Tag, TagView};

verus! {

/// What stays in force from one segment to the next, until a tag sets it
/// anew.
#[derive(Clone, Debug, PartialEq, Eq)]
pub struct Persistent {
    pub key: Option<Key>,
    pub map: Option<InitMap>,
    pub discontinuity_sequence: u64,
}

/// The mathematical view of `Persistent`: texts and lists as sequences.
pub struct PersistentView {
    pub key: Option<KeyView>,
    pub map: Option<InitMapView>,
    pub discontinuity_sequence: u64,
}

impl View for Persistent {
    type V = PersistentView;

    open spec fn view(&self) -> PersistentView {
        PersistentView {
            key: key_opt(self.key),
            map: map_opt(self.map),
            discontinuity_sequence: self.discontinuity_sequence,
        }
    }
}

/// What has been said of the segment whose location has not come yet.
#[derive(Clone, Debug, PartialEq, Eq)]
pub struct Pending {
    pub duration: Decimal,
    pub title: Option<String>,
    pub byte_range: Option<ByteRange>,
    pub discontinuity: bool,
    pub program_date_time: Option<String>,
    pub gap: bool,
    pub bitrate: Option<u64>,
    pub parts: Vec<PartialSegment>,
    pub extra_tags: Vec<ExtTag>,
}

/// The mathematical view of `Pending`: texts and lists as sequences.
pub struct PendingView {
    pub duration: Decimal,
    pub title: Option<Seq<char>>,
    pub byte_range: Option<ByteRange>,
    pub discontinuity: bool,
    pub program_date_time: Option<Seq<char>>,
    pub gap: bool,
    pub bitrate: Option<u64>,
    pub parts: Seq<PartialSegmentView>,
    pub extra_tags: Seq<ExtTagView>,
}

impl View for Pending {
    type V = PendingView;

    open spec fn view(&self) -> PendingView {
        PendingView {
            duration: self.duration,
            title: text_opt(self.title),
            byte_range: self.byte_range,
            discontinuity: self.discontinuity,
            program_date_time: text_opt(self.program_date_time),
            gap: self.gap,
            bitrate: self.bitrate,
            parts: views(self.parts@),
            extra_tags: views(self.extra_tags@),
        }
    }
}

/// What the tags say of the playlist as a whole.
#[derive(Clone, Debug, PartialEq, Eq)]
pub struct MediaHeader {
    pub version: Option<u32>,
    pub independent_segments: bool,
    pub start: Option<Start>,
    pub variables: Vec<Variable>,
    pub target_duration: u64,
    pub media_sequence: u64,
    pub end_list: bool,
    pub playlist_type: Option<MediaPlaylistType>,
    pub i_frames_only: bool,
    pub part_target: Option<Decimal>,
    pub server_control: Option<ServerControl>,
    pub skip: Option<Skip>,
    pub dateranges: Vec<String>,
    pub preload_hints: Vec<String>,
    pub rendition_reports: Vec<String>,
}

/// The mathematical view of `MediaHeader`: texts and lists as sequences.
pub struct MediaHeaderView {
    pub version: Option<u32>,
    pub independent_segments: bool,
    pub start: Option<Start>,
    pub variables: Seq<VariableView>,
    pub target_duration: u64,
    pub media_sequence: u64,
    pub end_list: bool,
    pub playlist_type: Option<MediaPlaylistType>,
    pub i_frames_only: bool,
    pub part_target: Option<Decimal>,
    pub server_control: Option<ServerControl>,
    pub skip: Option<Skip>,
    pub dateranges: Seq<Seq<char>>,
    pub preload_hints: Seq<Seq<char>>,
    pub rendition_reports: Seq<Seq<char>>,
}

impl View for MediaHeader {
    type V = MediaHeaderView;

    open spec fn view(&self) -> MediaHeaderView {
        MediaHeaderView {
            version: self.version,
            independent_segments: self.independent_segments,
            start: self.start,
            variables: views(self.variables@),
            target_duration: self.target_duration,
            media_sequence: self.media_sequence,
            end_list: self.end_list,
            playlist_type: self.playlist_type,
            i_frames_only: self.i_frames_only,
            part_target: self.part_target,
            server_control: self.server_control,
            skip: self.skip,
            dateranges: views(self.dateranges@),
            preload_hints: views(self.preload_hints@),
            rendition_reports: views(self.rendition_reports@),
        }
    }
}

/// The number zero.
pub open spec fn zero() -> Decimal {
    Decimal { negative: false, mantissa: 0, scale: 0 }
}

/// Nothing in force.
pub open spec fn initial_persistent() -> PersistentView {
    PersistentView { key: None, map: None, discontinuity_sequence: 0 }
}

/// Nothing said of the next segment.
pub open spec fn blank_pending() -> PendingView {
    PendingView {
        duration: zero(),
        title: None,
        byte_range: None,
        discontinuity: false,
        program_date_time: None,
        gap: false,
        bitrate: None,
        parts: Seq::empty(),
        extra_tags: Seq::empty(),
    }
}

/// Nothing said of the playlist.
pub open spec fn initial_header() -> MediaHeaderView {
    MediaHeaderView {
        version: None,
        independent_segments: false,
        start: None,
        variables: Seq::empty(),
        target_duration: 0,
        media_sequence: 0,
        end_list: false,
        playlist_type: None,
        i_frames_only: false,
        part_target: None,
        server_control: None,
        skip: None,
        dateranges: Seq::empty(),
        preload_hints: Seq::empty(),
        rendition_reports: Seq::empty(),
    }
}

/// What is in force after a tag: a key, an initialization section or a
/// discontinuity sequence number replaces the one before; no other tag
/// changes anything.
pub open spec fn persistent_step(p: PersistentView, tag: TagView) -> PersistentView {
    match tag {
        TagView::Key(key) => PersistentView { key: Some(key), ..p },
        TagView::InitMap(map) => PersistentView { map: Some(map), ..p },
        TagView::DiscontinuitySequence(n) => PersistentView { discontinuity_sequence: n, ..p },
        _ => p,
    }
}

/// What is said of the next segment after a tag.  A location uses it up.
pub open spec fn pending_step(p: PendingView, tag: TagView) -> PendingView {
    match tag {
        TagView::INF(duration, title) => PendingView { duration, title, ..p },
        TagView::ByteRange(range) => PendingView { byte_range: Some(range), ..p },
        TagView::Discontinuity => PendingView { discontinuity: true, ..p },
        TagView::ProgramDateTime(t) => PendingView { program_date_time: Some(t), ..p },
        TagView::Gap => PendingView { gap: true, ..p },
        TagView::Bitrate(n) => PendingView { bitrate: Some(n), ..p },
        TagView::Part(part) => PendingView { parts: p.parts.push(part), ..p },
        TagView::UnknownTag(name, payload) => PendingView {
            extra_tags: p.extra_tags.push(ExtTagView { tag_name: name, tag_payload: payload }),
            ..p
        },
        TagView::Uri(_) => blank_pending(),
        _ => p,
    }
}

/// The segment that a tag completes: a location makes one of what was said of
/// the segment and of what is in force; no other tag makes one.  No tag gives
/// a media type, so the segment has none.
pub open spec fn committed(persistent: PersistentView, pending: PendingView, tag: TagView) -> Option<
    MediaSegmentView,
> {
    match tag {
        TagView::Uri(uri) => Some(
            MediaSegmentView {
                uri,
                mime_type: None,
                duration: pending.duration,
                title: pending.title,
                byte_range: pending.byte_range,
                discontinuity: pending.discontinuity,
                key: persistent.key,
                map: persistent.map,
                program_date_time: pending.program_date_time,
                gap: pending.gap,
                bitrate: pending.bitrate,
                parts: pending.parts,
                extra_tags: pending.extra_tags,
            },
        ),
        _ => None,
    }
}

/// What is said of the playlist after a tag.
pub open spec fn header_step(h: MediaHeaderView, tag: TagView) -> MediaHeaderView {
    match tag {
        TagView::Version(v) => MediaHeaderView { version: Some(v), ..h },
        TagView::IndependentSegments => MediaHeaderView { independent_segments: true, ..h },
        TagView::Start(s) => MediaHeaderView { start: Some(s), ..h },
        TagView::Define(v) => MediaHeaderView { variables: h.variables.push(v), ..h },
        TagView::TargetDuration(d) => MediaHeaderView { target_duration: d, ..h },
        TagView::MediaSequence(n) => MediaHeaderView { media_sequence: n, ..h },
        TagView::EndList => MediaHeaderView { end_list: true, ..h },
        TagView::PlaylistType(t) => MediaHeaderView { playlist_type: Some(t), ..h },
        TagView::IFramesOnly => MediaHeaderView { i_frames_only: true, ..h },
        TagView::PartInf(d) => MediaHeaderView { part_target: Some(d), ..h },
        TagView::ServerControl(c) => MediaHeaderView { server_control: Some(c), ..h },
        TagView::Skip(s) => MediaHeaderView { skip: Some(s), ..h },
        TagView::DateRange(t) => MediaHeaderView { dateranges: h.dateranges.push(t), ..h },
        TagView::PreloadHint(t) => MediaHeaderView { preload_hints: h.preload_hints.push(t), ..h },
        TagView::RenditionReport(t) => MediaHeaderView {
            rendition_reports: h.rendition_reports.push(t),
            ..h
        },
        _ => h,
    }
}

/// What is in force after all of `tags`.
pub open spec fn persistent_after(tags: Seq<TagView>) -> PersistentView
    decreases tags.len(),
{
    if tags.len() == 0 {
        initial_persistent()
    } else {
        persistent_step(persistent_after(tags.drop_last()), tags.last())
    }
}

/// What is said of the next segment after all of `tags`.
pub open spec fn pending_after(tags: Seq<TagView>) -> PendingView
    decreases tags.len(),
{
    if tags.len() == 0 {
        blank_pending()
    } else {
        pending_step(pending_after(tags.drop_last()), tags.last())
    }
}

/// What is said of the playlist after all of `tags`.
pub open spec fn header_after(tags: Seq<TagView>) -> MediaHeaderView
    decreases tags.len(),
{
    if tags.len() == 0 {
        initial_header()
    } else {
        header_step(header_after(tags.drop_last()), tags.last())
    }
}

/// The segments that `tags` complete, in the order of their locations.
pub open spec fn segments_of(tags: Seq<TagView>) -> Seq<MediaSegmentView>
    decreases tags.len(),
{
    if tags.len() == 0 {
        Seq::empty()
    } else {
        let before = tags.drop_last();
        match committed(persistent_after(before), pending_after(before), tags.last()) {
            Some(segment) => segments_of(before).push(segment),
            None => segments_of(before),
        }
    }
}

/// A list that is there only when it holds something.
pub open spec fn listed(items: Seq<Seq<char>>) -> Option<Seq<Seq<char>>> {
    if items.len() > 0 {
        Some(items)
    } else {
        None
    }
}

/// The media playlist that a tag stream describes.
pub open spec fn media_playlist_of(tags: Seq<TagView>) -> MediaPlaylistView {
    let h = header_after(tags);
    MediaPlaylistView {
        version: h.version,
        independent_segments: h.independent_segments,
        start: h.start,
        variables: h.variables,
        target_duration: h.target_duration,
        media_sequence: h.media_sequence,
        discontinuity_sequence: persistent_after(tags).discontinuity_sequence,
        end_list: h.end_list,
        playlist_type: h.playlist_type,
        i_frames_only: h.i_frames_only,
        part_target: h.part_target,
        server_control: h.server_control,
        segments: segments_of(tags),
        skip: h.skip,
        dateranges: listed(h.dateranges),
        preload_hints: listed(h.preload_hints),
        rendition_reports: listed(h.rendition_reports),
    }
}

/// The locations among `tags`, in order.
pub open spec fn uris_of(tags: Seq<TagView>) -> Seq<Seq<char>>
    decreases tags.len(),
{
    if tags.len() == 0 {
        Seq::empty()
    } else {
        match tags.last() {
            TagView::Uri(uri) => uris_of(tags.drop_last()).push(uri),
            _ => uris_of(tags.drop_last()),
        }
    }
}

impl Persistent {
    /// Nothing in force.
    pub fn new() -> (p: Persistent)
        ensures
            p@ == initial_persistent(),
    {
        Persistent { key: None, map: None, discontinuity_sequence: 0 }
    }
}

impl Pending {
    /// Nothing said of the next segment.
    pub fn new() -> (p: Pending)
        ensures
            p@ == blank_pending(),
    {
        let p = Pending {
            duration: Decimal::from_integer(0),
            title: None,
            byte_range: None,
            discontinuity: false,
            program_date_time: None,
            gap: false,
            bitrate: None,
            parts: Vec::new(),
            extra_tags: Vec::new(),
        };
        assert(views(p.parts@) =~= Seq::<PartialSegmentView>::empty());
        assert(views(p.extra_tags@) =~= Seq::<ExtTagView>::empty());
        p
    }
}

impl MediaHeader {
    /// Nothing said of the playlist.
    pub fn new() -> (h: MediaHeader)
        ensures
            h@ == initial_header(),
    {
        let h = MediaHeader {
            version: None,
            independent_segments: false,
            start: None,
            variables: Vec::new(),
            target_duration: 0,
            media_sequence: 0,
            end_list: false,
            playlist_type: None,
            i_frames_only: false,
            part_target: None,
            server_control: None,
            skip: None,
            dateranges: Vec::new(),
            preload_hints: Vec::new(),
            rendition_reports: Vec::new(),
        };
        assert(views(h.variables@) =~= Seq::<VariableView>::empty());
        assert(views(h.dateranges@) =~= Seq::<Seq<char>>::empty());
        assert(views(h.preload_hints@) =~= Seq::<Seq<char>>::empty());
        assert(views(h.rendition_reports@) =~= Seq::<Seq<char>>::empty());
        h
    }
}

/// A copy of an optional key.
pub fn copy_key_opt(key: &Option<Key>) -> (r: Option<Key>)
    ensures
        r == *key,
{
    match key {
        Some(k) => Some(k.duplicate()),
        None => None,
    }
}

/// A copy of an optional initialization section.
pub fn copy_map_opt(map: &Option<InitMap>) -> (r: Option<InitMap>)
    ensures
        r == *map,
{
    match map {
        Some(m) => Some(m.duplicate()),
        None => None,
    }
}

/// The view of an optional segment.
pub open spec fn segment_opt(s: Option<MediaSegment>) -> Option<MediaSegmentView> {
    match s {
        Some(segment) => Some(segment@),
        None => None,
    }
}

/// Takes one tag into the state of the segments: what is in force, what is
/// said of the next segment, and the segment that the tag completes, if it
/// completes one.
pub fn segment_step(persistent: Persistent, pending: Pending, tag: &Tag) -> (res: (
    Persistent,
    Pending,
    Option<MediaSegment>,
))
    ensures
        res.0@ == persistent_step(persistent@, tag@),
        res.1@ == pending_step(pending@, tag@),
        segment_opt(res.2) == committed(persistent@, pending@, tag@),
{
    let mut persistent = persistent;
    let mut pending = pending;
    match tag {
        Tag::Key(key) => {
            persistent.key = Some(key.duplicate());
            (persistent, pending, None)
        },
        Tag::InitMap(map) => {
            persistent.map = Some(map.duplicate());
            (persistent, pending, None)
        },
        Tag::DiscontinuitySequence(n) => {
            persistent.discontinuity_sequence = *n;
            (persistent, pending, None)
        },
        Tag::INF(duration, title) => {
            pending.duration = *duration;
            pending.title = copy_text_opt(title);
            (persistent, pending, None)
        },
        Tag::ByteRange(range) => {
            pending.byte_range = Some(*range);
            (persistent, pending, None)
        },
        Tag::Discontinuity => {
            pending.discontinuity = true;
            (persistent, pending, None)
        },
        Tag::ProgramDateTime(t) => {
            pending.program_date_time = Some(t.clone());
            (persistent, pending, None)
        },
        Tag::Gap => {
            pending.gap = true;
            (persistent, pending, None)
        },
        Tag::Bitrate(n) => {
            pending.bitrate = Some(*n);
            (persistent, pending, None)
        },
        Tag::Part(part) => {
            let copy = part.duplicate();
            proof {
                lemma_views_push(pending.parts@, copy);
            }
            pending.parts.push(copy);
            (persistent, pending, None)
        },
        Tag::UnknownTag(name, payload) => {
            let kept = ExtTag { tag_name: name.clone(), tag_payload: copy_text_opt(payload) };
            proof {
                lemma_views_push(pending.extra_tags@, kept);
            }
            pending.extra_tags.push(kept);
            (persistent, pending, None)
        },
        Tag::Uri(uri) => {
            let segment = MediaSegment {
                uri: uri.clone(),
                mime_type: None,
                duration: pending.duration,
                title: pending.title,
                byte_range: pending.byte_range,
                discontinuity: pending.discontinuity,
                key: copy_key_opt(&persistent.key),
                map: copy_map_opt(&persistent.map),
                program_date_time: pending.program_date_time,
                gap: pending.gap,
                bitrate: pending.bitrate,
                parts: pending.parts,
                extra_tags: pending.extra_tags,
            };
            (persistent, Pending::new(), Some(segment))
        },
        _ => (persistent, pending, None),
    }
}

/// Takes one tag into what is said of the playlist as a whole.
pub fn apply_to_header(header: MediaHeader, tag: &Tag) -> (res: MediaHeader)
    ensures
        res@ == header_step(header@, tag@),
{
    let mut header = header;
    match tag {
        Tag::Version(v) => {
            header.version = Some(*v);
        },
        Tag::IndependentSegments => {
            header.independent_segments = true;
        },
        Tag::Start(s) => {
            header.start = Some(*s);
        },
        Tag::Define(v) => {
            let copy = v.duplicate();
            proof {
                lemma_views_push(header.variables@, copy);
            }
            header.variables.push(copy);
        },
        Tag::TargetDuration(d) => {
            header.target_duration = *d;
        },
        Tag::MediaSequence(n) => {
            header.media_sequence = *n;
        },
        Tag::EndList => {
            header.end_list = true;
        },
        Tag::PlaylistType(t) => {
            header.playlist_type = Some(*t);
        },
        Tag::IFramesOnly => {
            header.i_frames_only = true;
        },
        Tag::PartInf(d) => {
            header.part_target = Some(*d);
        },
        Tag::ServerControl(c) => {
            header.server_control = Some(*c);
        },
        Tag::Skip(s) => {
            header.skip = Some(*s);
        },
        Tag::DateRange(t) => {
            let copy = t.clone();
            proof {
                lemma_views_push(header.dateranges@, copy);
            }
            header.dateranges.push(copy);
        },
        Tag::PreloadHint(t) => {
            let copy = t.clone();
            proof {
                lemma_views_push(header.preload_hints@, copy);
            }
            header.preload_hints.push(copy);
        },
        Tag::RenditionReport(t) => {
            let copy = t.clone();
            proof {
                lemma_views_push(header.rendition_reports@, copy);
            }
            header.rendition_reports.push(copy);
        },
        _ => {},
    }
    header
}

/// A list, unless it is empty.
pub fn list_opt(items: Vec<String>) -> (res: Option<Vec<String>>)
    ensures
        crate::model::texts_opt(res) == listed(views(items@)),
{
    if items.len() > 0 {
        Some(items)
    } else {
        None
    }
}

/// Assembles the media playlist that a tag stream describes.
///
/// Every location among the tags completes one segment, in order; the
/// segment has what the tags since the location before it said of it, and the
/// key and the initialization section that were in force at its location.
pub fn media_from_tags(tags: &Vec<Tag>) -> (res: Result<MediaPlaylist, ParseError>)
    ensures
        res is Ok,
        res->Ok_0@ == media_playlist_of(views(tags@)),
        res->Ok_0.segments@.len() == uris_of(views(tags@)).len(),
        forall|k: int|
            0 <= k < res->Ok_0.segments@.len() ==> (#[trigger] res->Ok_0.segments@[k]).uri@
                == uris_of(views(tags@))[k],
{
    let ghost all = views(tags@);
    proof {
        lemma_segments_follow_uris(all);
    }
    let mut header = MediaHeader::new();
    let mut persistent = Persistent::new();
    let mut pending = Pending::new();
    let mut segments: Vec<MediaSegment> = Vec::new();
    let mut i: usize = 0;
    assert(all.take(0) =~= Seq::<TagView>::empty());
    assert(views(segments@) =~= Seq::<MediaSegmentView>::empty());
    while i < tags.len()
        invariant
            i <= tags@.len(),
            all == views(tags@),
            header@ == header_after(all.take(i as int)),
            persistent@ == persistent_after(all.take(i as int)),
            pending@ == pending_after(all.take(i as int)),
            views(segments@) == segments_of(all.take(i as int)),
        decreases tags@.len() - i,
    {
        let tag = &tags[i];
        proof {
            assert(all.take(i + 1).drop_last() =~= all.take(i as int));
            assert(all.take(i + 1).last() == tag@);
        }
        header = apply_to_header(header, tag);
        let (next_persistent, next_pending, done) = segment_step(persistent, pending, tag);
        persistent = next_persistent;
        pending = next_pending;
        match done {
            Some(segment) => {
                proof {
                    lemma_views_push(segments@, segment);
                }
                segments.push(segment);
            },
            None => {},
        }
        i += 1;
    }
    assert(all.take(tags@.len() as int) =~= all);
    assert forall|k: int| 0 <= k < segments@.len() implies (#[trigger] segments@[k]).uri@
        == uris_of(all)[k] by {
        assert(views(segments@)[k] == segments@[k]@);
        assert(segments_of(all)[k].uri == uris_of(all)[k]);
    }
    Ok(
        MediaPlaylist {
            version: header.version,
            independent_segments: header.independent_segments,
            start: header.start,
            variables: header.variables,
            target_duration: header.target_duration,
            media_sequence: header.media_sequence,
            discontinuity_sequence: persistent.discontinuity_sequence,
            end_list: header.end_list,
            playlist_type: header.playlist_type,
            i_frames_only: header.i_frames_only,
            part_target: header.part_target,
            server_control: header.server_control,
            segments,
            skip: header.skip,
            dateranges: list_opt(header.dateranges),
            preload_hints: list_opt(header.preload_hints),
            rendition_reports: list_opt(header.rendition_reports),
        },
    )
}

/// A stream has as many segments as locations, and the segments come in the
/// order of the locations.
pub proof fn lemma_segments_follow_uris(tags: Seq<TagView>)
    ensures
        segments_of(tags).len() == uris_of(tags).len(),
        forall|k: int|
            0 <= k < uris_of(tags).len() ==> (#[trigger] segments_of(tags)[k]).uri == uris_of(
                tags,
            )[k],
    decreases tags.len(),
{
    if tags.len() > 0 {
        lemma_segments_follow_uris(tags.drop_last());
    }
}

/// The segments that the first `n` tags complete are the first segments of
/// the whole stream: a later tag changes no segment that is complete.
pub proof fn lemma_segments_prefix(tags: Seq<TagView>, n: int)
    requires
        0 <= n <= tags.len(),
    ensures
        segments_of(tags.take(n)).len() <= segments_of(tags).len(),
        forall|k: int|
            0 <= k < segments_of(tags.take(n)).len() ==> #[trigger] segments_of(tags)[k]
                == segments_of(tags.take(n))[k],
    decreases tags.len() - n,
{
    if n < tags.len() {
        lemma_segments_prefix(tags, n + 1);
        assert(tags.take(n + 1).drop_last() =~= tags.take(n));
    } else {
        assert(tags.take(n) =~= tags);
    }
}

/// The segment of the location at `i` is the one that the location completes
/// from the state that the tags before it left.
pub proof fn lemma_segment_at_uri(tags: Seq<TagView>, i: int)
    requires
        0 <= i < tags.len(),
        tags[i] is Uri,
    ensures
        uris_of(tags.take(i)).len() < segments_of(tags).len(),
        Some(segments_of(tags)[uris_of(tags.take(i)).len() as int]) == committed(
            persistent_after(tags.take(i)),
            pending_after(tags.take(i)),
            tags[i],
        ),
{
    let upto = tags.take(i + 1);
    assert(upto.drop_last() =~= tags.take(i));
    assert(upto.last() == tags[i]);
    lemma_segments_follow_uris(tags.take(i));
    lemma_segments_prefix(tags, i + 1);
    let k = uris_of(tags.take(i)).len() as int;
    assert(segments_of(upto).len() == k + 1);
    assert(segments_of(tags)[k] == segments_of(upto)[k]);
}

/// A key stays in force until the next key.
pub proof fn lemma_key_in_force(tags: Seq<TagView>, j: int, n: int, key: KeyView)
    requires
        0 <= j < n <= tags.len(),
        tags[j] == TagView::Key(key),
        forall|m: int| j < m < n ==> !(#[trigger] tags[m] is Key),
    ensures
        persistent_after(tags.take(n)).key == Some(key),
    decreases n - j,
{
    assert(tags.take(n).drop_last() =~= tags.take(n - 1));
    assert(tags.take(n).last() == tags[n - 1]);
    if n - 1 > j {
        lemma_key_in_force(tags, j, n - 1, key);
    }
}

/// Without a key tag no key is in force.
pub proof fn lemma_no_key_in_force(tags: Seq<TagView>, n: int)
    requires
        0 <= n <= tags.len(),
        forall|m: int| 0 <= m < n ==> !(#[trigger] tags[m] is Key),
    ensures
        persistent_after(tags.take(n)).key is None,
    decreases n,
{
    if n > 0 {
        assert(tags.take(n).drop_last() =~= tags.take(n - 1));
        assert(tags.take(n).last() == tags[n - 1]);
        lemma_no_key_in_force(tags, n - 1);
    }
}

/// An initialization section stays in force until the next one.
pub proof fn lemma_map_in_force(tags: Seq<TagView>, j: int, n: int, map: InitMapView)
    requires
        0 <= j < n <= tags.len(),
        tags[j] == TagView::InitMap(map),
        forall|m: int| j < m < n ==> !(#[trigger] tags[m] is InitMap),
    ensures
        persistent_after(tags.take(n)).map == Some(map),
    decreases n - j,
{
    assert(tags.take(n).drop_last() =~= tags.take(n - 1));
    assert(tags.take(n).last() == tags[n - 1]);
    if n - 1 > j {
        lemma_map_in_force(tags, j, n - 1, map);
    }
}

/// Without an initialization section none is in force.
pub proof fn lemma_no_map_in_force(tags: Seq<TagView>, n: int)
    requires
        0 <= n <= tags.len(),
        forall|m: int| 0 <= m < n ==> !(#[trigger] tags[m] is InitMap),
    ensures
        persistent_after(tags.take(n)).map is None,
    decreases n,
{
    if n > 0 {
        assert(tags.take(n).drop_last() =~= tags.take(n - 1));
        assert(tags.take(n).last() == tags[n - 1]);
        lemma_no_map_in_force(tags, n - 1);
    }
}

/// The index, among the segments, of the segment that the location at `i`
/// completes.
pub open spec fn segment_index(tags: Seq<TagView>, i: int) -> int {
    uris_of(tags.take(i)).len() as int
}

/// Every segment whose location comes after a key tag and before the next
/// key tag reports that key.
pub proof fn lemma_key_carries_over(tags: Seq<TagView>, j: int, i: int, key: KeyView)
    requires
        0 <= j < i < tags.len(),
        tags[j] == TagView::Key(key),
        forall|m: int| j < m < i ==> !(#[trigger] tags[m] is Key),
        tags[i] is Uri,
    ensures
        0 <= segment_index(tags, i) < segments_of(tags).len(),
        segments_of(tags)[segment_index(tags, i)].key == Some(key),
{
    lemma_segment_at_uri(tags, i);
    lemma_key_in_force(tags, j, i, key);
}

/// Every segment whose location comes before the first key tag reports no
/// key.
pub proof fn lemma_no_key_before_first(tags: Seq<TagView>, i: int)
    requires
        0 <= i < tags.len(),
        forall|m: int| 0 <= m < i ==> !(#[trigger] tags[m] is Key),
        tags[i] is Uri,
    ensures
        0 <= segment_index(tags, i) < segments_of(tags).len(),
        segments_of(tags)[segment_index(tags, i)].key is None,
{
    lemma_segment_at_uri(tags, i);
    lemma_no_key_in_force(tags, i);
}

/// Every segment whose location comes after an initialization section and
/// before the next one reports that section.
pub proof fn lemma_map_carries_over(tags: Seq<TagView>, j: int, i: int, map: InitMapView)
    requires
        0 <= j < i < tags.len(),
        tags[j] == TagView::InitMap(map),
        forall|m: int| j < m < i ==> !(#[trigger] tags[m] is InitMap),
        tags[i] is Uri,
    ensures
        0 <= segment_index(tags, i) < segments_of(tags).len(),
        segments_of(tags)[segment_index(tags, i)].map == Some(map),
{
    lemma_segment_at_uri(tags, i);
    lemma_map_in_force(tags, j, i, map);
}

/// Every segment whose location comes before the first initialization
/// section reports none.
pub proof fn lemma_no_map_before_first(tags: Seq<TagView>, i: int)
    requires
        0 <= i < tags.len(),
        forall|m: int| 0 <= m < i ==> !(#[trigger] tags[m] is InitMap),
        tags[i] is Uri,
    ensures
        0 <= segment_index(tags, i) < segments_of(tags).len(),
        segments_of(tags)[segment_index(tags, i)].map is None,
{
    lemma_segment_at_uri(tags, i);
    lemma_no_map_in_force(tags, i);
}

} // verus!
