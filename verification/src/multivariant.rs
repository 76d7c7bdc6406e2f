use vstd::prelude::*;
use vstd::string::*;
use crate::error::{ParseError, ParseErrorView};
use crate::model::{
    lemma_views_push, views, MultivariantPlaylist, MultivariantPlaylistView, Rendition,
    RenditionGroup, RenditionGroupView, RenditionType, RenditionView, Start, StreamInf,
    StreamInfView, Variable, VariableView, VariantStream, VariantStreamView,
};
use crate::tag::{result_view, Tag, TagView};
use crate::text::same_text;

verus! {

/// What the tags read so far say of a multivariant playlist.
#[derive(Clone, Debug, PartialEq, Eq)]
pub struct Variants {
    pub version: Option<u32>,
    pub independent_segments: bool,
    pub start: Option<Start>,
    pub variables: Vec<Variable>,
    /// The attributes of a variant stream whose location has not come yet.
    pub pending: Option<StreamInf>,
    pub variants: Vec<VariantStream>,
    pub i_frame_variants: Vec<VariantStream>,
    pub renditions: Vec<RenditionGroup>,
}

/// The mathematical view of `Variants`: texts and lists as sequences.
pub struct VariantsView {
    pub version: Option<u32>,
    pub independent_segments: bool,
    pub start: Option<Start>,
    pub variables: Seq<VariableView>,
    pub pending: Option<StreamInfView>,
    pub variants: Seq<VariantStreamView>,
    pub i_frame_variants: Seq<VariantStreamView>,
    pub renditions: Seq<RenditionGroupView>,
}

/// The view of optional stream attributes.
pub open spec fn stream_opt(s: Option<StreamInf>) -> Option<StreamInfView> {
    match s {
        Some(stream) => Some(stream@),
        None => None,
    }
}

impl View for Variants {
    type V = VariantsView;

    open spec fn view(&self) -> VariantsView {
        VariantsView {
            version: self.version,
            independent_segments: self.independent_segments,
            start: self.start,
            variables: views(self.variables@),
            pending: stream_opt(self.pending),
            variants: views(self.variants@),
            i_frame_variants: views(self.i_frame_variants@),
            renditions: views(self.renditions@),
        }
    }
}

/// Whether a group is the one of that type and identifier.
pub open spec fn is_group(group: RenditionGroupView, kind: RenditionType, id: Seq<char>) -> bool {
    group.media_type == kind && group.group_id == id
}

/// The position of the first group of that type and identifier; the number
/// of groups when there is none.
pub open spec fn group_position(
    groups: Seq<RenditionGroupView>,
    kind: RenditionType,
    id: Seq<char>,
) -> int
    decreases groups.len(),
{
    if groups.len() == 0 {
        0
    } else {
        let before = group_position(groups.drop_last(), kind, id);
        if before < groups.len() - 1 || is_group(groups.last(), kind, id) {
            before
        } else {
            groups.len() as int
        }
    }
}

/// The groups with one more rendition: it joins the group of its type and
/// identifier, at the end, or starts that group after the others.
pub open spec fn add_rendition(groups: Seq<RenditionGroupView>, r: RenditionView) -> Seq<
    RenditionGroupView,
> {
    let at = group_position(groups, r.media_type, r.group_id);
    if 0 <= at < groups.len() {
        groups.update(
            at,
            RenditionGroupView { renditions: groups[at].renditions.push(r), ..groups[at] },
        )
    } else {
        groups.push(
            RenditionGroupView {
                media_type: r.media_type,
                group_id: r.group_id,
                renditions: seq![r],
            },
        )
    }
}

/// No two groups have the same type and identifier.
pub open spec fn distinct_groups(groups: Seq<RenditionGroupView>) -> bool {
    forall|i: int, j: int|
        0 <= i < j < groups.len() ==> !is_group(
            #[trigger] groups[j],
            (#[trigger] groups[i]).media_type,
            groups[i].group_id,
        )
}

/// Nothing said yet.
pub open spec fn initial_variants() -> VariantsView {
    VariantsView {
        version: None,
        independent_segments: false,
        start: None,
        variables: Seq::empty(),
        pending: None,
        variants: Seq::empty(),
        i_frame_variants: Seq::empty(),
        renditions: Seq::empty(),
    }
}

/// The state after one more tag; `None` when the tag leaves the attributes of
/// a variant stream without a location.
///
/// The attributes of a variant stream wait for the next location, and the two
/// make a variant.  A location that no attributes wait for is passed over.
pub open spec fn variants_step(s: VariantsView, tag: TagView) -> Option<VariantsView> {
    match tag {
        TagView::StreamInf(stream) => if s.pending is Some {
            None
        } else {
            Some(VariantsView { pending: Some(stream), ..s })
        },
        TagView::Uri(uri) => match s.pending {
            Some(stream) => Some(
                VariantsView {
                    pending: None,
                    variants: s.variants.push(VariantStreamView { uri, stream }),
                    ..s
                },
            ),
            None => Some(s),
        },
        TagView::IFrameStreamInf(v) => Some(
            VariantsView { i_frame_variants: s.i_frame_variants.push(v), ..s },
        ),
        TagView::Media(r) => Some(VariantsView { renditions: add_rendition(s.renditions, r), ..s }),
        TagView::Version(v) => Some(VariantsView { version: Some(v), ..s }),
        TagView::IndependentSegments => Some(VariantsView { independent_segments: true, ..s }),
        TagView::Start(start) => Some(VariantsView { start: Some(start), ..s }),
        TagView::Define(v) => Some(VariantsView { variables: s.variables.push(v), ..s }),
        _ => Some(s),
    }
}

/// The state after all of `tags`.
pub open spec fn variants_after(tags: Seq<TagView>) -> Option<VariantsView>
    decreases tags.len(),
{
    if tags.len() == 0 {
        Some(initial_variants())
    } else {
        match variants_after(tags.drop_last()) {
            Some(s) => variants_step(s, tags.last()),
            None => None,
        }
    }
}

/// The multivariant playlist that a tag stream describes.  It describes none
/// when the attributes of a variant stream are left without a location.
pub open spec fn multivariant_playlist_of(tags: Seq<TagView>) -> Result<
    MultivariantPlaylistView,
    ParseErrorView,
> {
    match variants_after(tags) {
        Some(s) => if s.pending is Some {
            Err(ParseErrorView::UnassociatedVariantAttributes)
        } else {
            Ok(
                MultivariantPlaylistView {
                    version: s.version,
                    independent_segments: s.independent_segments,
                    start: s.start,
                    variables: s.variables,
                    variants: s.variants,
                    i_frame_variants: s.i_frame_variants,
                    renditions: s.renditions,
                },
            )
        },
        None => Err(ParseErrorView::UnassociatedVariantAttributes),
    }
}

/// The position that `group_position` gives is in range, no group before it
/// is the one looked for, and the group at it is.
pub proof fn lemma_group_position(groups: Seq<RenditionGroupView>, kind: RenditionType, id: Seq<char>)
    ensures
        0 <= group_position(groups, kind, id) <= groups.len(),
        forall|i: int|
            0 <= i < group_position(groups, kind, id) ==> !is_group(#[trigger] groups[i], kind, id),
        group_position(groups, kind, id) < groups.len() ==> is_group(
            groups[group_position(groups, kind, id)],
            kind,
            id,
        ),
    decreases groups.len(),
{
    if groups.len() > 0 {
        let before = groups.drop_last();
        lemma_group_position(before, kind, id);
        assert forall|i: int| 0 <= i < group_position(groups, kind, id) implies !is_group(
            #[trigger] groups[i],
            kind,
            id,
        ) by {
            if i < before.len() {
                assert(groups[i] == before[i]);
            }
        }
    }
}

/// A position that bounds a run of other groups and holds the group looked
/// for, or is the end, is the one that `group_position` gives.
pub proof fn lemma_group_position_unique(
    groups: Seq<RenditionGroupView>,
    kind: RenditionType,
    id: Seq<char>,
    at: int,
)
    requires
        0 <= at <= groups.len(),
        forall|i: int| 0 <= i < at ==> !is_group(#[trigger] groups[i], kind, id),
        at < groups.len() ==> is_group(groups[at], kind, id),
    ensures
        group_position(groups, kind, id) == at,
{
    lemma_group_position(groups, kind, id);
}

/// Adding a rendition keeps the groups distinct.
pub proof fn lemma_add_rendition_distinct(groups: Seq<RenditionGroupView>, r: RenditionView)
    requires
        distinct_groups(groups),
    ensures
        distinct_groups(add_rendition(groups, r)),
{
    lemma_group_position(groups, r.media_type, r.group_id);
    let after = add_rendition(groups, r);
    let at = group_position(groups, r.media_type, r.group_id);
    assert forall|i: int, j: int| 0 <= i < j < after.len() implies !is_group(
        #[trigger] after[j],
        (#[trigger] after[i]).media_type,
        after[i].group_id,
    ) by {
        if at < groups.len() {
            assert(after[i].media_type == groups[i].media_type);
            assert(after[i].group_id == groups[i].group_id);
            assert(after[j].media_type == groups[j].media_type);
            assert(after[j].group_id == groups[j].group_id);
        } else {
            if j < groups.len() {
                assert(after[i] == groups[i]);
                assert(after[j] == groups[j]);
            } else {
                assert(after[i] == groups[i]);
                assert(!is_group(groups[i], r.media_type, r.group_id));
            }
        }
    }
}

/// The groups of a multivariant playlist are distinct.
pub proof fn lemma_groups_distinct(tags: Seq<TagView>)
    ensures
        variants_after(tags) matches Some(s) ==> distinct_groups(s.renditions),
    decreases tags.len(),
{
    if tags.len() > 0 {
        lemma_groups_distinct(tags.drop_last());
        match variants_after(tags.drop_last()) {
            Some(s) => {
                match tags.last() {
                    TagView::Media(r) => {
                        lemma_add_rendition_distinct(s.renditions, r);
                    },
                    _ => {},
                }
            },
            None => {},
        }
    }
}

/// Attributes of a variant stream that no location follows leave the stream
/// without a playlist.
pub proof fn lemma_unassociated_fails(tags: Seq<TagView>, j: int)
    requires
        0 <= j < tags.len(),
        tags[j] is StreamInf,
        forall|m: int| j < m < tags.len() ==> !(#[trigger] tags[m] is Uri),
    ensures
        multivariant_playlist_of(tags) == Err::<MultivariantPlaylistView, ParseErrorView>(
            ParseErrorView::UnassociatedVariantAttributes,
        ),
{
    lemma_pending_stays(tags, j, tags.len() as int);
    assert(tags.take(tags.len() as int) =~= tags);
}

/// After the attributes of a variant stream, and until a location comes, the
/// state is lost or still waits.
pub proof fn lemma_pending_stays(tags: Seq<TagView>, j: int, n: int)
    requires
        0 <= j < n <= tags.len(),
        tags[j] is StreamInf,
        forall|m: int| j < m < n ==> !(#[trigger] tags[m] is Uri),
    ensures
        variants_after(tags.take(n)) matches Some(s) ==> s.pending is Some,
    decreases n - j,
{
    assert(tags.take(n).drop_last() =~= tags.take(n - 1));
    assert(tags.take(n).last() == tags[n - 1]);
    if n - 1 > j {
        lemma_pending_stays(tags, j, n - 1);
    }
}

impl Variants {
    /// Nothing said yet.
    pub fn new() -> (s: Variants)
        ensures
            s@ == initial_variants(),
    {
        let s = Variants {
            version: None,
            independent_segments: false,
            start: None,
            variables: Vec::new(),
            pending: None,
            variants: Vec::new(),
            i_frame_variants: Vec::new(),
            renditions: Vec::new(),
        };
        assert(views(s.variables@) =~= Seq::<VariableView>::empty());
        assert(views(s.variants@) =~= Seq::<VariantStreamView>::empty());
        assert(views(s.i_frame_variants@) =~= Seq::<VariantStreamView>::empty());
        assert(views(s.renditions@) =~= Seq::<RenditionGroupView>::empty());
        s
    }
}

/// Whether two rendition types are the same.
pub fn same_type(a: RenditionType, b: RenditionType) -> (same: bool)
    ensures
        same == (a == b),
{
    match (a, b) {
        (RenditionType::Audio, RenditionType::Audio) => true,
        (RenditionType::Video, RenditionType::Video) => true,
        (RenditionType::Subtitles, RenditionType::Subtitles) => true,
        (RenditionType::ClosedCaptions, RenditionType::ClosedCaptions) => true,
        _ => false,
    }
}

/// Finds the group of that type and identifier.
pub fn find_group(groups: &Vec<RenditionGroup>, kind: RenditionType, id: &str) -> (at: usize)
    ensures
        at == group_position(views(groups@), kind, id@),
        at <= groups@.len(),
{
    let ghost all = views(groups@);
    let mut i: usize = 0;
    while i < groups.len()
        invariant
            i <= groups@.len(),
            all == views(groups@),
            forall|k: int| 0 <= k < i ==> !is_group(#[trigger] all[k], kind, id@),
        decreases groups@.len() - i,
    {
        assert(all[i as int] == groups@[i as int]@);
        if same_type(groups[i].media_type, kind) && same_text(groups[i].group_id.as_str(), id) {
            proof {
                lemma_group_position_unique(all, kind, id@, i as int);
            }
            return i;
        }
        i += 1;
    }
    proof {
        lemma_group_position_unique(all, kind, id@, i as int);
    }
    i
}

/// Puts a rendition into the group of its type and identifier.
pub fn insert_rendition(groups: &mut Vec<RenditionGroup>, r: Rendition)
    ensures
        views(final(groups)@) == add_rendition(views(old(groups)@), r@),
{
    let ghost before = views(groups@);
    let at = find_group(groups, r.media_type, r.group_id.as_str());
    if at < groups.len() {
        let mut group = groups.remove(at);
        proof {
            lemma_views_push(group.renditions@, r);
        }
        group.renditions.push(r);
        groups.insert(at, group);
        assert(views(groups@) =~= add_rendition(before, r@));
    } else {
        let mut renditions: Vec<Rendition> = Vec::new();
        let media_type = r.media_type;
        let group_id = r.group_id.clone();
        renditions.push(r);
        let group = RenditionGroup { media_type, group_id, renditions };
        assert(views(group.renditions@) =~= seq![r@]);
        proof {
            lemma_views_push(groups@, group);
        }
        groups.push(group);
    }
}

/// The view of an optional state.
pub open spec fn variants_opt(s: Option<Variants>) -> Option<VariantsView> {
    match s {
        Some(state) => Some(state@),
        None => None,
    }
}

/// Takes one tag into the state of a multivariant playlist.
pub fn advance_variants(state: Variants, tag: &Tag) -> (res: Option<Variants>)
    ensures
        variants_opt(res) == variants_step(state@, tag@),
{
    let mut state = state;
    match tag {
        Tag::StreamInf(stream) => {
            if state.pending.is_some() {
                return None;
            }
            state.pending = Some(stream.duplicate());
        },
        Tag::Uri(uri) => {
            match state.pending.take() {
                Some(stream) => {
                    let variant = VariantStream { uri: uri.clone(), stream };
                    proof {
                        lemma_views_push(state.variants@, variant);
                    }
                    state.variants.push(variant);
                },
                None => {},
            }
        },
        Tag::IFrameStreamInf(v) => {
            let variant = v.duplicate();
            proof {
                lemma_views_push(state.i_frame_variants@, variant);
            }
            state.i_frame_variants.push(variant);
        },
        Tag::Media(r) => {
            insert_rendition(&mut state.renditions, r.duplicate());
        },
        Tag::Version(v) => {
            state.version = Some(*v);
        },
        Tag::IndependentSegments => {
            state.independent_segments = true;
        },
        Tag::Start(s) => {
            state.start = Some(*s);
        },
        Tag::Define(v) => {
            let copy = v.duplicate();
            proof {
                lemma_views_push(state.variables@, copy);
            }
            state.variables.push(copy);
        },
        _ => {},
    }
    Some(state)
}

/// Assembles the multivariant playlist that a tag stream describes.
///
/// Fails when the attributes of a variant stream are followed by other such
/// attributes, or by the end, before a location.  The groups that come out
/// are distinct.
pub fn multivariant_from_tags(tags: &Vec<Tag>) -> (res: Result<MultivariantPlaylist, ParseError>)
    ensures
        result_view(res) == multivariant_playlist_of(views(tags@)),
        res matches Ok(playlist) ==> distinct_groups(views(playlist.renditions@)),
        res matches Err(e) ==> e == ParseError::UnassociatedVariantAttributes,
{
    let ghost all = views(tags@);
    let mut state = Variants::new();
    let mut i: usize = 0;
    assert(all.take(0) =~= Seq::<TagView>::empty());
    while i < tags.len()
        invariant
            i <= tags@.len(),
            all == views(tags@),
            variants_after(all.take(i as int)) == Some(state@),
        decreases tags@.len() - i,
    {
        let tag = &tags[i];
        proof {
            assert(all.take(i + 1).drop_last() =~= all.take(i as int));
            assert(all.take(i + 1).last() == tag@);
        }
        match advance_variants(state, tag) {
            Some(next) => {
                state = next;
            },
            None => {
                proof {
                    lemma_variants_lost(all, i + 1);
                }
                return Err(ParseError::UnassociatedVariantAttributes);
            },
        }
        i += 1;
    }
    proof {
        assert(all.take(tags@.len() as int) =~= all);
        lemma_groups_distinct(all);
    }
    if state.pending.is_some() {
        return Err(ParseError::UnassociatedVariantAttributes);
    }
    Ok(
        MultivariantPlaylist {
            version: state.version,
            independent_segments: state.independent_segments,
            start: state.start,
            variables: state.variables,
            variants: state.variants,
            i_frame_variants: state.i_frame_variants,
            renditions: state.renditions,
        },
    )
}

/// A state that is lost stays lost.
pub proof fn lemma_variants_lost(tags: Seq<TagView>, n: int)
    requires
        0 <= n <= tags.len(),
        variants_after(tags.take(n)) is None,
    ensures
        variants_after(tags) is None,
    decreases tags.len() - n,
{
    if n < tags.len() {
        assert(tags.take(n + 1).drop_last() =~= tags.take(n));
        lemma_variants_lost(tags, n + 1);
    } else {
        assert(tags.take(n) =~= tags);
    }
}

} // verus!
