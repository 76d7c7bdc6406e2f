use vstd::prelude::*;
use crate::error::{ParseError, ParseErrorView};
use crate::model::views;
use crate::tag::{Tag, TagView};

verus! {

/// The two kinds of playlist.
#[derive(Clone, Copy, Debug, PartialEq, Eq)]
pub enum PlaylistKind {
    Media,
    Multivariant,
}

/// Whether, after the tags of `tags`, the attributes of a variant stream
/// wait for the location that completes them.
pub open spec fn variant_pending(tags: Seq<TagView>) -> bool
    decreases tags.len(),
{
    if tags.len() == 0 {
        false
    } else {
        match tags.last() {
            TagView::StreamInf(_) => true,
            TagView::Uri(_) => false,
            _ => variant_pending(tags.drop_last()),
        }
    }
}

/// Whether a tag belongs to media playlists only, wherever it stands.
pub open spec fn is_media_tag(tag: TagView) -> bool {
    ||| tag is TargetDuration
    ||| tag is MediaSequence
    ||| tag is PlaylistType
    ||| tag is DiscontinuitySequence
    ||| tag is INF
    ||| tag is EndList
}

/// Whether the tag at `i` marks a media playlist: a tag of media playlists
/// only, or a key or an initialization section that does not stand between
/// the attributes of a variant stream and its location.
pub open spec fn is_media_marker(tags: Seq<TagView>, i: int) -> bool {
    ||| is_media_tag(tags[i])
    ||| ((tags[i] is Key || tags[i] is InitMap) && !variant_pending(tags.take(i)))
}

/// Whether a tag marks a multivariant playlist.
pub open spec fn is_multivariant_tag(tag: TagView) -> bool {
    tag is StreamInf || tag is IFrameStreamInf || tag is Media
}

/// Whether some tag marks a media playlist.
pub open spec fn has_media_marker(tags: Seq<TagView>) -> bool {
    exists|i: int| 0 <= i < tags.len() && is_media_marker(tags, i)
}

/// Whether some tag marks a multivariant playlist.
pub open spec fn has_multivariant_marker(tags: Seq<TagView>) -> bool {
    exists|i: int| 0 <= i < tags.len() && is_multivariant_tag(#[trigger] tags[i])
}

/// The kind of playlist that a tag stream is.  Markers of both kinds make it
/// ambiguous; without any marker it is a media playlist.
pub open spec fn kind_of(tags: Seq<TagView>) -> Result<PlaylistKind, ParseErrorView> {
    if has_media_marker(tags) && has_multivariant_marker(tags) {
        Err(ParseErrorView::AmbiguousPlaylistType)
    } else if has_multivariant_marker(tags) {
        Ok(PlaylistKind::Multivariant)
    } else {
        Ok(PlaylistKind::Media)
    }
}

/// Whether the tag stream holds a tag that marks a multivariant playlist.
pub fn is_multivariant_manifest(tags: &Vec<Tag>) -> (res: bool)
    ensures
        res == has_multivariant_marker(views(tags@)),
{
    let ghost all = views(tags@);
    let mut i: usize = 0;
    while i < tags.len()
        invariant
            i <= tags@.len(),
            all == views(tags@),
            forall|j: int| 0 <= j < i ==> !is_multivariant_tag(#[trigger] all[j]),
        decreases tags@.len() - i,
    {
        assert(all[i as int] == tags@[i as int]@);
        match &tags[i] {
            Tag::StreamInf(_) | Tag::IFrameStreamInf(_) | Tag::Media(_) => {
                return true;
            },
            _ => {},
        }
        i += 1;
    }
    false
}

/// Whether the tag stream holds a tag that marks a media playlist.
pub fn is_media_manifest(tags: &Vec<Tag>) -> (res: bool)
    ensures
        res == has_media_marker(views(tags@)),
{
    let ghost all = views(tags@);
    let mut pending = false;
    let mut i: usize = 0;
    assert(all.take(0) =~= Seq::<TagView>::empty());
    while i < tags.len()
        invariant
            i <= tags@.len(),
            all == views(tags@),
            pending == variant_pending(all.take(i as int)),
            forall|j: int| 0 <= j < i ==> !is_media_marker(all, j),
        decreases tags@.len() - i,
    {
        proof {
            assert(all[i as int] == tags@[i as int]@);
            assert(all.take(i + 1).drop_last() =~= all.take(i as int));
            assert(all.take(i + 1).last() == all[i as int]);
        }
        match &tags[i] {
            Tag::TargetDuration(_) | Tag::MediaSequence(_) | Tag::PlaylistType(_)
            | Tag::DiscontinuitySequence(_) | Tag::INF(_, _) | Tag::EndList => {
                assert(is_media_marker(all, i as int));
                return true;
            },
            Tag::Key(_) | Tag::InitMap(_) => {
                if !pending {
                    assert(is_media_marker(all, i as int));
                    return true;
                }
            },
            Tag::StreamInf(_) => {
                pending = true;
            },
            Tag::Uri(_) => {
                pending = false;
            },
            _ => {},
        }
        i += 1;
    }
    false
}

/// Decides which kind of playlist a tag stream is.
pub fn classify_playlist(tags: &Vec<Tag>) -> (res: Result<PlaylistKind, ParseError>)
    ensures
        match res {
            Ok(kind) => kind_of(views(tags@)) == Ok::<PlaylistKind, ParseErrorView>(kind),
            Err(e) => kind_of(views(tags@)) == Err::<PlaylistKind, ParseErrorView>(e@),
        },
        res matches Err(e) ==> e == ParseError::AmbiguousPlaylistType,
{
    let multivariant = is_multivariant_manifest(tags);
    if multivariant {
        if is_media_manifest(tags) {
            Err(ParseError::AmbiguousPlaylistType)
        } else {
            Ok(PlaylistKind::Multivariant)
        }
    } else {
        Ok(PlaylistKind::Media)
    }
}

/// A tag stream is of one kind at most: it is a multivariant playlist only
/// without a marker of media playlists, a media playlist only without a
/// marker of multivariant playlists, and never both.
pub proof fn lemma_kinds_exclude(tags: Seq<TagView>)
    ensures
        kind_of(tags) == Ok::<PlaylistKind, ParseErrorView>(PlaylistKind::Multivariant) ==> (
        has_multivariant_marker(tags) && !has_media_marker(tags)),
        kind_of(tags) == Ok::<PlaylistKind, ParseErrorView>(PlaylistKind::Media)
            ==> !has_multivariant_marker(tags),
        kind_of(tags) is Err <==> (has_media_marker(tags) && has_multivariant_marker(tags)),
{
}

/// A tag stream with a target duration and the attributes of a variant
/// stream is ambiguous.
pub proof fn lemma_mixed_is_ambiguous(tags: Seq<TagView>, i: int, j: int)
    requires
        0 <= i < tags.len(),
        0 <= j < tags.len(),
        tags[i] is TargetDuration,
        tags[j] is StreamInf,
    ensures
        kind_of(tags) == Err::<PlaylistKind, ParseErrorView>(ParseErrorView::AmbiguousPlaylistType),
{
    assert(is_media_marker(tags, i));
    assert(is_multivariant_tag(tags[j]));
}

} // verus!
