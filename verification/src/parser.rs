use vstd::prelude::*;
use vstd::string::*;
use vstd::utf8::*;
use crate::classify::{classify_playlist, kind_of, PlaylistKind};
use crate::line::{
    classify_line, is_uri_line, line_kind, lines_of, split_lines, Line, LineView,
};
use crate::media::{lemma_segments_follow_uris, media_playlist_of, uris_of};
use crate::model::{lemma_views_push, views, MediaPlaylistView, PlaylistView, VariableView};
use crate::multivariant::multivariant_playlist_of;
use crate::tag::{parse_line, plain_tag_of, record_tag_of, result_view, tag_of, tag_of_line, TagView};
use crate::text::{chars_of, decode, non_empty, text_of};
use crate::vars::{lookup, lookup_value, Binding, BindingView};

pub use crate::classify::is_multivariant_manifest;
pub use crate::error::{Diagnostic, DiagnosticView, ParseError, ParseErrorView, Reason};
pub use crate::media::media_from_tags;
pub use crate::model::{
    ByteRange, ExtTag, InitMap, Key, KeyMethod, MediaPlaylist, MediaPlaylistType, MediaSegment,
    MultivariantPlaylist, PartialSegment, Playlist, Rendition, RenditionGroup, RenditionType,
    ServerControl, Skip, Start, StreamInf, Variable, VariantStream,
};
pub use crate::multivariant::multivariant_from_tags;
pub use crate::number::{Decimal, Resolution};
pub use crate::tag::{parse_tag, Tag};
pub use crate::text::no_empty_str;

verus! {

/// How to parse: strictly or leniently, and with which imported variables.
#[derive(Clone, Debug, PartialEq, Eq)]
pub struct ParseOptions {
    /// Whether the first tag that is not accepted ends the parse.  When not,
    /// such a tag is kept as an unknown tag and a diagnostic records it.
    pub strict: bool,
    /// The variables that the manifest may import, with their values.
    pub imports: Vec<Binding>,
}

/// A playlist, and what was unusual about its manifest.
#[derive(Clone, Debug, PartialEq, Eq)]
pub struct Parsed {
    pub playlist: Playlist,
    pub diagnostics: Vec<Diagnostic>,
}

/// The mathematical view of `Parsed`: texts and lists as sequences.
pub struct ParsedView {
    pub playlist: PlaylistView,
    pub diagnostics: Seq<DiagnosticView>,
}

impl View for Parsed {
    type V = ParsedView;

    open spec fn view(&self) -> ParsedView {
        ParsedView { playlist: self.playlist@, diagnostics: views(self.diagnostics@) }
    }
}

/// What reading the lines of a manifest has given so far.
pub struct Scan {
    /// One tag for each line, in order.
    pub tags: Seq<TagView>,
    /// The variables that have a value.
    pub bindings: Seq<BindingView>,
    /// The tags that were not accepted.
    pub diagnostics: Seq<DiagnosticView>,
}

/// The variables after a tag.  A definition adds its variable; an import
/// adds the variable with the value it was given from outside, and fails when
/// it was given none.
pub open spec fn bind(bindings: Seq<BindingView>, imports: Seq<BindingView>, tag: TagView) -> Result<
    Seq<BindingView>,
    ParseErrorView,
> {
    match tag {
        TagView::Define(VariableView::Name(name, value)) => Ok(
            bindings.push(BindingView { name, value }),
        ),
        TagView::Define(VariableView::Import(name)) => match lookup(imports, name) {
            Some(value) => Ok(bindings.push(BindingView { name, value })),
            None => Err(ParseErrorView::UnresolvedVariable { name }),
        },
        _ => Ok(bindings),
    }
}

/// The unknown tag that stands for a tag that was not accepted.
pub open spec fn kept_tag(line: Seq<char>) -> TagView {
    match line_kind(line) {
        LineView::Directive(name, payload) => TagView::UnknownTag(name, non_empty(payload)),
        _ => TagView::Comment(line),
    }
}

/// What one more line gives.  Its tag is read with the variables defined
/// before it.  An error that concerns the tag alone ends a strict parse; a
/// lenient parse keeps the tag as an unknown tag and records the error with
/// the number of the line.  Any other error ends the parse.
pub open spec fn scan_step(
    s: Scan,
    line: Seq<char>,
    index: int,
    strict: bool,
    imports: Seq<BindingView>,
) -> Result<Scan, ParseErrorView> {
    match tag_of_line(line, s.bindings) {
        Ok(tag) => match bind(s.bindings, imports, tag) {
            Ok(bindings) => Ok(Scan { tags: s.tags.push(tag), bindings, diagnostics: s.diagnostics }),
            Err(e) => Err(e),
        },
        Err(e) => if e.is_tag_local() && !strict {
            Ok(
                Scan {
                    tags: s.tags.push(kept_tag(line)),
                    bindings: s.bindings,
                    diagnostics: s.diagnostics.push(
                        DiagnosticView::TagRejected { line: index as usize, error: e },
                    ),
                },
            )
        } else {
            Err(e)
        },
    }
}

/// What the lines of a manifest give, read in order.
pub open spec fn scan(lines: Seq<Seq<char>>, strict: bool, imports: Seq<BindingView>) -> Result<
    Scan,
    ParseErrorView,
>
    decreases lines.len(),
{
    if lines.len() == 0 {
        Ok(Scan { tags: Seq::empty(), bindings: Seq::empty(), diagnostics: Seq::empty() })
    } else {
        match scan(lines.drop_last(), strict, imports) {
            Ok(s) => scan_step(s, lines.last(), lines.len() - 1, strict, imports),
            Err(e) => Err(e),
        }
    }
}

/// The position of the first tag at or after `from` that is not a comment;
/// the number of tags when there is none.
pub open spec fn first_content(tags: Seq<TagView>, from: int) -> int
    decreases tags.len() - from,
{
    if from >= tags.len() {
        tags.len() as int
    } else if from >= 0 && !(tags[from] is Comment) {
        from
    } else {
        first_content(tags, from + 1)
    }
}

/// Whether the manifest starts with the format marker.
pub open spec fn has_header(tags: Seq<TagView>) -> bool {
    first_content(tags, 0) < tags.len() && tags[first_content(tags, 0)] is EXTM3U
}

/// The position of the first tag at or after `from` that ends the list; the
/// number of tags when there is none.
pub open spec fn first_end_list(tags: Seq<TagView>, from: int) -> int
    decreases tags.len() - from,
{
    if from >= tags.len() {
        tags.len() as int
    } else if from >= 0 && tags[from] is EndList {
        from
    } else {
        first_end_list(tags, from + 1)
    }
}

/// The line of the first content after the list was ended, if there is any.
pub open spec fn content_after_end(tags: Seq<TagView>) -> Option<int> {
    let end = first_end_list(tags, 0);
    if end < tags.len() && first_content(tags, end + 1) < tags.len() {
        Some(first_content(tags, end + 1))
    } else {
        None
    }
}

/// The playlist of a tag stream of a given kind.
pub open spec fn playlist_of(tags: Seq<TagView>, kind: PlaylistKind) -> Result<
    PlaylistView,
    ParseErrorView,
> {
    match kind {
        PlaylistKind::Media => Ok(PlaylistView::Media(media_playlist_of(tags))),
        PlaylistKind::Multivariant => match multivariant_playlist_of(tags) {
            Ok(p) => Ok(PlaylistView::Multivariant(p)),
            Err(e) => Err(e),
        },
    }
}

/// Whether, after `tags`, a duration waits for the location of its segment.
pub open spec fn duration_pending(tags: Seq<TagView>) -> bool
    decreases tags.len(),
{
    if tags.len() == 0 {
        false
    } else {
        match tags.last() {
            TagView::INF(_, _) => true,
            TagView::Uri(_) => false,
            _ => duration_pending(tags.drop_last()),
        }
    }
}

/// One diagnostic for each location that no duration waits for, in order.
pub open spec fn unmeasured(tags: Seq<TagView>) -> Seq<DiagnosticView>
    decreases tags.len(),
{
    if tags.len() == 0 {
        Seq::empty()
    } else {
        let before = tags.drop_last();
        if tags.last() is Uri && !duration_pending(before) {
            unmeasured(before).push(
                DiagnosticView::SegmentWithoutDuration { line: (tags.len() - 1) as usize },
            )
        } else {
            unmeasured(before)
        }
    }
}

/// What is unusual about a media playlist: that content follows the end of
/// the list, that the target duration is missing or zero, and each segment
/// without a duration.
pub open spec fn media_findings(tags: Seq<TagView>, target_duration: u64) -> Seq<DiagnosticView> {
    let end = match content_after_end(tags) {
        Some(line) => seq![DiagnosticView::ContentAfterEndList { line: line as usize }],
        None => Seq::<DiagnosticView>::empty(),
    };
    let target = if target_duration == 0 {
        seq![DiagnosticView::NoTargetDuration]
    } else {
        Seq::<DiagnosticView>::empty()
    };
    end + target + unmeasured(tags)
}

/// What is unusual about a manifest that gives a playlist: first that the
/// format marker is missing, then the tags that were not accepted, in the
/// order of their lines, then what is unusual about a media playlist.
pub open spec fn diagnostics_of(
    tags: Seq<TagView>,
    rejected: Seq<DiagnosticView>,
    kind: PlaylistKind,
) -> Seq<DiagnosticView> {
    let head = if has_header(tags) {
        Seq::<DiagnosticView>::empty()
    } else {
        seq![DiagnosticView::MissingHeader]
    };
    let tail = if kind == PlaylistKind::Media {
        media_findings(tags, media_playlist_of(tags).target_duration)
    } else {
        Seq::<DiagnosticView>::empty()
    };
    head + rejected + tail
}

/// The playlist that a tag stream gives, with what is unusual about it.
pub open spec fn finish(tags: Seq<TagView>, rejected: Seq<DiagnosticView>) -> Result<
    ParsedView,
    ParseErrorView,
> {
    match kind_of(tags) {
        Err(e) => Err(e),
        Ok(kind) => match playlist_of(tags, kind) {
            Err(e) => Err(e),
            Ok(playlist) => Ok(
                ParsedView { playlist, diagnostics: diagnostics_of(tags, rejected, kind) },
            ),
        },
    }
}

/// What parsing a text gives.
pub open spec fn parse_text(text: Seq<char>, strict: bool, imports: Seq<BindingView>) -> Result<
    ParsedView,
    ParseErrorView,
> {
    match scan(lines_of(text), strict, imports) {
        Err(e) => Err(e),
        Ok(s) => finish(s.tags, s.diagnostics),
    }
}

/// What parsing a byte buffer gives: bytes that are not UTF-8 are refused as
/// a whole; any others are parsed as the text that they encode.
pub open spec fn parse_bytes(input: Seq<u8>, strict: bool, imports: Seq<BindingView>) -> Result<
    ParsedView,
    ParseErrorView,
> {
    if valid_utf8(input) {
        parse_text(decode_utf8(input), strict, imports)
    } else {
        Err(ParseErrorView::InvalidEncoding)
    }
}

/// The playlist alone of what a parse gives.
pub open spec fn playlist_alone(r: Result<ParsedView, ParseErrorView>) -> Result<
    PlaylistView,
    ParseErrorView,
> {
    match r {
        Ok(parsed) => Ok(parsed.playlist),
        Err(e) => Err(e),
    }
}

impl ParseOptions {
    /// Lenient parsing, with no variable to import.
    pub fn lenient() -> (options: ParseOptions)
        ensures
            !options.strict,
            views(options.imports@) == Seq::<BindingView>::empty(),
    {
        let options = ParseOptions { strict: false, imports: Vec::new() };
        assert(views(options.imports@) =~= Seq::<BindingView>::empty());
        options
    }

    /// Strict parsing, with no variable to import.
    pub fn strict() -> (options: ParseOptions)
        ensures
            options.strict,
            views(options.imports@) == Seq::<BindingView>::empty(),
    {
        let options = ParseOptions { strict: true, imports: Vec::new() };
        assert(views(options.imports@) =~= Seq::<BindingView>::empty());
        options
    }
}

/// Takes the variable that a tag declares, if it declares one, into the
/// variables that have a value.
pub fn bind_variable(bindings: &mut Vec<Binding>, imports: &Vec<Binding>, tag: &Tag) -> (res: Result<
    (),
    ParseError,
>)
    ensures
        match res {
            Ok(_) => bind(views(old(bindings)@), views(imports@), tag@) == Ok::<
                Seq<BindingView>,
                ParseErrorView,
            >(views(final(bindings)@)),
            Err(e) => bind(views(old(bindings)@), views(imports@), tag@) == Err::<
                Seq<BindingView>,
                ParseErrorView,
            >(e@),
        },
{
    match tag {
        Tag::Define(Variable::Name(pair)) => {
            let binding = Binding { name: pair.0.clone(), value: pair.1.clone() };
            proof {
                lemma_views_push(bindings@, binding);
            }
            bindings.push(binding);
            Ok(())
        },
        Tag::Define(Variable::Import(name)) => {
            let chars = chars_of(name.as_str());
            match lookup_value(imports, chars.as_slice()) {
                Some(value) => {
                    let binding = Binding { name: name.clone(), value: value.clone() };
                    proof {
                        lemma_views_push(bindings@, binding);
                    }
                    bindings.push(binding);
                    Ok(())
                },
                None => Err(ParseError::UnresolvedVariable { name: name.clone() }),
            }
        },
        _ => Ok(()),
    }
}

/// The unknown tag that stands for a tag that was not accepted.
pub fn keep_tag(line: &[char]) -> (tag: Tag)
    ensures
        tag@ == kept_tag(line@),
{
    match classify_line(line) {
        Line::Directive(name, payload) => {
            let text = text_of(payload);
            Tag::UnknownTag(text_of(name), no_empty_str(text.as_str()))
        },
        _ => Tag::Comment(text_of(line)),
    }
}

/// Reads the lines of a manifest into tags, one for each line, and records
/// the tags that were not accepted.
pub fn scan_lines(lines: &Vec<&[char]>, options: &ParseOptions) -> (res: Result<
    (Vec<Tag>, Vec<Diagnostic>),
    ParseError,
>)
    ensures
        match res {
            Ok(found) => {
                &&& scan(views(lines@), options.strict, views(options.imports@)) is Ok
                &&& scan(views(lines@), options.strict, views(options.imports@))->Ok_0.tags
                    == views(found.0@)
                &&& scan(
                    views(lines@),
                    options.strict,
                    views(options.imports@),
                )->Ok_0.diagnostics == views(found.1@)
            },
            Err(e) => scan(views(lines@), options.strict, views(options.imports@)) == Err::<
                Scan,
                ParseErrorView,
            >(e@),
        },
{
    let ghost all = views(lines@);
    let ghost imports = views(options.imports@);
    let mut tags: Vec<Tag> = Vec::new();
    let mut bindings: Vec<Binding> = Vec::new();
    let mut diagnostics: Vec<Diagnostic> = Vec::new();
    let mut i: usize = 0;
    proof {
        assert(all.take(0) =~= Seq::<Seq<char>>::empty());
        assert(views(tags@) =~= Seq::<TagView>::empty());
        assert(views(bindings@) =~= Seq::<BindingView>::empty());
        assert(views(diagnostics@) =~= Seq::<DiagnosticView>::empty());
    }
    while i < lines.len()
        invariant
            i <= lines@.len(),
            all == views(lines@),
            imports == views(options.imports@),
            scan(all.take(i as int), options.strict, imports) == Ok::<Scan, ParseErrorView>(
                Scan {
                    tags: views(tags@),
                    bindings: views(bindings@),
                    diagnostics: views(diagnostics@),
                },
            ),
        decreases lines@.len() - i,
    {
        let line = lines[i];
        proof {
            assert(all.take(i + 1).drop_last() =~= all.take(i as int));
            assert(all.take(i + 1).last() == line@);
        }
        match parse_line(line, &bindings) {
            Ok(tag) => {
                match bind_variable(&mut bindings, &options.imports, &tag) {
                    Ok(_) => {},
                    Err(e) => {
                        proof {
                            lemma_scan_error(all, options.strict, imports, i + 1);
                        }
                        return Err(e);
                    },
                }
                proof {
                    lemma_views_push(tags@, tag);
                }
                tags.push(tag);
            },
            Err(e) => {
                if e.is_tag_local() && !options.strict {
                    let kept = keep_tag(line);
                    let rejected = Diagnostic::TagRejected { line: i, error: e };
                    proof {
                        lemma_views_push(tags@, kept);
                        lemma_views_push(diagnostics@, rejected);
                    }
                    tags.push(kept);
                    diagnostics.push(rejected);
                } else {
                    proof {
                        lemma_scan_error(all, options.strict, imports, i + 1);
                    }
                    return Err(e);
                }
            },
        }
        i += 1;
    }
    proof {
        assert(all.take(lines@.len() as int) =~= all);
    }
    Ok((tags, diagnostics))
}

/// An error among the first `n` lines is the error of the whole scan.
pub proof fn lemma_scan_error(
    lines: Seq<Seq<char>>,
    strict: bool,
    imports: Seq<BindingView>,
    n: int,
)
    requires
        0 <= n <= lines.len(),
        scan(lines.take(n), strict, imports) is Err,
    ensures
        scan(lines, strict, imports) == scan(lines.take(n), strict, imports),
    decreases lines.len() - n,
{
    if n < lines.len() {
        assert(lines.take(n + 1).drop_last() =~= lines.take(n));
        lemma_scan_error(lines, strict, imports, n + 1);
    } else {
        assert(lines.take(n) =~= lines);
    }
}

/// Finds the first tag at or after `from` that is not a comment.
pub fn find_content(tags: &Vec<Tag>, from: usize) -> (at: usize)
    ensures
        at == first_content(views(tags@), from as int),
        at <= tags@.len(),
{
    let ghost all = views(tags@);
    if from >= tags.len() {
        return tags.len();
    }
    let mut i: usize = from;
    loop
        invariant
            from <= i <= tags@.len(),
            all == views(tags@),
            first_content(all, from as int) == first_content(all, i as int),
        decreases tags@.len() - i,
    {
        if i >= tags.len() {
            return i;
        }
        assert(all[i as int] == tags@[i as int]@);
        match &tags[i] {
            Tag::Comment(_) => {},
            _ => {
                return i;
            },
        }
        i += 1;
    }
}

/// Finds the first tag at or after `from` that ends the list.
pub fn find_end_list(tags: &Vec<Tag>, from: usize) -> (at: usize)
    ensures
        at == first_end_list(views(tags@), from as int),
        at <= tags@.len(),
{
    let ghost all = views(tags@);
    if from >= tags.len() {
        return tags.len();
    }
    let mut i: usize = from;
    loop
        invariant
            from <= i <= tags@.len(),
            all == views(tags@),
            first_end_list(all, from as int) == first_end_list(all, i as int),
        decreases tags@.len() - i,
    {
        if i >= tags.len() {
            return i;
        }
        assert(all[i as int] == tags@[i as int]@);
        match &tags[i] {
            Tag::EndList => {
                return i;
            },
            _ => {},
        }
        i += 1;
    }
}

/// Whether the tag stream starts with the format marker.
pub fn starts_with_header(tags: &Vec<Tag>) -> (res: bool)
    ensures
        res == has_header(views(tags@)),
{
    let at = find_content(tags, 0);
    if at < tags.len() {
        assert(views(tags@)[at as int] == tags@[at as int]@);
        match &tags[at] {
            Tag::EXTM3U => true,
            _ => false,
        }
    } else {
        false
    }
}

/// Finds the first content after the end of the list.
pub fn find_content_after_end(tags: &Vec<Tag>) -> (res: Option<usize>)
    ensures
        match res {
            Some(line) => content_after_end(views(tags@)) == Some(line as int),
            None => content_after_end(views(tags@)) is None,
        },
{
    let end = find_end_list(tags, 0);
    if end < tags.len() {
        let at = find_content(tags, end + 1);
        if at < tags.len() {
            Some(at)
        } else {
            None
        }
    } else {
        None
    }
}

/// Records each location that no duration waits for.
pub fn flag_unmeasured(tags: &Vec<Tag>, diagnostics: &mut Vec<Diagnostic>)
    ensures
        views(final(diagnostics)@) == views(old(diagnostics)@) + unmeasured(views(tags@)),
{
    let ghost all = views(tags@);
    let ghost before = views(diagnostics@);
    let mut pending = false;
    let mut i: usize = 0;
    proof {
        assert(all.take(0) =~= Seq::<TagView>::empty());
        assert(before + unmeasured(all.take(0)) =~= before);
    }
    while i < tags.len()
        invariant
            i <= tags@.len(),
            all == views(tags@),
            pending == duration_pending(all.take(i as int)),
            views(diagnostics@) == before + unmeasured(all.take(i as int)),
        decreases tags@.len() - i,
    {
        proof {
            assert(all[i as int] == tags@[i as int]@);
            assert(all.take(i + 1).drop_last() =~= all.take(i as int));
            assert(all.take(i + 1).last() == all[i as int]);
        }
        match &tags[i] {
            Tag::INF(_, _) => {
                pending = true;
            },
            Tag::Uri(_) => {
                if !pending {
                    let found = Diagnostic::SegmentWithoutDuration { line: i };
                    proof {
                        lemma_views_push(diagnostics@, found);
                        assert((before + unmeasured(all.take(i as int))).push(found@) =~= before
                            + unmeasured(all.take(i as int)).push(found@));
                    }
                    diagnostics.push(found);
                }
                pending = false;
            },
            _ => {},
        }
        i += 1;
    }
    proof {
        assert(all.take(tags@.len() as int) =~= all);
    }
}

/// Records what is unusual about a media playlist.
pub fn flag_media(tags: &Vec<Tag>, target_duration: u64, diagnostics: &mut Vec<Diagnostic>)
    ensures
        views(final(diagnostics)@) == views(old(diagnostics)@) + media_findings(
            views(tags@),
            target_duration,
        ),
{
    let ghost before = views(diagnostics@);
    let ghost none = Seq::<DiagnosticView>::empty();
    match find_content_after_end(tags) {
        Some(line) => {
            let found = Diagnostic::ContentAfterEndList { line };
            proof {
                lemma_views_push(diagnostics@, found);
            }
            diagnostics.push(found);
        },
        None => {},
    }
    let ghost end = match content_after_end(views(tags@)) {
        Some(line) => seq![DiagnosticView::ContentAfterEndList { line: line as usize }],
        None => none,
    };
    assert(views(diagnostics@) =~= before + end);
    if target_duration == 0 {
        let found = Diagnostic::NoTargetDuration;
        proof {
            lemma_views_push(diagnostics@, found);
        }
        diagnostics.push(found);
    }
    let ghost target = if target_duration == 0 {
        seq![DiagnosticView::NoTargetDuration]
    } else {
        none
    };
    assert(views(diagnostics@) =~= before + end + target);
    flag_unmeasured(tags, diagnostics);
    assert(views(diagnostics@) =~= before + (end + target + unmeasured(views(tags@))));
}

/// Assembles the playlist of a tag stream, with what is unusual about it.
/// `rejected` holds what was recorded while the tags were read.
pub fn assemble(tags: &Vec<Tag>, rejected: Vec<Diagnostic>) -> (res: Result<Parsed, ParseError>)
    ensures
        result_view(res) == finish(views(tags@), views(rejected@)),
{
    let kind = classify_playlist(tags)?;
    let ghost recorded = views(rejected@);
    let mut diagnostics = rejected;
    if !starts_with_header(tags) {
        diagnostics.insert(0, Diagnostic::MissingHeader);
        assert(views(diagnostics@) =~= seq![DiagnosticView::MissingHeader] + recorded);
    } else {
        assert(views(diagnostics@) =~= Seq::<DiagnosticView>::empty() + recorded);
    }
    let ghost front = views(diagnostics@);
    match kind {
        PlaylistKind::Media => {
            let playlist = match media_from_tags(tags) {
                Ok(p) => p,
                Err(e) => {
                    return Err(e);
                },
            };
            flag_media(tags, playlist.target_duration, &mut diagnostics);
            Ok(Parsed { playlist: Playlist::Media(playlist), diagnostics })
        },
        PlaylistKind::Multivariant => {
            let playlist = multivariant_from_tags(tags)?;
            assert(views(diagnostics@) =~= front + Seq::<DiagnosticView>::empty());
            Ok(Parsed { playlist: Playlist::Multivariant(playlist), diagnostics })
        },
    }
}

/// Parses a manifest as the options say.
///
/// Bytes that are not UTF-8 are refused.  The lines are read in order into
/// tags; the tags decide whether the manifest is a media playlist or a
/// multivariant playlist, and the playlist is assembled from them.
///
/// A media playlist has one segment for each line that is not empty and does
/// not start with `#`, in the order of those lines.
pub fn parse_with(input: &[u8], options: &ParseOptions) -> (res: Result<Parsed, ParseError>)
    ensures
        result_view(res) == parse_bytes(input@, options.strict, views(options.imports@)),
        res matches Ok(parsed) ==> (parsed.playlist matches Playlist::Media(playlist)
            ==> segments_match_lines(playlist@, decode_utf8(input@))),
{
    proof {
        lemma_segments_are_uri_lines(
            decode_utf8(input@),
            options.strict,
            views(options.imports@),
        );
    }
    let text = match decode(input) {
        Some(text) => text,
        None => {
            return Err(ParseError::InvalidEncoding);
        },
    };
    let lines = split_lines(text.as_slice());
    let (tags, rejected) = scan_lines(&lines, options)?;
    assemble(&tags, rejected)
}

/// Parses a manifest leniently, with no variable to import, and gives the
/// playlist alone.
///
/// A media playlist has one segment for each line that is not empty and does
/// not start with `#`, in the order of those lines.
pub fn parse(input: &[u8]) -> (res: Result<Playlist, ParseError>)
    ensures
        result_view(res) == playlist_alone(parse_bytes(input@, false, Seq::empty())),
        res matches Ok(Playlist::Media(playlist)) ==> segments_match_lines(
            playlist@,
            decode_utf8(input@),
        ),
{
    let options = ParseOptions::lenient();
    match parse_with(input, &options) {
        Ok(parsed) => Ok(parsed.playlist),
        Err(e) => Err(e),
    }
}

/// Parsing is a function of the bytes and the options: any two results of
/// parsing the same buffer in the same way are equal in every part.
pub proof fn lemma_parse_repeatable(
    input: Seq<u8>,
    strict: bool,
    imports: Seq<BindingView>,
    first: Result<Parsed, ParseError>,
    second: Result<Parsed, ParseError>,
)
    requires
        result_view(first) == parse_bytes(input, strict, imports),
        result_view(second) == parse_bytes(input, strict, imports),
    ensures
        result_view(first) == result_view(second),
        first is Ok <==> second is Ok,
        first is Ok ==> first->Ok_0@ == second->Ok_0@,
        first is Err ==> first->Err_0@ == second->Err_0@,
{
}

/// The lines that are locations, in order: those that are not empty and do
/// not start with `#`.
pub open spec fn uri_lines(lines: Seq<Seq<char>>) -> Seq<Seq<char>>
    decreases lines.len(),
{
    if lines.len() == 0 {
        Seq::empty()
    } else if is_uri_line(lines.last()) {
        uri_lines(lines.drop_last()).push(lines.last())
    } else {
        uri_lines(lines.drop_last())
    }
}

/// No tag with a name is a location.
pub proof fn lemma_named_tag_is_no_uri(
    name: Seq<char>,
    payload: Seq<char>,
    bindings: Seq<BindingView>,
)
    ensures
        tag_of(name, payload, bindings) matches Ok(tag) ==> !(tag is Uri),
{
    match tag_of(name, payload, bindings) {
        Ok(tag) => {
            if crate::tag::is_record_tag(name) {
                let attrs = crate::attr::attributes_of(payload, bindings)->Ok_0;
                assert(record_tag_of(name, attrs) == Ok::<TagView, Reason>(tag));
            } else {
                assert(plain_tag_of(name, payload) == Ok::<TagView, Reason>(tag));
            }
        },
        Err(_) => {},
    }
}

/// A scan gives one tag for each line, and its locations are the lines that
/// are locations, in order.
pub proof fn lemma_scan_keeps_uris(lines: Seq<Seq<char>>, strict: bool, imports: Seq<BindingView>)
    ensures
        scan(lines, strict, imports) matches Ok(s) ==> s.tags.len() == lines.len() && uris_of(
            s.tags,
        ) == uri_lines(lines),
    decreases lines.len(),
{
    if lines.len() > 0 {
        lemma_scan_keeps_uris(lines.drop_last(), strict, imports);
        match scan(lines.drop_last(), strict, imports) {
            Ok(before) => {
                match scan_step(before, lines.last(), lines.len() - 1, strict, imports) {
                    Ok(after) => {
                        let tag = after.tags.last();
                        assert(after.tags.drop_last() =~= before.tags);
                        match line_kind(lines.last()) {
                            LineView::Directive(name, payload) => {
                                lemma_named_tag_is_no_uri(name, payload, before.bindings);
                            },
                            _ => {},
                        }
                    },
                    Err(_) => {},
                }
            },
            Err(_) => {},
        }
    }
}

/// Whether a media playlist has one segment for each line of `text` that is
/// a location, with that line as its location, in the order of the lines.
pub open spec fn segments_match_lines(playlist: MediaPlaylistView, text: Seq<char>) -> bool {
    &&& playlist.segments.len() == uri_lines(lines_of(text)).len()
    &&& forall|k: int|
        0 <= k < playlist.segments.len() ==> (#[trigger] playlist.segments[k]).uri == uri_lines(
            lines_of(text),
        )[k]
}

/// A media playlist has as many segments as its manifest has lines that are
/// not empty and do not start with `#`, and the segments come in the order of
/// those lines.
pub proof fn lemma_segments_are_uri_lines(text: Seq<char>, strict: bool, imports: Seq<BindingView>)
    ensures
        parse_text(text, strict, imports) matches Ok(parsed) ==> (parsed.playlist matches PlaylistView::Media(
            playlist,
        ) ==> segments_match_lines(playlist, text)),
{
    lemma_scan_keeps_uris(lines_of(text), strict, imports);
    match scan(lines_of(text), strict, imports) {
        Ok(s) => {
            lemma_segments_follow_uris(s.tags);
        },
        Err(_) => {},
    }
}

} // verus!
