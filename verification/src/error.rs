use vstd::prelude::*;
use vstd::string::*;

verus! {

/// Why the payload of a tag was not accepted.
#[derive(Clone, Copy, Debug, PartialEq, Eq)]
pub enum Reason {
    /// The payload is not a decimal integer in the range of the field.
    InvalidInteger,
    /// The payload is not a decimal number, or is one below zero.
    InvalidDecimal,
    /// The payload is none of the values that the tag knows.
    InvalidValue,
    /// An attribute that the tag needs is not there.
    MissingAttribute,
    /// An attribute is there with a value of the wrong kind.
    InvalidAttribute,
}

/// Why a manifest, or one of its tags, was not accepted.
#[derive(Clone, Debug, PartialEq, Eq)]
pub enum ParseError {
    /// The input is not UTF-8 text.
    InvalidEncoding,
    /// The payload of a tag could not be read.
    MalformedTag { tag_name: String, raw_payload: String, reason: Reason },
    /// The payload of a tag is not an attribute list.
    MalformedAttributeList { raw_payload: String },
    /// The manifest holds tags of both kinds of playlist.
    AmbiguousPlaylistType,
    /// An attribute value refers to a variable that has no value.
    UnresolvedVariable { name: String },
    /// The attributes of a variant stream are not followed by its location.
    UnassociatedVariantAttributes,
    /// The manifest uses an extension that is not supported.
    UnsupportedFeature { name: String },
}

/// The mathematical view of `ParseError`: texts and lists as sequences.
pub enum ParseErrorView {
    InvalidEncoding,
    MalformedTag { tag_name: Seq<char>, raw_payload: Seq<char>, reason: Reason },
    MalformedAttributeList { raw_payload: Seq<char> },
    AmbiguousPlaylistType,
    UnresolvedVariable { name: Seq<char> },
    UnassociatedVariantAttributes,
    UnsupportedFeature { name: Seq<char> },
}

impl View for ParseError {
    type V = ParseErrorView;

    open spec fn view(&self) -> ParseErrorView {
        match self {
            ParseError::InvalidEncoding => ParseErrorView::InvalidEncoding,
            ParseError::MalformedTag { tag_name, raw_payload, reason } => ParseErrorView::MalformedTag {
                tag_name: tag_name@,
                raw_payload: raw_payload@,
                reason: *reason,
            },
            ParseError::MalformedAttributeList { raw_payload } => ParseErrorView::MalformedAttributeList {
                raw_payload: raw_payload@,
            },
            ParseError::AmbiguousPlaylistType => ParseErrorView::AmbiguousPlaylistType,
            ParseError::UnresolvedVariable { name } => ParseErrorView::UnresolvedVariable {
                name: name@,
            },
            ParseError::UnassociatedVariantAttributes => ParseErrorView::UnassociatedVariantAttributes,
            ParseError::UnsupportedFeature { name } => ParseErrorView::UnsupportedFeature {
                name: name@,
            },
        }
    }
}

impl ParseErrorView {
    /// Whether the error concerns one tag only.  Such an error ends a strict
    /// parse and is recorded by a lenient one; every other error ends both.
    pub open spec fn is_tag_local(self) -> bool {
        self is MalformedTag || self is MalformedAttributeList
    }

    /// The words that describe the kind of error.
    pub open spec fn summary(self) -> Seq<char> {
        match self {
            ParseErrorView::InvalidEncoding => "invalid encoding"@,
            ParseErrorView::MalformedTag { .. } => "malformed tag: "@,
            ParseErrorView::MalformedAttributeList { .. } => "malformed attribute list: "@,
            ParseErrorView::AmbiguousPlaylistType => "ambiguous playlist type"@,
            ParseErrorView::UnresolvedVariable { .. } => "unresolved variable: "@,
            ParseErrorView::UnassociatedVariantAttributes => "unassociated variant attributes"@,
            ParseErrorView::UnsupportedFeature { .. } => "unsupported feature: "@,
        }
    }

    /// What the error is about: a tag name, a payload or a variable name.
    pub open spec fn subject(self) -> Seq<char> {
        match self {
            ParseErrorView::MalformedTag { tag_name, .. } => tag_name,
            ParseErrorView::MalformedAttributeList { raw_payload } => raw_payload,
            ParseErrorView::UnresolvedVariable { name } => name,
            ParseErrorView::UnsupportedFeature { name } => name,
            _ => Seq::empty(),
        }
    }
}

impl ParseError {
    /// Whether the error concerns one tag only.
    pub fn is_tag_local(&self) -> (local: bool)
        ensures
            local == self@.is_tag_local(),
    {
        match self {
            ParseError::MalformedTag { .. } => true,
            ParseError::MalformedAttributeList { .. } => true,
            _ => false,
        }
    }

    /// The error in words: its kind, followed by what it is about.
    pub fn message(&self) -> (text: String)
        ensures
            text@ == self@.summary() + self@.subject(),
    {
        let text = match self {
            ParseError::InvalidEncoding => String::from_str("invalid encoding"),
            ParseError::MalformedTag { tag_name, .. } => String::from_str("malformed tag: ").concat(
                tag_name.as_str(),
            ),
            ParseError::MalformedAttributeList { raw_payload } => String::from_str(
                "malformed attribute list: ",
            ).concat(raw_payload.as_str()),
            ParseError::AmbiguousPlaylistType => String::from_str("ambiguous playlist type"),
            ParseError::UnresolvedVariable { name } => String::from_str(
                "unresolved variable: ",
            ).concat(name.as_str()),
            ParseError::UnassociatedVariantAttributes => String::from_str(
                "unassociated variant attributes",
            ),
            ParseError::UnsupportedFeature { name } => String::from_str(
                "unsupported feature: ",
            ).concat(name.as_str()),
        };
        assert(text@ =~= self@.summary() + self@.subject());
        text
    }
}

/// Something unusual that a parse came across and went on from.
#[derive(Clone, Debug, PartialEq, Eq)]
pub enum Diagnostic {
    /// The first tag of the manifest is not the format marker.
    MissingHeader,
    /// The tag on this line was not accepted; it was kept as an unknown tag.
    /// Lines are counted from zero.
    TagRejected { line: usize, error: ParseError },
    /// The playlist was declared complete before this line.
    ContentAfterEndList { line: usize },
    /// A media playlist gives no target duration above zero.
    NoTargetDuration,
    /// The segment whose location stands on this line was given no duration.
    SegmentWithoutDuration { line: usize },
}

/// The mathematical view of `Diagnostic`: texts and lists as sequences.
pub enum DiagnosticView {
    MissingHeader,
    TagRejected { line: usize, error: ParseErrorView },
    ContentAfterEndList { line: usize },
    NoTargetDuration,
    SegmentWithoutDuration { line: usize },
}

impl View for Diagnostic {
    type V = DiagnosticView;

    open spec fn view(&self) -> DiagnosticView {
        match self {
            Diagnostic::MissingHeader => DiagnosticView::MissingHeader,
            Diagnostic::TagRejected { line, error } => DiagnosticView::TagRejected {
                line: *line,
                error: error@,
            },
            Diagnostic::ContentAfterEndList { line } => DiagnosticView::ContentAfterEndList {
                line: *line,
            },
            Diagnostic::NoTargetDuration => DiagnosticView::NoTargetDuration,
            Diagnostic::SegmentWithoutDuration { line } => DiagnosticView::SegmentWithoutDuration {
                line: *line,
            },
        }
    }
}

} // verus!
