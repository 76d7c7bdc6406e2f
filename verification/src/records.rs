use vstd::prelude::*;
use vstd::slice::*;
use vstd::string::*;
use crate::attr::{
    decimal_attr, decimal_of, find_value, flag_attr, flag_of, hex_attr, hex_of, integer_attr,
    integer_of, needed, quoted_attr, quoted_of, required, resolution_attr, resolution_attr_of,
    token_attr, token_of, value_of, AttrValue, AttrValueView, Attribute, AttributeView,
};
use crate::error::Reason;
use crate::model::{
    views, ByteRange, InitMap, InitMapView, Key, KeyMethod, KeyMethodView, KeyView,
    PartialSegment, PartialSegmentView, Rendition, RenditionType, RenditionView, ServerControl,
    Skip, Start, StreamInf, StreamInfView, Variable, VariableView, VariantStream,
    VariantStreamView,
};
use crate::number::{decimal_integer, parse_u64, Decimal};
use crate::text::{chars_of, find_char, find_from, same_text};

verus! {

/// The view of a result whose value has one.
pub open spec fn ok_view<T: View, E>(r: Result<T, E>) -> Result<T::V, E> {
    match r {
        Ok(value) => Ok(value@),
        Err(e) => Err(e),
    }
}

/// The byte range that `t` denotes: a length, and after an `@` an offset.
pub open spec fn byte_range_of(t: Seq<char>) -> Option<ByteRange> {
    let at = find_from(t, '@', 0);
    match decimal_integer(t.subrange(0, at)) {
        None => None,
        Some(length) => if at < t.len() {
            match decimal_integer(t.subrange(at + 1, t.len() as int)) {
                None => None,
                Some(offset) => Some(ByteRange { length, offset: Some(offset) }),
            }
        } else {
            Some(ByteRange { length, offset: None })
        },
    }
}

/// Reads a byte range.
pub fn parse_byte_range(t: &[char]) -> (res: Option<ByteRange>)
    ensures
        res == byte_range_of(t@),
{
    let n = t.len();
    let at = find_char(t, '@', 0);
    let length = match parse_u64(slice_subrange(t, 0, at)) {
        Some(length) => length,
        None => {
            return None;
        },
    };
    if at < n {
        match parse_u64(slice_subrange(t, at + 1, n)) {
            Some(offset) => Some(ByteRange { length, offset: Some(offset) }),
            None => None,
        }
    } else {
        Some(ByteRange { length, offset: None })
    }
}

/// The byte range in the quoted attribute `name`.
pub open spec fn byte_range_attr_of(attrs: Seq<AttributeView>, name: Seq<char>) -> Result<
    Option<ByteRange>,
    Reason,
> {
    match quoted_of(attrs, name) {
        Err(reason) => Err(reason),
        Ok(None) => Ok(None),
        Ok(Some(t)) => match byte_range_of(t) {
            Some(range) => Ok(Some(range)),
            None => Err(Reason::InvalidAttribute),
        },
    }
}

/// Reads the byte range in the quoted attribute `name`.
pub fn byte_range_attr(attrs: &Vec<Attribute>, name: &str) -> (res: Result<
    Option<ByteRange>,
    Reason,
>)
    ensures
        res == byte_range_attr_of(views(attrs@), name@),
{
    match quoted_attr(attrs, name)? {
        None => Ok(None),
        Some(t) => {
            let chars = chars_of(t.as_str());
            match parse_byte_range(chars.as_slice()) {
                Some(range) => Ok(Some(range)),
                None => Err(Reason::InvalidAttribute),
            }
        },
    }
}

/// The length of time in the attribute `name`: a decimal number that is not
/// below zero.
pub open spec fn duration_of(attrs: Seq<AttributeView>, name: Seq<char>) -> Result<
    Option<Decimal>,
    Reason,
> {
    match decimal_of(attrs, name) {
        Ok(Some(d)) => if d.negative {
            Err(Reason::InvalidAttribute)
        } else {
            Ok(Some(d))
        },
        other => other,
    }
}

/// Reads the length of time in the attribute `name`.
pub fn duration_attr(attrs: &Vec<Attribute>, name: &str) -> (res: Result<Option<Decimal>, Reason>)
    ensures
        res == duration_of(views(attrs@), name@),
{
    match decimal_attr(attrs, name)? {
        Some(d) => if d.negative {
            Err(Reason::InvalidAttribute)
        } else {
            Ok(Some(d))
        },
        None => Ok(None),
    }
}

/// The flag in the attribute `name`, which is off when the attribute is not
/// there.
pub open spec fn switch_of(attrs: Seq<AttributeView>, name: Seq<char>) -> Result<bool, Reason> {
    match flag_of(attrs, name) {
        Ok(Some(on)) => Ok(on),
        Ok(None) => Ok(false),
        Err(reason) => Err(reason),
    }
}

/// Reads the flag in the attribute `name`, off when it is not there.
pub fn switch_attr(attrs: &Vec<Attribute>, name: &str) -> (res: Result<bool, Reason>)
    ensures
        res == switch_of(views(attrs@), name@),
{
    match flag_attr(attrs, name)? {
        Some(on) => Ok(on),
        None => Ok(false),
    }
}

/// The encryption method that a token names.
pub open spec fn key_method_of(token: Seq<char>) -> KeyMethodView {
    if token == "NONE"@ {
        KeyMethodView::NoEncryption
    } else if token == "AES-128"@ {
        KeyMethodView::Aes128
    } else if token == "SAMPLE-AES"@ {
        KeyMethodView::SampleAes
    } else {
        KeyMethodView::Other(token)
    }
}

/// The key that the attributes describe.  The method is needed, and with any
/// method but `NONE` the location of the key.
pub open spec fn key_of(attrs: Seq<AttributeView>) -> Result<KeyView, Reason> {
    let method = needed(token_of(attrs, "METHOD"@));
    let uri = quoted_of(attrs, "URI"@);
    let iv = hex_of(attrs, "IV"@);
    let format = quoted_of(attrs, "KEYFORMAT"@);
    let versions = quoted_of(attrs, "KEYFORMATVERSIONS"@);
    if method is Err {
        Err(method->Err_0)
    } else if uri is Err {
        Err(uri->Err_0)
    } else if iv is Err {
        Err(iv->Err_0)
    } else if format is Err {
        Err(format->Err_0)
    } else if versions is Err {
        Err(versions->Err_0)
    } else if !(key_method_of(method->Ok_0) is NoEncryption) && uri->Ok_0 is None {
        Err(Reason::MissingAttribute)
    } else {
        Ok(
            KeyView {
                method: key_method_of(method->Ok_0),
                uri: uri->Ok_0,
                iv: iv->Ok_0,
                key_format: format->Ok_0,
                key_format_versions: versions->Ok_0,
            },
        )
    }
}

/// Reads a key from its attributes.
pub fn read_key(attrs: &Vec<Attribute>) -> (res: Result<Key, Reason>)
    ensures
        ok_view(res) == key_of(views(attrs@)),
        res matches Ok(key) ==> key.wf(),
{
    let token = required(token_attr(attrs, "METHOD"))?;
    let uri = quoted_attr(attrs, "URI")?;
    let iv = hex_attr(attrs, "IV")?;
    let key_format = quoted_attr(attrs, "KEYFORMAT")?;
    let key_format_versions = quoted_attr(attrs, "KEYFORMATVERSIONS")?;
    let method = if same_text(token.as_str(), "NONE") {
        KeyMethod::NoEncryption
    } else if same_text(token.as_str(), "AES-128") {
        KeyMethod::Aes128
    } else if same_text(token.as_str(), "SAMPLE-AES") {
        KeyMethod::SampleAes
    } else {
        KeyMethod::Other(token)
    };
    let plain = match &method {
        KeyMethod::NoEncryption => true,
        _ => false,
    };
    if !plain && uri.is_none() {
        return Err(Reason::MissingAttribute);
    }
    Ok(Key { method, uri, iv, key_format, key_format_versions })
}

/// The initialization section that the attributes describe.
pub open spec fn init_map_of(attrs: Seq<AttributeView>) -> Result<InitMapView, Reason> {
    let uri = needed(quoted_of(attrs, "URI"@));
    let range = byte_range_attr_of(attrs, "BYTERANGE"@);
    if uri is Err {
        Err(uri->Err_0)
    } else if range is Err {
        Err(range->Err_0)
    } else {
        Ok(InitMapView { uri: uri->Ok_0, byte_range: range->Ok_0 })
    }
}

/// Reads an initialization section from its attributes.
pub fn read_init_map(attrs: &Vec<Attribute>) -> (res: Result<InitMap, Reason>)
    ensures
        ok_view(res) == init_map_of(views(attrs@)),
{
    let uri = required(quoted_attr(attrs, "URI"))?;
    let byte_range = byte_range_attr(attrs, "BYTERANGE")?;
    Ok(InitMap { uri, byte_range })
}

/// The start point that the attributes describe.
pub open spec fn start_of(attrs: Seq<AttributeView>) -> Result<Start, Reason> {
    let offset = needed(decimal_of(attrs, "TIME-OFFSET"@));
    let precise = flag_of(attrs, "PRECISE"@);
    if offset is Err {
        Err(offset->Err_0)
    } else if precise is Err {
        Err(precise->Err_0)
    } else {
        Ok(Start { time_offset: offset->Ok_0, precise: precise->Ok_0 })
    }
}

/// Reads a start point from its attributes.
pub fn read_start(attrs: &Vec<Attribute>) -> (res: Result<Start, Reason>)
    ensures
        res == start_of(views(attrs@)),
{
    let time_offset = required(decimal_attr(attrs, "TIME-OFFSET"))?;
    let precise = flag_attr(attrs, "PRECISE")?;
    Ok(Start { time_offset, precise })
}

/// The part target duration that the attributes give.
pub open spec fn part_target_of(attrs: Seq<AttributeView>) -> Result<Decimal, Reason> {
    needed(duration_of(attrs, "PART-TARGET"@))
}

/// Reads the part target duration from its attributes.
pub fn read_part_target(attrs: &Vec<Attribute>) -> (res: Result<Decimal, Reason>)
    ensures
        res == part_target_of(views(attrs@)),
{
    required(duration_attr(attrs, "PART-TARGET"))
}

/// The server control policy that the attributes describe.
pub open spec fn server_control_of(attrs: Seq<AttributeView>) -> Result<ServerControl, Reason> {
    let reload = switch_of(attrs, "CAN-BLOCK-RELOAD"@);
    let skip = duration_of(attrs, "CAN-SKIP-UNTIL"@);
    let hold = duration_of(attrs, "HOLD-BACK"@);
    let part_hold = duration_of(attrs, "PART-HOLD-BACK"@);
    if reload is Err {
        Err(reload->Err_0)
    } else if skip is Err {
        Err(skip->Err_0)
    } else if hold is Err {
        Err(hold->Err_0)
    } else if part_hold is Err {
        Err(part_hold->Err_0)
    } else {
        Ok(
            ServerControl {
                can_block_reload: reload->Ok_0,
                can_skip_until: skip->Ok_0,
                hold_back: hold->Ok_0,
                part_hold_back: part_hold->Ok_0,
            },
        )
    }
}

/// Reads a server control policy from its attributes.
pub fn read_server_control(attrs: &Vec<Attribute>) -> (res: Result<ServerControl, Reason>)
    ensures
        res == server_control_of(views(attrs@)),
{
    let can_block_reload = switch_attr(attrs, "CAN-BLOCK-RELOAD")?;
    let can_skip_until = duration_attr(attrs, "CAN-SKIP-UNTIL")?;
    let hold_back = duration_attr(attrs, "HOLD-BACK")?;
    let part_hold_back = duration_attr(attrs, "PART-HOLD-BACK")?;
    Ok(ServerControl { can_block_reload, can_skip_until, hold_back, part_hold_back })
}

/// The skip record that the attributes describe.
pub open spec fn skip_of(attrs: Seq<AttributeView>) -> Result<Skip, Reason> {
    match needed(integer_of(attrs, "SKIPPED-SEGMENTS"@)) {
        Ok(n) => Ok(Skip { skipped_segments: n }),
        Err(reason) => Err(reason),
    }
}

/// Reads a skip record from its attributes.
pub fn read_skip(attrs: &Vec<Attribute>) -> (res: Result<Skip, Reason>)
    ensures
        res == skip_of(views(attrs@)),
{
    let skipped_segments = required(integer_attr(attrs, "SKIPPED-SEGMENTS"))?;
    Ok(Skip { skipped_segments })
}

/// The closed captions group of a stream: a quoted name, or nothing when the
/// attribute is not there or says `NONE`.
pub open spec fn closed_captions_of(attrs: Seq<AttributeView>) -> Result<
    Option<Seq<char>>,
    Reason,
> {
    match value_of(attrs, "CLOSED-CAPTIONS"@) {
        None => Ok(None),
        Some(AttrValueView::Quoted(t)) => Ok(Some(t)),
        Some(AttrValueView::Enumerated(t)) => if t == "NONE"@ {
            Ok(None)
        } else {
            Err(Reason::InvalidAttribute)
        },
        Some(_) => Err(Reason::InvalidAttribute),
    }
}

/// Reads the closed captions group of a stream.
pub fn closed_captions_attr(attrs: &Vec<Attribute>) -> (res: Result<Option<String>, Reason>)
    ensures
        crate::attr::text_found(res) == closed_captions_of(views(attrs@)),
{
    match find_value(attrs, "CLOSED-CAPTIONS") {
        None => Ok(None),
        Some(AttrValue::Quoted(t)) => Ok(Some(t.clone())),
        Some(AttrValue::Enumerated(t)) => if same_text(t.as_str(), "NONE") {
            Ok(None)
        } else {
            Err(Reason::InvalidAttribute)
        },
        Some(_) => Err(Reason::InvalidAttribute),
    }
}

/// The stream attributes that the attribute list describes.  The bandwidth
/// is needed.
pub open spec fn stream_inf_of(attrs: Seq<AttributeView>) -> Result<StreamInfView, Reason> {
    let bandwidth = needed(integer_of(attrs, "BANDWIDTH"@));
    let average = integer_of(attrs, "AVERAGE-BANDWIDTH"@);
    let codecs = quoted_of(attrs, "CODECS"@);
    let resolution = resolution_attr_of(attrs, "RESOLUTION"@);
    let frame_rate = duration_of(attrs, "FRAME-RATE"@);
    let audio = quoted_of(attrs, "AUDIO"@);
    let video = quoted_of(attrs, "VIDEO"@);
    let subtitles = quoted_of(attrs, "SUBTITLES"@);
    let captions = closed_captions_of(attrs);
    if bandwidth is Err {
        Err(bandwidth->Err_0)
    } else if average is Err {
        Err(average->Err_0)
    } else if codecs is Err {
        Err(codecs->Err_0)
    } else if resolution is Err {
        Err(resolution->Err_0)
    } else if frame_rate is Err {
        Err(frame_rate->Err_0)
    } else if audio is Err {
        Err(audio->Err_0)
    } else if video is Err {
        Err(video->Err_0)
    } else if subtitles is Err {
        Err(subtitles->Err_0)
    } else if captions is Err {
        Err(captions->Err_0)
    } else {
        Ok(
            StreamInfView {
                bandwidth: bandwidth->Ok_0,
                average_bandwidth: average->Ok_0,
                codecs: codecs->Ok_0,
                resolution: resolution->Ok_0,
                frame_rate: frame_rate->Ok_0,
                audio: audio->Ok_0,
                video: video->Ok_0,
                subtitles: subtitles->Ok_0,
                closed_captions: captions->Ok_0,
            },
        )
    }
}

/// Reads the attributes of a variant stream.
pub fn read_stream_inf(attrs: &Vec<Attribute>) -> (res: Result<StreamInf, Reason>)
    ensures
        ok_view(res) == stream_inf_of(views(attrs@)),
{
    let bandwidth = required(integer_attr(attrs, "BANDWIDTH"))?;
    let average_bandwidth = integer_attr(attrs, "AVERAGE-BANDWIDTH")?;
    let codecs = quoted_attr(attrs, "CODECS")?;
    let resolution = resolution_attr(attrs, "RESOLUTION")?;
    let frame_rate = duration_attr(attrs, "FRAME-RATE")?;
    let audio = quoted_attr(attrs, "AUDIO")?;
    let video = quoted_attr(attrs, "VIDEO")?;
    let subtitles = quoted_attr(attrs, "SUBTITLES")?;
    let closed_captions = closed_captions_attr(attrs)?;
    Ok(
        StreamInf {
            bandwidth,
            average_bandwidth,
            codecs,
            resolution,
            frame_rate,
            audio,
            video,
            subtitles,
            closed_captions,
        },
    )
}

/// The variant of I-frames that the attributes describe: stream attributes
/// and, among them, its location.
pub open spec fn i_frame_stream_of(attrs: Seq<AttributeView>) -> Result<VariantStreamView, Reason> {
    let stream = stream_inf_of(attrs);
    let uri = needed(quoted_of(attrs, "URI"@));
    if stream is Err {
        Err(stream->Err_0)
    } else if uri is Err {
        Err(uri->Err_0)
    } else {
        Ok(VariantStreamView { uri: uri->Ok_0, stream: stream->Ok_0 })
    }
}

/// Reads a variant of I-frames from its attributes.
pub fn read_i_frame_stream(attrs: &Vec<Attribute>) -> (res: Result<VariantStream, Reason>)
    ensures
        ok_view(res) == i_frame_stream_of(views(attrs@)),
{
    let stream = read_stream_inf(attrs)?;
    let uri = required(quoted_attr(attrs, "URI"))?;
    Ok(VariantStream { uri, stream })
}

/// The kind of rendition that a token names.
pub open spec fn rendition_type_of(token: Seq<char>) -> Option<RenditionType> {
    if token == "AUDIO"@ {
        Some(RenditionType::Audio)
    } else if token == "VIDEO"@ {
        Some(RenditionType::Video)
    } else if token == "SUBTITLES"@ {
        Some(RenditionType::Subtitles)
    } else if token == "CLOSED-CAPTIONS"@ {
        Some(RenditionType::ClosedCaptions)
    } else {
        None
    }
}

/// The rendition that the attributes describe.  Its type, its group and its
/// name are needed.
pub open spec fn rendition_of(attrs: Seq<AttributeView>) -> Result<RenditionView, Reason> {
    let kind = needed(token_of(attrs, "TYPE"@));
    let group = needed(quoted_of(attrs, "GROUP-ID"@));
    let name = needed(quoted_of(attrs, "NAME"@));
    let uri = quoted_of(attrs, "URI"@);
    let language = quoted_of(attrs, "LANGUAGE"@);
    let is_default = switch_of(attrs, "DEFAULT"@);
    let autoselect = switch_of(attrs, "AUTOSELECT"@);
    if kind is Err {
        Err(kind->Err_0)
    } else if rendition_type_of(kind->Ok_0) is None {
        Err(Reason::InvalidAttribute)
    } else if group is Err {
        Err(group->Err_0)
    } else if name is Err {
        Err(name->Err_0)
    } else if uri is Err {
        Err(uri->Err_0)
    } else if language is Err {
        Err(language->Err_0)
    } else if is_default is Err {
        Err(is_default->Err_0)
    } else if autoselect is Err {
        Err(autoselect->Err_0)
    } else {
        Ok(
            RenditionView {
                media_type: rendition_type_of(kind->Ok_0)->Some_0,
                group_id: group->Ok_0,
                name: name->Ok_0,
                uri: uri->Ok_0,
                language: language->Ok_0,
                is_default: is_default->Ok_0,
                autoselect: autoselect->Ok_0,
            },
        )
    }
}

/// Reads a rendition from its attributes.
pub fn read_rendition(attrs: &Vec<Attribute>) -> (res: Result<Rendition, Reason>)
    ensures
        ok_view(res) == rendition_of(views(attrs@)),
{
    let token = required(token_attr(attrs, "TYPE"))?;
    let media_type = if same_text(token.as_str(), "AUDIO") {
        RenditionType::Audio
    } else if same_text(token.as_str(), "VIDEO") {
        RenditionType::Video
    } else if same_text(token.as_str(), "SUBTITLES") {
        RenditionType::Subtitles
    } else if same_text(token.as_str(), "CLOSED-CAPTIONS") {
        RenditionType::ClosedCaptions
    } else {
        return Err(Reason::InvalidAttribute);
    };
    let group_id = required(quoted_attr(attrs, "GROUP-ID"))?;
    let name = required(quoted_attr(attrs, "NAME"))?;
    let uri = quoted_attr(attrs, "URI")?;
    let language = quoted_attr(attrs, "LANGUAGE")?;
    let is_default = switch_attr(attrs, "DEFAULT")?;
    let autoselect = switch_attr(attrs, "AUTOSELECT")?;
    Ok(Rendition { media_type, group_id, name, uri, language, is_default, autoselect })
}

/// The partial segment that the attributes describe.  Its location, its
/// duration and its byte range are needed.
pub open spec fn part_of(attrs: Seq<AttributeView>) -> Result<PartialSegmentView, Reason> {
    let uri = needed(quoted_of(attrs, "URI"@));
    let duration = needed(duration_of(attrs, "DURATION"@));
    let independent = switch_of(attrs, "INDEPENDENT"@);
    let range = needed(byte_range_attr_of(attrs, "BYTERANGE"@));
    let gap = switch_of(attrs, "GAP"@);
    if uri is Err {
        Err(uri->Err_0)
    } else if duration is Err {
        Err(duration->Err_0)
    } else if independent is Err {
        Err(independent->Err_0)
    } else if range is Err {
        Err(range->Err_0)
    } else if gap is Err {
        Err(gap->Err_0)
    } else {
        Ok(
            PartialSegmentView {
                uri: uri->Ok_0,
                duration: duration->Ok_0,
                indepdentent: independent->Ok_0,
                byte_range: range->Ok_0,
                gap: gap->Ok_0,
            },
        )
    }
}

/// Reads a partial segment from its attributes.
pub fn read_part(attrs: &Vec<Attribute>) -> (res: Result<PartialSegment, Reason>)
    ensures
        ok_view(res) == part_of(views(attrs@)),
{
    let uri = required(quoted_attr(attrs, "URI"))?;
    let duration = required(duration_attr(attrs, "DURATION"))?;
    let indepdentent = switch_attr(attrs, "INDEPENDENT")?;
    let byte_range = required(byte_range_attr(attrs, "BYTERANGE"))?;
    let gap = switch_attr(attrs, "GAP")?;
    Ok(PartialSegment { uri, duration, indepdentent, byte_range, gap })
}

/// The variable that the attributes declare: one with a name and a value, or
/// one to import.
pub open spec fn variable_of(attrs: Seq<AttributeView>) -> Result<VariableView, Reason> {
    let name = quoted_of(attrs, "NAME"@);
    let value = needed(quoted_of(attrs, "VALUE"@));
    let import = needed(quoted_of(attrs, "IMPORT"@));
    if name is Err {
        Err(name->Err_0)
    } else if name->Ok_0 is Some {
        match value {
            Ok(v) => Ok(VariableView::Name(name->Ok_0->Some_0, v)),
            Err(reason) => Err(reason),
        }
    } else {
        match import {
            Ok(n) => Ok(VariableView::Import(n)),
            Err(reason) => Err(reason),
        }
    }
}

/// Reads the declaration of a variable from its attributes.
pub fn read_variable(attrs: &Vec<Attribute>) -> (res: Result<Variable, Reason>)
    ensures
        ok_view(res) == variable_of(views(attrs@)),
{
    match quoted_attr(attrs, "NAME")? {
        Some(name) => {
            let value = required(quoted_attr(attrs, "VALUE"))?;
            Ok(Variable::Name((name, value)))
        },
        None => {
            let name = required(quoted_attr(attrs, "IMPORT"))?;
            Ok(Variable::Import(name))
        },
    }
}

} // verus!
