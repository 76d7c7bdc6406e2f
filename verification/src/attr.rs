use vstd::prelude::*;
use vstd::slice::*;
use vstd::string::*;
use crate::error::{ParseError, ParseErrorView, Reason};
use crate::model::{lemma_views_push, views};
use crate::number::{
    decimal_integer, decimal_number, is_hex, is_hex_sequence, parse_decimal, parse_resolution,
    parse_u64, resolution_of, Decimal, Resolution,
};
use crate::text::{
    find_char, find_from, lemma_find_from, lemma_find_from_unique, same_text, text_of,
};
use crate::vars::{expand, substitute, Binding, BindingView};

verus! {

/// The value of one attribute.
#[derive(Clone, Debug, PartialEq, Eq)]
pub enum AttrValue {
    /// A text that was written between quotes.
    Quoted(String),
    /// A token that is none of the kinds below.
    Enumerated(String),
    Integer(u64),
    Decimal(Decimal),
    /// A hexadecimal sequence, with its `0x` prefix.
    Hex(String),
    Resolution(Resolution),
}

/// The mathematical view of `AttrValue`: texts and lists as sequences.
pub enum AttrValueView {
    Quoted(Seq<char>),
    Enumerated(Seq<char>),
    Integer(u64),
    Decimal(Decimal),
    Hex(Seq<char>),
    Resolution(Resolution),
}

impl View for AttrValue {
    type V = AttrValueView;

    open spec fn view(&self) -> AttrValueView {
        match self {
            AttrValue::Quoted(t) => AttrValueView::Quoted(t@),
            AttrValue::Enumerated(t) => AttrValueView::Enumerated(t@),
            AttrValue::Integer(n) => AttrValueView::Integer(*n),
            AttrValue::Decimal(d) => AttrValueView::Decimal(*d),
            AttrValue::Hex(t) => AttrValueView::Hex(t@),
            AttrValue::Resolution(r) => AttrValueView::Resolution(*r),
        }
    }
}

/// One attribute of a tag: a name and a value.
#[derive(Clone, Debug, PartialEq, Eq)]
pub struct Attribute {
    pub name: String,
    pub value: AttrValue,
}

/// The mathematical view of `Attribute`: texts and lists as sequences.
pub struct AttributeView {
    pub name: Seq<char>,
    pub value: AttrValueView,
}

impl View for Attribute {
    type V = AttributeView;

    open spec fn view(&self) -> AttributeView {
        AttributeView { name: self.name@, value: self.value@ }
    }
}

/// One item of an attribute list as it was written: the name, whether the
/// value stood between quotes, and the value without them.
pub struct RawAttribute {
    pub name: Seq<char>,
    pub quoted: bool,
    pub text: Seq<char>,
}

/// One item of an attribute list, as parts of the payload.
pub struct RawItem<'a> {
    pub name: &'a [char],
    pub quoted: bool,
    pub text: &'a [char],
}

impl<'a> View for RawItem<'a> {
    type V = RawAttribute;

    open spec fn view(&self) -> RawAttribute {
        RawAttribute { name: self.name@, quoted: self.quoted, text: self.text@ }
    }
}

/// `items` followed by `rest`, when there is a `rest`.
pub open spec fn followed_by(items: Seq<RawAttribute>, rest: Option<Seq<RawAttribute>>) -> Option<
    Seq<RawAttribute>,
> {
    match rest {
        Some(tail) => Some(items + tail),
        None => None,
    }
}

/// The items of the attribute list that starts at `pos` and runs to the end
/// of `s`; `None` when the text there is no attribute list.
///
/// An item is a name, `=` and a value.  The name is not empty and holds no
/// comma.  A value that starts with a quote runs to the next quote, whatever
/// stands between the two, and is followed by a comma or by the end.  Any
/// other value runs to the next comma or to the end and holds no quote.
pub open spec fn raw_items(s: Seq<char>, pos: int) -> Option<Seq<RawAttribute>>
    decreases s.len() - pos,
{
    let eq = find_from(s, '=', pos);
    if pos < 0 || eq >= s.len() || eq <= pos || s.subrange(pos, eq).contains(',') {
        None
    } else if eq + 1 < s.len() && s[eq + 1] == '"' {
        let close = find_from(s, '"', eq + 2);
        let item = RawAttribute {
            name: s.subrange(pos, eq),
            quoted: true,
            text: s.subrange(eq + 2, close),
        };
        proof {
            lemma_find_from(s, '"', eq + 2);
        }
        if close >= s.len() {
            None
        } else if close + 1 == s.len() {
            Some(seq![item])
        } else if s[close + 1] == ',' {
            followed_by(seq![item], raw_items(s, close + 2))
        } else {
            None
        }
    } else {
        let end = find_from(s, ',', eq + 1);
        let item = RawAttribute {
            name: s.subrange(pos, eq),
            quoted: false,
            text: s.subrange(eq + 1, end),
        };
        proof {
            lemma_find_from(s, ',', eq + 1);
        }
        if item.text.contains('"') {
            None
        } else if end >= s.len() {
            Some(seq![item])
        } else {
            followed_by(seq![item], raw_items(s, end + 1))
        }
    }
}

/// The items of an attribute list; an empty payload is the empty list.
pub open spec fn raw_attribute_list(s: Seq<char>) -> Option<Seq<RawAttribute>> {
    if s.len() == 0 {
        Some(Seq::empty())
    } else {
        raw_items(s, 0)
    }
}

/// Whether `s` holds `c`.
pub fn has_char(s: &[char], c: char) -> (found: bool)
    ensures
        found == s@.contains(c),
{
    let at = find_char(s, c, 0);
    at < s.len()
}

/// Splits an attribute list into its items.
pub fn scan_attributes<'a>(s: &'a [char]) -> (res: Option<Vec<RawItem<'a>>>)
    ensures
        match res {
            Some(items) => raw_attribute_list(s@) == Some(views(items@)),
            None => raw_attribute_list(s@) is None,
        },
{
    let n = s.len();
    let mut items: Vec<RawItem<'a>> = Vec::new();
    if n == 0 {
        assert(views(items@) =~= Seq::<RawAttribute>::empty());
        return Some(items);
    }
    let mut pos: usize = 0;
    proof {
        match raw_items(s@, 0) {
            Some(rest) => {
                assert(views(items@) + rest =~= rest);
            },
            None => {},
        }
    }
    loop
        invariant
            pos <= n,
            n == s@.len(),
            n > 0,
            raw_items(s@, 0) == followed_by(views(items@), raw_items(s@, pos as int)),
        decreases n - pos,
    {
        let eq = find_char(s, '=', pos);
        if eq >= n || eq == pos {
            return None;
        }
        let name = slice_subrange(s, pos, eq);
        if has_char(name, ',') {
            return None;
        }
        let ghost before = views(items@);
        if eq + 1 < n && s[eq + 1] == '"' {
            let close = find_char(s, '"', eq + 2);
            if close >= n {
                return None;
            }
            let item = RawItem { name, quoted: true, text: slice_subrange(s, eq + 2, close) };
            proof {
                lemma_views_push(items@, item);
            }
            items.push(item);
            if close + 1 == n {
                assert(before + seq![item@] =~= views(items@));
                return Some(items);
            }
            if s[close + 1] != ',' {
                return None;
            }
            proof {
                match raw_items(s@, close + 2) {
                    Some(rest) => {
                        assert(before + (seq![item@] + rest) =~= views(items@) + rest);
                    },
                    None => {},
                }
            }
            pos = close + 2;
        } else {
            let end = find_char(s, ',', eq + 1);
            let text = slice_subrange(s, eq + 1, end);
            if has_char(text, '"') {
                return None;
            }
            let item = RawItem { name, quoted: false, text };
            proof {
                lemma_views_push(items@, item);
            }
            items.push(item);
            if end >= n {
                assert(before + seq![item@] =~= views(items@));
                return Some(items);
            }
            proof {
                match raw_items(s@, end + 1) {
                    Some(rest) => {
                        assert(before + (seq![item@] + rest) =~= views(items@) + rest);
                    },
                    None => {},
                }
            }
            pos = end + 1;
        }
    }
}

/// The value that a token written without quotes denotes.
pub open spec fn token_value(t: Seq<char>) -> AttrValueView {
    if decimal_integer(t) is Some {
        AttrValueView::Integer(decimal_integer(t)->Some_0)
    } else if decimal_number(t) is Some {
        AttrValueView::Decimal(decimal_number(t)->Some_0)
    } else if is_hex_sequence(t) {
        AttrValueView::Hex(t)
    } else if resolution_of(t) is Some {
        AttrValueView::Resolution(resolution_of(t)->Some_0)
    } else {
        AttrValueView::Enumerated(t)
    }
}

/// Reads a token written without quotes.
pub fn classify_token(t: &[char]) -> (value: AttrValue)
    ensures
        value@ == token_value(t@),
{
    if let Some(n) = parse_u64(t) {
        return AttrValue::Integer(n);
    }
    if let Some(d) = parse_decimal(t) {
        return AttrValue::Decimal(d);
    }
    if is_hex(t) {
        return AttrValue::Hex(text_of(t));
    }
    if let Some(r) = parse_resolution(t) {
        return AttrValue::Resolution(r);
    }
    AttrValue::Enumerated(text_of(t))
}

/// The attribute that an item gives once the variables in its value are
/// replaced.
pub open spec fn resolve_one(raw: RawAttribute, bindings: Seq<BindingView>) -> Result<
    AttributeView,
    ParseErrorView,
> {
    match expand(bindings, raw.text) {
        Err(name) => Err(ParseErrorView::UnresolvedVariable { name }),
        Ok(text) => Ok(
            AttributeView {
                name: raw.name,
                value: if raw.quoted {
                    AttrValueView::Quoted(text)
                } else {
                    token_value(text)
                },
            },
        ),
    }
}

/// The attributes that the items give, in order; the error of the first item
/// that gives none.
pub open spec fn resolve_all(raw: Seq<RawAttribute>, bindings: Seq<BindingView>) -> Result<
    Seq<AttributeView>,
    ParseErrorView,
>
    decreases raw.len(),
{
    if raw.len() == 0 {
        Ok(Seq::empty())
    } else {
        match resolve_all(raw.drop_last(), bindings) {
            Err(e) => Err(e),
            Ok(done) => match resolve_one(raw.last(), bindings) {
                Ok(a) => Ok(done.push(a)),
                Err(e) => Err(e),
            },
        }
    }
}

/// The attributes of a payload.
pub open spec fn attributes_of(payload: Seq<char>, bindings: Seq<BindingView>) -> Result<
    Seq<AttributeView>,
    ParseErrorView,
> {
    match raw_attribute_list(payload) {
        None => Err(ParseErrorView::MalformedAttributeList { raw_payload: payload }),
        Some(raw) => resolve_all(raw, bindings),
    }
}

/// Reads the attribute list `payload`, replacing the variables in its values.
pub fn parse_attributes(payload: &[char], bindings: &Vec<Binding>) -> (res: Result<
    Vec<Attribute>,
    ParseError,
>)
    ensures
        match res {
            Ok(attrs) => attributes_of(payload@, views(bindings@)) == Ok::<
                Seq<AttributeView>,
                ParseErrorView,
            >(views(attrs@)),
            Err(e) => attributes_of(payload@, views(bindings@)) == Err::<
                Seq<AttributeView>,
                ParseErrorView,
            >(e@),
        },
{
    let items = match scan_attributes(payload) {
        Some(items) => items,
        None => {
            return Err(ParseError::MalformedAttributeList { raw_payload: text_of(payload) });
        },
    };
    let ghost raw = views(items@);
    let ghost b = views(bindings@);
    let mut attrs: Vec<Attribute> = Vec::new();
    let mut i: usize = 0;
    assert(raw.take(0) =~= Seq::<RawAttribute>::empty());
    assert(views(attrs@) =~= Seq::<AttributeView>::empty());
    while i < items.len()
        invariant
            i <= items@.len(),
            raw == views(items@),
            b == views(bindings@),
            raw_attribute_list(payload@) == Some(raw),
            resolve_all(raw.take(i as int), b) == Ok::<Seq<AttributeView>, ParseErrorView>(
                views(attrs@),
            ),
        decreases items@.len() - i,
    {
        let item = &items[i];
        proof {
            assert(raw.take(i + 1).drop_last() =~= raw.take(i as int));
            assert(raw.take(i + 1).last() == item@);
        }
        let text = match substitute(bindings, item.text) {
            Ok(text) => text,
            Err(name) => {
                proof {
                    let e = ParseErrorView::UnresolvedVariable { name: name@ };
                    assert(resolve_one(item@, b) == Err::<AttributeView, ParseErrorView>(e));
                    assert(resolve_all(raw.take(i + 1), b) == Err::<
                        Seq<AttributeView>,
                        ParseErrorView,
                    >(e));
                    lemma_resolve_all_error(raw, b, i + 1);
                }
                return Err(ParseError::UnresolvedVariable { name });
            },
        };
        let value = if item.quoted {
            AttrValue::Quoted(text_of(text.as_slice()))
        } else {
            classify_token(text.as_slice())
        };
        let attr = Attribute { name: text_of(item.name), value };
        proof {
            lemma_views_push(attrs@, attr);
        }
        attrs.push(attr);
        i += 1;
    }
    assert(raw.take(items@.len() as int) =~= raw);
    Ok(attrs)
}

/// An error among the first `n` items is the error of the whole list.
pub proof fn lemma_resolve_all_error(raw: Seq<RawAttribute>, bindings: Seq<BindingView>, n: int)
    requires
        0 <= n <= raw.len(),
        resolve_all(raw.take(n), bindings) is Err,
    ensures
        resolve_all(raw, bindings) == resolve_all(raw.take(n), bindings),
    decreases raw.len() - n,
{
    if n < raw.len() {
        assert(raw.take(n + 1).drop_last() =~= raw.take(n));
        lemma_resolve_all_error(raw, bindings, n + 1);
    } else {
        assert(raw.take(n) =~= raw);
    }
}

/// The value of the first attribute called `name`.
pub open spec fn value_of(attrs: Seq<AttributeView>, name: Seq<char>) -> Option<AttrValueView>
    decreases attrs.len(),
{
    if attrs.len() == 0 {
        None
    } else if attrs[0].name == name {
        Some(attrs[0].value)
    } else {
        value_of(attrs.drop_first(), name)
    }
}

/// Finds the value of the first attribute called `name`.
pub fn find_value<'a>(attrs: &'a Vec<Attribute>, name: &str) -> (res: Option<&'a AttrValue>)
    ensures
        match res {
            Some(value) => value_of(views(attrs@), name@) == Some(value@),
            None => value_of(views(attrs@), name@) is None,
        },
{
    let ghost all = views(attrs@);
    let mut i: usize = 0;
    assert(all.skip(0) =~= all);
    while i < attrs.len()
        invariant
            i <= attrs@.len(),
            all == views(attrs@),
            value_of(all, name@) == value_of(all.skip(i as int), name@),
        decreases attrs@.len() - i,
    {
        proof {
            assert(all.skip(i as int)[0] == attrs@[i as int]@);
            assert(all.skip(i as int).drop_first() =~= all.skip(i + 1));
        }
        if same_text(attrs[i].name.as_str(), name) {
            return Some(&attrs[i].value);
        }
        i += 1;
    }
    None
}

/// What was found of an attribute that a tag needs.
pub open spec fn needed<T>(found: Result<Option<T>, Reason>) -> Result<T, Reason> {
    match found {
        Ok(Some(value)) => Ok(value),
        Ok(None) => Err(Reason::MissingAttribute),
        Err(reason) => Err(reason),
    }
}

/// Insists on an attribute that a tag needs.
pub fn required<T>(found: Result<Option<T>, Reason>) -> (res: Result<T, Reason>)
    ensures
        res == needed(found),
{
    match found {
        Ok(Some(value)) => Ok(value),
        Ok(None) => Err(Reason::MissingAttribute),
        Err(reason) => Err(reason),
    }
}

/// The view of what a lookup of a text gave.
pub open spec fn text_found(found: Result<Option<String>, Reason>) -> Result<
    Option<Seq<char>>,
    Reason,
> {
    match found {
        Ok(Some(t)) => Ok(Some(t@)),
        Ok(None) => Ok(None),
        Err(reason) => Err(reason),
    }
}

/// The quoted text of the attribute `name`: nothing when the attribute is not
/// there, an error when its value is of another kind.
pub open spec fn quoted_of(attrs: Seq<AttributeView>, name: Seq<char>) -> Result<
    Option<Seq<char>>,
    Reason,
> {
    match value_of(attrs, name) {
        None => Ok(None),
        Some(AttrValueView::Quoted(t)) => Ok(Some(t)),
        Some(_) => Err(Reason::InvalidAttribute),
    }
}

/// Reads the quoted text of the attribute `name`.
pub fn quoted_attr(attrs: &Vec<Attribute>, name: &str) -> (res: Result<Option<String>, Reason>)
    ensures
        text_found(res) == quoted_of(views(attrs@), name@),
{
    match find_value(attrs, name) {
        None => Ok(None),
        Some(AttrValue::Quoted(t)) => Ok(Some(t.clone())),
        Some(_) => Err(Reason::InvalidAttribute),
    }
}

/// The token of the attribute `name`, for an attribute whose values are
/// words.
pub open spec fn token_of(attrs: Seq<AttributeView>, name: Seq<char>) -> Result<
    Option<Seq<char>>,
    Reason,
> {
    match value_of(attrs, name) {
        None => Ok(None),
        Some(AttrValueView::Enumerated(t)) => Ok(Some(t)),
        Some(_) => Err(Reason::InvalidAttribute),
    }
}

/// Reads the token of the attribute `name`.
pub fn token_attr(attrs: &Vec<Attribute>, name: &str) -> (res: Result<Option<String>, Reason>)
    ensures
        text_found(res) == token_of(views(attrs@), name@),
{
    match find_value(attrs, name) {
        None => Ok(None),
        Some(AttrValue::Enumerated(t)) => Ok(Some(t.clone())),
        Some(_) => Err(Reason::InvalidAttribute),
    }
}

/// The hexadecimal sequence of the attribute `name`.
pub open spec fn hex_of(attrs: Seq<AttributeView>, name: Seq<char>) -> Result<
    Option<Seq<char>>,
    Reason,
> {
    match value_of(attrs, name) {
        None => Ok(None),
        Some(AttrValueView::Hex(t)) => Ok(Some(t)),
        Some(_) => Err(Reason::InvalidAttribute),
    }
}

/// Reads the hexadecimal sequence of the attribute `name`.
pub fn hex_attr(attrs: &Vec<Attribute>, name: &str) -> (res: Result<Option<String>, Reason>)
    ensures
        text_found(res) == hex_of(views(attrs@), name@),
{
    match find_value(attrs, name) {
        None => Ok(None),
        Some(AttrValue::Hex(t)) => Ok(Some(t.clone())),
        Some(_) => Err(Reason::InvalidAttribute),
    }
}

/// The integer of the attribute `name`.
pub open spec fn integer_of(attrs: Seq<AttributeView>, name: Seq<char>) -> Result<
    Option<u64>,
    Reason,
> {
    match value_of(attrs, name) {
        None => Ok(None),
        Some(AttrValueView::Integer(n)) => Ok(Some(n)),
        Some(_) => Err(Reason::InvalidAttribute),
    }
}

/// Reads the integer of the attribute `name`.
pub fn integer_attr(attrs: &Vec<Attribute>, name: &str) -> (res: Result<Option<u64>, Reason>)
    ensures
        res == integer_of(views(attrs@), name@),
{
    match find_value(attrs, name) {
        None => Ok(None),
        Some(AttrValue::Integer(n)) => Ok(Some(*n)),
        Some(_) => Err(Reason::InvalidAttribute),
    }
}

/// The decimal number of the attribute `name`; an integer counts as one.
pub open spec fn decimal_of(attrs: Seq<AttributeView>, name: Seq<char>) -> Result<
    Option<Decimal>,
    Reason,
> {
    match value_of(attrs, name) {
        None => Ok(None),
        Some(AttrValueView::Decimal(d)) => Ok(Some(d)),
        Some(AttrValueView::Integer(n)) => Ok(
            Some(Decimal { negative: false, mantissa: n, scale: 0 }),
        ),
        Some(_) => Err(Reason::InvalidAttribute),
    }
}

/// Reads the decimal number of the attribute `name`.
pub fn decimal_attr(attrs: &Vec<Attribute>, name: &str) -> (res: Result<Option<Decimal>, Reason>)
    ensures
        res == decimal_of(views(attrs@), name@),
{
    match find_value(attrs, name) {
        None => Ok(None),
        Some(AttrValue::Decimal(d)) => Ok(Some(*d)),
        Some(AttrValue::Integer(n)) => Ok(Some(Decimal::from_integer(*n))),
        Some(_) => Err(Reason::InvalidAttribute),
    }
}

/// The resolution of the attribute `name`.
pub open spec fn resolution_attr_of(attrs: Seq<AttributeView>, name: Seq<char>) -> Result<
    Option<Resolution>,
    Reason,
> {
    match value_of(attrs, name) {
        None => Ok(None),
        Some(AttrValueView::Resolution(r)) => Ok(Some(r)),
        Some(_) => Err(Reason::InvalidAttribute),
    }
}

/// Reads the resolution of the attribute `name`.
pub fn resolution_attr(attrs: &Vec<Attribute>, name: &str) -> (res: Result<
    Option<Resolution>,
    Reason,
>)
    ensures
        res == resolution_attr_of(views(attrs@), name@),
{
    match find_value(attrs, name) {
        None => Ok(None),
        Some(AttrValue::Resolution(r)) => Ok(Some(*r)),
        Some(_) => Err(Reason::InvalidAttribute),
    }
}

/// The yes-or-no flag of the attribute `name`.
pub open spec fn flag_of(attrs: Seq<AttributeView>, name: Seq<char>) -> Result<
    Option<bool>,
    Reason,
> {
    match value_of(attrs, name) {
        None => Ok(None),
        Some(AttrValueView::Enumerated(t)) => if t == "YES"@ {
            Ok(Some(true))
        } else if t == "NO"@ {
            Ok(Some(false))
        } else {
            Err(Reason::InvalidAttribute)
        },
        Some(_) => Err(Reason::InvalidAttribute),
    }
}

/// Reads the yes-or-no flag of the attribute `name`.
pub fn flag_attr(attrs: &Vec<Attribute>, name: &str) -> (res: Result<Option<bool>, Reason>)
    ensures
        res == flag_of(views(attrs@), name@),
{
    match find_value(attrs, name) {
        None => Ok(None),
        Some(AttrValue::Enumerated(t)) => if same_text(t.as_str(), "YES") {
            Ok(Some(true))
        } else if same_text(t.as_str(), "NO") {
            Ok(Some(false))
        } else {
            Err(Reason::InvalidAttribute)
        },
        Some(_) => Err(Reason::InvalidAttribute),
    }
}

/// Looking for a character behind a prefix is looking for it in what
/// follows the prefix.
pub proof fn lemma_find_from_shift(prefix: Seq<char>, rest: Seq<char>, c: char, pos: int)
    requires
        0 <= pos <= rest.len(),
    ensures
        find_from(prefix + rest, c, prefix.len() + pos) == prefix.len() + find_from(rest, c, pos),
    decreases rest.len() - pos,
{
    let s = prefix + rest;
    if pos < rest.len() {
        assert(s[prefix.len() + pos] == rest[pos]);
        if rest[pos] != c {
            lemma_find_from_shift(prefix, rest, c, pos + 1);
        }
    }
}

/// The items of an attribute list do not depend on what stands before the
/// list.
pub proof fn lemma_raw_items_shift(prefix: Seq<char>, rest: Seq<char>, pos: int)
    requires
        0 <= pos <= rest.len(),
    ensures
        raw_items(prefix + rest, prefix.len() + pos) == raw_items(rest, pos),
    decreases rest.len() - pos,
{
    let s = prefix + rest;
    let n = prefix.len() as int;
    let eq = find_from(rest, '=', pos);
    lemma_find_from_shift(prefix, rest, '=', pos);
    lemma_find_from(rest, '=', pos);
    if eq < rest.len() && eq > pos {
        assert(s.subrange(n + pos, n + eq) =~= rest.subrange(pos, eq));
        if eq + 1 < rest.len() {
            assert(s[n + eq + 1] == rest[eq + 1]);
        }
        if eq + 1 < rest.len() && rest[eq + 1] == '"' {
            let close = find_from(rest, '"', eq + 2);
            lemma_find_from_shift(prefix, rest, '"', eq + 2);
            lemma_find_from(rest, '"', eq + 2);
            assert(s.subrange(n + eq + 2, n + close) =~= rest.subrange(eq + 2, close));
            if close + 1 < rest.len() {
                assert(s[n + close + 1] == rest[close + 1]);
                if rest[close + 1] == ',' {
                    lemma_raw_items_shift(prefix, rest, close + 2);
                }
            }
        } else {
            let end = find_from(rest, ',', eq + 1);
            lemma_find_from_shift(prefix, rest, ',', eq + 1);
            lemma_find_from(rest, ',', eq + 1);
            assert(s.subrange(n + eq + 1, n + end) =~= rest.subrange(eq + 1, end));
            if end < rest.len() {
                lemma_raw_items_shift(prefix, rest, end + 1);
            }
        }
    }
}

/// A comma between quotes does not separate.  An item whose value stands
/// between quotes is one attribute, whatever commas the value holds, and the
/// items that follow it are those of the text behind its comma.
pub proof fn lemma_quoted_value_is_one_item(name: Seq<char>, text: Seq<char>, rest: Seq<char>)
    requires
        name.len() > 0,
        !name.contains('='),
        !name.contains(','),
        !text.contains('"'),
    ensures
        raw_attribute_list(name + seq!['=', '"'] + text + seq!['"', ','] + rest) == followed_by(
            seq![RawAttribute { name, quoted: true, text }],
            raw_items(rest, 0),
        ),
{
    let head = name + seq!['=', '"'] + text + seq!['"', ','];
    let s = head + rest;
    let eq = name.len() as int;
    let close = eq + 2 + text.len();
    assert(s.len() == head.len() + rest.len());
    assert(head.len() == close + 2);
    assert forall|j: int| 0 <= j < eq implies s[j] != '=' by {
        assert(s[j] == name[j]);
        assert(name.contains(name[j]));
    }
    assert(s[eq] == '=');
    lemma_find_from_unique(s, '=', 0, eq);
    assert(s.subrange(0, eq) =~= name);
    assert(s[eq + 1] == '"');
    assert forall|j: int| eq + 2 <= j < close implies s[j] != '"' by {
        assert(s[j] == text[j - eq - 2]);
        assert(text.contains(text[j - eq - 2]));
    }
    assert(s[close] == '"');
    lemma_find_from_unique(s, '"', eq + 2, close);
    assert(s.subrange(eq + 2, close) =~= text);
    assert(s[close + 1] == ',');
    lemma_raw_items_shift(head, rest, 0);
}

/// The same for the last item of a list: the closing quote ends the list.
pub proof fn lemma_quoted_value_ends_list(name: Seq<char>, text: Seq<char>)
    requires
        name.len() > 0,
        !name.contains('='),
        !name.contains(','),
        !text.contains('"'),
    ensures
        raw_attribute_list(name + seq!['=', '"'] + text + seq!['"']) == Some(
            seq![RawAttribute { name, quoted: true, text }],
        ),
{
    let s = name + seq!['=', '"'] + text + seq!['"'];
    let eq = name.len() as int;
    let close = eq + 2 + text.len();
    assert(s.len() == close + 1);
    assert forall|j: int| 0 <= j < eq implies s[j] != '=' by {
        assert(s[j] == name[j]);
        assert(name.contains(name[j]));
    }
    assert(s[eq] == '=');
    lemma_find_from_unique(s, '=', 0, eq);
    assert(s.subrange(0, eq) =~= name);
    assert(s[eq + 1] == '"');
    assert forall|j: int| eq + 2 <= j < close implies s[j] != '"' by {
        assert(s[j] == text[j - eq - 2]);
        assert(text.contains(text[j - eq - 2]));
    }
    assert(s[close] == '"');
    lemma_find_from_unique(s, '"', eq + 2, close);
    assert(s.subrange(eq + 2, close) =~= text);
}

} // verus!
