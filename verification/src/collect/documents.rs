//! JSON and XML documents as their readers give them.
use quick_xml::events::attributes::Attributes;
use quick_xml::events::{BytesStart, Event};
use quick_xml::reader::Reader;
use vstd::prelude::*;
use crate::binary64::Binary64;

verus! {

/// A JSON value of serde_json, read through the functions below.
#[verifier::external_type_specification]
#[verifier::external_body]
pub struct ExJsonValue(serde_json::Value);

/// What a JSON value is. A number is known by its value as an unsigned integer,
/// where it was written as one that fits, and by its binary64 bits.
pub enum JsonTree {
    Members(Map<Seq<char>, JsonTree>),
    Number { natural: Option<u64>, bits: u64 },
    Text(Seq<char>),
    Other,
}

/// The document that serde_json reads from a text, or `None` where it reads none.
pub uninterp spec fn json_document(contents: Seq<char>) -> Option<JsonTree>;

/// What a JSON value holds.
pub uninterp spec fn json_tree(value: serde_json::Value) -> JsonTree;

/// The member of an object.
pub open spec fn json_member(tree: JsonTree, key: Seq<char>) -> Option<JsonTree> {
    match tree {
        JsonTree::Members(members) => if members.dom().contains(key) {
            Some(members[key])
        } else {
            None
        },
        _ => None,
    }
}

/// `serde_json::from_str` to a `Value`: the document that the text writes, and
/// nothing where the text is no JSON document. What a text means takes pages and
/// depends on the text alone, so it has a name.
#[verifier::external_body]
pub(crate) fn read_json(contents: &str) -> (value: Option<serde_json::Value>)
    ensures
        value is Some == json_document(contents@) is Some,
        value is Some ==> json_tree(value->0) == json_document(contents@)->0,
{
    serde_json::from_str(contents).ok()
}

/// `serde_json::Value::get` by a string: the member of an object under that key,
/// and nothing of any other value.
#[verifier::external_body]
pub(crate) fn json_get<'a>(value: &'a serde_json::Value, key: &str) -> (found: Option<
    &'a serde_json::Value,
>)
    ensures
        found is Some == json_member(json_tree(*value), key@) is Some,
        found is Some ==> json_tree(*found->0) == json_member(json_tree(*value), key@)->0,
{
    value.get(key)
}

/// `serde_json::Value::as_u64`: the number where it was written as an unsigned
/// integer of 64 bits.
#[verifier::external_body]
pub(crate) fn json_natural(value: &serde_json::Value) -> (number: Option<u64>)
    ensures
        number == match json_tree(*value) {
            JsonTree::Number { natural, .. } => natural,
            _ => None,
        },
{
    value.as_u64()
}

/// `serde_json::Value::as_f64`, by its bits: the number of every number.
#[verifier::external_body]
pub(crate) fn json_number(value: &serde_json::Value) -> (number: Option<Binary64>)
    ensures
        number == match json_tree(*value) {
            JsonTree::Number { bits, .. } => Some(Binary64 { bits }),
            _ => None,
        },
{
    value.as_f64().map(|number| Binary64 { bits: number.to_bits() })
}

/// `serde_json::Value::as_str`: the text of a string.
#[verifier::external_body]
pub(crate) fn json_text(value: &serde_json::Value) -> (text: Option<&str>)
    ensures
        text is Some == json_tree(*value) is Text,
        text is Some ==> text->0@ == json_tree(*value)->Text_0,
{
    value.as_str()
}

/// A pull reader of quick-xml, read through the functions below.
#[verifier::external_type_specification]
#[verifier::external_body]
#[verifier::reject_recursive_types(R)]
pub struct ExXmlReader<R>(quick_xml::reader::Reader<R>);

/// The name and attributes of a tag. An attribute that is not well-formed is
/// `None`; one whose value cannot be normalized has none.
pub struct Tag {
    pub name: String,
    pub attributes: Vec<Option<(String, Option<String>)>>,
}

/// One event of an XML document: `Text` stands for character data, `Other` for
/// comments, declarations, instructions, document types and references.
pub enum Markup {
    Start(Tag),
    Empty(Tag),
    End,
    Text(String),
    Other,
    Finished,
    Malformed,
}

pub type AttributeView = Option<(Seq<char>, Option<Seq<char>>)>;

pub struct TagView {
    pub name: Seq<char>,
    pub attributes: Seq<AttributeView>,
}

pub enum MarkupView {
    Start(TagView),
    Empty(TagView),
    End,
    Text(Seq<char>),
    Other,
    Finished,
    Malformed,
}

pub open spec fn attribute_view(attribute: Option<(String, Option<String>)>) -> AttributeView {
    match attribute {
        Some(pair) => Some((pair.0@, crate::strings::optional_text(pair.1))),
        None => None,
    }
}

impl View for Tag {
    type V = TagView;

    open spec fn view(&self) -> TagView {
        TagView {
            name: self.name@,
            attributes: Seq::new(
                self.attributes@.len(),
                |i: int| attribute_view(self.attributes@[i]),
            ),
        }
    }
}

impl View for Markup {
    type V = MarkupView;

    open spec fn view(&self) -> MarkupView {
        match *self {
            Markup::Start(tag) => MarkupView::Start(tag@),
            Markup::Empty(tag) => MarkupView::Empty(tag@),
            Markup::End => MarkupView::End,
            Markup::Text(text) => MarkupView::Text(text@),
            Markup::Other => MarkupView::Other,
            Markup::Finished => MarkupView::Finished,
            Markup::Malformed => MarkupView::Malformed,
        }
    }
}

/// A tag as it is written: its name, and what stands behind it.
pub struct RawTag {
    pub name: String,
    pub rest: String,
}

/// One event of an XML document, its tags as they are written.
pub enum RawMarkup {
    Start(RawTag),
    Empty(RawTag),
    End,
    Text(String),
    Other,
    Finished,
    Malformed,
}

pub enum RawMarkupView {
    Start { name: Seq<char>, rest: Seq<char> },
    Empty { name: Seq<char>, rest: Seq<char> },
    End,
    Text(Seq<char>),
    Other,
    Finished,
    Malformed,
}

impl View for RawMarkup {
    type V = RawMarkupView;

    open spec fn view(&self) -> RawMarkupView {
        match *self {
            RawMarkup::Start(tag) => RawMarkupView::Start { name: tag.name@, rest: tag.rest@ },
            RawMarkup::Empty(tag) => RawMarkupView::Empty { name: tag.name@, rest: tag.rest@ },
            RawMarkup::End => RawMarkupView::End,
            RawMarkup::Text(text) => RawMarkupView::Text(text@),
            RawMarkup::Other => RawMarkupView::Other,
            RawMarkup::Finished => RawMarkupView::Finished,
            RawMarkup::Malformed => RawMarkupView::Malformed,
        }
    }
}

/// The events that quick-xml reads from a text with all its checks on, up to
/// and with the end of the text or the first error.
pub uninterp spec fn xml_markup(contents: Seq<char>) -> Seq<RawMarkupView>;

/// The events that a reader has yet to give, up to and with the end or an error.
pub uninterp spec fn xml_left(reader: Reader<&[u8]>) -> Seq<RawMarkupView>;

/// The attributes that quick-xml reads from what stands behind a tag's name.
pub uninterp spec fn attribute_list(rest: Seq<char>) -> Seq<AttributeView>;

/// An event with the attributes of its tag.
pub open spec fn marked_up(raw: RawMarkupView) -> MarkupView {
    match raw {
        RawMarkupView::Start { name, rest } => MarkupView::Start(
            TagView { name, attributes: attribute_list(rest) },
        ),
        RawMarkupView::Empty { name, rest } => MarkupView::Empty(
            TagView { name, attributes: attribute_list(rest) },
        ),
        RawMarkupView::End => MarkupView::End,
        RawMarkupView::Text(text) => MarkupView::Text(text),
        RawMarkupView::Other => MarkupView::Other,
        RawMarkupView::Finished => MarkupView::Finished,
        RawMarkupView::Malformed => MarkupView::Malformed,
    }
}

/// The events of a text, with the attributes of their tags.
pub open spec fn xml_events(contents: Seq<char>) -> Seq<MarkupView> {
    xml_markup(contents).map_values(|raw: RawMarkupView| marked_up(raw))
}

/// The events that a reader has yet to give, with the attributes of their tags.
pub open spec fn xml_pending(reader: Reader<&[u8]>) -> Seq<MarkupView> {
    xml_left(reader).map_values(|raw: RawMarkupView| marked_up(raw))
}

/// `Reader::from_str` of quick-xml with every check enabled: a reader of the
/// text's events. There is always one event to come, if only the end.
#[verifier::external_body]
pub(crate) fn xml_reader(contents: &str) -> (reader: Reader<&[u8]>)
    ensures
        xml_left(reader) == xml_markup(contents@),
        xml_left(reader).len() > 0,
{
    let mut reader = Reader::from_str(contents);
    reader.config_mut().enable_all_checks(true);
    reader
}

/// `Reader::read_event` of quick-xml: the next event, with a tag's name and
/// `BytesStart::attributes_raw`. The end of the text or an error comes last, and
/// nothing before it is either.
#[verifier::external_body]
fn read_markup(reader: &mut Reader<&[u8]>) -> (found: RawMarkup)
    requires
        xml_left(*old(reader)).len() > 0,
    ensures
        found@ == xml_left(*old(reader))[0],
        xml_left(*final(reader)) == xml_left(*old(reader)).skip(1),
        (found is Finished || found is Malformed) == (xml_left(*final(reader)).len() == 0),
{
    let tag = |tag: BytesStart| RawTag { name: tag.name().as_ref().to_owned(),
        rest: tag.attributes_raw().to_owned() };
    match reader.read_event() {
        Ok(Event::Start(start)) => RawMarkup::Start(tag(start)),
        Ok(Event::Empty(start)) => RawMarkup::Empty(tag(start)),
        Ok(Event::End(_)) => RawMarkup::End,
        Ok(Event::Text(text)) => RawMarkup::Text(text.as_ref().to_owned()),
        Ok(Event::CData(text)) => RawMarkup::Text(text.as_ref().to_owned()),
        Ok(Event::Eof) => RawMarkup::Finished,
        Ok(_) => RawMarkup::Other,
        Err(_) => RawMarkup::Malformed,
    }
}

pub open spec fn attribute_views(attributes: Seq<Option<(String, Option<String>)>>) -> Seq<
    AttributeView,
> {
    Seq::new(attributes.len(), |i: int| attribute_view(attributes[i]))
}

/// `Attributes::new` of quick-xml, each item with `Attribute::normalized_value`: the
/// attributes of a tag, one that is not well-formed as nothing, and a value that
/// cannot be normalized as none. They depend on the text alone.
#[verifier::external_body]
fn read_attributes(rest: &str) -> (attributes: Vec<Option<(String, Option<String>)>>)
    ensures
        attribute_views(attributes@) == attribute_list(rest@),
{
    Attributes::new(rest, 0).map(|item| item.ok().map(|pair| (pair.key.as_ref().to_owned(),
        pair.normalized_value(Default::default()).ok().map(|text| text.into_owned())))).collect()
}

fn read_tag(raw: RawTag) -> (tag: Tag)
    ensures
        tag@ == (TagView { name: raw.name@, attributes: attribute_list(raw.rest@) }),
{
    let attributes = read_attributes(raw.rest.as_str());
    assert(Seq::new(attributes@.len(), |i: int| attribute_view(attributes@[i]))
        =~= attribute_list(raw.rest@));
    Tag { name: raw.name, attributes }
}

/// The next event, with the attributes of its tag.
pub(crate) fn xml_next(reader: &mut Reader<&[u8]>) -> (found: Markup)
    requires
        xml_pending(*old(reader)).len() > 0,
    ensures
        found@ == xml_pending(*old(reader))[0],
        xml_pending(*final(reader)) == xml_pending(*old(reader)).skip(1),
        (found is Finished || found is Malformed) == (xml_pending(*final(reader)).len() == 0),
{
    let raw = read_markup(reader);
    assert(xml_pending(*reader) =~= xml_pending(*old(reader)).skip(1));
    match raw {
        RawMarkup::Start(tag) => Markup::Start(read_tag(tag)),
        RawMarkup::Empty(tag) => Markup::Empty(read_tag(tag)),
        RawMarkup::End => Markup::End,
        RawMarkup::Text(text) => Markup::Text(text),
        RawMarkup::Other => Markup::Other,
        RawMarkup::Finished => Markup::Finished,
        RawMarkup::Malformed => Markup::Malformed,
    }
}

} // verus!
