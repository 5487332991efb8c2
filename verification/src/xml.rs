//! XML event stream, read with quick_xml and held as plain values.
//!
//! A document is read once, front to back, into a list of [`XmlEvent`]s, the
//! way quick_xml's reader hands them out with text trimming switched on. The
//! readers of the library's file types then walk that list.
use vstd::prelude::*;
use quick_xml::events::{BytesCData, BytesStart, BytesText, Event};
use quick_xml::events::attributes::{AttrError, Attribute, Attributes};
use quick_xml::name::QName;
use quick_xml::Reader;
use crate::text::{str_eq, to_chars};

verus! {

#[verifier::external_type_specification]
#[verifier::external_body]
#[verifier::reject_recursive_types(R)]
pub struct ExXmlReader<R>(Reader<R>);

#[verifier::external_type_specification]
#[verifier::external_body]
pub struct ExBytesStart<'a>(BytesStart<'a>);

#[verifier::external_type_specification]
#[verifier::external_body]
pub struct ExBytesText<'a>(BytesText<'a>);

#[verifier::external_type_specification]
#[verifier::external_body]
pub struct ExBytesCData<'a>(BytesCData<'a>);

#[verifier::external_type_specification]
#[verifier::external_body]
pub struct ExAttributes<'a>(Attributes<'a>);

#[verifier::external_type_specification]
#[verifier::external_body]
pub struct ExAttribute<'a>(Attribute<'a>);

#[verifier::external_type_specification]
#[verifier::external_body]
pub struct ExAttrError(AttrError);

/// One attribute of a tag; `value` is `None` where its value could not be unescaped.
#[derive(Clone, Debug)]
pub struct XmlAttribute {
    /// attribute name
    pub key: String,
    /// unescaped attribute value
    pub value: Option<String>,
}

/// A start or self-closing tag.
#[derive(Clone, Debug)]
pub struct XmlTag {
    /// tag name
    pub name: String,
    /// attributes, in document order, up to the first malformed one
    pub attributes: Vec<XmlAttribute>,
    /// raw content up to the matching end tag, markup included, where the
    /// document has one (for self-closing tags: `None`)
    pub inner: Option<String>,
}

/// One XML event.
#[derive(Clone, Debug)]
pub enum XmlEvent {
    /// `<?xml ... ?>` declaration
    Decl,
    /// start tag
    Start(XmlTag),
    /// self-closing tag
    Empty(XmlTag),
    /// end tag, by name
    End(String),
    /// text: raw, and unescaped where that succeeds
    Text(String, Option<String>),
    /// CDATA section, where its content is UTF-8
    CData(Option<String>),
    /// comment, processing instruction, doctype
    Other,
    /// end of the document
    Eof,
    /// the reader reported an error
    Error,
}

/// What the reader hands out before it is turned into an [`XmlEvent`].
pub enum RawEvent<'a> {
    /// declaration
    Decl,
    /// start tag
    Start(BytesStart<'a>),
    /// self-closing tag
    Empty(BytesStart<'a>),
    /// end tag name
    End(String),
    /// text
    Text(BytesText<'a>),
    /// CDATA
    CData(BytesCData<'a>),
    /// anything else
    Other,
    /// end of input
    Eof,
    /// reader error
    Error,
}

/// One step of an attribute iterator.
pub enum AttributeStep {
    /// no more attributes
    Done,
    /// a malformed attribute
    Bad,
    /// name and unescaped value
    Attr(String, Option<String>),
}

/// quick_xml's `Reader::from_str` with `trim_text(true)` set on its config.
/// Nothing is stated of the reader: it is opaque.
#[verifier::external_body]
fn reader_new<'a>(text: &'a str) -> Reader<&'a [u8]> {
    let mut reader = Reader::from_str(text);
    reader.config_mut().trim_text(true);
    reader
}

/// quick_xml's `Reader::read_event`, one arm per event kind. The event that
/// comes back depends on how far the reader has read; nothing is stated of it.
#[verifier::external_body]
fn read_event<'a>(reader: &mut Reader<&'a [u8]>) -> RawEvent<'a> {
    match reader.read_event() {
        Ok(Event::Decl(_)) => RawEvent::Decl,
        Ok(Event::Start(e)) => RawEvent::Start(e),
        Ok(Event::Empty(e)) => RawEvent::Empty(e),
        Ok(Event::End(e)) => RawEvent::End(String::from_utf8_lossy(e.name().as_ref()).into_owned()),
        Ok(Event::Text(e)) => RawEvent::Text(e),
        Ok(Event::CData(e)) => RawEvent::CData(e),
        Ok(Event::Eof) => RawEvent::Eof,
        Ok(_) => RawEvent::Other,
        Err(_) => RawEvent::Error,
    }
}

/// quick_xml's `Reader::read_text` run on a copy of the reader: the raw
/// content up to the end tag `name`, or `None` where the reader fails to find
/// it. The reader itself does not move. Nothing is stated of the text.
#[verifier::external_body]
fn read_text_ahead<'a>(reader: &Reader<&'a [u8]>, name: &str) -> Option<String> {
    reader.clone().read_text(QName(name.as_bytes())).ok().map(|v| v.into_owned())
}

/// A tag's name, as `String::from_utf8` of quick_xml's `BytesStart::name`
/// (empty where that fails). Nothing is stated of it.
#[verifier::external_body]
fn tag_name(e: &BytesStart) -> String {
    String::from_utf8(e.name().as_ref().to_vec()).unwrap_or_default()
}

/// quick_xml's `BytesStart::attributes` with duplicate checks switched off,
/// as quick_xml's own `try_get_attribute` does. Opaque.
#[verifier::external_body]
fn tag_attributes<'b>(e: &'b BytesStart) -> Attributes<'b> {
    let mut it = e.attributes();
    it.with_checks(false);
    it
}

/// The next item of quick_xml's attribute iterator: key (from UTF-8) and
/// value (`Attribute::unescape_value`). Nothing is stated of it.
#[verifier::external_body]
fn next_attribute(it: &mut Attributes) -> AttributeStep {
    match it.next() {
        None => AttributeStep::Done,
        Some(Err(_)) => AttributeStep::Bad,
        Some(Ok(a)) => AttributeStep::Attr(
            String::from_utf8(a.key.as_ref().to_vec()).unwrap_or_default(),
            a.unescape_value().ok().map(|v| v.into_owned()),
        ),
    }
}

/// The raw (escaped) content of a text event, from UTF-8. Nothing is stated of it.
#[verifier::external_body]
fn text_raw(e: &BytesText) -> String {
    String::from_utf8_lossy(e.as_ref()).into_owned()
}

/// quick_xml's `BytesText::unescape`. Nothing is stated of it.
#[verifier::external_body]
fn text_unescaped(e: &BytesText) -> Option<String> {
    e.unescape().ok().map(|v| v.into_owned())
}

/// The content of a CDATA section, where it is UTF-8. Nothing is stated of it.
#[verifier::external_body]
fn cdata_text(e: &BytesCData) -> Option<String> {
    String::from_utf8(e.as_ref().to_vec()).ok()
}

/// The length in bytes of a tag's content (its name and attributes), as
/// quick_xml's `BytesStart` holds it. Nothing is stated of it.
#[verifier::external_body]
fn tag_len(e: &BytesStart) -> usize {
    e.len()
}

/// Collect the attributes of a tag, up to the first malformed one. Each
/// attribute takes at least one byte of the tag, so the reading is bounded
/// by the tag's length.
fn collect_attributes(e: &BytesStart) -> (r: Vec<XmlAttribute>) {
    let mut it = tag_attributes(e);
    let mut out: Vec<XmlAttribute> = Vec::new();
    let len = tag_len(e);
    let mut budget: usize = if len < usize::MAX { len + 1 } else { len };
    while budget > 0
        decreases budget,
    {
        budget = budget - 1;
        match next_attribute(&mut it) {
            AttributeStep::Attr(key, value) => out.push(XmlAttribute { key, value }),
            _ => break,
        }
    }
    out
}

/// Turn a start tag into plain values; `inner` is read ahead when asked.
fn make_tag<'a>(reader: &Reader<&'a [u8]>, e: &BytesStart<'a>, read_inner: bool) -> (r: XmlTag)
    ensures
        !read_inner ==> r.inner is None,
{
    let name = tag_name(e);
    let attributes = collect_attributes(e);
    let inner = if read_inner { read_text_ahead(reader, name.as_str()) } else { None };
    XmlTag { name, attributes, inner }
}

/// Read a whole document into events, the last one being `Eof`.
///
/// `Err(())` only where the reader does not reach the end of the document
/// within one event per byte of input plus two; quick_xml moves forward by at
/// least one byte for every event but the last.
pub fn read_events(text: &str) -> (r: Result<Vec<XmlEvent>, ()>)
    ensures
        r matches Ok(evs) ==> ends_with_eof(evs@) && eof_only_last(evs@) && self_closing_bare(evs@),
{
    let mut reader = reader_new(text);
    let mut out: Vec<XmlEvent> = Vec::new();
    let limit: usize = if text.len() < usize::MAX - 2 { text.len() + 2 } else { usize::MAX };
    let mut count: usize = 0;
    while count < limit
        invariant
            forall|i: int| 0 <= i < out@.len() ==> !(#[trigger] out@[i] is Eof),
            self_closing_bare(out@),
        decreases limit - count,
    {
        count = count + 1;
        let ev = match read_event(&mut reader) {
            RawEvent::Decl => XmlEvent::Decl,
            RawEvent::Start(e) => XmlEvent::Start(make_tag(&reader, &e, true)),
            RawEvent::Empty(e) => XmlEvent::Empty(make_tag(&reader, &e, false)),
            RawEvent::End(name) => XmlEvent::End(name),
            RawEvent::Text(e) => XmlEvent::Text(text_raw(&e), text_unescaped(&e)),
            RawEvent::CData(e) => XmlEvent::CData(cdata_text(&e)),
            RawEvent::Other => XmlEvent::Other,
            RawEvent::Eof => XmlEvent::Eof,
            RawEvent::Error => XmlEvent::Error,
        };
        let is_eof = matches!(ev, XmlEvent::Eof);
        out.push(ev);
        if is_eof {
            assert(ends_with_eof(out@));
            assert(eof_only_last(out@));
            return Ok(out);
        }
    }
    Err(())
}

/// No event but the last is `Eof`.
pub open spec fn eof_only_last(evs: Seq<XmlEvent>) -> bool {
    forall|i: int| 0 <= i < evs.len() - 1 ==> !(#[trigger] evs[i] is Eof)
}

/// No self-closing tag holds inner content.
pub open spec fn self_closing_bare(evs: Seq<XmlEvent>) -> bool {
    forall|i: int| 0 <= i < evs.len() ==> (#[trigger] evs[i] matches XmlEvent::Empty(t) ==> t.inner is None)
}

/// The event list is not empty and ends with `Eof`.
pub open spec fn ends_with_eof(evs: Seq<XmlEvent>) -> bool {
    evs.len() > 0 && evs.last() is Eof
}

} // verus!

verus! {

/// The characters of an optional string.
pub open spec fn opt_chars(o: Option<String>) -> Option<Seq<char>> {
    match o {
        Some(s) => Some(s@),
        None => None,
    }
}

/// Value of the first attribute named `name`, where it unescapes
/// (quick_xml's `try_get_attribute` then `unescape_value`).
pub open spec fn attr_value(attrs: Seq<XmlAttribute>, name: Seq<char>) -> Option<Seq<char>>
    decreases attrs.len(),
{
    if attrs.len() == 0 {
        None
    } else if attrs[0].key@ == name {
        opt_chars(attrs[0].value)
    } else {
        attr_value(attrs.drop_first(), name)
    }
}

/// Value of the attribute `name` of a tag.
pub open spec fn tag_attr(tag: XmlTag, name: Seq<char>) -> Option<Seq<char>> {
    attr_value(tag.attributes@, name)
}

/// Look up an attribute of a tag.
pub fn get_attribute(tag: &XmlTag, name: &str) -> (r: Option<String>)
    ensures
        opt_chars(r) == tag_attr(*tag, name@),
{
    let mut i: usize = 0;
    assert(tag.attributes@.skip(0) =~= tag.attributes@);
    while i < tag.attributes.len()
        invariant
            i <= tag.attributes@.len(),
            attr_value(tag.attributes@, name@) == attr_value(tag.attributes@.skip(i as int), name@),
        decreases tag.attributes.len() - i,
    {
        let ghost rest = tag.attributes@.skip(i as int);
        assert(rest.drop_first() =~= tag.attributes@.skip(i + 1));
        if str_eq(tag.attributes[i].key.as_str(), name) {
            return tag.attributes[i].value.clone();
        }
        i = i + 1;
    }
    None
}

/// Where quick_xml's `read_to_end` stops, started at event `j` with `depth`
/// open tags of the same name: after the matching end tag, after the first
/// error, or at the end of the document.
pub open spec fn skip_end(evs: Seq<XmlEvent>, j: int, name: Seq<char>, depth: nat) -> int
    decreases evs.len() - j,
{
    if j < 0 || j >= evs.len() {
        evs.len() as int
    } else {
        match evs[j] {
            XmlEvent::Error => j + 1,
            XmlEvent::Eof => j,
            XmlEvent::Start(t) => if t.name@ == name {
                skip_end(evs, j + 1, name, depth + 1)
            } else {
                skip_end(evs, j + 1, name, depth)
            },
            XmlEvent::End(n) => if n@ == name {
                if depth == 0 { j + 1 } else { skip_end(evs, j + 1, name, (depth - 1) as nat) }
            } else {
                skip_end(evs, j + 1, name, depth)
            },
            _ => skip_end(evs, j + 1, name, depth),
        }
    }
}

/// Did quick_xml's `read_to_end` find the matching end tag?
pub open spec fn skip_ok(evs: Seq<XmlEvent>, j: int, name: Seq<char>, depth: nat) -> bool
    decreases evs.len() - j,
{
    if j < 0 || j >= evs.len() {
        false
    } else {
        match evs[j] {
            XmlEvent::Error => false,
            XmlEvent::Eof => false,
            XmlEvent::Start(t) => if t.name@ == name {
                skip_ok(evs, j + 1, name, depth + 1)
            } else {
                skip_ok(evs, j + 1, name, depth)
            },
            XmlEvent::End(n) => if n@ == name {
                if depth == 0 { true } else { skip_ok(evs, j + 1, name, (depth - 1) as nat) }
            } else {
                skip_ok(evs, j + 1, name, depth)
            },
            _ => skip_ok(evs, j + 1, name, depth),
        }
    }
}

/// `skip_end` never moves backwards nor past the list.
pub proof fn lemma_skip_end_bounds(evs: Seq<XmlEvent>, j: int, name: Seq<char>, depth: nat)
    requires
        0 <= j <= evs.len(),
    ensures
        j <= skip_end(evs, j, name, depth) <= evs.len(),
    decreases evs.len() - j,
{
    if j < evs.len() {
        match evs[j] {
            XmlEvent::Error => {},
            XmlEvent::Eof => {},
            XmlEvent::Start(t) => if t.name@ == name {
                lemma_skip_end_bounds(evs, j + 1, name, depth + 1);
            } else {
                lemma_skip_end_bounds(evs, j + 1, name, depth);
            },
            XmlEvent::End(n) => if n@ == name {
                if depth != 0 { lemma_skip_end_bounds(evs, j + 1, name, (depth - 1) as nat); }
            } else {
                lemma_skip_end_bounds(evs, j + 1, name, depth);
            },
            _ => lemma_skip_end_bounds(evs, j + 1, name, depth),
        }
    }
}

/// Walk the events as quick_xml's `read_to_end` does: returns where it stops
/// and whether it found the end tag.
pub fn skip_to_end(evs: &Vec<XmlEvent>, j: usize, name: &str) -> (r: (usize, bool))
    requires
        j <= evs.len(),
    ensures
        r.0 as int == skip_end(evs@, j as int, name@, 0),
        r.1 == skip_ok(evs@, j as int, name@, 0),
        j <= r.0 <= evs.len(),
{
    proof { lemma_skip_end_bounds(evs@, j as int, name@, 0); }
    let mut k: usize = j;
    let mut depth: usize = 0;
    while k < evs.len()
        invariant
            j <= k <= evs.len(),
            skip_end(evs@, k as int, name@, depth as nat) == skip_end(evs@, j as int, name@, 0),
            skip_ok(evs@, k as int, name@, depth as nat) == skip_ok(evs@, j as int, name@, 0),
            depth <= k - j,
        decreases evs.len() - k,
    {
        match &evs[k] {
            XmlEvent::Error => { return (k + 1, false); },
            XmlEvent::Eof => { return (k, false); },
            XmlEvent::Start(t) => {
                if str_eq(t.name.as_str(), name) {
                    depth = depth + 1;
                }
            },
            XmlEvent::End(n) => {
                if str_eq(n.as_str(), name) {
                    if depth == 0 {
                        return (k + 1, true);
                    }
                    depth = depth - 1;
                }
            },
            _ => {},
        }
        k = k + 1;
    }
    (k, false)
}

} // verus!

verus! {

/// An attribute's value, or the empty text where the tag does not have it.
pub open spec fn attr_or_empty(tag: XmlTag, name: Seq<char>) -> Seq<char> {
    match tag_attr(tag, name) {
        Some(v) => v,
        None => Seq::empty(),
    }
}

/// quick_xml attribute read as a `usize` with `unwrap_or_default`:
/// `None` where the tag lacks it.
pub open spec fn attr_usize(tag: XmlTag, name: Seq<char>) -> Option<nat> {
    match tag_attr(tag, name) {
        Some(v) => Some(crate::text::unsigned_or_zero(v, usize::MAX as nat)),
        None => None,
    }
}

/// quick_xml attribute read as a decimal number and truncated to an integer
/// in the `i64` range, 0 where that fails: `None` where the tag lacks it.
pub open spec fn attr_trunc(tag: XmlTag, name: Seq<char>) -> Option<int> {
    match tag_attr(tag, name) {
        Some(v) => Some(trunc_or_zero(v)),
        None => None,
    }
}

/// A decimal number truncated to an integer in the `i64` range, 0 where that fails.
pub open spec fn trunc_or_zero(v: Seq<char>) -> int {
    match crate::text::decimal_trunc(v) {
        Some(x) => if -(i64::MAX as int) <= x <= i64::MAX { x } else { 0 },
        None => 0,
    }
}

/// Get an attribute, or the empty string.
pub fn get_attribute_or_empty(tag: &XmlTag, name: &str) -> (r: String)
    ensures
        r@ == attr_or_empty(*tag, name@),
{
    match get_attribute(tag, name) {
        Some(v) => v,
        None => String::new(),
    }
}

/// Get an attribute as a `usize`, 0 where it does not parse.
pub fn get_attribute_usize(tag: &XmlTag, name: &str) -> (r: Option<usize>)
    ensures
        match r {
            Some(v) => attr_usize(*tag, name@) == Some(v as nat),
            None => attr_usize(*tag, name@) is None,
        },
{
    match get_attribute(tag, name) {
        Some(v) => {
            let c = to_chars(v.as_str());
            Some(crate::text::unsigned_or_zero_exec(c.as_slice(), usize::MAX as u64) as usize)
        },
        None => None,
    }
}

/// Get an attribute as a truncated decimal number, 0 where it does not parse.
pub fn get_attribute_trunc(tag: &XmlTag, name: &str) -> (r: Option<i64>)
    ensures
        match r {
            Some(v) => attr_trunc(*tag, name@) == Some(v as int),
            None => attr_trunc(*tag, name@) is None,
        },
{
    match get_attribute(tag, name) {
        Some(v) => {
            let c = to_chars(v.as_str());
            match crate::text::parse_decimal_trunc(c.as_slice(), i64::MAX as u64) {
                Some(x) => Some(x),
                None => Some(0),
            }
        },
        None => None,
    }
}

/// Is the tag named `name`?
pub fn tag_is(tag: &XmlTag, name: &str) -> (r: bool)
    ensures
        r == (tag.name@ == name@),
{
    str_eq(tag.name.as_str(), name)
}

} // verus!

verus! {

/// Read a text into XML events, for the readers' `from_events`.
///
/// # Errors
/// [`crate::errors::AbstractFileError::XmlParseError`] where the reader does
/// not reach the end of the text, or the text has more events than an `i64`
/// counts.
pub fn events_of(text: &str) -> (r: Result<Vec<XmlEvent>, crate::errors::AbstractFileError>)
    ensures
        match r {
            Ok(evs) => ends_with_eof(evs@) && eof_only_last(evs@) && self_closing_bare(evs@) && evs@.len() < i64::MAX,
            Err(e) => e == crate::errors::AbstractFileError::XmlParseError,
        },
{
    match read_events(text) {
        Ok(evs) => {
            if evs.len() < i64::MAX as usize {
                Ok(evs)
            } else {
                Err(crate::errors::AbstractFileError::XmlParseError)
            }
        },
        Err(_) => Err(crate::errors::AbstractFileError::XmlParseError),
    }
}

} // verus!
