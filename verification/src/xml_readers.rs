//! Reading XML documents with `quick-xml` and `xml-rs`, event by event.
use vstd::prelude::*;
use crate::xml_events::{XmlAttribute, XmlAttributeView, XmlEvent, XmlEventView, XmlError, attributes_view};
use quick_xml::events::Event as QuickEvent;
use xml::reader::XmlEvent as XmlRsEvent;

verus! {

#[verifier::external_type_specification]
#[verifier::external_body]
#[verifier::reject_recursive_types(R)]
pub struct ExQuickXmlReader<R>(quick_xml::Reader<R>);

#[verifier::external_type_specification]
#[verifier::external_body]
pub struct ExQuickXmlError(quick_xml::Error);

#[verifier::external_type_specification]
#[verifier::external_body]
pub struct ExQuickXmlBytesStart<'a>(quick_xml::events::BytesStart<'a>);

/// A `quick-xml` reader over the text of a document, together with that text, whether
/// it trims character data, and the number of events it has handed out so far.
pub struct QuickXmlStream<'a> {
    reader: quick_xml::Reader<&'a [u8]>,
    doc: Ghost<Seq<char>>,
    trim: Ghost<bool>,
    read: Ghost<int>,
}

impl<'a> View for QuickXmlStream<'a> {
    type V = (Seq<char>, bool, int);

    closed spec fn view(&self) -> (Seq<char>, bool, int) {
        (self.doc@, self.trim@, self.read@)
    }
}

/// An opening tag as `quick-xml` holds it, with the place in the reading at which it
/// came: the document, whether it was trimmed, and the number of the event.
pub struct QuickXmlTag {
    tag: quick_xml::events::BytesStart<'static>,
    at: Ghost<(Seq<char>, bool, int)>,
}

impl View for QuickXmlTag {
    type V = (Seq<char>, bool, int);

    closed spec fn view(&self) -> (Seq<char>, bool, int) {
        self.at@
    }
}

/// An event as `quick_xml::Reader::read_event` gives it, with the opening tags kept
/// as `quick-xml` holds them.
pub enum QuickXmlEvent {
    Start(QuickXmlTag),
    Empty(QuickXmlTag),
    End(String),
    Text(String),
    Reference(String, Option<char>),
    Eof,
    Other,
}

/// What an event of `quick-xml` says, but for the content of its opening tags.
pub enum QuickEventView {
    Start,
    Empty,
    End(Seq<char>),
    Text(Seq<char>),
    Reference(Seq<char>, Option<char>),
    Eof,
    Other,
}

impl View for QuickXmlEvent {
    type V = QuickEventView;

    open spec fn view(&self) -> QuickEventView {
        match self {
            QuickXmlEvent::Start(_) => QuickEventView::Start,
            QuickXmlEvent::Empty(_) => QuickEventView::Empty,
            QuickXmlEvent::End(name) => QuickEventView::End(name@),
            QuickXmlEvent::Text(text) => QuickEventView::Text(text@),
            QuickXmlEvent::Reference(name, c) => QuickEventView::Reference(name@, *c),
            QuickXmlEvent::Eof => QuickEventView::Eof,
            QuickXmlEvent::Other => QuickEventView::Other,
        }
    }
}

/// What the call of `quick_xml::Reader::read_event` numbered `k` (from 0) gives on a
/// reader that `Reader::from_str` made over the text `doc`, with `trim_text(trim)` set
/// before the first call: `None` for an error, else the event as
/// `read_quick_xml_event` hands it out. The reader holds no other input, so this
/// depends on `doc`, `trim` and `k` alone.
pub uninterp spec fn quick_xml_event_at(doc: Seq<char>, trim: bool, k: int) -> Option<QuickEventView>;

/// What `BytesStart::name` gives, as text, on the opening tag of the event that
/// `quick_xml_event_at(doc, trim, k)` names.
pub uninterp spec fn quick_xml_tag_name_at(doc: Seq<char>, trim: bool, k: int) -> Seq<char>;

/// What `BytesStart::attributes`, with `Attribute::unescape_value` on each, gives on
/// the opening tag of the event that `quick_xml_event_at(doc, trim, k)` names, as
/// `quick_xml_tag_attributes` hands it out.
pub uninterp spec fn quick_xml_tag_attributes_at(doc: Seq<char>, trim: bool, k: int) -> Seq<Option<XmlAttributeView>>;

/// `quick_xml::Reader::from_str`: a reader over the text of a document, with the
/// default configuration (character data not trimmed), that has handed out no event.
#[verifier::external_body]
pub(crate) fn quick_xml_reader<'a>(xml: &'a str) -> (r: QuickXmlStream<'a>)
    ensures
        r@ == (xml@, false, 0int),
{
    QuickXmlStream { reader: quick_xml::Reader::from_str(xml), doc: Ghost(xml@), trim: Ghost(false), read: Ghost(0int) }
}

/// `quick_xml::reader::Config::trim_text`, on the reader's configuration before the
/// first event: whitespace around character data is dropped, and whitespace-only
/// character data is not reported.
#[verifier::external_body]
pub(crate) fn quick_xml_trim_text(s: &mut QuickXmlStream, trim: bool)
    requires
        old(s)@.2 == 0,
    ensures
        final(s)@ == (old(s)@.0, trim, 0int),
{
    s.reader.config_mut().trim_text(trim);
}

/// `quick_xml::Reader::read_event`: the next event of the document, with the name of
/// a closing tag, the content of character data, and the name and resolved character
/// of a reference (`BytesRef::resolve_char_ref`, `None` where it is not a character
/// reference or cannot be resolved) taken out as strings. The outcome is the one
/// `quick_xml_event_at` names for the document and the number of events handed out
/// before; what an error holds is not stated.
#[verifier::external_body]
pub(crate) fn read_quick_xml_event(s: &mut QuickXmlStream) -> (r: Result<QuickXmlEvent, quick_xml::Error>)
    ensures
        final(s)@ == (old(s)@.0, old(s)@.1, old(s)@.2 + 1),
        r is Ok <==> quick_xml_event_at(old(s)@.0, old(s)@.1, old(s)@.2) is Some,
        r matches Ok(e) ==> quick_xml_event_at(old(s)@.0, old(s)@.1, old(s)@.2) == Some(e@),
        r matches Ok(QuickXmlEvent::Start(t)) ==> t@ == old(s)@,
        r matches Ok(QuickXmlEvent::Empty(t)) ==> t@ == old(s)@,
{
    let at = Ghost(s.view());
    Ok(match s.reader.read_event()? {
        QuickEvent::Start(e) => QuickXmlEvent::Start(QuickXmlTag { tag: e.into_owned(), at }),
        QuickEvent::Empty(e) => QuickXmlEvent::Empty(QuickXmlTag { tag: e.into_owned(), at }),
        QuickEvent::End(e) => QuickXmlEvent::End(e.name().as_ref().to_string()),
        QuickEvent::Text(e) => QuickXmlEvent::Text(e.to_string()),
        QuickEvent::GeneralRef(e) => QuickXmlEvent::Reference(e.to_string(), e.resolve_char_ref().ok().flatten()),
        QuickEvent::Eof => QuickXmlEvent::Eof,
        _ => QuickXmlEvent::Other,
    })
}

/// `BytesStart::name`: the name of an opening tag, as written.
#[verifier::external_body]
pub(crate) fn quick_xml_tag_name(t: &QuickXmlTag) -> (r: String)
    ensures
        r@ == quick_xml_tag_name_at(t@.0, t@.1, t@.2),
{
    t.tag.name().as_ref().to_string()
}

/// `BytesStart::attributes` with `Attribute::unescape_value` on each: the attributes
/// of an opening tag in document order, `None` for each that `quick-xml` reports as
/// malformed, and a value of `None` where its references cannot be resolved.
#[verifier::external_body]
#[allow(deprecated)]
pub(crate) fn quick_xml_tag_attributes(t: &QuickXmlTag) -> (r: Vec<Option<XmlAttribute>>)
    ensures
        attributes_view(r@) == quick_xml_tag_attributes_at(t@.0, t@.1, t@.2),
{
    t.tag.attributes().map(|a| a.ok().map(|a| XmlAttribute {
        key: a.key.as_ref().to_string(),
        value: a.unescape_value().ok().map(|v| v.to_string()),
    })).collect()
}

/// The event numbered `k` of a document read with `quick-xml`, with the names and
/// attributes of its opening tags; `None` for an error.
pub open spec fn quick_xml_full_event_at(doc: Seq<char>, trim: bool, k: int) -> Option<XmlEventView> {
    match quick_xml_event_at(doc, trim, k) {
        None => None,
        Some(QuickEventView::Start) => Some(XmlEventView::Start {
            name: quick_xml_tag_name_at(doc, trim, k),
            attributes: quick_xml_tag_attributes_at(doc, trim, k),
        }),
        Some(QuickEventView::Empty) => Some(XmlEventView::Empty {
            name: quick_xml_tag_name_at(doc, trim, k),
            attributes: quick_xml_tag_attributes_at(doc, trim, k),
        }),
        Some(QuickEventView::End(name)) => Some(XmlEventView::End { name }),
        Some(QuickEventView::Text(text)) => Some(XmlEventView::Text { text }),
        Some(QuickEventView::Reference(name, character)) => Some(XmlEventView::Reference { name, character }),
        Some(QuickEventView::Eof) => Some(XmlEventView::Eof),
        Some(QuickEventView::Other) => Some(XmlEventView::Other),
    }
}

/// The next event of a document read with `quick-xml`.
pub fn next_quick_xml_event(s: &mut QuickXmlStream) -> (r: Result<XmlEvent, XmlError>)
    ensures
        final(s)@ == (old(s)@.0, old(s)@.1, old(s)@.2 + 1),
        r is Ok <==> quick_xml_full_event_at(old(s)@.0, old(s)@.1, old(s)@.2) is Some,
        r matches Ok(e) ==> quick_xml_full_event_at(old(s)@.0, old(s)@.1, old(s)@.2) == Some(e@),
{
    match read_quick_xml_event(s) {
        Err(e) => Err(XmlError { message: quick_xml_error_text(&e) }),
        Ok(QuickXmlEvent::Start(t)) => Ok(XmlEvent::Start { name: quick_xml_tag_name(&t), attributes: quick_xml_tag_attributes(&t) }),
        Ok(QuickXmlEvent::Empty(t)) => Ok(XmlEvent::Empty { name: quick_xml_tag_name(&t), attributes: quick_xml_tag_attributes(&t) }),
        Ok(QuickXmlEvent::End(name)) => Ok(XmlEvent::End { name }),
        Ok(QuickXmlEvent::Text(text)) => Ok(XmlEvent::Text { text }),
        Ok(QuickXmlEvent::Reference(name, character)) => Ok(XmlEvent::Reference { name, character }),
        Ok(QuickXmlEvent::Eof) => Ok(XmlEvent::Eof),
        Ok(QuickXmlEvent::Other) => Ok(XmlEvent::Other),
    }
}

/// Whether reading with `quick-xml` stops at the event numbered `k`: on an error, or at
/// the end.
pub open spec fn quick_xml_stops_at(doc: Seq<char>, trim: bool, k: int) -> bool {
    match quick_xml_full_event_at(doc, trim, k) {
        Some(e) => e is Eof,
        None => true,
    }
}

/// The first event from `k` on, and before `bound`, at which reading with `quick-xml`
/// stops; `bound` where there is none.
pub open spec fn quick_xml_stop(doc: Seq<char>, trim: bool, k: int, bound: int) -> int
    decreases bound - k,
{
    if k >= bound {
        bound
    } else if quick_xml_stops_at(doc, trim, k) {
        k
    } else {
        quick_xml_stop(doc, trim, k + 1, bound)
    }
}

/// The first `n` events of a document read with `quick-xml`.
pub open spec fn quick_xml_events(doc: Seq<char>, trim: bool, n: int) -> Seq<XmlEventView> {
    Seq::new(n as nat, |j: int| match quick_xml_full_event_at(doc, trim, j) {
        Some(e) => e,
        None => XmlEventView::Other,
    })
}

/// Where no event in `[k, m)` stops the reading, looking from `k` or from `m` finds
/// the same stop.
pub proof fn lemma_quick_xml_stop_skips(doc: Seq<char>, trim: bool, k: int, m: int, bound: int)
    requires
        k <= m <= bound,
        forall|j: int| k <= j < m ==> !#[trigger] quick_xml_stops_at(doc, trim, j),
    ensures
        quick_xml_stop(doc, trim, k, bound) == quick_xml_stop(doc, trim, m, bound),
    decreases m - k,
{
    if k < m {
        lemma_quick_xml_stop_skips(doc, trim, k + 1, m, bound);
    }
}

/// The first `n + 1` events are the first `n` and the one numbered `n`.
pub proof fn lemma_quick_xml_events_push(doc: Seq<char>, trim: bool, n: int, e: XmlEventView)
    requires
        0 <= n,
        quick_xml_full_event_at(doc, trim, n) == Some(e),
    ensures
        quick_xml_events(doc, trim, n + 1) == quick_xml_events(doc, trim, n).push(e),
{
    assert(quick_xml_events(doc, trim, n + 1) =~= quick_xml_events(doc, trim, n).push(e));
}

/// An `xml::reader::EventReader` over the bytes of a document, held opaque: nothing
/// of it is read but by the wrappers below, and what they hand out is stated over
/// the document and the number of events read (see `XmlRsStream`).
#[verifier::external_body]
pub struct XmlRsReader<'a> {
    reader: xml::reader::EventReader<&'a [u8]>,
}

/// An `xml-rs` reader together with the document it reads and the number of events
/// it has handed out so far.
pub struct XmlRsStream<'a> {
    reader: XmlRsReader<'a>,
    doc: Ghost<Seq<u8>>,
    read: Ghost<int>,
}

impl<'a> View for XmlRsStream<'a> {
    type V = (Seq<u8>, int);

    closed spec fn view(&self) -> (Seq<u8>, int) {
        (self.doc@, self.read@)
    }
}

#[verifier::external_type_specification]
#[verifier::external_body]
pub struct ExXmlRsError(xml::reader::Error);

/// What the call of `xml::reader::EventReader::next` numbered `k` (from 0) gives on a
/// reader that `EventReader::new` made over the bytes `doc`, with the default
/// configuration: `None` for an error, else the event as `read_xml_rs_event` hands it
/// out. The parser holds no other input, so this depends on `doc` and `k` alone.
pub uninterp spec fn xml_rs_event_at(doc: Seq<u8>, k: int) -> Option<XmlEventView>;

/// `xml::reader::EventReader::new`: a reader over the bytes of a document, with the
/// default configuration, that has handed out no event yet.
#[verifier::external_body]
pub(crate) fn xml_rs_reader<'a>(bytes: &'a [u8]) -> (r: XmlRsStream<'a>)
    ensures
        r@ == (bytes@, 0int),
{
    XmlRsStream { reader: XmlRsReader { reader: xml::reader::EventReader::new(bytes) }, doc: Ghost(bytes@), read: Ghost(0int) }
}

/// `xml::reader::EventReader::next`: the next event of the document, an opening tag
/// with its local name and its attributes (local names, values as unescaped) in
/// document order, a closing tag with its local name, character data, a CDATA
/// section, or the end of the document; every other event is `Other`. The outcome is
/// the one `xml_rs_event_at` names for the document and the number of events handed
/// out before; what an error holds is not stated.
#[verifier::external_body]
pub(crate) fn read_xml_rs_event(s: &mut XmlRsStream) -> (r: Result<XmlEvent, xml::reader::Error>)
    ensures
        final(s)@ == (old(s)@.0, old(s)@.1 + 1),
        r is Ok <==> xml_rs_event_at(old(s)@.0, old(s)@.1) is Some,
        r matches Ok(e) ==> xml_rs_event_at(old(s)@.0, old(s)@.1) == Some(e@),
{
    Ok(match s.reader.reader.next()? {
        XmlRsEvent::StartElement { name, attributes, .. } => XmlEvent::Start {
            name: name.local_name,
            attributes: attributes.into_iter().map(|a| Some(XmlAttribute { key: a.name.local_name, value: Some(a.value) })).collect(),
        },
        XmlRsEvent::EndElement { name } => XmlEvent::End { name: name.local_name },
        XmlRsEvent::Characters(text) => XmlEvent::Text { text },
        XmlRsEvent::CData(text) => XmlEvent::CData { text },
        XmlRsEvent::EndDocument => XmlEvent::Eof,
        _ => XmlEvent::Other,
    })
}

/// How many events the readers of this library take from a document of `len` bytes
/// before they give up on it. Each event but the first and the last takes at least
/// one byte of the document, and an element written `<a/>` takes four for its two.
pub open spec fn event_budget(len: int) -> int {
    if len < usize::MAX / 2 {
        2 * len + 3
    } else {
        usize::MAX as int
    }
}

pub(crate) fn event_budget_of(len: usize) -> (r: usize)
    ensures
        r == event_budget(len as int),
{
    if len < usize::MAX / 2 {
        2 * len + 3
    } else {
        usize::MAX
    }
}

/// Whether reading stops at the event numbered `k`: on an error, or at the end.
pub open spec fn xml_rs_stops_at(doc: Seq<u8>, k: int) -> bool {
    match xml_rs_event_at(doc, k) {
        Some(e) => e is Eof,
        None => true,
    }
}

/// The first event from `k` on, and before `bound`, at which reading stops; `bound`
/// where there is none.
pub open spec fn xml_rs_stop(doc: Seq<u8>, k: int, bound: int) -> int
    decreases bound - k,
{
    if k >= bound {
        bound
    } else if xml_rs_stops_at(doc, k) {
        k
    } else {
        xml_rs_stop(doc, k + 1, bound)
    }
}

/// The number of events of a document that `xml-rs` hands out before the reading
/// stops, at an error or at the end of the document, within the event budget.
pub open spec fn xml_rs_read_length(doc: Seq<u8>) -> int {
    xml_rs_stop(doc, 0, event_budget(doc.len() as int))
}

/// The first `n` events of the document.
pub open spec fn xml_rs_events(doc: Seq<u8>, n: int) -> Seq<XmlEventView> {
    Seq::new(n as nat, |j: int| match xml_rs_event_at(doc, j) {
        Some(e) => e,
        None => XmlEventView::Other,
    })
}

/// Where no event in `[k, m)` stops the reading, looking from `k` or from `m` finds
/// the same stop.
pub proof fn lemma_xml_rs_stop_skips(doc: Seq<u8>, k: int, m: int, bound: int)
    requires
        k <= m <= bound,
        forall|j: int| k <= j < m ==> !#[trigger] xml_rs_stops_at(doc, j),
    ensures
        xml_rs_stop(doc, k, bound) == xml_rs_stop(doc, m, bound),
    decreases m - k,
{
    if k < m {
        lemma_xml_rs_stop_skips(doc, k + 1, m, bound);
    }
}

/// The first `n + 1` events are the first `n` and the one numbered `n`.
pub proof fn lemma_xml_rs_events_push(doc: Seq<u8>, n: int, e: XmlEventView)
    requires
        0 <= n,
        xml_rs_event_at(doc, n) == Some(e),
    ensures
        xml_rs_events(doc, n + 1) == xml_rs_events(doc, n).push(e),
{
    assert(xml_rs_events(doc, n + 1) =~= xml_rs_events(doc, n).push(e));
}

/// The `Display` text of an `xml-rs` error (its position, then what went wrong).
/// Nothing is stated of the text.
#[verifier::external_body]
pub(crate) fn xml_rs_error_text(e: &xml::reader::Error) -> String {
    e.to_string()
}

/// The `Display` text of a `quick-xml` error. Nothing is stated of the text.
#[verifier::external_body]
pub(crate) fn quick_xml_error_text(e: &quick_xml::Error) -> String {
    e.to_string()
}

} // verus!
