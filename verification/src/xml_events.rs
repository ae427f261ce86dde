//! The events of an XML document, as the database parsers read them.
use vstd::prelude::*;
use crate::text::chars_of;

verus! {

/// One attribute of an element: its name and its value with the entity references
/// resolved, `None` where they could not be resolved.
pub struct XmlAttribute {
    pub key: String,
    pub value: Option<String>,
}

pub struct XmlAttributeView {
    pub key: Seq<char>,
    pub value: Option<Seq<char>>,
}

impl View for XmlAttribute {
    type V = XmlAttributeView;

    open spec fn view(&self) -> XmlAttributeView {
        XmlAttributeView {
            key: self.key@,
            value: match self.value {
                Some(v) => Some(v@),
                None => None,
            },
        }
    }
}

/// The attributes of an element, in document order; `None` stands for one that is malformed.
pub open spec fn attributes_view(a: Seq<Option<XmlAttribute>>) -> Seq<Option<XmlAttributeView>> {
    a.map_values(
        |x: Option<XmlAttribute>|
            match x {
                Some(v) => Some(v@),
                None => None,
            },
    )
}

/// An event of an XML document.
pub enum XmlEvent {
    /// An opening tag.
    Start { name: String, attributes: Vec<Option<XmlAttribute>> },
    /// A self-closing tag.
    Empty { name: String, attributes: Vec<Option<XmlAttribute>> },
    /// A closing tag.
    End { name: String },
    /// Character data.
    Text { text: String },
    /// A CDATA section.
    CData { text: String },
    /// An entity or character reference in character data (`&name;`), with the character
    /// it denotes when it is a character reference.
    Reference { name: String, character: Option<char> },
    /// The end of the document.
    Eof,
    /// Any other event (declarations, comments, processing instructions, whitespace).
    Other,
}

pub enum XmlEventView {
    Start { name: Seq<char>, attributes: Seq<Option<XmlAttributeView>> },
    Empty { name: Seq<char>, attributes: Seq<Option<XmlAttributeView>> },
    End { name: Seq<char> },
    Text { text: Seq<char> },
    CData { text: Seq<char> },
    Reference { name: Seq<char>, character: Option<char> },
    Eof,
    Other,
}

impl View for XmlEvent {
    type V = XmlEventView;

    open spec fn view(&self) -> XmlEventView {
        match self {
            XmlEvent::Start { name, attributes } => XmlEventView::Start {
                name: name@,
                attributes: attributes_view(attributes@),
            },
            XmlEvent::Empty { name, attributes } => XmlEventView::Empty {
                name: name@,
                attributes: attributes_view(attributes@),
            },
            XmlEvent::End { name } => XmlEventView::End { name: name@ },
            XmlEvent::Text { text } => XmlEventView::Text { text: text@ },
            XmlEvent::CData { text } => XmlEventView::CData { text: text@ },
            XmlEvent::Reference { name, character } => XmlEventView::Reference {
                name: name@,
                character: *character,
            },
            XmlEvent::Eof => XmlEventView::Eof,
            XmlEvent::Other => XmlEventView::Other,
        }
    }
}

/// Whether two texts are the same.
pub fn same_text(a: &str, b: &str) -> (r: bool)
    ensures
        r == (a@ == b@),
{
    let x = chars_of(a);
    let y = chars_of(b);
    if x.len() != y.len() {
        return false;
    }
    let mut i: usize = 0;
    while i < x.len()
        invariant
            i <= x@.len(),
            x@.len() == y@.len(),
            x@ == a@,
            y@ == b@,
            forall|j: int| 0 <= j < i ==> x@[j] == y@[j],
        decreases x@.len() - i,
    {
        if x[i] != y[i] {
            return false;
        }
        i = i + 1;
    }
    assert(x@ =~= y@);
    true
}


/// Why an XML document could not be read: the reader's description of the fault.
#[derive(Debug)]
pub struct XmlError {
    pub message: String,
}

} // verus!
