//! XML events read by the `quick-xml` crate, handed to the library as plain
//! values.
use quick_xml::events::Event;
use vstd::prelude::*;

verus! {

#[verifier::external_type_specification]
#[verifier::external_body]
#[verifier::reject_recursive_types(R)]
pub struct ExXmlReader<R>(quick_xml::Reader<R>);

/// One event of an XML document.
pub enum XmlEvent {
    /// An opening tag, with its qualified name.
    Start(Vec<u8>),
    /// A self-closing tag, with its qualified name.
    Empty(Vec<u8>),
    /// A closing tag, with its qualified name.
    End(Vec<u8>),
    /// Character data, decoded and unescaped (`BytesText::unescape`), or
    /// the message of the error that stopped it.
    Text(Result<String, String>),
    Eof,
    /// CDATA, comments, declarations, processing instructions, doctypes.
    Other,
}

/// An XML event as plain values.
pub enum XmlEventView {
    Start(Seq<u8>),
    Empty(Seq<u8>),
    End(Seq<u8>),
    Text(Result<Seq<char>, Seq<char>>),
    Eof,
    Other,
}

impl View for XmlEvent {
    type V = XmlEventView;

    open spec fn view(&self) -> XmlEventView {
        match self {
            XmlEvent::Start(n) => XmlEventView::Start(n@),
            XmlEvent::Empty(n) => XmlEventView::Empty(n@),
            XmlEvent::End(n) => XmlEventView::End(n@),
            XmlEvent::Text(t) => XmlEventView::Text(
                match t {
                    Ok(s) => Ok(s@),
                    Err(m) => Err(m@),
                },
            ),
            XmlEvent::Eof => XmlEventView::Eof,
            XmlEvent::Other => XmlEventView::Other,
        }
    }
}

pub open spec fn events_view(v: Seq<XmlEvent>) -> Seq<XmlEventView> {
    v.map_values(|e: XmlEvent| e@)
}

/// `String::from_utf8_lossy`.
pub uninterp spec fn utf8_lossy(bytes: Seq<u8>) -> Seq<char>;

/// The `n`-th event (counting from 0), or the error's message, that a
/// `quick_xml::Reader` over `body`, configured to trim the whitespace around
/// text, gives on its `n`-th call of `read_event`; a text event carries what
/// `BytesText::unescape` gives for it.
pub uninterp spec fn xml_event_at(body: Seq<u8>, n: nat) -> Result<XmlEventView, Seq<char>>;

/// A `quick_xml` reader over a document, with the document and the number
/// of events read from it so far.
pub struct XmlStream<'a> {
    reader: quick_xml::Reader<&'a [u8]>,
    body: Ghost<Seq<u8>>,
    read: Ghost<nat>,
}

impl<'a> XmlStream<'a> {
    /// The document read.
    pub closed spec fn body(&self) -> Seq<u8> {
        self.body@
    }

    /// How many events have been read.
    pub closed spec fn events_read(&self) -> nat {
        self.read@
    }
}

/// `quick_xml::Reader::from_reader` over a byte slice, trimming the
/// whitespace around text (`Config::trim_text(true)`); no event read yet.
#[verifier::external_body]
pub(crate) fn xml_stream<'a>(body: &'a [u8]) -> (r: XmlStream<'a>)
    ensures
        r.body() == body@,
        r.events_read() == 0,
{
    let mut reader = quick_xml::Reader::from_reader(body);
    reader.config_mut().trim_text(true);
    XmlStream { reader, body: Ghost(body@), read: Ghost(0) }
}

/// `quick_xml::Reader::read_event`: the next event of the document, or the
/// reader's error message; a text event is decoded and unescaped by
/// `BytesText::unescape`. Claimed: what the `n`-th call gives is a function
/// of the document and `n` (the reader's configuration is fixed).
#[verifier::external_body]
pub(crate) fn next_xml_event(stream: &mut XmlStream) -> (r: Result<XmlEvent, String>)
    ensures
        final(stream).body() == old(stream).body(),
        final(stream).events_read() == old(stream).events_read() + 1,
        match r {
            Ok(e) => xml_event_at(old(stream).body(), old(stream).events_read()) == Ok::<
                XmlEventView,
                Seq<char>,
            >(e@),
            Err(m) => xml_event_at(old(stream).body(), old(stream).events_read()) == Err::<
                XmlEventView,
                Seq<char>,
            >(m@),
        },
{
    stream.read = Ghost((stream.read@ + 1) as nat);
    Ok(match stream.reader.read_event().map_err(|e| e.to_string())? {
        Event::Start(e) => XmlEvent::Start(e.name().as_ref().to_vec()),
        Event::Empty(e) => XmlEvent::Empty(e.name().as_ref().to_vec()),
        Event::End(e) => XmlEvent::End(e.name().as_ref().to_vec()),
        Event::Text(t) => XmlEvent::Text(t.unescape().map(|s| s.into_owned()).map_err(|e| e.to_string())),
        Event::Eof => XmlEvent::Eof,
        _ => XmlEvent::Other,
    })
}

/// `String::from_utf8_lossy`: valid UTF-8 decodes as itself.
#[verifier::external_body]
pub(crate) fn lossy_text(bytes: &[u8]) -> (r: String)
    ensures
        r@ == utf8_lossy(bytes@),
        vstd::utf8::valid_utf8(bytes@) ==> r@ == vstd::utf8::decode_utf8(bytes@),
{
    String::from_utf8_lossy(bytes).into_owned()
}

} // verus!
