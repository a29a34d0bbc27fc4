//! xml-rs's pull reader over the bytes of a document, together with the bytes it
//! reads and the number of events pulled from it. The stream's fields are private to
//! this module, where only the trusted items below touch them.

use vstd::prelude::*;
use xml::common::Position;
use xml::reader::{EventReader, XmlEvent};
use crate::events::{Attribute, SpecEvent, XmlEventKind};

verus! {

/// xml-rs's pull reader, held opaque: `EventReader`'s parameter is bounded by
/// `std::io::Read`, so the type itself cannot be declared to the verifier.
#[verifier::external_body]
struct XmlReader<'a> {
    inner: EventReader<&'a [u8]>,
}

/// A failure that the XML reader reports: its message and position.
pub struct XmlFailure {
    pub message: String,
    pub row: u64,
    pub column: u64,
}

pub struct SpecFailure {
    pub message: Seq<char>,
    pub row: u64,
    pub column: u64,
}

impl View for XmlFailure {
    type V = SpecFailure;

    open spec fn view(&self) -> SpecFailure {
        SpecFailure { message: self.message@, row: self.row, column: self.column }
    }
}

pub open spec fn pull_view(r: Result<XmlEventKind, XmlFailure>) -> Result<SpecEvent, SpecFailure> {
    match r {
        Ok(ev) => Ok(ev@),
        Err(f) => Err(f@),
    }
}

/// What xml-rs's `EventReader::next` gives at its pull number `index` (counting from
/// 0) on a reader made by `EventReader::new` over `input`: the event, with the local
/// names, namespace URI and attribute values of an opening tag, or the reader's error
/// with its message and position.
pub uninterp spec fn xml_pull(input: Seq<u8>, index: nat) -> Result<SpecEvent, SpecFailure>;

/// The row and column that xml-rs's `EventReader::position` reports on a reader made
/// by `EventReader::new` over `input`, after `pulled` calls of `next`.
pub uninterp spec fn xml_position(input: Seq<u8>, pulled: nat) -> (u64, u64);

/// A document being read by xml-rs: `reader` was made over `input` and has been
/// pulled `pulled` times.
pub struct XmlStream<'a> {
    input: &'a [u8],
    reader: XmlReader<'a>,
    pulled: Ghost<nat>,
}

impl<'a> XmlStream<'a> {
    /// The bytes of the document.
    pub closed spec fn input(&self) -> Seq<u8> {
        self.input@
    }

    /// How many events have been pulled.
    pub closed spec fn pulled(&self) -> nat {
        self.pulled@
    }
}

/// Calls xml-rs's `EventReader::new` over `input`: a stream over `input` from which
/// nothing has been pulled.
#[verifier::external_body]
pub(crate) fn open_stream<'a>(input: &'a [u8]) -> (r: XmlStream<'a>)
    ensures
        r.input() == input@,
        r.pulled() == 0,
{
    XmlStream { input, reader: XmlReader { inner: EventReader::new(input) }, pulled: Ghost(0) }
}

/// Calls xml-rs's `EventReader::next` and converts its result; the contract claims that
/// the result is the named pull `xml_pull` of the stream's input at the number of pulls
/// made so far, and that this number grows by one.
#[verifier::external_body]
pub(crate) fn pull(stream: &mut XmlStream) -> (r: Result<XmlEventKind, XmlFailure>)
    ensures
        pull_view(r) == xml_pull(old(stream).input(), old(stream).pulled()),
        final(stream).input() == old(stream).input(),
        final(stream).pulled() == old(stream).pulled() + 1,
{
    match stream.reader.inner.next() {
        Ok(XmlEvent::StartElement { name, attributes, .. }) => Ok(XmlEventKind::StartElement {
            name: name.local_name,
            namespace: name.namespace,
            attributes: attributes.into_iter().map(|a| Attribute { name: a.name.local_name, value: a.value }).collect(),
        }),
        Ok(XmlEvent::EndElement { .. }) => Ok(XmlEventKind::EndElement),
        Ok(XmlEvent::EndDocument) => Ok(XmlEventKind::EndDocument),
        Ok(_) => Ok(XmlEventKind::Other),
        Err(e) => Err(XmlFailure { message: e.msg().to_string(), row: e.position().row, column: e.position().column }),
    }
}

/// Calls xml-rs's `EventReader::position`; the contract claims that the result is the
/// named position `xml_position` of the stream's input at the number of pulls made.
#[verifier::external_body]
pub(crate) fn position(stream: &XmlStream) -> (r: (u64, u64))
    ensures
        r == xml_position(stream.input(), stream.pulled()),
{
    let p = stream.reader.inner.position();
    (p.row, p.column)
}

} // verus!
