//! Turning the bytes of a document into its events.

use vstd::prelude::*;
use crate::events::{SpecEvent, SpecItem, XmlEventKind, XmlItem};
use crate::xml_stream::{open_stream, position, pull, xml_position, xml_pull};

verus! {

/// The item for pull number `index` on `input`: the event at the position the
/// reader reports after it, or the reader's error at the error's position.
pub open spec fn pulled_item(input: Seq<u8>, index: nat) -> SpecItem {
    match xml_pull(input, index) {
        Ok(ev) => SpecItem {
            event: ev,
            row: xml_position(input, index + 1).0,
            column: xml_position(input, index + 1).1,
        },
        Err(f) => SpecItem { event: SpecEvent::Error(f.message), row: f.row, column: f.column },
    }
}

/// The end of the document and an error are the last events the reader gives.
pub open spec fn is_last_event(it: SpecItem) -> bool {
    it.event is EndDocument || it.event is Error
}

/// The events of a document, read with xml-rs up to and including the end of the
/// document or the first error.
pub fn read_events(input: &[u8]) -> (r: Vec<XmlItem>)
    ensures
        r@.len() > 0,
        forall|i: int| 0 <= i < r@.len() ==> #[trigger] r@[i]@ == pulled_item(input@, i as nat),
        is_last_event(r@.last()@),
        forall|i: int| 0 <= i < r@.len() - 1 ==> !is_last_event(#[trigger] r@[i]@),
{
    let mut stream = open_stream(input);
    let mut events: Vec<XmlItem> = Vec::new();
    loop
        invariant
            stream.input() == input@,
            stream.pulled() == events@.len(),
            forall|i: int| 0 <= i < events@.len() ==> #[trigger] events@[i]@ == pulled_item(input@, i as nat),
            forall|i: int| 0 <= i < events@.len() ==> !is_last_event(#[trigger] events@[i]@),
        decreases usize::MAX - events@.len(),
    {
        let pulled = pull(&mut stream);
        let item = match pulled {
            Ok(event) => {
                let (row, column) = position(&stream);
                XmlItem { event, row, column }
            },
            Err(f) => XmlItem { event: XmlEventKind::Error(f.message), row: f.row, column: f.column },
        };
        let last = match &item.event {
            XmlEventKind::EndDocument | XmlEventKind::Error(_) => true,
            _ => false,
        };
        events.push(item);
        proof {
            vstd::std_specs::vec::axiom_spec_len(&events);
        }
        if last {
            return events;
        }
    }
}

} // verus!
