//! The boundary to the markup tokenizer.
//!
//! Everything that touches quick_xml stands here. The two trusted items
//! carry no promises about the values they hand back: the decoders are
//! verified for every event sequence, and the verified collector below
//! only balances depth over whatever the tokenizer yields.

use vstd::prelude::*;

use crate::events::{Attr, Tag, XmlEvent};

verus! {

#[verifier::external_type_specification]
#[verifier::external_body]
#[verifier::reject_recursive_types(R)]
pub struct ExReader<R>(quick_xml::Reader<R>);

#[verifier::external_type_specification]
#[verifier::external_body]
pub struct ExBytesStart<'a>(quick_xml::events::BytesStart<'a>);

/// One raw tokenizer step, before conversion to a plain event.
enum RawEvent {
    Open(quick_xml::events::BytesStart<'static>),
    Close(String),
    Text(String),
    Other,
    Fault,
    Finished,
}

/// Relies on quick_xml's `Reader::read_event`: one tokenizer step over
/// the in-memory input, telling element-opens, element-closes, literal
/// CDATA blocks, the end of input, and skippable decode errors apart.
/// Nothing is promised of what comes back.
#[verifier::external_body]
fn next_event(reader: &mut quick_xml::Reader<&[u8]>) -> (ev: RawEvent) {
    match reader.read_event() {
        Err(_) => RawEvent::Fault,
        Ok(quick_xml::events::Event::Eof) => RawEvent::Finished,
        Ok(quick_xml::events::Event::Start(e)) => RawEvent::Open(e.into_owned()),
        Ok(quick_xml::events::Event::End(e)) => RawEvent::Close(e.name().as_ref().to_owned()),
        Ok(quick_xml::events::Event::CData(c)) => RawEvent::Text((*c).to_owned()),
        Ok(_) => RawEvent::Other,
    }
}

/// Relies on `BytesStart::name` and `BytesStart::attributes`: copies an
/// opening tag's name and its attributes out as plain strings, in
/// document order, skipping attributes the tokenizer cannot decode.
/// Nothing is promised of the values.
#[verifier::external_body]
pub(crate) fn tag_from(e: &quick_xml::events::BytesStart<'_>) -> (t: Tag) {
    let name = e.name().as_ref().to_owned();
    let mut attrs: Vec<Attr> = Vec::new();
    for a in e.attributes().flatten() {
        let key = a.key.as_ref().to_owned();
        match a.normalized_value(quick_xml::XmlVersion::Implicit1_0) {
            Ok(value) => attrs.push(Attr { key, value: value.into_owned() }),
            Err(_) => {},
        }
    }
    Tag { name, attrs }
}

/// Reads the sub-tree the reader stands in — the caller has consumed the
/// subject element's opening tag — into plain events: through the
/// matching close and no further, with tokenizer errors skipped and the
/// end of truncated input treated as an implicit close.
pub(crate) fn collect_subtree(reader: &mut quick_xml::Reader<&[u8]>) -> (events: Vec<XmlEvent>)
    ensures
        events@.len() < usize::MAX,
{
    let mut events: Vec<XmlEvent> = Vec::new();
    let mut depth: usize = 1;
    let mut fuel: usize = usize::MAX - 2;
    while depth > 0 && fuel > 0
        invariant
            events@.len() + fuel + 2 <= usize::MAX,
            depth <= events@.len() + 1,
        decreases fuel,
    {
        fuel = fuel - 1;
        match next_event(reader) {
            RawEvent::Open(e) => {
                let tag = tag_from(&e);
                events.push(XmlEvent::Open(tag));
                depth = depth + 1;
            },
            RawEvent::Close(n) => {
                events.push(XmlEvent::Close(n));
                depth = depth - 1;
            },
            RawEvent::Text(s) => {
                events.push(XmlEvent::Text(s));
            },
            RawEvent::Other => {},
            RawEvent::Fault => {},
            RawEvent::Finished => {
                return events;
            },
        }
    }
    events
}

} // verus!
