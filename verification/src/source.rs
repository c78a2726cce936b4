//! From the bytes of a dictionary file to the events of its document.

use flate2::read::GzDecoder;
use std::io::Read;
use vstd::prelude::*;
use xml::reader::{EventReader, XmlEvent};

use crate::event::{Event, EventView};

verus! {

/// What unpacking a gzip stream gives: the bytes of its first member, or `None` where
/// the stream is damaged or cut off.
pub uninterp spec fn gunzipped(source: Seq<u8>) -> Option<Seq<u8>>;

/// The events that the XML reader reports for a document, in order, up to and with
/// the end of the document or the first report of malformed input.
pub uninterp spec fn xml_events(source: Seq<u8>) -> Seq<EventView>;

/// Reads `source` to its end through `flate2::read::GzDecoder`, which unpacks one
/// gzip member and reports damaged or truncated input as an error. The outcome is
/// taken to depend on the bytes alone.
#[verifier::external_body]
pub(crate) fn gunzip(source: &[u8]) -> (plain: Option<Vec<u8>>)
    ensures
        match plain {
            Some(bytes) => gunzipped(source@) == Some(bytes@),
            None => gunzipped(source@) is None,
        },
{
    let mut plain = Vec::new();
    match GzDecoder::new(source).read_to_end(&mut plain) {
        Ok(_) => Some(plain),
        Err(_) => None,
    }
}

/// Pulls every event from an `xml::reader::EventReader` over `source`, through the
/// iterator that the reader turns into, which ends after the end of the document or
/// the first error. Of each event the walk keeps the local name or the text; an
/// error becomes `Malformed`. The outcome is taken to depend on the bytes alone.
#[verifier::external_body]
pub(crate) fn read_events(source: &[u8]) -> (events: Vec<Event>)
    ensures
        events.deep_view() == xml_events(source@),
{
    let events = EventReader::new(source).into_iter();
    events.map(|event| match event {
        Ok(XmlEvent::StartElement { name, .. }) => Event::Start(name.local_name),
        Ok(XmlEvent::EndElement { name }) => Event::End(name.local_name),
        Ok(XmlEvent::Characters(text)) => Event::Characters(text),
        Ok(XmlEvent::EndDocument) => Event::EndDocument,
        Ok(_) => Event::Other,
        Err(_) => Event::Malformed,
    }).collect()
}

} // verus!
