//! Reading a document: the tokenizer turns bytes into events, the extraction
//! turns events into a record.

use vstd::prelude::*;
use xml::reader::{EventReader, XmlEvent};
use crate::event::{Attribute, Event, EventView};
use crate::extract::extract;
use crate::record::Dep11;

verus! {

/// `xml::reader::Error`, the tokenizer's error. It is carried as it is:
/// nothing is known of what it holds.
#[verifier::external_type_specification]
#[verifier::external_body]
pub struct ExSyntaxError(xml::reader::Error);

/// Why a document could not be read: the tokenizer gave an error.
#[derive(Clone, Debug, PartialEq, Eq)]
pub struct ParseError {
    /// The tokenizer's account of the error, with its position.
    pub message: String,
}

/// The events that the tokenizer hands out for these bytes, from the start
/// of the document to its end; `None` where it gives an error instead. It
/// does so for what is not well-formed XML and for a document beyond its
/// limits.
pub uninterp spec fn xml_events(bytes: Seq<u8>) -> Option<Seq<EventView>>;

/// Runs `xml::reader::EventReader`, in its default configuration, over the
/// whole of `bytes`, and hands out each `XmlEvent` as the [`Event`] of the
/// same kind, with what it holds; the kinds that the library does not tell
/// apart become `Other`. The reader stops behind the end of the
/// document or at the first error, which is then the result. Nothing is
/// proved here: the contract only gives the outcome its name,
/// [`xml_events`]. The tokenizer does not promise to return on every input:
/// where it panics, this call unwinds.
#[verifier::external_body]
fn tokenize(bytes: &[u8]) -> (r: Result<Vec<Event>, xml::reader::Error>)
    ensures
        match r {
            Ok(events) => xml_events(bytes@) == Some(events.deep_view()),
            Err(_) => xml_events(bytes@) is None,
        },
{
    EventReader::new(bytes).into_iter().map(|item| item.map(|event| match event {
        XmlEvent::StartElement { name, attributes, namespace } => Event::Start {
            name: name.local_name,
            attributes: attributes.into_iter()
                .map(|a| Attribute { name: a.name.local_name, value: a.value }).collect(),
            namespace: namespace.0.into_iter()
                .map(|(name, value)| Attribute { name, value }).collect(),
        },
        XmlEvent::EndElement { name } => Event::End { name: name.local_name },
        XmlEvent::Characters(text) => Event::Characters(text),
        XmlEvent::Whitespace(text) => Event::Whitespace(text),
        XmlEvent::CData(text) => Event::CData(text),
        _ => Event::Other,
    })).collect()
}

/// The text of `xml::reader::Error`, as its `Display` writes it. Nothing is
/// claimed of it.
#[verifier::external_body]
fn describe(error: &xml::reader::Error) -> (message: String) {
    error.to_string()
}

/// The events of a document, or an error where the tokenizer gives one.
/// The call unwinds where the tokenizer panics: a caller that must go on
/// whatever the bytes are contains that, and hands the events to
/// [`Dep11::from_events`], which always returns.
pub fn events_of(bytes: &[u8]) -> (r: Result<Vec<Event>, ParseError>)
    ensures
        match xml_events(bytes@) {
            Some(events) => r is Ok && r->Ok_0.deep_view() == events,
            None => r is Err,
        },
{
    match tokenize(bytes) {
        Ok(events) => Ok(events),
        Err(error) => Err(ParseError { message: describe(&error) }),
    }
}

impl Dep11 {
    /// Reads a document: the record that its events describe, or an error
    /// where the tokenizer gives one. The call unwinds where the tokenizer
    /// panics, as [`events_of`] does.
    pub fn from_xml(bytes: &[u8]) -> (r: Result<Dep11, ParseError>)
        ensures
            match xml_events(bytes@) {
                Some(events) => r is Ok && r->Ok_0@ == extract(events) && r->Ok_0@.well_formed(),
                None => r is Err,
            },
    {
        match events_of(bytes) {
            Ok(events) => Ok(Dep11::from_events(&events)),
            Err(error) => Err(error),
        }
    }
}

} // verus!
