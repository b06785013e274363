//! Metadata of a software component, taken from the event stream of an XML
//! document.
//!
//! [`Dep11::from_xml`] reads a document and [`Dep11::from_events`] a sequence of
//! events that is already there. Each start tag of a known name fills the slot
//! that belongs to it; what the events say of the record is
//! [`extract::extract`], and [`laws`] holds what follows from it.
//!
//! [`Dep11::checked_for_completion`] then asks a callback for every entry of
//! the checklist that the record still lacks, and
//! [`Dep11::completed_within`] does so with a callback of which nothing is
//! known, in a number of questions that the caller sets.
//!
//! The functions of this library return on every input that their contracts
//! admit, with one exception: [`Dep11::from_xml`] and [`reader::events_of`]
//! call the tokenizer, and unwind where it panics.

pub mod complete;
pub mod event;
pub mod extract;
pub mod laws;
pub mod reader;
pub mod record;
pub mod scan;
pub mod text;

pub use complete::Entry;
pub use event::{Attribute, Event};
pub use reader::ParseError;
pub use record::{Data, Dep11, Field, InnerIcon, Screenshot, SourceImage};
