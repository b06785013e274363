//! The events of an XML token stream, as far as the extraction reads them.

use vstd::prelude::*;
use crate::text::{same_text, text_of};

verus! {

/// A name bound to a value at a start tag: an attribute, by its local name,
/// or a namespace binding, by its prefix.
#[derive(Clone, Debug, PartialEq, Eq)]
pub struct Attribute {
    pub name: String,
    pub value: String,
}

/// One event of the stream.
#[derive(Clone, Debug, PartialEq, Eq)]
pub enum Event {
    /// A start tag, by its local name, with its attributes and with the
    /// namespace bindings in force at it.
    Start { name: String, attributes: Vec<Attribute>, namespace: Vec<Attribute> },
    /// An end tag, by its local name.
    End { name: String },
    /// Character data that is not only whitespace.
    Characters(String),
    /// Text that is only whitespace.
    Whitespace(String),
    /// A CDATA section.
    CData(String),
    /// Anything else: a comment, a processing instruction, the start or the
    /// end of the document.
    Other,
}

/// The mathematical value of an [`Attribute`].
pub ghost struct AttributeView {
    pub name: Seq<char>,
    pub value: Seq<char>,
}

/// The mathematical value of an [`Event`].
pub ghost enum EventView {
    Start { name: Seq<char>, attributes: Seq<AttributeView>, namespace: Seq<AttributeView> },
    End { name: Seq<char> },
    Characters(Seq<char>),
    Whitespace(Seq<char>),
    CData(Seq<char>),
    Other,
}

impl View for Attribute {
    type V = AttributeView;

    open spec fn view(&self) -> AttributeView {
        AttributeView { name: self.name@, value: self.value@ }
    }
}

impl DeepView for Attribute {
    type V = AttributeView;

    open spec fn deep_view(&self) -> AttributeView {
        self@
    }
}

impl View for Event {
    type V = EventView;

    open spec fn view(&self) -> EventView {
        match *self {
            Event::Start { name, attributes, namespace } => EventView::Start {
                name: name@,
                attributes: attributes.deep_view(),
                namespace: namespace.deep_view(),
            },
            Event::End { name } => EventView::End { name: name@ },
            Event::Characters(text) => EventView::Characters(text@),
            Event::Whitespace(text) => EventView::Whitespace(text@),
            Event::CData(text) => EventView::CData(text@),
            Event::Other => EventView::Other,
        }
    }
}

impl DeepView for Event {
    type V = EventView;

    open spec fn deep_view(&self) -> EventView {
        self@
    }
}

/// The value of the first of `bound` that has the given name.
pub open spec fn lookup(bound: Seq<AttributeView>, name: Seq<char>) -> Option<Seq<char>>
    decreases bound.len(),
{
    if bound.len() == 0 {
        None
    } else if bound[0].name == name {
        Some(bound[0].value)
    } else {
        lookup(bound.drop_first(), name)
    }
}

/// What a lookup finds: the value at the first position that has the name,
/// and nothing where no position has it.
pub proof fn law_lookup_is_first(bound: Seq<AttributeView>, name: Seq<char>)
    ensures
        match lookup(bound, name) {
            Some(value) => exists|at: int|
                {
                    &&& 0 <= at < bound.len()
                    &&& (#[trigger] bound[at]).name == name
                    &&& bound[at].value == value
                    &&& forall|before: int| 0 <= before < at ==> (#[trigger] bound[before]).name != name
                },
            None => forall|at: int| 0 <= at < bound.len() ==> (#[trigger] bound[at]).name != name,
        },
    decreases bound.len(),
{
    if bound.len() > 0 {
        if bound[0].name == name {
            assert(forall|before: int| 0 <= before < 0 ==> (#[trigger] bound[before]).name != name);
        } else {
            let rest = bound.drop_first();
            law_lookup_is_first(rest, name);
            assert forall|at: int| 0 < at < bound.len() implies bound[at] == rest[at - 1] by {}
            match lookup(rest, name) {
                Some(value) => {
                    let at = choose|at: int|
                        {
                            &&& 0 <= at < rest.len()
                            &&& (#[trigger] rest[at]).name == name
                            &&& rest[at].value == value
                            &&& forall|before: int|
                                0 <= before < at ==> (#[trigger] rest[before]).name != name
                        };
                    assert(bound[at + 1] == rest[at]);
                    assert forall|before: int| 0 <= before < at + 1 implies (
                    #[trigger] bound[before]).name != name by {
                        if before > 0 {
                            assert(bound[before] == rest[before - 1]);
                        }
                    }
                },
                None => {
                    assert forall|at: int| 0 <= at < bound.len() implies (
                    #[trigger] bound[at]).name != name by {
                        if at > 0 {
                            assert(bound[at] == rest[at - 1]);
                        }
                    }
                },
            }
        }
    }
}

/// A copy of the value of the first of `bound` that has the given name.
pub fn find_value(bound: &Vec<Attribute>, name: &str) -> (value: Option<String>)
    ensures
        text_of(value) == lookup(bound.deep_view(), name@),
{
    let ghost all = bound.deep_view();
    let mut at: usize = 0;
    assert(all.skip(0) =~= all);
    while at < bound.len()
        invariant
            at <= bound.len(),
            all == bound.deep_view(),
            lookup(all, name@) == lookup(all.skip(at as int), name@),
        decreases bound.len() - at,
    {
        assert(all[at as int] == bound[at as int]@);
        assert(all.skip(at as int)[0] == all[at as int]);
        if same_text(bound[at].name.as_str(), name) {
            return Some(bound[at].value.clone());
        }
        assert(all.skip(at as int).drop_first() =~= all.skip(at + 1));
        at += 1;
    }
    None
}

} // verus!
