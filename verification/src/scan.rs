//! Reading forward in a sequence of events: the extent of an element, the
//! character data that follows a start tag, and the texts of a list.
//!
//! A position is an index into the sequence. Every function here reads from a
//! position onward and says how many events it has used up, so that the caller
//! can go on behind them.

use vstd::prelude::*;
use crate::event::{Event, EventView};
use crate::text::{same_text, text_of};

verus! {

impl EventView {
    /// A start tag of the given name.
    pub open spec fn opens(self, name: Seq<char>) -> bool {
        self matches EventView::Start { name: n, .. } && n == name
    }

    /// An end tag of the given name.
    pub open spec fn closes(self, name: Seq<char>) -> bool {
        self matches EventView::End { name: n } && n == name
    }
}

/// The number of events, from `from` on, that lie inside the element `name`
/// whose start tag has just been read: those before the end tag that closes
/// it. Start tags of the same name met on the way open a nested element and
/// are counted in `depth`; an end tag of that name closes the innermost one.
/// Where the sequence runs out first, the rest of it is the extent.
pub open spec fn scope_len(events: Seq<EventView>, from: int, name: Seq<char>, depth: nat) -> nat
    decreases events.len() - from,
{
    if from < 0 || from >= events.len() {
        0
    } else if events[from].closes(name) {
        if depth == 0 {
            0
        } else {
            1 + scope_len(events, from + 1, name, (depth - 1) as nat)
        }
    } else if events[from].opens(name) {
        1 + scope_len(events, from + 1, name, depth + 1)
    } else {
        1 + scope_len(events, from + 1, name, depth)
    }
}

/// What a look ahead for character data found, and how many events it read.
pub ghost struct Capture {
    pub text: Option<Seq<char>>,
    pub consumed: nat,
}

/// The character data that follows position `from`, looked for before
/// `until`: events are passed over until character data is met, which is the
/// text, or an end tag, which ends the search without one. The event that
/// ended the search is used up too.
pub open spec fn next_text(events: Seq<EventView>, from: int, until: int) -> Capture
    decreases until - from,
{
    if from < 0 || from >= until || from >= events.len() {
        Capture { text: None, consumed: 0 }
    } else {
        match events[from] {
            EventView::Characters(text) => Capture { text: Some(text), consumed: 1 },
            EventView::End { .. } => Capture { text: None, consumed: 1 },
            _ => {
                let rest = next_text(events, from + 1, until);
                Capture { text: rest.text, consumed: rest.consumed + 1 }
            },
        }
    }
}

/// The texts of the elements `inner` between `from` and `until`, in the order
/// of their start tags: for each start tag, the character data that follows
/// it, where there is any. The events that a look ahead has read are not
/// looked at again.
pub open spec fn collect(events: Seq<EventView>, from: int, until: int, inner: Seq<char>) -> Seq<
    Seq<char>,
>
    decreases until - from,
{
    if from < 0 || from >= until || from >= events.len() {
        Seq::empty()
    } else if events[from].opens(inner) {
        let found = next_text(events, from + 1, until);
        proof {
            lemma_next_text_bounded(events, from + 1, until);
        }
        let rest = collect(events, from + 1 + found.consumed, until, inner);
        match found.text {
            Some(text) => seq![text] + rest,
            None => rest,
        }
    } else {
        collect(events, from + 1, until, inner)
    }
}

/// The number of events that the element `name` entered just before `from`
/// takes up from `from` on: those inside it and, where the sequence holds it,
/// the end tag that closes it.
pub open spec fn scope_span(events: Seq<EventView>, from: int, name: Seq<char>) -> nat {
    let inside = scope_len(events, from, name, 0);
    if from + inside < events.len() {
        inside + 1
    } else {
        inside
    }
}

/// The texts of the elements `inner` inside the element `outer` entered just
/// before `from`.
pub open spec fn listed(
    events: Seq<EventView>,
    from: int,
    outer: Seq<char>,
    inner: Seq<char>,
) -> Seq<Seq<char>> {
    collect(events, from, from + scope_len(events, from, outer, 0), inner)
}

/// A start tag `p` without attributes.
pub open spec fn plain_paragraph(event: EventView) -> bool {
    event matches EventView::Start { name, attributes, .. } && name == "p"@ && attributes.len()
        == 0
}

/// The text of the first paragraph between `from` and `until` that has one:
/// the character data that follows the first start tag `p` without
/// attributes that is followed by any. The events behind that text are not
/// read: `consumed` counts up to the text and no further.
pub open spec fn paragraph(events: Seq<EventView>, from: int, until: int) -> Capture
    decreases until - from,
{
    if from < 0 || from >= until || from >= events.len() {
        Capture { text: None, consumed: 0 }
    } else if plain_paragraph(events[from]) {
        let found = next_text(events, from + 1, until);
        proof {
            lemma_next_text_bounded(events, from + 1, until);
        }
        if found.text is Some {
            Capture { text: found.text, consumed: 1 + found.consumed }
        } else {
            let rest = paragraph(events, from + 1 + found.consumed, until);
            Capture { text: rest.text, consumed: 1 + found.consumed + rest.consumed }
        }
    } else {
        let rest = paragraph(events, from + 1, until);
        Capture { text: rest.text, consumed: 1 + rest.consumed }
    }
}

/// By how many the start tags `name` between `from` and `to` outnumber the
/// end tags `name` there.
pub open spec fn surplus(events: Seq<EventView>, from: int, to: int, name: Seq<char>) -> int
    decreases to - from,
{
    if to <= from || to > events.len() || from < 0 {
        0
    } else if events[to - 1].opens(name) {
        surplus(events, from, to - 1, name) + 1
    } else if events[to - 1].closes(name) {
        surplus(events, from, to - 1, name) - 1
    } else {
        surplus(events, from, to - 1, name)
    }
}

proof fn lemma_surplus_from_front(events: Seq<EventView>, from: int, to: int, name: Seq<char>)
    requires
        0 <= from < to <= events.len(),
    ensures
        surplus(events, from, to, name) == surplus(events, from + 1, to, name) + if events[from].opens(
            name,
        ) {
            1int
        } else if events[from].closes(name) {
            -1int
        } else {
            0int
        },
    decreases to - from,
{
    if from + 1 < to {
        lemma_surplus_from_front(events, from, to - 1, name);
    } else {
        assert(surplus(events, from, from, name) == 0);
        assert(surplus(events, from + 1, to, name) == 0);
    }
}

/// An element ends at its own end tag. The extent of an element entered
/// `depth` levels deep ends at the first end tag of its name that finds every
/// element of that name opened since then closed again; an end tag that
/// closes a nested element of the same name does not end it.
pub proof fn law_scope_ends_at_matching_tag(
    events: Seq<EventView>,
    from: int,
    name: Seq<char>,
    depth: nat,
)
    requires
        0 <= from <= events.len(),
    ensures
        ({
            let end = from + scope_len(events, from, name, depth);
            &&& end <= events.len()
            &&& end < events.len() ==> events[end].closes(name) && depth + surplus(
                events,
                from,
                end,
                name,
            ) == 0
            &&& forall|at: int|
                from <= at < end ==> !(#[trigger] events[at].closes(name) && depth + surplus(
                    events,
                    from,
                    at,
                    name,
                ) == 0)
        }),
    decreases events.len() - from,
{
    let end = from + scope_len(events, from, name, depth);
    if from < events.len() {
        let inner: nat = if events[from].closes(name) {
            if depth == 0 {
                0
            } else {
                (depth - 1) as nat
            }
        } else if events[from].opens(name) {
            depth + 1
        } else {
            depth
        };
        if !(events[from].closes(name) && depth == 0) {
            law_scope_ends_at_matching_tag(events, from + 1, name, inner);
            if end < events.len() {
                lemma_surplus_from_front(events, from, end, name);
            }
            assert forall|at: int| from <= at < end implies !(#[trigger] events[at].closes(name)
                && depth + surplus(events, from, at, name) == 0) by {
                if at > from {
                    lemma_surplus_from_front(events, from, at, name);
                }
            }
        }
    }
}

/// What a look ahead does: it passes over everything that is neither
/// character data nor an end tag, and stops at the first event that is one of
/// the two. Character data is the text; before an end tag, or where the bound
/// is reached first, there is none.
pub proof fn law_next_text_takes_first_content(events: Seq<EventView>, from: int, until: int)
    requires
        0 <= from <= until <= events.len(),
    ensures
        ({
            let found = next_text(events, from, until);
            let last = from + found.consumed - 1;
            &&& from + found.consumed <= until
            &&& forall|at: int|
                from <= at < last ==> !(#[trigger] events[at] is Characters) && !(events[at] is End)
            &&& match found.text {
                Some(text) => found.consumed > 0 && events[last] == EventView::Characters(text),
                None => if from + found.consumed < until {
                    found.consumed > 0 && events[last] is End
                } else {
                    found.consumed == 0 || !(events[last] is Characters)
                },
            }
        }),
    decreases until - from,
{
    if from < until {
        match events[from] {
            EventView::Characters(_) => {},
            EventView::End { .. } => {},
            _ => {
                law_next_text_takes_first_content(events, from + 1, until);
            },
        }
    }
}

/// A look ahead never reads past its bound.
pub proof fn lemma_next_text_bounded(events: Seq<EventView>, from: int, until: int)
    requires
        from <= until,
    ensures
        from + next_text(events, from, until).consumed <= until,
    decreases until - from,
{
    if 0 <= from < until && from < events.len() {
        match events[from] {
            EventView::Characters(_) => {},
            EventView::End { .. } => {},
            _ => {
                lemma_next_text_bounded(events, from + 1, until);
            },
        }
    }
}

/// The extent of an element ends inside the sequence.
pub proof fn lemma_scope_len_bounded(
    events: Seq<EventView>,
    from: int,
    name: Seq<char>,
    depth: nat,
)
    requires
        0 <= from <= events.len(),
    ensures
        from + scope_len(events, from, name, depth) <= events.len(),
    decreases events.len() - from,
{
    if from < events.len() {
        if events[from].closes(name) {
            if depth > 0 {
                lemma_scope_len_bounded(events, from + 1, name, (depth - 1) as nat);
            }
        } else if events[from].opens(name) {
            lemma_scope_len_bounded(events, from + 1, name, depth + 1);
        } else {
            lemma_scope_len_bounded(events, from + 1, name, depth);
        }
    }
}

/// The position of the end tag that closes the element `name` entered just
/// before `from`, or the length of the sequence where there is none.
pub fn scope_end(events: &Vec<Event>, from: usize, name: &str) -> (end: usize)
    requires
        from <= events.len(),
    ensures
        end == from + scope_len(events.deep_view(), from as int, name@, 0),
        from <= end <= events.len(),
{
    let ghost all = events.deep_view();
    let mut at: usize = from;
    let mut depth: usize = 0;
    while at < events.len()
        invariant
            from <= at <= events.len(),
            all == events.deep_view(),
            depth <= at - from,
            from + scope_len(all, from as int, name@, 0) == at + scope_len(
                all,
                at as int,
                name@,
                depth as nat,
            ),
        decreases events.len() - at,
    {
        assert(all[at as int] == events[at as int]@);
        match &events[at] {
            Event::End { name: n } => {
                if same_text(n.as_str(), name) {
                    if depth == 0 {
                        return at;
                    }
                    depth -= 1;
                }
            },
            Event::Start { name: n, .. } => {
                if same_text(n.as_str(), name) {
                    depth += 1;
                }
            },
            _ => {},
        }
        at += 1;
    }
    at
}

/// Looks ahead from `from` for character data, not beyond `until`, and
/// returns the text, if any, and the position behind the events read.
pub fn take_text(events: &Vec<Event>, from: usize, until: usize) -> (found: (Option<String>, usize))
    requires
        from <= until <= events.len(),
    ensures
        text_of(found.0) == next_text(
            events.deep_view(),
            from as int,
            until as int,
        ).text,
        found.1 == from + next_text(events.deep_view(), from as int, until as int).consumed,
        from <= found.1 <= until,
{
    let ghost all = events.deep_view();
    let mut at: usize = from;
    while at < until
        invariant
            from <= at <= until <= events.len(),
            all == events.deep_view(),
            next_text(all, from as int, until as int).text == next_text(
                all,
                at as int,
                until as int,
            ).text,
            from + next_text(all, from as int, until as int).consumed == at + next_text(
                all,
                at as int,
                until as int,
            ).consumed,
        decreases until - at,
    {
        assert(all[at as int] == events[at as int]@);
        match &events[at] {
            Event::Characters(text) => {
                return (Some(text.clone()), at + 1);
            },
            Event::End { .. } => {
                return (None, at + 1);
            },
            _ => {},
        }
        at += 1;
    }
    (None, at)
}

/// Appends to `data` the texts of the elements `target_name` inside the
/// element `source_name` whose start tag stands just before `from`, and
/// returns the position behind that element's end tag.
pub fn collect_data_to(
    data: &mut Vec<String>,
    source_name: &str,
    target_name: &str,
    events: &Vec<Event>,
    from: usize,
) -> (next: usize)
    requires
        from <= events.len(),
    ensures
        final(data).deep_view() == old(data).deep_view() + listed(
            events.deep_view(),
            from as int,
            source_name@,
            target_name@,
        ),
        next == from + scope_span(events.deep_view(), from as int, source_name@),
        from <= next <= events.len(),
{
    let ghost all = events.deep_view();
    let until = scope_end(events, from, source_name);
    let mut at: usize = from;
    while at < until
        invariant
            from <= at <= until <= events.len(),
            all == events.deep_view(),
            old(data).deep_view() + collect(all, from as int, until as int, target_name@)
                == data.deep_view() + collect(all, at as int, until as int, target_name@),
        decreases until - at,
    {
        assert(all[at as int] == events[at as int]@);
        let ghost before = data.deep_view();
        let mut opened = false;
        match &events[at] {
            Event::Start { name, .. } => {
                opened = same_text(name.as_str(), target_name);
            },
            _ => {},
        }
        if opened {
            let found = take_text(events, at + 1, until);
            match found.0 {
                Some(text) => {
                    data.push(text);
                    assert(data.deep_view() =~= before.push(text@));
                    assert(before.push(text@) + collect(
                        all,
                        found.1 as int,
                        until as int,
                        target_name@,
                    ) =~= before + (seq![text@] + collect(
                        all,
                        found.1 as int,
                        until as int,
                        target_name@,
                    )));
                },
                None => {},
            }
            at = found.1;
        } else {
            at += 1;
        }
    }
    if until < events.len() {
        until + 1
    } else {
        until
    }
}

/// Looks between `from` and `until` for the first paragraph that has text,
/// and returns a copy of the text, if any, and the position behind the
/// events read.
pub fn first_paragraph(events: &Vec<Event>, from: usize, until: usize) -> (found: (
    Option<String>,
    usize,
))
    requires
        from <= until <= events.len(),
    ensures
        text_of(found.0) == paragraph(
            events.deep_view(),
            from as int,
            until as int,
        ).text,
        found.1 == from + paragraph(events.deep_view(), from as int, until as int).consumed,
        from <= found.1 <= until,
{
    let ghost all = events.deep_view();
    let mut at: usize = from;
    while at < until
        invariant
            from <= at <= until <= events.len(),
            all == events.deep_view(),
            paragraph(all, from as int, until as int).text == paragraph(
                all,
                at as int,
                until as int,
            ).text,
            from + paragraph(all, from as int, until as int).consumed == at + paragraph(
                all,
                at as int,
                until as int,
            ).consumed,
        decreases until - at,
    {
        assert(all[at as int] == events[at as int]@);
        let mut plain = false;
        match &events[at] {
            Event::Start { name, attributes, .. } => {
                plain = same_text(name.as_str(), "p") && attributes.len() == 0;
            },
            _ => {},
        }
        if plain {
            let found = take_text(events, at + 1, until);
            if found.0.is_some() {
                return found;
            }
            at = found.1;
        } else {
            at += 1;
        }
    }
    (None, at)
}

} // verus!
