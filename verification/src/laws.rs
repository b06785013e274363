//! What holds of every extraction, whatever the events: which slots a tag
//! can reach, that a slot only gains, and in which order a list is filled.

use vstd::prelude::*;
use crate::event::{AttributeView, EventView};
use crate::extract::{
    apply, description, extract, extract_from, icon_of, lemma_apply_bounded,
    lemma_paragraph_bounded, rule, screenshots_of, Tag,
};
use crate::record::{DataView, Dep11View, Field};
use crate::scan::{
    collect, lemma_next_text_bounded, lemma_scope_len_bounded, listed, next_text, paragraph,
    plain_paragraph, scope_len,
};
use crate::text::trimmed;

verus! {

/// Whether an event is a start tag that fills the given slot.
pub open spec fn feeds(event: EventView, field: Field) -> bool {
    event matches EventView::Start { name, .. } && Tag::named(name) matches Some(tag)
        && tag.field() == field
}

/// The names of the tags differ from one another: each name is that of its
/// own tag and of no other.
pub proof fn law_names_tell_tags_apart(tag: Tag)
    ensures
        Tag::named(tag.name()) == Some(tag),
{
    reveal_strlit("component");
    reveal_strlit("id");
    reveal_strlit("summary");
    reveal_strlit("description");
    reveal_strlit("project_license");
    reveal_strlit("name");
    reveal_strlit("url");
    reveal_strlit("screenshots");
    reveal_strlit("icon");
    reveal_strlit("developer_name");
    reveal_strlit("keywords");
    reveal_strlit("provides");
    reveal_strlit("mimetypes");
    reveal_strlit("categories");
    let name = tag.name();
    match tag {
        Tag::Component => {},
        Tag::Id => {
            assert(name.len() == 2);
        },
        Tag::Summary => {
            assert(name.len() == 7);
            assert(name[0] == 's');
        },
        Tag::Description => {
            assert(name.len() == 11);
            assert(name[0] == 'd');
        },
        Tag::ProjectLicense => {
            assert(name.len() == 15);
        },
        Tag::Name => {
            assert(name.len() == 4);
        },
        Tag::Url => {
            assert(name.len() == 3);
        },
        Tag::Screenshots => {
            assert(name.len() == 11);
            assert(name[0] == 's');
        },
        Tag::Icon => {
            assert(name.len() == 4);
            assert(name[0] == 'i');
        },
        Tag::DeveloperName => {
            assert(name.len() == 14);
        },
        Tag::Keywords => {
            assert(name.len() == 8);
            assert(name[0] == 'k');
        },
        Tag::Provides => {
            assert(name.len() == 8);
            assert(name[0] == 'p');
        },
        Tag::Mimetypes => {
            assert(name.len() == 9);
            assert(name[0] == 'm');
        },
        Tag::Categories => {
            assert(name.len() == 10);
        },
    }
}

/// A rule writes to the slot of its tag and to no other.
pub proof fn lemma_rule_frame(
    tag: Tag,
    record: Dep11View,
    events: Seq<EventView>,
    at: int,
    attributes: Seq<AttributeView>,
    namespace: Seq<AttributeView>,
    field: Field,
)
    requires
        field != tag.field(),
    ensures
        rule(tag, record, events, at, attributes, namespace).record.slot(field) == record.slot(
            field,
        ),
{
}

/// A slot stays as it is while no start tag that fills it is met.
pub proof fn lemma_untouched_from(
    events: Seq<EventView>,
    from: int,
    record: Dep11View,
    field: Field,
)
    requires
        forall|i: int| from <= i < events.len() && 0 <= i ==> !feeds(#[trigger] events[i], field),
    ensures
        extract_from(events, from, record).slot(field) == record.slot(field),
    decreases events.len() - from,
{
    if 0 <= from < events.len() {
        let step = apply(record, events, from);
        lemma_apply_bounded(record, events, from);
        assert(!feeds(events[from], field));
        match events[from] {
            EventView::Start { name, attributes, namespace } => {
                match Tag::named(name) {
                    Some(tag) => {
                        lemma_rule_frame(tag, record, events, from, attributes, namespace, field);
                    },
                    None => {},
                }
            },
            _ => {},
        }
        lemma_untouched_from(events, from + 1 + step.consumed, step.record, field);
    }
}

/// Where the events hold no start tag that fills a slot, the extraction
/// leaves that slot as an empty record has it: the scalar absent, the list
/// empty.
pub proof fn law_unfed_slot_stays_empty(events: Seq<EventView>, field: Field)
    requires
        forall|i: int| 0 <= i < events.len() ==> !feeds(#[trigger] events[i], field),
    ensures
        extract(events).slot(field) == Dep11View::empty().slot(field),
{
    lemma_untouched_from(events, 0, Dep11View::empty(), field);
}

/// Whether a scalar that was present is still what it was.
pub open spec fn keeps(earlier: Option<Seq<char>>, later: Option<Seq<char>>) -> bool {
    earlier is Some ==> later == earlier
}

impl DataView {
    /// Whether this slot holds what `earlier` held, and at most more: it is
    /// of the same kind, a scalar that was present is what it was, and a list
    /// begins with the items that it had, in their order.
    pub open spec fn extends(self, earlier: DataView) -> bool {
        match (earlier, self) {
            (DataView::Type(a), DataView::Type(b)) => keeps(a, b),
            (DataView::Id(a), DataView::Id(b)) => keeps(a, b),
            (DataView::Package(a), DataView::Package(b)) => keeps(a, b),
            (DataView::Name { c: a }, DataView::Name { c: b }) => keeps(a, b),
            (DataView::Summary { c: a }, DataView::Summary { c: b }) => keeps(a, b),
            (DataView::Description { c: a }, DataView::Description { c: b }) => keeps(a, b),
            (DataView::DeveloperName { c: a }, DataView::DeveloperName { c: b }) => keeps(a, b),
            (DataView::ProjectLicense(a), DataView::ProjectLicense(b)) => keeps(a, b),
            (DataView::Screenshots(a), DataView::Screenshots(b)) => a.is_prefix_of(b),
            (
                DataView::Url { homepage: h, bugtracker: t },
                DataView::Url { homepage: i, bugtracker: u },
            ) => keeps(h, i) && keeps(t, u),
            (DataView::Icon { cached: a }, DataView::Icon { cached: b }) => a.is_prefix_of(b),
            (
                DataView::Provides { mimetypes: m, binaries: a },
                DataView::Provides { mimetypes: n, binaries: b },
            ) => m.is_prefix_of(n) && a.is_prefix_of(b),
            (DataView::Categories(a), DataView::Categories(b)) => a.is_prefix_of(b),
            (DataView::Keywords(a), DataView::Keywords(b)) => a.is_prefix_of(b),
            _ => false,
        }
    }
}

/// What holds more than one that holds more than a third, holds more than
/// the third.
pub proof fn lemma_extends_in_steps(first: DataView, second: DataView, third: DataView)
    requires
        second.extends(first),
        third.extends(second),
    ensures
        third.extends(first),
{
}

/// A rule leaves a well-formed record well-formed, and each of its slots
/// with what it held.
pub proof fn lemma_rule_gains(
    tag: Tag,
    record: Dep11View,
    events: Seq<EventView>,
    at: int,
    attributes: Seq<AttributeView>,
    namespace: Seq<AttributeView>,
    field: Field,
)
    requires
        record.well_formed(),
    ensures
        rule(tag, record, events, at, attributes, namespace).record.well_formed(),
        rule(tag, record, events, at, attributes, namespace).record.slot(field).extends(
            record.slot(field),
        ),
{
}

/// An extraction takes nothing away. From a well-formed record on, whatever
/// the events, the record stays well-formed, a scalar that is present stays
/// what it is (the first value stays), and a list keeps its items in their
/// places: what comes is added behind them.
pub proof fn law_slots_only_gain(
    events: Seq<EventView>,
    from: int,
    record: Dep11View,
    field: Field,
)
    requires
        record.well_formed(),
    ensures
        extract_from(events, from, record).well_formed(),
        extract_from(events, from, record).slot(field).extends(record.slot(field)),
    decreases events.len() - from,
{
    if 0 <= from < events.len() {
        let step = apply(record, events, from);
        lemma_apply_bounded(record, events, from);
        match events[from] {
            EventView::Start { name, attributes, namespace } => {
                match Tag::named(name) {
                    Some(tag) => {
                        lemma_rule_gains(tag, record, events, from, attributes, namespace, field);
                    },
                    None => {},
                }
            },
            _ => {},
        }
        law_slots_only_gain(events, from + 1 + step.consumed, step.record, field);
        lemma_extends_in_steps(
            record.slot(field),
            step.record.slot(field),
            extract_from(events, from, record).slot(field),
        );
    }
}

/// The record of an extraction is well-formed: every slot holds the variant
/// that belongs to it.
pub proof fn law_extraction_well_formed(events: Seq<EventView>)
    ensures
        extract(events).well_formed(),
{
    law_slots_only_gain(events, 0, Dep11View::empty(), Field::Kind);
}

/// The positions of the start tags `inner` between `from` and `until` whose
/// text a collection takes, in the order in which it meets them.
pub open spec fn occurrences(events: Seq<EventView>, from: int, until: int, inner: Seq<char>) -> Seq<
    int,
>
    decreases until - from,
{
    if from < 0 || from >= until || from >= events.len() {
        Seq::empty()
    } else if events[from].opens(inner) {
        let found = next_text(events, from + 1, until);
        proof {
            lemma_next_text_bounded(events, from + 1, until);
        }
        let rest = occurrences(events, from + 1 + found.consumed, until, inner);
        if found.text is Some {
            seq![from] + rest
        } else {
            rest
        }
    } else {
        occurrences(events, from + 1, until, inner)
    }
}

/// A collection keeps the order of the document. Its texts are those that
/// follow the start tags at the positions of [`occurrences`], one text for
/// each position and in the same order, and those positions rise: nothing is
/// sorted, nothing is left out for being there already.
pub proof fn law_collect_in_document_order(
    events: Seq<EventView>,
    from: int,
    until: int,
    inner: Seq<char>,
)
    ensures
        occurrences(events, from, until, inner).len() == collect(events, from, until, inner).len(),
        forall|k: int|
            0 <= k < occurrences(events, from, until, inner).len() ==> {
                let at = #[trigger] occurrences(events, from, until, inner)[k];
                &&& 0 <= from <= at < until
                &&& at < events.len()
                &&& events[at].opens(inner)
                &&& next_text(events, at + 1, until).text == Some(
                    collect(events, from, until, inner)[k],
                )
            },
        forall|j: int, k: int|
            0 <= j < k < occurrences(events, from, until, inner).len() ==> occurrences(
                events,
                from,
                until,
                inner,
            )[j] < occurrences(events, from, until, inner)[k],
    decreases until - from,
{
    if 0 <= from < until && from < events.len() {
        let here = occurrences(events, from, until, inner);
        let texts = collect(events, from, until, inner);
        if events[from].opens(inner) {
            let found = next_text(events, from + 1, until);
            lemma_next_text_bounded(events, from + 1, until);
            let next = from + 1 + found.consumed;
            let rest = occurrences(events, next, until, inner);
            law_collect_in_document_order(events, next, until, inner);
            if found.text is Some {
                assert(here == seq![from] + rest);
                assert forall|k: int| 0 <= k < here.len() implies {
                    let at = #[trigger] here[k];
                    &&& 0 <= from <= at < until
                    &&& at < events.len()
                    &&& events[at].opens(inner)
                    &&& next_text(events, at + 1, until).text == Some(texts[k])
                } by {
                    if k > 0 {
                        assert(here[k] == rest[k - 1]);
                    }
                }
                assert forall|j: int, k: int| 0 <= j < k < here.len() implies here[j]
                    < here[k] by {
                    assert(here[k] == rest[k - 1]);
                    if j > 0 {
                        assert(here[j] == rest[j - 1]);
                    }
                }
            } else {
                assert forall|k: int| 0 <= k < here.len() implies {
                    let at = #[trigger] here[k];
                    &&& 0 <= from <= at < until
                    &&& at < events.len()
                    &&& events[at].opens(inner)
                    &&& next_text(events, at + 1, until).text == Some(texts[k])
                } by {
                    assert(here[k] == rest[k]);
                }
            }
        } else {
            let rest = occurrences(events, from + 1, until, inner);
            law_collect_in_document_order(events, from + 1, until, inner);
            assert forall|k: int| 0 <= k < here.len() implies {
                let at = #[trigger] here[k];
                &&& 0 <= from <= at < until
                &&& at < events.len()
                &&& events[at].opens(inner)
                &&& next_text(events, at + 1, until).text == Some(texts[k])
            } by {
                assert(here[k] == rest[k]);
            }
        }
    }
}

/// Before the first start tag `p` without attributes, the search for a
/// paragraph only passes events over.
proof fn lemma_paragraph_skips(events: Seq<EventView>, from: int, at: int, until: int)
    requires
        0 <= from <= at <= until,
        at <= events.len(),
        forall|i: int| from <= i < at ==> !plain_paragraph(#[trigger] events[i]),
    ensures
        paragraph(events, from, until).text == paragraph(events, at, until).text,
        paragraph(events, from, until).consumed == at - from + paragraph(
            events,
            at,
            until,
        ).consumed,
    decreases at - from,
{
    if from < at {
        assert(!plain_paragraph(events[from]));
        lemma_paragraph_skips(events, from + 1, at, until);
    }
}

/// A description keeps the text of its first paragraph. Where the first
/// start tag `p` without attributes inside the description is followed by
/// character data, the description is that text, trimmed, and the events are
/// read up to it and no further.
pub proof fn law_description_is_first_paragraph(
    events: Seq<EventView>,
    from: int,
    at: int,
    text: Seq<char>,
)
    requires
        0 <= from <= at < from + scope_len(events, from, "description"@, 0),
        plain_paragraph(events[at]),
        forall|i: int| from <= i < at ==> !plain_paragraph(#[trigger] events[i]),
        next_text(events, at + 1, from + scope_len(events, from, "description"@, 0)).text == Some(
            text,
        ),
    ensures
        description(events, from).text == Some(trimmed(text)),
        description(events, from).consumed == at + 1 - from + next_text(
            events,
            at + 1,
            from + scope_len(events, from, "description"@, 0),
        ).consumed,
{
    let until = from + scope_len(events, from, "description"@, 0);
    lemma_scope_len_bounded(events, from, "description"@, 0);
    lemma_paragraph_skips(events, from, at, until);
}

/// A look ahead that ended on an event depends on no event behind it.
proof fn lemma_next_text_local(
    a: Seq<EventView>,
    b: Seq<EventView>,
    from: int,
    until: int,
    bound: int,
)
    requires
        0 <= from,
        until <= a.len(),
        from + next_text(a, from, until).consumed <= bound,
        from + next_text(a, from, until).consumed <= b.len(),
        forall|i: int| from <= i < from + next_text(a, from, until).consumed ==> a[i] == b[i],
        next_text(a, from, until).text is Some || from + next_text(a, from, until).consumed
            < until,
    ensures
        next_text(b, from, bound) == next_text(a, from, until),
    decreases until - from,
{
    if from < until && from < a.len() {
        assert(a[from] == b[from]);
        match a[from] {
            EventView::Characters(_) => {},
            EventView::End { .. } => {},
            _ => {
                lemma_next_text_local(a, b, from + 1, until, bound);
            },
        }
    } else {
        lemma_next_text_bounded(a, from, until);
    }
}

/// An element that has not ended before a position does not end before it
/// in a sequence that is the same up to that position.
proof fn lemma_scope_reaches(
    a: Seq<EventView>,
    b: Seq<EventView>,
    from: int,
    name: Seq<char>,
    depth: nat,
    reach: int,
)
    requires
        0 <= from <= reach <= from + scope_len(a, from, name, depth),
        reach <= b.len(),
        forall|i: int| from <= i < reach ==> a[i] == b[i],
    ensures
        reach <= from + scope_len(b, from, name, depth),
    decreases reach - from,
{
    if from < reach {
        lemma_scope_len_bounded(a, from, name, depth);
        assert(a[from] == b[from]);
        if a[from].closes(name) {
            if depth > 0 {
                lemma_scope_reaches(a, b, from + 1, name, (depth - 1) as nat, reach);
            }
        } else if a[from].opens(name) {
            lemma_scope_reaches(a, b, from + 1, name, depth + 1, reach);
        } else {
            lemma_scope_reaches(a, b, from + 1, name, depth, reach);
        }
    }
}

/// A search that found a paragraph depends on no event behind its text.
proof fn lemma_paragraph_local(
    a: Seq<EventView>,
    b: Seq<EventView>,
    from: int,
    until: int,
    bound: int,
)
    requires
        0 <= from <= until <= a.len(),
        paragraph(a, from, until).text is Some,
        from + paragraph(a, from, until).consumed <= bound,
        from + paragraph(a, from, until).consumed <= b.len(),
        forall|i: int| from <= i < from + paragraph(a, from, until).consumed ==> a[i] == b[i],
    ensures
        paragraph(b, from, bound) == paragraph(a, from, until),
    decreases until - from,
{
    if from < until && from < a.len() {
        assert(a[from] == b[from]);
        if plain_paragraph(a[from]) {
            let found = next_text(a, from + 1, until);
            lemma_next_text_bounded(a, from + 1, until);
            if found.text is Some {
                lemma_next_text_local(a, b, from + 1, until, bound);
            } else {
                let next = from + 1 + found.consumed;
                if next >= until {
                    assert(paragraph(a, next, until).text is None);
                }
                lemma_next_text_local(a, b, from + 1, until, bound);
                lemma_paragraph_local(a, b, next, until, bound);
            }
        } else {
            lemma_paragraph_local(a, b, from + 1, until, bound);
        }
    }
}

/// What follows the text of a description does not count. Two sequences of
/// events that are the same as far as the first has been read for the text
/// of a description give the same description, whatever paragraphs come
/// behind.
pub proof fn law_description_ignores_what_follows(
    a: Seq<EventView>,
    b: Seq<EventView>,
    from: int,
)
    requires
        0 <= from <= a.len(),
        description(a, from).text is Some,
        from + description(a, from).consumed <= b.len(),
        forall|i: int| from <= i < from + description(a, from).consumed ==> a[i] == b[i],
    ensures
        description(b, from) == description(a, from),
{
    let name = "description"@;
    let until = from + scope_len(a, from, name, 0);
    let found = paragraph(a, from, until);
    let reach = from + found.consumed;
    lemma_scope_len_bounded(a, from, name, 0);
    lemma_paragraph_bounded(a, from, until);
    lemma_scope_reaches(a, b, from, name, 0, reach);
    lemma_paragraph_local(a, b, from, until, from + scope_len(b, from, name, 0));
}

/// An icon's name is the captured text with `.png` behind it, whatever the
/// text ends with.
pub proof fn law_icon_name_has_suffix(
    record: Dep11View,
    events: Seq<EventView>,
    at: int,
    text: Seq<char>,
)
    requires
        0 <= at < events.len(),
        events[at].opens("icon"@),
        record.icon is Icon,
        next_text(events, at + 1, events.len() as int).text == Some(text),
    ensures
        apply(record, events, at).record.icon == (DataView::Icon {
            cached: record.icon->cached.push(icon_of(text)),
        }),
        icon_of(text).name.len() == text.len() + 4,
        icon_of(text).name.subrange(0, text.len() as int) == text,
        icon_of(text).name.subrange(text.len() as int, text.len() as int + 4) == seq!['.', 'p', 'n', 'g'],
{
    law_names_tell_tags_apart(Tag::Icon);
    reveal_strlit(".png");
    let name = icon_of(text).name;
    assert(name.subrange(0, text.len() as int) =~= text);
    assert(name.subrange(text.len() as int, text.len() as int + 4) =~= seq!['.', 'p', 'n', 'g']);
}

/// Whether an event is a start tag of the name of the given tag.
pub open spec fn announces(event: EventView, tag: Tag) -> bool {
    event matches EventView::Start { name, .. } && Tag::named(name) == Some(tag)
}

/// No tag fills the package: whatever the events, an extraction leaves it
/// absent.
pub proof fn law_package_stays_absent(events: Seq<EventView>)
    ensures
        extract(events).package == DataView::Package(None),
{
    law_unfed_slot_stays_empty(events, Field::Package);
}

/// Whether a slot holds icons, none of them with a size.
pub open spec fn icons_without_size(slot: DataView) -> bool {
    slot matches DataView::Icon { cached } && forall|k: int|
        0 <= k < cached.len() ==> (#[trigger] cached[k]).width is None && cached[k].height is None
}

proof fn lemma_icons_without_size_from(events: Seq<EventView>, from: int, record: Dep11View)
    requires
        icons_without_size(record.icon),
    ensures
        icons_without_size(extract_from(events, from, record).icon),
    decreases events.len() - from,
{
    if 0 <= from < events.len() {
        let step = apply(record, events, from);
        lemma_apply_bounded(record, events, from);
        assert(icons_without_size(step.record.icon)) by {
            let before = record.icon->cached;
            let after = step.record.icon->cached;
            if after != before {
                let text = next_text(events, from + 1, events.len() as int).text->0;
                assert(after == before.push(icon_of(text)));
                assert forall|k: int| 0 <= k < after.len() implies (#[trigger] after[k]).width
                    is None && after[k].height is None by {
                    if k < before.len() {
                        assert(after[k] == before[k]);
                    }
                }
            }
        }
        lemma_icons_without_size_from(events, from + 1 + step.consumed, step.record);
    }
}

/// An extraction knows no size of an icon: whatever the events, every icon
/// of the record has neither width nor height.
pub proof fn law_icons_have_no_size(events: Seq<EventView>)
    ensures
        icons_without_size(extract(events).icon),
{
    assert(icons_without_size(Dep11View::empty().icon));
    lemma_icons_without_size_from(events, 0, Dep11View::empty());
}

/// Whether a slot holds screenshots, each of them an image URL without
/// thumbnails and for the locale `C`.
pub open spec fn screenshots_of_images(slot: DataView) -> bool {
    slot matches DataView::Screenshots(shots) && forall|k: int|
        0 <= k < shots.len() ==> {
            &&& (#[trigger] shots[k]).thumbnails.len() == 0
            &&& shots[k].source_image.url is Some
            &&& shots[k].source_image.lang == Some("C"@)
        }
}

proof fn lemma_screenshots_of_images_from(events: Seq<EventView>, from: int, record: Dep11View)
    requires
        screenshots_of_images(record.screenshots),
    ensures
        screenshots_of_images(extract_from(events, from, record).screenshots),
    decreases events.len() - from,
{
    if 0 <= from < events.len() {
        let step = apply(record, events, from);
        lemma_apply_bounded(record, events, from);
        assert(screenshots_of_images(step.record.screenshots)) by {
            let before = record.screenshots->Screenshots_0;
            let after = step.record.screenshots->Screenshots_0;
            if after != before {
                let added = screenshots_of(listed(events, from + 1, "screenshots"@, "image"@));
                assert(after == before + added);
                assert forall|k: int| 0 <= k < after.len() implies {
                    &&& (#[trigger] after[k]).thumbnails.len() == 0
                    &&& after[k].source_image.url is Some
                    &&& after[k].source_image.lang == Some("C"@)
                } by {
                    if k < before.len() {
                        assert(after[k] == before[k]);
                    } else {
                        assert(after[k] == added[k - before.len()]);
                    }
                }
            }
        }
        lemma_screenshots_of_images_from(events, from + 1 + step.consumed, step.record);
    }
}

/// An extraction makes a screenshot of an image URL and of nothing else:
/// whatever the events, every screenshot of the record has a URL, no
/// thumbnails, and the locale `C`.
pub proof fn law_screenshots_are_of_images(events: Seq<EventView>)
    ensures
        screenshots_of_images(extract(events).screenshots),
{
    assert(screenshots_of_images(Dep11View::empty().screenshots));
    lemma_screenshots_of_images_from(events, 0, Dep11View::empty());
}

proof fn lemma_binaries_from(events: Seq<EventView>, from: int, record: Dep11View)
    requires
        record.provides is Provides,
        forall|i: int|
            from <= i < events.len() && 0 <= i ==> !announces(#[trigger] events[i], Tag::Provides),
    ensures
        extract_from(events, from, record).provides is Provides,
        extract_from(events, from, record).provides->binaries == record.provides->binaries,
    decreases events.len() - from,
{
    if 0 <= from < events.len() {
        let step = apply(record, events, from);
        lemma_apply_bounded(record, events, from);
        assert(!announces(events[from], Tag::Provides));
        lemma_binaries_from(events, from + 1 + step.consumed, step.record);
    }
}

proof fn lemma_mimetypes_from(events: Seq<EventView>, from: int, record: Dep11View)
    requires
        record.provides is Provides,
        forall|i: int|
            from <= i < events.len() && 0 <= i ==> !announces(#[trigger] events[i], Tag::Mimetypes),
    ensures
        extract_from(events, from, record).provides is Provides,
        extract_from(events, from, record).provides->mimetypes == record.provides->mimetypes,
    decreases events.len() - from,
{
    if 0 <= from < events.len() {
        let step = apply(record, events, from);
        lemma_apply_bounded(record, events, from);
        assert(!announces(events[from], Tag::Mimetypes));
        lemma_mimetypes_from(events, from + 1 + step.consumed, step.record);
    }
}

/// Each list of the provides slot has a tag of its own. Without a start tag
/// `provides` the extraction finds no binaries, whatever start tags
/// `mimetypes` there are.
pub proof fn law_binaries_come_from_provides(events: Seq<EventView>)
    requires
        forall|i: int| 0 <= i < events.len() ==> !announces(#[trigger] events[i], Tag::Provides),
    ensures
        extract(events).provides is Provides,
        extract(events).provides->binaries == Seq::<Seq<char>>::empty(),
{
    lemma_binaries_from(events, 0, Dep11View::empty());
}

/// Without a start tag `mimetypes` the extraction finds no mimetypes,
/// whatever start tags `provides` there are.
pub proof fn law_mimetypes_come_from_mimetypes(events: Seq<EventView>)
    requires
        forall|i: int| 0 <= i < events.len() ==> !announces(#[trigger] events[i], Tag::Mimetypes),
    ensures
        extract(events).provides is Provides,
        extract(events).provides->mimetypes == Seq::<Seq<char>>::empty(),
{
    lemma_mimetypes_from(events, 0, Dep11View::empty());
}

} // verus!
