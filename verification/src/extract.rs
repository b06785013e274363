//! The extraction: one pass over the events, in which each start tag of a
//! known name fills the slot that belongs to it.

use vstd::prelude::*;
use vstd::string::StringExecFns;
use crate::event::{find_value, lookup, AttributeView, Event, EventView};
use crate::laws::law_extraction_well_formed;
use crate::record::{
    Data, Dep11, Dep11View, Field, IconView, ScreenshotView, SourceImageView,
};
use crate::scan::{
    collect_data_to, first_paragraph, lemma_next_text_bounded, lemma_scope_len_bounded, listed,
    next_text, paragraph, plain_paragraph, scope_end, scope_len, scope_span, take_text, Capture,
};
use crate::text::{same_text, text_of, trim, trimmed};

verus! {

/// The element names that the extraction knows.
#[derive(Clone, Copy, Debug, PartialEq, Eq, Structural)]
pub enum Tag {
    Component,
    Id,
    Summary,
    Description,
    ProjectLicense,
    Name,
    Url,
    Screenshots,
    Icon,
    DeveloperName,
    Keywords,
    Provides,
    Mimetypes,
    Categories,
}

impl Tag {
    /// The element name of a tag.
    pub open spec fn name(self) -> Seq<char> {
        match self {
            Tag::Component => "component"@,
            Tag::Id => "id"@,
            Tag::Summary => "summary"@,
            Tag::Description => "description"@,
            Tag::ProjectLicense => "project_license"@,
            Tag::Name => "name"@,
            Tag::Url => "url"@,
            Tag::Screenshots => "screenshots"@,
            Tag::Icon => "icon"@,
            Tag::DeveloperName => "developer_name"@,
            Tag::Keywords => "keywords"@,
            Tag::Provides => "provides"@,
            Tag::Mimetypes => "mimetypes"@,
            Tag::Categories => "categories"@,
        }
    }

    /// The slot that a tag fills.
    pub open spec fn field(self) -> Field {
        match self {
            Tag::Component => Field::Kind,
            Tag::Id => Field::Id,
            Tag::Summary => Field::Summary,
            Tag::Description => Field::Description,
            Tag::ProjectLicense => Field::ProjectLicense,
            Tag::Name => Field::Name,
            Tag::Url => Field::Url,
            Tag::Screenshots => Field::Screenshots,
            Tag::Icon => Field::Icon,
            Tag::DeveloperName => Field::DeveloperName,
            Tag::Keywords => Field::Keywords,
            Tag::Provides => Field::Provides,
            Tag::Mimetypes => Field::Provides,
            Tag::Categories => Field::Categories,
        }
    }

    /// The tag of an element name, where it is a known one.
    pub open spec fn named(name: Seq<char>) -> Option<Tag> {
        if name == "component"@ {
            Some(Tag::Component)
        } else if name == "id"@ {
            Some(Tag::Id)
        } else if name == "summary"@ {
            Some(Tag::Summary)
        } else if name == "description"@ {
            Some(Tag::Description)
        } else if name == "project_license"@ {
            Some(Tag::ProjectLicense)
        } else if name == "name"@ {
            Some(Tag::Name)
        } else if name == "url"@ {
            Some(Tag::Url)
        } else if name == "screenshots"@ {
            Some(Tag::Screenshots)
        } else if name == "icon"@ {
            Some(Tag::Icon)
        } else if name == "developer_name"@ {
            Some(Tag::DeveloperName)
        } else if name == "keywords"@ {
            Some(Tag::Keywords)
        } else if name == "provides"@ {
            Some(Tag::Provides)
        } else if name == "mimetypes"@ {
            Some(Tag::Mimetypes)
        } else if name == "categories"@ {
            Some(Tag::Categories)
        } else {
            None
        }
    }

    /// The tag of an element name, where it is a known one.
    pub fn recognize(name: &str) -> (tag: Option<Tag>)
        ensures
            tag == Tag::named(name@),
    {
        if same_text(name, "component") {
            Some(Tag::Component)
        } else if same_text(name, "id") {
            Some(Tag::Id)
        } else if same_text(name, "summary") {
            Some(Tag::Summary)
        } else if same_text(name, "description") {
            Some(Tag::Description)
        } else if same_text(name, "project_license") {
            Some(Tag::ProjectLicense)
        } else if same_text(name, "name") {
            Some(Tag::Name)
        } else if same_text(name, "url") {
            Some(Tag::Url)
        } else if same_text(name, "screenshots") {
            Some(Tag::Screenshots)
        } else if same_text(name, "icon") {
            Some(Tag::Icon)
        } else if same_text(name, "developer_name") {
            Some(Tag::DeveloperName)
        } else if same_text(name, "keywords") {
            Some(Tag::Keywords)
        } else if same_text(name, "provides") {
            Some(Tag::Provides)
        } else if same_text(name, "mimetypes") {
            Some(Tag::Mimetypes)
        } else if same_text(name, "categories") {
            Some(Tag::Categories)
        } else {
            None
        }
    }
}

/// The screenshot that an image URL stands for: no thumbnails, and the
/// locale `C`.
pub open spec fn screenshot_of(url: Seq<char>) -> ScreenshotView {
    ScreenshotView {
        thumbnails: Seq::empty(),
        source_image: SourceImageView { url: Some(url), lang: Some("C"@) },
    }
}

/// The screenshots that a list of image URLs stands for, in its order.
pub open spec fn screenshots_of(urls: Seq<Seq<char>>) -> Seq<ScreenshotView> {
    Seq::new(urls.len(), |i: int| screenshot_of(urls[i]))
}

/// The icon that a captured name stands for: the name with `.png` behind
/// it, of no known size.
pub open spec fn icon_of(text: Seq<char>) -> IconView {
    IconView { name: text + ".png"@, width: None, height: None }
}

/// The text of a description entered just before `from`: that of its first
/// paragraph with text, trimmed. With such a paragraph the events are read
/// up to its text; without one, to the end of the description.
pub open spec fn description(events: Seq<EventView>, from: int) -> Capture {
    let found = paragraph(events, from, from + scope_len(events, from, "description"@, 0));
    match found.text {
        Some(text) => Capture { text: Some(trimmed(text)), consumed: found.consumed },
        None => Capture { text: None, consumed: scope_span(events, from, "description"@) },
    }
}

/// A record, and the number of events read behind the start tag that led to
/// it.
pub ghost struct Step {
    pub record: Dep11View,
    pub consumed: nat,
}

/// What the start tag `tag` at position `at` does to a record.
pub open spec fn rule(
    tag: Tag,
    record: Dep11View,
    events: Seq<EventView>,
    at: int,
    attributes: Seq<AttributeView>,
    namespace: Seq<AttributeView>,
) -> Step {
    let from = at + 1;
    let text = next_text(events, from, events.len() as int);
    match tag {
        Tag::Component => Step {
            record: Dep11View { kind: record.kind.with_text(lookup(attributes, "type"@)), ..record },
            consumed: 0,
        },
        Tag::Id => Step {
            record: Dep11View { id: record.id.with_text(text.text), ..record },
            consumed: text.consumed,
        },
        Tag::Summary => if attributes.len() == 0 {
            Step {
                record: Dep11View { summary: record.summary.with_text(text.text), ..record },
                consumed: text.consumed,
            }
        } else {
            Step { record, consumed: 0 }
        },
        Tag::Description => Step {
            record: Dep11View {
                description: record.description.with_text(description(events, from).text),
                ..record
            },
            consumed: description(events, from).consumed,
        },
        Tag::ProjectLicense => Step {
            record: Dep11View {
                project_license: record.project_license.with_text(text.text),
                ..record
            },
            consumed: text.consumed,
        },
        Tag::Name => if attributes.len() == 0 {
            Step {
                record: Dep11View { name: record.name.with_text(text.text), ..record },
                consumed: text.consumed,
            }
        } else {
            Step { record, consumed: 0 }
        },
        Tag::Url => Step {
            record: Dep11View {
                url: record.url.with_links(
                    lookup(namespace, "homepage"@),
                    lookup(namespace, "bugtracker"@),
                ),
                ..record
            },
            consumed: 0,
        },
        Tag::Screenshots => Step {
            record: Dep11View {
                screenshots: record.screenshots.with_screenshots(
                    screenshots_of(listed(events, from, "screenshots"@, "image"@)),
                ),
                ..record
            },
            consumed: scope_span(events, from, "screenshots"@),
        },
        Tag::Icon => Step {
            record: match text.text {
                Some(name) => Dep11View { icon: record.icon.with_icon(icon_of(name)), ..record },
                None => record,
            },
            consumed: text.consumed,
        },
        Tag::DeveloperName => Step {
            record: Dep11View {
                developer_name: record.developer_name.with_text(text.text),
                ..record
            },
            consumed: text.consumed,
        },
        Tag::Keywords => Step {
            record: Dep11View {
                keywords: record.keywords.with_items(listed(events, from, "keywords"@, "keyword"@)),
                ..record
            },
            consumed: scope_span(events, from, "keywords"@),
        },
        Tag::Provides => Step {
            record: Dep11View {
                provides: record.provides.with_binaries(
                    listed(events, from, "provides"@, "binary"@),
                ),
                ..record
            },
            consumed: scope_span(events, from, "provides"@),
        },
        Tag::Mimetypes => Step {
            record: Dep11View {
                provides: record.provides.with_mimetypes(
                    listed(events, from, "mimetypes"@, "mimetype"@),
                ),
                ..record
            },
            consumed: scope_span(events, from, "mimetypes"@),
        },
        Tag::Categories => Step {
            record: Dep11View {
                categories: record.categories.with_items(
                    listed(events, from, "categories"@, "category"@),
                ),
                ..record
            },
            consumed: scope_span(events, from, "categories"@),
        },
    }
}

/// What the event at position `at` does to a record: a start tag of a known
/// name applies its rule, any other event nothing.
pub open spec fn apply(record: Dep11View, events: Seq<EventView>, at: int) -> Step {
    match events[at] {
        EventView::Start { name, attributes, namespace } => match Tag::named(name) {
            Some(tag) => rule(tag, record, events, at, attributes, namespace),
            None => Step { record, consumed: 0 },
        },
        _ => Step { record, consumed: 0 },
    }
}

/// The record that the events from `from` on make of `record`.
pub open spec fn extract_from(events: Seq<EventView>, from: int, record: Dep11View) -> Dep11View
    decreases events.len() - from,
{
    if from < 0 || from >= events.len() {
        record
    } else {
        let step = apply(record, events, from);
        proof {
            lemma_apply_bounded(record, events, from);
        }
        extract_from(events, from + 1 + step.consumed, step.record)
    }
}

/// The record that a sequence of events describes.
pub open spec fn extract(events: Seq<EventView>) -> Dep11View {
    extract_from(events, 0, Dep11View::empty())
}

/// The span of an element ends inside the sequence.
pub proof fn lemma_scope_span_bounded(events: Seq<EventView>, from: int, name: Seq<char>)
    requires
        0 <= from <= events.len(),
    ensures
        from + scope_span(events, from, name) <= events.len(),
{
    lemma_scope_len_bounded(events, from, name, 0);
}

/// The search for a paragraph never reads past its bound.
pub proof fn lemma_paragraph_bounded(events: Seq<EventView>, from: int, until: int)
    requires
        from <= until,
    ensures
        from + paragraph(events, from, until).consumed <= until,
    decreases until - from,
{
    if 0 <= from < until && from < events.len() {
        if plain_paragraph(events[from]) {
            let found = next_text(events, from + 1, until);
            lemma_next_text_bounded(events, from + 1, until);
            if found.text is None {
                lemma_paragraph_bounded(events, from + 1 + found.consumed, until);
            }
        } else {
            lemma_paragraph_bounded(events, from + 1, until);
        }
    }
}

/// No event reads past the end of the sequence.
pub proof fn lemma_apply_bounded(record: Dep11View, events: Seq<EventView>, at: int)
    requires
        0 <= at < events.len(),
    ensures
        at + 1 + apply(record, events, at).consumed <= events.len(),
{
    let from = at + 1;
    let len = events.len() as int;
    lemma_next_text_bounded(events, from, len);
    lemma_scope_len_bounded(events, from, "description"@, 0);
    lemma_paragraph_bounded(events, from, from + scope_len(events, from, "description"@, 0));
    lemma_scope_span_bounded(events, from, "description"@);
    lemma_scope_span_bounded(events, from, "screenshots"@);
    lemma_scope_span_bounded(events, from, "keywords"@);
    lemma_scope_span_bounded(events, from, "provides"@);
    lemma_scope_span_bounded(events, from, "mimetypes"@);
    lemma_scope_span_bounded(events, from, "categories"@);
}

/// Reads the description entered just before `from` and returns its text,
/// if any, and the position behind the events read.
pub fn description_text(events: &Vec<Event>, from: usize) -> (found: (Option<String>, usize))
    requires
        from <= events.len(),
    ensures
        text_of(found.0) == description(events.deep_view(), from as int).text,
        found.1 == from + description(events.deep_view(), from as int).consumed,
        from <= found.1 <= events.len(),
{
    let until = scope_end(events, from, "description");
    let found = first_paragraph(events, from, until);
    match found.0 {
        Some(text) => (Some(trim(text.as_str())), found.1),
        None => if until < events.len() {
            (None, until + 1)
        } else {
            (None, until)
        },
    }
}

/// Adds to a slot the screenshots that the image URLs stand for.
pub fn push_images(slot: &mut Data, urls: &Vec<String>)
    ensures
        final(slot)@ == old(slot)@.with_screenshots(screenshots_of(urls.deep_view())),
{
    let ghost all = urls.deep_view();
    let mut at: usize = 0;
    assert(old(slot)@.with_screenshots(screenshots_of(all.take(0))) == old(slot)@) by {
        assert(screenshots_of(all.take(0)) =~= Seq::empty());
        if old(slot)@ is Screenshots {
            let v = old(slot)@->Screenshots_0;
            assert(v + screenshots_of(all.take(0)) =~= v);
        }
    }
    while at < urls.len()
        invariant
            at <= urls.len(),
            all == urls.deep_view(),
            slot@ == old(slot)@.with_screenshots(screenshots_of(all.take(at as int))),
        decreases urls.len() - at,
    {
        let ghost before = slot@;
        let thumbnails: Vec<String> = Vec::new();
        assert(thumbnails.deep_view() =~= Seq::empty());
        slot.push_new_screenshoot(
            thumbnails,
            Some(urls[at].clone()),
            Some(String::from_str("C")),
        );
        proof {
            let shot = screenshot_of(all[at as int]);
            assert(slot@ == before.with_screenshot(shot));
            assert(screenshots_of(all.take(at + 1)) =~= screenshots_of(all.take(at as int)).push(
                shot,
            ));
            if old(slot)@ is Screenshots {
                let v = old(slot)@->Screenshots_0;
                assert((v + screenshots_of(all.take(at as int))).push(shot) =~= v
                    + screenshots_of(all.take(at + 1)));
            }
        }
        at += 1;
    }
    assert(all.take(at as int) =~= all);
}

/// Applies to the record what the event at position `at` asks for, and
/// returns the position of the next event to look at.
pub fn apply_rule(record: &mut Dep11, events: &Vec<Event>, at: usize) -> (next: usize)
    requires
        at < events.len(),
    ensures
        final(record)@ == apply(old(record)@, events.deep_view(), at as int).record,
        next == at + 1 + apply(old(record)@, events.deep_view(), at as int).consumed,
        at < next <= events.len(),
{
    let ghost all = events.deep_view();
    let from = at + 1;
    assert(all[at as int] == events[at as int]@);
    proof {
        lemma_apply_bounded(record@, all, at as int);
    }
    match &events[at] {
        Event::Start { name, attributes, namespace } => {
            match Tag::recognize(name.as_str()) {
                Some(Tag::Component) => {
                    record.kind.store_text(find_value(attributes, "type"));
                    from
                },
                Some(Tag::Id) => {
                    let found = take_text(events, from, events.len());
                    record.id.store_text(found.0);
                    found.1
                },
                Some(Tag::Summary) => {
                    if attributes.len() == 0 {
                        let found = take_text(events, from, events.len());
                        record.summary.store_text(found.0);
                        found.1
                    } else {
                        from
                    }
                },
                Some(Tag::Description) => {
                    let found = description_text(events, from);
                    record.description.store_text(found.0);
                    found.1
                },
                Some(Tag::ProjectLicense) => {
                    let found = take_text(events, from, events.len());
                    record.project_license.store_text(found.0);
                    found.1
                },
                Some(Tag::Name) => {
                    if attributes.len() == 0 {
                        let found = take_text(events, from, events.len());
                        record.name.store_text(found.0);
                        found.1
                    } else {
                        from
                    }
                },
                Some(Tag::Url) => {
                    let homepage = find_value(namespace, "homepage");
                    let bugtracker = find_value(namespace, "bugtracker");
                    record.url.store_links(homepage, bugtracker);
                    from
                },
                Some(Tag::Screenshots) => {
                    let mut urls: Vec<String> = Vec::new();
                    let next = collect_data_to(&mut urls, "screenshots", "image", events, from);
                    assert(urls.deep_view() =~= listed(all, from as int, "screenshots"@, "image"@));
                    push_images(&mut record.screenshots, &urls);
                    next
                },
                Some(Tag::Icon) => {
                    let found = take_text(events, from, events.len());
                    match found.0 {
                        Some(text) => {
                            let mut file = text;
                            file.append(".png");
                            record.icon.push_icon(file, None, None);
                        },
                        None => {},
                    }
                    found.1
                },
                Some(Tag::DeveloperName) => {
                    let found = take_text(events, from, events.len());
                    record.developer_name.store_text(found.0);
                    found.1
                },
                Some(Tag::Keywords) => {
                    let mut items: Vec<String> = Vec::new();
                    let next = collect_data_to(&mut items, "keywords", "keyword", events, from);
                    assert(items.deep_view() =~= listed(all, from as int, "keywords"@, "keyword"@));
                    record.keywords.append_items(items);
                    next
                },
                Some(Tag::Provides) => {
                    let mut items: Vec<String> = Vec::new();
                    let next = collect_data_to(&mut items, "provides", "binary", events, from);
                    assert(items.deep_view() =~= listed(all, from as int, "provides"@, "binary"@));
                    record.provides.append_binaries(items);
                    next
                },
                Some(Tag::Mimetypes) => {
                    let mut items: Vec<String> = Vec::new();
                    let next = collect_data_to(&mut items, "mimetypes", "mimetype", events, from);
                    assert(items.deep_view() =~= listed(
                        all,
                        from as int,
                        "mimetypes"@,
                        "mimetype"@,
                    ));
                    record.provides.append_mimetypes(items);
                    next
                },
                Some(Tag::Categories) => {
                    let mut items: Vec<String> = Vec::new();
                    let next = collect_data_to(&mut items, "categories", "category", events, from);
                    assert(items.deep_view() =~= listed(
                        all,
                        from as int,
                        "categories"@,
                        "category"@,
                    ));
                    record.categories.append_items(items);
                    next
                },
                None => from,
            }
        },
        _ => from,
    }
}

impl Dep11 {
    /// The record that a sequence of events describes.
    pub fn from_events(events: &Vec<Event>) -> (record: Dep11)
        ensures
            record@ == extract(events.deep_view()),
            record@.well_formed(),
    {
        proof {
            law_extraction_well_formed(events.deep_view());
        }
        let mut record = Dep11::default();
        let mut at: usize = 0;
        while at < events.len()
            invariant
                at <= events.len(),
                extract_from(events.deep_view(), at as int, record@) == extract(
                    events.deep_view(),
                ),
            decreases events.len() - at,
        {
            at = apply_rule(&mut record, events, at);
        }
        record
    }
}

} // verus!
