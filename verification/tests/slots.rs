use dep11::record::{Data, Dep11, Field, InnerIcon, Screenshot, SourceImage};

fn strings(items: &[&str]) -> Vec<String> {
    items.iter().map(|item| item.to_string()).collect()
}

fn some(text: &str) -> Option<String> {
    Some(text.to_string())
}

#[test]
fn push_new_screenshoot_adds_at_the_end() {
    let mut slot = Data::Screenshots(Vec::new());
    slot.push_new_screenshoot(strings(&["t1"]), some("u1"), some("C"));
    slot.push_new_screenshoot(Vec::new(), None, None);
    assert_eq!(
        slot,
        Data::Screenshots(vec![
            Screenshot {
                thumbnails: strings(&["t1"]),
                source_image: SourceImage { url: some("u1"), lang: some("C") },
            },
            Screenshot { thumbnails: Vec::new(), source_image: SourceImage { url: None, lang: None } },
        ])
    );
}

#[test]
fn push_new_screenshoot_leaves_other_slots() {
    let mut slot = Data::Keywords(strings(&["a"]));
    slot.push_new_screenshoot(Vec::new(), some("u"), None);
    assert_eq!(slot, Data::Keywords(strings(&["a"])));
}

#[test]
fn push_into_icon_takes_what_turns_into_a_string() {
    let mut slot = Data::Icon { cached: Vec::new() };
    slot.push_into_icon("a.png", Some(64), Some(48));
    slot.push_into_icon(String::from("b.png"), None, None);
    assert_eq!(
        slot,
        Data::Icon {
            cached: vec![
                InnerIcon { name: "a.png".to_string(), width: Some(64), height: Some(48) },
                InnerIcon { name: "b.png".to_string(), width: None, height: None },
            ]
        }
    );
}

#[test]
fn push_into_icon_leaves_other_slots() {
    let mut slot = Data::Type(some("desktop"));
    slot.push_into_icon("a.png", None, None);
    assert_eq!(slot, Data::Type(some("desktop")));
}

#[test]
fn push_icon_adds_at_the_end() {
    let mut slot = Data::Icon { cached: Vec::new() };
    slot.push_icon("a".to_string(), None, Some(1));
    assert_eq!(
        slot,
        Data::Icon { cached: vec![InnerIcon { name: "a".to_string(), width: None, height: Some(1) }] }
    );
}

#[test]
fn store_text_keeps_the_first_value() {
    let mut slot = Data::Summary { c: None };
    slot.store_text(None);
    assert_eq!(slot, Data::Summary { c: None });
    slot.store_text(some("one"));
    assert_eq!(slot, Data::Summary { c: some("one") });
    slot.store_text(some("two"));
    assert_eq!(slot, Data::Summary { c: some("one") });
    slot.store_text(None);
    assert_eq!(slot, Data::Summary { c: some("one") });
}

#[test]
fn store_text_fills_every_scalar_slot() {
    let mut slots = vec![
        Data::Type(None),
        Data::Id(None),
        Data::Package(None),
        Data::Name { c: None },
        Data::Summary { c: None },
        Data::Description { c: None },
        Data::DeveloperName { c: None },
        Data::ProjectLicense(None),
    ];
    for slot in slots.iter_mut() {
        slot.store_text(some("x"));
    }
    assert_eq!(
        slots,
        vec![
            Data::Type(some("x")),
            Data::Id(some("x")),
            Data::Package(some("x")),
            Data::Name { c: some("x") },
            Data::Summary { c: some("x") },
            Data::Description { c: some("x") },
            Data::DeveloperName { c: some("x") },
            Data::ProjectLicense(some("x")),
        ]
    );
}

#[test]
fn store_text_leaves_lists() {
    let mut slot = Data::Keywords(Vec::new());
    slot.store_text(some("x"));
    assert_eq!(slot, Data::Keywords(Vec::new()));
}

#[test]
fn store_links_keeps_each_first_value() {
    let mut slot = Data::Url { homepage: None, bugtracker: some("bugs") };
    slot.store_links(some("home"), some("other"));
    assert_eq!(slot, Data::Url { homepage: some("home"), bugtracker: some("bugs") });
    let mut other = Data::Id(None);
    other.store_links(some("home"), None);
    assert_eq!(other, Data::Id(None));
}

#[test]
fn append_items_adds_behind() {
    let mut categories = Data::Categories(strings(&["a"]));
    categories.append_items(strings(&["b", "a"]));
    assert_eq!(categories, Data::Categories(strings(&["a", "b", "a"])));
    let mut keywords = Data::Keywords(Vec::new());
    keywords.append_items(strings(&["k"]));
    assert_eq!(keywords, Data::Keywords(strings(&["k"])));
    let mut provides = Data::Provides { mimetypes: Vec::new(), binaries: Vec::new() };
    provides.append_items(strings(&["k"]));
    assert_eq!(provides, Data::Provides { mimetypes: Vec::new(), binaries: Vec::new() });
}

#[test]
fn append_binaries_and_mimetypes_fill_their_own_list() {
    let mut provides = Data::Provides { mimetypes: strings(&["m"]), binaries: Vec::new() };
    provides.append_binaries(strings(&["b1", "b2"]));
    provides.append_mimetypes(strings(&["n"]));
    assert_eq!(
        provides,
        Data::Provides { mimetypes: strings(&["m", "n"]), binaries: strings(&["b1", "b2"]) }
    );
    let mut other = Data::Categories(Vec::new());
    other.append_binaries(strings(&["b"]));
    other.append_mimetypes(strings(&["m"]));
    assert_eq!(other, Data::Categories(Vec::new()));
}

#[test]
fn slot_gives_the_field() {
    let mut record = Dep11::default();
    record.name = Data::Name { c: some("App") };
    assert_eq!(record.slot(Field::Name), &Data::Name { c: some("App") });
    assert_eq!(record.slot(Field::Kind), &Data::Type(None));
    assert_eq!(record.slot(Field::Id), &Data::Id(None));
    assert_eq!(record.slot(Field::Package), &Data::Package(None));
    assert_eq!(record.slot(Field::Summary), &Data::Summary { c: None });
    assert_eq!(record.slot(Field::Description), &Data::Description { c: None });
    assert_eq!(record.slot(Field::DeveloperName), &Data::DeveloperName { c: None });
    assert_eq!(record.slot(Field::ProjectLicense), &Data::ProjectLicense(None));
    assert_eq!(record.slot(Field::Categories), &Data::Categories(Vec::new()));
    assert_eq!(record.slot(Field::Keywords), &Data::Keywords(Vec::new()));
    assert_eq!(record.slot(Field::Url), &Data::Url { homepage: None, bugtracker: None });
    assert_eq!(record.slot(Field::Icon), &Data::Icon { cached: Vec::new() });
    assert_eq!(record.slot(Field::Screenshots), &Data::Screenshots(Vec::new()));
    assert_eq!(
        record.slot(Field::Provides),
        &Data::Provides { mimetypes: Vec::new(), binaries: Vec::new() }
    );
}

#[test]
fn defaults_of_the_parts_are_empty() {
    assert_eq!(SourceImage::default(), SourceImage { url: None, lang: None });
    assert_eq!(
        Screenshot::default(),
        Screenshot { thumbnails: Vec::new(), source_image: SourceImage { url: None, lang: None } }
    );
    assert_eq!(InnerIcon::default(), InnerIcon { name: String::new(), width: None, height: None });
}
