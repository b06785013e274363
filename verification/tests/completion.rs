use dep11::complete::{is_answered, Entry};
use dep11::record::{Data, Dep11, Field, InnerIcon, Screenshot, SourceImage};

fn strings(items: &[&str]) -> Vec<String> {
    items.iter().map(|item| item.to_string()).collect()
}

fn some(text: &str) -> Option<String> {
    Some(text.to_string())
}

fn fill(slot: &mut Data) {
    match slot {
        Data::Type(v) | Data::Id(v) | Data::Package(v) | Data::ProjectLicense(v) => {
            *v = some("given")
        },
        Data::Name { c }
        | Data::Summary { c }
        | Data::Description { c }
        | Data::DeveloperName { c } => *c = some("given"),
        Data::Categories(v) | Data::Keywords(v) => v.push("given".to_string()),
        Data::Url { homepage, .. } => *homepage = some("given"),
        Data::Icon { cached } => cached.push(InnerIcon::default()),
        Data::Screenshots(v) => v.push(Screenshot::default()),
        Data::Provides { mimetypes, binaries } => {
            if mimetypes.is_empty() {
                mimetypes.push("given".to_string());
            } else {
                binaries.push("given".to_string());
            }
        },
    }
}

fn complete_record() -> Dep11 {
    Dep11 {
        kind: Data::Type(some("desktop")),
        id: Data::Id(some("org.example.App")),
        package: Data::Package(some("app")),
        name: Data::Name { c: None },
        summary: Data::Summary { c: some("An app") },
        description: Data::Description { c: some("It does things.") },
        developer_name: Data::DeveloperName { c: some("Someone") },
        project_license: Data::ProjectLicense(None),
        categories: Data::Categories(strings(&["Utility"])),
        keywords: Data::Keywords(strings(&["app"])),
        url: Data::Url { homepage: some("https://example.org"), bugtracker: None },
        icon: Data::Icon {
            cached: vec![InnerIcon { name: "app.png".to_string(), width: None, height: None }],
        },
        screenshots: Data::Screenshots(vec![Screenshot {
            thumbnails: Vec::new(),
            source_image: SourceImage { url: some("https://example.org/a.png"), lang: some("C") },
        }]),
        provides: Data::Provides { mimetypes: strings(&["text/plain"]), binaries: strings(&["app"]) },
    }
}

#[test]
fn prompts_are_worded_as_the_checklist_has_them() {
    assert_eq!(Entry::Type.prompt(), "Please provide a `Type`.");
    assert_eq!(Entry::Id.prompt(), "Please provide an `Id`.");
    assert_eq!(Entry::Package.prompt(), "Please provide a `Package`.");
    assert_eq!(Entry::Summary.prompt(), "Please provide a `Summary`.");
    assert_eq!(Entry::Description.prompt(), "Please provide a `Description`.");
    assert_eq!(Entry::DeveloperName.prompt(), "Please provide a `DeveloperName`.");
    assert_eq!(Entry::Categories.prompt(), "Please provide `Categories`.");
    assert_eq!(Entry::Keywords.prompt(), "Please provide `Keywords`.");
    assert_eq!(Entry::Homepage.prompt(), "Please provide `homepage`.");
    assert_eq!(Entry::Icon.prompt(), "Please provide `Icon`(s).");
    assert_eq!(Entry::Screenshots.prompt(), "Please provide `Screenshots`.");
    assert_eq!(Entry::Mimetypes.prompt(), "Please provide `mimetypes`.");
    assert_eq!(Entry::Binaries.prompt(), "Please provide `binaries`.");
}

#[test]
fn entries_live_in_their_slots() {
    assert_eq!(Entry::Type.field(), Field::Kind);
    assert_eq!(Entry::Id.field(), Field::Id);
    assert_eq!(Entry::Package.field(), Field::Package);
    assert_eq!(Entry::Summary.field(), Field::Summary);
    assert_eq!(Entry::Description.field(), Field::Description);
    assert_eq!(Entry::DeveloperName.field(), Field::DeveloperName);
    assert_eq!(Entry::Categories.field(), Field::Categories);
    assert_eq!(Entry::Keywords.field(), Field::Keywords);
    assert_eq!(Entry::Homepage.field(), Field::Url);
    assert_eq!(Entry::Icon.field(), Field::Icon);
    assert_eq!(Entry::Screenshots.field(), Field::Screenshots);
    assert_eq!(Entry::Mimetypes.field(), Field::Provides);
    assert_eq!(Entry::Binaries.field(), Field::Provides);
}

#[test]
fn an_entry_is_missing_where_its_slot_is_empty() {
    assert!(Entry::Type.is_missing_in(&Data::Type(None)));
    assert!(!Entry::Type.is_missing_in(&Data::Type(some("x"))));
    assert!(!Entry::Type.is_missing_in(&Data::Id(None)));
    assert!(Entry::Id.is_missing_in(&Data::Id(None)));
    assert!(Entry::Package.is_missing_in(&Data::Package(None)));
    assert!(Entry::Summary.is_missing_in(&Data::Summary { c: None }));
    assert!(!Entry::Summary.is_missing_in(&Data::Summary { c: some("") }));
    assert!(Entry::Description.is_missing_in(&Data::Description { c: None }));
    assert!(Entry::DeveloperName.is_missing_in(&Data::DeveloperName { c: None }));
    assert!(Entry::Categories.is_missing_in(&Data::Categories(Vec::new())));
    assert!(!Entry::Categories.is_missing_in(&Data::Categories(strings(&["a"]))));
    assert!(!Entry::Categories.is_missing_in(&Data::Keywords(Vec::new())));
    assert!(Entry::Keywords.is_missing_in(&Data::Keywords(Vec::new())));
    assert!(Entry::Homepage.is_missing_in(&Data::Url { homepage: None, bugtracker: some("b") }));
    assert!(!Entry::Homepage.is_missing_in(&Data::Url { homepage: some("h"), bugtracker: None }));
    assert!(Entry::Icon.is_missing_in(&Data::Icon { cached: Vec::new() }));
    assert!(!Entry::Icon.is_missing_in(&Data::Icon { cached: vec![InnerIcon::default()] }));
    assert!(Entry::Screenshots.is_missing_in(&Data::Screenshots(Vec::new())));
    let only_binaries = Data::Provides { mimetypes: Vec::new(), binaries: strings(&["b"]) };
    assert!(Entry::Mimetypes.is_missing_in(&only_binaries));
    assert!(!Entry::Binaries.is_missing_in(&only_binaries));
    let only_mimetypes = Data::Provides { mimetypes: strings(&["m"]), binaries: Vec::new() };
    assert!(!Entry::Mimetypes.is_missing_in(&only_mimetypes));
    assert!(Entry::Binaries.is_missing_in(&only_mimetypes));
}

#[test]
fn first_missing_follows_the_checklist() {
    let mut record = Dep11::default();
    let order = [
        Entry::Type,
        Entry::Id,
        Entry::Package,
        Entry::Summary,
        Entry::Description,
        Entry::DeveloperName,
        Entry::Categories,
        Entry::Keywords,
        Entry::Homepage,
        Entry::Icon,
        Entry::Screenshots,
        Entry::Mimetypes,
        Entry::Binaries,
    ];
    for entry in order {
        assert_eq!(record.first_missing(), Some(entry));
        match entry {
            Entry::Type => fill(&mut record.kind),
            Entry::Id => fill(&mut record.id),
            Entry::Package => fill(&mut record.package),
            Entry::Summary => fill(&mut record.summary),
            Entry::Description => fill(&mut record.description),
            Entry::DeveloperName => fill(&mut record.developer_name),
            Entry::Categories => fill(&mut record.categories),
            Entry::Keywords => fill(&mut record.keywords),
            Entry::Homepage => fill(&mut record.url),
            Entry::Icon => fill(&mut record.icon),
            Entry::Screenshots => fill(&mut record.screenshots),
            Entry::Mimetypes => fill(&mut record.provides),
            Entry::Binaries => fill(&mut record.provides),
        }
    }
    assert_eq!(record.first_missing(), None);
}

#[test]
fn name_and_license_are_not_on_the_checklist() {
    let record = complete_record();
    assert_eq!(record.name, Data::Name { c: None });
    assert_eq!(record.project_license, Data::ProjectLicense(None));
    assert_eq!(record.first_missing(), None);
}

#[test]
fn an_empty_record_is_asked_for_every_entry_once() {
    let mut record = Dep11::default();
    let mut prompts: Vec<String> = Vec::new();
    record.checked_for_completion(|words: &str, slot: &mut Data| {
        prompts.push(words.to_string());
        fill(slot);
    });
    assert_eq!(
        prompts,
        strings(&[
            "Please provide a `Type`.",
            "Please provide an `Id`.",
            "Please provide a `Package`.",
            "Please provide a `Summary`.",
            "Please provide a `Description`.",
            "Please provide a `DeveloperName`.",
            "Please provide `Categories`.",
            "Please provide `Keywords`.",
            "Please provide `homepage`.",
            "Please provide `Icon`(s).",
            "Please provide `Screenshots`.",
            "Please provide `mimetypes`.",
            "Please provide `binaries`.",
        ])
    );
    assert_eq!(record.first_missing(), None);
    assert_eq!(record.name, Data::Name { c: None });
    assert_eq!(record.project_license, Data::ProjectLicense(None));
}

#[test]
fn a_complete_record_is_asked_for_nothing() {
    let mut record = complete_record();
    let mut calls: usize = 0;
    record.checked_for_completion(|_words: &str, _slot: &mut Data| {
        calls += 1;
    });
    assert_eq!(calls, 0);
    assert_eq!(record, complete_record());
}

#[test]
fn only_what_is_missing_is_asked_for() {
    let mut record = complete_record();
    record.package = Data::Package(None);
    record.icon = Data::Icon { cached: Vec::new() };
    record.provides = Data::Provides { mimetypes: strings(&["text/plain"]), binaries: Vec::new() };
    let mut asked: Vec<(String, Data)> = Vec::new();
    record.checked_for_completion(|words: &str, slot: &mut Data| {
        asked.push((words.to_string(), slot.clone()));
        fill(slot);
    });
    assert_eq!(
        asked,
        vec![
            ("Please provide a `Package`.".to_string(), Data::Package(None)),
            ("Please provide `Icon`(s).".to_string(), Data::Icon { cached: Vec::new() }),
            (
                "Please provide `binaries`.".to_string(),
                Data::Provides { mimetypes: strings(&["text/plain"]), binaries: Vec::new() },
            ),
        ]
    );
    let mut expected = complete_record();
    expected.package = Data::Package(some("given"));
    expected.icon = Data::Icon { cached: vec![InnerIcon::default()] };
    expected.provides =
        Data::Provides { mimetypes: strings(&["text/plain"]), binaries: strings(&["given"]) };
    assert_eq!(record, expected);
}

#[test]
fn binaries_are_not_asked_for_when_the_mimetypes_answer_brings_them() {
    let mut record = complete_record();
    record.provides = Data::Provides { mimetypes: Vec::new(), binaries: Vec::new() };
    let mut prompts: Vec<String> = Vec::new();
    record.checked_for_completion(|words: &str, slot: &mut Data| {
        prompts.push(words.to_string());
        *slot = Data::Provides { mimetypes: strings(&["m"]), binaries: strings(&["b"]) };
    });
    assert_eq!(prompts, strings(&["Please provide `mimetypes`."]));
    assert_eq!(
        record.provides,
        Data::Provides { mimetypes: strings(&["m"]), binaries: strings(&["b"]) }
    );
}

#[test]
fn a_slot_of_another_kind_counts_as_filled() {
    let mut record = complete_record();
    record.kind = Data::Keywords(Vec::new());
    assert_eq!(record.first_missing(), None);
    let mut calls: usize = 0;
    record.checked_for_completion(|_words: &str, _slot: &mut Data| {
        calls += 1;
    });
    assert_eq!(calls, 0);
}

#[test]
fn ask_calls_once_on_the_slot_of_the_entry() {
    let mut record = Dep11::default();
    let mut seen: Vec<(String, Data)> = Vec::new();
    let mut callback = |words: &str, slot: &mut Data| {
        seen.push((words.to_string(), slot.clone()));
        fill(slot);
    };
    record.ask(Entry::Homepage, &mut callback);
    assert_eq!(
        seen,
        vec![(
            "Please provide `homepage`.".to_string(),
            Data::Url { homepage: None, bugtracker: None }
        )]
    );
    let mut expected = Dep11::default();
    expected.url = Data::Url { homepage: some("given"), bugtracker: None };
    assert_eq!(record, expected);
}

#[test]
fn an_answer_must_bring_what_was_asked_for() {
    let empty = Data::Type(None);
    assert!(!is_answered("Please provide a `Type`.", &empty, &Data::Type(None)));
    assert!(is_answered("Please provide a `Type`.", &empty, &Data::Type(some("desktop"))));
    assert!(is_answered("Please provide a `Type`.", &empty, &Data::Id(None)));
    assert!(is_answered("Please provide an `Id`.", &empty, &Data::Type(None)));
    assert!(is_answered("something else", &empty, &Data::Type(None)));
    assert!(is_answered(
        "Please provide a `Type`.",
        &Data::Type(some("desktop")),
        &Data::Type(None)
    ));
}

#[test]
fn an_answer_for_categories_or_keywords_goes_by_the_words() {
    let categories = "Please provide `Categories`.";
    let keywords = "Please provide `Keywords`.";
    assert!(!is_answered(categories, &Data::Categories(Vec::new()), &Data::Categories(Vec::new())));
    assert!(is_answered(categories, &Data::Categories(Vec::new()), &Data::Categories(strings(&["c"]))));
    assert!(!is_answered(keywords, &Data::Keywords(Vec::new()), &Data::Keywords(Vec::new())));
    assert!(is_answered(keywords, &Data::Keywords(Vec::new()), &Data::Keywords(strings(&["k"]))));
    assert!(is_answered(categories, &Data::Keywords(Vec::new()), &Data::Keywords(Vec::new())));
    assert!(is_answered(keywords, &Data::Categories(Vec::new()), &Data::Categories(Vec::new())));
}

#[test]
fn an_answer_is_held_to_the_entry_asked_for_only() {
    let words = "Please provide `binaries`.";
    let before = Data::Provides { mimetypes: strings(&["m"]), binaries: Vec::new() };
    let both = Data::Provides { mimetypes: strings(&["m"]), binaries: strings(&["b"]) };
    let only_binaries = Data::Provides { mimetypes: Vec::new(), binaries: strings(&["b"]) };
    let neither = Data::Provides { mimetypes: Vec::new(), binaries: Vec::new() };
    assert!(is_answered(words, &before, &both));
    assert!(is_answered(words, &before, &only_binaries));
    assert!(!is_answered(words, &before, &before));
    assert!(!is_answered(words, &before, &neither));
    assert!(is_answered("Please provide `mimetypes`.", &neither, &before));
    assert!(!is_answered("Please provide `mimetypes`.", &neither, &only_binaries));
}

#[test]
fn keywords_are_asked_for_by_their_name_on_their_slot() {
    let mut record = complete_record();
    record.keywords = Data::Keywords(Vec::new());
    let mut asked: Vec<(String, Data)> = Vec::new();
    record.checked_for_completion(|words: &str, slot: &mut Data| {
        asked.push((words.to_string(), slot.clone()));
        fill(slot);
    });
    assert_eq!(asked, vec![("Please provide `Keywords`.".to_string(), Data::Keywords(Vec::new()))]);
    assert_eq!(record.keywords, Data::Keywords(strings(&["given"])));
}

#[test]
fn completed_within_asks_again_for_what_an_answer_took_away() {
    let mut record = complete_record();
    record.provides = Data::Provides { mimetypes: strings(&["m"]), binaries: Vec::new() };
    let mut asked: Vec<String> = Vec::new();
    let (result, _) = record.completed_within(
        |words: &str, slot: &mut Data| {
            asked.push(words.to_string());
            if asked.len() == 1 {
                *slot = Data::Provides { mimetypes: Vec::new(), binaries: strings(&["b"]) };
            } else if let Data::Provides { mimetypes, .. } = slot {
                mimetypes.push("m".to_string());
            }
        },
        10,
    );
    assert_eq!(result, Ok(()));
    assert_eq!(asked, strings(&["Please provide `binaries`.", "Please provide `mimetypes`."]));
    assert_eq!(
        record.provides,
        Data::Provides { mimetypes: strings(&["m"]), binaries: strings(&["b"]) }
    );
    assert_eq!(record.first_missing(), None);
}

#[test]
fn completed_within_gives_up_when_the_questions_are_used_up() {
    let mut record = complete_record();
    record.id = Data::Id(None);
    record.icon = Data::Icon { cached: Vec::new() };
    let mut asked: Vec<String> = Vec::new();
    let (result, _) = record.completed_within(
        |words: &str, _slot: &mut Data| {
            asked.push(words.to_string());
        },
        3,
    );
    assert_eq!(result, Err(Entry::Id));
    assert_eq!(asked, strings(&["Please provide an `Id`."; 3]));
    let mut expected = complete_record();
    expected.id = Data::Id(None);
    expected.icon = Data::Icon { cached: Vec::new() };
    assert_eq!(record, expected);
}

#[test]
fn completed_within_stops_at_the_entry_that_is_next() {
    let mut record = complete_record();
    record.id = Data::Id(None);
    record.icon = Data::Icon { cached: Vec::new() };
    let (result, _) = record.completed_within(|_words: &str, slot: &mut Data| fill(slot), 1);
    assert_eq!(result, Err(Entry::Icon));
    assert_eq!(record.id, Data::Id(some("given")));
    assert_eq!(record.icon, Data::Icon { cached: Vec::new() });
}

#[test]
fn completed_within_asks_nothing_of_a_complete_record() {
    let mut record = complete_record();
    let mut calls: usize = 0;
    let (result, _) = record.completed_within(
        |_words: &str, _slot: &mut Data| {
            calls += 1;
        },
        0,
    );
    assert_eq!(result, Ok(()));
    assert_eq!(calls, 0);
    assert_eq!(record, complete_record());
}

#[test]
fn completed_within_without_questions_says_what_is_missing() {
    let mut record = Dep11::default();
    let (result, _) = record.completed_within(|_words: &str, slot: &mut Data| fill(slot), 0);
    assert_eq!(result, Err(Entry::Type));
    assert_eq!(record, Dep11::default());
}

#[test]
fn completed_within_fills_an_empty_record_in_thirteen_questions() {
    let mut record = Dep11::default();
    let mut calls: usize = 0;
    let (result, _) = record.completed_within(
        |_words: &str, slot: &mut Data| {
            calls += 1;
            fill(slot);
        },
        13,
    );
    assert_eq!(result, Ok(()));
    assert_eq!(calls, 13);
    assert_eq!(record.first_missing(), None);
}
