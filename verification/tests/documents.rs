use dep11::complete::Entry;
use dep11::record::{Data, Dep11};

fn read(document: &str) -> Dep11 {
    match Dep11::from_xml(document.as_bytes()) {
        Ok(record) => record,
        Err(error) => panic!("{}", error.message),
    }
}

fn text(slot: &Data) -> Option<String> {
    match slot {
        Data::Type(v) | Data::Id(v) | Data::Package(v) | Data::ProjectLicense(v) => v.clone(),
        Data::Name { c }
        | Data::Summary { c }
        | Data::Description { c }
        | Data::DeveloperName { c } => c.clone(),
        _ => panic!("not a scalar slot"),
    }
}

fn items(slot: &Data) -> Vec<String> {
    match slot {
        Data::Categories(v) | Data::Keywords(v) => v.clone(),
        _ => panic!("not a list slot"),
    }
}

#[test]
fn only_an_id_fills_only_the_id() {
    let record = read("<id>org.example.App</id>");
    assert_eq!(text(&record.id), Some("org.example.App".to_string()));
    assert_eq!(text(&record.kind), None);
    assert_eq!(text(&record.package), None);
    assert_eq!(text(&record.name), None);
    assert_eq!(text(&record.summary), None);
    assert_eq!(text(&record.description), None);
    assert_eq!(text(&record.developer_name), None);
    assert_eq!(text(&record.project_license), None);
    assert!(items(&record.categories).is_empty());
    assert!(items(&record.keywords).is_empty());
    assert!(matches!(&record.url, Data::Url { homepage: None, bugtracker: None }));
    assert!(matches!(&record.icon, Data::Icon { cached } if cached.is_empty()));
    assert!(matches!(&record.screenshots, Data::Screenshots(v) if v.is_empty()));
    assert!(matches!(
        &record.provides,
        Data::Provides { mimetypes, binaries } if mimetypes.is_empty() && binaries.is_empty()
    ));
    assert_eq!(record.first_missing(), Some(Entry::Type));
    assert_eq!(Entry::Type.prompt(), "Please provide a `Type`.");
}

#[test]
fn keywords_come_in_document_order() {
    let record = read("<keywords><keyword>a</keyword><keyword>b</keyword></keywords>");
    assert_eq!(items(&record.keywords), vec!["a".to_string(), "b".to_string()]);
}

#[test]
fn description_is_the_first_paragraph() {
    let record = read("<description><p>First.</p><p>Second.</p></description>");
    assert_eq!(text(&record.description), Some("First.".to_string()));
}

#[test]
fn icon_gets_the_png_suffix() {
    let record = read("<icon>myapp</icon>");
    match &record.icon {
        Data::Icon { cached } => {
            assert_eq!(cached.len(), 1);
            assert_eq!(cached[0].name, "myapp.png");
            assert_eq!(cached[0].width, None);
            assert_eq!(cached[0].height, None);
        },
        _ => panic!("not an icon slot"),
    }
}
