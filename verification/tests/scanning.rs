use dep11::event::{find_value, Attribute, Event};
use dep11::scan::{collect_data_to, first_paragraph, scope_end, take_text};
use dep11::text::{same_text, trim};

fn start(name: &str) -> Event {
    Event::Start { name: name.to_string(), attributes: Vec::new(), namespace: Vec::new() }
}

fn start_with(name: &str, attributes: &[(&str, &str)]) -> Event {
    Event::Start {
        name: name.to_string(),
        attributes: attributes
            .iter()
            .map(|(name, value)| Attribute { name: name.to_string(), value: value.to_string() })
            .collect(),
        namespace: Vec::new(),
    }
}

fn end(name: &str) -> Event {
    Event::End { name: name.to_string() }
}

fn chars(text: &str) -> Event {
    Event::Characters(text.to_string())
}

fn strings(items: &[&str]) -> Vec<String> {
    items.iter().map(|item| item.to_string()).collect()
}

fn some(text: &str) -> Option<String> {
    Some(text.to_string())
}

#[test]
fn same_text_compares_characters() {
    assert!(same_text("", ""));
    assert!(same_text("id", "id"));
    assert!(!same_text("id", "Id"));
    assert!(!same_text("id", "ids"));
    assert!(!same_text("ids", "id"));
    assert!(!same_text("", "a"));
    assert!(same_text("caf\u{e9} \u{1f600}", "caf\u{e9} \u{1f600}"));
    assert!(!same_text("caf\u{e9}", "cafe\u{301}"));
}

#[test]
fn trim_takes_whitespace_off_both_ends() {
    assert_eq!(trim("  First.  "), "First.");
    assert_eq!(trim("First."), "First.");
    assert_eq!(trim("\n\t a  b \r\n"), "a  b");
    assert_eq!(trim(""), "");
    assert_eq!(trim(" \n\t"), "");
    assert_eq!(trim("x"), "x");
    assert_eq!(trim(" x"), "x");
    assert_eq!(trim("x "), "x");
}

#[test]
fn trim_knows_the_whitespace_of_unicode() {
    assert_eq!(trim("\u{a0}\u{2003}caf\u{e9} \u{1f600}\u{3000}\u{2028}"), "caf\u{e9} \u{1f600}");
    assert_eq!(trim("\u{200b}x\u{200b}"), "\u{200b}x\u{200b}");
}

#[test]
fn find_value_takes_the_first_of_a_name() {
    let bound = vec![
        Attribute { name: "a".to_string(), value: "1".to_string() },
        Attribute { name: "type".to_string(), value: "first".to_string() },
        Attribute { name: "type".to_string(), value: "second".to_string() },
    ];
    assert_eq!(find_value(&bound, "type"), some("first"));
    assert_eq!(find_value(&bound, "a"), some("1"));
    assert_eq!(find_value(&bound, "Type"), None);
    assert_eq!(find_value(&Vec::new(), "type"), None);
}

#[test]
fn scope_end_finds_the_matching_end_tag() {
    let events = vec![
        chars("a"),
        start("list"),
        end("item"),
        start("list"),
        end("list"),
        end("list"),
        end("list"),
    ];
    assert_eq!(scope_end(&events, 0, "list"), 6);
    assert_eq!(scope_end(&events, 2, "list"), 5);
    assert_eq!(scope_end(&events, 4, "list"), 4);
    assert_eq!(scope_end(&events, 5, "list"), 5);
    assert_eq!(scope_end(&events, 0, "item"), 2);
    assert_eq!(scope_end(&events, 3, "item"), 7);
    assert_eq!(scope_end(&events, 7, "list"), 7);
    assert_eq!(scope_end(&Vec::new(), 0, "list"), 0);
}

#[test]
fn take_text_stops_at_text_or_at_an_end_tag() {
    let events = vec![Event::Other, start("b"), chars("x"), Event::Other, end("b"), chars("y")];
    assert_eq!(take_text(&events, 0, 6), (some("x"), 3));
    assert_eq!(take_text(&events, 2, 6), (some("x"), 3));
    assert_eq!(take_text(&events, 3, 6), (None, 5));
    assert_eq!(take_text(&events, 5, 6), (some("y"), 6));
    assert_eq!(take_text(&events, 6, 6), (None, 6));
    assert_eq!(take_text(&events, 0, 2), (None, 2));
    assert_eq!(take_text(&events, 0, 0), (None, 0));
    assert_eq!(take_text(&events, 3, 4), (None, 4));
}

#[test]
fn collect_data_to_appends_and_tells_the_next_position() {
    let events = vec![
        start("keywords"),
        start("keyword"),
        chars("a"),
        end("keyword"),
        start("keyword"),
        Event::Other,
        chars("b"),
        end("keyword"),
        end("keywords"),
        start("keyword"),
        chars("c"),
    ];
    let mut data = strings(&["z"]);
    assert_eq!(collect_data_to(&mut data, "keywords", "keyword", &events, 1), 9);
    assert_eq!(data, strings(&["z", "a", "b"]));
    let mut rest = Vec::new();
    assert_eq!(collect_data_to(&mut rest, "keywords", "keyword", &events, 9), 11);
    assert_eq!(rest, strings(&["c"]));
    let mut none = Vec::new();
    assert_eq!(collect_data_to(&mut none, "keywords", "other", &events, 1), 9);
    assert_eq!(none, Vec::<String>::new());
    assert_eq!(collect_data_to(&mut none, "keywords", "keyword", &events, 11), 11);
    assert_eq!(collect_data_to(&mut none, "keywords", "keyword", &events, 8), 9);
    assert_eq!(none, Vec::<String>::new());
}

#[test]
fn first_paragraph_wants_a_plain_paragraph_with_text() {
    let events = vec![
        start_with("p", &[("lang", "de")]),
        chars("eins"),
        end("p"),
        start("p"),
        end("p"),
        start("p"),
        chars(" one "),
        end("p"),
        start("p"),
        chars("two"),
        end("p"),
    ];
    assert_eq!(first_paragraph(&events, 0, 11), (some(" one "), 7));
    assert_eq!(first_paragraph(&events, 6, 11), (some("two"), 10));
    assert_eq!(first_paragraph(&events, 0, 6), (None, 6));
    assert_eq!(first_paragraph(&events, 0, 5), (None, 5));
    assert_eq!(first_paragraph(&events, 9, 11), (None, 11));
    assert_eq!(first_paragraph(&events, 11, 11), (None, 11));
}

#[test]
fn trim_takes_off_the_characters_with_the_property_white_space() {
    let white: Vec<u32> = vec![
        0x9, 0xa, 0xb, 0xc, 0xd, 0x20, 0x85, 0xa0, 0x1680, 0x2000, 0x2001, 0x2002, 0x2003, 0x2004,
        0x2005, 0x2006, 0x2007, 0x2008, 0x2009, 0x200a, 0x2028, 0x2029, 0x202f, 0x205f, 0x3000,
    ];
    assert_eq!(white.len(), 25);
    for code in 0..=0x10ffff_u32 {
        if let Some(c) = char::from_u32(code) {
            let text = format!("{}x{}", c, c);
            let expected = if white.contains(&code) { "x".to_string() } else { text.clone() };
            assert_eq!(trim(&text), expected);
        }
    }
}

#[test]
fn take_text_passes_over_whitespace_and_cdata() {
    let events = vec![
        Event::Whitespace("  ".to_string()),
        Event::CData("raw".to_string()),
        chars("x"),
        Event::CData("raw".to_string()),
        end("b"),
    ];
    assert_eq!(take_text(&events, 0, 5), (some("x"), 3));
    assert_eq!(take_text(&events, 3, 5), (None, 5));
}
