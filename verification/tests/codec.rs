use tro::codec::ParseError;
use tro::domain::Card;

fn card(name: &str, desc: &str) -> Card {
    Card {
        id: String::new(),
        name: name.to_string(),
        desc: desc.to_string(),
        closed: false,
        labels: Vec::new(),
    }
}

#[test]
fn render_is_name_blank_line_desc() {
    let c = card("Buy milk", "2% please");
    assert_eq!(c.render(), "Buy milk\n\n2% please");
}

#[test]
fn parse_splits_at_first_blank_line() {
    let parsed = Card::parse("Buy milk\n\n2% please").unwrap();
    assert_eq!(parsed.name, "Buy milk");
    assert_eq!(parsed.desc, "2% please");
    assert_eq!(parsed.id, "");
    assert!(parsed.labels.is_empty());
    assert!(!parsed.closed);
}

#[test]
fn parse_without_separator_gives_empty_desc() {
    let parsed = Card::parse("Just a name line  ").unwrap();
    assert_eq!(parsed.name, "Just a name line");
    assert_eq!(parsed.desc, "");
}

#[test]
fn parse_empty_document_is_malformed() {
    assert_eq!(Card::parse("").unwrap_err(), ParseError::MalformedDocument);
    assert_eq!(Card::parse("\n\nbody only").unwrap_err(), ParseError::MalformedDocument);
}

#[test]
fn only_first_blank_line_ends_the_name() {
    let c = card("Errand", "first paragraph\n\nsecond paragraph");
    let rendered = c.render();
    let parsed = Card::parse(&rendered).unwrap();
    assert_eq!(parsed.name, "Errand");
    assert_eq!(parsed.desc, "first paragraph\n\nsecond paragraph");
}

#[test]
fn name_section_trailing_whitespace_is_trimmed() {
    let parsed = Card::parse("Errand \n\nbody").unwrap();
    assert_eq!(parsed.name, "Errand");
    assert_eq!(parsed.desc, "body");
}

#[test]
fn round_trip_keeps_name_and_desc() {
    let c = card("Plan week", "monday: gym\ntuesday: shop");
    let parsed = Card::parse(&c.render()).unwrap();
    assert_eq!(parsed.name, c.name);
    assert_eq!(parsed.desc, c.desc);
}
