use tro::domain::Card;
use tro::find::{get_object_by_name, FindError};

fn card(name: &str) -> Card {
    Card {
        id: String::new(),
        name: name.to_string(),
        desc: String::new(),
        closed: false,
        labels: Vec::new(),
    }
}

#[test]
fn matches_exactly_one() {
    let cards = vec![card("Red"), card("Green"), card("Blue")];
    let found = get_object_by_name(&cards, "Gre", true).unwrap();
    assert_eq!(found.name, "Green");
}

#[test]
fn ambiguous_lists_candidates_in_input_order() {
    let cards = vec![card("alpha"), card("beta"), card("albatross")];
    let err = get_object_by_name(&cards, "al", true).unwrap_err();
    assert_eq!(
        err,
        FindError::Multiple(
            "Card".to_string(),
            "al".to_string(),
            vec!["alpha".to_string(), "albatross".to_string()],
        )
    );
}

#[test]
fn zero_matches_is_not_found() {
    let cards = vec![card("alpha"), card("beta")];
    let err = get_object_by_name(&cards, "zz", true).unwrap_err();
    assert_eq!(err, FindError::NotFound("Card".to_string(), "zz".to_string()));
}

#[test]
fn case_insensitive_by_default_flag() {
    let cards = vec![card("Foo")];
    assert!(get_object_by_name(&cards, "foo", true).is_ok());
    let err = get_object_by_name(&cards, "foo", false).unwrap_err();
    assert_eq!(err, FindError::NotFound("Card".to_string(), "foo".to_string()));
}

#[test]
fn invalid_pattern_is_reported() {
    let cards = vec![card("alpha")];
    let err = get_object_by_name(&cards, "[", true).unwrap_err();
    assert!(matches!(err, FindError::Regex(_)));
}

#[test]
fn match_is_substring_search() {
    let cards = vec![card("My Work Board")];
    let found = get_object_by_name(&cards, "Work", true).unwrap();
    assert_eq!(found.name, "My Work Board");
}

#[test]
fn anchors_narrow_the_match() {
    let cards = vec![card("Work"), card("Workspace")];
    let found = get_object_by_name(&cards, "^Work$", true).unwrap();
    assert_eq!(found.name, "Work");
}

#[test]
fn empty_collection_is_not_found() {
    let cards: Vec<Card> = Vec::new();
    let err = get_object_by_name(&cards, "anything", true).unwrap_err();
    assert!(matches!(err, FindError::NotFound(_, _)));
}
