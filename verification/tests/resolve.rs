use tro::domain::{Board, Card, List};
use tro::find::{get_trello_object, resolve_in_board, FindError, TrelloParams};

fn card(name: &str) -> Card {
    Card {
        id: String::new(),
        name: name.to_string(),
        desc: String::new(),
        closed: false,
        labels: Vec::new(),
    }
}

fn list(name: &str, cards: Vec<Card>) -> List {
    List { id: String::new(), name: name.to_string(), closed: false, cards: Some(cards) }
}

fn board(name: &str, lists: Vec<List>) -> Board {
    Board { id: String::new(), name: name.to_string(), closed: false, lists: Some(lists) }
}

fn params<'a>(
    board_name: Option<&'a str>,
    list_name: Option<&'a str>,
    card_name: Option<&'a str>,
) -> TrelloParams<'a> {
    TrelloParams { board_name, list_name, card_name, ignore_case: true }
}

#[test]
fn board_and_list_resolve_without_card() {
    let boards = vec![board("Work", vec![list("Todo", vec![card("Buy milk")])])];
    let p = params(Some("^Work$"), Some("Todo"), None);
    let r = get_trello_object(&boards, &p).unwrap();
    assert_eq!(r.board.unwrap().name, "Work");
    assert_eq!(r.list.unwrap().name, "Todo");
    assert!(r.card.is_none());
}

#[test]
fn wildcard_without_card_pattern_is_rejected() {
    let boards = vec![board("Work", vec![list("Todo", vec![card("Buy milk")])])];
    let p = params(Some("Work"), Some("-"), None);
    let err = get_trello_object(&boards, &p).unwrap_err();
    assert!(matches!(err, FindError::WildCard(_)));
}

#[test]
fn wildcard_searches_cards_across_all_lists() {
    let b = board(
        "Work",
        vec![list("Todo", vec![card("alpha")]), list("Done", vec![card("beta")])],
    );
    let p = params(Some("Work"), Some("-"), Some("beta"));
    let r = resolve_in_board(&b, &p).unwrap();
    assert_eq!(r.board.unwrap().name, "Work");
    assert!(r.list.is_none());
    assert_eq!(r.card.unwrap().name, "beta");
}

#[test]
fn wildcard_ambiguity_lists_cards_from_every_list() {
    let b = board(
        "Work",
        vec![list("Todo", vec![card("report v1")]), list("Done", vec![card("report v2")])],
    );
    let p = params(Some("Work"), Some("-"), Some("report"));
    let err = resolve_in_board(&b, &p).unwrap_err();
    assert_eq!(
        err,
        FindError::Multiple(
            "Card".to_string(),
            "report".to_string(),
            vec!["report v1".to_string(), "report v2".to_string()],
        )
    );
}

#[test]
fn absent_board_pattern_resolves_to_nothing() {
    let boards: Vec<Board> = Vec::new();
    let p = params(None, None, None);
    let r = get_trello_object(&boards, &p).unwrap();
    assert!(r.board.is_none());
    assert!(r.list.is_none());
    assert!(r.card.is_none());
}

#[test]
fn full_triple_resolves_inside_selected_list() {
    let boards = vec![board(
        "Home",
        vec![
            list("Groceries", vec![card("Buy milk"), card("Buy eggs")]),
            list("Chores", vec![card("Mow lawn")]),
        ],
    )];
    let p = params(Some("Home"), Some("Groc"), Some("milk"));
    let r = get_trello_object(&boards, &p).unwrap();
    assert_eq!(r.board.unwrap().name, "Home");
    assert_eq!(r.list.unwrap().name, "Groceries");
    assert_eq!(r.card.unwrap().name, "Buy milk");
}

#[test]
fn ambiguous_board_pattern_is_surfaced() {
    let boards = vec![board("Work", Vec::new()), board("Workshop", Vec::new())];
    let p = params(Some("Work"), None, None);
    let err = get_trello_object(&boards, &p).unwrap_err();
    assert_eq!(
        err,
        FindError::Multiple(
            "Board".to_string(),
            "Work".to_string(),
            vec!["Work".to_string(), "Workshop".to_string()],
        )
    );
}

#[test]
fn missing_list_is_not_found_with_list_label() {
    let boards = vec![board("Work", vec![list("Todo", Vec::new())])];
    let p = params(Some("Work"), Some("Doing"), None);
    let err = get_trello_object(&boards, &p).unwrap_err();
    assert_eq!(err, FindError::NotFound("List".to_string(), "Doing".to_string()));
}

#[test]
fn invalid_board_pattern_propagates() {
    let boards = vec![board("Work", Vec::new())];
    let p = params(Some("("), None, None);
    let err = get_trello_object(&boards, &p).unwrap_err();
    assert!(matches!(err, FindError::Regex(_)));
}
