use tro::domain::{Card, Label};
use tro::edit::{apply_edit, cards_equal, finalize_new_card, new_card_template};

fn card_with_identity(name: &str, desc: &str) -> Card {
    Card {
        id: "abc123".to_string(),
        name: name.to_string(),
        desc: desc.to_string(),
        closed: false,
        labels: vec![Label { name: "urgent".to_string(), color: "red".to_string() }],
    }
}

#[test]
fn identical_edit_detects_no_change() {
    let original = card_with_identity("Task", "do the thing");
    let (reconstructed, changed) = apply_edit(&original, &original.render()).unwrap();
    assert!(!changed);
    assert!(cards_equal(&reconstructed, &original));
}

#[test]
fn editor_trailing_newline_is_ignored() {
    let original = card_with_identity("Task", "do the thing");
    let text = format!("{}\n", original.render());
    let (_, changed) = apply_edit(&original, &text).unwrap();
    assert!(!changed);
}

#[test]
fn changed_name_is_detected_and_identity_kept() {
    let original = card_with_identity("Task", "do the thing");
    let (reconstructed, changed) = apply_edit(&original, "Renamed task\n\ndo the thing").unwrap();
    assert!(changed);
    assert_eq!(reconstructed.name, "Renamed task");
    assert_eq!(reconstructed.desc, "do the thing");
    assert_eq!(reconstructed.id, "abc123");
    assert_eq!(reconstructed.labels.len(), 1);
    assert_eq!(reconstructed.labels[0].name, "urgent");
}

#[test]
fn emptied_document_aborts_the_edit() {
    let original = card_with_identity("Task", "do the thing");
    assert!(apply_edit(&original, "").is_err());
    assert!(apply_edit(&original, "\n\n\n").is_err());
}

#[test]
fn template_prefills_both_placeholders() {
    let t = new_card_template();
    assert_eq!(t.name, "<Enter Card Name Here>");
    assert_eq!(t.desc, "<Enter Description Here>");
    assert_eq!(t.id, "");
    assert!(t.labels.is_empty());
}

#[test]
fn untouched_placeholder_name_creates_nothing() {
    let t = new_card_template();
    assert!(finalize_new_card(t).is_none());
}

#[test]
fn untouched_placeholder_desc_is_normalized_to_empty() {
    let mut t = new_card_template();
    t.name = "A real name".to_string();
    let c = finalize_new_card(t).unwrap();
    assert_eq!(c.name, "A real name");
    assert_eq!(c.desc, "");
}

#[test]
fn entered_desc_is_kept() {
    let mut t = new_card_template();
    t.name = "A real name".to_string();
    t.desc = "typed by hand".to_string();
    let c = finalize_new_card(t).unwrap();
    assert_eq!(c.desc, "typed by hand");
}

#[test]
fn cards_equal_compares_every_field() {
    let a = card_with_identity("Task", "body");
    let mut b = card_with_identity("Task", "body");
    assert!(cards_equal(&a, &b));
    b.closed = true;
    assert!(!cards_equal(&a, &b));
    let mut c = card_with_identity("Task", "body");
    c.labels[0].color = "blue".to_string();
    assert!(!cards_equal(&a, &c));
}
