use kantui::Card;
use kantui::CardBuilder;
use kantui::Field;
use kantui::KanbanError;
use kantui::Status;

fn built_card() -> Card {
    CardBuilder::new()
        .column("Column")
        .status(Status::Done)
        .title("Title")
        .build()
        .unwrap()
}

#[test]
fn test_card_builder() {
    let card = CardBuilder::new()
        .column("Column")
        .status(Status::Done)
        .title("Title")
        .build()
        .unwrap();
    assert_eq!(card.column(), "Column");
    assert_eq!(card.status(), &Status::Done);
    assert_eq!(card.title(), "Title");
}

#[test]
fn test_card_to_string() {
    let card = built_card();
    assert_eq!(card.render(), "- [x] Title");
}

#[test]
fn test_card_move_to() {
    let mut card = built_card();
    card.move_to(&"New Column".to_string());
    assert_eq!(card.column(), "New Column");
}

#[test]
fn test_card_rename() {
    let card = built_card();
    let renamed = card.clone().rename("New Title");
    assert_eq!(renamed.title(), "New Title");
    assert_eq!(card.title(), "Title");
}

#[test]
fn test_card_mut_rename() {
    let card = built_card();
    let renamed = card.mut_rename("New Title");
    assert_eq!(renamed.title(), "New Title");
}

#[test]
fn builder_without_column_fails() {
    let r = CardBuilder::new().title("T").build();
    assert_eq!(r, Err(KanbanError::MissingField(Field::Column)));
}

#[test]
fn builder_without_title_fails() {
    let r = CardBuilder::new().column("C").build();
    assert_eq!(r, Err(KanbanError::MissingField(Field::Title)));
}

#[test]
fn builder_defaults_status_to_incomplete() {
    let card = CardBuilder::new().column("C").title("T").build().unwrap();
    assert_eq!(card.status(), &Status::Incomplete);
    assert_eq!(card.date(), None);
    assert_eq!(card.time(), None);
}

#[test]
fn builder_passes_date_and_time_through() {
    let card = CardBuilder::new()
        .column("C")
        .title("T")
        .date("2024-01-15")
        .time("09:30")
        .build()
        .unwrap();
    assert_eq!(card.date(), Some("2024-01-15".to_string()));
    assert_eq!(card.time(), Some("09:30".to_string()));
}

#[test]
fn render_with_date_and_time() {
    let card = CardBuilder::new()
        .column("C")
        .title("Task")
        .status(Status::Incomplete)
        .date("2024-01-15")
        .time("09:30")
        .build()
        .unwrap();
    assert_eq!(card.render(), "- [ ] Task @{2024-01-15} @@{09:30}");
}

#[test]
fn status_render_parse_round_trip() {
    assert_eq!(Status::Done.render(), "x");
    assert_eq!(Status::Incomplete.render(), " ");
    assert_eq!(Status::parse('x'), Ok(Status::Done));
    assert_eq!(Status::parse(' '), Ok(Status::Incomplete));
    for s in [Status::Done, Status::Incomplete] {
        let c = s.render().chars().next().unwrap();
        assert_eq!(Status::parse(c), Ok(s));
    }
}

#[test]
fn status_parse_rejects_other_characters() {
    assert_eq!(Status::parse('q'), Err(KanbanError::InvalidStatusChar('q')));
    assert_eq!(Status::parse('X'), Err(KanbanError::InvalidStatusChar('X')));
}
