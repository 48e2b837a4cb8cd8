use kantui::CardBuilder;
use kantui::Expected;
use kantui::Kanban;
use kantui::KanbanError;
use kantui::KanbanParser;
use kantui::Pos;
use kantui::Status;

#[test]
fn test_add_card() {
    let mut kanban = Kanban::default();
    kanban.add_column("Test Column".to_string()).unwrap();

    let card = CardBuilder::new()
        .column("Test Column")
        .title("Test Card")
        .build()
        .unwrap();

    kanban.add_card(&card).unwrap();
    assert_eq!(kanban.columns(), &vec!["Test Column".to_string()]);
    assert_eq!(kanban.cards().len(), 1);
    assert_eq!(kanban.cards()[0].title(), "Test Card");
}

#[test]
fn test_add_card_invalid_column() {
    let mut kanban = Kanban::default();
    let card = CardBuilder::new()
        .column("Invalid Column")
        .title("Test Card")
        .build()
        .unwrap();

    assert!(kanban.add_card(&card).is_err());
}

#[test]
fn test_parse() {
    let kanban = Kanban::parse("## In Progress\n\n- [ ] I'm doing it!!").unwrap();
    assert_eq!(kanban.columns(), &vec!["In Progress".to_string()]);
    assert_eq!(kanban.cards().len(), 1);
    assert_eq!(kanban.cards()[0].title(), "I'm doing it!!");
    assert_eq!(kanban.cards()[0].status(), &Status::Incomplete);
}

#[test]
fn test_parse_with_date() {
    let input = "## To Do\n\n- [ ] Task with date @{2024-01-15}\n- [ ] Second Task\n";

    let kanban = Kanban::parse(input).unwrap();
    assert_eq!(kanban.columns(), &vec!["To Do".to_string()]);
    assert_eq!(kanban.cards().len(), 2);
    assert_eq!(kanban.cards()[0].title().trim(), "Task with date");
    assert_eq!(kanban.cards()[0].date(), Some("2024-01-15".to_string()));
    assert_eq!(kanban.cards()[1].date(), None);
}

#[test]
fn test_date_parse() {
    let input = "2121-12-12";
    assert!(KanbanParser::is_date(input));
}

#[test]
fn test_parse_card() {
    let input = "- [x] Title @{2025-01-02}";
    let card = KanbanParser::parse_card(input, "C").unwrap();
    assert_eq!(card.status(), &Status::Done);
    assert_eq!(card.title(), "Title");
    assert_eq!(card.date(), Some("2025-01-02".to_string()));
    assert_eq!(card.time(), None);
    assert_eq!(card.column(), "C");
}

#[test]
fn card_line_round_trip() {
    let card = CardBuilder::new()
        .column("C")
        .status(Status::Done)
        .title("Task")
        .date("2024-01-15")
        .time("09:30")
        .build()
        .unwrap();
    let line = card.render();
    assert_eq!(line, "- [x] Task @{2024-01-15} @@{09:30}");
    let reparsed = KanbanParser::parse_card(&line, "C").unwrap();
    assert_eq!(reparsed, card);
}

#[test]
fn add_card_failure_leaves_cards_unchanged() {
    let mut kanban = Kanban::new(&["To Do"]);
    let good = CardBuilder::new().column("To Do").title("A").build().unwrap();
    kanban.add_card(&good).unwrap();
    let bad = CardBuilder::new().column("Missing").title("B").build().unwrap();
    assert_eq!(kanban.add_card(&bad), Err(KanbanError::ColumnNotFound));
    assert_eq!(kanban.cards().len(), 1);
    assert_eq!(kanban.cards()[0].title(), "A");
}

#[test]
fn move_card_to_missing_column_fails() {
    let mut kanban = Kanban::new(&["To Do"]);
    let card = CardBuilder::new().column("To Do").title("A").build().unwrap();
    kanban.add_card(&card).unwrap();
    let r = kanban.move_card(&"Done".to_string(), card);
    assert_eq!(r, Err(KanbanError::ColumnNotFound));
    assert_eq!(kanban.cards()[0].column(), "To Do");
}

#[test]
fn move_card_moves_every_equal_card() {
    let mut kanban = Kanban::new(&["To Do", "Done"]);
    let card = CardBuilder::new().column("To Do").title("A").build().unwrap();
    let other = CardBuilder::new().column("To Do").title("B").build().unwrap();
    kanban.add_card(&card).unwrap();
    kanban.add_card(&other).unwrap();
    kanban.add_card(&card).unwrap();
    kanban.move_card(&"Done".to_string(), card).unwrap();
    assert_eq!(kanban.cards()[0].column(), "Done");
    assert_eq!(kanban.cards()[1].column(), "To Do");
    assert_eq!(kanban.cards()[2].column(), "Done");
}

#[test]
fn move_card_with_no_match_is_a_no_op() {
    let mut kanban = Kanban::new(&["To Do", "Done"]);
    let card = CardBuilder::new().column("To Do").title("A").build().unwrap();
    kanban.add_card(&card).unwrap();
    let ghostly = CardBuilder::new().column("To Do").title("Z").build().unwrap();
    assert_eq!(kanban.move_card(&"Done".to_string(), ghostly), Ok(()));
    assert_eq!(kanban.cards().len(), 1);
    assert_eq!(kanban.cards()[0].column(), "To Do");
}

#[test]
fn parse_orphan_card_fails() {
    let r = Kanban::parse("- [ ] orphan card");
    assert_eq!(r, Err(KanbanError::MissingColumnBeforeCard));
}

#[test]
fn parse_invalid_status_char() {
    let r = Kanban::parse("## A\n- [q] X");
    assert_eq!(r, Err(KanbanError::InvalidStatusChar('q')));
}

#[test]
fn parse_malformed_date_is_grammar_mismatch() {
    let r = Kanban::parse("## A\n- [ ] T @{20}");
    assert_eq!(
        r,
        Err(KanbanError::GrammarMismatch(Pos { line: 1, col: 7 }, Expected::Date))
    );
}

#[test]
fn parse_trailing_text_after_date_is_grammar_mismatch() {
    let r = Kanban::parse("## A\n- [ ] T @{2024-01-15}x");
    assert_eq!(
        r,
        Err(KanbanError::GrammarMismatch(Pos { line: 1, col: 21 }, Expected::LineEnd))
    );
}

#[test]
fn parse_unclosed_date_is_grammar_mismatch() {
    let r = Kanban::parse("## A\n- [ ] T @{2024-01-15");
    assert_eq!(
        r,
        Err(KanbanError::GrammarMismatch(Pos { line: 1, col: 20 }, Expected::CloseBrace))
    );
}

#[test]
fn parse_malformed_time_is_grammar_mismatch() {
    let r = Kanban::parse("## A\n- [ ] T @@{9:30}");
    assert_eq!(
        r,
        Err(KanbanError::GrammarMismatch(Pos { line: 1, col: 7 }, Expected::Time))
    );
}

#[test]
fn parse_card_rejects_a_non_card_line() {
    let r = KanbanParser::parse_card("## Heading", "C");
    assert_eq!(
        r,
        Err(KanbanError::GrammarMismatch(Pos { line: 0, col: 0 }, Expected::CardStart))
    );
}

#[test]
fn parse_card_rejects_missing_bracket() {
    let r = KanbanParser::parse_card("- [x) T", "C");
    assert_eq!(
        r,
        Err(KanbanError::GrammarMismatch(Pos { line: 0, col: 4 }, Expected::CloseBracket))
    );
}

#[test]
fn parse_multiple_columns() {
    let input = "## To Do\n- [ ] a\n## Done\n- [x] b\n";
    let kanban = Kanban::parse(input).unwrap();
    assert_eq!(kanban.columns(), &vec!["To Do".to_string(), "Done".to_string()]);
    assert_eq!(kanban.cards().len(), 2);
    assert_eq!(kanban.cards()[0].column(), "To Do");
    assert_eq!(kanban.cards()[1].column(), "Done");
    assert_eq!(kanban.cards()[1].status(), &Status::Done);
}

#[test]
fn parse_skips_frontmatter() {
    let input = "---\ntitle: board\n- [ ] not a card here\n---\n## A\n- [x] T";
    let kanban = Kanban::parse(input).unwrap();
    assert_eq!(kanban.columns(), &vec!["A".to_string()]);
    assert_eq!(kanban.cards().len(), 1);
    assert_eq!(kanban.cards()[0].status(), &Status::Done);
}

#[test]
fn parse_stops_at_trailing_block() {
    let input = "## A\n- [ ] kept\n%% notes\n- [ ] dropped";
    let kanban = Kanban::parse(input).unwrap();
    assert_eq!(kanban.cards().len(), 1);
    assert_eq!(kanban.cards()[0].title(), "kept");
}

#[test]
fn parse_trims_heading_names() {
    let kanban = Kanban::parse("##   Spaced \t\n- [ ] t").unwrap();
    assert_eq!(kanban.columns(), &vec!["Spaced".to_string()]);
}

#[test]
fn parse_card_with_time_only() {
    let kanban = Kanban::parse("## A\n- [ ] T @@{12:30}").unwrap();
    assert_eq!(kanban.cards()[0].title(), "T");
    assert_eq!(kanban.cards()[0].date(), None);
    assert_eq!(kanban.cards()[0].time(), Some("12:30".to_string()));
}

#[test]
fn title_may_contain_at_signs() {
    let kanban = Kanban::parse("## A\n- [ ] email a@b.com").unwrap();
    assert_eq!(kanban.cards()[0].title(), "email a@b.com");
    assert_eq!(kanban.cards()[0].date(), None);
}

#[test]
fn parse_empty_document() {
    let kanban = Kanban::parse("").unwrap();
    assert_eq!(kanban.columns().len(), 0);
    assert_eq!(kanban.cards().len(), 0);
}

#[test]
fn parse_skips_unrecognized_lines() {
    let kanban = Kanban::parse("junk line\n## A\nplain text\n- [ ] t\n").unwrap();
    assert_eq!(kanban.columns(), &vec!["A".to_string()]);
    assert_eq!(kanban.cards().len(), 1);
}

#[test]
fn add_column_permits_duplicates() {
    let mut kanban = Kanban::default();
    kanban.add_column("A".to_string()).unwrap();
    kanban.add_column("A".to_string()).unwrap();
    assert_eq!(kanban.columns(), &vec!["A".to_string(), "A".to_string()]);
}

#[test]
fn new_populates_columns() {
    let kanban = Kanban::new(&["To Do", "In Progress", "Done"]);
    assert_eq!(
        kanban.columns(),
        &vec!["To Do".to_string(), "In Progress".to_string(), "Done".to_string()]
    );
    assert_eq!(kanban.cards().len(), 0);
}

#[test]
fn is_time_checks_shape() {
    assert!(KanbanParser::is_time("09:30"));
    assert!(!KanbanParser::is_time("9:30"));
    assert!(!KanbanParser::is_time("09-30"));
    assert!(!KanbanParser::is_date("2024/01/15"));
}
