use timet_tui::hours::{self, parse_hours, validate_hours, HoursError, HoursMessage, HoursModel};
use timet_tui::model::{ActiveView, Key, Message};
use timet_tui::project::{self, ProjectMessage, ProjectModel};
use timet_tui::store::Store;

fn typed(text: &str) -> HoursModel {
    let mut model = HoursModel::new();
    for c in text.chars() {
        hours::handle_key(Key::Char(c), &mut model);
    }
    model
}

fn chars(text: &str) -> Vec<char> {
    text.chars().collect()
}

#[test]
fn test_validate_hours() {
    let invalid_hours = validate_hours(2500);
    assert!(invalid_hours.is_err());

    let valid_hours = validate_hours(2400);
    assert!(valid_hours.is_ok());
}

#[test]
fn validate_hours_names_the_value() {
    match validate_hours(2550) {
        Err(HoursError::InvalidHours { hours }) => assert_eq!(hours, "25.5"),
        other => panic!("unexpected {:?}", other),
    }
    match validate_hours(2505) {
        Err(HoursError::InvalidHours { hours }) => assert_eq!(hours, "25.05"),
        other => panic!("unexpected {:?}", other),
    }
    match validate_hours(2500) {
        Err(e) => assert_eq!(e.message(), "Valid input 0h...24h (given: 25)"),
        other => panic!("unexpected {:?}", other),
    }
}

#[test]
fn enter_rejects_twenty_five() {
    let mut model = typed("25");
    let msg = hours::handle_key(Key::Enter, &mut model);
    match msg {
        Some(Message::AddHours(HoursMessage::ValidationError(t))) => {
            assert_eq!(t, "Valid input 0h...24h (given: 25)")
        }
        other => panic!("unexpected {:?}", other),
    }
    assert_eq!(model.input(), "25");
    assert_eq!(model.pending, None);
}

#[test]
fn enter_accepts_twenty_four() {
    let mut model = typed("24");
    let msg = hours::handle_key(Key::Enter, &mut model);
    assert!(msg.is_none());
    assert_eq!(model.pending, Some(2400));
}

#[test]
fn enter_on_empty_buffer_does_nothing() {
    let mut model = HoursModel::new();
    let msg = hours::handle_key(Key::Enter, &mut model);
    assert!(msg.is_none());
    assert_eq!(model.pending, None);
}

#[test]
fn leading_point_is_rejected() {
    let model = typed(".5");
    assert_eq!(model.input(), "5");
    assert_eq!(model.character_index(), 1);
}

#[test]
fn second_point_and_letters_are_rejected() {
    let model = typed("7.2.5a");
    assert_eq!(model.input(), "7.25");
}

#[test]
fn non_ascii_numerals_are_rejected() {
    let model = typed("½٣7");
    assert_eq!(model.input(), "7");
    assert_eq!(model.character_index(), 1);
}

#[test]
fn lone_point_does_not_parse() {
    let mut model = typed("1.");
    model.move_cursor_left();
    hours::handle_key(Key::Backspace, &mut model);
    assert_eq!(model.input(), ".");
    match hours::handle_key(Key::Enter, &mut model) {
        Some(Message::AddHours(HoursMessage::ValidationError(t))) => assert_eq!(t, "invalid float literal"),
        other => panic!("unexpected {:?}", other),
    }
}

#[test]
fn backspace_removes_left_of_cursor() {
    let mut model = typed("123");
    model.move_cursor_left();
    hours::handle_key(Key::Backspace, &mut model);
    assert_eq!(model.input(), "13");
    assert_eq!(model.character_index(), 1);
    model.move_cursor_left();
    hours::handle_key(Key::Backspace, &mut model);
    assert_eq!(model.input(), "13");
    hours::handle_key(Key::Char('9'), &mut model);
    assert_eq!(model.input(), "913");
}

#[test]
fn parse_hours_reads_hundredths() {
    assert_eq!(parse_hours(&chars("7.5")).unwrap(), 750);
    assert_eq!(parse_hours(&chars("7.25")).unwrap(), 725);
    assert_eq!(parse_hours(&chars("7.259")).unwrap(), 725);
    assert_eq!(parse_hours(&chars("24.000")).unwrap(), 2400);
    assert_eq!(parse_hours(&chars("0")).unwrap(), 0);
    assert_eq!(parse_hours(&chars("5.")).unwrap(), 500);
    assert_eq!(parse_hours(&chars(".5")).unwrap(), 50);
}

#[test]
fn parse_hours_errors() {
    assert!(matches!(parse_hours(&chars("")), Err(HoursError::Empty)));
    assert!(matches!(parse_hours(&chars(".")), Err(HoursError::Unparsable { .. })));
    assert!(matches!(parse_hours(&chars("1.2.3")), Err(HoursError::Unparsable { .. })));
    assert!(matches!(parse_hours(&chars("24.01")), Err(HoursError::InvalidHours { .. })));
    assert!(matches!(parse_hours(&chars("99999999999999")), Err(HoursError::InvalidHours { .. })));
    assert_eq!(HoursError::Empty.message(), "hours cannot be empty");
}

#[test]
fn hours_update_open_and_validation_error() {
    let mut model = typed("12");
    let next = hours::update(&mut model, HoursMessage::Open("p-1".to_string()));
    assert!(matches!(next, Some(Message::View(ActiveView::LogHours))));
    assert_eq!(model.input(), "");
    assert_eq!(model.project(), "p-1");
    hours::handle_key(Key::Char('3'), &mut model);
    let next = hours::update(&mut model, HoursMessage::ValidationError("bad".to_string()));
    assert!(next.is_none());
    assert_eq!(model.error_message, Some("bad".to_string()));
    assert_eq!(model.input(), "3");
}

fn project_store() -> Store {
    let mut store = Store::new();
    store.insert(vec![
        timet_tui::api::TimetEntry {
            day_of_year: 10,
            year: 2024,
            month: 1,
            iso_week_year: 2024,
            iso_week: 2,
            week: 2,
            hours: 100,
            project_name: "Alpha".to_string(),
            project_id: "a".to_string(),
        },
        timet_tui::api::TimetEntry {
            day_of_year: 11,
            year: 2024,
            month: 1,
            iso_week_year: 2024,
            iso_week: 2,
            week: 2,
            hours: 200,
            project_name: "Beta".to_string(),
            project_id: "b".to_string(),
        },
    ])
    .unwrap();
    store
}

#[test]
fn project_selector_navigation_and_choice() {
    let store = project_store();
    let mut model = ProjectModel::new();
    let next = project::update(&mut model, &store, ProjectMessage::Open);
    assert!(matches!(next, Some(Message::View(ActiveView::Hours))));
    assert_eq!(model.projects.len(), 2);
    for _ in 0..5 {
        project::handle_key(Key::Char('j'), &mut model);
    }
    assert_eq!(model.selected, 1);
    match project::handle_key(Key::Enter, &mut model) {
        Some(Message::ActiveProject(Some(p))) => assert_eq!(p.project_id, "b"),
        other => panic!("unexpected {:?}", other),
    }
    for _ in 0..5 {
        project::handle_key(Key::Char('k'), &mut model);
    }
    assert_eq!(model.selected, 0);
    assert!(matches!(project::handle_key(Key::Char('x'), &mut model), Some(Message::ActiveProject(None))));
    assert!(matches!(project::handle_key(Key::Char('H'), &mut model), Some(Message::Home)));
}

#[test]
fn project_selector_enter_on_empty_list() {
    let mut model = ProjectModel::new();
    assert!(project::handle_key(Key::Enter, &mut model).is_none());
}
