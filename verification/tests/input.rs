use koyomi::input::{
    default_bindings, handle_key, Action, EditorField, HotkeyKey, InputMode, KeyCode, KeyEvent,
    Modifiers,
};

fn key(code: KeyCode) -> KeyEvent {
    KeyEvent { key: code, pressed: true, modifiers: Modifiers::default(), text: None }
}

fn shifted_key(code: KeyCode) -> KeyEvent {
    let mut modifiers = Modifiers::default();
    modifiers.shift = true;
    KeyEvent { key: code, pressed: true, modifiers, text: None }
}

fn released_key(code: KeyCode) -> KeyEvent {
    KeyEvent { key: code, pressed: false, modifiers: Modifiers::default(), text: None }
}

#[test]
fn default_bindings_are_valid() {
    let bindings = default_bindings();
    assert!(!bindings.is_empty());
    let has_quit = bindings.iter().any(|b| b.action == "quit");
    assert!(has_quit, "should have a quit binding");
}

#[test]
fn default_bindings_table() {
    let bindings = default_bindings();
    assert_eq!(bindings.len(), 18);
    assert_eq!(bindings[0].hotkey.key, HotkeyKey::J);
    assert_eq!(bindings[0].action, "move_forward");
    assert!(bindings[6].hotkey.modifiers.shift);
    assert_eq!(bindings[6].hotkey.key, HotkeyKey::L);
    assert_eq!(bindings[6].action, "next_month");
    assert!(!bindings[4].hotkey.modifiers.shift);
    assert_eq!(bindings[17].hotkey.key, HotkeyKey::Q);
}

#[test]
fn released_keys_produce_no_action() {
    assert_eq!(handle_key(&released_key(KeyCode::Char('j')), InputMode::Normal), Action::NoAction);
}

#[test]
fn normal_vim_navigation() {
    assert_eq!(handle_key(&key(KeyCode::Char('j')), InputMode::Normal), Action::MoveForward);
    assert_eq!(handle_key(&key(KeyCode::Char('k')), InputMode::Normal), Action::MoveBackward);
    assert_eq!(handle_key(&key(KeyCode::Char('h')), InputMode::Normal), Action::MovePrevWeek);
    assert_eq!(handle_key(&key(KeyCode::Char('l')), InputMode::Normal), Action::MoveNextWeek);
}

#[test]
fn normal_arrow_navigation() {
    assert_eq!(handle_key(&key(KeyCode::Down), InputMode::Normal), Action::MoveForward);
    assert_eq!(handle_key(&key(KeyCode::Up), InputMode::Normal), Action::MoveBackward);
    assert_eq!(handle_key(&key(KeyCode::Left), InputMode::Normal), Action::MovePrevWeek);
    assert_eq!(handle_key(&key(KeyCode::Right), InputMode::Normal), Action::MoveNextWeek);
}

#[test]
fn normal_month_navigation() {
    assert_eq!(handle_key(&key(KeyCode::Char('n')), InputMode::Normal), Action::NextMonth);
    assert_eq!(handle_key(&key(KeyCode::Char('p')), InputMode::Normal), Action::PrevMonth);
    assert_eq!(handle_key(&shifted_key(KeyCode::Char('L')), InputMode::Normal), Action::NextMonth);
    assert_eq!(handle_key(&shifted_key(KeyCode::Char('H')), InputMode::Normal), Action::PrevMonth);
}

#[test]
fn normal_view_switching() {
    assert_eq!(handle_key(&key(KeyCode::Char('v')), InputMode::Normal), Action::CycleView);
    assert_eq!(handle_key(&key(KeyCode::Char('1')), InputMode::Normal), Action::MonthView);
    assert_eq!(handle_key(&key(KeyCode::Char('2')), InputMode::Normal), Action::WeekView);
    assert_eq!(handle_key(&key(KeyCode::Char('3')), InputMode::Normal), Action::DayView);
}

#[test]
fn normal_event_operations() {
    assert_eq!(handle_key(&key(KeyCode::Char('a')), InputMode::Normal), Action::AddEvent);
    assert_eq!(handle_key(&key(KeyCode::Char('e')), InputMode::Normal), Action::EditEvent);
    assert_eq!(handle_key(&key(KeyCode::Char('d')), InputMode::Normal), Action::DeleteEvent);
}

#[test]
fn editor_mode() {
    assert_eq!(handle_key(&key(KeyCode::Tab), InputMode::EventEditor), Action::NextField);
    assert_eq!(handle_key(&key(KeyCode::Enter), InputMode::EventEditor), Action::SaveEvent);
    assert_eq!(handle_key(&key(KeyCode::Escape), InputMode::EventEditor), Action::CancelEdit);
    assert_eq!(handle_key(&key(KeyCode::Char('x')), InputMode::EventEditor), Action::TypeChar('x'));
}

#[test]
fn command_mode() {
    assert_eq!(handle_key(&key(KeyCode::Enter), InputMode::Command), Action::SubmitCommand);
    assert_eq!(handle_key(&key(KeyCode::Escape), InputMode::Command), Action::CancelCommand);
    assert_eq!(handle_key(&key(KeyCode::Char('a')), InputMode::Command), Action::TypeChar('a'));
}

#[test]
fn editor_field_cycling() {
    let mut field = EditorField::Title;
    field = field.next();
    assert_eq!(field, EditorField::StartDate);
    field = field.next();
    assert_eq!(field, EditorField::StartTime);
    for _ in 0..6 {
        field = field.next();
    }
    assert_eq!(field, EditorField::Title);
}

#[test]
fn released_keys_are_inert_in_every_mode() {
    for mode in [InputMode::Normal, InputMode::EventEditor, InputMode::Command] {
        for code in [KeyCode::Char('q'), KeyCode::Enter, KeyCode::Tab, KeyCode::Escape] {
            assert_eq!(handle_key(&released_key(code), mode), Action::NoAction);
        }
    }
}

#[test]
fn other_keys() {
    assert_eq!(handle_key(&key(KeyCode::Char(':')), InputMode::Normal), Action::EnterCommand);
    assert_eq!(handle_key(&key(KeyCode::Char('/')), InputMode::Normal), Action::Search);
    assert_eq!(handle_key(&key(KeyCode::Char('q')), InputMode::Normal), Action::Quit);
    assert_eq!(handle_key(&key(KeyCode::Char('t')), InputMode::Normal), Action::JumpToday);
    assert_eq!(handle_key(&key(KeyCode::Enter), InputMode::Normal), Action::OpenDay);
    assert_eq!(handle_key(&key(KeyCode::Char('z')), InputMode::Normal), Action::NoAction);
    // Shift with another letter falls through to the plain table.
    assert_eq!(handle_key(&shifted_key(KeyCode::Char('j')), InputMode::Normal), Action::MoveForward);
    // Uppercase H without shift held is not bound.
    assert_eq!(handle_key(&key(KeyCode::Char('H')), InputMode::Normal), Action::NoAction);
    assert_eq!(handle_key(&key(KeyCode::Backspace), InputMode::Command), Action::Backspace);
    assert_eq!(handle_key(&key(KeyCode::Tab), InputMode::Command), Action::NoAction);
    assert_eq!(handle_key(&key(KeyCode::F(1)), InputMode::EventEditor), Action::NoAction);
}

#[test]
fn editor_field_labels() {
    assert_eq!(EditorField::Title.label(), "Title");
    assert_eq!(EditorField::StartDate.label(), "Start Date");
    assert_eq!(EditorField::EndTime.label(), "End Time");
    assert_eq!(EditorField::Recurrence.label(), "Recurrence");
    let mut f = EditorField::Location;
    for _ in 0..8 {
        f = f.next();
    }
    assert_eq!(f, EditorField::Location);
}
