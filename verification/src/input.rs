//! Keyboard input handling with vim-style navigation.
//!
//! Key events are translated into calendar actions according to the current
//! input mode (Normal, EventEditor, Command). Key binding definitions pair a
//! hotkey (modifiers and a key) with an action name.

use vstd::prelude::*;

verus! {

/// Modifier keys of a binding hotkey.
#[derive(Clone, Copy, Debug, PartialEq, Eq, Structural)]
pub struct HotkeyModifiers {
    pub cmd: bool,
    pub ctrl: bool,
    pub alt: bool,
    pub shift: bool,
}

impl HotkeyModifiers {
    /// No modifier held.
    pub fn none() -> (r: Self)
        ensures
            !r.cmd && !r.ctrl && !r.alt && !r.shift,
    {
        HotkeyModifiers { cmd: false, ctrl: false, alt: false, shift: false }
    }

    /// Shift alone.
    pub fn shift() -> (r: Self)
        ensures
            !r.cmd && !r.ctrl && !r.alt && r.shift,
    {
        HotkeyModifiers { cmd: false, ctrl: false, alt: false, shift: true }
    }
}

/// The keys that the default bindings use.
#[derive(Clone, Copy, Debug, PartialEq, Eq, Structural)]
pub enum HotkeyKey {
    A,
    D,
    E,
    H,
    J,
    K,
    L,
    N,
    P,
    Q,
    T,
    V,
    Num1,
    Num2,
    Num3,
    Slash,
}

/// A hotkey: a combination of modifier keys and a single key.
#[derive(Clone, Copy, Debug, PartialEq, Eq, Structural)]
pub struct Hotkey {
    pub modifiers: HotkeyModifiers,
    pub key: HotkeyKey,
}

/// A keybinding definition: a hotkey paired with an action name.
#[derive(Clone, Debug)]
pub struct KeyBinding {
    /// The hotkey that triggers this binding.
    pub hotkey: Hotkey,
    /// The action name to perform.
    pub action: String,
}

/// One entry of the default binding table.
pub open spec fn binding_entry(shift: bool, key: HotkeyKey, action: Seq<char>) -> (Hotkey, Seq<char>) {
    (
        Hotkey {
            modifiers: HotkeyModifiers { cmd: false, ctrl: false, alt: false, shift },
            key,
        },
        action,
    )
}

/// The default binding table, in order.
pub open spec fn default_binding_table() -> Seq<(Hotkey, Seq<char>)> {
    seq![
        binding_entry(false, HotkeyKey::J, "move_forward"@),
        binding_entry(false, HotkeyKey::K, "move_backward"@),
        binding_entry(false, HotkeyKey::H, "prev_week"@),
        binding_entry(false, HotkeyKey::L, "next_week"@),
        binding_entry(false, HotkeyKey::N, "next_month"@),
        binding_entry(false, HotkeyKey::P, "prev_month"@),
        binding_entry(true, HotkeyKey::L, "next_month"@),
        binding_entry(true, HotkeyKey::H, "prev_month"@),
        binding_entry(false, HotkeyKey::T, "jump_today"@),
        binding_entry(false, HotkeyKey::V, "cycle_view"@),
        binding_entry(false, HotkeyKey::Num1, "month_view"@),
        binding_entry(false, HotkeyKey::Num2, "week_view"@),
        binding_entry(false, HotkeyKey::Num3, "day_view"@),
        binding_entry(false, HotkeyKey::A, "add_event"@),
        binding_entry(false, HotkeyKey::E, "edit_event"@),
        binding_entry(false, HotkeyKey::D, "delete_event"@),
        binding_entry(false, HotkeyKey::Slash, "search"@),
        binding_entry(false, HotkeyKey::Q, "quit"@),
    ]
}

fn push_binding(v: &mut Vec<KeyBinding>, shift: bool, key: HotkeyKey, action: &str)
    ensures
        final(v)@.len() == old(v)@.len() + 1,
        forall|i: int| 0 <= i < old(v)@.len() ==> #[trigger] final(v)@[i] == old(v)@[i],
        (final(v)@.last().hotkey, final(v)@.last().action@) == binding_entry(shift, key, action@),
{
    let modifiers = if shift {
        HotkeyModifiers::shift()
    } else {
        HotkeyModifiers::none()
    };
    v.push(KeyBinding { hotkey: Hotkey { modifiers, key }, action: String::from_str(action) });
}

/// Default keybindings: vim navigation, month navigation, jump to today,
/// view switching, event operations, search and quit.
pub fn default_bindings() -> (r: Vec<KeyBinding>)
    ensures
        r@.len() == default_binding_table().len(),
        forall|i: int|
            0 <= i < r@.len() ==> (#[trigger] r@[i].hotkey, r@[i].action@)
                == default_binding_table()[i],
{
    let mut v: Vec<KeyBinding> = Vec::new();
    push_binding(&mut v, false, HotkeyKey::J, "move_forward");
    push_binding(&mut v, false, HotkeyKey::K, "move_backward");
    push_binding(&mut v, false, HotkeyKey::H, "prev_week");
    push_binding(&mut v, false, HotkeyKey::L, "next_week");
    push_binding(&mut v, false, HotkeyKey::N, "next_month");
    push_binding(&mut v, false, HotkeyKey::P, "prev_month");
    push_binding(&mut v, true, HotkeyKey::L, "next_month");
    push_binding(&mut v, true, HotkeyKey::H, "prev_month");
    push_binding(&mut v, false, HotkeyKey::T, "jump_today");
    push_binding(&mut v, false, HotkeyKey::V, "cycle_view");
    push_binding(&mut v, false, HotkeyKey::Num1, "month_view");
    push_binding(&mut v, false, HotkeyKey::Num2, "week_view");
    push_binding(&mut v, false, HotkeyKey::Num3, "day_view");
    push_binding(&mut v, false, HotkeyKey::A, "add_event");
    push_binding(&mut v, false, HotkeyKey::E, "edit_event");
    push_binding(&mut v, false, HotkeyKey::D, "delete_event");
    push_binding(&mut v, false, HotkeyKey::Slash, "search");
    push_binding(&mut v, false, HotkeyKey::Q, "quit");
    v
}

/// Platform-independent key codes.
#[derive(Clone, Copy, Debug, PartialEq, Eq, Structural)]
pub enum KeyCode {
    Char(char),
    Enter,
    Escape,
    Backspace,
    Delete,
    Tab,
    Up,
    Down,
    Left,
    Right,
    Home,
    End,
    PageUp,
    PageDown,
    F(u8),
    Space,
    CapsLock,
    NumLock,
    Unknown,
}

/// Modifier keys held during a key event.
#[derive(Clone, Copy, Debug, PartialEq, Eq, Structural)]
pub struct Modifiers {
    pub shift: bool,
    pub ctrl: bool,
    pub alt: bool,
    pub meta: bool,
}

impl Default for Modifiers {
    fn default() -> (r: Self)
        ensures
            !r.shift && !r.ctrl && !r.alt && !r.meta,
    {
        Modifiers { shift: false, ctrl: false, alt: false, meta: false }
    }
}

/// A keyboard event.
#[derive(Clone, Debug)]
pub struct KeyEvent {
    pub key: KeyCode,
    pub pressed: bool,
    pub modifiers: Modifiers,
    /// Text input if this produced a character.
    pub text: Option<String>,
}

/// Application input mode.
#[derive(Clone, Copy, Debug, PartialEq, Eq, Structural)]
pub enum InputMode {
    /// Normal mode: navigate the calendar grid.
    Normal,
    /// Event editor mode: creating or editing an event.
    EventEditor,
    /// Command mode: typing a command after `:`.
    Command,
}

/// Actions that keyboard input can trigger.
#[derive(Clone, Copy, Debug, PartialEq, Eq, Structural)]
pub enum Action {
    /// Move cursor forward (j in month = next day, in week/day = next time slot).
    MoveForward,
    /// Move cursor backward (k).
    MoveBackward,
    /// Move to previous week/column (h in month view).
    MovePrevWeek,
    /// Move to next week/column (l in month view).
    MoveNextWeek,
    /// Go to previous month (H / p).
    PrevMonth,
    /// Go to next month (L / n).
    NextMonth,
    /// Jump to today (t).
    JumpToday,
    /// Cycle to next view (v).
    CycleView,
    /// Switch to month view (1).
    MonthView,
    /// Switch to week view (2).
    WeekView,
    /// Switch to day view (3).
    DayView,
    /// Add a new event (a).
    AddEvent,
    /// Edit the selected event (e).
    EditEvent,
    /// Delete the selected event (d).
    DeleteEvent,
    /// Open day detail from month view (Enter).
    OpenDay,
    /// Cycle to next field in event editor (Tab).
    NextField,
    /// Save the current event (Enter in editor).
    SaveEvent,
    /// Cancel event editing (Esc in editor).
    CancelEdit,
    /// Type a character in the current field.
    TypeChar(char),
    /// Backspace in editor.
    Backspace,
    /// Enter command mode (:).
    EnterCommand,
    /// Submit the command (Enter in command mode).
    SubmitCommand,
    /// Cancel command mode (Esc).
    CancelCommand,
    /// Start search (/).
    Search,
    /// Quit the application (q).
    Quit,
    /// No action for this key.
    NoAction,
}

/// The action of a key in normal mode.
pub open spec fn normal_key_action(key: KeyCode, shift: bool) -> Action {
    if shift && key == KeyCode::Char('H') {
        Action::PrevMonth
    } else if shift && key == KeyCode::Char('L') {
        Action::NextMonth
    } else {
        match key {
            KeyCode::Char('j') | KeyCode::Down => Action::MoveForward,
            KeyCode::Char('k') | KeyCode::Up => Action::MoveBackward,
            KeyCode::Char('h') | KeyCode::Left => Action::MovePrevWeek,
            KeyCode::Char('l') | KeyCode::Right => Action::MoveNextWeek,
            KeyCode::Char('n') => Action::NextMonth,
            KeyCode::Char('p') => Action::PrevMonth,
            KeyCode::Char('t') => Action::JumpToday,
            KeyCode::Char('v') => Action::CycleView,
            KeyCode::Char('1') => Action::MonthView,
            KeyCode::Char('2') => Action::WeekView,
            KeyCode::Char('3') => Action::DayView,
            KeyCode::Char('a') => Action::AddEvent,
            KeyCode::Char('e') => Action::EditEvent,
            KeyCode::Char('d') => Action::DeleteEvent,
            KeyCode::Enter => Action::OpenDay,
            KeyCode::Char(':') => Action::EnterCommand,
            KeyCode::Char('/') => Action::Search,
            KeyCode::Char('q') => Action::Quit,
            _ => Action::NoAction,
        }
    }
}

/// The action of a key in the event editor.
pub open spec fn editor_key_action(key: KeyCode) -> Action {
    match key {
        KeyCode::Tab => Action::NextField,
        KeyCode::Enter => Action::SaveEvent,
        KeyCode::Escape => Action::CancelEdit,
        KeyCode::Backspace => Action::Backspace,
        KeyCode::Char(c) => Action::TypeChar(c),
        _ => Action::NoAction,
    }
}

/// The action of a key in command mode.
pub open spec fn command_key_action(key: KeyCode) -> Action {
    match key {
        KeyCode::Enter => Action::SubmitCommand,
        KeyCode::Escape => Action::CancelCommand,
        KeyCode::Backspace => Action::Backspace,
        KeyCode::Char(c) => Action::TypeChar(c),
        _ => Action::NoAction,
    }
}

/// The action of a key event in a mode: nothing for a released key.
pub open spec fn key_action(key: KeyCode, pressed: bool, shift: bool, mode: InputMode) -> Action {
    if !pressed {
        Action::NoAction
    } else {
        match mode {
            InputMode::Normal => normal_key_action(key, shift),
            InputMode::EventEditor => editor_key_action(key),
            InputMode::Command => command_key_action(key),
        }
    }
}

/// Translate a key event into an action based on the current mode.
pub fn handle_key(event: &KeyEvent, mode: InputMode) -> (r: Action)
    ensures
        r == key_action(event.key, event.pressed, event.modifiers.shift, mode),
{
    if !event.pressed {
        return Action::NoAction;
    }
    match mode {
        InputMode::Normal => handle_normal_key(event),
        InputMode::EventEditor => handle_editor_key(event),
        InputMode::Command => handle_command_key(event),
    }
}

fn handle_normal_key(event: &KeyEvent) -> (r: Action)
    ensures
        r == normal_key_action(event.key, event.modifiers.shift),
{
    if event.modifiers.shift {
        match event.key {
            KeyCode::Char('H') => {
                return Action::PrevMonth;
            },
            KeyCode::Char('L') => {
                return Action::NextMonth;
            },
            _ => {},
        }
    }
    match event.key {
        KeyCode::Char('j') | KeyCode::Down => Action::MoveForward,
        KeyCode::Char('k') | KeyCode::Up => Action::MoveBackward,
        KeyCode::Char('h') | KeyCode::Left => Action::MovePrevWeek,
        KeyCode::Char('l') | KeyCode::Right => Action::MoveNextWeek,
        KeyCode::Char('n') => Action::NextMonth,
        KeyCode::Char('p') => Action::PrevMonth,
        KeyCode::Char('t') => Action::JumpToday,
        KeyCode::Char('v') => Action::CycleView,
        KeyCode::Char('1') => Action::MonthView,
        KeyCode::Char('2') => Action::WeekView,
        KeyCode::Char('3') => Action::DayView,
        KeyCode::Char('a') => Action::AddEvent,
        KeyCode::Char('e') => Action::EditEvent,
        KeyCode::Char('d') => Action::DeleteEvent,
        KeyCode::Enter => Action::OpenDay,
        KeyCode::Char(':') => Action::EnterCommand,
        KeyCode::Char('/') => Action::Search,
        KeyCode::Char('q') => Action::Quit,
        _ => Action::NoAction,
    }
}

fn handle_editor_key(event: &KeyEvent) -> (r: Action)
    ensures
        r == editor_key_action(event.key),
{
    match event.key {
        KeyCode::Tab => Action::NextField,
        KeyCode::Enter => Action::SaveEvent,
        KeyCode::Escape => Action::CancelEdit,
        KeyCode::Backspace => Action::Backspace,
        KeyCode::Char(c) => Action::TypeChar(c),
        _ => Action::NoAction,
    }
}

fn handle_command_key(event: &KeyEvent) -> (r: Action)
    ensures
        r == command_key_action(event.key),
{
    match event.key {
        KeyCode::Enter => Action::SubmitCommand,
        KeyCode::Escape => Action::CancelCommand,
        KeyCode::Backspace => Action::Backspace,
        KeyCode::Char(c) => Action::TypeChar(c),
        _ => Action::NoAction,
    }
}

/// A released key never triggers an action, whatever the mode.
pub proof fn lemma_released_key_is_inert(key: KeyCode, shift: bool, mode: InputMode)
    ensures
        key_action(key, false, shift, mode) == Action::NoAction,
{
}

/// Editor fields for event creation/editing.
#[derive(Clone, Copy, Debug, PartialEq, Eq, Structural)]
pub enum EditorField {
    Title,
    StartDate,
    StartTime,
    EndDate,
    EndTime,
    Location,
    Calendar,
    Recurrence,
}

impl EditorField {
    /// Position of the field in the editor, from 0 (Title) to 7 (Recurrence).
    pub open spec fn position(self) -> int {
        match self {
            EditorField::Title => 0,
            EditorField::StartDate => 1,
            EditorField::StartTime => 2,
            EditorField::EndDate => 3,
            EditorField::EndTime => 4,
            EditorField::Location => 5,
            EditorField::Calendar => 6,
            EditorField::Recurrence => 7,
        }
    }

    pub open spec fn spec_next(self) -> EditorField {
        match self {
            EditorField::Title => EditorField::StartDate,
            EditorField::StartDate => EditorField::StartTime,
            EditorField::StartTime => EditorField::EndDate,
            EditorField::EndDate => EditorField::EndTime,
            EditorField::EndTime => EditorField::Location,
            EditorField::Location => EditorField::Calendar,
            EditorField::Calendar => EditorField::Recurrence,
            EditorField::Recurrence => EditorField::Title,
        }
    }

    /// `k` steps of `next` from `self`.
    pub open spec fn advanced(self, k: nat) -> EditorField
        decreases k,
    {
        if k == 0 {
            self
        } else {
            self.spec_next().advanced((k - 1) as nat)
        }
    }

    /// Cycle to the next field.
    pub fn next(self) -> (r: Self)
        ensures
            r == self.spec_next(),
            r.position() == (self.position() + 1) % 8,
    {
        match self {
            EditorField::Title => EditorField::StartDate,
            EditorField::StartDate => EditorField::StartTime,
            EditorField::StartTime => EditorField::EndDate,
            EditorField::EndDate => EditorField::EndTime,
            EditorField::EndTime => EditorField::Location,
            EditorField::Location => EditorField::Calendar,
            EditorField::Calendar => EditorField::Recurrence,
            EditorField::Recurrence => EditorField::Title,
        }
    }

    pub open spec fn label_spec(self) -> Seq<char> {
        match self {
            EditorField::Title => "Title"@,
            EditorField::StartDate => "Start Date"@,
            EditorField::StartTime => "Start Time"@,
            EditorField::EndDate => "End Date"@,
            EditorField::EndTime => "End Time"@,
            EditorField::Location => "Location"@,
            EditorField::Calendar => "Calendar"@,
            EditorField::Recurrence => "Recurrence"@,
        }
    }

    /// Display label for this field.
    pub fn label(self) -> (r: &'static str)
        ensures
            r@ == self.label_spec(),
    {
        match self {
            EditorField::Title => "Title",
            EditorField::StartDate => "Start Date",
            EditorField::StartTime => "Start Time",
            EditorField::EndDate => "End Date",
            EditorField::EndTime => "End Time",
            EditorField::Location => "Location",
            EditorField::Calendar => "Calendar",
            EditorField::Recurrence => "Recurrence",
        }
    }
}

/// `k` steps of `EditorField::next` move `k` places forward, modulo the
/// eight fields.
pub proof fn lemma_editor_field_advance(f: EditorField, k: nat)
    ensures
        f.advanced(k).position() == (f.position() + k) % 8,
    decreases k,
{
    if k > 0 {
        lemma_editor_field_advance(f.spec_next(), (k - 1) as nat);
    }
}

/// Eight steps of `EditorField::next` visit every field and lead back to the
/// starting one; fewer steps never do.
pub proof fn lemma_editor_field_cycle(f: EditorField, k: nat)
    ensures
        f.advanced(8) == f,
        0 < k < 8 ==> f.advanced(k) != f,
{
    lemma_editor_field_advance(f, 8);
    lemma_editor_field_advance(f, k);
    assert(forall|a: EditorField, b: EditorField| a.position() == b.position() ==> a == b);
}

/// A released key never acts, in any mode.
pub proof fn lemma_released_keys_do_nothing(key: KeyCode, shift: bool, mode: InputMode)
    ensures
        key_action(key, false, shift, mode) == Action::NoAction,
{
}

/// While text is typed, in the event editor as on the command line, a
/// pressed character key types that character and Backspace erases, with
/// or without Shift; Escape leaves the mode.
pub proof fn lemma_text_keys(c: char, shift: bool)
    ensures
        key_action(KeyCode::Char(c), true, shift, InputMode::EventEditor) == Action::TypeChar(c),
        key_action(KeyCode::Char(c), true, shift, InputMode::Command) == Action::TypeChar(c),
        key_action(KeyCode::Backspace, true, shift, InputMode::EventEditor) == Action::Backspace,
        key_action(KeyCode::Backspace, true, shift, InputMode::Command) == Action::Backspace,
        key_action(KeyCode::Escape, true, shift, InputMode::EventEditor) == Action::CancelEdit,
        key_action(KeyCode::Escape, true, shift, InputMode::Command) == Action::CancelCommand,
{
}

/// In the event editor Tab moves to the next field and Enter saves; on the
/// command line Enter submits the command.
pub proof fn lemma_editor_and_command_keys(shift: bool)
    ensures
        key_action(KeyCode::Tab, true, shift, InputMode::EventEditor) == Action::NextField,
        key_action(KeyCode::Enter, true, shift, InputMode::EventEditor) == Action::SaveEvent,
        key_action(KeyCode::Enter, true, shift, InputMode::Command) == Action::SubmitCommand,
{
}

/// In normal mode the vim keys and the arrow keys move alike: `j`/Down
/// forward, `k`/Up backward, `h`/Left to the previous week or column,
/// `l`/Right to the next; Shift with `H` or `L` changes the month, as `p`
/// and `n` do.
pub proof fn lemma_normal_navigation_keys(shift: bool)
    ensures
        key_action(KeyCode::Char('j'), true, shift, InputMode::Normal) == Action::MoveForward,
        key_action(KeyCode::Down, true, shift, InputMode::Normal) == Action::MoveForward,
        key_action(KeyCode::Char('k'), true, shift, InputMode::Normal) == Action::MoveBackward,
        key_action(KeyCode::Up, true, shift, InputMode::Normal) == Action::MoveBackward,
        key_action(KeyCode::Char('h'), true, shift, InputMode::Normal) == Action::MovePrevWeek,
        key_action(KeyCode::Left, true, shift, InputMode::Normal) == Action::MovePrevWeek,
        key_action(KeyCode::Char('l'), true, shift, InputMode::Normal) == Action::MoveNextWeek,
        key_action(KeyCode::Right, true, shift, InputMode::Normal) == Action::MoveNextWeek,
        key_action(KeyCode::Char('n'), true, shift, InputMode::Normal) == Action::NextMonth,
        key_action(KeyCode::Char('p'), true, shift, InputMode::Normal) == Action::PrevMonth,
        key_action(KeyCode::Char('L'), true, true, InputMode::Normal) == Action::NextMonth,
        key_action(KeyCode::Char('H'), true, true, InputMode::Normal) == Action::PrevMonth,
{
}

} // verus!
