//! Keys and what they mean in each mode.

use vstd::prelude::*;
use crate::app::Mode;
use crate::config::KeyBinds;
use crate::text::{push_char, push_str, str_eq};

verus! {

/// A key, as the terminal reports it.
#[derive(Debug, Clone, Copy, PartialEq, Eq, Structural)]
pub enum KeyCode {
    Backspace,
    Enter,
    Left,
    Right,
    Up,
    Down,
    Home,
    End,
    PageUp,
    PageDown,
    Tab,
    BackTab,
    Delete,
    Insert,
    F(u8),
    Char(char),
    Null,
    Esc,
    /// Any other key (lock keys, media keys, lone modifiers).
    Other,
}

/// The modifier keys held with a key.
#[derive(Debug, Clone, Copy, PartialEq, Eq, Structural)]
pub struct KeyModifiers {
    pub control: bool,
    pub shift: bool,
    pub alt: bool,
}

impl KeyModifiers {
    /// No modifier.
    pub fn none() -> (r: KeyModifiers)
        ensures
            !r.control && !r.shift && !r.alt,
    {
        KeyModifiers { control: false, shift: false, alt: false }
    }

    /// Control alone.
    pub fn control() -> (r: KeyModifiers)
        ensures
            r.control && !r.shift && !r.alt,
    {
        KeyModifiers { control: true, shift: false, alt: false }
    }
}

/// A key press.
#[derive(Debug, Clone, Copy, PartialEq, Eq, Structural)]
pub struct KeyEvent {
    pub code: KeyCode,
    pub modifiers: KeyModifiers,
}

impl KeyEvent {
    /// The press of `code` with `modifiers`.
    pub fn new(code: KeyCode, modifiers: KeyModifiers) -> (r: KeyEvent)
        ensures
            r.code == code,
            r.modifiers == modifiers,
    {
        KeyEvent { code, modifiers }
    }
}

/// What a key asks the application to do.
#[derive(Debug, Clone, Copy, PartialEq, Eq, Structural)]
pub enum AppAction {
    // Navigation
    MoveDown,
    MoveUp,
    PageDown,
    PageUp,
    GoTop,
    GoBottom,
    // Filter
    OpenFilter,
    FilterChar(char),
    FilterBackspace,
    FilterConfirm,
    FilterCancel,
    // Type cycling
    FilterType,
    // Action menu
    OpenActionMenu,
    ActionUp,
    ActionDown,
    ActionConfirm,
    ActionCancel,
    // Confirmation dialog
    ConfirmYes,
    ConfirmNo,
    // Scope
    SwitchScope,
    // Log view
    OpenLogs,
    LogScrollDown,
    LogScrollUp,
    LogClose,
    LogToggleLiveTail,
    // Unit file view
    OpenUnitFile,
    UnitFileScrollDown,
    UnitFileScrollUp,
    UnitFileClose,
    // Help
    OpenHelp,
    HelpClose,
    // Misc
    Refresh,
    Quit,
    Nothing,
}

/// How a key is written in the key bindings: `ctrl-<c>` for a character
/// with control, the character itself, a name for the keys that have one,
/// and nothing for the others.
pub open spec fn key_text(event: KeyEvent) -> Seq<char> {
    match event.code {
        KeyCode::Char(c) => if event.modifiers.control {
            "ctrl-"@.push(c)
        } else {
            seq![c]
        },
        KeyCode::Enter => "enter"@,
        KeyCode::Tab => "tab"@,
        KeyCode::Esc => "esc"@,
        KeyCode::Up => "up"@,
        KeyCode::Down => "down"@,
        KeyCode::Left => "left"@,
        KeyCode::Right => "right"@,
        _ => seq![],
    }
}

/// The key as the key bindings write it.
pub fn key_to_string(event: KeyEvent) -> (r: String)
    ensures
        r@ == key_text(event),
{
    let ctrl = event.modifiers.control;
    let mut s = String::new();
    match event.code {
        KeyCode::Char(c) => {
            if ctrl {
                push_str(&mut s, "ctrl-");
            }
            push_char(&mut s, c);
        },
        KeyCode::Enter => push_str(&mut s, "enter"),
        KeyCode::Tab => push_str(&mut s, "tab"),
        KeyCode::Esc => push_str(&mut s, "esc"),
        KeyCode::Up => push_str(&mut s, "up"),
        KeyCode::Down => push_str(&mut s, "down"),
        KeyCode::Left => push_str(&mut s, "left"),
        KeyCode::Right => push_str(&mut s, "right"),
        _ => {},
    }
    assert(s@ =~= key_text(event));
    s
}

/// The action of a key in normal mode: the first binding, in the order
/// quit, move down, move up, page down, page up, go to bottom, go to top,
/// filter, action menu, switch scope, logs, refresh, unit file, help, type
/// filter, that equals the key's text; `None` when no binding does.
pub open spec fn normal_action(key: Seq<char>, b: KeyBinds) -> AppAction {
    if key == b.quit@ {
        AppAction::Quit
    } else if key == b.move_down@ {
        AppAction::MoveDown
    } else if key == b.move_up@ {
        AppAction::MoveUp
    } else if key == b.page_down@ {
        AppAction::PageDown
    } else if key == b.page_up@ {
        AppAction::PageUp
    } else if key == b.go_bottom@ {
        AppAction::GoBottom
    } else if key == b.go_top@ {
        AppAction::GoTop
    } else if key == b.filter@ {
        AppAction::OpenFilter
    } else if key == b.action_menu@ {
        AppAction::OpenActionMenu
    } else if key == b.switch_scope@ {
        AppAction::SwitchScope
    } else if key == b.open_logs@ {
        AppAction::OpenLogs
    } else if key == b.refresh@ {
        AppAction::Refresh
    } else if key == b.open_unit_file@ {
        AppAction::OpenUnitFile
    } else if key == b.help@ {
        AppAction::OpenHelp
    } else if key == b.type_filter@ {
        AppAction::FilterType
    } else {
        AppAction::Nothing
    }
}

/// Escape, Enter and Backspace control the filter; characters are typed
/// into it.
pub open spec fn filter_action(event: KeyEvent) -> AppAction {
    match event.code {
        KeyCode::Esc => AppAction::FilterCancel,
        KeyCode::Enter => AppAction::FilterConfirm,
        KeyCode::Backspace => AppAction::FilterBackspace,
        KeyCode::Char(c) => AppAction::FilterChar(c),
        _ => AppAction::Nothing,
    }
}

/// Escape or `q` closes the action menu, Enter runs the action, `j`/Down
/// and `k`/Up move in it.
pub open spec fn action_menu_action(event: KeyEvent) -> AppAction {
    match event.code {
        KeyCode::Esc | KeyCode::Char('q') => AppAction::ActionCancel,
        KeyCode::Enter => AppAction::ActionConfirm,
        KeyCode::Char('j') | KeyCode::Down => AppAction::ActionDown,
        KeyCode::Char('k') | KeyCode::Up => AppAction::ActionUp,
        _ => AppAction::Nothing,
    }
}

/// Escape or `q` closes the logs, `j`/Down/ctrl-d and `k`/Up/ctrl-u scroll,
/// `f` toggles following the journal.
pub open spec fn log_action(event: KeyEvent) -> AppAction {
    match event.code {
        KeyCode::Esc | KeyCode::Char('q') => AppAction::LogClose,
        KeyCode::Char('j') | KeyCode::Down => AppAction::LogScrollDown,
        KeyCode::Char('k') | KeyCode::Up => AppAction::LogScrollUp,
        KeyCode::Char('f') => AppAction::LogToggleLiveTail,
        KeyCode::Char('d') => if event.modifiers.control {
            AppAction::LogScrollDown
        } else {
            AppAction::Nothing
        },
        KeyCode::Char('u') => if event.modifiers.control {
            AppAction::LogScrollUp
        } else {
            AppAction::Nothing
        },
        _ => AppAction::Nothing,
    }
}

/// `y`/`Y` confirm; `n`/`N`, Escape and `q` cancel.
pub open spec fn confirm_action(event: KeyEvent) -> AppAction {
    match event.code {
        KeyCode::Char('y') | KeyCode::Char('Y') => AppAction::ConfirmYes,
        KeyCode::Char('n') | KeyCode::Char('N') | KeyCode::Esc | KeyCode::Char('q') => {
            AppAction::ConfirmNo
        },
        _ => AppAction::Nothing,
    }
}

/// Escape or `q` closes the unit file, `j`/Down/ctrl-d and `k`/Up/ctrl-u
/// scroll.
pub open spec fn unit_file_action(event: KeyEvent) -> AppAction {
    match event.code {
        KeyCode::Esc | KeyCode::Char('q') => AppAction::UnitFileClose,
        KeyCode::Char('j') | KeyCode::Down => AppAction::UnitFileScrollDown,
        KeyCode::Char('k') | KeyCode::Up => AppAction::UnitFileScrollUp,
        KeyCode::Char('d') => if event.modifiers.control {
            AppAction::UnitFileScrollDown
        } else {
            AppAction::Nothing
        },
        KeyCode::Char('u') => if event.modifiers.control {
            AppAction::UnitFileScrollUp
        } else {
            AppAction::Nothing
        },
        _ => AppAction::Nothing,
    }
}

/// Escape, `q` or `?` close the help.
pub open spec fn help_action(event: KeyEvent) -> AppAction {
    match event.code {
        KeyCode::Esc | KeyCode::Char('q') | KeyCode::Char('?') => AppAction::HelpClose,
        _ => AppAction::Nothing,
    }
}

/// The action of a key in a mode.
pub open spec fn key_action(event: KeyEvent, binds: KeyBinds, mode: Mode) -> AppAction {
    match mode {
        Mode::Filtering => filter_action(event),
        Mode::ActionMenu => action_menu_action(event),
        Mode::LogView => log_action(event),
        Mode::Confirm => confirm_action(event),
        Mode::UnitFile => unit_file_action(event),
        Mode::Help => help_action(event),
        Mode::Normal => normal_action(key_text(event), binds),
    }
}

/// What a key means in the given mode.
pub fn handle_key(event: KeyEvent, binds: &KeyBinds, mode: &Mode) -> (r: AppAction)
    ensures
        r == key_action(event, *binds, *mode),
{
    match mode {
        Mode::Filtering => handle_filter_key(event),
        Mode::ActionMenu => handle_action_menu_key(event),
        Mode::LogView => handle_log_key(event),
        Mode::Confirm => handle_confirm_key(event),
        Mode::UnitFile => handle_unit_file_key(event),
        Mode::Help => handle_help_key(event),
        Mode::Normal => handle_normal_key(event, binds),
    }
}

/// The key's action in normal mode, through the key bindings.
pub fn handle_normal_key(event: KeyEvent, binds: &KeyBinds) -> (r: AppAction)
    ensures
        r == normal_action(key_text(event), *binds),
{
    let key_str = key_to_string(event);
    let k = key_str.as_str();
    if str_eq(k, binds.quit.as_str()) {
        return AppAction::Quit;
    }
    if str_eq(k, binds.move_down.as_str()) {
        return AppAction::MoveDown;
    }
    if str_eq(k, binds.move_up.as_str()) {
        return AppAction::MoveUp;
    }
    if str_eq(k, binds.page_down.as_str()) {
        return AppAction::PageDown;
    }
    if str_eq(k, binds.page_up.as_str()) {
        return AppAction::PageUp;
    }
    if str_eq(k, binds.go_bottom.as_str()) {
        return AppAction::GoBottom;
    }
    if str_eq(k, binds.go_top.as_str()) {
        return AppAction::GoTop;
    }
    if str_eq(k, binds.filter.as_str()) {
        return AppAction::OpenFilter;
    }
    if str_eq(k, binds.action_menu.as_str()) {
        return AppAction::OpenActionMenu;
    }
    if str_eq(k, binds.switch_scope.as_str()) {
        return AppAction::SwitchScope;
    }
    if str_eq(k, binds.open_logs.as_str()) {
        return AppAction::OpenLogs;
    }
    if str_eq(k, binds.refresh.as_str()) {
        return AppAction::Refresh;
    }
    if str_eq(k, binds.open_unit_file.as_str()) {
        return AppAction::OpenUnitFile;
    }
    if str_eq(k, binds.help.as_str()) {
        return AppAction::OpenHelp;
    }
    if str_eq(k, binds.type_filter.as_str()) {
        return AppAction::FilterType;
    }
    AppAction::Nothing
}

/// The key's action while the filter is open.
pub fn handle_filter_key(event: KeyEvent) -> (r: AppAction)
    ensures
        r == filter_action(event),
{
    match event.code {
        KeyCode::Esc => AppAction::FilterCancel,
        KeyCode::Enter => AppAction::FilterConfirm,
        KeyCode::Backspace => AppAction::FilterBackspace,
        KeyCode::Char(c) => AppAction::FilterChar(c),
        _ => AppAction::Nothing,
    }
}

/// The key's action in the action menu.
pub fn handle_action_menu_key(event: KeyEvent) -> (r: AppAction)
    ensures
        r == action_menu_action(event),
{
    match event.code {
        KeyCode::Esc | KeyCode::Char('q') => AppAction::ActionCancel,
        KeyCode::Enter => AppAction::ActionConfirm,
        KeyCode::Char('j') | KeyCode::Down => AppAction::ActionDown,
        KeyCode::Char('k') | KeyCode::Up => AppAction::ActionUp,
        _ => AppAction::Nothing,
    }
}

/// The key's action in the log view.
pub fn handle_log_key(event: KeyEvent) -> (r: AppAction)
    ensures
        r == log_action(event),
{
    match event.code {
        KeyCode::Esc | KeyCode::Char('q') => AppAction::LogClose,
        KeyCode::Char('j') | KeyCode::Down => AppAction::LogScrollDown,
        KeyCode::Char('k') | KeyCode::Up => AppAction::LogScrollUp,
        KeyCode::Char('f') => AppAction::LogToggleLiveTail,
        KeyCode::Char('d') if event.modifiers.control => AppAction::LogScrollDown,
        KeyCode::Char('u') if event.modifiers.control => AppAction::LogScrollUp,
        _ => AppAction::Nothing,
    }
}

/// The key's action in the confirmation dialog.
pub fn handle_confirm_key(event: KeyEvent) -> (r: AppAction)
    ensures
        r == confirm_action(event),
{
    match event.code {
        KeyCode::Char('y') | KeyCode::Char('Y') => AppAction::ConfirmYes,
        KeyCode::Char('n') | KeyCode::Char('N') | KeyCode::Esc | KeyCode::Char('q') => {
            AppAction::ConfirmNo
        },
        _ => AppAction::Nothing,
    }
}

/// The key's action in the unit file view.
pub fn handle_unit_file_key(event: KeyEvent) -> (r: AppAction)
    ensures
        r == unit_file_action(event),
{
    match event.code {
        KeyCode::Esc | KeyCode::Char('q') => AppAction::UnitFileClose,
        KeyCode::Char('j') | KeyCode::Down => AppAction::UnitFileScrollDown,
        KeyCode::Char('k') | KeyCode::Up => AppAction::UnitFileScrollUp,
        KeyCode::Char('d') if event.modifiers.control => AppAction::UnitFileScrollDown,
        KeyCode::Char('u') if event.modifiers.control => AppAction::UnitFileScrollUp,
        _ => AppAction::Nothing,
    }
}

/// The key's action in the help screen.
pub fn handle_help_key(event: KeyEvent) -> (r: AppAction)
    ensures
        r == help_action(event),
{
    match event.code {
        KeyCode::Esc | KeyCode::Char('q') | KeyCode::Char('?') => AppAction::HelpClose,
        _ => AppAction::Nothing,
    }
}

} // verus!

verus! {

/// Escape backs out of every mode but normal mode, whatever modifiers are
/// held: it cancels the filter, closes the action menu, the log view, the
/// unit file and the help, and refuses a confirmation.
pub proof fn lemma_escape_backs_out(m: KeyModifiers, b: KeyBinds)
    ensures
        ({
            let e = KeyEvent { code: KeyCode::Esc, modifiers: m };
            &&& key_action(e, b, Mode::Filtering) == AppAction::FilterCancel
            &&& key_action(e, b, Mode::ActionMenu) == AppAction::ActionCancel
            &&& key_action(e, b, Mode::LogView) == AppAction::LogClose
            &&& key_action(e, b, Mode::Confirm) == AppAction::ConfirmNo
            &&& key_action(e, b, Mode::UnitFile) == AppAction::UnitFileClose
            &&& key_action(e, b, Mode::Help) == AppAction::HelpClose
        }),
{
}

/// Only Enter runs the chosen action from the action menu, and only `y` or
/// `Y` accepts a confirmation; `q` closes the menu and refuses the dialog.
pub proof fn lemma_only_enter_and_yes_run(e: KeyEvent)
    ensures
        action_menu_action(e) == AppAction::ActionConfirm <==> e.code == KeyCode::Enter,
        confirm_action(e) == AppAction::ConfirmYes <==> (e.code == KeyCode::Char('y') || e.code
            == KeyCode::Char('Y')),
        e.code == KeyCode::Char('q') ==> action_menu_action(e) == AppAction::ActionCancel
            && confirm_action(e) == AppAction::ConfirmNo,
{
}

} // verus!
