use sysdx::app::Mode;
use sysdx::config::KeyBinds;
use sysdx::input::{
    handle_action_menu_key, handle_confirm_key, handle_filter_key, handle_help_key, handle_key,
    handle_log_key, handle_normal_key, handle_unit_file_key, key_to_string, AppAction, KeyCode,
    KeyEvent, KeyModifiers,
};

fn key(code: KeyCode) -> KeyEvent {
    KeyEvent::new(code, KeyModifiers::none())
}

fn ctrl_key(c: char) -> KeyEvent {
    KeyEvent::new(KeyCode::Char(c), KeyModifiers::control())
}

#[test]
fn log_f_toggles_live_tail() {
    let action = handle_log_key(key(KeyCode::Char('f')));
    assert_eq!(action, AppAction::LogToggleLiveTail);
}

#[test]
fn confirm_y_accepts() {
    assert_eq!(handle_confirm_key(key(KeyCode::Char('y'))), AppAction::ConfirmYes);
    assert_eq!(handle_confirm_key(key(KeyCode::Char('Y'))), AppAction::ConfirmYes);
}

#[test]
fn confirm_esc_cancels() {
    assert_eq!(handle_confirm_key(key(KeyCode::Esc)), AppAction::ConfirmNo);
    assert_eq!(handle_confirm_key(key(KeyCode::Char('n'))), AppAction::ConfirmNo);
}

#[test]
fn ctrl_d_scrolls_log_down() {
    let action = handle_log_key(ctrl_key('d'));
    assert_eq!(action, AppAction::LogScrollDown);
}

#[test]
fn normal_key_to_string_roundtrip() {
    assert_eq!(key_to_string(key(KeyCode::Char('j'))), "j");
    assert_eq!(key_to_string(key(KeyCode::Enter)), "enter");
    assert_eq!(key_to_string(key(KeyCode::Tab)), "tab");
    assert_eq!(key_to_string(ctrl_key('d')), "ctrl-d");
}

#[test]
fn unnamed_keys_have_no_text() {
    assert_eq!(key_to_string(key(KeyCode::F(5))), "");
    assert_eq!(key_to_string(key(KeyCode::Backspace)), "");
    assert_eq!(key_to_string(key(KeyCode::Esc)), "esc");
    assert_eq!(key_to_string(key(KeyCode::Left)), "left");
}

#[test]
fn default_bindings_in_normal_mode() {
    let b = KeyBinds::default();
    assert_eq!(handle_normal_key(key(KeyCode::Char('j')), &b), AppAction::MoveDown);
    assert_eq!(handle_normal_key(key(KeyCode::Char('k')), &b), AppAction::MoveUp);
    assert_eq!(handle_normal_key(ctrl_key('d'), &b), AppAction::PageDown);
    assert_eq!(handle_normal_key(ctrl_key('u'), &b), AppAction::PageUp);
    assert_eq!(handle_normal_key(key(KeyCode::Char('g')), &b), AppAction::GoTop);
    assert_eq!(handle_normal_key(key(KeyCode::Char('G')), &b), AppAction::GoBottom);
    assert_eq!(handle_normal_key(key(KeyCode::Char('/')), &b), AppAction::OpenFilter);
    assert_eq!(handle_normal_key(key(KeyCode::Enter), &b), AppAction::OpenActionMenu);
    assert_eq!(handle_normal_key(key(KeyCode::Tab), &b), AppAction::SwitchScope);
    assert_eq!(handle_normal_key(key(KeyCode::Char('l')), &b), AppAction::OpenLogs);
    assert_eq!(handle_normal_key(key(KeyCode::Char('q')), &b), AppAction::Quit);
    assert_eq!(handle_normal_key(key(KeyCode::Char('r')), &b), AppAction::Refresh);
    assert_eq!(handle_normal_key(key(KeyCode::Char('u')), &b), AppAction::OpenUnitFile);
    assert_eq!(handle_normal_key(key(KeyCode::Char('?')), &b), AppAction::OpenHelp);
    assert_eq!(handle_normal_key(key(KeyCode::Char('t')), &b), AppAction::FilterType);
    assert_eq!(handle_normal_key(key(KeyCode::Char('x')), &b), AppAction::Nothing);
}

#[test]
fn first_binding_wins() {
    let mut b = KeyBinds::default();
    b.move_down = "q".to_string();
    assert_eq!(handle_normal_key(key(KeyCode::Char('q')), &b), AppAction::Quit);
}

#[test]
fn modes_route_keys() {
    let b = KeyBinds::default();
    assert_eq!(handle_key(key(KeyCode::Char('j')), &b, &Mode::Filtering), AppAction::FilterChar('j'));
    assert_eq!(handle_key(key(KeyCode::Char('j')), &b, &Mode::ActionMenu), AppAction::ActionDown);
    assert_eq!(handle_key(key(KeyCode::Char('j')), &b, &Mode::UnitFile), AppAction::UnitFileScrollDown);
    assert_eq!(handle_key(key(KeyCode::Char('j')), &b, &Mode::Help), AppAction::Nothing);
    assert_eq!(handle_key(key(KeyCode::Char('j')), &b, &Mode::Normal), AppAction::MoveDown);
}

#[test]
fn mode_handlers() {
    assert_eq!(handle_filter_key(key(KeyCode::Esc)), AppAction::FilterCancel);
    assert_eq!(handle_filter_key(key(KeyCode::Enter)), AppAction::FilterConfirm);
    assert_eq!(handle_filter_key(key(KeyCode::Backspace)), AppAction::FilterBackspace);
    assert_eq!(handle_filter_key(key(KeyCode::Up)), AppAction::Nothing);
    assert_eq!(handle_action_menu_key(key(KeyCode::Char('q'))), AppAction::ActionCancel);
    assert_eq!(handle_action_menu_key(key(KeyCode::Up)), AppAction::ActionUp);
    assert_eq!(handle_action_menu_key(key(KeyCode::Enter)), AppAction::ActionConfirm);
    assert_eq!(handle_log_key(key(KeyCode::Char('d'))), AppAction::Nothing);
    assert_eq!(handle_log_key(ctrl_key('u')), AppAction::LogScrollUp);
    assert_eq!(handle_log_key(key(KeyCode::Esc)), AppAction::LogClose);
    assert_eq!(handle_unit_file_key(ctrl_key('d')), AppAction::UnitFileScrollDown);
    assert_eq!(handle_unit_file_key(key(KeyCode::Char('q'))), AppAction::UnitFileClose);
    assert_eq!(handle_help_key(key(KeyCode::Char('?'))), AppAction::HelpClose);
    assert_eq!(handle_confirm_key(key(KeyCode::Char('x'))), AppAction::Nothing);
}
