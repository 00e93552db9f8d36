use sysdx::app::{action_finished, App, BgMsg, Effect, Mode};
use sysdx::config::Config;
use sysdx::input::AppAction;
use sysdx::systemd::{Action, RawUnit, Scope};

fn raw(unit: &str, active: &str) -> RawUnit {
    RawUnit {
        unit: unit.to_string(),
        load: "loaded".to_string(),
        active: active.to_string(),
        sub: "running".to_string(),
        description: format!("{} unit", unit),
    }
}

fn sample() -> Vec<RawUnit> {
    vec![
        raw("alpha.service", "active"),
        raw("beta.socket", "inactive"),
        raw("gamma.service", "failed"),
        raw("delta.timer", "active"),
    ]
}

fn app() -> App {
    App::new(Config::default(), Scope::User, Ok(sample()))
}

fn status(name: &str) -> Effect {
    Effect::RefreshStatus { name: name.to_string(), scope: Scope::User }
}

#[test]
fn new_shows_every_unit() {
    let a = app();
    assert_eq!(a.visible_indices, vec![0, 1, 2, 3]);
    assert_eq!(a.units.selected, 0);
    assert_eq!(a.mode, Mode::Normal);
    assert_eq!(a.initial_effects(), vec![status("alpha.service")]);
    let b = App::new(Config::default(), Scope::System, Err("no systemctl".to_string()));
    assert!(b.visible_indices.is_empty());
    assert_eq!(b.status_bar_text(), " ✗ no systemctl");
}

#[test]
fn navigation_fetches_status() {
    let mut a = app();
    let (quit, effects) = a.apply(AppAction::MoveDown);
    assert!(!quit);
    assert_eq!(a.units.selected, 1);
    assert_eq!(effects, vec![status("beta.socket")]);
    a.apply(AppAction::GoBottom);
    assert_eq!(a.units.selected, 3);
    a.apply(AppAction::PageUp);
    assert_eq!(a.units.selected, 0);
    a.apply(AppAction::PageDown);
    assert_eq!(a.units.selected, 3);
    let (quit, effects) = a.apply(AppAction::Quit);
    assert!(quit);
    assert!(effects.is_empty());
}

#[test]
fn type_filter_cycles_and_moves_selection() {
    let mut a = app();
    a.units.selected = 1;
    let (_, effects) = a.apply(AppAction::FilterType);
    assert_eq!(a.type_filter, Some("service".to_string()));
    assert_eq!(a.visible_indices, vec![0, 2]);
    assert_eq!(a.units.selected, 0);
    assert_eq!(effects, vec![status("alpha.service")]);
    a.apply(AppAction::FilterType);
    assert_eq!(a.visible_indices, vec![1]);
    assert!(a.status_bar_text().starts_with(" [type:socket]"));
}

#[test]
fn fuzzy_filter_and_cancel() {
    let mut a = app();
    a.apply(AppAction::OpenFilter);
    assert_eq!(a.mode, Mode::Filtering);
    for c in "gam".chars() {
        a.apply(AppAction::FilterChar(c));
    }
    assert_eq!(a.filter_query, "gam");
    assert_eq!(a.visible_indices, vec![2]);
    assert_eq!(a.units.selected, 2);
    a.apply(AppAction::FilterBackspace);
    assert_eq!(a.filter_query, "ga");
    a.apply(AppAction::FilterCancel);
    assert_eq!(a.filter_query, "");
    assert_eq!(a.mode, Mode::Normal);
    assert_eq!(a.visible_indices, vec![0, 1, 2, 3]);
}

#[test]
fn action_menu_wraps_and_confirms() {
    let mut a = app();
    a.apply(AppAction::OpenActionMenu);
    assert_eq!(a.mode, Mode::ActionMenu);
    a.apply(AppAction::ActionUp);
    assert_eq!(a.action_menu_selected, 7);
    a.apply(AppAction::ActionDown);
    assert_eq!(a.action_menu_selected, 0);
    let (_, effects) = a.apply(AppAction::ActionConfirm);
    assert_eq!(
        effects,
        vec![Effect::RunAction { action: Action::Start, name: "alpha.service".to_string(), scope: Scope::User }]
    );
    assert_eq!(a.mode, Mode::Normal);
    a.apply(AppAction::OpenActionMenu);
    a.apply(AppAction::ActionDown);
    let (_, effects) = a.apply(AppAction::ActionConfirm);
    assert!(effects.is_empty());
    assert_eq!(a.mode, Mode::Confirm);
    assert_eq!(a.confirm_pending, Some(1));
    let (_, effects) = a.apply(AppAction::ConfirmYes);
    assert_eq!(
        effects,
        vec![Effect::RunAction { action: Action::Stop, name: "alpha.service".to_string(), scope: Scope::User }]
    );
    assert_eq!(a.confirm_pending, None);
    assert_eq!(a.mode, Mode::Normal);
}

#[test]
fn logs_scroll_and_live_tail() {
    let mut a = app();
    let (_, effects) = a.apply(AppAction::OpenLogs);
    assert_eq!(a.mode, Mode::LogView);
    assert_eq!(
        effects,
        vec![Effect::RefreshJournal { name: "alpha.service".to_string(), scope: Scope::User, lines: 50 }]
    );
    a.handle_bg(BgMsg::Journal((0..5).map(|i| format!("line {}", i)).collect()));
    a.apply(AppAction::LogScrollDown);
    assert_eq!(a.log_scroll, 3);
    a.apply(AppAction::LogScrollDown);
    assert_eq!(a.log_scroll, 4);
    a.apply(AppAction::LogScrollUp);
    assert_eq!(a.log_scroll, 1);
    a.apply(AppAction::LogToggleLiveTail);
    assert!(a.log_live);
    assert_eq!(a.status_bar_text(), "  j/k scroll  f toggle live-tail [LIVE]  esc/q close");
    let effects = a.on_tick();
    assert_eq!(effects.len(), 1);
    a.apply(AppAction::LogClose);
    assert!(!a.log_live);
    assert_eq!(a.mode, Mode::Normal);
}

#[test]
fn background_messages() {
    let mut a = app();
    let effects = a.handle_bg(action_finished(Action::Restart, "alpha.service".to_string(), Ok(String::new())));
    assert_eq!(a.status_message, Some("Restart alpha.service succeeded".to_string()));
    assert_eq!(effects, vec![Effect::RefreshUnits { scope: Scope::User }, status("alpha.service")]);
    assert_eq!(a.status_bar_text(), " Restart alpha.service succeeded");
    a.handle_bg(action_finished(Action::Stop, "x".to_string(), Err("denied".to_string())));
    assert_eq!(a.status_message, Some("Error: denied".to_string()));
    for _ in 0..12 {
        a.on_tick();
    }
    assert!(a.status_message.is_some());
    a.on_tick();
    assert!(a.status_message.is_none());
    a.units.selected = 3;
    a.handle_bg(BgMsg::Units(vec![raw("one.service", "active")]));
    assert_eq!(a.units.entries.len(), 1);
    assert_eq!(a.units.selected, 0);
    assert_eq!(a.visible_indices, vec![0]);
}

#[test]
fn scope_switch_in_two_steps() {
    let mut a = app();
    let (_, effects) = a.apply(AppAction::SwitchScope);
    assert_eq!(effects, vec![Effect::SwitchScope { scope: Scope::System }]);
    let effects = a.finish_scope_switch(Ok(vec![raw("sys.service", "active")]));
    assert_eq!(a.units.scope, Scope::System);
    assert!(a.loading);
    assert_eq!(
        effects,
        vec![
            Effect::RefreshUnits { scope: Scope::System },
            Effect::RefreshStatus { name: "sys.service".to_string(), scope: Scope::System },
        ]
    );
    assert!(a.status_bar_text().starts_with(" ⟳"));
}

#[test]
fn auto_refresh_ticks() {
    let mut config = Config::default();
    config.display.auto_refresh_secs = 1;
    let mut a = App::new(config, Scope::User, Ok(sample()));
    for _ in 0..3 {
        assert!(a.on_tick().is_empty());
    }
    assert_eq!(a.on_tick(), vec![Effect::RefreshUnits { scope: Scope::User }]);
    assert_eq!(a.refresh_ticks, 0);
}

#[test]
fn menu_down_wraps_after_every_action() {
    let mut a = app();
    a.apply(AppAction::OpenActionMenu);
    a.apply(AppAction::ActionDown);
    a.apply(AppAction::ActionDown);
    let start = a.action_menu_selected;
    for _ in 0..Action::all().len() {
        a.apply(AppAction::ActionDown);
    }
    assert_eq!(a.action_menu_selected, start);
    a.apply(AppAction::ActionDown);
    a.apply(AppAction::ActionUp);
    assert_eq!(a.action_menu_selected, start);
}

#[test]
fn closing_returns_to_normal() {
    for (open, close) in [
        (AppAction::OpenHelp, AppAction::HelpClose),
        (AppAction::OpenUnitFile, AppAction::UnitFileClose),
        (AppAction::OpenLogs, AppAction::LogClose),
        (AppAction::OpenActionMenu, AppAction::ActionCancel),
        (AppAction::OpenFilter, AppAction::FilterConfirm),
    ] {
        let mut a = app();
        a.apply(open);
        assert_ne!(a.mode, Mode::Normal);
        let (quit, _) = a.apply(close);
        assert!(!quit);
        assert_eq!(a.mode, Mode::Normal);
    }
}

#[test]
fn unit_file_view() {
    let mut a = app();
    let (_, effects) = a.apply(AppAction::OpenUnitFile);
    assert_eq!(effects, vec![Effect::RefreshUnitFile { name: "alpha.service".to_string(), scope: Scope::User }]);
    assert_eq!(a.mode, Mode::UnitFile);
    a.apply(AppAction::UnitFileScrollDown);
    assert_eq!(a.unit_file_scroll, 0);
    a.handle_bg(BgMsg::UnitFile(vec!["[Unit]".to_string(), "A=b".to_string()]));
    a.apply(AppAction::UnitFileScrollDown);
    assert_eq!(a.unit_file_scroll, 1);
    a.apply(AppAction::UnitFileScrollUp);
    assert_eq!(a.unit_file_scroll, 0);
    a.handle_bg(BgMsg::Status("running".to_string()));
    assert_eq!(a.status_cache, "running");
}

#[test]
fn refresh_sets_loading() {
    let mut a = app();
    let (_, effects) = a.apply(AppAction::Refresh);
    assert!(a.loading);
    assert_eq!(effects, vec![Effect::RefreshUnits { scope: Scope::User }, status("alpha.service")]);
    a.handle_bg(BgMsg::Units(sample()));
    assert!(!a.loading);
}
