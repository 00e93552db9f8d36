use sysdx::config::{merge_values, ConfigValue, Config};

fn table(entries: Vec<(&str, ConfigValue)>) -> ConfigValue {
    ConfigValue::Table(entries.into_iter().map(|(k, v)| (k.to_string(), v)).collect())
}

fn integer(i: i64) -> ConfigValue {
    ConfigValue::Leaf(toml::Value::Integer(i))
}

fn get<'a>(v: &'a ConfigValue, k: &str) -> Option<&'a ConfigValue> {
    match v {
        ConfigValue::Table(t) => t.iter().find(|(name, _)| name == k).map(|(_, v)| v),
        ConfigValue::Leaf(_) => None,
    }
}

fn leaf(v: Option<&ConfigValue>) -> Option<toml::Value> {
    match v {
        Some(ConfigValue::Leaf(x)) => Some(x.clone()),
        _ => None,
    }
}

#[test]
fn defaults() {
    let c = Config::default();
    assert_eq!(c.display.journal_lines, 50);
    assert_eq!(c.display.tick_rate_ms, 250);
    assert!(c.display.show_description);
    assert_eq!(c.display.list_width_pct, 40);
    assert_eq!(c.display.date_format, "%H:%M:%S");
    assert_eq!(c.keybinds.page_down, "ctrl-d");
    assert_eq!(c.keybinds.action_menu, "enter");
    assert_eq!(c.keybinds.type_filter, "t");
    assert!(c.colors.active.is_none());
}

#[test]
fn merge_keeps_defaults_and_takes_overrides() {
    let base = table(vec![
        ("display", table(vec![("journal_lines", integer(50)), ("tick_rate_ms", integer(250))])),
        ("name", integer(1)),
    ]);
    let over = table(vec![
        ("display", table(vec![("journal_lines", integer(10)), ("extra", integer(7))])),
        ("new", integer(3)),
    ]);
    let merged = merge_values(base, over);
    let display = get(&merged, "display").unwrap();
    assert_eq!(leaf(get(display, "journal_lines")), Some(toml::Value::Integer(10)));
    assert_eq!(leaf(get(display, "tick_rate_ms")), Some(toml::Value::Integer(250)));
    assert_eq!(leaf(get(display, "extra")), Some(toml::Value::Integer(7)));
    assert_eq!(leaf(get(&merged, "name")), Some(toml::Value::Integer(1)));
    assert_eq!(leaf(get(&merged, "new")), Some(toml::Value::Integer(3)));
}

#[test]
fn merge_replaces_when_kinds_differ() {
    let base = table(vec![("display", table(vec![("a", integer(1))]))]);
    let over = table(vec![("display", integer(5))]);
    let merged = merge_values(base, over);
    assert_eq!(leaf(get(&merged, "display")), Some(toml::Value::Integer(5)));
    let merged = merge_values(integer(1), table(vec![("a", integer(2))]));
    assert_eq!(leaf(Some(&merged)), Some(toml::Value::Integer(1)));
}

#[test]
fn parse_and_merge_settings() {
    let defaults = sysdx::config::parse_settings("[display]\njournal_lines = 50\ntick_rate_ms = 250\n[keybinds]\nquit = \"q\"\n").unwrap();
    let merged = sysdx::config::settings_over(defaults, "[display]\njournal_lines = 10\n").unwrap();
    let display = get(&merged, "display").unwrap();
    assert_eq!(leaf(get(display, "journal_lines")), Some(toml::Value::Integer(10)));
    assert_eq!(leaf(get(display, "tick_rate_ms")), Some(toml::Value::Integer(250)));
    let keybinds = get(&merged, "keybinds").unwrap();
    assert_eq!(leaf(get(keybinds, "quit")), Some(toml::Value::String("q".to_string())));
}

#[test]
fn settings_errors() {
    let defaults = table(vec![("a", integer(1))]);
    assert!(sysdx::config::settings_over(defaults, "a = = 3").is_err());
    assert!(sysdx::config::parse_settings("a = 1\na = 2\n").is_err());
    match sysdx::config::parse_settings("").unwrap() {
        ConfigValue::Table(t) => assert!(t.is_empty()),
        ConfigValue::Leaf(_) => panic!("an empty document is a table"),
    }
}
