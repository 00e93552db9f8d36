use sysdx::app::App;
use sysdx::config::Config;
use sysdx::systemd::{RawUnit, Scope};
use sysdx::theme::Color;
use sysdx::units::UnitEntry;
use sysdx::view::{classify_unit_file_line, indicator_color, list_width_pct, pad_right, row_text, UnitFileLine};

fn raw(unit: &str) -> RawUnit {
    RawUnit {
        unit: unit.to_string(),
        load: "loaded".to_string(),
        active: "active".to_string(),
        sub: "running".to_string(),
        description: "Desc".to_string(),
    }
}

#[test]
fn padding_and_rows() {
    assert_eq!(pad_right("ab", 5), "ab   ");
    assert_eq!(pad_right("abcdef", 3), "abcdef");
    let e = UnitEntry::from_raw(raw("a.service"));
    assert_eq!(row_text(&e, true), format!("{:<35} {}", "a.service", "Desc"));
    assert_eq!(row_text(&e, false), "a.service");
}

#[test]
fn widths() {
    assert_eq!(list_width_pct(5), 20);
    assert_eq!(list_width_pct(40), 40);
    assert_eq!(list_width_pct(90), 70);
}

#[test]
fn unit_file_lines() {
    assert!(matches!(classify_unit_file_line("[Service]"), UnitFileLine::Section(s) if s == "[Service]"));
    match classify_unit_file_line("ExecStart=/bin/a b=c") {
        UnitFileLine::Setting { key, value } => {
            assert_eq!(key, "ExecStart");
            assert_eq!(value, "/bin/a b=c");
        }
        _ => panic!("not a setting"),
    }
    assert!(matches!(classify_unit_file_line("# comment"), UnitFileLine::Other(s) if s == "# comment"));
}

#[test]
fn titles_and_colours() {
    let a = App::new(Config::default(), Scope::User, Ok(vec![raw("a.service"), raw("b.service")]));
    assert_eq!(a.list_title(), " sysdx [USER] (2/2) ");
    assert_eq!(a.log_title(), " Logs: a.service (f live-tail  q/esc close) ");
    assert_eq!(a.unit_file_title(), " Unit File: a.service (q/esc to close) ");
    assert_eq!(a.status_bar_color(), Color::Gray);
    assert_eq!(indicator_color(&a.theme, "failed"), Color::Red);
    assert_eq!(indicator_color(&a.theme, "reloading"), Color::Gray);
}
