use sysdx::systemd::{
    action_command, action_outcome, journal_command, list_units_command, output_lines,
    parse_unit_line, parse_unit_list, unit_file_command, unit_status_command, Action, Scope,
};

#[test]
fn parses_plain_row() {
    let u = parse_unit_line("cron.service  loaded active running Regular background program processing daemon").unwrap();
    assert_eq!(u.unit, "cron.service");
    assert_eq!(u.load, "loaded");
    assert_eq!(u.active, "active");
    assert_eq!(u.sub, "running");
    assert_eq!(u.description, "Regular background program processing daemon");
}

#[test]
fn parses_marked_row() {
    let u = parse_unit_line("● foo.service loaded failed failed Foo Daemon").unwrap();
    assert_eq!(u.unit, "foo.service");
    assert_eq!(u.load, "loaded");
    assert_eq!(u.active, "failed");
    assert_eq!(u.sub, "failed");
    assert_eq!(u.description, "Foo Daemon");
    // A single punctuation mark is a bullet too.
    let u = parse_unit_line("* bar.socket loaded active listening Bar").unwrap();
    assert_eq!(u.unit, "bar.socket");
    assert_eq!(u.description, "Bar");
    // The root mount's name starts with punctuation but is a unit.
    let u = parse_unit_line("-.mount loaded active mounted Root Mount").unwrap();
    assert_eq!(u.unit, "-.mount");
    assert_eq!(u.load, "loaded");
    assert_eq!(u.active, "active");
    assert_eq!(u.sub, "mounted");
    assert_eq!(u.description, "Root Mount");
}

#[test]
fn rejects_short_rows() {
    assert!(parse_unit_line("").is_none());
    assert!(parse_unit_line("   ").is_none());
    assert!(parse_unit_line("a b c").is_none());
    assert!(parse_unit_line("● a b c").is_none());
    let u = parse_unit_line("a b c d").unwrap();
    assert_eq!(u.description, "");
}

#[test]
fn parses_listing() {
    let out = "a.service loaded active running A\n\nb.socket loaded inactive dead B  B\r\nbroken\n";
    let units = parse_unit_list(out);
    assert_eq!(units.len(), 2);
    assert_eq!(units[0].unit, "a.service");
    assert_eq!(units[1].unit, "b.socket");
    assert_eq!(units[1].description, "B B");
}

#[test]
fn output_lines_like_str_lines() {
    let text = "foo\nbar\n\r\nbaz\r";
    let expected: Vec<String> = text.lines().map(|l| l.to_string()).collect();
    assert_eq!(output_lines(text), expected);
    assert_eq!(output_lines(""), Vec::<String>::new());
    assert_eq!(output_lines("x\n"), vec!["x".to_string()]);
}

#[test]
fn scope_flags_and_labels() {
    assert_eq!(Scope::User.flag(), "--user");
    assert_eq!(Scope::System.flag(), "--system");
    assert_eq!(Scope::User.label(), "USER");
    assert_eq!(Scope::System.label(), "SYSTEM");
    assert_eq!(Scope::User.toggled(), Scope::System);
    assert_eq!(Scope::System.toggled().toggled(), Scope::System);
}

#[test]
fn actions_in_menu_order() {
    let labels: Vec<&str> = Action::all().iter().map(|a| a.label()).collect();
    assert_eq!(
        labels,
        vec!["Start", "Stop", "Restart", "Enable", "Disable", "Reload", "Mask", "Unmask"]
    );
    assert_eq!(Action::Reload.systemctl_verb(), "reload");
    assert!(Action::Mask.needs_privilege());
    assert!(!Action::Start.needs_privilege());
    assert!(Action::Stop.is_destructive());
    assert!(!Action::Start.is_destructive());
}

#[test]
fn commands() {
    let c = list_units_command(Scope::User);
    assert_eq!(c.program, "systemctl");
    assert_eq!(c.args, vec!["list-units", "--all", "--no-pager", "--no-legend", "--plain", "--user"]);
    let c = unit_status_command("a.service", Scope::System);
    assert_eq!(c.args, vec!["status", "--no-pager", "-l", "--system", "a.service"]);
    let c = unit_file_command("a.service", Scope::User);
    assert_eq!(c.args, vec!["cat", "--no-pager", "--user", "a.service"]);
    let c = journal_command("a.service", Scope::User, 50);
    assert_eq!(c.program, "journalctl");
    assert_eq!(c.args, vec!["-u", "a.service", "-n", "50", "--no-pager", "--output=short-iso", "--user"]);
    let c = journal_command("a.service", Scope::System, 1234);
    assert_eq!(c.args, vec!["-u", "a.service", "-n", "1234", "--no-pager", "--output=short-iso"]);
}

#[test]
fn privileged_actions_use_pkexec_on_system() {
    let c = action_command(Action::Enable, "a.service", Scope::System);
    assert_eq!(c.program, "pkexec");
    assert_eq!(c.args, vec!["systemctl", "enable", "--system", "a.service"]);
    let c = action_command(Action::Enable, "a.service", Scope::User);
    assert_eq!(c.program, "systemctl");
    assert_eq!(c.args, vec!["enable", "--user", "a.service"]);
    let c = action_command(Action::Restart, "a.service", Scope::System);
    assert_eq!(c.program, "systemctl");
    assert_eq!(c.args, vec!["restart", "--system", "a.service"]);
}

#[test]
fn action_outcomes() {
    assert_eq!(action_outcome(true, "out".to_string(), "err".to_string()), Ok("out".to_string()));
    assert_eq!(action_outcome(false, "out".to_string(), "  bad \n".to_string()), Err("bad".to_string()));
    assert_eq!(action_outcome(false, " only out\n".to_string(), String::new()), Err("only out".to_string()));
}
