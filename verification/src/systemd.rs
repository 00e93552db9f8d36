//! What the library knows of systemd: scopes, unit actions, the commands
//! that list, inspect and act on units, and the parsing of their output.
//! Running the commands is left to the caller.

use vstd::prelude::*;
use vstd::string::*;
use crate::text::{decimal, push_decimal, trim, trim_string, chars_of, join_from, join_words, lemma_words_nonempty, lines_of, split_words, string_from_chars, text_lines, words};

verus! {

/// Which systemd instance is managed.
#[derive(Debug, Clone, Copy, PartialEq, Eq, Structural)]
pub enum Scope {
    User,
    System,
}

impl Scope {
    /// The `systemctl` flag that selects this scope.
    pub fn flag(&self) -> (r: &'static str)
        ensures
            r@ == scope_flag(*self),
    {
        match self {
            Scope::User => "--user",
            Scope::System => "--system",
        }
    }

    /// The label shown in the list title.
    pub fn label(&self) -> (r: &'static str)
        ensures
            r@ == scope_label(*self),
    {
        match self {
            Scope::User => "USER",
            Scope::System => "SYSTEM",
        }
    }

    /// The other scope.
    pub fn toggled(&self) -> (r: Scope)
        ensures
            r == self.spec_toggled(),
    {
        match self {
            Scope::User => Scope::System,
            Scope::System => Scope::User,
        }
    }

    pub open spec fn spec_toggled(self) -> Scope {
        match self {
            Scope::User => Scope::System,
            Scope::System => Scope::User,
        }
    }
}

/// The label `Scope::label` returns.
pub open spec fn scope_label(s: Scope) -> Seq<char> {
    match s {
        Scope::User => "USER"@,
        Scope::System => "SYSTEM"@,
    }
}

/// The flag `Scope::flag` returns.
pub open spec fn scope_flag(s: Scope) -> Seq<char> {
    match s {
        Scope::User => "--user"@,
        Scope::System => "--system"@,
    }
}

/// Toggling the scope twice gives the scope back.
pub proof fn lemma_toggle_involutive(s: Scope)
    ensures
        s.spec_toggled().spec_toggled() == s,
        s.spec_toggled() != s,
{
}

/// An operation on a unit.
#[derive(Debug, Clone, Copy, PartialEq, Eq, Structural)]
pub enum Action {
    Start,
    Stop,
    Restart,
    Enable,
    Disable,
    Reload,
    Mask,
    Unmask,
}

/// The actions in menu order.
pub open spec fn all_actions() -> Seq<Action> {
    seq![
        Action::Start,
        Action::Stop,
        Action::Restart,
        Action::Enable,
        Action::Disable,
        Action::Reload,
        Action::Mask,
        Action::Unmask,
    ]
}

/// The number of actions in the menu.
pub const ACTION_COUNT: usize = 8;

impl Action {
    /// Every action, in the order of the action menu.
    pub fn all() -> (r: Vec<Action>)
        ensures
            r@ == all_actions(),
            r@.len() == ACTION_COUNT,
    {
        let r = vec![
            Action::Start,
            Action::Stop,
            Action::Restart,
            Action::Enable,
            Action::Disable,
            Action::Reload,
            Action::Mask,
            Action::Unmask,
        ];
        assert(r@ =~= all_actions());
        r
    }

    /// The action at position `i` of the menu.
    pub fn at(i: usize) -> (r: Action)
        requires
            i < ACTION_COUNT,
        ensures
            r == all_actions()[i as int],
    {
        let all = Action::all();
        all[i]
    }

    /// The menu label.
    pub fn label(&self) -> (r: &'static str)
        ensures
            r@ == action_label(*self),
    {
        match self {
            Action::Start => "Start",
            Action::Stop => "Stop",
            Action::Restart => "Restart",
            Action::Enable => "Enable",
            Action::Disable => "Disable",
            Action::Reload => "Reload",
            Action::Mask => "Mask",
            Action::Unmask => "Unmask",
        }
    }

    /// The `systemctl` verb that performs the action.
    pub fn systemctl_verb(&self) -> (r: &'static str)
        ensures
            r@ == action_verb(*self),
    {
        match self {
            Action::Start => "start",
            Action::Stop => "stop",
            Action::Restart => "restart",
            Action::Enable => "enable",
            Action::Disable => "disable",
            Action::Reload => "reload",
            Action::Mask => "mask",
            Action::Unmask => "unmask",
        }
    }

    /// Whether the action changes unit files, which needs privilege on the
    /// system instance.
    pub fn needs_privilege(&self) -> (r: bool)
        ensures
            r == self.spec_needs_privilege(),
    {
        match self {
            Action::Enable | Action::Disable | Action::Mask | Action::Unmask => true,
            _ => false,
        }
    }

    /// Whether the action takes a unit down or keeps it from starting, so
    /// that it is confirmed before it runs.
    pub fn is_destructive(&self) -> (r: bool)
        ensures
            r == self.spec_destructive(),
    {
        match self {
            Action::Stop | Action::Restart | Action::Disable | Action::Mask => true,
            _ => false,
        }
    }

    pub open spec fn spec_destructive(self) -> bool {
        self == Action::Stop || self == Action::Restart || self == Action::Disable || self
            == Action::Mask
    }
}

/// The label `Action::label` returns.
pub open spec fn action_label(a: Action) -> Seq<char> {
    match a {
        Action::Start => "Start"@,
        Action::Stop => "Stop"@,
        Action::Restart => "Restart"@,
        Action::Enable => "Enable"@,
        Action::Disable => "Disable"@,
        Action::Reload => "Reload"@,
        Action::Mask => "Mask"@,
        Action::Unmask => "Unmask"@,
    }
}

/// The verb `Action::systemctl_verb` returns.
pub open spec fn action_verb(a: Action) -> Seq<char> {
    match a {
        Action::Start => "start"@,
        Action::Stop => "stop"@,
        Action::Restart => "restart"@,
        Action::Enable => "enable"@,
        Action::Disable => "disable"@,
        Action::Reload => "reload"@,
        Action::Mask => "mask"@,
        Action::Unmask => "unmask"@,
    }
}

/// One row of `systemctl list-units`.
#[derive(Debug, Clone)]
pub struct RawUnit {
    pub unit: String,
    pub load: String,
    pub active: String,
    pub sub: String,
    pub description: String,
}

/// The text of a `RawUnit`.
pub struct RawUnitView {
    pub unit: Seq<char>,
    pub load: Seq<char>,
    pub active: Seq<char>,
    pub sub: Seq<char>,
    pub description: Seq<char>,
}

impl View for RawUnit {
    type V = RawUnitView;

    open spec fn view(&self) -> RawUnitView {
        RawUnitView {
            unit: self.unit@,
            load: self.load@,
            active: self.active@,
            sub: self.sub@,
            description: self.description@,
        }
    }
}

/// `char::is_ascii_punctuation`.
pub open spec fn is_ascii_punct(c: char) -> bool {
    ('!' <= c && c <= '/') || (':' <= c && c <= '@') || ('[' <= c && c <= '`') || ('{' <= c
        && c <= '~')
}

/// The bullet that `systemctl` puts before some rows: a word of one
/// character, `●` or an ASCII punctuation mark such as `*`. A longer word,
/// such as the root mount `-.mount`, is a unit name.
pub open spec fn is_marker_word(w: Seq<char>) -> bool {
    w.len() == 1 && (w[0] == '●' || is_ascii_punct(w[0]))
}

/// The unit that a row of `systemctl list-units --plain` describes.
/// Columns are separated by whitespace: UNIT LOAD ACTIVE SUB DESCRIPTION,
/// where the description is the remaining words joined by single spaces.
/// A first word that is a bullet (see `is_marker_word`) stands before the
/// columns and is skipped.
pub open spec fn spec_parse_unit_line(line: Seq<char>) -> Option<RawUnitView> {
    let w = words(line);
    if w.len() == 0 {
        None
    } else if is_marker_word(w[0]) {
        if w.len() < 5 {
            None
        } else {
            Some(
                RawUnitView {
                    unit: w[1],
                    load: w[2],
                    active: w[3],
                    sub: w[4],
                    description: join_words(w.skip(5)),
                },
            )
        }
    } else if w.len() < 4 {
        None
    } else {
        Some(
            RawUnitView {
                unit: w[0],
                load: w[1],
                active: w[2],
                sub: w[3],
                description: join_words(w.skip(4)),
            },
        )
    }
}

/// The view of an optional row.
pub open spec fn opt_raw_view(r: Option<RawUnit>) -> Option<RawUnitView> {
    match r {
        Some(u) => Some(u@),
        None => None,
    }
}

fn is_ascii_punctuation(c: char) -> (r: bool)
    ensures
        r == is_ascii_punct(c),
{
    ('!' <= c && c <= '/') || (':' <= c && c <= '@') || ('[' <= c && c <= '`') || ('{' <= c
        && c <= '~')
}

/// Parses one row of `systemctl list-units --plain`.
pub fn parse_unit_line(line: &str) -> (r: Option<RawUnit>)
    ensures
        opt_raw_view(r) == spec_parse_unit_line(line@),
{
    let cs = chars_of(line);
    let w = split_words(&cs);
    let ghost ws = w@.map_values(|x: Vec<char>| x@);
    proof {
        lemma_words_nonempty(line@);
    }
    if w.len() == 0 {
        return None;
    }
    assert(ws[0] == w@[0]@);
    assert(w@[0]@.len() > 0);
    let first = w[0][0];
    let marker = w[0].len() == 1 && (first == '●' || is_ascii_punctuation(first));
    let (unit_at, load_at, active_at, sub_at, desc_at) = if marker {
        (1usize, 2usize, 3usize, 4usize, 5usize)
    } else {
        (0usize, 1usize, 2usize, 3usize, 4usize)
    };
    if w.len() < desc_at {
        return None;
    }
    let unit = string_from_chars(w[unit_at].as_slice());
    let load = string_from_chars(w[load_at].as_slice());
    let active = string_from_chars(w[active_at].as_slice());
    let sub = string_from_chars(w[sub_at].as_slice());
    let description = join_from(&w, desc_at);
    Some(RawUnit { unit, load, active, sub, description })
}

/// The rows that parse, in order.
pub open spec fn parse_rows(lines: Seq<Seq<char>>) -> Seq<RawUnitView>
    decreases lines.len(),
{
    if lines.len() == 0 {
        seq![]
    } else {
        let rest = parse_rows(lines.drop_last());
        match spec_parse_unit_line(lines.last()) {
            Some(u) => rest.push(u),
            None => rest,
        }
    }
}

/// Parses the whole output of `systemctl list-units --plain`: each line that
/// parses gives a unit, in order; the others are skipped.
pub fn parse_unit_list(stdout: &str) -> (r: Vec<RawUnit>)
    ensures
        r@.map_values(|u: RawUnit| u@) == parse_rows(text_lines(stdout@)),
{
    let lines = lines_of(stdout);
    let ghost ls = lines@.map_values(|l: String| l@);
    let mut out: Vec<RawUnit> = Vec::new();
    let mut i: usize = 0;
    while i < lines.len()
        invariant
            i <= lines@.len(),
            ls == lines@.map_values(|l: String| l@),
            out@.map_values(|u: RawUnit| u@) == parse_rows(ls.take(i as int)),
        decreases lines@.len() - i,
    {
        let ghost before = out@.map_values(|u: RawUnit| u@);
        assert(ls.take(i + 1).drop_last() =~= ls.take(i as int));
        assert(ls.take(i + 1).last() == lines@[i as int]@);
        match parse_unit_line(lines[i].as_str()) {
            Some(u) => {
                out.push(u);
                assert(out@.map_values(|u: RawUnit| u@) =~= before.push(u@));
            },
            None => {},
        }
        i = i + 1;
    }
    assert(ls.take(lines@.len() as int) =~= ls);
    out
}

} // verus!

verus! {

/// A program to run and its arguments.
#[derive(Debug, Clone)]
pub struct SysCommand {
    pub program: String,
    pub args: Vec<String>,
}

/// The arguments of a command, as text.
pub open spec fn args_view(c: SysCommand) -> Seq<Seq<char>> {
    c.args@.map_values(|a: String| a@)
}

fn owned(s: &str) -> (r: String)
    ensures
        r@ == s@,
{
    String::from_str(s)
}

fn command(program: &str, args: Vec<String>) -> (r: SysCommand)
    ensures
        r.program@ == program@,
        r.args@ == args@,
{
    SysCommand { program: owned(program), args }
}

/// `systemctl list-units --all --no-pager --no-legend --plain <scope flag>`.
pub fn list_units_command(scope: Scope) -> (r: SysCommand)
    ensures
        r.program@ == "systemctl"@,
        args_view(r) == seq![
            "list-units"@,
            "--all"@,
            "--no-pager"@,
            "--no-legend"@,
            "--plain"@,
            scope_flag(scope),
        ],
{
    let args = vec![
        owned("list-units"),
        owned("--all"),
        owned("--no-pager"),
        owned("--no-legend"),
        owned("--plain"),
        owned(scope.flag()),
    ];
    let r = command("systemctl", args);
    assert(args_view(r) =~= seq![
        "list-units"@,
        "--all"@,
        "--no-pager"@,
        "--no-legend"@,
        "--plain"@,
        scope_flag(scope),
    ]);
    r
}

/// `systemctl status --no-pager -l <scope flag> <name>`.
pub fn unit_status_command(name: &str, scope: Scope) -> (r: SysCommand)
    ensures
        r.program@ == "systemctl"@,
        args_view(r) == seq!["status"@, "--no-pager"@, "-l"@, scope_flag(scope), name@],
{
    let args = vec![
        owned("status"),
        owned("--no-pager"),
        owned("-l"),
        owned(scope.flag()),
        owned(name),
    ];
    let r = command("systemctl", args);
    assert(args_view(r) =~= seq!["status"@, "--no-pager"@, "-l"@, scope_flag(scope), name@]);
    r
}

/// `systemctl cat --no-pager <scope flag> <name>`: the unit file.
pub fn unit_file_command(name: &str, scope: Scope) -> (r: SysCommand)
    ensures
        r.program@ == "systemctl"@,
        args_view(r) == seq!["cat"@, "--no-pager"@, scope_flag(scope), name@],
{
    let args = vec![owned("cat"), owned("--no-pager"), owned(scope.flag()), owned(name)];
    let r = command("systemctl", args);
    assert(args_view(r) =~= seq!["cat"@, "--no-pager"@, scope_flag(scope), name@]);
    r
}

/// `journalctl -u <name> -n <lines> --no-pager --output=short-iso`, with
/// `--user` added for the user instance.
pub fn journal_command(name: &str, scope: Scope, lines: usize) -> (r: SysCommand)
    ensures
        r.program@ == "journalctl"@,
        args_view(r) == {
            let base = seq![
                "-u"@,
                name@,
                "-n"@,
                decimal(lines as nat),
                "--no-pager"@,
                "--output=short-iso"@,
            ];
            if scope == Scope::User {
                base.push("--user"@)
            } else {
                base
            }
        },
{
    let mut count = String::new();
    push_decimal(&mut count, lines);
    assert(count@ =~= decimal(lines as nat));
    let mut args = vec![
        owned("-u"),
        owned(name),
        owned("-n"),
        count,
        owned("--no-pager"),
        owned("--output=short-iso"),
    ];
    let ghost base = args@.map_values(|a: String| a@);
    if scope == Scope::User {
        args.push(owned("--user"));
        assert(args@.map_values(|a: String| a@) =~= base.push("--user"@));
    }
    let r = command("journalctl", args);
    assert(base =~= seq![
        "-u"@,
        name@,
        "-n"@,
        decimal(lines as nat),
        "--no-pager"@,
        "--output=short-iso"@,
    ]);
    r
}

/// The command that performs `action` on unit `name`: through `pkexec`
/// when the action needs privilege on the system instance, else plain
/// `systemctl <verb> <scope flag> <name>`.
pub fn action_command(action: Action, name: &str, scope: Scope) -> (r: SysCommand)
    ensures
        (action.spec_needs_privilege() && scope == Scope::System) ==> r.program@ == "pkexec"@
            && args_view(r) == seq!["systemctl"@, action_verb(action), "--system"@, name@],
        !(action.spec_needs_privilege() && scope == Scope::System) ==> r.program@
            == "systemctl"@ && args_view(r) == seq![action_verb(action), scope_flag(scope), name@],
{
    let verb = action.systemctl_verb();
    if action.needs_privilege() && scope == Scope::System {
        let args = vec![owned("systemctl"), owned(verb), owned("--system"), owned(name)];
        let r = command("pkexec", args);
        assert(args_view(r) =~= seq!["systemctl"@, action_verb(action), "--system"@, name@]);
        r
    } else {
        let args = vec![owned(verb), owned(scope.flag()), owned(name)];
        let r = command("systemctl", args);
        assert(args_view(r) =~= seq![action_verb(action), scope_flag(scope), name@]);
        r
    }
}

impl Action {
    pub open spec fn spec_needs_privilege(self) -> bool {
        self == Action::Enable || self == Action::Disable || self == Action::Mask || self
            == Action::Unmask
    }
}

/// What a finished action command reports: its standard output when it
/// succeeded; else its standard error, or its standard output when the
/// error stream is empty, trimmed.
pub fn action_outcome(success: bool, stdout: String, stderr: String) -> (r: Result<String, String>)
    ensures
        success ==> (r matches Ok(o) && o@ == stdout@),
        !success ==> (r matches Err(e) && e@ == trim(
            if stderr@.len() == 0 {
                stdout@
            } else {
                stderr@
            },
        )),
{
    if success {
        Ok(stdout)
    } else {
        let msg = if stderr.as_str().is_empty() {
            stdout
        } else {
            stderr
        };
        Err(trim_string(msg.as_str()))
    }
}

/// The lines of a command's output (`journalctl`, `systemctl cat`).
pub fn output_lines(stdout: &str) -> (r: Vec<String>)
    ensures
        r@.map_values(|l: String| l@) == text_lines(stdout@),
{
    lines_of(stdout)
}

} // verus!

verus! {

/// The actions that change unit files, and only those, need privilege: on
/// the system instance enable, disable, mask and unmask run through
/// `pkexec`; start, stop, restart and reload never do.
pub proof fn lemma_privileged_actions(a: Action)
    ensures
        a.spec_needs_privilege() <==> (a == Action::Enable || a == Action::Disable || a
            == Action::Mask || a == Action::Unmask),
        a.spec_needs_privilege() <==> (action_verb(a) == "enable"@ || action_verb(a)
            == "disable"@ || action_verb(a) == "mask"@ || action_verb(a) == "unmask"@),
{
    reveal_strlit("enable");
    reveal_strlit("disable");
    reveal_strlit("mask");
    reveal_strlit("unmask");
    reveal_strlit("start");
    reveal_strlit("stop");
    reveal_strlit("restart");
    reveal_strlit("reload");
    assert("start"@[0] != "enable"@[0] && "start"@.len() != "disable"@.len());
    assert("start"@.len() != "mask"@.len() && "start"@.len() != "unmask"@.len());
    assert("stop"@.len() != "enable"@.len() && "stop"@.len() != "disable"@.len());
    assert("stop"@[0] != "mask"@[0] && "stop"@.len() != "unmask"@.len());
    assert("restart"@.len() != "enable"@.len() && "restart"@[0] != "disable"@[0]);
    assert("restart"@.len() != "mask"@.len() && "restart"@.len() != "unmask"@.len());
    assert("reload"@[0] != "enable"@[0] && "reload"@.len() != "disable"@.len());
    assert("reload"@.len() != "mask"@.len() && "reload"@[0] != "unmask"@[0]);
}

/// A destructive action is one that stops a unit or keeps it from
/// starting: stop, restart, disable and mask.
pub proof fn lemma_destructive_actions(a: Action)
    ensures
        a.spec_destructive() <==> (a == Action::Stop || a == Action::Restart || a == Action::Disable
            || a == Action::Mask),
{
}

} // verus!

verus! {

/// A row whose first word is longer than one character starts with its
/// unit name, even when that name starts with punctuation (`-.mount`); a
/// row that starts with a one-character bullet has the unit second.
pub proof fn lemma_unit_column(line: Seq<char>)
    ensures
        ({
            let w = words(line);
            &&& (w.len() >= 4 && w[0].len() > 1) ==> (spec_parse_unit_line(line) matches Some(u)
                && u.unit == w[0] && u.load == w[1] && u.active == w[2] && u.sub == w[3])
            &&& (w.len() >= 5 && w[0] == seq!['●']) ==> (spec_parse_unit_line(line) matches Some(u)
                && u.unit == w[1] && u.load == w[2] && u.active == w[3] && u.sub == w[4])
        }),
{
}

} // verus!
