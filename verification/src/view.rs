//! What the screen shows, apart from the drawing itself: titles, row
//! texts, the colour of each part and the reading of unit-file lines.

use vstd::prelude::*;
use crate::app::{App, AppView};
use crate::text::{chars_of, chars_from, push_char, push_decimal, push_str, decimal, string_from_chars, str_eq};
use crate::theme::{Color, Theme};
use crate::units::{UnitEntry, UnitEntryView};

verus! {

/// `s` followed by spaces up to `width` characters (`format!("{:<w$}")`).
pub open spec fn padded(s: Seq<char>, width: nat) -> Seq<char> {
    if s.len() >= width {
        s
    } else {
        s + Seq::new((width - s.len()) as nat, |i: int| ' ')
    }
}

/// `s` left-aligned in a field of `width` characters.
pub fn pad_right(s: &str, width: usize) -> (r: String)
    ensures
        r@ == padded(s@, width as nat),
{
    let n = s.unicode_len();
    let mut r = String::new();
    push_str(&mut r, s);
    let mut k = n;
    while k < width
        invariant
            n == s@.len(),
            n <= k <= width || (n >= width && k == n),
            r@ == s@ + Seq::new((k - n) as nat, |i: int| ' '),
        decreases width - k,
    {
        push_char(&mut r, ' ');
        k = k + 1;
        assert(r@ =~= s@ + Seq::new((k - n) as nat, |i: int| ' '));
    }
    assert(r@ =~= padded(s@, width as nat));
    r
}

/// The share of the width given to the unit list, kept between 20 and 70
/// per cent.
pub fn list_width_pct(configured: u16) -> (r: u16)
    ensures
        r == if configured < 20 {
            20
        } else if configured > 70 {
            70
        } else {
            configured
        },
{
    if configured < 20 {
        20
    } else if configured > 70 {
        70
    } else {
        configured
    }
}

/// The text of a row of the unit list: the name, padded to 35 characters
/// and followed by the description when descriptions are shown and there
/// is one.
pub open spec fn row_label(e: UnitEntryView, show_description: bool) -> Seq<char> {
    if show_description && e.description.len() > 0 {
        padded(e.name, 35) + " "@ + e.description
    } else {
        e.name
    }
}

/// The text of a row of the unit list.
pub fn row_text(e: &UnitEntry, show_description: bool) -> (r: String)
    ensures
        r@ == row_label(e@, show_description),
{
    if show_description && !e.description.as_str().is_empty() {
        let mut r = pad_right(e.name.as_str(), 35);
        push_str(&mut r, " ");
        push_str(&mut r, e.description.as_str());
        r
    } else {
        e.name.clone()
    }
}

/// The colour of the status symbol of a unit: the active colour when it is
/// active, the failed colour when it failed, the inactive colour otherwise.
pub open spec fn indicator_color_of(t: Theme, active_state: Seq<char>) -> Color {
    if active_state == "active"@ {
        t.active
    } else if active_state == "failed"@ {
        t.failed
    } else {
        t.inactive
    }
}

/// The colour of the status symbol of a unit in a given state.
pub fn indicator_color(t: &Theme, active_state: &str) -> (c: Color)
    ensures
        c == indicator_color_of(*t, active_state@),
{
    if str_eq(active_state, "active") {
        t.active
    } else if str_eq(active_state, "failed") {
        t.failed
    } else {
        t.inactive
    }
}

/// The colour of a unit's name: plain text when it is active, dim otherwise.
pub fn name_color(t: &Theme, active_state: &str) -> (c: Color)
    ensures
        c == if active_state@ == "active"@ {
            t.text
        } else {
            t.text_dim
        },
{
    if str_eq(active_state, "active") {
        t.text
    } else {
        t.text_dim
    }
}

/// Whether `s` starts with `p`.
pub open spec fn starts_with(s: Seq<char>, p: Seq<char>) -> bool {
    s.len() >= p.len() && s.take(p.len() as int) == p
}

fn has_prefix(s: &str, p: &str) -> (r: bool)
    ensures
        r == starts_with(s@, p@),
{
    let a = chars_of(s);
    let b = chars_of(p);
    if a.len() < b.len() {
        return false;
    }
    let mut i: usize = 0;
    while i < b.len()
        invariant
            a@ == s@,
            b@ == p@,
            b@.len() <= a@.len(),
            i <= b@.len(),
            forall|k: int| 0 <= k < i ==> a@[k] == b@[k],
        decreases b@.len() - i,
    {
        if a[i] != b[i] {
            assert(a@.take(b@.len() as int)[i as int] != b@[i as int]);
            return false;
        }
        i = i + 1;
    }
    assert(a@.take(b@.len() as int) =~= b@);
    true
}

/// The colour of the status bar: the failed colour for a listing error or
/// a message that starts with `Error`, the active colour for another
/// message, dim text otherwise.
pub open spec fn status_bar_color_of(v: AppView, t: Theme) -> Color {
    if v.last_error is Some || (v.status_message matches Some(m) && starts_with(m, "Error"@)) {
        t.failed
    } else if v.status_message is Some {
        t.active
    } else {
        t.text_dim
    }
}

impl App {
    /// The colour of the status bar.
    pub fn status_bar_color(&self) -> (c: Color)
        ensures
            c == status_bar_color_of(self@, self.theme),
    {
        let is_error = match &self.status_message {
            Some(m) => has_prefix(m.as_str(), "Error"),
            None => false,
        };
        if self.units.last_error.is_some() || is_error {
            self.theme.failed
        } else if self.status_message.is_some() {
            self.theme.active
        } else {
            self.theme.text_dim
        }
    }

    /// The title of the unit list: ` sysdx [SCOPE] (visible/total) `.
    pub fn list_title(&self) -> (r: String)
        ensures
            r@ == " sysdx ["@ + crate::systemd::scope_label(self.units.scope) + "] ("@ + decimal(
                self.visible_indices@.len() as nat,
            ) + "/"@ + decimal(self.units.entries@.len() as nat) + ") "@,
    {
        let mut r = String::new();
        push_str(&mut r, " sysdx [");
        push_str(&mut r, self.units.scope.label());
        push_str(&mut r, "] (");
        push_decimal(&mut r, self.visible_indices.len());
        push_str(&mut r, "/");
        push_decimal(&mut r, self.units.entries.len());
        push_str(&mut r, ") ");
        r
    }

    /// The name of the selected unit, or `fallback` when none is selected.
    pub fn selected_name_or(&self, fallback: &str) -> (r: String)
        ensures
            self.units.selected < self.units.entries@.len() ==> r@
                == self.units.entries@[self.units.selected as int].name@,
            self.units.selected >= self.units.entries@.len() ==> r@ == fallback@,
    {
        if self.units.selected < self.units.entries.len() {
            self.units.entries[self.units.selected].name.clone()
        } else {
            String::from_str(fallback)
        }
    }

    /// The title of the log view: the unit, a mark when following, and
    /// the keys.
    pub fn log_title(&self) -> (r: String)
        ensures
            r@ == " Logs: "@ + (if self.units.selected < self.units.entries@.len() {
                self.units.entries@[self.units.selected as int].name@
            } else {
                "unknown"@
            }) + (if self.log_live {
                " ● LIVE"@
            } else {
                seq![]
            }) + " (f live-tail  q/esc close) "@,
    {
        let name = self.selected_name_or("unknown");
        let mut r = String::new();
        push_str(&mut r, " Logs: ");
        push_str(&mut r, name.as_str());
        if self.log_live {
            push_str(&mut r, " ● LIVE");
        }
        push_str(&mut r, " (f live-tail  q/esc close) ");
        r
    }

    /// The title of the unit-file view.
    pub fn unit_file_title(&self) -> (r: String)
        ensures
            r@ == " Unit File: "@ + (if self.units.selected < self.units.entries@.len() {
                self.units.entries@[self.units.selected as int].name@
            } else {
                "unknown"@
            }) + " (q/esc to close) "@,
    {
        let name = self.selected_name_or("unknown");
        let mut r = String::new();
        push_str(&mut r, " Unit File: ");
        push_str(&mut r, name.as_str());
        push_str(&mut r, " (q/esc to close) ");
        r
    }
}

/// How a line of a unit file is shown.
pub enum UnitFileLine {
    /// A section header such as `[Service]`.
    Section(String),
    /// A `key=value` line, split at the first `=`.
    Setting { key: String, value: String },
    /// Any other line.
    Other(String),
}

/// The index of the first `c` in `s`, or -1.
pub open spec fn first_index_of(s: Seq<char>, c: char) -> int
    decreases s.len(),
{
    if s.len() == 0 {
        -1
    } else if s.last() == c && first_index_of(s.drop_last(), c) == -1 {
        s.len() - 1
    } else {
        first_index_of(s.drop_last(), c)
    }
}

/// Whether a unit-file line is a section header: it starts with `[` and
/// ends with `]`.
pub open spec fn is_section(l: Seq<char>) -> bool {
    l.len() > 0 && l[0] == '[' && l.last() == ']'
}

impl UnitFileLine {
    /// The reading of a unit-file line: a section header, else a setting
    /// split at its first `=`, else another line.
    pub open spec fn reads(self, l: Seq<char>) -> bool {
        if is_section(l) {
            self matches UnitFileLine::Section(s) && s@ == l
        } else if first_index_of(l, '=') >= 0 {
            let i = first_index_of(l, '=');
            self matches UnitFileLine::Setting { key, value } && key@ == l.take(i) && value@
                == l.skip(i + 1)
        } else {
            self matches UnitFileLine::Other(s) && s@ == l
        }
    }
}

proof fn lemma_first_index_of(s: Seq<char>, c: char)
    ensures
        -1 <= first_index_of(s, c) < s.len(),
        first_index_of(s, c) >= 0 ==> s[first_index_of(s, c)] == c,
        forall|k: int| 0 <= k < s.len() && (first_index_of(s, c) == -1 || k < first_index_of(s, c)) ==> s[k] != c,
    decreases s.len(),
{
    if s.len() > 0 {
        let p = s.drop_last();
        lemma_first_index_of(p, c);
        assert forall|k: int| 0 <= k < s.len() && (first_index_of(s, c) == -1 || k < first_index_of(s, c)) implies s[k] != c by {
            if k < p.len() {
                assert(s[k] == p[k]);
            }
        }
    }
}

fn find_first(cs: &Vec<char>, c: char) -> (r: Option<usize>)
    ensures
        r matches Some(i) ==> i == first_index_of(cs@, c) && i < cs@.len(),
        r is None ==> first_index_of(cs@, c) == -1,
{
    proof {
        lemma_first_index_of(cs@, c);
    }
    let mut i: usize = 0;
    while i < cs.len()
        invariant
            i <= cs@.len(),
            forall|k: int| 0 <= k < i ==> cs@[k] != c,
        decreases cs@.len() - i,
    {
        if cs[i] == c {
            proof {
                lemma_first_index_of(cs@, c);
                assert(cs@[i as int] == c);
                if first_index_of(cs@, c) >= 0 && first_index_of(cs@, c) < i {
                    assert(cs@[first_index_of(cs@, c)] != c);
                }
            }
            return Some(i);
        }
        i = i + 1;
    }
    proof {
        if first_index_of(cs@, c) >= 0 {
            assert(cs@[first_index_of(cs@, c)] == c);
        }
    }
    None
}

/// Reads a line of a unit file.
pub fn classify_unit_file_line(l: &str) -> (r: UnitFileLine)
    ensures
        r.reads(l@),
{
    let cs = chars_of(l);
    let n = cs.len();
    if n > 0 && cs[0] == '[' && cs[n - 1] == ']' {
        return UnitFileLine::Section(String::from_str(l));
    }
    match find_first(&cs, '=') {
        Some(i) => {
            let mut head: Vec<char> = Vec::new();
            let mut k: usize = 0;
            while k < i
                invariant
                    k <= i < cs@.len(),
                    head@ == cs@.take(k as int),
                decreases i - k,
            {
                head.push(cs[k]);
                k = k + 1;
                assert(head@ =~= cs@.take(k as int));
            }
            let tail = chars_from(&cs, i + 1);
            UnitFileLine::Setting {
                key: string_from_chars(head.as_slice()),
                value: string_from_chars(tail.as_slice()),
            }
        },
        None => UnitFileLine::Other(String::from_str(l)),
    }
}

} // verus!
