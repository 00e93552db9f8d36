//! The list of units and the selection in it.

use vstd::prelude::*;
use crate::systemd::{RawUnit, RawUnitView, Scope};
use crate::text::{chars_from, chars_of, last_index_of, rfind_char, str_eq, string_from_chars};

verus! {

/// A unit as the list shows it.
#[derive(Debug, Clone)]
pub struct UnitEntry {
    pub name: String,
    pub description: String,
    pub load_state: String,
    pub active_state: String,
    pub sub_state: String,
    pub unit_type: String,
}

/// The text of a `UnitEntry`.
pub struct UnitEntryView {
    pub name: Seq<char>,
    pub description: Seq<char>,
    pub load_state: Seq<char>,
    pub active_state: Seq<char>,
    pub sub_state: Seq<char>,
    pub unit_type: Seq<char>,
}

impl View for UnitEntry {
    type V = UnitEntryView;

    open spec fn view(&self) -> UnitEntryView {
        UnitEntryView {
            name: self.name@,
            description: self.description@,
            load_state: self.load_state@,
            active_state: self.active_state@,
            sub_state: self.sub_state@,
            unit_type: self.unit_type@,
        }
    }
}

/// The unit type of a unit name: what follows its last `.`, or nothing
/// when the name has no `.`.
pub open spec fn unit_type_of(name: Seq<char>) -> Seq<char> {
    let i = last_index_of(name, '.');
    if i < 0 {
        seq![]
    } else {
        name.skip(i + 1)
    }
}

/// The entry made from a row of `systemctl list-units`.
pub open spec fn entry_of(raw: RawUnitView) -> UnitEntryView {
    UnitEntryView {
        name: raw.unit,
        description: raw.description,
        load_state: raw.load,
        active_state: raw.active,
        sub_state: raw.sub,
        unit_type: unit_type_of(raw.unit),
    }
}

/// The symbol shown before a unit in the given active state.
pub open spec fn indicator_of(active_state: Seq<char>) -> Seq<char> {
    if active_state == "active"@ {
        "●"@
    } else if active_state == "failed"@ {
        "✗"@
    } else if active_state == "inactive"@ {
        "○"@
    } else {
        "·"@
    }
}

impl UnitEntry {
    /// The entry for a row of `systemctl list-units`; its type is the
    /// suffix of the unit name after the last `.`.
    pub fn from_raw(raw: RawUnit) -> (e: UnitEntry)
        ensures
            e@ == entry_of(raw@),
    {
        let cs = chars_of(raw.unit.as_str());
        let _n = cs.len();
        let unit_type = match rfind_char(&cs, '.') {
            Some(i) => {
                let ext = chars_from(&cs, i + 1);
                string_from_chars(ext.as_slice())
            },
            None => String::new(),
        };
        UnitEntry {
            name: raw.unit,
            description: raw.description,
            load_state: raw.load,
            active_state: raw.active,
            sub_state: raw.sub,
            unit_type,
        }
    }

    /// The status symbol: `●` active, `✗` failed, `○` inactive, `·` otherwise.
    pub fn status_indicator(&self) -> (r: &'static str)
        ensures
            r@ == indicator_of(self.active_state@),
    {
        let s = self.active_state.as_str();
        if str_eq(s, "active") {
            "●"
        } else if str_eq(s, "failed") {
            "✗"
        } else if str_eq(s, "inactive") {
            "○"
        } else {
            "·"
        }
    }
}

/// The first position of `x` in `v` at or after `i`.
pub open spec fn pos_from(v: Seq<usize>, x: usize, i: int) -> Option<int>
    decreases v.len() - i,
{
    if i < 0 || i >= v.len() {
        None
    } else if v[i] == x {
        Some(i)
    } else {
        pos_from(v, x, i + 1)
    }
}

/// The first position of `x` in `v` (`iter().position`).
pub open spec fn pos_of(v: Seq<usize>, x: usize) -> Option<int> {
    pos_from(v, x, 0)
}

/// A position found by `pos_of` holds `x`, and none before it does.
pub proof fn lemma_pos_from(v: Seq<usize>, x: usize, i: int)
    requires
        0 <= i,
    ensures
        pos_from(v, x, i) matches Some(p) ==> i <= p < v.len() && v[p] == x && forall|k: int|
            i <= k < p ==> v[k] != x,
        pos_from(v, x, i) is None ==> forall|k: int| i <= k < v.len() ==> v[k] != x,
    decreases v.len() - i,
{
    if i < v.len() && v[i] != x {
        lemma_pos_from(v, x, i + 1);
    }
}

/// The position of `x` in `v`, if any.
pub fn position(v: &[usize], x: usize) -> (r: Option<usize>)
    ensures
        r matches Some(p) ==> pos_of(v@, x) == Some(p as int),
        r is None ==> pos_of(v@, x) is None,
{
    let mut i: usize = 0;
    while i < v.len()
        invariant
            i <= v@.len(),
            pos_of(v@, x) == pos_from(v@, x, i as int),
        decreases v@.len() - i,
    {
        if v[i] == x {
            return Some(i);
        }
        i = i + 1;
    }
    None
}

/// The selection after moving down one row in the visible list.
pub open spec fn moved_down(vis: Seq<usize>, sel: usize) -> usize {
    if vis.len() == 0 {
        sel
    } else {
        match pos_of(vis, sel) {
            Some(p) => if p + 1 < vis.len() {
                vis[p + 1]
            } else {
                sel
            },
            None => vis[0],
        }
    }
}

/// The selection after moving up one row in the visible list.
pub open spec fn moved_up(vis: Seq<usize>, sel: usize) -> usize {
    if vis.len() == 0 {
        sel
    } else {
        match pos_of(vis, sel) {
            Some(p) => if p > 0 {
                vis[p - 1]
            } else {
                sel
            },
            None => vis[0],
        }
    }
}

/// The position a page move starts from: that of the selection, or the top.
pub open spec fn page_start(vis: Seq<usize>, sel: usize) -> int {
    match pos_of(vis, sel) {
        Some(p) => p,
        None => 0,
    }
}

/// The selection after moving `n` rows down, stopping at the last row.
pub open spec fn paged_down(vis: Seq<usize>, sel: usize, n: usize) -> usize {
    if vis.len() == 0 {
        sel
    } else {
        let p = page_start(vis, sel) + n;
        if p < vis.len() - 1 {
            vis[p]
        } else {
            vis[vis.len() - 1]
        }
    }
}

/// The selection after moving `n` rows up, stopping at the first row.
pub open spec fn paged_up(vis: Seq<usize>, sel: usize, n: usize) -> usize {
    if vis.len() == 0 {
        sel
    } else {
        let p = page_start(vis, sel) - n;
        if p > 0 {
            vis[p]
        } else {
            vis[0]
        }
    }
}

/// The units of one scope, the selection among them and the last error
/// met while listing them.
#[derive(Debug)]
pub struct UnitList {
    pub entries: Vec<UnitEntry>,
    pub scope: Scope,
    pub selected: usize,
    pub scroll_offset: usize,
    pub last_error: Option<String>,
}

/// The entries that a listing gives, in order.
pub open spec fn entries_of(raw: Seq<RawUnitView>) -> Seq<UnitEntryView> {
    raw.map_values(|r: RawUnitView| entry_of(r))
}

/// The selection after a new listing of `len` entries: kept when it is in
/// range, moved to the last entry when it is past it.
pub open spec fn clamped_selection(sel: usize, len: nat) -> usize {
    if sel >= len && len > 0 {
        (len - 1) as usize
    } else {
        sel
    }
}

impl UnitList {
    /// The entries as text.
    pub open spec fn entries_view(&self) -> Seq<UnitEntryView> {
        self.entries@.map_values(|e: UnitEntry| e@)
    }

    /// The last error as text.
    pub open spec fn error_view(&self) -> Option<Seq<char>> {
        match self.last_error {
            Some(e) => Some(e@),
            None => None,
        }
    }

    /// An empty list for `scope`, with the first row selected.
    pub fn new(scope: Scope) -> (r: UnitList)
        ensures
            r.entries@.len() == 0,
            r.scope == scope,
            r.selected == 0,
            r.scroll_offset == 0,
            r.last_error is None,
    {
        UnitList { entries: Vec::new(), scope, selected: 0, scroll_offset: 0, last_error: None }
    }

    /// Takes a new listing: the entries are replaced, the error cleared, and
    /// a selection past the end moves to the last entry.
    pub fn apply_units(&mut self, raw: Vec<RawUnit>)
        ensures
            final(self).entries_view() == entries_of(raw@.map_values(|u: RawUnit| u@)),
            final(self).selected == clamped_selection(old(self).selected, raw@.len()),
            final(self).last_error is None,
            final(self).scope == old(self).scope,
            final(self).scroll_offset == old(self).scroll_offset,
    {
        let mut entries: Vec<UnitEntry> = Vec::new();
        let mut raw = raw;
        let ghost rv = raw@.map_values(|u: RawUnit| u@);
        let n = raw.len();
        // Take the rows from the back, then restore their order.
        let mut rev: Vec<UnitEntry> = Vec::new();
        while raw.len() > 0
            invariant
                raw@.len() + rev@.len() == n,
                n == rv.len(),
                raw@.map_values(|u: RawUnit| u@) == rv.take(raw@.len() as int),
                forall|k: int|
                    0 <= k < rev@.len() ==> #[trigger] rev@[k]@ == entry_of(rv[n - 1 - k]),
            decreases raw@.len(),
        {
            let ghost before = raw@;
            let u = raw.pop().unwrap();
            assert(raw@ =~= before.drop_last());
            assert(rv.take((raw@.len() + 1) as int)[raw@.len() as int] == rv[raw@.len() as int]);
            assert(raw@.map_values(|u: RawUnit| u@) =~= rv.take(raw@.len() as int));
            rev.push(UnitEntry::from_raw(u));
        }
        while rev.len() > 0
            invariant
                n == rv.len(),
                rev@.len() + entries@.len() == n,
                forall|k: int|
                    0 <= k < rev@.len() ==> #[trigger] rev@[k]@ == entry_of(rv[n - 1 - k]),
                forall|k: int|
                    0 <= k < entries@.len() ==> #[trigger] entries@[k]@ == entry_of(rv[k]),
            decreases rev@.len(),
        {
            let e = rev.pop().unwrap();
            entries.push(e);
        }
        assert(entries@.map_values(|e: UnitEntry| e@) =~= entries_of(rv));
        self.entries = entries;
        self.last_error = None;
        if self.selected >= self.entries.len() && self.entries.len() > 0 {
            self.selected = self.entries.len() - 1;
        }
    }

    /// Takes the outcome of listing the units: on success as `apply_units`;
    /// on failure the entries and selection stay and the error is kept.
    pub fn refresh(&mut self, listing: Result<Vec<RawUnit>, String>)
        ensures
            listing matches Ok(raw) ==> final(self).entries_view() == entries_of(
                raw@.map_values(|u: RawUnit| u@),
            ) && final(self).selected == clamped_selection(old(self).selected, raw@.len())
                && final(self).last_error is None,
            listing matches Err(e) ==> final(self).entries == old(self).entries
                && final(self).selected == old(self).selected && final(self).last_error == Some(
                e,
            ),
            final(self).scope == old(self).scope,
            final(self).scroll_offset == old(self).scroll_offset,
    {
        match listing {
            Ok(raw) => self.apply_units(raw),
            Err(e) => {
                self.last_error = Some(e);
            },
        }
    }

    /// Moves the selection one visible row down; a selection that is not
    /// visible moves to the first visible row.
    pub fn move_down(&mut self, visible_indices: &[usize])
        ensures
            final(self).selected == moved_down(visible_indices@, old(self).selected),
            final(self).entries == old(self).entries,
            final(self).scope == old(self).scope,
            final(self).scroll_offset == old(self).scroll_offset,
            final(self).last_error == old(self).last_error,
    {
        if visible_indices.len() == 0 {
            return ;
        }
        proof {
            lemma_pos_from(visible_indices@, self.selected, 0);
        }
        match position(visible_indices, self.selected) {
            Some(p) => {
                if p + 1 < visible_indices.len() {
                    self.selected = visible_indices[p + 1];
                }
            },
            None => {
                self.selected = visible_indices[0];
            },
        }
    }

    /// Moves the selection one visible row up; a selection that is not
    /// visible moves to the first visible row.
    pub fn move_up(&mut self, visible_indices: &[usize])
        ensures
            final(self).selected == moved_up(visible_indices@, old(self).selected),
            final(self).entries == old(self).entries,
            final(self).scope == old(self).scope,
            final(self).scroll_offset == old(self).scroll_offset,
            final(self).last_error == old(self).last_error,
    {
        if visible_indices.len() == 0 {
            return ;
        }
        proof {
            lemma_pos_from(visible_indices@, self.selected, 0);
        }
        match position(visible_indices, self.selected) {
            Some(p) => {
                if p > 0 {
                    self.selected = visible_indices[p - 1];
                }
            },
            None => {
                self.selected = visible_indices[0];
            },
        }
    }

    /// Selects the first visible row, if there is one.
    pub fn go_top(&mut self, visible_indices: &[usize])
        ensures
            final(self).selected == if visible_indices@.len() > 0 {
                visible_indices@[0]
            } else {
                old(self).selected
            },
            final(self).entries == old(self).entries,
            final(self).scope == old(self).scope,
            final(self).scroll_offset == old(self).scroll_offset,
            final(self).last_error == old(self).last_error,
    {
        if visible_indices.len() > 0 {
            self.selected = visible_indices[0];
        }
    }

    /// Selects the last visible row, if there is one.
    pub fn go_bottom(&mut self, visible_indices: &[usize])
        ensures
            final(self).selected == if visible_indices@.len() > 0 {
                visible_indices@.last()
            } else {
                old(self).selected
            },
            final(self).entries == old(self).entries,
            final(self).scope == old(self).scope,
            final(self).scroll_offset == old(self).scroll_offset,
            final(self).last_error == old(self).last_error,
    {
        if visible_indices.len() > 0 {
            self.selected = visible_indices[visible_indices.len() - 1];
        }
    }

    /// Moves the selection `page_size` visible rows down, stopping at the
    /// last row; a selection that is not visible counts from the first row.
    pub fn page_down(&mut self, visible_indices: &[usize], page_size: usize)
        requires
            visible_indices@.len() > 0 ==> page_start(visible_indices@, old(self).selected)
                + page_size <= usize::MAX,
        ensures
            final(self).selected == paged_down(visible_indices@, old(self).selected, page_size),
            final(self).entries == old(self).entries,
            final(self).scope == old(self).scope,
            final(self).scroll_offset == old(self).scroll_offset,
            final(self).last_error == old(self).last_error,
    {
        if visible_indices.len() == 0 {
            return ;
        }
        proof {
            lemma_pos_from(visible_indices@, self.selected, 0);
        }
        let pos = match position(visible_indices, self.selected) {
            Some(p) => p,
            None => 0,
        };
        let target = pos + page_size;
        let last = visible_indices.len() - 1;
        let new_pos = if target < last {
            target
        } else {
            last
        };
        self.selected = visible_indices[new_pos];
    }

    /// Moves the selection `page_size` visible rows up, stopping at the
    /// first row; a selection that is not visible counts from the first row.
    pub fn page_up(&mut self, visible_indices: &[usize], page_size: usize)
        ensures
            final(self).selected == paged_up(visible_indices@, old(self).selected, page_size),
            final(self).entries == old(self).entries,
            final(self).scope == old(self).scope,
            final(self).scroll_offset == old(self).scroll_offset,
            final(self).last_error == old(self).last_error,
    {
        if visible_indices.len() == 0 {
            return ;
        }
        proof {
            lemma_pos_from(visible_indices@, self.selected, 0);
        }
        let pos = match position(visible_indices, self.selected) {
            Some(p) => p,
            None => 0,
        };
        let new_pos = if pos > page_size {
            pos - page_size
        } else {
            0
        };
        self.selected = visible_indices[new_pos];
    }

    /// The selected entry, if the selection is in range.
    pub fn selected_entry(&self) -> (r: Option<&UnitEntry>)
        ensures
            self.selected < self.entries@.len() ==> r == Some(&self.entries@[self.selected as int]),
            self.selected >= self.entries@.len() ==> r is None,
    {
        if self.selected < self.entries.len() {
            Some(&self.entries[self.selected])
        } else {
            None
        }
    }

    /// Switches to the other scope with the selection at the top, and takes
    /// `listing`, the outcome of listing the units of that other scope.
    pub fn switch_scope(&mut self, listing: Result<Vec<RawUnit>, String>)
        ensures
            final(self).scope == old(self).scope.spec_toggled(),
            final(self).scroll_offset == 0,
            listing matches Ok(raw) ==> final(self).entries_view() == entries_of(
                raw@.map_values(|u: RawUnit| u@),
            ) && final(self).selected == 0 && final(self).last_error is None,
            listing matches Err(e) ==> final(self).entries == old(self).entries
                && final(self).selected == 0 && final(self).last_error == Some(e),
    {
        self.scope = self.scope.toggled();
        self.selected = 0;
        self.scroll_offset = 0;
        self.refresh(listing);
    }
}

} // verus!

verus! {

/// Whether no index occurs twice in `v`.
pub open spec fn distinct(v: Seq<usize>) -> bool {
    forall|i: int, j: int| 0 <= i < j < v.len() ==> #[trigger] v[i] != #[trigger] v[j]
}

/// Moving the selection never leaves the visible rows: after any move on a
/// non-empty visible list, the selection is one of them.
pub proof fn lemma_moves_stay_visible(vis: Seq<usize>, sel: usize, n: usize)
    requires
        vis.len() > 0,
    ensures
        vis.contains(moved_down(vis, sel)),
        vis.contains(moved_up(vis, sel)),
        vis.contains(paged_down(vis, sel, n)),
        vis.contains(paged_up(vis, sel, n)),
        vis.contains(vis[0]),
        vis.contains(vis.last()),
{
    lemma_pos_from(vis, sel, 0);
    match pos_of(vis, sel) {
        Some(p) => {
            assert(vis[p] == sel);
            if p + 1 < vis.len() {
                assert(vis.contains(vis[p + 1]));
            }
            if p > 0 {
                assert(vis.contains(vis[p - 1]));
            }
        },
        None => {},
    }
    let s = page_start(vis, sel);
    if s + n < vis.len() - 1 {
        assert(vis.contains(vis[s + n]));
    }
    if s - n > 0 {
        assert(vis.contains(vis[s - n]));
    }
    assert(vis.contains(vis[vis.len() - 1]));
    assert(vis.contains(vis[0]));
}

/// Moving down and then up comes back to the same row, when the rows are
/// distinct and the selection is a visible row other than the last.
pub proof fn lemma_down_then_up(vis: Seq<usize>, sel: usize)
    requires
        distinct(vis),
        pos_of(vis, sel) matches Some(p) && p + 1 < vis.len(),
    ensures
        moved_up(vis, moved_down(vis, sel)) == sel,
{
    lemma_pos_from(vis, sel, 0);
    let p = pos_of(vis, sel)->0;
    let d = vis[p + 1];
    lemma_pos_from(vis, d, 0);
    let q = pos_of(vis, d);
    assert(q == Some(p + 1)) by {
        match q {
            Some(x) => {
                if x < p + 1 {
                    assert(vis[x] == vis[p + 1]);
                } else if x > p + 1 {
                    assert(vis[p + 1] != d);
                }
            },
            None => {
                assert(vis[p + 1] != d);
            },
        }
    }
}

/// After a new listing the selection names an entry whenever there is one.
pub proof fn lemma_clamped_in_range(sel: usize, len: nat)
    requires
        len > 0,
    ensures
        clamped_selection(sel, len) < len,
{
}

} // verus!
