//! The application state and the decisions taken on each key, tick and
//! finished background job. Running jobs and drawing are left to the caller,
//! which performs the `Effect`s that the state machine asks for.

use vstd::prelude::*;
use crate::config::Config;
use crate::filter::{
    fits_matcher, haystack_of, lemma_ranked_within, next_type, next_type_spec, opt_str_view, rank,
    rank_ready, ranked,
};
use crate::input::AppAction;
use crate::systemd::{all_actions, Action, RawUnit, RawUnitView, Scope, ACTION_COUNT};
use crate::text::{pop_char, push_char, push_str, strings_view};
use crate::theme::{colors_readable, Theme};
use crate::units::{
    entries_of, moved_down, moved_up, page_start, paged_down, paged_up, position, UnitEntryView,
    UnitList,
};

verus! {

/// Which view has the keyboard.
#[derive(Debug, Clone, Copy, PartialEq, Eq, Structural)]
pub enum Mode {
    Normal,
    Filtering,
    ActionMenu,
    LogView,
    Confirm,
    UnitFile,
    Help,
}

/// Messages sent from background jobs back to the application.
pub enum BgMsg {
    Units(Vec<RawUnit>),
    Status(String),
    Journal(Vec<String>),
    UnitFile(Vec<String>),
    ActionDone { label: String, unit: String },
    ActionError(String),
}

/// A job that the application asks its runner to do.
#[derive(Debug, PartialEq, Eq)]
pub enum Effect {
    /// List the units of `scope` and send them back as `BgMsg::Units`.
    RefreshUnits { scope: Scope },
    /// Fetch the status of unit `name` and send it back as `BgMsg::Status`.
    RefreshStatus { name: String, scope: Scope },
    /// Fetch the last `lines` journal lines of unit `name` and send them back
    /// as `BgMsg::Journal`.
    RefreshJournal { name: String, scope: Scope, lines: usize },
    /// Fetch the unit file of `name` and send its lines back as
    /// `BgMsg::UnitFile`.
    RefreshUnitFile { name: String, scope: Scope },
    /// Run `action` on unit `name` and send the outcome back as made by
    /// `action_finished`.
    RunAction { action: Action, name: String, scope: Scope },
    /// List the units of `scope` at once and hand the outcome to
    /// `App::finish_scope_switch`.
    SwitchScope { scope: Scope },
}

/// The job an `Effect` asks for, with its texts.
pub enum EffectView {
    RefreshUnits { scope: Scope },
    RefreshStatus { name: Seq<char>, scope: Scope },
    RefreshJournal { name: Seq<char>, scope: Scope, lines: usize },
    RefreshUnitFile { name: Seq<char>, scope: Scope },
    RunAction { action: Action, name: Seq<char>, scope: Scope },
    SwitchScope { scope: Scope },
}

impl View for Effect {
    type V = EffectView;

    open spec fn view(&self) -> EffectView {
        match self {
            Effect::RefreshUnits { scope } => EffectView::RefreshUnits { scope: *scope },
            Effect::RefreshStatus { name, scope } => EffectView::RefreshStatus {
                name: name@,
                scope: *scope,
            },
            Effect::RefreshJournal { name, scope, lines } => EffectView::RefreshJournal {
                name: name@,
                scope: *scope,
                lines: *lines,
            },
            Effect::RefreshUnitFile { name, scope } => EffectView::RefreshUnitFile {
                name: name@,
                scope: *scope,
            },
            Effect::RunAction { action, name, scope } => EffectView::RunAction {
                action: *action,
                name: name@,
                scope: *scope,
            },
            Effect::SwitchScope { scope } => EffectView::SwitchScope { scope: *scope },
        }
    }
}

/// The jobs a list of effects asks for.
pub open spec fn effects_view(e: Seq<Effect>) -> Seq<EffectView> {
    e.map_values(|x: Effect| x@)
}

/// The state of the application, with its texts, apart from the settings
/// and the theme, which never change.
#[verifier::ext_equal]
pub struct AppView {
    pub mode: Mode,
    pub filter_query: Seq<char>,
    pub type_filter: Option<Seq<char>>,
    pub entries: Seq<UnitEntryView>,
    pub scope: Scope,
    pub selected: usize,
    pub scroll_offset: usize,
    pub last_error: Option<Seq<char>>,
    pub visible: Seq<usize>,
    pub action_menu_selected: usize,
    pub confirm_pending: Option<usize>,
    pub status_cache: Seq<char>,
    pub journal_cache: Seq<Seq<char>>,
    pub log_scroll: usize,
    pub log_live: bool,
    pub unit_file_cache: Seq<Seq<char>>,
    pub unit_file_scroll: usize,
    pub status_message: Option<Seq<char>>,
    pub status_message_ticks: u8,
    pub loading: bool,
    pub refresh_ticks: u64,
}

/// The application: settings, theme, the unit list and the state of every
/// view.
pub struct App {
    pub config: Config,
    pub theme: Theme,
    pub units: UnitList,
    pub mode: Mode,
    pub filter_query: String,
    pub type_filter: Option<String>,
    pub visible_indices: Vec<usize>,
    pub action_menu_selected: usize,
    pub confirm_pending: Option<usize>,
    pub status_cache: String,
    pub journal_cache: Vec<String>,
    pub log_scroll: usize,
    pub log_live: bool,
    pub unit_file_cache: Vec<String>,
    pub unit_file_scroll: usize,
    pub status_message: Option<String>,
    pub status_message_ticks: u8,
    pub loading: bool,
    pub refresh_ticks: u64,
}

impl View for App {
    type V = AppView;

    open spec fn view(&self) -> AppView {
        AppView {
            mode: self.mode,
            filter_query: self.filter_query@,
            type_filter: opt_str_view(self.type_filter),
            entries: self.units.entries_view(),
            scope: self.units.scope,
            selected: self.units.selected,
            scroll_offset: self.units.scroll_offset,
            last_error: self.units.error_view(),
            visible: self.visible_indices@,
            action_menu_selected: self.action_menu_selected,
            confirm_pending: self.confirm_pending,
            status_cache: self.status_cache@,
            journal_cache: strings_view(self.journal_cache@),
            log_scroll: self.log_scroll,
            log_live: self.log_live,
            unit_file_cache: strings_view(self.unit_file_cache@),
            unit_file_scroll: self.unit_file_scroll,
            status_message: opt_str_view(self.status_message),
            status_message_ticks: self.status_message_ticks,
            loading: self.loading,
            refresh_ticks: self.refresh_ticks,
        }
    }
}

/// Whether every entry is small enough for the fuzzy matcher.
pub open spec fn entries_fit(entries: Seq<UnitEntryView>) -> bool {
    forall|i: int| 0 <= i < entries.len() ==> fits_matcher(#[trigger] haystack_of(entries[i]))
}

/// Whether every row of a listing gives an entry small enough for the
/// fuzzy matcher.
pub open spec fn listing_fits(raw: Seq<RawUnitView>) -> bool {
    entries_fit(entries_of(raw))
}

/// What the state keeps true: the menu cursor and a pending confirmation
/// name actions, the visible rows name entries, the entries fit the
/// matcher, and the tick counter can still count.
pub open spec fn view_wf(v: AppView) -> bool {
    &&& v.action_menu_selected < ACTION_COUNT
    &&& (v.confirm_pending matches Some(i) ==> i < ACTION_COUNT)
    &&& (forall|k: int| 0 <= k < v.visible.len() ==> #[trigger] v.visible[k] < v.entries.len())
    &&& entries_fit(v.entries)
    &&& v.refresh_ticks < u64::MAX
}

/// The indices of the entries of type `tf` (all entries for `None`), in
/// order, among the first `n`.
pub open spec fn type_filtered_upto(entries: Seq<UnitEntryView>, tf: Option<Seq<char>>, n: nat) -> Seq<
    usize,
>
    decreases n,
{
    if n == 0 {
        seq![]
    } else {
        let rest = type_filtered_upto(entries, tf, (n - 1) as nat);
        let i = (n - 1) as int;
        if tf is None || entries[i].unit_type == tf->0 {
            rest.push(i as usize)
        } else {
            rest
        }
    }
}

/// The indices of the entries of type `tf` (all entries for `None`).
pub open spec fn type_filtered(entries: Seq<UnitEntryView>, tf: Option<Seq<char>>) -> Seq<usize> {
    type_filtered_upto(entries, tf, entries.len())
}

/// A status fetch for the selected entry, if the selection is in range.
pub open spec fn status_effects(v: AppView) -> Seq<EffectView> {
    if v.selected < v.entries.len() {
        seq![EffectView::RefreshStatus { name: v.entries[v.selected as int].name, scope: v.scope }]
    } else {
        seq![]
    }
}

/// A journal fetch for the selected entry, if the selection is in range.
pub open spec fn journal_effects(v: AppView, lines: usize) -> Seq<EffectView> {
    if v.selected < v.entries.len() {
        seq![
            EffectView::RefreshJournal {
                name: v.entries[v.selected as int].name,
                scope: v.scope,
                lines,
            },
        ]
    } else {
        seq![]
    }
}

/// A unit-file fetch for the selected entry, if the selection is in range.
pub open spec fn unit_file_effects(v: AppView) -> Seq<EffectView> {
    if v.selected < v.entries.len() {
        seq![EffectView::RefreshUnitFile { name: v.entries[v.selected as int].name, scope: v.scope }]
    } else {
        seq![]
    }
}

/// The visible rows recomputed from the type filter and the query; a
/// selection that is no longer visible moves to the first visible row,
/// whose status is then fetched.
pub open spec fn refiltered(v: AppView) -> (AppView, Seq<EffectView>) {
    let vis = ranked(v.filter_query, v.entries, type_filtered(v.entries, v.type_filter));
    if vis.len() > 0 && !vis.contains(v.selected) {
        let w = AppView { visible: vis, selected: vis[0], ..v };
        (w, status_effects(w))
    } else {
        (AppView { visible: vis, ..v }, seq![])
    }
}

/// The state with a new selection, and the status fetch for it.
pub open spec fn select(v: AppView, sel: usize) -> (AppView, bool, Seq<EffectView>) {
    let w = AppView { selected: sel, ..v };
    (w, false, status_effects(w))
}

/// Running the action at menu position `idx` on the selected unit; the
/// menu closes either way.
pub open spec fn executed(v: AppView, idx: usize) -> (AppView, bool, Seq<EffectView>) {
    let w = AppView { mode: Mode::Normal, ..v };
    if v.selected < v.entries.len() {
        (
            w,
            false,
            seq![
                EffectView::RunAction {
                    action: all_actions()[idx as int],
                    name: v.entries[v.selected as int].name,
                    scope: v.scope,
                },
            ],
        )
    } else {
        (w, false, seq![])
    }
}

/// A scroll position moved down three lines, but not past the last line.
pub open spec fn scrolled_down(pos: usize, len: nat) -> usize {
    let up = if pos + 3 > usize::MAX {
        usize::MAX as int
    } else {
        pos + 3
    };
    let last = if len > 0 {
        len - 1
    } else {
        0
    };
    (if up < last {
        up
    } else {
        last
    }) as usize
}

/// A scroll position moved up three lines, but not above the first line.
pub open spec fn scrolled_up(pos: usize) -> usize {
    if pos >= 3 {
        (pos - 3) as usize
    } else {
        0
    }
}

/// The text without its last character, if it has one.
pub open spec fn without_last(s: Seq<char>) -> Seq<char> {
    if s.len() > 0 {
        s.drop_last()
    } else {
        s
    }
}

/// Rows moved by a page key.
pub const PAGE_SIZE: usize = 10;

/// The outcome of an action: the next state, whether to quit, and the jobs
/// to start.
pub open spec fn step(v: AppView, cfg: Config, action: AppAction) -> (AppView, bool, Seq<EffectView>) {
    match action {
        AppAction::Quit => (v, true, seq![]),
        AppAction::MoveDown => select(v, moved_down(v.visible, v.selected)),
        AppAction::MoveUp => select(v, moved_up(v.visible, v.selected)),
        AppAction::PageDown => select(v, paged_down(v.visible, v.selected, PAGE_SIZE)),
        AppAction::PageUp => select(v, paged_up(v.visible, v.selected, PAGE_SIZE)),
        AppAction::GoTop => select(
            v,
            if v.visible.len() > 0 {
                v.visible[0]
            } else {
                v.selected
            },
        ),
        AppAction::GoBottom => select(
            v,
            if v.visible.len() > 0 {
                v.visible.last()
            } else {
                v.selected
            },
        ),
        AppAction::SwitchScope => (v, false, seq![EffectView::SwitchScope { scope: v.scope.spec_toggled() }]),
        AppAction::Refresh => (
            AppView { loading: true, ..v },
            false,
            seq![EffectView::RefreshUnits { scope: v.scope }] + status_effects(v),
        ),
        AppAction::FilterType => {
            let r = refiltered(AppView { type_filter: next_type_spec(v.type_filter), ..v });
            (r.0, false, r.1)
        },
        AppAction::OpenFilter => (AppView { mode: Mode::Filtering, ..v }, false, seq![]),
        AppAction::FilterChar(c) => {
            let r = refiltered(AppView { filter_query: v.filter_query.push(c), ..v });
            (r.0, false, r.1)
        },
        AppAction::FilterBackspace => {
            let r = refiltered(AppView { filter_query: without_last(v.filter_query), ..v });
            (r.0, false, r.1)
        },
        AppAction::FilterConfirm => (AppView { mode: Mode::Normal, ..v }, false, seq![]),
        AppAction::FilterCancel => {
            let r = refiltered(AppView { filter_query: seq![], ..v });
            (AppView { mode: Mode::Normal, ..r.0 }, false, r.1)
        },
        AppAction::OpenActionMenu => if v.selected < v.entries.len() {
            (AppView { action_menu_selected: 0, mode: Mode::ActionMenu, ..v }, false, seq![])
        } else {
            (v, false, seq![])
        },
        AppAction::ActionUp => (
            AppView {
                action_menu_selected: if v.action_menu_selected > 0 {
                    (v.action_menu_selected - 1) as usize
                } else {
                    (ACTION_COUNT - 1) as usize
                },
                ..v
            },
            false,
            seq![],
        ),
        AppAction::ActionDown => (
            AppView {
                action_menu_selected: ((v.action_menu_selected + 1) % (ACTION_COUNT as int)) as usize,
                ..v
            },
            false,
            seq![],
        ),
        AppAction::ActionConfirm => if cfg.display.confirm_destructive
            && all_actions()[v.action_menu_selected as int].spec_destructive() {
            (
                AppView {
                    confirm_pending: Some(v.action_menu_selected),
                    mode: Mode::Confirm,
                    ..v
                },
                false,
                seq![],
            )
        } else {
            executed(v, v.action_menu_selected)
        },
        AppAction::ActionCancel => (AppView { mode: Mode::Normal, ..v }, false, seq![]),
        AppAction::ConfirmYes => match v.confirm_pending {
            Some(i) => executed(AppView { confirm_pending: None, ..v }, i),
            None => (v, false, seq![]),
        },
        AppAction::ConfirmNo => (
            AppView { confirm_pending: None, mode: Mode::Normal, ..v },
            false,
            seq![],
        ),
        AppAction::OpenLogs => (
            AppView { log_scroll: 0, log_live: false, mode: Mode::LogView, ..v },
            false,
            journal_effects(v, cfg.display.journal_lines),
        ),
        AppAction::LogScrollDown => (
            AppView { log_scroll: scrolled_down(v.log_scroll, v.journal_cache.len()), ..v },
            false,
            seq![],
        ),
        AppAction::LogScrollUp => (
            AppView { log_scroll: scrolled_up(v.log_scroll), ..v },
            false,
            seq![],
        ),
        AppAction::LogToggleLiveTail => (
            AppView { log_live: !v.log_live, ..v },
            false,
            if !v.log_live {
                journal_effects(v, cfg.display.journal_lines)
            } else {
                seq![]
            },
        ),
        AppAction::LogClose => (
            AppView { log_live: false, mode: Mode::Normal, ..v },
            false,
            seq![],
        ),
        AppAction::OpenUnitFile => if v.selected < v.entries.len() {
            (
                AppView { unit_file_scroll: 0, mode: Mode::UnitFile, ..v },
                false,
                unit_file_effects(v),
            )
        } else {
            (v, false, seq![])
        },
        AppAction::UnitFileScrollDown => (
            AppView {
                unit_file_scroll: scrolled_down(v.unit_file_scroll, v.unit_file_cache.len()),
                ..v
            },
            false,
            seq![],
        ),
        AppAction::UnitFileScrollUp => (
            AppView { unit_file_scroll: scrolled_up(v.unit_file_scroll), ..v },
            false,
            seq![],
        ),
        AppAction::UnitFileClose => (AppView { mode: Mode::Normal, ..v }, false, seq![]),
        AppAction::OpenHelp => (AppView { mode: Mode::Help, ..v }, false, seq![]),
        AppAction::HelpClose => (AppView { mode: Mode::Normal, ..v }, false, seq![]),
        AppAction::Nothing => (v, false, seq![]),
    }
}

} // verus!

verus! {

proof fn lemma_type_filtered_bounds(entries: Seq<UnitEntryView>, tf: Option<Seq<char>>, n: nat)
    ensures
        forall|k: int|
            0 <= k < type_filtered_upto(entries, tf, n).len() ==> #[trigger] type_filtered_upto(
                entries,
                tf,
                n,
            )[k] < n,
    decreases n,
{
    if n > 0 {
        lemma_type_filtered_bounds(entries, tf, (n - 1) as nat);
        let rest = type_filtered_upto(entries, tf, (n - 1) as nat);
        let all = type_filtered_upto(entries, tf, n);
        assert forall|k: int| 0 <= k < all.len() implies #[trigger] all[k] < n by {
            if k < rest.len() {
                assert(all[k] == rest[k]);
            }
        }
    }
}

/// The visible rows that `refiltered` computes name entries.
proof fn lemma_refiltered_wf(v: AppView)
    requires
        entries_fit(v.entries),
    ensures
        forall|k: int|
            0 <= k < refiltered(v).0.visible.len() ==> #[trigger] refiltered(v).0.visible[k]
                < v.entries.len(),
        rank_ready(v.filter_query, v.entries, type_filtered(v.entries, v.type_filter)),
{
    let idx = type_filtered(v.entries, v.type_filter);
    lemma_type_filtered_bounds(v.entries, v.type_filter, v.entries.len());
    lemma_ranked_within(v.filter_query, v.entries, idx);
    let vis = ranked(v.filter_query, v.entries, idx);
    assert forall|k: int| 0 <= k < vis.len() implies #[trigger] vis[k] < v.entries.len() by {
        assert(idx.contains(vis[k]));
    }
    assert forall|k: int| 0 <= k < idx.len() implies (#[trigger] idx[k] < v.entries.len()
        && fits_matcher(haystack_of(v.entries[idx[k] as int]))) by {
        assert(idx[k] < v.entries.len());
    }
}

impl App {
    /// What the application keeps true between steps.
    pub open spec fn wf(&self) -> bool {
        view_wf(self@)
    }

    fn status_effect(&self) -> (r: Vec<Effect>)
        ensures
            effects_view(r@) == status_effects(self@),
    {
        let mut r: Vec<Effect> = Vec::new();
        if self.units.selected < self.units.entries.len() {
            let e = &self.units.entries[self.units.selected];
            r.push(Effect::RefreshStatus { name: e.name.clone(), scope: self.units.scope });
        }
        assert(effects_view(r@) =~= status_effects(self@));
        r
    }

    fn journal_effect(&self) -> (r: Vec<Effect>)
        ensures
            effects_view(r@) == journal_effects(self@, self.config.display.journal_lines),
    {
        let mut r: Vec<Effect> = Vec::new();
        if self.units.selected < self.units.entries.len() {
            let e = &self.units.entries[self.units.selected];
            r.push(
                Effect::RefreshJournal {
                    name: e.name.clone(),
                    scope: self.units.scope,
                    lines: self.config.display.journal_lines,
                },
            );
        }
        assert(effects_view(r@) =~= journal_effects(self@, self.config.display.journal_lines));
        r
    }

    fn unit_file_effect(&self) -> (r: Vec<Effect>)
        ensures
            effects_view(r@) == unit_file_effects(self@),
    {
        let mut r: Vec<Effect> = Vec::new();
        if self.units.selected < self.units.entries.len() {
            let e = &self.units.entries[self.units.selected];
            r.push(Effect::RefreshUnitFile { name: e.name.clone(), scope: self.units.scope });
        }
        assert(effects_view(r@) =~= unit_file_effects(self@));
        r
    }

    fn type_filtered_indices(&self) -> (r: Vec<usize>)
        ensures
            r@ == type_filtered(self@.entries, self@.type_filter),
    {
        let ghost ev = self@.entries;
        let ghost tf = self@.type_filter;
        let n = self.units.entries.len();
        let mut r: Vec<usize> = Vec::new();
        let mut i: usize = 0;
        while i < n
            invariant
                n == self.units.entries@.len(),
                ev == self.units.entries_view(),
                tf == opt_str_view(self.type_filter),
                i <= n,
                r@ == type_filtered_upto(ev, tf, i as nat),
            decreases n - i,
        {
            let keep = match &self.type_filter {
                Some(t) => crate::text::str_eq(self.units.entries[i].unit_type.as_str(), t.as_str()),
                None => true,
            };
            assert(ev[i as int] == self.units.entries@[i as int]@);
            if keep {
                r.push(i);
            }
            i = i + 1;
        }
        r
    }

    /// Recomputes the visible rows (see `refiltered`).
    fn refilter(&mut self) -> (r: Vec<Effect>)
        requires
            entries_fit(old(self)@.entries),
        ensures
            (final(self)@, effects_view(r@)) == refiltered(old(self)@),
            final(self).config == old(self).config,
            final(self).theme == old(self).theme,
    {
        let ghost v = self@;
        proof {
            lemma_refiltered_wf(v);
        }
        let type_filtered = self.type_filtered_indices();
        self.visible_indices = rank(
            self.filter_query.as_str(),
            self.units.entries.as_slice(),
            type_filtered.as_slice(),
        );
        let ghost vis = self.visible_indices@;
        if self.visible_indices.len() > 0 {
            match position(self.visible_indices.as_slice(), self.units.selected) {
                Some(_) => {
                    proof {
                        crate::units::lemma_pos_from(vis, v.selected, 0);
                    }
                    assert(vis.contains(v.selected));
                    return Vec::new();
                },
                None => {
                    proof {
                        crate::units::lemma_pos_from(vis, v.selected, 0);
                    }
                    assert(!vis.contains(v.selected));
                    self.units.selected = self.visible_indices[0];
                    return self.status_effect();
                },
            }
        }
        Vec::new()
    }
}

} // verus!

verus! {

impl App {
    fn execute_action_at(&mut self, action_idx: usize) -> (r: Vec<Effect>)
        requires
            action_idx < ACTION_COUNT,
        ensures
            (final(self)@, false, effects_view(r@)) == executed(old(self)@, action_idx),
            final(self).config == old(self).config,
            final(self).theme == old(self).theme,
    {
        let action = Action::at(action_idx);
        let mut r: Vec<Effect> = Vec::new();
        if self.units.selected < self.units.entries.len() {
            let e = &self.units.entries[self.units.selected];
            r.push(Effect::RunAction { action, name: e.name.clone(), scope: self.units.scope });
        }
        self.mode = Mode::Normal;
        assert(effects_view(r@) =~= executed(old(self)@, action_idx).2);
        r
    }

    fn maybe_confirm_or_execute(&mut self) -> (r: Vec<Effect>)
        requires
            old(self).wf(),
        ensures
            (final(self)@, false, effects_view(r@)) == step(
                old(self)@,
                old(self).config,
                AppAction::ActionConfirm,
            ),
            final(self).config == old(self).config,
            final(self).theme == old(self).theme,
    {
        let action = Action::at(self.action_menu_selected);
        if self.config.display.confirm_destructive && action.is_destructive() {
            self.confirm_pending = Some(self.action_menu_selected);
            self.mode = Mode::Confirm;
            Vec::new()
        } else {
            self.execute_action_at(self.action_menu_selected)
        }
    }

    /// Applies `action` (see `step`): returns whether to quit and the jobs
    /// to start.
    pub fn apply(&mut self, action: AppAction) -> (r: (bool, Vec<Effect>))
        requires
            old(self).wf(),
            action == AppAction::PageDown && old(self)@.visible.len() > 0 ==> page_start(
                old(self)@.visible,
                old(self)@.selected,
            ) + PAGE_SIZE <= usize::MAX,
        ensures
            final(self).wf(),
            (final(self)@, r.0, effects_view(r.1@)) == step(old(self)@, old(self).config, action),
            final(self).config == old(self).config,
            final(self).theme == old(self).theme,
    {
        match action {
            AppAction::MoveDown | AppAction::MoveUp | AppAction::PageDown | AppAction::PageUp
            | AppAction::GoTop | AppAction::GoBottom => (false, self.navigate(action)),
            AppAction::FilterType | AppAction::FilterChar(_) | AppAction::FilterBackspace
            | AppAction::FilterCancel => (false, self.edit_filter(action)),
            AppAction::OpenActionMenu | AppAction::ActionUp | AppAction::ActionDown
            | AppAction::ActionConfirm | AppAction::ActionCancel | AppAction::ConfirmYes
            | AppAction::ConfirmNo => (false, self.use_menu(action)),
            AppAction::OpenLogs | AppAction::LogScrollDown | AppAction::LogScrollUp
            | AppAction::LogToggleLiveTail | AppAction::LogClose | AppAction::OpenUnitFile
            | AppAction::UnitFileScrollDown | AppAction::UnitFileScrollUp
            | AppAction::UnitFileClose | AppAction::OpenHelp | AppAction::HelpClose => (
                false,
                self.use_views(action),
            ),
            _ => self.other_step(action),
        }
    }

    fn navigate(&mut self, action: AppAction) -> (r: Vec<Effect>)
        requires
            old(self).wf(),
            action == AppAction::MoveDown || action == AppAction::MoveUp || action
                == AppAction::PageDown || action == AppAction::PageUp || action == AppAction::GoTop
                || action == AppAction::GoBottom,
            action == AppAction::PageDown && old(self)@.visible.len() > 0 ==> page_start(
                old(self)@.visible,
                old(self)@.selected,
            ) + PAGE_SIZE <= usize::MAX,
        ensures
            final(self).wf(),
            (final(self)@, false, effects_view(r@)) == step(old(self)@, old(self).config, action),
            final(self).config == old(self).config,
            final(self).theme == old(self).theme,
    {
        match action {
            AppAction::MoveDown => self.units.move_down(self.visible_indices.as_slice()),
            AppAction::MoveUp => self.units.move_up(self.visible_indices.as_slice()),
            AppAction::PageDown => self.units.page_down(self.visible_indices.as_slice(), PAGE_SIZE),
            AppAction::PageUp => self.units.page_up(self.visible_indices.as_slice(), PAGE_SIZE),
            AppAction::GoTop => self.units.go_top(self.visible_indices.as_slice()),
            _ => self.units.go_bottom(self.visible_indices.as_slice()),
        }
        self.status_effect()
    }

    fn edit_filter(&mut self, action: AppAction) -> (r: Vec<Effect>)
        requires
            old(self).wf(),
            action == AppAction::FilterType || action is FilterChar || action
                == AppAction::FilterBackspace || action == AppAction::FilterCancel,
        ensures
            final(self).wf(),
            (final(self)@, false, effects_view(r@)) == step(old(self)@, old(self).config, action),
            final(self).config == old(self).config,
            final(self).theme == old(self).theme,
    {
        let ghost v = self@;
        match action {
            AppAction::FilterType => {
                proof {
                    lemma_refiltered_wf(AppView { type_filter: next_type_spec(v.type_filter), ..v });
                }
                self.type_filter = next_type(&self.type_filter);
                self.refilter()
            },
            AppAction::FilterChar(c) => {
                proof {
                    lemma_refiltered_wf(AppView { filter_query: v.filter_query.push(c), ..v });
                }
                push_char(&mut self.filter_query, c);
                self.refilter()
            },
            AppAction::FilterBackspace => {
                proof {
                    lemma_refiltered_wf(AppView { filter_query: without_last(v.filter_query), ..v });
                }
                pop_char(&mut self.filter_query);
                self.refilter()
            },
            _ => {
                proof {
                    lemma_refiltered_wf(AppView { filter_query: seq![], ..v });
                }
                self.filter_query = String::new();
                let r = self.refilter();
                self.mode = Mode::Normal;
                r
            },
        }
    }

    fn use_menu(&mut self, action: AppAction) -> (r: Vec<Effect>)
        requires
            old(self).wf(),
            action == AppAction::OpenActionMenu || action == AppAction::ActionUp || action
                == AppAction::ActionDown || action == AppAction::ActionConfirm || action
                == AppAction::ActionCancel || action == AppAction::ConfirmYes || action
                == AppAction::ConfirmNo,
        ensures
            final(self).wf(),
            (final(self)@, false, effects_view(r@)) == step(old(self)@, old(self).config, action),
            final(self).config == old(self).config,
            final(self).theme == old(self).theme,
    {
        match action {
            AppAction::OpenActionMenu => {
                if self.units.selected < self.units.entries.len() {
                    self.action_menu_selected = 0;
                    self.mode = Mode::ActionMenu;
                }
                Vec::new()
            },
            AppAction::ActionUp => {
                self.action_menu_selected = if self.action_menu_selected > 0 {
                    self.action_menu_selected - 1
                } else {
                    ACTION_COUNT - 1
                };
                Vec::new()
            },
            AppAction::ActionDown => {
                self.action_menu_selected = (self.action_menu_selected + 1) % ACTION_COUNT;
                Vec::new()
            },
            AppAction::ActionConfirm => self.maybe_confirm_or_execute(),
            AppAction::ActionCancel => {
                self.mode = Mode::Normal;
                Vec::new()
            },
            AppAction::ConfirmYes => {
                match self.confirm_pending {
                    Some(idx) => {
                        self.confirm_pending = None;
                        self.execute_action_at(idx)
                    },
                    None => Vec::new(),
                }
            },
            _ => {
                self.confirm_pending = None;
                self.mode = Mode::Normal;
                Vec::new()
            },
        }
    }

    fn use_views(&mut self, action: AppAction) -> (r: Vec<Effect>)
        requires
            old(self).wf(),
            action == AppAction::OpenLogs || action == AppAction::LogScrollDown || action
                == AppAction::LogScrollUp || action == AppAction::LogToggleLiveTail || action
                == AppAction::LogClose || action == AppAction::OpenUnitFile || action
                == AppAction::UnitFileScrollDown || action == AppAction::UnitFileScrollUp
                || action == AppAction::UnitFileClose || action == AppAction::OpenHelp || action
                == AppAction::HelpClose,
        ensures
            final(self).wf(),
            (final(self)@, false, effects_view(r@)) == step(old(self)@, old(self).config, action),
            final(self).config == old(self).config,
            final(self).theme == old(self).theme,
    {
        match action {
            AppAction::OpenLogs => {
                let ghost v = self@;
                self.log_scroll = 0;
                self.log_live = false;
                let r = self.journal_effect();
                self.mode = Mode::LogView;
                assert(self@ == AppView { log_scroll: 0, log_live: false, mode: Mode::LogView, ..v });
                r
            },
            AppAction::LogScrollDown => {
                self.log_scroll = scroll_down(self.log_scroll, self.journal_cache.len());
                Vec::new()
            },
            AppAction::LogScrollUp => {
                self.log_scroll = scroll_up(self.log_scroll);
                Vec::new()
            },
            AppAction::LogToggleLiveTail => {
                self.log_live = !self.log_live;
                if self.log_live {
                    self.journal_effect()
                } else {
                    Vec::new()
                }
            },
            AppAction::LogClose => {
                self.log_live = false;
                self.mode = Mode::Normal;
                Vec::new()
            },
            AppAction::OpenUnitFile => {
                if self.units.selected < self.units.entries.len() {
                    self.unit_file_scroll = 0;
                    let r = self.unit_file_effect();
                    self.mode = Mode::UnitFile;
                    r
                } else {
                    Vec::new()
                }
            },
            AppAction::UnitFileScrollDown => {
                self.unit_file_scroll = scroll_down(self.unit_file_scroll, self.unit_file_cache.len());
                Vec::new()
            },
            AppAction::UnitFileScrollUp => {
                self.unit_file_scroll = scroll_up(self.unit_file_scroll);
                Vec::new()
            },
            AppAction::UnitFileClose => {
                self.mode = Mode::Normal;
                Vec::new()
            },
            AppAction::OpenHelp => {
                self.mode = Mode::Help;
                Vec::new()
            },
            _ => {
                self.mode = Mode::Normal;
                Vec::new()
            },
        }
    }

    fn other_step(&mut self, action: AppAction) -> (r: (bool, Vec<Effect>))
        requires
            old(self).wf(),
            action == AppAction::Quit || action == AppAction::SwitchScope || action
                == AppAction::Refresh || action == AppAction::OpenFilter || action
                == AppAction::FilterConfirm || action == AppAction::Nothing,
        ensures
            final(self).wf(),
            (final(self)@, r.0, effects_view(r.1@)) == step(old(self)@, old(self).config, action),
            final(self).config == old(self).config,
            final(self).theme == old(self).theme,
    {
        let ghost v = self@;
        match action {
            AppAction::Quit => (true, Vec::new()),
            AppAction::SwitchScope => {
                let mut r: Vec<Effect> = Vec::new();
                r.push(Effect::SwitchScope { scope: self.units.scope.toggled() });
                assert(effects_view(r@) =~= step(v, self.config, action).2);
                (false, r)
            },
            AppAction::Refresh => {
                self.loading = true;
                let mut r: Vec<Effect> = Vec::new();
                r.push(Effect::RefreshUnits { scope: self.units.scope });
                let mut s = self.status_effect();
                let ghost sv = effects_view(s@);
                r.append(&mut s);
                assert(effects_view(r@) =~= seq![EffectView::RefreshUnits { scope: v.scope }] + sv);
                (false, r)
            },
            AppAction::OpenFilter => {
                self.mode = Mode::Filtering;
                (false, Vec::new())
            },
            AppAction::FilterConfirm => {
                self.mode = Mode::Normal;
                (false, Vec::new())
            },
            _ => (false, Vec::new()),
        }
    }
}

} // verus!

verus! {

/// `pos.saturating_add(3).min(len.saturating_sub(1))`.
fn scroll_down(pos: usize, len: usize) -> (r: usize)
    ensures
        r == scrolled_down(pos, len as nat),
{
    let up = pos.saturating_add(3);
    let last = len.saturating_sub(1);
    if up < last {
        up
    } else {
        last
    }
}

/// `pos.saturating_sub(3)`.
fn scroll_up(pos: usize) -> (r: usize)
    ensures
        r == scrolled_up(pos),
{
    pos.saturating_sub(3)
}

} // verus!

verus! {

/// A background message, with its texts.
pub enum BgMsgView {
    Units(Seq<RawUnitView>),
    Status(Seq<char>),
    Journal(Seq<Seq<char>>),
    UnitFile(Seq<Seq<char>>),
    ActionDone { label: Seq<char>, unit: Seq<char> },
    ActionError(Seq<char>),
}

impl View for BgMsg {
    type V = BgMsgView;

    open spec fn view(&self) -> BgMsgView {
        match self {
            BgMsg::Units(raw) => BgMsgView::Units(raw@.map_values(|u: RawUnit| u@)),
            BgMsg::Status(s) => BgMsgView::Status(s@),
            BgMsg::Journal(l) => BgMsgView::Journal(strings_view(l@)),
            BgMsg::UnitFile(l) => BgMsgView::UnitFile(strings_view(l@)),
            BgMsg::ActionDone { label, unit } => BgMsgView::ActionDone { label: label@, unit: unit@ },
            BgMsg::ActionError(e) => BgMsgView::ActionError(e@),
        }
    }
}

/// The message that reports how running `action` on `unit` went.
pub fn action_finished(action: Action, unit: String, outcome: Result<String, String>) -> (r: BgMsg)
    ensures
        (outcome is Ok) ==> (r@ == (BgMsgView::ActionDone {
            label: crate::systemd::action_label(action),
            unit: unit@,
        })),
        (outcome is Err) ==> (r@ == BgMsgView::ActionError(outcome->Err_0@)),
{
    match outcome {
        Ok(_) => BgMsg::ActionDone { label: String::from_str(action.label()), unit },
        Err(e) => BgMsg::ActionError(e),
    }
}

/// Ticks a status message stays up (about three seconds at the default
/// tick rate).
pub const MESSAGE_TICKS: u8 = 12;

/// The state showing message `m`.
pub open spec fn with_message(v: AppView, m: Seq<char>) -> AppView {
    AppView { status_message: Some(m), status_message_ticks: MESSAGE_TICKS, ..v }
}

/// The state after a background message, and the jobs it starts: a new
/// listing replaces the entries (see `UnitList::apply_units`), ends the
/// loading mark and recomputes the visible rows; fetched texts are stored;
/// a finished action is reported, reloads the list and the status and
/// closes any overlay; a failed action is reported and closes any overlay.
pub open spec fn received(v: AppView, msg: BgMsgView) -> (AppView, Seq<EffectView>) {
    match msg {
        BgMsgView::Units(raw) => refiltered(
            AppView {
                entries: entries_of(raw),
                selected: crate::units::clamped_selection(v.selected, raw.len()),
                last_error: None,
                loading: false,
                ..v
            },
        ),
        BgMsgView::Status(s) => (AppView { status_cache: s, ..v }, seq![]),
        BgMsgView::Journal(l) => (AppView { journal_cache: l, ..v }, seq![]),
        BgMsgView::UnitFile(l) => (AppView { unit_file_cache: l, ..v }, seq![]),
        BgMsgView::ActionDone { label, unit } => (
            AppView {
                mode: Mode::Normal,
                ..with_message(v, label + " "@ + unit + " succeeded"@)
            },
            seq![EffectView::RefreshUnits { scope: v.scope }] + status_effects(v),
        ),
        BgMsgView::ActionError(e) => (
            AppView { mode: Mode::Normal, ..with_message(v, "Error: "@ + e) },
            seq![],
        ),
    }
}

/// Whether a background message can be taken: a listing must fit the
/// matcher.
pub open spec fn msg_fits(msg: BgMsgView) -> bool {
    msg matches BgMsgView::Units(raw) ==> listing_fits(raw)
}

/// The state after a tick, and the jobs it starts: the automatic reload
/// when its period has passed, the journal when it is followed in the log
/// view, and the countdown of the status message.
pub open spec fn ticked(v: AppView, cfg: Config) -> (AppView, Seq<EffectView>) {
    let auto = cfg.display.auto_refresh_secs;
    let rate = if cfg.display.tick_rate_ms > 1 {
        cfg.display.tick_rate_ms
    } else {
        1
    };
    let (v1, e1) = if auto > 0 {
        let per = (auto * 1000) / (rate as int);
        let t = v.refresh_ticks + 1;
        if t >= per {
            (AppView { refresh_ticks: 0, ..v }, seq![EffectView::RefreshUnits { scope: v.scope }])
        } else {
            (AppView { refresh_ticks: t as u64, ..v }, seq![])
        }
    } else {
        (v, seq![])
    };
    let e2 = if v1.mode == Mode::LogView && v1.log_live {
        journal_effects(v1, cfg.display.journal_lines)
    } else {
        seq![]
    };
    let v2 = if v1.status_message is Some {
        if v1.status_message_ticks > 0 {
            AppView { status_message_ticks: (v1.status_message_ticks - 1) as u8, ..v1 }
        } else {
            AppView { status_message: None, ..v1 }
        }
    } else {
        v1
    };
    (v2, e1 + e2)
}

/// The state after switching to the other scope with `listing` for it: the
/// selection and scroll back at the top, the listing taken (see
/// `UnitList::refresh`), the visible rows recomputed and the loading mark
/// set; the jobs reload the list and fetch the status.
pub open spec fn switched(v: AppView, listing: Result<Seq<RawUnitView>, Seq<char>>) -> (
    AppView,
    Seq<EffectView>,
) {
    let w = match listing {
        Ok(raw) => AppView {
            scope: v.scope.spec_toggled(),
            selected: 0,
            scroll_offset: 0,
            entries: entries_of(raw),
            last_error: None,
            ..v
        },
        Err(e) => AppView {
            scope: v.scope.spec_toggled(),
            selected: 0,
            scroll_offset: 0,
            last_error: Some(e),
            ..v
        },
    };
    let r = refiltered(w);
    let w2 = AppView { loading: true, ..r.0 };
    (w2, r.1 + seq![EffectView::RefreshUnits { scope: w2.scope }] + status_effects(w2))
}

/// The view of a listing outcome.
pub open spec fn listing_view(l: Result<Vec<RawUnit>, String>) -> Result<Seq<RawUnitView>, Seq<char>> {
    match l {
        Ok(raw) => Ok(raw@.map_values(|u: RawUnit| u@)),
        Err(e) => Err(e@),
    }
}

/// Whether a listing outcome can be taken.
pub open spec fn listing_ok_fits(l: Result<Seq<RawUnitView>, Seq<char>>) -> bool {
    l matches Ok(raw) ==> listing_fits(raw)
}

impl App {
    fn set_message(&mut self, msg: String)
        ensures
            final(self)@ == with_message(old(self)@, msg@),
            final(self).config == old(self).config,
            final(self).theme == old(self).theme,
    {
        self.status_message = Some(msg);
        self.status_message_ticks = MESSAGE_TICKS;
    }

    /// Takes a message from a background job (see `received`).
    pub fn handle_bg(&mut self, msg: BgMsg) -> (r: Vec<Effect>)
        requires
            old(self).wf(),
            msg_fits(msg@),
        ensures
            final(self).wf(),
            (final(self)@, effects_view(r@)) == received(old(self)@, msg@),
            final(self).config == old(self).config,
            final(self).theme == old(self).theme,
    {
        let ghost v = self@;
        let ghost m = msg@;
        match msg {
            BgMsg::Units(raw) => {
                let ghost w = AppView {
                    entries: entries_of(raw@.map_values(|u: RawUnit| u@)),
                    selected: crate::units::clamped_selection(v.selected, raw@.len()),
                    last_error: None,
                    loading: false,
                    ..v
                };
                proof {
                    lemma_refiltered_wf(w);
                }
                self.units.apply_units(raw);
                self.loading = false;
                assert(self@ == w);
                self.refilter()
            },
            BgMsg::Status(s) => {
                self.status_cache = s;
                Vec::new()
            },
            BgMsg::Journal(lines) => {
                self.journal_cache = lines;
                Vec::new()
            },
            BgMsg::UnitFile(lines) => {
                self.unit_file_cache = lines;
                Vec::new()
            },
            BgMsg::ActionDone { label, unit } => {
                let mut text = String::new();
                push_str(&mut text, label.as_str());
                push_str(&mut text, " ");
                push_str(&mut text, unit.as_str());
                push_str(&mut text, " succeeded");
                self.set_message(text);
                let mut r: Vec<Effect> = Vec::new();
                r.push(Effect::RefreshUnits { scope: self.units.scope });
                let mut s = self.status_effect();
                let ghost sv = effects_view(s@);
                r.append(&mut s);
                assert(effects_view(r@) =~= seq![EffectView::RefreshUnits { scope: v.scope }] + sv);
                self.mode = Mode::Normal;
                r
            },
            BgMsg::ActionError(e) => {
                let mut text = String::new();
                push_str(&mut text, "Error: ");
                push_str(&mut text, e.as_str());
                self.set_message(text);
                self.mode = Mode::Normal;
                Vec::new()
            },
        }
    }

    /// Advances the clock by one tick (see `ticked`).
    pub fn on_tick(&mut self) -> (r: Vec<Effect>)
        requires
            old(self).wf(),
            old(self).config.display.auto_refresh_secs * 1000 <= u64::MAX,
        ensures
            final(self).wf(),
            (final(self)@, effects_view(r@)) == ticked(old(self)@, old(self).config),
            final(self).config == old(self).config,
            final(self).theme == old(self).theme,
            (old(self).status_message is Some && old(self).status_message_ticks > 0) ==> (final(self).status_message == old(self).status_message && final(self).status_message_ticks == old(self).status_message_ticks - 1),
            (old(self).status_message is Some && old(self).status_message_ticks == 0) ==> (final(self).status_message is None),
    {
        let ghost v = self@;
        let mut r: Vec<Effect> = Vec::new();
        let auto = self.config.display.auto_refresh_secs;
        if auto > 0 {
            let rate = if self.config.display.tick_rate_ms > 1 {
                self.config.display.tick_rate_ms
            } else {
                1
            };
            let per = (auto * 1000) / rate;
            assert(per as int <= auto as int * 1000) by (nonlinear_arith)
                requires
                    per as int == (auto as int * 1000) / (rate as int),
                    rate >= 1,
                    auto >= 0,
            ;
            self.refresh_ticks = self.refresh_ticks + 1;
            if self.refresh_ticks >= per {
                self.refresh_ticks = 0;
                r.push(Effect::RefreshUnits { scope: self.units.scope });
            }
        }
        let ghost v1 = self@;
        let ghost e1 = effects_view(r@);
        if self.mode == Mode::LogView && self.log_live {
            let mut j = self.journal_effect();
            r.append(&mut j);
        }
        assert(effects_view(r@) =~= e1 + (if v1.mode == Mode::LogView && v1.log_live {
            journal_effects(v1, self.config.display.journal_lines)
        } else {
            seq![]
        }));
        if self.status_message.is_some() {
            if self.status_message_ticks > 0 {
                self.status_message_ticks = self.status_message_ticks - 1;
            } else {
                self.status_message = None;
            }
        }
        assert(self@.visible == v.visible && self@.entries == v.entries);
        assert(self@.action_menu_selected == v.action_menu_selected);
        assert(self@.confirm_pending == v.confirm_pending);
        r
    }

    /// Completes a scope switch with `listing`, the outcome of listing the
    /// units of the other scope (see `switched`).
    pub fn finish_scope_switch(&mut self, listing: Result<Vec<RawUnit>, String>) -> (r: Vec<Effect>)
        requires
            old(self).wf(),
            listing_ok_fits(listing_view(listing)),
        ensures
            final(self).wf(),
            (final(self)@, effects_view(r@)) == switched(old(self)@, listing_view(listing)),
            final(self).config == old(self).config,
            final(self).theme == old(self).theme,
    {
        let ghost v = self@;
        let ghost w = match listing_view(listing) {
            Ok(raw) => AppView {
                scope: v.scope.spec_toggled(),
                selected: 0,
                scroll_offset: 0,
                entries: entries_of(raw),
                last_error: None,
                ..v
            },
            Err(e) => AppView {
                scope: v.scope.spec_toggled(),
                selected: 0,
                scroll_offset: 0,
                last_error: Some(e),
                ..v
            },
        };
        proof {
            lemma_refiltered_wf(w);
        }
        self.units.switch_scope(listing);
        assert(self@ == w);
        let mut r = self.refilter();
        self.loading = true;
        let ghost rv = effects_view(r@);
        r.push(Effect::RefreshUnits { scope: self.units.scope });
        let mut s = self.status_effect();
        let ghost sv = effects_view(s@);
        r.append(&mut s);
        assert(effects_view(r@) =~= rv + seq![EffectView::RefreshUnits { scope: self@.scope }] + sv);
        assert(self@ == switched(v, listing_view(listing)).0);
        assert(entries_fit(w.entries));
        r
    }

    /// The jobs to start when the application starts: the status of the
    /// selected unit.
    pub fn initial_effects(&self) -> (r: Vec<Effect>)
        ensures
            effects_view(r@) == status_effects(self@),
    {
        self.status_effect()
    }
}

} // verus!

verus! {

/// The state of a new application on `scope` with its first listing: normal
/// mode, no filter, every entry visible, the first entry selected.
pub open spec fn initial_view(scope: Scope, listing: Result<Seq<RawUnitView>, Seq<char>>) -> AppView {
    let entries = match listing {
        Ok(raw) => entries_of(raw),
        Err(_) => seq![],
    };
    AppView {
        mode: Mode::Normal,
        filter_query: seq![],
        type_filter: None,
        entries,
        scope,
        selected: 0,
        scroll_offset: 0,
        last_error: match listing {
            Ok(_) => None,
            Err(e) => Some(e),
        },
        visible: Seq::new(entries.len(), |i: int| i as usize),
        action_menu_selected: 0,
        confirm_pending: None,
        status_cache: seq![],
        journal_cache: seq![],
        log_scroll: 0,
        log_live: false,
        unit_file_cache: seq![],
        unit_file_scroll: 0,
        status_message: None,
        status_message_ticks: 0,
        loading: false,
        refresh_ticks: 0,
    }
}

impl App {
    /// A new application with `config` on `scope`, given the outcome of the
    /// first listing of its units.
    pub fn new(config: Config, scope: Scope, listing: Result<Vec<RawUnit>, String>) -> (app: App)
        requires
            colors_readable(config.colors),
            listing_ok_fits(listing_view(listing)),
        ensures
            app.wf(),
            app.config == config,
            app.theme == crate::theme::theme_for(config.colors),
            app@ == initial_view(scope, listing_view(listing)),
    {
        let ghost lv = listing_view(listing);
        let theme = Theme::from_colors(&config.colors);
        let mut units = UnitList::new(scope);
        units.refresh(listing);
        let n = units.entries.len();
        let mut visible_indices: Vec<usize> = Vec::new();
        let mut i: usize = 0;
        while i < n
            invariant
                i <= n,
                visible_indices@ == Seq::new(i as nat, |k: int| k as usize),
            decreases n - i,
        {
            visible_indices.push(i);
            i = i + 1;
            assert(visible_indices@ =~= Seq::new(i as nat, |k: int| k as usize));
        }
        let app = App {
            config,
            theme,
            units,
            mode: Mode::Normal,
            filter_query: String::new(),
            type_filter: None,
            visible_indices,
            action_menu_selected: 0,
            confirm_pending: None,
            status_cache: String::new(),
            journal_cache: Vec::new(),
            log_scroll: 0,
            log_live: false,
            unit_file_cache: Vec::new(),
            unit_file_scroll: 0,
            status_message: None,
            status_message_ticks: 0,
            loading: false,
            refresh_ticks: 0,
        };
        assert(app@.entries =~= initial_view(scope, lv).entries);
        assert(app@ =~= initial_view(scope, lv));
        app
    }
}

/// The hint line of normal mode.
pub open spec fn normal_hints() -> Seq<char> {
    "  j/k navigate  g/G top/bot  / filter  t type  enter action  l logs  u unit-file  r refresh  ? help  q quit"@
}

/// The text of the status bar: the listing error first, then a status
/// message, else the hints of the mode (in normal mode after the type
/// filter and a loading mark, in the log view with a mark when following).
pub open spec fn status_bar(v: AppView) -> Seq<char> {
    match v.last_error {
        Some(e) => " ✗ "@ + e,
        None => match v.status_message {
            Some(m) => " "@ + m,
            None => match v.mode {
                Mode::Normal => {
                    let type_label = match v.type_filter {
                        Some(t) => " [type:"@ + t + "]"@,
                        None => seq![],
                    };
                    let loading = if v.loading {
                        " ⟳"@
                    } else {
                        seq![]
                    };
                    type_label + loading + normal_hints()
                },
                Mode::Filtering => "  type to search  enter confirm  esc cancel"@,
                Mode::ActionMenu => "  j/k navigate  enter confirm  esc cancel"@,
                Mode::LogView => "  j/k scroll  f toggle live-tail"@ + (if v.log_live {
                    " [LIVE]"@
                } else {
                    seq![]
                }) + "  esc/q close"@,
                Mode::Confirm => "  y confirm  n/esc cancel"@,
                Mode::UnitFile => "  j/k scroll  ctrl-d/u page  esc/q close"@,
                Mode::Help => "  esc/q close"@,
            },
        },
    }
}

impl App {
    /// The text of the status bar (see `status_bar`).
    pub fn status_bar_text(&self) -> (r: String)
        ensures
            r@ == status_bar(self@),
    {
        let mut s = String::new();
        match &self.units.last_error {
            Some(err) => {
                push_str(&mut s, " ✗ ");
                push_str(&mut s, err.as_str());
                return s;
            },
            None => {},
        }
        match &self.status_message {
            Some(msg) => {
                push_str(&mut s, " ");
                push_str(&mut s, msg.as_str());
                return s;
            },
            None => {},
        }
        match self.mode {
            Mode::Normal => {
                match &self.type_filter {
                    Some(t) => {
                        push_str(&mut s, " [type:");
                        push_str(&mut s, t.as_str());
                        push_str(&mut s, "]");
                    },
                    None => {},
                }
                if self.loading {
                    push_str(&mut s, " ⟳");
                }
                push_str(
                    &mut s,
                    "  j/k navigate  g/G top/bot  / filter  t type  enter action  l logs  u unit-file  r refresh  ? help  q quit",
                );
            },
            Mode::Filtering => push_str(&mut s, "  type to search  enter confirm  esc cancel"),
            Mode::ActionMenu => push_str(&mut s, "  j/k navigate  enter confirm  esc cancel"),
            Mode::LogView => {
                push_str(&mut s, "  j/k scroll  f toggle live-tail");
                if self.log_live {
                    push_str(&mut s, " [LIVE]");
                }
                push_str(&mut s, "  esc/q close");
            },
            Mode::Confirm => push_str(&mut s, "  y confirm  n/esc cancel"),
            Mode::UnitFile => push_str(&mut s, "  j/k scroll  ctrl-d/u page  esc/q close"),
            Mode::Help => push_str(&mut s, "  esc/q close"),
        }
        assert(s@ =~= status_bar(self@));
        s
    }
}

} // verus!

verus! {

/// The state after moving down the action menu `n` times.
pub open spec fn menu_down_times(v: AppView, cfg: Config, n: nat) -> AppView
    decreases n,
{
    if n == 0 {
        v
    } else {
        menu_down_times(step(v, cfg, AppAction::ActionDown).0, cfg, (n - 1) as nat)
    }
}

proof fn lemma_menu_down_times(v: AppView, cfg: Config, n: nat)
    requires
        v.action_menu_selected < ACTION_COUNT,
    ensures
        menu_down_times(v, cfg, n) == (AppView {
            action_menu_selected: ((v.action_menu_selected + n) % (ACTION_COUNT as int)) as usize,
            ..v
        }),
    decreases n,
{
    if n > 0 {
        let w = step(v, cfg, AppAction::ActionDown).0;
        lemma_menu_down_times(w, cfg, (n - 1) as nat);
        assert(((v.action_menu_selected + 1) % 8 + (n - 1)) % 8 == (v.action_menu_selected + n) % 8);
    } else {
        assert(v.action_menu_selected % 8 == v.action_menu_selected);
        assert(v == AppView { action_menu_selected: v.action_menu_selected, ..v });
    }
}

/// The action menu wraps around: moving down as many times as it has
/// actions comes back to the same action, and moving up undoes moving down.
pub proof fn lemma_menu_wraps(v: AppView, cfg: Config)
    requires
        view_wf(v),
    ensures
        menu_down_times(v, cfg, ACTION_COUNT as nat) == v,
        step(step(v, cfg, AppAction::ActionDown).0, cfg, AppAction::ActionUp).0 == v,
{
    lemma_menu_down_times(v, cfg, 8);
    assert((v.action_menu_selected + 8) % 8 == v.action_menu_selected);
}

/// Closing a view or dialog, cancelling the filter or the menu, and
/// refusing a confirmation all return to normal mode; cancelling the
/// filter also empties it.
pub proof fn lemma_closing_returns_to_normal(v: AppView, cfg: Config)
    ensures
        step(v, cfg, AppAction::LogClose).0.mode == Mode::Normal,
        !step(v, cfg, AppAction::LogClose).0.log_live,
        step(v, cfg, AppAction::UnitFileClose).0.mode == Mode::Normal,
        step(v, cfg, AppAction::HelpClose).0.mode == Mode::Normal,
        step(v, cfg, AppAction::ActionCancel).0.mode == Mode::Normal,
        step(v, cfg, AppAction::ConfirmNo).0.mode == Mode::Normal,
        step(v, cfg, AppAction::ConfirmNo).0.confirm_pending is None,
        step(v, cfg, AppAction::FilterConfirm).0.mode == Mode::Normal,
        step(v, cfg, AppAction::FilterCancel).0.mode == Mode::Normal,
        step(v, cfg, AppAction::FilterCancel).0.filter_query.len() == 0,
{
}

/// Only the quit key quits.
pub proof fn lemma_only_quit_quits(v: AppView, cfg: Config, a: AppAction)
    ensures
        step(v, cfg, a).1 <==> a == AppAction::Quit,
{
}

/// Scrolling the log or the unit file never goes past the last line.
pub proof fn lemma_scroll_bounded(v: AppView, cfg: Config)
    ensures
        step(v, cfg, AppAction::LogScrollDown).0.log_scroll <= if v.journal_cache.len() > 0 {
            v.journal_cache.len() - 1
        } else {
            0
        },
        step(v, cfg, AppAction::UnitFileScrollDown).0.unit_file_scroll <= if v.unit_file_cache.len()
            > 0 {
            v.unit_file_cache.len() - 1
        } else {
            0
        },
        step(v, cfg, AppAction::LogScrollUp).0.log_scroll <= v.log_scroll,
{
}

/// A destructive action waits for confirmation when confirmations are on;
/// the confirmation then runs the action that was chosen on the selected
/// unit and closes the dialog.
pub proof fn lemma_confirm_then_run(v: AppView, cfg: Config)
    requires
        view_wf(v),
        cfg.display.confirm_destructive,
        all_actions()[v.action_menu_selected as int].spec_destructive(),
        v.selected < v.entries.len(),
    ensures
        ({
            let (w, _, e) = step(v, cfg, AppAction::ActionConfirm);
            &&& w.mode == Mode::Confirm
            &&& e.len() == 0
            &&& step(w, cfg, AppAction::ConfirmYes).2 == seq![
                EffectView::RunAction {
                    action: all_actions()[v.action_menu_selected as int],
                    name: v.entries[v.selected as int].name,
                    scope: v.scope,
                },
            ]
            &&& step(w, cfg, AppAction::ConfirmYes).0.mode == Mode::Normal
        }),
{
}

} // verus!

verus! {

/// The state after `k` ticks.
pub open spec fn ticks_after(v: AppView, cfg: Config, k: nat) -> AppView
    decreases k,
{
    if k == 0 {
        v
    } else {
        ticks_after(ticked(v, cfg).0, cfg, (k - 1) as nat)
    }
}

/// A status message stays up, counting down, for as many ticks as its
/// countdown shows, and is gone after the next tick.
pub proof fn lemma_message_countdown(v: AppView, cfg: Config, k: nat)
    requires
        v.status_message is Some,
        k <= v.status_message_ticks + 1,
    ensures
        k <= v.status_message_ticks ==> ticks_after(v, cfg, k).status_message == v.status_message
            && ticks_after(v, cfg, k).status_message_ticks == v.status_message_ticks - k,
        k == v.status_message_ticks + 1 ==> ticks_after(v, cfg, k).status_message is None,
    decreases k,
{
    if k > 0 {
        let w = ticked(v, cfg).0;
        if v.status_message_ticks > 0 {
            assert(w.status_message == v.status_message);
            assert(w.status_message_ticks == v.status_message_ticks - 1);
            lemma_message_countdown(w, cfg, (k - 1) as nat);
        } else {
            assert(w.status_message is None);
        }
    }
}

/// A message shown by a finished or failed action (countdown
/// `MESSAGE_TICKS`, about three seconds at the default tick rate) survives
/// that many ticks and is gone after one more.
pub proof fn lemma_message_lasts(v: AppView, cfg: Config, m: Seq<char>)
    ensures
        ticks_after(with_message(v, m), cfg, MESSAGE_TICKS as nat).status_message == Some(m),
        ticks_after(with_message(v, m), cfg, (MESSAGE_TICKS + 1) as nat).status_message is None,
{
    lemma_message_countdown(with_message(v, m), cfg, MESSAGE_TICKS as nat);
    lemma_message_countdown(with_message(v, m), cfg, (MESSAGE_TICKS + 1) as nat);
}

} // verus!

verus! {

/// Refusing a confirmation starts no job and changes nothing but the
/// pending action, which is dropped, and the mode, which is back to normal.
pub proof fn lemma_refusal_runs_nothing(v: AppView, cfg: Config)
    ensures
        step(v, cfg, AppAction::ConfirmNo).2 == Seq::<EffectView>::empty(),
        !step(v, cfg, AppAction::ConfirmNo).1,
        step(v, cfg, AppAction::ConfirmNo).0 == (AppView {
            confirm_pending: None,
            mode: Mode::Normal,
            ..v
        }),
        step(v, cfg, AppAction::ActionCancel).2 == Seq::<EffectView>::empty(),
{
}

/// Only confirming or choosing from the action menu runs an action: no
/// other key ever asks for a `RunAction` job.
pub proof fn lemma_only_confirmation_runs_actions(v: AppView, cfg: Config, a: AppAction)
    requires
        a != AppAction::ActionConfirm,
        a != AppAction::ConfirmYes,
    ensures
        forall|i: int|
            0 <= i < step(v, cfg, a).2.len() ==> !(#[trigger] step(v, cfg, a).2[i] is RunAction),
{
    if a is FilterType || a is FilterChar || a is FilterBackspace || a is FilterCancel {
        let w = match a {
            AppAction::FilterType => AppView { type_filter: next_type_spec(v.type_filter), ..v },
            AppAction::FilterChar(c) => AppView { filter_query: v.filter_query.push(c), ..v },
            AppAction::FilterBackspace => AppView { filter_query: without_last(v.filter_query), ..v },
            _ => AppView { filter_query: seq![], ..v },
        };
        assert(step(v, cfg, a).2 == refiltered(w).1);
    }
}

/// Recomputing the visible rows keeps a selection that is still visible,
/// without fetching anything; a selection that is no longer visible moves to
/// the first visible row, whose status is fetched; either way the selection
/// ends on a visible row when there is one.
pub proof fn lemma_refilter_keeps_visible_selection(v: AppView)
    ensures
        ({
            let (w, e) = refiltered(v);
            &&& w.visible.contains(v.selected) ==> w.selected == v.selected && e
                == Seq::<EffectView>::empty()
            &&& (w.visible.len() > 0 && !w.visible.contains(v.selected)) ==> w.selected
                == w.visible[0] && e == status_effects(w)
            &&& w.visible.len() > 0 ==> w.visible.contains(w.selected)
            &&& w.visible.len() == 0 ==> w.selected == v.selected
        }),
{
    let (w, e) = refiltered(v);
    if w.visible.len() > 0 && !w.visible.contains(v.selected) {
        assert(w.visible.contains(w.visible[0]));
    }
}

} // verus!

verus! {

/// Accepting a confirmation runs exactly the action that waited for it, on
/// the selected unit, and closes the dialog; with nothing waiting it does
/// nothing at all.
pub proof fn lemma_confirmation_runs_pending(v: AppView, cfg: Config)
    requires
        view_wf(v),
    ensures
        v.confirm_pending is None ==> step(v, cfg, AppAction::ConfirmYes) == (
            v,
            false,
            Seq::<EffectView>::empty(),
        ),
        (v.confirm_pending matches Some(i) && v.selected < v.entries.len()) ==> step(
            v,
            cfg,
            AppAction::ConfirmYes,
        ).2 == seq![
            EffectView::RunAction {
                action: all_actions()[v.confirm_pending->0 as int],
                name: v.entries[v.selected as int].name,
                scope: v.scope,
            },
        ],
        v.confirm_pending is Some ==> step(v, cfg, AppAction::ConfirmYes).0.confirm_pending is None
            && step(v, cfg, AppAction::ConfirmYes).0.mode == Mode::Normal,
{
}

/// An action that needs no confirmation runs at once on the selected unit
/// when chosen from the menu.
pub proof fn lemma_choice_runs_at_once(v: AppView, cfg: Config)
    requires
        view_wf(v),
        !(cfg.display.confirm_destructive && all_actions()[v.action_menu_selected as int].spec_destructive()),
        v.selected < v.entries.len(),
    ensures
        step(v, cfg, AppAction::ActionConfirm).2 == seq![
            EffectView::RunAction {
                action: all_actions()[v.action_menu_selected as int],
                name: v.entries[v.selected as int].name,
                scope: v.scope,
            },
        ],
        step(v, cfg, AppAction::ActionConfirm).0.mode == Mode::Normal,
        step(v, cfg, AppAction::ActionConfirm).0.confirm_pending == v.confirm_pending,
{
}

} // verus!
