//! User settings: display options, key bindings and colours, with their
//! defaults, and the merging of a settings file over the defaults.

use vstd::prelude::*;

verus! {

/// All settings.
#[derive(Debug, Clone)]
pub struct Config {
    pub display: DisplayOptions,
    pub keybinds: KeyBinds,
    pub colors: Colors,
}

/// How the lists and panes are shown and refreshed.
#[derive(Debug, Clone)]
pub struct DisplayOptions {
    pub journal_lines: usize,
    pub tick_rate_ms: u64,
    pub show_description: bool,
    pub list_width_pct: u16,
    pub date_format: String,
    /// Seconds between automatic reloads of the unit list; 0 turns them off.
    pub auto_refresh_secs: u64,
    /// Whether destructive actions wait for a confirmation.
    pub confirm_destructive: bool,
}

/// The keys of normal mode, each written as `key_to_string` writes a key.
#[derive(Debug, Clone)]
pub struct KeyBinds {
    pub move_down: String,
    pub move_up: String,
    pub page_down: String,
    pub page_up: String,
    pub go_top: String,
    pub go_bottom: String,
    pub filter: String,
    pub action_menu: String,
    pub switch_scope: String,
    pub open_logs: String,
    pub quit: String,
    pub refresh: String,
    pub open_unit_file: String,
    pub help: String,
    pub type_filter: String,
}

/// Colour overrides, each a `#rrggbb` hex string; `None` keeps the default.
#[derive(Debug, Clone)]
pub struct Colors {
    pub background: Option<String>,
    pub surface: Option<String>,
    pub border: Option<String>,
    pub border_focused: Option<String>,
    pub text: Option<String>,
    pub text_dim: Option<String>,
    pub selection_bg: Option<String>,
    pub selection_fg: Option<String>,
    pub active: Option<String>,
    pub inactive: Option<String>,
    pub failed: Option<String>,
    pub filter_bar: Option<String>,
    pub header: Option<String>,
}

fn owned(s: &str) -> (r: String)
    ensures
        r@ == s@,
{
    String::from_str(s)
}

impl Default for DisplayOptions {
    fn default() -> (r: DisplayOptions)
        ensures
            r.journal_lines == 50,
            r.tick_rate_ms == 250,
            r.show_description,
            r.list_width_pct == 40,
            r.date_format@ == "%H:%M:%S"@,
            r.auto_refresh_secs == 0,
            r.confirm_destructive,
    {
        DisplayOptions {
            journal_lines: 50,
            tick_rate_ms: 250,
            show_description: true,
            list_width_pct: 40,
            date_format: owned("%H:%M:%S"),
            auto_refresh_secs: 0,
            confirm_destructive: true,
        }
    }
}

impl Default for KeyBinds {
    fn default() -> (r: KeyBinds)
        ensures
            r.move_down@ == "j"@,
            r.move_up@ == "k"@,
            r.page_down@ == "ctrl-d"@,
            r.page_up@ == "ctrl-u"@,
            r.go_top@ == "g"@,
            r.go_bottom@ == "G"@,
            r.filter@ == "/"@,
            r.action_menu@ == "enter"@,
            r.switch_scope@ == "tab"@,
            r.open_logs@ == "l"@,
            r.quit@ == "q"@,
            r.refresh@ == "r"@,
            r.open_unit_file@ == "u"@,
            r.help@ == "?"@,
            r.type_filter@ == "t"@,
    {
        KeyBinds {
            move_down: owned("j"),
            move_up: owned("k"),
            page_down: owned("ctrl-d"),
            page_up: owned("ctrl-u"),
            go_top: owned("g"),
            go_bottom: owned("G"),
            filter: owned("/"),
            action_menu: owned("enter"),
            switch_scope: owned("tab"),
            open_logs: owned("l"),
            quit: owned("q"),
            refresh: owned("r"),
            open_unit_file: owned("u"),
            help: owned("?"),
            type_filter: owned("t"),
        }
    }
}

impl Default for Colors {
    fn default() -> (r: Colors)
        ensures
            r.background is None && r.surface is None && r.border is None && r.border_focused is None
                && r.text is None && r.text_dim is None && r.selection_bg is None
                && r.selection_fg is None && r.active is None && r.inactive is None
                && r.failed is None && r.filter_bar is None && r.header is None,
    {
        Colors {
            background: None,
            surface: None,
            border: None,
            border_focused: None,
            text: None,
            text_dim: None,
            selection_bg: None,
            selection_fg: None,
            active: None,
            inactive: None,
            failed: None,
            filter_bar: None,
            header: None,
        }
    }
}

impl Default for Config {
    fn default() -> (r: Config)
        ensures
            r.display.journal_lines == 50,
            r.display.tick_rate_ms == 250,
            r.display.show_description,
            r.display.list_width_pct == 40,
            r.display.date_format@ == "%H:%M:%S"@,
            r.display.auto_refresh_secs == 0,
            r.display.confirm_destructive,
            r.keybinds.move_down@ == "j"@,
            r.keybinds.move_up@ == "k"@,
            r.keybinds.page_down@ == "ctrl-d"@,
            r.keybinds.page_up@ == "ctrl-u"@,
            r.keybinds.go_top@ == "g"@,
            r.keybinds.go_bottom@ == "G"@,
            r.keybinds.filter@ == "/"@,
            r.keybinds.action_menu@ == "enter"@,
            r.keybinds.switch_scope@ == "tab"@,
            r.keybinds.open_logs@ == "l"@,
            r.keybinds.quit@ == "q"@,
            r.keybinds.refresh@ == "r"@,
            r.keybinds.open_unit_file@ == "u"@,
            r.keybinds.help@ == "?"@,
            r.keybinds.type_filter@ == "t"@,
            r.colors.background is None && r.colors.surface is None && r.colors.border is None
                && r.colors.border_focused is None && r.colors.text is None
                && r.colors.text_dim is None && r.colors.selection_bg is None
                && r.colors.selection_fg is None && r.colors.active is None
                && r.colors.inactive is None && r.colors.failed is None
                && r.colors.filter_bar is None && r.colors.header is None,
    {
        Config {
            display: DisplayOptions::default(),
            keybinds: KeyBinds::default(),
            colors: Colors::default(),
        }
    }
}

} // verus!

verus! {

/// A settings document value, declared so that values can be carried
/// through the merge untouched.
#[verifier::external_type_specification]
#[verifier::external_body]
pub struct ExTomlValue(toml::Value);

/// A settings value as the merge sees it: a table of named values, or any
/// other value (string, number, boolean, date, array), carried through as
/// the document holds it.
pub enum ConfigValue {
    Table(Vec<(String, ConfigValue)>),
    Leaf(toml::Value),
}

/// The shape of a `ConfigValue`, with the names as text.
pub enum ConfigTree {
    Table(Seq<(Seq<char>, ConfigTree)>),
    Leaf(toml::Value),
}

/// The view of a table's entries.
pub open spec fn entries_tree(s: Seq<(String, ConfigValue)>) -> Seq<(Seq<char>, ConfigTree)>
    decreases s,
{
    if s.len() == 0 {
        seq![]
    } else {
        entries_tree(s.drop_last()).push((s.last().0@, tree_of(s.last().1)))
    }
}

/// The shape of a value.
pub open spec fn tree_of(v: ConfigValue) -> ConfigTree
    decreases v,
{
    match v {
        ConfigValue::Table(t) => ConfigTree::Table(entries_tree(t@)),
        ConfigValue::Leaf(x) => ConfigTree::Leaf(x),
    }
}

} // verus!

verus! {

/// The first position of the entry named `k` in `t` at or after `i`, or -1.
pub open spec fn key_pos_from(t: Seq<(Seq<char>, ConfigTree)>, k: Seq<char>, i: int) -> int
    decreases t.len() - i,
{
    if i < 0 || i >= t.len() {
        -1
    } else if t[i].0 == k {
        i
    } else {
        key_pos_from(t, k, i + 1)
    }
}

/// The position of the entry named `k` in `t`, or -1.
pub open spec fn key_pos(t: Seq<(Seq<char>, ConfigTree)>, k: Seq<char>) -> int {
    key_pos_from(t, k, 0)
}

/// `base` with the entries of `over` merged in, in order: an entry whose
/// name is new is added at the end; one whose name exists replaces the
/// existing value, except that two tables are merged.
pub open spec fn merge_entries(bt: Seq<(Seq<char>, ConfigTree)>, ot: Seq<(Seq<char>, ConfigTree)>) -> Seq<
    (Seq<char>, ConfigTree),
>
    decreases ot,
{
    if ot.len() == 0 {
        bt
    } else {
        let acc = merge_entries(bt, ot.drop_last());
        let (k, v) = ot.last();
        let i = key_pos(acc, k);
        if i >= 0 {
            let old = acc[i].1;
            if v is Table && old is Table {
                proof {
                    assert(decreases_to!(ot => ot[ot.len() - 1]));
                }
                acc.update(i, (k, merge_tree(old, v)))
            } else {
                acc.update(i, (k, v))
            }
        } else {
            acc.push((k, v))
        }
    }
}

/// `over` merged over `base`: two tables are merged entry by entry (see
/// `merge_entries`); otherwise `base` stays as it is.
pub open spec fn merge_tree(base: ConfigTree, over: ConfigTree) -> ConfigTree
    decreases over,
{
    match (base, over) {
        (ConfigTree::Table(bt), ConfigTree::Table(ot)) => ConfigTree::Table(merge_entries(bt, ot)),
        _ => base,
    }
}

proof fn lemma_entries_tree(s: Seq<(String, ConfigValue)>)
    ensures
        entries_tree(s).len() == s.len(),
        forall|i: int|
            0 <= i < s.len() ==> #[trigger] entries_tree(s)[i] == (s[i].0@, tree_of(s[i].1)),
    decreases s.len(),
{
    if s.len() > 0 {
        lemma_entries_tree(s.drop_last());
        let e = entries_tree(s);
        let p = entries_tree(s.drop_last());
        assert forall|i: int| 0 <= i < s.len() implies #[trigger] e[i] == (s[i].0@, tree_of(
            s[i].1,
        )) by {
            if i < s.len() - 1 {
                assert(e[i] == p[i]);
                assert(s.drop_last()[i] == s[i]);
            }
        }
    }
}

/// Whether a value is a table.
pub fn is_table(v: &ConfigValue) -> (r: bool)
    ensures
        r == (v is Table),
        r == (tree_of(*v) is Table),
{
    match v {
        ConfigValue::Table(_) => true,
        ConfigValue::Leaf(_) => false,
    }
}

fn find_key(t: &Vec<(String, ConfigValue)>, k: &str) -> (r: Option<usize>)
    ensures
        r matches Some(i) ==> i == key_pos(entries_tree(t@), k@) && i < t@.len(),
        r is None ==> key_pos(entries_tree(t@), k@) == -1,
{
    proof {
        lemma_entries_tree(t@);
    }
    let ghost e = entries_tree(t@);
    let mut i: usize = 0;
    while i < t.len()
        invariant
            i <= t@.len(),
            e == entries_tree(t@),
            e.len() == t@.len(),
            forall|q: int| 0 <= q < t@.len() ==> #[trigger] e[q] == (t@[q].0@, tree_of(t@[q].1)),
            key_pos(e, k@) == key_pos_from(e, k@, i as int),
        decreases t@.len() - i,
    {
        assert(e[i as int] == (t@[i as int].0@, tree_of(t@[i as int].1)));
        if crate::text::str_eq(t[i].0.as_str(), k) {
            return Some(i);
        }
        i = i + 1;
    }
    None
}

/// `over` merged over `base` (see `merge_tree`): keys missing from `over`
/// keep the values of `base`.
#[verifier::loop_isolation(false)]
pub fn merge_values(base: ConfigValue, over: ConfigValue) -> (r: ConfigValue)
    ensures
        tree_of(r) == merge_tree(tree_of(base), tree_of(over)),
    decreases over,
{
    let ghost over0 = over;
    let (bt, over_entries) = match over {
        ConfigValue::Table(ot) => match base {
            ConfigValue::Table(bt) => (bt, ot),
            ConfigValue::Leaf(x) => {
                return ConfigValue::Leaf(x);
            },
        },
        ConfigValue::Leaf(_) => {
            return base;
        },
    };
    let ghost orig = over_entries@;
    let ghost bt0 = entries_tree(bt@);
    let ghost ot0 = entries_tree(orig);
    proof {
        lemma_entries_tree(orig);
        assert(decreases_to!(over0 => over_entries));
    }
    // Reverse the entries, so that popping yields them in order.
    let mut ot = over_entries;
    let n = ot.len();
    let mut rev: Vec<(String, ConfigValue)> = Vec::new();
    while ot.len() > 0
        invariant
            ot@.len() + rev@.len() == n,
            n == orig.len(),
            ot@ == orig.take(ot@.len() as int),
            forall|q: int| 0 <= q < rev@.len() ==> #[trigger] rev@[q] == orig[n - 1 - q],
        decreases ot@.len(),
    {
        let x = ot.pop().unwrap();
        assert(ot@ =~= orig.take(ot@.len() as int));
        rev.push(x);
    }
    let mut acc = bt;
    let mut j: usize = 0;
    assert(ot0.take(0) =~= seq![]);
    while rev.len() > 0
        invariant
            n == orig.len(),
            j + rev@.len() == n,
            forall|q: int| 0 <= q < rev@.len() ==> #[trigger] rev@[q] == orig[n - 1 - q],
            ot0 == entries_tree(orig),
            ot0.len() == n,
            forall|i: int| 0 <= i < n ==> #[trigger] ot0[i] == (orig[i].0@, tree_of(orig[i].1)),
            over0 == ConfigValue::Table(over_entries),
            orig == over_entries@,
            entries_tree(acc@) == merge_entries(bt0, ot0.take(j as int)),
        decreases rev@.len(),
    {
        let (k, v) = rev.pop().unwrap();
        assert((k, v) == orig[j as int]);
        let ghost pre = ot0.take(j as int);
        assert(ot0.take(j + 1).drop_last() =~= pre);
        assert(ot0.take(j + 1).last() == (k@, tree_of(v)));
        proof {
            lemma_entries_tree(acc@);
        }
        match find_key(&acc, k.as_str()) {
            Some(i) => {
                let (_, old) = acc.remove(i);
                let ghost acc_before = acc@;
                let merged = if is_table(&v) && is_table(&old) {
                    proof {
                        assert(decreases_to!(over0 => over0->Table_0));
                        assert(over0->Table_0 == over_entries);
                        assert(decreases_to!(over_entries => over_entries@));
                        assert(decreases_to!(orig => orig[j as int]));
                        assert(decreases_to!(orig[j as int] => orig[j as int].1));
                        assert(decreases_to!(over0 => v));
                    }
                    merge_values(old, v)
                } else {
                    v
                };
                acc.insert(i, (k, merged));
                proof {
                    lemma_entries_tree(acc@);
                    lemma_entries_tree(acc_before);
                    assert(entries_tree(acc@) =~= merge_entries(bt0, ot0.take(j + 1)));
                }
            },
            None => {
                let ghost acc_before = acc@;
                acc.push((k, v));
                proof {
                    lemma_entries_tree(acc@);
                    assert(entries_tree(acc@) =~= merge_entries(bt0, ot0.take(j + 1)));
                }
            },
        }
        j = j + 1;
    }
    assert(ot0.take(n as int) =~= ot0);
    ConfigValue::Table(acc)
}

} // verus!

verus! {

/// The value named `k` in a table, if any.
pub open spec fn lookup(t: ConfigTree, k: Seq<char>) -> Option<ConfigTree> {
    match t {
        ConfigTree::Table(s) => {
            let i = key_pos(s, k);
            if i >= 0 {
                Some(s[i].1)
            } else {
                None
            }
        },
        ConfigTree::Leaf(_) => None,
    }
}

/// Whether no two entries of a table share a name, as in a parsed document.
pub open spec fn keys_unique(s: Seq<(Seq<char>, ConfigTree)>) -> bool {
    forall|i: int, j: int| 0 <= i < j < s.len() ==> #[trigger] s[i].0 != #[trigger] s[j].0
}

proof fn lemma_key_pos_from(s: Seq<(Seq<char>, ConfigTree)>, k: Seq<char>, i: int)
    requires
        0 <= i,
    ensures
        key_pos_from(s, k, i) == -1 ==> forall|j: int| i <= j < s.len() ==> #[trigger] s[j].0 != k,
        key_pos_from(s, k, i) != -1 ==> i <= key_pos_from(s, k, i) < s.len() && s[key_pos_from(
            s,
            k,
            i,
        )].0 == k && forall|j: int| i <= j < key_pos_from(s, k, i) ==> #[trigger] s[j].0 != k,
    decreases s.len() - i,
{
    if i < s.len() && s[i].0 != k {
        lemma_key_pos_from(s, k, i + 1);
    }
}

/// `key_pos` is the first position holding `k`, or -1 when none does.
proof fn lemma_key_pos(s: Seq<(Seq<char>, ConfigTree)>, k: Seq<char>)
    ensures
        key_pos(s, k) == -1 <==> forall|j: int| 0 <= j < s.len() ==> #[trigger] s[j].0 != k,
        key_pos(s, k) != -1 ==> 0 <= key_pos(s, k) < s.len() && s[key_pos(s, k)].0 == k
            && forall|j: int| 0 <= j < key_pos(s, k) ==> #[trigger] s[j].0 != k,
{
    lemma_key_pos_from(s, k, 0);
}

proof fn lemma_key_pos_unique(s: Seq<(Seq<char>, ConfigTree)>, k: Seq<char>, q: int)
    requires
        (q == -1 && forall|j: int| 0 <= j < s.len() ==> #[trigger] s[j].0 != k) || (0 <= q < s.len()
            && s[q].0 == k && forall|j: int| 0 <= j < q ==> #[trigger] s[j].0 != k),
    ensures
        key_pos(s, k) == q,
{
    lemma_key_pos(s, k);
    let p = key_pos(s, k);
    if p != -1 && q != -1 {
        if p < q {
            assert(s[p].0 != k);
        } else if q < p {
            assert(s[q].0 != k);
        }
    } else if p == -1 && q != -1 {
        assert(s[q].0 != k);
    } else if p != -1 && q == -1 {
        assert(s[p].0 != k);
    }
}

/// The expected value of key `k` after merging `ot` over `bt`.
pub open spec fn merged_at(bt: Seq<(Seq<char>, ConfigTree)>, ot: Seq<(Seq<char>, ConfigTree)>, k: Seq<char>) -> Option<
    ConfigTree,
> {
    match (lookup(ConfigTree::Table(bt), k), lookup(ConfigTree::Table(ot), k)) {
        (b, None) => b,
        (Some(bv), Some(ov)) => if ov is Table && bv is Table {
            Some(merge_tree(bv, ov))
        } else {
            Some(ov)
        },
        (None, Some(ov)) => Some(ov),
    }
}

/// Merging a settings table over the defaults: a key that the settings
/// name takes their value (two tables merged in turn); every other key
/// keeps its default, so that nothing the defaults hold goes missing.
pub proof fn lemma_merge_lookup(
    bt: Seq<(Seq<char>, ConfigTree)>,
    ot: Seq<(Seq<char>, ConfigTree)>,
    k: Seq<char>,
)
    requires
        keys_unique(ot),
    ensures
        lookup(merge_tree(ConfigTree::Table(bt), ConfigTree::Table(ot)), k) == merged_at(bt, ot, k),
    decreases ot.len(),
{
    if ot.len() > 0 {
        let op = ot.drop_last();
        assert(keys_unique(op)) by {
            assert forall|i: int, j: int| 0 <= i < j < op.len() implies #[trigger] op[i].0
                != #[trigger] op[j].0 by {
                assert(op[i] == ot[i] && op[j] == ot[j]);
            }
        }
        lemma_merge_lookup(bt, op, k);
        let acc = merge_entries(bt, op);
        let (kl, vl) = ot.last();
        let i = key_pos(acc, kl);
        let res = merge_entries(bt, ot);
        lemma_key_pos(acc, kl);
        lemma_key_pos(acc, k);
        lemma_key_pos(ot, k);
        lemma_key_pos(op, k);
        lemma_key_pos(res, k);
        let new_v = if i >= 0 {
            if vl is Table && acc[i].1 is Table {
                merge_tree(acc[i].1, vl)
            } else {
                vl
            }
        } else {
            vl
        };
        if i >= 0 {
            assert(res == acc.update(i, (kl, new_v)));
        } else {
            assert(res == acc.push((kl, vl)));
        }
        // The positions in `res` carry the names of `acc`, plus `kl` at the end
        // when it was new.
        if k == kl {
            // `k` is the last key of `ot` and no other key of `ot` is `k`.
            assert forall|j: int| 0 <= j < op.len() implies #[trigger] op[j].0 != k by {
                assert(op[j] == ot[j]);
                assert(ot[j].0 != ot[ot.len() - 1].0);
            }
            lemma_key_pos_unique(op, k, -1);
            lemma_key_pos_unique(ot, k, ot.len() - 1);
            if i >= 0 {
                lemma_key_pos_unique(res, k, i);
            } else {
                lemma_key_pos_unique(res, k, acc.len() as int);
            }
        } else {
            let pk = key_pos(acc, k);
            if pk >= 0 {
                lemma_key_pos_unique(res, k, pk);
            } else {
                lemma_key_pos_unique(res, k, -1);
            }
            let po = key_pos(op, k);
            if po >= 0 {
                lemma_key_pos_unique(ot, k, po);
            } else {
                assert forall|j: int| 0 <= j < ot.len() implies #[trigger] ot[j].0 != k by {
                    if j < op.len() {
                        assert(op[j] == ot[j]);
                    }
                }
                lemma_key_pos_unique(ot, k, -1);
            }
        }
    } else {
        lemma_key_pos(ot, k);
    }
}

} // verus!

verus! {

/// Whether every table in `t`, at every depth, names each key once.
pub open spec fn unique_tables(t: ConfigTree) -> bool
    decreases t,
{
    match t {
        ConfigTree::Table(s) => keys_unique(s) && entries_unique_tables(s),
        ConfigTree::Leaf(_) => true,
    }
}

/// Whether every value among the entries has unique keys at every depth.
pub open spec fn entries_unique_tables(s: Seq<(Seq<char>, ConfigTree)>) -> bool
    decreases s,
{
    if s.len() == 0 {
        true
    } else {
        proof {
            assert(decreases_to!(s => s[s.len() - 1]));
        }
        unique_tables(s.last().1) && entries_unique_tables(s.drop_last())
    }
}

/// The value that a settings document parses to, or `None` when it does
/// not parse.
pub uninterp spec fn parsed_settings(text: Seq<char>) -> Option<ConfigTree>;

/// Parses a settings document with `toml::from_str::<toml::Value>` and
/// converts the value one for one (see `config_value_of`). The outcome
/// depends on the text alone. Every table in it names each key once: toml's
/// map type holds a key once, and its parser rejects a repeated key. Not
/// stated: the text of the error, and that the value is a table (a document
/// whose first key is toml's private date-time key gives a date-time).
#[verifier::external_body]
pub fn parse_settings(text: &str) -> (r: Result<ConfigValue, String>)
    ensures
        r is Ok <==> parsed_settings(text@) is Some,
        r matches Ok(v) ==> (Some(tree_of(v)) == parsed_settings(text@) && unique_tables(
            tree_of(v),
        )),
{
    match toml::from_str::<toml::Value>(text) {
        Ok(v) => Ok(config_value_of(v)),
        Err(e) => Err(e.to_string()),
    }
}

/// Converts a `toml::Value` one for one: a table into `ConfigValue::Table`
/// with its entries in the order in which `toml::map::Map::into_iter`
/// yields them, each value converted in turn; any other value into
/// `ConfigValue::Leaf`. It serves `parse_settings` alone.
#[verifier::external_body]
fn config_value_of(v: toml::Value) -> ConfigValue {
    match v {
        toml::Value::Table(t) => ConfigValue::Table(
            t.into_iter().map(|(k, x)| (k, config_value_of(x))).collect(),
        ),
        other => ConfigValue::Leaf(other),
    }
}

/// The settings document `text` merged over `defaults` (see `merge_tree`):
/// fails exactly when the document does not parse; otherwise every key the
/// document names takes its value and every other key keeps its default.
pub fn settings_over(defaults: ConfigValue, text: &str) -> (r: Result<ConfigValue, String>)
    ensures
        r is Ok <==> parsed_settings(text@) is Some,
        r matches Ok(m) ==> (tree_of(m) == merge_tree(tree_of(defaults), parsed_settings(text@)->0)
            && unique_tables(parsed_settings(text@)->0)),
{
    match parse_settings(text) {
        Ok(partial) => Ok(merge_values(defaults, partial)),
        Err(e) => Err(e),
    }
}

/// What a parsed settings file does to the defaults: a key that it names
/// takes its value (two tables merged in turn), every other key keeps its
/// default. A parsed file has unique keys, so `lemma_merge_lookup` applies.
pub proof fn lemma_settings_lookup(
    bt: Seq<(Seq<char>, ConfigTree)>,
    ot: Seq<(Seq<char>, ConfigTree)>,
    k: Seq<char>,
)
    requires
        unique_tables(ConfigTree::Table(ot)),
    ensures
        lookup(merge_tree(ConfigTree::Table(bt), ConfigTree::Table(ot)), k) == merged_at(bt, ot, k),
{
    lemma_merge_lookup(bt, ot, k);
}

} // verus!
