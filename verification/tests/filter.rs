use sysdx::filter::{next_type, order_by_score, rank, type_cycle};
use sysdx::units::UnitEntry;

fn make_entry(name: &str, desc: &str, unit_type: &str) -> UnitEntry {
    UnitEntry {
        name: name.to_string(),
        description: desc.to_string(),
        load_state: "loaded".to_string(),
        active_state: "active".to_string(),
        sub_state: "running".to_string(),
        unit_type: unit_type.to_string(),
    }
}

#[test]
fn empty_query_returns_all_indices() {
    let entries = vec![
        make_entry("foo.service", "", "service"),
        make_entry("bar.socket", "", "socket"),
    ];
    let indices = vec![0, 1];
    assert_eq!(rank("", &entries, &indices), vec![0, 1]);
}

#[test]
fn empty_indices_returns_empty() {
    let entries = vec![make_entry("foo.service", "", "service")];
    assert_eq!(rank("foo", &entries, &[]), Vec::<usize>::new());
}

#[test]
fn filters_by_name() {
    let entries = vec![
        make_entry("pipewire.service", "PipeWire", "service"),
        make_entry("bluetooth.service", "Bluetooth", "service"),
        make_entry("networkmanager.service", "Network Manager", "service"),
    ];
    let indices = vec![0, 1, 2];
    let result = rank("pipe", &entries, &indices);
    assert!(result.contains(&0));
    assert!(!result.contains(&1));
}

#[test]
fn type_cycle_wraps_around() {
    // start at None, cycle forward, should eventually return to None
    let mut current: Option<String> = None;
    let start = current.clone();
    for _ in 0..type_cycle().len() {
        current = next_type(&current);
    }
    assert_eq!(current, start);
}

#[test]
fn next_type_from_none_is_service() {
    assert_eq!(next_type(&None), Some("service".to_string()));
}

#[test]
fn empty_query_keeps_order_and_repeats() {
    let entries = vec![make_entry("a.service", "", "service")];
    assert_eq!(rank("", &entries, &[0, 0, 3]), vec![0, 0, 3]);
}

#[test]
fn rank_keeps_only_matches_of_given_indices() {
    let entries = vec![
        make_entry("pipewire.service", "PipeWire", "service"),
        make_entry("pipewire-pulse.service", "PipeWire Pulse", "service"),
        make_entry("cron.service", "Cron", "service"),
    ];
    let result = rank("pipe", &entries, &[1, 2]);
    assert_eq!(result, vec![1]);
}

#[test]
fn rank_matches_the_type() {
    let entries = vec![
        make_entry("a.socket", "", "socket"),
        make_entry("b.timer", "", "timer"),
    ];
    let result = rank("timer", &entries, &[0, 1]);
    assert_eq!(result, vec![1]);
}

#[test]
fn rank_ties_keep_input_order() {
    let entries = vec![
        make_entry("x.service", "same", "service"),
        make_entry("x.service", "same", "service"),
        make_entry("x.service", "same", "service"),
    ];
    assert_eq!(rank("same", &entries, &[2, 0, 1]), vec![2, 0, 1]);
}

#[test]
fn rank_orders_by_score() {
    let entries = vec![
        make_entry("s-o-c-k-e-t.path", "", "path"),
        make_entry("socket.socket", "", "socket"),
    ];
    let result = rank("socket", &entries, &[0, 1]);
    assert_eq!(result.len(), 2);
    assert_eq!(result[0], 1);
}

#[test]
fn type_cycle_order() {
    let names: Vec<Option<String>> = type_cycle();
    assert_eq!(
        names,
        vec![
            None,
            Some("service".to_string()),
            Some("socket".to_string()),
            Some("timer".to_string()),
            Some("target".to_string()),
            Some("mount".to_string()),
            Some("path".to_string()),
        ]
    );
    assert_eq!(next_type(&Some("path".to_string())), None);
    assert_eq!(next_type(&Some("socket".to_string())), Some("timer".to_string()));
}

#[test]
fn unknown_type_is_followed_by_service() {
    assert_eq!(next_type(&Some("device".to_string())), Some("service".to_string()));
}

#[test]
fn order_by_score_is_stable_and_descending() {
    assert_eq!(order_by_score(vec![(0, 5), (1, 9), (2, 5), (3, 7), (4, 9)]), vec![1, 4, 3, 0, 2]);
    assert_eq!(order_by_score(vec![]), Vec::<usize>::new());
    assert_eq!(order_by_score(vec![(7, 0), (7, 0)]), vec![7, 7]);
}

#[test]
fn type_hint_selects_units_of_that_type() {
    let entries = vec![
        make_entry("cron.service", "Cron", "service"),
        make_entry("dbus.socket", "D-Bus", "socket"),
        make_entry("backup.timer", "Backup", "timer"),
    ];
    assert_eq!(rank("t:service", &entries, &[0, 1, 2]), vec![0]);
    assert_eq!(rank("t:socket", &entries, &[0, 1, 2]), vec![1]);
}
