use sysdx::systemd::{RawUnit, Scope};
use sysdx::units::{UnitEntry, UnitList};

fn raw(unit: &str, active: &str) -> RawUnit {
    RawUnit {
        unit: unit.to_string(),
        load: "loaded".to_string(),
        active: active.to_string(),
        sub: "running".to_string(),
        description: "d".to_string(),
    }
}

fn list(n: usize) -> UnitList {
    let mut l = UnitList::new(Scope::User);
    l.refresh(Ok((0..n).map(|i| raw(&format!("u{}.service", i), "active")).collect()));
    l
}

#[test]
fn entry_type_is_last_suffix() {
    assert_eq!(UnitEntry::from_raw(raw("foo.service", "active")).unit_type, "service");
    assert_eq!(UnitEntry::from_raw(raw("a.b.mount", "active")).unit_type, "mount");
    assert_eq!(UnitEntry::from_raw(raw("noext", "active")).unit_type, "");
    assert_eq!(UnitEntry::from_raw(raw("trailing.", "active")).unit_type, "");
}

#[test]
fn indicators() {
    assert_eq!(UnitEntry::from_raw(raw("a", "active")).status_indicator(), "●");
    assert_eq!(UnitEntry::from_raw(raw("a", "failed")).status_indicator(), "✗");
    assert_eq!(UnitEntry::from_raw(raw("a", "inactive")).status_indicator(), "○");
    assert_eq!(UnitEntry::from_raw(raw("a", "activating")).status_indicator(), "·");
}

#[test]
fn refresh_clamps_selection() {
    let mut l = list(5);
    l.selected = 4;
    l.refresh(Ok(vec![raw("a.service", "active"), raw("b.service", "active")]));
    assert_eq!(l.selected, 1);
    assert!(l.last_error.is_none());
    l.refresh(Err("boom".to_string()));
    assert_eq!(l.last_error, Some("boom".to_string()));
    assert_eq!(l.entries.len(), 2);
    l.refresh(Ok(vec![]));
    assert_eq!(l.selected, 1);
    assert!(l.selected_entry().is_none());
}

#[test]
fn move_down_and_up() {
    let mut l = list(5);
    let vis = vec![4, 2, 0];
    l.selected = 3;
    l.move_down(&vis);
    assert_eq!(l.selected, 4);
    l.move_down(&vis);
    assert_eq!(l.selected, 2);
    l.move_down(&vis);
    l.move_down(&vis);
    assert_eq!(l.selected, 0);
    l.move_up(&vis);
    assert_eq!(l.selected, 2);
    l.move_up(&vis);
    l.move_up(&vis);
    assert_eq!(l.selected, 4);
    l.move_up(&[]);
    assert_eq!(l.selected, 4);
}

#[test]
fn top_bottom_and_pages() {
    let mut l = list(30);
    let vis: Vec<usize> = (0..30).collect();
    l.go_bottom(&vis);
    assert_eq!(l.selected, 29);
    l.go_top(&vis);
    assert_eq!(l.selected, 0);
    l.page_down(&vis, 10);
    assert_eq!(l.selected, 10);
    l.page_down(&vis, 25);
    assert_eq!(l.selected, 29);
    l.page_up(&vis, 10);
    assert_eq!(l.selected, 19);
    l.page_up(&vis, 100);
    assert_eq!(l.selected, 0);
    l.selected = 99;
    l.page_down(&vis, 3);
    assert_eq!(l.selected, 3);
}

#[test]
fn switching_scope() {
    let mut l = list(3);
    l.selected = 2;
    l.scroll_offset = 7;
    l.switch_scope(Ok(vec![raw("x.service", "active")]));
    assert_eq!(l.scope, Scope::System);
    assert_eq!(l.selected, 0);
    assert_eq!(l.scroll_offset, 0);
    assert_eq!(l.entries.len(), 1);
    assert_eq!(l.selected_entry().unwrap().name, "x.service");
}

#[test]
fn moves_stay_among_visible_rows() {
    let vis = vec![3, 1, 4];
    for start in 0..6 {
        for step in 0..6 {
            let mut l = list(6);
            l.selected = start;
            match step {
                0 => l.move_down(&vis),
                1 => l.move_up(&vis),
                2 => l.page_down(&vis, 10),
                3 => l.page_up(&vis, 10),
                4 => l.go_top(&vis),
                _ => l.go_bottom(&vis),
            }
            assert!(vis.contains(&l.selected));
        }
    }
}
