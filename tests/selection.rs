use tui_dashboard::{ConfigError, StatefulList, TabsState};

fn tabs(titles: &[&str]) -> TabsState {
    TabsState::new(titles.iter().map(|t| t.to_string()).collect()).unwrap()
}

#[test]
fn tabs_two_titles_next_wraps() {
    let mut t = tabs(&["Tab0", "Tab1"]);
    assert_eq!(t.index(), 0);
    t.next();
    assert_eq!(t.index(), 1);
    t.next();
    assert_eq!(t.index(), 0);
}

#[test]
fn tabs_previous_wraps_to_last() {
    let mut t = tabs(&["a", "b", "c"]);
    t.previous();
    assert_eq!(t.index(), 2);
    t.previous();
    assert_eq!(t.index(), 1);
    assert_eq!(t.titles().len(), 3);
}

#[test]
fn tabs_len_steps_return_to_start() {
    let mut t = tabs(&["a", "b", "c", "d", "e"]);
    t.next();
    t.next();
    let start = t.index();
    for _ in 0..5 {
        t.next();
        assert!(t.index() < 5);
    }
    assert_eq!(t.index(), start);
}

#[test]
fn tabs_single_title_stays_put() {
    let mut t = tabs(&["only"]);
    t.next();
    assert_eq!(t.index(), 0);
    t.previous();
    assert_eq!(t.index(), 0);
}

#[test]
fn tabs_empty_titles_rejected() {
    assert_eq!(TabsState::new(vec![]).err(), Some(ConfigError::EmptyTabs));
}

#[test]
fn list_starts_unselected_and_next_picks_first() {
    let mut l = StatefulList::with_items(vec!["x", "y", "z"]);
    assert_eq!(l.selected(), None);
    l.next();
    assert_eq!(l.selected(), Some(0));
    l.next();
    l.next();
    assert_eq!(l.selected(), Some(2));
    l.next();
    assert_eq!(l.selected(), Some(0));
}

#[test]
fn list_previous_from_nothing_picks_last() {
    let mut l = StatefulList::with_items(vec![1, 2, 3, 4]);
    l.previous();
    assert_eq!(l.selected(), Some(3));
    l.previous();
    assert_eq!(l.selected(), Some(2));
}

#[test]
fn list_next_then_previous_round_trip() {
    let mut l = StatefulList::with_items(vec!['a', 'b', 'c']);
    for start in 0..3usize {
        while l.selected() != Some(start) {
            l.next();
        }
        l.next();
        l.previous();
        assert_eq!(l.selected(), Some(start));
        l.previous();
        l.next();
        assert_eq!(l.selected(), Some(start));
    }
}

#[test]
fn list_empty_navigation_is_noop() {
    let mut l: StatefulList<String> = StatefulList::with_items(vec![]);
    l.next();
    assert_eq!(l.selected(), None);
    l.previous();
    assert_eq!(l.selected(), None);
    assert!(l.items().is_empty());
}
