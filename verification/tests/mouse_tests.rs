use zenvi::input::Modifiers;
use zenvi::mouse::{ime_commit_text, mods_to_nvim, wheel_direction, DragTarget, DragTracker, GridPos};

fn mods(control: bool, shift: bool, alt: bool, platform: bool) -> Modifiers {
    Modifiers { control, alt, shift, platform, function: false }
}

#[test]
fn modifier_strings_follow_neovims_order() {
    assert_eq!(mods_to_nvim(&mods(false, false, false, false)), "");
    assert_eq!(mods_to_nvim(&mods(true, false, false, false)), "C");
    assert_eq!(mods_to_nvim(&mods(true, true, false, false)), "CS");
    assert_eq!(mods_to_nvim(&mods(false, true, true, true)), "SMD");
    assert_eq!(mods_to_nvim(&mods(true, true, true, true)), "CSMD");
}

#[test]
fn at_most_one_drag_in_flight() {
    let none = mods(false, false, false, false);
    let mut t = DragTracker::new();
    t.mouse_down(true, 5, 5, 80);
    assert!(t.is_mouse_down);
    assert_eq!(t.scrollbar_drag_col, None);

    let first = t.mouse_move(6, 5, none);
    assert_eq!(first, Some(DragTarget { col: 6, row: 5, mods: none }));
    assert!(t.is_drag_in_flight);

    assert_eq!(t.mouse_move(7, 5, none), None);
    assert_eq!(t.mouse_move(8, 6, none), None);
    assert_eq!(t.pending_mouse_drag, Some(DragTarget { col: 8, row: 6, mods: none }));

    let next = t.drag_finished();
    assert_eq!(next, Some(DragTarget { col: 8, row: 6, mods: none }));
    assert!(t.is_drag_in_flight);
    assert_eq!(t.pending_mouse_drag, None);

    assert_eq!(t.drag_finished(), None);
    assert!(!t.is_drag_in_flight);
}

#[test]
fn same_position_sends_nothing() {
    let none = mods(false, false, false, false);
    let mut t = DragTracker::new();
    t.mouse_down(true, 5, 5, 80);
    assert_eq!(t.mouse_move(5, 5, none), None);
    assert!(!t.is_drag_in_flight);
}

#[test]
fn moves_without_a_press_are_ignored() {
    let none = mods(false, false, false, false);
    let mut t = DragTracker::new();
    assert_eq!(t.mouse_move(1, 1, none), None);
    t.mouse_down(false, 1, 1, 80);
    assert!(!t.is_mouse_down);
}

#[test]
fn scrollbar_drags_keep_their_column() {
    let none = mods(false, false, false, false);
    let mut t = DragTracker::new();
    t.mouse_down(true, 78, 3, 80);
    assert_eq!(t.scrollbar_drag_col, Some(78));
    assert_eq!(t.mouse_move(40, 4, none), Some(DragTarget { col: 78, row: 4, mods: none }));
    assert_eq!(t.last_mouse_pos, Some(GridPos { col: 78, row: 4 }));
    assert_eq!(t.mouse_up(true, 10, 4), 78);
    assert!(!t.is_mouse_down);
    assert_eq!(t.scrollbar_drag_col, None);
    assert_eq!(t.mouse_up(false, 10, 4), 10);
}

#[test]
fn release_ends_tracking_and_drops_waiting_drags() {
    let none = mods(false, false, false, false);
    let mut t = DragTracker::new();
    t.mouse_down(true, 1, 1, 80);
    t.mouse_move(2, 1, none);
    t.mouse_move(3, 1, none);
    t.mouse_up(true, 3, 1);
    assert_eq!(t.pending_mouse_drag, None);
    assert_eq!(t.drag_finished(), None);
}

#[test]
fn ime_commits() {
    assert_eq!(ime_commit_text(false, "a"), None);
    assert_eq!(ime_commit_text(true, "a"), Some("a".to_string()));
    assert_eq!(ime_commit_text(false, "中"), Some("中".to_string()));
    assert_eq!(ime_commit_text(false, "ab"), Some("ab".to_string()));
    assert_eq!(ime_commit_text(true, "<"), Some("<lt>".to_string()));
    assert_eq!(ime_commit_text(true, ""), None);
}

#[test]
fn wheel_steps() {
    assert_eq!(wheel_direction(2), Some("up"));
    assert_eq!(wheel_direction(-1), Some("down"));
    assert_eq!(wheel_direction(0), None);
}
