use std::collections::HashSet;

use rc::app::{App, Key, Mode, Outcome, Request};
use rc::fs_ops::copy_candidate;
use rc::listing::Entry;
use rc::panel::Panel;

fn file(name: &str) -> Entry {
    Entry { name: name.to_string(), is_dir: false, size: 1 }
}

fn dir(name: &str) -> Entry {
    Entry { name: name.to_string(), is_dir: true, size: 0 }
}

fn started(left: Vec<Entry>) -> App {
    let mut app = App::new(Some("/l".to_string()), Some("/r".to_string()), "/".to_string());
    app.refresh_both();
    app.resume(Outcome::Listing(left));
    app.resume(Outcome::Listing(vec![]));
    app
}

#[test]
fn moving_back_restores_the_cursor() {
    let entries: Vec<Entry> = (0..7).map(|i| file(&format!("f{i}"))).collect();
    for start in 0..7 {
        for delta in [-9i64, -1, 1, 3, 20] {
            let mut p = Panel { cwd: "/".to_string(), entries: entries.iter().map(|e| file(&e.name)).collect(), cursor: Some(start), selected: HashSet::new() };
            p.move_cursor(delta);
            assert!(p.cursor.unwrap() < 7);
            p.move_cursor(-delta);
            assert_eq!(p.cursor, Some(start));
        }
    }
}

#[test]
fn page_moves_stay_on_rows() {
    let mut p = Panel::new("/".to_string(), (0..5).map(|i| file(&format!("f{i}"))).collect());
    for page in [0usize, 1, 4, 20, usize::MAX] {
        p.page_move(page, true);
        assert!(p.cursor.unwrap() < 5);
        p.page_move(page, false);
        assert!(p.cursor.unwrap() < 5);
    }
}

#[test]
fn listing_keeps_every_entry_once() {
    let listing = vec![file("b"), dir("B"), file("a"), dir("c"), file("A")];
    let p = Panel::new("/home".to_string(), listing);
    let mut names: Vec<String> = p.entries.iter().skip(1).map(|e| e.name.clone()).collect();
    assert_eq!(names, vec!["B", "c", "a", "A", "b"]);
    names.sort();
    assert_eq!(names, vec!["A", "B", "a", "b", "c"]);
    let first_file = p.entries.iter().skip(1).position(|e| !e.is_dir).unwrap();
    assert!(p.entries.iter().skip(1 + first_file).all(|e| !e.is_dir));
}

#[test]
fn escape_closes_every_dialog() {
    let mut app = started(vec![file("a")]);
    app.handle_key(Key::F(1), false);
    app.handle_key(Key::Esc, false);
    assert!(matches!(app.mode, Mode::Normal));
    app.handle_key(Key::F(7), false);
    app.handle_key(Key::Esc, false);
    assert!(matches!(app.mode, Mode::Normal));
    app.handle_key(Key::Down, false);
    app.handle_key(Key::F(8), false);
    assert!(matches!(app.mode, Mode::Confirm { .. }));
    assert!(matches!(app.handle_key(Key::Esc, false), Request::Idle));
    assert!(matches!(app.mode, Mode::Normal));
    app.handle_key(Key::F(3), false);
    app.resume(Outcome::Text(Ok("x".to_string())));
    app.handle_key(Key::Esc, false);
    assert!(matches!(app.mode, Mode::Normal));
}

#[test]
fn only_control_q_quits() {
    let mut app = started(vec![file("a")]);
    for key in [Key::Char('q'), Key::Char('Q'), Key::Esc, Key::F(10), Key::Other] {
        assert!(!matches!(app.handle_key(key, false), Request::Quit));
    }
    assert!(!matches!(app.handle_key(Key::Char('x'), true), Request::Quit));
    app.handle_key(Key::F(1), false);
    assert!(!matches!(app.handle_key(Key::Char('q'), true), Request::Quit));
    assert!(matches!(app.handle_key(Key::Char('q'), true), Request::Quit));
}

#[test]
fn nothing_is_overwritten_unasked() {
    let mut app = started(vec![file("a")]);
    app.handle_key(Key::Down, false);
    assert!(matches!(app.handle_key(Key::F(5), false), Request::Exists { .. }));
    assert!(matches!(app.resume(Outcome::Exists(true)), Request::Idle));
    assert!(matches!(app.mode, Mode::Conflict { .. }));
    assert!(matches!(app.handle_key(Key::Char('s'), false), Request::List { .. }));
}

#[test]
fn copy_names_are_distinct() {
    let names: Vec<String> = (1..50).map(|n| copy_candidate("/d/file.txt", n)).collect();
    let unique: HashSet<&String> = names.iter().collect();
    assert_eq!(unique.len(), names.len());
}

#[test]
fn toggling_flips_the_tag_and_steps_down() {
    let mut p = Panel { cwd: "/".to_string(), entries: vec![file("a"), file("b"), file("c")], cursor: Some(2), selected: HashSet::new() };
    p.selected.insert(0);
    p.toggle_select();
    assert!(p.selected.contains(&2));
    assert!(p.selected.contains(&0));
    assert_eq!(p.cursor, Some(0));
    p.toggle_select();
    assert!(!p.selected.contains(&0));
    assert!(p.selected.contains(&2));
    assert_eq!(p.cursor, Some(1));
}

#[test]
fn clamping_keeps_the_cursor_on_a_row() {
    let mut p = Panel { cwd: "/".to_string(), entries: vec![file("a"), dir("d")], cursor: Some(5), selected: HashSet::new() };
    p.clamp_cursor();
    assert_eq!(p.cursor, Some(1));
    p.clamp_cursor();
    assert_eq!(p.cursor, Some(1));
    let mut e = Panel { cwd: "/".to_string(), entries: vec![], cursor: Some(0), selected: HashSet::new() };
    e.clamp_cursor();
    assert_eq!(e.cursor, None);
}

#[test]
fn parent_row_only_below_the_root() {
    let top = Panel::new("/".to_string(), vec![file("b"), dir("a")]);
    assert_eq!(top.entries.len(), 2);
    assert!(top.entries.iter().all(|e| e.name != ".."));
    let sub = Panel::new("/home".to_string(), vec![file("b"), dir("a")]);
    assert_eq!(sub.entries.len(), 3);
    assert_eq!(sub.entries[0].name, "..");
    assert!(sub.entries[0].is_dir);
    assert_eq!(sub.entries[1].name, "a");
    assert!(sub.selected.is_empty());
}
