use std::collections::HashSet;

use rc::listing::{sort_listing, Entry};
use rc::panel::{is_dotdot, Panel};

fn file(name: &str, size: u64) -> Entry {
    Entry { name: name.to_string(), is_dir: false, size }
}

fn dir(name: &str) -> Entry {
    Entry { name: name.to_string(), is_dir: true, size: 0 }
}

fn names(p: &Panel) -> Vec<String> {
    p.entries.iter().map(|e| e.name.clone()).collect()
}

fn panel_with(cwd: &str, entries: Vec<Entry>, cursor: Option<usize>) -> Panel {
    Panel { cwd: cwd.to_string(), entries, cursor, selected: HashSet::new() }
}

#[test]
fn entry_from_path_takes_file_name_and_size() {
    let e = Entry::from_path("/home/user/notes.txt", false, 4100).unwrap();
    assert_eq!(e.name, "notes.txt");
    assert!(!e.is_dir);
    assert_eq!(e.size, 4100);
    let d = Entry::from_path("/home/user/Documents", true, 4096).unwrap();
    assert_eq!(d.name, "Documents");
    assert!(d.is_dir);
    assert_eq!(d.size, 0);
    assert!(Entry::from_path("/", true, 0).is_none());
    assert!(Entry::from_path("/home/..", true, 0).is_none());
}

#[test]
fn sort_puts_directories_first_then_case_folded_names() {
    let listing = vec![file("b.txt", 1), dir("Zeta"), file("A.txt", 2), dir("alpha"), file("c", 3)];
    let sorted = sort_listing(listing);
    let got: Vec<&str> = sorted.iter().map(|e| e.name.as_str()).collect();
    assert_eq!(got, vec!["alpha", "Zeta", "A.txt", "b.txt", "c"]);
}

#[test]
fn sort_keeps_read_order_of_equal_keys() {
    let listing = vec![file("README", 1), file("readme", 2), file("ReadMe", 3), dir("x")];
    let sorted = sort_listing(listing);
    let got: Vec<(String, u64)> = sorted.iter().map(|e| (e.name.clone(), e.size)).collect();
    assert_eq!(
        got,
        vec![
            ("x".to_string(), 0),
            ("README".to_string(), 1),
            ("readme".to_string(), 2),
            ("ReadMe".to_string(), 3)
        ]
    );
}

#[test]
fn sort_orders_names_as_strings_do() {
    let raw = ["é", "e", "z", "10", "9", "_x", "Ä", "ä", "", "ab", "a"];
    let listing: Vec<Entry> = raw.iter().map(|n| file(n, 0)).collect();
    let sorted = sort_listing(listing);
    let got: Vec<String> = sorted.iter().map(|e| e.name.clone()).collect();
    let mut expected: Vec<String> = raw.iter().map(|s| s.to_string()).collect();
    expected.sort_by(|a, b| a.to_lowercase().cmp(&b.to_lowercase()));
    assert_eq!(got, expected);
}

#[test]
fn refresh_adds_parent_row_below_root_only() {
    let p = Panel::new("/home/user".to_string(), vec![file("f", 1), dir("d")]);
    assert_eq!(names(&p), vec!["..", "d", "f"]);
    assert!(p.entries[0].is_dir);
    assert_eq!(p.cursor, Some(0));
    let root = Panel::new("/".to_string(), vec![file("f", 1), dir("d")]);
    assert_eq!(names(&root), vec!["d", "f"]);
    let empty_root = Panel::new("/".to_string(), vec![]);
    assert!(empty_root.entries.is_empty());
    assert_eq!(empty_root.cursor, None);
}

#[test]
fn refresh_clears_tags_and_keeps_cursor() {
    let mut p = Panel::new("/w".to_string(), vec![file("a", 1), file("b", 1), file("c", 1)]);
    p.cursor = Some(2);
    p.selected.insert(1);
    p.refresh(vec![file("a", 1)]);
    assert!(p.selected.is_empty());
    assert_eq!(p.cursor, Some(2));
    assert_eq!(names(&p), vec!["..", "a"]);
}

#[test]
fn move_cursor_wraps_both_ways() {
    let mut p = panel_with("/", vec![file("a", 1), file("b", 1), file("c", 1)], Some(2));
    p.move_cursor(1);
    assert_eq!(p.cursor, Some(0));
    p.move_cursor(-1);
    assert_eq!(p.cursor, Some(2));
    p.move_cursor(-7);
    assert_eq!(p.cursor, Some(1));
    p.cursor = None;
    p.move_cursor(1);
    assert_eq!(p.cursor, Some(1));
    let mut empty = panel_with("/", vec![], Some(4));
    empty.move_cursor(1);
    assert_eq!(empty.cursor, Some(4));
}

#[test]
fn page_move_stops_at_the_ends() {
    let entries: Vec<Entry> = (0..30).map(|i| file(&format!("f{i:02}"), 1)).collect();
    let mut p = panel_with("/", entries, Some(3));
    p.page_move(20, true);
    assert_eq!(p.cursor, Some(23));
    p.page_move(20, true);
    assert_eq!(p.cursor, Some(29));
    p.page_move(20, false);
    assert_eq!(p.cursor, Some(9));
    p.page_move(20, false);
    assert_eq!(p.cursor, Some(0));
    p.page_move(usize::MAX, true);
    assert_eq!(p.cursor, Some(29));
}

#[test]
fn toggle_select_tags_and_moves_down() {
    let mut p = Panel::new("/w".to_string(), vec![file("a", 1), file("b", 1)]);
    // the cursor is on "..", which cannot be tagged
    p.toggle_select();
    assert!(p.selected.is_empty());
    assert_eq!(p.cursor, Some(0));
    p.move_cursor(1);
    p.toggle_select();
    assert!(p.selected.contains(&1));
    assert_eq!(p.cursor, Some(2));
    p.toggle_select();
    assert!(p.selected.contains(&2));
    assert_eq!(p.cursor, Some(0));
}

#[test]
fn toggle_twice_restores_tags() {
    let mut p = Panel::new("/w".to_string(), vec![file("a", 1), file("b", 1)]);
    p.cursor = Some(1);
    p.toggle_select();
    p.move_cursor(-1);
    p.toggle_select();
    assert!(p.selected.is_empty());
}

#[test]
fn enter_opens_directories_and_parent() {
    let mut p = Panel::new("/home/user".to_string(), vec![dir("src"), file("x", 1)]);
    p.cursor = Some(2);
    assert!(!p.enter());
    assert_eq!(p.cwd, "/home/user");
    p.cursor = Some(1);
    assert!(p.enter());
    assert_eq!(p.cwd, "/home/user/src");
    assert_eq!(p.cursor, Some(0));
    p.refresh(vec![]);
    assert!(p.enter());
    assert_eq!(p.cwd, "/home/user");
    let mut none = panel_with("/", vec![], None);
    assert!(!none.enter());
}

#[test]
fn jump_to_char_cycles_through_matches() {
    let mut p = panel_with(
        "/",
        vec![dir("Music"), file("apple", 1), file("Banana", 1), file("avocado", 1), file("cherry", 1)],
        Some(0),
    );
    p.jump_to_char('a');
    assert_eq!(p.cursor, Some(1));
    p.jump_to_char('A');
    assert_eq!(p.cursor, Some(3));
    p.jump_to_char('a');
    assert_eq!(p.cursor, Some(1));
    p.jump_to_char('b');
    assert_eq!(p.cursor, Some(2));
    p.jump_to_char('z');
    assert_eq!(p.cursor, Some(2));
    p.jump_to_char('m');
    assert_eq!(p.cursor, Some(0));
}

#[test]
fn jump_to_char_single_match_stays() {
    let mut p = panel_with("/", vec![file("only", 1), file("x", 1)], Some(0));
    p.jump_to_char('o');
    assert_eq!(p.cursor, Some(0));
}

#[test]
fn effective_targets_cursor_or_tags() {
    let mut p = Panel::new("/w".to_string(), vec![file("a", 1), file("b", 1), file("c", 1)]);
    assert!(p.effective_targets().is_empty());
    p.cursor = Some(2);
    assert_eq!(p.effective_targets(), vec!["/w/b".to_string()]);
    p.selected.insert(3);
    p.selected.insert(1);
    assert_eq!(p.effective_targets(), vec!["/w/a".to_string(), "/w/c".to_string()]);
    p.selected.clear();
    p.selected.insert(9);
    assert!(p.effective_targets().is_empty());
}

#[test]
fn selected_entry_follows_cursor() {
    let mut p = panel_with("/", vec![file("a", 1)], None);
    assert!(p.selected_entry().is_none());
    p.cursor = Some(0);
    assert_eq!(p.selected_entry().unwrap().name, "a");
    p.cursor = Some(5);
    assert!(p.selected_entry().is_none());
}

#[test]
fn dotdot_is_recognised() {
    assert!(is_dotdot(".."));
    assert!(!is_dotdot("."));
    assert!(!is_dotdot("..."));
    assert!(!is_dotdot("a."));
}

#[test]
fn sort_agrees_with_a_stable_library_sort_on_a_large_listing() {
    let names = ["Alpha", "beta", "ALPHA", "gamma", "Beta", "delta", "alpha", "Gamma", "épée", "Zed"];
    let listing: Vec<Entry> = (0..20_000u64)
        .map(|i| {
            let n = names[(i * 7 % 10) as usize];
            Entry { name: format!("{n}{}", i % 13), is_dir: i % 3 == 0, size: i }
        })
        .collect();
    let mut expected: Vec<(String, bool, u64)> = listing.iter().map(|e| (e.name.clone(), e.is_dir, e.size)).collect();
    expected.sort_by(|a, b| b.1.cmp(&a.1).then(a.0.to_lowercase().cmp(&b.0.to_lowercase())));
    let sorted = sort_listing(listing);
    let got: Vec<(String, bool, u64)> = sorted.iter().map(|e| (e.name.clone(), e.is_dir, e.size)).collect();
    assert_eq!(got, expected);
}
