use rc::app::{ActivePanel, App, ConfirmAction, InputAction, Key, Mode, Outcome, Pending, Request};
use rc::listing::Entry;

fn file(name: &str) -> Entry {
    Entry { name: name.to_string(), is_dir: false, size: 10 }
}

fn dir(name: &str) -> Entry {
    Entry { name: name.to_string(), is_dir: true, size: 0 }
}

/// An application whose left panel shows /l with `left` and right panel /r with `right`.
fn started(left: Vec<Entry>, right: Vec<Entry>) -> App {
    let mut app = App::new(Some("/l".to_string()), Some("/r".to_string()), "/cwd".to_string());
    let r = app.refresh_both();
    assert!(matches!(r, Request::List { panel: ActivePanel::Left, ref dir } if dir == "/l"));
    let r = app.resume(Outcome::Listing(left));
    assert!(matches!(r, Request::List { panel: ActivePanel::Right, ref dir } if dir == "/r"));
    let r = app.resume(Outcome::Listing(right));
    assert!(matches!(r, Request::Idle));
    app
}

/// Answers the two listing requests of a refresh with empty listings.
fn finish_refresh(app: &mut App, r: Request) {
    assert!(matches!(r, Request::List { panel: ActivePanel::Left, .. }));
    let r = app.resume(Outcome::Listing(vec![]));
    assert!(matches!(r, Request::List { panel: ActivePanel::Right, .. }));
    let r = app.resume(Outcome::Listing(vec![]));
    assert!(matches!(r, Request::Idle));
}

#[test]
fn new_resolves_start_directories() {
    let a = App::new(None, None, "/home".to_string());
    assert_eq!(a.left.cwd, "/home");
    assert_eq!(a.right.cwd, "/home");
    let b = App::new(Some("/x".to_string()), None, "/home".to_string());
    assert_eq!(b.right.cwd, "/x");
    assert!(a.active == ActivePanel::Left);
    assert!(matches!(a.mode, Mode::Normal));
}

#[test]
fn start_lists_both_panels() {
    let app = started(vec![file("a")], vec![dir("d")]);
    assert_eq!(app.left.entries.len(), 2);
    assert_eq!(app.left.cursor, Some(0));
    assert_eq!(app.right.entries[1].name, "d");
}

#[test]
fn ctrl_q_quits_and_plain_q_does_not() {
    let mut app = started(vec![], vec![]);
    assert!(matches!(app.handle_key(Key::Char('q'), false), Request::Idle));
    assert!(matches!(app.handle_key(Key::Char('q'), true), Request::Quit));
}

#[test]
fn tab_switches_panel_and_back() {
    let mut app = started(vec![], vec![]);
    app.handle_key(Key::Tab, false);
    assert!(app.active == ActivePanel::Right);
    app.handle_key(Key::Tab, false);
    assert!(app.active == ActivePanel::Left);
}

#[test]
fn arrows_home_end_move_the_active_cursor() {
    let mut app = started(vec![file("a"), file("b"), file("c")], vec![]);
    app.handle_key(Key::Down, false);
    assert_eq!(app.left.cursor, Some(1));
    app.handle_key(Key::End, false);
    assert_eq!(app.left.cursor, Some(3));
    app.handle_key(Key::Down, false);
    assert_eq!(app.left.cursor, Some(0));
    app.handle_key(Key::Up, false);
    assert_eq!(app.left.cursor, Some(3));
    app.handle_key(Key::Home, false);
    assert_eq!(app.left.cursor, Some(0));
    app.handle_key(Key::PageDown, false);
    assert_eq!(app.left.cursor, Some(3));
    assert_eq!(app.right.cursor, Some(0));
}

#[test]
fn space_tags_the_file_under_the_cursor() {
    let mut app = started(vec![file("a"), file("b")], vec![]);
    app.handle_key(Key::Down, false);
    app.handle_key(Key::Char(' '), false);
    assert!(app.left.selected.contains(&1));
    assert_eq!(app.left.cursor, Some(2));
    app.handle_key(Key::Insert, false);
    assert!(app.left.selected.contains(&2));
}

#[test]
fn enter_on_a_directory_lists_it() {
    let mut app = started(vec![dir("sub"), file("f")], vec![]);
    app.handle_key(Key::Down, false);
    match app.handle_key(Key::Enter, false) {
        Request::ChangeDir { dir } => assert_eq!(dir, "/l/sub"),
        _ => panic!("the left panel sets the working directory first"),
    }
    let r = app.resume(Outcome::Done);
    match r {
        Request::List { panel, dir } => {
            assert!(panel == ActivePanel::Left);
            assert_eq!(dir, "/l/sub");
        },
        _ => panic!("expected a listing request"),
    }
    let r = app.resume(Outcome::Listing(vec![file("inner")]));
    assert!(matches!(r, Request::Idle));
    assert_eq!(app.left.cwd, "/l/sub");
    assert_eq!(app.left.entries[1].name, "inner");
    assert_eq!(app.left.cursor, Some(0));
}

#[test]
fn letters_jump_in_the_active_panel() {
    let mut app = started(vec![file("apple"), file("berry")], vec![]);
    app.handle_key(Key::Char('b'), false);
    assert_eq!(app.left.cursor, Some(2));
    app.handle_key(Key::Char('A'), false);
    assert_eq!(app.left.cursor, Some(1));
}

#[test]
fn f1_shows_about_and_any_key_closes_it() {
    let mut app = started(vec![], vec![]);
    app.handle_key(Key::F(1), false);
    assert!(matches!(app.mode, Mode::About));
    app.handle_key(Key::Char('x'), false);
    assert!(matches!(app.mode, Mode::Normal));
}

#[test]
fn mkdir_flow() {
    let mut app = started(vec![], vec![]);
    app.message = "old".to_string();
    app.handle_key(Key::F(7), false);
    match &app.mode {
        Mode::Input { prompt, value, action } => {
            assert_eq!(prompt, "New directory name:");
            assert_eq!(value, "");
            assert!(matches!(action, InputAction::Mkdir));
        },
        _ => panic!("expected the input box"),
    }
    assert_eq!(app.message, "");
    for c in " newdir ".chars() {
        app.handle_key(Key::Char(c), false);
    }
    app.handle_key(Key::Char('x'), false);
    app.handle_key(Key::Backspace, false);
    let r = app.handle_key(Key::Enter, false);
    match r {
        Request::MakeDir { path } => assert_eq!(path, "/l/newdir"),
        _ => panic!("expected a mkdir request"),
    }
    assert!(matches!(app.mode, Mode::Normal));
    let r = app.resume(Outcome::Result(None));
    assert_eq!(app.message, "Created newdir");
    finish_refresh(&mut app, r);
}

#[test]
fn mkdir_error_message() {
    let mut app = started(vec![], vec![]);
    app.handle_key(Key::F(7), false);
    app.handle_key(Key::Char('d'), false);
    app.handle_key(Key::Enter, false);
    let r = app.resume(Outcome::Result(Some("Permission denied".to_string())));
    assert_eq!(app.message, "mkdir error: Permission denied");
    finish_refresh(&mut app, r);
}

#[test]
fn empty_input_does_nothing_and_esc_cancels() {
    let mut app = started(vec![], vec![]);
    app.handle_key(Key::F(7), false);
    app.handle_key(Key::Char(' '), false);
    assert!(matches!(app.handle_key(Key::Enter, false), Request::Idle));
    assert!(matches!(app.mode, Mode::Normal));
    app.handle_key(Key::F(7), false);
    app.handle_key(Key::Char('z'), false);
    assert!(matches!(app.handle_key(Key::Esc, false), Request::Idle));
    assert!(matches!(app.mode, Mode::Normal));
}

#[test]
fn rename_flow() {
    let mut app = started(vec![file("old.txt")], vec![]);
    app.handle_key(Key::F(2), false);
    // the cursor is on "..": nothing to rename
    assert!(matches!(app.mode, Mode::Normal));
    app.handle_key(Key::Down, false);
    app.handle_key(Key::F(2), false);
    match &app.mode {
        Mode::Input { prompt, value, action } => {
            assert_eq!(prompt, "Rename:");
            assert_eq!(value, "old.txt");
            assert!(matches!(action, InputAction::Rename(src) if src == "/l/old.txt"));
        },
        _ => panic!("expected the rename box"),
    }
    for _ in 0..7 {
        app.handle_key(Key::Backspace, false);
    }
    for c in "new.md".chars() {
        app.handle_key(Key::Char(c), false);
    }
    match app.handle_key(Key::Enter, false) {
        Request::Rename { src, dst } => {
            assert_eq!(src, "/l/old.txt");
            assert_eq!(dst, "/l/new.md");
        },
        _ => panic!("expected a rename request"),
    }
    let r = app.resume(Outcome::Result(None));
    assert_eq!(app.message, "Renamed to new.md");
    finish_refresh(&mut app, r);
}

#[test]
fn rename_error_message() {
    let mut app = started(vec![file("old.txt")], vec![]);
    app.handle_key(Key::Down, false);
    app.handle_key(Key::F(2), false);
    app.handle_key(Key::Enter, false);
    app.resume(Outcome::Result(Some("File exists".to_string())));
    assert_eq!(app.message, "Rename error: File exists");
}

#[test]
fn viewer_flow_and_scrolling() {
    let mut app = started(vec![dir("d"), file("t.txt")], vec![]);
    app.handle_key(Key::Down, false);
    assert!(matches!(app.handle_key(Key::F(3), false), Request::Idle));
    app.handle_key(Key::Down, false);
    match app.handle_key(Key::F(3), false) {
        Request::Read { path } => assert_eq!(path, "/l/t.txt"),
        _ => panic!("expected a read request"),
    }
    let text: String = (0..50).map(|i| format!("line {i}\r\n")).collect();
    app.resume(Outcome::Text(Ok(text)));
    match &app.mode {
        Mode::Viewer { path, content, scroll, highlighted } => {
            assert_eq!(path, "/l/t.txt");
            assert_eq!(content.len(), 50);
            assert_eq!(content[3], "line 3");
            assert_eq!(*scroll, 0);
            let rows = highlighted.as_ref().expect("a read file is highlighted");
            assert_eq!(rows.len(), 50);
            let row3: String = rows[3].iter().map(|s| s.text.as_str()).collect();
            assert_eq!(row3, "line 3");
        },
        _ => panic!("expected the viewer"),
    }
    let scroll_of = |a: &App| match &a.mode {
        Mode::Viewer { scroll, .. } => *scroll,
        _ => usize::MAX,
    };
    app.handle_key(Key::Up, false);
    assert_eq!(scroll_of(&app), 0);
    app.handle_key(Key::Down, false);
    assert_eq!(scroll_of(&app), 1);
    app.handle_key(Key::PageDown, false);
    assert_eq!(scroll_of(&app), 21);
    app.handle_key(Key::PageDown, false);
    app.handle_key(Key::PageDown, false);
    assert_eq!(scroll_of(&app), 49);
    app.handle_key(Key::PageUp, false);
    assert_eq!(scroll_of(&app), 29);
    app.handle_key(Key::Home, false);
    assert_eq!(scroll_of(&app), 0);
    app.handle_key(Key::End, false);
    assert_eq!(scroll_of(&app), 49);
    app.handle_key(Key::Char('q'), false);
    assert!(matches!(app.mode, Mode::Normal));
}

#[test]
fn viewer_shows_read_errors() {
    let mut app = started(vec![file("t.txt")], vec![]);
    app.handle_key(Key::Down, false);
    app.handle_key(Key::F(3), false);
    app.resume(Outcome::Text(Err("No such file".to_string())));
    match &app.mode {
        Mode::Viewer { content, highlighted, .. } => {
            assert_eq!(content, &vec!["Cannot read file: No such file".to_string()]);
            assert!(highlighted.is_none());
        },
        _ => panic!("expected the viewer"),
    }
    app.handle_key(Key::Esc, false);
    assert!(matches!(app.mode, Mode::Normal));
}

#[test]
fn editor_flow_refreshes() {
    let mut app = started(vec![file("t.txt")], vec![]);
    assert!(matches!(app.handle_key(Key::F(4), false), Request::Idle));
    app.handle_key(Key::Down, false);
    match app.handle_key(Key::F(4), false) {
        Request::Edit { path } => assert_eq!(path, "/l/t.txt"),
        _ => panic!("expected an edit request"),
    }
    let r = app.resume(Outcome::Done);
    finish_refresh(&mut app, r);
}

#[test]
fn delete_flow_needs_yes() {
    let mut app = started(vec![file("a"), file("b")], vec![]);
    app.handle_key(Key::Down, false);
    app.handle_key(Key::Char(' '), false);
    app.handle_key(Key::Char(' '), false);
    app.handle_key(Key::F(8), false);
    match &app.mode {
        Mode::Confirm { prompt, action } => {
            assert_eq!(prompt, "Delete a, b? [y/N]");
            assert!(matches!(action, ConfirmAction::Delete(t) if t.len() == 2));
        },
        _ => panic!("expected the question"),
    }
    assert!(matches!(app.handle_key(Key::Char('n'), false), Request::Idle));
    assert!(matches!(app.mode, Mode::Normal));
    app.handle_key(Key::F(8), false);
    match app.handle_key(Key::Char('Y'), false) {
        Request::Remove { path } => assert_eq!(path, "/l/a"),
        _ => panic!("expected a removal"),
    }
    match app.resume(Outcome::Result(None)) {
        Request::Remove { path } => assert_eq!(path, "/l/b"),
        _ => panic!("expected a removal"),
    }
    let r = app.resume(Outcome::Result(None));
    assert_eq!(app.message, "Deleted 2 item(s)");
    finish_refresh(&mut app, r);
}

#[test]
fn delete_errors_are_reported() {
    let mut app = started(vec![file("a")], vec![]);
    app.handle_key(Key::Down, false);
    app.handle_key(Key::F(8), false);
    app.handle_key(Key::Char('y'), false);
    app.resume(Outcome::Result(Some("busy".to_string())));
    assert_eq!(app.message, "Errors: busy");
}

#[test]
fn nothing_to_delete_on_parent_row() {
    let mut app = started(vec![file("a")], vec![]);
    app.handle_key(Key::F(8), false);
    assert!(matches!(app.mode, Mode::Normal));
}

#[test]
fn copy_without_conflicts() {
    let mut app = started(vec![file("a"), file("b")], vec![]);
    app.handle_key(Key::Down, false);
    app.handle_key(Key::Char(' '), false);
    app.handle_key(Key::Char(' '), false);
    match app.handle_key(Key::F(5), false) {
        Request::Exists { path } => assert_eq!(path, "/r/a"),
        _ => panic!("expected a check"),
    }
    match app.resume(Outcome::Exists(false)) {
        Request::Transfer { src, dst, is_move } => {
            assert_eq!(src, "/l/a");
            assert_eq!(dst, "/r/a");
            assert!(!is_move);
        },
        _ => panic!("expected a copy"),
    }
    match app.resume(Outcome::Result(None)) {
        Request::Exists { path } => assert_eq!(path, "/r/b"),
        _ => panic!("expected a check"),
    }
    app.resume(Outcome::Exists(false));
    let r = app.resume(Outcome::Result(Some("disk full".to_string())));
    assert_eq!(app.message, "Done (0 ok) — Errors: b: disk full");
    finish_refresh(&mut app, r);
}

#[test]
fn copy_counts_nothing_without_conflicts() {
    let mut app = started(vec![file("a")], vec![]);
    app.handle_key(Key::Down, false);
    app.handle_key(Key::F(6), false);
    match app.resume(Outcome::Exists(false)) {
        Request::Transfer { is_move, .. } => assert!(is_move),
        _ => panic!("expected a move"),
    }
    app.resume(Outcome::Result(None));
    assert_eq!(app.message, "Nothing to do: 0 item(s)");
}

fn into_conflict(app: &mut App) {
    app.handle_key(Key::Down, false);
    app.handle_key(Key::Char(' '), false);
    app.handle_key(Key::Char(' '), false);
    app.handle_key(Key::F(5), false);
    assert!(matches!(app.resume(Outcome::Exists(true)), Request::Idle));
    match &app.mode {
        Mode::Conflict { src, dst, queue, done, .. } => {
            assert_eq!(src, "/l/a");
            assert_eq!(dst, "/r/a");
            assert_eq!(queue.len(), 1);
            assert_eq!(*done, 0);
        },
        _ => panic!("expected the conflict dialog"),
    }
}

#[test]
fn conflict_overwrite() {
    let mut app = started(vec![file("a"), file("b")], vec![]);
    into_conflict(&mut app);
    match app.handle_key(Key::Char('o'), false) {
        Request::Transfer { src, dst, .. } => {
            assert_eq!(src, "/l/a");
            assert_eq!(dst, "/r/a");
        },
        _ => panic!("expected a copy"),
    }
    assert!(matches!(app.resume(Outcome::Result(None)), Request::Exists { .. }));
    app.resume(Outcome::Exists(false));
    let r = app.resume(Outcome::Result(None));
    assert_eq!(app.message, "Processed 1 item(s)");
    finish_refresh(&mut app, r);
}

#[test]
fn conflict_overwrite_all() {
    let mut app = started(vec![file("a"), file("b")], vec![]);
    into_conflict(&mut app);
    app.handle_key(Key::Char('A'), false);
    match app.resume(Outcome::Result(None)) {
        Request::Transfer { src, dst, .. } => {
            assert_eq!(src, "/l/b");
            assert_eq!(dst, "/r/b");
        },
        _ => panic!("expected the next copy without a check"),
    }
    let r = app.resume(Outcome::Result(None));
    assert_eq!(app.message, "Processed 1 item(s)");
    finish_refresh(&mut app, r);
}

#[test]
fn conflict_skip_and_none() {
    let mut app = started(vec![file("a"), file("b")], vec![]);
    into_conflict(&mut app);
    match app.handle_key(Key::Char('s'), false) {
        Request::Exists { path } => assert_eq!(path, "/r/b"),
        _ => panic!("expected a check of the next file"),
    }
    app.resume(Outcome::Exists(true));
    let r = app.handle_key(Key::Char('N'), false);
    assert_eq!(app.message, "Nothing to do: 0 item(s)");
    finish_refresh(&mut app, r);
}

#[test]
fn conflict_escape_cancels() {
    let mut app = started(vec![file("a"), file("b")], vec![]);
    into_conflict(&mut app);
    let r = app.handle_key(Key::Esc, false);
    assert!(matches!(app.mode, Mode::Normal));
    assert_eq!(app.message, "Nothing to do: 0 item(s)");
    finish_refresh(&mut app, r);
}

#[test]
fn conflict_rename_tries_copy_names() {
    let mut app = started(vec![file("a.txt")], vec![]);
    app.handle_key(Key::Down, false);
    app.handle_key(Key::F(5), false);
    app.resume(Outcome::Exists(true));
    match app.handle_key(Key::Char('r'), false) {
        Request::Exists { path } => assert_eq!(path, "/r/a_copy.txt"),
        _ => panic!("expected a check of the copy name"),
    }
    match app.resume(Outcome::Exists(true)) {
        Request::Exists { path } => assert_eq!(path, "/r/a_copy2.txt"),
        _ => panic!("expected a check of the second copy name"),
    }
    match app.resume(Outcome::Exists(true)) {
        Request::Exists { path } => assert_eq!(path, "/r/a_copy3.txt"),
        _ => panic!("expected a check of the third copy name"),
    }
    match app.resume(Outcome::Exists(false)) {
        Request::Transfer { src, dst, .. } => {
            assert_eq!(src, "/l/a.txt");
            assert_eq!(dst, "/r/a_copy3.txt");
        },
        _ => panic!("expected the copy"),
    }
    app.resume(Outcome::Result(None));
    assert_eq!(app.message, "Processed 1 item(s)");
}

#[test]
fn unexpected_outcomes_are_dropped() {
    let mut app = started(vec![file("a")], vec![]);
    assert!(matches!(app.resume(Outcome::Exists(true)), Request::Idle));
    assert!(matches!(app.mode, Mode::Normal));
    app.handle_key(Key::F(7), false);
    app.handle_key(Key::Char('d'), false);
    app.handle_key(Key::Enter, false);
    assert!(matches!(app.resume(Outcome::Done), Request::Idle));
    assert!(matches!(app.pending, Pending::Idle));
    assert_eq!(app.message, "");
}

#[test]
fn state_stays_well_formed() {
    let mut app = started(vec![file("a"), file("b")], vec![]);
    app.handle_key(Key::Down, false);
    app.handle_key(Key::Char(' '), false);
    app.handle_key(Key::Char(' '), false);
    app.handle_key(Key::F(8), false);
    app.handle_key(Key::Char('y'), false);
    assert!(app.well_formed());
    app.resume(Outcome::Result(None));
    assert!(app.well_formed());
}

#[test]
fn viewer_splits_lines_like_str_lines() {
    let mut app = started(vec![file("t.txt")], vec![]);
    app.handle_key(Key::Down, false);
    app.handle_key(Key::F(3), false);
    app.resume(Outcome::Text(Ok("a\r\nb\n\nc\n".to_string())));
    match &app.mode {
        Mode::Viewer { content, .. } => assert_eq!(content, &vec!["a", "b", "", "c"]),
        _ => panic!("expected the viewer"),
    }
}

#[test]
fn input_is_trimmed() {
    let mut app = started(vec![], vec![]);
    app.handle_key(Key::F(7), false);
    for c in "\t x y \t".chars() {
        app.handle_key(Key::Char(c), false);
    }
    match app.handle_key(Key::Enter, false) {
        Request::MakeDir { path } => assert_eq!(path, "/l/x y"),
        _ => panic!("expected a mkdir request"),
    }
}

#[test]
fn viewer_keeps_a_bare_carriage_return() {
    for (text, want) in [("x\r", vec!["x\r"]), ("\r\n", vec![""]), ("", vec![]), ("a\r\r\nb", vec!["a\r", "b"])] {
        let mut app = started(vec![file("t.txt")], vec![]);
        app.handle_key(Key::Down, false);
        app.handle_key(Key::F(3), false);
        app.resume(Outcome::Text(Ok(text.to_string())));
        match &app.mode {
            Mode::Viewer { content, .. } => assert_eq!(content, &want, "text {text:?}"),
            _ => panic!("expected the viewer"),
        }
    }
}

#[test]
fn enter_in_the_right_panel_lists_without_changing_directory() {
    let mut app = started(vec![], vec![dir("sub")]);
    app.handle_key(Key::Right, false);
    assert!(app.active == ActivePanel::Right);
    app.handle_key(Key::Down, false);
    match app.handle_key(Key::Enter, false) {
        Request::List { panel, dir } => {
            assert!(panel == ActivePanel::Right);
            assert_eq!(dir, "/r/sub");
        },
        _ => panic!("expected a listing request"),
    }
    app.handle_key(Key::Left, false);
    assert!(app.active == ActivePanel::Left);
}

#[test]
fn enter_on_a_file_runs_it() {
    let mut app = started(vec![file("tool.sh")], vec![]);
    app.handle_key(Key::Down, false);
    match app.handle_key(Key::Enter, false) {
        Request::Run { path } => assert_eq!(path, "/l/tool.sh"),
        _ => panic!("expected a run request"),
    }
    let r = app.resume(Outcome::Ran(true));
    finish_refresh(&mut app, r);
    app.handle_key(Key::Enter, false);
    assert!(matches!(app.resume(Outcome::Ran(false)), Request::Idle));
}

#[test]
fn conflict_none_skips_later_conflicts_only() {
    let mut app = started(vec![file("a"), file("b"), file("c")], vec![]);
    app.handle_key(Key::Down, false);
    app.handle_key(Key::Char(' '), false);
    app.handle_key(Key::Char(' '), false);
    app.handle_key(Key::Char(' '), false);
    match app.handle_key(Key::F(5), false) {
        Request::Exists { path } => assert_eq!(path, "/r/a"),
        _ => panic!("expected a check of the first file"),
    }
    assert!(matches!(app.resume(Outcome::Exists(true)), Request::Idle));
    assert!(matches!(app.mode, Mode::Conflict { .. }));
    match app.handle_key(Key::Char('N'), false) {
        Request::Exists { path } => assert_eq!(path, "/r/b"),
        _ => panic!("expected a check of the next file"),
    }
    assert!(matches!(app.mode, Mode::Normal));
    match app.resume(Outcome::Exists(true)) {
        Request::Exists { path } => assert_eq!(path, "/r/c"),
        _ => panic!("expected the conflicting file to be skipped without a question"),
    }
    assert!(matches!(app.mode, Mode::Normal));
    match app.resume(Outcome::Exists(false)) {
        Request::Transfer { src, dst, is_move } => {
            assert_eq!(src, "/l/c");
            assert_eq!(dst, "/r/c");
            assert!(!is_move);
        },
        _ => panic!("expected the free file to be copied"),
    }
    let r = app.resume(Outcome::Result(None));
    assert_eq!(app.message, "Nothing to do: 0 item(s)");
    finish_refresh(&mut app, r);
}

#[test]
fn mkdir_name_is_trimmed_of_unicode_white_space() {
    let mut app = started(vec![], vec![]);
    app.handle_key(Key::F(7), false);
    for c in ['\u{3000}', ' ', 'n', ' ', 'd', '\u{a0}', '\t'] {
        app.handle_key(Key::Char(c), false);
    }
    match app.handle_key(Key::Enter, false) {
        Request::MakeDir { path } => assert_eq!(path, "/l/n d"),
        _ => panic!("expected a directory to be made"),
    }
}
