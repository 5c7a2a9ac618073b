use rc::app::{choice_of, ActivePanel, App, ConflictChoice, Key};
use rc::fs_ops::{auto_rename, copy_candidate, first_free_copy, runnable_mode, runnable_name};
use rc::highlight::{highlight, shown};
use rc::listing::Entry;
use rc::text::{decimal_string, join, padded_left};
use rc::ui::{centered_rect, format_size, info_line_area, panel_title, row_text, status_line, viewer_info, Rect};

fn float_size(bytes: u64) -> String {
    if bytes < 1024 {
        format!("{:>8}B ", bytes)
    } else if bytes < 1024 * 1024 {
        format!("{:>7.1}K ", bytes as f64 / 1024.0)
    } else if bytes < 1024 * 1024 * 1024 {
        format!("{:>7.1}M ", bytes as f64 / 1024.0 / 1024.0)
    } else {
        format!("{:>7.1}G ", bytes as f64 / 1024.0 / 1024.0 / 1024.0)
    }
}

#[test]
fn format_size_exact_values() {
    assert_eq!(format_size(0), "       0B ");
    assert_eq!(format_size(1023), "    1023B ");
    assert_eq!(format_size(1024), "    1.0K ");
    assert_eq!(format_size(1536), "    1.5K ");
    assert_eq!(format_size(12595), "   12.3K ");
    assert_eq!(format_size(1048576), "    1.0M ");
    assert_eq!(format_size(1073741824), "    1.0G ");
    assert_eq!(format_size(u64::MAX), "17179869184.0G ");
}

#[test]
fn format_size_matches_float_formatting() {
    let mut samples: Vec<u64> = vec![
        1, 999, 1000, 1025, 1075, 1126, 1177, 1228, 1280, 10188, 10240, 51251, 102348, 1047552,
        1048575, 1048576, 1153433, 1205862, 5347738, 1073741823, 1073741824, 1127428915,
        9007199254740991, 9007199254740992, 9007199254740993, 9007199254740995,
        18014398509481983, 18446744073709551615, 18446744073709550591, 18446744073709549568,
        123456789012345678,
    ];
    // values whose tenths fall exactly halfway
    for k in 0..200u64 {
        samples.push(1024 * k + 512 / 10 * 1 + k);
        samples.push((1024 * (2 * k + 1)) / 20 + 1024);
        samples.push(1024 + 51 * k);
        samples.push(1048576 + 52429 * k);
    }
    for b in samples {
        assert_eq!(format_size(b), float_size(b), "bytes = {b}");
    }
}

#[test]
fn format_size_ties_round_like_floats() {
    // 10 * b / 1024 has a remainder of exactly one half for these
    let mut checked = 0;
    for b in 1024u64..200_000 {
        if (b * 10) % 1024 == 512 {
            assert_eq!(format_size(b), float_size(b), "bytes = {b}");
            checked += 1;
        }
    }
    assert!(checked > 10);
}

#[test]
fn text_helpers() {
    assert_eq!(decimal_string(0), "0");
    assert_eq!(decimal_string(1234567890), "1234567890");
    assert_eq!(padded_left("ab", 5), "   ab");
    assert_eq!(padded_left("abcdef", 3), "abcdef");
    assert_eq!(join(&vec!["a".to_string(), "b".to_string(), "c".to_string()], "; "), "a; b; c");
    assert_eq!(join(&vec![], ", "), "");
}

#[test]
fn copy_names() {
    assert_eq!(copy_candidate("/r/a.txt", 1), "/r/a_copy.txt");
    assert_eq!(copy_candidate("/r/a.txt", 2), "/r/a_copy2.txt");
    assert_eq!(copy_candidate("/r/archive.tar.gz", 12), "/r/archive.tar_copy12.gz");
    assert_eq!(copy_candidate("/r/Makefile", 1), "/r/Makefile_copy");
    assert_eq!(copy_candidate("notes", 3), "notes_copy3");
}

#[test]
fn auto_rename_picks_a_free_name() {
    let n = auto_rename("/nonexistent-dir-for-rc-tests/file.txt");
    assert_eq!(n, Some("/nonexistent-dir-for-rc-tests/file_copy.txt".to_string()));
}

#[test]
fn first_free_copy_takes_the_first_name_reported_free() {
    assert_eq!(first_free_copy("/d/file.txt", &vec![false]), Some("/d/file_copy.txt".to_string()));
    assert_eq!(first_free_copy("/d/file.txt", &vec![true, false]), Some("/d/file_copy2.txt".to_string()));
    assert_eq!(
        first_free_copy("/d/file.txt", &vec![true, true, false, false]),
        Some("/d/file_copy3.txt".to_string())
    );
    assert_eq!(first_free_copy("/d/a.tar.gz", &vec![false]), Some("/d/a.tar_copy.gz".to_string()));
    assert_eq!(first_free_copy("/d/Makefile", &vec![false]), Some("/d/Makefile_copy".to_string()));
    assert_eq!(first_free_copy("/d/file.txt", &vec![true, true]), None);
    assert_eq!(first_free_copy("/d/file.txt", &vec![]), None);
}

#[test]
fn centered_popup() {
    let area = Rect { x: 0, y: 0, width: 100, height: 40 };
    let r = centered_rect(50, 40, area);
    assert!(r == Rect { x: 25, y: 12, width: 50, height: 16 });
    let small = centered_rect(50, 5, Rect { x: 2, y: 3, width: 80, height: 24 });
    assert!(small == Rect { x: 22, y: 12, width: 40, height: 5 });
    let info = info_line_area(Rect { x: 5, y: 2, width: 90, height: 36 });
    assert!(info == Rect { x: 6, y: 37, width: 88, height: 1 });
}

#[test]
fn viewer_position_line() {
    assert_eq!(viewer_info(0, 10, 100), " 1/100 (10%) — ESC to close ");
    assert_eq!(viewer_info(95, 10, 100), " 96/100 (100%) — ESC to close ");
    assert_eq!(viewer_info(0, 10, 0), " 1/0 (0%) — ESC to close ");
}

#[test]
fn titles_rows_and_status() {
    let mut app = App::new(Some("/l".to_string()), Some("/r".to_string()), "/".to_string());
    assert_eq!(panel_title(&app.left), "/l");
    app.left.selected.insert(1);
    app.left.selected.insert(4);
    assert_eq!(panel_title(&app.left), "/l [2 selected]");
    assert_eq!(status_line(&app), " /l → /r");
    app.active = ActivePanel::Right;
    assert_eq!(status_line(&app), " /r → /l");
    app.message = "Deleted 1 item(s)".to_string();
    assert_eq!(status_line(&app), " Deleted 1 item(s)");
    let d = row_text(&Entry { name: "src".to_string(), is_dir: true, size: 0 }, false);
    assert_eq!(d.tag, "  ");
    assert_eq!(d.icon, "/ ");
    assert_eq!(d.name, "src");
    assert_eq!(d.size, "  <DIR>     ");
    let f = row_text(&Entry { name: "main.rs".to_string(), is_dir: false, size: 12595 }, true);
    assert_eq!(f.tag, "★ ");
    assert_eq!(f.icon, "  ");
    assert_eq!(f.size, "     12.3K ");
}

#[test]
fn shown_text_drops_line_end_and_expands_tabs() {
    assert_eq!(shown("\tx = 1;\r\n"), "    x = 1;");
    assert_eq!(shown("a\tb\n\n"), "a    b");
    assert_eq!(shown(""), "");
}

#[test]
fn highlight_keeps_the_text() {
    let text = "fn main() {\n\tlet x = 1;\n}\nlast";
    let lines = highlight("main.rs", text).expect("bundled theme");
    assert_eq!(lines.len(), 4);
    let joined: Vec<String> = lines.iter().map(|l| l.iter().map(|s| s.text.clone()).collect()).collect();
    assert_eq!(joined, vec!["fn main() {", "    let x = 1;", "}", "last"]);
    let plain = highlight("/nonexistent-dir-for-rc-tests/notes", "hello\n").expect("bundled theme");
    assert_eq!(plain.len(), 1);
    assert_eq!(plain[0].iter().map(|s| s.text.clone()).collect::<String>(), "hello");
}

#[test]
fn programs_are_recognised() {
    assert!(runnable_mode(0o755));
    assert!(runnable_mode(0o100));
    assert!(runnable_mode(0o001));
    assert!(!runnable_mode(0o644));
    assert!(runnable_name("C:/x/setup.exe"));
    assert!(runnable_name("run.BAT"));
    assert!(runnable_name("a.Cmd"));
    assert!(runnable_name("b.com"));
    assert!(!runnable_name("exe"));
    assert!(!runnable_name("a.exe.txt"));
    assert!(!runnable_name("a.ex"));
}

#[test]
fn help_bar_and_hints() {
    let bar: Vec<String> = rc::ui::help_bar().iter().map(rc::ui::hint_text).collect();
    assert_eq!(
        bar.join(" "),
        "[F1]About [F2]Rename [F3]View [F4]Edit [F5]Copy [F6]Move [F7]MkDir [F8]Del [^Q]Quit"
    );
    let hints: Vec<String> = rc::ui::conflict_hints().iter().map(rc::ui::hint_text).collect();
    assert_eq!(hints, vec!["[O]Overwrite", "[A]All", "[S]Skip", "[N]None", "[R]Rename", "[Esc]Cancel"]);
    assert_eq!(rc::ui::cursor_marker(), "▶");
    assert!(rc::ui::panel_border(true) == rc::ui::BorderColor::Cyan);
    assert!(rc::ui::panel_border(false) == rc::ui::BorderColor::DarkGray);
}

#[test]
fn conflict_keys_choose() {
    assert!(choice_of(Key::Char('n')) == ConflictChoice::SkipAll);
    assert!(choice_of(Key::Char('N')) == ConflictChoice::SkipAll);
    assert!(choice_of(Key::Char('o')) == ConflictChoice::Overwrite);
    assert!(choice_of(Key::Char('A')) == ConflictChoice::OverwriteAll);
    assert!(choice_of(Key::Char('s')) == ConflictChoice::Skip);
    assert!(choice_of(Key::Char('R')) == ConflictChoice::Rename);
    assert!(choice_of(Key::Esc) == ConflictChoice::Cancel);
    assert!(choice_of(Key::Char('x')) == ConflictChoice::Cancel);
}

#[test]
fn screen_rows() {
    assert_eq!(
        rc::ui::help_row(),
        "[F1]About [F2]Rename [F3]View [F4]Edit [F5]Copy [F6]Move [F7]MkDir [F8]Del [^Q]Quit "
    );
    assert_eq!(rc::ui::conflict_hint_row(), "[O]Overwrite  [A]All  [S]Skip  [N]None  [R]Rename  [Esc]Cancel");
    let t = rc::ui::conflict_text("/l/a.txt", "/r/a.txt", 2, 3);
    assert_eq!(t.title, " File Conflict  (2 done, 3 remaining) ");
    assert_eq!(format!("{}{}", t.file_label, t.file), "  File: a.txt");
    assert_eq!(t.from, "  From: /l");
    assert_eq!(t.to, "  To:   /r");
}

#[test]
fn viewer_window() {
    assert_eq!(rc::ui::visible_lines(0, 10, 50), (0, 10));
    assert_eq!(rc::ui::visible_lines(45, 10, 50), (45, 50));
    assert_eq!(rc::ui::visible_lines(60, 10, 50), (50, 50));
    assert_eq!(rc::ui::visible_lines(3, 0, 50), (3, 3));
    assert_eq!(rc::ui::visible_lines(usize::MAX, 5, 7), (7, 7));
}

#[test]
fn editor_falls_back_to_vi() {
    assert_eq!(rc::app::editor_program(None), "vi");
    assert_eq!(rc::app::editor_program(Some("nano".to_string())), "nano");
}

#[test]
fn row_of_syntect_answers() {
    let ok = rc::highlight::row_of(Ok(vec![(1, 2, 3, "a\tb".to_string()), (4, 5, 6, "c\r\n".to_string())]));
    assert_eq!(ok.len(), 2);
    assert_eq!(ok[0].text, "a    b");
    assert_eq!((ok[0].r, ok[0].g, ok[0].b), (1, 2, 3));
    assert_eq!(ok[1].text, "c");
    assert_eq!((ok[1].r, ok[1].g, ok[1].b), (4, 5, 6));
    let failed = rc::highlight::row_of(Err(syntect::Error::Fmt(std::fmt::Error)));
    assert!(failed.is_empty());
}

#[test]
fn dates_and_version_text() {
    assert_eq!(rc::version::ymd_from_epoch(0), (1970, 1, 1));
    assert_eq!(rc::version::ymd_from_epoch(86399), (1970, 1, 1));
    assert_eq!(rc::version::ymd_from_epoch(31536000), (1971, 1, 1));
    assert_eq!(rc::version::ymd_from_epoch(951782400), (2000, 2, 29));
    assert_eq!(rc::version::ymd_from_epoch(1709251199), (2024, 2, 29));
    assert_eq!(rc::version::ymd_from_epoch(1735689599), (2024, 12, 31));
    assert!(rc::version::is_leap(2000));
    assert!(!rc::version::is_leap(1900));
    assert!(rc::version::is_leap(2024));
    assert_eq!(rc::version::build_date(951782400), "2000-02-29");
    assert_eq!(rc::version::full_version("0.1.0", Some(" abc1234\n"), "2024-01-02"), "0.1.0 (abc1234 2024-01-02)");
    assert_eq!(rc::version::full_version("0.1.0", Some("  "), "2024-01-02"), "0.1.0 (2024-01-02)");
    assert_eq!(rc::version::full_version("0.1.0", None, "2024-01-02"), "0.1.0 (2024-01-02)");
}
