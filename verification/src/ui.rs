//! What the screen says: file sizes, titles, the status line, the rows of a
//! panel, the viewer's position line, and where pop-ups go.
use vstd::prelude::*;
use crate::app::{ActivePanel, App, ConflictChoice, Key};
use crate::app;
use crate::listing::Entry;
use crate::panel::Panel;
use crate::paths;
use crate::text;

verus! {

/// A rectangle of terminal cells.
#[derive(PartialEq, Eq, Structural, Clone, Copy)]
pub struct Rect {
    pub x: u16,
    pub y: u16,
    pub width: u16,
    pub height: u16,
}

/// `n / d` rounded to the nearest integer, ties to the even one.
pub open spec fn round_half_even(n: nat, d: nat) -> nat
    recommends
        d > 0,
{
    let q = n / d;
    let r = n % d;
    if 2 * r > d || (2 * r == d && q % 2 == 1) { q + 1 } else { q }
}

/// The spacing of the `f64` values near `n`: 1 below 2^53, doubling with each binary digit above.
pub open spec fn f64_spacing(n: nat) -> nat
    decreases n,
{
    if n < 0x20_0000_0000_0000 { 1 } else { 2 * f64_spacing(n / 2) }
}

/// The `f64` nearest to `n` (`n as f64`, ties to even).
pub open spec fn as_f64(n: nat) -> nat {
    round_half_even(n, f64_spacing(n)) * f64_spacing(n)
}

/// A count of tenths written with one decimal: `12.3` for 123.
pub open spec fn one_decimal(tenths: nat) -> Seq<char> {
    text::decimal(tenths / 10) + seq!['.', text::digit_char(tenths % 10)]
}

/// How a file size is shown: bytes below 1 KiB, then KiB, MiB and GiB with one
/// decimal (as `{:.1}` formats the `f64` quotient), right-aligned, with the unit.
pub open spec fn size_text(bytes: nat) -> Seq<char> {
    if bytes < 1024 {
        text::pad_left(text::decimal(bytes), 8) + seq!['B', ' ']
    } else if bytes < 0x10_0000 {
        text::pad_left(one_decimal(round_half_even(bytes * 10, 1024)), 7) + seq!['K', ' ']
    } else if bytes < 0x4000_0000 {
        text::pad_left(one_decimal(round_half_even(bytes * 10, 0x10_0000)), 7) + seq!['M', ' ']
    } else {
        text::pad_left(one_decimal(round_half_even(as_f64(bytes) * 10, 0x4000_0000)), 7) + seq![
            'G',
            ' ',
        ]
    }
}

proof fn lemma_round_bound(n: nat, d: nat)
    requires
        d > 0,
    ensures
        round_half_even(n, d) <= n / d + 1,
        round_half_even(n, d) * d <= n + d,
{
    let q = n / d;
    let r = n % d;
    vstd::arithmetic::div_mod::lemma_fundamental_div_mod(n as int, d as int);
    assert((q + 1) * d == q * d + d) by (nonlinear_arith);
    assert(q * d == d * q) by (nonlinear_arith);
}

fn round_half_even_exec(n: u128, d: u128) -> (r: u128)
    requires
        d > 0,
        d <= 0x1_0000_0000_0000_0000,
        n < 0x1_0000_0000_0000_0000_0000,
    ensures
        r == round_half_even(n as nat, d as nat),
{
    let q = n / d;
    let r = n % d;
    assert(r < d);
    if 2 * r > d || (2 * r == d && q % 2 == 1) { q + 1 } else { q }
}

proof fn lemma_spacing(n: nat)
    ensures
        f64_spacing(n) >= 1,
        f64_spacing(n) <= n || n < 0x20_0000_0000_0000,
    decreases n,
{
    if n >= 0x20_0000_0000_0000 {
        lemma_spacing(n / 2);
    }
}

/// `bytes as f64`, as the integer it equals.
fn as_f64_exec(bytes: u64) -> (r: u128)
    ensures
        r == as_f64(bytes as nat),
        r <= 2 * (bytes as nat) + 1,
{
    let mut m: u64 = bytes;
    let mut unit: u128 = 1;
    while m >= 0x20_0000_0000_0000
        invariant
            f64_spacing(bytes as nat) == unit * f64_spacing(m as nat),
            1 <= unit,
            unit * (m as nat) <= bytes,
            unit > 1 ==> m >= 1,
        decreases m,
    {
        assert(f64_spacing(m as nat) == 2 * f64_spacing((m / 2) as nat));
        assert(unit * (2 * f64_spacing((m / 2) as nat)) == (2 * unit) * f64_spacing((m / 2) as nat))
            by (nonlinear_arith);
        assert((2 * unit) * ((m / 2) as nat) <= unit * (m as nat)) by (nonlinear_arith)
            requires unit >= 1;
        assert(unit < 0x800) by (nonlinear_arith)
            requires unit * (m as nat) <= bytes, m >= 0x20_0000_0000_0000, bytes < 0x1_0000_0000_0000_0000;
        unit = 2 * unit;
        m = m / 2;
    }
    assert(f64_spacing(m as nat) == 1);
    assert(unit == 1 || unit <= bytes) by (nonlinear_arith)
        requires unit * (m as nat) <= bytes, unit > 1 ==> m >= 1, 1 <= unit;
    proof {
        lemma_spacing(bytes as nat);
        lemma_round_bound(bytes as nat, unit as nat);
    }
    let q = round_half_even_exec(bytes as u128, unit);
    assert(q * unit <= bytes + unit);
    q * unit
}

/// Appends `tenths / 10`, a dot and the last digit of `tenths`.
fn push_one_decimal(s: &mut String, tenths: u64)
    ensures
        final(s)@ == old(s)@ + one_decimal(tenths as nat),
{
    text::push_decimal(s, tenths / 10);
    text::push_char(s, '.');
    text::push_char(s, text::digit(tenths % 10));
    assert(final(s)@ =~= old(s)@ + one_decimal(tenths as nat));
}

/// The size column of a file of `bytes` bytes.
pub fn format_size(bytes: u64) -> (res: String)
    ensures
        res@ == size_text(bytes as nat),
{
    let mut out = String::new();
    if bytes < 1024 {
        let digits = text::decimal_string(bytes);
        out = text::padded_left(digits.as_str(), 8);
        out.append("B ");
        proof {
            reveal_strlit("B ");
        }
        return out;
    }
    let (tenths, unit_char) = if bytes < 0x10_0000 {
        (round_half_even_exec(bytes as u128 * 10, 1024), 'K')
    } else if bytes < 0x4000_0000 {
        (round_half_even_exec(bytes as u128 * 10, 0x10_0000), 'M')
    } else {
        let v = as_f64_exec(bytes);
        (round_half_even_exec(v * 10, 0x4000_0000), 'G')
    };
    proof {
        if bytes >= 0x4000_0000 {
            lemma_round_bound(as_f64(bytes as nat) * 10, 0x4000_0000);
        } else {
            lemma_round_bound(bytes as nat * 10, 1024);
            lemma_round_bound(bytes as nat * 10, 0x10_0000);
        }
    }
    assert(tenths < 0x1_0000_0000_0000_0000);
    let mut num = String::new();
    push_one_decimal(&mut num, tenths as u64);
    out = text::padded_left(num.as_str(), 7);
    text::push_char(&mut out, unit_char);
    text::push_char(&mut out, ' ');
    assert(num@ =~= one_decimal(tenths as nat));
    out
}

/// The title of a panel: its directory, and the count of tagged rows if any.
pub open spec fn title_text(cwd: Seq<char>, tagged: nat) -> Seq<char> {
    if tagged > 0 {
        cwd + " ["@ + text::decimal(tagged) + " selected]"@
    } else {
        cwd
    }
}

/// The title of a panel.
pub fn panel_title(p: &Panel) -> (res: String)
    ensures
        res@ == title_text(p.cwd@, p.selected@.len()),
{
    broadcast use vstd::std_specs::hash::group_hash_axioms;

    let n = p.selected.len();
    let mut t = p.cwd.clone();
    if n > 0 {
        t.append(" [");
        text::push_decimal(&mut t, n as u64);
        t.append(" selected]");
    }
    t
}

/// The status line: the message if there is one, else where a copy would go
/// (` source → destination`).
pub open spec fn status_text(a: App) -> Seq<char> {
    if a.message@.len() == 0 {
        " "@ + a.active_spec().cwd@ + " → "@ + a.other_spec().cwd@
    } else {
        " "@ + a.message@
    }
}

/// The status line.
pub fn status_line(a: &App) -> (res: String)
    ensures
        res@ == status_text(*a),
{
    let mut t = String::from_str(" ");
    if a.message.unicode_len() == 0 {
        let (src, dst) = match a.active {
            ActivePanel::Left => (&a.left, &a.right),
            ActivePanel::Right => (&a.right, &a.left),
        };
        t.append(src.cwd.as_str());
        t.append(" → ");
        t.append(dst.cwd.as_str());
    } else {
        t.append(a.message.as_str());
    }
    t
}

/// The texts of one row of a panel: the tag mark, the kind mark, the name and the size column.
pub struct RowText {
    pub tag: String,
    pub icon: String,
    pub name: String,
    pub size: String,
}

/// The row of `e`; `tagged` when the row is tagged.
pub fn row_text(e: &Entry, tagged: bool) -> (res: RowText)
    ensures
        res.tag@ == (if tagged { "★ "@ } else { "  "@ }),
        res.icon@ == (if e.is_dir { "/ "@ } else { "  "@ }),
        res.name@ == e.name@,
        res.size@ == "  "@ + (if e.is_dir { "<DIR>     "@ } else { size_text(e.size as nat) }),
{
    let tag = if tagged { String::from_str("★ ") } else { String::from_str("  ") };
    let icon = if e.is_dir { String::from_str("/ ") } else { String::from_str("  ") };
    let mut size = String::from_str("  ");
    if e.is_dir {
        size.append("<DIR>     ");
    } else {
        let s = format_size(e.size);
        size.append(s.as_str());
    }
    RowText { tag, icon, name: e.name.clone(), size }
}

/// How far through a text of `total` lines the viewer has got, in percent,
/// with `height` lines shown from line `scroll` on.
pub open spec fn percent_seen(scroll: nat, height: nat, total: nat) -> nat {
    if total == 0 {
        0
    } else {
        let p = (scroll + height) * 100 / total;
        if p < 100 { p } else { 100 }
    }
}

/// The viewer's position line: ` line/total (percent%) — ESC to close `.
pub open spec fn viewer_info_text(scroll: nat, height: nat, total: nat) -> Seq<char> {
    " "@ + text::decimal(scroll + 1) + "/"@ + text::decimal(total) + " ("@ + text::decimal(
        percent_seen(scroll, height, total),
    ) + "%) — ESC to close "@
}

/// The viewer's position line.
pub fn viewer_info(scroll: usize, height: u16, total: usize) -> (res: String)
    requires
        scroll < usize::MAX,
        (scroll + height) * 100 <= usize::MAX,
    ensures
        res@ == viewer_info_text(scroll as nat, height as nat, total as nat),
{
    let pct: usize = if total == 0 {
        0
    } else {
        let p = (scroll + height as usize) * 100 / total;
        if p < 100 { p } else { 100 }
    };
    let mut t = String::from_str(" ");
    text::push_decimal(&mut t, (scroll + 1) as u64);
    t.append("/");
    text::push_decimal(&mut t, total as u64);
    t.append(" (");
    text::push_decimal(&mut t, pct as u64);
    t.append("%) — ESC to close ");
    t
}

/// The lines the viewer shows of a text of `total` lines: from line `scroll`
/// on, at most `height` of them, as the range `start..end`.
pub fn visible_lines(scroll: usize, height: u16, total: usize) -> (r: (usize, usize))
    ensures
        r.0 == (if scroll <= total { scroll } else { total }),
        r.1 == (if scroll + height <= total { scroll + height } else { total as int }),
{
    let start = if scroll <= total { scroll } else { total };
    let end = if (height as usize) <= total - start { start + height as usize } else { total };
    (start, end)
}

/// The width and height of a pop-up of `percent_x` percent of the width and
/// `percent_h` percent of the height of `area`, at least 5 rows high.
pub open spec fn popup_size(percent_x: u16, percent_h: u16, area: Rect) -> (int, int) {
    let w = area.width * percent_x / 100;
    let h = area.height * percent_h / 100;
    (w as int, if h >= 5 { h as int } else { 5 })
}

/// A pop-up of `percent_x` percent of the width and `percent_h` percent of
/// the height (at least 5 rows) of `area`, centered in it.
pub fn centered_rect(percent_x: u16, percent_h: u16, area: Rect) -> (r: Rect)
    requires
        area.width * percent_x <= u16::MAX,
        area.height * percent_h <= u16::MAX,
        area.x + (if area.width >= popup_size(percent_x, percent_h, area).0 {
            area.width - popup_size(percent_x, percent_h, area).0
        } else {
            0
        }) / 2 <= u16::MAX,
        area.y + (if area.height >= popup_size(percent_x, percent_h, area).1 {
            area.height - popup_size(percent_x, percent_h, area).1
        } else {
            0
        }) / 2 <= u16::MAX,
    ensures
        ({
            let (w, h) = popup_size(percent_x, percent_h, area);
            &&& r.width == w
            &&& r.height == h
            &&& r.x == area.x + (if area.width >= w { area.width - w } else { 0 }) / 2
            &&& r.y == area.y + (if area.height >= h { area.height - h } else { 0 }) / 2
        }),
{
    let popup_w = area.width * percent_x / 100;
    let hh = area.height * percent_h / 100;
    let popup_h = if hh >= 5 { hh } else { 5 };
    let x = (if area.width >= popup_w { area.width - popup_w } else { 0 }) / 2;
    let y = (if area.height >= popup_h { area.height - popup_h } else { 0 }) / 2;
    Rect { x: area.x + x, y: area.y + y, width: popup_w, height: popup_h }
}

/// The line at the bottom of a pop-up, inside its border, where the viewer
/// shows its position.
pub fn info_line_area(popup: Rect) -> (r: Rect)
    requires
        popup.width >= 2,
        popup.x < u16::MAX,
        popup.y + popup.height >= 1,
    ensures
        r.x == popup.x + 1,
        r.width == popup.width - 2,
        r.height == 1,
        r.y == (if popup.y + popup.height <= u16::MAX { popup.y + popup.height } else {
            u16::MAX as int
        }) - 1,
{
    let bottom = if popup.y as u32 + popup.height as u32 <= 0xFFFF {
        popup.y + popup.height
    } else {
        0xFFFF
    };
    Rect { x: popup.x + 1, y: bottom - 1, width: popup.width - 2, height: 1 }
}

/// The texts of the conflict dialog.
/// The file line is `file_label` followed by `file` (the name, drawn in bold).
pub struct ConflictText {
    pub title: String,
    pub file_label: String,
    pub file: String,
    pub from: String,
    pub to: String,
}

/// The directory part of a path, or the empty string.
pub open spec fn dir_or_empty(p: Seq<char>) -> Seq<char> {
    match paths::path_parent(p) {
        Some(d) => d,
        None => Seq::empty(),
    }
}

/// The texts of the conflict dialog for `src` going to the existing `dst`,
/// with `done` pairs done and `remaining` still queued.
pub fn conflict_text(src: &str, dst: &str, done: usize, remaining: usize) -> (res: ConflictText)
    ensures
        res.title@ == " File Conflict  ("@ + text::decimal(done as nat) + " done, "@ + text::decimal(
            remaining as nat,
        ) + " remaining) "@,
        res.file_label@ == "  File: "@,
        res.file@ == paths::file_name_or_empty(dst@),
        res.file_label@ + res.file@ == "  File: "@ + paths::file_name_or_empty(dst@),
        res.from@ == "  From: "@ + dir_or_empty(src@),
        res.to@ == "  To:   "@ + dir_or_empty(dst@),
{
    let mut title = String::from_str(" File Conflict  (");
    text::push_decimal(&mut title, done as u64);
    title.append(" done, ");
    text::push_decimal(&mut title, remaining as u64);
    title.append(" remaining) ");
    let mut from = String::from_str("  From: ");
    match paths::parent_path(src) {
        Some(d) => from.append(d.as_str()),
        None => {},
    }
    let mut to = String::from_str("  To:   ");
    match paths::parent_path(dst) {
        Some(d) => to.append(d.as_str()),
        None => {},
    }
    proof {
        assert(from@ =~= "  From: "@ + dir_or_empty(src@));
        assert(to@ =~= "  To:   "@ + dir_or_empty(dst@));
    }
    ConflictText {
        title,
        file_label: String::from_str("  File: "),
        file: paths::file_name_string(dst),
        from,
        to,
    }
}

/// The text of the input box: the prompt, then the value after `> ` with a cursor mark.
pub fn input_text(prompt: &str, value: &str) -> (res: String)
    ensures
        res@ == prompt@ + "\n> "@ + value@ + "_"@,
{
    let mut t = String::from_str(prompt);
    t.append("\n> ");
    t.append(value);
    t.append("_");
    t
}

/// The viewer's title: the file name between spaces.
pub fn viewer_title(path: &str) -> (res: String)
    ensures
        res@ == " "@ + paths::file_name_or_empty(path@) + " "@,
{
    let mut t = String::from_str(" ");
    let name = paths::file_name_string(path);
    t.append(name.as_str());
    t.append(" ");
    t
}

/// A key and what it does, shown as `[key]label`.
pub struct KeyHint {
    pub key: String,
    pub label: String,
}

/// The views of the keys and labels of some hints.
pub open spec fn hint_views(hs: Seq<KeyHint>) -> Seq<(Seq<char>, Seq<char>)> {
    hs.map_values(|h: KeyHint| (h.key@, h.label@))
}

/// How a hint is shown.
pub open spec fn hint_text_of(key: Seq<char>, label: Seq<char>) -> Seq<char> {
    "["@ + key + "]"@ + label
}

/// The text of a hint: `[key]label`.
pub fn hint_text(h: &KeyHint) -> (res: String)
    ensures
        res@ == hint_text_of(h.key@, h.label@),
{
    let mut t = String::from_str("[");
    t.append(h.key.as_str());
    t.append("]");
    t.append(h.label.as_str());
    t
}

fn key_hint(key: &str, label: &str) -> (res: KeyHint)
    ensures
        res.key@ == key@,
        res.label@ == label@,
{
    KeyHint { key: String::from_str(key), label: String::from_str(label) }
}

/// The function keys named on the bottom row of the screen, with what they do.
pub open spec fn help_hints() -> Seq<(Seq<char>, Seq<char>)> {
    seq![
        ("F1"@, "About"@),
        ("F2"@, "Rename"@),
        ("F3"@, "View"@),
        ("F4"@, "Edit"@),
        ("F5"@, "Copy"@),
        ("F6"@, "Move"@),
        ("F7"@, "MkDir"@),
        ("F8"@, "Del"@),
        ("^Q"@, "Quit"@),
    ]
}

/// The hints of the bottom row of the screen.
pub fn help_bar() -> (res: Vec<KeyHint>)
    ensures
        hint_views(res@) == help_hints(),
{
    let res = vec![
        key_hint("F1", "About"),
        key_hint("F2", "Rename"),
        key_hint("F3", "View"),
        key_hint("F4", "Edit"),
        key_hint("F5", "Copy"),
        key_hint("F6", "Move"),
        key_hint("F7", "MkDir"),
        key_hint("F8", "Del"),
        key_hint("^Q", "Quit"),
    ];
    assert(hint_views(res@) =~= help_hints());
    res
}

/// The keys the conflict dialog names, in the order it names them.
pub open spec fn conflict_hint_keys() -> Seq<Key> {
    seq![Key::Char('O'), Key::Char('A'), Key::Char('S'), Key::Char('N'), Key::Char('R'), Key::Esc]
}

/// How a key is named in a hint.
pub open spec fn key_name(k: Key) -> Seq<char> {
    match k {
        Key::Char(c) => seq![c],
        Key::Esc => "Esc"@,
        _ => Seq::empty(),
    }
}

/// The label of a choice in the conflict dialog.
pub open spec fn choice_label(c: ConflictChoice) -> Seq<char> {
    match c {
        ConflictChoice::Overwrite => "Overwrite"@,
        ConflictChoice::OverwriteAll => "All"@,
        ConflictChoice::Skip => "Skip"@,
        ConflictChoice::SkipAll => "None"@,
        ConflictChoice::Rename => "Rename"@,
        ConflictChoice::Cancel => "Cancel"@,
    }
}

/// The hints of the conflict dialog: each names a key and labels the choice
/// that the dialog makes for that key.
pub fn conflict_hints() -> (res: Vec<KeyHint>)
    ensures
        res@.len() == conflict_hint_keys().len(),
        forall|i: int|
            0 <= i < res@.len() ==> (#[trigger] res@[i]).key@ == key_name(conflict_hint_keys()[i])
                && res@[i].label@ == choice_label(app::conflict_choice(conflict_hint_keys()[i])),
{
    let res = vec![
        key_hint("O", "Overwrite"),
        key_hint("A", "All"),
        key_hint("S", "Skip"),
        key_hint("N", "None"),
        key_hint("R", "Rename"),
        key_hint("Esc", "Cancel"),
    ];
    proof {
        reveal_strlit("O");
        reveal_strlit("A");
        reveal_strlit("S");
        reveal_strlit("N");
        reveal_strlit("R");
    }
    res
}

/// The texts of some hints, each as `[key]label`.
pub open spec fn hint_texts(hs: Seq<(Seq<char>, Seq<char>)>) -> Seq<Seq<char>> {
    hs.map_values(|h: (Seq<char>, Seq<char>)| hint_text_of(h.0, h.1))
}

/// The hints shown one after another with `sep` between them.
pub fn hints_row(hints: &Vec<KeyHint>, sep: &str) -> (res: String)
    ensures
        res@ == text::joined_with(hint_texts(hint_views(hints@)), sep@),
{
    let ghost want = hint_texts(hint_views(hints@));
    let mut texts: Vec<String> = Vec::new();
    let mut i: usize = 0;
    while i < hints.len()
        invariant
            i <= hints@.len(),
            want == hint_texts(hint_views(hints@)),
            text::views(texts@) == want.take(i as int),
        decreases hints@.len() - i,
    {
        let t = hint_text(&hints[i]);
        let ghost prev = texts@;
        texts.push(t);
        proof {
            assert(text::views(texts@) =~= text::views(prev).push(t@));
            assert(want.take(i + 1) =~= want.take(i as int).push(want[i as int]));
        }
        i = i + 1;
    }
    assert(want.take(hints@.len() as int) =~= want);
    text::join(&texts, sep)
}

/// The bottom row of the screen: the function key hints, each followed by a space.
pub open spec fn help_row_text() -> Seq<char> {
    text::joined_with(hint_texts(help_hints()), " "@) + " "@
}

/// The bottom row of the screen.
pub fn help_row() -> (res: String)
    ensures
        res@ == help_row_text(),
        res@ == "[F1]About [F2]Rename [F3]View [F4]Edit [F5]Copy [F6]Move [F7]MkDir [F8]Del [^Q]Quit "@,
{
    proof {
        lemma_help_row_spelled();
    }
    let mut row = hints_row(&help_bar(), " ");
    row.append(" ");
    row
}

/// The bottom row spelled out.
proof fn lemma_help_row_spelled()
    ensures
        help_row_text() == "[F1]About [F2]Rename [F3]View [F4]Edit [F5]Copy [F6]Move [F7]MkDir [F8]Del [^Q]Quit "@,
{
    reveal_strlit("F1");
    reveal_strlit("About");
    reveal_strlit("F2");
    reveal_strlit("Rename");
    reveal_strlit("F3");
    reveal_strlit("View");
    reveal_strlit("F4");
    reveal_strlit("Edit");
    reveal_strlit("F5");
    reveal_strlit("Copy");
    reveal_strlit("F6");
    reveal_strlit("Move");
    reveal_strlit("F7");
    reveal_strlit("MkDir");
    reveal_strlit("F8");
    reveal_strlit("Del");
    reveal_strlit("^Q");
    reveal_strlit("Quit");
    reveal_strlit("[");
    reveal_strlit("]");
    reveal_strlit(" ");
    reveal_strlit("[F1]About [F2]Rename [F3]View [F4]Edit [F5]Copy [F6]Move [F7]MkDir [F8]Del [^Q]Quit ");
    reveal_with_fuel(text::joined_with, 10);
    assert(help_row_text() =~= "[F1]About [F2]Rename [F3]View [F4]Edit [F5]Copy [F6]Move [F7]MkDir [F8]Del [^Q]Quit "@);
}

/// The keys and labels of the conflict dialog's hints.
pub open spec fn conflict_hint_pairs() -> Seq<(Seq<char>, Seq<char>)> {
    conflict_hint_keys().map_values(
        |k: Key| (key_name(k), choice_label(app::conflict_choice(k))),
    )
}

/// The hint line of the conflict dialog: its hints, two spaces apart.
pub open spec fn conflict_hint_row_text() -> Seq<char> {
    text::joined_with(hint_texts(conflict_hint_pairs()), "  "@)
}

/// The hint line of the conflict dialog spelled out.
proof fn lemma_conflict_hint_row_spelled()
    ensures
        conflict_hint_row_text() == "[O]Overwrite  [A]All  [S]Skip  [N]None  [R]Rename  [Esc]Cancel"@,
{
    reveal_strlit("O");
    reveal_strlit("Overwrite");
    reveal_strlit("A");
    reveal_strlit("All");
    reveal_strlit("S");
    reveal_strlit("Skip");
    reveal_strlit("N");
    reveal_strlit("None");
    reveal_strlit("R");
    reveal_strlit("Rename");
    reveal_strlit("Esc");
    reveal_strlit("Cancel");
    reveal_strlit("[");
    reveal_strlit("]");
    reveal_strlit("  ");
    reveal_strlit("[O]Overwrite  [A]All  [S]Skip  [N]None  [R]Rename  [Esc]Cancel");
    reveal_with_fuel(text::joined_with, 7);
    assert(conflict_hint_row_text() =~= "[O]Overwrite  [A]All  [S]Skip  [N]None  [R]Rename  [Esc]Cancel"@);
}

/// The hint line of the conflict dialog.
pub fn conflict_hint_row() -> (res: String)
    ensures
        res@ == conflict_hint_row_text(),
        res@ == "[O]Overwrite  [A]All  [S]Skip  [N]None  [R]Rename  [Esc]Cancel"@,
{
    proof {
        lemma_conflict_hint_row_spelled();
    }
    let hints = conflict_hints();
    assert(hint_views(hints@) =~= conflict_hint_pairs());
    hints_row(&hints, "  ")
}

/// The colour of a panel's border: cyan for the panel with the focus, dark
/// grey for the other.
#[derive(PartialEq, Eq, Structural, Clone, Copy)]
pub enum BorderColor {
    Cyan,
    DarkGray,
}

/// The border colour of a panel, by whether it has the focus.
pub fn panel_border(active: bool) -> (c: BorderColor)
    ensures
        c == (if active { BorderColor::Cyan } else { BorderColor::DarkGray }),
{
    if active { BorderColor::Cyan } else { BorderColor::DarkGray }
}

/// The mark in front of the row under the cursor.
pub fn cursor_marker() -> (res: String)
    ensures
        res@ == "▶"@,
{
    String::from_str("▶")
}

} // verus!
