//! The file manager as a state machine. A key press, or the outcome of a
//! file-system request, takes the application from one state to the next and
//! yields the next request for the caller to perform (list a directory, read
//! a file, copy, ...). The caller performs it and hands back its outcome.
use std::collections::HashSet;
use vstd::prelude::*;
use crate::fs_ops;
use crate::highlight;
use crate::highlight::Segment;
use crate::listing::Entry;
use crate::panel::Panel;
use crate::panel;
use crate::paths;
use crate::text;

verus! {

/// Which panel has the focus.
#[derive(PartialEq, Eq, Structural, Clone, Copy)]
pub enum ActivePanel {
    Left,
    Right,
}

/// What the text typed into the input box is for.
#[derive(Clone)]
pub enum InputAction {
    /// A directory to create in the active panel.
    Mkdir,
    /// A new name for the file at this path.
    Rename(String),
}

/// What a confirmed question does.
#[derive(Clone)]
pub enum ConfirmAction {
    /// Delete these paths.
    Delete(Vec<String>),
}

/// What the screen shows on top of the panels, and how keys are read.
pub enum Mode {
    Normal,
    About,
    Input { prompt: String, value: String, action: InputAction },
    /// The file at `path`: its lines, the first line shown, and its lines
    /// highlighted (none where it could not be read).
    Viewer { path: String, content: Vec<String>, scroll: usize, highlighted: Option<Vec<Vec<Segment>>> },
    Confirm { prompt: String, action: ConfirmAction },
    /// A copy or move stopped at `dst`, which exists already; `queue` holds
    /// the pairs still to do, `done` the count so far, `errors` the failures.
    Conflict {
        src: String,
        dst: String,
        queue: Vec<(String, String)>,
        is_move: bool,
        done: usize,
        errors: Vec<String>,
    },
}

/// A key, as the application reads it.
#[derive(PartialEq, Eq, Structural, Clone, Copy)]
pub enum Key {
    Char(char),
    F(u8),
    Up,
    Down,
    Left,
    Right,
    PageUp,
    PageDown,
    Home,
    End,
    Tab,
    Enter,
    Esc,
    Backspace,
    Insert,
    Other,
}

/// What the caller is to do next.
pub enum Request {
    /// Nothing: wait for the next key.
    Idle,
    /// Leave the application.
    Quit,
    /// List the directory `dir` for the given panel; answer `Outcome::Listing`.
    List { panel: ActivePanel, dir: String },
    /// Read the file at `path` as text; answer `Outcome::Text`.
    Read { path: String },
    /// Run the user's editor on `path`; answer `Outcome::Done`.
    Edit { path: String },
    /// Run the file at `path` as a program if it is one (executable on Unix;
    /// `.exe`, `.bat`, `.cmd`, `.com` on Windows); answer `Outcome::Ran`.
    Run { path: String },
    /// Make `dir` the process's working directory; answer `Outcome::Done`.
    ChangeDir { dir: String },
    /// Tell whether something exists at `path`; answer `Outcome::Exists`.
    Exists { path: String },
    /// Move (`is_move`) or copy `src` to `dst`, recursively for directories;
    /// answer `Outcome::Result`.
    Transfer { src: String, dst: String, is_move: bool },
    /// Create the directory `path` and its parents; answer `Outcome::Result`.
    MakeDir { path: String },
    /// Rename `src` to `dst`; answer `Outcome::Result`.
    Rename { src: String, dst: String },
    /// Delete `path`, recursively for a directory; answer `Outcome::Result`.
    Remove { path: String },
}

/// How a request went.
pub enum Outcome {
    /// The editor returned, or the working directory was changed.
    Done,
    /// Whether the file was run as a program.
    Ran(bool),
    /// The entries of a listed directory, in the order the directory gave them.
    Listing(Vec<Entry>),
    /// The text of a read file, or the error message.
    Text(Result<String, String>),
    /// Whether the path exists.
    Exists(bool),
    /// `None` on success, or the error message.
    Result(Option<String>),
}

/// A copy or move in progress: the pairs still to do, the count of those done,
/// the messages of the failures, and whether each later pair whose destination
/// exists is skipped without a question (after "none").
pub struct CopyJob {
    pub queue: Vec<(String, String)>,
    pub is_move: bool,
    pub done: usize,
    pub errors: Vec<String>,
    pub skip_conflicts: bool,
}

/// What the application waits for.
pub enum Pending {
    Idle,
    /// The listing of `panel`'s directory; then that of the right panel if `then_right`.
    Listing { panel: ActivePanel, then_right: bool },
    /// The text of the file to view.
    Viewing { path: String },
    /// The editor.
    Editing,
    /// A program.
    Running,
    /// The change of the working directory, then the listing of the left panel.
    ChangingDir,
    /// The creation of the directory `name`.
    MakingDir { name: String },
    /// The renaming to `new_name`.
    Renaming { new_name: String },
    /// The removal of `targets[next]`.
    Deleting { targets: Vec<String>, next: usize, errors: Vec<String> },
    /// Whether `dst`, where `src` is to go, exists.
    Checking { job: CopyJob, src: String, dst: String },
    /// The transfer of `src`; `all` when the remaining pairs go without checks.
    Transferring { job: CopyJob, src: String, all: bool },
    /// Whether the `n`-th copy name of `dst` exists.
    Naming { job: CopyJob, src: String, dst: String, n: u32 },
}

/// The application: two panels, the focus, the status message, the mode and
/// what it waits for.
pub struct App {
    pub left: Panel,
    pub right: Panel,
    pub active: ActivePanel,
    pub message: String,
    pub mode: Mode,
    pub pending: Pending,
}

// ── messages ────────────────────────────────────────────────────────────────

/// The status line after a copy or move.
pub open spec fn finish_message(done: nat, errors: Seq<Seq<char>>) -> Seq<char> {
    if errors.len() == 0 {
        (if done > 0 { "Processed"@ } else { "Nothing to do:"@ }) + " "@ + text::decimal(done)
            + " item(s)"@
    } else {
        "Done ("@ + text::decimal(done) + " ok) — Errors: "@ + text::joined_with(errors, "; "@)
    }
}

/// The status line after a deletion.
pub open spec fn delete_message(count: nat, errors: Seq<Seq<char>>) -> Seq<char> {
    if errors.len() == 0 {
        "Deleted "@ + text::decimal(count) + " item(s)"@
    } else {
        "Errors: "@ + text::joined_with(errors, "; "@)
    }
}

/// The message recorded when moving or copying `src` failed with `e`.
pub open spec fn transfer_error(src: Seq<char>, e: Seq<char>) -> Seq<char> {
    paths::file_name_or_empty(src) + ": "@ + e
}

/// The question asked before deleting `targets`.
pub open spec fn delete_prompt(targets: Seq<Seq<char>>) -> Seq<char> {
    "Delete "@ + text::joined_with(targets.map_values(|t: Seq<char>| paths::file_name_or_empty(t)), ", "@)
        + "? [y/N]"@
}

/// The viewer's lines for a read that gave `text`, or failed with a message.
pub open spec fn viewer_lines(r: Result<String, String>) -> Seq<Seq<char>> {
    match r {
        Ok(t) => text::lines_of(t@),
        Err(e) => seq!["Cannot read file: "@ + e@],
    }
}

/// The directory a renamed file stays in: its parent, or the path itself where it has none.
pub open spec fn parent_or_self(p: Seq<char>) -> Seq<char> {
    match paths::path_parent(p) {
        Some(d) => d,
        None => p,
    }
}

/// The views of a queue of (source, destination) pairs.
pub open spec fn pair_views(q: Seq<(String, String)>) -> Seq<(Seq<char>, Seq<char>)> {
    q.map_values(|p: (String, String)| (p.0@, p.1@))
}

/// The (source, destination) pairs for copying or moving `targets` into `dst_dir`.
pub open spec fn queue_for(targets: Seq<Seq<char>>, dst_dir: Seq<char>) -> Seq<(Seq<char>, Seq<char>)> {
    targets.map_values(
        |s: Seq<char>| (s, paths::path_join(dst_dir, paths::file_name_or_empty(s))),
    )
}

/// The errors with the failure `r` of moving or copying `src` added.
pub open spec fn errors_after(errors: Seq<Seq<char>>, src: Seq<char>, r: Option<String>) -> Seq<Seq<char>> {
    match r {
        Some(e) => errors.push(transfer_error(src, e@)),
        None => errors,
    }
}

/// The viewer's scroll position after a key, for `len` lines.
pub open spec fn scrolled(scroll: usize, len: nat, key: Key) -> usize {
    let max: int = if len > 0 { len - 1 } else { 0 };
    let s = scroll as int;
    (if key == Key::Up {
        if s >= 1 { s - 1 } else { 0 }
    } else if key == Key::Down {
        if s + 1 <= max { s + 1 } else { max }
    } else if key == Key::PageUp {
        if s >= 20 { s - 20 } else { 0 }
    } else if key == Key::PageDown {
        if s + 20 <= max { s + 20 } else { max }
    } else if key == Key::Home {
        0
    } else if key == Key::End {
        max
    } else {
        s
    }) as usize
}

/// Whether a key closes the viewer.
pub open spec fn closes_viewer(key: Key) -> bool {
    key == Key::Esc || key == Key::F(3) || key == Key::Char('q')
}

/// Whether a character is an ASCII letter (`char::is_ascii_alphabetic`).
pub open spec fn is_ascii_letter(c: char) -> bool {
    ('a' <= c && c <= 'z') || ('A' <= c && c <= 'Z')
}

/// The other panel.
pub open spec fn flipped(a: ActivePanel) -> ActivePanel {
    match a {
        ActivePanel::Left => ActivePanel::Right,
        ActivePanel::Right => ActivePanel::Left,
    }
}

impl App {
    /// The panel with the focus.
    pub open spec fn active_spec(self) -> Panel {
        match self.active {
            ActivePanel::Left => self.left,
            ActivePanel::Right => self.right,
        }
    }

    /// The panel without the focus.
    pub open spec fn other_spec(self) -> Panel {
        match self.active {
            ActivePanel::Left => self.right,
            ActivePanel::Right => self.left,
        }
    }

    /// The panel on the given side.
    pub open spec fn panel_spec(self, side: ActivePanel) -> Panel {
        match side {
            ActivePanel::Left => self.left,
            ActivePanel::Right => self.right,
        }
    }

    /// What the state machine keeps true between steps: a pending deletion
    /// names one of its targets.
    pub open spec fn wf(self) -> bool {
        self.pending matches Pending::Deleting { targets, next, .. } ==> next < targets@.len()
    }
}

/// The program that edits a file: the one the `EDITOR` variable names
/// (`editor_var`, `None` where it is unset), else `vi`.
pub fn editor_program(editor_var: Option<String>) -> (res: String)
    ensures
        res@ == (match editor_var {
            Some(e) => e@,
            None => "vi"@,
        }),
{
    match editor_var {
        Some(e) => e,
        None => String::from_str("vi"),
    }
}

// ── relations between two states ────────────────────────────────────────────

/// Same panels and focus.
pub open spec fn panels_same(a: App, b: App) -> bool {
    &&& b.left == a.left
    &&& b.right == a.right
    &&& b.active == a.active
}

/// The focused panel went from `p` to `q` by `step`; the other panel and the focus stayed.
pub open spec fn active_stepped(a: App, b: App, step: spec_fn(Panel, Panel) -> bool) -> bool {
    &&& b.active == a.active
    &&& step(a.active_spec(), b.active_spec())
    &&& b.other_spec() == a.other_spec()
}

/// Nothing is requested and nothing awaited.
pub open spec fn idle(b: App, req: Request) -> bool {
    req is Idle && b.pending is Idle
}

/// Both panels are to be listed again, the left one first.
pub open spec fn refreshing(b: App, req: Request) -> bool {
    &&& req matches Request::List { panel, dir } && panel == ActivePanel::Left && dir@ == b.left.cwd@
    &&& b.pending matches Pending::Listing { panel, then_right } && panel == ActivePanel::Left
        && then_right
}

/// `src` is to be moved or copied to `dst` as part of `job`.
pub open spec fn transferring(
    b: App,
    req: Request,
    src: Seq<char>,
    dst: Seq<char>,
    queue: Seq<(Seq<char>, Seq<char>)>,
    is_move: bool,
    done: nat,
    errors: Seq<Seq<char>>,
    all: bool,
    skip: bool,
) -> bool {
    &&& req matches Request::Transfer { src: s, dst: d, is_move: m } && s@ == src && d@ == dst && m
        == is_move
    &&& b.pending matches Pending::Transferring { job, src: s, all: al } && s@ == src && al == all
        && pair_views(job.queue@) == queue && job.is_move == is_move && job.done == done
        && text::views(job.errors@) == errors && job.skip_conflicts == skip
}

/// The copy or move with these pairs to do goes on: with a check of the first
/// destination, or, when none is left, with the closing message and a refresh.
/// `msg` is the status line before; `skip` tells whether destinations found to
/// exist are skipped without a question.
pub open spec fn queue_step(
    b: App,
    req: Request,
    queue: Seq<(Seq<char>, Seq<char>)>,
    is_move: bool,
    done: nat,
    errors: Seq<Seq<char>>,
    msg: Seq<char>,
    skip: bool,
) -> bool {
    if queue.len() == 0 {
        b.message@ == finish_message(done, errors) && refreshing(b, req)
    } else {
        &&& b.message@ == msg
        &&& req matches Request::Exists { path } && path@ == queue[0].1
        &&& b.pending matches Pending::Checking { job, src, dst } && pair_views(job.queue@)
            == queue.drop_first() && job.is_move == is_move && job.done == done && text::views(
            job.errors@,
        ) == errors && src@ == queue[0].0 && dst@ == queue[0].1 && job.skip_conflicts == skip
    }
}

/// The remaining pairs are moved or copied without checks (after "all").
pub open spec fn all_step(
    b: App,
    req: Request,
    queue: Seq<(Seq<char>, Seq<char>)>,
    is_move: bool,
    done: nat,
    errors: Seq<Seq<char>>,
    msg: Seq<char>,
    skip: bool,
) -> bool {
    if queue.len() == 0 {
        b.message@ == finish_message(done, errors) && refreshing(b, req)
    } else {
        &&& b.message@ == msg
        &&& transferring(
            b,
            req,
            queue[0].0,
            queue[0].1,
            queue.drop_first(),
            is_move,
            done,
            errors,
            true,
            skip,
        )
    }
}

/// The deletion of `targets` goes on at `next`, or ends with its message and a refresh.
pub open spec fn delete_step(
    b: App,
    req: Request,
    targets: Seq<Seq<char>>,
    next: nat,
    errors: Seq<Seq<char>>,
    msg: Seq<char>,
) -> bool {
    if next < targets.len() {
        &&& b.message@ == msg
        &&& req matches Request::Remove { path } && path@ == targets[next as int]
        &&& b.pending matches Pending::Deleting { targets: t, next: n, errors: e } && text::views(t@)
            == targets && n == next && text::views(e@) == errors
    } else {
        b.message@ == delete_message(targets.len(), errors) && refreshing(b, req)
    }
}

// ── the steps of each mode ──────────────────────────────────────────────────

/// F2: the rename box, filled with the name under the cursor (not for `..`).
pub open spec fn rename_prompt_step(a: App, b: App, req: Request) -> bool {
    &&& panels_same(a, b)
    &&& idle(b, req)
    &&& b.message == a.message
    &&& match a.active_spec().selected_entry_spec() {
        Some(e) => if e.name@ != panel::dotdot() {
            &&& b.mode matches Mode::Input { prompt, value, action }
            &&& prompt@ == "Rename:"@
            &&& value@ == e.name@
            &&& action matches InputAction::Rename(src)
            &&& src@ == paths::path_join(a.active_spec().cwd@, e.name@)
        } else {
            b.mode == a.mode
        },
        None => b.mode == a.mode,
    }
}

/// F3: read the file under the cursor for viewing (not a directory, not `..`).
pub open spec fn viewer_open_step(a: App, b: App, req: Request) -> bool {
    &&& panels_same(a, b)
    &&& b.mode == a.mode
    &&& b.message == a.message
    &&& match a.active_spec().selected_entry_spec() {
        Some(e) => if !e.is_dir && e.name@ != panel::dotdot() {
            &&& req matches Request::Read { path }
            &&& path@ == paths::path_join(a.active_spec().cwd@, e.name@)
            &&& b.pending matches Pending::Viewing { path: p }
            &&& p@ == path@
        } else {
            idle(b, req)
        },
        None => idle(b, req),
    }
}

/// F4: edit the file under the cursor (not `..`), then list both panels again.
pub open spec fn editor_open_step(a: App, b: App, req: Request) -> bool {
    &&& panels_same(a, b)
    &&& b.mode == a.mode
    &&& b.message == a.message
    &&& match a.active_spec().selected_entry_spec() {
        Some(e) => if e.name@ != panel::dotdot() {
            &&& req matches Request::Edit { path }
            &&& path@ == paths::path_join(a.active_spec().cwd@, e.name@)
            &&& b.pending is Editing
        } else {
            idle(b, req)
        },
        None => idle(b, req),
    }
}

/// F5/F6: copy or move the targets of the focused panel into the other panel's directory.
pub open spec fn transfer_start_step(a: App, b: App, req: Request, is_move: bool) -> bool {
    let targets = a.active_spec().target_paths();
    &&& panels_same(a, b)
    &&& b.mode == a.mode
    &&& if targets.len() == 0 {
        idle(b, req) && b.message == a.message
    } else {
        queue_step(
            b,
            req,
            queue_for(targets, a.other_spec().cwd@),
            is_move,
            0,
            Seq::empty(),
            a.message@,
            false,
        )
    }
}

/// F8: ask before deleting the targets of the focused panel.
pub open spec fn delete_prompt_step(a: App, b: App, req: Request) -> bool {
    let targets = a.active_spec().target_paths();
    &&& panels_same(a, b)
    &&& idle(b, req)
    &&& b.message == a.message
    &&& if targets.len() == 0 {
        b.mode == a.mode
    } else {
        &&& b.mode matches Mode::Confirm { prompt, action }
        &&& prompt@ == delete_prompt(targets)
        &&& action matches ConfirmAction::Delete(ts)
        &&& text::views(ts@) == targets
    }
}

/// A key in the normal mode, where `ctrl` tells that Control alone is held.
pub open spec fn normal_step(a: App, key: Key, ctrl: bool, b: App, req: Request) -> bool {
    let p = a.active_spec();
    let len = p.entries@.len();
    // the status line is cleared before the key is handled
    let a2 = App { message: b.message, ..a };
    &&& b.message@ == Seq::<char>::empty()
    &&& if key == Key::Char('q') && ctrl {
        req is Quit && panels_same(a, b) && b.mode == a.mode && b.pending is Idle
    } else if key == Key::Tab || key == Key::Left || key == Key::Right {
        &&& b.active == (if key == Key::Tab {
            flipped(a.active)
        } else if key == Key::Left {
            ActivePanel::Left
        } else {
            ActivePanel::Right
        })
        &&& b.left == a.left
        &&& b.right == a.right
        &&& b.mode == a.mode
        &&& idle(b, req)
    } else if key == Key::Up || key == Key::Down || key == Key::PageUp || key == Key::PageDown
        || key == Key::Home || key == Key::End || key == Key::Char(' ') || key == Key::Insert {
        &&& b.mode == a.mode
        &&& idle(b, req)
        &&& active_stepped(
            a,
            b,
            |x: Panel, y: Panel|
                if key == Key::Up {
                    panel::moved(x, y, -1i64)
                } else if key == Key::Down {
                    panel::moved(x, y, 1)
                } else if key == Key::PageUp {
                    panel::paged_panel(x, y, 20, false)
                } else if key == Key::PageDown {
                    panel::paged_panel(x, y, 20, true)
                } else if key == Key::Home {
                    panel::cursor_set(x, y, Some(0usize))
                } else if key == Key::End {
                    panel::cursor_set(
                        x,
                        y,
                        Some((if x.entries@.len() > 0 { x.entries@.len() - 1 } else { 0 }) as usize),
                    )
                } else {
                    panel::toggle_result(x, y)
                },
        )
    } else if key matches Key::Char(c) && is_ascii_letter(c) {
        &&& b.mode == a.mode
        &&& idle(b, req)
        &&& active_stepped(a, b, |x: Panel, y: Panel| panel::jump_result(x, y, key->Char_0))
    } else if key == Key::Enter {
        &&& b.mode == a.mode
        &&& b.active == a.active
        &&& b.other_spec() == a.other_spec()
        &&& exists|changed: bool|
            #[trigger] panel::enter_result(p, b.active_spec(), changed) && if changed {
                if a.active == ActivePanel::Left {
                    &&& req matches Request::ChangeDir { dir } && dir@ == b.left.cwd@
                    &&& b.pending is ChangingDir
                } else {
                    &&& req matches Request::List { panel, dir } && panel == a.active && dir@
                        == b.active_spec().cwd@
                    &&& b.pending matches Pending::Listing { panel, then_right } && panel
                        == a.active && !then_right
                }
            } else {
                match p.selected_entry_spec() {
                    Some(e) => if !e.is_dir {
                        &&& req matches Request::Run { path } && path@ == paths::path_join(
                            p.cwd@,
                            e.name@,
                        )
                        &&& b.pending is Running
                    } else {
                        idle(b, req)
                    },
                    None => idle(b, req),
                }
            }
    } else if key == Key::F(1) {
        b.mode is About && panels_same(a, b) && idle(b, req)
    } else if key == Key::F(2) {
        rename_prompt_step(a2, b, req)
    } else if key == Key::F(3) {
        viewer_open_step(a2, b, req)
    } else if key == Key::F(4) {
        editor_open_step(a2, b, req)
    } else if key == Key::F(5) {
        transfer_start_step(a2, b, req, false)
    } else if key == Key::F(6) {
        transfer_start_step(a2, b, req, true)
    } else if key == Key::F(7) {
        &&& b.mode matches Mode::Input { prompt, value, action } && prompt@
            == "New directory name:"@ && value@ == Seq::<char>::empty() && action is Mkdir
        &&& panels_same(a, b)
        &&& idle(b, req)
    } else if key == Key::F(8) {
        delete_prompt_step(a2, b, req)
    } else {
        panels_same(a, b) && b.mode == a.mode && idle(b, req)
    }
}

/// A key in the input box.
pub open spec fn input_step(a: App, key: Key, b: App, req: Request) -> bool {
    &&& panels_same(a, b)
    &&& match a.mode {
        Mode::Input { prompt, value, action } => if key == Key::Esc {
            b.mode is Normal && idle(b, req) && b.message == a.message
        } else if key == Key::Enter {
            let v = text::trimmed(value@);
            &&& b.mode is Normal
            &&& b.message == a.message
            &&& if v.len() == 0 {
                idle(b, req)
            } else {
                match action {
                    InputAction::Mkdir => {
                        &&& req matches Request::MakeDir { path }
                        &&& path@ == paths::path_join(a.active_spec().cwd@, v)
                        &&& b.pending matches Pending::MakingDir { name }
                        &&& name@ == v
                    },
                    InputAction::Rename(src) => {
                        &&& req matches Request::Rename { src: s, dst }
                        &&& s@ == src@
                        &&& dst@ == paths::path_join(parent_or_self(src@), v)
                        &&& b.pending matches Pending::Renaming { new_name }
                        &&& new_name@ == v
                    },
                }
            }
        } else if key == Key::Backspace || key is Char {
            &&& b.message == a.message
            &&& idle(b, req)
            &&& b.mode matches Mode::Input { prompt: p2, value: v2, action: a2 } && p2 == prompt
                && a2 == action && v2@ == (match key {
                Key::Char(c) => value@.push(c),
                _ => if value@.len() > 0 { value@.drop_last() } else { value@ },
            })
        } else {
            b.mode == a.mode && idle(b, req) && b.message == a.message
        },
        _ => false,
    }
}

/// A key in the viewer.
pub open spec fn viewer_step(a: App, key: Key, b: App, req: Request) -> bool {
    &&& panels_same(a, b)
    &&& idle(b, req)
    &&& b.message == a.message
    &&& match a.mode {
        Mode::Viewer { path, content, scroll, highlighted } => if closes_viewer(key) {
            b.mode is Normal
        } else {
            b.mode matches Mode::Viewer { path: p2, content: c2, scroll: s2, highlighted: h2 } && p2
                == path && c2 == content && h2 == highlighted && s2 == scrolled(
                scroll,
                content@.len(),
                key,
            )
        },
        _ => false,
    }
}

/// A key in the delete question: `y` deletes, anything else cancels.
pub open spec fn confirm_step(a: App, key: Key, b: App, req: Request) -> bool {
    &&& panels_same(a, b)
    &&& b.mode is Normal
    &&& match a.mode {
        Mode::Confirm { action: ConfirmAction::Delete(targets), .. } => if key == Key::Char('y')
            || key == Key::Char('Y') {
            delete_step(b, req, text::views(targets@), 0, Seq::empty(), a.message@)
        } else {
            idle(b, req) && b.message == a.message
        },
        _ => false,
    }
}

/// What a key in the conflict dialog chooses.
#[derive(PartialEq, Eq, Structural, Clone, Copy)]
pub enum ConflictChoice {
    /// Overwrite this file.
    Overwrite,
    /// Overwrite this file and all later ones without asking.
    OverwriteAll,
    /// Skip this file.
    Skip,
    /// Skip this file and every later one whose destination exists.
    SkipAll,
    /// Copy this file under the first free copy name.
    Rename,
    /// Stop the copy or move here.
    Cancel,
}

/// The choice a key makes in the conflict dialog; any key it does not name cancels.
pub open spec fn conflict_choice(key: Key) -> ConflictChoice {
    if key == Key::Char('o') || key == Key::Char('O') {
        ConflictChoice::Overwrite
    } else if key == Key::Char('a') || key == Key::Char('A') {
        ConflictChoice::OverwriteAll
    } else if key == Key::Char('s') || key == Key::Char('S') {
        ConflictChoice::Skip
    } else if key == Key::Char('n') || key == Key::Char('N') {
        ConflictChoice::SkipAll
    } else if key == Key::Char('r') || key == Key::Char('R') {
        ConflictChoice::Rename
    } else {
        ConflictChoice::Cancel
    }
}

/// The choice a key makes in the conflict dialog.
pub fn choice_of(key: Key) -> (c: ConflictChoice)
    ensures
        c == conflict_choice(key),
{
    match key {
        Key::Char('o') | Key::Char('O') => ConflictChoice::Overwrite,
        Key::Char('a') | Key::Char('A') => ConflictChoice::OverwriteAll,
        Key::Char('s') | Key::Char('S') => ConflictChoice::Skip,
        Key::Char('n') | Key::Char('N') => ConflictChoice::SkipAll,
        Key::Char('r') | Key::Char('R') => ConflictChoice::Rename,
        _ => ConflictChoice::Cancel,
    }
}

/// Whether a key in the conflict dialog counts the conflicting file as done.
pub open spec fn counts_item(key: Key) -> bool {
    key == Key::Char('o') || key == Key::Char('O') || key == Key::Char('a') || key == Key::Char('A')
        || key == Key::Char('r') || key == Key::Char('R')
}

/// A key in the conflict dialog: overwrite, overwrite all, skip, skip all
/// conflicts, copy under a new name; any other key stops.
pub open spec fn conflict_step(a: App, key: Key, b: App, req: Request) -> bool {
    &&& panels_same(a, b)
    &&& b.mode is Normal
    &&& match a.mode {
        Mode::Conflict { src, dst, queue, is_move, done, errors } => {
            let q = pair_views(queue@);
            let es = text::views(errors@);
            let c = conflict_choice(key);
            if c == ConflictChoice::Overwrite {
                b.message == a.message && transferring(
                    b,
                    req,
                    src@,
                    dst@,
                    q,
                    is_move,
                    (done + 1) as nat,
                    es,
                    false,
                    false,
                )
            } else if c == ConflictChoice::OverwriteAll {
                b.message == a.message && transferring(
                    b,
                    req,
                    src@,
                    dst@,
                    q,
                    is_move,
                    (done + 1) as nat,
                    es,
                    true,
                    false,
                )
            } else if c == ConflictChoice::Skip {
                queue_step(b, req, q, is_move, done as nat, es, a.message@, false)
            } else if c == ConflictChoice::SkipAll {
                queue_step(b, req, q, is_move, done as nat, es, a.message@, true)
            } else if c == ConflictChoice::Rename {
                &&& b.message == a.message
                &&& req matches Request::Exists { path } && path@ == fs_ops::copy_name(dst@, 1)
                &&& b.pending matches Pending::Naming { job, src: s, dst: d, n } && n == 1 && s@
                    == src@ && d@ == dst@ && pair_views(job.queue@) == q && job.is_move == is_move
                    && job.done == done + 1 && text::views(job.errors@) == es
                    && !job.skip_conflicts
            } else {
                b.message@ == finish_message(done as nat, es) && refreshing(b, req)
            }
        },
        _ => false,
    }
}

/// A key, whatever the mode.
pub open spec fn key_step(a: App, key: Key, ctrl: bool, b: App, req: Request) -> bool {
    match a.mode {
        Mode::Normal => normal_step(a, key, ctrl, b, req),
        Mode::About => b.mode is Normal && panels_same(a, b) && idle(b, req) && b.message
            == a.message,
        Mode::Input { .. } => input_step(a, key, b, req),
        Mode::Viewer { .. } => viewer_step(a, key, b, req),
        Mode::Confirm { .. } => confirm_step(a, key, b, req),
        Mode::Conflict { .. } => conflict_step(a, key, b, req),
    }
}

/// The answer to a request that was not awaited changes nothing but drops what was awaited.
pub open spec fn ignored(a: App, b: App, req: Request) -> bool {
    panels_same(a, b) && b.mode == a.mode && b.message == a.message && idle(b, req)
}

/// An outcome, given what was awaited.
pub open spec fn resume_step(a: App, outcome: Outcome, b: App, req: Request) -> bool {
    match a.pending {
        Pending::Idle => ignored(a, b, req),
        Pending::Listing { panel, then_right } => match outcome {
            Outcome::Listing(entries) => {
                &&& b.active == a.active
                &&& b.mode == a.mode
                &&& b.message == a.message
                &&& panel::refresh_result(a.panel_spec(panel), b.panel_spec(panel), entries@)
                &&& b.panel_spec(flipped(panel)) == a.panel_spec(flipped(panel))
                &&& if then_right {
                    &&& req matches Request::List { panel: p2, dir } && p2 == ActivePanel::Right
                        && dir@ == b.right.cwd@
                    &&& b.pending matches Pending::Listing { panel: p3, then_right: t3 } && p3
                        == ActivePanel::Right && !t3
                } else {
                    idle(b, req)
                }
            },
            _ => ignored(a, b, req),
        },
        Pending::Viewing { path } => match outcome {
            Outcome::Text(r) => {
                &&& panels_same(a, b)
                &&& b.message == a.message
                &&& idle(b, req)
                &&& b.mode matches Mode::Viewer { path: p, content, scroll, highlighted } && p == path
                    && scroll == 0 && text::views(content@) == viewer_lines(r) && match r {
                    Ok(t) => highlighted matches Some(rows) && highlight::highlights_text(
                        rows@,
                        t@,
                    ),
                    Err(_) => highlighted is None,
                }
            },
            _ => ignored(a, b, req),
        },
        Pending::Editing => match outcome {
            Outcome::Done => panels_same(a, b) && b.mode == a.mode && b.message == a.message
                && refreshing(b, req),
            _ => ignored(a, b, req),
        },
        Pending::Running => match outcome {
            Outcome::Ran(ran) => panels_same(a, b) && b.mode == a.mode && b.message == a.message
                && if ran { refreshing(b, req) } else { idle(b, req) },
            _ => ignored(a, b, req),
        },
        Pending::ChangingDir => match outcome {
            Outcome::Done => {
                &&& panels_same(a, b)
                &&& b.mode == a.mode
                &&& b.message == a.message
                &&& req matches Request::List { panel, dir } && panel == ActivePanel::Left && dir@
                    == b.left.cwd@
                &&& b.pending matches Pending::Listing { panel, then_right } && panel
                    == ActivePanel::Left && !then_right
            },
            _ => ignored(a, b, req),
        },
        Pending::MakingDir { name } => match outcome {
            Outcome::Result(r) => {
                &&& panels_same(a, b)
                &&& b.mode == a.mode
                &&& refreshing(b, req)
                &&& b.message@ == match r {
                    None => "Created "@ + name@,
                    Some(e) => "mkdir error: "@ + e@,
                }
            },
            _ => ignored(a, b, req),
        },
        Pending::Renaming { new_name } => match outcome {
            Outcome::Result(r) => {
                &&& panels_same(a, b)
                &&& b.mode == a.mode
                &&& refreshing(b, req)
                &&& b.message@ == match r {
                    None => "Renamed to "@ + new_name@,
                    Some(e) => "Rename error: "@ + e@,
                }
            },
            _ => ignored(a, b, req),
        },
        Pending::Deleting { targets, next, errors } => match outcome {
            Outcome::Result(r) => {
                &&& panels_same(a, b)
                &&& b.mode == a.mode
                &&& delete_step(
                    b,
                    req,
                    text::views(targets@),
                    next as nat + 1,
                    match r {
                        Some(e) => text::views(errors@).push(e@),
                        None => text::views(errors@),
                    },
                    a.message@,
                )
            },
            _ => ignored(a, b, req),
        },
        Pending::Checking { job, src, dst } => match outcome {
            Outcome::Exists(true) => if job.skip_conflicts {
                &&& panels_same(a, b)
                &&& b.mode == a.mode
                &&& queue_step(
                    b,
                    req,
                    pair_views(job.queue@),
                    job.is_move,
                    job.done as nat,
                    text::views(job.errors@),
                    a.message@,
                    true,
                )
            } else {
                &&& panels_same(a, b)
                &&& b.message == a.message
                &&& idle(b, req)
                &&& b.mode matches Mode::Conflict { src: s, dst: d, queue, is_move, done, errors }
                    && s == src && d == dst && queue == job.queue && is_move == job.is_move && done
                    == job.done && errors == job.errors
            },
            Outcome::Exists(false) => {
                &&& panels_same(a, b)
                &&& b.mode == a.mode
                &&& b.message == a.message
                &&& transferring(
                    b,
                    req,
                    src@,
                    dst@,
                    pair_views(job.queue@),
                    job.is_move,
                    job.done as nat,
                    text::views(job.errors@),
                    false,
                    job.skip_conflicts,
                )
            },
            _ => ignored(a, b, req),
        },
        Pending::Transferring { job, src, all } => match outcome {
            Outcome::Result(r) => {
                let es = errors_after(text::views(job.errors@), src@, r);
                &&& panels_same(a, b)
                &&& b.mode == a.mode
                &&& if all {
                    all_step(
                        b,
                        req,
                        pair_views(job.queue@),
                        job.is_move,
                        job.done as nat,
                        es,
                        a.message@,
                        job.skip_conflicts,
                    )
                } else {
                    queue_step(
                        b,
                        req,
                        pair_views(job.queue@),
                        job.is_move,
                        job.done as nat,
                        es,
                        a.message@,
                        job.skip_conflicts,
                    )
                }
            },
            _ => ignored(a, b, req),
        },
        Pending::Naming { job, src, dst, n } => match outcome {
            Outcome::Exists(true) => {
                &&& panels_same(a, b)
                &&& b.mode == a.mode
                &&& if n == u32::MAX {
                    queue_step(
                        b,
                        req,
                        pair_views(job.queue@),
                        job.is_move,
                        job.done as nat,
                        text::views(job.errors@),
                        a.message@,
                        job.skip_conflicts,
                    )
                } else {
                    &&& b.message == a.message
                    &&& req matches Request::Exists { path } && path@ == fs_ops::copy_name(
                        dst@,
                        n as nat + 1,
                    )
                    &&& b.pending matches Pending::Naming { job: j, src: s, dst: d, n: m } && j
                        == job && s == src && d == dst && m == n + 1
                }
            },
            Outcome::Exists(false) => {
                &&& panels_same(a, b)
                &&& b.mode == a.mode
                &&& b.message == a.message
                &&& transferring(
                    b,
                    req,
                    src@,
                    fs_ops::copy_name(dst@, n as nat),
                    pair_views(job.queue@),
                    job.is_move,
                    job.done as nat,
                    text::views(job.errors@),
                    false,
                    job.skip_conflicts,
                )
            },
            _ => ignored(a, b, req),
        },
    }
}

// ── the machine ─────────────────────────────────────────────────────────────

impl App {
    /// The application at start: the left panel shows `left_path` (or `cwd`),
    /// the right panel `right_path` (or the left panel's directory); both are
    /// still to be listed (see `refresh_both`).
    pub fn new(left_path: Option<String>, right_path: Option<String>, cwd: String) -> (app: App)
        ensures
            app.left.cwd@ == (match left_path {
                Some(p) => p@,
                None => cwd@,
            }),
            app.right.cwd@ == (match right_path {
                Some(p) => p@,
                None => app.left.cwd@,
            }),
            app.left.entries@.len() == 0,
            app.right.entries@.len() == 0,
            app.left.cursor is None,
            app.right.cursor is None,
            app.left.selected@ == Set::<usize>::empty(),
            app.right.selected@ == Set::<usize>::empty(),
            app.active == ActivePanel::Left,
            app.message@ == Seq::<char>::empty(),
            app.mode is Normal,
            app.pending is Idle,
            app.wf(),
    {
        let left_dir = match left_path {
            Some(p) => p,
            None => cwd,
        };
        let right_dir = match right_path {
            Some(p) => p,
            None => left_dir.clone(),
        };
        App {
            left: Panel { cwd: left_dir, entries: Vec::new(), cursor: None, selected: HashSet::new() },
            right: Panel { cwd: right_dir, entries: Vec::new(), cursor: None, selected: HashSet::new() },
            active: ActivePanel::Left,
            message: String::new(),
            mode: Mode::Normal,
            pending: Pending::Idle,
        }
    }

    /// Whether the state machine's invariant holds (see `wf`).
    pub fn well_formed(&self) -> (r: bool)
        ensures
            r == self.wf(),
    {
        match &self.pending {
            Pending::Deleting { targets, next, .. } => *next < targets.len(),
            _ => true,
        }
    }

    /// The panel with the focus, to change it.
    pub fn active_panel(&mut self) -> (p: &mut Panel)
        ensures
            *p == old(self).active_spec(),
            final(self).active == old(self).active,
            final(self).mode == old(self).mode,
            final(self).message == old(self).message,
            final(self).pending == old(self).pending,
            final(self).active_spec() == *final(p),
            final(self).other_spec() == old(self).other_spec(),
    {
        match self.active {
            ActivePanel::Left => &mut self.left,
            ActivePanel::Right => &mut self.right,
        }
    }

    fn active_ref(&self) -> (p: &Panel)
        ensures
            *p == self.active_spec(),
    {
        match self.active {
            ActivePanel::Left => &self.left,
            ActivePanel::Right => &self.right,
        }
    }

    fn other_ref(&self) -> (p: &Panel)
        ensures
            *p == self.other_spec(),
    {
        match self.active {
            ActivePanel::Left => &self.right,
            ActivePanel::Right => &self.left,
        }
    }

    fn take_mode(&mut self) -> (m: Mode)
        ensures
            m == old(self).mode,
            final(self).mode is Normal,
            panels_same(*old(self), *final(self)),
            final(self).message == old(self).message,
            final(self).pending == old(self).pending,
    {
        let mut m = Mode::Normal;
        std::mem::swap(&mut m, &mut self.mode);
        m
    }

    fn take_pending(&mut self) -> (w: Pending)
        ensures
            w == old(self).pending,
            final(self).pending is Idle,
            panels_same(*old(self), *final(self)),
            final(self).message == old(self).message,
            final(self).mode == old(self).mode,
    {
        let mut w = Pending::Idle;
        std::mem::swap(&mut w, &mut self.pending);
        w
    }

    /// Asks for both panels to be listed again, the left one first.
    pub fn refresh_both(&mut self) -> (req: Request)
        ensures
            refreshing(*final(self), req),
            panels_same(*old(self), *final(self)),
            final(self).mode == old(self).mode,
            final(self).message == old(self).message,
    {
        self.pending = Pending::Listing { panel: ActivePanel::Left, then_right: true };
        Request::List { panel: ActivePanel::Left, dir: self.left.cwd.clone() }
    }

    fn finish_copy(&mut self, done: usize, errors: Vec<String>) -> (req: Request)
        ensures
            final(self).message@ == finish_message(done as nat, text::views(errors@)),
            refreshing(*final(self), req),
            panels_same(*old(self), *final(self)),
            final(self).mode == old(self).mode,
    {
        let mut m;
        if errors.len() == 0 {
            if done > 0 {
                m = String::from_str("Processed");
            } else {
                m = String::from_str("Nothing to do:");
            }
            m.append(" ");
            text::push_decimal(&mut m, done as u64);
            m.append(" item(s)");
        } else {
            m = String::from_str("Done (");
            text::push_decimal(&mut m, done as u64);
            m.append(" ok) — Errors: ");
            let joined = text::join(&errors, "; ");
            m.append(joined.as_str());
        }
        self.message = m;
        self.refresh_both()
    }

    fn process_queue(&mut self, job: CopyJob) -> (req: Request)
        ensures
            queue_step(
                *final(self),
                req,
                pair_views(job.queue@),
                job.is_move,
                job.done as nat,
                text::views(job.errors@),
                old(self).message@,
                job.skip_conflicts,
            ),
            panels_same(*old(self), *final(self)),
            final(self).mode == old(self).mode,
    {
        let mut job = job;
        if job.queue.len() == 0 {
            return self.finish_copy(job.done, job.errors);
        }
        let ghost q0 = job.queue@;
        let (src, dst) = job.queue.remove(0);
        let path = dst.clone();
        proof {
            assert(pair_views(job.queue@) =~= pair_views(q0).drop_first());
        }
        self.pending = Pending::Checking { job, src, dst };
        Request::Exists { path }
    }

    fn transfer_rest(&mut self, job: CopyJob) -> (req: Request)
        ensures
            all_step(
                *final(self),
                req,
                pair_views(job.queue@),
                job.is_move,
                job.done as nat,
                text::views(job.errors@),
                old(self).message@,
                job.skip_conflicts,
            ),
            panels_same(*old(self), *final(self)),
            final(self).mode == old(self).mode,
    {
        let mut job = job;
        if job.queue.len() == 0 {
            return self.finish_copy(job.done, job.errors);
        }
        let ghost q0 = job.queue@;
        let (src, dst) = job.queue.remove(0);
        proof {
            assert(pair_views(job.queue@) =~= pair_views(q0).drop_first());
        }
        let is_move = job.is_move;
        let s = src.clone();
        self.pending = Pending::Transferring { job, src, all: true };
        Request::Transfer { src: s, dst, is_move }
    }

    fn delete_next(&mut self, targets: Vec<String>, next: usize, errors: Vec<String>) -> (req: Request)
        requires
            next <= targets@.len(),
        ensures
            delete_step(
                *final(self),
                req,
                text::views(targets@),
                next as nat,
                text::views(errors@),
                old(self).message@,
            ),
            panels_same(*old(self), *final(self)),
            final(self).mode == old(self).mode,
            final(self).wf(),
    {
        if next < targets.len() {
            let path = targets[next].clone();
            self.pending = Pending::Deleting { targets, next, errors };
            return Request::Remove { path };
        }
        let mut m;
        if errors.len() == 0 {
            m = String::from_str("Deleted ");
            text::push_decimal(&mut m, targets.len() as u64);
            m.append(" item(s)");
        } else {
            m = String::from_str("Errors: ");
            let joined = text::join(&errors, "; ");
            m.append(joined.as_str());
        }
        self.message = m;
        self.refresh_both()
    }
}

impl App {
    fn prompt_rename(&mut self) -> (req: Request)
        requires
            old(self).pending is Idle,
        ensures
            rename_prompt_step(*old(self), *final(self), req),
    {
        let panel = self.active_ref();
        let (name, src) = match panel.selected_entry() {
            None => {
                return Request::Idle;
            },
            Some(e) => {
                if panel::is_dotdot(e.name.as_str()) {
                    return Request::Idle;
                }
                (e.name.clone(), paths::join_path(panel.cwd.as_str(), e.name.as_str()))
            },
        };
        self.mode = Mode::Input {
            prompt: String::from_str("Rename:"),
            value: name,
            action: InputAction::Rename(src),
        };
        Request::Idle
    }

    fn open_viewer(&mut self) -> (req: Request)
        requires
            old(self).pending is Idle,
        ensures
            viewer_open_step(*old(self), *final(self), req),
    {
        let panel = self.active_ref();
        let path = match panel.selected_entry() {
            None => {
                return Request::Idle;
            },
            Some(e) => {
                if e.is_dir || panel::is_dotdot(e.name.as_str()) {
                    return Request::Idle;
                }
                paths::join_path(panel.cwd.as_str(), e.name.as_str())
            },
        };
        self.pending = Pending::Viewing { path: path.clone() };
        Request::Read { path }
    }

    fn open_editor(&mut self) -> (req: Request)
        requires
            old(self).pending is Idle,
        ensures
            editor_open_step(*old(self), *final(self), req),
    {
        let panel = self.active_ref();
        let path = match panel.selected_entry() {
            None => {
                return Request::Idle;
            },
            Some(e) => {
                if panel::is_dotdot(e.name.as_str()) {
                    return Request::Idle;
                }
                paths::join_path(panel.cwd.as_str(), e.name.as_str())
            },
        };
        self.pending = Pending::Editing;
        Request::Edit { path }
    }

    fn transfer_files(&mut self, is_move: bool) -> (req: Request)
        requires
            old(self).pending is Idle,
        ensures
            transfer_start_step(*old(self), *final(self), req, is_move),
    {
        let targets = self.active_ref().effective_targets();
        if targets.len() == 0 {
            return Request::Idle;
        }
        let dst_dir = self.other_ref();
        let ghost want = queue_for(text::views(targets@), dst_dir.cwd@);
        let mut queue: Vec<(String, String)> = Vec::new();
        let mut i: usize = 0;
        while i < targets.len()
            invariant
                i <= targets@.len(),
                want == queue_for(text::views(targets@), dst_dir.cwd@),
                pair_views(queue@) == want.take(i as int),
            decreases targets@.len() - i,
        {
            let s = targets[i].clone();
            let name = paths::file_name_string(s.as_str());
            let d = paths::join_path(dst_dir.cwd.as_str(), name.as_str());
            let ghost prev = queue@;
            queue.push((s, d));
            proof {
                assert(pair_views(queue@) =~= pair_views(prev).push((targets@[i as int]@, d@)));
                assert(want.take(i + 1) =~= want.take(i as int).push(want[i as int]));
            }
            i = i + 1;
        }
        proof {
            assert(want.take(targets@.len() as int) =~= want);
        }
        let errors: Vec<String> = Vec::new();
        assert(text::views(errors@) =~= Seq::<Seq<char>>::empty());
        self.process_queue(CopyJob { queue, is_move, done: 0, errors, skip_conflicts: false })
    }

    fn prompt_delete(&mut self) -> (req: Request)
        requires
            old(self).pending is Idle,
        ensures
            delete_prompt_step(*old(self), *final(self), req),
    {
        let targets = self.active_ref().effective_targets();
        if targets.len() == 0 {
            return Request::Idle;
        }
        let ghost tv = text::views(targets@);
        let mut names: Vec<String> = Vec::new();
        let mut i: usize = 0;
        while i < targets.len()
            invariant
                i <= targets@.len(),
                tv == text::views(targets@),
                text::views(names@) == tv.take(i as int).map_values(
                    |t: Seq<char>| paths::file_name_or_empty(t),
                ),
            decreases targets@.len() - i,
        {
            let n = paths::file_name_string(targets[i].as_str());
            let ghost prev = names@;
            names.push(n);
            proof {
                assert(text::views(names@) =~= text::views(prev).push(n@));
                assert(tv.take(i + 1) =~= tv.take(i as int).push(tv[i as int]));
            }
            i = i + 1;
        }
        proof {
            assert(tv.take(targets@.len() as int) =~= tv);
        }
        let mut prompt = String::from_str("Delete ");
        let joined = text::join(&names, ", ");
        prompt.append(joined.as_str());
        prompt.append("? [y/N]");
        self.mode = Mode::Confirm { prompt, action: ConfirmAction::Delete(targets) };
        Request::Idle
    }

    fn handle_normal(&mut self, key: Key, ctrl: bool) -> (req: Request)
        requires
            old(self).pending is Idle,
            old(self).mode is Normal,
        ensures
            normal_step(*old(self), key, ctrl, *final(self), req),
    {
        self.message = String::new();
        if key == Key::Char('q') && ctrl {
            return Request::Quit;
        }
        match key {
            Key::Tab => {
                self.active = match self.active {
                    ActivePanel::Left => ActivePanel::Right,
                    ActivePanel::Right => ActivePanel::Left,
                };
                Request::Idle
            },
            Key::Left => {
                self.active = ActivePanel::Left;
                Request::Idle
            },
            Key::Right => {
                self.active = ActivePanel::Right;
                Request::Idle
            },
            Key::Up => {
                self.active_panel().move_cursor(-1);
                Request::Idle
            },
            Key::Down => {
                self.active_panel().move_cursor(1);
                Request::Idle
            },
            Key::PageUp => {
                self.active_panel().page_move(20, false);
                Request::Idle
            },
            Key::PageDown => {
                self.active_panel().page_move(20, true);
                Request::Idle
            },
            Key::Home => {
                let p = self.active_panel();
                p.cursor = Some(0);
                Request::Idle
            },
            Key::End => {
                let p = self.active_panel();
                let len = p.entries.len();
                let last = if len > 0 { len - 1 } else { 0 };
                p.cursor = Some(last);
                Request::Idle
            },
            Key::Char(' ') | Key::Insert => {
                self.active_panel().toggle_select();
                Request::Idle
            },
            Key::Char(c) if ('a' <= c && c <= 'z') || ('A' <= c && c <= 'Z') => {
                self.active_panel().jump_to_char(c);
                Request::Idle
            },
            Key::Enter => {
                let program = match self.active_ref().selected_entry() {
                    Some(e) => if e.is_dir {
                        None
                    } else {
                        Some(paths::join_path(self.active_ref().cwd.as_str(), e.name.as_str()))
                    },
                    None => None,
                };
                let changed = self.active_panel().enter();
                if changed {
                    let side = self.active;
                    let dir = self.active_ref().cwd.clone();
                    match side {
                        ActivePanel::Left => {
                            self.pending = Pending::ChangingDir;
                            Request::ChangeDir { dir }
                        },
                        ActivePanel::Right => {
                            self.pending = Pending::Listing { panel: side, then_right: false };
                            Request::List { panel: side, dir }
                        },
                    }
                } else {
                    match program {
                        Some(path) => {
                            self.pending = Pending::Running;
                            Request::Run { path }
                        },
                        None => Request::Idle,
                    }
                }
            },
            Key::F(1) => {
                self.mode = Mode::About;
                Request::Idle
            },
            Key::F(2) => self.prompt_rename(),
            Key::F(3) => self.open_viewer(),
            Key::F(4) => self.open_editor(),
            Key::F(5) => self.transfer_files(false),
            Key::F(6) => self.transfer_files(true),
            Key::F(7) => {
                self.mode = Mode::Input {
                    prompt: String::from_str("New directory name:"),
                    value: String::new(),
                    action: InputAction::Mkdir,
                };
                Request::Idle
            },
            Key::F(8) => self.prompt_delete(),
            _ => Request::Idle,
        }
    }
}

impl App {
    fn handle_input(&mut self, key: Key) -> (req: Request)
        requires
            old(self).pending is Idle,
            old(self).mode is Input,
        ensures
            input_step(*old(self), key, *final(self), req),
    {
        let mode = self.take_mode();
        match mode {
            Mode::Input { prompt, value, action } => {
                let mut value = value;
                match key {
                    Key::Esc => Request::Idle,
                    Key::Enter => {
                        let val = text::trim(value.as_str());
                        if val.unicode_len() == 0 {
                            return Request::Idle;
                        }
                        match action {
                            InputAction::Mkdir => {
                                let path = paths::join_path(self.active_ref().cwd.as_str(), val.as_str());
                                self.pending = Pending::MakingDir { name: val };
                                Request::MakeDir { path }
                            },
                            InputAction::Rename(src) => {
                                let dir = match paths::parent_path(src.as_str()) {
                                    Some(d) => d,
                                    None => src.clone(),
                                };
                                let dst = paths::join_path(dir.as_str(), val.as_str());
                                self.pending = Pending::Renaming { new_name: val };
                                Request::Rename { src, dst }
                            },
                        }
                    },
                    Key::Backspace => {
                        text::pop_char(&mut value);
                        self.mode = Mode::Input { prompt, value, action };
                        Request::Idle
                    },
                    Key::Char(c) => {
                        text::push_char(&mut value, c);
                        self.mode = Mode::Input { prompt, value, action };
                        Request::Idle
                    },
                    _ => {
                        self.mode = Mode::Input { prompt, value, action };
                        Request::Idle
                    },
                }
            },
            _ => {
                self.mode = mode;
                Request::Idle
            },
        }
    }

    fn handle_viewer(&mut self, key: Key) -> (req: Request)
        requires
            old(self).pending is Idle,
            old(self).mode is Viewer,
        ensures
            viewer_step(*old(self), key, *final(self), req),
    {
        let mode = self.take_mode();
        match mode {
            Mode::Viewer { path, content, scroll, highlighted } => {
                if key == Key::Esc || key == Key::F(3) || key == Key::Char('q') {
                    return Request::Idle;
                }
                let len = content.len();
                let max = if len > 0 { len - 1 } else { 0 };
                let next = match key {
                    Key::Up => if scroll >= 1 { scroll - 1 } else { 0 },
                    Key::Down => if scroll < max { scroll + 1 } else { max },
                    Key::PageUp => if scroll >= 20 { scroll - 20 } else { 0 },
                    Key::PageDown => if scroll < max && 20 <= max - scroll { scroll + 20 } else { max },
                    Key::Home => 0,
                    Key::End => max,
                    _ => scroll,
                };
                self.mode = Mode::Viewer { path, content, scroll: next, highlighted };
                Request::Idle
            },
            _ => {
                self.mode = mode;
                Request::Idle
            },
        }
    }

    fn handle_confirm(&mut self, key: Key) -> (req: Request)
        requires
            old(self).pending is Idle,
            old(self).mode is Confirm,
        ensures
            confirm_step(*old(self), key, *final(self), req),
            final(self).wf(),
    {
        let mode = self.take_mode();
        match mode {
            Mode::Confirm { prompt, action } => {
                if key == Key::Char('y') || key == Key::Char('Y') {
                    match action {
                        ConfirmAction::Delete(targets) => {
                            let errors: Vec<String> = Vec::new();
                            assert(text::views(errors@) =~= Seq::<Seq<char>>::empty());
                            self.delete_next(targets, 0, errors)
                        },
                    }
                } else {
                    Request::Idle
                }
            },
            _ => Request::Idle,
        }
    }

    fn handle_conflict(&mut self, key: Key) -> (req: Request)
        requires
            old(self).pending is Idle,
            old(self).mode matches Mode::Conflict { done, .. } ==> (counts_item(key) ==> done
                < usize::MAX),
            old(self).mode is Conflict,
        ensures
            conflict_step(*old(self), key, *final(self), req),
    {
        let mode = self.take_mode();
        match mode {
            Mode::Conflict { src, dst, queue, is_move, done, errors } => {
                let choice = choice_of(key);
                match choice {
                    ConflictChoice::Overwrite | ConflictChoice::OverwriteAll => {
                        let all = choice == ConflictChoice::OverwriteAll;
                        let job = CopyJob { queue, is_move, done: done + 1, errors, skip_conflicts: false };
                        let s = src.clone();
                        self.pending = Pending::Transferring { job, src, all };
                        Request::Transfer { src: s, dst, is_move }
                    },
                    ConflictChoice::Skip | ConflictChoice::SkipAll => {
                        let skip_conflicts = choice == ConflictChoice::SkipAll;
                        self.process_queue(CopyJob { queue, is_move, done, errors, skip_conflicts })
                    },
                    ConflictChoice::Rename => {
                        let first = fs_ops::copy_candidate(dst.as_str(), 1);
                        let job = CopyJob { queue, is_move, done: done + 1, errors, skip_conflicts: false };
                        self.pending = Pending::Naming { job, src, dst, n: 1 };
                        Request::Exists { path: first }
                    },
                    ConflictChoice::Cancel => self.finish_copy(done, errors),
                }
            },
            _ => Request::Idle,
        }
    }

    /// Takes a key press (`ctrl`: Control and no other modifier is held) and
    /// returns what the caller is to do next. Whatever was still awaited is dropped.
    pub fn handle_key(&mut self, key: Key, ctrl: bool) -> (req: Request)
        requires
            old(self).mode matches Mode::Conflict { done, .. } ==> (counts_item(key) ==> done
                < usize::MAX),
        ensures
            key_step(*old(self), key, ctrl, *final(self), req),
            final(self).wf(),
    {
        self.pending = Pending::Idle;
        let which: u8 = match &self.mode {
            Mode::Normal => 0,
            Mode::About => 1,
            Mode::Input { .. } => 2,
            Mode::Viewer { .. } => 3,
            Mode::Confirm { .. } => 4,
            Mode::Conflict { .. } => 5,
        };
        if which == 0 {
            self.handle_normal(key, ctrl)
        } else if which == 1 {
            self.mode = Mode::Normal;
            Request::Idle
        } else if which == 2 {
            self.handle_input(key)
        } else if which == 3 {
            self.handle_viewer(key)
        } else if which == 4 {
            self.handle_confirm(key)
        } else {
            self.handle_conflict(key)
        }
    }
}

impl App {
    /// Takes the outcome of the last request and returns what the caller is
    /// to do next. An outcome that was not awaited is dropped.
    pub fn resume(&mut self, outcome: Outcome) -> (req: Request)
        requires
            old(self).wf(),
        ensures
            resume_step(*old(self), outcome, *final(self), req),
            final(self).wf(),
    {
        let pending = self.take_pending();
        match pending {
            Pending::Idle => Request::Idle,
            Pending::Listing { panel, then_right } => match outcome {
                Outcome::Listing(entries) => {
                    match panel {
                        ActivePanel::Left => self.left.refresh(entries),
                        ActivePanel::Right => self.right.refresh(entries),
                    }
                    if then_right {
                        self.pending = Pending::Listing { panel: ActivePanel::Right, then_right: false };
                        Request::List { panel: ActivePanel::Right, dir: self.right.cwd.clone() }
                    } else {
                        Request::Idle
                    }
                },
                _ => Request::Idle,
            },
            Pending::Viewing { path } => match outcome {
                Outcome::Text(r) => {
                    let ghost rv = r;
                    let (content, highlighted) = match r {
                        Ok(t) => (text::split_lines(t.as_str()), highlight::highlight(path.as_str(), t.as_str())),
                        Err(e) => {
                            let mut line = String::from_str("Cannot read file: ");
                            line.append(e.as_str());
                            let v = vec![line];
                            assert(text::views(v@) =~= seq![line@]);
                            (v, None)
                        },
                    };
                    assert(text::views(content@) == viewer_lines(rv));
                    self.mode = Mode::Viewer { path, content, scroll: 0, highlighted };
                    Request::Idle
                },
                _ => Request::Idle,
            },
            Pending::Editing => match outcome {
                Outcome::Done => self.refresh_both(),
                _ => Request::Idle,
            },
            Pending::Running => match outcome {
                Outcome::Ran(ran) => if ran {
                    self.refresh_both()
                } else {
                    Request::Idle
                },
                _ => Request::Idle,
            },
            Pending::ChangingDir => match outcome {
                Outcome::Done => {
                    self.pending = Pending::Listing { panel: ActivePanel::Left, then_right: false };
                    Request::List { panel: ActivePanel::Left, dir: self.left.cwd.clone() }
                },
                _ => Request::Idle,
            },
            Pending::MakingDir { name } => match outcome {
                Outcome::Result(r) => {
                    let mut m;
                    match r {
                        None => {
                            m = String::from_str("Created ");
                            m.append(name.as_str());
                        },
                        Some(e) => {
                            m = String::from_str("mkdir error: ");
                            m.append(e.as_str());
                        },
                    }
                    self.message = m;
                    self.refresh_both()
                },
                _ => Request::Idle,
            },
            Pending::Renaming { new_name } => match outcome {
                Outcome::Result(r) => {
                    let mut m;
                    match r {
                        None => {
                            m = String::from_str("Renamed to ");
                            m.append(new_name.as_str());
                        },
                        Some(e) => {
                            m = String::from_str("Rename error: ");
                            m.append(e.as_str());
                        },
                    }
                    self.message = m;
                    self.refresh_both()
                },
                _ => Request::Idle,
            },
            Pending::Deleting { targets, next, errors } => match outcome {
                Outcome::Result(r) => {
                    let count = targets.len();
                    assert(next < count);
                    let mut errors = errors;
                    let ghost e0 = errors@;
                    match r {
                        Some(e) => {
                            errors.push(e);
                            assert(text::views(errors@) =~= text::views(e0).push(e@));
                        },
                        None => {},
                    }
                    self.delete_next(targets, next + 1, errors)
                },
                _ => Request::Idle,
            },
            Pending::Checking { job, src, dst } => match outcome {
                Outcome::Exists(true) => {
                    if job.skip_conflicts {
                        return self.process_queue(job);
                    }
                    self.mode = Mode::Conflict {
                        src,
                        dst,
                        queue: job.queue,
                        is_move: job.is_move,
                        done: job.done,
                        errors: job.errors,
                    };
                    Request::Idle
                },
                Outcome::Exists(false) => {
                    let is_move = job.is_move;
                    let s = src.clone();
                    self.pending = Pending::Transferring { job, src, all: false };
                    Request::Transfer { src: s, dst, is_move }
                },
                _ => Request::Idle,
            },
            Pending::Transferring { job, src, all } => match outcome {
                Outcome::Result(r) => {
                    let mut job = job;
                    let ghost e0 = job.errors@;
                    match r {
                        Some(e) => {
                            let mut m = paths::file_name_string(src.as_str());
                            m.append(": ");
                            m.append(e.as_str());
                            job.errors.push(m);
                            assert(text::views(job.errors@) =~= text::views(e0).push(
                                transfer_error(src@, e@),
                            ));
                        },
                        None => {},
                    }
                    if all {
                        self.transfer_rest(job)
                    } else {
                        self.process_queue(job)
                    }
                },
                _ => Request::Idle,
            },
            Pending::Naming { job, src, dst, n } => match outcome {
                Outcome::Exists(true) => {
                    if n == u32::MAX {
                        self.process_queue(job)
                    } else {
                        let path = fs_ops::copy_candidate(dst.as_str(), n + 1);
                        self.pending = Pending::Naming { job, src, dst, n: n + 1 };
                        Request::Exists { path }
                    }
                },
                Outcome::Exists(false) => {
                    let target = fs_ops::copy_candidate(dst.as_str(), n);
                    let is_move = job.is_move;
                    let s = src.clone();
                    self.pending = Pending::Transferring { job, src, all: false };
                    Request::Transfer { src: s, dst: target, is_move }
                },
                _ => Request::Idle,
            },
        }
    }
}

} // verus!
