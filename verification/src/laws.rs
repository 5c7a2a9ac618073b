//! Properties of the file manager that span several steps or hold of every step.
use vstd::prelude::*;
use crate::app::{App, ConflictChoice, ConfirmAction, InputAction, Key, Mode, Request, Outcome, Pending, ActivePanel};
use crate::app;
use crate::fs_ops;
use crate::listing;
use crate::listing::Entry;
use crate::panel::Panel;
use crate::panel;
use crate::paths;
use crate::text;
use crate::ui;

verus! {

/// Pressing Tab twice in the normal mode gives the focus back to the panel
/// that had it, and leaves both panels as they were.
pub proof fn law_tab_twice(a: App, b: App, c: App, r1: Request, r2: Request)
    requires
        a.mode is Normal,
        app::key_step(a, Key::Tab, false, b, r1),
        app::key_step(b, Key::Tab, false, c, r2),
    ensures
        c.active == a.active,
        c.left == a.left,
        c.right == a.right,
        c.mode is Normal,
        r1 is Idle && r2 is Idle,
{
}

/// After a cursor move in a non-empty panel the cursor is on a row.
pub proof fn law_move_stays_in_range(p: Panel, q: Panel, delta: i64)
    requires
        panel::moved(p, q, delta),
        p.entries@.len() > 0,
    ensures
        q.cursor matches Some(c) && c < q.entries@.len(),
{
}

/// After a page move in a non-empty panel the cursor is on a row.
pub proof fn law_page_stays_in_range(p: Panel, q: Panel, page: usize, down: bool)
    requires
        panel::paged_panel(p, q, page, down),
        p.entries@.len() > 0,
        p.cursor matches Some(c) ==> c < p.entries@.len(),
    ensures
        q.cursor matches Some(c) && c < q.entries@.len(),
{
}

proof fn lemma_wrap_back(c: usize, delta: i64, len: nat)
    requires
        c < len,
        len <= i64::MAX,
        len <= usize::MAX,
        delta > i64::MIN,
    ensures
        panel::wrapped(panel::wrapped(c, delta, len), (-delta) as i64, len) == c,
{
    let l = len as int;
    let x = c as int + delta as int;
    assert((c as i64) as int == c as int);
    let q0 = x / l;
    let m = x % l;
    vstd::arithmetic::div_mod::lemma_fundamental_div_mod(x, l);
    assert(0 <= m < l);
    assert(panel::wrapped(c, delta, len) == m as usize);
    assert(m <= i64::MAX);
    let w = m as usize;
    assert(w as int == m);
    assert((w as i64) as int == m);
    assert(((-delta) as i64) as int == -(delta as int));
    assert(m - delta as int == l * (-q0) + c as int) by (nonlinear_arith)
        requires x == l * q0 + m, x == c as int + delta as int;
    vstd::arithmetic::div_mod::lemma_mod_multiples_vanish(-q0, c as int, l);
    vstd::arithmetic::div_mod::lemma_small_mod(c as nat, len);
}

/// Moving the cursor by `delta` and then by `-delta` brings it back to the row
/// it was on.
pub proof fn law_move_back(p: Panel, q: Panel, r: Panel, delta: i64)
    requires
        panel::moved(p, q, delta),
        panel::moved(q, r, (-delta) as i64),
        delta > i64::MIN,
        p.cursor matches Some(c) && c < p.entries@.len(),
        p.entries@.len() <= i64::MAX,
        p.entries@.len() <= usize::MAX,
    ensures
        r.cursor == p.cursor,
        r.entries == p.entries,
        r.selected == p.selected,
        r.cwd == p.cwd,
{
    lemma_wrap_back(panel::cursor_pos(p.cursor), delta, p.entries@.len());
}

/// Tagging a row, going back to it, and tagging it again leaves the tags as
/// they were.
pub proof fn law_toggle_twice(p: Panel, q: Panel, r: Panel, s: Panel)
    requires
        panel::toggle_result(p, q),
        panel::moved(q, r, -1i64),
        panel::toggle_result(r, s),
        p.cursor matches Some(c) && c < p.entries@.len() && p.entries@[c as int].name@
            != panel::dotdot(),
        p.entries@.len() <= i64::MAX,
        p.entries@.len() <= usize::MAX,
    ensures
        s.selected@ == p.selected@,
        s.entries == p.entries,
{
    let c = panel::cursor_pos(p.cursor);
    lemma_wrap_back(c, 1, p.entries@.len());
    assert(r.cursor == Some(c));
    let t = panel::toggled(p.selected@, c);
    assert(panel::toggled(t, c) =~= p.selected@);
}

/// Tagging the row under the cursor flips whether that row is tagged, leaves
/// the other tags, and steps the cursor to the next row, from the last back to
/// the first. (The cursor is read as an `i64`, so a panel has at most
/// `i64::MAX` rows here.)
pub proof fn law_toggle_flips_and_steps(p: Panel, q: Panel, i: usize)
    requires
        panel::toggle_result(p, q),
        p.cursor == Some(i),
        i < p.entries@.len() <= i64::MAX,
        p.entries@[i as int].name@ != panel::dotdot(),
    ensures
        q.selected@.contains(i) == !p.selected@.contains(i),
        forall|j: usize| j != i ==> q.selected@.contains(j) == p.selected@.contains(j),
        q.cursor == Some(((i + 1) % (p.entries@.len() as int)) as usize),
        q.entries == p.entries,
        q.cwd == p.cwd,
{
    assert((i as i64) as int == i as int);
}

/// After a refresh the first row leads to the parent directory exactly where
/// the directory has a parent, given contents without a `..` entry (a
/// directory read never yields one); the tags are cleared and the directory kept.
pub proof fn law_refresh_parent_row(p: Panel, q: Panel, listing: Seq<Entry>)
    requires
        panel::refresh_result(p, q, listing),
        forall|i: int| 0 <= i < listing.len() ==> (#[trigger] listing[i]).name@ != panel::dotdot(),
    ensures
        (q.entries@.len() > 0 && panel::is_parent_row(q.entries@[0])) <==> paths::path_parent(
            p.cwd@,
        ) is Some,
        q.selected@ == Set::<usize>::empty(),
        q.cwd == p.cwd,
{
    if paths::path_parent(p.cwd@) is None && q.entries@.len() > 0 {
        let out = q.entries@;
        let e = out[0];
        let kc = listing::key_class(e);
        assert(kc(out[0]));
        out.lemma_filter_contains(kc, 0);
        assert(out.filter(kc) == listing.filter(kc));
        listing.lemma_filter_contains_rev(kc, e);
        let i = choose|i: int| 0 <= i < listing.len() && listing[i] == e;
        assert(listing[i].name@ != panel::dotdot());
    }
}

/// A jump to a letter that some row starts with lands on such a row.
pub proof fn law_jump_lands_on_match(p: Panel, q: Panel, c: char)
    requires
        panel::jump_result(p, q, c),
        p.entries@.len() > 0,
        p.entries@.len() <= usize::MAX,
        panel::has_match(p, c),
    ensures
        q.cursor matches Some(i) && i < q.entries@.len() && panel::starts_with_letter(
            q.entries@[i as int],
            c,
        ),
{
    let len = p.entries@.len() as int;
    let cur = panel::cursor_pos(p.cursor);
    let k = choose|k: int|
        #[trigger] panel::first_match_at(p, c, k) && q.cursor == Some(
            panel::after(cur, k, len) as usize,
        );
    assert(panel::first_match_at(p, c, k));
    let i = panel::after(cur, k, len);
    assert(0 <= i < len);
    assert((i as usize) as int == i);
    assert(q.entries == p.entries);
}

/// In a listed panel no directory comes after a file (the `..` row aside).
pub proof fn law_directories_first(entries: Seq<Entry>, cwd: Seq<char>, listing: Seq<Entry>, i: int, j: int)
    requires
        panel::lists(entries, cwd, listing),
        0 <= i < j < entries.len(),
        !entries[i].is_dir,
    ensures
        !entries[j].is_dir,
{
    if crate::paths::path_parent(cwd) is Some {
        let rest = entries.skip(1);
        assert(i >= 1);
        assert(rest[i - 1] == entries[i]);
        assert(rest[j - 1] == entries[j]);
        assert(listing::listed_before(rest[i - 1], rest[j - 1]));
    } else {
        assert(listing::listed_before(entries[i], entries[j]));
    }
}

/// The viewer never scrolls past its last line.
pub proof fn law_scroll_bounded(scroll: usize, len: nat, key: Key)
    requires
        scroll as int <= (if len > 0 { len - 1 } else { 0 }),
    ensures
        app::scrolled(scroll, len, key) as int <= (if len > 0 { len - 1 } else { 0 }),
{
}

/// Only Control+Q, in the normal mode, quits.
pub proof fn law_only_ctrl_q_quits(a: App, key: Key, ctrl: bool, b: App, req: Request)
    requires
        app::key_step(a, key, ctrl, b, req),
        req is Quit,
    ensures
        a.mode is Normal,
        key == Key::Char('q'),
        ctrl,
{
}

/// Escape closes every dialog and the viewer.
pub proof fn law_escape_closes(a: App, b: App, req: Request)
    requires
        !(a.mode is Normal),
        app::key_step(a, Key::Esc, false, b, req),
    ensures
        b.mode is Normal,
{
}

/// Escape in the conflict dialog cancels the rest of the copy or move:
/// nothing more is transferred, the panels are listed again.
pub proof fn law_escape_cancels_copy(a: App, b: App, req: Request)
    requires
        a.mode is Conflict,
        app::key_step(a, Key::Esc, false, b, req),
    ensures
        b.mode is Normal,
        req is List,
        b.pending is Listing,
{
}

/// "None" in the conflict dialog skips the conflicting file and goes on with
/// the queue: the next destination is checked, with every later conflict to
/// be skipped without a question; with nothing left the copy ends.
pub proof fn law_none_goes_on(a: App, key: Key, b: App, req: Request)
    requires
        a.mode is Conflict,
        key == Key::Char('n') || key == Key::Char('N'),
        app::key_step(a, key, false, b, req),
    ensures
        b.mode is Normal,
        match a.mode {
            Mode::Conflict { queue, .. } => if queue@.len() > 0 {
                &&& req matches Request::Exists { path } && path@ == queue@[0].1@
                &&& b.pending matches Pending::Checking { job, .. } && job.skip_conflicts
            } else {
                req is List
            },
            _ => false,
        },
{
}

/// Once "none" was chosen, a destination reported to exist is skipped: no
/// dialog opens, nothing goes onto it, and the skip stays in force for the rest.
pub proof fn law_skip_all_never_asks(a: App, b: App, req: Request)
    requires
        a.pending matches Pending::Checking { job, .. } && job.skip_conflicts,
        app::resume_step(a, Outcome::Exists(true), b, req),
    ensures
        b.mode == a.mode,
        !(req is Transfer),
        b.pending matches Pending::Checking { job, .. } ==> job.skip_conflicts,
{
}

/// Once "none" was chosen, a destination reported free is moved or copied to,
/// and the skip stays in force for the rest.
pub proof fn law_skip_all_copies_free(a: App, b: App, req: Request)
    requires
        a.pending matches Pending::Checking { job, .. } && job.skip_conflicts,
        app::resume_step(a, Outcome::Exists(false), b, req),
    ensures
        a.pending matches Pending::Checking { dst, .. } && req matches Request::Transfer { dst: d, .. }
            && d@ == dst@,
        b.pending matches Pending::Transferring { job, all, .. } && job.skip_conflicts && !all,
{
}

/// Every choice of the conflict dialog has a hint, and the dialog makes, for
/// the key of each hint, the choice that the hint labels (see `ui::conflict_hints`).
pub proof fn law_conflict_hints_cover_choices(c: ConflictChoice)
    ensures
        exists|i: int|
            0 <= i < ui::conflict_hint_keys().len() && app::conflict_choice(
                #[trigger] ui::conflict_hint_keys()[i],
            ) == c,
{
    let keys = ui::conflict_hint_keys();
    match c {
        ConflictChoice::Overwrite => assert(app::conflict_choice(keys[0]) == c),
        ConflictChoice::OverwriteAll => assert(app::conflict_choice(keys[1]) == c),
        ConflictChoice::Skip => assert(app::conflict_choice(keys[2]) == c),
        ConflictChoice::SkipAll => assert(app::conflict_choice(keys[3]) == c),
        ConflictChoice::Rename => assert(app::conflict_choice(keys[4]) == c),
        ConflictChoice::Cancel => assert(app::conflict_choice(keys[5]) == c),
    }
}

/// The hinted keys of the conflict dialog make pairwise different choices, so
/// no hint stands for a key that the dialog treats as another's.
pub proof fn law_conflict_hints_distinct(i: int, j: int)
    requires
        0 <= i < j < ui::conflict_hint_keys().len(),
    ensures
        app::conflict_choice(ui::conflict_hint_keys()[i]) != app::conflict_choice(
            ui::conflict_hint_keys()[j],
        ),
{
}

/// A key asks for a deletion only when it answers the delete question with yes.
pub proof fn law_delete_needs_yes(a: App, key: Key, ctrl: bool, b: App, req: Request)
    requires
        app::key_step(a, key, ctrl, b, req),
        req is Remove,
    ensures
        a.mode is Confirm,
        key == Key::Char('y') || key == Key::Char('Y'),
{
}

/// A key asks to move or copy a file only in the conflict dialog, when the
/// user chose to overwrite it.
pub proof fn law_key_transfer_needs_overwrite(a: App, key: Key, ctrl: bool, b: App, req: Request)
    requires
        app::key_step(a, key, ctrl, b, req),
        req is Transfer,
    ensures
        a.mode is Conflict,
        key == Key::Char('o') || key == Key::Char('O') || key == Key::Char('a') || key == Key::Char(
            'A',
        ),
        a.mode matches Mode::Conflict { dst, .. } && req->Transfer_dst@ == dst@,
{
    match a.mode {
        Mode::Conflict { dst, .. } => {
            if key == Key::Char('o') || key == Key::Char('O') || key == Key::Char('a') || key
                == Key::Char('A') {
                assert(req->Transfer_dst@ == dst@);
            }
        },
        _ => {},
    }
}

/// Nothing is overwritten unasked: an outcome leads to a transfer onto `dst`
/// only when `dst` was just reported not to exist, or the user chose to
/// overwrite all remaining files.
pub proof fn law_resume_transfer_checked(a: App, outcome: Outcome, b: App, req: Request)
    requires
        app::resume_step(a, outcome, b, req),
        req is Transfer,
    ensures
        (a.pending matches Pending::Checking { dst, .. } && outcome == Outcome::Exists(false)
            && req->Transfer_dst@ == dst@) || (a.pending matches Pending::Naming { dst, n, .. }
            && outcome == Outcome::Exists(false) && req->Transfer_dst@ == fs_ops::copy_name(dst@, n as nat))
            || (a.pending matches Pending::Transferring { all, .. } && all),
{
}

proof fn lemma_decimal_len(n: nat)
    ensures
        text::decimal(n).len() >= 1,
        n >= 10 ==> text::decimal(n).len() >= 2,
    decreases n,
{
    if n >= 10 {
        lemma_decimal_len(n / 10);
    }
}

proof fn lemma_decimal_injective(a: nat, b: nat)
    requires
        text::decimal(a) == text::decimal(b),
    ensures
        a == b,
    decreases a,
{
    lemma_decimal_len(a);
    lemma_decimal_len(b);
    let da = text::decimal(a);
    if a < 10 && b < 10 {
        assert(da[0] == text::digit_char(a));
        assert(text::decimal(b)[0] == text::digit_char(b));
    } else if a >= 10 && b >= 10 {
        assert(da.last() == text::digit_char(a % 10));
        assert(text::decimal(b).last() == text::digit_char(b % 10));
        assert(da.drop_last() =~= text::decimal(a / 10));
        assert(text::decimal(b).drop_last() =~= text::decimal(b / 10));
        lemma_decimal_injective(a / 10, b / 10);
    } else {
        if a < 10 {
            lemma_decimal_len(b / 10);
            assert(text::decimal(b).len() >= 2);
        } else {
            lemma_decimal_len(a / 10);
            assert(da.len() >= 2);
        }
    }
}

/// The file name tried for the `n`-th copy of `path`, before it is joined to the directory.
pub open spec fn copy_file_name(path: Seq<char>, n: nat) -> Seq<char> {
    fs_ops::copy_stem(path) + fs_ops::copy_suffix(n) + fs_ops::copy_ext(path)
}

/// Renaming on a conflict never tries the same file name twice.
pub proof fn law_copy_names_distinct(path: Seq<char>, i: nat, j: nat)
    requires
        1 <= i,
        1 <= j,
        i != j,
    ensures
        copy_file_name(path, i) != copy_file_name(path, j),
{
    let stem = fs_ops::copy_stem(path);
    let ext = fs_ops::copy_ext(path);
    let base = seq!['_', 'c', 'o', 'p', 'y'];
    if copy_file_name(path, i) == copy_file_name(path, j) {
        let si = fs_ops::copy_suffix(i);
        let sj = fs_ops::copy_suffix(j);
        let wi = stem + si + ext;
        let wj = stem + sj + ext;
        assert(wi == copy_file_name(path, i));
        assert(wj == copy_file_name(path, j));
        assert(wi.len() == stem.len() + si.len() + ext.len());
        assert(wj.len() == stem.len() + sj.len() + ext.len());
        assert(si.len() == sj.len());
        assert(si =~= wi.subrange(stem.len() as int, (stem.len() + si.len()) as int));
        assert(sj =~= wj.subrange(stem.len() as int, (stem.len() + sj.len()) as int));
        lemma_decimal_len(i);
        lemma_decimal_len(j);
        if i > 1 && j > 1 {
            assert(text::decimal(i) =~= si.skip(5));
            assert(text::decimal(j) =~= sj.skip(5));
            lemma_decimal_injective(i, j);
        }
    }
}

proof fn lemma_count_in_class(s: Seq<Entry>, x: Entry)
    ensures
        s.to_multiset().count(x) == s.filter(listing::key_class(x)).to_multiset().count(x),
    decreases s.len(),
{
    broadcast use vstd::seq_lib::group_to_multiset_ensures;

    let f = listing::key_class(x);
    if s.len() == 0 {
        reveal(Seq::filter);
        assert(s.filter(f) =~= s);
    } else {
        let init = s.drop_last();
        lemma_count_in_class(init, x);
        assert(s =~= init.push(s.last()));
        init.lemma_filter_push(s.last(), f);
        if f(s.last()) {
            assert(init.filter(f).push(s.last()).to_multiset() =~= init.filter(f).to_multiset().insert(
                s.last(),
            ));
        }
    }
}

/// A panel lists every entry of its directory exactly once: the listing is a
/// rearrangement of what the directory gave.
pub proof fn law_listing_keeps_entries(entries: Seq<Entry>, cwd: Seq<char>, listing: Seq<Entry>)
    requires
        panel::lists(entries, cwd, listing),
    ensures
        (if crate::paths::path_parent(cwd) is Some { entries.skip(1) } else { entries }).to_multiset()
            == listing.to_multiset(),
{
    let out = if crate::paths::path_parent(cwd) is Some { entries.skip(1) } else { entries };
    assert(listing::stable_sort_of(out, listing));
    assert forall|x: Entry| out.to_multiset().count(x) == listing.to_multiset().count(x) by {
        lemma_count_in_class(out, x);
        lemma_count_in_class(listing, x);
        assert(out.filter(listing::key_class(x)) == listing.filter(listing::key_class(x)));
    }
    assert(out.to_multiset() =~= listing.to_multiset());
}

/// Whether the copy or move that the application waits on moves its files:
/// `None` where it waits on no copy or move.
pub open spec fn awaited_move(p: Pending) -> Option<bool> {
    match p {
        Pending::Checking { job, .. } => Some(job.is_move),
        Pending::Transferring { job, .. } => Some(job.is_move),
        Pending::Naming { job, .. } => Some(job.is_move),
        _ => None,
    }
}

/// The directory of the panel on side `side` of `a`.
pub open spec fn dir_of(a: App, side: ActivePanel) -> Seq<char> {
    match side {
        ActivePanel::Left => a.left.cwd@,
        ActivePanel::Right => a.right.cwd@,
    }
}

/// F5 starts a copy and F6 a move: the job they start copies, or moves, and
/// no file is transferred before its destination has been checked.
pub proof fn law_copy_or_move_start(a: App, key: Key, ctrl: bool, b: App, req: Request)
    requires
        a.mode is Normal,
        key == Key::F(5) || key == Key::F(6),
        app::key_step(a, key, ctrl, b, req),
        !(ctrl && key == Key::Char('q')),
    ensures
        !(req is Transfer),
        awaited_move(b.pending) matches Some(m) ==> m == (key == Key::F(6)),
{
}

/// Whatever the user answers in the conflict dialog, a file is moved exactly
/// when the dialog belongs to a move: every transfer asked for, and every job
/// left waiting, keeps the dialog's kind.
pub proof fn law_conflict_keeps_move(a: App, key: Key, ctrl: bool, b: App, req: Request)
    requires
        a.mode is Conflict,
        app::key_step(a, key, ctrl, b, req),
    ensures
        match a.mode {
            Mode::Conflict { is_move, .. } => {
                &&& req matches Request::Transfer { is_move: m, .. } ==> m == is_move
                &&& awaited_move(b.pending) matches Some(m) ==> m == is_move
            },
            _ => true,
        },
{
}

/// Every outcome of a copy or move keeps its kind: a transfer it leads to, the
/// job left waiting, and a conflict dialog it opens all move exactly when the
/// awaited job moves. (While a job is awaited no dialog is open.)
pub proof fn law_outcome_keeps_move(a: App, outcome: Outcome, b: App, req: Request, m: bool)
    requires
        awaited_move(a.pending) == Some(m),
        !(a.mode is Conflict),
        app::resume_step(a, outcome, b, req),
    ensures
        req matches Request::Transfer { is_move, .. } ==> is_move == m,
        awaited_move(b.pending) matches Some(n) ==> n == m,
        b.mode matches Mode::Conflict { is_move, .. } ==> is_move == m,
{
}

/// The directory that F7 makes lies in the directory of the panel with the
/// focus, named by the typed text without surrounding white space; with only
/// white space typed nothing is made.
pub proof fn law_mkdir_in_focused_panel(a: App, ctrl: bool, b: App, req: Request)
    requires
        a.mode matches Mode::Input { action: InputAction::Mkdir, .. },
        app::key_step(a, Key::Enter, ctrl, b, req),
    ensures
        match a.mode {
            Mode::Input { value, .. } => if text::trimmed(value@).len() > 0 {
                req matches Request::MakeDir { path } && path@ == paths::path_join(
                    dir_of(a, a.active),
                    text::trimmed(value@),
                )
            } else {
                req is Idle
            },
            _ => true,
        },
        b.left == a.left && b.right == a.right && b.active == a.active,
{
}

/// F8 asks about deleting exactly the targets of the panel with the focus (its
/// tagged rows, or else the row under the cursor), and asks nothing where that
/// panel has none; the other panel's files are never among them.
pub proof fn law_delete_asks_for_focused_targets(a: App, ctrl: bool, b: App, req: Request)
    requires
        a.mode is Normal,
        app::key_step(a, Key::F(8), ctrl, b, req),
    ensures
        req is Idle,
        b.left == a.left && b.right == a.right && b.active == a.active,
        ({
            let targets = match a.active {
                ActivePanel::Left => a.left.target_paths(),
                ActivePanel::Right => a.right.target_paths(),
            };
            &&& (b.mode is Confirm <==> targets.len() > 0)
            &&& b.mode matches Mode::Confirm { action: ConfirmAction::Delete(ts), .. } ==> text::views(
                ts@,
            ) == targets
        }),
{
}

} // verus!
