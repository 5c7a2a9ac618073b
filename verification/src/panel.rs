//! One panel of the file manager: its directory, its listing, the cursor and
//! the set of tagged rows.
use std::collections::HashSet;
use vstd::prelude::*;
use crate::listing::{Entry, sort_listing};
use crate::listing;
use crate::paths;
use crate::text;

verus! {

broadcast use vstd::std_specs::hash::group_hash_axioms;

/// The name of the row that leads to the parent directory.
pub open spec fn dotdot() -> Seq<char> {
    seq!['.', '.']
}

/// Whether an entry is the row that leads to the parent directory.
pub open spec fn is_parent_row(e: Entry) -> bool {
    e.name@ == dotdot() && e.is_dir && e.size == 0
}

/// Whether `entries` is what a panel in `cwd` lists for the directory
/// contents `listing`: a leading `..` row where `cwd` has a parent, then the
/// contents sorted stably (directories first, then by case-folded name).
pub open spec fn lists(entries: Seq<Entry>, cwd: Seq<char>, listing: Seq<Entry>) -> bool {
    if paths::path_parent(cwd) is Some {
        &&& entries.len() >= 1
        &&& is_parent_row(entries[0])
        &&& listing::stable_sort_of(entries.skip(1), listing)
    } else {
        listing::stable_sort_of(entries, listing)
    }
}

/// Where a list of `len` rows keeps a selection when drawn: none when empty,
/// the last row for one past the end.
pub open spec fn shown_cursor(cursor: Option<usize>, len: nat) -> Option<usize> {
    if len == 0 {
        None
    } else {
        match cursor {
            Some(c) => if c >= len { Some((len - 1) as usize) } else { Some(c) },
            None => None,
        }
    }
}

/// The cursor position of an optional cursor (`unwrap_or(0)`).
pub open spec fn cursor_pos(cursor: Option<usize>) -> usize {
    match cursor {
        Some(c) => c,
        None => 0,
    }
}

/// Where the cursor lands when moved by `delta` rows in a list of `len` rows,
/// wrapping around at both ends (`rem_euclid`); the cursor position is read
/// as an `i64`, as the move does.
pub open spec fn wrapped(cur: usize, delta: i64, len: nat) -> usize {
    (((cur as i64) as int + delta as int) % (len as int)) as usize
}

/// The cursor after a move by `delta` in a list of `len` rows (no move in an empty list).
pub open spec fn moved_cursor(cursor: Option<usize>, delta: i64, len: nat) -> Option<usize> {
    if len == 0 {
        cursor
    } else {
        Some(wrapped(cursor_pos(cursor), delta, len))
    }
}

/// The cursor after a page move of `page` rows, stopping at the first and last rows.
pub open spec fn paged(cur: usize, page: usize, down: bool, len: nat) -> usize {
    if down {
        if cur + page <= len - 1 { (cur + page) as usize } else { (len - 1) as usize }
    } else {
        if cur >= page { (cur - page) as usize } else { 0 }
    }
}

/// A set with `i` added, or removed where it was present.
pub open spec fn toggled(s: Set<usize>, i: usize) -> Set<usize> {
    if s.contains(i) { s.remove(i) } else { s.insert(i) }
}

/// The code point of `char::to_ascii_lowercase` of a character.
pub open spec fn ascii_lower_code(c: char) -> u32 {
    if 65 <= (c as u32) <= 90 { ((c as u32) + 32) as u32 } else { c as u32 }
}

/// The first character of a name, or `'\0'` for an empty name.
pub open spec fn first_char_of(s: Seq<char>) -> char {
    if s.len() > 0 { s[0] } else { '\0' }
}

/// Whether an entry's name starts with `c`, ignoring ASCII case.
pub open spec fn starts_with_letter(e: Entry, c: char) -> bool {
    ascii_lower_code(first_char_of(e.name@)) == ascii_lower_code(c)
}

/// The row `k` rows after `cur`, wrapping around.
pub open spec fn after(cur: usize, k: int, len: int) -> int {
    (cur + k) % len
}

/// The indices below `n` that `sel` holds, in increasing order.
pub open spec fn tagged_below(sel: Set<usize>, n: nat) -> Seq<usize>
    decreases n,
{
    if n == 0 {
        Seq::empty()
    } else if sel.contains((n - 1) as usize) {
        tagged_below(sel, (n - 1) as nat).push((n - 1) as usize)
    } else {
        tagged_below(sel, (n - 1) as nat)
    }
}

/// `q` is `p` after its rows were replaced by the directory contents `listing`.
pub open spec fn refresh_result(p: Panel, q: Panel, listing: Seq<Entry>) -> bool {
    &&& q.cwd == p.cwd
    &&& lists(q.entries@, p.cwd@, listing)
    &&& q.selected@ == Set::<usize>::empty()
    &&& q.cursor == (if p.cursor is None && q.entries@.len() > 0 { Some(0usize) } else { p.cursor })
}

/// `q` is `p` with its cursor set to `c`.
pub open spec fn cursor_set(p: Panel, q: Panel, c: Option<usize>) -> bool {
    &&& q.cursor == c
    &&& q.entries == p.entries
    &&& q.cwd == p.cwd
    &&& q.selected == p.selected
}

/// `q` is `p` after its cursor moved `delta` rows, wrapping around.
pub open spec fn moved(p: Panel, q: Panel, delta: i64) -> bool {
    cursor_set(p, q, moved_cursor(p.cursor, delta, p.entries@.len()))
}

/// `q` is `p` after a page move of `page` rows.
pub open spec fn paged_panel(p: Panel, q: Panel, page: usize, down: bool) -> bool {
    cursor_set(
        p,
        q,
        if p.entries@.len() == 0 {
            p.cursor
        } else {
            Some(paged(cursor_pos(p.cursor), page, down, p.entries@.len()))
        },
    )
}

/// `q` is `p` after the row under the cursor was tagged or untagged.
pub open spec fn toggle_result(p: Panel, q: Panel) -> bool {
    match p.cursor {
        None => q == p,
        Some(i) => if i < p.entries@.len() && p.entries@[i as int].name@ == dotdot() {
            q == p
        } else {
            &&& q.selected@ == toggled(p.selected@, i)
            &&& q.cursor == moved_cursor(p.cursor, 1, p.entries@.len())
            &&& q.entries == p.entries
            &&& q.cwd == p.cwd
        },
    }
}

/// `q` is `p` after opening the row under the cursor; `changed` tells
/// whether it changed directory.
pub open spec fn enter_result(p: Panel, q: Panel, changed: bool) -> bool {
    match p.selected_entry_spec() {
        Some(e) => if !e.is_dir {
            !changed && q == p
        } else if e.name@ == dotdot() {
            match paths::path_parent(p.cwd@) {
                Some(d) => {
                    &&& changed
                    &&& q.cwd@ == d
                    &&& q.cursor == Some(0usize)
                    &&& q.entries == p.entries
                    &&& q.selected == p.selected
                },
                None => !changed && q == p,
            }
        } else {
            &&& changed
            &&& q.cwd@ == paths::path_join(p.cwd@, e.name@)
            &&& q.cursor == Some(0usize)
            &&& q.entries == p.entries
            &&& q.selected == p.selected
        },
        None => !changed && q == p,
    }
}

/// Whether some row within one wrap after `cur` starts with `c`.
pub open spec fn has_match(p: Panel, c: char) -> bool {
    let len = p.entries@.len() as int;
    let cur = cursor_pos(p.cursor);
    exists|k: int| 1 <= k <= len && #[trigger] starts_with_letter(p.entries@[after(cur, k, len)], c)
}

/// Row `k` rows after the cursor is the first one, within one wrap, that starts with `c`.
pub open spec fn first_match_at(p: Panel, c: char, k: int) -> bool {
    let len = p.entries@.len() as int;
    let cur = cursor_pos(p.cursor);
    &&& 1 <= k <= len
    &&& starts_with_letter(p.entries@[after(cur, k, len)], c)
    &&& forall|j: int| 1 <= j < k ==> !#[trigger] starts_with_letter(p.entries@[after(cur, j, len)], c)
}

/// `q` is `p` after jumping to the next row that starts with `c`.
pub open spec fn jump_result(p: Panel, q: Panel, c: char) -> bool {
    let len = p.entries@.len() as int;
    let cur = cursor_pos(p.cursor);
    &&& q.entries == p.entries
    &&& q.cwd == p.cwd
    &&& q.selected == p.selected
    &&& if len > 0 && has_match(p, c) {
        exists|k: int| #[trigger] first_match_at(p, c, k) && q.cursor == Some(after(cur, k, len) as usize)
    } else {
        q.cursor == p.cursor
    }
}

/// A dual-panel file manager's panel.
pub struct Panel {
    /// The directory shown.
    pub cwd: String,
    /// Its rows.
    pub entries: Vec<Entry>,
    /// The row under the cursor; `None` before the panel first held rows.
    pub cursor: Option<usize>,
    /// The tagged rows, by index.
    pub selected: HashSet<usize>,
}

/// Whether a string is `..`.
pub fn is_dotdot(s: &str) -> (r: bool)
    ensures
        r == (s@ == dotdot()),
{
    let n = s.unicode_len();
    if n != 2 {
        return false;
    }
    let a = s.get_char(0);
    let b = s.get_char(1);
    proof {
        if a == '.' && b == '.' {
            assert(s@ =~= dotdot());
        }
    }
    a == '.' && b == '.'
}

/// The code point of a character's ASCII lowercase.
pub(crate) fn lower_code(c: char) -> (r: u32)
    ensures
        r == ascii_lower_code(c),
{
    let v = c as u32;
    if 65 <= v && v <= 90 { v + 32 } else { v }
}

impl Panel {
    /// What the panel's paths are joined from: the rows tagged, in order of
    /// their index, or else the row under the cursor unless it is `..`.
    pub open spec fn target_paths(self) -> Seq<Seq<char>> {
        if self.selected@.is_empty() {
            match self.cursor {
                Some(i) => if i < self.entries@.len() && self.entries@[i as int].name@ != dotdot() {
                    seq![paths::path_join(self.cwd@, self.entries@[i as int].name@)]
                } else {
                    Seq::empty()
                },
                None => Seq::empty(),
            }
        } else {
            tagged_below(self.selected@, self.entries@.len()).map_values(
                |i: usize| paths::path_join(self.cwd@, self.entries@[i as int].name@),
            )
        }
    }

    /// A panel showing `path`, whose contents are `listing`, with the cursor
    /// on the first row.
    pub fn new(path: String, listing: Vec<Entry>) -> (p: Panel)
        ensures
            p.cwd@ == path@,
            lists(p.entries@, path@, listing@),
            p.selected@ == Set::<usize>::empty(),
            p.cursor == (if p.entries@.len() > 0 { Some(0usize) } else { None }),
    {
        let mut p = Panel { cwd: path, entries: Vec::new(), cursor: None, selected: HashSet::new() };
        p.refresh(listing);
        p
    }

    /// Replaces the rows by the directory contents `listing`, sorted, behind a
    /// `..` row where the directory has a parent; clears the tags, and puts the
    /// cursor on the first row if it had none.
    pub fn refresh(&mut self, listing: Vec<Entry>)
        ensures
            refresh_result(*old(self), *final(self), listing@),
    {
        let sorted = sort_listing(listing);
        let mut entries = sorted;
        let has_parent = paths::parent_path(self.cwd.as_str()).is_some();
        if has_parent {
            let up = Entry { name: text::string_from_chars(&['.', '.']), is_dir: true, size: 0 };
            proof {
                assert(up.name@ =~= dotdot());
            }
            entries.insert(0, up);
            assert(entries@.skip(1) =~= sorted@);
        }
        self.entries = entries;
        self.selected.clear();
        if self.cursor.is_none() && self.entries.len() > 0 {
            self.cursor = Some(0);
        }
    }

    /// Keeps the cursor on a row, as the list on screen keeps its selection
    /// when drawn: none in an empty panel, the last row where it is past the end.
    pub fn clamp_cursor(&mut self)
        ensures
            final(self).cursor == shown_cursor(old(self).cursor, old(self).entries@.len()),
            final(self).entries == old(self).entries,
            final(self).cwd == old(self).cwd,
            final(self).selected == old(self).selected,
    {
        let len = self.entries.len();
        if len == 0 {
            self.cursor = None;
        } else {
            match self.cursor {
                Some(c) => if c >= len {
                    self.cursor = Some(len - 1);
                },
                None => {},
            }
        }
    }

    /// The row under the cursor, if the cursor is on a row.
    pub fn selected_entry(&self) -> (res: Option<&Entry>)
        ensures
            res == (match self.cursor {
                Some(i) => if i < self.entries@.len() { Some(&self.entries@[i as int]) } else { None },
                None => None,
            }),
    {
        match self.cursor {
            Some(i) => if i < self.entries.len() { Some(&self.entries[i]) } else { None },
            None => None,
        }
    }

    /// Moves the cursor by `delta` rows, wrapping around at both ends; nothing
    /// moves in an empty panel.
    pub fn move_cursor(&mut self, delta: i64)
        ensures
            moved(*old(self), *final(self), delta),
    {
        let len = self.entries.len();
        if len == 0 {
            return;
        }
        let cur: i64 = match self.cursor {
            Some(c) => c as i64,
            None => 0,
        };
        let x: i128 = cur as i128 + delta as i128;
        let l: i128 = len as i128;
        let r: i128 = if x >= 0 {
            x % l
        } else {
            let m: i128 = (-x) % l;
            if m == 0 { 0 } else { l - m }
        };
        proof {
            let xi = x as int;
            let li = l as int;
            if xi < 0 {
                let m = (-xi) % li;
                let q = (-xi) / li;
                assert(-xi == li * q + m) by (nonlinear_arith)
                    requires li > 0, m == (-xi) % li, q == (-xi) / li;
                assert(0 <= m < li);
                if m == 0 {
                    assert(xi == li * (-q)) by (nonlinear_arith)
                        requires -xi == li * q + m, m == 0;
                    vstd::arithmetic::div_mod::lemma_mod_multiples_basic(-q, li);
                    assert(xi % li == 0) by (nonlinear_arith)
                        requires xi == li * (-q), (-q * li) % li == 0;
                } else {
                    assert(xi == li * (-q - 1) + (li - m)) by (nonlinear_arith)
                        requires -xi == li * q + m;
                    vstd::arithmetic::div_mod::lemma_fundamental_div_mod_converse(
                        xi,
                        li,
                        -q - 1,
                        li - m,
                    );
                }
            }
            assert(r as int == xi % li);
        }
        self.cursor = Some(r as usize);
    }

    /// Moves the cursor `page_size` rows down (or up), stopping at the last
    /// (or first) row; nothing moves in an empty panel.
    pub fn page_move(&mut self, page_size: usize, down: bool)
        ensures
            paged_panel(*old(self), *final(self), page_size, down),
    {
        let len = self.entries.len();
        if len == 0 {
            return;
        }
        let cur = match self.cursor {
            Some(c) => c,
            None => 0,
        };
        let next = if down {
            if cur < len - 1 && page_size <= len - 1 - cur {
                cur + page_size
            } else {
                len - 1
            }
        } else {
            if cur >= page_size { cur - page_size } else { 0 }
        };
        self.cursor = Some(next);
    }

    /// Tags the row under the cursor, or untags it if tagged, and moves the
    /// cursor down one row (wrapping). The `..` row cannot be tagged; nothing
    /// happens when it is under the cursor or there is no cursor.
    pub fn toggle_select(&mut self)
        ensures
            toggle_result(*old(self), *final(self)),
    {
        match self.cursor {
            None => {},
            Some(i) => {
                if i < self.entries.len() && is_dotdot(self.entries[i].name.as_str()) {
                    return;
                }
                if self.selected.contains(&i) {
                    self.selected.remove(&i);
                } else {
                    self.selected.insert(i);
                }
                self.move_cursor(1);
            },
        }
    }

    /// Opens the directory under the cursor: `..` leads to the parent, any
    /// other directory row into that directory, and the cursor goes to the
    /// first row. Returns whether the panel changed directory (its rows are
    /// then stale until the next `refresh`). Files, and `..` in a directory
    /// without a parent, leave the panel as it is.
    pub fn enter(&mut self) -> (changed: bool)
        ensures
            enter_result(*old(self), *final(self), changed),
    {
        let next = match self.selected_entry() {
            None => None,
            Some(entry) => {
                if !entry.is_dir {
                    None
                } else if is_dotdot(entry.name.as_str()) {
                    paths::parent_path(self.cwd.as_str())
                } else {
                    Some(paths::join_path(self.cwd.as_str(), entry.name.as_str()))
                }
            },
        };
        match next {
            Some(dir) => {
                self.cwd = dir;
                self.cursor = Some(0);
                true
            },
            None => false,
        }
    }

    /// The row under the cursor, in specifications.
    pub open spec fn selected_entry_spec(self) -> Option<Entry> {
        match self.cursor {
            Some(i) => if i < self.entries@.len() { Some(self.entries@[i as int]) } else { None },
            None => None,
        }
    }

    /// Moves the cursor to the next row, after the cursor and wrapping around,
    /// whose name starts with `c` (ignoring ASCII case); repeated presses cycle
    /// through the matching rows. Nothing moves where no row matches.
    pub fn jump_to_char(&mut self, c: char)
        ensures
            jump_result(*old(self), *final(self), c),
    {
        let target = lower_code(c);
        let len = self.entries.len();
        if len == 0 {
            return;
        }
        let current = match self.cursor {
            Some(x) => x,
            None => 0,
        };
        let base = current % len;
        let ghost lenv = len as int;
        let mut offset: usize = 1;
        loop
            invariant
                1 <= offset <= len,
                len == self.entries@.len(),
                base == current % len,
                current == cursor_pos(self.cursor),
                target == ascii_lower_code(c),
                *self == *old(self),
                lenv == len as int,
                forall|j: int|
                    1 <= j < offset ==> !#[trigger] starts_with_letter(
                        self.entries@[after(current, j, lenv)],
                        c,
                    ),
            decreases len - offset,
        {
            let i = if offset < len - base { base + offset } else { offset - (len - base) };
            proof {
                assert(i as int == after(current, offset as int, lenv)) by (nonlinear_arith)
                    requires
                        base == current % len,
                        len > 0,
                        1 <= offset <= len,
                        i == (if offset < len - base { base + offset } else { offset - (len - base) }),
                        lenv == len as int,
                {
                    vstd::arithmetic::div_mod::lemma_add_mod_noop(current as int, offset as int, lenv);
                    vstd::arithmetic::div_mod::lemma_small_mod(i as nat, len as nat);
                }
            }
            let first = text::first_char(self.entries[i].name.as_str());
            if lower_code(first) == target {
                proof {
                    assert(starts_with_letter(self.entries@[after(current, offset as int, lenv)], c));
                    assert(first_match_at(*old(self), c, offset as int));
                }
                self.cursor = Some(i);
                return;
            }
            if offset == len {
                return;
            }
            offset = offset + 1;
        }
    }

    /// The paths that file operations act on: those of the tagged rows, in
    /// row order, or else that of the row under the cursor unless it is `..`.
    pub fn effective_targets(&self) -> (res: Vec<String>)
        ensures
            text::views(res@) == self.target_paths(),
    {
        let mut res: Vec<String> = Vec::new();
        if self.selected.is_empty() {
            match self.selected_entry() {
                Some(e) => {
                    if !is_dotdot(e.name.as_str()) {
                        res.push(paths::join_path(self.cwd.as_str(), e.name.as_str()));
                    }
                },
                None => {},
            }
            assert(text::views(res@) =~= self.target_paths());
            return res;
        }
        let mut i: usize = 0;
        while i < self.entries.len()
            invariant
                i <= self.entries@.len(),
                !self.selected@.is_empty(),
                text::views(res@) == tagged_below(self.selected@, i as nat).map_values(
                    |k: usize| paths::path_join(self.cwd@, self.entries@[k as int].name@),
                ),
            decreases self.entries@.len() - i,
        {
            let ghost f = |k: usize| paths::path_join(self.cwd@, self.entries@[k as int].name@);
            let ghost prev = res@;
            if self.selected.contains(&i) {
                res.push(paths::join_path(self.cwd.as_str(), self.entries[i].name.as_str()));
                proof {
                    assert(tagged_below(self.selected@, (i + 1) as nat) == tagged_below(
                        self.selected@,
                        i as nat,
                    ).push(i));
                    assert(text::views(res@) =~= text::views(prev).push(f(i)));
                    assert(tagged_below(self.selected@, (i + 1) as nat).map_values(f)
                        =~= tagged_below(self.selected@, i as nat).map_values(f).push(f(i)));
                }
            } else {
                assert(tagged_below(self.selected@, (i + 1) as nat) == tagged_below(
                    self.selected@,
                    i as nat,
                ));
            }
            i = i + 1;
        }
        res
    }
}

} // verus!
