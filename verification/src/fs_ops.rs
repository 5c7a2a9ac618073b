//! Naming of copies that would otherwise overwrite an existing file.
use vstd::prelude::*;
use crate::panel;
use crate::paths;
use crate::text;

verus! {

/// The parts of a path that its copies are named after: the directory
/// (`.` where the path has no parent), the file stem, and the extension with
/// its leading dot (empty where the path has none).
pub open spec fn copy_dir(path: Seq<char>) -> Seq<char> {
    match paths::path_parent(path) {
        Some(d) => d,
        None => seq!['.'],
    }
}

pub open spec fn copy_stem(path: Seq<char>) -> Seq<char> {
    match paths::path_file_stem(path) {
        Some(s) => s,
        None => Seq::empty(),
    }
}

pub open spec fn copy_ext(path: Seq<char>) -> Seq<char> {
    match paths::path_extension(path) {
        Some(e) => seq!['.'] + e,
        None => Seq::empty(),
    }
}

/// The suffix of the `n`-th copy name: `_copy` for the first, `_copyN` for the N-th after it.
pub open spec fn copy_suffix(n: nat) -> Seq<char> {
    if n <= 1 {
        seq!['_', 'c', 'o', 'p', 'y']
    } else {
        seq!['_', 'c', 'o', 'p', 'y'] + text::decimal(n)
    }
}

/// The `n`-th name tried for a copy of `path`: `dir/stem_copy.ext`, then
/// `dir/stem_copy2.ext`, `dir/stem_copy3.ext`, ...
pub open spec fn copy_name(path: Seq<char>, n: nat) -> Seq<char> {
    paths::path_join(copy_dir(path), copy_stem(path) + copy_suffix(n) + copy_ext(path))
}

/// The `n`-th name tried for a copy of `path` (`n` counts from 1; 0 gives the first name too).
pub fn copy_candidate(path: &str, n: u32) -> (res: String)
    ensures
        res@ == copy_name(path@, n as nat),
{
    let dir = match paths::parent_path(path) {
        Some(d) => d,
        None => text::string_from_chars(&['.']),
    };
    let mut name = match paths::file_stem(path) {
        Some(s) => s,
        None => String::new(),
    };
    text::push_char(&mut name, '_');
    text::push_char(&mut name, 'c');
    text::push_char(&mut name, 'o');
    text::push_char(&mut name, 'p');
    text::push_char(&mut name, 'y');
    if n > 1 {
        text::push_decimal(&mut name, n as u64);
    }
    match paths::extension(path) {
        Some(e) => {
            text::push_char(&mut name, '.');
            name.append(e.as_str());
        },
        None => {},
    }
    proof {
        assert(dir@ =~= copy_dir(path@));
        assert(name@ =~= copy_stem(path@) + copy_suffix(n as nat) + copy_ext(path@));
    }
    paths::join_path(dir.as_str(), name.as_str())
}

/// `res` is what the search for a copy name of `path` gives when the answers
/// to "does the `k`-th copy name exist?" were `taken[k - 1]`: the first name
/// reported free, or nothing where every answer was "exists".
pub open spec fn first_free_answer(path: Seq<char>, taken: Seq<bool>, res: Option<Seq<char>>) -> bool {
    match res {
        None => forall|i: int| 0 <= i < taken.len() ==> #[trigger] taken[i],
        Some(s) => exists|k: int|
            0 <= k < taken.len() && !#[trigger] taken[k] && (forall|i: int| 0 <= i < k ==> taken[i])
                && s == copy_name(path, (k + 1) as nat),
    }
}

/// The answers a search for a copy name can have got: "exists" for every name
/// asked about but the last, which was reported free, or the last of all
/// `u32::MAX` names.
pub open spec fn probe_record(taken: Seq<bool>) -> bool {
    &&& 1 <= taken.len() <= u32::MAX
    &&& forall|i: int| 0 <= i < taken.len() - 1 ==> #[trigger] taken[i]
    &&& !taken.last() || taken.len() == u32::MAX
}

/// The view of an optional string.
pub open spec fn opt_view(o: Option<String>) -> Option<Seq<char>> {
    match o {
        Some(s) => Some(s@),
        None => None,
    }
}

/// The first free copy name of `path`, given whether each copy name exists
/// (`taken[k]` for the `k + 1`-th): `copy_name(path, k + 1)` for the least `k`
/// with `!taken[k]`, or `None` where every answer is "exists".
pub fn first_free_copy(path: &str, taken: &Vec<bool>) -> (res: Option<String>)
    requires
        taken@.len() <= u32::MAX,
    ensures
        first_free_answer(path@, taken@, opt_view(res)),
{
    let mut k: usize = 0;
    while k < taken.len()
        invariant
            k <= taken@.len() <= u32::MAX,
            forall|i: int| 0 <= i < k ==> taken@[i],
        decreases taken@.len() - k,
    {
        if !taken[k] {
            let name = copy_candidate(path, (k + 1) as u32);
            assert(!taken@[k as int]);
            return Some(name);
        }
        k = k + 1;
    }
    None
}

/// A name for a copy of `path` that nothing on disk holds yet: `path_exists`
/// is asked about `copy_name(path, 1)`, `copy_name(path, 2)`, ... in turn, and
/// the first name reported free is the result (see `first_free_copy`); `None`
/// where all `u32::MAX` names were reported to exist. The answers depend on
/// the disk, so which name comes back is stated only through them.
pub fn auto_rename(path: &str) -> (res: Option<String>)
    ensures
        exists|taken: Seq<bool>|
            #[trigger] probe_record(taken) && first_free_answer(path@, taken, opt_view(res)),
{
    let mut taken: Vec<bool> = Vec::new();
    let mut n: u32 = 1;
    loop
        invariant_except_break
            1 <= n,
            taken@.len() == n - 1,
            forall|i: int| 0 <= i < taken@.len() ==> #[trigger] taken@[i],
        ensures
            probe_record(taken@),
        decreases u32::MAX - n,
    {
        let c = copy_candidate(path, n);
        let t = paths::path_exists(c.as_str());
        taken.push(t);
        if !t || n == u32::MAX {
            break;
        }
        n = n + 1;
    }
    first_free_copy(path, &taken)
}

/// Whether a Unix file mode lets someone run the file: any of its three
/// execute bits is set.
pub fn runnable_mode(mode: u32) -> (r: bool)
    ensures
        r == (mode & 0o111 != 0),
{
    mode & 0o111 != 0
}

/// Whether three characters spell `word`, ignoring ASCII case.
pub open spec fn spells(e: Seq<char>, word: Seq<char>) -> bool {
    e.len() == word.len() && forall|i: int|
        0 <= i < e.len() ==> panel::ascii_lower_code(#[trigger] e[i]) == (word[i] as u32)
}

/// Whether an extension marks a Windows program: `exe`, `bat`, `cmd` or `com`,
/// in any ASCII case.
pub open spec fn program_extension(e: Seq<char>) -> bool {
    spells(e, seq!['e', 'x', 'e']) || spells(e, seq!['b', 'a', 't']) || spells(e, seq!['c', 'm', 'd'])
        || spells(e, seq!['c', 'o', 'm'])
}

fn spells_exec(e: &Vec<char>, w0: char, w1: char, w2: char) -> (r: bool)
    ensures
        r == spells(e@, seq![w0, w1, w2]),
{
    if e.len() != 3 {
        return false;
    }
    let r = panel::lower_code(e[0]) == w0 as u32 && panel::lower_code(e[1]) == w1 as u32
        && panel::lower_code(e[2]) == w2 as u32;
    proof {
        let w = seq![w0, w1, w2];
        if r {
            assert forall|i: int| 0 <= i < e@.len() implies panel::ascii_lower_code(#[trigger] e@[i])
                == (w[i] as u32) by {
                if i == 0 {
                } else if i == 1 {
                } else {
                }
            }
        } else {
            if spells(e@, w) {
                assert(panel::ascii_lower_code(e@[0]) == (w[0] as u32));
                assert(panel::ascii_lower_code(e@[1]) == (w[1] as u32));
                assert(panel::ascii_lower_code(e@[2]) == (w[2] as u32));
            }
        }
    }
    r
}

/// Whether a path names a Windows program by its extension.
pub fn runnable_name(path: &str) -> (r: bool)
    ensures
        r == match paths::path_extension(path@) {
            Some(e) => program_extension(e),
            None => false,
        },
{
    match paths::extension(path) {
        None => false,
        Some(e) => {
            let cs = text::chars_of(e.as_str());
            spells_exec(&cs, 'e', 'x', 'e') || spells_exec(&cs, 'b', 'a', 't') || spells_exec(
                &cs,
                'c',
                'm',
                'd',
            ) || spells_exec(&cs, 'c', 'o', 'm')
        },
    }
}

} // verus!
