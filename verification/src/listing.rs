//! Directory entries and the order in which a panel lists them: directories
//! first, then by case-folded name, entries with equal keys keeping the order
//! in which the directory was read.
use std::collections::VecDeque;
use vstd::prelude::*;
use crate::paths;
use crate::text;

verus! {

/// One row of a panel: a file or directory name, whether it is a directory,
/// and its size in bytes (0 for directories).
#[derive(Clone)]
pub struct Entry {
    pub name: String,
    pub is_dir: bool,
    pub size: u64,
}

impl Entry {
    /// The entry for the file at `path`, given what its metadata says: whether
    /// it is a directory and its length. `None` where the path has no file name.
    pub fn from_path(path: &str, is_dir: bool, len: u64) -> (res: Option<Entry>)
        ensures
            match paths::path_file_name(path@) {
                None => res is None,
                Some(n) => res matches Some(e) && e.name@ == n && e.is_dir == is_dir
                    && e.size == (if is_dir { 0 } else { len }),
            },
    {
        match paths::file_name(path) {
            None => None,
            Some(name) => Some(Entry { name, is_dir, size: if is_dir { 0 } else { len } }),
        }
    }
}

/// Lexicographic order on character sequences (that of `str`'s `Ord`, since
/// UTF-8 keeps the order of code points).
pub open spec fn chars_le(a: Seq<char>, b: Seq<char>) -> bool
    decreases a.len(),
{
    if a.len() == 0 {
        true
    } else if b.len() == 0 {
        false
    } else if a[0] != b[0] {
        a[0] < b[0]
    } else {
        chars_le(a.drop_first(), b.drop_first())
    }
}

/// The case-folded name an entry is ordered by.
pub open spec fn name_key(e: Entry) -> Seq<char> {
    text::lowercase(e.name@)
}

/// Whether `a` may stand before `b` in a listing.
pub open spec fn listed_before(a: Entry, b: Entry) -> bool {
    (a.is_dir && !b.is_dir) || (a.is_dir == b.is_dir && chars_le(name_key(a), name_key(b)))
}

/// Whether two entries have the same sort key.
pub open spec fn same_key(a: Entry, b: Entry) -> bool {
    a.is_dir == b.is_dir && name_key(a) == name_key(b)
}

/// Whether `a` must stand before `b`.
pub open spec fn strictly_before(a: Entry, b: Entry) -> bool {
    listed_before(a, b) && !same_key(a, b)
}

/// The entries that share `e`'s sort key.
pub open spec fn key_class(e: Entry) -> spec_fn(Entry) -> bool {
    |x: Entry| same_key(x, e)
}

/// Whether a listing is in order.
pub open spec fn sorted_listing(s: Seq<Entry>) -> bool {
    forall|i: int, j: int| 0 <= i < j < s.len() ==> listed_before(#[trigger] s[i], #[trigger] s[j])
}

/// `out` is `inp` sorted stably: in order, and for every sort key the entries
/// with that key appear in `out` in the same order as in `inp`.
pub open spec fn stable_sort_of(out: Seq<Entry>, inp: Seq<Entry>) -> bool {
    &&& out.len() == inp.len()
    &&& sorted_listing(out)
    &&& forall|e: Entry| #[trigger] out.filter(key_class(e)) == inp.filter(key_class(e))
}

proof fn lemma_chars_le_refl(a: Seq<char>)
    ensures
        chars_le(a, a),
    decreases a.len(),
{
    if a.len() > 0 {
        lemma_chars_le_refl(a.drop_first());
    }
}

proof fn lemma_chars_le_total(a: Seq<char>, b: Seq<char>)
    ensures
        chars_le(a, b) || chars_le(b, a),
    decreases a.len(),
{
    if a.len() > 0 && b.len() > 0 && a[0] == b[0] {
        lemma_chars_le_total(a.drop_first(), b.drop_first());
    }
}

proof fn lemma_chars_le_antisym(a: Seq<char>, b: Seq<char>)
    requires
        chars_le(a, b),
        chars_le(b, a),
    ensures
        a == b,
    decreases a.len(),
{
    if a.len() > 0 && b.len() > 0 {
        lemma_chars_le_antisym(a.drop_first(), b.drop_first());
        assert(a =~= seq![a[0]] + a.drop_first());
        assert(b =~= seq![b[0]] + b.drop_first());
    }
}

proof fn lemma_chars_le_trans(a: Seq<char>, b: Seq<char>, c: Seq<char>)
    requires
        chars_le(a, b),
        chars_le(b, c),
    ensures
        chars_le(a, c),
    decreases a.len(),
{
    if a.len() > 0 && b.len() > 0 && c.len() > 0 {
        if a[0] == b[0] && b[0] == c[0] {
            lemma_chars_le_trans(a.drop_first(), b.drop_first(), c.drop_first());
        }
    }
}

/// `listed_before` is a total preorder whose ties are exactly the equal keys.
proof fn lemma_listed_before_facts(a: Entry, b: Entry, c: Entry)
    ensures
        listed_before(a, a),
        listed_before(a, b) || listed_before(b, a),
        listed_before(a, b) && listed_before(b, a) ==> same_key(a, b),
        same_key(a, b) ==> listed_before(a, b),
        listed_before(a, b) && listed_before(b, c) ==> listed_before(a, c),
{
    lemma_chars_le_refl(name_key(a));
    lemma_chars_le_total(name_key(a), name_key(b));
    if chars_le(name_key(a), name_key(b)) && chars_le(name_key(b), name_key(a)) {
        lemma_chars_le_antisym(name_key(a), name_key(b));
    }
    if chars_le(name_key(a), name_key(b)) && chars_le(name_key(b), name_key(c)) {
        lemma_chars_le_trans(name_key(a), name_key(b), name_key(c));
    }
}

proof fn lemma_chars_le_skip(a: Seq<char>, b: Seq<char>, i: int)
    requires
        0 <= i <= a.len(),
        i <= b.len(),
        a.subrange(0, i) == b.subrange(0, i),
    ensures
        chars_le(a, b) == chars_le(a.skip(i), b.skip(i)),
    decreases i,
{
    if i > 0 {
        assert(a[0] == a.subrange(0, i)[0]);
        assert(b[0] == b.subrange(0, i)[0]);
        assert(a.drop_first().subrange(0, i - 1) =~= a.subrange(0, i).drop_first());
        assert(b.drop_first().subrange(0, i - 1) =~= b.subrange(0, i).drop_first());
        lemma_chars_le_skip(a.drop_first(), b.drop_first(), i - 1);
        assert(a.drop_first().skip(i - 1) =~= a.skip(i));
        assert(b.drop_first().skip(i - 1) =~= b.skip(i));
    } else {
        assert(a.skip(0) =~= a);
        assert(b.skip(0) =~= b);
    }
}

/// Whether `a` comes strictly before `b` in lexicographic order.
pub fn chars_less(a: &Vec<char>, b: &Vec<char>) -> (r: bool)
    ensures
        r == (chars_le(a@, b@) && a@ != b@),
{
    let mut i: usize = 0;
    while i < a.len() && i < b.len()
        invariant
            i <= a.len(),
            i <= b.len(),
            a@.subrange(0, i as int) == b@.subrange(0, i as int),
        decreases a.len() - i,
    {
        if a[i] != b[i] {
            proof {
                lemma_chars_le_skip(a@, b@, i as int);
                assert(a@.skip(i as int)[0] == a@[i as int]);
                assert(b@.skip(i as int)[0] == b@[i as int]);
            }
            return a[i] < b[i];
        }
        assert(a@.subrange(0, i + 1) =~= a@.subrange(0, i as int).push(a@[i as int]));
        assert(b@.subrange(0, i + 1) =~= b@.subrange(0, i as int).push(b@[i as int]));
        i = i + 1;
    }
    proof {
        lemma_chars_le_skip(a@, b@, i as int);
        if a.len() == i && b.len() == i {
            assert(a@ =~= a@.subrange(0, i as int));
            assert(b@ =~= b@.subrange(0, i as int));
        }
        if a.len() == i && b.len() > i {
            assert(a@ != b@);
        }
    }
    a.len() < b.len()
}

proof fn lemma_filter_no_match(s: Seq<Entry>, f: spec_fn(Entry) -> bool)
    requires
        forall|i: int| 0 <= i < s.len() ==> !f(#[trigger] s[i]),
    ensures
        s.filter(f) == Seq::<Entry>::empty(),
    decreases s.len(),
{
    reveal(Seq::filter);
    if s.len() > 0 {
        lemma_filter_no_match(s.drop_last(), f);
    }
}

proof fn lemma_same_key_class(x: Entry, y: Entry, e: Entry)
    ensures
        key_class(e)(x) && key_class(e)(y) ==> same_key(x, y),
{
}

/// Whether `a` (a directory flag and case-folded name) must stand before `b`.
fn key_strictly_before(a_dir: bool, a_key: &Vec<char>, b_dir: bool, b_key: &Vec<char>) -> (r: bool)
    ensures
        r == ((a_dir && !b_dir) || (a_dir == b_dir && chars_le(a_key@, b_key@) && a_key@ != b_key@)),
{
    if a_dir != b_dir {
        a_dir
    } else {
        chars_less(a_key, b_key)
    }
}

/// Whether entry `a` must stand before entry `b`.
fn entry_strictly_before(a: &Entry, b: &Entry) -> (r: bool)
    ensures
        r == strictly_before(*a, *b),
{
    let ka = text::lowercase_chars(a.name.as_str());
    let kb = text::lowercase_chars(b.name.as_str());
    key_strictly_before(a.is_dir, &ka, b.is_dir, &kb)
}

/// The merge of two listings: the first entries of both compared, the one of
/// `b` taken only when it must stand before the one of `a`.
pub open spec fn merged(a: Seq<Entry>, b: Seq<Entry>) -> Seq<Entry>
    decreases a.len() + b.len(),
{
    if a.len() == 0 {
        b
    } else if b.len() == 0 {
        a
    } else if strictly_before(b[0], a[0]) {
        seq![b[0]] + merged(a, b.drop_first())
    } else {
        seq![a[0]] + merged(a.drop_first(), b)
    }
}

/// Whether `x` may stand before every entry of `s`.
pub open spec fn before_all(x: Entry, s: Seq<Entry>) -> bool {
    forall|q: int| 0 <= q < s.len() ==> listed_before(x, #[trigger] s[q])
}

proof fn lemma_sorted_tail(s: Seq<Entry>)
    requires
        sorted_listing(s),
        s.len() > 0,
    ensures
        sorted_listing(s.drop_first()),
        before_all(s[0], s.drop_first()),
        before_all(s[0], s),
{
    assert forall|q: int| 0 <= q < s.len() implies listed_before(s[0], #[trigger] s[q]) by {
        if q == 0 {
            lemma_listed_before_facts(s[0], s[0], s[0]);
        }
    }
    assert forall|q: int| 0 <= q < s.drop_first().len() implies listed_before(
        s[0],
        #[trigger] s.drop_first()[q],
    ) by {
        assert(s.drop_first()[q] == s[q + 1]);
    }
    assert forall|i: int, j: int| 0 <= i < j < s.drop_first().len() implies listed_before(
        #[trigger] s.drop_first()[i],
        #[trigger] s.drop_first()[j],
    ) by {
        assert(s.drop_first()[i] == s[i + 1]);
        assert(s.drop_first()[j] == s[j + 1]);
    }
}

proof fn lemma_before_all_trans(x: Entry, y: Entry, s: Seq<Entry>)
    requires
        listed_before(x, y),
        before_all(y, s),
    ensures
        before_all(x, s),
{
    assert forall|q: int| 0 <= q < s.len() implies listed_before(x, #[trigger] s[q]) by {
        lemma_listed_before_facts(x, y, s[q]);
    }
}

proof fn lemma_merged_lower(a: Seq<Entry>, b: Seq<Entry>, x: Entry)
    requires
        before_all(x, a),
        before_all(x, b),
    ensures
        before_all(x, merged(a, b)),
        merged(a, b).len() == a.len() + b.len(),
    decreases a.len() + b.len(),
{
    if a.len() > 0 && b.len() > 0 {
        if strictly_before(b[0], a[0]) {
            assert forall|q: int| 0 <= q < b.drop_first().len() implies listed_before(
                x,
                #[trigger] b.drop_first()[q],
            ) by {
                assert(b.drop_first()[q] == b[q + 1]);
            }
            lemma_merged_lower(a, b.drop_first(), x);
            let m = merged(a, b);
            assert forall|q: int| 0 <= q < m.len() implies listed_before(x, #[trigger] m[q]) by {
                if q > 0 {
                    assert(m[q] == merged(a, b.drop_first())[q - 1]);
                }
            }
        } else {
            assert forall|q: int| 0 <= q < a.drop_first().len() implies listed_before(
                x,
                #[trigger] a.drop_first()[q],
            ) by {
                assert(a.drop_first()[q] == a[q + 1]);
            }
            lemma_merged_lower(a.drop_first(), b, x);
            let m = merged(a, b);
            assert forall|q: int| 0 <= q < m.len() implies listed_before(x, #[trigger] m[q]) by {
                if q > 0 {
                    assert(m[q] == merged(a.drop_first(), b)[q - 1]);
                }
            }
        }
    }
}

proof fn lemma_cons_sorted(x: Entry, s: Seq<Entry>)
    requires
        sorted_listing(s),
        before_all(x, s),
    ensures
        sorted_listing(seq![x] + s),
{
    let t = seq![x] + s;
    assert forall|i: int, j: int| 0 <= i < j < t.len() implies listed_before(
        #[trigger] t[i],
        #[trigger] t[j],
    ) by {
        assert(t[j] == s[j - 1]);
        if i > 0 {
            assert(t[i] == s[i - 1]);
        }
    }
}

proof fn lemma_merged_sorted(a: Seq<Entry>, b: Seq<Entry>)
    requires
        sorted_listing(a),
        sorted_listing(b),
    ensures
        sorted_listing(merged(a, b)),
        merged(a, b).len() == a.len() + b.len(),
    decreases a.len() + b.len(),
{
    if a.len() > 0 && b.len() > 0 {
        lemma_sorted_tail(a);
        lemma_sorted_tail(b);
        if strictly_before(b[0], a[0]) {
            lemma_merged_sorted(a, b.drop_first());
            lemma_before_all_trans(b[0], a[0], a);
            lemma_merged_lower(a, b.drop_first(), b[0]);
            lemma_cons_sorted(b[0], merged(a, b.drop_first()));
        } else {
            lemma_merged_sorted(a.drop_first(), b);
            lemma_listed_before_facts(b[0], a[0], a[0]);
            lemma_listed_before_facts(a[0], b[0], a[0]);
            lemma_before_all_trans(a[0], b[0], b);
            lemma_merged_lower(a.drop_first(), b, a[0]);
            lemma_cons_sorted(a[0], merged(a.drop_first(), b));
        }
    }
}

proof fn lemma_filter_cons(x: Entry, s: Seq<Entry>, f: spec_fn(Entry) -> bool)
    ensures
        (seq![x] + s).filter(f) == (if f(x) { seq![x] + s.filter(f) } else { s.filter(f) }),
{
    Seq::filter_distributes_over_add(seq![x], s, f);
    reveal(Seq::filter);
    assert(seq![x].drop_last() =~= Seq::<Entry>::empty());
    assert(Seq::<Entry>::empty().filter(f) =~= Seq::<Entry>::empty());
    if f(x) {
        assert(seq![x].filter(f) =~= seq![x]);
    } else {
        assert(seq![x].filter(f) =~= Seq::<Entry>::empty());
        assert(Seq::<Entry>::empty() + s.filter(f) =~= s.filter(f));
    }
}

proof fn lemma_merged_filter(a: Seq<Entry>, b: Seq<Entry>, e: Entry)
    requires
        sorted_listing(a),
        sorted_listing(b),
    ensures
        merged(a, b).filter(key_class(e)) == a.filter(key_class(e)) + b.filter(key_class(e)),
    decreases a.len() + b.len(),
{
    let f = key_class(e);
    reveal(Seq::filter);
    if a.len() == 0 {
        assert(a.filter(f) =~= Seq::<Entry>::empty());
        assert(Seq::<Entry>::empty() + b.filter(f) =~= b.filter(f));
    } else if b.len() == 0 {
        assert(b.filter(f) =~= Seq::<Entry>::empty());
        assert(a.filter(f) + Seq::<Entry>::empty() =~= a.filter(f));
    } else {
        lemma_sorted_tail(a);
        lemma_sorted_tail(b);
        assert(a =~= seq![a[0]] + a.drop_first());
        assert(b =~= seq![b[0]] + b.drop_first());
        if strictly_before(b[0], a[0]) {
            lemma_merged_filter(a, b.drop_first(), e);
            lemma_filter_cons(b[0], merged(a, b.drop_first()), f);
            lemma_filter_cons(b[0], b.drop_first(), f);
            if f(b[0]) {
                assert forall|q: int| 0 <= q < a.len() implies !f(#[trigger] a[q]) by {
                    lemma_listed_before_facts(a[0], a[q], b[0]);
                    lemma_listed_before_facts(b[0], a[0], a[q]);
                    lemma_listed_before_facts(a[q], b[0], a[0]);
                    lemma_same_key_class(a[q], b[0], e);
                }
                lemma_filter_no_match(a, f);
                assert(Seq::<Entry>::empty() + (seq![b[0]] + b.drop_first().filter(f)) =~= seq![b[0]]
                    + (Seq::<Entry>::empty() + b.drop_first().filter(f)));
            }
        } else {
            lemma_merged_filter(a.drop_first(), b, e);
            lemma_filter_cons(a[0], merged(a.drop_first(), b), f);
            lemma_filter_cons(a[0], a.drop_first(), f);
            if f(a[0]) {
                assert(seq![a[0]] + (a.drop_first().filter(f) + b.filter(f)) =~= (seq![a[0]]
                    + a.drop_first().filter(f)) + b.filter(f));
            }
        }
    }
}

/// The merge of two sorted listings, the entries of `a` first among equal keys.
fn merge_listings(a: VecDeque<Entry>, b: VecDeque<Entry>) -> (out: VecDeque<Entry>)
    ensures
        out@ == merged(a@, b@),
{
    let ghost whole = merged(a@, b@);
    let mut a = a;
    let mut b = b;
    let mut out: VecDeque<Entry> = VecDeque::new();
    assert(out@ + merged(a@, b@) =~= whole);
    while a.len() > 0 && b.len() > 0
        invariant
            out@ + merged(a@, b@) == whole,
        decreases a@.len() + b@.len(),
    {
        let ghost (pa, pb, po) = (a@, b@, out@);
        if entry_strictly_before(&b[0], &a[0]) {
            let x = b.pop_front().unwrap();
            out.push_back(x);
            assert(b@ =~= pb.drop_first());
            assert(out@ + merged(a@, b@) =~= po + merged(pa, pb));
        } else {
            let x = a.pop_front().unwrap();
            out.push_back(x);
            assert(a@ =~= pa.drop_first());
            assert(out@ + merged(a@, b@) =~= po + merged(pa, pb));
        }
    }
    out.append(&mut a);
    out.append(&mut b);
    out
}

/// The listing sorted stably, by merging sorted halves.
fn merge_sort(v: VecDeque<Entry>) -> (out: VecDeque<Entry>)
    ensures
        stable_sort_of(out@, v@),
    decreases v@.len(),
{
    if v.len() <= 1 {
        proof {
            assert forall|i: int, j: int| 0 <= i < j < v@.len() implies listed_before(
                #[trigger] v@[i],
                #[trigger] v@[j],
            ) by {
            }
        }
        return v;
    }
    let mid = v.len() / 2;
    let mut left = v;
    let ghost whole = left@;
    let right = left.split_off(mid);
    let l = merge_sort(left);
    let r = merge_sort(right);
    let ghost lv = left@;
    let ghost rv = right@;
    let out = merge_listings(l, r);
    proof {
        assert(whole =~= lv + rv);
        lemma_merged_sorted(l@, r@);
        assert forall|e: Entry| #[trigger] out@.filter(key_class(e)) == whole.filter(key_class(e)) by {
            lemma_merged_filter(l@, r@, e);
            Seq::filter_distributes_over_add(lv, rv, key_class(e));
        }
    }
    out
}

/// The entries sorted stably: directories first, then by case-folded name.
pub fn sort_listing(listing: Vec<Entry>) -> (res: Vec<Entry>)
    ensures
        stable_sort_of(res@, listing@),
{
    let ghost whole = listing@;
    let mut rest = listing;
    let mut dq: VecDeque<Entry> = VecDeque::new();
    assert(rest@ + dq@ =~= whole);
    while rest.len() > 0
        invariant
            rest@ + dq@ == whole,
        decreases rest@.len(),
    {
        let ghost before = rest@;
        let ghost dq_before = dq@;
        let x = rest.pop().unwrap();
        dq.push_front(x);
        assert(before =~= rest@.push(x));
        assert(rest@ + dq@ =~= before + dq_before);
    }
    assert(dq@ =~= whole);
    let sorted = merge_sort(dq);
    let mut out: Vec<Entry> = Vec::new();
    let mut src = sorted;
    let ghost full = src@;
    assert(out@ + src@ =~= full);
    while src.len() > 0
        invariant
            out@ + src@ == full,
        decreases src@.len(),
    {
        let ghost out_before = out@;
        let ghost src_before = src@;
        let x = src.pop_front().unwrap();
        out.push(x);
        assert(out@ + src@ =~= out_before + src_before);
    }
    assert(out@ =~= full);
    out
}

} // verus!
