//! Character-level string helpers: decimal numbers, padding, joining, and
//! the few std string operations the rest of the library relies on.
use vstd::prelude::*;

verus! {

/// The ASCII digit for a value below ten.
pub open spec fn digit_char(d: nat) -> char {
    if d == 0 { '0' }
    else if d == 1 { '1' }
    else if d == 2 { '2' }
    else if d == 3 { '3' }
    else if d == 4 { '4' }
    else if d == 5 { '5' }
    else if d == 6 { '6' }
    else if d == 7 { '7' }
    else if d == 8 { '8' }
    else { '9' }
}

/// The decimal representation of `n`, without sign or leading zeros.
pub open spec fn decimal(n: nat) -> Seq<char>
    decreases n,
{
    if n < 10 {
        seq![digit_char(n)]
    } else {
        decimal(n / 10).push(digit_char(n % 10))
    }
}

/// `count` spaces.
pub open spec fn spaces(count: nat) -> Seq<char>
    decreases count,
{
    if count == 0 { Seq::empty() } else { spaces((count - 1) as nat).push(' ') }
}

/// `s` right-aligned in a field of `width` characters, as `{:>width}` does.
pub open spec fn pad_left(s: Seq<char>, width: nat) -> Seq<char> {
    if s.len() < width { spaces((width - s.len()) as nat) + s } else { s }
}

/// The parts joined with `sep` between consecutive parts, as `[..].join(sep)` does.
pub open spec fn joined_with(parts: Seq<Seq<char>>, sep: Seq<char>) -> Seq<char>
    decreases parts.len(),
{
    if parts.len() == 0 {
        Seq::empty()
    } else if parts.len() == 1 {
        parts[0]
    } else {
        joined_with(parts.drop_last(), sep) + sep + parts.last()
    }
}

/// The views of a vector of strings.
pub open spec fn views(v: Seq<String>) -> Seq<Seq<char>> {
    v.map_values(|s: String| s@)
}

/// Appends one character (`String::push`).
#[verifier::external_body]
pub(crate) fn push_char(s: &mut String, c: char)
    ensures
        final(s)@ == old(s)@.push(c),
{
    s.push(c);
}

/// Removes the last character, if any.
pub(crate) fn pop_char(s: &mut String)
    ensures
        old(s)@.len() > 0 ==> final(s)@ == old(s)@.drop_last(),
        old(s)@.len() == 0 ==> final(s)@ == old(s)@,
{
    let cs = chars_of(s.as_str());
    if cs.len() == 0 {
        return;
    }
    let last = cs.len() - 1;
    let mut t = String::new();
    let mut i: usize = 0;
    while i < last
        invariant
            last == cs@.len() - 1,
            i <= last,
            t@ == cs@.subrange(0, i as int),
        decreases cs@.len() - i,
    {
        push_char(&mut t, cs[i]);
        i = i + 1;
        assert(t@ =~= cs@.subrange(0, i as int));
    }
    assert(t@ =~= cs@.drop_last());
    *s = t;
}

/// The characters of a string, in order.
pub(crate) fn chars_of(s: &str) -> (res: Vec<char>)
    ensures
        res@ == s@,
{
    broadcast use vstd::string::axiom_spec_iter;

    let mut res: Vec<char> = Vec::new();
    for c in it: s.chars()
        invariant
            it.seq() == s@,
            res@ == it.seq().take(it.index() as int),
    {
        res.push(c);
    }
    assert(res@ =~= s@);
    res
}

/// The first character of a string, or `'\0'` for the empty string.
pub(crate) fn first_char(s: &str) -> (c: char)
    ensures
        c == (if s@.len() > 0 { s@[0] } else { '\0' }),
{
    if s.unicode_len() > 0 {
        s.get_char(0)
    } else {
        '\0'
    }
}

/// What `str::to_lowercase` returns for a string (Unicode lowercase mapping).
pub uninterp spec fn lowercase(s: Seq<char>) -> Seq<char>;

/// `str::to_lowercase`, with its result given as its characters.
/// Its result is the name `lowercase` applied to the argument; nothing more is
/// stated of the Unicode case mapping.
#[verifier::external_body]
pub(crate) fn lowercase_chars(s: &str) -> (res: Vec<char>)
    ensures
        res@ == lowercase(s@),
{
    s.to_lowercase().chars().collect()
}

/// Whether a character has the Unicode property White_Space, by which
/// `str::trim` goes (`char::is_whitespace`).
pub open spec fn is_white_space(c: char) -> bool {
    ('\u{9}' <= c && c <= '\u{d}') || c == ' ' || c == '\u{85}' || c == '\u{a0}' || c == '\u{1680}'
        || ('\u{2000}' <= c && c <= '\u{200a}') || c == '\u{2028}' || c == '\u{2029}' || c
        == '\u{202f}' || c == '\u{205f}' || c == '\u{3000}'
}

/// A text without its leading white space.
pub open spec fn trimmed_start(s: Seq<char>) -> Seq<char>
    decreases s.len(),
{
    if s.len() > 0 && is_white_space(s[0]) { trimmed_start(s.drop_first()) } else { s }
}

/// A text without its trailing white space.
pub open spec fn trimmed_end(s: Seq<char>) -> Seq<char>
    decreases s.len(),
{
    if s.len() > 0 && is_white_space(s.last()) { trimmed_end(s.drop_last()) } else { s }
}

/// What `str::trim` returns for a string: leading and trailing white space removed.
pub open spec fn trimmed(s: Seq<char>) -> Seq<char> {
    trimmed_end(trimmed_start(s))
}

fn white_space(c: char) -> (r: bool)
    ensures
        r == is_white_space(c),
{
    ('\u{9}' <= c && c <= '\u{d}') || c == ' ' || c == '\u{85}' || c == '\u{a0}' || c == '\u{1680}'
        || ('\u{2000}' <= c && c <= '\u{200a}') || c == '\u{2028}' || c == '\u{2029}' || c
        == '\u{202f}' || c == '\u{205f}' || c == '\u{3000}'
}

/// A copy of `s` without its leading and trailing white space (what `str::trim` gives).
pub(crate) fn trim(s: &str) -> (res: String)
    ensures
        res@ == trimmed(s@),
{
    let cs = chars_of(s);
    let n = cs.len();
    let mut a: usize = 0;
    assert(cs@.subrange(0, n as int) =~= cs@);
    while a < n && white_space(cs[a])
        invariant
            n == cs@.len(),
            a <= n,
            trimmed_start(cs@) == trimmed_start(cs@.subrange(a as int, n as int)),
        decreases n - a,
    {
        let ghost sub = cs@.subrange(a as int, n as int);
        assert(sub.drop_first() =~= cs@.subrange(a + 1, n as int));
        a = a + 1;
    }
    proof {
        let sub = cs@.subrange(a as int, n as int);
        if a < n {
            assert(sub[0] == cs@[a as int]);
        }
        assert(trimmed_start(sub) == sub);
    }
    let mut b: usize = n;
    while b > a && white_space(cs[b - 1])
        invariant
            n == cs@.len(),
            a <= b <= n,
            trimmed(s@) == trimmed_end(cs@.subrange(a as int, b as int)),
        decreases b,
    {
        let ghost v = cs@.subrange(a as int, b as int);
        assert(v.last() == cs@[b - 1]);
        assert(v.drop_last() =~= cs@.subrange(a as int, b - 1));
        b = b - 1;
    }
    proof {
        let v = cs@.subrange(a as int, b as int);
        if b > a {
            assert(v.last() == cs@[b - 1]);
        }
        assert(trimmed_end(v) == v);
    }
    string_of_range(&cs, a, b)
}

/// The start of the line that holds position `j - 1`: just after the last
/// `\n` before position `j`, or 0.
pub open spec fn line_start(t: Seq<char>, j: int) -> int
    decreases j,
{
    if j <= 0 {
        0
    } else if t[j - 1] == '\n' {
        j
    } else {
        line_start(t, j - 1)
    }
}

pub proof fn lemma_line_start_bound(t: Seq<char>, j: int)
    ensures
        0 <= line_start(t, j) <= (if j > 0 { j } else { 0 }),
    decreases j,
{
    if j > 0 {
        lemma_line_start_bound(t, j - 1);
    }
}

/// The pieces of a text cut after each `\n`, each keeping its line ending;
/// the last piece may lack one, and there is no empty piece at the end.
pub open spec fn pieces_after_newlines(t: Seq<char>) -> Seq<Seq<char>>
    decreases t.len(),
{
    if t.len() == 0 {
        Seq::empty()
    } else {
        let k = line_start(t, t.len() - 1);
        proof {
            lemma_line_start_bound(t, t.len() - 1);
        }
        pieces_after_newlines(t.subrange(0, k)).push(t.subrange(k, t.len() as int))
    }
}

/// A piece without its line ending: a final `\n`, and then a `\r` before it.
pub open spec fn without_ending(l: Seq<char>) -> Seq<char> {
    if l.len() > 0 && l.last() == '\n' {
        let m = l.drop_last();
        if m.len() > 0 && m.last() == '\r' { m.drop_last() } else { m }
    } else {
        l
    }
}

/// What `str::lines` yields for a text: its lines, split at `\n` or `\r\n`,
/// without the line endings.
pub open spec fn lines_of(text: Seq<char>) -> Seq<Seq<char>> {
    pieces_after_newlines(text).map_values(|l: Seq<char>| without_ending(l))
}

proof fn lemma_line_start_at(t: Seq<char>, j: int, m: int)
    requires
        0 <= j <= m <= t.len(),
        j == 0 || t[j - 1] == '\n',
        forall|k: int| j <= k < m ==> t[k] != '\n',
    ensures
        line_start(t, m) == j,
    decreases m,
{
    if m > j {
        lemma_line_start_at(t, j, m - 1);
    }
}

/// Cutting a text after each `\n` up to the end of a further line adds that line.
proof fn lemma_pieces_extend(t: Seq<char>, j: int, j2: int)
    requires
        0 <= j < j2 <= t.len(),
        j == 0 || t[j - 1] == '\n',
        forall|k: int| j <= k < j2 - 1 ==> t[k] != '\n',
    ensures
        pieces_after_newlines(t.subrange(0, j2)) == pieces_after_newlines(t.subrange(0, j)).push(
            t.subrange(j, j2),
        ),
        lines_of(t.subrange(0, j2)) == lines_of(t.subrange(0, j)).push(without_ending(t.subrange(j, j2))),
{
    let u = t.subrange(0, j2);
    lemma_line_start_at(u, j, j2 - 1);
    assert(u.subrange(0, j) =~= t.subrange(0, j));
    assert(u.subrange(j, j2) =~= t.subrange(j, j2));
    let p = pieces_after_newlines(t.subrange(0, j));
    assert(pieces_after_newlines(u) == p.push(t.subrange(j, j2)));
    assert(p.push(t.subrange(j, j2)).map_values(|l: Seq<char>| without_ending(l)) =~= p.map_values(
        |l: Seq<char>| without_ending(l),
    ).push(without_ending(t.subrange(j, j2))));
}

/// A string holding the characters of `cs` from `from` up to `to`.
fn string_of_range(cs: &Vec<char>, from: usize, to: usize) -> (res: String)
    requires
        from <= to <= cs@.len(),
    ensures
        res@ == cs@.subrange(from as int, to as int),
{
    let mut res = String::new();
    let mut i: usize = from;
    while i < to
        invariant
            from <= i <= to <= cs@.len(),
            res@ == cs@.subrange(from as int, i as int),
        decreases to - i,
    {
        push_char(&mut res, cs[i]);
        i = i + 1;
        assert(res@ =~= cs@.subrange(from as int, i as int));
    }
    res
}

/// The lines of a text, split at `\n` or `\r\n`, without the line endings
/// (what `str::lines` yields), each as a new string.
pub(crate) fn split_lines(text: &str) -> (res: Vec<String>)
    ensures
        views(res@) == lines_of(text@),
{
    let cs = chars_of(text);
    let ghost t = cs@;
    let mut res: Vec<String> = Vec::new();
    let mut start: usize = 0;
    let mut i: usize = 0;
    assert(t.subrange(0, 0) =~= Seq::<char>::empty());
    assert(views(res@) =~= lines_of(t.subrange(0, 0)));
    while i < cs.len()
        invariant
            t == cs@,
            start <= i <= cs@.len(),
            start == 0 || t[start - 1] == '\n',
            forall|k: int| start <= k < i ==> t[k] != '\n',
            views(res@) == lines_of(t.subrange(0, start as int)),
        decreases cs@.len() - i,
    {
        if cs[i] == '\n' {
            let mut end = i;
            if end > start && cs[end - 1] == '\r' {
                end = end - 1;
            }
            let line = string_of_range(&cs, start, end);
            let ghost prev = res@;
            res.push(line);
            proof {
                lemma_pieces_extend(t, start as int, i + 1);
                let piece = t.subrange(start as int, i + 1);
                assert(piece.drop_last() =~= t.subrange(start as int, i as int));
                if i > start && t[i - 1] == '\r' {
                    assert(piece.drop_last().drop_last() =~= t.subrange(start as int, end as int));
                }
                assert(without_ending(piece) == t.subrange(start as int, end as int));
                assert(views(res@) =~= views(prev).push(line@));
            }
            start = i + 1;
        }
        i = i + 1;
    }
    if start < cs.len() {
        let line = string_of_range(&cs, start, cs.len());
        let ghost prev = res@;
        res.push(line);
        proof {
            lemma_pieces_extend(t, start as int, t.len() as int);
            let piece = t.subrange(start as int, t.len() as int);
            assert(piece.last() == t[t.len() - 1]);
            assert(without_ending(piece) == piece);
            assert(views(res@) =~= views(prev).push(line@));
        }
    }
    assert(t.subrange(0, t.len() as int) =~= t);
    res
}

/// A string holding exactly the given characters.
pub fn string_from_chars(cs: &[char]) -> (res: String)
    ensures
        res@ == cs@,
{
    let mut res = String::new();
    let mut i: usize = 0;
    while i < cs.len()
        invariant
            i <= cs.len(),
            res@ == cs@.subrange(0, i as int),
        decreases cs.len() - i,
    {
        push_char(&mut res, cs[i]);
        i = i + 1;
        assert(res@ =~= cs@.subrange(0, i as int));
    }
    assert(res@ =~= cs@);
    res
}

/// The ASCII digit of a value below ten.
pub fn digit(d: u64) -> (c: char)
    requires
        d < 10,
    ensures
        c == digit_char(d as nat),
{
    if d == 0 { '0' }
    else if d == 1 { '1' }
    else if d == 2 { '2' }
    else if d == 3 { '3' }
    else if d == 4 { '4' }
    else if d == 5 { '5' }
    else if d == 6 { '6' }
    else if d == 7 { '7' }
    else if d == 8 { '8' }
    else { '9' }
}

/// Appends the decimal representation of `n` to `s`.
pub fn push_decimal(s: &mut String, n: u64)
    ensures
        final(s)@ == old(s)@ + decimal(n as nat),
    decreases n,
{
    if n < 10 {
        push_char(s, digit(n));
        assert(final(s)@ =~= old(s)@ + decimal(n as nat));
    } else {
        push_decimal(s, n / 10);
        push_char(s, digit(n % 10));
        assert(final(s)@ =~= old(s)@ + decimal(n as nat));
    }
}

/// The decimal representation of `n`.
pub fn decimal_string(n: u64) -> (res: String)
    ensures
        res@ == decimal(n as nat),
{
    let mut s = String::new();
    push_decimal(&mut s, n);
    assert(s@ =~= decimal(n as nat));
    s
}

/// `s` right-aligned in a field of `width` characters.
pub fn padded_left(s: &str, width: usize) -> (res: String)
    ensures
        res@ == pad_left(s@, width as nat),
{
    let len = s.unicode_len();
    let mut res = String::new();
    if len < width {
        let mut k: usize = 0;
        while k < width - len
            invariant
                len < width,
                k <= width - len,
                res@ == spaces(k as nat),
            decreases width - len - k,
        {
            push_char(&mut res, ' ');
            k = k + 1;
        }
    }
    res.append(s);
    proof {
        if len < width {
            assert(res@ =~= pad_left(s@, width as nat));
        } else {
            assert(res@ =~= pad_left(s@, width as nat));
        }
    }
    res
}

/// The parts joined with `sep` between consecutive parts.
pub fn join(parts: &Vec<String>, sep: &str) -> (res: String)
    ensures
        res@ == joined_with(views(parts@), sep@),
{
    let mut res = String::new();
    let ghost all = views(parts@);
    let mut i: usize = 0;
    while i < parts.len()
        invariant
            i <= parts.len(),
            all == views(parts@),
            res@ == joined_with(all.take(i as int), sep@),
        decreases parts.len() - i,
    {
        if i != 0 {
            res.append(sep);
        }
        res.append(parts[i].as_str());
        proof {
            let t = all.take(i + 1);
            assert(t.drop_last() =~= all.take(i as int));
            assert(t.last() == parts@[i as int]@);
            if i == 0 {
                assert(all.take(0) =~= Seq::<Seq<char>>::empty());
                assert(res@ =~= joined_with(t, sep@));
            } else {
                assert(res@ =~= joined_with(t, sep@));
            }
        }
        i = i + 1;
    }
    assert(all.take(parts.len() as int) =~= all);
    res
}

} // verus!
