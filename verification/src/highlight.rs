//! Syntax highlighting of the viewed file. The highlighting itself is
//! syntect's; this module picks the syntax and theme, feeds syntect the text
//! line by line and turns its styled pieces into displayable segments.
use syntect::easy::HighlightLines;
use syntect::highlighting::{Theme, ThemeSet};
use syntect::parsing::{SyntaxReference, SyntaxSet};
use syntect::util::LinesWithEndings;
use vstd::prelude::*;
use crate::text;

verus! {

#[verifier::external_type_specification]
#[verifier::external_body]
pub struct ExSyntaxSet(SyntaxSet);

#[verifier::external_type_specification]
#[verifier::external_body]
pub struct ExThemeSet(ThemeSet);

#[verifier::external_type_specification]
#[verifier::external_body]
pub struct ExTheme(Theme);

#[verifier::external_type_specification]
#[verifier::external_body]
pub struct ExSyntaxReference(SyntaxReference);

#[verifier::external_type_specification]
#[verifier::external_body]
pub struct ExHighlightLines<'a>(HighlightLines<'a>);

#[verifier::external_type_specification]
#[verifier::external_body]
pub struct ExSyntectError(syntect::Error);

#[verifier::external_type_specification]
#[verifier::external_body]
pub struct ExIoError(std::io::Error);

/// A piece of a highlighted line: its text and its foreground colour.
pub struct Segment {
    pub text: String,
    pub r: u8,
    pub g: u8,
    pub b: u8,
}

/// A text without its trailing `\n` and `\r` characters.
pub open spec fn without_line_end(t: Seq<char>) -> Seq<char>
    decreases t.len(),
{
    if t.len() > 0 && (t.last() == '\n' || t.last() == '\r') {
        without_line_end(t.drop_last())
    } else {
        t
    }
}

/// A text with each tab replaced by four spaces.
pub open spec fn tabs_expanded(t: Seq<char>) -> Seq<char>
    decreases t.len(),
{
    if t.len() == 0 {
        Seq::empty()
    } else if t.last() == '\t' {
        tabs_expanded(t.drop_last()) + seq![' ', ' ', ' ', ' ']
    } else {
        tabs_expanded(t.drop_last()).push(t.last())
    }
}

/// How a piece of highlighted text is shown.
pub open spec fn shown_text(t: Seq<char>) -> Seq<char> {
    tabs_expanded(without_line_end(t))
}

/// The texts of syntect's styled pieces of a line.
pub open spec fn piece_texts(pieces: Seq<(u8, u8, u8, String)>) -> Seq<Seq<char>> {
    pieces.map_values(|p: (u8, u8, u8, String)| p.3@)
}

/// `segs` shows the styled `pieces`: same colours, shown texts.
pub open spec fn shows(segs: Seq<Segment>, pieces: Seq<(u8, u8, u8, String)>) -> bool {
    &&& segs.len() == pieces.len()
    &&& forall|j: int|
        0 <= j < segs.len() ==> {
            &&& #[trigger] segs[j].text@ == shown_text(pieces[j].3@)
            &&& segs[j].r == pieces[j].0
            &&& segs[j].g == pieces[j].1
            &&& segs[j].b == pieces[j].2
        }
}

/// `segs` is a highlighted form of `line`: empty (syntect failed on it), or
/// the shown texts of pieces whose texts, one after the other, begin the line.
pub open spec fn highlights_line(segs: Seq<Segment>, line: Seq<char>) -> bool {
    segs.len() == 0 || exists|pieces: Seq<(u8, u8, u8, String)>|
        #[trigger] shows(segs, pieces) && piece_texts(pieces).flatten().is_prefix_of(line)
}

/// The names of the syntaxes that a syntax set holds.
pub uninterp spec fn syntax_names(ps: SyntaxSet) -> Set<Seq<char>>;

/// The names of the themes that a theme set holds (the keys of its `themes` map).
pub uninterp spec fn theme_names(ts: ThemeSet) -> Set<Seq<char>>;

/// `rows` is a highlighted form of the text `t`: a row for each piece of the
/// text cut after each `\n`, highlighting that piece.
pub open spec fn highlights_text(rows: Seq<Vec<Segment>>, t: Seq<char>) -> bool {
    &&& rows.len() == text::pieces_after_newlines(t).len()
    &&& forall|i: int|
        0 <= i < rows.len() ==> highlights_line(#[trigger] rows[i]@, text::pieces_after_newlines(t)[i])
}

/// `SyntaxSet::load_defaults_newlines`: syntect's bundled syntaxes. The bundle
/// is built with syntect's plain-text syntax added (`add_plain_text_syntax`),
/// which `find_syntax_plain_text` documents as always present, so the set holds
/// a syntax named `Plain Text`.
#[verifier::external_body]
fn load_syntaxes() -> (res: SyntaxSet)
    ensures
        syntax_names(res).contains("Plain Text"@),
{
    SyntaxSet::load_defaults_newlines()
}

/// `ThemeSet::load_defaults`: syntect's bundled themes. Its documentation
/// lists the keys of the theme map, which this states.
#[verifier::external_body]
fn load_themes() -> (res: ThemeSet)
    ensures
        theme_names(res).contains("base16-ocean.dark"@),
        theme_names(res).contains("base16-eighties.dark"@),
        theme_names(res).contains("base16-mocha.dark"@),
        theme_names(res).contains("base16-ocean.light"@),
        theme_names(res).contains("InspiredGitHub"@),
        theme_names(res).contains("Solarized (dark)"@),
        theme_names(res).contains("Solarized (light)"@),
{
    ThemeSet::load_defaults()
}

/// `SyntaxSet::find_syntax_for_file`: the syntax for the file's name or
/// extension, or else for its first line, which it reads from disk. Nothing is
/// stated of the result.
#[verifier::external_body]
fn syntax_for_file<'a>(ps: &'a SyntaxSet, path: &str) -> (res: Result<Option<&'a SyntaxReference>, std::io::Error>) {
    ps.find_syntax_for_file(path)
}

/// `SyntaxSet::find_syntax_by_name`: a syntax of the given name, found
/// exactly where the set holds one. Which of two syntaxes of one name comes
/// back is not stated.
#[verifier::external_body]
fn syntax_named<'a>(ps: &'a SyntaxSet, name: &str) -> (res: Option<&'a SyntaxReference>)
    ensures
        res is Some <==> syntax_names(*ps).contains(name@),
{
    ps.find_syntax_by_name(name)
}

/// The theme of the given name in a theme set (`BTreeMap::get` on its
/// `themes`): found exactly where the map has that key. What the theme holds
/// is not stated.
#[verifier::external_body]
fn theme_named<'a>(ts: &'a ThemeSet, name: &str) -> (res: Option<&'a Theme>)
    ensures
        res is Some <==> theme_names(*ts).contains(name@),
{
    ts.themes.get(name)
}

/// `HighlightLines::new`: a highlighter for one text in the given syntax and theme.
#[verifier::external_body]
fn new_highlighter<'a>(syntax: &SyntaxReference, theme: &'a Theme) -> (res: HighlightLines<'a>) {
    HighlightLines::new(syntax, theme)
}

/// `HighlightLines::highlight_line`: the styled pieces of the next line, each
/// given by its foreground colour and its text. The pieces follow the line
/// from its start; syntect's range iterator stops early where the
/// highlighter's scope stack has fallen out of step with the parser, so the
/// texts of the pieces are stated to begin the line, not to make up all of it.
/// Which styles the pieces get depends on the highlighter's state and is not stated.
#[verifier::external_body]
fn highlight_line(h: &mut HighlightLines, line: &str, ps: &SyntaxSet) -> (res: Result<
    Vec<(u8, u8, u8, String)>,
    syntect::Error,
>)
    ensures
        res matches Ok(pieces) ==> piece_texts(pieces@).flatten().is_prefix_of(line@),
{
    h.highlight_line(line, ps).map(
        |v| v.into_iter().map(|(st, t)| (st.foreground.r, st.foreground.g, st.foreground.b, t.to_string())).collect(),
    )
}

/// `LinesWithEndings::from` collected: the pieces of the text cut after each
/// `\n`, as its `next` cuts them.
#[verifier::external_body]
fn lines_with_endings(text: &str) -> (res: Vec<String>)
    ensures
        text::views(res@) == text::pieces_after_newlines(text@),
{
    LinesWithEndings::from(text).map(String::from).collect()
}

proof fn lemma_without_line_end_prefix(t: Seq<char>, k: int)
    requires
        0 <= k <= t.len(),
        forall|i: int| k <= i < t.len() ==> t[i] == '\n' || t[i] == '\r',
    ensures
        without_line_end(t) == without_line_end(t.subrange(0, k)),
    decreases t.len() - k,
{
    if k < t.len() {
        assert(t.drop_last() =~= t.subrange(0, t.len() - 1));
        lemma_without_line_end_prefix(t.drop_last(), k);
        assert(t.drop_last().subrange(0, k) =~= t.subrange(0, k));
    } else {
        assert(t.subrange(0, k) =~= t);
    }
}

/// How a piece of highlighted text is shown: without its line ending, and
/// with tabs expanded to four spaces.
pub fn shown(t: &str) -> (res: String)
    ensures
        res@ == shown_text(t@),
{
    let cs = text::chars_of(t);
    let mut k = cs.len();
    while k > 0 && (cs[k - 1] == '\n' || cs[k - 1] == '\r')
        invariant
            k <= cs@.len(),
            forall|i: int| k <= i < cs@.len() ==> cs@[i] == '\n' || cs@[i] == '\r',
        decreases k,
    {
        k = k - 1;
    }
    proof {
        lemma_without_line_end_prefix(cs@, k as int);
        let pre = cs@.subrange(0, k as int);
        if k > 0 {
            assert(pre.last() == cs@[k - 1]);
        }
        assert(without_line_end(pre) == pre);
    }
    let mut res = String::new();
    let mut i: usize = 0;
    while i < k
        invariant
            i <= k <= cs@.len(),
            res@ == tabs_expanded(cs@.subrange(0, i as int)),
        decreases k - i,
    {
        let c = cs[i];
        if c == '\t' {
            text::push_char(&mut res, ' ');
            text::push_char(&mut res, ' ');
            text::push_char(&mut res, ' ');
            text::push_char(&mut res, ' ');
        } else {
            text::push_char(&mut res, c);
        }
        proof {
            let s = cs@.subrange(0, i + 1);
            assert(s.drop_last() =~= cs@.subrange(0, i as int));
            assert(s.last() == c);
            assert(res@ =~= tabs_expanded(s));
        }
        i = i + 1;
    }
    res
}

/// The segments showing syntect's styled pieces of a line.
pub fn show_pieces(pieces: Vec<(u8, u8, u8, String)>) -> (res: Vec<Segment>)
    ensures
        shows(res@, pieces@),
{
    let mut res: Vec<Segment> = Vec::new();
    let mut i: usize = 0;
    while i < pieces.len()
        invariant
            i <= pieces@.len(),
            res@.len() == i,
            forall|j: int|
                0 <= j < i ==> {
                    &&& #[trigger] res@[j].text@ == shown_text(pieces@[j].3@)
                    &&& res@[j].r == pieces@[j].0
                    &&& res@[j].g == pieces@[j].1
                    &&& res@[j].b == pieces@[j].2
                },
        decreases pieces@.len() - i,
    {
        let p = &pieces[i];
        let t = shown(p.3.as_str());
        res.push(Segment { text: t, r: p.0, g: p.1, b: p.2 });
        i = i + 1;
    }
    res
}

/// The row that shows syntect's answer for a line: the segments of its styled
/// pieces, or no segment where it failed on the line.
pub fn row_of(r: Result<Vec<(u8, u8, u8, String)>, syntect::Error>) -> (res: Vec<Segment>)
    ensures
        match r {
            Ok(pieces) => shows(res@, pieces@),
            Err(_) => res@.len() == 0,
        },
{
    match r {
        Ok(pieces) => show_pieces(pieces),
        Err(_) => Vec::new(),
    }
}

/// The text highlighted line by line, in the syntax that syntect picks for
/// `path` (plain text where it finds none) and the `base16-ocean.dark` theme.
/// Each line is shown as the segments of syntect's styled pieces, or as no
/// segment where syntect fails on it. The bundled sets hold that theme and the
/// plain-text syntax, so the result is always `Some`.
pub fn highlight(path: &str, text: &str) -> (res: Option<Vec<Vec<Segment>>>)
    ensures
        res is Some,
        res matches Some(lines) ==> highlights_text(lines@, text@),
{
    let ps = load_syntaxes();
    let ts = load_themes();
    let syntax = match syntax_for_file(&ps, path) {
        Ok(Some(s)) => s,
        _ => match syntax_named(&ps, "Plain Text") {
            Some(s) => s,
            None => {
                return None;
            },
        },
    };
    let theme = match theme_named(&ts, "base16-ocean.dark") {
        Some(t) => t,
        None => {
            return None;
        },
    };
    let mut h = new_highlighter(syntax, theme);
    let lines = lines_with_endings(text);
    let mut out: Vec<Vec<Segment>> = Vec::new();
    let mut i: usize = 0;
    while i < lines.len()
        invariant
            i <= lines@.len(),
            text::views(lines@) == text::pieces_after_newlines(text@),
            out@.len() == i,
            forall|j: int| 0 <= j < i ==> highlights_line(#[trigger] out@[j]@, lines@[j]@),
        decreases lines@.len() - i,
    {
        let r = highlight_line(&mut h, lines[i].as_str(), &ps);
        let ghost rv = r;
        let segs = row_of(r);
        proof {
            if let Ok(pieces) = rv {
                assert(shows(segs@, pieces@));
            }
        }
        out.push(segs);
        i = i + 1;
    }
    proof {
        assert forall|j: int| 0 <= j < out@.len() implies highlights_line(
            #[trigger] out@[j]@,
            text::pieces_after_newlines(text@)[j],
        ) by {
            assert(text::pieces_after_newlines(text@)[j] == text::views(lines@)[j]);
        }
    }
    Some(out)
}

} // verus!
