//! Finding the word under a click, and the page name at the head of a document.
use unicode_segmentation::UnicodeSegmentation;
use vstd::prelude::*;
use vstd::string::*;
use vstd::utf8::*;

use crate::document::string_views;
use crate::offsets_cache::{views, OffsetsCache};
use crate::text::{chars_of, is_white_space, is_white_space_char, lemma_encode_utf8_concat, sub_text};

verus! {

/// The extended grapheme clusters of a text, in order, as the Unicode segmentation
/// rules of UAX #29 split it.
pub uninterp spec fn graphemes_of(s: Seq<char>) -> Seq<Seq<char>>;

/// Relies on `UnicodeSegmentation::graphemes(line, true)`: it yields the extended
/// grapheme clusters of `line` as consecutive slices from its start to its end, so that
/// together they spell the line.
#[verifier::external_body]
fn grapheme_clusters<'a>(line: &'a str) -> (r: Vec<&'a str>)
    ensures
        views(r@) == graphemes_of(line@),
        views(r@).flatten() == line@,
{
    line.graphemes(true).collect()
}

/// A text with its ANSI escape sequences removed.
pub uninterp spec fn stripped_of(s: Seq<char>) -> Seq<char>;

/// Relies on `strip_ansi_escapes::strip_str`: the text with its ANSI escape sequences
/// removed; the result depends on the text alone.
#[verifier::external_body]
pub(crate) fn strip_escapes(s: &str) -> (r: String)
    ensures
        r@ == stripped_of(s@),
{
    strip_ansi_escapes::strip_str(s)
}

/// `p` is the position of the first white-space character of `s`.
pub open spec fn is_first_white_space(s: Seq<char>, p: int) -> bool {
    &&& 0 <= p < s.len()
    &&& is_white_space(s[p])
    &&& forall|k: int| 0 <= k < p ==> !is_white_space(#[trigger] s[k])
}

/// What precedes the first white space of `s`, if `s` holds any.
pub open spec fn leading_word(s: Seq<char>) -> Option<Seq<char>> {
    if exists|p: int| is_first_white_space(s, p) {
        Some(s.take(choose|p: int| is_first_white_space(s, p)))
    } else {
        None
    }
}

/// The error of a document without any white space, whose page name cannot be told.
#[derive(Debug, Clone, Copy, PartialEq, Eq)]
pub struct NoWhitespaceError;

/// The page name that heads a formatted document: what precedes its first white space,
/// stripped of ANSI escapes.
pub fn get_man_string(s: &str) -> (r: Result<String, NoWhitespaceError>)
    ensures
        match r {
            Ok(m) => leading_word(s@) is Some && m@ == stripped_of(leading_word(s@)->0),
            Err(_) => leading_word(s@) is None,
        },
{
    let cs = chars_of(s);
    let mut p: usize = 0;
    while p < cs.len() && !is_white_space_char(cs[p])
        invariant
            cs@ == s@,
            p <= cs@.len(),
            forall|k: int| 0 <= k < p ==> !is_white_space(#[trigger] s@[k]),
        decreases cs@.len() - p,
    {
        p = p + 1;
    }
    if p == cs.len() {
        assert forall|q: int| !is_first_white_space(s@, q) by {
            if is_first_white_space(s@, q) {
                assert(is_white_space(s@[q]));
            }
        }
        return Err(NoWhitespaceError);
    }
    assert(is_first_white_space(s@, p as int));
    assert forall|q: int| is_first_white_space(s@, q) implies q == p by {
        if q < p {
            assert(!is_white_space(s@[q]));
        } else if q > p {
            assert(is_white_space(s@[p as int]));
        }
    }
    let head = s.substring_char(0, p);
    assert(head@ =~= s@.take(p as int));
    Ok(strip_escapes(head))
}

/// Every character of `g` is white space, or a `/` where `slash` is set, or a
/// parenthesis where `parens` is set.
pub open spec fn is_stop_cluster(g: Seq<char>, slash: bool, parens: bool) -> bool {
    forall|i: int|
        0 <= i < g.len() ==> {
            let c = #[trigger] g[i];
            is_white_space(c) || (slash && c == '/') || (parens && (c == '(' || c == ')'))
        }
}

/// A cluster made of white space only; clicking it never yields a word.
pub open spec fn is_blank(g: Seq<char>) -> bool {
    is_stop_cluster(g, false, false)
}

/// A cluster that ends a word on its left: white space, `/`, `(` or `)`.
pub open spec fn stops_left(g: Seq<char>) -> bool {
    is_stop_cluster(g, true, true)
}

/// A cluster that ends a word on its right: white space or `/`. Parentheses do not, so
/// that the section in `name(2)` stays with the name.
pub open spec fn stops_right(g: Seq<char>) -> bool {
    is_stop_cluster(g, true, false)
}

/// Where the word around cluster `i` starts: walk left while the cluster before does
/// not stop the word.
pub open spec fn word_start(gs: Seq<Seq<char>>, i: int) -> int
    decreases i,
{
    if i > 0 && !stops_left(gs[i - 1]) {
        word_start(gs, i - 1)
    } else {
        i
    }
}

/// Where the word around cluster `i` ends (exclusive): walk right while the cluster
/// does not stop the word.
pub open spec fn word_end(gs: Seq<Seq<char>>, i: int) -> int
    decreases gs.len() - i,
{
    if 0 <= i < gs.len() && !stops_right(gs[i]) {
        word_end(gs, i + 1)
    } else {
        i
    }
}

/// The word of `line` around its cluster `col`, if that cluster exists and is not blank.
pub open spec fn word_in_line(line: Seq<char>, col: int) -> Option<Seq<char>> {
    let gs = graphemes_of(line);
    if 0 <= col < gs.len() && !is_blank(gs[col]) {
        Some(gs.subrange(word_start(gs, col), word_end(gs, col)).flatten())
    } else {
        None
    }
}

/// The word under screen position (`row`, `col`) when the document `lines` is scrolled
/// by `scroll`. Row 0 and column 0 are the frame's border, so row `r` shows line
/// `r + scroll - 1` and column `c` shows cluster `c - 1`.
pub open spec fn locate(lines: Seq<Seq<char>>, scroll: int, row: int, col: int) -> Option<
    Seq<char>,
> {
    let idx = row + scroll - 1;
    if col >= 1 && 0 <= idx < lines.len() {
        word_in_line(lines[idx], col - 1)
    } else {
        None
    }
}

/// Whether every character of `g` is white space, or a `/` where `slash` is set, or a
/// parenthesis where `parens` is set.
fn all_stop_chars(g: &str, slash: bool, parens: bool) -> (r: bool)
    ensures
        r == is_stop_cluster(g@, slash, parens),
{
    let cs = chars_of(g);
    let mut i: usize = 0;
    while i < cs.len()
        invariant
            cs@ == g@,
            i <= cs@.len(),
            forall|k: int|
                0 <= k < i ==> {
                    let c = #[trigger] g@[k];
                    is_white_space(c) || (slash && c == '/') || (parens && (c == '(' || c
                        == ')'))
                },
        decreases cs@.len() - i,
    {
        let c = cs[i];
        if !(is_white_space_char(c) || (slash && c == '/') || (parens && (c == '(' || c == ')'))) {
            return false;
        }
        i = i + 1;
    }
    true
}

/// Where the word around cluster `col` of `graphemes` starts and ends (exclusive); see
/// [`word_start`] and [`word_end`]. `None` where there is no such cluster or it is blank.
pub fn word_bounds(graphemes: &Vec<&str>, col: usize) -> (r: Option<(usize, usize)>)
    ensures
        match r {
            Some((start, end)) => {
                &&& col < graphemes@.len()
                &&& !is_blank(views(graphemes@)[col as int])
                &&& start == word_start(views(graphemes@), col as int)
                &&& end == word_end(views(graphemes@), col as int)
                &&& start <= col <= end <= graphemes@.len()
            },
            None => col >= graphemes@.len() || is_blank(views(graphemes@)[col as int]),
        },
{
    let ghost gs = views(graphemes@);
    if col >= graphemes.len() {
        return None;
    }
    assert(graphemes[col as int]@ == gs[col as int]);
    if all_stop_chars(graphemes[col], false, false) {
        return None;
    }
    let mut start = col;
    while start > 0 && !all_stop_chars(graphemes[start - 1], true, true)
        invariant
            views(graphemes@) == gs,
            start <= col < graphemes@.len(),
            word_start(gs, start as int) == word_start(gs, col as int),
        decreases start,
    {
        start = start - 1;
    }
    let mut end = col;
    while end < graphemes.len() && !all_stop_chars(graphemes[end], true, false)
        invariant
            views(graphemes@) == gs,
            !is_blank(gs[col as int]),
            col <= end <= graphemes@.len(),
            word_end(gs, end as int) == word_end(gs, col as int),
        decreases graphemes@.len() - end,
    {
        end = end + 1;
    }
    Some((start, end))
}

/// The word under screen position (`row`, `col`) of `lines` scrolled by `scroll`; see
/// [`locate`]. The cluster offsets of the clicked line are taken from `cache`, or
/// computed and kept there: the word found does not depend on what the cache held.
pub fn word_at_position<'a>(
    lines: &'a [String],
    scroll: usize,
    row: usize,
    col: usize,
    cache: &mut OffsetsCache,
) -> (r: Option<&'a str>)
    requires
        old(cache).wf(),
    ensures
        final(cache).wf(),
        match r {
            Some(w) => locate(string_views(lines@), scroll as int, row as int, col as int) == Some(
                w@,
            ),
            None => locate(string_views(lines@), scroll as int, row as int, col as int) is None,
        },
{
    let n = lines.len();
    assert(string_views(lines@).len() == n);
    if col == 0 || row > usize::MAX - scroll || row + scroll == 0 || row + scroll - 1 >= n {
        return None;
    }
    let col = col - 1;
    let idx = row + scroll - 1;
    let line = lines[idx].as_str();
    let graphemes = grapheme_clusters(line);
    let ghost gs = graphemes_of(line@);
    assert(line@ == string_views(lines@)[idx as int]);
    let (start, end) = match word_bounds(&graphemes, col) {
        Some(bounds) => bounds,
        None => return None,
    };
    let (a, b) = cache.byte_span(line, &graphemes, start, end);
    proof {
        let x = gs.take(start as int);
        let w = gs.subrange(start as int, end as int);
        let y = gs.skip(end as int);
        assert(gs =~= x + w + y);
        vstd::seq_lib::lemma_flatten_concat(x, w);
        vstd::seq_lib::lemma_flatten_concat(x + w, y);
        assert(gs.take(end as int) =~= x + w);
        lemma_encode_utf8_concat(x.flatten(), w.flatten());
    }
    let r = sub_text(
        line,
        a,
        b,
        Ghost(gs.take(start as int).flatten()),
        Ghost(gs.subrange(start as int, end as int).flatten()),
        Ghost(gs.skip(end as int).flatten()),
    );
    Some(r)
}

} // verus!
