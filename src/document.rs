//! A document as lines: splitting text at line endings and joining lines back.
use vstd::prelude::*;
use vstd::string::*;
use vstd::utf8::*;

use crate::text::{chars_of, lemma_encode_utf8_concat, sub_text, utf8_len};

verus! {

/// The pieces of `s` between its newline characters, one more than it holds newlines:
/// a newline starts a new, empty piece and any other character extends the last one.
pub open spec fn newline_pieces(s: Seq<char>) -> Seq<Seq<char>>
    decreases s.len(),
{
    if s.len() == 0 {
        seq![Seq::<char>::empty()]
    } else {
        let p = newline_pieces(s.drop_last());
        if s.last() == '\n' {
            p.push(Seq::<char>::empty())
        } else {
            p.update(p.len() - 1, p.last().push(s.last()))
        }
    }
}

/// A line without the carriage return that may end it.
pub open spec fn without_cr(l: Seq<char>) -> Seq<char> {
    if l.len() > 0 && l.last() == '\r' {
        l.drop_last()
    } else {
        l
    }
}

/// The lines of `s`, as `str::lines` gives them: split at each `\n`, with a `\r` right
/// before it removed, and no empty line after a final newline.
pub open spec fn text_lines(s: Seq<char>) -> Seq<Seq<char>> {
    let p = newline_pieces(s);
    let body = p.drop_last().map_values(|l: Seq<char>| without_cr(l));
    if p.last().len() == 0 {
        body
    } else {
        body.push(p.last())
    }
}

/// Lines put back together with a newline between each two.
pub open spec fn joined(lines: Seq<Seq<char>>) -> Seq<char>
    decreases lines.len(),
{
    if lines.len() == 0 {
        Seq::<char>::empty()
    } else if lines.len() == 1 {
        lines[0]
    } else {
        joined(lines.drop_last()) + seq!['\n'] + lines.last()
    }
}

/// The texts of a sequence of strings.
pub open spec fn string_views(lines: Seq<String>) -> Seq<Seq<char>> {
    lines.map_values(|l: String| l@)
}

/// The byte offset of character `i` of `s` in its UTF-8 encoding.
pub open spec fn byte_pos(s: Seq<char>, i: int) -> int {
    encode_utf8(s.take(i)).len() as int
}

proof fn lemma_byte_pos_split(s: Seq<char>, i: int, j: int)
    requires
        0 <= i <= j <= s.len(),
    ensures
        byte_pos(s, j) == byte_pos(s, i) + encode_utf8(s.subrange(i, j)).len(),
{
    assert(s.take(j) =~= s.take(i) + s.subrange(i, j));
    lemma_encode_utf8_concat(s.take(i), s.subrange(i, j));
}

proof fn lemma_encode_single(c: char)
    ensures
        encode_utf8(seq![c]) == encode_scalar(c as u32),
{
    assert(seq![c].drop_first() =~= Seq::<char>::empty());
    assert(encode_utf8(seq![c]) =~= encode_scalar(c as u32) + encode_utf8(Seq::<char>::empty()));
}

proof fn lemma_whole(s: Seq<char>, a: int, e: int)
    requires
        0 <= a <= e <= s.len(),
    ensures
        s == s.take(a) + s.subrange(a, e) + s.skip(e),
{
    assert(s =~= s.take(a) + s.subrange(a, e) + s.skip(e));
}

proof fn lemma_pieces_step(t: Seq<char>, i: int)
    requires
        0 <= i < t.len(),
    ensures
        ({
            let p = newline_pieces(t.take(i));
            newline_pieces(t.take(i + 1)) == if t[i] == '\n' {
                p.push(Seq::<char>::empty())
            } else {
                p.update(p.len() - 1, p.last().push(t[i]))
            }
        }),
{
    assert(t.take(i + 1).drop_last() =~= t.take(i));
    assert(t.take(i + 1).last() == t[i]);
}

proof fn lemma_pieces_len(t: Seq<char>)
    ensures
        newline_pieces(t).len() >= 1,
    decreases t.len(),
{
    if t.len() > 0 {
        lemma_pieces_len(t.drop_last());
    }
}

/// The line of `s` that spans characters `a..i`, where a newline follows, without the
/// carriage return that may end it.
fn line_before_newline(s: &str, cs: &Vec<char>, a: usize, i: usize, ba: usize, b: usize) -> (r:
    String)
    requires
        cs@ == s@,
        a <= i <= cs@.len(),
        ba == byte_pos(s@, a as int),
        b == byte_pos(s@, i as int),
    ensures
        r@ == without_cr(s@.subrange(a as int, i as int)),
{
    let ghost t = s@;
    let ghost piece = t.subrange(a as int, i as int);
    let line;
    if i > a && cs[i - 1] == '\r' {
        proof {
            lemma_byte_pos_split(t, a as int, i - 1);
            lemma_byte_pos_split(t, i - 1, i as int);
            assert(t.subrange(i - 1, i as int) =~= seq!['\r']);
            lemma_encode_single('\r');
            lemma_whole(t, a as int, i - 1);
            assert(without_cr(piece) =~= t.subrange(a as int, i - 1));
        }
        line = sub_text(
            s,
            ba,
            b - 1,
            Ghost(t.take(a as int)),
            Ghost(t.subrange(a as int, i - 1)),
            Ghost(t.skip(i - 1)),
        );
    } else {
        proof {
            lemma_byte_pos_split(t, a as int, i as int);
            lemma_whole(t, a as int, i as int);
        }
        line = sub_text(
            s,
            ba,
            b,
            Ghost(t.take(a as int)),
            Ghost(t.subrange(a as int, i as int)),
            Ghost(t.skip(i as int)),
        );
    }
    line.to_owned()
}

/// The lines of `s`; see [`text_lines`].
pub fn split_lines(s: &str) -> (r: Vec<String>)
    ensures
        string_views(r@) == text_lines(s@),
{
    let cs = chars_of(s);
    let n = cs.len();
    let ghost t = s@;
    let mut lines: Vec<String> = Vec::new();
    let mut i: usize = 0;
    let mut a: usize = 0;
    let mut b: usize = 0;
    let mut ba: usize = 0;
    let total = s.as_bytes().len();
    assert(t.take(0) =~= Seq::<char>::empty());
    while i < n
        invariant
            cs@ == t,
            t == s@,
            n == t.len(),
            total == encode_utf8(t).len(),
            a <= i <= n,
            b == byte_pos(t, i as int),
            ba == byte_pos(t, a as int),
            newline_pieces(t.take(i as int)).last() == t.subrange(a as int, i as int),
            string_views(lines@) == newline_pieces(t.take(i as int)).drop_last().map_values(
                |l: Seq<char>| without_cr(l),
            ),
        decreases n - i,
    {
        let c = cs[i];
        let w = utf8_len(c);
        let ghost p = newline_pieces(t.take(i as int));
        proof {
            lemma_byte_pos_split(t, i as int, i + 1);
            assert(t.subrange(i as int, i + 1) =~= seq![c]);
            lemma_encode_single(c);
            lemma_byte_pos_split(t, i + 1, n as int);
            assert(t.take(n as int) =~= t);
            lemma_pieces_step(t, i as int);
            lemma_pieces_len(t.take(i as int));
        }
        if c == '\n' {
            let line = line_before_newline(s, &cs, a, i, ba, b);
            let ghost before = lines@;
            lines.push(line);
            proof {
                let q = newline_pieces(t.take(i + 1));
                let f = |l: Seq<char>| without_cr(l);
                assert(q.drop_last() =~= p);
                assert(string_views(lines@) =~= string_views(before).push(line@));
                assert(p.map_values(f) =~= p.drop_last().map_values(f).push(f(p.last())));
                assert(string_views(lines@) =~= q.drop_last().map_values(f));
                assert(t.subrange(i + 1, i + 1) =~= Seq::<char>::empty());
            }
            a = i + 1;
            ba = b + 1;
        } else {
            proof {
                let q = newline_pieces(t.take(i + 1));
                assert(q.drop_last() =~= p.drop_last());
                assert(q.last() =~= t.subrange(a as int, i + 1));
            }
        }
        b = b + w;
        i = i + 1;
    }
    assert(t.take(n as int) =~= t);
    proof {
        lemma_pieces_len(t);
    }
    if a < n {
        proof {
            lemma_byte_pos_split(t, a as int, n as int);
            lemma_whole(t, a as int, n as int);
        }
        let last = sub_text(
            s,
            ba,
            b,
            Ghost(t.take(a as int)),
            Ghost(t.subrange(a as int, n as int)),
            Ghost(t.skip(n as int)),
        );
        lines.push(last.to_owned());
        assert(string_views(lines@) =~= text_lines(t));
    } else {
        assert(string_views(lines@) =~= text_lines(t));
    }
    lines
}

/// The lines put back together with a newline between each two; see [`joined`].
pub fn join_lines(lines: &Vec<String>) -> (r: String)
    ensures
        r@ == joined(string_views(lines@)),
{
    let mut r = String::new();
    let mut i: usize = 0;
    while i < lines.len()
        invariant
            i <= lines@.len(),
            r@ == joined(string_views(lines@).take(i as int)),
        decreases lines@.len() - i,
    {
        let ghost ls = string_views(lines@);
        assert(ls.take(i + 1).drop_last() =~= ls.take(i as int));
        if i > 0 {
            proof {
                reveal_strlit("\n");
            }
            r.append("\n");
            assert("\n"@ =~= seq!['\n']);
        }
        r.append(lines[i].as_str());
        proof {
            if i == 0 {
                assert(r@ =~= ls.take(1)[0]);
            } else {
                assert(r@ =~= joined(ls.take(i as int)) + seq!['\n'] + ls.take(i + 1).last());
            }
        }
        i = i + 1;
    }
    assert(string_views(lines@).take(lines@.len() as int) =~= string_views(lines@));
    r
}

} // verus!
