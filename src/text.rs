//! Character-level helpers shared by the parsers and the word locator.
use vstd::prelude::*;
use vstd::std_specs::iter::IteratorSpec;
use vstd::utf8::*;

verus! {

/// The characters of `s`, in order.
pub fn chars_of(s: &str) -> (r: Vec<char>)
    ensures
        r@ == s@,
{
    let mut r: Vec<char> = Vec::new();
    for c in it: s.chars()
        invariant
            r@ == it.seq().take(it.index() as int),
            it.seq() == s@,
    {
        r.push(c);
    }
    r
}

/// Whether `c` has the Unicode `White_Space` property.
pub open spec fn is_white_space(c: char) -> bool {
    ('\u{9}' <= c && c <= '\u{d}') || c == ' ' || c == '\u{85}' || c == '\u{a0}'
        || c == '\u{1680}' || ('\u{2000}' <= c && c <= '\u{200a}') || c == '\u{2028}'
        || c == '\u{2029}' || c == '\u{202f}' || c == '\u{205f}' || c == '\u{3000}'
}

/// Whether `c` has the Unicode `White_Space` property, as `char::is_whitespace` decides it.
pub fn is_white_space_char(c: char) -> (r: bool)
    ensures
        r == is_white_space(c),
{
    ('\u{9}' <= c && c <= '\u{d}') || c == ' ' || c == '\u{85}' || c == '\u{a0}'
        || c == '\u{1680}' || ('\u{2000}' <= c && c <= '\u{200a}') || c == '\u{2028}'
        || c == '\u{2029}' || c == '\u{202f}' || c == '\u{205f}' || c == '\u{3000}'
}

/// Whether `c` is one of `0` to `9`.
pub open spec fn is_ascii_digit(c: char) -> bool {
    '0' <= c && c <= '9'
}

/// No byte of the UTF-8 encoding of a character other than NUL is zero.
proof fn lemma_encode_scalar_no_nul(c: char)
    requires
        c != '\0',
    ensures
        forall|k: int| 0 <= k < encode_scalar(c as u32).len() ==> #[trigger] encode_scalar(c as u32)[k] != 0u8,
{
    let v = c as u32;
    assert(v != 0);
    assert(1 <= v && v <= 0x7f ==> (v & 0x7f) as u8 != 0) by (bit_vector);
    assert(0xc0u8 | ((v >> 6u32) & 0x1f) as u8 != 0) by (bit_vector);
    assert(0xe0u8 | ((v >> 12u32) & 0x0f) as u8 != 0) by (bit_vector);
    assert(0xf0u8 | ((v >> 18u32) & 0x7) as u8 != 0) by (bit_vector);
    assert(0x80u8 | (v & 0x3f) as u8 != 0) by (bit_vector);
    assert(0x80u8 | ((v >> 6u32) & 0x3f) as u8 != 0) by (bit_vector);
    assert(0x80u8 | ((v >> 12u32) & 0x3f) as u8 != 0) by (bit_vector);
}

/// No byte of the UTF-8 encoding of a text without NUL is zero.
pub proof fn lemma_encode_utf8_no_nul(s: Seq<char>)
    requires
        forall|k: int| 0 <= k < s.len() ==> s[k] != '\0',
    ensures
        forall|k: int| 0 <= k < encode_utf8(s).len() ==> encode_utf8(s)[k] != 0u8,
    decreases s.len(),
{
    if s.len() > 0 {
        lemma_encode_scalar_no_nul(s[0]);
        lemma_encode_utf8_no_nul(s.drop_first());
        let a = encode_scalar(s[0] as u32);
        let b = encode_utf8(s.drop_first());
        assert(encode_utf8(s) == a + b);
        assert forall|k: int| 0 <= k < encode_utf8(s).len() implies encode_utf8(s)[k] != 0u8 by {
            if k < a.len() {
                assert(encode_utf8(s)[k] == a[k]);
            } else {
                assert(encode_utf8(s)[k] == b[k - a.len()]);
            }
        }
    }
}

/// The UTF-8 encoding of two texts put together is the two encodings put together.
pub proof fn lemma_encode_utf8_concat(a: Seq<char>, b: Seq<char>)
    ensures
        encode_utf8(a + b) == encode_utf8(a) + encode_utf8(b),
    decreases a.len(),
{
    if a.len() == 0 {
        assert(a + b =~= b);
        assert(encode_utf8(a) + encode_utf8(b) =~= encode_utf8(b));
    } else {
        assert((a + b).drop_first() =~= a.drop_first() + b);
        lemma_encode_utf8_concat(a.drop_first(), b);
        assert(encode_utf8(a + b) =~= encode_utf8(a) + encode_utf8(b));
    }
}

/// The end of the encoding of a prefix is a character boundary of the encoding of
/// the whole text.
pub proof fn lemma_prefix_is_char_boundary(a: Seq<char>, b: Seq<char>)
    ensures
        is_char_boundary(encode_utf8(a + b), encode_utf8(a).len() as int),
    decreases a.len(),
{
    broadcast use encode_utf8_valid_utf8;

    lemma_encode_utf8_concat(a, b);
    if a.len() > 0 {
        let bytes = encode_utf8(a + b);
        let rest = a.drop_first();
        assert((a + b).drop_first() =~= rest + b);
        assert((a + b)[0] == a[0]);
        encode_utf8_first_scalar(a + b);
        lemma_encode_utf8_concat(rest, b);
        let n = encode_scalar(a[0] as u32).len();
        assert(pop_first_scalar(bytes) =~= encode_utf8(rest + b));
        lemma_prefix_is_char_boundary(rest, b);
        assert(encode_utf8(a).len() == n + encode_utf8(rest).len());
    } else {
        assert(encode_utf8(a).len() == 0);
    }
}

/// The part of `line` between byte offsets `a` and `b`, where these are the ends of
/// the encodings of `x` and of `x + w` and the line is `x + w + y`.
pub fn sub_text<'a>(
    line: &'a str,
    a: usize,
    b: usize,
    Ghost(x): Ghost<Seq<char>>,
    Ghost(w): Ghost<Seq<char>>,
    Ghost(y): Ghost<Seq<char>>,
) -> (r: &'a str)
    requires
        line@ == x + w + y,
        a == encode_utf8(x).len(),
        b == a + encode_utf8(w).len(),
    ensures
        r@ == w,
{
    proof {
        assert(line@ =~= x + (w + y));
        lemma_prefix_is_char_boundary(x, w + y);
        lemma_encode_utf8_concat(x, w + y);
    }
    let (_, rest) = line.split_at(a);
    proof {
        assert(encode_utf8(rest@) =~= encode_utf8(w + y));
        encode_utf8_decode_utf8(rest@);
        encode_utf8_decode_utf8(w + y);
        lemma_prefix_is_char_boundary(w, y);
        lemma_encode_utf8_concat(w, y);
    }
    let (r, _) = rest.split_at(b - a);
    proof {
        assert(encode_utf8(r@) =~= encode_utf8(w));
        encode_utf8_decode_utf8(r@);
        encode_utf8_decode_utf8(w);
    }
    r
}

/// The number of bytes of the UTF-8 encoding of `c`.
pub fn utf8_len(c: char) -> (r: usize)
    ensures
        r == encode_scalar(c as u32).len(),
        1 <= r <= 4,
{
    let v = c as u32;
    if v <= 0x7f {
        1
    } else if v <= 0x7ff {
        2
    } else if v <= 0xffff {
        3
    } else {
        4
    }
}

} // verus!
