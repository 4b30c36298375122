//! Parsing a clicked token into a manual-page reference such as `mount(2)`.
use vstd::prelude::*;
use vstd::string::*;
use vstd::utf8::*;

use crate::text::{chars_of, is_ascii_digit, lemma_encode_utf8_no_nul};

verus! {

/// A character that may never reach the argument list of a child process: the NUL
/// character and the path separator.
pub open spec fn is_forbidden_char(c: char) -> bool {
    c == '\0' || c == '/'
}

/// `p` is the position of the first `(` in `s`.
pub open spec fn is_first_open_paren(s: Seq<char>, p: int) -> bool {
    &&& 0 <= p < s.len()
    &&& s[p] == '('
    &&& forall|k: int| 0 <= k < p ==> s[k] != '('
}

/// The reference that the text `s` denotes, as a pair (name, section), if any.
///
/// A text denotes a reference when it holds neither NUL nor `/`, holds a `(`, and the
/// character right after its first `(` is an ASCII digit. The name is all that precedes
/// that `(`; the section is the digit. Nothing after the digit is looked at, so a
/// closing parenthesis is not required.
pub open spec fn parse_reference(s: Seq<char>) -> Option<(Seq<char>, Seq<char>)> {
    if exists|i: int| 0 <= i < s.len() && is_forbidden_char(s[i]) {
        None
    } else if exists|p: int| is_first_open_paren(s, p) {
        let p = choose|p: int| is_first_open_paren(s, p);
        if p + 1 < s.len() && is_ascii_digit(s[p + 1]) {
            Some((s.take(p), s.subrange(p + 1, p + 2)))
        } else {
            None
        }
    } else {
        None
    }
}

/// A text, as it is handed to a child process: its UTF-8 bytes followed by one NUL byte.
pub open spec fn nul_terminated(s: Seq<char>) -> Seq<u8> {
    encode_utf8(s).push(0u8)
}

/// The error of a token that is no manual-page reference.
#[derive(Debug, Clone, Copy, PartialEq, Eq)]
pub struct StringNotManRefError;

/// A reference to a manual page, borrowed from the text it was parsed from.
pub struct ManPageInfo<'a> {
    name: &'a str,
    section_number: &'a str,
}

impl<'a> View for ManPageInfo<'a> {
    /// The page name and the section, as characters.
    type V = (Seq<char>, Seq<char>);

    closed spec fn view(&self) -> (Seq<char>, Seq<char>) {
        (self.name@, self.section_number@)
    }
}

impl<'a> ManPageInfo<'a> {
    #[verifier::type_invariant]
    closed spec fn inv(self) -> bool {
        &&& self.section_number@.len() == 1
        &&& is_ascii_digit(self.section_number@[0])
        &&& forall|k: int|
            0 <= k < self.name@.len() ==> !is_forbidden_char(#[trigger] self.name@[k])
    }

    /// Parses `value` as a reference; see [`parse_reference`].
    pub fn try_from(value: &'a str) -> (r: Result<ManPageInfo<'a>, StringNotManRefError>)
        ensures
            match r {
                Ok(info) => parse_reference(value@) == Some(info@),
                Err(_) => parse_reference(value@) is None,
            },
    {
        let cs = chars_of(value);
        let n = cs.len();
        let mut i: usize = 0;
        while i < n
            invariant
                cs@ == value@,
                n == cs.len(),
                i <= n,
                forall|k: int| 0 <= k < i ==> !is_forbidden_char(#[trigger] cs@[k]),
            decreases n - i,
        {
            if cs[i] == '\0' || cs[i] == '/' {
                assert(is_forbidden_char(value@[i as int]));
                return Err(StringNotManRefError);
            }
            i = i + 1;
        }
        let mut p: usize = 0;
        while p < n && cs[p] != '('
            invariant
                cs@ == value@,
                n == cs.len(),
                p <= n,
                forall|k: int| 0 <= k < p ==> #[trigger] cs@[k] != '(',
            decreases n - p,
        {
            p = p + 1;
        }
        if p == n {
            assert forall|q: int| !is_first_open_paren(value@, q) by {
                if is_first_open_paren(value@, q) {
                    assert(cs@[q] == '(');
                }
            }
            return Err(StringNotManRefError);
        }
        assert(is_first_open_paren(value@, p as int));
        assert forall|q: int| is_first_open_paren(value@, q) implies q == p by {
            if q < p {
                assert(cs@[q] != '(');
            } else if q > p {
                assert(value@[p as int] == '(');
            }
        }
        if p + 1 < n && '0' <= cs[p + 1] && cs[p + 1] <= '9' {
            let name = value.substring_char(0, p);
            let section_number = value.substring_char(p + 1, p + 2);
            assert(name@ =~= value@.take(p as int));
            Ok(ManPageInfo { name, section_number })
        } else {
            Err(StringNotManRefError)
        }
    }

    /// The page name.
    pub fn name(&self) -> (r: &'a str)
        ensures
            r@ == self@.0,
    {
        self.name
    }

    /// The section, one ASCII digit.
    pub fn section_number(&self) -> (r: &'a str)
        ensures
            r@ == self@.1,
            r@.len() == 1,
            is_ascii_digit(r@[0]),
    {
        proof {
            use_type_invariant(self);
        }
        self.section_number
    }

    /// The section and the name as the two arguments of a child process, each followed by
    /// a NUL byte, and free of any other NUL byte.
    pub fn as_args(&self) -> (r: (Vec<u8>, Vec<u8>))
        ensures
            r.0@ == nul_terminated(self@.1),
            r.1@ == nul_terminated(self@.0),
            forall|k: int| 0 <= k < r.0@.len() - 1 ==> r.0@[k] != 0u8,
            forall|k: int| 0 <= k < r.1@.len() - 1 ==> r.1@[k] != 0u8,
    {
        proof {
            use_type_invariant(self);
            lemma_encode_utf8_no_nul(self.section_number@);
            lemma_encode_utf8_no_nul(self.name@);
        }
        let mut section = self.section_number.as_bytes_vec();
        section.push(0u8);
        let mut name = self.name.as_bytes_vec();
        name.push(0u8);
        (section, name)
    }

    /// The reference as the section, a space and the name, the way the formatter is
    /// asked for a page.
    pub fn to_string(&self) -> (r: String)
        ensures
            r@ == self@.1 + seq![' '] + self@.0,
    {
        let s = String::from_str(self.section_number);
        let s = s.concat(" ");
        proof {
            reveal_strlit(" ");
        }
        s.concat(self.name)
    }
}

/// The arguments of a parsed reference carry it unchanged: each ends in one NUL byte,
/// holds no other, and what precedes that byte decodes back to the section and to the
/// name.
pub proof fn lemma_args_round_trip(s: Seq<char>)
    requires
        parse_reference(s) is Some,
    ensures
        ({
            let (name, section) = parse_reference(s)->0;
            &&& nul_terminated(section).last() == 0u8
            &&& nul_terminated(name).last() == 0u8
            &&& decode_utf8(nul_terminated(section).drop_last()) == section
            &&& decode_utf8(nul_terminated(name).drop_last()) == name
            &&& forall|k: int|
                0 <= k < nul_terminated(section).len() - 1 ==> nul_terminated(section)[k] != 0u8
            &&& forall|k: int|
                0 <= k < nul_terminated(name).len() - 1 ==> nul_terminated(name)[k] != 0u8
        }),
{
    let (name, section) = parse_reference(s)->0;
    let p = choose|p: int| is_first_open_paren(s, p);
    assert(name == s.take(p));
    assert(section == s.subrange(p + 1, p + 2));
    assert(forall|k: int| 0 <= k < name.len() ==> name[k] == s[k]);
    assert(forall|k: int| 0 <= k < section.len() ==> section[k] == s[p + 1 + k]);
    assert(nul_terminated(section).drop_last() =~= encode_utf8(section));
    assert(nul_terminated(name).drop_last() =~= encode_utf8(name));
    encode_utf8_decode_utf8(section);
    encode_utf8_decode_utf8(name);
    lemma_encode_utf8_no_nul(section);
    lemma_encode_utf8_no_nul(name);
}

} // verus!
