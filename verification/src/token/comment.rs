use crate::text::{
    ascii_edge, find, find_byte, finish, is_white_space, lemma_trim_chars_ends, parsed_as,
    result_matches, skip_space, space0_end, substr, trim, trim_chars, ParseResult,
};
use vstd::prelude::*;
use vstd::string::StringSliceAdditionalSpecFns;
use vstd::utf8::decode_utf8;

verus! {

/// A comment
///
/// Whitespace is trimmed from either end of the comment during parse.
#[derive(Debug, PartialEq, Clone)]
pub struct Comment {
    /// The comment text
    pub text: String,
}

impl View for Comment {
    type V = Seq<char>;

    open spec fn view(&self) -> Seq<char> {
        self.text@
    }
}

/// Optional spaces, then either `(` text `)` or `;` text up to (not including) the next
/// `\n`. The comment is the text without white space at either end.
pub open spec fn sp_comment(s: Seq<u8>, p: int) -> Option<(Seq<char>, int)> {
    let q = space0_end(s, p);
    if 0 <= q < s.len() && s[q] == 0x28 {  // '('
        match find_byte(s, q + 1, 0x29) {  // ')'
            Some(b) => Some((trim_chars(decode_utf8(s.subrange(q + 1, b))), b + 1)),
            None => None,
        }
    } else if 0 <= q < s.len() && s[q] == 0x3b {  // ';'
        match find_byte(s, q + 1, 0x0a) {  // '\n'
            Some(b) => Some((trim_chars(decode_utf8(s.subrange(q + 1, b))), b)),
            None => None,
        }
    } else {
        None
    }
}

pub fn parse_comment(i: &str, p: usize) -> (r: Option<(Comment, usize)>)
    requires
        p <= i.spec_bytes().len(),
    ensures
        parsed_as(r, sp_comment(i.spec_bytes(), p as int)),
        r matches Some((_, e)) ==> p < e <= i.spec_bytes().len() && ascii_edge(i.spec_bytes(), e as int),
{
    let s = i.as_bytes();
    let q = skip_space(s, p);
    if q < s.len() && s[q] == 0x28 {
        match find(s, q + 1, 0x29) {
            Some(b) => {
                let body = substr(i, q + 1, b);
                Some((Comment { text: trim(body).to_owned() }, b + 1))
            },
            None => None,
        }
    } else if q < s.len() && s[q] == 0x3b {
        match find(s, q + 1, 0x0a) {
            Some(b) => {
                let body = substr(i, q + 1, b);
                Some((Comment { text: trim(body).to_owned() }, b))
            },
            None => None,
        }
    } else {
        None
    }
}

/// An optional comment at `p`: the comment and where it ends, or nothing and `p`.
pub open spec fn sp_opt_comment(s: Seq<u8>, p: int) -> (Option<Seq<char>>, int) {
    match sp_comment(s, p) {
        Some((c, e)) => (Some(c), e),
        None => (None, p),
    }
}

/// The text of an optional comment.
pub open spec fn opt_comment_model(c: Option<Comment>) -> Option<Seq<char>> {
    match c {
        Some(c) => Some(c@),
        None => None,
    }
}

pub fn parse_opt_comment(i: &str, p: usize) -> (r: (Option<Comment>, usize))
    requires
        p <= i.spec_bytes().len(),
    ensures
        opt_comment_model(r.0) == sp_opt_comment(i.spec_bytes(), p as int).0,
        r.1 == sp_opt_comment(i.spec_bytes(), p as int).1,
        p <= r.1 <= i.spec_bytes().len(),
        r.1 > p ==> ascii_edge(i.spec_bytes(), r.1 as int),
{
    match parse_comment(i, p) {
        Some((c, e)) => (Some(c), e),
        None => (None, p),
    }
}

/// Parse a comment in parentheses or after a `;`
pub fn comment(i: &str) -> (r: ParseResult<Comment>)
    ensures
        result_matches(i, r, sp_comment(i.spec_bytes(), 0)),
{
    finish(i, parse_comment(i, 0))
}

/// Whitespace is trimmed from either end of the comment during parse: the text of a
/// parsed comment is empty or starts and ends with a character that is not white space.
pub proof fn lemma_comment_trimmed(s: Seq<u8>, p: int)
    ensures
        sp_comment(s, p) matches Some((c, _)) ==> c.len() == 0 || (!is_white_space(c[0])
            && !is_white_space(c.last())),
{
    let q = space0_end(s, p);
    if 0 <= q < s.len() && s[q] == 0x28 {
        if let Some(b) = find_byte(s, q + 1, 0x29) {
            lemma_trim_chars_ends(decode_utf8(s.subrange(q + 1, b)));
        }
    } else if 0 <= q < s.len() && s[q] == 0x3b {
        if let Some(b) = find_byte(s, q + 1, 0x0a) {
            lemma_trim_chars_ends(decode_utf8(s.subrange(q + 1, b)));
        }
    }
}

/// A comment is, after optional spaces, `(`, a text without `)`, and `)`; or `;` and a text
/// without a line feed, which is left after the comment. Its text is that text without
/// white space at either end.
pub proof fn lemma_comment_forms(s: Seq<u8>, p: int)
    ensures
        sp_comment(s, p) matches Some((c, e)) ==> {
            let q = space0_end(s, p);
            let paren = s[q] == 0x28;
            let b = if paren {
                e - 1
            } else {
                e
            };
            let stop: u8 = if paren {
                0x29
            } else {
                0x0a
            };
            &&& 0 <= q < b < s.len()
            &&& paren || s[q] == 0x3b
            &&& s[b] == stop
            &&& forall|k: int| q < k < b ==> s[k] != stop
            &&& c == trim_chars(decode_utf8(s.subrange(q + 1, b)))
        },
{
    let q = space0_end(s, p);
    if 0 <= q < s.len() {
        crate::text::lemma_find_byte(s, q + 1, 0x29);
        crate::text::lemma_find_byte(s, q + 1, 0x0a);
    }
}

} // verus!
