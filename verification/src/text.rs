//! Text helpers shared by every parser: UTF-8 boundaries, whitespace and
//! case-insensitive matching on the bytes of a `&str`.
use vstd::prelude::*;
use vstd::utf8::*;
use vstd::string::StringSliceAdditionalSpecFns;

verus! {

broadcast use vstd::seq::group_seq_axioms;

/// The parser failed on its input.
#[derive(Debug, Clone, Copy, PartialEq, Eq)]
pub struct ParseError;

/// The result of running a parser on a `&str`: the unconsumed rest of the input and the
/// parsed value.
pub type ParseResult<'a, T> = Result<(&'a str, T), ParseError>;

/// An index that lies next to an ASCII byte (or at either end of the text).
///
/// Every parser of this crate starts and stops at such an index, which makes it a char
/// boundary of any valid UTF-8 text.
pub open spec fn ascii_edge(s: Seq<u8>, e: int) -> bool {
    ||| e == 0
    ||| e == s.len()
    ||| (0 < e <= s.len() && s[e - 1] < 0x80)
    ||| (0 <= e < s.len() && s[e] < 0x80)
}

/// An index next to an ASCII byte of valid UTF-8 text is a char boundary.
pub proof fn lemma_ascii_edge_is_char_boundary(s: Seq<u8>, e: int)
    requires
        valid_utf8(s),
        0 <= e <= s.len(),
        ascii_edge(s, e),
    ensures
        is_char_boundary(s, e),
    decreases s.len(),
{
    if e != 0 {
        let l = length_of_first_scalar(s);
        assert(valid_first_scalar(s));
        let rest = pop_first_scalar(s);
        if e >= l {
            assert(rest.len() == s.len() - l);
            assert forall|k: int| 0 <= k < rest.len() implies rest[k] == s[k + l] by {}
            lemma_ascii_edge_is_char_boundary(rest, e - l);
        } else {
            assert(false);
        }
    }
}

/// In valid text, a char boundary of the part after the boundary `k` is a char boundary of
/// the whole.
proof fn lemma_boundary_after(s: Seq<u8>, k: int, j: int)
    requires
        valid_utf8(s),
        0 <= k <= s.len(),
        is_char_boundary(s, k),
        0 <= j <= s.len() - k,
        is_char_boundary(s.subrange(k, s.len() as int), j),
    ensures
        is_char_boundary(s, k + j),
    decreases s.len(),
{
    if k == 0 {
        assert(s.subrange(0, s.len() as int) =~= s);
    } else {
        reveal_with_fuel(is_char_boundary, 2);
        let l = length_of_first_scalar(s);
        let r = pop_first_scalar(s);
        assert(valid_first_scalar(s));
        assert(r.len() == s.len() - l);
        assert(k >= l);
        assert(s.subrange(k, s.len() as int) =~= r.subrange(k - l, r.len() as int));
        lemma_boundary_after(r, k - l, j);
    }
}

/// Valid text that starts a valid text ends at one of its char boundaries.
proof fn lemma_prefix_boundary(u: Seq<u8>, t: Seq<u8>)
    requires
        valid_utf8(u),
        valid_utf8(t),
        t.len() <= u.len(),
        forall|i: int| 0 <= i < t.len() ==> u[i] == t[i],
    ensures
        is_char_boundary(u, t.len() as int),
    decreases t.len(),
{
    if t.len() > 0 {
        let l = length_of_first_scalar(t);
        assert(u[0] == t[0]);
        assert(length_of_first_scalar(u) == l);
        let pu = pop_first_scalar(u);
        let pt = pop_first_scalar(t);
        assert forall|i: int| 0 <= i < pt.len() implies pu[i] == pt[i] by {
            assert(pu[i] == u[i + l]);
            assert(pt[i] == t[i + l]);
        }
        lemma_prefix_boundary(pu, pt);
    }
}

/// Where valid text `t` stands in valid text `s` from a char boundary on, it ends at a char
/// boundary.
pub proof fn lemma_tag_end_boundary(s: Seq<u8>, k: int, t: Seq<u8>)
    requires
        valid_utf8(s),
        valid_utf8(t),
        0 <= k <= s.len(),
        is_char_boundary(s, k),
        tag_at(s, k, t),
    ensures
        is_char_boundary(s, k + t.len()),
{
    let u = s.subrange(k, s.len() as int);
    valid_utf8_split(s, k);
    assert forall|i: int| 0 <= i < t.len() implies u[i] == t[i] by {
        assert(s[k + i] == t[i]);
    }
    lemma_prefix_boundary(u, t);
    lemma_boundary_after(s, k, t.len() as int);
}

/// The bytes of a `&str` are valid UTF-8.
pub proof fn lemma_str_valid(s: &str)
    ensures
        valid_utf8(s.spec_bytes()),
        decode_utf8(s.spec_bytes()) == s@,
{
    encode_utf8_valid_utf8(s@);
    encode_utf8_decode_utf8(s@);
}

} // verus!

verus! {

/// A space or a tab.
pub open spec fn is_space(c: u8) -> bool {
    c == 0x20 || c == 0x09
}

/// An ASCII decimal digit.
pub open spec fn is_digit(c: u8) -> bool {
    0x30 <= c <= 0x39
}

/// ASCII lower case; every other byte is left as it is.
pub open spec fn lower(c: u8) -> u8 {
    if 0x41 <= c <= 0x5a {
        (c + 32) as u8
    } else {
        c
    }
}

/// The end of the run of spaces and tabs that starts at `p`.
pub open spec fn space0_end(s: Seq<u8>, p: int) -> int
    decreases s.len() - p,
{
    if 0 <= p < s.len() && is_space(s[p]) {
        space0_end(s, p + 1)
    } else {
        p
    }
}

/// Whitespace in the wider sense: space, tab, carriage return or line feed.
pub open spec fn is_ws(c: u8) -> bool {
    c == 0x20 || c == 0x09 || c == 0x0d || c == 0x0a
}

/// The end of the run of whitespace that starts at `p`.
pub open spec fn ws_end(s: Seq<u8>, p: int) -> int
    decreases s.len() - p,
{
    if 0 <= p < s.len() && is_ws(s[p]) {
        ws_end(s, p + 1)
    } else {
        p
    }
}

pub proof fn lemma_ws_end(s: Seq<u8>, p: int)
    requires
        0 <= p <= s.len(),
    ensures
        p <= ws_end(s, p) <= s.len(),
        ws_end(s, p) > p ==> s[ws_end(s, p) - 1] < 0x80,
        ws_end(s, p) < s.len() ==> !is_ws(s[ws_end(s, p)]),
    decreases s.len() - p,
{
    if p < s.len() && is_ws(s[p]) {
        lemma_ws_end(s, p + 1);
    }
}

pub fn skip_ws(s: &[u8], p: usize) -> (e: usize)
    requires
        p <= s.len(),
    ensures
        e == ws_end(s@, p as int),
        p <= e <= s.len(),
        e > p ==> s@[e - 1] < 0x80,
{
    proof {
        lemma_ws_end(s@, p as int);
    }
    let mut k = p;
    while k < s.len() && (s[k] == 0x20 || s[k] == 0x09 || s[k] == 0x0d || s[k] == 0x0a)
        invariant
            p <= k <= s.len(),
            ws_end(s@, p as int) == ws_end(s@, k as int),
        decreases s.len() - k,
    {
        k = k + 1;
    }
    k
}

/// The end of the run of ASCII digits that starts at `p`.
pub open spec fn digits_end(s: Seq<u8>, p: int) -> int
    decreases s.len() - p,
{
    if 0 <= p < s.len() && is_digit(s[p]) {
        digits_end(s, p + 1)
    } else {
        p
    }
}

/// The first index at or after `p` that holds byte `c`, if any.
pub open spec fn find_byte(s: Seq<u8>, p: int, c: u8) -> Option<int>
    decreases s.len() - p,
{
    if p < 0 || p >= s.len() {
        None
    } else if s[p] == c {
        Some(p)
    } else {
        find_byte(s, p + 1, c)
    }
}

/// Byte `p` is `c`, compared without regard to ASCII case.
pub open spec fn char_no_case_at(s: Seq<u8>, p: int, c: u8) -> bool {
    0 <= p < s.len() && lower(s[p]) == lower(c)
}

/// The bytes at `p` spell `t`, compared without regard to ASCII case.
pub open spec fn tag_no_case_at(s: Seq<u8>, p: int, t: Seq<u8>) -> bool {
    &&& 0 <= p
    &&& p + t.len() <= s.len()
    &&& forall|k: int| 0 <= k < t.len() ==> lower(#[trigger] s[p + k]) == lower(t[k])
}

/// Where the spelling `t` stands at `p`, its first bytes are read there, in any case.
pub(crate) proof fn lemma_tag_bytes(s: Seq<u8>, p: int, t: Seq<u8>)
    ensures
        tag_no_case_at(s, p, t) ==> {
            &&& t.len() > 0 ==> lower(s[p]) == lower(t[0])
            &&& t.len() > 1 ==> lower(s[p + 1]) == lower(t[1])
            &&& t.len() > 2 ==> lower(s[p + 2]) == lower(t[2])
        },
{
    if tag_no_case_at(s, p, t) && t.len() > 0 {
        assert(lower(s[p + 0]) == lower(t[0]));
    }
}

/// A tag ending in an ASCII byte ends in the same byte of the text.
pub broadcast proof fn lemma_tag_no_case_end(s: Seq<u8>, p: int, t: Seq<u8>)
    ensures
        #[trigger] tag_no_case_at(s, p, t) && t.len() > 0 && t[t.len() - 1] < 0x80 ==> (p + t.len()
            <= s.len() && s[p + t.len() - 1] < 0x80),
{
    if tag_no_case_at(s, p, t) && t.len() > 0 && t[t.len() - 1] < 0x80 {
        assert(lower(s[p + (t.len() - 1)]) == lower(t[t.len() - 1]));
    }
}

/// The bytes at `p` are exactly `t`.
pub open spec fn tag_at(s: Seq<u8>, p: int, t: Seq<u8>) -> bool {
    &&& 0 <= p
    &&& p + t.len() <= s.len()
    &&& forall|k: int| 0 <= k < t.len() ==> #[trigger] s[p + k] == t[k]
}

/// The value of a run of ASCII digits, most significant first.
pub open spec fn digits_val(d: Seq<u8>) -> nat
    decreases d.len(),
{
    if d.len() == 0 {
        0
    } else {
        digits_val(d.drop_last()) * 10 + (d.last() - 0x30) as nat
    }
}

pub proof fn lemma_space0_end(s: Seq<u8>, p: int)
    requires
        0 <= p <= s.len(),
    ensures
        p <= space0_end(s, p) <= s.len(),
        forall|k: int| p <= k < space0_end(s, p) ==> is_space(#[trigger] s[k]),
        space0_end(s, p) < s.len() ==> !is_space(s[space0_end(s, p)]),
    decreases s.len() - p,
{
    if p < s.len() && is_space(s[p]) {
        lemma_space0_end(s, p + 1);
    }
}

pub proof fn lemma_digits_end(s: Seq<u8>, p: int)
    requires
        0 <= p <= s.len(),
    ensures
        p <= digits_end(s, p) <= s.len(),
        forall|k: int| p <= k < digits_end(s, p) ==> is_digit(#[trigger] s[k]),
        digits_end(s, p) < s.len() ==> !is_digit(s[digits_end(s, p)]),
    decreases s.len() - p,
{
    if p < s.len() && is_digit(s[p]) {
        lemma_digits_end(s, p + 1);
    }
}

pub proof fn lemma_find_byte(s: Seq<u8>, p: int, c: u8)
    requires
        0 <= p,
    ensures
        find_byte(s, p, c) matches Some(k) ==> p <= k < s.len() && s[k] == c,
        forall|k: int|
            p <= k < s.len() && #[trigger] s[k] == c ==> (find_byte(s, p, c) matches Some(j) && j <= k),
    decreases s.len() - p,
{
    if p < s.len() && s[p] != c {
        lemma_find_byte(s, p + 1, c);
    }
}

/// A longer run of digits is worth at least as much as its prefix.
pub proof fn lemma_digits_val_prefix(d: Seq<u8>, k: int)
    requires
        0 <= k <= d.len(),
        forall|i: int| 0 <= i < d.len() ==> is_digit(#[trigger] d[i]),
    ensures
        digits_val(d.subrange(0, k)) <= digits_val(d),
    decreases d.len() - k,
{
    if k < d.len() {
        lemma_digits_val_prefix(d, k + 1);
        let a = d.subrange(0, k + 1);
        assert(a.drop_last() =~= d.subrange(0, k));
    } else {
        assert(d.subrange(0, k) =~= d);
    }
}

/// The value of `d[a..b]` when it does not reach `cap`, and `cap` when it does.
pub open spec fn capped_digits_val(d: Seq<u8>, cap: nat) -> nat {
    if digits_val(d) < cap {
        digits_val(d)
    } else {
        cap
    }
}

pub fn skip_space(s: &[u8], p: usize) -> (e: usize)
    requires
        p <= s.len(),
    ensures
        e == space0_end(s@, p as int),
        p <= e <= s.len(),
        e > p ==> s@[e - 1] < 0x80,
{
    proof {
        lemma_space0_end(s@, p as int);
    }
    let mut k = p;
    while k < s.len() && (s[k] == 0x20 || s[k] == 0x09)
        invariant
            p <= k <= s.len(),
            space0_end(s@, p as int) == space0_end(s@, k as int),
        decreases s.len() - k,
    {
        k = k + 1;
    }
    k
}

pub fn skip_digits(s: &[u8], p: usize) -> (e: usize)
    requires
        p <= s.len(),
    ensures
        e == digits_end(s@, p as int),
        p <= e <= s.len(),
        e > p ==> s@[e - 1] < 0x80,
{
    proof {
        lemma_digits_end(s@, p as int);
    }
    let mut k = p;
    while k < s.len() && 0x30 <= s[k] && s[k] <= 0x39
        invariant
            p <= k <= s.len(),
            digits_end(s@, p as int) == digits_end(s@, k as int),
        decreases s.len() - k,
    {
        k = k + 1;
    }
    k
}

pub fn find(s: &[u8], p: usize, c: u8) -> (r: Option<usize>)
    requires
        p <= s.len(),
    ensures
        match find_byte(s@, p as int, c) {
            Some(k) => r == Some(k as usize) && k == r.unwrap(),
            None => r is None,
        },
        r matches Some(k) ==> p <= k < s.len() && s@[k as int] == c,
{
    proof {
        lemma_find_byte(s@, p as int, c);
    }
    let mut k = p;
    while k < s.len()
        invariant
            p <= k <= s.len(),
            find_byte(s@, p as int, c) == find_byte(s@, k as int, c),
        decreases s.len() - k,
    {
        if s[k] == c {
            return Some(k);
        }
        k = k + 1;
    }
    None
}

pub fn lower_byte(c: u8) -> (r: u8)
    ensures
        r == lower(c),
{
    if 0x41 <= c && c <= 0x5a {
        c + 32
    } else {
        c
    }
}

pub fn char_no_case(s: &[u8], p: usize, c: u8) -> (r: bool)
    ensures
        r == char_no_case_at(s@, p as int, c),
        r ==> p < s.len(),
{
    p < s.len() && lower_byte(s[p]) == lower_byte(c)
}

pub fn tag_no_case(s: &[u8], p: usize, t: &[u8]) -> (r: bool)
    ensures
        r == tag_no_case_at(s@, p as int, t@),
        r ==> p + t.len() <= s.len(),
        r ==> forall|k: int| 0 <= k < t.len() && t@[k] < 0x80 ==> #[trigger] s@[p + k] < 0x80,
{
    if p > s.len() || t.len() > s.len() - p {
        return false;
    }
    let mut k: usize = 0;
    while k < t.len()
        invariant
            k <= t.len(),
            p + t.len() <= s.len(),
            forall|j: int| 0 <= j < k ==> lower(#[trigger] s@[p + j]) == lower(t@[j]),
            forall|j: int| 0 <= j < k && t@[j] < 0x80 ==> #[trigger] s@[p + j] < 0x80,
        decreases t.len() - k,
    {
        if lower_byte(s[p + k]) != lower_byte(t[k]) {
            assert(lower(s@[p + k as int]) != lower(t@[k as int]));
            return false;
        }
        k = k + 1;
    }
    true
}

/// The length of the line ending (`\n` or `\r\n`) at `e`, if there is one.
pub open spec fn line_ending_at(s: Seq<u8>, e: int) -> Option<int> {
    if 0 <= e < s.len() && s[e] == 0x0a {
        Some(1)
    } else if 0 <= e && e + 1 < s.len() && s[e] == 0x0d && s[e + 1] == 0x0a {
        Some(2)
    } else {
        None
    }
}

pub fn line_ending(s: &[u8], e: usize) -> (r: Option<usize>)
    ensures
        match line_ending_at(s@, e as int) {
            Some(n) => r == Some(n as usize),
            None => r is None,
        },
        r matches Some(n) ==> e + n <= s.len() && s@[e + n - 1] == 0x0a,
{
    if e < s.len() && s[e] == 0x0a {
        Some(1)
    } else if e < s.len() && s.len() - e > 1 && s[e] == 0x0d && s[e + 1] == 0x0a {
        Some(2)
    } else {
        None
    }
}

pub fn tag(s: &[u8], p: usize, t: &[u8]) -> (r: bool)
    ensures
        r == tag_at(s@, p as int, t@),
        r ==> p + t.len() <= s.len(),
{
    if p > s.len() || t.len() > s.len() - p {
        return false;
    }
    let mut k: usize = 0;
    while k < t.len()
        invariant
            k <= t.len(),
            p + t.len() <= s.len(),
            forall|j: int| 0 <= j < k ==> #[trigger] s@[p + j] == t@[j],
        decreases t.len() - k,
    {
        if s[p + k] != t[k] {
            assert(s@[p + k as int] != t@[k as int]);
            return false;
        }
        k = k + 1;
    }
    true
}

/// The decimal digits of `n`, most significant first, without leading zeros.
pub open spec fn decimal_text(n: nat) -> Seq<u8>
    decreases n,
{
    if n < 10 {
        seq![(0x30 + n) as u8]
    } else {
        decimal_text(n / 10).push((0x30 + n % 10) as u8)
    }
}

/// Appends the decimal digits of `n` to `v`.
pub fn push_decimal(v: &mut Vec<u8>, n: u16)
    ensures
        final(v)@ == old(v)@ + decimal_text(n as nat),
    decreases n,
{
    if n >= 10 {
        push_decimal(v, n / 10);
    }
    let ghost mid = v@;
    v.push(0x30 + (n % 10) as u8);
    proof {
        if n >= 10 {
            assert(v@ =~= old(v)@ + decimal_text(n as nat));
        } else {
            assert(v@ =~= old(v)@ + decimal_text(n as nat));
        }
    }
}

/// Value of the digits `s[a..e]`, or `cap` if that value is at least `cap`.
pub fn digits_value(s: &[u8], a: usize, e: usize, cap: u64) -> (r: u64)
    requires
        a <= e <= s.len(),
        forall|i: int| a <= i < e ==> is_digit(#[trigger] s@[i]),
        0 < cap <= 0x1_0000_0000_0000,
    ensures
        r == capped_digits_val(s@.subrange(a as int, e as int), cap as nat),
{
    let ghost d = s@.subrange(a as int, e as int);
    let mut v: u64 = 0;
    let mut k = a;
    assert(d.subrange(0, 0) =~= Seq::<u8>::empty());
    while k < e
        invariant
            a <= k <= e <= s.len(),
            d == s@.subrange(a as int, e as int),
            forall|i: int| a <= i < e ==> is_digit(#[trigger] s@[i]),
            v == digits_val(d.subrange(0, k - a)),
            v < cap,
            0 < cap <= 0x1_0000_0000_0000,
        decreases e - k,
    {
        let ghost pre = d.subrange(0, k - a + 1);
        assert(pre.drop_last() =~= d.subrange(0, k - a));
        assert(pre.last() == s@[k as int]);
        assert(is_digit(s@[k as int]));
        let next = v * 10 + (s[k] - 0x30) as u64;
        if next >= cap {
            proof {
                assert forall|i: int| 0 <= i < d.len() implies is_digit(#[trigger] d[i]) by {
                    assert(d[i] == s@[a + i]);
                }
                lemma_digits_val_prefix(d, k - a + 1);
            }
            return cap;
        }
        v = next;
        k = k + 1;
    }
    assert(d.subrange(0, e - a) =~= d);
    v
}

} // verus!

verus! {

/// `s` and `t` have the same length and the same bytes from `q` on.
pub open spec fn agree_from(s: Seq<u8>, t: Seq<u8>, q: int) -> bool {
    &&& s.len() == t.len()
    &&& forall|k: int| q <= k < s.len() ==> #[trigger] s[k] == t[k]
}

pub proof fn lemma_digits_end_frame(s: Seq<u8>, t: Seq<u8>, q: int, r: int)
    requires
        agree_from(s, t, q),
        q <= r,
    ensures
        digits_end(s, r) == digits_end(t, r),
    decreases s.len() - r,
{
    if 0 <= r < s.len() {
        assert(s[r] == t[r]);
        lemma_digits_end_frame(s, t, q, r + 1);
    }
}

pub proof fn lemma_space0_end_frame(s: Seq<u8>, t: Seq<u8>, q: int, r: int)
    requires
        agree_from(s, t, q),
        q <= r,
    ensures
        space0_end(s, r) == space0_end(t, r),
    decreases s.len() - r,
{
    if 0 <= r < s.len() {
        assert(s[r] == t[r]);
        lemma_space0_end_frame(s, t, q, r + 1);
    }
}

pub proof fn lemma_find_byte_frame(s: Seq<u8>, t: Seq<u8>, q: int, r: int, c: u8)
    requires
        agree_from(s, t, q),
        q <= r,
    ensures
        find_byte(s, r, c) == find_byte(t, r, c),
    decreases s.len() - r,
{
    if 0 <= r < s.len() {
        assert(s[r] == t[r]);
        lemma_find_byte_frame(s, t, q, r + 1, c);
    }
}

/// A tag is read the same at `p` in two texts that agree from `q <= p` on.
pub proof fn lemma_tag_frame(s: Seq<u8>, t: Seq<u8>, q: int, p: int, tg: Seq<u8>)
    requires
        agree_from(s, t, q),
        q <= p,
    ensures
        tag_no_case_at(s, p, tg) == tag_no_case_at(t, p, tg),
{
    if tag_no_case_at(s, p, tg) {
        assert forall|k: int| 0 <= k < tg.len() implies lower(#[trigger] t[p + k]) == lower(tg[k]) by {
            assert(s[p + k] == t[p + k]);
        }
    }
    if tag_no_case_at(t, p, tg) {
        assert forall|k: int| 0 <= k < tg.len() implies lower(#[trigger] s[p + k]) == lower(tg[k]) by {
            assert(s[p + k] == t[p + k]);
        }
    }
}

/// Unicode `White_Space`, the property that `str::trim` strips.
pub open spec fn is_white_space(c: char) -> bool {
    let u = c as u32;
    ||| 0x09 <= u <= 0x0d
    ||| u == 0x20
    ||| u == 0x85
    ||| u == 0xa0
    ||| u == 0x1680
    ||| 0x2000 <= u <= 0x200a
    ||| u == 0x2028
    ||| u == 0x2029
    ||| u == 0x202f
    ||| u == 0x205f
    ||| u == 0x3000
}

/// `cs` without its leading white space.
pub open spec fn trim_start_chars(cs: Seq<char>) -> Seq<char>
    decreases cs.len(),
{
    if cs.len() > 0 && is_white_space(cs[0]) {
        trim_start_chars(cs.drop_first())
    } else {
        cs
    }
}

/// `cs` without its trailing white space.
pub open spec fn trim_end_chars(cs: Seq<char>) -> Seq<char>
    decreases cs.len(),
{
    if cs.len() > 0 && is_white_space(cs.last()) {
        trim_end_chars(cs.drop_last())
    } else {
        cs
    }
}

/// `cs` without white space at either end.
pub open spec fn trim_chars(cs: Seq<char>) -> Seq<char> {
    trim_end_chars(trim_start_chars(cs))
}

proof fn lemma_trim_start_chars(cs: Seq<char>)
    ensures
        trim_start_chars(cs).len() > 0 ==> !is_white_space(trim_start_chars(cs)[0]),
    decreases cs.len(),
{
    if cs.len() > 0 && is_white_space(cs[0]) {
        lemma_trim_start_chars(cs.drop_first());
    }
}

proof fn lemma_trim_end_chars(cs: Seq<char>)
    ensures
        trim_end_chars(cs).len() <= cs.len(),
        forall|i: int| 0 <= i < trim_end_chars(cs).len() ==> #[trigger] trim_end_chars(cs)[i] == cs[i],
        trim_end_chars(cs).len() > 0 ==> !is_white_space(trim_end_chars(cs).last()),
    decreases cs.len(),
{
    if cs.len() > 0 && is_white_space(cs.last()) {
        lemma_trim_end_chars(cs.drop_last());
    }
}

/// Trimmed text starts and ends with a character that is not white space.
pub proof fn lemma_trim_chars_ends(cs: Seq<char>)
    ensures
        trim_chars(cs).len() > 0 ==> !is_white_space(trim_chars(cs)[0]) && !is_white_space(
            trim_chars(cs).last(),
        ),
{
    lemma_trim_start_chars(cs);
    lemma_trim_end_chars(trim_start_chars(cs));
}

fn white_space(c: char) -> (r: bool)
    ensures
        r == is_white_space(c),
{
    let u = c as u32;
    (0x09 <= u && u <= 0x0d) || u == 0x20 || u == 0x85 || u == 0xa0 || u == 0x1680 || (0x2000
        <= u && u <= 0x200a) || u == 0x2028 || u == 0x2029 || u == 0x202f || u == 0x205f || u
        == 0x3000
}

/// `s` without its leading and trailing characters that have the Unicode `White_Space`
/// property, as `str::trim` gives it.
pub fn trim(s: &str) -> (r: &str)
    ensures
        r@ == trim_chars(s@),
{
    let ghost cs = s@;
    let n = s.unicode_len();
    let mut a: usize = 0;
    assert(cs.subrange(0, n as int) =~= cs);
    while a < n && white_space(s.get_char(a))
        invariant
            cs == s@,
            n == cs.len(),
            a <= n,
            trim_start_chars(cs) == trim_start_chars(cs.subrange(a as int, n as int)),
        decreases n - a,
    {
        assert(cs.subrange(a as int, n as int).drop_first() =~= cs.subrange(a + 1, n as int));
        a = a + 1;
    }
    assert(trim_start_chars(cs) == cs.subrange(a as int, n as int));
    let mut b: usize = n;
    while b > a && white_space(s.get_char(b - 1))
        invariant
            cs == s@,
            n == cs.len(),
            a <= b <= n,
            trim_start_chars(cs) == cs.subrange(a as int, n as int),
            trim_chars(cs) == trim_end_chars(cs.subrange(a as int, b as int)),
        decreases b - a,
    {
        assert(cs.subrange(a as int, b as int).drop_last() =~= cs.subrange(a as int, b - 1));
        b = b - 1;
    }
    assert(trim_end_chars(cs.subrange(a as int, b as int)) == cs.subrange(a as int, b as int));
    s.substring_char(a, b)
}

/// `s[a..b]` as a `&str`, for indices next to ASCII bytes.
pub fn substr(s: &str, a: usize, b: usize) -> (r: &str)
    requires
        a <= b <= s.spec_bytes().len(),
        ascii_edge(s.spec_bytes(), a as int),
        ascii_edge(s.spec_bytes(), b as int),
    ensures
        r.spec_bytes() == s.spec_bytes().subrange(a as int, b as int),
        r@ == decode_utf8(s.spec_bytes().subrange(a as int, b as int)),
{
    let ghost sb = s.spec_bytes();
    proof {
        lemma_str_valid(s);
        lemma_ascii_edge_is_char_boundary(sb, a as int);
    }
    let (_, rest) = s.split_at(a);
    let ghost rb = rest.spec_bytes();
    proof {
        lemma_str_valid(rest);
        assert(rb.len() == sb.len() - a);
        assert forall|k: int| 0 <= k < rb.len() implies rb[k] == sb[k + a] by {}
        if b > a && b < sb.len() {
            assert(ascii_edge(rb, b - a));
        }
        lemma_ascii_edge_is_char_boundary(rb, (b - a) as int);
    }
    let (mid, _) = rest.split_at(b - a);
    proof {
        lemma_str_valid(mid);
        assert(mid.spec_bytes() =~= sb.subrange(a as int, b as int));
    }
    mid
}

/// `s[e..]` as a `&str`, for an index next to an ASCII byte.
pub fn rest_from(s: &str, e: usize) -> (r: &str)
    requires
        e <= s.spec_bytes().len(),
        ascii_edge(s.spec_bytes(), e as int),
    ensures
        r.spec_bytes() == s.spec_bytes().subrange(e as int, s.spec_bytes().len() as int),
{
    proof {
        lemma_str_valid(s);
        lemma_ascii_edge_is_char_boundary(s.spec_bytes(), e as int);
    }
    let (_, rest) = s.split_at(e);
    rest
}

/// `s[e..]` as a `&str`, for a char boundary `e`.
pub fn rest_at_boundary(s: &str, e: usize) -> (r: &str)
    requires
        e <= s.spec_bytes().len(),
        is_char_boundary(s.spec_bytes(), e as int),
    ensures
        r.spec_bytes() == s.spec_bytes().subrange(e as int, s.spec_bytes().len() as int),
{
    proof {
        lemma_str_valid(s);
    }
    let (_, rest) = s.split_at(e);
    rest
}

/// What a byte-level parser returned, compared with what its spec function describes.
pub open spec fn parsed_as<T: View>(r: Option<(T, usize)>, m: Option<(T::V, int)>) -> bool {
    match m {
        Some((v, e)) => r matches Some((t, k)) && t@ == v && k == e,
        None => r is None,
    }
}

/// A parser that starts at `p` stops at an index in `p..=s.len()` that is `p` itself or
/// next to an ASCII byte.
pub open spec fn stops_well<T>(s: Seq<u8>, p: int, r: Option<(T, usize)>) -> bool {
    r matches Some((_, e)) ==> p <= e <= s.len() && (e == p || ascii_edge(s, e as int))
}

/// What a parser on a `&str` returned, compared with what its spec function describes:
/// on success, the value and the rest of the input after the consumed bytes.
pub open spec fn result_matches<T: View>(i: &str, r: ParseResult<T>, m: Option<(T::V, int)>) -> bool {
    match m {
        Some((v, e)) => r matches Ok((rest, t)) && t@ == v && rest.spec_bytes() == i.spec_bytes().subrange(
            e,
            i.spec_bytes().len() as int,
        ),
        None => r is Err,
    }
}

/// `rest` is what follows the first `e` bytes of `i`.
pub open spec fn rest_after(i: &str, rest: &str, e: int) -> bool {
    rest.spec_bytes() == i.spec_bytes().subrange(e, i.spec_bytes().len() as int)
}

/// Turns the outcome of a byte-level parser that started at the beginning of `i` into a
/// [`ParseResult`].
pub fn finish<'a, T: View>(i: &'a str, r: Option<(T, usize)>) -> (out: ParseResult<'a, T>)
    requires
        stops_well(i.spec_bytes(), 0, r),
    ensures
        forall|m: Option<(T::V, int)>| parsed_as(r, m) ==> result_matches(i, out, m),
{
    match r {
        Some((t, e)) => Ok((rest_from(i, e), t)),
        None => Err(ParseError),
    }
}

/// Copies `s[a..b]`.
pub fn copy_range(s: &[u8], a: usize, b: usize) -> (r: Vec<u8>)
    requires
        a <= b <= s.len(),
    ensures
        r@ == s@.subrange(a as int, b as int),
{
    let mut v: Vec<u8> = Vec::new();
    let mut k = a;
    while k < b
        invariant
            a <= k <= b <= s.len(),
            v@ == s@.subrange(a as int, k as int),
        decreases b - k,
    {
        v.push(s[k]);
        k = k + 1;
    }
    v
}

} // verus!
