//! Block identifiers like `o100` and `o<name>`
use crate::text::{
    agree_from, char_no_case, char_no_case_at, decimal_text, digits_end, digits_val,
    digits_value, find, find_byte, finish, is_digit, lemma_digits_end, lemma_digits_end_frame,
    lemma_find_byte, lemma_find_byte_frame, lower, parsed_as, push_decimal, result_matches,
    skip_digits, substr, ParseResult,
};
use vstd::prelude::*;
use vstd::string::StringSliceAdditionalSpecFns;
use vstd::utf8::{
    char_is_scalar, decode_utf8, encode_scalar, encode_utf8, encode_utf8_decode_utf8,
    has_width_1_encoding,
};

verus! {

/// The type of identifier
#[derive(Debug, PartialEq, Clone)]
pub enum IdentType {
    /// A number like `o100`
    Numbered(u16),
    /// Named like `o<touchoff>`
    Named(String),
}

pub enum IdentTypeModel {
    Numbered(u16),
    Named(Seq<char>),
}

impl View for IdentType {
    type V = IdentTypeModel;

    open spec fn view(&self) -> IdentTypeModel {
        match self {
            IdentType::Numbered(n) => IdentTypeModel::Numbered(*n),
            IdentType::Named(s) => IdentTypeModel::Named(s@),
        }
    }
}

/// A block identifier like `O100`, `o110` or `o<touchoff>`
#[derive(Debug, PartialEq, Clone)]
pub struct BlockIdent {
    /// The number or name of the block
    pub ident: IdentType,
}

impl View for BlockIdent {
    type V = IdentTypeModel;

    open spec fn view(&self) -> IdentTypeModel {
        self.ident@
    }
}

impl From<u16> for IdentType {
    fn from(num: u16) -> (r: IdentType) {
        IdentType::Numbered(num)
    }
}

impl vstd::std_specs::convert::FromSpecImpl<u16> for IdentType {
    open spec fn obeys_from_spec() -> bool {
        true
    }

    open spec fn from_spec(v: u16) -> IdentType {
        IdentType::Numbered(v)
    }
}

impl From<u16> for BlockIdent {
    fn from(num: u16) -> (r: BlockIdent) {
        BlockIdent { ident: IdentType::Numbered(num) }
    }
}

impl vstd::std_specs::convert::FromSpecImpl<u16> for BlockIdent {
    open spec fn obeys_from_spec() -> bool {
        true
    }

    open spec fn from_spec(v: u16) -> BlockIdent {
        BlockIdent { ident: IdentType::Numbered(v) }
    }
}

impl<'a> From<&'a str> for IdentType {
    fn from(name: &'a str) -> (r: IdentType)
        ensures
            r@ == IdentTypeModel::Named(name@),
    {
        IdentType::Named(name.to_owned())
    }
}

impl<'a> vstd::std_specs::convert::FromSpecImpl<&'a str> for IdentType {
    /// Two `String`s with the same characters are not known to be one value in specs, so
    /// the result is described by its view, in the `ensures` of `from`.
    open spec fn obeys_from_spec() -> bool {
        false
    }

    open spec fn from_spec(v: &'a str) -> IdentType {
        IdentType::Named(choose|n: String| n@ == v@)
    }
}

impl<'a> From<&'a str> for BlockIdent {
    fn from(name: &'a str) -> (r: BlockIdent)
        ensures
            r@ == IdentTypeModel::Named(name@),
    {
        BlockIdent { ident: IdentType::Named(name.to_owned()) }
    }
}

impl<'a> vstd::std_specs::convert::FromSpecImpl<&'a str> for BlockIdent {
    /// As for [`IdentType`], the result is described by its view, in the `ensures` of `from`.
    open spec fn obeys_from_spec() -> bool {
        false
    }

    open spec fn from_spec(v: &'a str) -> BlockIdent {
        BlockIdent { ident: IdentType::Named(choose|n: String| n@ == v@) }
    }
}

/// `O` (any case) then either digits that fit a `u16`, or a name between `<` and the
/// next `>`.
pub open spec fn sp_block_ident(s: Seq<u8>, p: int) -> Option<(IdentTypeModel, int)> {
    if !char_no_case_at(s, p, 0x4f) {
        None
    } else {
        let e = digits_end(s, p + 1);
        if e > p + 1 {
            if digits_val(s.subrange(p + 1, e)) <= u16::MAX {
                Some((IdentTypeModel::Numbered(digits_val(s.subrange(p + 1, e)) as u16), e))
            } else {
                None
            }
        } else if p + 1 < s.len() && s[p + 1] == 0x3c {  // '<'
            match find_byte(s, p + 2, 0x3e) {  // '>'
                Some(b) => Some((IdentTypeModel::Named(decode_utf8(s.subrange(p + 2, b))), b + 1)),
                None => None,
            }
        } else {
            None
        }
    }
}

pub fn parse_block_ident(i: &str, p: usize) -> (r: Option<(BlockIdent, usize)>)
    requires
        p <= i.spec_bytes().len(),
    ensures
        parsed_as(r, sp_block_ident(i.spec_bytes(), p as int)),
        r matches Some((_, e)) ==> p < e <= i.spec_bytes().len() && i.spec_bytes()[e - 1] < 0x80,
{
    let s = i.as_bytes();
    if !char_no_case(s, p, 0x4f) {
        return None;
    }
    let e = skip_digits(s, p + 1);
    proof {
        lemma_digits_end(s@, p + 1);
    }
    if e > p + 1 {
        let v = digits_value(s, p + 1, e, 0x1_0000);
        if v <= 0xffff {
            Some((BlockIdent { ident: IdentType::Numbered(v as u16) }, e))
        } else {
            None
        }
    } else if p + 1 < s.len() && s[p + 1] == 0x3c {
        match find(s, p + 2, 0x3e) {
            Some(b) => {
                let name = substr(i, p + 2, b);
                Some((BlockIdent { ident: IdentType::Named(name.to_owned()) }, b + 1))
            },
            None => None,
        }
    } else {
        None
    }
}

/// Parse a block identifier (`O100`, `o<name>`)
pub fn block_ident(i: &str) -> (r: ParseResult<BlockIdent>)
    ensures
        result_matches(i, r, sp_block_ident(i.spec_bytes(), 0)),
{
    finish(i, parse_block_ident(i, 0))
}

/// The identifier as `to_string` writes it: `O` and the number without leading zeros, or
/// `O<name>`. A block is closed by this text, compared without regard to case.
pub open spec fn ident_text(id: IdentTypeModel) -> Seq<u8> {
    match id {
        IdentTypeModel::Numbered(n) => seq![0x4fu8] + decimal_text(n as nat),
        IdentTypeModel::Named(name) => seq![0x4fu8, 0x3cu8] + encode_utf8(name) + seq![0x3eu8],
    }
}

impl BlockIdent {
    /// The identifier as text (see [`ident_text`]), the tag that closes its block.
    pub fn text(&self) -> (r: Vec<u8>)
        ensures
            r@ == ident_text(self@),
    {
        match &self.ident {
            IdentType::Numbered(n) => {
                let mut v: Vec<u8> = vec![0x4f];
                push_decimal(&mut v, *n);
                v
            },
            IdentType::Named(name) => {
                let mut v: Vec<u8> = vec![0x4f, 0x3c];
                let b = name.as_str().as_bytes();
                let ghost start = v@;
                let mut k: usize = 0;
                while k < b.len()
                    invariant
                        k <= b.len(),
                        v@ == start + b@.subrange(0, k as int),
                    decreases b.len() - k,
                {
                    v.push(b[k]);
                    proof {
                        assert(b@.subrange(0, k + 1) =~= b@.subrange(0, k as int).push(b@[k as int]));
                    }
                    k = k + 1;
                }
                assert(b@.subrange(0, b.len() as int) =~= b@);
                v.push(0x3e);
                v
            },
        }
    }
}

/// The identifier text ends in an ASCII byte (a digit or `>`).
pub proof fn lemma_ident_text_end(id: IdentTypeModel)
    ensures
        ident_text(id).len() > 0,
        ident_text(id).last() < 0x80,
{
    match id {
        IdentTypeModel::Numbered(n) => {
            let d = decimal_text(n as nat);
            assert(d.len() > 0 && d.last() < 0x80);
            assert((seq![0x4fu8] + d).last() == d.last());
        },
        IdentTypeModel::Named(name) => {},
    }
}

/// The digits that [`decimal_text`] writes for `n` are worth `n`.
proof fn lemma_decimal_text(n: nat)
    ensures
        decimal_text(n).len() > 0,
        forall|k: int| 0 <= k < decimal_text(n).len() ==> is_digit(#[trigger] decimal_text(n)[k]),
        digits_val(decimal_text(n)) == n,
    decreases n,
{
    let d = decimal_text(n);
    assert(digits_val(Seq::<u8>::empty()) == 0);
    if n < 10 {
        assert(d.drop_last() =~= Seq::<u8>::empty());
    } else {
        lemma_decimal_text(n / 10);
        assert(d.drop_last() =~= decimal_text(n / 10));
        assert(d.last() == (0x30 + n % 10) as u8);
        assert((n / 10) * 10 + n % 10 == n) by (nonlinear_arith);
    }
}

/// The UTF-8 bytes of a character other than `>` never include the byte of `>`.
proof fn lemma_encode_scalar_no_gt(c: char)
    requires
        c != '>',
    ensures
        forall|k: int| 0 <= k < encode_scalar(c as u32).len() ==> #[trigger] encode_scalar(
            c as u32,
        )[k] != 0x3e,
{
    let v = c as u32;
    char_is_scalar(c);
    if has_width_1_encoding(v) {
        assert(v != 0x3e);
        assert(v <= 0x7f ==> (v & 0x7f) as u8 == v) by (bit_vector);
    } else {
        assert(((0xC0u8 | ((v >> 6) & 0x1F) as u8) >= 0xC0)) by (bit_vector);
        assert(((0xE0u8 | ((v >> 12) & 0x0F) as u8) >= 0xE0)) by (bit_vector);
        assert(((0xF0u8 | ((v >> 18) & 0x7) as u8) >= 0xF0)) by (bit_vector);
        assert(((0x80u8 | (v & 0x3F) as u8) >= 0x80)) by (bit_vector);
        assert(((0x80u8 | ((v >> 6) & 0x3F) as u8) >= 0x80)) by (bit_vector);
        assert(((0x80u8 | ((v >> 12) & 0x3F) as u8) >= 0x80)) by (bit_vector);
    }
}

/// The UTF-8 bytes of a name without `>` never include the byte of `>`.
proof fn lemma_encode_no_gt(name: Seq<char>)
    requires
        forall|i: int| 0 <= i < name.len() ==> name[i] != '>',
    ensures
        forall|k: int| 0 <= k < encode_utf8(name).len() ==> #[trigger] encode_utf8(name)[k] != 0x3e,
    decreases name.len(),
{
    if name.len() > 0 {
        lemma_encode_scalar_no_gt(name[0]);
        lemma_encode_no_gt(name.drop_first());
        let a = encode_scalar(name[0] as u32);
        let b = encode_utf8(name.drop_first());
        assert forall|k: int| 0 <= k < encode_utf8(name).len() implies #[trigger] encode_utf8(
            name,
        )[k] != 0x3e by {
            if k < a.len() {
                assert(encode_utf8(name)[k] == a[k]);
            } else {
                assert(encode_utf8(name)[k] == b[k - a.len()]);
            }
        }
    }
}

/// Reading the text of an identifier gives the identifier back: what [`BlockIdent::text`]
/// writes, [`block_ident`] reads, for a number and for a name that holds no `>`.
pub proof fn lemma_ident_text_round_trip(id: IdentTypeModel)
    requires
        id matches IdentTypeModel::Named(name) ==> forall|i: int| 0 <= i < name.len() ==> name[i] != '>',
    ensures
        sp_block_ident(ident_text(id), 0) == Some((id, ident_text(id).len() as int)),
{
    let s = ident_text(id);
    match id {
        IdentTypeModel::Numbered(n) => {
            let d = decimal_text(n as nat);
            lemma_decimal_text(n as nat);
            lemma_digits_end(s, 1);
            let e = digits_end(s, 1);
            if e < s.len() {
                assert(s[e] == d[e - 1]);
            }
            assert(s.subrange(1, s.len() as int) =~= d);
        },
        IdentTypeModel::Named(name) => {
            let enc = encode_utf8(name);
            lemma_encode_no_gt(name);
            lemma_find_byte(s, 2, 0x3e);
            assert(s[s.len() - 1] == 0x3e);
            let j = find_byte(s, 2, 0x3e)->0;
            if j < s.len() - 1 {
                assert(s[j] == enc[j - 2]);
            }
            assert(s.subrange(2, s.len() - 1) =~= enc);
            encode_utf8_decode_utf8(name);
        },
    }
}

/// A block identifier reads the same whatever the case of its `O`: `o100` is `O100`, and
/// `o<name>` is `O<name>`.
pub proof fn lemma_block_ident_case_insensitive(s: Seq<u8>, p: int, c: u8)
    requires
        0 <= p < s.len(),
        lower(c) == lower(s[p]),
    ensures
        sp_block_ident(s, p) == sp_block_ident(s.update(p, c), p),
{
    let t = s.update(p, c);
    assert(agree_from(s, t, p + 1));
    lemma_digits_end(s, p + 1);
    lemma_digits_end_frame(s, t, p + 1, p + 1);
    let e = digits_end(s, p + 1);
    assert(s.subrange(p + 1, e) =~= t.subrange(p + 1, e));
    if p + 2 <= s.len() {
        lemma_find_byte_frame(s, t, p + 1, p + 2, 0x3e);
        lemma_find_byte(s, p + 2, 0x3e);
        if let Some(b) = find_byte(s, p + 2, 0x3e) {
            assert(s.subrange(p + 2, b) =~= t.subrange(p + 2, b));
        }
    }
}

} // verus!
