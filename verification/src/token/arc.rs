use crate::token::gcode::cutter_compensation::opt_value_model;
use crate::text::{finish, lower, lower_byte, parsed_as, result_matches, skip_space, space0_end, ParseResult};
use crate::value::{
    parse_preceded_unsigned_value, parse_preceded_value, sp_preceded_unsigned_value,
    sp_preceded_value, Decimal, DecimalModel, UnsignedValue, UnsignedValueModel, Value, ValueModel,
};
use vstd::prelude::*;
use vstd::string::StringSliceAdditionalSpecFns;

verus! {

/// Center format arc offsets
///
/// The parser does not validate which offset/axis combinations are given, beyond requiring at
/// least one offset.
#[derive(Debug, PartialEq)]
pub struct CenterFormatArc {
    /// Arc end position, X component
    pub x: Option<Value>,
    /// Arc end position, Y component
    pub y: Option<Value>,
    /// Arc end position, Z component
    pub z: Option<Value>,
    /// Arc offset
    pub i: Option<Value>,
    /// Arc offset
    pub j: Option<Value>,
    /// Arc offset
    pub k: Option<Value>,
    /// Number of turns
    ///
    /// Defaults to `1`, a full circle
    pub turns: UnsignedValue,
}

pub struct CenterFormatArcModel {
    pub x: Option<ValueModel>,
    pub y: Option<ValueModel>,
    pub z: Option<ValueModel>,
    pub i: Option<ValueModel>,
    pub j: Option<ValueModel>,
    pub k: Option<ValueModel>,
    pub turns: UnsignedValueModel,
}

impl View for CenterFormatArc {
    type V = CenterFormatArcModel;

    open spec fn view(&self) -> CenterFormatArcModel {
        CenterFormatArcModel {
            x: opt_value_model(self.x),
            y: opt_value_model(self.y),
            z: opt_value_model(self.z),
            i: opt_value_model(self.i),
            j: opt_value_model(self.j),
            k: opt_value_model(self.k),
            turns: self.turns@,
        }
    }
}

/// Radius format arc
///
/// The parser does not validate which axis combinations are given, beyond requiring at
/// least one of them.
#[derive(Debug, PartialEq)]
pub struct RadiusFormatArc {
    /// Arc end position, X component
    pub x: Option<Value>,
    /// Arc end position, Y component
    pub y: Option<Value>,
    /// Arc end position, Z component
    pub z: Option<Value>,
    /// Arc radius
    pub radius: Value,
    /// Number of turns
    ///
    /// Defaults to `1`
    pub turns: Value,
}

pub struct RadiusFormatArcModel {
    pub x: Option<ValueModel>,
    pub y: Option<ValueModel>,
    pub z: Option<ValueModel>,
    pub radius: ValueModel,
    pub turns: ValueModel,
}

impl View for RadiusFormatArc {
    type V = RadiusFormatArcModel;

    open spec fn view(&self) -> RadiusFormatArcModel {
        RadiusFormatArcModel {
            x: opt_value_model(self.x),
            y: opt_value_model(self.y),
            z: opt_value_model(self.z),
            radius: self.radius@,
            turns: self.turns@,
        }
    }
}

impl Default for CenterFormatArc {
    fn default() -> (r: Self)
        ensures
            r.x is None && r.y is None && r.z is None,
            r.i is None && r.j is None && r.k is None,
            r.turns == UnsignedValue::Literal(1),
    {
        CenterFormatArc { x: None, y: None, z: None, i: None, j: None, k: None, turns: UnsignedValue::Literal(1) }
    }
}

/// No word read yet: six empty slots.
pub open spec fn no_arc_words() -> Seq<Option<ValueModel>> {
    Seq::new(6, |k: int| None)
}

/// The slot of a word letter (any case) of a center format arc: `X` 0, `Y` 1, `Z` 2, `I` 3,
/// `J` 4, `K` 5 and `P` 6 (its number of turns). Any other letter gives 7.
pub open spec fn arc_slot(c: u8) -> nat {
    let l = lower(c);
    if l == 0x78 {
        0
    } else if l == 0x79 {
        1
    } else if l == 0x7a {
        2
    } else if l == 0x69 {
        3
    } else if l == 0x6a {
        4
    } else if l == 0x6b {
        5
    } else if l == 0x70 {
        6
    } else {
        7
    }
}

/// The lower-case letters of the slots of a center format arc: `x y z i j k p`.
pub open spec fn arc_slot_letters() -> Seq<u8> {
    seq![0x78u8, 0x79, 0x7a, 0x69, 0x6a, 0x6b, 0x70]
}

/// A letter fills slot `k` of a center format arc exactly when it is the `k`-th slot
/// letter in any case: `X` the first, `P` (the turns) the last.
pub proof fn lemma_arc_slot_letter(c: u8, k: nat)
    ensures
        (k < 7 && arc_slot(c) == k) <==> (k < 7 && lower(c) == arc_slot_letters()[k as int]),
{
}

/// The words of an arc from `pos` on, in any order, given the values `vals` (six slots) and
/// the number of turns `turns` already read. Each word is a letter with a slot (see
/// [`arc_slot`]), optional spaces and a value (an unsigned value for the turns of a center
/// format arc), then optional spaces. Each slot is filled at most once: the words stop
/// before a letter without a slot, a slot already filled, or a word whose value does not
/// read. Gives the slots, the turns and where the words stop.
#[verifier::opaque]
pub open spec fn arc_words(
    s: Seq<u8>,
    pos: int,
    vals: Seq<Option<ValueModel>>,
    turns: Option<UnsignedValueModel>,
) -> (Seq<Option<ValueModel>>, Option<UnsignedValueModel>, int)
    decreases s.len() - pos,
{
    if 0 <= pos < s.len() {
        let k = arc_slot(s[pos]);
        if k == 6 {
            if turns is None {
                match sp_preceded_unsigned_value(s, pos, s[pos]) {
                    Some((v, e)) => {
                        let q = space0_end(s, e);
                        if pos < q <= s.len() {
                            arc_words(s, q, vals, Some(v))
                        } else {
                            (vals, turns, pos)
                        }
                    },
                    None => (vals, turns, pos),
                }
            } else {
                (vals, turns, pos)
            }
        } else if k < 6 && k < vals.len() && vals[k as int] is None {
            match sp_preceded_value(s, pos, s[pos], true) {
                Some((v, e)) => {
                    let q = space0_end(s, e);
                    if pos < q <= s.len() {
                        arc_words(s, q, vals.update(k as int, Some(v)), turns)
                    } else {
                        (vals, turns, pos)
                    }
                },
                None => (vals, turns, pos),
            }
        } else {
            (vals, turns, pos)
        }
    } else {
        (vals, turns, pos)
    }
}

/// A center format arc: the words `X`, `Y`, `Z`, `I`, `J`, `K` (with values) and `P` (with
/// an unsigned value) in any order, each at most once and followed by optional spaces (see
/// [`arc_words`]). At least one of `I`, `J` and `K` is required; the number of turns is the
/// `P` value, `1` when `P` is absent.
pub open spec fn sp_center_format_arc(s: Seq<u8>, p: int) -> Option<(CenterFormatArcModel, int)> {
    let (v, t, e) = arc_words(s, p, no_arc_words(), None);
    if v[3] is None && v[4] is None && v[5] is None {
        None
    } else {
        Some((
            CenterFormatArcModel {
                x: v[0],
                y: v[1],
                z: v[2],
                i: v[3],
                j: v[4],
                k: v[5],
                turns: match t {
                    Some(n) => n,
                    None => UnsignedValueModel::Literal(1),
                },
            },
            e,
        ))
    }
}

/// The number one, as a parsed literal.
pub open spec fn one() -> DecimalModel {
    DecimalModel { negative: false, integer: seq![0x31], fraction: Seq::empty() }
}

/// An optional word `letter` with a value, and the optional spaces after it.
pub open spec fn opt_word(s: Seq<u8>, p: int, letter: u8) -> (Option<ValueModel>, int) {
    match sp_preceded_value(s, p, letter, true) {
        Some((v, e)) => (Some(v), space0_end(s, e)),
        None => (None, p),
    }
}

/// An optional word `letter` with a value, with nothing after it.
pub open spec fn opt_bare_word(s: Seq<u8>, p: int, letter: u8) -> (Option<ValueModel>, int) {
    match sp_preceded_value(s, p, letter, true) {
        Some((v, e)) => (Some(v), e),
        None => (None, p),
    }
}

/// A radius format arc: the optional words `X`, `Y`, `Z` (each followed by optional
/// spaces), then a required `R` radius word (followed by optional spaces) and an optional
/// `P` word. When the `R` word is not there, a `P` word may stand right before it instead.
/// At least one of `X`, `Y` and `Z` is required. The number of turns is the `P` value, `1`
/// when `P` is absent.
pub open spec fn sp_radius_format_arc(s: Seq<u8>, p: int) -> Option<(RadiusFormatArcModel, int)> {
    let (x, p1) = opt_word(s, p, 0x58);
    let (y, p2) = opt_word(s, p1, 0x59);
    let (z, p3) = opt_word(s, p2, 0x5a);
    let found = match sp_preceded_value(s, p3, 0x52, true) {
        Some((r, e)) => Some((r, opt_bare_word(s, space0_end(s, e), 0x50))),
        None => match sp_preceded_value(s, opt_bare_word(s, p3, 0x50).1, 0x52, true) {
            Some((r, e)) => Some((r, (opt_bare_word(s, p3, 0x50).0, space0_end(s, e)))),
            None => None,
        },
    };
    match found {
        Some((radius, (t, end))) => if x is None && y is None && z is None {
            None
        } else {
            Some((
                RadiusFormatArcModel {
                    x,
                    y,
                    z,
                    radius,
                    turns: match t {
                        Some(n) => n,
                        None => ValueModel::Literal(one()),
                    },
                },
                end,
            ))
        },
        None => None,
    }
}

/// The slots of an arc while its words are read.
struct ArcSlots {
    w0: Option<Value>,
    w1: Option<Value>,
    w2: Option<Value>,
    w3: Option<Value>,
    w4: Option<Value>,
    w5: Option<Value>,
    turns: Option<UnsignedValue>,
}

impl ArcSlots {
    closed spec fn vals(&self) -> Seq<Option<ValueModel>> {
        seq![
            opt_value_model(self.w0),
            opt_value_model(self.w1),
            opt_value_model(self.w2),
            opt_value_model(self.w3),
            opt_value_model(self.w4),
            opt_value_model(self.w5),
        ]
    }

    closed spec fn turns_model(&self) -> Option<UnsignedValueModel> {
        match self.turns {
            Some(t) => Some(t@),
            None => None,
        }
    }

    fn empty() -> (r: ArcSlots)
        ensures
            r.vals() == no_arc_words(),
            r.turns_model() is None,
    {
        let r = ArcSlots { w0: None, w1: None, w2: None, w3: None, w4: None, w5: None, turns: None };
        assert(r.vals() =~= no_arc_words());
        r
    }

    fn is_free(&self, k: u8) -> (r: bool)
        requires
            k < 6,
        ensures
            self.vals().len() == 6,
            r == (self.vals()[k as int] is None),
    {
        if k == 0 {
            self.w0.is_none()
        } else if k == 1 {
            self.w1.is_none()
        } else if k == 2 {
            self.w2.is_none()
        } else if k == 3 {
            self.w3.is_none()
        } else if k == 4 {
            self.w4.is_none()
        } else {
            self.w5.is_none()
        }
    }

    fn put(&mut self, k: u8, v: Value)
        requires
            k < 6,
        ensures
            final(self).vals() == old(self).vals().update(k as int, Some(v@)),
            final(self).turns_model() == old(self).turns_model(),
    {
        let ghost before = self.vals();
        if k == 0 {
            self.w0 = Some(v);
        } else if k == 1 {
            self.w1 = Some(v);
        } else if k == 2 {
            self.w2 = Some(v);
        } else if k == 3 {
            self.w3 = Some(v);
        } else if k == 4 {
            self.w4 = Some(v);
        } else {
            self.w5 = Some(v);
        }
        assert(self.vals() =~= before.update(k as int, Some(v@)));
    }

    fn set_turns(&mut self, t: UnsignedValue)
        ensures
            final(self).vals() == old(self).vals(),
            final(self).turns_model() == Some(t@),
    {
        self.turns = Some(t);
    }
}

fn arc_slot_of(c: u8) -> (r: u8)
    ensures
        r == arc_slot(c),
{
    let l = lower_byte(c);
    if l == 0x78 {
        0
    } else if l == 0x79 {
        1
    } else if l == 0x7a {
        2
    } else if l == 0x69 {
        3
    } else if l == 0x6a {
        4
    } else if l == 0x6b {
        5
    } else if l == 0x70 {
        6
    } else {
        7
    }
}

/// Reads the words of an arc at `p` (see [`arc_words`]).
fn read_arc_words(i: &str, p: usize) -> (r: (ArcSlots, usize))
    requires
        p <= i.spec_bytes().len(),
    ensures
        arc_words(i.spec_bytes(), p as int, no_arc_words(), None) == (
            r.0.vals(),
            r.0.turns_model(),
            r.1 as int,
        ),
        p <= r.1 <= i.spec_bytes().len(),
        r.1 > p ==> i.spec_bytes()[r.1 - 1] < 0x80,
        r.1 == p ==> r.0.vals() == no_arc_words() && r.0.turns_model() is None,
{
    reveal_with_fuel(arc_words, 1);
    let s = i.as_bytes();
    let mut w = ArcSlots::empty();
    let mut pos = p;
    loop
        invariant
            s@ == i.spec_bytes(),
            p <= pos <= s.len(),
            pos > p ==> s@[pos - 1] < 0x80,
            pos == p ==> w.vals() == no_arc_words() && w.turns_model() is None,
            w.vals().len() == 6,
            arc_words(s@, p as int, no_arc_words(), None) == arc_words(
                s@,
                pos as int,
                w.vals(),
                w.turns_model(),
            ),
        decreases s.len() - pos,
    {
        reveal_with_fuel(arc_words, 1);
        if pos >= s.len() {
            return (w, pos);
        }
        let c = s[pos];
        let k = arc_slot_of(c);
        if k == 6 {
            if w.turns.is_some() {
                assert(w.turns_model() is Some);
                return (w, pos);
            }
            match parse_preceded_unsigned_value(i, pos, c) {
                Some((v, e)) => {
                    let q = skip_space(s, e);
                    w.set_turns(v);
                    pos = q;
                },
                None => {
                    return (w, pos);
                },
            }
        } else if k < 6 && w.is_free(k) {
            match parse_preceded_value(i, pos, c, true) {
                Some((v, e)) => {
                    let q = skip_space(s, e);
                    w.put(k, v);
                    pos = q;
                },
                None => {
                    return (w, pos);
                },
            }
        } else {
            return (w, pos);
        }
    }
}

pub fn parse_center_format_arc(i: &str, p: usize) -> (r: Option<(CenterFormatArc, usize)>)
    requires
        p <= i.spec_bytes().len(),
    ensures
        parsed_as(r, sp_center_format_arc(i.spec_bytes(), p as int)),
        r matches Some((_, e)) ==> p < e <= i.spec_bytes().len() && i.spec_bytes()[e - 1] < 0x80,
{
    let (w, e) = read_arc_words(i, p);
    let ghost v = w.vals();
    if w.w3.is_none() && w.w4.is_none() && w.w5.is_none() {
        assert(v[3] is None && v[4] is None && v[5] is None);
        return None;
    }
    assert(!(v[3] is None && v[4] is None && v[5] is None));
    let turns = match w.turns {
        Some(n) => n,
        None => UnsignedValue::Literal(1),
    };
    let arc = CenterFormatArc { x: w.w0, y: w.w1, z: w.w2, i: w.w3, j: w.w4, k: w.w5, turns };
    Some((arc, e))
}

fn literal_one() -> (r: Value)
    ensures
        r@ == ValueModel::Literal(one()),
{
    let mut integer: Vec<u8> = Vec::new();
    integer.push(0x31);
    let r = Value::Literal(Decimal { negative: false, integer, fraction: Vec::new() });
    assert(r@ == ValueModel::Literal(one())) by {
        assert(integer@ =~= seq![0x31u8]);
    }
    r
}

fn parse_opt_word(i: &str, p: usize, letter: u8) -> (r: (Option<Value>, usize))
    requires
        p <= i.spec_bytes().len(),
    ensures
        opt_value_model(r.0) == opt_word(i.spec_bytes(), p as int, letter).0,
        r.1 == opt_word(i.spec_bytes(), p as int, letter).1,
        p <= r.1 <= i.spec_bytes().len(),
        r.1 > p ==> i.spec_bytes()[r.1 - 1] < 0x80,
        r.0 is Some ==> r.1 > p,
{
    match parse_preceded_value(i, p, letter, true) {
        Some((v, e)) => (Some(v), skip_space(i.as_bytes(), e)),
        None => (None, p),
    }
}

fn parse_opt_bare_word(i: &str, p: usize, letter: u8) -> (r: (Option<Value>, usize))
    requires
        p <= i.spec_bytes().len(),
    ensures
        opt_value_model(r.0) == opt_bare_word(i.spec_bytes(), p as int, letter).0,
        r.1 == opt_bare_word(i.spec_bytes(), p as int, letter).1,
        p <= r.1 <= i.spec_bytes().len(),
        r.1 > p ==> i.spec_bytes()[r.1 - 1] < 0x80,
{
    match parse_preceded_value(i, p, letter, true) {
        Some((v, e)) => (Some(v), e),
        None => (None, p),
    }
}

pub fn parse_radius_format_arc(i: &str, p: usize) -> (r: Option<(RadiusFormatArc, usize)>)
    requires
        p <= i.spec_bytes().len(),
    ensures
        parsed_as(r, sp_radius_format_arc(i.spec_bytes(), p as int)),
        r matches Some((_, e)) ==> p < e <= i.spec_bytes().len() && i.spec_bytes()[e - 1] < 0x80,
{
    let s = i.as_bytes();
    let (x, p1) = parse_opt_word(i, p, 0x58);
    let (y, p2) = parse_opt_word(i, p1, 0x59);
    let (z, p3) = parse_opt_word(i, p2, 0x5a);
    let found = match parse_preceded_value(i, p3, 0x52, true) {
        Some((r, e)) => {
            let q = skip_space(s, e);
            Some((r, parse_opt_bare_word(i, q, 0x50)))
        },
        None => {
            let (t, q) = parse_opt_bare_word(i, p3, 0x50);
            match parse_preceded_value(i, q, 0x52, true) {
                Some((r, e)) => Some((r, (t, skip_space(s, e)))),
                None => None,
            }
        },
    };
    match found {
        Some((radius, (t, end))) => {
            if x.is_none() && y.is_none() && z.is_none() {
                None
            } else {
                let turns = match t {
                    Some(n) => n,
                    None => literal_one(),
                };
                Some((RadiusFormatArc { x, y, z, radius, turns }, end))
            }
        },
        None => None,
    }
}

/// Parse a center format arc
pub fn center_format_arc(i: &str) -> (r: ParseResult<CenterFormatArc>)
    ensures
        result_matches(i, r, sp_center_format_arc(i.spec_bytes(), 0)),
{
    finish(i, parse_center_format_arc(i, 0))
}

/// Parse a radius format arc
pub fn radius_format_arc(i: &str) -> (r: ParseResult<RadiusFormatArc>)
    ensures
        result_matches(i, r, sp_radius_format_arc(i.spec_bytes(), 0)),
{
    finish(i, parse_radius_format_arc(i, 0))
}

} // verus!
