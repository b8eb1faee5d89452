//! Parse coordinates into a vector
use crate::token::gcode::cutter_compensation::opt_value_model;
use crate::text::{
    finish, lower, lower_byte, parsed_as, result_matches, skip_space, space0_end, ParseResult,
};
use crate::value::{parse_value, sp_value, Value, ValueModel};
use vstd::prelude::*;
use vstd::string::StringSliceAdditionalSpecFns;

verus! {

/// A 9 dimensional `XYZABCUVW` coordinate
///
/// Any or all of the components of this coordinate can be `None`, however the parser requires at
/// least _one_ populated field to parse successfully.
#[derive(Debug, PartialEq)]
pub struct Coord {
    /// The optional X component of the coord
    pub x: Option<Value>,
    /// The optional Y component of the coord
    pub y: Option<Value>,
    /// The optional Z component of the coord
    pub z: Option<Value>,
    /// The optional A component of the coord
    pub a: Option<Value>,
    /// The optional B component of the coord
    pub b: Option<Value>,
    /// The optional C component of the coord
    pub c: Option<Value>,
    /// The optional U component of the coord
    pub u: Option<Value>,
    /// The optional V component of the coord
    pub v: Option<Value>,
    /// The optional W component of the coord
    pub w: Option<Value>,
}

impl View for Coord {
    /// The components in the order `x y z a b c u v w`
    type V = Seq<Option<ValueModel>>;

    open spec fn view(&self) -> Seq<Option<ValueModel>> {
        seq![
            opt_value_model(self.x),
            opt_value_model(self.y),
            opt_value_model(self.z),
            opt_value_model(self.a),
            opt_value_model(self.b),
            opt_value_model(self.c),
            opt_value_model(self.u),
            opt_value_model(self.v),
            opt_value_model(self.w),
        ]
    }
}

/// A coordinate with no component.
pub open spec fn no_axes() -> Seq<Option<ValueModel>> {
    Seq::new(9, |k: int| None)
}

impl Default for Coord {
    fn default() -> (r: Self)
        ensures
            r@ == no_axes(),
    {
        let r = Coord { x: None, y: None, z: None, a: None, b: None, c: None, u: None, v: None, w: None };
        assert(r@ =~= no_axes());
        r
    }
}

/// The position of an axis letter (lower case) in `x y z a b c u v w`.
pub open spec fn axis_index(l: u8) -> Option<int> {
    if l == 0x78 {
        Some(0)
    } else if l == 0x79 {
        Some(1)
    } else if l == 0x7a {
        Some(2)
    } else if l == 0x61 {
        Some(3)
    } else if l == 0x62 {
        Some(4)
    } else if l == 0x63 {
        Some(5)
    } else if l == 0x75 {
        Some(6)
    } else if l == 0x76 {
        Some(7)
    } else if l == 0x77 {
        Some(8)
    } else {
        None
    }
}

/// The lower-case letters of the axes, in the order of a coordinate's components:
/// `x y z a b c u v w`.
pub open spec fn axis_letter_order() -> Seq<u8> {
    seq![0x78u8, 0x79, 0x7a, 0x61, 0x62, 0x63, 0x75, 0x76, 0x77]
}

/// A letter names component `k` of a coordinate exactly when it is the `k`-th axis
/// letter: `x` the first, `w` the last.
pub proof fn lemma_axis_index_letter(l: u8, k: int)
    ensures
        axis_index(l) == Some(k) <==> (0 <= k < 9 && axis_letter_order()[k] == l),
{
}

/// One step of a coordinate at `pos`: optional spaces, any character, optional spaces and
/// a value. Gives the character in lower case, the value and where the value ends.
pub open spec fn coord_step(s: Seq<u8>, pos: int) -> Option<(u8, ValueModel, int)> {
    let q = space0_end(s, pos);
    if 0 <= q < s.len() {
        match sp_value(s, space0_end(s, q + 1), true) {
            Some((v, e)) => Some((lower(s[q]), v, e)),
            None => None,
        }
    } else {
        None
    }
}

/// The components read from `pos` on, given the components `c` already read: each step
/// that names an axis not yet set sets it; the first step that fails, names another letter
/// or repeats an axis ends the coordinate before that step.
pub open spec fn coord_loop(s: Seq<u8>, pos: int, c: Seq<Option<ValueModel>>) -> (
    Seq<Option<ValueModel>>,
    int,
)
    decreases s.len() - pos,
{
    match coord_step(s, pos) {
        Some((l, v, e)) => match axis_index(l) {
            Some(k) => if c[k] is None && pos < e <= s.len() {
                coord_loop(s, e, c.update(k, Some(v)))
            } else {
                (c, pos)
            },
            None => (c, pos),
        },
        None => (c, pos),
    }
}

/// A coordinate at `p`: at least one component (see [`coord_loop`]).
pub open spec fn sp_coord(s: Seq<u8>, p: int) -> Option<(Seq<Option<ValueModel>>, int)> {
    let (c, e) = coord_loop(s, p, no_axes());
    if c == no_axes() {
        None
    } else {
        Some((c, e))
    }
}

/// Sets the component named by lower-case letter `l` to `v` if it is unset; tells whether it did.
fn set_axis(c: &mut Coord, l: u8, v: Value) -> (set: bool)
    ensures
        set == (axis_index(l) matches Some(k) && old(c)@[k] is None),
        set ==> final(c)@ == old(c)@.update(axis_index(l)->0, Some(v@)),
        !set ==> final(c)@ == old(c)@,
{
    let ghost c0 = c@;
    if l == 0x78 && c.x.is_none() {
        c.x = Some(v);
    } else if l == 0x79 && c.y.is_none() {
        c.y = Some(v);
    } else if l == 0x7a && c.z.is_none() {
        c.z = Some(v);
    } else if l == 0x61 && c.a.is_none() {
        c.a = Some(v);
    } else if l == 0x62 && c.b.is_none() {
        c.b = Some(v);
    } else if l == 0x63 && c.c.is_none() {
        c.c = Some(v);
    } else if l == 0x75 && c.u.is_none() {
        c.u = Some(v);
    } else if l == 0x76 && c.v.is_none() {
        c.v = Some(v);
    } else if l == 0x77 && c.w.is_none() {
        c.w = Some(v);
    } else {
        return false;
    }
    assert(c@ =~= c0.update(axis_index(l)->0, Some(v@)));
    true
}

pub fn parse_coord(i: &str, p: usize) -> (r: Option<(Coord, usize)>)
    requires
        p <= i.spec_bytes().len(),
    ensures
        parsed_as(r, sp_coord(i.spec_bytes(), p as int)),
        r matches Some((_, e)) ==> p < e <= i.spec_bytes().len() && i.spec_bytes()[e - 1] < 0x80,
{
    let s = i.as_bytes();
    let mut c = Coord::default();
    let mut pos = p;
    loop
        invariant
            p <= pos <= s.len(),
            s@ == i.spec_bytes(),
            coord_loop(s@, p as int, no_axes()) == coord_loop(s@, pos as int, c@),
            pos == p <==> c@ == no_axes(),
            pos > p ==> s@[pos - 1] < 0x80,
        ensures
            p <= pos <= s.len(),
            coord_loop(s@, p as int, no_axes()) == (c@, pos as int),
            pos == p <==> c@ == no_axes(),
            pos > p ==> s@[pos - 1] < 0x80,
        decreases s.len() - pos,
    {
        let q = skip_space(s, pos);
        if q >= s.len() {
            break;
        }
        let r = skip_space(s, q + 1);
        match parse_value(i, r, true) {
            Some((v, e)) => {
                let l = lower_byte(s[q]);
                let ghost before = c@;
                if set_axis(&mut c, l, v) {
                    proof {
                        let k = axis_index(l)->0;
                        assert(c@[k] is Some);
                        assert(c@ != no_axes());
                    }
                    pos = e;
                } else {
                    break;
                }
            },
            None => {
                break;
            },
        }
    }
    if pos == p {
        None
    } else {
        Some((c, pos))
    }
}

/// Parse a coordinate
pub fn coord(i: &str) -> (r: ParseResult<Coord>)
    ensures
        result_matches(i, r, sp_coord(i.spec_bytes(), 0)),
{
    finish(i, parse_coord(i, 0))
}

proof fn lemma_coord_loop_len(s: Seq<u8>, pos: int, c: Seq<Option<ValueModel>>)
    requires
        c.len() == 9,
    ensures
        coord_loop(s, pos, c).0.len() == 9,
    decreases s.len() - pos,
{
    if let Some((l, v, e)) = coord_step(s, pos) {
        if let Some(k) = axis_index(l) {
            if c[k] is None && pos < e <= s.len() {
                lemma_coord_loop_len(s, e, c.update(k, Some(v)));
            }
        }
    }
}

/// A parsed coordinate has at least one of its nine components.
pub proof fn lemma_coord_has_component(s: Seq<u8>, p: int)
    ensures
        sp_coord(s, p) matches Some((c, _)) ==> c.len() == 9 && exists|k: int|
            0 <= k < 9 && (#[trigger] c[k]) is Some,
{
    lemma_coord_loop_len(s, p, no_axes());
    if let Some((c, _)) = sp_coord(s, p) {
        if forall|k: int| 0 <= k < 9 ==> (#[trigger] c[k]) is None {
            assert(c =~= no_axes());
        }
    }
}

/// A word at `q` (see [`coord_step`]) names axis `k` and writes the value `v`.
pub open spec fn axis_word(s: Seq<u8>, q: int, k: int, v: ValueModel) -> bool {
    coord_step(s, q) matches Some((l, w, _)) && axis_index(l) == Some(k) && w == v
}

proof fn lemma_coord_loop_keeps(s: Seq<u8>, pos: int, c: Seq<Option<ValueModel>>)
    requires
        c.len() == 9,
    ensures
        pos <= coord_loop(s, pos, c).1,
        forall|k: int| 0 <= k < 9 && (#[trigger] c[k]) is Some ==> coord_loop(s, pos, c).0[k] == c[k],
    decreases s.len() - pos,
{
    if let Some((l, v, e)) = coord_step(s, pos) {
        if let Some(k0) = axis_index(l) {
            if c[k0] is None && pos < e <= s.len() {
                let c1 = c.update(k0, Some(v));
                lemma_coord_loop_keeps(s, e, c1);
                assert(coord_loop(s, pos, c) == coord_loop(s, e, c1));
                assert forall|k: int| 0 <= k < 9 && (#[trigger] c[k]) is Some implies coord_loop(
                    s,
                    pos,
                    c,
                ).0[k] == c[k] by {
                    assert(c1[k] == c[k]);
                }
            }
        }
    }
}

proof fn lemma_coord_loop_words(s: Seq<u8>, pos: int, c: Seq<Option<ValueModel>>)
    requires
        c.len() == 9,
    ensures
        forall|k: int|
            0 <= k < 9 && (#[trigger] coord_loop(s, pos, c).0[k]) is Some ==> coord_loop(s, pos, c).0[k]
                == c[k] || exists|q: int|
                pos <= q < coord_loop(s, pos, c).1 && #[trigger] axis_word(
                    s,
                    q,
                    k,
                    coord_loop(s, pos, c).0[k]->0,
                ),
    decreases s.len() - pos,
{
    if let Some((l, v, e)) = coord_step(s, pos) {
        if let Some(k0) = axis_index(l) {
            if c[k0] is None && pos < e <= s.len() {
                let c1 = c.update(k0, Some(v));
                lemma_coord_loop_words(s, e, c1);
                lemma_coord_loop_keeps(s, e, c1);
                let (c2, e2) = coord_loop(s, e, c1);
                assert(coord_loop(s, pos, c) == (c2, e2));
                assert forall|k: int|
                    0 <= k < 9 && (#[trigger] c2[k]) is Some implies c2[k] == c[k] || exists|q: int|
                        pos <= q < e2 && #[trigger] axis_word(s, q, k, c2[k]->0) by {
                    if c2[k] != c1[k] {
                        let q = choose|q: int| e <= q < e2 && #[trigger] axis_word(s, q, k, c2[k]->0);
                        assert(pos <= q < e2 && axis_word(s, q, k, c2[k]->0));
                    } else if k == k0 {
                        assert(axis_word(s, pos, k, c2[k]->0));
                    }
                }
            }
        }
    }
}

/// Every component of a coordinate is written in its text, as a word naming that axis: the
/// words may come in any order, and each axis is read at most once.
pub proof fn lemma_coord_components_from_words(s: Seq<u8>, p: int)
    ensures
        sp_coord(s, p) matches Some((c, e)) ==> forall|k: int|
            0 <= k < 9 && (#[trigger] c[k]) is Some ==> exists|q: int|
                p <= q < e && #[trigger] axis_word(s, q, k, c[k]->0),
{
    lemma_coord_loop_words(s, p, no_axes());
}

/// The first word of a coordinate sets the axis it names, whichever axis that is: `Y1 X2`
/// has Y 1 and X 2, as `X2 Y1` does.
pub proof fn lemma_coord_first_word(s: Seq<u8>, p: int)
    ensures
        coord_step(s, p) matches Some((l, v, e)) ==> (axis_index(l) matches Some(k) ==> (p < e
            <= s.len() ==> (sp_coord(s, p) matches Some((c, _)) && c[k] == Some(v)))),
{
    if let Some((l, v, e)) = coord_step(s, p) {
        if let Some(k) = axis_index(l) {
            if p < e <= s.len() {
                assert(0 <= k < 9);
                let c1 = no_axes().update(k, Some(v));
                lemma_coord_loop_keeps(s, e, c1);
                lemma_coord_loop_len(s, e, c1);
                assert(coord_loop(s, p, no_axes()) == coord_loop(s, e, c1));
                let c2 = coord_loop(s, e, c1).0;
                assert(c1[k] == Some(v));
                assert(c2[k] == Some(v));
                assert(c2 != no_axes()) by {
                    assert(c2[k] != no_axes()[k]);
                }
            }
        }
    }
}

} // verus!
