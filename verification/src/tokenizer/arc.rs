//! Center format and radius format arcs, read as a run of lettered words.
use super::helpers::{parse_one_of_value, sp_one_of_value};
use crate::text::{finish, parsed_as, result_matches, skip_ws, ws_end, ParseResult};
use crate::token::gcode::cutter_compensation::opt_value_model;
use crate::tokenizer::gcodes::opt_unsigned_model;
use crate::value::{
    parse_preceded_unsigned_value, sp_preceded_unsigned_value, UnsignedValue, UnsignedValueModel,
    Value, ValueModel,
};
use vstd::prelude::*;
use vstd::string::StringSliceAdditionalSpecFns;

verus! {

/// A center format arc: end point, center offsets and number of turns
#[derive(Debug, PartialEq)]
pub struct CenterArc {
    /// End point, X component
    pub x: Option<Value>,
    /// End point, Y component
    pub y: Option<Value>,
    /// End point, Z component
    pub z: Option<Value>,
    /// Center offset along X
    pub i: Option<Value>,
    /// Center offset along Y
    pub j: Option<Value>,
    /// Center offset along Z
    pub k: Option<Value>,
    /// Number of turns
    pub p: Option<UnsignedValue>,
}

/// The words of a center format arc: `x y z i j k` in this order, and the turns.
pub struct CenterArcModel {
    pub words: Seq<Option<ValueModel>>,
    pub p: Option<UnsignedValueModel>,
}

impl View for CenterArc {
    type V = CenterArcModel;

    open spec fn view(&self) -> CenterArcModel {
        CenterArcModel {
            words: seq![
                opt_value_model(self.x),
                opt_value_model(self.y),
                opt_value_model(self.z),
                opt_value_model(self.i),
                opt_value_model(self.j),
                opt_value_model(self.k),
            ],
            p: opt_unsigned_model(self.p),
        }
    }
}

impl Default for CenterArc {
    fn default() -> (r: CenterArc)
        ensures
            r@.words == Seq::new(6, |n: int| None::<ValueModel>),
            r@.p is None,
    {
        let r = CenterArc { x: None, y: None, z: None, i: None, j: None, k: None, p: None };
        assert(r@.words =~= Seq::new(6, |n: int| None::<ValueModel>));
        r
    }
}

/// A radius format arc: end point, radius and number of turns
#[derive(Debug, PartialEq)]
pub struct RadiusArc {
    /// End point, X component
    pub x: Option<Value>,
    /// End point, Y component
    pub y: Option<Value>,
    /// End point, Z component
    pub z: Option<Value>,
    /// Number of turns
    pub p: Option<Value>,
    /// Radius
    pub r: Option<Value>,
}

impl View for RadiusArc {
    /// The words `x y z r p` in this order
    type V = Seq<Option<ValueModel>>;

    open spec fn view(&self) -> Seq<Option<ValueModel>> {
        seq![
            opt_value_model(self.x),
            opt_value_model(self.y),
            opt_value_model(self.z),
            opt_value_model(self.r),
            opt_value_model(self.p),
        ]
    }
}

impl Default for RadiusArc {
    fn default() -> (r: RadiusArc)
        ensures
            r@ == Seq::new(5, |n: int| None::<ValueModel>),
    {
        let r = RadiusArc { x: None, y: None, z: None, p: None, r: None };
        assert(r@ =~= Seq::new(5, |n: int| None::<ValueModel>));
        r
    }
}

/// The slot of a word letter (upper case) among `X Y Z I J K R P`.
pub open spec fn slot(l: u8) -> int {
    if l == 0x58 {
        0
    } else if l == 0x59 {
        1
    } else if l == 0x5a {
        2
    } else if l == 0x49 {
        3
    } else if l == 0x4a {
        4
    } else if l == 0x4b {
        5
    } else if l == 0x52 {
        6
    } else {
        7
    }
}

/// Eight empty slots.
pub open spec fn no_words() -> Seq<Option<ValueModel>> {
    Seq::new(8, |n: int| None)
}

/// Up to `left` words from `pos` on, each whitespace, a letter of `set` (any case),
/// optional spaces and a value that may carry a sign. Each word sets its slot in `words`
/// (a later word with the same letter wins); gives the slots, the number of words read in
/// all (`n` of them before `pos`) and where the last one ends.
#[verifier::opaque]
pub open spec fn sp_words(
    s: Seq<u8>,
    pos: int,
    set: Seq<u8>,
    left: nat,
    words: Seq<Option<ValueModel>>,
    n: nat,
) -> (Seq<Option<ValueModel>>, nat, int)
    decreases left,
{
    if left == 0 {
        (words, n, pos)
    } else {
        match sp_one_of_value(s, ws_end(s, pos), set) {
            Some((l, v, e)) => sp_words(
                s,
                e,
                set,
                (left - 1) as nat,
                words.update(slot(l), Some(v)),
                n + 1,
            ),
            None => (words, n, pos),
        }
    }
}

/// `XYZ`
pub open spec fn axis_letters() -> Seq<u8> {
    seq![0x58u8, 0x59, 0x5a]
}

/// `IJK`
pub open spec fn offset_letters() -> Seq<u8> {
    seq![0x49u8, 0x4a, 0x4b]
}

/// `XYZRP`
pub open spec fn radius_letters() -> Seq<u8> {
    seq![0x58u8, 0x59, 0x5a, 0x52, 0x50]
}

/// A center format arc at `p`: two or three end point words (`X`, `Y`, `Z`) and the
/// whitespace after them, or none; then one or two offset words (`I`, `J`, `K`) and the
/// whitespace after them; then an optional `P` word with an unsigned value.
pub open spec fn sp_center_arc(s: Seq<u8>, p: int) -> Option<(CenterArcModel, int)> {
    let (w1, n1, e1) = sp_words(s, p, axis_letters(), 3, no_words(), 0);
    let (w2, e2) = if n1 >= 2 {
        (w1, ws_end(s, e1))
    } else {
        (no_words(), p)
    };
    let (w3, n3, e3) = sp_words(s, e2, offset_letters(), 2, w2, 0);
    if n3 == 0 {
        None
    } else {
        let (t, e4) = match sp_preceded_unsigned_value(s, ws_end(s, e3), 0x50) {
            Some((v, e)) => (Some(v), e),
            None => (None, ws_end(s, e3)),
        };
        Some((CenterArcModel { words: w3.subrange(0, 6), p: t }, e4))
    }
}

/// A radius format arc at `p`: three to five words among `X Y Z R P` and the whitespace
/// after them, with an `R` word and at least one of `X`, `Y`, `Z`.
pub open spec fn sp_radius_arc(s: Seq<u8>, p: int) -> Option<(Seq<Option<ValueModel>>, int)> {
    let (w, n, e) = sp_words(s, p, radius_letters(), 5, no_words(), 0);
    if n >= 3 && w[6] is Some && (w[0] is Some || w[1] is Some || w[2] is Some) {
        Some((seq![w[0], w[1], w[2], w[6], w[7]], ws_end(s, e)))
    } else {
        None
    }
}

/// The slots of an arc while its words are read.
struct Words {
    x: Option<Value>,
    y: Option<Value>,
    z: Option<Value>,
    i: Option<Value>,
    j: Option<Value>,
    k: Option<Value>,
    r: Option<Value>,
    p: Option<Value>,
}

impl View for Words {
    type V = Seq<Option<ValueModel>>;

    closed spec fn view(&self) -> Seq<Option<ValueModel>> {
        seq![
            opt_value_model(self.x),
            opt_value_model(self.y),
            opt_value_model(self.z),
            opt_value_model(self.i),
            opt_value_model(self.j),
            opt_value_model(self.k),
            opt_value_model(self.r),
            opt_value_model(self.p),
        ]
    }
}

fn empty_words() -> (w: Words)
    ensures
        w@ == no_words(),
{
    let w = Words { x: None, y: None, z: None, i: None, j: None, k: None, r: None, p: None };
    assert(w@ =~= no_words());
    w
}

fn put(w: &mut Words, l: u8, v: Value)
    ensures
        final(w)@ == old(w)@.update(slot(l), Some(v@)),
{
    let ghost w0 = w@;
    if l == 0x58 {
        w.x = Some(v);
    } else if l == 0x59 {
        w.y = Some(v);
    } else if l == 0x5a {
        w.z = Some(v);
    } else if l == 0x49 {
        w.i = Some(v);
    } else if l == 0x4a {
        w.j = Some(v);
    } else if l == 0x4b {
        w.k = Some(v);
    } else if l == 0x52 {
        w.r = Some(v);
    } else {
        w.p = Some(v);
    }
    assert(w@ =~= w0.update(slot(l), Some(v@)));
}

/// Reads words into `w` (see [`sp_words`]); gives the number read and the end.
fn read_words(i: &str, p: usize, set: &[u8], max: usize, w: &mut Words) -> (r: (usize, usize))
    requires
        p <= i.spec_bytes().len(),
        forall|j: int| 0 <= j < set@.len() ==> #[trigger] set@[j] < 0x80,
        old(w)@.len() == 8,
    ensures
        sp_words(i.spec_bytes(), p as int, set@, max as nat, old(w)@, 0) == (final(w)@, r.0 as nat, r.1 as int),
        p <= r.1 <= i.spec_bytes().len(),
        r.0 <= max,
        r.0 > 0 ==> r.1 > p,
        r.1 > p ==> i.spec_bytes()[r.1 - 1] < 0x80,
{
    reveal_with_fuel(sp_words, 1);
    let s = i.as_bytes();
    let mut pos = p;
    let mut n: usize = 0;
    let ghost start = w@;
    loop
        invariant
            s@ == i.spec_bytes(),
            p <= pos <= s.len(),
            n <= max,
            n > 0 ==> pos > p,
            pos > p ==> s@[pos - 1] < 0x80,
            start == old(w)@,
            forall|j: int| 0 <= j < set@.len() ==> #[trigger] set@[j] < 0x80,
            sp_words(s@, p as int, set@, max as nat, start, 0) == sp_words(
                s@,
                pos as int,
                set@,
                (max - n) as nat,
                w@,
                n as nat,
            ),
        decreases max - n,
    {
        reveal_with_fuel(sp_words, 1);
        if n == max {
            assert(sp_words(s@, pos as int, set@, 0, w@, n as nat) == (w@, n as nat, pos as int));
            return (n, pos);
        }
        match parse_one_of_value(i, skip_ws(s, pos), set) {
            Some((l, v, e)) => {
                put(w, l, v);
                pos = e;
                n = n + 1;
            },
            None => {
                assert(sp_words(s@, pos as int, set@, (max - n) as nat, w@, n as nat) == (
                    w@,
                    n as nat,
                    pos as int,
                ));
                return (n, pos);
            },
        }
    }
}

pub fn parse_center_arc(i: &str, p: usize) -> (r: Option<(CenterArc, usize)>)
    requires
        p <= i.spec_bytes().len(),
    ensures
        parsed_as(r, sp_center_arc(i.spec_bytes(), p as int)),
        r matches Some((_, e)) ==> p < e <= i.spec_bytes().len() && i.spec_bytes()[e - 1] < 0x80,
{
    let s = i.as_bytes();
    let axes: &[u8] = &[0x58, 0x59, 0x5a];
    let offsets: &[u8] = &[0x49, 0x4a, 0x4b];
    assert(axes@ =~= axis_letters());
    assert(offsets@ =~= offset_letters());
    let mut w = empty_words();
    let (n1, e1) = read_words(i, p, axes, 3, &mut w);
    let mut e2 = skip_ws(s, e1);
    if n1 < 2 {
        w = empty_words();
        e2 = p;
    }
    let (n3, e3) = read_words(i, e2, offsets, 2, &mut w);
    if n3 == 0 {
        return None;
    }
    let e3w = skip_ws(s, e3);
    let (t, e4) = match parse_preceded_unsigned_value(i, e3w, 0x50) {
        Some((v, e)) => (Some(v), e),
        None => (None, e3w),
    };
    let arc = CenterArc { x: w.x, y: w.y, z: w.z, i: w.i, j: w.j, k: w.k, p: t };
    proof {
        assert(arc@.words =~= w@.subrange(0, 6));
    }
    Some((arc, e4))
}

/// Parse a center format arc (`X1 Y2 I3 J4 P2`)
pub fn center_arc(i: &str) -> (r: ParseResult<CenterArc>)
    ensures
        result_matches(i, r, sp_center_arc(i.spec_bytes(), 0)),
{
    finish(i, parse_center_arc(i, 0))
}

pub fn parse_radius_arc(i: &str, p: usize) -> (r: Option<(RadiusArc, usize)>)
    requires
        p <= i.spec_bytes().len(),
    ensures
        parsed_as(r, sp_radius_arc(i.spec_bytes(), p as int)),
        r matches Some((_, e)) ==> p < e <= i.spec_bytes().len() && i.spec_bytes()[e - 1] < 0x80,
{
    let s = i.as_bytes();
    let letters: &[u8] = &[0x58, 0x59, 0x5a, 0x52, 0x50];
    assert(letters@ =~= radius_letters());
    let mut w = empty_words();
    let (n, e) = read_words(i, p, letters, 5, &mut w);
    if n >= 3 && w.r.is_some() && (w.x.is_some() || w.y.is_some() || w.z.is_some()) {
        let arc = RadiusArc { x: w.x, y: w.y, z: w.z, p: w.p, r: w.r };
        Some((arc, skip_ws(s, e)))
    } else {
        None
    }
}

/// Parse a radius format arc (`X10 Y15 R20`)
pub fn radius_arc(i: &str) -> (r: ParseResult<RadiusArc>)
    ensures
        result_matches(i, r, sp_radius_arc(i.spec_bytes(), 0)),
{
    finish(i, parse_radius_arc(i, 0))
}

/// An arc of either format
#[derive(Debug, PartialEq)]
pub enum Arc {
    /// A center format arc
    Center(CenterArc),
    /// A radius format arc
    Radius(RadiusArc),
}

pub enum ArcModel {
    Center(CenterArcModel),
    Radius(Seq<Option<ValueModel>>),
}

impl View for Arc {
    type V = ArcModel;

    open spec fn view(&self) -> ArcModel {
        match self {
            Arc::Center(a) => ArcModel::Center(a@),
            Arc::Radius(a) => ArcModel::Radius(a@),
        }
    }
}

/// A center format arc, else a radius format arc.
pub open spec fn sp_arc(s: Seq<u8>, p: int) -> Option<(ArcModel, int)> {
    match sp_center_arc(s, p) {
        Some((a, e)) => Some((ArcModel::Center(a), e)),
        None => match sp_radius_arc(s, p) {
            Some((a, e)) => Some((ArcModel::Radius(a), e)),
            None => None,
        },
    }
}

pub fn parse_arc(i: &str, p: usize) -> (r: Option<(Arc, usize)>)
    requires
        p <= i.spec_bytes().len(),
    ensures
        parsed_as(r, sp_arc(i.spec_bytes(), p as int)),
        r matches Some((_, e)) ==> p < e <= i.spec_bytes().len() && i.spec_bytes()[e - 1] < 0x80,
{
    if let Some((a, e)) = parse_center_arc(i, p) {
        return Some((Arc::Center(a), e));
    }
    match parse_radius_arc(i, p) {
        Some((a, e)) => Some((Arc::Radius(a), e)),
        None => None,
    }
}

/// Parse an arc of either format
pub fn arc(i: &str) -> (r: ParseResult<Arc>)
    ensures
        result_matches(i, r, sp_arc(i.spec_bytes(), 0)),
{
    finish(i, parse_arc(i, 0))
}

/// The letters of the slots of an arc word: `X Y Z I J K R`; any other letter, `P` among
/// them, has slot 7.
pub open spec fn slot_letters() -> Seq<u8> {
    seq![0x58u8, 0x59, 0x5a, 0x49, 0x4a, 0x4b, 0x52]
}

/// A letter has slot `k` below 7 exactly when it is the `k`-th slot letter; `P` has
/// slot 7.
pub proof fn lemma_slot_letter(l: u8, k: int)
    ensures
        (k < 7 && slot(l) == k) <==> (0 <= k < 7 && l == slot_letters()[k]),
        slot(0x50) == 7,
{
}

} // verus!
