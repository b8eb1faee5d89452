//! A verified G-code parser.
//!
//! Every parser in this crate is a function on the bytes of a `&str`: it returns the
//! unconsumed rest of the input together with the parsed value, or a [`ParseError`].
//! Each one is specified by a spec function over the input bytes that describes the
//! grammar it accepts.
use vstd::prelude::*;

pub mod expression;
pub mod text;
pub mod token;
pub mod tokenizer;
pub mod value;
pub mod word;

verus! {

} // verus!
