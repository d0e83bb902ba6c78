//! Errors of reading values out of commands and responses.
use vstd::prelude::*;

verus! {

/// A name, key or id that does not stand for anything known.
#[derive(Clone, Debug, PartialEq, Eq)]
pub enum ParseError {
    MissingKey(&'static str),
    InvalidName(String),
    InvalidId(u32),
}

} // verus!
