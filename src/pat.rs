//! Names bound by patterns.
use vstd::prelude::*;
use crate::ident::Ident;

verus! {

/// A variable bound by a pattern.
#[derive(Debug)]
pub struct PatIdent(pub Ident);

impl PatIdent {
    pub fn new(id: Ident) -> (r: PatIdent)
        ensures
            r.0@ == id@,
    {
        PatIdent(id)
    }
}

} // verus!
