//! Vertex-stream semantics of general mesh resources.

use vstd::prelude::*;

verus! {

/// What a vertex stream of a geometry resource carries.
#[allow(non_camel_case_types)]
#[derive(Clone, Copy, PartialEq, Eq, Structural, Debug)]
pub enum Semantic {
    POSITION,
    NORMAL,
    COLOR,
    TEXCOORD0,
    TEXCOORD1,
    TEXCOORD2,
    TEXCOORD3,
    TEXCOORD4,
    TEXCOORD5,
}

impl Semantic {
    /// The texture-coordinate stream that carries the first light map.
    pub fn light0() -> (r: Semantic)
        ensures
            r == Semantic::TEXCOORD3,
    {
        Semantic::TEXCOORD3
    }
}

} // verus!
