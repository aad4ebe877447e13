//! A verified core for a schema-driven code generator: it walks the
//! constraints of each type definition of a schema, infers a single
//! unambiguous in-memory shape, resolves nested anonymous definitions
//! depth-first, and plans one rendered source file per definition for a
//! chosen target language. Loading schemas, rendering templates and writing
//! files stay outside; the library turns loaded definitions into an exact
//! plan of what to render where.
pub mod backend;
pub mod casing;
pub mod cli;
pub mod context;
pub mod generator;
pub mod laws;
pub mod model;
pub mod text;

use vstd::prelude::*;

verus! {

/// Adds two sizes: the demo entry point that a generated example crate exposes.
pub fn add(left: usize, right: usize) -> (r: usize)
    requires
        left + right <= usize::MAX,
    ensures
        r == left + right,
{
    left + right
}

} // verus!
