//! Snippets for a stack machine over the prime field with modulus
//! `2^64 - 2^32 + 1`, the linker that composes them, the bump allocator
//! shared by generated programs and the oracle that compares a snippet's
//! reference behaviour with the observed final state of a program run.
use vstd::prelude::*;

pub mod text;
pub mod data_type;
pub mod memory;
pub mod dyn_malloc;
pub mod library;
pub mod snippet;
pub mod test_helpers;
pub mod arithmetic;
pub mod io;
pub mod list;
pub mod mmr;
pub mod mmr_append;

verus! {

/// Number of words in a digest, and the number of stack words at the
/// bottom of every stack that hold the program's own digest.
pub const DIGEST_LENGTH: usize = 5;

/// The field's modulus: every word is a canonical value below it.
pub const FIELD_MODULUS: u64 = 0xffff_ffff_0000_0001;

} // verus!
