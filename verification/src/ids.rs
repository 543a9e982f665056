//! Identifiers used throughout the engine: git object ids and the opaque ids
//! of projects and virtual branches.

use vstd::prelude::*;

verus! {

/// A 160-bit git object id, stored as three machine words.
///
/// The words hold the twenty bytes of the id in big-endian order: `w0` the
/// first eight bytes, `w1` the next eight, `w2` the last four.
#[derive(Clone, Copy, PartialEq, Eq, Structural, Debug, Hash)]
pub struct Oid {
    pub w0: u64,
    pub w1: u64,
    pub w2: u32,
}

impl Oid {
    /// The all-zero object id, which git treats as "no object".
    pub fn zero() -> (r: Oid)
        ensures
            r == (Oid { w0: 0, w1: 0, w2: 0 }),
    {
        Oid { w0: 0, w1: 0, w2: 0 }
    }
}

/// The stable opaque identifier of a project (a 128-bit unique id).
#[derive(Clone, Copy, PartialEq, Eq, Structural, Debug, Hash)]
pub struct ProjectId {
    pub hi: u64,
    pub lo: u64,
}

/// The stable opaque identifier of a virtual branch (a 128-bit unique id).
#[derive(Clone, Copy, PartialEq, Eq, Structural, Debug, Hash)]
pub struct BranchId {
    pub hi: u64,
    pub lo: u64,
}

} // verus!
