//! Tools for inspecting, recording and comparing the streams of data
//! that a type's hashing routine feeds into a hasher, together with a
//! hash-compatibility marker and a table that supports lookups keyed
//! by a precomputed hash and an equality predicate.

use vstd::prelude::*;

pub mod ext;
pub mod hash_cmp;

pub use ext::HashMapExt;
pub use ext::RawTable;
pub use hash_cmp::ConsumeHasherDatum;
pub use hash_cmp::DatumHasher;
pub use hash_cmp::EqTestAcc;
pub use hash_cmp::EqTestCmp;
pub use hash_cmp::HashWrite;
pub use hash_cmp::HasherDatum;
pub use hash_cmp::StdHasher;

verus! {

/// Marks two types as having compatible hashing processes and so
/// allows a value of one to stand in for a value of the other during
/// a hash lookup.
///
/// The existence of a `HashEq<Rhs>` implementation for a type `Self`
/// asserts that the hashing processes of `Self` and `Rhs` are
/// analogous: they feed the same sort of data, in the same order, and
/// through the same hasher methods. If additionally
/// `Self: PartialEq<Rhs>`, then for any `s: Self` and `r: Rhs` with
/// `s == r` the hash of `s` equals the hash of `r` under any hasher.
///
/// This relationship is declared, not checked at runtime; it can be
/// verified offline by driving both types' hashing routines through a
/// [`DatumHasher`] and comparing the recorded streams with
/// [`EqTestAcc`] and [`EqTestCmp`].
pub trait HashEq<Rhs> where Self: core::hash::Hash, Rhs: core::hash::Hash {

}

} // verus!
