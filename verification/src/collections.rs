use vstd::prelude::*;

verus! {

/// The hasher of the `fxhash` crate.
#[verifier::external_type_specification]
#[verifier::external_body]
pub struct ExFxHasher(fxhash::FxHasher);

/// `std::hash::BuildHasherDefault`, which builds the `fxhash` hasher for the
/// crate's hash maps and sets.
#[verifier::external_type_specification]
#[verifier::external_body]
#[verifier::reject_recursive_types(H)]
pub struct ExBuildHasherDefault<H>(std::hash::BuildHasherDefault<H>);

} // verus!
