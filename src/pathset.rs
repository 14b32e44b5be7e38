//! Sets of paths, held in `ahash::AHashSet` and seen by the proofs as a
//! `Set` of character sequences.
use ahash::{AHashSet, RandomState};
use vstd::prelude::*;

verus! {

/// `ahash::AHashSet`, a `HashSet` with ahash's hasher, carried opaquely; what
/// it holds is `path_set_contents`.
#[verifier::external_type_specification]
#[verifier::external_body]
#[verifier::reject_recursive_types(T)]
#[verifier::reject_recursive_types(S)]
pub struct ExAHashSet<T, S>(AHashSet<T, S>);

/// `ahash::RandomState`, the hasher that `AHashSet` uses by default.
#[verifier::external_type_specification]
#[verifier::external_body]
pub struct ExRandomState(RandomState);

/// The paths that a set holds.
pub uninterp spec fn path_set_contents(s: AHashSet<String>) -> Set<Seq<char>>;

/// Relies on `AHashSet::new`: a set that holds nothing.
#[verifier::external_body]
pub(crate) fn new_path_set() -> (r: AHashSet<String>)
    ensures
        path_set_contents(r) == Set::<Seq<char>>::empty(),
{
    AHashSet::new()
}

/// Relies on `HashSet::insert`, reached through `AHashSet`'s `DerefMut`:
/// the path is added, and `true` comes back when it was not there before.
#[verifier::external_body]
pub(crate) fn insert_path(s: &mut AHashSet<String>, p: String) -> (r: bool)
    ensures
        path_set_contents(*final(s)) == path_set_contents(*old(s)).insert(p@),
        r == !path_set_contents(*old(s)).contains(p@),
{
    s.insert(p)
}

/// Relies on `HashSet::contains`, reached through `AHashSet`'s `Deref`:
/// whether the set holds a path equal to `p`.
#[verifier::external_body]
pub(crate) fn contains_path(s: &AHashSet<String>, p: &str) -> (r: bool)
    ensures
        r == path_set_contents(*s).contains(p@),
{
    s.contains(p)
}

} // verus!
