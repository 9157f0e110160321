//! The names that are looked up.

use vstd::prelude::*;
use vstd::string::StringExecFns;

verus! {

/// The full domain name of a candidate: the candidate, a dot, the root
/// domain.
pub open spec fn full_name(candidate: Seq<char>, root: Seq<char>) -> Seq<char> {
    candidate + seq!['.'] + root
}

/// Builds the full domain name of `candidate` under `root`.
pub fn full_domain(candidate: &str, root: &str) -> (name: String)
    ensures
        name@ == full_name(candidate@, root@),
{
    let mut name = String::from_str(candidate);
    name.push('.');
    name.append(root);
    name
}

} // verus!
