//! What a lookup returned, and what is made of it.

use vstd::prelude::*;
use crate::address::Address;
use crate::wildcard::{is_noise, matches_signature};

verus! {

/// The outcome of one resolution attempt.
#[derive(Debug, PartialEq, Eq)]
pub enum Lookup {
    /// The resolver answered with these addresses, in its order. The list
    /// may be empty.
    Answer(Vec<Address>),
    /// The resolver reported an error, a missing record among them.
    Failed,
    /// No answer came within the time allowed.
    TimedOut,
}

impl Lookup {
    /// The addresses this outcome carries: those of an answer, none for a
    /// failure or a timeout.
    pub open spec fn addresses(&self) -> Seq<Address> {
        match self {
            Lookup::Answer(list) => list@,
            Lookup::Failed => Seq::empty(),
            Lookup::TimedOut => Seq::empty(),
        }
    }
}

/// How one candidate's lookup ends.
#[derive(Clone, Copy, Debug, PartialEq, Eq, Structural)]
pub enum Verdict {
    /// The name resolved and is to be recorded.
    Found,
    /// The name resolved, but to what the wildcard answers.
    Noise,
    /// The name did not resolve: an error, a timeout or an empty answer.
    Failed,
}

/// The verdict on a lookup that carried `addresses`. An outcome without
/// addresses is a failure whatever its cause. One with addresses is noise if
/// it holds the signature and wildcard matches are not kept, and a finding
/// otherwise.
pub open spec fn verdict_of(
    addresses: Seq<Address>,
    signature: Option<Address>,
    keep_wildcard: bool,
) -> Verdict {
    if addresses.len() == 0 {
        Verdict::Failed
    } else if !keep_wildcard && matches_signature(addresses, signature) {
        Verdict::Noise
    } else {
        Verdict::Found
    }
}

/// Judges one lookup against the zone's signature.
pub fn judge(outcome: &Lookup, signature: Option<Address>, keep_wildcard: bool) -> (verdict:
    Verdict)
    ensures
        verdict == verdict_of(outcome.addresses(), signature, keep_wildcard),
{
    match outcome {
        Lookup::Answer(list) => {
            if list.len() == 0 {
                Verdict::Failed
            } else if !keep_wildcard && is_noise(list, signature) {
                Verdict::Noise
            } else {
                Verdict::Found
            }
        },
        _ => Verdict::Failed,
    }
}

} // verus!
