//! Wildcard detection: the probe name, and the signature read off its
//! lookup.
//!
//! A zone with a wildcard record answers every unknown name. One lookup of a
//! name that cannot exist tells: if it resolves, the first address of its
//! answer is the zone's noise signature, and later answers that hold that
//! address say nothing about the names they were given for.

use vstd::prelude::*;
use vstd::string::StringExecFns;
use crate::address::Address;
use crate::lookup::Lookup;
use crate::names::{full_domain, full_name};
use crate::text::{decimal, push_decimal};

verus! {

/// Seconds allowed for the probe lookup.
pub const PROBE_TIMEOUT_SECS: u64 = 3;

/// The label of the probe name for `nonce`: a fixed prefix and the nonce in
/// decimal.
pub open spec fn probe_label(nonce: nat) -> Seq<char> {
    "wildcard-check-"@ + decimal(nonce)
}

/// The signature of a zone's wildcard: the first address that the probe
/// name resolved to, if it resolved to any.
pub open spec fn signature_of(probe: Seq<Address>) -> Option<Address> {
    if probe.len() > 0 {
        Some(probe[0])
    } else {
        None
    }
}

/// Whether an answer is wildcard noise: a signature is set and is among the
/// answer's addresses.
pub open spec fn matches_signature(addresses: Seq<Address>, signature: Option<Address>) -> bool {
    signature matches Some(noise) && addresses.contains(noise)
}

/// Builds the name to probe under `root`. The nonce makes the name one that
/// no zone holds; the caller draws it from a clock's sub-second ticks.
pub fn probe_name(nonce: u32, root: &str) -> (name: String)
    ensures
        name@ == full_name(probe_label(nonce as nat), root@),
{
    let mut label = String::from_str("wildcard-check-");
    push_decimal(&mut label, nonce);
    full_domain(label.as_str(), root)
}

/// Reads the wildcard signature off the outcome of the probe lookup: the
/// first address of a non-empty answer, and none where the probe failed,
/// timed out or came back empty.
pub fn noise_signature(probe: &Lookup) -> (signature: Option<Address>)
    ensures
        signature == signature_of(probe.addresses()),
{
    match probe {
        Lookup::Answer(list) => {
            if list.len() > 0 {
                Some(list[0])
            } else {
                None
            }
        },
        _ => None,
    }
}

/// Tells whether `addresses` hold the wildcard's signature.
pub fn is_noise(addresses: &Vec<Address>, signature: Option<Address>) -> (noise: bool)
    ensures
        noise == matches_signature(addresses@, signature),
{
    match signature {
        None => false,
        Some(wild) => {
            let mut i: usize = 0;
            while i < addresses.len()
                invariant
                    i <= addresses.len(),
                    signature == Some(wild),
                    forall|k: int| 0 <= k < i ==> addresses@[k] != wild,
                decreases addresses.len() - i,
            {
                if addresses[i] == wild {
                    return true;
                }
                i += 1;
            }
            false
        },
    }
}

} // verus!
