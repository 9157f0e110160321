//! Subdomain discovery by DNS probing: the decision logic.
//!
//! Every candidate label of a wordlist is prefixed to a root domain and
//! resolved. This crate holds what is decided around those lookups: how
//! names are built, which answers count as wildcard noise, how findings are
//! deduplicated, and how many lookups may be outstanding at once. Performing
//! the lookups is left to the caller.

pub mod address;
pub mod aggregator;
pub mod laws;
pub mod lookup;
pub mod names;
pub mod report;
pub mod scheduler;
pub mod text;
pub mod wildcard;
pub mod wordlist;

pub use address::Address;
pub use aggregator::{Aggregator, Finding};
pub use lookup::{judge, Lookup, Verdict};
pub use names::full_domain;
pub use report::{render, split_lines};
pub use scheduler::{
    Action, Completion, Scheduler, DEFAULT_CONCURRENCY, DEFAULT_TIMEOUT_SECS,
};
pub use wildcard::{is_noise, noise_signature, probe_name, PROBE_TIMEOUT_SECS};
pub use wordlist::{clean_line, load_wordlist};
