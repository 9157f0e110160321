//! What holds of the library as a whole, stated over the models that the
//! functions' contracts use.

use vstd::prelude::*;
use crate::address::Address;
use crate::aggregator::{distinct_names, has_name, names_of, submitted, Record};
use crate::lookup::{verdict_of, Verdict};
use crate::names::full_name;
use crate::report::{lemma_lines_prepend, lemma_rendered_front, lines_of, rendered, single_line};
use crate::scheduler::{lemma_deliver_valid, lemma_issue_valid, Progress, Run};
use crate::wildcard::{matches_signature, signature_of};

verus! {

/// Submitting keeps names distinct: a name that is there is not added again.
pub proof fn lemma_submit_keeps_names_distinct(
    records: Seq<Record>,
    name: Seq<char>,
    addresses: Seq<Address>,
)
    requires
        distinct_names(records),
    ensures
        distinct_names(submitted(records, name, addresses)),
        has_name(submitted(records, name, addresses), name),
{
    let after = submitted(records, name, addresses);
    if !has_name(records, name) {
        assert(after[records.len() as int].name == name);
    }
}

/// Submitting is idempotent on the name: a second submission of a name
/// changes nothing, whatever addresses it carries.
pub proof fn lemma_submit_idempotent(
    records: Seq<Record>,
    name: Seq<char>,
    first: Seq<Address>,
    second: Seq<Address>,
)
    ensures
        submitted(submitted(records, name, first), name, second) == submitted(
            records,
            name,
            first,
        ),
{
    let once = submitted(records, name, first);
    if !has_name(records, name) {
        assert(once[records.len() as int].name == name);
    }
}

/// No name occurs twice among the findings of a run, whatever the
/// candidates were, duplicates among them or not.
pub proof fn lemma_names_occur_once(run: Run)
    requires
        run.valid(),
    ensures
        names_of(run.results).no_duplicates(),
{
    let names = names_of(run.results);
    assert forall|i: int, j: int| 0 <= i < j < names.len() implies names[i] != names[j] by {
        assert(run.results[i].name != run.results[j].name);
    }
}

/// In every state that a run reaches, the outstanding lookups keep within
/// the limit, where one is set: a run starts valid, and issuing a ticket and
/// taking an outcome keep it so.
pub proof fn lemma_outstanding_within_limit(run: Run)
    requires
        run.valid(),
        run.limit > 0,
    ensures
        run.in_flight() <= run.limit,
        run.can_issue() ==> run.issue().in_flight() <= run.limit,
        forall|ticket: int, addresses: Seq<Address>|
            (#[trigger] run.deliver(ticket, addresses)).in_flight() <= run.limit,
{
    if run.can_issue() {
        lemma_issue_valid(run);
    }
    assert forall|ticket: int, addresses: Seq<Address>|
        (#[trigger] run.deliver(ticket, addresses)).in_flight() <= run.limit by {
        lemma_deliver_valid(run, ticket, addresses);
    }
}

/// Whether every outcome that `run` has taken is what `resolver` answers
/// for the name it was taken for.
pub open spec fn answered_by(run: Run, resolver: spec_fn(Seq<char>) -> Seq<Address>) -> bool {
    forall|i: int|
        0 <= i < run.tasks.len() ==> ((#[trigger] run.tasks[i]) matches Progress::Done(addresses)
            ==> addresses == resolver(run.name(i)))
}

/// The names that a resolver makes findings of: the full names of the
/// candidates whose answer is judged a finding.
pub open spec fn expected_names(
    candidates: Seq<Seq<char>>,
    root: Seq<char>,
    signature: Option<Address>,
    keep_wildcard: bool,
    resolver: spec_fn(Seq<char>) -> Seq<Address>,
) -> Set<Seq<char>> {
    Set::new(
        |name: Seq<char>|
            {
                &&& exists|i: int|
                    0 <= i < candidates.len() && #[trigger] full_name(candidates[i], root) == name
                &&& verdict_of(resolver(name), signature, keep_wildcard) == Verdict::Found
            },
    )
}

/// The names found by a finished run are those that its resolver makes
/// findings of. Neither the limit on outstanding lookups nor the order in
/// which the lookups ended has a part in it.
pub proof fn lemma_found_names(run: Run, resolver: spec_fn(Seq<char>) -> Seq<Address>)
    requires
        run.valid(),
        run.finished(),
        answered_by(run, resolver),
    ensures
        run.found_names() == expected_names(
            run.candidates,
            run.root,
            run.signature,
            run.keep_wildcard,
            resolver,
        ),
{
    let expected = expected_names(
        run.candidates,
        run.root,
        run.signature,
        run.keep_wildcard,
        resolver,
    );
    assert forall|name: Seq<char>| run.found_names().contains(name) implies expected.contains(
        name,
    ) by {
        let k = choose|k: int| 0 <= k < run.results.len() && (#[trigger] run.results[k]).name == name;
        let record = run.results[k];
        assert(run.backed(record));
        let i = choose|i: int| #[trigger] run.recorded_by(record, i);
        assert(run.name(i) == name);
    }
    assert forall|name: Seq<char>| expected.contains(name) implies run.found_names().contains(
        name,
    ) by {
        let i = choose|i: int|
            0 <= i < run.candidates.len() && #[trigger] full_name(run.candidates[i], run.root) == name;
        assert(run.found_at(i));
    }
}

/// Two finished runs over the same candidates, against the same resolver,
/// find the same set of names, whatever their limits on outstanding lookups
/// are and in whatever order their lookups ended.
pub proof fn lemma_limit_does_not_change_names(
    one: Run,
    other: Run,
    resolver: spec_fn(Seq<char>) -> Seq<Address>,
)
    requires
        one.valid(),
        other.valid(),
        one.finished(),
        other.finished(),
        one.candidates == other.candidates,
        one.root == other.root,
        one.signature == other.signature,
        one.keep_wildcard == other.keep_wildcard,
        answered_by(one, resolver),
        answered_by(other, resolver),
    ensures
        one.found_names() == other.found_names(),
{
    lemma_found_names(one, resolver);
    lemma_found_names(other, resolver);
}

/// Where the probe resolved to `probe`, an answer with the same set of
/// addresses is judged noise, and a finding if wildcard matches are kept.
pub proof fn lemma_wildcard_answer_is_noise(
    probe: Seq<Address>,
    addresses: Seq<Address>,
    keep_wildcard: bool,
)
    requires
        probe.len() > 0,
        addresses.to_set() == probe.to_set(),
    ensures
        verdict_of(addresses, signature_of(probe), keep_wildcard) == if keep_wildcard {
            Verdict::Found
        } else {
            Verdict::Noise
        },
{
    assert(probe.to_set().contains(probe[0]));
    assert(addresses.contains(probe[0]));
}

/// Where the probe resolved to `probe` and wildcard matches are not kept,
/// no finding of a run has the probe's set of addresses.
pub proof fn lemma_no_wildcard_among_results(run: Run, probe: Seq<Address>, k: int)
    requires
        run.valid(),
        probe.len() > 0,
        run.signature == signature_of(probe),
        !run.keep_wildcard,
        0 <= k < run.results.len(),
    ensures
        run.results[k].addresses.to_set() != probe.to_set(),
        !matches_signature(run.results[k].addresses, run.signature),
{
    let record = run.results[k];
    assert(run.backed(record));
    let i = choose|i: int| #[trigger] run.recorded_by(record, i);
    if record.addresses.to_set() == probe.to_set() {
        lemma_wildcard_answer_is_noise(probe, record.addresses, false);
    }
}

/// Where wildcard matches are kept, every candidate that resolved is among
/// the findings, those that match the signature too.
pub proof fn lemma_kept_wildcard_is_recorded(run: Run, i: int, addresses: Seq<Address>)
    requires
        run.valid(),
        run.keep_wildcard,
        0 <= i < run.tasks.len(),
        run.tasks[i] == Progress::Done(addresses),
        addresses.len() > 0,
    ensures
        has_name(run.results, run.name(i)),
{
    assert(run.found_at(i));
}

/// A probe that did not resolve leaves no signature, and without a
/// signature nothing is filtered: every candidate that resolved is among the
/// findings.
pub proof fn lemma_no_signature_no_filter(run: Run, i: int, addresses: Seq<Address>)
    requires
        run.valid(),
        run.signature is None,
        0 <= i < run.tasks.len(),
        run.tasks[i] == Progress::Done(addresses),
        addresses.len() > 0,
    ensures
        signature_of(Seq::<Address>::empty()) is None,
        verdict_of(addresses, run.signature, run.keep_wildcard) == Verdict::Found,
        has_name(run.results, run.name(i)),
{
    assert(run.found_at(i));
}

/// Reading the output file's text back line by line gives the names that
/// were written, in their order, as long as no name holds a line feed.
pub proof fn lemma_round_trip(names: Seq<Seq<char>>)
    requires
        forall|i: int| 0 <= i < names.len() ==> single_line(#[trigger] names[i]),
    ensures
        lines_of(rendered(names)) == names,
    decreases names.len(),
{
    if names.len() > 0 {
        let rest = names.drop_first();
        lemma_rendered_front(names);
        assert forall|i: int| 0 <= i < rest.len() implies single_line(#[trigger] rest[i]) by {
            assert(rest[i] == names[i + 1]);
        }
        lemma_round_trip(rest);
        lemma_lines_prepend(names[0], rendered(rest));
        assert(seq![names[0]] + rest =~= names);
    }
}

} // verus!
