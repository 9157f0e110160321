//! The work scheduler: which lookup starts next, how many may be
//! outstanding, and what becomes of each answer.
//!
//! The scheduler performs no lookup. It hands out tickets, one per
//! candidate and in the candidates' order, never more at a time than the
//! limit allows, and takes each ticket's outcome back in whatever order the
//! lookups end. The caller runs the lookups: it asks for the next action,
//! starts the lookup it is told to start, waits for one when told to wait,
//! and reports what came back.

use vstd::prelude::*;
use crate::address::Address;
use crate::aggregator::{distinct_names, has_name, submitted, Aggregator, Record};
use crate::lookup::{judge, verdict_of, Lookup, Verdict};
use crate::names::{full_domain, full_name};

verus! {

/// Lookups that may be outstanding at once where the caller sets no limit.
pub const DEFAULT_CONCURRENCY: usize = 100;

/// Seconds allowed for one lookup where the caller sets no time.
pub const DEFAULT_TIMEOUT_SECS: u64 = 5;

/// Where one candidate's lookup stands.
pub enum Progress {
    /// No ticket was issued for it yet.
    Queued,
    /// Its ticket is out and its outcome has not come back.
    InFlight,
    /// Its outcome came back, carrying these addresses.
    Done(Seq<Address>),
}

/// The number of lookups of `tasks` that are outstanding.
pub open spec fn count_in_flight(tasks: Seq<Progress>) -> nat
    decreases tasks.len(),
{
    if tasks.len() == 0 {
        0
    } else {
        count_in_flight(tasks.drop_last()) + if tasks.last() is InFlight {
            1nat
        } else {
            0nat
        }
    }
}

/// The state of a run, as plain values.
pub struct Run {
    /// The candidate labels, in the order in which tickets are issued.
    pub candidates: Seq<Seq<char>>,
    /// The root domain.
    pub root: Seq<char>,
    /// How many lookups may be outstanding at once; zero sets no bound.
    pub limit: nat,
    /// The zone's wildcard signature, if it has one.
    pub signature: Option<Address>,
    /// Whether answers that match the signature are recorded all the same.
    pub keep_wildcard: bool,
    /// How many tickets were issued.
    pub issued: nat,
    /// Where each candidate's lookup stands.
    pub tasks: Seq<Progress>,
    /// The findings, in discovery order.
    pub results: Seq<Record>,
}

impl Run {
    /// A run before its first ticket.
    pub open spec fn start(
        candidates: Seq<Seq<char>>,
        root: Seq<char>,
        limit: nat,
        signature: Option<Address>,
        keep_wildcard: bool,
    ) -> Run {
        Run {
            candidates,
            root,
            limit,
            signature,
            keep_wildcard,
            issued: 0,
            tasks: Seq::new(candidates.len(), |i: int| Progress::Queued),
            results: Seq::empty(),
        }
    }

    /// The full domain name of candidate `i`.
    pub open spec fn name(self, i: int) -> Seq<char> {
        full_name(self.candidates[i], self.root)
    }

    /// The number of outstanding lookups.
    pub open spec fn in_flight(self) -> nat {
        count_in_flight(self.tasks)
    }

    /// Whether candidate `i` came back as a finding.
    pub open spec fn found_at(self, i: int) -> bool {
        &&& 0 <= i < self.tasks.len()
        &&& self.tasks[i] matches Progress::Done(addresses)
        &&& verdict_of(addresses, self.signature, self.keep_wildcard) == Verdict::Found
    }

    /// Whether `record` is what candidate `i` came back with.
    pub open spec fn recorded_by(self, record: Record, i: int) -> bool {
        &&& self.found_at(i)
        &&& self.tasks[i] == Progress::Done(record.addresses)
        &&& self.name(i) == record.name
    }

    /// Whether `record` is what some candidate came back with.
    pub open spec fn backed(self, record: Record) -> bool {
        exists|i: int| #[trigger] self.recorded_by(record, i)
    }

    /// What holds of every run:
    /// tickets are issued in order, the outstanding lookups keep within the
    /// limit, no name is recorded twice, every record is a finding that some
    /// candidate came back with, and every finding's name is recorded.
    pub open spec fn valid(self) -> bool {
        &&& self.tasks.len() == self.candidates.len()
        &&& self.issued <= self.tasks.len()
        &&& forall|i: int|
            0 <= i < self.tasks.len() ==> ((#[trigger] self.tasks[i]) is Queued <==> i
                >= self.issued)
        &&& self.limit > 0 ==> self.in_flight() <= self.limit
        &&& distinct_names(self.results)
        &&& forall|k: int| 0 <= k < self.results.len() ==> self.backed(#[trigger] self.results[k])
        &&& forall|i: int| #[trigger]
            self.found_at(i) ==> has_name(self.results, self.name(i))
    }

    /// Whether a ticket can be issued: a candidate is waiting and the limit
    /// leaves room.
    pub open spec fn can_issue(self) -> bool {
        &&& self.issued < self.tasks.len()
        &&& (self.limit == 0 || self.in_flight() < self.limit)
    }

    /// The run after the next ticket was issued.
    pub open spec fn issue(self) -> Run {
        Run {
            issued: self.issued + 1,
            tasks: self.tasks.update(self.issued as int, Progress::InFlight),
            ..self
        }
    }

    /// Whether `ticket` is out.
    pub open spec fn awaits(self, ticket: int) -> bool {
        0 <= ticket < self.tasks.len() && self.tasks[ticket] is InFlight
    }

    /// The run after `ticket` came back with `addresses`. A ticket that is
    /// not out changes nothing. Otherwise the ticket is done, and if its
    /// answer is a finding, its name is submitted to the results.
    pub open spec fn deliver(self, ticket: int, addresses: Seq<Address>) -> Run {
        if !self.awaits(ticket) {
            self
        } else {
            Run {
                tasks: self.tasks.update(ticket, Progress::Done(addresses)),
                results: if verdict_of(addresses, self.signature, self.keep_wildcard)
                    == Verdict::Found {
                    submitted(self.results, self.name(ticket), addresses)
                } else {
                    self.results
                },
                ..self
            }
        }
    }

    /// What the caller is told when `ticket` comes back with `addresses`.
    pub open spec fn completion(self, ticket: int, addresses: Seq<Address>) -> Completion {
        if !self.awaits(ticket) {
            Completion::Rejected
        } else {
            match verdict_of(addresses, self.signature, self.keep_wildcard) {
                Verdict::Failed => Completion::Failed,
                Verdict::Noise => Completion::Noise,
                Verdict::Found => if has_name(self.results, self.name(ticket)) {
                    Completion::Duplicate
                } else {
                    Completion::Recorded
                },
            }
        }
    }

    /// Whether every candidate's lookup has ended.
    pub open spec fn finished(self) -> bool {
        forall|i: int| 0 <= i < self.tasks.len() ==> (#[trigger] self.tasks[i]) is Done
    }

    /// The names that were found.
    pub open spec fn found_names(self) -> Set<Seq<char>> {
        Set::new(|name: Seq<char>| has_name(self.results, name))
    }
}

/// What the scheduler asks of its caller.
#[derive(Debug, PartialEq, Eq)]
pub enum Action {
    /// Start the lookup of `name`, and report its outcome under `ticket`.
    Resolve { ticket: usize, name: String },
    /// Nothing can start now: wait for an outstanding lookup to end.
    Wait,
    /// Every candidate's lookup has ended.
    Finished,
}

/// What became of a reported outcome.
#[derive(Clone, Copy, Debug, PartialEq, Eq, Structural)]
pub enum Completion {
    /// The name resolved and was recorded: a new finding.
    Recorded,
    /// The name resolved, and was recorded before.
    Duplicate,
    /// The answer was wildcard noise and was dropped.
    Noise,
    /// The lookup did not resolve the name.
    Failed,
    /// The ticket is not out: nothing was done.
    Rejected,
}

#[derive(Clone, Copy, PartialEq, Eq, Structural)]
enum Phase {
    Queued,
    InFlight,
    Done,
}

spec fn phase_of(progress: Progress) -> Phase {
    match progress {
        Progress::Queued => Phase::Queued,
        Progress::InFlight => Phase::InFlight,
        Progress::Done(_) => Phase::Done,
    }
}

/// A run in progress.
pub struct Scheduler {
    candidates: Vec<String>,
    root: String,
    limit: usize,
    signature: Option<Address>,
    keep_wildcard: bool,
    next: usize,
    outstanding: usize,
    phases: Vec<Phase>,
    progress: Ghost<Seq<Progress>>,
    results: Aggregator,
}

impl View for Scheduler {
    type V = Run;

    closed spec fn view(&self) -> Run {
        Run {
            candidates: self.candidates.deep_view(),
            root: self.root@,
            limit: self.limit as nat,
            signature: self.signature,
            keep_wildcard: self.keep_wildcard,
            issued: self.next as nat,
            tasks: self.progress@,
            results: self.results@,
        }
    }
}

/// Replacing one task changes the count of outstanding lookups by what the
/// old and the new task add to it.
pub proof fn lemma_count_update(tasks: Seq<Progress>, i: int, task: Progress)
    requires
        0 <= i < tasks.len(),
    ensures
        count_in_flight(tasks.update(i, task)) + (if tasks[i] is InFlight {
            1nat
        } else {
            0nat
        }) == count_in_flight(tasks) + (if task is InFlight {
            1nat
        } else {
            0nat
        }),
    decreases tasks.len(),
{
    let after = tasks.update(i, task);
    if i == tasks.len() - 1 {
        assert(after.drop_last() =~= tasks.drop_last());
    } else {
        lemma_count_update(tasks.drop_last(), i, task);
        assert(after.drop_last() =~= tasks.drop_last().update(i, task));
    }
}

/// No more lookups are outstanding than there are tasks, and none is
/// outstanding exactly when no task is in flight.
pub proof fn lemma_count_bounds(tasks: Seq<Progress>)
    ensures
        count_in_flight(tasks) <= tasks.len(),
        count_in_flight(tasks) == 0 <==> forall|i: int|
            0 <= i < tasks.len() ==> !((#[trigger] tasks[i]) is InFlight),
    decreases tasks.len(),
{
    if tasks.len() > 0 {
        let front = tasks.drop_last();
        lemma_count_bounds(front);
        if count_in_flight(tasks) == 0 {
            assert forall|i: int| 0 <= i < tasks.len() implies !((#[trigger] tasks[i])
                is InFlight) by {
                if i < front.len() {
                    assert(front[i] == tasks[i]);
                }
            }
        } else if !(tasks.last() is InFlight) {
            let i = choose|i: int| 0 <= i < front.len() && (#[trigger] front[i]) is InFlight;
            assert(tasks[i] is InFlight);
        }
    }
}

/// A run before its first ticket is valid.
pub proof fn lemma_start_valid(
    candidates: Seq<Seq<char>>,
    root: Seq<char>,
    limit: nat,
    signature: Option<Address>,
    keep_wildcard: bool,
)
    ensures
        Run::start(candidates, root, limit, signature, keep_wildcard).valid(),
        Run::start(candidates, root, limit, signature, keep_wildcard).in_flight() == 0,
{
    let run = Run::start(candidates, root, limit, signature, keep_wildcard);
    lemma_count_bounds(run.tasks);
}

/// Issuing a ticket where one can be issued keeps a run valid, and adds one
/// to its outstanding lookups.
pub proof fn lemma_issue_valid(run: Run)
    requires
        run.valid(),
        run.can_issue(),
    ensures
        run.issue().valid(),
        run.issue().in_flight() == run.in_flight() + 1,
{
    let after = run.issue();
    let ticket = run.issued as int;
    lemma_count_update(run.tasks, ticket, Progress::InFlight);
    assert forall|k: int| 0 <= k < after.results.len() implies after.backed(
        #[trigger] after.results[k],
    ) by {
        let record = run.results[k];
        assert(run.backed(record));
        let i = choose|i: int| #[trigger] run.recorded_by(record, i);
        assert(after.recorded_by(record, i));
    }
    assert forall|i: int| #[trigger] after.found_at(i) implies has_name(
        after.results,
        after.name(i),
    ) by {
        assert(run.found_at(i));
    }
}

/// Taking an outcome keeps a run valid, and where the ticket was out, takes
/// one from its outstanding lookups.
pub proof fn lemma_deliver_valid(run: Run, ticket: int, addresses: Seq<Address>)
    requires
        run.valid(),
    ensures
        run.deliver(ticket, addresses).valid(),
        run.awaits(ticket) ==> run.deliver(ticket, addresses).in_flight() + 1 == run.in_flight(),
{
    if run.awaits(ticket) {
        let after = run.deliver(ticket, addresses);
        lemma_count_update(run.tasks, ticket, Progress::Done(addresses));
        assert forall|k: int| 0 <= k < after.results.len() implies after.backed(
            #[trigger] after.results[k],
        ) by {
            let record = after.results[k];
            if k < run.results.len() {
                assert(run.backed(run.results[k]));
                let i = choose|i: int| #[trigger] run.recorded_by(record, i);
                assert(after.recorded_by(record, i));
            } else {
                assert(after.recorded_by(record, ticket));
            }
        }
        assert forall|i: int| #[trigger] after.found_at(i) implies has_name(
            after.results,
            after.name(i),
        ) by {
            if i != ticket {
                assert(run.found_at(i));
            }
            if has_name(run.results, run.name(i)) {
                let k = choose|k: int|
                    0 <= k < run.results.len() && (#[trigger] run.results[k]).name == run.name(i);
                assert(after.results[k].name == after.name(i));
            } else {
                assert(after.results[run.results.len() as int].name == after.name(i));
            }
        }
    }
}

/// A valid run is finished exactly when every ticket was issued and none is
/// out.
pub proof fn lemma_finished(run: Run)
    requires
        run.valid(),
    ensures
        run.finished() <==> run.issued == run.tasks.len() && run.in_flight() == 0,
        !run.can_issue() && !run.finished() ==> run.in_flight() > 0,
{
    lemma_count_bounds(run.tasks);
    if run.issued < run.tasks.len() {
        assert(run.tasks[run.issued as int] is Queued);
    } else if run.in_flight() > 0 {
        let i = choose|i: int| 0 <= i < run.tasks.len() && (#[trigger] run.tasks[i]) is InFlight;
        assert(!(run.tasks[i] is Done));
    }
}

impl Scheduler {
    /// The invariant of the scheduler: its state is a valid run, and what
    /// it keeps beside the run agrees with it.
    pub open spec fn wf(&self) -> bool {
        self@.valid() && self.coherent()
    }

    /// Whether the scheduler's bookkeeping agrees with its run.
    pub closed spec fn coherent(&self) -> bool {
        &&& self.phases.len() == self.progress@.len()
        &&& forall|i: int|
            0 <= i < self.phases.len() ==> (#[trigger] self.phases[i]) == phase_of(
                self.progress@[i],
            )
        &&& self.outstanding == count_in_flight(self.progress@)
    }

    /// A scheduler for `candidates` under `root`, with no ticket issued. A
    /// `limit` of zero sets no bound on the outstanding lookups.
    pub fn new(
        candidates: Vec<String>,
        root: String,
        limit: usize,
        signature: Option<Address>,
        keep_wildcard: bool,
    ) -> (fresh: Scheduler)
        ensures
            fresh.wf(),
            fresh@ == Run::start(
                candidates.deep_view(),
                root@,
                limit as nat,
                signature,
                keep_wildcard,
            ),
    {
        let mut phases: Vec<Phase> = Vec::new();
        let mut i: usize = 0;
        while i < candidates.len()
            invariant
                i <= candidates.len(),
                phases.len() == i,
                forall|k: int| 0 <= k < i ==> (#[trigger] phases[k]) == Phase::Queued,
            decreases candidates.len() - i,
        {
            phases.push(Phase::Queued);
            i += 1;
        }
        let ghost all = candidates.deep_view();
        let ghost tasks = Seq::new(all.len(), |i: int| Progress::Queued);
        let fresh = Scheduler {
            candidates,
            root,
            limit,
            signature,
            keep_wildcard,
            next: 0,
            outstanding: 0,
            phases,
            progress: Ghost(tasks),
            results: Aggregator::new(),
        };
        proof {
            lemma_start_valid(all, fresh.root@, limit as nat, signature, keep_wildcard);
        }
        fresh
    }

    /// Whether every candidate's lookup has ended.
    pub fn is_finished(&self) -> (done: bool)
        requires
            self.wf(),
        ensures
            done == self@.finished(),
    {
        proof {
            lemma_finished(self@);
        }
        self.next == self.phases.len() && self.outstanding == 0
    }

    /// The number of outstanding lookups.
    pub fn in_flight(&self) -> (n: usize)
        requires
            self.wf(),
        ensures
            n == self@.in_flight(),
            self@.limit > 0 ==> n <= self@.limit,
    {
        self.outstanding
    }

    /// The findings so far.
    pub fn results(&self) -> (results: &Aggregator)
        requires
            self.wf(),
        ensures
            results.wf(),
            results@ == self@.results,
    {
        &self.results
    }

    /// Ends the run and hands out its findings.
    pub fn into_results(self) -> (results: Aggregator)
        requires
            self.wf(),
        ensures
            results.wf(),
            results@ == self@.results,
    {
        self.results
    }

    /// Says what to do next. While a candidate is waiting and the limit
    /// leaves room, the next ticket is issued, for the next candidate in
    /// order. Failing that, the caller is told to wait while lookups are
    /// outstanding, and that the run is finished when none is.
    pub fn next_action(&mut self) -> (action: Action)
        requires
            old(self).wf(),
        ensures
            final(self).wf(),
            match action {
                Action::Resolve { ticket, name } => {
                    &&& old(self)@.can_issue()
                    &&& ticket == old(self)@.issued
                    &&& name@ == old(self)@.name(ticket as int)
                    &&& final(self)@ == old(self)@.issue()
                },
                Action::Wait => {
                    &&& !old(self)@.can_issue()
                    &&& !old(self)@.finished()
                    &&& old(self)@.in_flight() > 0
                    &&& final(self)@ == old(self)@
                },
                Action::Finished => {
                    &&& old(self)@.finished()
                    &&& final(self)@ == old(self)@
                },
            },
    {
        let ghost before = self@;
        proof {
            lemma_finished(before);
        }
        if self.next < self.phases.len() && (self.limit == 0 || self.outstanding < self.limit) {
            let ticket: usize = self.next;
            let name = full_domain(self.candidates[ticket].as_str(), self.root.as_str());
            proof {
                lemma_issue_valid(before);
                lemma_count_bounds(before.issue().tasks);
            }
            self.phases.set(ticket, Phase::InFlight);
            self.progress = Ghost(before.issue().tasks);
            self.next = ticket + 1;
            self.outstanding = self.outstanding + 1;
            Action::Resolve { ticket, name }
        } else if self.outstanding > 0 {
            Action::Wait
        } else {
            Action::Finished
        }
    }

    /// Takes the outcome of `ticket`. A ticket that is not out is rejected
    /// and changes nothing. Otherwise the ticket is done: a failure or
    /// wildcard noise is dropped, and a finding is submitted to the results
    /// under the candidate's full name, where it is new or a duplicate.
    pub fn complete(&mut self, ticket: usize, outcome: Lookup) -> (completion: Completion)
        requires
            old(self).wf(),
        ensures
            final(self).wf(),
            final(self)@ == old(self)@.deliver(ticket as int, outcome.addresses()),
            completion == old(self)@.completion(ticket as int, outcome.addresses()),
    {
        if ticket >= self.phases.len() {
            return Completion::Rejected;
        }
        if self.phases[ticket] != Phase::InFlight {
            return Completion::Rejected;
        }
        let ghost before = self@;
        let ghost addresses = outcome.addresses();
        proof {
            lemma_deliver_valid(before, ticket as int, addresses);
        }
        let verdict = judge(&outcome, self.signature, self.keep_wildcard);
        self.phases.set(ticket, Phase::Done);
        self.progress = Ghost(before.deliver(ticket as int, addresses).tasks);
        self.outstanding = self.outstanding - 1;
        let completion = match verdict {
            Verdict::Failed => Completion::Failed,
            Verdict::Noise => Completion::Noise,
            Verdict::Found => {
                let name = full_domain(self.candidates[ticket].as_str(), self.root.as_str());
                let list = match outcome {
                    Lookup::Answer(list) => list,
                    _ => Vec::new(),
                };
                if self.results.submit(name, list) {
                    Completion::Recorded
                } else {
                    Completion::Duplicate
                }
            },
        };
        completion
    }
}

} // verus!
