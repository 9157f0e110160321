//! The collection of findings: one entry per name, in discovery order.

use vstd::prelude::*;
use crate::address::Address;

verus! {

/// A discovered name with the addresses it resolved to.
#[derive(Debug, PartialEq, Eq)]
pub struct Finding {
    pub name: String,
    pub addresses: Vec<Address>,
}

/// What a finding says, as plain values.
pub struct Record {
    pub name: Seq<char>,
    pub addresses: Seq<Address>,
}

impl View for Finding {
    type V = Record;

    open spec fn view(&self) -> Record {
        Record { name: self.name@, addresses: self.addresses@ }
    }
}

impl DeepView for Finding {
    type V = Record;

    open spec fn deep_view(&self) -> Record {
        self@
    }
}

/// Whether some record of `records` is for `name`.
pub open spec fn has_name(records: Seq<Record>, name: Seq<char>) -> bool {
    exists|i: int| 0 <= i < records.len() && (#[trigger] records[i]).name == name
}

/// Whether no two records of `records` share a name.
pub open spec fn distinct_names(records: Seq<Record>) -> bool {
    forall|i: int, j: int|
        0 <= i < j < records.len() ==> (#[trigger] records[i]).name != (#[trigger] records[j]).name
}

/// The names of `records`, in their order.
pub open spec fn names_of(records: Seq<Record>) -> Seq<Seq<char>> {
    Seq::new(records.len(), |i: int| records[i].name)
}

/// The records after `name` was submitted with `addresses`: unchanged if the
/// name is already there, and with the new record at the end if not.
pub open spec fn submitted(records: Seq<Record>, name: Seq<char>, addresses: Seq<Address>) -> Seq<
    Record,
> {
    if has_name(records, name) {
        records
    } else {
        records.push(Record { name, addresses })
    }
}

/// Findings in the order of their discovery, at most one per name.
pub struct Aggregator {
    entries: Vec<Finding>,
}

impl View for Aggregator {
    type V = Seq<Record>;

    closed spec fn view(&self) -> Seq<Record> {
        self.entries.deep_view()
    }
}

fn copy_addresses(addresses: &Vec<Address>) -> (copy: Vec<Address>)
    ensures
        copy@ == addresses@,
{
    let mut copy: Vec<Address> = Vec::new();
    let mut i: usize = 0;
    while i < addresses.len()
        invariant
            i <= addresses.len(),
            copy@ == addresses@.take(i as int),
        decreases addresses.len() - i,
    {
        copy.push(addresses[i]);
        i += 1;
    }
    copy
}

impl Aggregator {
    /// The invariant of the collection: no name occurs twice.
    pub open spec fn wf(&self) -> bool {
        distinct_names(self@)
    }

    /// An empty collection.
    pub fn new() -> (fresh: Aggregator)
        ensures
            fresh.wf(),
            fresh@ == Seq::<Record>::empty(),
    {
        Aggregator { entries: Vec::new() }
    }

    /// The number of findings.
    pub fn len(&self) -> (n: usize)
        ensures
            n == self@.len(),
    {
        self.entries.len()
    }

    /// Whether nothing was found yet.
    pub fn is_empty(&self) -> (empty: bool)
        ensures
            empty == (self@.len() == 0),
    {
        self.entries.len() == 0
    }

    /// Whether `name` is among the findings.
    pub fn contains(&self, name: &String) -> (found: bool)
        ensures
            found == has_name(self@, name@),
    {
        let mut i: usize = 0;
        while i < self.entries.len()
            invariant
                i <= self.entries.len(),
                forall|k: int| 0 <= k < i ==> (#[trigger] self@[k]).name != name@,
            decreases self.entries.len() - i,
        {
            if self.entries[i].name == *name {
                assert(self@[i as int].name == name@);
                return true;
            }
            i += 1;
        }
        false
    }

    /// Records `name` with `addresses` unless the name is already recorded,
    /// and tells whether it was new. A name that is submitted again leaves
    /// the collection as it was, addresses of the first submission
    /// included.
    pub fn submit(&mut self, name: String, addresses: Vec<Address>) -> (added: bool)
        requires
            old(self).wf(),
        ensures
            final(self).wf(),
            added == !has_name(old(self)@, name@),
            final(self)@ == submitted(old(self)@, name@, addresses@),
    {
        if self.contains(&name) {
            false
        } else {
            let ghost before = self@;
            let ghost record = Record { name: name@, addresses: addresses@ };
            self.entries.push(Finding { name, addresses });
            assert(self@ =~= before.push(record));
            true
        }
    }

    /// The findings so far, in discovery order.
    pub fn snapshot(&self) -> (list: Vec<Finding>)
        requires
            self.wf(),
        ensures
            list.deep_view() == self@,
            distinct_names(list.deep_view()),
    {
        let mut list: Vec<Finding> = Vec::new();
        let mut i: usize = 0;
        while i < self.entries.len()
            invariant
                i <= self.entries.len(),
                list.deep_view() == self@.take(i as int),
            decreases self.entries.len() - i,
        {
            let entry = &self.entries[i];
            let ghost before = list.deep_view();
            let copy = Finding {
                name: entry.name.clone(),
                addresses: copy_addresses(&entry.addresses),
            };
            list.push(copy);
            assert(list.deep_view() =~= before.push(self@[i as int]));
            i += 1;
        }
        list
    }

    /// The names found so far, in discovery order.
    pub fn names(&self) -> (list: Vec<String>)
        ensures
            list.deep_view() == names_of(self@),
    {
        let mut list: Vec<String> = Vec::new();
        let mut i: usize = 0;
        while i < self.entries.len()
            invariant
                i <= self.entries.len(),
                list.deep_view() == names_of(self@).take(i as int),
            decreases self.entries.len() - i,
        {
            let ghost before = list.deep_view();
            let name = self.entries[i].name.clone();
            list.push(name);
            assert(list.deep_view() =~= before.push(names_of(self@)[i as int]));
            i += 1;
        }
        list
    }
}

} // verus!
