use vstd::prelude::*;
use vstd::string::StringExecFns;
use crate::action::Action;
use crate::collective::{Collective, collective_rejection, validate_collective};
use crate::error::{ErrorKind, ZomeError};
use crate::ledger::Ledger;
use crate::person::{EntryValidation, Person, person_rejection, validate_person};
use crate::proposal::Proposal;

verus! {

/// Address of a record in the store.
pub type Address = usize;

/// Identity of an agent that writes to the store.
pub type AgentId = u64;

/// A record of any of the types the store holds.
#[derive(Debug)]
pub enum Entry {
    Person { person: Person },
    Collective { collective: Collective },
    Ledger { ledger: Ledger },
    Proposal { proposal: Proposal },
    Action { action: Action },
}

impl Clone for Entry {
    fn clone(&self) -> (r: Entry)
        ensures
            r == *self,
    {
        match self {
            Entry::Person { person } => Entry::Person { person: person.clone() },
            Entry::Collective { collective } => Entry::Collective { collective: collective.clone() },
            Entry::Ledger { ledger } => Entry::Ledger { ledger: ledger.clone() },
            Entry::Proposal { proposal } => Entry::Proposal { proposal: proposal.clone() },
            Entry::Action { action } => Entry::Action { action: action.clone() },
        }
    }
}

/// One write: the entry, the identity that wrote it, and the later record
/// that superseded it, if any.
#[derive(Debug)]
pub struct Record {
    pub entry: Entry,
    pub author: AgentId,
    pub replaced_by: Option<Address>,
}

/// The kinds of directed edges between records.
#[derive(PartialEq, Eq, Structural, Clone, Copy, Debug)]
pub enum LinkType {
    /// From a collective to an action of its journal.
    CollectiveAction,
    /// From a parent action to a child action.
    ParentChildAction,
    /// From a collective to one of its participants; the tag is the role.
    CollectivePerson,
    /// From a collective to its ledger.
    CollectiveLedger,
}

/// A labelled directed edge from `base` to `target`.
#[derive(Debug)]
pub struct Link {
    pub base: Address,
    pub target: Address,
    pub link_type: LinkType,
    pub tag: String,
}

/// The content store and the link index: an append-only table of records,
/// where a record's address is its position, and an append-only list of
/// links in the order they were made.
#[derive(Debug)]
pub struct Dht {
    records: Vec<Record>,
    links: Vec<Link>,
}

/// The record that `a` stands for now: `a` itself, or the end of the chain of
/// records that superseded it.
pub open spec fn resolve(rs: Seq<Record>, a: int) -> int
    decreases rs.len() - a,
{
    if 0 <= a < rs.len() && rs[a].replaced_by is Some && a < rs[a].replaced_by->Some_0
        && rs[a].replaced_by->Some_0 < rs.len() {
        resolve(rs, rs[a].replaced_by->Some_0 as int)
    } else {
        a
    }
}

/// A record superseded by the record at `n`.
pub open spec fn superseded(r: Record, n: Address) -> Record {
    Record { entry: r.entry, author: r.author, replaced_by: Some(n) }
}

/// The table after a record at the end supersedes the current record of `a`.
pub open spec fn supersede_records(rs: Seq<Record>, a: int, rec: Record) -> Seq<Record> {
    let r = resolve(rs, a);
    rs.push(rec).update(r, superseded(rs[r], rs.len() as Address))
}

/// Every supersession points forward, into the table.
pub open spec fn records_wf(rs: Seq<Record>) -> bool {
    forall|i: int|
        0 <= i < rs.len() && (#[trigger] rs[i]).replaced_by is Some ==> i
            < rs[i].replaced_by->Some_0 < rs.len()
}

/// Every link joins two records of a table of `n` records.
pub open spec fn links_wf(ls: Seq<Link>, n: nat) -> bool {
    forall|i: int| 0 <= i < ls.len() ==> (#[trigger] ls[i]).base < n && ls[i].target < n
}

/// The current entry at address `a`, if `a` is in the table.
pub open spec fn entry_at(rs: Seq<Record>, a: int) -> Option<Entry> {
    if 0 <= a < rs.len() {
        Some(rs[resolve(rs, a)].entry)
    } else {
        None
    }
}

pub open spec fn person_at(rs: Seq<Record>, a: int) -> Option<Person> {
    match entry_at(rs, a) {
        Some(Entry::Person { person }) => Some(person),
        _ => None,
    }
}

pub open spec fn collective_at(rs: Seq<Record>, a: int) -> Option<Collective> {
    match entry_at(rs, a) {
        Some(Entry::Collective { collective }) => Some(collective),
        _ => None,
    }
}

pub open spec fn action_at(rs: Seq<Record>, a: int) -> Option<Action> {
    match entry_at(rs, a) {
        Some(Entry::Action { action }) => Some(action),
        _ => None,
    }
}

pub open spec fn ledger_at(rs: Seq<Record>, a: int) -> Option<Ledger> {
    match entry_at(rs, a) {
        Some(Entry::Ledger { ledger }) => Some(ledger),
        _ => None,
    }
}

/// Targets of the links of type `lt` from `base`, in the order the links were
/// made.
pub open spec fn targets(ls: Seq<Link>, base: Address, lt: LinkType) -> Seq<Address>
    decreases ls.len(),
{
    if ls.len() == 0 {
        Seq::empty()
    } else {
        let prev = targets(ls.drop_last(), base, lt);
        if ls.last().base == base && ls.last().link_type == lt {
            prev.push(ls.last().target)
        } else {
            prev
        }
    }
}

/// Targets of the links of type `lt` and tag `tag` from `base`, in the order
/// the links were made.
pub open spec fn tagged_targets(ls: Seq<Link>, base: Address, lt: LinkType, tag: Seq<char>) -> Seq<
    Address,
>
    decreases ls.len(),
{
    if ls.len() == 0 {
        Seq::empty()
    } else {
        let prev = tagged_targets(ls.drop_last(), base, lt, tag);
        if ls.last().base == base && ls.last().link_type == lt && ls.last().tag@ == tag {
            prev.push(ls.last().target)
        } else {
            prev
        }
    }
}

/// Why admission control refuses to create `entry`, or to replace `old_entry`
/// by it, if it does. Participants and collectives have their own rules;
/// an action is never modified or deleted.
pub open spec fn entry_rejection(
    rs: Seq<Record>,
    op: EntryValidation<Entry>,
    sources: Seq<AgentId>,
) -> Option<Seq<char>> {
    match op {
        EntryValidation::Create { entry } => match entry {
            Entry::Person { person } => person_rejection(
                EntryValidation::Create { entry: person },
                sources,
            ),
            Entry::Collective { collective } => collective_rejection(
                rs,
                EntryValidation::Create { entry: collective },
                sources,
            ),
            _ => None,
        },
        EntryValidation::Modify { new_entry, old_entry } => match (new_entry, old_entry) {
            (Entry::Person { person: n }, Entry::Person { person: o }) => person_rejection(
                EntryValidation::Modify { new_entry: n, old_entry: o },
                sources,
            ),
            (Entry::Collective { collective: n }, Entry::Collective { collective: o }) => {
                collective_rejection(rs, EntryValidation::Modify { new_entry: n, old_entry: o }, sources)
            },
            (Entry::Ledger { .. }, Entry::Ledger { .. }) => None,
            (Entry::Proposal { .. }, Entry::Proposal { .. }) => None,
            (Entry::Action { .. }, Entry::Action { .. }) => Some("Action cannot be modified"@),
            _ => Some("Entry type cannot be changed"@),
        },
        EntryValidation::Delete { old_entry } => match old_entry {
            Entry::Person { person } => person_rejection(
                EntryValidation::Delete { old_entry: person },
                sources,
            ),
            Entry::Collective { collective } => collective_rejection(
                rs,
                EntryValidation::Delete { old_entry: collective },
                sources,
            ),
            Entry::Action { .. } => Some("Action cannot be deleted"@),
            _ => None,
        },
    }
}

/// The resolved address lies in the table, at or after `a`, and is superseded
/// by nothing.
pub proof fn lemma_resolve_bounds(rs: Seq<Record>, a: int)
    requires
        records_wf(rs),
        0 <= a < rs.len(),
    ensures
        a <= resolve(rs, a) < rs.len(),
        rs[resolve(rs, a)].replaced_by is None,
    decreases rs.len() - a,
{
    if rs[a].replaced_by is Some {
        lemma_resolve_bounds(rs, rs[a].replaced_by->Some_0 as int);
    }
}

/// Appending a record that nothing supersedes leaves every address resolving
/// as before, and the new address resolves to itself.
pub proof fn lemma_resolve_push(rs: Seq<Record>, rec: Record, a: int)
    requires
        records_wf(rs),
        rec.replaced_by is None,
        0 <= a <= rs.len(),
    ensures
        a < rs.len() ==> resolve(rs.push(rec), a) == resolve(rs, a),
        a == rs.len() ==> resolve(rs.push(rec), a) == a,
    decreases rs.len() - a,
{
    let rs2 = rs.push(rec);
    if a < rs.len() {
        assert(rs2[a] == rs[a]);
        if rs[a].replaced_by is Some {
            lemma_resolve_push(rs, rec, rs[a].replaced_by->Some_0 as int);
        }
    } else {
        assert(rs2[a] == rec);
    }
}

/// Superseding the current record of `a` by a new record at the end: what
/// resolved to that record now resolves to the new one; the rest is as it
/// was.
pub proof fn lemma_resolve_supersede(rs: Seq<Record>, rec: Record, a: int, x: int)
    requires
        records_wf(rs),
        rec.replaced_by is None,
        rs.len() <= usize::MAX,
        0 <= a < rs.len(),
        0 <= x < rs.len(),
    ensures
        ({
            let r = resolve(rs, a);
            let rs2 = rs.push(rec).update(r, superseded(rs[r], rs.len() as Address));
            &&& resolve(rs, x) == r ==> resolve(rs2, x) == rs.len()
            &&& resolve(rs, x) != r ==> resolve(rs2, x) == resolve(rs, x)
        }),
    decreases rs.len() - x,
{
    let r = resolve(rs, a);
    lemma_resolve_bounds(rs, a);
    lemma_resolve_bounds(rs, x);
    let n = rs.len() as Address;
    let rs2 = rs.push(rec).update(r, superseded(rs[r], n));
    assert(rs2[n as int] == rec);
    if x == r {
        assert(rs2[x].replaced_by == Some(n));
        assert(resolve(rs2, n as int) == n);
    } else {
        assert(rs2[x] == rs[x]);
        if rs[x].replaced_by is Some {
            lemma_resolve_supersede(rs, rec, a, rs[x].replaced_by->Some_0 as int);
        }
    }
}

/// No link starts at `base`, so none of its types has targets.
pub proof fn lemma_targets_none(ls: Seq<Link>, base: Address, lt: LinkType, tag: Seq<char>)
    requires
        forall|i: int| 0 <= i < ls.len() ==> (#[trigger] ls[i]).base != base,
    ensures
        targets(ls, base, lt) == Seq::<Address>::empty(),
        tagged_targets(ls, base, lt, tag) == Seq::<Address>::empty(),
    decreases ls.len(),
{
    if ls.len() > 0 {
        lemma_targets_none(ls.drop_last(), base, lt, tag);
        assert(ls[ls.len() - 1].base != base);
    }
}

/// `s2` is `s1` with one more element: it agrees with `s1` on `s1`'s
/// positions.
pub proof fn lemma_drop_last_prefix<A>(s1: Seq<A>, s2: Seq<A>)
    requires
        s2.len() == s1.len() + 1,
        s2.drop_last() == s1,
    ensures
        forall|i: int| 0 <= i < s1.len() ==> #[trigger] s2[i] == s1[i],
{
    assert forall|i: int| 0 <= i < s1.len() implies #[trigger] s2[i] == s1[i] by {
        assert(s2.drop_last()[i] == s2[i]);
    }
}

/// One more record, superseded by nothing, at the end of the table: the old
/// addresses read as before, and the new one reads as the new record.
pub proof fn lemma_extend_records(rs: Seq<Record>, rs2: Seq<Record>)
    requires
        records_wf(rs),
        rs2.len() == rs.len() + 1,
        rs2.drop_last() == rs,
        rs2.last().replaced_by is None,
    ensures
        forall|x: int| 0 <= x < rs.len() ==> #[trigger] entry_at(rs2, x) == entry_at(rs, x),
        entry_at(rs2, rs.len() as int) == Some(rs2.last().entry),
{
    assert(rs2 =~= rs.push(rs2.last()));
    assert forall|x: int| 0 <= x < rs.len() implies #[trigger] entry_at(rs2, x) == entry_at(rs, x) by {
        lemma_resolve_push(rs, rs2.last(), x);
        lemma_resolve_bounds(rs, x);
        assert(rs2[resolve(rs, x)] == rs[resolve(rs, x)]);
    }
    lemma_resolve_push(rs, rs2.last(), rs.len() as int);
}

/// [`lemma_extend_records`], for a table given as a push.
pub proof fn lemma_push_record(rs: Seq<Record>, rec: Record)
    requires
        records_wf(rs),
        rec.replaced_by is None,
    ensures
        forall|x: int| 0 <= x < rs.len() ==> #[trigger] entry_at(rs.push(rec), x) == entry_at(rs, x),
        entry_at(rs.push(rec), rs.len() as int) == Some(rec.entry),
{
    assert(rs.push(rec).drop_last() =~= rs);
    lemma_extend_records(rs, rs.push(rec));
}

/// What an address reads as after a supersession of the current record of
/// `a`: the new entry where it read as `a` did, else what it read as before.
pub proof fn lemma_supersede_entry(rs: Seq<Record>, a: int, rec: Record, x: int)
    requires
        records_wf(rs),
        rec.replaced_by is None,
        rs.len() <= usize::MAX,
        0 <= a < rs.len(),
        0 <= x < rs.len(),
    ensures
        resolve(rs, x) == resolve(rs, a) ==> entry_at(rs, x) == entry_at(rs, a)
            && entry_at(supersede_records(rs, a, rec), x) == Some(rec.entry),
        resolve(rs, x) != resolve(rs, a) ==> entry_at(supersede_records(rs, a, rec), x)
            == entry_at(rs, x),
{
    let rs2 = supersede_records(rs, a, rec);
    lemma_resolve_bounds(rs, a);
    lemma_resolve_bounds(rs, x);
    lemma_resolve_supersede(rs, rec, a, x);
    assert(rs2[rs.len() as int] == rec);
    if resolve(rs, x) != resolve(rs, a) {
        assert(rs2[resolve(rs, x)] == rs[resolve(rs, x)]);
    }
}

/// Every target of a link of a well-formed store lies in its table.
pub proof fn lemma_targets_bounded(ls: Seq<Link>, base: Address, lt: LinkType, n: nat)
    requires
        links_wf(ls, n),
    ensures
        forall|i: int|
            0 <= i < targets(ls, base, lt).len() ==> #[trigger] targets(ls, base, lt)[i] < n,
    decreases ls.len(),
{
    if ls.len() > 0 {
        assert(links_wf(ls.drop_last(), n)) by {
            assert forall|i: int| 0 <= i < ls.drop_last().len() implies (
            #[trigger] ls.drop_last()[i]).base < n && ls.drop_last()[i].target < n by {
                assert(ls.drop_last()[i] == ls[i]);
            }
        }
        lemma_targets_bounded(ls.drop_last(), base, lt, n);
        assert(ls[ls.len() - 1].target < n);
        let prev = targets(ls.drop_last(), base, lt);
        assert forall|i: int|
            0 <= i < targets(ls, base, lt).len() implies #[trigger] targets(ls, base, lt)[i] < n by {
            if i < prev.len() {
                assert(targets(ls, base, lt)[i] == prev[i]);
            }
        }
    }
}

impl Dht {
    /// The record table.
    pub closed spec fn records(&self) -> Seq<Record> {
        self.records@
    }

    /// The links, in the order they were made.
    pub closed spec fn links(&self) -> Seq<Link> {
        self.links@
    }

    pub open spec fn wf(&self) -> bool {
        &&& records_wf(self.records())
        &&& links_wf(self.links(), self.records().len())
        &&& self.records().len() <= usize::MAX
    }

    /// An empty store.
    pub fn new() -> (r: Dht)
        ensures
            r.wf(),
            r.records() == Seq::<Record>::empty(),
            r.links() == Seq::<Link>::empty(),
    {
        Dht { records: Vec::new(), links: Vec::new() }
    }

    /// Number of records written so far; the next write gets this address.
    pub fn len(&self) -> (r: usize)
        ensures
            r == self.records().len(),
    {
        self.records.len()
    }

    fn resolve_exec(&self, a: Address) -> (r: Address)
        requires
            self.wf(),
            a < self.records().len(),
        ensures
            r == resolve(self.records(), a as int),
            r < self.records().len(),
    {
        let mut cur = a;
        while self.records[cur].replaced_by.is_some()
            invariant
                self.wf(),
                cur < self.records().len(),
                resolve(self.records(), a as int) == resolve(self.records(), cur as int),
            decreases self.records().len() - cur,
        {
            cur = self.records[cur].replaced_by.unwrap();
        }
        cur
    }

    /// The current entry at `a`, following supersessions.
    pub fn get(&self, a: Address) -> (r: Option<Entry>)
        requires
            self.wf(),
        ensures
            r == entry_at(self.records(), a as int),
    {
        if a >= self.records.len() {
            return None;
        }
        let cur = self.resolve_exec(a);
        Some(self.records[cur].entry.clone())
    }

    /// The current participant at `a`, if `a` holds one.
    pub fn get_person(&self, a: Address) -> (r: Option<Person>)
        requires
            self.wf(),
        ensures
            r == person_at(self.records(), a as int),
    {
        match self.get(a) {
            Some(Entry::Person { person }) => Some(person),
            _ => None,
        }
    }

    /// The current collective at `a`, if `a` holds one.
    pub fn get_collective(&self, a: Address) -> (r: Option<Collective>)
        requires
            self.wf(),
        ensures
            r == collective_at(self.records(), a as int),
    {
        match self.get(a) {
            Some(Entry::Collective { collective }) => Some(collective),
            _ => None,
        }
    }

    /// The action at `a`, if `a` holds one.
    pub fn get_action(&self, a: Address) -> (r: Option<Action>)
        requires
            self.wf(),
        ensures
            r == action_at(self.records(), a as int),
    {
        match self.get(a) {
            Some(Entry::Action { action }) => Some(action),
            _ => None,
        }
    }

    fn validate_entry(&self, op: &EntryValidation<Entry>, sources: &Vec<AgentId>) -> (r: Result<
        (),
        String,
    >)
        requires
            self.wf(),
            !(op is Delete),
        ensures
            r is Ok <==> entry_rejection(self.records(), *op, sources@) is None,
            r is Err ==> r->Err_0@ == entry_rejection(self.records(), *op, sources@)->Some_0,
    {
        match op {
            EntryValidation::Create { entry } => match entry {
                Entry::Person { person } => validate_person(
                    &EntryValidation::Create { entry: person.clone() },
                    sources,
                ),
                Entry::Collective { collective } => validate_collective(
                    self,
                    &EntryValidation::Create { entry: collective.clone() },
                    sources,
                ),
                _ => Ok(()),
            },
            EntryValidation::Modify { new_entry, old_entry } => match (new_entry, old_entry) {
                (Entry::Person { person: n }, Entry::Person { person: o }) => validate_person(
                    &EntryValidation::Modify { new_entry: n.clone(), old_entry: o.clone() },
                    sources,
                ),
                (Entry::Collective { collective: n }, Entry::Collective { collective: o }) => {
                    validate_collective(
                        self,
                        &EntryValidation::Modify { new_entry: n.clone(), old_entry: o.clone() },
                        sources,
                    )
                },
                (Entry::Ledger { .. }, Entry::Ledger { .. }) => Ok(()),
                (Entry::Proposal { .. }, Entry::Proposal { .. }) => Ok(()),
                (Entry::Action { .. }, Entry::Action { .. }) => Err(
                    String::from_str("Action cannot be modified"),
                ),
                _ => Err(String::from_str("Entry type cannot be changed")),
            },
            EntryValidation::Delete { .. } => Ok(()),
        }
    }

    /// Writes `entry` as `author`, after admission control, at the next free
    /// address.
    pub fn commit(&mut self, entry: Entry, author: AgentId) -> (r: Result<Address, ZomeError>)
        requires
            old(self).wf(),
        ensures
            final(self).wf(),
            final(self).links() == old(self).links(),
            match entry_rejection(
                old(self).records(),
                EntryValidation::Create { entry },
                seq![author],
            ) {
                None => {
                    &&& r == Ok::<Address, ZomeError>(old(self).records().len() as Address)
                    &&& final(self).records() == old(self).records().push(
                        Record { entry, author, replaced_by: None },
                    )
                },
                Some(m) => {
                    &&& r is Err
                    &&& r->Err_0.kind == ErrorKind::ValidationRejected
                    &&& r->Err_0.message@ == m
                    &&& final(self).records() == old(self).records()
                },
            },
    {
        let sources = vec![author];
        assert(sources@ =~= seq![author]);
        let op = EntryValidation::Create { entry: entry.clone() };
        match self.validate_entry(&op, &sources) {
            Err(message) => Err(ZomeError { kind: ErrorKind::ValidationRejected, message }),
            Ok(()) => {
                let a = self.records.len();
                self.records.push(Record { entry, author, replaced_by: None });
                assert(self.records@.len() <= usize::MAX) by {
                    assert(self.records.len() == self.records@.len());
                }
                Ok(a)
            },
        }
    }

    /// Writes `entry` as `author` as the new version of the current record of
    /// `a`, after admission control has compared it with that record.
    pub fn update(&mut self, a: Address, entry: Entry, author: AgentId) -> (r: Result<
        Address,
        ZomeError,
    >)
        requires
            old(self).wf(),
        ensures
            final(self).wf(),
            final(self).links() == old(self).links(),
            a >= old(self).records().len() ==> {
                &&& r is Err
                &&& r->Err_0.kind == ErrorKind::NotFound
                &&& final(self).records() == old(self).records()
            },
            a < old(self).records().len() ==> match entry_rejection(
                old(self).records(),
                EntryValidation::Modify {
                    new_entry: entry,
                    old_entry: entry_at(old(self).records(), a as int)->Some_0,
                },
                seq![author],
            ) {
                None => {
                    &&& r == Ok::<Address, ZomeError>(old(self).records().len() as Address)
                    &&& final(self).records() == supersede_records(
                        old(self).records(),
                        a as int,
                        Record { entry, author, replaced_by: None },
                    )
                },
                Some(m) => {
                    &&& r is Err
                    &&& r->Err_0.kind == ErrorKind::ValidationRejected
                    &&& r->Err_0.message@ == m
                    &&& final(self).records() == old(self).records()
                },
            },
    {
        if a >= self.records.len() {
            return Err(ZomeError::new(ErrorKind::NotFound, "address not found"));
        }
        let cur = self.resolve_exec(a);
        let sources = vec![author];
        assert(sources@ =~= seq![author]);
        let op = EntryValidation::Modify {
            new_entry: entry.clone(),
            old_entry: self.records[cur].entry.clone(),
        };
        match self.validate_entry(&op, &sources) {
            Err(message) => Err(ZomeError { kind: ErrorKind::ValidationRejected, message }),
            Ok(()) => {
                let n = self.records.len();
                let prev = Record {
                    entry: self.records[cur].entry.clone(),
                    author: self.records[cur].author,
                    replaced_by: Some(n),
                };
                let ghost rs = self.records@;
                proof {
                    lemma_resolve_bounds(rs, a as int);
                }
                self.records.push(Record { entry, author, replaced_by: None });
                self.records.set(cur, prev);
                assert(self.records@.len() <= usize::MAX) by {
                    assert(self.records.len() == self.records@.len());
                }
                assert(self.records@ =~= supersede_records(
                    rs,
                    a as int,
                    Record { entry, author, replaced_by: None },
                ));
                assert(records_wf(self.records@)) by {
                    assert forall|i: int|
                        0 <= i < self.records@.len() && (
                        #[trigger] self.records@[i]).replaced_by is Some implies i
                        < self.records@[i].replaced_by->Some_0 < self.records@.len() by {
                        if i != cur && i != n {
                            assert(self.records@[i] == rs[i]);
                        }
                    }
                }
                Ok(n)
            },
        }
    }

    /// Links `base` to `target`; both must be in the table.
    pub fn link(&mut self, base: Address, target: Address, link_type: LinkType, tag: String) -> (r:
        Result<(), ZomeError>)
        requires
            old(self).wf(),
        ensures
            final(self).wf(),
            final(self).records() == old(self).records(),
            base < old(self).records().len() && target < old(self).records().len() ==> {
                &&& r is Ok
                &&& final(self).links() == old(self).links().push(
                    Link { base, target, link_type, tag },
                )
            },
            !(base < old(self).records().len() && target < old(self).records().len()) ==> {
                &&& r is Err
                &&& r->Err_0.kind == ErrorKind::SubstrateFailure
                &&& final(self).links() == old(self).links()
            },
    {
        if base >= self.records.len() || target >= self.records.len() {
            return Err(ZomeError::new(ErrorKind::SubstrateFailure, "link end not found"));
        }
        self.links.push(Link { base, target, link_type, tag });
        assert(links_wf(self.links@, self.records@.len())) by {
            assert forall|i: int| 0 <= i < self.links@.len() implies (
            #[trigger] self.links@[i]).base < self.records@.len() && self.links@[i].target
                < self.records@.len() by {
                if i < self.links@.len() - 1 {
                    assert(self.links@[i] == old(self).links@[i]);
                }
            }
        }
        Ok(())
    }

    /// Targets of the links of type `lt` from `base`, oldest link first.
    pub fn link_targets(&self, base: Address, lt: LinkType) -> (r: Vec<Address>)
        ensures
            r@ == targets(self.links(), base, lt),
    {
        let mut out: Vec<Address> = Vec::new();
        let mut i: usize = 0;
        while i < self.links.len()
            invariant
                i <= self.links@.len(),
                out@ == targets(self.links@.take(i as int), base, lt),
            decreases self.links@.len() - i,
        {
            assert(self.links@.take(i as int + 1).drop_last() =~= self.links@.take(i as int));
            let l = &self.links[i];
            if l.base == base && l.link_type == lt {
                out.push(l.target);
            }
            i = i + 1;
        }
        assert(self.links@.take(i as int) =~= self.links@);
        out
    }

    /// Targets of the links of type `lt` and tag `tag` from `base`, oldest
    /// link first.
    pub fn tagged_link_targets(&self, base: Address, lt: LinkType, tag: &str) -> (r: Vec<Address>)
        ensures
            r@ == tagged_targets(self.links(), base, lt, tag@),
    {
        let wanted = String::from_str(tag);
        let mut out: Vec<Address> = Vec::new();
        let mut i: usize = 0;
        while i < self.links.len()
            invariant
                wanted@ == tag@,
                i <= self.links@.len(),
                out@ == tagged_targets(self.links@.take(i as int), base, lt, tag@),
            decreases self.links@.len() - i,
        {
            assert(self.links@.take(i as int + 1).drop_last() =~= self.links@.take(i as int));
            let l = &self.links[i];
            if l.base == base && l.link_type == lt && l.tag == wanted {
                out.push(l.target);
            }
            i = i + 1;
        }
        assert(self.links@.take(i as int) =~= self.links@);
        out
    }
}

/// The current entry at `address`, of whatever type.
pub fn get_entry(dht: &Dht, address: Address) -> (r: Result<Option<Entry>, ZomeError>)
    requires
        dht.wf(),
    ensures
        r == Ok::<Option<Entry>, ZomeError>(entry_at(dht.records(), address as int)),
{
    Ok(dht.get(address))
}

} // verus!
