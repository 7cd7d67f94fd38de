use vstd::prelude::*;
use vstd::string::StringExecFns;
use crate::collective::Collective;
use crate::error::{ErrorKind, ZomeError, t};
use crate::person::EntryValidation;
use crate::store::{Address, AgentId, Dht, Entry, LinkType, Record, entry_rejection};

verus! {

/// A ledger to account for the transactions of a collective.
#[derive(Debug)]
pub struct Ledger {
    pub name: String,
}

impl Clone for Ledger {
    fn clone(&self) -> (r: Ledger)
        ensures
            r == *self,
    {
        Ledger { name: self.name.clone() }
    }
}

impl Default for Ledger {
    fn default() -> (r: Ledger)
        ensures
            r.name@ == "unnamed ledger"@,
    {
        Ledger { name: String::from_str("unnamed ledger") }
    }
}

/// Name of the ledger created with a collective called `collective_name`.
pub open spec fn primary_ledger_name(collective_name: Seq<char>) -> Seq<char> {
    "Primary Ledger for "@ + collective_name
}

/// Commits `ledger` as `author`.
pub fn commit_ledger(dht: &mut Dht, author: AgentId, ledger: Ledger) -> (r: Result<
    Address,
    ZomeError,
>)
    requires
        old(dht).wf(),
    ensures
        final(dht).wf(),
        r == Ok::<Address, ZomeError>(old(dht).records().len() as Address),
        final(dht).records() == old(dht).records().push(
            Record { entry: Entry::Ledger { ledger }, author, replaced_by: None },
        ),
        final(dht).links() == old(dht).links(),
{
    let ghost entry = Entry::Ledger { ledger };
    assert(entry_rejection(dht.records(), EntryValidation::Create { entry }, seq![author]) is None);
    t("commit_ledger: ", dht.commit(Entry::Ledger { ledger }, author))
}

/// Creates the primary ledger of the collective at `collective_address`
/// and links the collective to it.
pub fn create_collective_ledger(
    dht: &mut Dht,
    author: AgentId,
    collective: &Collective,
    collective_address: Address,
) -> (r: Result<Address, ZomeError>)
    requires
        old(dht).wf(),
    ensures
        final(dht).wf(),
        collective_address < old(dht).records().len() ==> {
            let n = old(dht).records().len() as Address;
            &&& r == Ok::<Address, ZomeError>(n)
            &&& final(dht).records().len() == n + 1
            &&& final(dht).records().drop_last() == old(dht).records()
            &&& final(dht).records().last().author == author
            &&& final(dht).records().last().replaced_by is None
            &&& final(dht).records().last().entry matches Entry::Ledger { ledger }
                && ledger.name@ == primary_ledger_name(collective.name@)
            &&& final(dht).links().len() == old(dht).links().len() + 1
            &&& final(dht).links().drop_last() == old(dht).links()
            &&& final(dht).links().last().base == collective_address
            &&& final(dht).links().last().target == n
            &&& final(dht).links().last().link_type == LinkType::CollectiveLedger
            &&& final(dht).links().last().tag@ == "ledger_primary"@
        },
        collective_address >= old(dht).records().len() ==> {
            &&& r is Err
            &&& r->Err_0.kind == ErrorKind::NotFound
            &&& r->Err_0.message@ == "create_collective_ledger: collective not found"@
            &&& final(dht).records() == old(dht).records()
            &&& final(dht).links() == old(dht).links()
        },
{
    if collective_address >= dht.len() {
        return Err(ZomeError::new(ErrorKind::NotFound, "create_collective_ledger: collective not found"));
    }
    let ledger_name = String::from_str("Primary Ledger for ").concat(collective.name.as_str());
    let ledger = Ledger { name: ledger_name };
    let ledger_address = match t("create_collective_ledger: ", commit_ledger(dht, author, ledger)) {
        Ok(a) => a,
        Err(e) => {
            return Err(e);
        },
    };
    let linked = t(
        "create_collective_ledger: collective->ledger: ",
        dht.link(
            collective_address,
            ledger_address,
            LinkType::CollectiveLedger,
            String::from_str("ledger_primary"),
        ),
    );
    if let Err(e) = linked {
        return Err(e);
    }
    assert(dht.records().drop_last() =~= old(dht).records());
    assert(dht.links().drop_last() =~= old(dht).links());
    Ok(ledger_address)
}

} // verus!
