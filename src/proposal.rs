use vstd::prelude::*;
use vstd::string::StringExecFns;
use crate::error::{ZomeError, t};
use crate::person::EntryValidation;
use crate::store::{Address, AgentId, Dht, Entry, Record, entry_rejection};

verus! {

/// A proposal to change a collective. It is recorded, never applied.
#[derive(Debug)]
pub struct Proposal {
    pub name: String,
    /// Text of the proposal.
    pub content: String,
}

impl Clone for Proposal {
    fn clone(&self) -> (r: Proposal)
        ensures
            r == *self,
    {
        Proposal { name: self.name.clone(), content: self.content.clone() }
    }
}

impl Default for Proposal {
    fn default() -> (r: Proposal)
        ensures
            r.name@ == "unnamed proposal"@,
            r.content@ == Seq::<char>::empty(),
    {
        Proposal { name: String::from_str("unnamed proposal"), content: String::new() }
    }
}

/// Parameters of [`create_proposal`].
#[derive(Debug)]
pub struct ProposalParams {
    pub name: String,
    pub content: String,
}

/// What [`create_proposal`] returns.
#[derive(Debug)]
pub struct ProposalPayload {
    pub proposal_address: Address,
    pub proposal: Proposal,
}

/// Commits `proposal` as `author`.
fn commit_proposal(dht: &mut Dht, author: AgentId, proposal: Proposal) -> (r: Result<
    Address,
    ZomeError,
>)
    requires
        old(dht).wf(),
    ensures
        final(dht).wf(),
        r == Ok::<Address, ZomeError>(old(dht).records().len() as Address),
        final(dht).records() == old(dht).records().push(
            Record { entry: Entry::Proposal { proposal }, author, replaced_by: None },
        ),
        final(dht).links() == old(dht).links(),
{
    let ghost entry = Entry::Proposal { proposal };
    assert(entry_rejection(dht.records(), EntryValidation::Create { entry }, seq![author]) is None);
    dht.commit(Entry::Proposal { proposal }, author)
}

/// Records a proposal written by `author`.
pub fn create_proposal(dht: &mut Dht, author: AgentId, proposal_params: ProposalParams) -> (r:
    Result<ProposalPayload, ZomeError>)
    requires
        old(dht).wf(),
    ensures
        final(dht).wf(),
        r is Ok,
        r->Ok_0.proposal_address == old(dht).records().len(),
        r->Ok_0.proposal.name == proposal_params.name,
        r->Ok_0.proposal.content == proposal_params.content,
        final(dht).records() == old(dht).records().push(
            Record { entry: Entry::Proposal { proposal: r->Ok_0.proposal }, author, replaced_by: None },
        ),
        final(dht).links() == old(dht).links(),
{
    let proposal = Proposal { name: proposal_params.name, content: proposal_params.content };
    let committed = t("create_proposal: ", commit_proposal(dht, author, proposal.clone()));
    match committed {
        Ok(proposal_address) => Ok(ProposalPayload { proposal_address, proposal }),
        Err(e) => Err(e),
    }
}

} // verus!
