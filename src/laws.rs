use vstd::prelude::*;
use crate::action::{Action, ActionOp, actions_of};
use crate::collective::{Collective, collective_rejection, founded, people_of};
use crate::person::{EntryValidation, Person, name_fits, person_rejection};
use crate::store::{
    Address,
    AgentId,
    Entry,
    Link,
    LinkType,
    Record,
    entry_rejection,
    person_at,
    tagged_targets,
};

verus! {

/// A founded collective (the state `create_collective` promises on success)
/// has at least three actions in its journal, the creation, the naming and
/// the admission of its admin in that order, and exactly one participant,
/// its admin, linked as its creator.
pub proof fn law_founded_collective(
    rs: Seq<Record>,
    ls: Seq<Link>,
    c: Address,
    collective: Collective,
    admin: Address,
)
    requires
        founded(rs, ls, c, collective, admin),
        person_at(rs, admin as int) is Some,
    ensures
        actions_of(rs, ls, c) matches Some(s) && s.len() >= 3 && s[0].op
            == ActionOp::CreateCollective && s[1].op == ActionOp::SetCollectiveName && s[2].op
            == ActionOp::AddCollectivePerson,
        people_of(rs, ls, c) matches Some(p) && p.len() == 1 && p[0] == person_at(
            rs,
            admin as int,
        )->Some_0,
        tagged_targets(ls, c, LinkType::CollectivePerson, "Creator"@) == seq![admin],
{
    let ts = seq![admin];
    assert(ts[0] == admin);
    assert forall|i: int| 0 <= i < ts.len() implies (#[trigger] person_at(rs, ts[i] as int))
        is Some by {
        assert(i == 0);
    }
}

/// A participant whose owner identity is not the caller's is refused, when
/// it is created and when it is modified.
pub proof fn law_person_written_by_owner_only(
    rs: Seq<Record>,
    person: Person,
    old_person: Person,
    caller: AgentId,
)
    requires
        person.agent_address != caller,
    ensures
        person_rejection(EntryValidation::Create { entry: person }, seq![caller]) is Some,
        person_rejection(
            EntryValidation::Modify { new_entry: person, old_entry: old_person },
            seq![caller],
        ) is Some,
        entry_rejection(
            rs,
            EntryValidation::Create { entry: Entry::Person { person } },
            seq![caller],
        ) is Some,
        entry_rejection(
            rs,
            EntryValidation::Modify {
                new_entry: Entry::Person { person },
                old_entry: Entry::Person { person: old_person },
            },
            seq![caller],
        ) is Some,
{
    assert(!seq![caller].contains(person.agent_address)) by {
        if seq![caller].contains(person.agent_address) {
            let i = choose|i: int| 0 <= i < 1 && seq![caller][i] == person.agent_address;
            assert(seq![caller][i] == caller);
        }
    }
}

/// Deleting a participant or a collective is refused, whoever asks.
pub proof fn law_delete_refused(
    rs: Seq<Record>,
    person: Person,
    collective: Collective,
    sources: Seq<AgentId>,
)
    ensures
        person_rejection(EntryValidation::Delete { old_entry: person }, sources) is Some,
        collective_rejection(rs, EntryValidation::Delete { old_entry: collective }, sources) is Some,
        entry_rejection(
            rs,
            EntryValidation::Delete { old_entry: Entry::Person { person } },
            sources,
        ) is Some,
        entry_rejection(
            rs,
            EntryValidation::Delete { old_entry: Entry::Collective { collective } },
            sources,
        ) is Some,
{
}

/// A name of 64 characters fits and one of 65 does not: a participant that
/// its owner creates is accepted with the first and refused with the second.
pub proof fn law_name_length_bound(person: Person, caller: AgentId)
    requires
        person.agent_address == caller,
    ensures
        person.name@.len() <= 64 ==> name_fits(person.name@) && person_rejection(
            EntryValidation::Create { entry: person },
            seq![caller],
        ) is None,
        person.name@.len() >= 65 ==> !name_fits(person.name@) && person_rejection(
            EntryValidation::Create { entry: person },
            seq![caller],
        ) == Some("Name is too long"@),
{
    assert(seq![caller][0] == caller);
}

/// An action, once written, is never replaced by another version nor
/// deleted, whoever asks.
pub proof fn law_action_immutable(
    rs: Seq<Record>,
    action: Action,
    new_action: Action,
    sources: Seq<AgentId>,
)
    ensures
        entry_rejection(
            rs,
            EntryValidation::Modify {
                new_entry: Entry::Action { action: new_action },
                old_entry: Entry::Action { action },
            },
            sources,
        ) is Some,
        entry_rejection(rs, EntryValidation::Delete { old_entry: Entry::Action { action } }, sources)
            is Some,
{
}

/// A collective's admin is set once: a new version with another admin is
/// refused, whoever asks.
pub proof fn law_admin_fixed(
    rs: Seq<Record>,
    collective: Collective,
    new_collective: Collective,
    sources: Seq<AgentId>,
)
    requires
        new_collective.admin_address != collective.admin_address,
    ensures
        entry_rejection(
            rs,
            EntryValidation::Modify {
                new_entry: Entry::Collective { collective: new_collective },
                old_entry: Entry::Collective { collective },
            },
            sources,
        ) is Some,
{
}

} // verus!
