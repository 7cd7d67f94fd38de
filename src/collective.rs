use vstd::prelude::*;
use vstd::string::StringExecFns;
use crate::action::{
    ActionData,
    ActionOp,
    appended_action,
    actions_of,
    create_collective_action,
    is_system_action,
};
use crate::error::{ErrorKind, ZomeError, t, tag_error};
use crate::ledger::{create_collective_ledger, primary_ledger_name};
use crate::person::{
    EntryValidation,
    Person,
    PersonParams,
    PersonPayload,
    PersonStatus,
    contains_agent,
    create_person,
    get_person,
};
use crate::store::{
    Address,
    AgentId,
    Dht,
    Entry,
    Link,
    LinkType,
    Record,
    collective_at,
    ledger_at,
    lemma_extend_records,
    lemma_drop_last_prefix,
    lemma_push_record,
    lemma_resolve_bounds,
    lemma_supersede_entry,
    lemma_targets_bounded,
    lemma_targets_none,
    supersede_records,
    action_at,
    person_at,
    tagged_targets,
    targets,
};

verus! {

/// A collective: a name and the address of its admin participant.
#[derive(Debug)]
pub struct Collective {
    pub name: String,
    /// Set once, when the collective is created.
    pub admin_address: Option<Address>,
}

impl Clone for Collective {
    fn clone(&self) -> (r: Collective)
        ensures
            r == *self,
    {
        Collective { name: self.name.clone(), admin_address: self.admin_address }
    }
}

impl Default for Collective {
    fn default() -> (r: Collective)
        ensures
            r.name@ == "unnamed collective"@,
            r.admin_address is None,
    {
        Collective { name: String::from_str("unnamed collective"), admin_address: None }
    }
}

/// Parameters of [`create_collective`]: a name and, optionally, the address
/// of an existing participant to be the admin.
#[derive(Debug)]
pub struct CreateCollectiveParams {
    pub name: String,
    pub admin_address: Option<Address>,
}

/// Parameters of [`set_collective_name`].
#[derive(Debug)]
pub struct SetCollectiveNameParams {
    pub collective_address: Address,
    pub name: String,
}

/// A collective and its address.
#[derive(Debug)]
pub struct CollectivePayload {
    pub collective_address: Address,
    pub collective: Collective,
}

/// The role of a participant in a collective, carried as the tag of the link
/// from the collective to the participant.
#[derive(PartialEq, Eq, Structural, Clone, Copy, Debug)]
pub enum CollectivePersonTag {
    /// Creator of the collective.
    Creator,
}

impl CollectivePersonTag {
    /// The role's name, as the link tag spells it.
    pub fn to_string(&self) -> (r: String)
        ensures
            r@ == "Creator"@,
    {
        String::from_str("Creator")
    }
}

/// The participants of a collective.
#[derive(Debug)]
pub struct CollectivePeoplePayload {
    pub collective_address: Address,
    pub collective_people: Vec<Person>,
}

/// The creator of a collective.
#[derive(Debug)]
pub struct CollectiveCreatorPayload {
    pub collective_address: Address,
    pub collective_creator: Person,
}

/// Why admission control refuses a write of a collective, if it does: its
/// admin's owner identity must be among the sources, at creation and at every
/// change, the admin never changes, and it is never deleted.
pub open spec fn collective_rejection(
    rs: Seq<Record>,
    op: EntryValidation<Collective>,
    sources: Seq<AgentId>,
) -> Option<Seq<char>> {
    match op {
        EntryValidation::Create { entry } => match entry.admin_address {
            None => Some("Collective being created must have an admin"@),
            Some(a) => match person_at(rs, a as int) {
                None => Some("Collective admin not found"@),
                Some(admin) => if sources.contains(admin.agent_address) {
                    None
                } else {
                    Some("Collective must be created with same agent as the given person"@)
                },
            },
        },
        EntryValidation::Modify { new_entry, old_entry } => if new_entry.admin_address
            != old_entry.admin_address {
            Some("admin_address cannot be updated"@)
        } else {
            match old_entry.admin_address {
            None => Some("Collective can only be modified with an executed proposal"@),
            Some(a) => match person_at(rs, a as int) {
                None => Some("Collective admin not found"@),
                Some(admin) => if sources.contains(admin.agent_address) {
                    None
                } else {
                    Some("Collective can only be modified by the admin"@)
                },
            },
            }
        },
        EntryValidation::Delete { .. } => Some("Collective cannot be deleted"@),
    }
}

fn check_admin(dht: &Dht, admin_address: Address, sources: &Vec<AgentId>, refusal: &str) -> (r:
    Result<(), String>)
    requires
        dht.wf(),
    ensures
        r is Ok <==> (person_at(dht.records(), admin_address as int) is Some && sources@.contains(
            person_at(dht.records(), admin_address as int)->Some_0.agent_address,
        )),
        r is Err ==> r->Err_0@ == (if person_at(dht.records(), admin_address as int) is None {
            "Collective admin not found"@
        } else {
            refusal@
        }),
{
    match dht.get_person(admin_address) {
        None => Err(String::from_str("Collective admin not found")),
        Some(admin) => if contains_agent(sources, admin.agent_address) {
            Ok(())
        } else {
            Err(String::from_str(refusal))
        },
    }
}

/// Admission control of a collective. The admin is read from `dht`.
pub fn validate_collective(
    dht: &Dht,
    op: &EntryValidation<Collective>,
    sources: &Vec<AgentId>,
) -> (r: Result<(), String>)
    requires
        dht.wf(),
    ensures
        r is Ok <==> collective_rejection(dht.records(), *op, sources@) is None,
        r is Err ==> r->Err_0@ == collective_rejection(dht.records(), *op, sources@)->Some_0,
{
    match op {
        EntryValidation::Create { entry } => match entry.admin_address {
            None => Err(String::from_str("Collective being created must have an admin")),
            Some(a) => check_admin(
                dht,
                a,
                sources,
                "Collective must be created with same agent as the given person",
            ),
        },
        EntryValidation::Modify { new_entry, old_entry } => {
            if new_entry.admin_address != old_entry.admin_address {
                return Err(String::from_str("admin_address cannot be updated"));
            }
            match old_entry.admin_address {
                None => Err(String::from_str("Collective can only be modified with an executed proposal")),
                Some(a) => check_admin(dht, a, sources, "Collective can only be modified by the admin"),
            }
        },
        EntryValidation::Delete { .. } => Err(String::from_str("Collective cannot be deleted")),
    }
}

/// Commits `collective` as `author`, after admission control.
fn commit_collective(dht: &mut Dht, author: AgentId, collective: Collective) -> (r: Result<
    Address,
    ZomeError,
>)
    requires
        old(dht).wf(),
    ensures
        final(dht).wf(),
        final(dht).links() == old(dht).links(),
        match collective_rejection(
            old(dht).records(),
            EntryValidation::Create { entry: collective },
            seq![author],
        ) {
            None => {
                &&& r == Ok::<Address, ZomeError>(old(dht).records().len() as Address)
                &&& final(dht).records() == old(dht).records().push(
                    Record { entry: Entry::Collective { collective }, author, replaced_by: None },
                )
            },
            Some(m) => {
                &&& r is Err
                &&& r->Err_0.kind == ErrorKind::ValidationRejected
                &&& r->Err_0.message@ == "commit_collective: "@ + m
                &&& final(dht).records() == old(dht).records()
            },
        },
{
    t("commit_collective: ", dht.commit(Entry::Collective { collective }, author))
}

/// Creates the participant that administers a new collective: the caller
/// itself, active, with an empty name.
fn create_collective_admin(dht: &mut Dht, caller: AgentId) -> (r: Result<PersonPayload, ZomeError>)
    requires
        old(dht).wf(),
    ensures
        final(dht).wf(),
        final(dht).links() == old(dht).links(),
        r is Ok,
        r->Ok_0.person_address == old(dht).records().len(),
        r->Ok_0.person.agent_address == caller,
        r->Ok_0.person.name@ == Seq::<char>::empty(),
        r->Ok_0.person.status == PersonStatus::Active,
        final(dht).records() == old(dht).records().push(
            Record { entry: Entry::Person { person: r->Ok_0.person }, author: caller, replaced_by: None },
        ),
{
    create_person(
        dht,
        caller,
        PersonParams { name: String::new(), agent_address: caller, status: PersonStatus::default() },
    )
}

/// Journals the creation of `collective` at `collective_address`.
fn create_create_collective_action(
    dht: &mut Dht,
    author: AgentId,
    collective_address: Address,
    collective: Collective,
) -> (r: Result<Address, ZomeError>)
    requires
        old(dht).wf(),
        collective_address < old(dht).records().len(),
    ensures
        final(dht).wf(),
        r == Ok::<Address, ZomeError>(old(dht).records().len() as Address),
        appended_action(
            old(dht).records(),
            old(dht).links(),
            final(dht).records(),
            final(dht).links(),
            author,
            collective_address,
            ActionOp::CreateCollective,
            ActionData::Collective { collective },
            ActionData::Null,
            "create_collective"@,
        ),
{
    create_collective_action(
        dht,
        author,
        collective_address,
        None,
        ActionOp::CreateCollective,
        ActionData::Collective { collective },
        ActionData::Null,
        "create_collective",
    )
}

/// The data an action setting a collective's name carries for the name it
/// replaced: none at creation.
pub open spec fn prev_name_data(prev_name: Option<String>) -> ActionData {
    match prev_name {
        Some(p) => ActionData::SetCollectiveName { name: p },
        None => ActionData::Null,
    }
}

/// Journals that the collective at `collective_address` was named `name`,
/// replacing `prev_name`.
fn create_set_collective_name_action(
    dht: &mut Dht,
    author: AgentId,
    collective_address: Address,
    name: String,
    prev_name: Option<String>,
) -> (r: Result<Address, ZomeError>)
    requires
        old(dht).wf(),
        collective_address < old(dht).records().len(),
    ensures
        final(dht).wf(),
        r == Ok::<Address, ZomeError>(old(dht).records().len() as Address),
        appended_action(
            old(dht).records(),
            old(dht).links(),
            final(dht).records(),
            final(dht).links(),
            author,
            collective_address,
            ActionOp::SetCollectiveName,
            ActionData::SetCollectiveName { name },
            prev_name_data(prev_name),
            "set_collective_name"@,
        ),
{
    let prev_data = match prev_name {
        Some(p) => ActionData::SetCollectiveName { name: p },
        None => ActionData::Null,
    };
    create_collective_action(
        dht,
        author,
        collective_address,
        None,
        ActionOp::SetCollectiveName,
        ActionData::SetCollectiveName { name },
        prev_data,
        "set_collective_name",
    )
}

/// Journals that the participant at `person_address` joined the collective
/// at `collective_address`.
fn create_add_collective_person_action(
    dht: &mut Dht,
    author: AgentId,
    collective_address: Address,
    person_address: Address,
) -> (r: Result<Address, ZomeError>)
    requires
        old(dht).wf(),
        collective_address < old(dht).records().len(),
    ensures
        final(dht).wf(),
        r == Ok::<Address, ZomeError>(old(dht).records().len() as Address),
        appended_action(
            old(dht).records(),
            old(dht).links(),
            final(dht).records(),
            final(dht).links(),
            author,
            collective_address,
            ActionOp::AddCollectivePerson,
            ActionData::AddCollectivePerson { person_address },
            ActionData::Null,
            "add_collective_person"@,
        ),
{
    create_collective_action(
        dht,
        author,
        collective_address,
        None,
        ActionOp::AddCollectivePerson,
        ActionData::AddCollectivePerson { person_address },
        ActionData::Null,
        "add_collective_person",
    )
}

/// Links the participant at `person_address` to the collective at
/// `collective_address` as its creator, and journals it.
fn add_collective_person(
    dht: &mut Dht,
    author: AgentId,
    collective_address: Address,
    person_address: Address,
) -> (r: Result<Address, ZomeError>)
    requires
        old(dht).wf(),
        collective_address < old(dht).records().len(),
        person_address < old(dht).records().len(),
    ensures
        final(dht).wf(),
        r == Ok::<Address, ZomeError>(old(dht).records().len() as Address),
        final(dht).links().len() == old(dht).links().len() + 2,
        final(dht).links().drop_last().drop_last() == old(dht).links(),
        final(dht).links().drop_last().last().base == collective_address,
        final(dht).links().drop_last().last().target == person_address,
        final(dht).links().drop_last().last().link_type == LinkType::CollectivePerson,
        final(dht).links().drop_last().last().tag@ == "Creator"@,
        appended_action(
            old(dht).records(),
            final(dht).links().drop_last(),
            final(dht).records(),
            final(dht).links(),
            author,
            collective_address,
            ActionOp::AddCollectivePerson,
            ActionData::AddCollectivePerson { person_address },
            ActionData::Null,
            "add_collective_person"@,
        ),
{
    let linked = t(
        "add_collective_person: ",
        dht.link(
            collective_address,
            person_address,
            LinkType::CollectivePerson,
            CollectivePersonTag::Creator.to_string(),
        ),
    );
    if let Err(e) = linked {
        return Err(e);
    }
    create_add_collective_person_action(dht, author, collective_address, person_address)
}

/// Whether `caller` may found a collective with the participant at
/// `admin_address` as admin: a new participant is made when none is given;
/// a given one must exist and be the caller's own.
pub open spec fn admin_acceptable(rs: Seq<Record>, caller: AgentId, admin_address: Option<Address>) -> bool {
    match admin_address {
        None => true,
        Some(a) => person_at(rs, a as int) matches Some(p) && p.agent_address == caller,
    }
}

/// What holds of the store `rs`, `ls` after the collective `collective` was
/// created at `c` with the participant at `admin` as its creator: the
/// collective reads back, its journal holds exactly the creation, the naming
/// and the admission of its admin, the admin is its one participant, and it
/// has one ledger.
pub open spec fn founded(
    rs: Seq<Record>,
    ls: Seq<Link>,
    c: Address,
    collective: Collective,
    admin: Address,
) -> bool {
    &&& collective.admin_address == Some(admin)
    &&& collective_at(rs, c as int) == Some(collective)
    &&& actions_of(rs, ls, c) matches Some(s) && s.len() == 3 && is_system_action(
        s[0],
        ActionOp::CreateCollective,
        ActionData::Collective { collective },
        ActionData::Null,
        "create_collective"@,
    ) && is_system_action(
        s[1],
        ActionOp::SetCollectiveName,
        ActionData::SetCollectiveName { name: collective.name },
        ActionData::Null,
        "set_collective_name"@,
    ) && is_system_action(
        s[2],
        ActionOp::AddCollectivePerson,
        ActionData::AddCollectivePerson { person_address: admin },
        ActionData::Null,
        "add_collective_person"@,
    )
    &&& targets(ls, c, LinkType::CollectivePerson) == seq![admin]
    &&& tagged_targets(ls, c, LinkType::CollectivePerson, "Creator"@) == seq![admin]
    &&& targets(ls, c, LinkType::CollectiveLedger).len() == 1
    &&& ledger_at(rs, targets(ls, c, LinkType::CollectiveLedger)[0] as int) matches Some(l)
        && l.name@ == primary_ledger_name(collective.name@)
}

/// `r` holds a system action, written by `author` and superseded by nothing.
pub open spec fn action_record(
    r: Record,
    author: AgentId,
    op: ActionOp,
    data: ActionData,
    prev_data: ActionData,
    tag: Seq<char>,
) -> bool {
    &&& r.author == author
    &&& r.replaced_by is None
    &&& r.entry matches Entry::Action { action } && is_system_action(action, op, data, prev_data, tag)
}

/// `l` links `base` to `target` with type `lt` and tag `tag`.
pub open spec fn link_is(l: Link, base: int, target: int, lt: LinkType, tag: Seq<char>) -> bool {
    &&& l.base as int == base
    &&& l.target as int == target
    &&& l.link_type == lt
    &&& l.tag@ == tag
}

/// The records from `c` on and the links from position `n` on are exactly
/// what founding `collective` at `c` writes, with the participant at `admin`
/// as creator: the collective, its creation action, its ledger, its naming
/// action and its admission action, then the five links that join them.
pub open spec fn founding_writes(
    rs: Seq<Record>,
    ls: Seq<Link>,
    n: int,
    author: AgentId,
    c: int,
    collective: Collective,
    admin: Address,
) -> bool {
    &&& rs.len() == c + 5
    &&& rs[c] == Record { entry: Entry::Collective { collective }, author, replaced_by: None }
    &&& action_record(
        rs[c + 1],
        author,
        ActionOp::CreateCollective,
        ActionData::Collective { collective },
        ActionData::Null,
        "create_collective"@,
    )
    &&& rs[c + 2].author == author
    &&& rs[c + 2].replaced_by is None
    &&& rs[c + 2].entry matches Entry::Ledger { ledger } && ledger.name@ == primary_ledger_name(
        collective.name@,
    )
    &&& action_record(
        rs[c + 3],
        author,
        ActionOp::SetCollectiveName,
        ActionData::SetCollectiveName { name: collective.name },
        ActionData::Null,
        "set_collective_name"@,
    )
    &&& action_record(
        rs[c + 4],
        author,
        ActionOp::AddCollectivePerson,
        ActionData::AddCollectivePerson { person_address: admin },
        ActionData::Null,
        "add_collective_person"@,
    )
    &&& ls.len() == n + 5
    &&& link_is(ls[n], c, c + 1, LinkType::CollectiveAction, "create_collective"@)
    &&& link_is(ls[n + 1], c, c + 2, LinkType::CollectiveLedger, "ledger_primary"@)
    &&& link_is(ls[n + 2], c, c + 3, LinkType::CollectiveAction, "set_collective_name"@)
    &&& link_is(ls[n + 3], c, admin as int, LinkType::CollectivePerson, "Creator"@)
    &&& link_is(ls[n + 4], c, c + 4, LinkType::CollectiveAction, "add_collective_person"@)
}

/// Creates a collective named `collective_params.name` as `caller`, with the
/// given participant as admin, or else a new participant of the caller's.
/// Then journals its creation, creates its ledger, journals its name, and
/// links and journals its admin as its creator. Nothing is written when the
/// admin is refused.
pub fn create_collective(
    dht: &mut Dht,
    caller: AgentId,
    collective_params: CreateCollectiveParams,
) -> (r: Result<CollectivePayload, ZomeError>)
    requires
        old(dht).wf(),
    ensures
        final(dht).wf(),
        collective_params.admin_address matches Some(a) && person_at(old(dht).records(), a as int)
            is None ==> {
            &&& r is Err
            &&& r->Err_0.kind == ErrorKind::NotFound
            &&& r->Err_0.message@ == "create_collective: get_person: "@ + "person address not found"@
            &&& final(dht).records() == old(dht).records()
            &&& final(dht).links() == old(dht).links()
        },
        collective_params.admin_address matches Some(a) && person_at(old(dht).records(), a as int)
            matches Some(p) && p.agent_address != caller ==> {
            &&& r is Err
            &&& r->Err_0.kind == ErrorKind::ValidationRejected
            &&& r->Err_0.message@ == "create_collective: "@ + ("commit_collective: "@
                + "Collective must be created with same agent as the given person"@)
            &&& final(dht).records() == old(dht).records()
            &&& final(dht).links() == old(dht).links()
        },
        admin_acceptable(old(dht).records(), caller, collective_params.admin_address) ==> {
            let payload = r->Ok_0;
            let admin = payload.collective.admin_address->Some_0;
            &&& r is Ok
            &&& payload.collective.name == collective_params.name
            &&& payload.collective.admin_address is Some
            &&& old(dht).records().len() <= payload.collective_address
            &&& payload.collective_address < final(dht).records().len()
            &&& founded(
                final(dht).records(),
                final(dht).links(),
                payload.collective_address,
                payload.collective,
                admin,
            )
            &&& person_at(final(dht).records(), admin as int) matches Some(p) && p.agent_address
                == caller
            &&& final(dht).records().subrange(0, old(dht).records().len() as int) == old(
                dht,
            ).records()
            &&& final(dht).links().subrange(0, old(dht).links().len() as int) == old(dht).links()
            &&& founding_writes(
                final(dht).records(),
                final(dht).links(),
                old(dht).links().len() as int,
                caller,
                payload.collective_address as int,
                payload.collective,
                admin,
            )
            &&& match collective_params.admin_address {
                Some(a) => {
                    &&& admin == a
                    &&& payload.collective_address == old(dht).records().len()
                    &&& person_at(final(dht).records(), a as int) == person_at(
                        old(dht).records(),
                        a as int,
                    )
                },
                None => {
                    let n = old(dht).records().len() as int;
                    &&& admin == n
                    &&& payload.collective_address == n + 1
                    &&& final(dht).records()[n].author == caller
                    &&& final(dht).records()[n].replaced_by is None
                    &&& final(dht).records()[n].entry matches Entry::Person { person }
                        && person.agent_address == caller && person.name@ == Seq::<char>::empty()
                        && person.status == PersonStatus::Active
                },
            }
        },
{
    let ghost d0 = *dht;
    let admin_address: Address = match collective_params.admin_address {
        Some(a) => match get_person(dht, a) {
            Ok(_) => a,
            Err(e) => {
                return tag_error(e, "create_collective: get_person: ");
            },
        },
        None => match create_collective_admin(dht, caller) {
            Ok(admin) => admin.person_address,
            Err(e) => {
                return tag_error(e, "create_collective: create_person: ");
            },
        },
    };
    let ghost d1 = *dht;
    proof {
        if collective_params.admin_address is None {
            lemma_push_record(d0.records(), d1.records().last());
            assert(d1.records() =~= d0.records().push(d1.records().last()));
        } else {
            assert(d1 == d0);
        }
        assert(seq![caller].contains(caller)) by {
            assert(seq![caller][0] == caller);
        }
    }
    let collective = Collective { name: collective_params.name, admin_address: Some(admin_address) };
    let c = match commit_collective(dht, caller, collective.clone()) {
        Ok(c) => c,
        Err(e) => {
            proof {
                assert(seq![caller].contains(person_at(d0.records(), admin_address as int)->Some_0.agent_address) ==> 
                    person_at(d0.records(), admin_address as int)->Some_0.agent_address == caller);
            }
            return tag_error(e, "create_collective: ");
        },
    };
    let ghost d2 = *dht;
    proof {
        lemma_push_record(d1.records(), d2.records().last());
        assert(d2.records() =~= d1.records().push(d2.records().last()));
        lemma_targets_none(d2.links(), c, LinkType::CollectiveAction, "Creator"@);
        lemma_targets_none(d2.links(), c, LinkType::CollectivePerson, "Creator"@);
        lemma_targets_none(d2.links(), c, LinkType::CollectiveLedger, "Creator"@);
    }
    let a1 = match create_create_collective_action(dht, caller, c, collective.clone()) {
        Ok(a) => a,
        Err(e) => {
            return tag_error(e, "create_collective: ");
        },
    };
    let ghost d3 = *dht;
    proof {
        lemma_extend_records(d2.records(), d3.records());
        assert(targets(d3.links(), c, LinkType::CollectiveAction) =~= seq![a1]);
        assert(targets(d3.links(), c, LinkType::CollectiveLedger) =~= Seq::<Address>::empty());
        assert(targets(d3.links(), c, LinkType::CollectivePerson) =~= Seq::<Address>::empty());
        assert(tagged_targets(d3.links(), c, LinkType::CollectivePerson, "Creator"@)
            =~= Seq::<Address>::empty());
    }
    let ledger_address = match create_collective_ledger(dht, caller, &collective, c) {
        Ok(a) => a,
        Err(e) => {
            return tag_error(e, "create_collective: ");
        },
    };
    let ghost d4 = *dht;
    proof {
        lemma_extend_records(d3.records(), d4.records());
        assert(targets(d4.links(), c, LinkType::CollectiveAction) == seq![a1]);
        assert(targets(d4.links(), c, LinkType::CollectiveLedger) =~= seq![ledger_address]);
        assert(targets(d4.links(), c, LinkType::CollectivePerson) =~= Seq::<Address>::empty());
        assert(tagged_targets(d4.links(), c, LinkType::CollectivePerson, "Creator"@)
            =~= Seq::<Address>::empty());
    }
    let a2 = match create_set_collective_name_action(dht, caller, c, collective.name.clone(), None) {
        Ok(a) => a,
        Err(e) => {
            return tag_error(e, "create_collective: ");
        },
    };
    let ghost d5 = *dht;
    proof {
        lemma_extend_records(d4.records(), d5.records());
        assert(targets(d5.links(), c, LinkType::CollectiveAction) =~= seq![a1, a2]);
        assert(targets(d5.links(), c, LinkType::CollectiveLedger) =~= seq![ledger_address]);
        assert(targets(d5.links(), c, LinkType::CollectivePerson) =~= Seq::<Address>::empty());
    }
    let a3 = match add_collective_person(dht, caller, c, admin_address) {
        Ok(a) => a,
        Err(e) => {
            return tag_error(e, "create_collective: ");
        },
    };
    let ghost d6 = *dht;
    proof {
        lemma_extend_records(d5.records(), d6.records());
        let mid = d6.links().drop_last();
        assert(mid.drop_last() == d5.links());
        assert(targets(mid, c, LinkType::CollectiveAction) == seq![a1, a2]);
        assert(targets(d6.links(), c, LinkType::CollectiveAction) =~= seq![a1, a2, a3]);
        assert(targets(mid, c, LinkType::CollectivePerson) =~= seq![admin_address]);
        assert(targets(d6.links(), c, LinkType::CollectivePerson) == seq![admin_address]);
        assert(tagged_targets(d5.links(), c, LinkType::CollectivePerson, "Creator"@) == Seq::<Address>::empty());
        assert(tagged_targets(mid, c, LinkType::CollectivePerson, "Creator"@) =~= seq![admin_address]);
        assert(tagged_targets(d6.links(), c, LinkType::CollectivePerson, "Creator"@) == seq![admin_address]);
        assert(targets(mid, c, LinkType::CollectiveLedger) == seq![ledger_address]);
        assert(targets(d6.links(), c, LinkType::CollectiveLedger) == seq![ledger_address]);
        let ts = seq![a1, a2, a3];
        assert(action_at(d6.records(), a1 as int) is Some);
        assert(action_at(d6.records(), a2 as int) is Some);
        assert(action_at(d6.records(), a3 as int) is Some);
        assert forall|i: int| 0 <= i < ts.len() implies (#[trigger] action_at(d6.records(), ts[i] as int)) is Some by {
            if i == 0 {} else if i == 1 {} else {}
        }
        assert(collective_at(d6.records(), c as int) == Some(collective));
        assert(person_at(d6.records(), admin_address as int) == person_at(d1.records(), admin_address as int));
        lemma_drop_last_prefix(d2.records(), d3.records());
        lemma_drop_last_prefix(d3.records(), d4.records());
        lemma_drop_last_prefix(d4.records(), d5.records());
        lemma_drop_last_prefix(d5.records(), d6.records());
        lemma_drop_last_prefix(d2.links(), d3.links());
        lemma_drop_last_prefix(d3.links(), d4.links());
        lemma_drop_last_prefix(d4.links(), d5.links());
        lemma_drop_last_prefix(mid, d6.links());
        lemma_drop_last_prefix(d5.links(), mid);
        let c0 = c as int;
        assert(d6.records()[c0] == d2.records()[c0]);
        assert(d2.records()[c0] == Record { entry: Entry::Collective { collective }, author: caller, replaced_by: None });
        assert(d6.records()[c0 + 1] == d3.records().last());
        assert(d6.records()[c0 + 2] == d4.records().last());
        assert(d6.records()[c0 + 3] == d5.records().last());
        let n = d0.links().len() as int;
        assert(d2.links() == d0.links());
        assert(d6.links()[n] == d3.links().last());
        assert(d6.links()[n + 1] == d4.links().last());
        assert(d6.links()[n + 2] == d5.links().last());
        assert(d6.links()[n + 3] == mid.last());
        assert(d6.records().subrange(0, d0.records().len() as int) =~= d0.records()) by {
            assert forall|i: int| 0 <= i < d0.records().len() implies d6.records()[i] == d0.records()[i] by {
                assert(d6.records()[i] == d2.records()[i]);
                assert(d2.records()[i] == d1.records()[i]);
                if collective_params.admin_address is None {
                    assert(d1.records()[i] == d0.records()[i]);
                }
            }
        }
        assert(d6.links().subrange(0, n) =~= d0.links()) by {
            assert forall|i: int| 0 <= i < n implies d6.links()[i] == d0.links()[i] by {
                assert(d6.links()[i] == d2.links()[i]);
            }
        }
        if collective_params.admin_address is None {
            let p = d0.records().len() as int;
            assert(d6.records()[p] == d2.records()[p]);
            assert(d2.records()[p] == d1.records()[p]);
            assert(d1.records()[p] == d1.records().last());
        }
    }
    Ok(CollectivePayload { collective_address: c, collective })
}

/// The collective at `collective_address`.
pub fn get_collective(dht: &Dht, collective_address: Address) -> (r: Result<
    CollectivePayload,
    ZomeError,
>)
    requires
        dht.wf(),
    ensures
        r is Ok <==> collective_at(dht.records(), collective_address as int) is Some,
        r is Ok ==> r->Ok_0.collective_address == collective_address && r->Ok_0.collective
            == collective_at(dht.records(), collective_address as int)->Some_0,
        r is Err ==> r->Err_0.kind == ErrorKind::NotFound,
{
    match dht.get_collective(collective_address) {
        Some(collective) => Ok(CollectivePayload { collective_address, collective }),
        None => Err(ZomeError::new(ErrorKind::NotFound, "collective address not found")),
    }
}

/// Writes `collective` as `author` as the new version of the collective at
/// `collective_address`, after admission control.
fn update_collective(
    dht: &mut Dht,
    author: AgentId,
    collective_address: Address,
    collective: Collective,
) -> (r: Result<Address, ZomeError>)
    requires
        old(dht).wf(),
        collective_at(old(dht).records(), collective_address as int) is Some,
    ensures
        final(dht).wf(),
        final(dht).links() == old(dht).links(),
        match collective_rejection(
            old(dht).records(),
            EntryValidation::Modify {
                new_entry: collective,
                old_entry: collective_at(old(dht).records(), collective_address as int)->Some_0,
            },
            seq![author],
        ) {
            None => {
                &&& r == Ok::<Address, ZomeError>(old(dht).records().len() as Address)
                &&& final(dht).records() == supersede_records(
                    old(dht).records(),
                    collective_address as int,
                    Record { entry: Entry::Collective { collective }, author, replaced_by: None },
                )
            },
            Some(m) => {
                &&& r is Err
                &&& r->Err_0.kind == ErrorKind::ValidationRejected
                &&& r->Err_0.message@ == "update_collective: "@ + m
                &&& final(dht).records() == old(dht).records()
            },
        },
{
    t("update_collective: ", dht.update(collective_address, Entry::Collective { collective }, author))
}

/// Whether `caller` owns the admin participant of `collective`.
pub open spec fn is_admin(rs: Seq<Record>, collective: Collective, caller: AgentId) -> bool {
    collective.admin_address matches Some(a) && person_at(rs, a as int) matches Some(p)
        && p.agent_address == caller
}

/// Renames the collective at `params.collective_address` as `caller`, who
/// must own its admin participant, and journals the new and the old name.
pub fn set_collective_name(dht: &mut Dht, caller: AgentId, params: SetCollectiveNameParams) -> (r:
    Result<CollectivePayload, ZomeError>)
    requires
        old(dht).wf(),
    ensures
        final(dht).wf(),
        collective_at(old(dht).records(), params.collective_address as int) is None ==> {
            &&& r is Err
            &&& r->Err_0.kind == ErrorKind::NotFound
            &&& r->Err_0.message@ == "set_collective_name: Could not find collective"@
            &&& final(dht).records() == old(dht).records()
            &&& final(dht).links() == old(dht).links()
        },
        collective_at(old(dht).records(), params.collective_address as int) matches Some(saved)
            ==> {
            &&& !is_admin(old(dht).records(), saved, caller) ==> {
                &&& r is Err
                &&& r->Err_0.kind == ErrorKind::ValidationRejected
                &&& r->Err_0.message@ == "set_collective_name: "@ + ("update_collective: "@
                    + collective_rejection(
                    old(dht).records(),
                    EntryValidation::Modify {
                        new_entry: Collective { name: params.name, admin_address: saved.admin_address },
                        old_entry: saved,
                    },
                    seq![caller],
                )->Some_0)
                &&& final(dht).records() == old(dht).records()
                &&& final(dht).links() == old(dht).links()
            }
            &&& (saved.admin_address matches Some(a) && person_at(old(dht).records(), a as int)
                matches Some(p) && p.agent_address != caller) ==> r->Err_0.message@
                == "set_collective_name: "@ + ("update_collective: "@
                + "Collective can only be modified by the admin"@)
            &&& is_admin(old(dht).records(), saved, caller) ==> {
                &&& r is Ok
                &&& r->Ok_0.collective_address == params.collective_address
                &&& r->Ok_0.collective.name == params.name
                &&& r->Ok_0.collective.admin_address == saved.admin_address
                &&& collective_at(final(dht).records(), params.collective_address as int) == Some(
                    r->Ok_0.collective,
                )
                &&& final(dht).records().drop_last() == supersede_records(
                    old(dht).records(),
                    params.collective_address as int,
                    Record {
                        entry: Entry::Collective { collective: r->Ok_0.collective },
                        author: caller,
                        replaced_by: None,
                    },
                )
                &&& appended_action(
                    final(dht).records().drop_last(),
                    old(dht).links(),
                    final(dht).records(),
                    final(dht).links(),
                    caller,
                    params.collective_address,
                    ActionOp::SetCollectiveName,
                    ActionData::SetCollectiveName { name: params.name },
                    ActionData::SetCollectiveName { name: saved.name },
                    "set_collective_name"@,
                )
                &&& (actions_of(old(dht).records(), old(dht).links(), params.collective_address)
                    is Some) == (actions_of(
                    final(dht).records(),
                    final(dht).links(),
                    params.collective_address,
                ) is Some)
                &&& actions_of(old(dht).records(), old(dht).links(), params.collective_address)
                    matches Some(before) ==> actions_of(
                    final(dht).records(),
                    final(dht).links(),
                    params.collective_address,
                ) matches Some(after) && after.len() == before.len() + 1 && after == before.push(
                    after.last(),
                ) && is_system_action(
                    after.last(),
                    ActionOp::SetCollectiveName,
                    ActionData::SetCollectiveName { name: params.name },
                    ActionData::SetCollectiveName { name: saved.name },
                    "set_collective_name"@,
                )
            }
        },
{
    let c = params.collective_address;
    let saved = match dht.get_collective(c) {
        Some(saved) => saved,
        None => {
            return Err(ZomeError::new(ErrorKind::NotFound, "set_collective_name: Could not find collective"));
        },
    };
    let ghost d0 = *dht;
    let collective = Collective { name: params.name, admin_address: saved.admin_address };
    proof {
        assert(seq![caller].contains(caller)) by {
            assert(seq![caller][0] == caller);
        }
    }
    let updated = update_collective(dht, caller, c, collective.clone());
    let ghost d1 = *dht;
    let n = match updated {
        Ok(n) => n,
        Err(e) => {
            return tag_error(e, "set_collective_name: ");
        },
    };
    proof {
        lemma_resolve_bounds(d0.records(), c as int);
        assert(d1.records().len() == d0.records().len() + 1);
    }
    let appended = create_set_collective_name_action(
        dht,
        caller,
        c,
        collective.name.clone(),
        Some(saved.name),
    );
    if let Err(e) = appended {
        return tag_error(e, "set_collective_name: ");
    }
    let ghost d2 = *dht;
    proof {
        let rec = Record { entry: Entry::Collective { collective }, author: caller, replaced_by: None };
        lemma_supersede_entry(d0.records(), c as int, rec, c as int);
        lemma_extend_records(d1.records(), d2.records());
        assert(collective_at(d2.records(), c as int) == Some(collective));
        let ts0 = targets(d0.links(), c, LinkType::CollectiveAction);
        let ts2 = targets(d2.links(), c, LinkType::CollectiveAction);
        assert(ts2 == ts0.push((n + 1) as Address));
        lemma_targets_bounded(d0.links(), c, LinkType::CollectiveAction, d0.records().len());
        assert forall|i: int| 0 <= i < ts0.len() implies #[trigger] action_at(d2.records(), ts0[i] as int)
            == action_at(d0.records(), ts0[i] as int) by {
            lemma_supersede_entry(d0.records(), c as int, rec, ts0[i] as int);
        }
        assert(action_at(d2.records(), (n + 1) as int) is Some);
        if actions_of(d0.records(), d0.links(), c) is Some {
            assert forall|i: int| 0 <= i < ts2.len() implies (#[trigger] action_at(d2.records(), ts2[i] as int)) is Some by {
                if i < ts0.len() {
                    assert(ts2[i] == ts0[i]);
                    assert(action_at(d0.records(), ts0[i] as int) is Some);
                }
            }
            let before = actions_of(d0.records(), d0.links(), c)->Some_0;
            let after = actions_of(d2.records(), d2.links(), c)->Some_0;
            assert(after.drop_last() =~= before);
            assert(after =~= before.push(after.last()));
        } else {
            let i = choose|i: int| 0 <= i < ts0.len() && (#[trigger] action_at(d0.records(), ts0[i] as int)) is None;
            assert(ts2[i] == ts0[i]);
            assert(action_at(d2.records(), ts2[i] as int) is None);
        }
    }
    Ok(CollectivePayload { collective_address: c, collective })
}

/// The participants of the collective at `c`: the targets of its
/// participant links, oldest link first, if each of them holds a participant.
pub open spec fn people_of(rs: Seq<Record>, ls: Seq<Link>, c: Address) -> Option<Seq<Person>> {
    let ts = targets(ls, c, LinkType::CollectivePerson);
    if forall|i: int| 0 <= i < ts.len() ==> (#[trigger] person_at(rs, ts[i] as int)) is Some {
        Some(Seq::new(ts.len(), |i: int| person_at(rs, ts[i] as int)->Some_0))
    } else {
        None
    }
}

/// All the participants of the collective at `collective_address`, in the
/// order they were linked.
pub fn get_collective_people(dht: &Dht, collective_address: Address) -> (r: Result<
    CollectivePeoplePayload,
    ZomeError,
>)
    requires
        dht.wf(),
    ensures
        r is Ok <==> people_of(dht.records(), dht.links(), collective_address) is Some,
        r is Ok ==> r->Ok_0.collective_address == collective_address && r->Ok_0.collective_people@
            == people_of(dht.records(), dht.links(), collective_address)->Some_0,
        r is Err ==> r->Err_0.kind == ErrorKind::NotFound,
{
    let ts = dht.link_targets(collective_address, LinkType::CollectivePerson);
    let ghost rs = dht.records();
    let mut people: Vec<Person> = Vec::new();
    let mut i: usize = 0;
    while i < ts.len()
        invariant
            dht.wf(),
            rs == dht.records(),
            i <= ts@.len(),
            ts@ == targets(dht.links(), collective_address, LinkType::CollectivePerson),
            people@.len() == i,
            forall|j: int| 0 <= j < i ==> person_at(rs, ts@[j] as int) == Some(#[trigger] people@[j]),
        decreases ts@.len() - i,
    {
        match dht.get_person(ts[i]) {
            Some(person) => {
                people.push(person);
            },
            None => {
                assert(person_at(rs, ts@[i as int] as int) is None);
                return Err(
                    ZomeError::new(
                        ErrorKind::NotFound,
                        "get_collective_people: get_links_and_load_type: person not found",
                    ),
                );
            },
        }
        i = i + 1;
    }
    assert forall|j: int| 0 <= j < ts@.len() implies (#[trigger] person_at(rs, ts@[j] as int))
        is Some by {
        assert(person_at(rs, ts@[j] as int) == Some(people@[j]));
    }
    assert(people@ =~= people_of(rs, dht.links(), collective_address)->Some_0);
    Ok(CollectivePeoplePayload { collective_address, collective_people: people })
}

/// The creator of the collective at `collective_address`: the target of its
/// first participant link tagged with the creator role.
pub fn get_collective_creator(dht: &Dht, collective_address: Address) -> (r: Result<
    CollectiveCreatorPayload,
    ZomeError,
>)
    requires
        dht.wf(),
    ensures
        ({
            let ts = tagged_targets(
                dht.links(),
                collective_address,
                LinkType::CollectivePerson,
                "Creator"@,
            );
            &&& r is Ok <==> ts.len() > 0 && person_at(dht.records(), ts[0] as int) is Some
            &&& r is Ok ==> r->Ok_0.collective_address == collective_address
                && r->Ok_0.collective_creator == person_at(dht.records(), ts[0] as int)->Some_0
            &&& r is Err ==> r->Err_0.kind == ErrorKind::NotFound
        }),
{
    let role = CollectivePersonTag::Creator.to_string();
    let creators = dht.tagged_link_targets(
        collective_address,
        LinkType::CollectivePerson,
        role.as_str(),
    );
    if creators.len() == 0 {
        return Err(ZomeError::new(ErrorKind::NotFound, "get_collective_creator: no creator"));
    }
    match dht.get_person(creators[0]) {
        Some(collective_creator) => Ok(CollectiveCreatorPayload { collective_address, collective_creator }),
        None => Err(ZomeError::new(ErrorKind::NotFound, "get_collective_creator: person not found")),
    }
}

} // verus!
