use vstd::prelude::*;
use vstd::string::StringExecFns;
use crate::error::{ErrorKind, ZomeError, t};
use crate::store::{Address, AgentId, Dht, Entry, Record, person_at};

verus! {

/// Most characters a participant's name may have.
pub const MAX_NAME_CHARS: usize = 64;

/// Is the [`Person`] active or inactive in the collective.
#[derive(PartialEq, Eq, Structural, Clone, Copy, Debug)]
pub enum PersonStatus {
    Inactive,
    Active,
}

impl Default for PersonStatus {
    fn default() -> (r: PersonStatus)
        ensures
            r == PersonStatus::Active,
    {
        PersonStatus::Active
    }
}

/// A participant of a collective, bound to the identity that owns it.
#[derive(Debug)]
pub struct Person {
    /// Identity of the agent the participant represents.
    pub agent_address: AgentId,
    pub name: String,
    pub status: PersonStatus,
}

impl Clone for Person {
    fn clone(&self) -> (r: Person)
        ensures
            r == *self,
    {
        Person { agent_address: self.agent_address, name: self.name.clone(), status: self.status }
    }
}

/// Parameters of [`crate::person::create_person`]: every field is given.
#[derive(Debug)]
pub struct PersonParams {
    pub name: String,
    pub agent_address: AgentId,
    pub status: PersonStatus,
}

/// Parameters with an optional owner identity (the caller's by default) and
/// an optional status (active by default).
#[derive(Debug)]
pub struct OptionalPersonParams {
    pub name: String,
    pub agent_address: Option<AgentId>,
    pub status: Option<PersonStatus>,
}

impl OptionalPersonParams {
    /// Fills the defaults in, with `caller` as the owner identity when none
    /// is given.
    pub fn into_params(self, caller: AgentId) -> (r: PersonParams)
        ensures
            r.name == self.name,
            r.agent_address == (match self.agent_address {
                Some(a) => a,
                None => caller,
            }),
            r.status == (match self.status {
                Some(s) => s,
                None => PersonStatus::Active,
            }),
    {
        PersonParams {
            name: self.name,
            agent_address: match self.agent_address {
                Some(agent_address) => agent_address,
                None => caller,
            },
            status: match self.status {
                Some(status) => status,
                None => PersonStatus::default(),
            },
        }
    }
}

/// What [`crate::person::create_person`] and [`crate::person::get_person`]
/// return.
#[derive(Debug)]
pub struct PersonPayload {
    pub person_address: Address,
    pub person: Person,
}

/// A write of an entry, as admission control sees it.
#[derive(Debug)]
pub enum EntryValidation<T> {
    Create { entry: T },
    Modify { new_entry: T, old_entry: T },
    Delete { old_entry: T },
}

/// Whether a name is short enough.
pub open spec fn name_fits(name: Seq<char>) -> bool {
    name.len() <= MAX_NAME_CHARS
}

/// Accepts a name of at most [`MAX_NAME_CHARS`] characters.
pub fn validate_name(name: &str) -> (r: Result<(), String>)
    ensures
        r is Ok <==> name_fits(name@),
        r is Err ==> r->Err_0@ == "Name is too long"@,
{
    if name.unicode_len() > MAX_NAME_CHARS {
        Err(String::from_str("Name is too long"))
    } else {
        Ok(())
    }
}

/// Why admission control refuses a write of a participant, if it does.
pub open spec fn person_rejection(op: EntryValidation<Person>, sources: Seq<AgentId>) -> Option<
    Seq<char>,
> {
    match op {
        EntryValidation::Create { entry } => {
            if !sources.contains(entry.agent_address) {
                Some("Person representing agent must be created by agent"@)
            } else if !name_fits(entry.name@) {
                Some("Name is too long"@)
            } else {
                None
            }
        },
        EntryValidation::Modify { new_entry, old_entry } => {
            if new_entry.agent_address != old_entry.agent_address {
                Some("agent_address cannot be updated"@)
            } else if !sources.contains(old_entry.agent_address) {
                Some("Person can only update by oneself"@)
            } else if !name_fits(new_entry.name@) {
                Some("Name is too long"@)
            } else {
                None
            }
        },
        EntryValidation::Delete { .. } => Some("Person cannot be deleted"@),
    }
}

pub(crate) fn contains_agent(sources: &Vec<AgentId>, agent: AgentId) -> (r: bool)
    ensures
        r == sources@.contains(agent),
{
    let mut i: usize = 0;
    while i < sources.len()
        invariant
            i <= sources@.len(),
            forall|j: int| 0 <= j < i ==> sources@[j] != agent,
        decreases sources@.len() - i,
    {
        if sources[i] == agent {
            return true;
        }
        i = i + 1;
    }
    false
}

/// Admission control of a participant: only its owner identity may create or
/// modify it, the owner never changes, the name stays short, and it is never
/// deleted.
pub fn validate_person(op: &EntryValidation<Person>, sources: &Vec<AgentId>) -> (r: Result<
    (),
    String,
>)
    ensures
        r is Ok <==> person_rejection(*op, sources@) is None,
        r is Err ==> r->Err_0@ == person_rejection(*op, sources@)->Some_0,
{
    match op {
        EntryValidation::Create { entry } => {
            if !contains_agent(sources, entry.agent_address) {
                return Err(String::from_str("Person representing agent must be created by agent"));
            }
            validate_name(entry.name.as_str())
        },
        EntryValidation::Modify { new_entry, old_entry } => {
            if new_entry.agent_address != old_entry.agent_address {
                return Err(String::from_str("agent_address cannot be updated"));
            }
            if !contains_agent(sources, old_entry.agent_address) {
                return Err(String::from_str("Person can only update by oneself"));
            }
            validate_name(new_entry.name.as_str())
        },
        EntryValidation::Delete { .. } => Err(String::from_str("Person cannot be deleted")),
    }
}

/// Creates a participant as `caller`. An owner identity other than the
/// caller's is refused first, then a name that is too long; nothing is
/// written in either case.
pub fn create_person(dht: &mut Dht, caller: AgentId, person_params: PersonParams) -> (r: Result<
    PersonPayload,
    ZomeError,
>)
    requires
        old(dht).wf(),
    ensures
        final(dht).wf(),
        final(dht).links() == old(dht).links(),
        person_params.agent_address != caller ==> {
            &&& r is Err
            &&& r->Err_0.kind == ErrorKind::ValidationRejected
            &&& r->Err_0.message@ == "create_person: Person representing agent must be created by agent"@
            &&& final(dht).records() == old(dht).records()
        },
        person_params.agent_address == caller && !name_fits(person_params.name@) ==> {
            &&& r is Err
            &&& r->Err_0.kind == ErrorKind::InvariantViolation
            &&& r->Err_0.message@ == "Name is too long"@
            &&& final(dht).records() == old(dht).records()
        },
        name_fits(person_params.name@) && person_params.agent_address == caller ==> {
            &&& r is Ok
            &&& r->Ok_0.person_address == old(dht).records().len()
            &&& r->Ok_0.person == (Person {
                agent_address: caller,
                name: person_params.name,
                status: person_params.status,
            })
            &&& final(dht).records() == old(dht).records().push(
                Record { entry: Entry::Person { person: r->Ok_0.person }, author: caller, replaced_by: None },
            )
        },
{
    if person_params.agent_address != caller {
        return Err(
            ZomeError::new(
                ErrorKind::ValidationRejected,
                "create_person: Person representing agent must be created by agent",
            ),
        );
    }
    if let Err(message) = validate_name(person_params.name.as_str()) {
        return Err(ZomeError { kind: ErrorKind::InvariantViolation, message });
    }
    let person = Person {
        agent_address: person_params.agent_address,
        name: person_params.name,
        status: person_params.status,
    };
    assert(seq![caller].contains(person.agent_address) <==> person.agent_address == caller) by {
        if person.agent_address == caller {
            assert(seq![caller][0] == caller);
        }
    }
    let committed = t("create_person: ", dht.commit(Entry::Person { person: person.clone() }, caller));
    match committed {
        Ok(person_address) => Ok(PersonPayload { person_address, person }),
        Err(e) => Err(e),
    }
}

/// The participant at `person_address`.
pub fn get_person(dht: &Dht, person_address: Address) -> (r: Result<PersonPayload, ZomeError>)
    requires
        dht.wf(),
    ensures
        r is Ok <==> person_at(dht.records(), person_address as int) is Some,
        r is Ok ==> r->Ok_0.person_address == person_address && r->Ok_0.person == person_at(
            dht.records(),
            person_address as int,
        )->Some_0,
        r is Err ==> r->Err_0.kind == ErrorKind::NotFound && r->Err_0.message@
            == "person address not found"@,
{
    match dht.get_person(person_address) {
        Some(person) => Ok(PersonPayload { person_address, person }),
        None => Err(ZomeError::new(ErrorKind::NotFound, "person address not found")),
    }
}

/// Admission of an agent to the network: every agent is admitted.
pub fn validate_agent(agent: AgentId) -> (r: Result<(), String>)
    ensures
        r is Ok,
{
    Ok(())
}

} // verus!
