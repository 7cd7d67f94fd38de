use vstd::prelude::*;
use vstd::string::StringExecFns;
use crate::collective::Collective;
use crate::error::{ErrorKind, ZomeError, t};
use crate::store::{
    Address,
    AgentId,
    Dht,
    Entry,
    Link,
    LinkType,
    Record,
    action_at,
    entry_rejection,
    targets,
};
use crate::person::EntryValidation;

verus! {

/// The operation an [`Action`] records.
#[derive(PartialEq, Eq, Structural, Clone, Copy, Debug)]
pub enum ActionOp {
    CreateCollective,
    AddCollectivePerson,
    SetCollectiveName,
}

/// The lifecycle status of an [`Action`].
#[derive(PartialEq, Eq, Structural, Clone, Copy, Debug)]
pub enum ActionStatus {
    /// Opened and not completed.
    Open,
    /// Executed and completed.
    Executed,
}

/// How an [`Action`] was performed.
#[derive(PartialEq, Eq, Structural, Clone, Copy, Debug)]
pub enum ActionStrategy {
    /// Performed by the system itself.
    SystemAutomatic,
    /// Reserved.
    PrivilegedAction,
    /// Reserved.
    NewDiscussionMessage,
}

/// The data an [`Action`] carries: the state it wrote, or the state it
/// replaced.
#[derive(Debug)]
pub enum ActionData {
    /// No data (JSON `null`).
    Null,
    /// The collective that was created.
    Collective { collective: Collective },
    /// The participant that was added.
    AddCollectivePerson { person_address: Address },
    /// A collective name.
    SetCollectiveName { name: String },
}

impl Clone for ActionData {
    fn clone(&self) -> (r: ActionData)
        ensures
            r == *self,
    {
        match self {
            ActionData::Null => ActionData::Null,
            ActionData::Collective { collective } => ActionData::Collective {
                collective: collective.clone(),
            },
            ActionData::AddCollectivePerson { person_address } => ActionData::AddCollectivePerson {
                person_address: *person_address,
            },
            ActionData::SetCollectiveName { name } => ActionData::SetCollectiveName {
                name: name.clone(),
            },
        }
    }
}

/// An immutable journal record of one state-changing operation.
#[derive(Debug)]
pub struct Action {
    pub op: ActionOp,
    pub status: ActionStatus,
    /// What the operation wrote.
    pub data: ActionData,
    /// What the operation replaced, for undo.
    pub prev_data: ActionData,
    /// The tag of the link from the collective to this action.
    pub tag: String,
    pub strategy: ActionStrategy,
}

impl Clone for Action {
    fn clone(&self) -> (r: Action)
        ensures
            r == *self,
    {
        Action {
            op: self.op,
            status: self.status,
            data: self.data.clone(),
            prev_data: self.prev_data.clone(),
            tag: self.tag.clone(),
            strategy: self.strategy,
        }
    }
}

/// What [`get_actions`] returns.
#[derive(Debug)]
pub struct ActionsPayload {
    pub collective_address: Address,
    pub actions: Vec<Action>,
}

/// An action performed by the system, executed, with the given operation,
/// data and link tag.
pub open spec fn is_system_action(
    a: Action,
    op: ActionOp,
    data: ActionData,
    prev_data: ActionData,
    tag: Seq<char>,
) -> bool {
    &&& a.op == op
    &&& a.status == ActionStatus::Executed
    &&& a.data == data
    &&& a.prev_data == prev_data
    &&& a.tag@ == tag
    &&& a.strategy == ActionStrategy::SystemAutomatic
}

/// The actions of the collective at `c`: the targets of its action links,
/// oldest link first, if each of them holds an action.
pub open spec fn actions_of(rs: Seq<Record>, ls: Seq<Link>, c: Address) -> Option<Seq<Action>> {
    let ts = targets(ls, c, LinkType::CollectiveAction);
    if forall|i: int| 0 <= i < ts.len() ==> (#[trigger] action_at(rs, ts[i] as int)) is Some {
        Some(Seq::new(ts.len(), |i: int| action_at(rs, ts[i] as int)->Some_0))
    } else {
        None
    }
}

/// Whether the addresses an action is to be linked from are in the table.
pub open spec fn can_append(n: nat, collective_address: Address, parent: Option<Address>) -> bool {
    &&& collective_address < n
    &&& match parent {
        Some(p) => p < n,
        None => true,
    }
}

/// What appending `action` by `author` under the collective at `c` (and the
/// parent action, if any) does to the table `rs1` and the links `ls1`, giving
/// `rs2`, `ls2` and the result `r`: the action is written at the next address
/// and linked from the collective under its own tag, then from the parent
/// under the fixed child tag; or, where the collective or the parent is not
/// in the table, nothing is written.
pub open spec fn appended(
    rs1: Seq<Record>,
    ls1: Seq<Link>,
    rs2: Seq<Record>,
    ls2: Seq<Link>,
    r: Result<Address, ZomeError>,
    author: AgentId,
    action: Action,
    c: Address,
    parent: Option<Address>,
) -> bool {
    let n = rs1.len() as Address;
    let root = Link { base: c, target: n, link_type: LinkType::CollectiveAction, tag: action.tag };
    if can_append(rs1.len(), c, parent) {
        &&& r == Ok::<Address, ZomeError>(n)
        &&& rs2 == rs1.push(Record { entry: Entry::Action { action }, author, replaced_by: None })
        &&& match parent {
            None => ls2 == ls1.push(root),
            Some(p) => {
                &&& ls2 == ls1.push(root).push(
                    (Link {
                        base: p,
                        target: n,
                        link_type: LinkType::ParentChildAction,
                        tag: ls2.last().tag,
                    }),
                )
                &&& ls2.last().tag@ == "parent_action_child_action"@
            },
        }
    } else {
        &&& r is Err
        &&& r->Err_0.kind == ErrorKind::NotFound
        &&& r->Err_0.message@ == (if c >= n {
            "append_action: collective not found"@
        } else {
            "append_action: parent action not found"@
        })
        &&& rs2 == rs1
        &&& ls2 == ls1
    }
}

/// Commits `action` as `author` and links it from the collective at
/// `collective_address` under the action's tag and, when a parent action is
/// given, from the parent. Nothing is written unless both are in the table.
pub fn append_action(
    dht: &mut Dht,
    author: AgentId,
    action: Action,
    collective_address: Address,
    parent_action_address: Option<Address>,
) -> (r: Result<Address, ZomeError>)
    requires
        old(dht).wf(),
    ensures
        final(dht).wf(),
        appended(
            old(dht).records(),
            old(dht).links(),
            final(dht).records(),
            final(dht).links(),
            r,
            author,
            action,
            collective_address,
            parent_action_address,
        ),
{
    if collective_address >= dht.len() {
        return Err(ZomeError::new(ErrorKind::NotFound, "append_action: collective not found"));
    }
    if let Some(parent) = parent_action_address {
        if parent >= dht.len() {
            return Err(ZomeError::new(ErrorKind::NotFound, "append_action: parent action not found"));
        }
    }
    let tag = action.tag.clone();
    let ghost entry = Entry::Action { action };
    assert(entry_rejection(
        dht.records(),
        EntryValidation::Create { entry },
        seq![author],
    ) is None);
    let committed = t(
        "append_action: commit_entry: ",
        dht.commit(Entry::Action { action }, author),
    );
    let action_address = match committed {
        Ok(a) => a,
        Err(e) => {
            return Err(e);
        },
    };
    let rooted = t(
        "append_action: collective->action: ",
        dht.link(collective_address, action_address, LinkType::CollectiveAction, tag),
    );
    if let Err(e) = rooted {
        return Err(e);
    }
    if let Some(parent) = parent_action_address {
        let child = t(
            "append_action: parent->child: ",
            dht.link(
                parent,
                action_address,
                LinkType::ParentChildAction,
                String::from_str("parent_action_child_action"),
            ),
        );
        if let Err(e) = child {
            return Err(e);
        }
    }
    Ok(action_address)
}

/// The table `rs2` and links `ls2` are `rs1` and `ls1` with one more record, an action performed by the system and
/// written by `author`, linked from `c` under the action's tag.
pub open spec fn appended_action(
    rs1: Seq<Record>,
    ls1: Seq<Link>,
    rs2: Seq<Record>,
    ls2: Seq<Link>,
    author: AgentId,
    c: Address,
    op: ActionOp,
    data: ActionData,
    prev_data: ActionData,
    tag: Seq<char>,
) -> bool {
    &&& rs2.len() == rs1.len() + 1
    &&& rs2.drop_last() == rs1
    &&& rs2.last().author == author
    &&& rs2.last().replaced_by is None
    &&& rs2.last().entry matches Entry::Action { action } && is_system_action(
        action,
        op,
        data,
        prev_data,
        tag,
    )
    &&& ls2.len() == ls1.len() + 1
    &&& ls2.drop_last() == ls1
    &&& ls2.last().base == c
    &&& ls2.last().target == rs1.len()
    &&& ls2.last().link_type == LinkType::CollectiveAction
    &&& ls2.last().tag@ == tag
}

/// An action committed at the root of a collective's journal.
pub trait RootAction: Sized {
    /// The action that is committed.
    spec fn root_action(self) -> Action;

    /// Commits the action as `author` and links it from the collective at
    /// `collective_address`, which must be in the table.
    fn commit_action(self, dht: &mut Dht, author: AgentId, collective_address: Address) -> (r:
        Result<Address, ZomeError>)
        requires
            old(dht).wf(),
        ensures
            final(dht).wf(),
            appended_root(
                old(dht).records(),
                old(dht).links(),
                final(dht).records(),
                final(dht).links(),
                r,
                author,
                self.root_action(),
                collective_address,
            ),
    ;
}

/// [`appended`] without a parent action.
pub open spec fn appended_root(
    rs1: Seq<Record>,
    ls1: Seq<Link>,
    rs2: Seq<Record>,
    ls2: Seq<Link>,
    r: Result<Address, ZomeError>,
    author: AgentId,
    action: Action,
    c: Address,
) -> bool {
    appended(rs1, ls1, rs2, ls2, r, author, action, c, None)
}

/// [`appended`] with a parent action.
pub open spec fn appended_child(
    rs1: Seq<Record>,
    ls1: Seq<Link>,
    rs2: Seq<Record>,
    ls2: Seq<Link>,
    r: Result<Address, ZomeError>,
    author: AgentId,
    action: Action,
    c: Address,
    parent: Address,
) -> bool {
    appended(rs1, ls1, rs2, ls2, r, author, action, c, Some(parent))
}

/// An action committed as the child of another action of a collective.
pub trait ChildAction: Sized {
    /// The action that is committed.
    spec fn child_action(self) -> Action;

    /// Commits the action as `author`, links it from the collective at
    /// `collective_address` and from the parent action; both must be in the
    /// table.
    fn commit_child_action(
        self,
        dht: &mut Dht,
        author: AgentId,
        collective_address: Address,
        parent_action_address: Address,
    ) -> (r: Result<Address, ZomeError>)
        requires
            old(dht).wf(),
        ensures
            final(dht).wf(),
            appended_child(
                old(dht).records(),
                old(dht).links(),
                final(dht).records(),
                final(dht).links(),
                r,
                author,
                self.child_action(),
                collective_address,
                parent_action_address,
            ),
    ;
}

impl RootAction for Action {
    open spec fn root_action(self) -> Action {
        self
    }

    fn commit_action(self, dht: &mut Dht, author: AgentId, collective_address: Address) -> (r:
        Result<Address, ZomeError>) {
        append_action(dht, author, self, collective_address, None)
    }
}

impl ChildAction for Action {
    open spec fn child_action(self) -> Action {
        self
    }

    fn commit_child_action(
        self,
        dht: &mut Dht,
        author: AgentId,
        collective_address: Address,
        parent_action_address: Address,
    ) -> (r: Result<Address, ZomeError>) {
        append_action(dht, author, self, collective_address, Some(parent_action_address))
    }
}

/// Records an executed, system-performed action of the collective at
/// `collective_address`, as the child of the parent action if one is given.
pub fn create_collective_action(
    dht: &mut Dht,
    author: AgentId,
    collective_address: Address,
    parent_action_address: Option<Address>,
    op: ActionOp,
    data: ActionData,
    prev_data: ActionData,
    tag: &str,
) -> (r: Result<Address, ZomeError>)
    requires
        old(dht).wf(),
        can_append(old(dht).records().len(), collective_address, parent_action_address),
    ensures
        final(dht).wf(),
        r == Ok::<Address, ZomeError>(old(dht).records().len() as Address),
        parent_action_address is None ==> appended_action(
            old(dht).records(),
            old(dht).links(),
            final(dht).records(),
            final(dht).links(),
            author,
            collective_address,
            op,
            data,
            prev_data,
            tag@,
        ),
        parent_action_address matches Some(p) ==> {
            &&& appended_action(
                old(dht).records(),
                old(dht).links(),
                final(dht).records(),
                final(dht).links().drop_last(),
                author,
                collective_address,
                op,
                data,
                prev_data,
                tag@,
            )
            &&& final(dht).links().len() == old(dht).links().len() + 2
            &&& final(dht).links().last().base == p
            &&& final(dht).links().last().target == old(dht).records().len()
            &&& final(dht).links().last().link_type == LinkType::ParentChildAction
            &&& final(dht).links().last().tag@ == "parent_action_child_action"@
        },
{
    let action = Action {
        op,
        status: ActionStatus::Executed,
        data,
        prev_data,
        tag: String::from_str(tag),
        strategy: ActionStrategy::SystemAutomatic,
    };
    let r = append_action(dht, author, action, collective_address, parent_action_address);
    proof {
        assert(final(dht).records().drop_last() =~= old(dht).records());
        if parent_action_address is None {
            assert(final(dht).links().drop_last() =~= old(dht).links());
        } else {
            assert(final(dht).links().drop_last().drop_last() =~= old(dht).links());
        }
    }
    r
}

/// All the actions linked from the collective at `collective_address`, in
/// the order their links were made: oldest first, newest last.
pub fn get_actions(dht: &Dht, collective_address: Address) -> (r: Result<ActionsPayload, ZomeError>)
    requires
        dht.wf(),
    ensures
        r is Ok <==> actions_of(dht.records(), dht.links(), collective_address) is Some,
        r is Ok ==> r->Ok_0.collective_address == collective_address && r->Ok_0.actions@
            == actions_of(dht.records(), dht.links(), collective_address)->Some_0,
        r is Err ==> r->Err_0.kind == ErrorKind::NotFound,
{
    let ts = dht.link_targets(collective_address, LinkType::CollectiveAction);
    let ghost rs = dht.records();
    let mut actions: Vec<Action> = Vec::new();
    let mut i: usize = 0;
    while i < ts.len()
        invariant
            dht.wf(),
            rs == dht.records(),
            i <= ts@.len(),
            ts@ == targets(dht.links(), collective_address, LinkType::CollectiveAction),
            actions@.len() == i,
            forall|j: int| 0 <= j < i ==> action_at(rs, ts@[j] as int) == Some(#[trigger] actions@[j]),
        decreases ts@.len() - i,
    {
        match dht.get_action(ts[i]) {
            Some(action) => {
                actions.push(action);
            },
            None => {
                assert(action_at(rs, ts@[i as int] as int) is None);
                return Err(ZomeError::new(ErrorKind::NotFound, "get_actions: action not found"));
            },
        }
        i = i + 1;
    }
    assert forall|j: int| 0 <= j < ts@.len() implies (#[trigger] action_at(rs, ts@[j] as int))
        is Some by {
        assert(action_at(rs, ts@[j] as int) == Some(actions@[j]));
    }
    assert(actions@ =~= actions_of(rs, dht.links(), collective_address)->Some_0);
    Ok(ActionsPayload { collective_address, actions })
}

} // verus!
