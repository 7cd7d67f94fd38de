use protocol_love::action::{
    append_action, Action, ActionData, ActionOp, ActionStatus, ActionStrategy, ChildAction, RootAction,
};
use protocol_love::collective::{validate_collective, Collective};
use protocol_love::error::{t, tag_error, ErrorKind, ZomeError};
use protocol_love::ledger::{commit_ledger, create_collective_ledger, Ledger};
use protocol_love::person::{EntryValidation, Person, PersonStatus};
use protocol_love::proposal::{create_proposal, Proposal, ProposalParams};
use protocol_love::store::{get_entry, Dht, Entry, LinkType};

const ALICE: u64 = 1;
const BOB: u64 = 2;

fn alice() -> Person {
    Person { agent_address: ALICE, name: "Alice".to_string(), status: PersonStatus::Active }
}

fn action(tag: &str) -> Action {
    Action {
        op: ActionOp::SetCollectiveName,
        status: ActionStatus::Executed,
        data: ActionData::SetCollectiveName { name: "n".to_string() },
        prev_data: ActionData::Null,
        tag: tag.to_string(),
        strategy: ActionStrategy::SystemAutomatic,
    }
}

#[test]
fn commit_gives_consecutive_addresses() {
    let mut dht = Dht::new();
    assert_eq!(dht.commit(Entry::Person { person: alice() }, ALICE).unwrap(), 0);
    assert_eq!(dht.commit(Entry::Ledger { ledger: Ledger::default() }, BOB).unwrap(), 1);
    assert_eq!(dht.len(), 2);
    match get_entry(&dht, 1).unwrap() {
        Some(Entry::Ledger { ledger }) => assert_eq!(ledger.name, "unnamed ledger"),
        other => panic!("unexpected entry {:?}", other),
    }
    assert!(get_entry(&dht, 2).unwrap().is_none());
}

#[test]
fn commit_runs_admission_control() {
    let mut dht = Dht::new();
    let err = dht.commit(Entry::Person { person: alice() }, BOB).unwrap_err();
    assert_eq!(err.kind, ErrorKind::ValidationRejected);
    assert_eq!(err.message, "Person representing agent must be created by agent");
    let err = dht
        .commit(Entry::Collective { collective: Collective { name: "c".to_string(), admin_address: None } }, ALICE)
        .unwrap_err();
    assert_eq!(err.message, "Collective being created must have an admin");
    assert_eq!(dht.len(), 0);
}

#[test]
fn update_supersedes_and_get_follows() {
    let mut dht = Dht::new();
    let a = dht.commit(Entry::Person { person: alice() }, ALICE).unwrap();
    let renamed = Person { name: "Alicia".to_string(), ..alice() };
    let b = dht.update(a, Entry::Person { person: renamed }, ALICE).unwrap();
    assert_eq!(b, 1);
    assert_eq!(dht.get_person(a).unwrap().name, "Alicia");
    assert_eq!(dht.get_person(b).unwrap().name, "Alicia");
    let again = Person { name: "Ali".to_string(), ..alice() };
    dht.update(a, Entry::Person { person: again }, ALICE).unwrap();
    assert_eq!(dht.get_person(a).unwrap().name, "Ali");
    assert_eq!(dht.get_person(b).unwrap().name, "Ali");
}

#[test]
fn update_errors() {
    let mut dht = Dht::new();
    assert_eq!(dht.update(0, Entry::Person { person: alice() }, ALICE).unwrap_err().kind, ErrorKind::NotFound);
    let a = dht.commit(Entry::Person { person: alice() }, ALICE).unwrap();
    let err = dht.update(a, Entry::Person { person: alice() }, BOB).unwrap_err();
    assert_eq!(err.kind, ErrorKind::ValidationRejected);
    assert_eq!(err.message, "Person can only update by oneself");
    let err = dht.update(a, Entry::Ledger { ledger: Ledger::default() }, ALICE).unwrap_err();
    assert_eq!(err.message, "Entry type cannot be changed");
    assert_eq!(dht.len(), 1);
}

#[test]
fn links_keep_insertion_order() {
    let mut dht = Dht::new();
    for _ in 0..3 {
        dht.commit(Entry::Proposal { proposal: Proposal::default() }, ALICE).unwrap();
    }
    dht.link(0, 2, LinkType::CollectivePerson, "Creator".to_string()).unwrap();
    dht.link(0, 1, LinkType::CollectivePerson, "Member".to_string()).unwrap();
    dht.link(1, 2, LinkType::CollectivePerson, "Creator".to_string()).unwrap();
    assert_eq!(dht.link_targets(0, LinkType::CollectivePerson), vec![2, 1]);
    assert_eq!(dht.tagged_link_targets(0, LinkType::CollectivePerson, "Member"), vec![1]);
    assert!(dht.link_targets(0, LinkType::CollectiveAction).is_empty());
    let err = dht.link(0, 3, LinkType::CollectiveLedger, String::new()).unwrap_err();
    assert_eq!(err.kind, ErrorKind::SubstrateFailure);
}

#[test]
fn append_action_links_root_and_child() {
    let mut dht = Dht::new();
    let c = dht.commit(Entry::Proposal { proposal: Proposal::default() }, ALICE).unwrap();
    let root = action("root").commit_action(&mut dht, ALICE, c).unwrap();
    let child = action("child").commit_child_action(&mut dht, ALICE, c, root).unwrap();
    assert_eq!((root, child), (1, 2));
    assert_eq!(dht.link_targets(c, LinkType::CollectiveAction), vec![1, 2]);
    assert_eq!(
        dht.tagged_link_targets(root, LinkType::ParentChildAction, "parent_action_child_action"),
        vec![2]
    );
    assert_eq!(dht.tagged_link_targets(c, LinkType::CollectiveAction, "child"), vec![2]);
}

#[test]
fn append_action_to_missing_collective_writes_nothing() {
    let mut dht = Dht::new();
    let err = append_action(&mut dht, ALICE, action("x"), 0, None).unwrap_err();
    assert_eq!(err.kind, ErrorKind::NotFound);
    let c = dht.commit(Entry::Proposal { proposal: Proposal::default() }, ALICE).unwrap();
    let err = action("x").commit_child_action(&mut dht, ALICE, c, 5).unwrap_err();
    assert_eq!(err.kind, ErrorKind::NotFound);
    assert_eq!(dht.len(), 1);
}

#[test]
fn ledger_is_named_after_collective() {
    let mut dht = Dht::new();
    let c = dht.commit(Entry::Proposal { proposal: Proposal::default() }, ALICE).unwrap();
    let collective = Collective { name: "Garden".to_string(), admin_address: None };
    let l = create_collective_ledger(&mut dht, ALICE, &collective, c).unwrap();
    match dht.get(l) {
        Some(Entry::Ledger { ledger }) => assert_eq!(ledger.name, "Primary Ledger for Garden"),
        other => panic!("unexpected entry {:?}", other),
    }
    assert_eq!(dht.tagged_link_targets(c, LinkType::CollectiveLedger, "ledger_primary"), vec![l]);
    assert_eq!(create_collective_ledger(&mut dht, ALICE, &collective, 9).unwrap_err().kind, ErrorKind::NotFound);
    assert_eq!(commit_ledger(&mut dht, BOB, Ledger::default()).unwrap(), 2);
}

#[test]
fn proposal_is_recorded() {
    let mut dht = Dht::new();
    let p = create_proposal(
        &mut dht,
        ALICE,
        ProposalParams { name: "Plant trees".to_string(), content: "Ten of them".to_string() },
    )
    .unwrap();
    assert_eq!(p.proposal_address, 0);
    assert_eq!(p.proposal.name, "Plant trees");
    match dht.get(0) {
        Some(Entry::Proposal { proposal }) => assert_eq!(proposal.content, "Ten of them"),
        other => panic!("unexpected entry {:?}", other),
    }
    let d = Proposal::default();
    assert_eq!((d.name.as_str(), d.content.as_str()), ("unnamed proposal", ""));
}

#[test]
fn collective_validation_rules() {
    let mut dht = Dht::new();
    let admin = dht.commit(Entry::Person { person: alice() }, ALICE).unwrap();
    let c = Collective { name: "c".to_string(), admin_address: Some(admin) };
    assert!(validate_collective(&dht, &EntryValidation::Create { entry: c.clone() }, &vec![ALICE]).is_ok());
    assert_eq!(
        validate_collective(&dht, &EntryValidation::Create { entry: c.clone() }, &vec![BOB]),
        Err("Collective must be created with same agent as the given person".to_string())
    );
    assert_eq!(
        validate_collective(&dht, &EntryValidation::Modify { new_entry: c.clone(), old_entry: c.clone() }, &vec![BOB]),
        Err("Collective can only be modified by the admin".to_string())
    );
    let orphan = Collective { name: "o".to_string(), admin_address: None };
    assert_eq!(
        validate_collective(&dht, &EntryValidation::Modify { new_entry: orphan.clone(), old_entry: orphan }, &vec![ALICE]),
        Err("Collective can only be modified with an executed proposal".to_string())
    );
    let missing = Collective { name: "m".to_string(), admin_address: Some(7) };
    assert_eq!(
        validate_collective(&dht, &EntryValidation::Create { entry: missing }, &vec![ALICE]),
        Err("Collective admin not found".to_string())
    );
    assert_eq!(
        validate_collective(&dht, &EntryValidation::Delete { old_entry: c }, &vec![ALICE]),
        Err("Collective cannot be deleted".to_string())
    );
    assert_eq!(Collective::default().name, "unnamed collective");
}

#[test]
fn errors_carry_breadcrumbs() {
    let inner = ZomeError::new(ErrorKind::SubstrateFailure, "cause");
    let outer: Result<u8, ZomeError> = tag_error(inner, "commit_ledger: ");
    let outer = t("create_collective_ledger: ", outer).unwrap_err();
    assert_eq!(outer.kind, ErrorKind::SubstrateFailure);
    assert_eq!(outer.message, "create_collective_ledger: commit_ledger: cause");
    assert_eq!(t::<u8>("ignored: ", Ok(5)).unwrap(), 5);
}

#[test]
fn committed_action_cannot_be_modified() {
    let mut dht = Dht::new();
    let c = dht.commit(Entry::Proposal { proposal: Proposal::default() }, ALICE).unwrap();
    let a = action("x").commit_action(&mut dht, ALICE, c).unwrap();
    let err = dht.update(a, Entry::Action { action: action("y") }, ALICE).unwrap_err();
    assert_eq!(err.kind, ErrorKind::ValidationRejected);
    assert_eq!(err.message, "Action cannot be modified");
    match dht.get(a) {
        Some(Entry::Action { action }) => assert_eq!(action.tag, "x"),
        other => panic!("unexpected entry {:?}", other),
    }
    assert_eq!(dht.len(), 2);
}

#[test]
fn collective_admin_cannot_change() {
    let mut dht = Dht::new();
    let admin = dht.commit(Entry::Person { person: alice() }, ALICE).unwrap();
    let other = dht.commit(Entry::Person { person: alice() }, ALICE).unwrap();
    let c = dht
        .commit(Entry::Collective { collective: Collective { name: "c".to_string(), admin_address: Some(admin) } }, ALICE)
        .unwrap();
    let moved = Collective { name: "c".to_string(), admin_address: Some(other) };
    let err = dht.update(c, Entry::Collective { collective: moved }, ALICE).unwrap_err();
    assert_eq!(err.kind, ErrorKind::ValidationRejected);
    assert_eq!(err.message, "admin_address cannot be updated");
    let cleared = Collective { name: "c".to_string(), admin_address: None };
    assert!(dht.update(c, Entry::Collective { collective: cleared }, ALICE).is_err());
    assert_eq!(dht.get_collective(c).unwrap().admin_address, Some(admin));
}

#[test]
fn append_errors_name_the_missing_end() {
    let mut dht = Dht::new();
    let err = append_action(&mut dht, ALICE, action("x"), 0, None).unwrap_err();
    assert_eq!(err.message, "append_action: collective not found");
    let c = dht.commit(Entry::Proposal { proposal: Proposal::default() }, ALICE).unwrap();
    let err = append_action(&mut dht, ALICE, action("x"), c, Some(4)).unwrap_err();
    assert_eq!(err.message, "append_action: parent action not found");
    let err = create_collective_ledger(
        &mut dht,
        ALICE,
        &Collective { name: "g".to_string(), admin_address: None },
        9,
    )
    .unwrap_err();
    assert_eq!(err.message, "create_collective_ledger: collective not found");
}
