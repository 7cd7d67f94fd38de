use protocol_love::action::{get_actions, ActionData, ActionOp, ActionStatus, ActionStrategy};
use protocol_love::collective::{
    create_collective, get_collective, get_collective_creator, get_collective_people,
    set_collective_name, CollectivePersonTag, CreateCollectiveParams, SetCollectiveNameParams,
};
use protocol_love::error::ErrorKind;
use protocol_love::person::{create_person, PersonParams, PersonStatus};
use protocol_love::store::{Dht, Entry, LinkType};

const ALICE: u64 = 1;
const BOB: u64 = 2;

fn found(dht: &mut Dht, caller: u64, name: &str) -> usize {
    let payload = create_collective(
        dht,
        caller,
        CreateCollectiveParams { name: name.to_string(), admin_address: None },
    )
    .expect("collective is created");
    payload.collective_address
}

#[test]
fn create_collective_synthesizes_admin_and_reads_back() {
    let mut dht = Dht::new();
    let payload = create_collective(
        &mut dht,
        ALICE,
        CreateCollectiveParams { name: "Collective 0".to_string(), admin_address: None },
    )
    .unwrap();
    let c1 = payload.collective_address;
    assert_eq!(payload.collective.name, "Collective 0");
    let admin = payload.collective.admin_address.expect("admin is set");
    let got = get_collective(&dht, c1).unwrap();
    assert_eq!(got.collective_address, c1);
    assert_eq!(got.collective.name, "Collective 0");
    assert_eq!(got.collective.admin_address, Some(admin));
    let person = dht.get_person(admin).expect("admin is a participant");
    assert_eq!(person.agent_address, ALICE);
    assert_eq!(person.name, "");
    assert_eq!(person.status, PersonStatus::Active);
}

#[test]
fn create_collective_journals_three_actions() {
    let mut dht = Dht::new();
    let c1 = found(&mut dht, ALICE, "Collective 0");
    let admin = get_collective(&dht, c1).unwrap().collective.admin_address.unwrap();
    let actions = get_actions(&dht, c1).unwrap();
    assert_eq!(actions.collective_address, c1);
    assert_eq!(actions.actions.len(), 3);
    let ops: Vec<ActionOp> = actions.actions.iter().map(|a| a.op).collect();
    assert_eq!(
        ops,
        vec![ActionOp::CreateCollective, ActionOp::SetCollectiveName, ActionOp::AddCollectivePerson]
    );
    for a in &actions.actions {
        assert_eq!(a.status, ActionStatus::Executed);
        assert_eq!(a.strategy, ActionStrategy::SystemAutomatic);
        assert!(matches!(a.prev_data, ActionData::Null));
    }
    assert_eq!(actions.actions[0].tag, "create_collective");
    match &actions.actions[0].data {
        ActionData::Collective { collective } => assert_eq!(collective.name, "Collective 0"),
        other => panic!("unexpected data {:?}", other),
    }
    match &actions.actions[1].data {
        ActionData::SetCollectiveName { name } => assert_eq!(name, "Collective 0"),
        other => panic!("unexpected data {:?}", other),
    }
    match &actions.actions[2].data {
        ActionData::AddCollectivePerson { person_address } => assert_eq!(*person_address, admin),
        other => panic!("unexpected data {:?}", other),
    }
}

#[test]
fn create_collective_has_one_creator_participant() {
    let mut dht = Dht::new();
    let c1 = found(&mut dht, ALICE, "Collective 0");
    let admin = get_collective(&dht, c1).unwrap().collective.admin_address.unwrap();
    let people = get_collective_people(&dht, c1).unwrap();
    assert_eq!(people.collective_address, c1);
    assert_eq!(people.collective_people.len(), 1);
    assert_eq!(people.collective_people[0].agent_address, ALICE);
    let creators =
        dht.tagged_link_targets(c1, LinkType::CollectivePerson, &CollectivePersonTag::Creator.to_string());
    assert_eq!(creators, vec![admin]);
    let creator = get_collective_creator(&dht, c1).unwrap();
    assert_eq!(creator.collective_creator.agent_address, ALICE);
}

#[test]
fn create_collective_creates_primary_ledger() {
    let mut dht = Dht::new();
    let c1 = found(&mut dht, ALICE, "Collective 0");
    let ledgers = dht.link_targets(c1, LinkType::CollectiveLedger);
    assert_eq!(ledgers.len(), 1);
    match dht.get(ledgers[0]) {
        Some(Entry::Ledger { ledger }) => assert_eq!(ledger.name, "Primary Ledger for Collective 0"),
        other => panic!("unexpected entry {:?}", other),
    }
}

#[test]
fn create_collective_with_own_participant() {
    let mut dht = Dht::new();
    let person = create_person(
        &mut dht,
        ALICE,
        PersonParams { name: "Alice".to_string(), agent_address: ALICE, status: PersonStatus::Active },
    )
    .unwrap();
    let before = dht.len();
    let payload = create_collective(
        &mut dht,
        ALICE,
        CreateCollectiveParams {
            name: "Own".to_string(),
            admin_address: Some(person.person_address),
        },
    )
    .unwrap();
    assert_eq!(payload.collective_address, before);
    assert_eq!(payload.collective.admin_address, Some(person.person_address));
    let people = get_collective_people(&dht, payload.collective_address).unwrap();
    assert_eq!(people.collective_people.len(), 1);
    assert_eq!(people.collective_people[0].name, "Alice");
}

#[test]
fn create_collective_with_someone_elses_participant_is_rejected() {
    let mut dht = Dht::new();
    let person = create_person(
        &mut dht,
        BOB,
        PersonParams { name: "Bob".to_string(), agent_address: BOB, status: PersonStatus::Active },
    )
    .unwrap();
    let before = dht.len();
    let err = create_collective(
        &mut dht,
        ALICE,
        CreateCollectiveParams { name: "Stolen".to_string(), admin_address: Some(person.person_address) },
    )
    .unwrap_err();
    assert_eq!(err.kind, ErrorKind::ValidationRejected);
    assert_eq!(
        err.message,
        "create_collective: commit_collective: Collective must be created with same agent as the given person"
    );
    assert_eq!(dht.len(), before);
}

#[test]
fn create_collective_with_missing_participant_is_not_found() {
    let mut dht = Dht::new();
    let err = create_collective(
        &mut dht,
        ALICE,
        CreateCollectiveParams { name: "Nobody".to_string(), admin_address: Some(42) },
    )
    .unwrap_err();
    assert_eq!(err.kind, ErrorKind::NotFound);
    assert_eq!(err.message, "create_collective: get_person: person address not found");
    assert_eq!(dht.len(), 0);
}

#[test]
fn get_collective_of_wrong_type_is_not_found() {
    let mut dht = Dht::new();
    let c1 = found(&mut dht, ALICE, "Collective 0");
    let admin = get_collective(&dht, c1).unwrap().collective.admin_address.unwrap();
    assert_eq!(get_collective(&dht, admin).unwrap_err().kind, ErrorKind::NotFound);
    assert_eq!(get_collective(&dht, 1000).unwrap_err().kind, ErrorKind::NotFound);
}

#[test]
fn admin_renames_collective() {
    let mut dht = Dht::new();
    let c1 = found(&mut dht, ALICE, "Collective 0");
    let count = get_actions(&dht, c1).unwrap().actions.len();
    let renamed = set_collective_name(
        &mut dht,
        ALICE,
        SetCollectiveNameParams { collective_address: c1, name: "Renamed".to_string() },
    )
    .unwrap();
    assert_eq!(renamed.collective_address, c1);
    assert_eq!(renamed.collective.name, "Renamed");
    assert_eq!(get_collective(&dht, c1).unwrap().collective.name, "Renamed");
    let actions = get_actions(&dht, c1).unwrap().actions;
    assert_eq!(actions.len(), count + 1);
    let newest = actions.last().unwrap();
    assert_eq!(newest.op, ActionOp::SetCollectiveName);
    match (&newest.data, &newest.prev_data) {
        (ActionData::SetCollectiveName { name }, ActionData::SetCollectiveName { name: prev }) => {
            assert_eq!(name, "Renamed");
            assert_eq!(prev, "Collective 0");
        }
        other => panic!("unexpected data {:?}", other),
    }
}

#[test]
fn second_rename_replaces_first() {
    let mut dht = Dht::new();
    let c1 = found(&mut dht, ALICE, "Collective 0");
    let params = |name: &str| SetCollectiveNameParams { collective_address: c1, name: name.to_string() };
    set_collective_name(&mut dht, ALICE, params("First")).unwrap();
    set_collective_name(&mut dht, ALICE, params("Second")).unwrap();
    assert_eq!(get_collective(&dht, c1).unwrap().collective.name, "Second");
    let actions = get_actions(&dht, c1).unwrap().actions;
    assert_eq!(actions.len(), 5);
    match &actions[4].prev_data {
        ActionData::SetCollectiveName { name } => assert_eq!(name, "First"),
        other => panic!("unexpected data {:?}", other),
    }
}

#[test]
fn non_admin_rename_is_rejected() {
    let mut dht = Dht::new();
    let c1 = found(&mut dht, ALICE, "Collective 0");
    let count = get_actions(&dht, c1).unwrap().actions.len();
    let before = dht.len();
    let err = set_collective_name(
        &mut dht,
        BOB,
        SetCollectiveNameParams { collective_address: c1, name: "X".to_string() },
    )
    .unwrap_err();
    assert_eq!(err.kind, ErrorKind::ValidationRejected);
    assert_eq!(err.message, "set_collective_name: update_collective: Collective can only be modified by the admin");
    assert_eq!(get_actions(&dht, c1).unwrap().actions.len(), count);
    assert_eq!(get_collective(&dht, c1).unwrap().collective.name, "Collective 0");
    assert_eq!(dht.len(), before);
}

#[test]
fn rename_of_missing_collective_is_not_found() {
    let mut dht = Dht::new();
    let err = set_collective_name(
        &mut dht,
        ALICE,
        SetCollectiveNameParams { collective_address: 3, name: "X".to_string() },
    )
    .unwrap_err();
    assert_eq!(err.kind, ErrorKind::NotFound);
    assert_eq!(err.message, "set_collective_name: Could not find collective");
}

#[test]
fn creator_of_unknown_collective_is_not_found() {
    let dht = Dht::new();
    assert_eq!(get_collective_creator(&dht, 0).unwrap_err().kind, ErrorKind::NotFound);
    let people = get_collective_people(&dht, 0).unwrap();
    assert!(people.collective_people.is_empty());
    assert!(get_actions(&dht, 0).unwrap().actions.is_empty());
}

#[test]
fn collectives_keep_separate_journals() {
    let mut dht = Dht::new();
    let c1 = found(&mut dht, ALICE, "One");
    let c2 = found(&mut dht, BOB, "Two");
    assert_ne!(c1, c2);
    assert_eq!(get_actions(&dht, c1).unwrap().actions.len(), 3);
    assert_eq!(get_actions(&dht, c2).unwrap().actions.len(), 3);
    assert_eq!(get_collective_creator(&dht, c2).unwrap().collective_creator.agent_address, BOB);
    set_collective_name(
        &mut dht,
        BOB,
        SetCollectiveNameParams { collective_address: c2, name: "Deux".to_string() },
    )
    .unwrap();
    assert_eq!(get_actions(&dht, c1).unwrap().actions.len(), 3);
    assert_eq!(get_actions(&dht, c2).unwrap().actions.len(), 4);
    assert_eq!(get_collective(&dht, c1).unwrap().collective.name, "One");
}

#[test]
fn own_participant_as_admin_adds_no_participant_record() {
    let mut dht = Dht::new();
    let person = create_person(
        &mut dht,
        ALICE,
        PersonParams { name: "Alice".to_string(), agent_address: ALICE, status: PersonStatus::Active },
    )
    .unwrap();
    let before = dht.len();
    let payload = create_collective(
        &mut dht,
        ALICE,
        CreateCollectiveParams { name: "Own".to_string(), admin_address: Some(person.person_address) },
    )
    .unwrap();
    assert_eq!(dht.len(), before + 5);
    for a in before..dht.len() {
        assert!(!matches!(dht.get(a), Some(Entry::Person { .. })));
    }
    let people = dht.link_targets(payload.collective_address, LinkType::CollectivePerson);
    assert_eq!(people, vec![person.person_address]);
}
