use daic_contracts::provenance::{AccessLevel, DaicProvenance, Dataset, ProvenanceError};

fn alice() -> String {
    "alice.near".to_string()
}

fn bob() -> String {
    "bob.near".to_string()
}

fn s(text: &str) -> String {
    text.to_string()
}

fn registry_with_one() -> DaicProvenance {
    let mut reg = DaicProvenance::new();
    reg.register_dataset(alice(), s("cid-1"), s("Rain"), s("Rainfall 2020"), vec![s("cid-0")], 1_000);
    reg
}

#[test]
fn new_provenance_is_empty() {
    let reg = DaicProvenance::new();
    assert_eq!(reg.get_dataset_count(), 0);
    assert!(reg.get_all_datasets().is_empty());
    assert_eq!(reg.get_dataset(s("cid-1")), None);
}

#[test]
fn registered_dataset_starts_public_at_version_one() {
    let reg = registry_with_one();
    assert_eq!(reg.get_dataset_count(), 1);
    assert_eq!(
        reg.get_dataset(s("cid-1")),
        Some(Dataset {
            id: s("cid-1"),
            owner: alice(),
            title: s("Rain"),
            description: s("Rainfall 2020"),
            lineage: vec![s("cid-0")],
            timestamp: 1_000,
            updated: 1_000,
            integrity_hash: String::new(),
            access_level: AccessLevel::Public,
            version: 1,
        })
    );
}

#[test]
fn registering_again_replaces_in_place_and_counts() {
    let mut reg = registry_with_one();
    reg.register_dataset(bob(), s("cid-2"), s("Wind"), s(""), vec![], 2_000);
    reg.register_dataset(bob(), s("cid-1"), s("Rain v2"), s("again"), vec![], 3_000);
    assert_eq!(reg.get_dataset_count(), 3);
    let all = reg.get_all_datasets();
    assert_eq!(all.len(), 2);
    assert_eq!(all[0].id, "cid-1");
    assert_eq!(all[0].owner, bob());
    assert_eq!(all[0].title, "Rain v2");
    assert_eq!(all[0].timestamp, 3_000);
    assert_eq!(all[0].version, 1);
    assert!(all[0].lineage.is_empty());
    assert_eq!(all[1].id, "cid-2");
}

#[test]
fn update_replaces_given_values_and_bumps_version() {
    let mut reg = registry_with_one();
    let outcome = reg.update_dataset(
        &alice(),
        s("cid-1"),
        Some(s("Rain (clean)")),
        None,
        Some(s("0xabc")),
        Some(AccessLevel::Restricted),
        5_000,
    );
    assert_eq!(outcome, Ok(()));
    let d = reg.get_dataset(s("cid-1")).unwrap();
    assert_eq!(d.title, "Rain (clean)");
    assert_eq!(d.description, "Rainfall 2020");
    assert_eq!(d.integrity_hash, "0xabc");
    assert_eq!(d.access_level, AccessLevel::Restricted);
    assert_eq!(d.timestamp, 1_000);
    assert_eq!(d.updated, 5_000);
    assert_eq!(d.version, 2);
    assert_eq!(d.owner, alice());
    assert_eq!(d.lineage, vec![s("cid-0")]);
}

#[test]
fn update_with_nothing_given_still_bumps_version() {
    let mut reg = registry_with_one();
    assert_eq!(reg.update_dataset(&alice(), s("cid-1"), None, None, None, None, 7), Ok(()));
    assert_eq!(reg.update_dataset(&alice(), s("cid-1"), None, None, None, None, 8), Ok(()));
    let d = reg.get_dataset(s("cid-1")).unwrap();
    assert_eq!(d.version, 3);
    assert_eq!(d.updated, 8);
    assert_eq!(d.title, "Rain");
}

#[test]
fn update_by_stranger_is_unauthorized() {
    let mut reg = registry_with_one();
    let before = reg.get_dataset(s("cid-1")).unwrap();
    let outcome =
        reg.update_dataset(&bob(), s("cid-1"), Some(s("mine")), None, None, Some(AccessLevel::Private), 9);
    assert_eq!(outcome, Err(ProvenanceError::Unauthorized));
    assert_eq!(reg.get_dataset(s("cid-1")).unwrap(), before);
}

#[test]
fn update_of_unknown_dataset_is_not_found() {
    let mut reg = registry_with_one();
    let outcome = reg.update_dataset(&alice(), s("cid-9"), None, None, None, None, 9);
    assert_eq!(outcome, Err(ProvenanceError::NotFound));
    assert_eq!(reg.get_all_datasets().len(), 1);
}

#[test]
fn transfer_changes_owner_and_keeps_version() {
    let mut reg = registry_with_one();
    assert_eq!(reg.transfer_ownership(&alice(), s("cid-1"), bob(), 6_000), Ok(()));
    let d = reg.get_dataset(s("cid-1")).unwrap();
    assert_eq!(d.owner, bob());
    assert_eq!(d.updated, 6_000);
    assert_eq!(d.version, 1);
    // the former owner has lost the right to change it
    assert_eq!(
        reg.update_dataset(&alice(), s("cid-1"), None, None, None, None, 7_000),
        Err(ProvenanceError::Unauthorized)
    );
    assert_eq!(reg.update_dataset(&bob(), s("cid-1"), None, None, None, None, 7_000), Ok(()));
}

#[test]
fn transfer_by_stranger_or_of_unknown_is_refused() {
    let mut reg = registry_with_one();
    let before = reg.get_dataset(s("cid-1")).unwrap();
    assert_eq!(
        reg.transfer_ownership(&bob(), s("cid-1"), bob(), 1),
        Err(ProvenanceError::Unauthorized)
    );
    assert_eq!(
        reg.transfer_ownership(&alice(), s("cid-7"), bob(), 1),
        Err(ProvenanceError::NotFound)
    );
    assert_eq!(reg.get_dataset(s("cid-1")).unwrap(), before);
}

#[test]
fn datasets_by_owner_keep_their_order() {
    let mut reg = DaicProvenance::new();
    reg.register_dataset(alice(), s("a1"), s(""), s(""), vec![], 1);
    reg.register_dataset(bob(), s("b1"), s(""), s(""), vec![], 2);
    reg.register_dataset(alice(), s("a2"), s(""), s(""), vec![], 3);
    let ids = |owner: String| -> Vec<String> {
        reg.get_datasets_by_owner(owner).into_iter().map(|d| d.id).collect()
    };
    assert_eq!(ids(alice()), vec![s("a1"), s("a2")]);
    assert_eq!(ids(bob()), vec![s("b1")]);
    assert!(ids(s("carol.near")).is_empty());
}

#[test]
fn dataset_on_its_own() {
    let mut d = Dataset::new(alice(), s("x"), s("t"), s("d"), vec![], 4);
    assert_eq!(d.update(&bob(), None, None, None, None, 5), Err(ProvenanceError::Unauthorized));
    assert_eq!(d.version, 1);
    assert_eq!(d.update(&alice(), None, Some(s("dd")), None, None, 5), Ok(()));
    assert_eq!((d.version, d.updated, d.description.as_str()), (2, 5, "dd"));
    assert_eq!(d.transfer(&alice(), bob(), 6), Ok(()));
    assert_eq!(d.owner, bob());
    assert_eq!(d.clone(), d);
}

#[test]
fn provenance_survives_storing_and_loading() {
    let mut reg = registry_with_one();
    reg.register_dataset(bob(), s("cid-2"), s("Wind"), s(""), vec![], 2_000);
    reg.register_dataset(alice(), s("cid-1"), s("Rain again"), s(""), vec![], 3_000);
    let records = reg.get_all_datasets();
    let mut loaded = DaicProvenance::from_parts(records.clone(), reg.get_dataset_count()).unwrap();
    assert_eq!(loaded.get_all_datasets(), records);
    assert_eq!(loaded.get_dataset_count(), 3);
    assert_eq!(loaded.get_dataset(s("cid-2")), reg.get_dataset(s("cid-2")));
    assert_eq!(loaded.update_dataset(&bob(), s("cid-2"), None, None, None, None, 9), Ok(()));
}

#[test]
fn datasets_sharing_an_id_are_refused() {
    let a = Dataset::new(alice(), s("x"), s("t"), s("d"), vec![], 4);
    let b = Dataset::new(bob(), s("y"), s("t"), s("d"), vec![], 5);
    let again = Dataset::new(bob(), s("x"), s("other"), s(""), vec![], 6);
    assert!(DaicProvenance::from_parts(vec![], 0).is_some());
    assert!(DaicProvenance::from_parts(vec![a.clone(), b.clone()], 7).is_some());
    assert!(DaicProvenance::from_parts(vec![a.clone(), b, again], 7).is_none());
    assert!(DaicProvenance::from_parts(vec![a.clone(), a], 2).is_none());
}
