use firehose_dispatch::registry::{identify, Registry, ReloadError, Subscriber};

fn subscriber(author: &str, destination: &str) -> Subscriber {
    Subscriber { author_id: author.to_string(), destination_address: destination.to_string() }
}

fn rows() -> Vec<Subscriber> {
    vec![
        subscriber("did:example:abc", "+1"),
        subscriber("did:example:xyz", "+2"),
        subscriber("did:example:abc", "+3"),
        subscriber("did:example:abc", "+1"),
    ]
}

#[test]
fn a_new_registry_knows_nobody() {
    let registry = Registry::new();
    assert_eq!(registry.lookup("did:example:abc"), vec![]);
    assert_eq!(registry.authors(), Vec::<String>::new());
}

#[test]
fn lookup_gives_the_subscribers_of_the_author_in_the_order_of_the_rows() {
    let registry = Registry::from_rows(&rows());
    assert_eq!(
        registry.lookup("did:example:abc"),
        vec![
            subscriber("did:example:abc", "+1"),
            subscriber("did:example:abc", "+3"),
            subscriber("did:example:abc", "+1"),
        ]
    );
    assert_eq!(registry.lookup("did:example:xyz"), vec![subscriber("did:example:xyz", "+2")]);
}

#[test]
fn lookup_of_an_unknown_author_is_empty() {
    let registry = Registry::from_rows(&rows());
    assert_eq!(registry.lookup("did:example:nobody"), vec![]);
    assert_eq!(registry.lookup(""), vec![]);
    assert_eq!(registry.lookup("did:example:ab"), vec![]);
    assert_eq!(registry.lookup("did:example:abcd"), vec![]);
}

#[test]
fn authors_names_each_author_once() {
    let registry = Registry::from_rows(&rows());
    assert_eq!(registry.authors(), vec!["did:example:abc".to_string(), "did:example:xyz".to_string()]);
}

#[test]
fn a_reload_replaces_the_snapshot_as_a_whole() {
    let mut registry = Registry::from_rows(&rows());
    let fresh = vec![subscriber("did:example:xyz", "+9"), subscriber("did:example:new", "+8")];
    assert_eq!(registry.reload(Ok(fresh)), Ok(()));
    assert_eq!(registry.lookup("did:example:abc"), vec![]);
    assert_eq!(registry.lookup("did:example:xyz"), vec![subscriber("did:example:xyz", "+9")]);
    assert_eq!(registry.lookup("did:example:new"), vec![subscriber("did:example:new", "+8")]);
}

#[test]
fn a_reload_with_no_rows_empties_the_registry() {
    let mut registry = Registry::from_rows(&rows());
    assert_eq!(registry.reload(Ok(vec![])), Ok(()));
    assert_eq!(registry.lookup("did:example:abc"), vec![]);
    assert_eq!(registry.authors(), Vec::<String>::new());
}

#[test]
fn a_failed_reload_leaves_every_lookup_as_it_was() {
    let mut registry = Registry::from_rows(&rows());
    let before: Vec<Vec<Subscriber>> =
        ["did:example:abc", "did:example:xyz", "did:example:nobody"].iter().map(|a| registry.lookup(a)).collect();
    let failure = ReloadError::Unavailable { reason: "store is down".to_string() };
    assert_eq!(registry.reload(Err(failure.clone())), Err(failure));
    let after: Vec<Vec<Subscriber>> =
        ["did:example:abc", "did:example:xyz", "did:example:nobody"].iter().map(|a| registry.lookup(a)).collect();
    assert_eq!(before, after);
    assert_eq!(after[0].len(), 3);
    assert_eq!(registry.authors().len(), 2);
}

#[test]
fn a_lookup_never_mixes_two_snapshots() {
    let old_rows = vec![subscriber("did:example:abc", "old 1"), subscriber("did:example:abc", "old 2")];
    let new_rows = vec![subscriber("did:example:abc", "new 1"), subscriber("did:example:abc", "new 2")];
    let mut registry = Registry::from_rows(&old_rows);
    for round in 0..6 {
        let found = registry.lookup("did:example:abc");
        assert!(found == old_rows || found == new_rows);
        let next = if round % 2 == 0 { new_rows.clone() } else { old_rows.clone() };
        if round % 3 == 2 {
            let failure = ReloadError::Unavailable { reason: String::new() };
            assert!(registry.reload(Err(failure)).is_err());
            assert_eq!(registry.lookup("did:example:abc"), found);
        } else {
            assert!(registry.reload(Ok(next.clone())).is_ok());
            assert_eq!(registry.lookup("did:example:abc"), next);
        }
    }
}

#[test]
fn identify_keeps_rows_that_name_an_identity() {
    let named = vec![
        subscriber("did:plc:ewvi7nxzyoun6zhxrhs64oiz", "+1"),
        subscriber("did:web:example.com", "+2"),
        subscriber("did:example:abc", "+3"),
    ];
    assert_eq!(identify(&named), Some(named.clone()));
    assert_eq!(identify(&vec![]), Some(vec![]));
}

#[test]
fn identify_gives_nothing_where_a_row_names_no_identity() {
    for bad in ["", "coreyja.com", "did:", "did:plc:", "DID:plc:abc", "did:plc:abc:", "did:pl c:abc"] {
        let rows = vec![subscriber("did:example:abc", "+1"), subscriber(bad, "+2")];
        assert_eq!(identify(&rows), None, "{bad}");
    }
    let long = format!("did:example:{}", "a".repeat(2048));
    assert_eq!(identify(&vec![subscriber(&long, "+1")]), None);
}

#[test]
fn a_registry_of_identified_rows_routes_by_the_identity() {
    let rows = identify(&vec![subscriber("did:example:abc", "+1")]).unwrap();
    let registry = Registry::from_rows(&rows);
    assert_eq!(registry.lookup("did:example:abc"), vec![subscriber("did:example:abc", "+1")]);
}
