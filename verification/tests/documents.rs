use did_registry::bounded_list::BoundedList;
use did_registry::bounded_map::BoundedMap;
use did_registry::document::{Call, DidDocument};
use did_registry::error::Error;
use did_registry::event::Event;
use did_registry::primitives::Config;
use did_registry::record::{from_record, to_record, DocumentRecord};
use did_registry::store::DocumentStore;

const ALICE: u64 = 1;
const BOB: u64 = 2;

fn limits() -> Config {
    Config { max_linked_chains: 3, max_public_keys: 2, max_services: 2 }
}

fn link(chain_id: u32, address: &[u8]) -> Call {
    Call::LinkChain { chain_name: b"name".to_vec(), chain_id, address: address.to_vec() }
}

fn every_call() -> Vec<Call> {
    vec![
        link(1, b"one"),
        Call::UnlinkChain { chain_id: 1 },
        Call::AddPublicKey { key: b"k".to_vec() },
        Call::RemovePublicKey { key: b"k".to_vec() },
        Call::AddService { service: b"s".to_vec() },
        Call::RemoveService { service: b"s".to_vec() },
    ]
}

#[test]
fn new_document_is_empty() {
    let doc = DidDocument::new(ALICE, 42, limits());
    assert_eq!(doc.controller(), ALICE);
    assert_eq!(doc.created_at(), 42);
    assert_eq!(doc.linked_chains(), &BoundedMap::new(3));
    assert_eq!(doc.public_keys(), &BoundedList::new(2));
    assert_eq!(doc.services(), &BoundedList::new(2));
}

#[test]
fn only_the_controller_passes_the_guard() {
    let doc = DidDocument::new(ALICE, 0, limits());
    assert_eq!(doc.ensure_controller(ALICE), Ok(()));
    assert_eq!(doc.ensure_controller(BOB), Err(Error::NotController));
}

#[test]
fn another_account_cannot_change_a_document() {
    let mut doc = DidDocument::new(ALICE, 0, limits());
    assert_eq!(doc.apply(ALICE, &link(1, b"one")), Ok(()));
    assert_eq!(doc.apply(ALICE, &Call::AddPublicKey { key: b"k".to_vec() }), Ok(()));
    assert_eq!(doc.apply(ALICE, &Call::AddService { service: b"s".to_vec() }), Ok(()));
    let before = doc.clone();
    for call in every_call() {
        assert_eq!(doc.apply(BOB, &call), Err(Error::NotController));
        assert_eq!(doc, before);
    }
}

#[test]
fn guard_comes_before_the_limit() {
    let mut doc = DidDocument::new(ALICE, 0, limits());
    assert_eq!(doc.apply(ALICE, &Call::AddPublicKey { key: b"a".to_vec() }), Ok(()));
    assert_eq!(doc.apply(ALICE, &Call::AddPublicKey { key: b"b".to_vec() }), Ok(()));
    assert_eq!(
        doc.apply(BOB, &Call::AddPublicKey { key: b"c".to_vec() }),
        Err(Error::NotController)
    );
    assert_eq!(
        doc.apply(ALICE, &Call::AddPublicKey { key: b"c".to_vec() }),
        Err(Error::TooManyPublicKeys)
    );
}

#[test]
fn document_refuses_what_the_registry_refuses() {
    let mut doc = DidDocument::new(ALICE, 0, limits());
    assert_eq!(doc.apply(ALICE, &Call::UnlinkChain { chain_id: 1 }), Err(Error::ChainNotLinked));
    assert_eq!(
        doc.apply(ALICE, &Call::RemovePublicKey { key: b"k".to_vec() }),
        Err(Error::PublicKeyNotFound)
    );
    assert_eq!(
        doc.apply(ALICE, &Call::RemoveService { service: b"s".to_vec() }),
        Err(Error::ServiceNotFound)
    );
    assert_eq!(doc.apply(ALICE, &link(1, b"one")), Ok(()));
    assert_eq!(doc.apply(ALICE, &link(1, b"uno")), Err(Error::ChainAlreadyLinked));
    assert_eq!(doc.apply(ALICE, &link(2, b"two")), Ok(()));
    assert_eq!(doc.apply(ALICE, &link(3, b"three")), Ok(()));
    assert_eq!(doc.apply(ALICE, &link(4, b"four")), Err(Error::TooManyLinkedChains));
    assert_eq!(doc.apply(ALICE, &link(1, b"uno")), Err(Error::TooManyLinkedChains));
    assert_eq!(doc.apply(ALICE, &Call::AddService { service: b"a".to_vec() }), Ok(()));
    assert_eq!(doc.apply(ALICE, &Call::AddService { service: b"a".to_vec() }), Ok(()));
    assert_eq!(
        doc.apply(ALICE, &Call::AddService { service: b"b".to_vec() }),
        Err(Error::TooManyServices)
    );
    assert_eq!(doc.services().to_vec(), vec![b"a".to_vec(), b"a".to_vec()]);
}

#[test]
fn call_becomes_its_event() {
    assert_eq!(
        link(3, b"addr").into_event(ALICE),
        Event::ChainLinked { did: ALICE, chain_id: 3, address: b"addr".to_vec() }
    );
    assert_eq!(
        Call::UnlinkChain { chain_id: 3 }.into_event(BOB),
        Event::ChainUnlinked { did: BOB, chain_id: 3 }
    );
    assert_eq!(
        Call::AddPublicKey { key: b"k".to_vec() }.into_event(ALICE),
        Event::PublicKeyAdded { did: ALICE, key: b"k".to_vec() }
    );
    assert_eq!(
        Call::RemovePublicKey { key: b"k".to_vec() }.into_event(ALICE),
        Event::PublicKeyRemoved { did: ALICE, key: b"k".to_vec() }
    );
    assert_eq!(
        Call::AddService { service: b"s".to_vec() }.into_event(ALICE),
        Event::ServiceAdded { did: ALICE, service: b"s".to_vec() }
    );
    assert_eq!(
        Call::RemoveService { service: b"s".to_vec() }.into_event(ALICE),
        Event::ServiceRemoved { did: ALICE, service: b"s".to_vec() }
    );
}

#[test]
fn copies_are_equal() {
    let call = link(3, b"addr");
    assert_eq!(call.clone(), call);
    let event = Event::ServiceAdded { did: ALICE, service: b"s".to_vec() };
    assert_eq!(event.clone(), event);
    let mut doc = DidDocument::new(ALICE, 1, limits());
    assert_eq!(doc.apply(ALICE, &call), Ok(()));
    assert_eq!(doc.clone(), doc);
    let record = to_record(&doc);
    assert_eq!(record.clone(), record);
}

#[test]
fn store_has_one_document_per_account() {
    let mut store = DocumentStore::new(limits()).unwrap();
    assert_eq!(store.len(), 0);
    assert!(!store.contains(ALICE));
    assert_eq!(store.get(ALICE), None);
    assert_eq!(store.insert_new(ALICE, 5), Ok(()));
    assert!(store.contains(ALICE));
    assert_eq!(store.get(ALICE), Some(DidDocument::new(ALICE, 5, limits())));
    let before = store.clone();
    assert_eq!(store.insert_new(ALICE, 6), Err(Error::DidDocumentAlreadyExists));
    assert_eq!(store, before);
    assert_eq!(store.insert_new(BOB, 6), Ok(()));
    assert_eq!(store.len(), 2);
    assert_eq!(store.config(), limits());
}

#[test]
fn store_with_a_zero_limit_is_not_made() {
    assert!(DocumentStore::new(Config { max_linked_chains: 0, max_public_keys: 2, max_services: 2 })
        .is_none());
}

#[test]
fn store_mutates_only_for_the_controller() {
    let mut store = DocumentStore::new(limits()).unwrap();
    assert_eq!(store.insert_new(ALICE, 1), Ok(()));
    assert_eq!(store.insert_new(BOB, 1), Ok(()));
    assert_eq!(store.mutate(ALICE, ALICE, &link(1, b"one")), Ok(()));
    assert_eq!(store.mutate(ALICE, ALICE, &Call::AddPublicKey { key: b"k".to_vec() }), Ok(()));
    assert_eq!(store.mutate(ALICE, ALICE, &Call::AddService { service: b"s".to_vec() }), Ok(()));

    let before = store.clone();
    for call in every_call() {
        assert_eq!(store.mutate(ALICE, BOB, &call), Err(Error::NotController));
        assert_eq!(store, before);
    }
    assert_eq!(store.get(BOB), Some(DidDocument::new(BOB, 1, limits())));
}

#[test]
fn store_mutation_of_a_missing_document_is_not_found() {
    let mut store = DocumentStore::new(limits()).unwrap();
    assert_eq!(store.insert_new(BOB, 1), Ok(()));
    let before = store.clone();
    for call in every_call() {
        assert_eq!(store.mutate(ALICE, ALICE, &call), Err(Error::DidDocumentNotFound));
        assert_eq!(store.mutate(ALICE, BOB, &call), Err(Error::DidDocumentNotFound));
        assert_eq!(store, before);
    }
}

#[test]
fn refused_mutation_leaves_the_store_unchanged() {
    let mut store = DocumentStore::new(limits()).unwrap();
    assert_eq!(store.insert_new(ALICE, 1), Ok(()));
    assert_eq!(store.mutate(ALICE, ALICE, &Call::AddPublicKey { key: b"a".to_vec() }), Ok(()));
    assert_eq!(store.mutate(ALICE, ALICE, &Call::AddPublicKey { key: b"b".to_vec() }), Ok(()));
    let before = store.clone();
    assert_eq!(
        store.mutate(ALICE, ALICE, &Call::AddPublicKey { key: b"c".to_vec() }),
        Err(Error::TooManyPublicKeys)
    );
    assert_eq!(store, before);
    assert_eq!(
        store.get(ALICE).unwrap().public_keys().to_vec(),
        vec![b"a".to_vec(), b"b".to_vec()]
    );
}

#[test]
fn record_lists_chains_by_identifier() {
    let mut doc = DidDocument::new(ALICE, 12, limits());
    assert_eq!(doc.apply(ALICE, &link(30, b"thirty")), Ok(()));
    assert_eq!(doc.apply(ALICE, &link(10, b"ten")), Ok(()));
    assert_eq!(doc.apply(ALICE, &link(20, b"twenty")), Ok(()));
    assert_eq!(doc.apply(ALICE, &Call::AddPublicKey { key: b"k2".to_vec() }), Ok(()));
    assert_eq!(doc.apply(ALICE, &Call::AddPublicKey { key: b"k1".to_vec() }), Ok(()));
    assert_eq!(doc.apply(ALICE, &Call::AddService { service: b"svc".to_vec() }), Ok(()));

    let record = to_record(&doc);
    assert_eq!(
        record,
        DocumentRecord {
            controller: ALICE,
            linked_chains: vec![
                (10, b"ten".to_vec()),
                (20, b"twenty".to_vec()),
                (30, b"thirty".to_vec()),
            ],
            public_keys: vec![b"k2".to_vec(), b"k1".to_vec()],
            services: vec![b"svc".to_vec()],
            created_at: 12,
        }
    );
}

#[test]
fn record_round_trips() {
    let mut doc = DidDocument::new(BOB, 3, limits());
    assert_eq!(doc.apply(BOB, &link(7, b"seven")), Ok(()));
    assert_eq!(doc.apply(BOB, &link(2, b"two")), Ok(()));
    assert_eq!(doc.apply(BOB, &Call::AddService { service: b"svc".to_vec() }), Ok(()));

    let record = to_record(&doc);
    let back = from_record(record.clone(), limits()).unwrap();
    assert_eq!(back, doc);
    assert_eq!(to_record(&back), record);

    let empty = DidDocument::new(ALICE, 0, limits());
    assert_eq!(from_record(to_record(&empty), limits()), Some(empty));
}

#[test]
fn record_that_does_not_fit_is_refused() {
    let fitting = DocumentRecord {
        controller: ALICE,
        linked_chains: vec![(1, b"a".to_vec()), (2, b"b".to_vec())],
        public_keys: vec![b"k".to_vec()],
        services: Vec::new(),
        created_at: 1,
    };
    assert!(from_record(fitting.clone(), limits()).is_some());

    let mut unordered = fitting.clone();
    unordered.linked_chains = vec![(2, b"b".to_vec()), (1, b"a".to_vec())];
    assert_eq!(from_record(unordered, limits()), None);

    let mut repeated = fitting.clone();
    repeated.linked_chains = vec![(1, b"a".to_vec()), (1, b"b".to_vec())];
    assert_eq!(from_record(repeated, limits()), None);

    let mut chains = fitting.clone();
    chains.linked_chains = vec![(1, vec![]), (2, vec![]), (3, vec![]), (4, vec![])];
    assert_eq!(from_record(chains, limits()), None);

    let mut keys = fitting.clone();
    keys.public_keys = vec![vec![1], vec![2], vec![3]];
    assert_eq!(from_record(keys, limits()), None);

    let mut services = fitting.clone();
    services.services = vec![vec![1], vec![2], vec![3]];
    assert_eq!(from_record(services, limits()), None);
}

#[test]
fn document_from_parts_keeps_the_parts() {
    let chains = BoundedMap::from_vec(vec![(1, b"a".to_vec())], 4).unwrap();
    let keys = BoundedList::from_vec(vec![b"k".to_vec()], 1).unwrap();
    let services = BoundedList::new(6);
    let mut doc = DidDocument::from_parts(BOB, chains.clone(), keys.clone(), services.clone(), 8);
    assert_eq!(doc.controller(), BOB);
    assert_eq!(doc.created_at(), 8);
    assert_eq!(doc.linked_chains(), &chains);
    assert_eq!(doc.public_keys(), &keys);
    assert_eq!(doc.services(), &services);
    assert_eq!(
        doc.apply(BOB, &Call::AddPublicKey { key: b"k2".to_vec() }),
        Err(Error::TooManyPublicKeys)
    );
}

#[test]
fn store_restores_a_persisted_document() {
    let mut first = DocumentStore::new(limits()).unwrap();
    assert_eq!(first.insert_new(ALICE, 4), Ok(()));
    assert_eq!(first.mutate(ALICE, ALICE, &link(9, b"nine")), Ok(()));
    assert_eq!(first.mutate(ALICE, ALICE, &link(5, b"five")), Ok(()));
    assert_eq!(first.mutate(ALICE, ALICE, &Call::AddPublicKey { key: b"k".to_vec() }), Ok(()));
    let record = to_record(&first.get(ALICE).unwrap());

    let mut second = DocumentStore::new(limits()).unwrap();
    assert!(second.restore(record.clone()));
    assert_eq!(second, first);

    let before = second.clone();
    assert!(!second.restore(record));
    assert_eq!(second, before);
}

#[test]
fn store_refuses_a_record_that_does_not_fit() {
    let mut store = DocumentStore::new(limits()).unwrap();
    let unordered = DocumentRecord {
        controller: BOB,
        linked_chains: vec![(2, b"b".to_vec()), (1, b"a".to_vec())],
        public_keys: Vec::new(),
        services: Vec::new(),
        created_at: 0,
    };
    assert!(!store.restore(unordered));
    let crowded = DocumentRecord {
        controller: BOB,
        linked_chains: Vec::new(),
        public_keys: vec![vec![1], vec![2], vec![3]],
        services: Vec::new(),
        created_at: 0,
    };
    assert!(!store.restore(crowded));
    assert_eq!(store.len(), 0);
    assert!(!store.contains(BOB));
}
