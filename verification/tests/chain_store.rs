use chain_core::chain_header::ChainHeader;
use chain_core::chain_store::{
    advance, ask, step_with, ChainStore, ChainStoreIterator, ChainStoreTypeIterator, Cursor,
};
use chain_core::entry::{Entry, EntryType};
use chain_core::storage::{ContentAddressableStorage, MemoryStorage, StorageFault};

fn test_entry_type() -> EntryType {
    EntryType::App(String::from("testEntryType"))
}

fn test_entry_type_a() -> EntryType {
    EntryType::App(String::from("testEntryType"))
}

fn test_entry_type_b() -> EntryType {
    EntryType::App(String::from("testEntryTypeB"))
}

fn test_entry() -> Entry {
    Entry::new(&test_entry_type(), &String::from("test entry value"))
}

fn test_chain_header() -> ChainHeader {
    ChainHeader::new(
        &test_entry_type(),
        &String::from("2018-10-11T03:23:38+00:00"),
        None,
        &test_entry().address(),
        &String::new(),
        None,
    )
}

fn test_chain_store() -> ChainStore<MemoryStorage> {
    ChainStore::new(MemoryStorage::new())
}

fn chain_store_of(headers: Vec<&ChainHeader>) -> ChainStore<MemoryStorage> {
    let mut chain_store = test_chain_store();
    for chain_header in headers {
        chain_store.add(chain_header).expect("could not add header to cas");
    }
    chain_store
}

fn drain_iter<CAS: ContentAddressableStorage>(
    mut it: ChainStoreIterator<CAS>,
) -> Vec<Result<ChainHeader, StorageFault>> {
    let mut found = vec![];
    while let Some(item) = it.next() {
        found.push(item);
    }
    found
}

fn drain_type_iter<CAS: ContentAddressableStorage>(
    mut it: ChainStoreTypeIterator<CAS>,
) -> Vec<Result<ChainHeader, StorageFault>> {
    let mut found = vec![];
    while let Some(item) = it.next() {
        found.push(item);
    }
    found
}

fn offline_chain_store(headers: Vec<&ChainHeader>) -> ChainStore<MemoryStorage> {
    let mut storage = MemoryStorage::new();
    for chain_header in headers {
        storage.add(chain_header).expect("could not add header to cas");
    }
    storage.set_online(false);
    ChainStore::new(storage)
}

fn fault() -> StorageFault {
    StorageFault { reason: String::from("storage is offline") }
}

/// A chain a <- b <- c in which b has another type than a and c.
fn mixed_chain() -> (ChainHeader, ChainHeader, ChainHeader) {
    let chain_header_a = test_chain_header();
    let chain_header_b = ChainHeader::new(
        &test_entry_type_b(),
        &String::new(),
        Some(chain_header_a.address()),
        &test_entry().address(),
        &String::new(),
        None,
    );
    let chain_header_c = ChainHeader::new(
        &test_entry_type_a(),
        &String::new(),
        Some(chain_header_b.address()),
        &test_entry().address(),
        &String::new(),
        Some(chain_header_a.address()),
    );
    (chain_header_a, chain_header_b, chain_header_c)
}

#[test]
fn iterator_test() {
    let chain_header_a = test_chain_header();
    let chain_header_b = ChainHeader::new(
        &test_entry_type(),
        &String::new(),
        Some(chain_header_a.address()),
        &test_entry().address(),
        &String::new(),
        None,
    );

    let mut chain_store = test_chain_store();
    chain_store
        .add(&chain_header_a)
        .expect("could not add header to cas");
    chain_store
        .add(&chain_header_b)
        .expect("could not add header to cas");

    let expected = vec![chain_header_b.clone(), chain_header_a.clone()];
    let mut found = vec![];
    let mut it = chain_store.iter(&Some(chain_header_b));
    while let Some(chain_header) = it.next() {
        found.push(chain_header.expect("failed to fetch from CAS"));
    }
    assert_eq!(expected, found);

    let expected = vec![chain_header_a.clone()];
    let mut found = vec![];
    let mut it = chain_store.iter(&Some(chain_header_a));
    while let Some(chain_header) = it.next() {
        found.push(chain_header.expect("failed to fetch from CAS"));
    }
    assert_eq!(expected, found);
}

#[test]
fn type_iterator_test() {
    let (chain_header_a, chain_header_b, chain_header_c) = mixed_chain();
    let mut chain_store = test_chain_store();
    for chain_header in vec![&chain_header_a, &chain_header_b, &chain_header_c] {
        chain_store
            .add(chain_header)
            .expect("could not add header to cas");
    }

    let expected = vec![chain_header_c.clone(), chain_header_a.clone()];
    let mut found = vec![];
    let mut it =
        chain_store.iter_type(&Some(chain_header_c.clone()), &chain_header_c.entry_type());
    while let Some(chain_header) = it.next() {
        found.push(chain_header.expect("failed to fetch from CAS"));
    }
    assert_eq!(expected, found);

    let expected = vec![chain_header_a.clone()];
    let mut found = vec![];
    let mut it =
        chain_store.iter_type(&Some(chain_header_b.clone()), &chain_header_c.entry_type());
    while let Some(chain_header) = it.next() {
        found.push(chain_header.expect("failed to fetch from CAS"));
    }
    assert_eq!(expected, found);

    let expected = vec![chain_header_b.clone()];
    let mut found = vec![];
    let mut it =
        chain_store.iter_type(&Some(chain_header_c.clone()), &chain_header_b.entry_type());
    while let Some(chain_header) = it.next() {
        found.push(chain_header.expect("failed to fetch from CAS"));
    }
    assert_eq!(expected, found);

    let expected = vec![chain_header_b.clone()];
    let mut found = vec![];
    let mut it =
        chain_store.iter_type(&Some(chain_header_b.clone()), &chain_header_b.entry_type());
    while let Some(chain_header) = it.next() {
        found.push(chain_header.expect("failed to fetch from CAS"));
    }
    assert_eq!(expected, found);
}

#[test]
fn iter_without_start_is_empty() {
    let chain_store = chain_store_of(vec![&test_chain_header()]);
    let mut it = chain_store.iter(&None);
    assert_eq!(it.next(), None);
    assert_eq!(it.next(), None);
    assert_eq!(chain_store.iter(&None).collect(), Ok(vec![]));
    assert_eq!(chain_store.iter_type(&None, &test_entry_type()).collect(), Ok(vec![]));
}

#[test]
fn iter_walks_a_deep_chain_to_its_root() {
    let mut chain: Vec<ChainHeader> = vec![test_chain_header()];
    for i in 1..6 {
        let previous = chain[i - 1].address();
        chain.push(ChainHeader::new(
            &test_entry_type(),
            &format!("step {}", i),
            Some(previous),
            &test_entry().address(),
            &String::new(),
            Some(previous),
        ));
    }
    let chain_store = chain_store_of(chain.iter().collect());
    for k in 0..chain.len() {
        let mut expected: Vec<ChainHeader> = chain[..=k].to_vec();
        expected.reverse();
        let found = chain_store.iter(&Some(chain[k].clone())).collect();
        assert_eq!(found, Ok(expected.clone()));
        assert_eq!(expected.len(), k + 1);
        let found = chain_store.iter_type(&Some(chain[k].clone()), &test_entry_type()).collect();
        assert_eq!(found, Ok(expected));
    }
}

#[test]
fn iter_ends_silently_where_a_link_is_not_stored() {
    let (chain_header_a, chain_header_b, chain_header_c) = mixed_chain();
    let chain_store = chain_store_of(vec![&chain_header_b, &chain_header_c]);
    let found = drain_iter(chain_store.iter(&Some(chain_header_c.clone())));
    assert_eq!(found, vec![Ok(chain_header_c.clone()), Ok(chain_header_b.clone())]);
    let found = chain_store.iter_type(&Some(chain_header_c.clone()), &test_entry_type_a()).collect();
    assert_eq!(found, Ok(vec![chain_header_c]));
    let found = chain_store.iter(&Some(chain_header_a.clone())).collect();
    assert_eq!(found, Ok(vec![chain_header_a]));
}

#[test]
fn iter_starts_at_a_header_that_is_not_stored() {
    let (chain_header_a, chain_header_b, _) = mixed_chain();
    let chain_store = chain_store_of(vec![&chain_header_a]);
    let found = chain_store.iter(&Some(chain_header_b.clone())).collect();
    assert_eq!(found, Ok(vec![chain_header_b, chain_header_a]));
}

#[test]
fn iter_type_without_a_match_is_empty() {
    let (chain_header_a, chain_header_b, chain_header_c) = mixed_chain();
    let chain_store = chain_store_of(vec![&chain_header_a, &chain_header_b, &chain_header_c]);
    let found = drain_type_iter(chain_store.iter_type(&Some(chain_header_c.clone()), &EntryType::Dna));
    assert_eq!(found, vec![]);
    let other = EntryType::App(String::from("testEntryTypeC"));
    let found = chain_store.iter_type(&Some(chain_header_a), &other).collect();
    assert_eq!(found, Ok(vec![]));
}

#[test]
fn iter_hands_out_a_storage_fault_as_its_last_item() {
    let (chain_header_a, chain_header_b, chain_header_c) = mixed_chain();
    let chain_store = offline_chain_store(vec![&chain_header_a, &chain_header_b, &chain_header_c]);

    let mut it = chain_store.iter(&Some(chain_header_c.clone()));
    assert_eq!(it.next(), Some(Ok(chain_header_c.clone())));
    assert_eq!(it.next(), Some(Err(fault())));
    assert_eq!(it.next(), None);
    assert_eq!(it.next(), None);

    assert_eq!(chain_store.iter(&Some(chain_header_c.clone())).collect(), Err(fault()));
    assert_eq!(chain_store.iter(&Some(chain_header_b.clone())).collect(), Err(fault()));
    // a root has no link, so the storage is not asked
    assert_eq!(
        chain_store.iter(&Some(chain_header_a.clone())).collect(),
        Ok(vec![chain_header_a.clone()])
    );
    assert_eq!(chain_store.iter(&None).collect(), Ok(vec![]));
}

#[test]
fn iter_type_hands_out_a_storage_fault() {
    let (chain_header_a, chain_header_b, chain_header_c) = mixed_chain();
    let chain_store = offline_chain_store(vec![&chain_header_a, &chain_header_b, &chain_header_c]);

    // the fault is met while walking the same-type links
    let found =
        drain_type_iter(chain_store.iter_type(&Some(chain_header_c.clone()), &test_entry_type_a()));
    assert_eq!(found, vec![Ok(chain_header_c.clone()), Err(fault())]);

    // the fault is met while searching for the first header of the type
    let found =
        drain_type_iter(chain_store.iter_type(&Some(chain_header_b.clone()), &test_entry_type_a()));
    assert_eq!(found, vec![Err(fault())]);
    let found = chain_store.iter_type(&Some(chain_header_b.clone()), &test_entry_type_a()).collect();
    assert_eq!(found, Err(fault()));

    // no fault where neither the search nor the walk asks the storage
    let found = chain_store.iter_type(&Some(chain_header_b.clone()), &test_entry_type_b()).collect();
    assert_eq!(found, Ok(vec![chain_header_b]));
}

#[test]
fn storage_faults_while_offline_and_keeps_what_it_holds() {
    let (chain_header_a, chain_header_b, _) = mixed_chain();
    let mut storage = MemoryStorage::new();
    assert_eq!(storage.add(&chain_header_a), Ok(()));
    storage.set_online(false);
    assert_eq!(storage.fetch(&chain_header_a.address()), Err(fault()));
    assert_eq!(storage.fetch(&chain_header_b.address()), Err(fault()));
    assert_eq!(storage.add(&chain_header_b), Err(fault()));
    storage.set_online(true);
    assert_eq!(storage.fetch(&chain_header_a.address()), Ok(Some(chain_header_a)));
    assert_eq!(storage.fetch(&chain_header_b.address()), Ok(None));
}

#[test]
fn iterators_made_directly_walk_from_the_given_header() {
    let (chain_header_a, chain_header_b, chain_header_c) = mixed_chain();
    let chain_store = chain_store_of(vec![&chain_header_a, &chain_header_b, &chain_header_c]);
    let storage = chain_store.content_storage();
    let found = ChainStoreIterator::new(storage, Some(chain_header_b.clone())).collect();
    assert_eq!(found, Ok(vec![chain_header_b.clone(), chain_header_a.clone()]));
    let found = ChainStoreTypeIterator::new(storage, Some(chain_header_c.clone())).collect();
    assert_eq!(found, Ok(vec![chain_header_c, chain_header_a]));
    let found = ChainStoreTypeIterator::new(storage, Some(chain_header_b.clone())).collect();
    assert_eq!(found, Ok(vec![chain_header_b]));
    let found = drain_type_iter(ChainStoreTypeIterator::faulted(storage, fault()));
    assert_eq!(found, vec![Err(fault())]);
    assert_eq!(ChainStoreIterator::new(storage, None).next(), None);
}

#[test]
fn storage_fetches_what_was_added() {
    let (chain_header_a, chain_header_b, _) = mixed_chain();
    let mut storage = MemoryStorage::new();
    assert_eq!(storage.fetch(&chain_header_a.address()), Ok(None));
    assert_eq!(storage.add(&chain_header_a), Ok(()));
    assert_eq!(storage.fetch(&chain_header_a.address()), Ok(Some(chain_header_a.clone())));
    assert_eq!(storage.fetch(&chain_header_b.address()), Ok(None));
    assert_eq!(storage.add(&chain_header_a), Ok(()));
    assert_eq!(storage.add(&chain_header_b), Ok(()));
    assert_eq!(storage.fetch(&chain_header_a.address()), Ok(Some(chain_header_a)));
    assert_eq!(storage.fetch(&chain_header_b.address()), Ok(Some(chain_header_b)));
}

#[test]
fn advance_turns_each_answer_of_the_storage_into_a_cursor() {
    let chain_header_a = test_chain_header();
    assert_eq!(advance(Ok(Some(chain_header_a.clone()))), Cursor::At(chain_header_a));
    assert_eq!(advance(Ok(None)), Cursor::Done);
    assert_eq!(advance(Err(fault())), Cursor::Faulted(fault()));
}

#[test]
fn ask_asks_the_storage_only_for_a_link() {
    let (chain_header_a, chain_header_b, chain_header_c) = mixed_chain();
    let mut storage = MemoryStorage::new();
    storage.add(&chain_header_a).expect("could not add header to cas");
    let at_a = Cursor::At(chain_header_a.clone());
    let at_b = Cursor::At(chain_header_b.clone());
    let at_c = Cursor::At(chain_header_c.clone());
    assert_eq!(ask(&storage, &at_a, false), Ok(None));
    assert_eq!(ask(&storage, &at_b, false), Ok(Some(chain_header_a.clone())));
    assert_eq!(ask(&storage, &at_b, true), Ok(None));
    assert_eq!(ask(&storage, &at_c, false), Ok(None));
    assert_eq!(ask(&storage, &at_c, true), Ok(Some(chain_header_a.clone())));
    assert_eq!(ask(&storage, &Cursor::Done, false), Ok(None));
    assert_eq!(ask(&storage, &Cursor::Faulted(fault()), true), Ok(None));
    storage.set_online(false);
    assert_eq!(ask(&storage, &at_a, false), Ok(None));
    assert_eq!(ask(&storage, &at_b, true), Ok(None));
    assert_eq!(ask(&storage, &at_b, false), Err(fault()));
    assert_eq!(ask(&storage, &at_c, true), Err(fault()));
    assert_eq!(ask(&storage, &Cursor::Done, false), Ok(None));
}

#[test]
fn step_with_keeps_a_fault_for_the_next_step() {
    let (chain_header_a, chain_header_b, _) = mixed_chain();

    // the storage faults: the header is handed out, then the fault, then nothing
    let mut cursor = Cursor::At(chain_header_b.clone());
    assert_eq!(step_with(&mut cursor, Err(fault())), Some(Ok(chain_header_b.clone())));
    assert_eq!(cursor, Cursor::Faulted(fault()));
    assert_eq!(step_with(&mut cursor, Ok(Some(chain_header_a.clone()))), Some(Err(fault())));
    assert_eq!(cursor, Cursor::Done);
    assert_eq!(step_with(&mut cursor, Ok(Some(chain_header_a.clone()))), None);
    assert_eq!(cursor, Cursor::Done);

    // nothing is stored under the link: the header is handed out, then nothing
    let mut cursor = Cursor::At(chain_header_b.clone());
    assert_eq!(step_with(&mut cursor, Ok(None)), Some(Ok(chain_header_b.clone())));
    assert_eq!(cursor, Cursor::Done);
    assert_eq!(step_with(&mut cursor, Err(fault())), None);

    // the linked header is found: the walk goes on
    let mut cursor = Cursor::At(chain_header_b.clone());
    assert_eq!(
        step_with(&mut cursor, Ok(Some(chain_header_a.clone()))),
        Some(Ok(chain_header_b))
    );
    assert_eq!(cursor, Cursor::At(chain_header_a));
}

#[test]
fn a_header_added_to_the_store_is_fetched_and_walked() {
    let (chain_header_a, chain_header_b, chain_header_c) = mixed_chain();
    let mut chain_store = test_chain_store();
    assert_eq!(chain_store.content_storage().fetch(&chain_header_a.address()), Ok(None));
    assert_eq!(
        chain_store.iter(&Some(chain_header_b.clone())).collect(),
        Ok(vec![chain_header_b.clone()])
    );

    assert_eq!(chain_store.add(&chain_header_a), Ok(()));
    assert_eq!(
        chain_store.content_storage().fetch(&chain_header_a.address()),
        Ok(Some(chain_header_a.clone()))
    );
    assert_eq!(
        chain_store.iter(&Some(chain_header_b.clone())).collect(),
        Ok(vec![chain_header_b.clone(), chain_header_a.clone()])
    );
    assert_eq!(
        chain_store.iter_type(&Some(chain_header_c.clone()), &test_entry_type_a()).collect(),
        Ok(vec![chain_header_c.clone(), chain_header_a.clone()])
    );

    // adding the same header again changes nothing
    assert_eq!(chain_store.add(&chain_header_a), Ok(()));
    assert_eq!(
        chain_store.iter(&Some(chain_header_a.clone())).collect(),
        Ok(vec![chain_header_a.clone()])
    );
}

#[test]
fn an_offline_store_refuses_a_header() {
    let (chain_header_a, chain_header_b, _) = mixed_chain();
    let mut storage = MemoryStorage::new();
    storage.set_online(false);
    let mut chain_store = ChainStore::new(storage);
    assert_eq!(chain_store.add(&chain_header_a), Err(fault()));
    // neither a search nor a walk that asks nothing can fault
    assert_eq!(
        chain_store.iter_type(&Some(chain_header_b.clone()), &test_entry_type_b()).collect(),
        Ok(vec![chain_header_b.clone()])
    );
    assert_eq!(
        chain_store.iter_type(&Some(chain_header_a.clone()), &test_entry_type_b()).collect(),
        Ok(vec![])
    );
    assert_eq!(chain_store.iter_type(&None, &test_entry_type_b()).collect(), Ok(vec![]));
}
