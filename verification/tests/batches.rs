use sled::transaction::{ConflictableTransactionError, TransactionError};
use sled_store::batch::{stage_add_all, stage_remove_all, stage_update_all};
use sled_store::read::{read_each, read_page};
use sled_store::{Document, Id, SledStore, Store, StoreError};

#[derive(Debug, Clone, PartialEq)]
struct Entry {
    key: Option<String>,
    size: u32,
}

impl Entry {
    fn keyed(key: &str, size: u32) -> Entry {
        Entry { key: Some(key.to_string()), size }
    }
}

impl serde::Serialize for Entry {
    fn serialize<S: serde::Serializer>(&self, serializer: S) -> Result<S::Ok, S::Error> {
        if self.size == u32::MAX {
            return Err(serde::ser::Error::custom(format!("too large: {:?}", self.key)));
        }
        serde::Serialize::serialize(&(&self.key, self.size), serializer)
    }
}

impl<'de> serde::Deserialize<'de> for Entry {
    fn deserialize<D: serde::Deserializer<'de>>(deserializer: D) -> Result<Self, D::Error> {
        let (key, size): (Option<String>, u32) = serde::Deserialize::deserialize(deserializer)?;
        Ok(Entry { key, size })
    }
}

impl Document for Entry {
    const COLLECTION_NAME: &'static str = "entries";

    fn id(&self) -> Option<Id> {
        self.key.clone().map(Id::from)
    }
}

struct Plain;

impl Document for Plain {
    const COLLECTION_NAME: &'static str = "plain things";
}

fn temporary_tree() -> sled::Tree {
    sled::Config::new().temporary(true).open().unwrap().open_tree("entries").unwrap()
}

fn bytes_of(entry: &Entry) -> Vec<u8> {
    bincode::serialize(&(&entry.key, entry.size)).unwrap()
}

#[test]
fn a_document_names_its_collection() {
    assert_eq!(Plain.name(), "plain things");
    assert_eq!(Entry::keyed("a", 1).name(), "entries");
    assert_eq!(<Plain as Document>::COLLECTION_NAME, "plain things");
}

#[test]
fn a_document_brings_no_identifier_unless_it_says_so() {
    assert_eq!(Plain.id(), None);
    assert_eq!(Entry::keyed("a", 1).id(), Some(Id::from("a")));
    assert_eq!(Entry { key: None, size: 1 }.id(), None);
}

#[test]
fn stage_add_all_writes_each_encoding_under_the_bytes_of_its_identifier() {
    let tree = temporary_tree();
    let a = Entry::keyed("a", 1);
    let b = Entry::keyed("é", 2);
    let data = vec![&a, &b];
    let ids: Vec<Id> = tree
        .transaction(|view| stage_add_all(&mut view.clone(), &data))
        .map_err(|e: TransactionError<StoreError>| StoreError::from(e))
        .unwrap();
    assert_eq!(ids, vec![Id::from("a"), Id::from("é")]);
    assert_eq!(tree.len(), 2);
    assert_eq!(tree.get("a".as_bytes()).unwrap().unwrap().to_vec(), bytes_of(&a));
    assert_eq!(tree.get([0xc3, 0xa9]).unwrap().unwrap().to_vec(), bytes_of(&b));
}

#[test]
fn stage_add_all_uses_the_counter_of_the_engine() {
    let db = sled::Config::new().temporary(true).open().unwrap();
    let tree = db.open_tree("entries").unwrap();
    let before = db.generate_id().unwrap();
    let a = Entry { key: None, size: 1 };
    let data = vec![&a, &a];
    let ids: Vec<Id> = tree
        .transaction(|view| stage_add_all(&mut view.clone(), &data))
        .map_err(|e: TransactionError<StoreError>| StoreError::from(e))
        .unwrap();
    let after = db.generate_id().unwrap();
    let first: u64 = ids[0].parse().unwrap();
    let second: u64 = ids[1].parse().unwrap();
    assert!(before < first && first < second && second < after);
    assert_eq!(tree.get(format!("{}", first)).unwrap().unwrap().to_vec(), bytes_of(&a));
    assert_eq!(tree.get(format!("{}", second)).unwrap().unwrap().to_vec(), bytes_of(&a));
}

#[test]
fn stage_add_all_aborts_on_an_item_that_cannot_be_encoded() {
    let tree = temporary_tree();
    let a = Entry::keyed("a", 1);
    let b = Entry::keyed("b", u32::MAX);
    let data = vec![&a, &b];
    let r: Result<Vec<Id>, TransactionError<StoreError>> =
        tree.transaction(|view| stage_add_all(&mut view.clone(), &data));
    assert!(matches!(r, Err(TransactionError::Abort(StoreError::Bincode(_)))));
    assert!(tree.is_empty());
}

#[test]
fn stage_update_all_aborts_before_it_writes() {
    let tree = temporary_tree();
    let a = Entry::keyed("a", 1);
    let b = Entry { key: None, size: 2 };
    let data = vec![&a, &b];
    let r: Result<(), TransactionError<StoreError>> =
        tree.transaction(|view| stage_update_all(&mut view.clone(), &data));
    assert!(matches!(r, Err(TransactionError::Abort(StoreError::IdentifierRequired))));
    assert!(tree.is_empty());
    let seen: Result<(), TransactionError<StoreError>> = tree.transaction(|view| {
        let mut view = view.clone();
        match stage_update_all(&mut view, &data) {
            Err(ConflictableTransactionError::Abort(StoreError::IdentifierRequired)) => {},
            other => panic!("unexpected {:?}", other),
        }
        assert_eq!(view.get("a")?, None);
        Ok(())
    });
    seen.unwrap();
}

#[test]
fn stage_update_all_writes_over_and_anew() {
    let tree = temporary_tree();
    tree.insert("a", vec![0u8]).unwrap();
    let a = Entry::keyed("a", 1);
    let b = Entry::keyed("b", 2);
    let data = vec![&a, &b];
    let r: Result<(), TransactionError<StoreError>> =
        tree.transaction(|view| stage_update_all(&mut view.clone(), &data));
    r.unwrap();
    assert_eq!(tree.get("a").unwrap().unwrap().to_vec(), bytes_of(&a));
    assert_eq!(tree.get("b").unwrap().unwrap().to_vec(), bytes_of(&b));
}

#[test]
fn stage_remove_all_removes_what_is_there_and_passes_over_the_rest() {
    let tree = temporary_tree();
    tree.insert("a", vec![1u8]).unwrap();
    tree.insert("b", vec![2u8]).unwrap();
    let ids = vec![Id::from("a"), Id::from("absent")];
    let r: Result<(), TransactionError<StoreError>> =
        tree.transaction(|view| stage_remove_all(&mut view.clone(), &ids));
    r.unwrap();
    assert_eq!(tree.get("a").unwrap(), None);
    assert_eq!(tree.get("b").unwrap().unwrap().to_vec(), vec![2u8]);
    assert_eq!(tree.len(), 1);
}

#[test]
fn bodies_compose_in_one_transaction() {
    let tree = temporary_tree();
    tree.insert("old", vec![1u8]).unwrap();
    let a = Entry::keyed("new", 1);
    let data = vec![&a];
    let gone = vec![Id::from("old")];
    let r: Result<Vec<Id>, TransactionError<StoreError>> = tree.transaction(|view| {
        let mut view = view.clone();
        stage_remove_all(&mut view, &gone)?;
        stage_add_all(&mut view, &data)
    });
    assert_eq!(r.unwrap(), vec![Id::from("new")]);
    assert_eq!(tree.get("old").unwrap(), None);
    assert_eq!(tree.get("new").unwrap().unwrap().to_vec(), bytes_of(&a));
}

#[test]
fn read_each_decodes_what_the_tree_holds() {
    let tree = temporary_tree();
    let a = Entry::keyed("a", 1);
    let b = Entry::keyed("b", 2);
    tree.insert("a", bytes_of(&a)).unwrap();
    tree.insert("b", bytes_of(&b)).unwrap();
    tree.insert("c", vec![9u8]).unwrap();
    let back: Vec<Entry> = read_each(&tree, &vec![Id::from("b"), Id::from("a")]).unwrap();
    assert_eq!(back, vec![b, a]);
    let r: Result<Vec<Entry>, StoreError> = read_each(&tree, &vec![Id::from("a"), Id::from("z")]);
    assert!(matches!(r, Err(StoreError::NoneError)));
    let r: Result<Vec<Entry>, StoreError> = read_each(&tree, &vec![Id::from("c"), Id::from("z")]);
    assert!(matches!(r, Err(StoreError::Bincode(_))));
    let r: Result<Vec<Entry>, StoreError> = read_each(&tree, &vec![Id::from("z"), Id::from("c")]);
    assert!(matches!(r, Err(StoreError::NoneError)));
}

#[test]
fn read_page_walks_the_tree_in_key_order() {
    let tree = temporary_tree();
    let entries: Vec<Entry> = (0..7).map(|n| Entry::keyed(&format!("{}", n), n)).collect();
    for entry in entries.iter().rev() {
        tree.insert(entry.key.clone().unwrap(), bytes_of(entry)).unwrap();
    }
    assert_eq!(read_page::<Entry>(&tree, 0, 7).unwrap(), entries);
    assert_eq!(read_page::<Entry>(&tree, 2, 3).unwrap(), entries[2..5].to_vec());
    assert_eq!(read_page::<Entry>(&tree, 5, 3).unwrap(), entries[5..].to_vec());
    assert_eq!(read_page::<Entry>(&tree, 7, 3).unwrap(), Vec::new());
    assert_eq!(read_page::<Entry>(&tree, 3, 0).unwrap(), Vec::new());
}

#[test]
fn read_page_passes_over_entries_without_decoding_them() {
    let tree = temporary_tree();
    let b = Entry::keyed("b", 2);
    tree.insert("a", vec![9u8]).unwrap();
    tree.insert("b", bytes_of(&b)).unwrap();
    tree.insert("c", vec![9u8]).unwrap();
    assert_eq!(read_page::<Entry>(&tree, 1, 1).unwrap(), vec![b]);
    assert!(matches!(read_page::<Entry>(&tree, 0, 1), Err(StoreError::Bincode(_))));
    assert!(matches!(read_page::<Entry>(&tree, 1, 2), Err(StoreError::Bincode(_))));
}

#[test]
fn the_store_keeps_each_collection_in_the_tree_of_its_name() {
    let db = sled::Config::new().temporary(true).open().unwrap();
    let store = SledStore::with(db.clone());
    let a = Entry::keyed("a", 1);
    store.add(&a).unwrap();
    let tree = db.open_tree("entries").unwrap();
    assert_eq!(tree.len(), 1);
    assert_eq!(tree.get("a").unwrap().unwrap().to_vec(), bytes_of(&a));
    assert!(db.tree_names().contains(&sled::IVec::from("entries")));
}

#[test]
fn new_opens_the_database_at_a_path() {
    let store = SledStore::new(std::path::PathBuf::from("/tmp/sled_store_tests/database")).unwrap();
    let a = Entry::keyed("kept", 5);
    store.update(&a).unwrap();
    let back: Vec<Entry> = store.get(vec![Id::from("kept")]).unwrap();
    assert_eq!(back, vec![a]);
}

#[test]
fn new_fails_where_no_database_can_be() {
    let r = SledStore::new(std::path::PathBuf::from("/dev/null/database"));
    assert!(matches!(r, Err(StoreError::Sled(_))));
}

#[test]
fn bodies_on_nothing_stage_nothing_and_succeed() {
    let tree = temporary_tree();
    tree.insert("kept", vec![1u8]).unwrap();
    let none: Vec<&Entry> = Vec::new();
    let r: Result<Vec<Id>, TransactionError<StoreError>> =
        tree.transaction(|view| stage_add_all(&mut view.clone(), &none));
    assert_eq!(r.unwrap(), Vec::<Id>::new());
    let r: Result<(), TransactionError<StoreError>> =
        tree.transaction(|view| stage_update_all(&mut view.clone(), &none));
    r.unwrap();
    let r: Result<(), TransactionError<StoreError>> =
        tree.transaction(|view| stage_remove_all(&mut view.clone(), &Vec::new()));
    r.unwrap();
    assert_eq!(tree.len(), 1);
    let back: Vec<Entry> = read_each(&tree, &Vec::new()).unwrap();
    assert!(back.is_empty());
}

#[test]
fn a_batch_fails_with_the_error_of_the_first_item_that_cannot_be_encoded() {
    let store = SledStore::with(sled::Config::new().temporary(true).open().unwrap());
    let a = Entry::keyed("a", 1);
    let b = Entry::keyed("b", u32::MAX);
    let c = Entry::keyed("c", u32::MAX);
    match store.add_all(&vec![&a, &b, &c]) {
        Err(StoreError::Bincode(e)) => {
            assert!(matches!(*e, bincode::ErrorKind::Custom(ref why) if why == "too large: Some(\"b\")"))
        },
        other => panic!("unexpected {:?}", other),
    }
    match store.update_all(&vec![&c, &a, &b]) {
        Err(StoreError::Bincode(e)) => {
            assert!(matches!(*e, bincode::ErrorKind::Custom(ref why) if why == "too large: Some(\"c\")"))
        },
        other => panic!("unexpected {:?}", other),
    }
    assert!(store.get_all::<Entry>(0, 10).unwrap().is_empty());
}

#[test]
fn a_lookup_fails_with_the_error_of_the_first_identifier_that_stops_it() {
    let tree = temporary_tree();
    let a = Entry::keyed("a", 1);
    tree.insert("a", bytes_of(&a)).unwrap();
    tree.insert("short", vec![9u8]).unwrap();
    tree.insert("flag", vec![1u8]).unwrap();
    let ids = |names: &[&str]| names.iter().map(|n| Id::from(*n)).collect::<Vec<Id>>();
    let first = read_each::<Entry>(&tree, &ids(&["a", "short", "flag"]));
    let second = read_each::<Entry>(&tree, &ids(&["a", "flag", "short"]));
    let short = bincode::deserialize::<(Option<String>, u32)>(&[9u8]).unwrap_err();
    let flag = bincode::deserialize::<(Option<String>, u32)>(&[1u8]).unwrap_err();
    assert_ne!(format!("{:?}", short), format!("{:?}", flag));
    match first {
        Err(StoreError::Bincode(e)) => assert_eq!(format!("{:?}", e), format!("{:?}", short)),
        other => panic!("unexpected {:?}", other),
    }
    match second {
        Err(StoreError::Bincode(e)) => assert_eq!(format!("{:?}", e), format!("{:?}", flag)),
        other => panic!("unexpected {:?}", other),
    }
}

#[test]
fn a_page_fails_with_the_error_of_its_first_entry_that_cannot_be_decoded() {
    let tree = temporary_tree();
    let a = Entry::keyed("a", 1);
    tree.insert("a", bytes_of(&a)).unwrap();
    tree.insert("b", vec![9u8]).unwrap();
    tree.insert("c", vec![1u8]).unwrap();
    let short = bincode::deserialize::<(Option<String>, u32)>(&[9u8]).unwrap_err();
    match read_page::<Entry>(&tree, 0, 3) {
        Err(StoreError::Bincode(e)) => assert_eq!(format!("{:?}", e), format!("{:?}", short)),
        other => panic!("unexpected {:?}", other),
    }
    assert_eq!(read_page::<Entry>(&tree, 0, 1).unwrap(), vec![a]);
}
