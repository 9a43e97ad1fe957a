use sled::transaction::{ConflictableTransactionError, TransactionError, UnabortableTransactionError};
use sled_store::batch::refused;
use sled_store::StoreError;

fn storage_failure(why: &str) -> sled::Error {
    sled::Error::Unsupported(why.to_string())
}

#[test]
fn an_aborted_transaction_gives_the_error_it_was_aborted_with() {
    assert!(matches!(
        StoreError::from(TransactionError::Abort(StoreError::IdentifierRequired)),
        StoreError::IdentifierRequired
    ));
    assert!(matches!(StoreError::from(TransactionError::Abort(StoreError::NoneError)), StoreError::NoneError));
    assert!(matches!(
        StoreError::from(TransactionError::Abort(StoreError::DatabaseError)),
        StoreError::DatabaseError
    ));
    let inner = StoreError::Sled(storage_failure("inner"));
    match StoreError::from(TransactionError::Abort(inner)) {
        StoreError::Sled(e) => assert_eq!(e, storage_failure("inner")),
        other => panic!("unexpected {:?}", other),
    }
    let codec: bincode::Error = Box::new(bincode::ErrorKind::SizeLimit);
    assert!(matches!(
        StoreError::from(TransactionError::Abort(StoreError::Bincode(codec))),
        StoreError::Bincode(_)
    ));
}

#[test]
fn a_storage_error_of_a_transaction_is_a_storage_error() {
    match StoreError::from(TransactionError::Storage(storage_failure("disk"))) {
        StoreError::Sled(e) => assert_eq!(e, storage_failure("disk")),
        other => panic!("unexpected {:?}", other),
    }
    match StoreError::of_transaction(TransactionError::Storage(storage_failure("disk"))) {
        StoreError::Sled(e) => assert_eq!(e, storage_failure("disk")),
        other => panic!("unexpected {:?}", other),
    }
    assert!(matches!(
        StoreError::of_transaction(TransactionError::Abort(StoreError::NoneError)),
        StoreError::NoneError
    ));
}

#[test]
fn an_error_of_the_engine_is_a_storage_error() {
    match StoreError::from(storage_failure("engine")) {
        StoreError::Sled(e) => assert_eq!(e, storage_failure("engine")),
        other => panic!("unexpected {:?}", other),
    }
}

#[test]
fn an_error_of_the_codec_is_a_serialization_error() {
    let codec: bincode::Error = Box::new(bincode::ErrorKind::Custom("shape".to_string()));
    match StoreError::from(codec) {
        StoreError::Bincode(e) => assert!(matches!(*e, bincode::ErrorKind::Custom(ref why) if why == "shape")),
        other => panic!("unexpected {:?}", other),
    }
}

#[test]
fn a_refused_step_keeps_its_kind() {
    assert!(matches!(refused(UnabortableTransactionError::Conflict), ConflictableTransactionError::Conflict));
    match refused(UnabortableTransactionError::Storage(storage_failure("step"))) {
        ConflictableTransactionError::Storage(e) => assert_eq!(e, storage_failure("step")),
        other => panic!("unexpected {:?}", other),
    }
}

#[test]
fn errors_can_be_shown_for_debugging() {
    assert_eq!(format!("{:?}", StoreError::NoneError), "NoneError");
    assert_eq!(format!("{:?}", StoreError::IdentifierRequired), "IdentifierRequired");
    assert_eq!(format!("{:?}", StoreError::DatabaseError), "DatabaseError");
}
