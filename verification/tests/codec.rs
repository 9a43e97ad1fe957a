use sled_store::serialize::{deserialize, serialize};
use sled_store::{ItemOrList, StoreError};

struct Unencodable;

impl serde::Serialize for Unencodable {
    fn serialize<S: serde::Serializer>(&self, _serializer: S) -> Result<S::Ok, S::Error> {
        Err(serde::ser::Error::custom("no encoding"))
    }
}

#[test]
fn decode_of_encode_is_the_value() {
    let value: (u64, String, Option<Vec<i32>>) = (7, "seven".to_string(), Some(vec![-1, 0, 1]));
    let bytes = serialize(&value).unwrap();
    let back: (u64, String, Option<Vec<i32>>) = deserialize(&bytes).unwrap();
    assert_eq!(back, value);
}

#[test]
fn decode_of_encode_is_the_value_for_plain_values() {
    for n in [0u64, 1, 255, 256, u64::MAX] {
        let back: u64 = deserialize(&serialize(&n).unwrap()).unwrap();
        assert_eq!(back, n);
    }
    for text in ["", "a", "größe", "two\nlines"] {
        let back: String = deserialize(&serialize(text).unwrap()).unwrap();
        assert_eq!(back, text);
    }
    let back: Vec<bool> = deserialize(&serialize(&vec![true, false]).unwrap()).unwrap();
    assert_eq!(back, vec![true, false]);
    let none: Option<u8> = None;
    let back: Option<u8> = deserialize(&serialize(&none).unwrap()).unwrap();
    assert_eq!(back, none);
}

#[test]
fn encode_gives_the_bytes_of_the_wire_format() {
    assert_eq!(serialize(&1u32).unwrap(), vec![1, 0, 0, 0]);
    assert_eq!(serialize(&258u64).unwrap(), vec![2, 1, 0, 0, 0, 0, 0, 0]);
    assert_eq!(serialize("ab").unwrap(), vec![2, 0, 0, 0, 0, 0, 0, 0, 97, 98]);
    assert_eq!(serialize(&(true, 3u8)).unwrap(), vec![1, 3]);
}

#[test]
fn encode_agrees_with_the_codec() {
    let value = (vec![1u16, 2, 3], "text".to_string());
    assert_eq!(serialize(&value).unwrap(), bincode::serialize(&value).unwrap());
}

#[test]
fn encode_fails_on_a_value_that_has_no_encoding() {
    assert!(matches!(serialize(&Unencodable), Err(StoreError::Bincode(_))));
    assert!(matches!(serialize(&(1u8, Unencodable)), Err(StoreError::Bincode(_))));
}

#[test]
fn decode_fails_on_bytes_that_are_too_short() {
    let r: Result<u64, StoreError> = deserialize(&[1, 2, 3]);
    assert!(matches!(r, Err(StoreError::Bincode(_))));
    let r: Result<String, StoreError> = deserialize(&[]);
    assert!(matches!(r, Err(StoreError::Bincode(_))));
}

#[test]
fn decode_fails_on_bytes_of_another_shape() {
    let bytes = serialize(&5u8).unwrap();
    let r: Result<String, StoreError> = deserialize(&bytes);
    assert!(matches!(r, Err(StoreError::Bincode(_))));
    let r: Result<bool, StoreError> = deserialize(&[7]);
    assert!(matches!(r, Err(StoreError::Bincode(_))));
    let r: Result<String, StoreError> = deserialize(&[2, 0, 0, 0, 0, 0, 0, 0, 0xff, 0xfe]);
    assert!(matches!(r, Err(StoreError::Bincode(_))));
}

#[test]
fn decode_reads_a_borrowed_value() {
    let bytes = serialize("borrowed").unwrap();
    let back: &str = deserialize(&bytes).unwrap();
    assert_eq!(back, "borrowed");
}

#[test]
fn item_or_list_holds_one_or_many() {
    let one = ItemOrList::Item(3u8);
    let many = ItemOrList::List(vec![1u8, 2]);
    assert_eq!(one, ItemOrList::Item(3));
    assert_ne!(one, many);
    assert_eq!(many.clone(), ItemOrList::List(vec![1, 2]));
    assert_eq!(format!("{:?}", one), "Item(3)");
    assert_eq!(format!("{:?}", many), "List([1, 2])");
}

#[test]
fn encode_carries_the_error_of_the_codec() {
    match serialize(&Unencodable) {
        Err(StoreError::Bincode(e)) => assert!(matches!(*e, bincode::ErrorKind::Custom(ref why) if why == "no encoding")),
        other => panic!("unexpected {:?}", other),
    }
}

#[test]
fn decode_carries_the_error_of_the_codec() {
    let expected = bincode::deserialize::<bool>(&[7]).unwrap_err();
    match deserialize::<bool>(&[7]) {
        Err(StoreError::Bincode(e)) => {
            assert!(matches!(*e, bincode::ErrorKind::InvalidBoolEncoding(7)));
            assert_eq!(format!("{:?}", e), format!("{:?}", expected));
        },
        other => panic!("unexpected {:?}", other),
    }
}
