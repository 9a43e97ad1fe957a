use sled_store::cbor::{deserialize, serialize};
use sled_store::StoreError;

struct Unencodable;

impl serde::Serialize for Unencodable {
    fn serialize<S: serde::Serializer>(&self, _serializer: S) -> Result<S::Ok, S::Error> {
        Err(serde::ser::Error::custom("no encoding"))
    }
}

#[test]
fn cbor_decode_of_encode_is_the_value() {
    let value: (u64, String, Option<Vec<i32>>) = (7, "seven".to_string(), Some(vec![-1, 0, 1]));
    let bytes = serialize(&value).unwrap();
    let back: (u64, String, Option<Vec<i32>>) = deserialize(&bytes).unwrap();
    assert_eq!(back, value);
    let back: String = deserialize(&serialize(&"größe".to_string()).unwrap()).unwrap();
    assert_eq!(back, "größe");
}

#[test]
fn cbor_encode_gives_the_bytes_of_the_wire_format() {
    assert_eq!(serialize(&10u8).unwrap(), vec![0x0a]);
    assert_eq!(serialize(&500u32).unwrap(), vec![0x19, 0x01, 0xf4]);
    assert_eq!(serialize(&"foobar").unwrap(), vec![0x66, 0x66, 0x6f, 0x6f, 0x62, 0x61, 0x72]);
    assert_eq!(serialize(&vec![1u8, 2, 3]).unwrap(), vec![0x83, 0x01, 0x02, 0x03]);
    assert_eq!(serialize(&true).unwrap(), vec![0xf5]);
}

#[test]
fn cbor_decode_reads_the_wire_format() {
    let text: String = deserialize(&[0x66, 0x66, 0x6f, 0x6f, 0x62, 0x61, 0x72]).unwrap();
    assert_eq!(text, "foobar");
    let borrowed: &str = deserialize(&[0x66, 0x66, 0x6f, 0x6f, 0x62, 0x61, 0x72]).unwrap();
    assert_eq!(borrowed, "foobar");
    let number: u32 = deserialize(&[0x19, 0x01, 0xf4]).unwrap();
    assert_eq!(number, 500);
}

#[test]
fn cbor_encode_fails_on_a_value_that_has_no_encoding() {
    assert!(matches!(serialize(&Unencodable), Err(StoreError::CBOR(_))));
}

#[test]
fn cbor_decode_fails_on_bad_bytes() {
    let r: Result<String, StoreError> = deserialize(&[0x66, 0x66, 0x6f]);
    assert!(matches!(r, Err(StoreError::CBOR(_))));
    let r: Result<u8, StoreError> = deserialize(&[]);
    assert!(matches!(r, Err(StoreError::CBOR(_))));
    let r: Result<u8, StoreError> = deserialize(&[0x0a, 0x0a]);
    assert!(matches!(r, Err(StoreError::CBOR(_))));
    let r: Result<String, StoreError> = deserialize(&[0x0a]);
    assert!(matches!(r, Err(StoreError::CBOR(_))));
}

#[test]
fn an_error_of_the_cbor_codec_is_a_serialization_error() {
    let cause = serde_cbor::from_slice::<u8>(&[]).unwrap_err();
    assert!(matches!(StoreError::from(cause), StoreError::CBOR(_)));
}
