use sled_store::id::Id;

#[test]
fn id_of_zero_is_one_digit() {
    assert_eq!(Id::from(0u64).as_str(), "0");
}

#[test]
fn id_of_a_number_is_its_decimal_rendering() {
    assert_eq!(Id::from(7u64).as_str(), "7");
    assert_eq!(Id::from(10u64).as_str(), "10");
    assert_eq!(Id::from(12345u64).as_str(), "12345");
    assert_eq!(Id::from(9007199254740993u64).as_str(), "9007199254740993");
}

#[test]
fn id_of_the_largest_number() {
    assert_eq!(Id::from(u64::MAX).as_str(), "18446744073709551615");
}

#[test]
fn id_of_a_number_agrees_with_the_standard_rendering() {
    let mut n: u64 = 1;
    for _ in 0..64 {
        assert_eq!(Id::from(n).as_str(), format!("{}", n));
        assert_eq!(Id::from(n - 1).as_str(), format!("{}", n - 1));
        n = n.wrapping_mul(2).max(1);
    }
    for n in 0..2000u64 {
        assert_eq!(Id::of_number(n).as_str(), format!("{}", n));
    }
}

#[test]
fn ids_of_distinct_numbers_are_distinct() {
    let ids: Vec<Id> = (0..300u64).map(Id::from).collect();
    for i in 0..ids.len() {
        for j in 0..i {
            assert_ne!(ids[i], ids[j]);
        }
    }
    assert_ne!(Id::from(1u64), Id::from(10u64));
    assert_ne!(Id::from(100u64), Id::from(1000u64));
}

#[test]
fn id_keeps_the_text_it_is_made_of() {
    assert_eq!(Id::from("alpha").as_str(), "alpha");
    assert_eq!(Id::from(String::from("beta")).as_str(), "beta");
    assert_eq!(Id::from("").as_str(), "");
    assert_eq!(Id::from("größe/北京").as_str(), "größe/北京");
}

#[test]
fn id_turns_back_into_its_text() {
    let text: String = Id::from("gamma").into();
    assert_eq!(text, "gamma");
    let text: String = Id::from(42u64).into();
    assert_eq!(text, "42");
    assert_eq!(Id::from("delta").to_string(), "delta");
}

#[test]
fn id_dereferences_to_its_text() {
    let id = Id::from("epsilon");
    assert_eq!(id.len(), 7);
    assert!(id.starts_with("eps"));
    let text: &String = &id;
    assert_eq!(text, "epsilon");
}

#[test]
fn ids_are_equal_when_their_texts_are() {
    assert_eq!(Id::from("a"), Id::from(String::from("a")));
    assert_eq!(Id::from("17"), Id::from(17u64));
    assert_ne!(Id::from("a"), Id::from("b"));
    assert_ne!(Id::from("a"), Id::from("A"));
    assert_ne!(Id::from("017"), Id::from(17u64));
}

#[test]
fn a_cloned_id_is_equal_to_its_origin() {
    let id = Id::from("zeta");
    let copy = id.clone();
    assert_eq!(id, copy);
    assert_eq!(format!("{:?}", id), format!("{:?}", copy));
}
