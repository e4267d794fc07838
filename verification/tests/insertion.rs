use order::error::OrderError;
use order::insertion::{insert_order_in_mongodb, uuid_from_bson, InsertedId};

const ID: u128 = 0x00112233_4455_6677_8899_aabbccddeeff;

fn refusal(subtype: u8, bytes: Vec<u8>) -> String {
    match uuid_from_bson(InsertedId::Binary { subtype, bytes }) {
        Err(OrderError::Reported { text }) => text,
        other => panic!("{:?}", other),
    }
}

#[test]
fn sixteen_bytes_of_the_uuid_subtype_are_a_uuid() {
    let bytes = ID.to_be_bytes().to_vec();
    assert!(matches!(uuid_from_bson(InsertedId::Binary { subtype: 4, bytes }), Ok(ID)));
}

#[test]
fn an_order_is_named_by_its_own_id() {
    let inserted = match bson::Bson::from(bson::Uuid::from_bytes(ID.to_be_bytes())) {
        bson::Bson::Binary(binary) => InsertedId::Binary { subtype: binary.subtype.into(), bytes: binary.bytes },
        other => panic!("{}", other),
    };
    assert!(matches!(insert_order_in_mongodb(Ok(inserted)), Ok(ID)));
}

#[test]
fn other_subtypes_are_refused_in_the_words_of_bson() {
    let bytes = ID.to_be_bytes().to_vec();
    let binary = bson::Binary { subtype: bson::spec::BinarySubtype::UuidOld, bytes: bytes.clone() };
    assert_eq!(refusal(3, bytes.clone()), binary.to_uuid().unwrap_err().to_string());
    let generic = bson::Binary { subtype: bson::spec::BinarySubtype::Generic, bytes: bytes.clone() };
    assert_eq!(refusal(0, bytes), generic.to_uuid().unwrap_err().to_string());
}

#[test]
fn other_lengths_are_refused_in_the_words_of_bson() {
    let binary = bson::Binary { subtype: bson::spec::BinarySubtype::Uuid, bytes: vec![7; 15] };
    assert_eq!(refusal(4, vec![7; 15]), binary.to_uuid().unwrap_err().to_string());
    assert!(!refusal(4, vec![]).is_empty());
    assert!(!refusal(4, vec![7; 17]).is_empty());
}

#[test]
fn other_bson_values_are_quoted() {
    let error = uuid_from_bson(InsertedId::Other { text: "42".to_string() }).unwrap_err();
    assert_eq!(
        error.message("", ""),
        "Returned id: `42` needs to be a Binary in order to be parsed as a Uuid"
    );
}

#[test]
fn an_order_that_was_not_taken_has_no_id() {
    let error = insert_order_in_mongodb(Err(())).unwrap_err();
    assert!(matches!(error, OrderError::AddingFailed));
    assert_eq!(error.message("", ""), "Adding order failed in MongoDB.");
}

#[test]
fn refusals_spell_the_subtype() {
    let head = "expected Uuid when converting to UUID with Standard, isntead got ";
    let names = [
        (0, "Generic"),
        (1, "Function"),
        (2, "BinaryOld"),
        (3, "UuidOld"),
        (5, "Md5"),
        (6, "Encrypted"),
        (7, "Column"),
        (8, "Sensitive"),
        (9, "Vector"),
        (10, "Reserved(10)"),
        (127, "Reserved(127)"),
        (128, "UserDefined(128)"),
        (255, "UserDefined(255)"),
    ];
    for (subtype, name) in names {
        assert_eq!(refusal(subtype, vec![7; 16]), format!("{}{}", head, name));
        assert_eq!(refusal(subtype, vec![]), format!("{}{}", head, name));
    }
}

#[test]
fn refusals_count_the_bytes() {
    for (len, text) in [(0, "0"), (9, "9"), (15, "15"), (17, "17"), (1_024, "1024")] {
        assert_eq!(refusal(4, vec![7; len]), format!("expected UUID to contain 16 bytes, instead got {}", text));
    }
}
