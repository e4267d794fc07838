use order::error::{ObjectKind, OrderError};
use order::model::{OrderItemInput, User};
use order::validation::{
    coupon_ids, shipment_method_ids, validate_object, validate_objects, validate_user_address, FindFailure,
};

fn input(coupon_ids: Vec<u128>, shipment_method_id: u128) -> OrderItemInput {
    OrderItemInput { shopping_cart_item_id: 1, coupon_ids, shipment_method_id }
}

#[test]
fn an_object_is_there_if_it_was_found() {
    assert!(validate_object::<u8>(Ok(1)).is_ok());
    match validate_object::<u8>(Err("gone".to_string())) {
        Err(OrderError::Reported { text }) => assert_eq!(text, "gone"),
        other => panic!("{:?}", other),
    }
}

#[test]
fn objects_are_there_if_all_were_found() {
    assert!(validate_objects(ObjectKind::Coupon, &vec![1, 2, 1], Ok(vec![2, 3, 1])).is_ok());
    assert!(validate_objects(ObjectKind::Coupon, &vec![], Ok(vec![])).is_ok());
}

#[test]
fn the_last_missing_object_is_complained_of() {
    assert!(matches!(
        validate_objects(ObjectKind::Coupon, &vec![4, 1, 5, 2], Ok(vec![1, 2])),
        Err(OrderError::NotPresent { kind: ObjectKind::Coupon, id: 5 })
    ));
    assert!(matches!(
        validate_objects(ObjectKind::ShipmentMethod, &vec![4], Ok(vec![])),
        Err(OrderError::NotPresent { kind: ObjectKind::ShipmentMethod, id: 4 })
    ));
}

#[test]
fn failures_to_find_objects_are_told_apart() {
    assert!(matches!(
        validate_objects(ObjectKind::ShipmentMethod, &vec![], Err(FindFailure::Find)),
        Err(OrderError::NonePresent { kind: ObjectKind::ShipmentMethod })
    ));
    match validate_objects(ObjectKind::Coupon, &vec![], Err(FindFailure::Collect { text: "cut".to_string() })) {
        Err(OrderError::Reported { text }) => assert_eq!(text, "cut"),
        other => panic!("{:?}", other),
    }
}

#[test]
fn all_shipment_methods_are_looked_for() {
    assert_eq!(shipment_method_ids(&vec![input(vec![], 7), input(vec![], 8), input(vec![], 7)]), vec![7, 8, 7]);
}

#[test]
fn all_coupons_of_all_positions_are_looked_for() {
    assert_eq!(coupon_ids(&vec![input(vec![1, 2], 7), input(vec![], 7), input(vec![3, 1], 7)]), vec![1, 2, 3, 1]);
    assert!(coupon_ids(&vec![]).is_empty());
}

#[test]
fn addresses_are_registered_under_their_user() {
    let user = Some(User { id: 5, user_address_ids: vec![50, 51] });
    assert!(validate_user_address(51, 5, &user).is_ok());
    assert!(matches!(
        validate_user_address(52, 5, &user),
        Err(OrderError::AddressNotFound { id: 52, user_id: 5 })
    ));
    assert!(matches!(
        validate_user_address(50, 5, &None),
        Err(OrderError::AddressNotFound { id: 50, user_id: 5 })
    ));
}
