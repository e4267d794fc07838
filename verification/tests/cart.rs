use std::collections::HashMap;

use order::cart::{
    build_counts_by_product_variant_ids, build_order_item_inputs_by_product_variant_ids,
    into_ids_and_counts_by_shopping_cart_item_ids, query_counts_by_product_variant_ids,
    shopping_cart_representations, ShoppingCartEntity, ShoppingCartItem,
};
use order::error::{EntryKind, OrderError};
use order::model::OrderItemInput;

fn input(shopping_cart_item_id: u128, shipment_method_id: u128) -> OrderItemInput {
    OrderItemInput { shopping_cart_item_id, coupon_ids: vec![], shipment_method_id }
}

fn item(id: u128, product_variant_id: u128, count: i64) -> ShoppingCartItem {
    ShoppingCartItem { id, product_variant_id, count }
}

fn cart(shoppingcart_items: Vec<ShoppingCartItem>) -> Result<Option<Vec<Option<ShoppingCartEntity>>>, String> {
    Ok(Some(vec![Some(ShoppingCartEntity::User { shoppingcart_items })]))
}

#[test]
fn the_cart_is_asked_of_the_user() {
    let representations = shopping_cart_representations(0xabc);
    assert_eq!(representations.len(), 1);
    assert_eq!(representations[0].typename, "User");
    assert_eq!(representations[0].id, "00000000-0000-0000-0000-000000000abc");
    assert_eq!(representations[0].id, bson::Uuid::from_bytes(0xabcu128.to_be_bytes()).to_string());
}

#[test]
fn carts_are_read_by_their_items() {
    let entity = ShoppingCartEntity::User { shoppingcart_items: vec![item(1, 10, 3), item(2, 20, 4)] };
    let map = into_ids_and_counts_by_shopping_cart_item_ids(entity).unwrap();
    assert_eq!(map, HashMap::from([(1, (10, 3)), (2, (20, 4))]));
}

#[test]
fn the_last_of_two_items_of_one_id_counts() {
    let entity = ShoppingCartEntity::User { shoppingcart_items: vec![item(1, 10, 3), item(1, 20, 4)] };
    let map = into_ids_and_counts_by_shopping_cart_item_ids(entity).unwrap();
    assert_eq!(map, HashMap::from([(1, (20, 4))]));
}

#[test]
fn negative_counts_wrap_around() {
    let entity = ShoppingCartEntity::User { shoppingcart_items: vec![item(1, 10, -1), item(2, 20, i64::MIN)] };
    let map = into_ids_and_counts_by_shopping_cart_item_ids(entity).unwrap();
    assert_eq!(map, HashMap::from([(1, (10, u64::MAX)), (2, (20, 1u64 << 63))]));
}

#[test]
fn other_entities_are_no_carts() {
    let entity = ShoppingCartEntity::Other { text: "ShoppingCartItem".to_string() };
    match into_ids_and_counts_by_shopping_cart_item_ids(entity) {
        Err(OrderError::NotAUser { entity }) => assert_eq!(entity, "ShoppingCartItem"),
        other => panic!("{:?}", other),
    }
}

#[test]
fn counts_are_those_of_the_cart() {
    let ids_and_counts: HashMap<u128, (u128, u64)> = HashMap::from([(1, (10, 3)), (2, (20, 4)), (3, (30, 5))]);
    let counts = build_counts_by_product_variant_ids(&vec![input(1, 7), input(3, 7)], &ids_and_counts).unwrap();
    assert_eq!(counts, HashMap::from([(10, 3), (30, 5)]));
    assert!(build_counts_by_product_variant_ids(&vec![], &ids_and_counts).unwrap().is_empty());
}

#[test]
fn of_two_positions_of_one_product_variant_the_last_counts() {
    let ids_and_counts: HashMap<u128, (u128, u64)> = HashMap::from([(1, (10, 3)), (2, (10, 4))]);
    let inputs = vec![input(1, 7), input(2, 8)];
    let counts = build_counts_by_product_variant_ids(&inputs, &ids_and_counts).unwrap();
    assert_eq!(counts, HashMap::from([(10, 4)]));
    let by_variant = build_order_item_inputs_by_product_variant_ids(&inputs, &ids_and_counts).unwrap();
    assert_eq!(by_variant.len(), 1);
    assert_eq!(by_variant[&10].shopping_cart_item_id, 2);
    assert_eq!(by_variant[&10].shipment_method_id, 8);
}

#[test]
fn the_first_position_that_is_not_in_the_cart_is_complained_of() {
    let ids_and_counts: HashMap<u128, (u128, u64)> = HashMap::from([(1, (10, 3))]);
    let inputs = vec![input(1, 7), input(5, 7), input(6, 7)];
    assert!(matches!(
        build_counts_by_product_variant_ids(&inputs, &ids_and_counts),
        Err(OrderError::NotInHashMap { entry: EntryKind::IdAndCount, id: 5 })
    ));
    assert!(matches!(
        build_order_item_inputs_by_product_variant_ids(&inputs, &ids_and_counts),
        Err(OrderError::NotInHashMap { entry: EntryKind::IdAndCount, id: 5 })
    ));
}

#[test]
fn positions_keep_their_coupons() {
    let ids_and_counts: HashMap<u128, (u128, u64)> = HashMap::from([(1, (10, 3))]);
    let inputs = vec![OrderItemInput { shopping_cart_item_id: 1, coupon_ids: vec![8, 9], shipment_method_id: 7 }];
    let by_variant = build_order_item_inputs_by_product_variant_ids(&inputs, &ids_and_counts).unwrap();
    assert_eq!(by_variant[&10].coupon_ids, vec![8, 9]);
}

#[test]
fn counts_and_positions_are_about_the_same_product_variants() {
    let inputs = vec![input(1, 7), input(2, 8), input(3, 9)];
    let response = cart(vec![item(1, 10, 1), item(2, 20, 2), item(3, 10, 3), item(4, 40, 4)]);
    let (counts, by_variant) = query_counts_by_product_variant_ids(&inputs, response).unwrap();
    let mut ids: Vec<u128> = counts.keys().copied().collect();
    let mut same: Vec<u128> = by_variant.keys().copied().collect();
    ids.sort();
    same.sort();
    assert_eq!(ids, vec![10, 20]);
    assert_eq!(same, ids);
    assert_eq!(counts[&10], 3);
}

#[test]
fn carts_that_cannot_be_read_are_errors() {
    let inputs = vec![input(1, 7)];
    assert!(matches!(
        query_counts_by_product_variant_ids(&inputs, Ok(None)),
        Err(OrderError::EmptyCartResponse)
    ));
    assert!(matches!(
        query_counts_by_product_variant_ids(&inputs, Ok(Some(vec![None]))),
        Err(OrderError::EmptyCartResponse)
    ));
    match query_counts_by_product_variant_ids(&inputs, Err("refused".to_string())) {
        Err(OrderError::Reported { text }) => assert_eq!(text, "refused"),
        other => panic!("{:?}", other),
    }
    assert!(matches!(
        query_counts_by_product_variant_ids(&inputs, cart(vec![item(2, 10, 1)])),
        Err(OrderError::NotInHashMap { entry: EntryKind::IdAndCount, id: 1 })
    ));
}

#[test]
fn only_the_first_entity_is_read() {
    let first = ShoppingCartEntity::User { shoppingcart_items: vec![item(1, 10, 2)] };
    let second = ShoppingCartEntity::User { shoppingcart_items: vec![item(1, 20, 5)] };
    let (counts, _) =
        query_counts_by_product_variant_ids(&vec![input(1, 7)], Ok(Some(vec![Some(first), Some(second)]))).unwrap();
    assert_eq!(counts, HashMap::from([(10, 2)]));
}
