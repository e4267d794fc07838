use std::collections::HashMap;

use order::error::{EntryKind, OrderError};
use order::inventory::{
    build_stock_counts_by_product_variant_from_response_data, calculate_availability_of_product_variant_ids,
    can_read_inventory, check_product_variant_availability, product_variant_representations, StockEntity,
};

fn stock(id: u128, inventory_count: i64) -> Option<StockEntity> {
    Some(StockEntity::ProductVariant { id, inventory_count })
}

fn counts(pairs: &[(u128, u64)]) -> HashMap<u128, u64> {
    pairs.iter().copied().collect()
}

#[test]
fn stock_is_asked_of_each_product_variant() {
    let representations = product_variant_representations(&vec![1, 0xff]);
    assert_eq!(representations.len(), 2);
    assert_eq!(representations[0].typename, "ProductVariant");
    assert_eq!(representations[0].id, "00000000-0000-0000-0000-000000000001");
    assert_eq!(representations[1].id, "00000000-0000-0000-0000-0000000000ff");
    assert!(product_variant_representations(&vec![]).is_empty());
}

#[test]
fn stock_is_read_by_product_variant() {
    let map = build_stock_counts_by_product_variant_from_response_data(&vec![stock(1, 5), stock(2, 0), stock(1, 7)]);
    assert_eq!(map.unwrap(), counts(&[(1, 7), (2, 0)]));
}

#[test]
fn missing_entities_are_errors() {
    assert!(matches!(
        build_stock_counts_by_product_variant_from_response_data(&vec![stock(1, 5), None, stock(2, -1)]),
        Err(OrderError::MissingStockEntity)
    ));
}

#[test]
fn negative_stock_is_out_of_range() {
    assert!(matches!(
        build_stock_counts_by_product_variant_from_response_data(&vec![stock(1, 5), stock(2, -1), None]),
        Err(OrderError::OutOfRange)
    ));
}

#[test]
fn product_items_after_an_error_are_not_read() {
    let entities = vec![None, Some(StockEntity::ProductItem)];
    assert!(matches!(
        build_stock_counts_by_product_variant_from_response_data(&entities),
        Err(OrderError::MissingStockEntity)
    ));
    assert!(can_read_inventory(&Ok(Some(entities))));
}

#[test]
fn product_items_cannot_be_read() {
    assert!(!can_read_inventory(&Ok(Some(vec![stock(1, 5), Some(StockEntity::ProductItem)]))));
    assert!(can_read_inventory(&Ok(Some(vec![stock(1, 5)]))));
    assert!(can_read_inventory(&Ok(None)));
    assert!(can_read_inventory(&Err("refused".to_string())));
}

#[test]
fn as_much_as_is_there_is_available() {
    let there = counts(&[(1, 5), (2, 3), (3, 0)]);
    assert!(calculate_availability_of_product_variant_ids(&there, &counts(&[(1, 5), (2, 2)])).is_ok());
    assert!(calculate_availability_of_product_variant_ids(&there, &counts(&[(3, 0)])).is_ok());
    assert!(calculate_availability_of_product_variant_ids(&there, &counts(&[])).is_ok());
}

#[test]
fn one_item_too_many_is_not_available() {
    let there = counts(&[(1, 5), (2, 3)]);
    assert!(matches!(
        calculate_availability_of_product_variant_ids(&there, &counts(&[(1, 6), (2, 2)])),
        Err(OrderError::NotAllAvailable)
    ));
}

#[test]
fn unknown_stock_comes_before_short_stock() {
    let there = counts(&[(1, 5)]);
    assert!(matches!(
        calculate_availability_of_product_variant_ids(&there, &counts(&[(1, 6), (9, 0)])),
        Err(OrderError::NotInHashMap { entry: EntryKind::Count, id: 9 })
    ));
}

#[test]
fn more_stock_or_fewer_wishes_keep_what_is_available() {
    let wish = counts(&[(1, 5)]);
    assert!(calculate_availability_of_product_variant_ids(&counts(&[(1, 5)]), &wish).is_ok());
    assert!(calculate_availability_of_product_variant_ids(&counts(&[(1, 6), (2, 1)]), &wish).is_ok());
    assert!(calculate_availability_of_product_variant_ids(&counts(&[(1, 5)]), &counts(&[(1, 4)])).is_ok());
}

#[test]
fn availability_is_checked_against_the_answer() {
    let wish = counts(&[(1, 2), (2, 3)]);
    assert!(check_product_variant_availability(Ok(Some(vec![stock(2, 3), stock(1, 2)])), &wish).is_ok());
    assert!(matches!(
        check_product_variant_availability(Ok(Some(vec![stock(2, 2), stock(1, 2)])), &wish),
        Err(OrderError::NotAllAvailable)
    ));
    assert!(matches!(
        check_product_variant_availability(Ok(Some(vec![stock(1, 2)])), &wish),
        Err(OrderError::NotInHashMap { entry: EntryKind::Count, id: 2 })
    ));
    assert!(matches!(check_product_variant_availability(Ok(None), &wish), Err(OrderError::EmptyStockResponse)));
    match check_product_variant_availability(Err("refused".to_string()), &wish) {
        Err(OrderError::Reported { text }) => assert_eq!(text, "refused"),
        other => panic!("{:?}", other),
    }
}
