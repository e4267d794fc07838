use std::collections::HashMap;

use order::error::{EntryKind, OrderError};
use order::model::{OrderItemInput, ProductVariantVersion};
use order::shipment::{build_calculate_shipment_fees_input, query_shipment_fees};

fn version(id: u128) -> ProductVariantVersion {
    ProductVariantVersion { id, price: 5, tax_rate_id: 2 }
}

fn input(shipment_method_id: u128) -> OrderItemInput {
    OrderItemInput { shopping_cart_item_id: 1, coupon_ids: vec![], shipment_method_id }
}

#[test]
fn shipment_fees_are_asked_for_by_version_and_method() {
    let versions = HashMap::from([(10, version(110)), (20, version(120))]);
    let counts = HashMap::from([(10, 3), (20, 4), (30, 5)]);
    let inputs = HashMap::from([(10, input(7)), (20, input(8))]);
    let mut items = build_calculate_shipment_fees_input(&versions, &counts, &inputs).unwrap().items;
    items.sort_by_key(|item| item.product_variant_version_id);
    assert_eq!(items.len(), 2);
    assert_eq!(items[0].product_variant_version_id, 110);
    assert_eq!(items[0].quantity, 3);
    assert_eq!(items[0].shipment_method_id, 7);
    assert_eq!(items[1].product_variant_version_id, 120);
    assert_eq!(items[1].quantity, 4);
    assert_eq!(items[1].shipment_method_id, 8);
}

#[test]
fn nothing_is_shipped_for_nothing() {
    let input = build_calculate_shipment_fees_input(&HashMap::new(), &HashMap::new(), &HashMap::new()).unwrap();
    assert!(input.items.is_empty());
}

#[test]
fn shipments_that_cannot_be_asked_for_are_errors() {
    let versions = HashMap::from([(10, version(110))]);
    assert!(matches!(
        build_calculate_shipment_fees_input(&versions, &HashMap::new(), &HashMap::new()),
        Err(OrderError::NotInHashMap { entry: EntryKind::Count, id: 10 })
    ));
    assert!(matches!(
        build_calculate_shipment_fees_input(&versions, &HashMap::from([(10, u64::MAX)]), &HashMap::new()),
        Err(OrderError::NotInHashMap { entry: EntryKind::OrderItemInput, id: 10 })
    ));
    assert!(matches!(
        build_calculate_shipment_fees_input(
            &versions,
            &HashMap::from([(10, i64::MAX as u64 + 1)]),
            &HashMap::from([(10, input(7))])
        ),
        Err(OrderError::OutOfRange)
    ));
}

#[test]
fn shipment_fees_are_not_negative() {
    assert_eq!(query_shipment_fees(Ok(Some(0))).unwrap(), 0);
    assert_eq!(query_shipment_fees(Ok(Some(i64::MAX))).unwrap(), i64::MAX as u64);
    assert!(matches!(query_shipment_fees(Ok(Some(-1))), Err(OrderError::OutOfRange)));
    assert!(matches!(query_shipment_fees(Ok(None)), Err(OrderError::EmptyShipmentFeesResponse)));
    match query_shipment_fees(Err("refused".to_string())) {
        Err(OrderError::Reported { text }) => assert_eq!(text, "refused"),
        other => panic!("{:?}", other),
    }
}
