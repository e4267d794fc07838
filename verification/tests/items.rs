use std::collections::{BTreeSet, HashMap};

use order::error::{EntryKind, OrderError};
use order::items::{calculate_compensatable_order_amount, zip_to_internal_order_items, AttributeMaps};
use order::model::{
    OrderItem, OrderItemAttributes, OrderItemInput, ProductVariant, ProductVariantVersion, TaxRateVersion,
};

fn version(id: u128) -> ProductVariantVersion {
    ProductVariantVersion { id, price: 5, tax_rate_id: 2 }
}

fn variant(id: u128) -> ProductVariant {
    ProductVariant { id, current_version: version(id + 100), is_publicly_visible: true }
}

fn input(shopping_cart_item_id: u128) -> OrderItemInput {
    OrderItemInput { shopping_cart_item_id, coupon_ids: vec![8], shipment_method_id: 7 }
}

fn tax(id: u128) -> TaxRateVersion {
    TaxRateVersion { id, rate_bits: 3 }
}

fn maps() -> AttributeMaps {
    AttributeMaps {
        counts: HashMap::from([(10, 3), (20, 4), (30, 5)]),
        order_item_inputs: HashMap::from([(10, input(1)), (20, input(2))]),
        product_variants: HashMap::from([(10, variant(10)), (20, variant(20))]),
        product_variant_versions: HashMap::from([(10, version(110)), (20, version(120))]),
        tax_rate_versions: HashMap::from([(10, tax(210)), (20, tax(220))]),
        discounts: HashMap::from([(10, BTreeSet::from([(1, 2)])), (20, BTreeSet::new())]),
    }
}

fn lacks(maps: &AttributeMaps) -> EntryKind {
    match zip_to_internal_order_items(maps, 0) {
        Err(OrderError::NotInHashMap { entry, id: 20 }) => entry,
        other => panic!("{:?}", other),
    }
}

fn costing(compensatable_amount: u64) -> OrderItem {
    let attributes: OrderItemAttributes = zip_to_internal_order_items(&maps(), 0).unwrap().remove(0);
    OrderItem { id: 1, attributes, compensatable_amount }
}

#[test]
fn attributes_are_zipped_by_product_variant() {
    let mut items = zip_to_internal_order_items(&maps(), 77).unwrap();
    items.sort_by_key(|item| item.product_variant.id);
    assert_eq!(items.len(), 2);
    assert_eq!(items[0].product_variant.id, 10);
    assert_eq!(items[0].order_item_input.shopping_cart_item_id, 1);
    assert_eq!(items[0].order_item_input.coupon_ids, vec![8]);
    assert_eq!(items[0].product_variant_version.id, 110);
    assert_eq!(items[0].tax_rate_version.id, 210);
    assert_eq!(items[0].count, 3);
    assert_eq!(items[0].internal_discounts, BTreeSet::from([(1, 2)]));
    assert_eq!(items[0].created_at, 77);
    assert_eq!(items[1].product_variant.id, 20);
    assert_eq!(items[1].count, 4);
    assert!(items[1].internal_discounts.is_empty());
}

#[test]
fn the_first_missing_attribute_is_complained_of() {
    let mut maps = maps();
    maps.discounts.remove(&20);
    assert!(matches!(lacks(&maps), EntryKind::Discounts));
    maps.counts.remove(&20);
    assert!(matches!(lacks(&maps), EntryKind::Count));
    maps.tax_rate_versions.remove(&20);
    assert!(matches!(lacks(&maps), EntryKind::TaxRateVersion));
    maps.product_variant_versions.remove(&20);
    assert!(matches!(lacks(&maps), EntryKind::ProductVariantVersion));
    maps.order_item_inputs.remove(&20);
    assert!(matches!(lacks(&maps), EntryKind::OrderItemInput));
    maps.product_variants.remove(&20);
    assert_eq!(zip_to_internal_order_items(&maps, 0).unwrap().len(), 1);
}

#[test]
fn the_amount_of_an_order_is_what_its_items_cost() {
    assert_eq!(calculate_compensatable_order_amount(&vec![]), 0);
    assert_eq!(calculate_compensatable_order_amount(&vec![costing(250), costing(0), costing(199)]), 449);
    assert_eq!(calculate_compensatable_order_amount(&vec![costing(u64::MAX - 1), costing(1)]), u64::MAX);
}
