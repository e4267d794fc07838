use std::collections::HashMap;

use order::catalog::{
    query_product_variant_versions_by_product_variant_ids, query_product_variants_by_product_variant_ids,
    query_tax_rate_versions_by_product_variant_ids, tax_rate_ids,
};
use order::error::{EntryKind, OrderError};
use order::model::{ProductVariant, ProductVariantVersion, TaxRate, TaxRateVersion};

fn version(id: u128, price: u32, tax_rate_id: u128) -> ProductVariantVersion {
    ProductVariantVersion { id, price, tax_rate_id }
}

fn variant(id: u128, is_publicly_visible: bool) -> ProductVariant {
    ProductVariant { id, current_version: version(id + 100, 5, id + 200), is_publicly_visible }
}

fn tax_rate(id: u128) -> TaxRate {
    TaxRate { id, current_version: TaxRateVersion { id: id + 1_000, rate_bits: 0 } }
}

#[test]
fn hidden_product_variants_are_left_out() {
    let found = HashMap::from([(1, variant(1, true)), (2, variant(2, false)), (3, variant(3, true))]);
    let visible = query_product_variants_by_product_variant_ids(Ok(found)).unwrap();
    let mut ids: Vec<u128> = visible.keys().copied().collect();
    ids.sort();
    assert_eq!(ids, vec![1, 3]);
    assert_eq!(visible[&3].current_version.id, 103);
}

#[test]
fn failures_to_find_product_variants_are_reported() {
    match query_product_variants_by_product_variant_ids(Err("lost".to_string())) {
        Err(OrderError::Reported { text }) => assert_eq!(text, "lost"),
        other => panic!("{:?}", other),
    }
}

#[test]
fn versions_are_the_current_ones() {
    let versions =
        query_product_variant_versions_by_product_variant_ids(&HashMap::from([(1, variant(1, true)), (2, variant(2, true))]));
    assert_eq!(versions.len(), 2);
    assert_eq!(versions[&1].id, 101);
    assert_eq!(versions[&2].tax_rate_id, 202);
}

#[test]
fn tax_rates_are_asked_for_by_version() {
    let versions = HashMap::from([(1, version(101, 5, 7)), (2, version(102, 5, 8)), (3, version(103, 5, 7))]);
    let mut ids = tax_rate_ids(&versions);
    ids.sort();
    assert_eq!(ids, vec![7, 7, 8]);
}

#[test]
fn tax_rate_versions_are_the_current_ones() {
    let versions = HashMap::from([(1, version(101, 5, 7)), (2, version(102, 5, 8)), (3, version(103, 5, 7))]);
    let found = HashMap::from([(7, tax_rate(7)), (8, tax_rate(8)), (9, tax_rate(9))]);
    let by_variant = query_tax_rate_versions_by_product_variant_ids(&versions, Ok(found)).unwrap();
    assert_eq!(by_variant.len(), 3);
    assert_eq!(by_variant[&1].id, 1_007);
    assert_eq!(by_variant[&2].id, 1_008);
    assert_eq!(by_variant[&3].id, 1_007);
}

#[test]
fn a_missing_tax_rate_is_told_by_its_product_variant() {
    let versions = HashMap::from([(1, version(101, 5, 7)), (2, version(102, 5, 8))]);
    let found = HashMap::from([(7, tax_rate(7))]);
    assert!(matches!(
        query_tax_rate_versions_by_product_variant_ids(&versions, Ok(found)),
        Err(OrderError::NotInHashMap { entry: EntryKind::TaxRate, id: 2 })
    ));
}

#[test]
fn failures_to_find_tax_rates_are_reported() {
    match query_tax_rate_versions_by_product_variant_ids(&HashMap::new(), Err("lost".to_string())) {
        Err(OrderError::Reported { text }) => assert_eq!(text, "lost"),
        other => panic!("{:?}", other),
    }
}
