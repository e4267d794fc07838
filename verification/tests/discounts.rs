use std::collections::{BTreeSet, HashMap};

use order::discounts::{
    build_discounts_from_response_data, build_find_applicable_discounts_input,
    build_find_applicable_discounts_product_variant_input, calculate_order_amount, checked_order_amount,
    convert_graphql_client_lib_discounts_to_simple_object_discounts, query_discounts_by_product_variant_ids,
    remap_discounts_to_product_variants, DiscountsForProductVariant, GetDiscounts,
};
use order::error::{EntryKind, OrderError};
use order::model::{OrderItemInput, ProductVariantVersion};

fn priced(price: u32) -> ProductVariantVersion {
    ProductVariantVersion { id: 1, price, tax_rate_id: 2 }
}

fn input(shopping_cart_item_id: u128, coupon_ids: Vec<u128>) -> OrderItemInput {
    OrderItemInput { shopping_cart_item_id, coupon_ids, shipment_method_id: 7 }
}

fn bits(discount: f64) -> u64 {
    discount.to_bits()
}

fn list(product_variant_id: u128, discounts: Vec<(u128, u64)>) -> DiscountsForProductVariant {
    DiscountsForProductVariant { product_variant_id, discounts }
}

#[test]
fn the_order_amount_is_the_sum_of_the_prices() {
    assert_eq!(calculate_order_amount(&HashMap::new()), 0);
    assert_eq!(calculate_order_amount(&HashMap::from([(1, priced(250)), (2, priced(199)), (3, priced(0))])), 449);
}

#[test]
fn every_price_counts_once() {
    let mut versions = HashMap::from([(1, priced(250)), (2, priced(199))]);
    let before = calculate_order_amount(&versions);
    versions.insert(3, priced(51));
    assert_eq!(calculate_order_amount(&versions), before + 51);
}

#[test]
fn order_amounts_beyond_thirty_two_bits_are_noticed() {
    assert_eq!(checked_order_amount(&HashMap::from([(1, priced(u32::MAX)), (2, priced(0))])), Some(4_294_967_295));
    assert_eq!(checked_order_amount(&HashMap::from([(1, priced(u32::MAX)), (2, priced(1))])), None);
}

#[test]
fn discounts_are_asked_for_by_count_and_coupons() {
    let inputs = HashMap::from([(10, input(1, vec![8, 9])), (20, input(2, vec![]))]);
    let counts = HashMap::from([(10, 3), (20, 4)]);
    let asked = build_find_applicable_discounts_product_variant_input(&inputs, &vec![20, 10], &counts).unwrap();
    assert_eq!(asked.len(), 2);
    assert_eq!(asked[0].product_variant_id, 20);
    assert_eq!(asked[0].count, 4);
    assert!(asked[0].coupon_ids.is_empty());
    assert_eq!(asked[1].product_variant_id, 10);
    assert_eq!(asked[1].count, 3);
    assert_eq!(asked[1].coupon_ids, vec![8, 9]);
}

#[test]
fn discounts_that_cannot_be_asked_for_are_errors() {
    let inputs = HashMap::from([(10, input(1, vec![])), (30, input(3, vec![])), (40, input(4, vec![]))]);
    let counts = HashMap::from([(10, u64::MAX), (20, 4), (40, i64::MAX as u64)]);
    let ask = |ids: Vec<u128>| build_find_applicable_discounts_product_variant_input(&inputs, &ids, &counts);
    assert!(matches!(ask(vec![30]), Err(OrderError::NotInHashMap { entry: EntryKind::Count, id: 30 })));
    assert!(matches!(ask(vec![20]), Err(OrderError::NotInHashMap { entry: EntryKind::OrderItemInput, id: 20 })));
    assert!(matches!(ask(vec![10]), Err(OrderError::OutOfRange)));
    assert!(matches!(ask(vec![40, 20, 30]), Err(OrderError::NotInHashMap { id: 20, .. })));
    assert_eq!(ask(vec![40]).unwrap()[0].count, i64::MAX);
}

#[test]
fn the_query_holds_what_it_is_built_from() {
    let query = build_find_applicable_discounts_input(5, vec![], 449);
    assert_eq!(query.user_id, 5);
    assert!(query.product_variants.is_empty());
    assert_eq!(query.order_amount, 449);
}

#[test]
fn the_query_for_discounts_is_about_the_whole_order() {
    let inputs = HashMap::from([(10, input(1, vec![8])), (20, input(2, vec![]))]);
    let counts = HashMap::from([(10, 3), (20, 4)]);
    let versions = HashMap::from([(10, priced(250))]);
    let query = GetDiscounts::variables(5, &inputs, &vec![10, 20], &versions, &counts).unwrap();
    assert_eq!(query.user_id, 5);
    assert_eq!(query.order_amount, 250);
    assert_eq!(query.product_variants.len(), 2);
    assert_eq!(query.product_variants[0].coupon_ids, vec![8]);
    assert!(matches!(
        GetDiscounts::variables(5, &inputs, &vec![30], &versions, &counts),
        Err(OrderError::NotInHashMap { entry: EntryKind::Count, id: 30 })
    ));
}

#[test]
fn lists_of_discounts_are_found_by_product_variant() {
    let lists = vec![list(10, vec![(1, 1)]), list(20, vec![]), list(10, vec![(2, 2)]), list(30, vec![])];
    let map = remap_discounts_to_product_variants(lists, &vec![20, 10]).unwrap();
    assert_eq!(map.len(), 2);
    assert_eq!(map[&10].discounts, vec![(2, 2)]);
    assert!(map[&20].discounts.is_empty());
}

#[test]
fn product_variants_without_discounts_are_errors() {
    assert!(matches!(
        remap_discounts_to_product_variants(vec![list(10, vec![])], &vec![10, 20, 30]),
        Err(OrderError::NoDiscountsFor { id: 20 })
    ));
}

#[test]
fn discounts_of_a_product_variant_are_given_out_once() {
    assert!(matches!(
        remap_discounts_to_product_variants(vec![list(10, vec![]), list(20, vec![])], &vec![10, 20, 10]),
        Err(OrderError::NoDiscountsFor { id: 10 })
    ));
}

#[test]
fn discounts_become_sets() {
    let half = bits(0.5);
    let lists = HashMap::from([(10, list(10, vec![(2, half), (1, half), (2, half)])), (20, list(20, vec![]))]);
    let sets = convert_graphql_client_lib_discounts_to_simple_object_discounts(&lists);
    assert_eq!(sets, HashMap::from([(10, BTreeSet::from([(1, half), (2, half)])), (20, BTreeSet::new())]));
}

#[test]
fn discounts_are_built_from_the_answer() {
    let lists = vec![list(20, vec![(3, bits(0.75))]), list(10, vec![(1, bits(0.5)), (1, bits(0.5))])];
    let sets = build_discounts_from_response_data(lists, &vec![10, 20]).unwrap();
    assert_eq!(
        sets,
        HashMap::from([(10, BTreeSet::from([(1, bits(0.5))])), (20, BTreeSet::from([(3, bits(0.75))]))])
    );
    assert!(matches!(
        build_discounts_from_response_data(vec![], &vec![10]),
        Err(OrderError::NoDiscountsFor { id: 10 })
    ));
}

#[test]
fn answers_of_the_discount_service_are_read() {
    let ids = vec![10];
    let sets = query_discounts_by_product_variant_ids(Ok(Some(vec![list(10, vec![(1, 2)])])), &ids).unwrap();
    assert_eq!(sets, HashMap::from([(10, BTreeSet::from([(1, 2)]))]));
    assert!(matches!(
        query_discounts_by_product_variant_ids(Ok(None), &ids),
        Err(OrderError::EmptyDiscountsResponse)
    ));
    match query_discounts_by_product_variant_ids(Err("refused".to_string()), &ids) {
        Err(OrderError::Reported { text }) => assert_eq!(text, "refused"),
        other => panic!("{:?}", other),
    }
}

#[test]
fn the_last_list_of_a_product_variant_counts() {
    let lists = vec![list(10, vec![(1, 1)]), list(10, vec![(2, 2)]), list(20, vec![(3, 3)]), list(10, vec![(4, 4)])];
    let sets = build_discounts_from_response_data(lists, &vec![10, 20]).unwrap();
    assert_eq!(sets, HashMap::from([(10, BTreeSet::from([(4, 4)])), (20, BTreeSet::from([(3, 3)]))]));
}
