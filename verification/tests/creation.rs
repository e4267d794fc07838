use std::collections::HashMap;

use order::cart::{ShoppingCartEntity, ShoppingCartItem};
use order::creation::{BuiltItem, CreateOrder, CreateOrderReply};
use order::discounts::DiscountsForProductVariant;
use order::insertion::InsertedId;
use order::inventory::StockEntity;
use order::model::{
    CreateOrderInput, Order, OrderItemInput, OrderStatus, ProductVariant, ProductVariantVersion, TaxRate,
    TaxRateVersion, User,
};
use order::mutation::Mutation;
use order::validation::FindFailure;

const NOW: i64 = 1_700_000_000_000;

fn wish() -> CreateOrderInput {
    CreateOrderInput {
        user_id: 5,
        order_item_inputs: vec![
            OrderItemInput { shopping_cart_item_id: 1, coupon_ids: vec![8], shipment_method_id: 7 },
            OrderItemInput { shopping_cart_item_id: 2, coupon_ids: vec![], shipment_method_id: 7 },
        ],
        shipment_address_id: 50,
        invoice_address_id: 51,
        payment_information_id: 60,
        vat_number: "DE123".to_string(),
    }
}

fn variant(id: u128, price: u32, is_publicly_visible: bool) -> ProductVariant {
    ProductVariant {
        id,
        current_version: ProductVariantVersion { id: id + 100, price, tax_rate_id: 200 },
        is_publicly_visible,
    }
}

fn user() -> User {
    User { id: 5, user_address_ids: vec![50, 51] }
}

fn an_order() -> Order {
    Order {
        id: 77,
        user_id: 5,
        created_at: NOW,
        order_status: OrderStatus::Pending,
        placed_at: None,
        rejection_reason: None,
        internal_order_items: vec![],
        shipment_address_id: 50,
        invoice_address_id: 51,
        compensatable_order_amount: 0,
        payment_information_id: 60,
        vat_number: "DE123".to_string(),
    }
}

fn cart(second_count: i64) -> CreateOrderReply {
    let shoppingcart_items = vec![
        ShoppingCartItem { id: 1, product_variant_id: 10, count: 3 },
        ShoppingCartItem { id: 2, product_variant_id: 20, count: second_count },
        ShoppingCartItem { id: 3, product_variant_id: 30, count: 9 },
    ];
    CreateOrderReply::ShoppingCart { response: Ok(Some(vec![Some(ShoppingCartEntity::User { shoppingcart_items })])) }
}

fn variants(first: ProductVariant, second: ProductVariant) -> CreateOrderReply {
    CreateOrderReply::ProductVariants { found: Ok(HashMap::from([(10, first), (20, second)])) }
}

fn stock(first: i64, second: i64) -> CreateOrderReply {
    CreateOrderReply::Stock {
        response: Ok(Some(vec![
            Some(StockEntity::ProductVariant { id: 10, inventory_count: first }),
            Some(StockEntity::ProductVariant { id: 20, inventory_count: second }),
        ])),
    }
}

fn tax_rates() -> CreateOrderReply {
    let tax_rate = TaxRate { id: 200, current_version: TaxRateVersion { id: 201, rate_bits: 0.19f64.to_bits() } };
    CreateOrderReply::TaxRates { found: Ok(HashMap::from([(200, tax_rate)])) }
}

fn discounts() -> CreateOrderReply {
    CreateOrderReply::Discounts {
        response: Ok(Some(vec![
            DiscountsForProductVariant { product_variant_id: 20, discounts: vec![] },
            DiscountsForProductVariant { product_variant_id: 10, discounts: vec![(8, 0.5f64.to_bits())] },
        ])),
    }
}

fn built() -> CreateOrderReply {
    CreateOrderReply::OrderItems {
        order_id: 77,
        built: vec![
            BuiltItem { id: 70, compensatable_amount: 250 },
            BuiltItem { id: 71, compensatable_amount: 199 },
        ],
    }
}

fn inserted() -> CreateOrderReply {
    let bytes = 77u128.to_be_bytes().to_vec();
    CreateOrderReply::Inserted { inserted: Ok(InsertedId::Binary { subtype: 4, bytes }) }
}

/// The replies of a course that ends in an order.
fn good() -> Vec<CreateOrderReply> {
    vec![
        CreateOrderReply::Authorized { checked: Ok(()) },
        CreateOrderReply::User { found: Ok(user()) },
        CreateOrderReply::Objects { found: Ok(vec![7]) },
        CreateOrderReply::Objects { found: Ok(vec![8, 9]) },
        CreateOrderReply::Addressee { found: Some(user()) },
        CreateOrderReply::Addressee { found: Some(user()) },
        CreateOrderReply::Clock { now: NOW },
        cart(4),
        variants(variant(10, 250, true), variant(20, 199, true)),
        stock(3, 10),
        tax_rates(),
        discounts(),
        CreateOrderReply::ShipmentFees { response: Ok(Some(0)) },
        built(),
        inserted(),
        CreateOrderReply::Order { found: Ok(an_order()) },
    ]
}

fn run(replies: Vec<CreateOrderReply>) -> CreateOrder {
    let mut state = Mutation.create_order(wish());
    for reply in replies {
        assert!(state.can_take(&reply));
        state = state.step(reply);
    }
    state
}

/// The state after the first `len` replies of the good course.
fn after(len: usize) -> CreateOrder {
    let mut replies = good();
    replies.truncate(len);
    run(replies)
}

/// The state after the first `len` replies of the good course and another one.
fn but(len: usize, reply: CreateOrderReply) -> CreateOrder {
    let mut replies = good();
    replies.truncate(len);
    replies.push(reply);
    run(replies)
}

fn failure(state: CreateOrder) -> String {
    match state {
        CreateOrder::Done { result: Err(error) } => error.message("Value", "Map"),
        _ => panic!("no failure"),
    }
}

#[test]
fn an_order_is_created_in_sixteen_steps() {
    assert_eq!(good().len(), 16);
    match run(good()) {
        CreateOrder::Done { result: Ok(order) } => assert_eq!(order.id, 77),
        _ => panic!("no order"),
    }
}

#[test]
fn what_is_looked_for_is_what_was_wished_for() {
    assert!(matches!(after(2), CreateOrder::FindShipmentMethods { ids, .. } if ids == vec![7, 7]));
    assert!(matches!(after(3), CreateOrder::FindCoupons { ids, .. } if ids == vec![8]));
    match after(7) {
        CreateOrder::QueryShoppingCart { created_at, representations, .. } => {
            assert_eq!(created_at, NOW);
            assert_eq!(representations[0].typename, "User");
            assert_eq!(representations[0].id, "00000000-0000-0000-0000-000000000005");
        }
        _ => panic!("no query"),
    }
    match after(8) {
        CreateOrder::FindProductVariants { draft } => {
            let mut ids = draft.product_variant_ids;
            ids.sort();
            assert_eq!(ids, vec![10, 20]);
            assert_eq!(draft.counts, HashMap::from([(10, 3), (20, 4)]));
            assert_eq!(draft.order_item_inputs[&20].shopping_cart_item_id, 2);
        }
        _ => panic!("no draft"),
    }
    match after(9) {
        CreateOrder::QueryStock { draft, representations } => {
            let texts: Vec<String> = draft
                .cart
                .product_variant_ids
                .iter()
                .map(|id| bson::Uuid::from_bytes(id.to_be_bytes()).to_string())
                .collect();
            let asked: Vec<String> = representations.iter().map(|r| r.id.clone()).collect();
            assert_eq!(asked, texts);
            assert!(representations.iter().all(|r| r.typename == "ProductVariant"));
        }
        _ => panic!("no query"),
    }
    assert!(matches!(after(10), CreateOrder::FindTaxRates { tax_rate_ids, .. } if tax_rate_ids == vec![200, 200]));
}

#[test]
fn other_services_are_asked_about_the_whole_order() {
    match after(11) {
        CreateOrder::QueryDiscounts { mut variables, .. } => {
            variables.product_variants.sort_by_key(|variant| variant.product_variant_id);
            assert_eq!(variables.user_id, 5);
            assert_eq!(variables.order_amount, 449);
            assert_eq!(variables.product_variants.len(), 2);
            assert_eq!(variables.product_variants[0].product_variant_id, 10);
            assert_eq!(variables.product_variants[0].count, 3);
            assert_eq!(variables.product_variants[0].coupon_ids, vec![8]);
            assert_eq!(variables.product_variants[1].product_variant_id, 20);
        }
        _ => panic!("no query"),
    }
    match after(12) {
        CreateOrder::QueryShipmentFees { mut variables, .. } => {
            variables.items.sort_by_key(|item| item.product_variant_version_id);
            assert_eq!(variables.items.len(), 2);
            assert_eq!(variables.items[0].product_variant_version_id, 110);
            assert_eq!(variables.items[0].quantity, 3);
            assert_eq!(variables.items[1].quantity, 4);
            assert_eq!(variables.items[1].shipment_method_id, 7);
        }
        _ => panic!("no query"),
    }
}

#[test]
fn the_order_that_is_inserted_is_pending() {
    match after(14) {
        CreateOrder::InsertOrder { order } => {
            assert_eq!(order.id, 77);
            assert_eq!(order.user_id, 5);
            assert_eq!(order.created_at, NOW);
            assert!(matches!(order.order_status, OrderStatus::Pending));
            assert_eq!(order.placed_at, None);
            assert_eq!(order.rejection_reason, None);
            assert_eq!(order.shipment_address_id, 50);
            assert_eq!(order.invoice_address_id, 51);
            assert_eq!(order.compensatable_order_amount, 449);
            assert_eq!(order.payment_information_id, 60);
            assert_eq!(order.vat_number, "DE123");
            let ids: Vec<u128> = order.internal_order_items.iter().map(|item| item.id).collect();
            assert_eq!(ids, vec![70, 71]);
            let mut variants: Vec<(u128, u64)> = order
                .internal_order_items
                .iter()
                .map(|item| (item.attributes.product_variant.id, item.attributes.count))
                .collect();
            variants.sort();
            assert_eq!(variants, vec![(10, 3), (20, 4)]);
        }
        _ => panic!("no order"),
    }
    assert!(matches!(after(15), CreateOrder::FindOrder { id: 77 }));
}

#[test]
fn the_order_that_is_returned_is_the_one_that_was_inserted() {
    let inserted = match after(14) {
        CreateOrder::InsertOrder { order } => order,
        _ => panic!("no order"),
    };
    let said = format!("{:?}", inserted);
    assert!(matches!(after(15), CreateOrder::FindOrder { id } if id == inserted.id));
    match but(15, CreateOrderReply::Order { found: Ok(inserted) }) {
        CreateOrder::Done { result: Ok(order) } => assert_eq!(format!("{:?}", order), said),
        _ => panic!("no order"),
    }
}

#[test]
fn hidden_product_variants_are_not_ordered() {
    let mut replies = good();
    replies[8] = variants(variant(10, 250, true), variant(20, 199, false));
    replies.truncate(13);
    match run(replies) {
        CreateOrder::BuildOrderItems { attributes, .. } => {
            assert_eq!(attributes.len(), 1);
            assert_eq!(attributes[0].product_variant.id, 10);
            assert_eq!(attributes[0].tax_rate_version.id, 201);
            assert_eq!(attributes[0].internal_discounts.len(), 1);
        }
        _ => panic!("no items"),
    }
}

#[test]
fn refusals_to_authorize_end_the_creation() {
    assert_eq!(failure(but(0, CreateOrderReply::Authorized { checked: Err("not you".to_string()) })), "not you");
}

#[test]
fn unknown_users_order_nothing() {
    assert_eq!(failure(but(1, CreateOrderReply::User { found: Err("nobody".to_string()) })), "nobody");
}

#[test]
fn unknown_objects_end_the_creation() {
    assert_eq!(
        failure(but(2, CreateOrderReply::Objects { found: Ok(vec![6]) })),
        "Value with UUID: `00000000-0000-0000-0000-000000000007` is not present in the system."
    );
    assert_eq!(
        failure(but(3, CreateOrderReply::Objects { found: Err(FindFailure::Find) })),
        "Value with specified UUIDs are not present in the system."
    );
}

#[test]
fn unknown_addresses_end_the_creation() {
    let stranger = || CreateOrderReply::Addressee { found: Some(User { id: 5, user_address_ids: vec![51] }) };
    assert_eq!(
        failure(but(4, stranger())),
        "User address with UUID: `00000000-0000-0000-0000-000000000032` of user with UUID: `00000000-0000-0000-0000-000000000005` not found."
    );
    assert!(matches!(but(5, stranger()), CreateOrder::ReadClock { .. }));
    assert_eq!(
        failure(but(5, CreateOrderReply::Addressee { found: None })),
        "User address with UUID: `00000000-0000-0000-0000-000000000033` of user with UUID: `00000000-0000-0000-0000-000000000005` not found."
    );
}

#[test]
fn carts_without_the_positions_end_the_creation() {
    let empty = CreateOrderReply::ShoppingCart {
        response: Ok(Some(vec![Some(ShoppingCartEntity::User { shoppingcart_items: vec![] })])),
    };
    assert_eq!(
        failure(but(7, empty)),
        "`Value` for product variant of UUID: `00000000-0000-0000-0000-000000000001` is not present in `Map`. "
    );
}

#[test]
fn short_stock_ends_the_creation() {
    assert_eq!(failure(but(9, stock(2, 10))), "Not all requested product variants are available.");
}

#[test]
fn unknown_product_variants_and_tax_rates_end_the_creation() {
    let lost = || Err("lost".to_string());
    assert_eq!(failure(but(8, CreateOrderReply::ProductVariants { found: lost() })), "lost");
    assert_eq!(failure(but(10, CreateOrderReply::TaxRates { found: Err("lost".to_string()) })), "lost");
    assert!(failure(but(10, CreateOrderReply::TaxRates { found: Ok(HashMap::new()) })).starts_with("`Value` for"));
}

#[test]
fn counts_that_wrap_around_are_never_in_stock() {
    let mut replies = good();
    replies[7] = cart(-1);
    replies[9] = stock(i64::MAX, i64::MAX);
    replies.truncate(10);
    assert_eq!(failure(run(replies)), "Not all requested product variants are available.");
}

#[test]
fn answers_without_data_end_the_creation() {
    assert_eq!(
        failure(but(11, CreateOrderReply::Discounts { response: Ok(None) })),
        "Response data of `query_discounts` query is empty."
    );
    assert_eq!(
        failure(but(12, CreateOrderReply::ShipmentFees { response: Ok(None) })),
        "Response data of `query_shipment_fees` query is empty."
    );
    assert_eq!(
        failure(but(12, CreateOrderReply::ShipmentFees { response: Ok(Some(-1)) })),
        "out of range integral type conversion attempted"
    );
}

#[test]
fn shipment_fees_do_not_change_the_items() {
    let items = |fees: i64| match but(12, CreateOrderReply::ShipmentFees { response: Ok(Some(fees)) }) {
        CreateOrder::BuildOrderItems { created_at, attributes, .. } => {
            assert_eq!(created_at, NOW);
            let mut items: Vec<(u128, u128, u128, u64, usize)> = attributes
                .iter()
                .map(|item| {
                    (
                        item.product_variant.id,
                        item.product_variant_version.id,
                        item.tax_rate_version.id,
                        item.count,
                        item.internal_discounts.len(),
                    )
                })
                .collect();
            items.sort();
            items
        }
        _ => panic!("no items"),
    };
    assert_eq!(items(0), vec![(10, 110, 201, 3, 1), (20, 120, 201, 4, 0)]);
    assert_eq!(items(499), items(0));
    assert_eq!(items(i64::MAX), items(0));
    assert_eq!(failure(but(12, CreateOrderReply::ShipmentFees { response: Err("refused".to_string()) })), "refused");
}

#[test]
fn orders_that_are_not_inserted_are_errors() {
    assert_eq!(failure(but(14, CreateOrderReply::Inserted { inserted: Err(()) })), "Adding order failed in MongoDB.");
    assert_eq!(failure(but(15, CreateOrderReply::Order { found: Err("lost".to_string()) })), "lost");
}

#[test]
fn only_fitting_replies_are_taken_when_creating() {
    assert!(!after(0).can_take(&CreateOrderReply::Clock { now: NOW }));
    assert!(!after(7).can_take(&CreateOrderReply::ShoppingCart { response: Ok(Some(vec![])) }));
    assert!(!after(9).can_take(&CreateOrderReply::Stock {
        response: Ok(Some(vec![Some(StockEntity::ProductItem)]))
    }));
    assert!(!after(13).can_take(&CreateOrderReply::OrderItems { order_id: 77, built: vec![] }));
    assert!(!after(13).can_take(&CreateOrderReply::OrderItems {
        order_id: 77,
        built: vec![
            BuiltItem { id: 70, compensatable_amount: u64::MAX },
            BuiltItem { id: 71, compensatable_amount: 1 }
        ]
    }));
    assert!(!run(good()).can_take(&CreateOrderReply::Clock { now: NOW }));
}

#[test]
fn amounts_beyond_thirty_two_bits_are_not_asked_about() {
    let mut replies = good();
    replies[8] = variants(variant(10, u32::MAX, true), variant(20, 1, true));
    replies.truncate(10);
    let state = run(replies);
    assert!(!state.can_take(&tax_rates()));
    assert!(state.can_take(&CreateOrderReply::TaxRates { found: Ok(HashMap::new()) }));
}
