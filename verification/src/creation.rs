//! Creation of orders: a pending order is made of the items of a shopping cart.
//!
//! [`CreateOrder`] is a state machine. Each of its states is something that has to be done outside
//! this library; the reply to it leads to the next state.

use crate::cart::{
    cart_outcome, cart_readable, query_counts_by_product_variant_ids, represents,
    shopping_cart_representations, ShoppingCartEntity,
};
use crate::catalog::{
    current_versions, product_variants_outcome, query_product_variant_versions_by_product_variant_ids,
    query_product_variants_by_product_variant_ids, query_tax_rate_versions_by_product_variant_ids,
    tax_rate_ids, tax_rates_of, tax_rates_outcome,
};
use crate::discounts::{
    all_askable, build_find_applicable_discounts_product_variant_input, by_product_variant,
    checked_order_amount, discount_response_outcome, lemma_not_askable, not_askable, price_total,
    provides_for_all, query_discounts_by_product_variant_ids,
    DiscountsForProductVariant, FindApplicableDiscountsInput, GetDiscounts,
};
use crate::error::{ObjectKind, OrderError};
use crate::insertion::{insert_order_in_mongodb, insertion_outcome, InsertedId};
use crate::inventory::{
    can_read_inventory, check_product_variant_availability, inventory_outcome, inventory_readable,
    product_variant_representations, StockEntity,
};
use crate::items::{
    calculate_compensatable_order_amount, total_amount, zip_to_internal_order_items, AttributeMaps,
};
use crate::keys::{enumerates, keys_of};
use crate::model::{
    views, CreateOrderInput, Order, OrderItem, OrderItemAttributes, OrderItemInput, OrderStatus,
    ProductVariant, ProductVariantVersion, Representation, Response, TaxRate, TaxRateVersion, User,
};
use crate::shipment::{
    build_calculate_shipment_fees_input, query_shipment_fees, shipment_fees_outcome,
    shipment_input_outcome, CalculateShipmentFeesInput,
};
use crate::time::DateTime;
use crate::uuid::Uuid;
use crate::validation::{
    address_outcome, coupon_ids, coupons_of, objects_outcome, shipment_method_ids,
    shipment_methods_of, validate_object, validate_objects, validate_user_address, FindFailure,
};
use std::collections::HashMap;
use vstd::prelude::*;

verus! {

/// An order of which the shopping cart is known.
pub struct CartDraft {
    pub input: CreateOrderInput,
    pub created_at: DateTime,
    /// The product variants that the order is about.
    pub product_variant_ids: Vec<Uuid>,
    pub counts: HashMap<Uuid, u64>,
    pub order_item_inputs: HashMap<Uuid, OrderItemInput>,
}

/// An order of which the product variants are known as well.
pub struct CatalogDraft {
    pub cart: CartDraft,
    pub product_variants: HashMap<Uuid, ProductVariant>,
    pub product_variant_versions: HashMap<Uuid, ProductVariantVersion>,
}

/// What is new about an order item that was built from its attributes.
#[derive(Clone, Copy, Debug)]
pub struct BuiltItem {
    pub id: Uuid,
    pub compensatable_amount: u64,
}

/// The course of creating an order: in each state, what is to be done next.
#[allow(inconsistent_fields)]
pub enum CreateOrder {
    /// Check that the user of the request may act for the user of the order.
    Authorize { input: CreateOrderInput },
    /// Find the user of the order.
    FindUser { input: CreateOrderInput },
    /// Find shipment methods by their UUIDs.
    FindShipmentMethods { input: CreateOrderInput, ids: Vec<Uuid> },
    /// Find coupons by their UUIDs.
    FindCoupons { input: CreateOrderInput, ids: Vec<Uuid> },
    /// Find the user of the order again, for the shipment address.
    FindShipmentAddress { input: CreateOrderInput },
    /// Find the user of the order again, for the invoice address.
    FindInvoiceAddress { input: CreateOrderInput },
    /// Read the clock.
    ReadClock { input: CreateOrderInput },
    /// Query the shopping cart service for the entities.
    QueryShoppingCart {
        input: CreateOrderInput,
        created_at: DateTime,
        representations: Vec<Representation>,
    },
    /// Find the product variants of the draft by their UUIDs.
    FindProductVariants { draft: CartDraft },
    /// Query the inventory service for the entities.
    QueryStock { draft: CatalogDraft, representations: Vec<Representation> },
    /// Find tax rates by their UUIDs.
    FindTaxRates { draft: CatalogDraft, tax_rate_ids: Vec<Uuid> },
    /// Query the discount service.
    QueryDiscounts {
        draft: CatalogDraft,
        tax_rate_versions: HashMap<Uuid, TaxRateVersion>,
        variables: FindApplicableDiscountsInput,
    },
    /// Query the shipment service.
    QueryShipmentFees {
        input: CreateOrderInput,
        created_at: DateTime,
        maps: AttributeMaps,
        variables: CalculateShipmentFeesInput,
    },
    /// Build order items from the attributes, one by one, and name them and the order.
    BuildOrderItems {
        input: CreateOrderInput,
        created_at: DateTime,
        attributes: Vec<OrderItemAttributes>,
    },
    /// Insert the order in the database.
    InsertOrder { order: Order },
    /// Find the order by its UUID.
    FindOrder { id: Uuid },
    /// Nothing; this is the result.
    Done { result: Result<Order, OrderError> },
}

/// What came of what was to be done.
#[allow(inconsistent_fields)]
pub enum CreateOrderReply {
    /// Whether the user is authorized, or the words of the refusal.
    Authorized { checked: Result<(), String> },
    /// The user who was looked for, or the words of the failure.
    User { found: Result<User, String> },
    /// The UUIDs of the objects that were found.
    Objects { found: Result<Vec<Uuid>, FindFailure> },
    /// The user who was looked for; nobody if there is none, or if the database failed.
    Addressee { found: Option<User> },
    /// The time.
    Clock { now: DateTime },
    /// The answer of the shopping cart service.
    ShoppingCart { response: Response<Vec<Option<ShoppingCartEntity>>> },
    /// The product variants that were found, by their UUIDs, or the words of the failure.
    ProductVariants { found: Result<HashMap<Uuid, ProductVariant>, String> },
    /// The answer of the inventory service.
    Stock { response: Response<Vec<Option<StockEntity>>> },
    /// The tax rates that were found, by their UUIDs, or the words of the failure.
    TaxRates { found: Result<HashMap<Uuid, TaxRate>, String> },
    /// The answer of the discount service.
    Discounts { response: Response<Vec<DiscountsForProductVariant>> },
    /// The answer of the shipment service.
    ShipmentFees { response: Response<i64> },
    /// What is new about each order item, and the UUID of the order.
    OrderItems { order_id: Uuid, built: Vec<BuiltItem> },
    /// The BSON value by which the database names the order, unless it refused it.
    Inserted { inserted: Result<InsertedId, ()> },
    /// The order that was looked for, or the words of the failure.
    Order { found: Result<Order, String> },
}

/// Whether each product variant version has its tax rate among those that were found.
pub open spec fn tax_rates_known(
    versions: Map<Uuid, ProductVariantVersion>,
    found: Result<HashMap<Uuid, TaxRate>, String>,
) -> bool {
    found matches Ok(tax_rates) && forall|id: Uuid| #[trigger]
        versions.contains_key(id) ==> tax_rates@.contains_key(versions[id].tax_rate_id)
}

/// What built items cost together.
pub open spec fn built_total(built: Seq<BuiltItem>) -> nat
    decreases built.len(),
{
    if built.len() == 0 {
        0
    } else {
        built_total(built.drop_last()) + built.last().compensatable_amount as nat
    }
}

/// The order item that is built from attributes.
pub open spec fn item_of(attributes: OrderItemAttributes, built: BuiltItem) -> OrderItem {
    OrderItem { id: built.id, attributes, compensatable_amount: built.compensatable_amount }
}

/// Whether `order` is the pending order that an input and the items built for it amount to.
pub open spec fn is_new_order(
    order: Order,
    input: CreateOrderInput,
    created_at: DateTime,
    attributes: Seq<OrderItemAttributes>,
    order_id: Uuid,
    built: Seq<BuiltItem>,
) -> bool {
    &&& order.id == order_id
    &&& order.user_id == input.user_id
    &&& order.created_at == created_at
    &&& order.order_status == OrderStatus::Pending
    &&& order.placed_at is None
    &&& order.rejection_reason is None
    &&& order.internal_order_items@ == Seq::new(attributes.len(), |i: int| item_of(attributes[i], built[i]))
    &&& order.shipment_address_id == input.shipment_address_id
    &&& order.invoice_address_id == input.invoice_address_id
    &&& order.compensatable_order_amount == total_amount(order.internal_order_items@)
    &&& order.payment_information_id == input.payment_information_id
    &&& order.vat_number == input.vat_number
}

impl CreateOrder {
    /// Whether a reply answers what is to be done, and can be made something of.
    pub open spec fn accepts(self, reply: CreateOrderReply) -> bool {
        match self {
            CreateOrder::Authorize { .. } => reply is Authorized,
            CreateOrder::FindUser { .. } => reply is User,
            CreateOrder::FindShipmentMethods { .. } => reply is Objects,
            CreateOrder::FindCoupons { .. } => reply is Objects,
            CreateOrder::FindShipmentAddress { .. } => reply is Addressee,
            CreateOrder::FindInvoiceAddress { .. } => reply is Addressee,
            CreateOrder::ReadClock { .. } => reply is Clock,
            CreateOrder::QueryShoppingCart { .. } => reply matches CreateOrderReply::ShoppingCart { response }
                && cart_readable(response),
            CreateOrder::FindProductVariants { .. } => reply is ProductVariants,
            CreateOrder::QueryStock { .. } => reply matches CreateOrderReply::Stock { response }
                && inventory_readable(response),
            CreateOrder::FindTaxRates { draft, .. } => reply matches CreateOrderReply::TaxRates { found } && {
                tax_rates_known(draft.product_variant_versions@, found) && all_askable(
                    draft.cart.order_item_inputs@,
                    draft.cart.counts@,
                    draft.cart.product_variant_ids@,
                ) ==> price_total(draft.product_variant_versions@) <= u32::MAX
            },
            CreateOrder::QueryDiscounts { .. } => reply is Discounts,
            CreateOrder::QueryShipmentFees { .. } => reply is ShipmentFees,
            CreateOrder::BuildOrderItems { attributes, .. } => reply matches CreateOrderReply::OrderItems {
                built,
                ..
            } && built@.len() == attributes@.len() && built_total(built@) <= u64::MAX,
            CreateOrder::InsertOrder { .. } => reply is Inserted,
            CreateOrder::FindOrder { .. } => reply is Order,
            CreateOrder::Done { .. } => false,
        }
    }

    /// The end of the course in an error.
    pub open spec fn failed(error: OrderError) -> CreateOrder {
        CreateOrder::Done { result: Err(error) }
    }

    /// Whether a reply leads to the state `next`.
    pub open spec fn leads_to(self, reply: CreateOrderReply, next: CreateOrder) -> bool {
        match (self, reply) {
            (CreateOrder::Authorize { input }, CreateOrderReply::Authorized { checked }) => match checked {
                Ok(()) => next == CreateOrder::FindUser { input },
                Err(text) => next == Self::failed(OrderError::Reported { text }),
            },
            (CreateOrder::FindUser { input }, CreateOrderReply::User { found }) => match found {
                Ok(_) => next matches CreateOrder::FindShipmentMethods { input: same, ids } && same == input
                    && ids@ == shipment_methods_of(input.order_item_inputs@),
                Err(text) => next == Self::failed(OrderError::Reported { text }),
            },
            (CreateOrder::FindShipmentMethods { input, ids }, CreateOrderReply::Objects { found }) => match next {
                CreateOrder::FindCoupons { input: same, ids: coupon_ids } => {
                    &&& objects_outcome(ObjectKind::ShipmentMethod, ids@, found, Ok(()))
                    &&& same == input
                    &&& coupon_ids@ == coupons_of(input.order_item_inputs@)
                },
                CreateOrder::Done { result: Err(error) } => objects_outcome(
                    ObjectKind::ShipmentMethod,
                    ids@,
                    found,
                    Err(error),
                ),
                _ => false,
            },
            (CreateOrder::FindCoupons { input, ids }, CreateOrderReply::Objects { found }) => match next {
                CreateOrder::FindShipmentAddress { input: same } => {
                    &&& objects_outcome(ObjectKind::Coupon, ids@, found, Ok(()))
                    &&& same == input
                },
                CreateOrder::Done { result: Err(error) } => objects_outcome(
                    ObjectKind::Coupon,
                    ids@,
                    found,
                    Err(error),
                ),
                _ => false,
            },
            (CreateOrder::FindShipmentAddress { input }, CreateOrderReply::Addressee { found }) => match next {
                CreateOrder::FindInvoiceAddress { input: same } => {
                    &&& address_outcome(input.shipment_address_id, input.user_id, found, Ok(()))
                    &&& same == input
                },
                CreateOrder::Done { result: Err(error) } => address_outcome(
                    input.shipment_address_id,
                    input.user_id,
                    found,
                    Err(error),
                ),
                _ => false,
            },
            (CreateOrder::FindInvoiceAddress { input }, CreateOrderReply::Addressee { found }) => match next {
                CreateOrder::ReadClock { input: same } => {
                    &&& address_outcome(input.invoice_address_id, input.user_id, found, Ok(()))
                    &&& same == input
                },
                CreateOrder::Done { result: Err(error) } => address_outcome(
                    input.invoice_address_id,
                    input.user_id,
                    found,
                    Err(error),
                ),
                _ => false,
            },
            (CreateOrder::ReadClock { input }, CreateOrderReply::Clock { now }) => {
                &&& next matches CreateOrder::QueryShoppingCart { input: same, created_at, representations }
                &&& same == input
                &&& created_at == now
                &&& representations@.len() == 1
                &&& represents(representations@[0], "User"@, input.user_id)
            },
            (
                CreateOrder::QueryShoppingCart { input, created_at, .. },
                CreateOrderReply::ShoppingCart { response },
            ) => match next {
                CreateOrder::FindProductVariants { draft } => {
                    &&& cart_outcome(
                        views(input.order_item_inputs@),
                        response,
                        Ok((draft.counts, draft.order_item_inputs)),
                    )
                    &&& draft.input == input
                    &&& draft.created_at == created_at
                    &&& enumerates(draft.product_variant_ids@, draft.counts@.dom())
                },
                CreateOrder::Done { result: Err(error) } => cart_outcome(
                    views(input.order_item_inputs@),
                    response,
                    Err(error),
                ),
                _ => false,
            },
            (CreateOrder::FindProductVariants { draft }, CreateOrderReply::ProductVariants { found }) => match next {
                CreateOrder::QueryStock { draft: catalog, representations } => {
                    &&& product_variants_outcome(found, Ok(catalog.product_variants))
                    &&& catalog.product_variant_versions@ == current_versions(catalog.product_variants@)
                    &&& catalog.cart == draft
                    &&& representations@.len() == draft.product_variant_ids@.len()
                    &&& forall|i: int|
                        0 <= i < draft.product_variant_ids@.len() ==> represents(
                            #[trigger] representations@[i],
                            "ProductVariant"@,
                            draft.product_variant_ids@[i],
                        )
                },
                CreateOrder::Done { result: Err(error) } => product_variants_outcome(found, Err(error)),
                _ => false,
            },
            (CreateOrder::QueryStock { draft, .. }, CreateOrderReply::Stock { response }) => match next {
                CreateOrder::FindTaxRates { draft: same, tax_rate_ids } => {
                    &&& inventory_outcome(response, draft.cart.counts@, Ok(()))
                    &&& same == draft
                    &&& tax_rates_of(draft.product_variant_versions@, tax_rate_ids@)
                },
                CreateOrder::Done { result: Err(error) } => inventory_outcome(
                    response,
                    draft.cart.counts@,
                    Err(error),
                ),
                _ => false,
            },
            (CreateOrder::FindTaxRates { draft, .. }, CreateOrderReply::TaxRates { found }) => match next {
                CreateOrder::QueryDiscounts { draft: same, tax_rate_versions, variables } => {
                    &&& tax_rates_outcome(draft.product_variant_versions@, found, Ok(tax_rate_versions))
                    &&& same == draft
                    &&& GetDiscounts::asks(
                        draft.cart.input.user_id,
                        draft.cart.order_item_inputs@,
                        draft.cart.product_variant_ids@,
                        draft.product_variant_versions@,
                        draft.cart.counts@,
                        Ok(variables),
                    )
                },
                CreateOrder::Done { result: Err(error) } => {
                    ||| tax_rates_outcome(draft.product_variant_versions@, found, Err(error))
                    ||| tax_rates_known(draft.product_variant_versions@, found) && not_askable(
                        draft.cart.order_item_inputs@,
                        draft.cart.counts@,
                        draft.cart.product_variant_ids@,
                        error,
                    )
                },
                _ => false,
            },
            (
                CreateOrder::QueryDiscounts { draft, tax_rate_versions, .. },
                CreateOrderReply::Discounts { response },
            ) => match next {
                CreateOrder::QueryShipmentFees { input, created_at, maps, variables } => {
                    &&& discount_response_outcome(
                        response,
                        draft.cart.product_variant_ids@,
                        Ok(maps.discounts),
                    )
                    &&& input == draft.cart.input
                    &&& created_at == draft.cart.created_at
                    &&& maps.counts == draft.cart.counts
                    &&& maps.order_item_inputs == draft.cart.order_item_inputs
                    &&& maps.product_variants == draft.product_variants
                    &&& maps.product_variant_versions == draft.product_variant_versions
                    &&& maps.tax_rate_versions == tax_rate_versions
                    &&& shipment_input_outcome(
                        draft.product_variant_versions@,
                        draft.cart.counts@,
                        draft.cart.order_item_inputs@,
                        Ok(variables),
                    )
                },
                CreateOrder::Done { result: Err(error) } => {
                    ||| discount_response_outcome(response, draft.cart.product_variant_ids@, Err(error))
                    ||| response matches Ok(Some(lists)) && provides_for_all(
                        by_product_variant(lists@),
                        draft.cart.product_variant_ids@,
                    ) && shipment_input_outcome(
                        draft.product_variant_versions@,
                        draft.cart.counts@,
                        draft.cart.order_item_inputs@,
                        Err(error),
                    )
                },
                _ => false,
            },
            (
                CreateOrder::QueryShipmentFees { input, created_at, maps, .. },
                CreateOrderReply::ShipmentFees { response },
            ) => match next {
                CreateOrder::BuildOrderItems { input: same, created_at: then_at, attributes } => {
                    &&& response matches Ok(Some(fees))
                    &&& fees >= 0
                    &&& maps.zips_to(Ok(attributes), created_at)
                    &&& same == input
                    &&& then_at == created_at
                },
                CreateOrder::Done { result: Err(error) } => {
                    ||| shipment_fees_outcome(response, Err(error))
                    ||| response matches Ok(Some(fees)) && fees >= 0 && maps.zips_to(Err(error), created_at)
                },
                _ => false,
            },
            (
                CreateOrder::BuildOrderItems { input, created_at, attributes },
                CreateOrderReply::OrderItems { order_id, built },
            ) => next matches CreateOrder::InsertOrder { order } && is_new_order(
                order,
                input,
                created_at,
                attributes@,
                order_id,
                built@,
            ),
            (CreateOrder::InsertOrder { .. }, CreateOrderReply::Inserted { inserted }) => match next {
                CreateOrder::FindOrder { id } => insertion_outcome(inserted, Ok(id)),
                CreateOrder::Done { result: Err(error) } => insertion_outcome(inserted, Err(error)),
                _ => false,
            },
            (CreateOrder::FindOrder { .. }, CreateOrderReply::Order { found }) => match found {
                Ok(order) => next == (CreateOrder::Done { result: Ok(order) }),
                Err(text) => next == Self::failed(OrderError::Reported { text }),
            },
            _ => false,
        }
    }
}

/// Assembles a draft of an order from the answer of the shopping cart service.
fn read_shopping_cart(
    input: CreateOrderInput,
    created_at: DateTime,
    response: Response<Vec<Option<ShoppingCartEntity>>>,
    representations: Vec<Representation>,
) -> (next: CreateOrder)
    requires
        cart_readable(response),
    ensures
        (CreateOrder::QueryShoppingCart { input, created_at, representations }).leads_to(
            CreateOrderReply::ShoppingCart { response },
            next,
        ),
{
    match query_counts_by_product_variant_ids(&input.order_item_inputs, response) {
        Err(error) => CreateOrder::Done { result: Err(error) },
        Ok((counts, order_item_inputs)) => {
            let product_variant_ids: Vec<Uuid> = keys_of(&counts);
            CreateOrder::FindProductVariants {
                draft: CartDraft { input, created_at, product_variant_ids, counts, order_item_inputs },
            }
        },
    }
}

/// Adds product variants to a draft of an order.
fn read_product_variants(draft: CartDraft, found: Result<HashMap<Uuid, ProductVariant>, String>) -> (next:
    CreateOrder)
    ensures
        (CreateOrder::FindProductVariants { draft }).leads_to(
            CreateOrderReply::ProductVariants { found },
            next,
        ),
{
    match query_product_variants_by_product_variant_ids(found) {
        Err(error) => CreateOrder::Done { result: Err(error) },
        Ok(product_variants) => {
            let product_variant_versions = query_product_variant_versions_by_product_variant_ids(
                &product_variants,
            );
            let representations = product_variant_representations(&draft.product_variant_ids);
            CreateOrder::QueryStock {
                draft: CatalogDraft { cart: draft, product_variants, product_variant_versions },
                representations,
            }
        },
    }
}

/// Holds a draft of an order against the stock.
fn read_stock(
    draft: CatalogDraft,
    representations: Vec<Representation>,
    response: Response<Vec<Option<StockEntity>>>,
) -> (next: CreateOrder)
    requires
        inventory_readable(response),
    ensures
        (CreateOrder::QueryStock { draft, representations }).leads_to(
            CreateOrderReply::Stock { response },
            next,
        ),
{
    match check_product_variant_availability(response, &draft.cart.counts) {
        Err(error) => CreateOrder::Done { result: Err(error) },
        Ok(()) => {
            let tax_rate_ids: Vec<Uuid> = tax_rate_ids(&draft.product_variant_versions);
            CreateOrder::FindTaxRates { draft, tax_rate_ids }
        },
    }
}

/// Adds tax rates to a draft of an order.
fn read_tax_rates(
    draft: CatalogDraft,
    tax_rate_ids: Vec<Uuid>,
    found: Result<HashMap<Uuid, TaxRate>, String>,
) -> (next: CreateOrder)
    requires
        (CreateOrder::FindTaxRates { draft, tax_rate_ids }).accepts(CreateOrderReply::TaxRates { found }),
    ensures
        (CreateOrder::FindTaxRates { draft, tax_rate_ids }).leads_to(
            CreateOrderReply::TaxRates { found },
            next,
        ),
{
    match query_tax_rate_versions_by_product_variant_ids(&draft.product_variant_versions, found) {
        Err(error) => CreateOrder::Done { result: Err(error) },
        Ok(tax_rate_versions) => {
            match GetDiscounts::variables(
                draft.cart.input.user_id,
                &draft.cart.order_item_inputs,
                &draft.cart.product_variant_ids,
                &draft.product_variant_versions,
                &draft.cart.counts,
            ) {
                Err(error) => CreateOrder::Done { result: Err(error) },
                Ok(variables) => CreateOrder::QueryDiscounts { draft, tax_rate_versions, variables },
            }
        },
    }
}

/// Completes the attributes of order items by their discounts.
fn read_discounts(
    draft: CatalogDraft,
    tax_rate_versions: HashMap<Uuid, TaxRateVersion>,
    variables: FindApplicableDiscountsInput,
    response: Response<Vec<DiscountsForProductVariant>>,
) -> (next: CreateOrder)
    ensures
        (CreateOrder::QueryDiscounts { draft, tax_rate_versions, variables }).leads_to(
            CreateOrderReply::Discounts { response },
            next,
        ),
{
    match query_discounts_by_product_variant_ids(response, &draft.cart.product_variant_ids) {
        Err(error) => CreateOrder::Done { result: Err(error) },
        Ok(discounts) => {
            match build_calculate_shipment_fees_input(
                &draft.product_variant_versions,
                &draft.cart.counts,
                &draft.cart.order_item_inputs,
            ) {
                Err(error) => CreateOrder::Done { result: Err(error) },
                Ok(variables) => CreateOrder::QueryShipmentFees {
                    input: draft.cart.input,
                    created_at: draft.cart.created_at,
                    maps: AttributeMaps {
                        counts: draft.cart.counts,
                        order_item_inputs: draft.cart.order_item_inputs,
                        product_variants: draft.product_variants,
                        product_variant_versions: draft.product_variant_versions,
                        tax_rate_versions,
                        discounts,
                    },
                    variables,
                },
            }
        },
    }
}

/// Checks that there are shipment fees, and zips the attributes of order items.
fn read_shipment_fees(
    input: CreateOrderInput,
    created_at: DateTime,
    maps: AttributeMaps,
    variables: CalculateShipmentFeesInput,
    response: Response<i64>,
) -> (next: CreateOrder)
    ensures
        (CreateOrder::QueryShipmentFees { input, created_at, maps, variables }).leads_to(
            CreateOrderReply::ShipmentFees { response },
            next,
        ),
{
    match query_shipment_fees(response) {
        Err(error) => CreateOrder::Done { result: Err(error) },
        Ok(_) => match zip_to_internal_order_items(&maps, created_at) {
            Err(error) => CreateOrder::Done { result: Err(error) },
            Ok(attributes) => CreateOrder::BuildOrderItems { input, created_at, attributes },
        },
    }
}

proof fn lemma_totals_agree(items: Seq<OrderItem>, built: Seq<BuiltItem>)
    requires
        items.len() == built.len(),
        forall|i: int|
            0 <= i < items.len() ==> (#[trigger] items[i]).compensatable_amount
                == built[i].compensatable_amount,
    ensures
        total_amount(items) == built_total(built),
    decreases items.len(),
{
    if items.len() > 0 {
        lemma_totals_agree(items.drop_last(), built.drop_last());
    }
}

/// Builds a pending order.
fn build_order(
    input: CreateOrderInput,
    created_at: DateTime,
    attributes: Vec<OrderItemAttributes>,
    order_id: Uuid,
    built: &Vec<BuiltItem>,
) -> (order: Order)
    requires
        built@.len() == attributes@.len(),
        built_total(built@) <= u64::MAX,
    ensures
        is_new_order(order, input, created_at, attributes@, order_id, built@),
{
    let ghost all = attributes@;
    let mut internal_order_items: Vec<OrderItem> = Vec::new();
    for item in it: attributes
        invariant
            it.seq() == all,
            built@.len() == all.len(),
            internal_order_items@.len() == it.index(),
            forall|i: int|
                0 <= i < it.index() ==> #[trigger] internal_order_items@[i] == item_of(all[i], built@[i]),
    {
        let index: usize = internal_order_items.len();
        internal_order_items.push(
            OrderItem {
                id: built[index].id,
                attributes: item,
                compensatable_amount: built[index].compensatable_amount,
            },
        );
    }
    proof {
        lemma_totals_agree(internal_order_items@, built@);
        assert(internal_order_items@ =~= Seq::new(all.len(), |i: int| item_of(all[i], built@[i])));
    }
    let compensatable_order_amount: u64 = calculate_compensatable_order_amount(&internal_order_items);
    Order {
        id: order_id,
        user_id: input.user_id,
        created_at,
        order_status: OrderStatus::Pending,
        placed_at: None,
        rejection_reason: None,
        internal_order_items,
        shipment_address_id: input.shipment_address_id,
        invoice_address_id: input.invoice_address_id,
        compensatable_order_amount,
        payment_information_id: input.payment_information_id,
        vat_number: input.vat_number,
    }
}

/// Tells whether each product variant version has its tax rate among those that were found.
fn knows_tax_rates(
    versions: &HashMap<Uuid, ProductVariantVersion>,
    found: &Result<HashMap<Uuid, TaxRate>, String>,
) -> (known: bool)
    ensures
        known == tax_rates_known(versions@, *found),
{
    let tax_rates = match found {
        Ok(tax_rates) => tax_rates,
        Err(_) => {
            return false;
        },
    };
    let ids: Vec<Uuid> = keys_of(versions);
    let mut i: usize = 0;
    while i < ids.len()
        invariant
            *found == Ok::<HashMap<Uuid, TaxRate>, String>(*tax_rates),
            i <= ids@.len(),
            ids@.to_set() == versions@.dom(),
            forall|j: int|
                0 <= j < i ==> tax_rates@.contains_key(versions@[#[trigger] ids@[j]].tax_rate_id),
        decreases ids.len() - i,
    {
        proof {
            crate::keys::lemma_step(ids@, i as int);
        }
        assert(versions@.contains_key(ids@[i as int]));
        if !tax_rates.contains_key(&versions.get(&ids[i]).unwrap().tax_rate_id) {
            return false;
        }
        i += 1;
    }
    assert forall|id: Uuid| #[trigger] versions@.contains_key(id) implies tax_rates@.contains_key(
        versions@[id].tax_rate_id,
    ) by {
        assert(ids@.to_set().contains(id));
    }
    true
}

proof fn lemma_built_total_of_prefix(built: Seq<BuiltItem>, len: int)
    requires
        0 <= len <= built.len(),
    ensures
        built_total(built.take(len)) <= built_total(built),
    decreases built.len() - len,
{
    if len < built.len() {
        lemma_built_total_of_prefix(built, len + 1);
        assert(built.take(len + 1).drop_last() =~= built.take(len));
    } else {
        assert(built.take(len) =~= built);
    }
}

/// Tells whether what built items cost together is in range.
fn total_fits(built: &Vec<BuiltItem>) -> (fits: bool)
    ensures
        fits == (built_total(built@) <= u64::MAX),
{
    let mut total: u64 = 0;
    let mut i: usize = 0;
    while i < built.len()
        invariant
            i <= built@.len(),
            total == built_total(built@.take(i as int)),
        decreases built.len() - i,
    {
        proof {
            lemma_built_total_of_prefix(built@, i + 1);
            assert(built@.take(i + 1).drop_last() =~= built@.take(i as int));
        }
        match total.checked_add(built[i].compensatable_amount) {
            Some(sum) => {
                total = sum;
            },
            None => {
                return false;
            },
        }
        i += 1;
    }
    assert(built@.take(i as int) =~= built@);
    true
}

impl CreateOrder {
    /// Tells whether a reply answers what is to be done, and can be made something of.
    pub fn can_take(&self, reply: &CreateOrderReply) -> (taken: bool)
        ensures
            taken == self.accepts(*reply),
    {
        match (self, reply) {
            (CreateOrder::Authorize { .. }, CreateOrderReply::Authorized { .. }) => true,
            (CreateOrder::FindUser { .. }, CreateOrderReply::User { .. }) => true,
            (CreateOrder::FindShipmentMethods { .. }, CreateOrderReply::Objects { .. }) => true,
            (CreateOrder::FindCoupons { .. }, CreateOrderReply::Objects { .. }) => true,
            (CreateOrder::FindShipmentAddress { .. }, CreateOrderReply::Addressee { .. }) => true,
            (CreateOrder::FindInvoiceAddress { .. }, CreateOrderReply::Addressee { .. }) => true,
            (CreateOrder::ReadClock { .. }, CreateOrderReply::Clock { .. }) => true,
            (CreateOrder::QueryShoppingCart { .. }, CreateOrderReply::ShoppingCart { response }) => {
                match response {
                    Ok(Some(entities)) => entities.len() > 0,
                    _ => true,
                }
            },
            (CreateOrder::FindProductVariants { .. }, CreateOrderReply::ProductVariants { .. }) => true,
            (CreateOrder::QueryStock { .. }, CreateOrderReply::Stock { response }) => can_read_inventory(
                response,
            ),
            (CreateOrder::FindTaxRates { draft, .. }, CreateOrderReply::TaxRates { found }) => {
                if knows_tax_rates(&draft.product_variant_versions, found) {
                    match build_find_applicable_discounts_product_variant_input(
                        &draft.cart.order_item_inputs,
                        &draft.cart.product_variant_ids,
                        &draft.cart.counts,
                    ) {
                        Ok(_) => checked_order_amount(&draft.product_variant_versions).is_some(),
                        Err(error) => {
                            proof {
                                lemma_not_askable(
                                    draft.cart.order_item_inputs@,
                                    draft.cart.counts@,
                                    draft.cart.product_variant_ids@,
                                    error,
                                );
                            }
                            true
                        },
                    }
                } else {
                    true
                }
            },
            (CreateOrder::QueryDiscounts { .. }, CreateOrderReply::Discounts { .. }) => true,
            (CreateOrder::QueryShipmentFees { .. }, CreateOrderReply::ShipmentFees { .. }) => true,
            (
                CreateOrder::BuildOrderItems { attributes, .. },
                CreateOrderReply::OrderItems { built, .. },
            ) => built.len() == attributes.len() && total_fits(built),
            (CreateOrder::InsertOrder { .. }, CreateOrderReply::Inserted { .. }) => true,
            (CreateOrder::FindOrder { .. }, CreateOrderReply::Order { .. }) => true,
            _ => false,
        }
    }

    /// Takes a reply, and tells what is to be done next.
    pub fn step(self, reply: CreateOrderReply) -> (next: CreateOrder)
        requires
            self.accepts(reply),
        ensures
            self.leads_to(reply, next),
    {
        match (self, reply) {
            (CreateOrder::Authorize { input }, CreateOrderReply::Authorized { checked }) => match checked {
                Ok(()) => CreateOrder::FindUser { input },
                Err(text) => CreateOrder::Done { result: Err(OrderError::Reported { text }) },
            },
            (CreateOrder::FindUser { input }, CreateOrderReply::User { found }) => {
                match validate_object(found) {
                    Ok(()) => {
                        let ids: Vec<Uuid> = shipment_method_ids(&input.order_item_inputs);
                        CreateOrder::FindShipmentMethods { input, ids }
                    },
                    Err(error) => CreateOrder::Done { result: Err(error) },
                }
            },
            (CreateOrder::FindShipmentMethods { input, ids }, CreateOrderReply::Objects { found }) => {
                match validate_objects(ObjectKind::ShipmentMethod, &ids, found) {
                    Ok(()) => {
                        let ids: Vec<Uuid> = coupon_ids(&input.order_item_inputs);
                        CreateOrder::FindCoupons { input, ids }
                    },
                    Err(error) => CreateOrder::Done { result: Err(error) },
                }
            },
            (CreateOrder::FindCoupons { input, ids }, CreateOrderReply::Objects { found }) => {
                match validate_objects(ObjectKind::Coupon, &ids, found) {
                    Ok(()) => CreateOrder::FindShipmentAddress { input },
                    Err(error) => CreateOrder::Done { result: Err(error) },
                }
            },
            (CreateOrder::FindShipmentAddress { input }, CreateOrderReply::Addressee { found }) => {
                match validate_user_address(input.shipment_address_id, input.user_id, &found) {
                    Ok(()) => CreateOrder::FindInvoiceAddress { input },
                    Err(error) => CreateOrder::Done { result: Err(error) },
                }
            },
            (CreateOrder::FindInvoiceAddress { input }, CreateOrderReply::Addressee { found }) => {
                match validate_user_address(input.invoice_address_id, input.user_id, &found) {
                    Ok(()) => CreateOrder::ReadClock { input },
                    Err(error) => CreateOrder::Done { result: Err(error) },
                }
            },
            (CreateOrder::ReadClock { input }, CreateOrderReply::Clock { now }) => {
                let representations = shopping_cart_representations(input.user_id);
                CreateOrder::QueryShoppingCart { input, created_at: now, representations }
            },
            (
                CreateOrder::QueryShoppingCart { input, created_at, representations },
                CreateOrderReply::ShoppingCart { response },
            ) => read_shopping_cart(input, created_at, response, representations),
            (CreateOrder::FindProductVariants { draft }, CreateOrderReply::ProductVariants { found }) =>
                read_product_variants(draft, found),
            (CreateOrder::QueryStock { draft, representations }, CreateOrderReply::Stock { response }) =>
                read_stock(draft, representations, response),
            (CreateOrder::FindTaxRates { draft, tax_rate_ids }, CreateOrderReply::TaxRates { found }) =>
                read_tax_rates(draft, tax_rate_ids, found),
            (
                CreateOrder::QueryDiscounts { draft, tax_rate_versions, variables },
                CreateOrderReply::Discounts { response },
            ) => read_discounts(draft, tax_rate_versions, variables, response),
            (
                CreateOrder::QueryShipmentFees { input, created_at, maps, variables },
                CreateOrderReply::ShipmentFees { response },
            ) => read_shipment_fees(input, created_at, maps, variables, response),
            (
                CreateOrder::BuildOrderItems { input, created_at, attributes },
                CreateOrderReply::OrderItems { order_id, built },
            ) => CreateOrder::InsertOrder {
                order: build_order(input, created_at, attributes, order_id, &built),
            },
            (CreateOrder::InsertOrder { .. }, CreateOrderReply::Inserted { inserted }) => {
                match insert_order_in_mongodb(inserted) {
                    Ok(id) => CreateOrder::FindOrder { id },
                    Err(error) => CreateOrder::Done { result: Err(error) },
                }
            },
            (CreateOrder::FindOrder { .. }, CreateOrderReply::Order { found }) => match found {
                Ok(order) => CreateOrder::Done { result: Ok(order) },
                Err(text) => CreateOrder::Done { result: Err(OrderError::Reported { text }) },
            },
            (state, _) => state,
        }
    }
}

/// What built items cost together is a sum: nothing for no items, its own amount for one, and for two
/// lists one after the other what the one costs and what the other costs.
pub proof fn built_amounts_add_up(a: Seq<BuiltItem>, b: Seq<BuiltItem>, item: BuiltItem)
    ensures
        built_total(Seq::<BuiltItem>::empty()) == 0,
        built_total(seq![item]) == item.compensatable_amount,
        built_total(a + b) == built_total(a) + built_total(b),
    decreases b.len(),
{
    assert(seq![item].drop_last() =~= Seq::<BuiltItem>::empty());
    if b.len() > 0 {
        assert((a + b).drop_last() =~= a + b.drop_last());
        built_amounts_add_up(a, b.drop_last(), item);
    } else {
        assert(a + b =~= a);
    }
}

} // verus!
