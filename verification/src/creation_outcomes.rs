//! What each reply means for the creation of an order, said of what the reply holds.

use crate::cart::{
    item_ids, positions_are_filled_from_the_cart, settles, ShoppingCartEntity, ShoppingCartItem,
};
use crate::catalog::{
    all_tax_rates_are_looked_for, nothing_visible_is_lost, versions_are_those_of_the_product_variants,
    versions_get_the_tax_rates_they_name,
};
use crate::creation::{built_total, CreateOrder, CreateOrderReply};
use crate::creation_laws::creation_ends;
use crate::discounts::{
    all_askable, by_product_variant, discount_input_failure, discounts_are_those_of_the_last_list,
    last_lists_count, listed_ids, not_askable, price_total, product_variants_are_asked_about_one_by_one,
    provides_for_all, DiscountsForProductVariant,
};
use crate::error::{EntryKind, ObjectKind, OrderError};
use crate::inventory::{
    all_in_order, all_tell_stock, answers_can_be_read_up_to_a_product_item, stock_failure, stock_ids,
    stocks_decide, StockEntity,
};
use crate::items::items_get_what_the_maps_say;
use crate::keys::{is_last, lemma_has_last};
use crate::model::{
    views, CreateOrderInput, Discount, OrderItem, OrderItemAttributes, OrderStatus, ProductVariant, TaxRate,
};
use crate::shipment::every_version_is_shipped_once;
use crate::uuid::{uuid_text, Uuid};
use crate::validation::{
    all_coupons_are_looked_for, all_shipment_methods_are_looked_for, coupons_of,
    objects_are_not_there_if_the_search_fails, objects_are_there_if_each_was_found, FindFailure,
};
use std::collections::HashMap;
use vstd::prelude::*;

verus! {

/// Authorization decides whether an order is created at all, and a refusal is passed on.
pub proof fn authorization_decides(state: CreateOrder, reply: CreateOrderReply, next: CreateOrder)
    requires
        state is Authorize,
        state.takes(reply, next),
    ensures
        reply matches CreateOrderReply::Authorized { checked } && match checked {
            Ok(()) => next == (CreateOrder::FindUser { input: state->Authorize_input }),
            Err(text) => next == (CreateOrder::Done { result: Err(OrderError::Reported { text }) }),
        },
{
}

/// When the user was found, the shipment methods of all positions are looked for. Otherwise the failure
/// is passed on.
pub proof fn known_users_go_on(state: CreateOrder, reply: CreateOrderReply, next: CreateOrder)
    requires
        state is FindUser,
        state.takes(reply, next),
    ensures
        reply matches CreateOrderReply::User { found } && match found {
            Ok(_) => next matches CreateOrder::FindShipmentMethods { input, ids } && {
                &&& input == state->FindUser_input
                &&& ids@.len() == input.order_item_inputs@.len()
                &&& forall|i: int|
                    0 <= i < ids@.len() ==> #[trigger] ids@[i] == input.order_item_inputs@[i].shipment_method_id
            },
            Err(text) => next == (CreateOrder::Done { result: Err(OrderError::Reported { text }) }),
        },
{
    all_shipment_methods_are_looked_for(state->FindUser_input.order_item_inputs@);
}

/// When each shipment method was found, the coupons of all positions are looked for, and no others.
/// Otherwise the creation ends.
pub proof fn known_shipment_methods_go_on(state: CreateOrder, reply: CreateOrderReply, next: CreateOrder)
    requires
        state is FindShipmentMethods,
        state.takes(reply, next),
    ensures
        reply matches CreateOrderReply::Objects { found } && match found {
            Ok(there) => if forall|i: int|
                0 <= i < state->FindShipmentMethods_ids@.len() ==> there@.contains(
                    #[trigger] state->FindShipmentMethods_ids@[i],
                ) {
                next matches CreateOrder::FindCoupons { input, ids } && {
                    &&& input == state->FindShipmentMethods_input
                    &&& forall|id: Uuid| #[trigger]
                        ids@.contains(id) <==> exists|i: int|
                            0 <= i < input.order_item_inputs@.len()
                                && (#[trigger] input.order_item_inputs@[i]).coupon_ids@.contains(id)
                }
            } else {
                next matches CreateOrder::Done { result: Err(OrderError::NotPresent { kind, id }) } && kind
                    == ObjectKind::ShipmentMethod && state->FindShipmentMethods_ids@.contains(id)
                    && !there@.contains(id)
            },
            Err(FindFailure::Find) => next == (CreateOrder::Done {
                result: Err(OrderError::NonePresent { kind: ObjectKind::ShipmentMethod }),
            }),
            Err(FindFailure::Collect { text }) => next == (CreateOrder::Done {
                result: Err(OrderError::Reported { text }),
            }),
        },
{
    let input = state->FindShipmentMethods_input;
    let ids = state->FindShipmentMethods_ids@;
    if let CreateOrderReply::Objects { found } = reply {
        let result = match next {
            CreateOrder::Done { result: Err(error) } => Err(error),
            _ => Ok(()),
        };
        match found {
            Ok(there) => {
                objects_are_there_if_each_was_found(ObjectKind::ShipmentMethod, ids, there, result);
            },
            Err(failure) => {
                objects_are_not_there_if_the_search_fails(ObjectKind::ShipmentMethod, ids, failure, result);
            },
        }
        assert forall|id: Uuid| #[trigger] coupons_of(input.order_item_inputs@).contains(id) <==> exists|i: int|
            0 <= i < input.order_item_inputs@.len() && (#[trigger] input.order_item_inputs@[i]).coupon_ids@.contains(
                id,
            ) by {
            all_coupons_are_looked_for(input.order_item_inputs@, id);
        }
    }
}

/// When each coupon was found, the addresses are looked at. Otherwise the creation ends.
pub proof fn known_coupons_go_on(state: CreateOrder, reply: CreateOrderReply, next: CreateOrder)
    requires
        state is FindCoupons,
        state.takes(reply, next),
    ensures
        reply matches CreateOrderReply::Objects { found } && match found {
            Ok(there) => if forall|i: int|
                0 <= i < state->FindCoupons_ids@.len() ==> there@.contains(
                    #[trigger] state->FindCoupons_ids@[i],
                ) {
                next == (CreateOrder::FindShipmentAddress { input: state->FindCoupons_input })
            } else {
                next matches CreateOrder::Done { result: Err(OrderError::NotPresent { kind, id }) } && kind
                    == ObjectKind::Coupon && state->FindCoupons_ids@.contains(id) && !there@.contains(id)
            },
            Err(FindFailure::Find) => next == (CreateOrder::Done {
                result: Err(OrderError::NonePresent { kind: ObjectKind::Coupon }),
            }),
            Err(FindFailure::Collect { text }) => next == (CreateOrder::Done {
                result: Err(OrderError::Reported { text }),
            }),
        },
{
    let ids = state->FindCoupons_ids@;
    if let CreateOrderReply::Objects { found } = reply {
        let result = match next {
            CreateOrder::Done { result: Err(error) } => Err(error),
            _ => Ok(()),
        };
        match found {
            Ok(there) => {
                objects_are_there_if_each_was_found(ObjectKind::Coupon, ids, there, result);
            },
            Err(failure) => {
                objects_are_not_there_if_the_search_fails(ObjectKind::Coupon, ids, failure, result);
            },
        }
    }
}

/// Both addresses have to be addresses of the user, the shipment address first.
pub proof fn known_addresses_go_on(state: CreateOrder, reply: CreateOrderReply, next: CreateOrder)
    requires
        state is FindShipmentAddress || state is FindInvoiceAddress,
        state.takes(reply, next),
    ensures
        reply matches CreateOrderReply::Addressee { found } && match state {
            CreateOrder::FindShipmentAddress { input } => if found matches Some(user)
                && user.user_address_ids@.contains(input.shipment_address_id) {
                next == (CreateOrder::FindInvoiceAddress { input })
            } else {
                next == (CreateOrder::Done {
                    result: Err(
                        OrderError::AddressNotFound { id: input.shipment_address_id, user_id: input.user_id },
                    ),
                })
            },
            CreateOrder::FindInvoiceAddress { input } => if found matches Some(user)
                && user.user_address_ids@.contains(input.invoice_address_id) {
                next == (CreateOrder::ReadClock { input })
            } else {
                next == (CreateOrder::Done {
                    result: Err(
                        OrderError::AddressNotFound { id: input.invoice_address_id, user_id: input.user_id },
                    ),
                })
            },
            _ => false,
        },
{
}

/// The order is created as of the time that the clock shows, and the shopping cart is asked for by the
/// UUID of the user.
pub proof fn the_clock_dates_the_order(state: CreateOrder, reply: CreateOrderReply, next: CreateOrder)
    requires
        state is ReadClock,
        state.takes(reply, next),
    ensures
        reply matches CreateOrderReply::Clock { now }
            && next matches CreateOrder::QueryShoppingCart { input, created_at, representations } && {
            &&& input == state->ReadClock_input
            &&& created_at == now
            &&& representations@.len() == 1
            &&& representations@[0].typename@ == "User"@
            &&& representations@[0].id@ == uuid_text(input.user_id)
        },
{
}

/// The shopping cart of the user goes on if and only if it holds an item for each position. The draft
/// then has, of each product variant that a position settles and of no other, the count of the item and
/// the position.
pub proof fn full_carts_go_on(
    state: CreateOrder,
    entities: Vec<Option<ShoppingCartEntity>>,
    items: Vec<ShoppingCartItem>,
    next: CreateOrder,
)
    requires
        state is QueryShoppingCart,
        entities@.len() > 0,
        entities@[0] == Some(ShoppingCartEntity::User { shoppingcart_items: items }),
        state.takes(CreateOrderReply::ShoppingCart { response: Ok(Some(entities)) }, next),
    ensures
        next is FindProductVariants || (next matches CreateOrder::Done {
            result: Err(OrderError::NotInHashMap { entry: EntryKind::IdAndCount, .. }),
        }),
        next is FindProductVariants <==> forall|i: int|
            0 <= i < state->QueryShoppingCart_input.order_item_inputs@.len() ==> item_ids(items@).contains(
                (#[trigger] state->QueryShoppingCart_input.order_item_inputs@[i]).shopping_cart_item_id,
            ),
        next matches CreateOrder::FindProductVariants { draft } ==> {
            &&& draft.input == state->QueryShoppingCart_input
            &&& draft.created_at == state->QueryShoppingCart_created_at
            &&& draft.product_variant_ids@.no_duplicates()
            &&& forall|id: Uuid|
                #![trigger draft.counts@.contains_key(id)]
                #![trigger draft.order_item_inputs@.contains_key(id)]
                #![trigger draft.product_variant_ids@.contains(id)]
                {
                    &&& draft.counts@.contains_key(id) <==> draft.product_variant_ids@.contains(id)
                    &&& draft.order_item_inputs@.contains_key(id) <==> draft.product_variant_ids@.contains(id)
                    &&& draft.product_variant_ids@.contains(id) <==> exists|i: int, k: int| #[trigger]
                        settles(views(draft.input.order_item_inputs@), items@, i, k)
                            && items@[k].product_variant_id == id
                }
            &&& forall|i: int, k: int| #[trigger]
                settles(views(draft.input.order_item_inputs@), items@, i, k) ==> {
                    let id = items@[k].product_variant_id;
                    let position = draft.input.order_item_inputs@[i];
                    &&& items@[k].count >= 0 ==> draft.counts@[id] == items@[k].count
                    &&& items@[k].count < 0 ==> draft.counts@[id] == items@[k].count + 0x1_0000_0000_0000_0000
                    &&& draft.order_item_inputs@[id].shopping_cart_item_id == position.shopping_cart_item_id
                    &&& draft.order_item_inputs@[id].coupon_ids@ == position.coupon_ids@
                    &&& draft.order_item_inputs@[id].shipment_method_id == position.shipment_method_id
                }
        },
{
    let input = state->QueryShoppingCart_input;
    let inputs = views(input.order_item_inputs@);
    assert forall|i: int| 0 <= i < inputs.len() implies #[trigger] inputs[i] == input.order_item_inputs@[i]@ by {}
    match next {
        CreateOrder::FindProductVariants { draft } => {
            positions_are_filled_from_the_cart(
                inputs,
                entities,
                items,
                Ok((draft.counts, draft.order_item_inputs)),
            );
            assert forall|i: int| 0 <= i < input.order_item_inputs@.len() implies item_ids(items@).contains(
                (#[trigger] input.order_item_inputs@[i]).shopping_cart_item_id,
            ) by {
                assert(item_ids(items@).contains(inputs[i].shopping_cart_item_id));
            }
            assert forall|id: Uuid|
                #![trigger draft.counts@.contains_key(id)]
                #![trigger draft.order_item_inputs@.contains_key(id)]
                #![trigger draft.product_variant_ids@.contains(id)]
                {
                    &&& draft.counts@.contains_key(id) <==> draft.product_variant_ids@.contains(id)
                    &&& draft.order_item_inputs@.contains_key(id) <==> draft.product_variant_ids@.contains(id)
                    &&& draft.product_variant_ids@.contains(id) <==> exists|i: int, k: int| #[trigger]
                        settles(inputs, items@, i, k) && items@[k].product_variant_id == id
                } by {
                assert(draft.product_variant_ids@.to_set().contains(id) <==> draft.counts@.dom().contains(id));
            }
            assert forall|i: int, k: int| #[trigger] settles(inputs, items@, i, k) implies inputs[i]
                == draft.input.order_item_inputs@[i]@ by {}
        },
        CreateOrder::Done { result: Err(error) } => {
            positions_are_filled_from_the_cart(inputs, entities, items, Err(error));
            let i = choose|i: int|
                0 <= i < inputs.len() && error == (OrderError::NotInHashMap {
                    entry: EntryKind::IdAndCount,
                    id: (#[trigger] inputs[i]).shopping_cart_item_id,
                }) && !item_ids(items@).contains(inputs[i].shopping_cart_item_id);
            assert(!item_ids(items@).contains(input.order_item_inputs@[i].shopping_cart_item_id));
        },
        _ => {},
    }
}

/// When product variants were found, those that are publicly visible are kept with their current
/// versions, and the stock of all product variants of the draft is asked for by their UUIDs. Otherwise
/// the failure is passed on.
pub proof fn visible_product_variants_go_on(state: CreateOrder, reply: CreateOrderReply, next: CreateOrder)
    requires
        state is FindProductVariants,
        state.takes(reply, next),
    ensures
        reply matches CreateOrderReply::ProductVariants { found } && match found {
            Ok(map) => next matches CreateOrder::QueryStock { draft, representations } && {
                let cart = state->FindProductVariants_draft;
                &&& draft.cart == cart
                &&& forall|id: Uuid|
                    #![trigger draft.product_variants@.contains_key(id)]
                    #![trigger draft.product_variant_versions@.contains_key(id)]
                    #![trigger map@.contains_key(id)]
                    {
                        &&& draft.product_variants@.contains_key(id) <==> map@.contains_key(id)
                            && map@[id].is_publicly_visible
                        &&& draft.product_variants@.contains_key(id) ==> draft.product_variants@[id] == map@[id]
                        &&& draft.product_variant_versions@.contains_key(id)
                            <==> draft.product_variants@.contains_key(id)
                        &&& draft.product_variants@.contains_key(id) ==> draft.product_variant_versions@[id]
                            == map@[id].current_version
                    }
                &&& representations@.len() == cart.product_variant_ids@.len()
                &&& forall|i: int|
                    0 <= i < representations@.len() ==> (#[trigger] representations@[i]).typename@
                        == "ProductVariant"@ && representations@[i].id@ == uuid_text(cart.product_variant_ids@[i])
            },
            Err(text) => next == (CreateOrder::Done { result: Err(OrderError::Reported { text }) }),
        },
{
    if let CreateOrderReply::ProductVariants { found: Ok(map) } = reply {
        if let CreateOrder::QueryStock { draft, representations } = next {
            nothing_visible_is_lost(map, Ok(draft.product_variants));
            assert forall|id: Uuid|
                #![trigger draft.product_variants@.contains_key(id)]
                #![trigger draft.product_variant_versions@.contains_key(id)]
                #![trigger map@.contains_key(id)]
                {
                    &&& draft.product_variants@.contains_key(id) <==> map@.contains_key(id)
                        && map@[id].is_publicly_visible
                    &&& draft.product_variants@.contains_key(id) ==> draft.product_variants@[id] == map@[id]
                    &&& draft.product_variant_versions@.contains_key(id)
                        <==> draft.product_variants@.contains_key(id)
                    &&& draft.product_variants@.contains_key(id) ==> draft.product_variant_versions@[id]
                        == map@[id].current_version
                } by {
                versions_are_those_of_the_product_variants(draft.product_variants@, id);
            }
            let ids = draft.cart.product_variant_ids@;
            assert forall|i: int| 0 <= i < representations@.len() implies (#[trigger] representations@[i]).typename@
                == "ProductVariant"@ && representations@[i].id@ == uuid_text(ids[i]) by {
                assert(crate::cart::represents(representations@[i], "ProductVariant"@, ids[i]));
            }
        }
    }
}

/// Where the inventory service answers with product variants that are in order, the draft goes on if and
/// only if there is enough of everything. The tax rates of all product variants are looked for then, and
/// no others.
pub proof fn sufficient_stocks_go_on(
    state: CreateOrder,
    entities: Vec<Option<StockEntity>>,
    next: CreateOrder,
)
    requires
        state is QueryStock,
        all_in_order(entities@),
        state.takes(CreateOrderReply::Stock { response: Ok(Some(entities)) }, next),
    ensures
        next is FindTaxRates || (next matches CreateOrder::Done { result: Err(error) } && (
        error is NotAllAvailable || error is NotInHashMap)),
        next is FindTaxRates <==> forall|id: Uuid| #[trigger]
            state->QueryStock_draft.cart.counts@.contains_key(id) ==> exists|i: int| #[trigger]
                is_last(stock_ids(entities@), Some(id), i)
                    && entities@[i]->0->ProductVariant_inventory_count
                    >= state->QueryStock_draft.cart.counts@[id],
        next matches CreateOrder::FindTaxRates { draft, tax_rate_ids } ==> {
            &&& draft == state->QueryStock_draft
            &&& forall|id: Uuid| #[trigger]
                tax_rate_ids@.contains(id) <==> exists|variant: Uuid| #[trigger]
                    draft.product_variant_versions@.contains_key(variant)
                        && draft.product_variant_versions@[variant].tax_rate_id == id
        },
{
    let draft = state->QueryStock_draft;
    let counts = draft.cart.counts@;
    match next {
        CreateOrder::FindTaxRates { draft: same, tax_rate_ids } => {
            stocks_decide(entities, counts, Ok(()));
            assert forall|id: Uuid| #[trigger] tax_rate_ids@.contains(id) <==> exists|variant: Uuid| #[trigger]
                draft.product_variant_versions@.contains_key(variant)
                    && draft.product_variant_versions@[variant].tax_rate_id == id by {
                all_tax_rates_are_looked_for(draft.product_variant_versions@, tax_rate_ids@, id);
            }
        },
        CreateOrder::Done { result: Err(error) } => {
            stocks_decide(entities, counts, Err(error));
        },
        _ => {},
    }
}

/// When tax rates were found, the draft goes on if and only if each product variant version has the tax
/// rate that it names among them, and the discounts of all product variants can be asked for. They are
/// asked for one by one, with their counts and coupons, for the user of the order.
pub proof fn known_tax_rates_go_on(
    state: CreateOrder,
    tax_rates: HashMap<Uuid, TaxRate>,
    next: CreateOrder,
)
    requires
        state is FindTaxRates,
        state.takes(CreateOrderReply::TaxRates { found: Ok(tax_rates) }, next),
    ensures
        next is QueryDiscounts || (next matches CreateOrder::Done { result: Err(error) } && (
        error is NotInHashMap || error is OutOfRange)),
        ({
            let draft = state->FindTaxRates_draft;
            let cart = draft.cart;
            let ids = cart.product_variant_ids@;
            &&& next is QueryDiscounts <==> {
                &&& forall|id: Uuid| #[trigger]
                    draft.product_variant_versions@.contains_key(id) ==> tax_rates@.contains_key(
                        draft.product_variant_versions@[id].tax_rate_id,
                    )
                &&& forall|i: int|
                    0 <= i < ids.len() ==> cart.counts@.contains_key(#[trigger] ids[i])
                        && cart.order_item_inputs@.contains_key(ids[i]) && cart.counts@[ids[i]]
                        <= 0x7fff_ffff_ffff_ffff
            }
            &&& next matches CreateOrder::QueryDiscounts { draft: same, tax_rate_versions, variables } ==> {
                &&& same == draft
                &&& forall|id: Uuid|
                    #![trigger tax_rate_versions@.contains_key(id)]
                    #![trigger draft.product_variant_versions@.contains_key(id)]
                    {
                        &&& tax_rate_versions@.contains_key(id) <==> draft.product_variant_versions@.contains_key(
                            id,
                        )
                        &&& tax_rate_versions@.contains_key(id) ==> tax_rate_versions@[id]
                            == tax_rates@[draft.product_variant_versions@[id].tax_rate_id].current_version
                    }
                &&& variables.user_id == cart.input.user_id
                &&& variables.order_amount == price_total(draft.product_variant_versions@)
                &&& variables.product_variants@.len() == ids.len()
                &&& forall|i: int|
                    0 <= i < ids.len() ==> {
                        &&& (#[trigger] variables.product_variants@[i]).product_variant_id == ids[i]
                        &&& variables.product_variants@[i].count == cart.counts@[ids[i]]
                        &&& variables.product_variants@[i].coupon_ids@
                            == cart.order_item_inputs@[ids[i]].coupon_ids@
                    }
            }
        }),
{
    let draft = state->FindTaxRates_draft;
    let cart = draft.cart;
    let ids = cart.product_variant_ids@;
    let versions = draft.product_variant_versions@;
    match next {
        CreateOrder::QueryDiscounts { draft: same, tax_rate_versions, variables } => {
            versions_get_the_tax_rates_they_name(versions, tax_rates, Ok(tax_rate_versions));
            product_variants_are_asked_about_one_by_one(
                cart.order_item_inputs@,
                cart.counts@,
                ids,
                cart.input.user_id,
                versions,
                Ok(variables),
            );
        },
        CreateOrder::Done { result: Err(error) } => {
            if not_askable(cart.order_item_inputs@, cart.counts@, ids, error) {
                product_variants_are_asked_about_one_by_one(
                    cart.order_item_inputs@,
                    cart.counts@,
                    ids,
                    cart.input.user_id,
                    versions,
                    Err(error),
                );
            } else {
                versions_get_the_tax_rates_they_name(versions, tax_rates, Err(error));
            }
        },
        _ => {},
    }
}

/// When the discount service answers, the draft goes on if and only if the answer lists each product
/// variant, none of which is asked for twice, and the shipment of each version can be asked for. The
/// discounts are those that are listed last, and everything else stays as it was. Each version is asked
/// for once, with its count and its shipment method.
pub proof fn known_discounts_go_on(
    state: CreateOrder,
    lists: Vec<DiscountsForProductVariant>,
    next: CreateOrder,
)
    requires
        state is QueryDiscounts,
        state.takes(CreateOrderReply::Discounts { response: Ok(Some(lists)) }, next),
    ensures
        next is QueryShipmentFees || (next matches CreateOrder::Done { result: Err(error) } && (
        error is NoDiscountsFor || error is NotInHashMap || error is OutOfRange)),
        ({
            let draft = state->QueryDiscounts_draft;
            let cart = draft.cart;
            let ids = cart.product_variant_ids@;
            let versions = draft.product_variant_versions@;
            &&& next is QueryShipmentFees <==> {
                &&& ids.no_duplicates()
                &&& forall|i: int| 0 <= i < ids.len() ==> listed_ids(lists@).contains(#[trigger] ids[i])
                &&& forall|id: Uuid| #[trigger]
                    versions.contains_key(id) ==> cart.counts@.contains_key(id)
                        && cart.order_item_inputs@.contains_key(id) && cart.counts@[id] <= 0x7fff_ffff_ffff_ffff
            }
            &&& next matches CreateOrder::QueryShipmentFees { input, created_at, maps, variables } ==> {
                &&& input == cart.input
                &&& created_at == cart.created_at
                &&& maps.counts == cart.counts
                &&& maps.order_item_inputs == cart.order_item_inputs
                &&& maps.product_variants == draft.product_variants
                &&& maps.product_variant_versions == draft.product_variant_versions
                &&& maps.tax_rate_versions == state->tax_rate_versions
                &&& forall|id: Uuid| #[trigger] maps.discounts@.contains_key(id) <==> ids.contains(id)
                &&& forall|id: Uuid, k: int, discount: Discount|
                    #![trigger is_last(listed_ids(lists@), id, k), maps.discounts@[id]@.contains(discount)]
                    ids.contains(id) && is_last(listed_ids(lists@), id, k) ==> (maps.discounts@[id]@.contains(
                        discount,
                    ) <==> lists@[k].discounts@.contains(discount))
                &&& exists|shipped: Seq<Uuid>|
                    #![trigger shipped.no_duplicates()]
                    {
                        &&& shipped.no_duplicates()
                        &&& forall|id: Uuid| shipped.contains(id) <==> #[trigger] versions.contains_key(id)
                        &&& variables.items@.len() == shipped.len()
                        &&& forall|i: int|
                            0 <= i < shipped.len() ==> {
                                let item = #[trigger] variables.items@[i];
                                &&& item.product_variant_version_id == versions[shipped[i]].id
                                &&& item.quantity == cart.counts@[shipped[i]]
                                &&& item.shipment_method_id
                                    == cart.order_item_inputs@[shipped[i]].shipment_method_id
                            }
                    }
            }
        }),
{
    let draft = state->QueryDiscounts_draft;
    let cart = draft.cart;
    let ids = cart.product_variant_ids@;
    let versions = draft.product_variant_versions@;
    match next {
        CreateOrder::QueryShipmentFees { input, created_at, maps, variables } => {
            discounts_are_those_of_the_last_list(lists, ids, Ok(maps.discounts));
            every_version_is_shipped_once(versions, cart.counts@, cart.order_item_inputs@, Ok(variables));
        },
        CreateOrder::Done { result: Err(error) } => {
            last_lists_count(lists@);
            if provides_for_all(by_product_variant(lists@), ids)
                && !crate::discounts::discount_response_outcome(Ok(Some(lists)), ids, Err(error)) {
                every_version_is_shipped_once(versions, cart.counts@, cart.order_item_inputs@, Err(error));
            } else {
                discounts_are_those_of_the_last_list(lists, ids, Err(error));
            }
        },
        _ => {},
    }
}

/// When there are shipment fees, which are not negative, the draft goes on if and only if every product
/// variant has all its attributes. There is one item for each product variant, with its attributes.
pub proof fn complete_attributes_go_on(state: CreateOrder, fees: i64, next: CreateOrder)
    requires
        state is QueryShipmentFees,
        fees >= 0,
        state.takes(CreateOrderReply::ShipmentFees { response: Ok(Some(fees)) }, next),
    ensures
        next is BuildOrderItems || (next matches CreateOrder::Done { result: Err(OrderError::NotInHashMap { .. }) }),
        next is BuildOrderItems <==> forall|id: Uuid| #[trigger]
            state->maps.product_variants@.contains_key(id) ==> state->maps.order_item_inputs@.contains_key(id)
                && state->maps.product_variant_versions@.contains_key(id)
                && state->maps.tax_rate_versions@.contains_key(id) && state->maps.counts@.contains_key(id)
                && state->maps.discounts@.contains_key(id),
        next matches CreateOrder::BuildOrderItems { input, created_at, attributes } ==> {
            let maps = state->maps;
            &&& input == state->QueryShipmentFees_input
            &&& created_at == state->QueryShipmentFees_created_at
            &&& exists|ids: Seq<Uuid>|
                #![trigger ids.no_duplicates()]
                {
                    &&& ids.no_duplicates()
                    &&& forall|id: Uuid| ids.contains(id) <==> #[trigger] maps.product_variants@.contains_key(id)
                    &&& attributes@.len() == ids.len()
                    &&& forall|i: int|
                        0 <= i < ids.len() ==> {
                            let item = #[trigger] attributes@[i];
                            &&& item.order_item_input.shopping_cart_item_id
                                == maps.order_item_inputs@[ids[i]].shopping_cart_item_id
                            &&& item.order_item_input.coupon_ids@ == maps.order_item_inputs@[ids[i]].coupon_ids@
                            &&& item.order_item_input.shipment_method_id
                                == maps.order_item_inputs@[ids[i]].shipment_method_id
                            &&& item.product_variant == maps.product_variants@[ids[i]]
                            &&& item.product_variant_version == maps.product_variant_versions@[ids[i]]
                            &&& item.tax_rate_version == maps.tax_rate_versions@[ids[i]]
                            &&& item.count == maps.counts@[ids[i]]
                            &&& item.internal_discounts@ == maps.discounts@[ids[i]]@
                            &&& item.created_at == created_at
                        }
                }
        },
{
    let created_at = state->QueryShipmentFees_created_at;
    match next {
        CreateOrder::BuildOrderItems { attributes, .. } => {
            items_get_what_the_maps_say(state->maps, created_at, Ok(attributes));
        },
        CreateOrder::Done { result: Err(error) } => {
            items_get_what_the_maps_say(state->maps, created_at, Err(error));
        },
        _ => {},
    }
}

/// The order that is inserted holds the items that were built, one by one, each with its attributes, and
/// what the user wished for.
pub proof fn built_items_make_the_order(state: CreateOrder, reply: CreateOrderReply, next: CreateOrder)
    requires
        state is BuildOrderItems,
        state.takes(reply, next),
    ensures
        reply matches CreateOrderReply::OrderItems { order_id, built }
            && next matches CreateOrder::InsertOrder { order } && {
            let input = state->BuildOrderItems_input;
            let items = order.internal_order_items@;
            &&& order.id == order_id
            &&& order.user_id == input.user_id
            &&& order.created_at == state->BuildOrderItems_created_at
            &&& order.order_status == OrderStatus::Pending
            &&& order.placed_at is None
            &&& order.rejection_reason is None
            &&& order.shipment_address_id == input.shipment_address_id
            &&& order.invoice_address_id == input.invoice_address_id
            &&& order.payment_information_id == input.payment_information_id
            &&& order.vat_number@ == input.vat_number@
            &&& items.len() == built@.len()
            &&& items.len() == state->attributes@.len()
            &&& forall|i: int|
                0 <= i < items.len() ==> {
                    &&& (#[trigger] items[i]).id == built@[i].id
                    &&& items[i].attributes == state->attributes@[i]
                    &&& items[i].compensatable_amount == built@[i].compensatable_amount
                }
            &&& order.compensatable_order_amount == items.map_values(
                |item: OrderItem| item.compensatable_amount as int,
            ).fold_left(0, |sum: int, amount: int| sum + amount)
        },
{
    if let CreateOrder::InsertOrder { order } = next {
        lemma_total_is_fold(order.internal_order_items@);
    }
}

/// What order items cost together is what comes of adding their amounts one after the other.
proof fn lemma_total_is_fold(items: Seq<OrderItem>)
    ensures
        crate::items::total_amount(items) == items.map_values(
            |item: OrderItem| item.compensatable_amount as int,
        ).fold_left(0, |sum: int, amount: int| sum + amount),
    decreases items.len(),
{
    let amounts = items.map_values(|item: OrderItem| item.compensatable_amount as int);
    reveal_with_fuel(Seq::fold_left, 2);
    if items.len() == 0 {
        crate::items::amounts_add_up(items, items, arbitrary());
        assert(items =~= Seq::<OrderItem>::empty());
    } else {
        let rest = items.drop_last();
        lemma_total_is_fold(rest);
        crate::items::amounts_add_up(rest, seq![items.last()], items.last());
        assert(items =~= rest + seq![items.last()]);
        assert(amounts.drop_last() =~= rest.map_values(|item: OrderItem| item.compensatable_amount as int));
    }
}

/// An order that the database took under a UUID is looked for by that UUID, and returned as it is found.
pub proof fn inserted_orders_are_returned(state: CreateOrder, reply: CreateOrderReply, next: CreateOrder)
    requires
        state is InsertOrder || state is FindOrder,
        state.takes(reply, next),
    ensures
        match reply {
            CreateOrderReply::Inserted { inserted: Err(()) } => next == (CreateOrder::Done {
                result: Err(OrderError::AddingFailed),
            }),
            CreateOrderReply::Inserted { inserted: Ok(crate::insertion::InsertedId::Binary { subtype, bytes }) } => {
                &&& subtype == 4 && bytes@.len() == 16 ==> next is FindOrder
                &&& next matches CreateOrder::FindOrder { id } ==> id == crate::uuid::be_value(bytes@)
            },
            CreateOrderReply::Inserted { .. } => next matches CreateOrder::Done {
                result: Err(OrderError::IdNotBinary { .. }),
            },
            CreateOrderReply::Order { found: Ok(order) } => next == (CreateOrder::Done { result: Ok(order) }),
            CreateOrderReply::Order { found: Err(text) } => next == (CreateOrder::Done {
                result: Err(OrderError::Reported { text }),
            }),
            _ => false,
        },
{
}

/// Another service that fails, or that answers without data, ends the creation: a failure is passed on
/// in its own words.
pub proof fn failing_services_end_the_creation(state: CreateOrder, reply: CreateOrderReply, next: CreateOrder)
    requires
        state.takes(reply, next),
    ensures
        match reply {
            CreateOrderReply::ShoppingCart { response: Err(text) } => next == CreateOrder::failed(
                OrderError::Reported { text },
            ),
            CreateOrderReply::ShoppingCart { response: Ok(None) } => next == CreateOrder::failed(
                OrderError::EmptyCartResponse,
            ),
            CreateOrderReply::Stock { response: Err(text) } => next == CreateOrder::failed(
                OrderError::Reported { text },
            ),
            CreateOrderReply::Stock { response: Ok(None) } => next == CreateOrder::failed(
                OrderError::EmptyStockResponse,
            ),
            CreateOrderReply::TaxRates { found: Err(text) } => next == CreateOrder::failed(
                OrderError::Reported { text },
            ),
            CreateOrderReply::Discounts { response: Err(text) } => next == CreateOrder::failed(
                OrderError::Reported { text },
            ),
            CreateOrderReply::Discounts { response: Ok(None) } => next == CreateOrder::failed(
                OrderError::EmptyDiscountsResponse,
            ),
            CreateOrderReply::ShipmentFees { response: Err(text) } => next == CreateOrder::failed(
                OrderError::Reported { text },
            ),
            CreateOrderReply::ShipmentFees { response: Ok(None) } => next == CreateOrder::failed(
                OrderError::EmptyShipmentFeesResponse,
            ),
            CreateOrderReply::ShipmentFees { response: Ok(Some(fees)) } => fees < 0 ==> next
                == CreateOrder::failed(OrderError::OutOfRange),
            _ => true,
        },
{
}

/// The creation of an order takes every reply that answers what is to be done, with four exceptions: a
/// shopping cart service that answers with no entity at all, an inventory service that answers with a
/// product item, prices that amount to more than 32 bits hold when they are to be asked about, and built
/// items that are not as many as their attributes or cost more than 64 bits hold.
pub proof fn fitting_replies_are_taken(state: CreateOrder, reply: CreateOrderReply)
    ensures
        state.accepts(reply) <==> match state {
            CreateOrder::Authorize { .. } => reply is Authorized,
            CreateOrder::FindUser { .. } => reply is User,
            CreateOrder::FindShipmentMethods { .. } => reply is Objects,
            CreateOrder::FindCoupons { .. } => reply is Objects,
            CreateOrder::FindShipmentAddress { .. } => reply is Addressee,
            CreateOrder::FindInvoiceAddress { .. } => reply is Addressee,
            CreateOrder::ReadClock { .. } => reply is Clock,
            CreateOrder::QueryShoppingCart { .. } => reply matches CreateOrderReply::ShoppingCart { response }
                && !(response matches Ok(Some(entities)) && entities@.len() == 0),
            CreateOrder::FindProductVariants { .. } => reply is ProductVariants,
            CreateOrder::QueryStock { .. } => reply matches CreateOrderReply::Stock { response } && !(
            response matches Ok(Some(entities)) && exists|i: int|
                0 <= i < entities@.len() && (#[trigger] entities@[i]) == Some(StockEntity::ProductItem)
                    && all_in_order(entities@.take(i))),
            CreateOrder::FindTaxRates { draft, .. } => reply matches CreateOrderReply::TaxRates { found } && !{
                &&& found matches Ok(tax_rates) && forall|id: Uuid| #[trigger]
                    draft.product_variant_versions@.contains_key(id) ==> tax_rates@.contains_key(
                        draft.product_variant_versions@[id].tax_rate_id,
                    )
                &&& forall|i: int|
                    0 <= i < draft.cart.product_variant_ids@.len() ==> {
                        let id = #[trigger] draft.cart.product_variant_ids@[i];
                        &&& draft.cart.counts@.contains_key(id)
                        &&& draft.cart.order_item_inputs@.contains_key(id)
                        &&& draft.cart.counts@[id] <= 0x7fff_ffff_ffff_ffff
                    }
                &&& price_total(draft.product_variant_versions@) > 0xffff_ffff
            },
            CreateOrder::QueryDiscounts { .. } => reply is Discounts,
            CreateOrder::QueryShipmentFees { .. } => reply is ShipmentFees,
            CreateOrder::BuildOrderItems { attributes, .. } => reply matches CreateOrderReply::OrderItems {
                built,
                ..
            } && built@.len() == attributes@.len() && built_total(built@) <= 0xffff_ffff_ffff_ffff,
            CreateOrder::InsertOrder { .. } => reply is Inserted,
            CreateOrder::FindOrder { .. } => reply is Order,
            CreateOrder::Done { .. } => false,
        },
{
    match (state, reply) {
        (CreateOrder::QueryStock { .. }, CreateOrderReply::Stock { response }) => {
            answers_can_be_read_up_to_a_product_item(response);
        },
        (CreateOrder::FindTaxRates { draft, .. }, CreateOrderReply::TaxRates { found }) => {
            let ids = draft.cart.product_variant_ids@;
            let (inputs, counts) = (draft.cart.order_item_inputs@, draft.cart.counts@);
            assert(all_askable(inputs, counts, ids) <==> forall|i: int|
                0 <= i < ids.len() ==> {
                    let id = #[trigger] ids[i];
                    &&& counts.contains_key(id)
                    &&& inputs.contains_key(id)
                    &&& counts[id] <= 0x7fff_ffff_ffff_ffff
                }) by {
                if all_askable(inputs, counts, ids) {
                    assert forall|i: int| 0 <= i < ids.len() implies {
                        let id = #[trigger] ids[i];
                        &&& counts.contains_key(id)
                        &&& inputs.contains_key(id)
                        &&& counts[id] <= 0x7fff_ffff_ffff_ffff
                    } by {
                        assert(discount_input_failure(inputs, counts, ids[i]) is None);
                    }
                }
            }
        },
        _ => {},
    }
}

/// What other services and the database replied in the course of creating an order.
pub struct Told {
    /// The items of the shopping cart.
    pub items: Seq<ShoppingCartItem>,
    /// The product variants that were found.
    pub found: Map<Uuid, ProductVariant>,
    /// The entities of the inventory service.
    pub stock: Seq<Option<StockEntity>>,
    /// The tax rates that were found.
    pub tax_rates: Map<Uuid, TaxRate>,
    /// The lists of the discount service.
    pub lists: Seq<DiscountsForProductVariant>,
}

impl Told {
    /// Whether replies tell this.
    pub open spec fn is_told_by(self, replies: Seq<CreateOrderReply>) -> bool {
        &&& replies[7] matches CreateOrderReply::ShoppingCart { response: Ok(Some(entities)) }
            && entities@[0] matches Some(ShoppingCartEntity::User { shoppingcart_items })
            && shoppingcart_items@ == self.items
        &&& replies[8] matches CreateOrderReply::ProductVariants { found: Ok(found) } && found@ == self.found
        &&& replies[9] matches CreateOrderReply::Stock { response: Ok(Some(entities)) } && entities@ == self.stock
        &&& replies[10] matches CreateOrderReply::TaxRates { found: Ok(tax_rates) } && tax_rates@
            == self.tax_rates
        &&& replies[11] matches CreateOrderReply::Discounts { response: Ok(Some(lists)) } && lists@ == self.lists
    }

    /// Whether attributes are what is told of the product variant of the cart item at `k`, which the
    /// position at `p` asks for: its count is that of the cart item, of which no more are asked for than
    /// are in stock, and everything else is said of the product variant itself.
    pub open spec fn makes(self, attributes: OrderItemAttributes, input: CreateOrderInput, p: int, k: int) -> bool {
        let id = self.items[k].product_variant_id;
        let position = input.order_item_inputs@[p];
        let version = self.found[id].current_version;
        &&& settles(views(input.order_item_inputs@), self.items, p, k)
        &&& attributes.order_item_input.shopping_cart_item_id == position.shopping_cart_item_id
        &&& attributes.order_item_input.coupon_ids@ == position.coupon_ids@
        &&& attributes.order_item_input.shipment_method_id == position.shipment_method_id
        &&& self.found.contains_key(id)
        &&& self.found[id].is_publicly_visible
        &&& attributes.product_variant == self.found[id]
        &&& attributes.product_variant_version == version
        &&& attributes.count == self.items[k].count
        &&& exists|e: int| #[trigger]
            is_last(stock_ids(self.stock), Some(id), e)
                && self.stock[e]->0->ProductVariant_inventory_count >= self.items[k].count
        &&& self.tax_rates.contains_key(version.tax_rate_id)
        &&& attributes.tax_rate_version == self.tax_rates[version.tax_rate_id].current_version
        &&& exists|l: int| #[trigger]
            is_last(listed_ids(self.lists), id, l) && forall|discount: Discount| #[trigger]
                attributes.internal_discounts@.contains(discount) <==> self.lists[l].discounts@.contains(discount)
    }
}

/// An inserted order holds one item for each product variant that was found and is publicly visible,
/// and no others. Each item is made of what was told of its product variant, and dated by the clock.
pub proof fn inserted_items_are_made_of_what_was_told(
    input: CreateOrderInput,
    states: Seq<CreateOrder>,
    replies: Seq<CreateOrderReply>,
    told: Told,
)
    requires
        CreateOrder::is_course(input, states, replies),
        replies.len() >= 14,
        states[14] is InsertOrder,
        told.is_told_by(replies),
    ensures
        ({
            let items = states[14]->order.internal_order_items@;
            exists|ids: Seq<Uuid>|
                #![trigger ids.no_duplicates()]
                {
                    &&& ids.no_duplicates()
                    &&& forall|id: Uuid|
                        ids.contains(id) <==> #[trigger] told.found.contains_key(id)
                            && told.found[id].is_publicly_visible
                    &&& items.len() == ids.len()
                    &&& forall|j: int|
                        0 <= j < ids.len() ==> {
                            &&& replies[6] == (CreateOrderReply::Clock {
                                now: (#[trigger] items[j]).attributes.created_at,
                            })
                            &&& exists|p: int, k: int| #[trigger]
                                told.makes(items[j].attributes, input, p, k)
                                    && told.items[k].product_variant_id == ids[j]
                        }
                }
        }),
{
    creation_ends(input, states, replies);
    lemma_begins(input, states, replies);
    let cart_entities = replies[7]->ShoppingCart_response->Ok_0->0;
    let cart_items = cart_entities@[0]->0->shoppingcart_items;
    let stock = replies[9]->Stock_response->Ok_0->0;
    let tax_rates = replies[10]->TaxRates_found->Ok_0;
    let lists = replies[11]->Discounts_response->Ok_0->0;
    lemma_takes(input, states, replies, 7);
    full_carts_go_on(states[7], cart_entities, cart_items, states[8]);
    lemma_takes(input, states, replies, 8);
    visible_product_variants_go_on(states[8], replies[8], states[9]);
    lemma_takes(input, states, replies, 9);
    lemma_passed_stock_is_in_order(states[9], stock, states[10]);
    sufficient_stocks_go_on(states[9], stock, states[10]);
    lemma_takes(input, states, replies, 10);
    known_tax_rates_go_on(states[10], tax_rates, states[11]);
    lemma_takes(input, states, replies, 11);
    known_discounts_go_on(states[11], lists, states[12]);
    lemma_takes(input, states, replies, 12);
    let fees = replies[12]->ShipmentFees_response->Ok_0->0;
    failing_services_end_the_creation(states[12], replies[12], states[13]);
    complete_attributes_go_on(states[12], fees, states[13]);
    lemma_takes(input, states, replies, 13);
    built_items_make_the_order(states[13], replies[13], states[14]);
    let cart = states[8]->FindProductVariants_draft;
    let maps = states[12]->maps;
    let attributes = states[13]->attributes@;
    let items = states[14]->order.internal_order_items@;
    let ids = choose|ids: Seq<Uuid>|
        #![trigger ids.no_duplicates()]
        {
            &&& ids.no_duplicates()
            &&& forall|id: Uuid| ids.contains(id) <==> #[trigger] maps.product_variants@.contains_key(id)
            &&& attributes.len() == ids.len()
            &&& forall|i: int|
                0 <= i < ids.len() ==> {
                    let item = #[trigger] attributes[i];
                    &&& item.order_item_input.shopping_cart_item_id
                        == maps.order_item_inputs@[ids[i]].shopping_cart_item_id
                    &&& item.order_item_input.coupon_ids@ == maps.order_item_inputs@[ids[i]].coupon_ids@
                    &&& item.order_item_input.shipment_method_id
                        == maps.order_item_inputs@[ids[i]].shipment_method_id
                    &&& item.product_variant == maps.product_variants@[ids[i]]
                    &&& item.product_variant_version == maps.product_variant_versions@[ids[i]]
                    &&& item.tax_rate_version == maps.tax_rate_versions@[ids[i]]
                    &&& item.count == maps.counts@[ids[i]]
                    &&& item.internal_discounts@ == maps.discounts@[ids[i]]@
                    &&& item.created_at == states[13]->BuildOrderItems_created_at
                }
        };
    assert(ids.no_duplicates());
    assert forall|id: Uuid| ids.contains(id) <==> #[trigger] told.found.contains_key(id)
        && told.found[id].is_publicly_visible by {
        assert(ids.contains(id) <==> maps.product_variants@.contains_key(id));
    }
    assert forall|j: int| 0 <= j < ids.len() implies {
        &&& replies[6] == (CreateOrderReply::Clock { now: (#[trigger] items[j]).attributes.created_at })
        &&& exists|p: int, k: int| #[trigger]
            told.makes(items[j].attributes, input, p, k) && told.items[k].product_variant_id == ids[j]
    } by {
        let id = ids[j];
        assert(ids.contains(id));
        assert(maps.product_variants@.contains_key(id));
        assert(maps.counts@.contains_key(id));
        assert(cart.product_variant_ids@.contains(id));
        let (p, k) = choose|p: int, k: int| #[trigger]
            settles(views(cart.input.order_item_inputs@), told.items, p, k) && told.items[k].product_variant_id
                == id;
        assert(settles(views(input.order_item_inputs@), told.items, p, k));
        assert(items[j].attributes == attributes[j]);
        let e = choose|e: int| #[trigger]
            is_last(stock_ids(told.stock), Some(id), e) && told.stock[e]->0->ProductVariant_inventory_count
                >= cart.counts@[id];
        assert(is_last(stock_ids(told.stock), Some(id), e));
        assert(attributes[j].count == cart.counts@[id]);
        assert(told.items[k].count >= 0);
        let c = choose|c: int|
            0 <= c < cart.product_variant_ids@.len() && cart.product_variant_ids@[c] == id;
        assert(listed_ids(told.lists).contains(cart.product_variant_ids@[c]));
        lemma_has_last(listed_ids(told.lists), id);
        let l = choose|l: int| is_last(listed_ids(told.lists), id, l);
        assert(is_last(listed_ids(told.lists), id, l) && forall|discount: Discount| #[trigger]
            attributes[j].internal_discounts@.contains(discount) <==> told.lists[l].discounts@.contains(
                discount,
            )) by {
            assert forall|discount: Discount| #[trigger] attributes[j].internal_discounts@.contains(discount)
                <==> told.lists[l].discounts@.contains(discount) by {
                assert(maps.discounts@[id]@.contains(discount) <==> attributes[j].internal_discounts@.contains(
                    discount,
                ));
            }
        }
        assert(told.makes(items[j].attributes, input, p, k));
    }
}

/// Each state of a course, up to the insertion, takes its reply to the next.
proof fn lemma_takes(input: CreateOrderInput, states: Seq<CreateOrder>, replies: Seq<CreateOrderReply>, i: int)
    requires
        CreateOrder::is_course(input, states, replies),
        0 <= i < replies.len(),
    ensures
        states[i].takes(replies[i], states[i + 1]),
        states[i].depth() == i,
        i + 1 < replies.len() ==> states[i + 1].depth() == i + 1,
{
    creation_ends(input, states, replies);
    assert(states[i].takes(replies[i], states[i + 1]));
}

/// The wish that a course began with, and the time that the clock showed, stand when the shopping cart is
/// asked for.
proof fn lemma_begins(input: CreateOrderInput, states: Seq<CreateOrder>, replies: Seq<CreateOrderReply>)
    requires
        CreateOrder::is_course(input, states, replies),
        replies.len() >= 8,
    ensures
        states[7] matches CreateOrder::QueryShoppingCart { input: same, created_at, .. } && same == input
            && replies[6] == (CreateOrderReply::Clock { now: created_at }),
{
    lemma_takes(input, states, replies, 0);
    lemma_takes(input, states, replies, 1);
    lemma_takes(input, states, replies, 2);
    lemma_takes(input, states, replies, 3);
    lemma_takes(input, states, replies, 4);
    lemma_takes(input, states, replies, 5);
    lemma_takes(input, states, replies, 6);
    lemma_takes(input, states, replies, 7);
}

/// An answer of the inventory service that passes is in order.
proof fn lemma_passed_stock_is_in_order(state: CreateOrder, entities: Vec<Option<StockEntity>>, next: CreateOrder)
    requires
        state is QueryStock,
        state.takes(CreateOrderReply::Stock { response: Ok(Some(entities)) }, next),
        next is FindTaxRates,
    ensures
        all_in_order(entities@),
{
    assert forall|i: int| 0 <= i < entities@.len() implies ((#[trigger] entities@[i]) matches Some(
        StockEntity::ProductVariant { inventory_count, .. },
    ) && inventory_count >= 0) by {
        assert(stock_failure(entities@[i]) is None);
        if entities@[i] == Some(StockEntity::ProductItem) {
            assert(all_tell_stock(entities@.take(i)));
        }
    }
}

} // verus!
