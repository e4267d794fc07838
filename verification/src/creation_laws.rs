//! What holds of every course of creating an order.

use crate::cart::{all_in_cart, counts_of, ids_and_counts_of, viewed, ShoppingCartEntity};
use crate::catalog::publicly_visible;
use crate::creation::{tax_rates_known, CreateOrder, CreateOrderReply};
use crate::discounts::{
    all_askable, by_product_variant, lemma_not_askable, not_askable, provides_for_all,
};
use crate::error::{ObjectKind, OrderError};
use crate::insertion::{insertion_outcome, InsertedId};
use crate::inventory::{all_available, all_tell_stock, stock_failure, stock_of, StockEntity};
use crate::items::{total_amount, AttributeMaps};
use crate::keys::enumerates;
use crate::model::{
    views, CreateOrderInput, Order, OrderItem, OrderItemAttributes, OrderStatus, ProductVariant, Response,
};
use crate::shipment::{shipment_failure, shipment_fees_outcome};
use crate::time::DateTime;
use crate::uuid::{Uuid, UUID_SUBTYPE};
use crate::validation::{
    coupons_of, last_missing, objects_outcome, shipment_methods_of, FindFailure,
};
use vstd::prelude::*;

verus! {

impl CreateOrder {
    /// How many replies it takes to get to a state, the end of the course aside.
    pub open spec fn depth(self) -> nat {
        match self {
            CreateOrder::Authorize { .. } => 0,
            CreateOrder::FindUser { .. } => 1,
            CreateOrder::FindShipmentMethods { .. } => 2,
            CreateOrder::FindCoupons { .. } => 3,
            CreateOrder::FindShipmentAddress { .. } => 4,
            CreateOrder::FindInvoiceAddress { .. } => 5,
            CreateOrder::ReadClock { .. } => 6,
            CreateOrder::QueryShoppingCart { .. } => 7,
            CreateOrder::FindProductVariants { .. } => 8,
            CreateOrder::QueryStock { .. } => 9,
            CreateOrder::FindTaxRates { .. } => 10,
            CreateOrder::QueryDiscounts { .. } => 11,
            CreateOrder::QueryShipmentFees { .. } => 12,
            CreateOrder::BuildOrderItems { .. } => 13,
            CreateOrder::InsertOrder { .. } => 14,
            CreateOrder::FindOrder { .. } => 15,
            CreateOrder::Done { .. } => 16,
        }
    }

    /// Whether a reply is taken, and leads to the state `next`.
    pub open spec fn takes(self, reply: CreateOrderReply, next: CreateOrder) -> bool {
        self.accepts(reply) && self.leads_to(reply, next)
    }

    /// Whether `states` are states that the creation of an order goes through, `replies` being the
    /// replies that it gets.
    pub open spec fn is_course(
        input: CreateOrderInput,
        states: Seq<CreateOrder>,
        replies: Seq<CreateOrderReply>,
    ) -> bool {
        &&& states.len() == replies.len() + 1
        &&& states[0] == CreateOrder::Authorize { input }
        &&& forall|i: int|
            #![trigger replies[i]]
            0 <= i < replies.len() ==> states[i].takes(replies[i], states[i + 1])
    }
}

/// Every reply brings the creation of an order forward.
proof fn lemma_forward(state: CreateOrder, reply: CreateOrderReply, next: CreateOrder)
    requires
        state.takes(reply, next),
    ensures
        next is Done || next.depth() == state.depth() + 1,
        !(state is Done),
{
}

/// Every reply brings the creation of an order forward, so that it ends after at most sixteen.
pub proof fn creation_ends(input: CreateOrderInput, states: Seq<CreateOrder>, replies: Seq<CreateOrderReply>)
    requires
        CreateOrder::is_course(input, states, replies),
    ensures
        replies.len() <= 16,
        forall|i: int|
            0 <= i < states.len() ==> (#[trigger] states[i]).depth() == i || states[i] is Done && i
                == replies.len(),
    decreases replies.len(),
{
    if replies.len() > 0 {
        let (earlier_states, earlier_replies) = (states.drop_last(), replies.drop_last());
        assert forall|i: int|
            #![trigger earlier_replies[i]]
            0 <= i < earlier_replies.len() implies earlier_states[i].takes(
            earlier_replies[i],
            earlier_states[i + 1],
        ) by {
            assert(earlier_replies[i] == replies[i]);
        }
        creation_ends(input, earlier_states, earlier_replies);
        let last = replies.len() - 1;
        lemma_forward(states[last], replies[last], states[last + 1]);
        assert(earlier_states[last] == states[last]);
        assert forall|i: int| 0 <= i < states.len() implies (#[trigger] states[i]).depth() == i
            || states[i] is Done && i == replies.len() by {
            if i < last {
                assert(earlier_states[i] == states[i]);
                lemma_forward(states[i], replies[i], states[i + 1]);
            }
        }
    }
}

impl CreateOrder {
    /// Whether nothing in a reply stands in the way of the order.
    pub open spec fn favours(self, reply: CreateOrderReply) -> bool {
        match (self, reply) {
            (CreateOrder::Authorize { .. }, CreateOrderReply::Authorized { checked }) => checked is Ok,
            (CreateOrder::FindUser { .. }, CreateOrderReply::User { found }) => found is Ok,
            (CreateOrder::FindShipmentMethods { ids, .. }, CreateOrderReply::Objects { found }) =>
                found matches Ok(there) && ids@.to_set().subset_of(there@.to_set()),
            (CreateOrder::FindCoupons { ids, .. }, CreateOrderReply::Objects { found }) =>
                found matches Ok(there) && ids@.to_set().subset_of(there@.to_set()),
            (CreateOrder::FindShipmentAddress { input }, CreateOrderReply::Addressee { found }) =>
                found matches Some(user) && user.user_address_ids@.contains(input.shipment_address_id),
            (CreateOrder::FindInvoiceAddress { input }, CreateOrderReply::Addressee { found }) =>
                found matches Some(user) && user.user_address_ids@.contains(input.invoice_address_id),
            (CreateOrder::ReadClock { .. }, CreateOrderReply::Clock { .. }) => true,
            (CreateOrder::QueryShoppingCart { input, .. }, CreateOrderReply::ShoppingCart { response }) =>
                response matches Ok(Some(entities))
                    && entities@[0] matches Some(ShoppingCartEntity::User { shoppingcart_items })
                    && all_in_cart(
                    views(input.order_item_inputs@),
                    ids_and_counts_of(shoppingcart_items@),
                ),
            (CreateOrder::FindProductVariants { .. }, CreateOrderReply::ProductVariants { found }) => found is Ok,
            (CreateOrder::QueryStock { draft, .. }, CreateOrderReply::Stock { response }) =>
                response matches Ok(Some(entities)) && all_tell_stock(entities@) && all_available(
                    stock_of(entities@),
                    draft.cart.counts@,
                ),
            (CreateOrder::FindTaxRates { draft, .. }, CreateOrderReply::TaxRates { found }) => {
                &&& tax_rates_known(draft.product_variant_versions@, found)
                &&& all_askable(
                    draft.cart.order_item_inputs@,
                    draft.cart.counts@,
                    draft.cart.product_variant_ids@,
                )
            },
            (CreateOrder::QueryDiscounts { draft, .. }, CreateOrderReply::Discounts { response }) =>
                response matches Ok(Some(lists)) && provides_for_all(
                    by_product_variant(lists@),
                    draft.cart.product_variant_ids@,
                ) && forall|id: Uuid| #[trigger]
                    draft.product_variant_versions@.contains_key(id) ==> shipment_failure(
                        draft.cart.counts@,
                        draft.cart.order_item_inputs@,
                        id,
                    ) is None,
            (CreateOrder::QueryShipmentFees { maps, .. }, CreateOrderReply::ShipmentFees { response }) =>
                response matches Ok(Some(fees)) && fees >= 0 && forall|id: Uuid| #[trigger]
                    maps.product_variants@.contains_key(id) ==> maps.missing(id) is None,
            (CreateOrder::BuildOrderItems { .. }, CreateOrderReply::OrderItems { .. }) => true,
            (CreateOrder::InsertOrder { .. }, CreateOrderReply::Inserted { inserted }) =>
                inserted matches Ok(InsertedId::Binary { subtype, bytes }) && subtype == UUID_SUBTYPE
                    && bytes@.len() == 16,
            (CreateOrder::FindOrder { .. }, CreateOrderReply::Order { found }) => found is Ok,
            _ => false,
        }
    }
}

/// The creation of an order fails exactly when something in a reply stands in its way.
pub proof fn creation_fails_only_for_a_reason(state: CreateOrder, reply: CreateOrderReply, next: CreateOrder)
    requires
        state.takes(reply, next),
    ensures
        state.favours(reply) <==> !(next matches CreateOrder::Done { result: Err(_) }),
        state.favours(reply) ==> next.depth() == state.depth() + 1,
{
    if let CreateOrder::Done { result: Err(error) } = next {
        match (state, reply) {
            (CreateOrder::FindShipmentMethods { ids, .. }, CreateOrderReply::Objects { found }) => {
                lemma_objects(ObjectKind::ShipmentMethod, ids@, found, error);
            },
            (CreateOrder::FindCoupons { ids, .. }, CreateOrderReply::Objects { found }) => {
                lemma_objects(ObjectKind::Coupon, ids@, found, error);
            },
            (CreateOrder::FindTaxRates { draft, .. }, CreateOrderReply::TaxRates { found }) => {
                let cart = draft.cart;
                if not_askable(
                    cart.order_item_inputs@,
                    cart.counts@,
                    cart.product_variant_ids@,
                    error,
                ) {
                    lemma_not_askable(
                        cart.order_item_inputs@,
                        cart.counts@,
                        cart.product_variant_ids@,
                        error,
                    );
                }
            },
            _ => {},
        }
    }
}

/// As long as nothing stands in the way, the creation of an order goes on, and after sixteen replies
/// it ends in an order.
pub proof fn favoured_orders_are_created(
    input: CreateOrderInput,
    states: Seq<CreateOrder>,
    replies: Seq<CreateOrderReply>,
)
    requires
        CreateOrder::is_course(input, states, replies),
        forall|i: int| 0 <= i < replies.len() ==> states[i].favours(#[trigger] replies[i]),
    ensures
        states.last().depth() == replies.len(),
        replies.len() == 16 ==> (states.last() matches CreateOrder::Done { result } && result is Ok),
{
    if replies.len() > 0 {
        let last = replies.len() - 1;
        creation_ends(input, states, replies);
        assert(states[last].favours(replies[last]));
        creation_fails_only_for_a_reason(states[last], replies[last], states[last + 1]);
        assert(states[last].depth() == last);
    }
}

/// Objects are complained of only where not all of them were found.
proof fn lemma_objects(
    kind: ObjectKind,
    object_ids: Seq<Uuid>,
    found: Result<Vec<Uuid>, FindFailure>,
    error: OrderError,
)
    requires
        objects_outcome(kind, object_ids, found, Err(error)),
    ensures
        found matches Ok(there) ==> !object_ids.to_set().subset_of(there@.to_set()),
{
    if let Ok(there) = found {
        let i = choose|i: int| #[trigger]
            last_missing(object_ids, there@, i) && error == (OrderError::NotPresent {
                kind,
                id: object_ids[i],
            });
        assert(object_ids.to_set().contains(object_ids[i]));
    }
}

/// Before the end of a course, its states stand in their order.
proof fn lemma_shapes(
    input: CreateOrderInput,
    states: Seq<CreateOrder>,
    replies: Seq<CreateOrderReply>,
    i: int,
)
    requires
        CreateOrder::is_course(input, states, replies),
        0 <= i < states.len(),
        !(states[i] is Done),
    ensures
        states[i].depth() == i,
        forall|j: int| 0 <= j <= i ==> (#[trigger] states[j]).depth() == j,
        forall|j: int| 0 <= j < i ==> states[j].takes(#[trigger] replies[j], states[j + 1]),
{
    creation_ends(input, states, replies);
    assert forall|j: int| 0 <= j <= i implies (#[trigger] states[j]).depth() == j by {
        if j == replies.len() {
            assert(states[i] == states[j]);
        }
    }
}

/// The wish that a course began with stays the same until the shopping cart is known.
proof fn lemma_input(
    input: CreateOrderInput,
    states: Seq<CreateOrder>,
    replies: Seq<CreateOrderReply>,
)
    requires
        CreateOrder::is_course(input, states, replies),
        replies.len() >= 7,
        !(states[7] is Done),
    ensures
        states[1] == (CreateOrder::FindUser { input }),
        states[2] matches CreateOrder::FindShipmentMethods { input: same, ids } && same == input && ids@
            == shipment_methods_of(input.order_item_inputs@),
        states[3] matches CreateOrder::FindCoupons { input: same, ids } && same == input && ids@
            == coupons_of(input.order_item_inputs@),
        states[4] == (CreateOrder::FindShipmentAddress { input }),
        states[5] == (CreateOrder::FindInvoiceAddress { input }),
        states[6] == (CreateOrder::ReadClock { input }),
        states[7] matches CreateOrder::QueryShoppingCart { input: same, .. } && same == input,
{
    lemma_shapes(input, states, replies, 7);
    assert(states[0].takes(replies[0], states[1]));
    assert(states[1].depth() == 1);
    assert(states[1].takes(replies[1], states[2]));
    assert(states[2].depth() == 2);
    assert(states[2].takes(replies[2], states[3]));
    assert(states[3].depth() == 3);
    assert(states[3].takes(replies[3], states[4]));
    assert(states[4].depth() == 4);
    assert(states[4].takes(replies[4], states[5]));
    assert(states[5].depth() == 5);
    assert(states[5].takes(replies[5], states[6]));
    assert(states[6].depth() == 6);
    assert(states[6].takes(replies[6], states[7]));
}

/// An order is inserted only if the user is authorized, and if the user, the shipment methods and
/// the coupons were found and both addresses are registered under the user.
pub proof fn inserted_orders_are_validated(
    input: CreateOrderInput,
    states: Seq<CreateOrder>,
    replies: Seq<CreateOrderReply>,
    i: int,
)
    requires
        CreateOrder::is_course(input, states, replies),
        0 <= i < states.len(),
        states[i] is InsertOrder,
    ensures
        replies[0] matches CreateOrderReply::Authorized { checked } && checked is Ok,
        replies[1] matches CreateOrderReply::User { found } && found is Ok,
        replies[2] matches CreateOrderReply::Objects { found } && found matches Ok(ids)
            && shipment_methods_of(input.order_item_inputs@).to_set().subset_of(ids@.to_set()),
        replies[3] matches CreateOrderReply::Objects { found } && found matches Ok(ids) && coupons_of(
            input.order_item_inputs@,
        ).to_set().subset_of(ids@.to_set()),
        replies[4] matches CreateOrderReply::Addressee { found } && found matches Some(user)
            && user.user_address_ids@.contains(input.shipment_address_id),
        replies[5] matches CreateOrderReply::Addressee { found } && found matches Some(user)
            && user.user_address_ids@.contains(input.invoice_address_id),
{
    lemma_shapes(input, states, replies, i);
    assert(states[7].depth() == 7);
    lemma_input(input, states, replies);
    assert(states[0].takes(replies[0], states[1]));
    assert(states[1].takes(replies[1], states[2]));
    assert(states[2].takes(replies[2], states[3]));
    assert(states[3].takes(replies[3], states[4]));
    assert(states[4].takes(replies[4], states[5]));
    assert(states[5].takes(replies[5], states[6]));
}

/// What stays the same from the shopping cart to the insertion of an order.
proof fn lemma_drafts(
    input: CreateOrderInput,
    states: Seq<CreateOrder>,
    replies: Seq<CreateOrderReply>,
    n: int,
)
    requires
        CreateOrder::is_course(input, states, replies),
        12 <= n < states.len(),
        !(states[n] is Done),
    ensures
        replies[6] is Clock,
        states[8] is FindProductVariants,
        states[9] is QueryStock,
        states[12] is QueryShipmentFees,
        ({
            let cart = states[8]->FindProductVariants_draft;
            let catalog = states[9]->QueryStock_draft;
            &&& cart.input == input
            &&& cart.created_at == replies[6]->now
            &&& catalog.cart == cart
            &&& states[10] matches CreateOrder::FindTaxRates { draft, .. } && draft == catalog
            &&& states[11] matches CreateOrder::QueryDiscounts { draft, .. } && draft == catalog
            &&& states[12]->QueryShipmentFees_input == input
            &&& states[12]->QueryShipmentFees_created_at == cart.created_at
            &&& states[12]->maps.counts == cart.counts
            &&& states[12]->maps.order_item_inputs == cart.order_item_inputs
            &&& states[12]->maps.product_variants == catalog.product_variants
            &&& states[12]->maps.product_variant_versions == catalog.product_variant_versions
        }),
{
    lemma_shapes(input, states, replies, n);
    assert(states[7].depth() == 7);
    lemma_input(input, states, replies);
    assert(states[6].takes(replies[6], states[7]));
    assert(states[7].takes(replies[7], states[8]));
    assert(states[8].depth() == 8);
    assert(states[8].takes(replies[8], states[9]));
    assert(states[9].depth() == 9);
    assert(states[9].takes(replies[9], states[10]));
    assert(states[10].depth() == 10);
    assert(states[10].takes(replies[10], states[11]));
    assert(states[11].depth() == 11);
    assert(states[11].takes(replies[11], states[12]));
    assert(states[12].depth() == 12);
}

/// An order that is inserted is pending, is about what the user asked for and was created when the
/// clock was read, and its amount is what its items cost together.
pub proof fn inserted_orders_are_pending(
    input: CreateOrderInput,
    states: Seq<CreateOrder>,
    replies: Seq<CreateOrderReply>,
    i: int,
)
    requires
        CreateOrder::is_course(input, states, replies),
        0 <= i < states.len(),
        states[i] is InsertOrder,
    ensures
        i == 14,
        states[i] matches CreateOrder::InsertOrder { order } && {
            &&& order.order_status == OrderStatus::Pending
            &&& order.placed_at is None
            &&& order.rejection_reason is None
            &&& replies[6] matches CreateOrderReply::Clock { now } && order.created_at == now
            &&& order.user_id == input.user_id
            &&& order.shipment_address_id == input.shipment_address_id
            &&& order.invoice_address_id == input.invoice_address_id
            &&& order.payment_information_id == input.payment_information_id
            &&& order.vat_number == input.vat_number
            &&& order.compensatable_order_amount == total_amount(order.internal_order_items@)
        },
{
    lemma_shapes(input, states, replies, i);
    lemma_drafts(input, states, replies, i);
    assert(states[12].takes(replies[12], states[13]));
    assert(states[13].depth() == 13);
    assert(states[13].takes(replies[13], states[14]));
}

/// Whether an item is about a product variant as the catalog says, has its count, and asks for no
/// more than there is in stock.
pub open spec fn is_visible_and_in_stock(
    id: Uuid,
    item: OrderItem,
    product_variants: Map<Uuid, ProductVariant>,
    counts: Map<Uuid, u64>,
    stock: Map<Uuid, u64>,
) -> bool {
    &&& product_variants.contains_key(id)
    &&& product_variants[id].is_publicly_visible
    &&& item.attributes.product_variant == product_variants[id]
    &&& item.attributes.product_variant_version == product_variants[id].current_version
    &&& counts.contains_key(id)
    &&& item.attributes.count == counts[id]
    &&& stock.contains_key(id)
    &&& stock[id] >= item.attributes.count
}

/// Whether `items` are, one by one, about the product variants `ids`, which are those that everybody
/// may see, none of them twice.
pub open spec fn are_visible_and_in_stock(
    ids: Seq<Uuid>,
    items: Seq<OrderItem>,
    product_variants: Map<Uuid, ProductVariant>,
    counts: Map<Uuid, u64>,
    stock: Map<Uuid, u64>,
) -> bool {
    &&& enumerates(ids, publicly_visible(product_variants).dom())
    &&& items.len() == ids.len()
    &&& forall|j: int|
        0 <= j < ids.len() ==> is_visible_and_in_stock(
            ids[j],
            #[trigger] items[j],
            product_variants,
            counts,
            stock,
        )
}

/// An order contains an order item with a specific product variant only once, and one with each
/// product variant that was found and is publicly visible. Every item of an order that is inserted
/// is publicly visible, has the count that the shopping cart says, and is in stock as often.
pub proof fn inserted_items_are_visible_and_in_stock(
    input: CreateOrderInput,
    states: Seq<CreateOrder>,
    replies: Seq<CreateOrderReply>,
    i: int,
)
    requires
        CreateOrder::is_course(input, states, replies),
        0 <= i < states.len(),
        states[i] is InsertOrder,
    ensures
        replies[7] matches CreateOrderReply::ShoppingCart { response: cart_response }
            && cart_response matches Ok(Some(cart_entities))
            && cart_entities@[0] matches Some(ShoppingCartEntity::User { shoppingcart_items })
            && replies[8] matches CreateOrderReply::ProductVariants { found } && found matches Ok(product_variants)
            && replies[9] matches CreateOrderReply::Stock { response } && response matches Ok(Some(entities))
            && states[i] matches CreateOrder::InsertOrder { order } && {
            let cart = ids_and_counts_of(shoppingcart_items@);
            let counts = counts_of(views(input.order_item_inputs@), cart);
            &&& all_in_cart(views(input.order_item_inputs@), cart)
            &&& all_tell_stock(entities@)
            &&& all_available(stock_of(entities@), counts)
            &&& exists|ids: Seq<Uuid>|
                are_visible_and_in_stock(
                    ids,
                    order.internal_order_items@,
                    product_variants@,
                    counts,
                    stock_of(entities@),
                )
        },
{
    lemma_shapes(input, states, replies, i);
    lemma_drafts(input, states, replies, i);
    assert(states[7].depth() == 7);
    lemma_input(input, states, replies);
    assert(states[7].takes(replies[7], states[8]));
    assert(states[8].takes(replies[8], states[9]));
    assert(states[9].takes(replies[9], states[10]));
    assert(states[12].takes(replies[12], states[13]));
    assert(states[13].depth() == 13);
    assert(states[13].takes(replies[13], states[14]));
    let maps = states[12]->maps;
    let attributes = states[13]->attributes@;
    let created_at = states[12]->QueryShipmentFees_created_at;
    let order = states[14]->order;
    let ids = choose|ids: Seq<Uuid>| #[trigger]
        enumerates(ids, maps.product_variants@.dom()) && maps.describe_all(
            ids,
            attributes,
            created_at,
        );
    let found = replies[8]->ProductVariants_found->Ok_0@;
    let stock = stock_of(replies[9]->Stock_response->Ok_0->0@);
    let items = order.internal_order_items@;
    assert forall|j: int| 0 <= j < ids.len() implies is_visible_and_in_stock(
        ids[j],
        #[trigger] items[j],
        found,
        maps.counts@,
        stock,
    ) by {
        assert(ids.to_set().contains(ids[j]));
        assert(maps.product_variants@.contains_key(ids[j]));
        assert(maps.missing(ids[j]) is None);
        assert(maps.describes(ids[j], attributes[j], created_at));
        assert(items[j].attributes == attributes[j]);
    }
    assert(are_visible_and_in_stock(ids, items, found, maps.counts@, stock));
}

/// An order that is returned is the order that was found under the UUID by which the database
/// named the one that was inserted.
pub proof fn returned_orders_were_inserted(
    input: CreateOrderInput,
    states: Seq<CreateOrder>,
    replies: Seq<CreateOrderReply>,
    order: Order,
)
    requires
        CreateOrder::is_course(input, states, replies),
        states.last() == (CreateOrder::Done { result: Ok(order) }),
    ensures
        replies.len() == 16,
        states[14] is InsertOrder,
        replies[14] matches CreateOrderReply::Inserted { inserted } && states[15] matches CreateOrder::FindOrder {
            id,
        } && insertion_outcome(inserted, Ok(id)),
        replies[15] == (CreateOrderReply::Order { found: Ok(order) }),
{
    creation_ends(input, states, replies);
    let last = replies.len() - 1;
    assert(states[last].takes(replies[last], states[last + 1]));
    assert(states[last].depth() == last);
    assert(states[last] is FindOrder);
    lemma_shapes(input, states, replies, 15);
    assert(states[14].depth() == 14);
    assert(states[14].takes(replies[14], states[15]));
}

/// Once the shipment fees are known, no attribute of an order item is missing, provided that the
/// database found no product variants but those that it was asked for.
pub proof fn attributes_are_complete(
    input: CreateOrderInput,
    states: Seq<CreateOrder>,
    replies: Seq<CreateOrderReply>,
)
    requires
        CreateOrder::is_course(input, states, replies),
        replies.len() >= 13,
        states[8] matches CreateOrder::FindProductVariants { draft }
            && replies[8] matches CreateOrderReply::ProductVariants { found } && found matches Ok(map)
            && map@.dom().subset_of(draft.product_variant_ids@.to_set()),
        replies[12] matches CreateOrderReply::ShipmentFees { response } && response matches Ok(Some(fees))
            && fees >= 0,
    ensures
        states[13] is BuildOrderItems,
{
    creation_ends(input, states, replies);
    assert(states[12].takes(replies[12], states[13]));
    lemma_forward(states[12], replies[12], states[13]);
    lemma_shapes(input, states, replies, 12);
    lemma_drafts(input, states, replies, 12);
    assert(states[7].depth() == 7);
    assert(states[7].takes(replies[7], states[8]));
    assert(states[8].takes(replies[8], states[9]));
    assert(states[10].takes(replies[10], states[11]));
    assert(states[11].takes(replies[11], states[12]));
    let maps = states[12]->maps;
    let cart = states[8]->FindProductVariants_draft;
    let inputs = views(states[7]->QueryShoppingCart_input.order_item_inputs@);
    let items = replies[7]->ShoppingCart_response->Ok_0->0@[0]->0->shoppingcart_items@;
    crate::cart::counts_and_inputs_agree(inputs, ids_and_counts_of(items));
    assert(viewed(maps.order_item_inputs@).dom() =~= maps.order_item_inputs@.dom());
    let lists = crate::discounts::by_product_variant(replies[11]->Discounts_response->Ok_0->0@);
    assert(lists.restrict(cart.product_variant_ids@.to_set()).dom() =~= cart.product_variant_ids@.to_set());
    assert forall|id: Uuid| #[trigger] maps.product_variants@.contains_key(id) implies maps.missing(id) is None by {
        assert(cart.product_variant_ids@.to_set().contains(id));
        assert(maps.counts@.contains_key(id));
        assert(maps.product_variant_versions@.contains_key(id));
    }
}

/// No stock that the inventory service can tell is out of range.
proof fn lemma_stock_in_range(entities: Seq<Option<StockEntity>>)
    requires
        all_tell_stock(entities),
    ensures
        forall|id: Uuid| #[trigger] stock_of(entities).contains_key(id) ==> stock_of(entities)[id] <= i64::MAX,
    decreases entities.len(),
{
    if entities.len() > 0 {
        let earlier = stock_of(entities.drop_last());
        lemma_stock_in_range(entities.drop_last());
        assert(stock_failure(entities.last()) is None);
        assert forall|id: Uuid| #[trigger] stock_of(entities).contains_key(id) implies stock_of(entities)[id]
            <= i64::MAX by {
            assert(earlier.contains_key(id) ==> earlier[id] <= i64::MAX);
        }
    }
}

/// Once everything is in stock, the discounts of all product variants can be asked for: only their
/// tax rates may still be missing.
pub proof fn stocked_orders_can_be_asked_about(
    input: CreateOrderInput,
    states: Seq<CreateOrder>,
    replies: Seq<CreateOrderReply>,
    i: int,
)
    requires
        CreateOrder::is_course(input, states, replies),
        0 <= i < states.len(),
        states[i] is FindTaxRates,
    ensures
        states[i] matches CreateOrder::FindTaxRates { draft, .. } && all_askable(
            draft.cart.order_item_inputs@,
            draft.cart.counts@,
            draft.cart.product_variant_ids@,
        ),
{
    lemma_shapes(input, states, replies, i);
    assert(states[7].depth() == 7);
    assert(states[7].takes(replies[7], states[8]));
    assert(states[8].depth() == 8);
    assert(states[8].takes(replies[8], states[9]));
    assert(states[9].depth() == 9);
    assert(states[9].takes(replies[9], states[10]));
    let cart = states[8]->FindProductVariants_draft;
    let ids = cart.product_variant_ids@;
    let inputs = views(states[7]->QueryShoppingCart_input.order_item_inputs@);
    let items = replies[7]->ShoppingCart_response->Ok_0->0@[0]->0->shoppingcart_items@;
    let stock = replies[9]->Stock_response->Ok_0->0@;
    lemma_stock_in_range(stock);
    crate::cart::counts_and_inputs_agree(inputs, ids_and_counts_of(items));
    assert(viewed(cart.order_item_inputs@).dom() =~= cart.order_item_inputs@.dom());
    assert forall|j: int| 0 <= j < ids.len() implies crate::discounts::discount_input_failure(
        cart.order_item_inputs@,
        cart.counts@,
        #[trigger] ids[j],
    ) is None by {
        assert(ids.to_set().contains(ids[j]));
        assert(cart.counts@.contains_key(ids[j]));
        assert(stock_of(stock).contains_key(ids[j]));
    }
}

/// The discount service is asked for each product variant only once, and for no coupon of it twice.
pub proof fn discounts_are_asked_for_once(
    input: CreateOrderInput,
    states: Seq<CreateOrder>,
    replies: Seq<CreateOrderReply>,
    i: int,
)
    requires
        CreateOrder::is_course(input, states, replies),
        input.well_formed(),
        0 <= i < states.len(),
        states[i] is QueryDiscounts,
    ensures
        states[i] matches CreateOrder::QueryDiscounts { variables, .. } && {
            let asked = variables.product_variants@;
            &&& variables.user_id == input.user_id
            &&& forall|j: int| 0 <= j < asked.len() ==> (#[trigger] asked[j]).coupon_ids@.no_duplicates()
            &&& forall|j: int, k: int|
                0 <= j < k < asked.len() ==> (#[trigger] asked[j]).product_variant_id != (
                #[trigger] asked[k]).product_variant_id
        },
{
    lemma_shapes(input, states, replies, i);
    assert(states[7].depth() == 7);
    lemma_input(input, states, replies);
    assert(states[7].takes(replies[7], states[8]));
    assert(states[8].depth() == 8);
    assert(states[8].takes(replies[8], states[9]));
    assert(states[9].depth() == 9);
    assert(states[9].takes(replies[9], states[10]));
    assert(states[10].depth() == 10);
    assert(states[10].takes(replies[10], states[11]));
    let draft = states[8]->FindProductVariants_draft;
    let ids = draft.product_variant_ids@;
    let inputs = views(input.order_item_inputs@);
    let items = replies[7]->ShoppingCart_response->Ok_0->0@[0]->0->shoppingcart_items@;
    let asked = states[11]->QueryDiscounts_variables.product_variants@;
    crate::cart::counts_and_inputs_agree(inputs, ids_and_counts_of(items));
    assert forall|j: int| 0 <= j < asked.len() implies (#[trigger] asked[j]).coupon_ids@.no_duplicates() by {
        assert(ids.to_set().contains(ids[j]));
        assert(draft.counts@.contains_key(ids[j]));
        let by_variant = viewed(draft.order_item_inputs@);
        assert(by_variant.contains_key(ids[j]));
        let k = choose|k: int| 0 <= k < inputs.len() && inputs[k] == by_variant[ids[j]];
        assert(inputs[k].well_formed());
        assert(asked[j].coupon_ids@ == by_variant[ids[j]].coupon_ids);
    }
}

/// The shipment fees only decide whether the creation of an order goes on: whatever they are, it goes
/// on in the same way, to order items with the same attributes.
pub proof fn shipment_fees_leave_items_alone(
    state: CreateOrder,
    fees: i64,
    next: CreateOrder,
    other_fees: i64,
    other_next: CreateOrder,
)
    requires
        state is QueryShipmentFees,
        fees >= 0,
        other_fees >= 0,
        state.takes(CreateOrderReply::ShipmentFees { response: Ok(Some(fees)) }, next),
        state.takes(CreateOrderReply::ShipmentFees { response: Ok(Some(other_fees)) }, other_next),
    ensures
        state.takes(CreateOrderReply::ShipmentFees { response: Ok(Some(other_fees)) }, next),
        next is BuildOrderItems || next is Done,
        next is BuildOrderItems <==> other_next is BuildOrderItems,
        next matches CreateOrder::BuildOrderItems { input, created_at, attributes } ==> {
            &&& other_next->BuildOrderItems_input == input
            &&& other_next->BuildOrderItems_created_at == created_at
            &&& state->maps.zips_to(Ok(attributes), created_at)
            &&& state->maps.zips_to(Ok(other_next->attributes), created_at)
        },
{
}

/// Without shipment fees, or with negative ones, the creation of an order ends in an error.
pub proof fn orders_without_shipment_fees_fail(
    input: CreateOrderInput,
    states: Seq<CreateOrder>,
    replies: Seq<CreateOrderReply>,
    response: Response<i64>,
)
    requires
        CreateOrder::is_course(input, states, replies),
        replies.len() >= 13,
        replies[12] == (CreateOrderReply::ShipmentFees { response }),
        !(response matches Ok(Some(fees)) && fees >= 0),
    ensures
        replies.len() == 13,
        states.last() matches CreateOrder::Done { result: Err(error) } && shipment_fees_outcome(
            response,
            Err(error),
        ),
{
    creation_ends(input, states, replies);
    assert(states[12].depth() == 12);
    assert(states[12].takes(replies[12], states[13]));
    if replies.len() > 13 {
        assert(states[13].takes(replies[13], states[14]));
    }
}

/// Two courses that begin with the same wish and get the same replies until the shipment fees are
/// asked for know the same of every product variant then.
proof fn lemma_same_maps(
    input: CreateOrderInput,
    states: Seq<CreateOrder>,
    replies: Seq<CreateOrderReply>,
    other_states: Seq<CreateOrder>,
    other_replies: Seq<CreateOrderReply>,
)
    requires
        CreateOrder::is_course(input, states, replies),
        CreateOrder::is_course(input, other_states, other_replies),
        replies.len() >= 12,
        other_replies.len() >= 12,
        forall|i: int| 0 <= i < 12 ==> #[trigger] replies[i] == other_replies[i],
        !(states[12] is Done),
        !(other_states[12] is Done),
    ensures
        states[12]->maps.same_as(other_states[12]->maps),
        states[12]->QueryShipmentFees_input == input,
        other_states[12]->QueryShipmentFees_input == input,
        states[12]->QueryShipmentFees_created_at == other_states[12]->QueryShipmentFees_created_at,
{
    lemma_shapes(input, states, replies, 12);
    lemma_shapes(input, other_states, other_replies, 12);
    lemma_drafts(input, states, replies, 12);
    lemma_drafts(input, other_states, other_replies, 12);
    assert(states[7].depth() == 7);
    assert(other_states[7].depth() == 7);
    lemma_input(input, states, replies);
    lemma_input(input, other_states, other_replies);
    assert(replies[6] == other_replies[6]);
    assert(states[7].takes(replies[7], states[8]));
    assert(states[8].takes(replies[8], states[9]));
    assert(states[10].takes(replies[10], states[11]));
    assert(states[11].takes(replies[11], states[12]));
    assert(other_states[7].takes(other_replies[7], other_states[8]));
    assert(other_states[8].takes(other_replies[8], other_states[9]));
    assert(other_states[10].takes(other_replies[10], other_states[11]));
    assert(other_states[11].takes(other_replies[11], other_states[12]));
    let (maps, other_maps) = (states[12]->maps, other_states[12]->maps);
    assert(maps.tax_rate_versions@ =~= other_maps.tax_rate_versions@);
    let lists = by_product_variant(replies[11]->Discounts_response->Ok_0->0@);
    let ids = states[8]->FindProductVariants_draft.product_variant_ids@.to_set();
    assert(ids == other_states[8]->FindProductVariants_draft.product_variant_ids@.to_set());
    assert forall|id: Uuid| #[trigger] maps.discounts@.contains_key(id) implies maps.discounts@[id]@
        == other_maps.discounts@[id]@ by {
        assert(lists.restrict(ids).contains_key(id));
    }
}

/// Maps that say the same zip to the same.
proof fn lemma_same_maps_zip(
    maps: AttributeMaps,
    other: AttributeMaps,
    result: Result<Vec<OrderItemAttributes>, OrderError>,
    created_at: DateTime,
)
    requires
        maps.same_as(other),
        other.zips_to(result, created_at),
    ensures
        maps.zips_to(result, created_at),
{
    assert(viewed(maps.order_item_inputs@).dom() =~= maps.order_item_inputs@.dom());
    assert(viewed(other.order_item_inputs@).dom() =~= other.order_item_inputs@.dom());
    assert forall|id: Uuid| maps.missing(id) == #[trigger] other.missing(id) by {}
    match result {
        Ok(items) => {
            let ids = choose|ids: Seq<Uuid>| #[trigger]
                enumerates(ids, other.product_variants@.dom()) && other.describe_all(ids, items@, created_at);
            assert forall|i: int| 0 <= i < ids.len() implies maps.describes(
                ids[i],
                #[trigger] items@[i],
                created_at,
            ) by {
                let id = ids[i];
                assert(ids.to_set().contains(id));
                assert(other.product_variants@.contains_key(id));
                assert(other.missing(id) is None);
                assert(other.describes(id, items@[i], created_at));
                assert(viewed(maps.order_item_inputs@)[id] == maps.order_item_inputs@[id]@);
                assert(viewed(other.order_item_inputs@)[id] == other.order_item_inputs@[id]@);
                assert(maps.discounts@.contains_key(id));
            }
            assert forall|id: Uuid| #[trigger] maps.product_variants@.contains_key(id) implies maps.missing(
                id,
            ) is None by {
                assert(other.missing(id) is None);
            }
            assert(maps.describe_all(ids, items@, created_at));
        },
        Err(error) => {
            let id = choose|id: Uuid| #[trigger]
                other.product_variants@.contains_key(id) && other.missing(id) is Some && error == (
                OrderError::NotInHashMap { entry: other.missing(id)->0, id });
            assert(maps.product_variants@.contains_key(id));
            assert(maps.missing(id) == other.missing(id));
        },
    }
}

/// Two courses that begin with the same wish and get the same replies, but for the shipment fees,
/// come to the same attributes of order items: the fees enter none of them.
pub proof fn shipment_fees_do_not_matter(
    input: CreateOrderInput,
    states: Seq<CreateOrder>,
    replies: Seq<CreateOrderReply>,
    fees: i64,
    other_states: Seq<CreateOrder>,
    other_replies: Seq<CreateOrderReply>,
    other_fees: i64,
)
    requires
        CreateOrder::is_course(input, states, replies),
        CreateOrder::is_course(input, other_states, other_replies),
        replies.len() >= 13,
        other_replies.len() >= 13,
        forall|i: int| 0 <= i < 12 ==> #[trigger] replies[i] == other_replies[i],
        replies[12] == (CreateOrderReply::ShipmentFees { response: Ok(Some(fees)) }),
        other_replies[12] == (CreateOrderReply::ShipmentFees { response: Ok(Some(other_fees)) }),
        fees >= 0,
        other_fees >= 0,
    ensures
        states[12]->maps.same_as(other_states[12]->maps),
        states[13] is BuildOrderItems || states[13] is Done,
        states[13] is BuildOrderItems <==> other_states[13] is BuildOrderItems,
        states[13] matches CreateOrder::BuildOrderItems { input: same, created_at, attributes } ==> {
            &&& same == input
            &&& other_states[13]->BuildOrderItems_input == input
            &&& other_states[13]->BuildOrderItems_created_at == created_at
            &&& states[12]->maps.zips_to(Ok(attributes), created_at)
            &&& states[12]->maps.zips_to(Ok(other_states[13]->attributes), created_at)
        },
{
    creation_ends(input, states, replies);
    creation_ends(input, other_states, other_replies);
    assert(states[12].depth() == 12);
    assert(other_states[12].depth() == 12);
    assert(states[12].takes(replies[12], states[13]));
    assert(other_states[12].takes(other_replies[12], other_states[13]));
    lemma_same_maps(input, states, replies, other_states, other_replies);
    let (maps, other_maps) = (states[12]->maps, other_states[12]->maps);
    let created_at = states[12]->QueryShipmentFees_created_at;
    match other_states[13] {
        CreateOrder::BuildOrderItems { attributes, .. } => {
            lemma_same_maps_zip(maps, other_maps, Ok(attributes), created_at);
        },
        CreateOrder::Done { result: Err(error) } => {
            lemma_same_maps_zip(maps, other_maps, Err(error), created_at);
        },
        _ => {},
    }
}

} // verus!
