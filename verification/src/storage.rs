//! What the database holds of orders in the course of creating and of placing them, provided that it
//! gives back what it was given.

use crate::creation::{CreateOrder, CreateOrderReply};
use crate::creation_laws::{creation_ends, inserted_orders_are_pending, returned_orders_were_inserted};
use crate::insertion::{own_id_is_found, InsertedId};
use crate::model::{CreateOrderInput, Order, OrderStatus, OrderView, PlaceOrderInput};
use crate::placement::{
    only_timely_pending_orders_are_placed, placed_orders_are_announced, placement_ends, PlaceOrder,
    PlaceOrderReply,
};
use crate::time::{timestamp_of, timestamps_keep_the_timeout, DateTime, PENDING_TIMEOUT_SECS};
use crate::uuid::{be_bytes, Uuid, UUID_SUBTYPE};
use vstd::prelude::*;

verus! {

/// The orders that the database holds, by their UUIDs.
pub type Orders = Map<Uuid, OrderView>;

impl OrderView {
    /// The order after an update to `OrderStatus::Placed`.
    pub open spec fn placed(self, placed_at: DateTime) -> OrderView {
        OrderView { order_status: OrderStatus::Placed, placed_at: Some(placed_at), ..self }
    }

    /// The order after an update to `OrderStatus::Rejected`.
    pub open spec fn rejected(self) -> OrderView {
        OrderView { order_status: OrderStatus::Rejected, ..self }
    }
}

/// Whether a BSON value is the UUID `id`.
pub open spec fn names(inserted_id: InsertedId, id: Uuid) -> bool {
    inserted_id matches InsertedId::Binary { subtype, bytes } && subtype == UUID_SUBTYPE && bytes@
        == be_bytes(id as nat, 16)
}

impl CreateOrder {
    /// Whether a database that holds the orders `before` can give a reply, and hold the orders
    /// `after` from then on. An insertion that fails may have been made or not.
    pub open spec fn stores(self, reply: CreateOrderReply, before: Orders, after: Orders) -> bool {
        match (self, reply) {
            (CreateOrder::InsertOrder { order }, CreateOrderReply::Inserted { inserted }) => {
                let inserts = !before.contains_key(order.id) && after == before.insert(order.id, order@);
                match inserted {
                    Ok(inserted_id) => inserts && names(inserted_id, order.id),
                    Err(()) => inserts || after == before,
                }
            },
            (CreateOrder::FindOrder { id }, CreateOrderReply::Order { found: Ok(order) }) => {
                &&& before.contains_key(id)
                &&& order@ == before[id]
                &&& after == before
            },
            _ => after == before,
        }
    }

    /// Whether `collections` are the orders that the database holds in each state of a course, if
    /// nothing but the course writes to them.
    pub open spec fn is_undisturbed(
        states: Seq<CreateOrder>,
        replies: Seq<CreateOrderReply>,
        collections: Seq<Orders>,
    ) -> bool {
        &&& collections.len() == states.len()
        &&& forall|i: int|
            #![trigger replies[i]]
            0 <= i < replies.len() ==> states[i].stores(replies[i], collections[i], collections[i + 1])
    }
}

/// Until an order is inserted, the database holds the orders that it held before.
pub proof fn nothing_is_stored_before_the_insertion(
    input: CreateOrderInput,
    states: Seq<CreateOrder>,
    replies: Seq<CreateOrderReply>,
    collections: Seq<Orders>,
    i: int,
)
    requires
        CreateOrder::is_course(input, states, replies),
        CreateOrder::is_undisturbed(states, replies, collections),
        0 <= i < states.len(),
        i <= 14,
    ensures
        collections[i] == collections[0],
    decreases i,
{
    if i > 0 {
        nothing_is_stored_before_the_insertion(input, states, replies, collections, i - 1);
        creation_ends(input, states, replies);
        assert(states[i - 1].depth() == i - 1);
        assert(states[i - 1].stores(replies[i - 1], collections[i - 1], collections[i]));
    }
}

/// The order that the creation returns is the pending order that was inserted, and it is the one
/// order that is new in the database.
pub proof fn created_orders_are_stored(
    input: CreateOrderInput,
    states: Seq<CreateOrder>,
    replies: Seq<CreateOrderReply>,
    collections: Seq<Orders>,
    order: Order,
)
    requires
        CreateOrder::is_course(input, states, replies),
        CreateOrder::is_undisturbed(states, replies, collections),
        states.last() == (CreateOrder::Done { result: Ok(order) }),
    ensures
        states[14] matches CreateOrder::InsertOrder { order: inserted } && order@ == inserted@,
        order.order_status == OrderStatus::Pending,
        order.user_id == input.user_id,
        !collections[0].contains_key(order.id),
        collections.last() == collections[0].insert(order.id, order@),
{
    returned_orders_were_inserted(input, states, replies, order);
    inserted_orders_are_pending(input, states, replies, 14);
    nothing_is_stored_before_the_insertion(input, states, replies, collections, 14);
    assert(states[14].stores(replies[14], collections[14], collections[15]));
    assert(states[15].stores(replies[15], collections[15], collections[16]));
    let inserted = states[14]->order;
    let inserted_id = replies[14]->inserted->Ok_0;
    own_id_is_found(inserted.id, inserted_id->bytes, Ok(states[15]->FindOrder_id));
}

impl PlaceOrder {
    /// Whether a database that holds an order as `before` can give a reply, and hold the order as
    /// `after` from then on. An update that fails may have been made or not.
    pub open spec fn stores(self, reply: PlaceOrderReply, before: OrderView, after: OrderView) -> bool {
        match (self, reply) {
            (PlaceOrder::SetPlaced { placed_at, .. }, PlaceOrderReply::Updated { updated }) => after
                == before.placed(placed_at) || updated is Err && after == before,
            (PlaceOrder::SetRejected { .. }, PlaceOrderReply::Updated { updated }) => after
                == before.rejected() || updated is Err && after == before,
            (_, PlaceOrderReply::Order { found: Ok(order) }) => order@ == before && after == before,
            _ => after == before,
        }
    }

    /// Whether `stored` is what the database holds of the order in each state of a course, if
    /// nothing but the course writes to the order.
    pub open spec fn is_undisturbed(
        input: PlaceOrderInput,
        states: Seq<PlaceOrder>,
        replies: Seq<PlaceOrderReply>,
        stored: Seq<OrderView>,
    ) -> bool {
        &&& stored.len() == states.len()
        &&& stored[0].id == input.id
        &&& forall|i: int|
            #![trigger replies[i]]
            0 <= i < replies.len() ==> states[i].stores(replies[i], stored[i], stored[i + 1])
    }
}

/// Until an update is tried, the order stays as it is.
pub proof fn nothing_changes_before_the_update(
    input: PlaceOrderInput,
    states: Seq<PlaceOrder>,
    replies: Seq<PlaceOrderReply>,
    stored: Seq<OrderView>,
    i: int,
)
    requires
        PlaceOrder::is_course(input, states, replies),
        PlaceOrder::is_undisturbed(input, states, replies, stored),
        0 <= i < states.len(),
        i <= 4,
    ensures
        stored[i] == stored[0],
    decreases i,
{
    if i > 0 {
        nothing_changes_before_the_update(input, states, replies, stored, i - 1);
        placement_ends(input, states, replies);
        assert(states[i - 1].depth() == i - 1);
        assert(states[i - 1].stores(replies[i - 1], stored[i - 1], stored[i]));
    }
}

/// The order that other services are told of is the one that the user wants to place, as the
/// database holds it: placed when the clock was read, at most the timeout after it was created, and
/// otherwise as it was before. It stays so whether or not the event is sent.
pub proof fn announced_orders_are_stored_as_placed(
    input: PlaceOrderInput,
    states: Seq<PlaceOrder>,
    replies: Seq<PlaceOrderReply>,
    stored: Seq<OrderView>,
    i: int,
)
    requires
        PlaceOrder::is_course(input, states, replies),
        PlaceOrder::is_undisturbed(input, states, replies, stored),
        0 <= i < states.len(),
        states[i] is SendOrderCreatedEvent,
    ensures
        replies[2] matches PlaceOrderReply::Clock { now }
            && states[i] matches PlaceOrder::SendOrderCreatedEvent { order, .. } && {
            &&& order.id == input.id
            &&& order.order_status == OrderStatus::Placed
            &&& order.placed_at matches Some(placed_at) && {
                &&& placed_at == timestamp_of(now)
                &&& placed_at <= order.created_at + PENDING_TIMEOUT_SECS * 1_000
                &&& order@ == stored[0].placed(placed_at)
            }
            &&& stored.last() == order@
            &&& states.last() matches PlaceOrder::Done { result } ==> (result matches Ok(returned)
                ==> returned == order)
        },
{
    placement_ends(input, states, replies);
    assert(states[i].depth() == 6);
    assert(states[4].depth() == 4);
    assert(states[5].depth() == 5);
    assert(states[5] == states[4].after(replies[4]));
    assert(states[6] == states[5].after(replies[5]));
    assert(states[4] is SetPlaced);
    only_timely_pending_orders_are_placed(input, states, replies, 4);
    nothing_changes_before_the_update(input, states, replies, stored, 3);
    nothing_changes_before_the_update(input, states, replies, stored, 4);
    assert(states[3].depth() == 3);
    assert(states[3].stores(replies[3], stored[3], stored[4]));
    assert(states[4].stores(replies[4], stored[4], stored[5]));
    assert(states[5].stores(replies[5], stored[5], stored[6]));
    let now = replies[2]->now;
    let found = replies[3]->found->Ok_0;
    timestamps_keep_the_timeout(found.created_at, now);
    if replies.len() > 6 {
        assert(states[6].stores(replies[6], stored[6], stored[7]));
        assert(states[7] == states[6].after(replies[6]));
    }
}

/// When an order is rejected and the database took the update, it holds the order as rejected, and
/// otherwise as it was before.
pub proof fn late_orders_are_stored_as_rejected(
    input: PlaceOrderInput,
    states: Seq<PlaceOrder>,
    replies: Seq<PlaceOrderReply>,
    stored: Seq<OrderView>,
    i: int,
)
    requires
        PlaceOrder::is_course(input, states, replies),
        PlaceOrder::is_undisturbed(input, states, replies, stored),
        0 <= i < replies.len(),
        states[i] is SetRejected,
        replies[i] matches PlaceOrderReply::Updated { updated } && updated is Ok,
    ensures
        stored.last() == stored[0].rejected(),
{
    placement_ends(input, states, replies);
    assert(states[i].depth() == 4);
    nothing_changes_before_the_update(input, states, replies, stored, 4);
    assert(states[4].stores(replies[4], stored[4], stored[5]));
    assert(states[5] == states[4].after(replies[4]));
    if replies.len() > 5 {
        assert(states[5].accepts(replies[5]));
    }
}

/// An order that is not pending when a user wants to place it is neither placed nor announced, the
/// wish ends in an error, and the order does not become pending again.
pub proof fn decided_orders_stay_decided(
    input: PlaceOrderInput,
    states: Seq<PlaceOrder>,
    replies: Seq<PlaceOrderReply>,
    stored: Seq<OrderView>,
)
    requires
        PlaceOrder::is_course(input, states, replies),
        PlaceOrder::is_undisturbed(input, states, replies, stored),
        stored[0].order_status != OrderStatus::Pending,
    ensures
        forall|i: int|
            0 <= i < states.len() ==> !((#[trigger] states[i]) is SetPlaced)
                && !(states[i] is SendOrderCreatedEvent),
        states.last() matches PlaceOrder::Done { result } ==> result is Err,
        stored.last().order_status != OrderStatus::Pending,
{
    placement_ends(input, states, replies);
    assert forall|i: int| 0 <= i < states.len() implies !((#[trigger] states[i]) is SetPlaced) by {
        if states[i] is SetPlaced {
            only_timely_pending_orders_are_placed(input, states, replies, i);
            nothing_changes_before_the_update(input, states, replies, stored, 3);
            assert(states[3].depth() == 3);
            assert(states[3].stores(replies[3], stored[3], stored[4]));
        }
    }
    assert forall|i: int| 0 <= i < states.len() implies !((#[trigger] states[i]) is SendOrderCreatedEvent) by {
        if states[i] is SendOrderCreatedEvent {
            assert(states[i].depth() == 6);
            assert(states[4].depth() == 4);
            assert(states[5].depth() == 5);
            assert(states[5] == states[4].after(replies[4]));
            assert(states[6] == states[5].after(replies[5]));
            assert(states[4] is SetPlaced);
        }
    }
    if let PlaceOrder::Done { result: Ok(order) } = states.last() {
        placed_orders_are_announced(input, states, replies, order);
    }
    lemma_status_stays_decided(input, states, replies, stored, states.len() - 1);
}

/// No step makes an order pending again.
proof fn lemma_status_stays_decided(
    input: PlaceOrderInput,
    states: Seq<PlaceOrder>,
    replies: Seq<PlaceOrderReply>,
    stored: Seq<OrderView>,
    i: int,
)
    requires
        PlaceOrder::is_undisturbed(input, states, replies, stored),
        states.len() == replies.len() + 1,
        stored[0].order_status != OrderStatus::Pending,
        0 <= i < states.len(),
    ensures
        stored[i].order_status != OrderStatus::Pending,
    decreases i,
{
    if i > 0 {
        lemma_status_stays_decided(input, states, replies, stored, i - 1);
        assert(states[i - 1].stores(replies[i - 1], stored[i - 1], stored[i]));
    }
}

/// An order is placed, and its event sent, at most once: when it was returned as placed and nothing
/// else wrote to it since, a later wish to place it ends in an error and sends no event.
pub proof fn orders_are_announced_once(
    input: PlaceOrderInput,
    states: Seq<PlaceOrder>,
    replies: Seq<PlaceOrderReply>,
    stored: Seq<OrderView>,
    order: Order,
    later_input: PlaceOrderInput,
    later_states: Seq<PlaceOrder>,
    later_replies: Seq<PlaceOrderReply>,
    later_stored: Seq<OrderView>,
)
    requires
        PlaceOrder::is_course(input, states, replies),
        PlaceOrder::is_undisturbed(input, states, replies, stored),
        states.last() == (PlaceOrder::Done { result: Ok(order) }),
        later_input.id == input.id,
        PlaceOrder::is_course(later_input, later_states, later_replies),
        PlaceOrder::is_undisturbed(later_input, later_states, later_replies, later_stored),
        later_stored[0] == stored.last(),
    ensures
        order.order_status == OrderStatus::Placed,
        stored.last() == order@,
        forall|i: int|
            0 <= i < later_states.len() ==> !((#[trigger] later_states[i]) is SetPlaced)
                && !(later_states[i] is SendOrderCreatedEvent),
        later_states.last() matches PlaceOrder::Done { result } ==> result is Err,
{
    placed_orders_are_announced(input, states, replies, order);
    announced_orders_are_stored_as_placed(input, states, replies, stored, 6);
    decided_orders_stay_decided(later_input, later_states, later_replies, later_stored);
}

} // verus!
