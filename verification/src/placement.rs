//! Placement of orders: a pending order is placed, unless it has been pending for too long.
//!
//! [`PlaceOrder`] is a state machine. Each of its states is something that has to be done outside
//! this library; the reply to it leads to the next state.

use crate::error::OrderError;
use crate::model::{Order, OrderStatus, PaymentAuthorization, PlaceOrderInput};
use crate::payment::{build_payment_authorization, entered_codes_are_passed_on, payment_authorization_of};
use crate::time::{
    from_system_time, is_within_timeout, orders_may_be_placed_for_an_hour, timestamp_of,
    timestamps_are_within_a_millisecond, within_timeout, ClockTime, DateTime,
};
use crate::uuid::Uuid;
use vstd::prelude::*;

verus! {

/// What is to become of an order that a user wants to place.
#[derive(Clone, Copy, Debug)]
pub enum Placement {
    /// It is placed, as of the given time.
    Place { placed_at: DateTime },
    /// It is rejected.
    Reject,
    /// It is left as it is, for it is not pending.
    Refuse,
}

/// What is to become of an order of the given age and status.
pub open spec fn placement_of(created_at: DateTime, order_status: OrderStatus, now: ClockTime) -> Placement {
    if !is_within_timeout(created_at, now) {
        Placement::Reject
    } else if order_status == OrderStatus::Pending {
        Placement::Place { placed_at: timestamp_of(now) as DateTime }
    } else {
        Placement::Refuse
    }
}

/// Decides about setting the status of an order to `OrderStatus::Placed`.
/// Checks if pending order is still valid before setting `OrderStatus::Placed`.
/// Rejects order if timestamp of placement exceeds the timeout in relation to the order creation
/// timestamp.
pub fn set_status_placed(created_at: DateTime, order_status: OrderStatus, now: ClockTime) -> (placement: Placement)
    requires
        now.valid(),
    ensures
        placement == placement_of(created_at, order_status, now),
{
    if within_timeout(created_at, &now) {
        match order_status {
            OrderStatus::Pending => Placement::Place { placed_at: from_system_time(now) },
            _ => Placement::Refuse,
        }
    } else {
        Placement::Reject
    }
}

/// Tells whether an order is placed, by what came of updating it to `OrderStatus::Placed` in
/// MongoDB.
pub fn set_status_placed_in_mongodb(id: Uuid, updated: Result<(), ()>) -> (result: Result<(), OrderError>)
    ensures
        match updated {
            Ok(()) => result == Ok::<(), OrderError>(()),
            Err(()) => result == Err::<(), OrderError>(OrderError::PlacingFailed { id }),
        },
{
    match updated {
        Ok(()) => Ok(()),
        Err(()) => Err(OrderError::PlacingFailed { id }),
    }
}

/// The error that the rejection of an order ends in.
pub open spec fn rejection_error(id: Uuid, updated: Result<(), ()>) -> OrderError {
    match updated {
        Ok(()) => OrderError::PendingTooLong { id },
        Err(()) => OrderError::RejectingFailed { id },
    }
}

/// Tells why an order is not placed, by what came of updating it to `OrderStatus::Rejected` in
/// MongoDB.
///
/// This function always returns an error.
pub fn set_status_rejected_in_mongodb(id: Uuid, updated: Result<(), ()>) -> (result: Result<(), OrderError>)
    ensures
        result == Err::<(), OrderError>(rejection_error(id, updated)),
{
    match updated {
        Ok(()) => Err(OrderError::PendingTooLong { id }),
        Err(()) => Err(OrderError::RejectingFailed { id }),
    }
}

/// The course of placing an order: in each state, what is to be done next.
#[derive(Debug)]
pub enum PlaceOrder {
    /// Find the order by its UUID.
    FindOrder { input: PlaceOrderInput },
    /// Check that the user of the request may act for the user of the order.
    Authorize { input: PlaceOrderInput, user_id: Uuid },
    /// Read the system clock.
    ReadClock { id: Uuid, payment_authorization: Option<PaymentAuthorization> },
    /// Find the order again, for its age and its status.
    FindOrderToPlace { id: Uuid, payment_authorization: Option<PaymentAuthorization>, now: ClockTime },
    /// Update the order to `OrderStatus::Placed`, as of the given time.
    SetPlaced { id: Uuid, payment_authorization: Option<PaymentAuthorization>, placed_at: DateTime },
    /// Update the order to `OrderStatus::Rejected`.
    SetRejected { id: Uuid },
    /// Find the order as it has become.
    FindPlacedOrder { id: Uuid, payment_authorization: Option<PaymentAuthorization> },
    /// Tell other services of the order, and of the payment authorization that goes with it.
    SendOrderCreatedEvent { order: Order, payment_authorization: Option<PaymentAuthorization> },
    /// Nothing; this is the result.
    Done { result: Result<Order, OrderError> },
}

/// What came of what was to be done.
#[derive(Debug)]
pub enum PlaceOrderReply {
    /// The order that was looked for, or the words of the failure.
    Order { found: Result<Order, String> },
    /// Whether the user is authorized, or the words of the refusal.
    Authorized { checked: Result<(), String> },
    /// The time.
    Clock { now: ClockTime },
    /// Whether the database took the update.
    Updated { updated: Result<(), ()> },
    /// Whether the event was sent, or the words of the failure.
    Sent { sent: Result<(), String> },
}

impl PlaceOrder {
    /// Whether a reply answers what is to be done.
    pub open spec fn accepts(self, reply: PlaceOrderReply) -> bool {
        match self {
            PlaceOrder::FindOrder { .. } => reply is Order,
            PlaceOrder::Authorize { .. } => reply is Authorized,
            PlaceOrder::ReadClock { .. } => reply matches PlaceOrderReply::Clock { now } && now.valid(),
            PlaceOrder::FindOrderToPlace { now, .. } => reply is Order && now.valid(),
            PlaceOrder::SetPlaced { .. } => reply is Updated,
            PlaceOrder::SetRejected { .. } => reply is Updated,
            PlaceOrder::FindPlacedOrder { .. } => reply is Order,
            PlaceOrder::SendOrderCreatedEvent { .. } => reply is Sent,
            PlaceOrder::Done { .. } => false,
        }
    }

    /// The end of the course in an error.
    pub open spec fn failed(error: OrderError) -> PlaceOrder {
        PlaceOrder::Done { result: Err(error) }
    }

    /// The state that a reply leads to.
    pub open spec fn after(self, reply: PlaceOrderReply) -> PlaceOrder
        recommends
            self.accepts(reply),
    {
        match (self, reply) {
            (PlaceOrder::FindOrder { input }, PlaceOrderReply::Order { found }) => match found {
                Ok(order) => PlaceOrder::Authorize { input, user_id: order.user_id },
                Err(text) => Self::failed(OrderError::Reported { text }),
            },
            (PlaceOrder::Authorize { input, .. }, PlaceOrderReply::Authorized { checked }) => match checked {
                Ok(()) => PlaceOrder::ReadClock {
                    id: input.id,
                    payment_authorization: payment_authorization_of(input),
                },
                Err(text) => Self::failed(OrderError::Reported { text }),
            },
            (PlaceOrder::ReadClock { id, payment_authorization }, PlaceOrderReply::Clock { now }) =>
                PlaceOrder::FindOrderToPlace { id, payment_authorization, now },
            (
                PlaceOrder::FindOrderToPlace { id, payment_authorization, now },
                PlaceOrderReply::Order { found },
            ) => match found {
                Ok(order) => match placement_of(order.created_at, order.order_status, now) {
                    Placement::Place { placed_at } => PlaceOrder::SetPlaced {
                        id,
                        payment_authorization,
                        placed_at,
                    },
                    Placement::Reject => PlaceOrder::SetRejected { id },
                    Placement::Refuse => Self::failed(OrderError::NotPending { status: order.order_status }),
                },
                Err(text) => Self::failed(OrderError::Reported { text }),
            },
            (
                PlaceOrder::SetPlaced { id, payment_authorization, .. },
                PlaceOrderReply::Updated { updated },
            ) => match updated {
                Ok(()) => PlaceOrder::FindPlacedOrder { id, payment_authorization },
                Err(()) => Self::failed(OrderError::PlacingFailed { id }),
            },
            (PlaceOrder::SetRejected { id }, PlaceOrderReply::Updated { updated }) => Self::failed(
                rejection_error(id, updated),
            ),
            (
                PlaceOrder::FindPlacedOrder { payment_authorization, .. },
                PlaceOrderReply::Order { found },
            ) => match found {
                Ok(order) => PlaceOrder::SendOrderCreatedEvent { order, payment_authorization },
                Err(text) => Self::failed(OrderError::Reported { text }),
            },
            (PlaceOrder::SendOrderCreatedEvent { order, .. }, PlaceOrderReply::Sent { sent }) => match sent {
                Ok(()) => PlaceOrder::Done { result: Ok(order) },
                Err(text) => Self::failed(OrderError::Reported { text }),
            },
            _ => self,
        }
    }

    /// Tells whether a reply answers what is to be done.
    pub fn can_take(&self, reply: &PlaceOrderReply) -> (taken: bool)
        ensures
            taken == self.accepts(*reply),
    {
        match (self, reply) {
            (PlaceOrder::FindOrder { .. }, PlaceOrderReply::Order { .. }) => true,
            (PlaceOrder::Authorize { .. }, PlaceOrderReply::Authorized { .. }) => true,
            (PlaceOrder::ReadClock { .. }, PlaceOrderReply::Clock { now }) => now.is_valid(),
            (PlaceOrder::FindOrderToPlace { now, .. }, PlaceOrderReply::Order { .. }) => now.is_valid(),
            (PlaceOrder::SetPlaced { .. }, PlaceOrderReply::Updated { .. }) => true,
            (PlaceOrder::SetRejected { .. }, PlaceOrderReply::Updated { .. }) => true,
            (PlaceOrder::FindPlacedOrder { .. }, PlaceOrderReply::Order { .. }) => true,
            (PlaceOrder::SendOrderCreatedEvent { .. }, PlaceOrderReply::Sent { .. }) => true,
            _ => false,
        }
    }

    /// Takes a reply, and tells what is to be done next.
    pub fn step(self, reply: PlaceOrderReply) -> (next: PlaceOrder)
        requires
            self.accepts(reply),
        ensures
            next == self.after(reply),
    {
        match (self, reply) {
            (PlaceOrder::FindOrder { input }, PlaceOrderReply::Order { found }) => match found {
                Ok(order) => PlaceOrder::Authorize { input, user_id: order.user_id },
                Err(text) => PlaceOrder::Done { result: Err(OrderError::Reported { text }) },
            },
            (PlaceOrder::Authorize { input, .. }, PlaceOrderReply::Authorized { checked }) => match checked {
                Ok(()) => PlaceOrder::ReadClock {
                    id: input.id,
                    payment_authorization: build_payment_authorization(&input),
                },
                Err(text) => PlaceOrder::Done { result: Err(OrderError::Reported { text }) },
            },
            (PlaceOrder::ReadClock { id, payment_authorization }, PlaceOrderReply::Clock { now }) =>
                PlaceOrder::FindOrderToPlace { id, payment_authorization, now },
            (
                PlaceOrder::FindOrderToPlace { id, payment_authorization, now },
                PlaceOrderReply::Order { found },
            ) => match found {
                Ok(order) => match set_status_placed(order.created_at, order.order_status, now) {
                    Placement::Place { placed_at } => PlaceOrder::SetPlaced {
                        id,
                        payment_authorization,
                        placed_at,
                    },
                    Placement::Reject => PlaceOrder::SetRejected { id },
                    Placement::Refuse => PlaceOrder::Done {
                        result: Err(OrderError::NotPending { status: order.order_status }),
                    },
                },
                Err(text) => PlaceOrder::Done { result: Err(OrderError::Reported { text }) },
            },
            (
                PlaceOrder::SetPlaced { id, payment_authorization, .. },
                PlaceOrderReply::Updated { updated },
            ) => match set_status_placed_in_mongodb(id, updated) {
                Ok(()) => PlaceOrder::FindPlacedOrder { id, payment_authorization },
                Err(error) => PlaceOrder::Done { result: Err(error) },
            },
            (PlaceOrder::SetRejected { id }, PlaceOrderReply::Updated { updated }) => PlaceOrder::Done {
                result: Err(set_status_rejected_in_mongodb(id, updated).unwrap_err()),
            },
            (
                PlaceOrder::FindPlacedOrder { payment_authorization, .. },
                PlaceOrderReply::Order { found },
            ) => match found {
                Ok(order) => PlaceOrder::SendOrderCreatedEvent { order, payment_authorization },
                Err(text) => PlaceOrder::Done { result: Err(OrderError::Reported { text }) },
            },
            (PlaceOrder::SendOrderCreatedEvent { order, .. }, PlaceOrderReply::Sent { sent }) => match sent {
                Ok(()) => PlaceOrder::Done { result: Ok(order) },
                Err(text) => PlaceOrder::Done { result: Err(OrderError::Reported { text }) },
            },
            (state, _) => state,
        }
    }
}

impl PlaceOrder {
    /// How many replies it takes to get to a state, the end of the course aside.
    pub open spec fn depth(self) -> nat {
        match self {
            PlaceOrder::FindOrder { .. } => 0,
            PlaceOrder::Authorize { .. } => 1,
            PlaceOrder::ReadClock { .. } => 2,
            PlaceOrder::FindOrderToPlace { .. } => 3,
            PlaceOrder::SetPlaced { .. } => 4,
            PlaceOrder::SetRejected { .. } => 4,
            PlaceOrder::FindPlacedOrder { .. } => 5,
            PlaceOrder::SendOrderCreatedEvent { .. } => 6,
            PlaceOrder::Done { .. } => 7,
        }
    }

    /// Whether `states` are the states that a wish to place an order goes through, `replies` being
    /// the replies that it gets.
    pub open spec fn is_course(
        input: PlaceOrderInput,
        states: Seq<PlaceOrder>,
        replies: Seq<PlaceOrderReply>,
    ) -> bool {
        &&& states.len() == replies.len() + 1
        &&& states[0] == PlaceOrder::FindOrder { input }
        &&& forall|i: int|
            #![trigger replies[i]]
            0 <= i < replies.len() ==> states[i].accepts(replies[i]) && states[i + 1] == states[i].after(
                replies[i],
            )
    }
}

/// Every reply brings the placement of an order forward, so that it ends after at most seven.
pub proof fn placement_ends(input: PlaceOrderInput, states: Seq<PlaceOrder>, replies: Seq<PlaceOrderReply>)
    requires
        PlaceOrder::is_course(input, states, replies),
    ensures
        replies.len() <= 7,
        forall|i: int|
            0 <= i < states.len() ==> (#[trigger] states[i]).depth() == i || states[i] is Done && i
                == replies.len(),
    decreases replies.len(),
{
    if replies.len() > 0 {
        let (earlier_states, earlier_replies) = (states.drop_last(), replies.drop_last());
        assert forall|i: int|
            #![trigger earlier_replies[i]]
            0 <= i < earlier_replies.len() implies earlier_states[i].accepts(earlier_replies[i])
            && earlier_states[i + 1] == earlier_states[i].after(earlier_replies[i]) by {
            assert(earlier_replies[i] == replies[i]);
        }
        placement_ends(input, earlier_states, earlier_replies);
        let last = replies.len() - 1;
        assert(states[last].accepts(replies[last]));
        assert(earlier_states[last] == states[last]);
        assert forall|i: int| 0 <= i < states.len() implies (#[trigger] states[i]).depth() == i
            || states[i] is Done && i == replies.len() by {
            if i < last {
                assert(replies[i] == earlier_replies[i]);
                assert(earlier_states[i] == states[i]);
            }
        }
    }
}

/// An order is updated to `OrderStatus::Placed` only if the user is authorized, and only if the
/// order was found to be pending and had been so for no longer than the timeout.
pub proof fn only_timely_pending_orders_are_placed(
    input: PlaceOrderInput,
    states: Seq<PlaceOrder>,
    replies: Seq<PlaceOrderReply>,
    i: int,
)
    requires
        PlaceOrder::is_course(input, states, replies),
        0 <= i < states.len(),
        states[i] is SetPlaced,
    ensures
        i == 4,
        replies[1] matches PlaceOrderReply::Authorized { checked } && checked is Ok,
        replies[2] matches PlaceOrderReply::Clock { now } && replies[3] matches PlaceOrderReply::Order {
            found,
        } && found matches Ok(order) && {
            &&& order.order_status == OrderStatus::Pending
            &&& is_within_timeout(order.created_at, now)
            &&& states[i] == PlaceOrder::SetPlaced {
                id: input.id,
                payment_authorization: payment_authorization_of(input),
                placed_at: timestamp_of(now) as DateTime,
            }
        },
{
    placement_ends(input, states, replies);
    assert(states[i].depth() == 4);
    assert(states[0].depth() == 0);
    assert(states[1] == states[0].after(replies[0]));
    assert(states[2] == states[1].after(replies[1]));
    assert(states[3] == states[2].after(replies[2]));
    assert(states[4] == states[3].after(replies[3]));
}

/// An order that has been pending for longer than the timeout when it is to be placed is rejected.
pub proof fn late_orders_are_rejected(
    input: PlaceOrderInput,
    states: Seq<PlaceOrder>,
    replies: Seq<PlaceOrderReply>,
    now: ClockTime,
    order: Order,
)
    requires
        PlaceOrder::is_course(input, states, replies),
        replies.len() >= 4,
        replies[2] == (PlaceOrderReply::Clock { now }),
        replies[3] == (PlaceOrderReply::Order { found: Ok(order) }),
        !is_within_timeout(order.created_at, now),
    ensures
        states[4] == (PlaceOrder::SetRejected { id: input.id }),
{
    lemma_first_steps(input, states, replies);
}

/// An order that was placed or rejected before is not placed: in time, the wish is refused without
/// an update.
pub proof fn orders_are_placed_once(
    input: PlaceOrderInput,
    states: Seq<PlaceOrder>,
    replies: Seq<PlaceOrderReply>,
    now: ClockTime,
    order: Order,
)
    requires
        PlaceOrder::is_course(input, states, replies),
        replies.len() >= 4,
        replies[2] == (PlaceOrderReply::Clock { now }),
        replies[3] == (PlaceOrderReply::Order { found: Ok(order) }),
        order.order_status != OrderStatus::Pending,
        is_within_timeout(order.created_at, now),
    ensures
        states.last() == PlaceOrder::failed(OrderError::NotPending { status: order.order_status }),
        replies.len() == 4,
{
    lemma_first_steps(input, states, replies);
    if replies.len() > 4 {
        assert(states[4].accepts(replies[4]));
    }
}

/// The first four steps of a course.
proof fn lemma_first_steps(input: PlaceOrderInput, states: Seq<PlaceOrder>, replies: Seq<PlaceOrderReply>)
    requires
        PlaceOrder::is_course(input, states, replies),
        replies.len() >= 4,
    ensures
        states[3] is FindOrderToPlace,
        states[3]->FindOrderToPlace_id == input.id,
        replies[2] matches PlaceOrderReply::Clock { now } && states[3]->now == now,
        states[4] == states[3].after(replies[3]),
{
    placement_ends(input, states, replies);
    assert(states[1] == states[0].after(replies[0]));
    assert(states[2] == states[1].after(replies[1]));
    assert(states[3] == states[2].after(replies[2]));
    assert(states[3].accepts(replies[3]));
    assert(states[1].depth() == 1);
    assert(states[2].depth() == 2);
    assert(states[3].depth() == 3);
}

/// The rejection of an order ends in an error, whether or not the database took the update.
pub proof fn rejection_is_an_error(
    input: PlaceOrderInput,
    states: Seq<PlaceOrder>,
    replies: Seq<PlaceOrderReply>,
    i: int,
)
    requires
        PlaceOrder::is_course(input, states, replies),
        0 <= i < replies.len(),
        states[i] is SetRejected,
    ensures
        states.last() == PlaceOrder::failed(OrderError::PendingTooLong { id: input.id }) || states.last()
            == PlaceOrder::failed(OrderError::RejectingFailed { id: input.id }),
{
    placement_ends(input, states, replies);
    assert(states[i].depth() == 4);
    assert(states[1] == states[0].after(replies[0]));
    assert(states[2] == states[1].after(replies[1]));
    assert(states[3] == states[2].after(replies[2]));
    assert(states[4] == states[3].after(replies[3]));
    assert(states[5] == states[4].after(replies[4]));
    if replies.len() > 5 {
        assert(states[5].accepts(replies[5]));
    }
}

/// An order that is returned as placed was updated to `OrderStatus::Placed`, is the order as it was
/// found afterwards, and other services were told of it.
pub proof fn placed_orders_are_announced(
    input: PlaceOrderInput,
    states: Seq<PlaceOrder>,
    replies: Seq<PlaceOrderReply>,
    order: Order,
)
    requires
        PlaceOrder::is_course(input, states, replies),
        states.last() == (PlaceOrder::Done { result: Ok(order) }),
    ensures
        replies.len() == 7,
        states[4] is SetPlaced,
        replies[4] matches PlaceOrderReply::Updated { updated } && updated is Ok,
        replies[5] == (PlaceOrderReply::Order { found: Ok(order) }),
        states[6] == (PlaceOrder::SendOrderCreatedEvent {
            order,
            payment_authorization: payment_authorization_of(input),
        }),
        replies[6] matches PlaceOrderReply::Sent { sent } && sent is Ok,
{
    placement_ends(input, states, replies);
    let last = replies.len() - 1;
    assert(states[last + 1] == states[last].after(replies[last]));
    assert(states[last].depth() == last);
    assert(states[last] is SendOrderCreatedEvent);
    assert(states[1] == states[0].after(replies[0]));
    assert(states[2] == states[1].after(replies[1]));
    assert(states[3] == states[2].after(replies[2]));
    assert(states[4] == states[3].after(replies[3]));
    assert(states[5] == states[4].after(replies[4]));
    assert(states[6] == states[5].after(replies[5]));
    assert(states[7] == states[6].after(replies[6]));
    assert(states[4].depth() == 4);
    assert(states[5].depth() == 5);
}

/// What is to become of an order is decided by the clock and its status alone. An hour after its
/// creation, to the nanosecond, is the latest that it is placed if it is pending, and refused if it is
/// not; after that it is rejected. It is placed as of the clock, less than a millisecond towards the
/// epoch.
pub proof fn clock_and_status_decide(created_at: DateTime, order_status: OrderStatus, now: ClockTime)
    ensures
        ({
            let distance = now.secs * 1_000_000_000 + now.nanos;
            let shown = if now.before_epoch {
                -distance
            } else {
                distance
            };
            let late = shown > created_at * 1_000_000 + 3_600_000_000_000;
            match placement_of(created_at, order_status, now) {
                Placement::Reject => late,
                Placement::Refuse => !late && order_status != OrderStatus::Pending,
                Placement::Place { placed_at } => !late && order_status == OrderStatus::Pending && if shown >= 0 {
                    &&& 0 <= placed_at * 1_000_000 <= shown
                    &&& shown < placed_at * 1_000_000 + 1_000_000 || placed_at == i64::MAX
                } else {
                    &&& shown <= placed_at * 1_000_000 <= 0
                    &&& placed_at * 1_000_000 < shown + 1_000_000 || placed_at == i64::MIN
                },
            }
        }),
{
    orders_may_be_placed_for_an_hour(created_at, now);
    timestamps_are_within_a_millisecond(now);
}

/// Placing is due: a pending order that is found within an hour after its creation is updated to
/// `OrderStatus::Placed`, as of the time that the clock showed.
pub proof fn timely_pending_orders_are_placed(
    input: PlaceOrderInput,
    states: Seq<PlaceOrder>,
    replies: Seq<PlaceOrderReply>,
    now: ClockTime,
    order: Order,
)
    requires
        PlaceOrder::is_course(input, states, replies),
        replies.len() >= 4,
        replies[2] == (PlaceOrderReply::Clock { now }),
        replies[3] == (PlaceOrderReply::Order { found: Ok(order) }),
        order.order_status == OrderStatus::Pending,
        !now.before_epoch ==> now.secs * 1_000_000_000 + now.nanos <= order.created_at * 1_000_000
            + 3_600_000_000_000,
        now.before_epoch ==> -(now.secs * 1_000_000_000 + now.nanos) <= order.created_at * 1_000_000
            + 3_600_000_000_000,
    ensures
        states[4] matches PlaceOrder::SetPlaced { id, placed_at, .. } && id == input.id && placed_at
            == timestamp_of(now),
{
    lemma_first_steps(input, states, replies);
    clock_and_status_decide(order.created_at, order.order_status, now);
    timestamps_are_within_a_millisecond(now);
}

/// An order is updated to `OrderStatus::Rejected` only if the clock showed a time more than an hour
/// after its creation.
pub proof fn only_late_orders_are_rejected(
    input: PlaceOrderInput,
    states: Seq<PlaceOrder>,
    replies: Seq<PlaceOrderReply>,
    i: int,
)
    requires
        PlaceOrder::is_course(input, states, replies),
        0 <= i < states.len(),
        states[i] is SetRejected,
    ensures
        states[i]->SetRejected_id == input.id,
        replies[2] matches PlaceOrderReply::Clock { now } && replies[3] matches PlaceOrderReply::Order {
            found: Ok(order),
        } && if now.before_epoch {
            -(now.secs * 1_000_000_000 + now.nanos) > order.created_at * 1_000_000 + 3_600_000_000_000
        } else {
            now.secs * 1_000_000_000 + now.nanos > order.created_at * 1_000_000 + 3_600_000_000_000
        },
{
    placement_ends(input, states, replies);
    assert(states[i].depth() == 4);
    lemma_first_steps(input, states, replies);
    let now = replies[2]->now;
    let order = replies[3]->found->Ok_0;
    clock_and_status_decide(order.created_at, order.order_status, now);
}

/// The event of a placed order carries the code that the user entered, and none if none was entered.
pub proof fn events_carry_the_entered_code(
    input: PlaceOrderInput,
    states: Seq<PlaceOrder>,
    replies: Seq<PlaceOrderReply>,
    i: int,
)
    requires
        PlaceOrder::is_course(input, states, replies),
        0 <= i < states.len(),
        states[i] is SendOrderCreatedEvent,
    ensures
        states[i] matches PlaceOrder::SendOrderCreatedEvent { payment_authorization, .. }
            && match input.payment_authorization {
            Some(entered) => match entered.cvc {
                Some(code) => payment_authorization matches Some(passed_on) && passed_on.cvc == code,
                None => payment_authorization is None,
            },
            None => payment_authorization is None,
        },
{
    placement_ends(input, states, replies);
    assert(states[i].depth() == 6);
    assert(states[1] == states[0].after(replies[0]));
    assert(states[2] == states[1].after(replies[1]));
    assert(states[3] == states[2].after(replies[2]));
    assert(states[4] == states[3].after(replies[3]));
    assert(states[5] == states[4].after(replies[4]));
    assert(states[6] == states[5].after(replies[5]));
    entered_codes_are_passed_on(input);
}

/// A course of placing is about the order that the user names, from its beginning to its end. The user
/// of the order that was found is the one who has to be authorized, the clock is read once, and the
/// order that is announced is the one that was found last.
pub proof fn placements_are_about_one_order(
    input: PlaceOrderInput,
    states: Seq<PlaceOrder>,
    replies: Seq<PlaceOrderReply>,
    i: int,
)
    requires
        PlaceOrder::is_course(input, states, replies),
        0 <= i < states.len(),
    ensures
        match states[i] {
            PlaceOrder::FindOrder { input: same } => same == input,
            PlaceOrder::Authorize { input: same, user_id } => {
                &&& same == input
                &&& replies[0] matches PlaceOrderReply::Order { found: Ok(order) } && order.user_id == user_id
            },
            PlaceOrder::ReadClock { id, .. } => id == input.id,
            PlaceOrder::FindOrderToPlace { id, now, .. } => id == input.id && replies[2] == (
            PlaceOrderReply::Clock { now }),
            PlaceOrder::SetPlaced { id, .. } => id == input.id,
            PlaceOrder::SetRejected { id } => id == input.id,
            PlaceOrder::FindPlacedOrder { id, .. } => id == input.id,
            PlaceOrder::SendOrderCreatedEvent { order, .. } => replies[5] == (PlaceOrderReply::Order {
                found: Ok(order),
            }),
            PlaceOrder::Done { result } => result matches Ok(order) ==> replies[5] == (PlaceOrderReply::Order {
                found: Ok(order),
            }),
        },
{
    placement_ends(input, states, replies);
    if replies.len() > 0 {
        assert(states[1] == states[0].after(replies[0]));
    }
    if replies.len() > 1 {
        assert(states[2] == states[1].after(replies[1]));
        assert(states[1].depth() == 1);
    }
    if replies.len() > 2 {
        assert(states[3] == states[2].after(replies[2]));
        assert(states[2].depth() == 2);
    }
    if replies.len() > 3 {
        assert(states[4] == states[3].after(replies[3]));
        assert(states[3].depth() == 3);
    }
    if replies.len() > 4 {
        assert(states[5] == states[4].after(replies[4]));
        assert(states[4].depth() == 4);
    }
    if replies.len() > 5 {
        assert(states[6] == states[5].after(replies[5]));
        assert(states[5].depth() == 5);
    }
    if replies.len() > 6 {
        assert(states[7] == states[6].after(replies[6]));
        assert(states[6].depth() == 6);
    }
}

/// Nothing but a failure ends a placement early: what is reported is passed on in its own words, an
/// update that failed is an error about the order, and as long as nothing fails the placement goes on
/// until the order that was announced is returned. (What becomes of the order that is to be placed,
/// the clock and its status decide; its rejection always ends in an error.)
pub proof fn only_failures_end_a_placement(state: PlaceOrder, reply: PlaceOrderReply)
    requires
        state.accepts(reply),
    ensures
        match reply {
            PlaceOrderReply::Order { found: Err(text) } => state.after(reply) == PlaceOrder::failed(
                OrderError::Reported { text },
            ),
            PlaceOrderReply::Authorized { checked: Err(text) } => state.after(reply) == PlaceOrder::failed(
                OrderError::Reported { text },
            ),
            PlaceOrderReply::Sent { sent: Err(text) } => state.after(reply) == PlaceOrder::failed(
                OrderError::Reported { text },
            ),
            PlaceOrderReply::Updated { updated: Err(()) } => match state {
                PlaceOrder::SetPlaced { id, .. } => state.after(reply) == PlaceOrder::failed(
                    OrderError::PlacingFailed { id },
                ),
                PlaceOrder::SetRejected { id } => state.after(reply) == PlaceOrder::failed(
                    OrderError::RejectingFailed { id },
                ),
                _ => false,
            },
            _ => match state {
                PlaceOrder::SetRejected { id } => state.after(reply) == PlaceOrder::failed(
                    OrderError::PendingTooLong { id },
                ),
                PlaceOrder::SendOrderCreatedEvent { order, .. } => state.after(reply) == (PlaceOrder::Done {
                    result: Ok(order),
                }),
                PlaceOrder::FindOrderToPlace { .. } => true,
                _ => !(state.after(reply) is Done),
            },
        },
{
}

/// A placement takes every reply that answers what is to be done. Of the clock it takes every time of
/// which the seconds fit a signed 64-bit number and the nanoseconds make no second.
pub proof fn fitting_replies_are_taken(state: PlaceOrder, reply: PlaceOrderReply)
    ensures
        state.accepts(reply) <==> match state {
            PlaceOrder::FindOrder { .. } => reply is Order,
            PlaceOrder::Authorize { .. } => reply is Authorized,
            PlaceOrder::ReadClock { .. } => reply matches PlaceOrderReply::Clock { now } && now.secs
                <= 0x7fff_ffff_ffff_ffff && now.nanos < 1_000_000_000,
            PlaceOrder::FindOrderToPlace { now, .. } => reply is Order && now.secs <= 0x7fff_ffff_ffff_ffff
                && now.nanos < 1_000_000_000,
            PlaceOrder::SetPlaced { .. } => reply is Updated,
            PlaceOrder::SetRejected { .. } => reply is Updated,
            PlaceOrder::FindPlacedOrder { .. } => reply is Order,
            PlaceOrder::SendOrderCreatedEvent { .. } => reply is Sent,
            PlaceOrder::Done { .. } => false,
        },
{
}

} // verus!
