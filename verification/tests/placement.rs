use order::error::OrderError;
use order::model::{Order, OrderStatus, PaymentAuthorization, PaymentAuthorizationInput, PlaceOrderInput};
use order::mutation::Mutation;
use order::placement::{
    set_status_placed, set_status_placed_in_mongodb, set_status_rejected_in_mongodb, PlaceOrder, PlaceOrderReply,
    Placement,
};
use order::time::ClockTime;

fn at(secs: u64) -> ClockTime {
    ClockTime { before_epoch: false, secs, nanos: 0 }
}

fn an_order(order_status: OrderStatus) -> Order {
    Order {
        id: 1,
        user_id: 5,
        created_at: 1_000,
        order_status,
        placed_at: None,
        rejection_reason: None,
        internal_order_items: vec![],
        shipment_address_id: 50,
        invoice_address_id: 51,
        compensatable_order_amount: 0,
        payment_information_id: 60,
        vat_number: "DE123".to_string(),
    }
}

fn found(order_status: OrderStatus) -> PlaceOrderReply {
    PlaceOrderReply::Order { found: Ok(an_order(order_status)) }
}

fn lost() -> PlaceOrderReply {
    PlaceOrderReply::Order { found: Err("lost".to_string()) }
}

fn authorized() -> PlaceOrderReply {
    PlaceOrderReply::Authorized { checked: Ok(()) }
}

fn clock(secs: u64) -> PlaceOrderReply {
    PlaceOrderReply::Clock { now: at(secs) }
}

fn run(replies: Vec<PlaceOrderReply>) -> PlaceOrder {
    let input = PlaceOrderInput { id: 1, payment_authorization: Some(PaymentAuthorizationInput { cvc: Some(123) }) };
    let mut state = Mutation.place_order(input);
    for reply in replies {
        assert!(state.can_take(&reply));
        state = state.step(reply);
    }
    state
}

fn failure(state: PlaceOrder) -> String {
    match state {
        PlaceOrder::Done { result: Err(error) } => error.message("", ""),
        other => panic!("{:?}", other),
    }
}

#[test]
fn pending_orders_are_placed_in_time() {
    assert!(matches!(
        set_status_placed(1_000, OrderStatus::Pending, at(3_601)),
        Placement::Place { placed_at: 3_601_000 }
    ));
    assert!(matches!(set_status_placed(1_000, OrderStatus::Pending, at(3_602)), Placement::Reject));
}

#[test]
fn other_orders_are_not_placed() {
    assert!(matches!(set_status_placed(1_000, OrderStatus::Placed, at(2)), Placement::Refuse));
    assert!(matches!(set_status_placed(1_000, OrderStatus::Rejected, at(2)), Placement::Refuse));
}

#[test]
fn lateness_comes_before_the_status() {
    assert!(matches!(set_status_placed(1_000, OrderStatus::Placed, at(3_602)), Placement::Reject));
}

#[test]
fn updates_may_fail() {
    assert!(set_status_placed_in_mongodb(1, Ok(())).is_ok());
    assert!(matches!(set_status_placed_in_mongodb(1, Err(())), Err(OrderError::PlacingFailed { id: 1 })));
    assert!(matches!(set_status_rejected_in_mongodb(1, Ok(())), Err(OrderError::PendingTooLong { id: 1 })));
    assert!(matches!(set_status_rejected_in_mongodb(1, Err(())), Err(OrderError::RejectingFailed { id: 1 })));
}

#[test]
fn an_order_is_placed_and_announced() {
    let replies = || {
        vec![
            found(OrderStatus::Pending),
            authorized(),
            clock(2),
            found(OrderStatus::Pending),
            PlaceOrderReply::Updated { updated: Ok(()) },
            found(OrderStatus::Placed),
        ]
    };
    match run(replies()) {
        PlaceOrder::SendOrderCreatedEvent { order, payment_authorization } => {
            assert!(matches!(order.order_status, OrderStatus::Placed));
            assert!(matches!(payment_authorization, Some(PaymentAuthorization { cvc: 123 })));
        }
        other => panic!("{:?}", other),
    }
    let mut all = replies();
    all.push(PlaceOrderReply::Sent { sent: Ok(()) });
    match run(all) {
        PlaceOrder::Done { result: Ok(order) } => {
            assert_eq!(order.id, 1);
            assert!(matches!(order.order_status, OrderStatus::Placed));
        }
        other => panic!("{:?}", other),
    }
    let mut unsent = replies();
    unsent.push(PlaceOrderReply::Sent { sent: Err("no pubsub".to_string()) });
    assert_eq!(failure(run(unsent)), "no pubsub");
}

#[test]
fn the_order_is_updated_as_of_the_clock() {
    match run(vec![found(OrderStatus::Pending), authorized(), clock(2), found(OrderStatus::Pending)]) {
        PlaceOrder::SetPlaced { id: 1, placed_at: 2_000, payment_authorization: Some(_) } => {}
        other => panic!("{:?}", other),
    }
}

#[test]
fn the_user_of_the_order_has_to_be_authorized() {
    assert!(matches!(run(vec![found(OrderStatus::Pending)]), PlaceOrder::Authorize { user_id: 5, .. }));
    let refused = PlaceOrderReply::Authorized { checked: Err("not yours".to_string()) };
    assert_eq!(failure(run(vec![found(OrderStatus::Pending), refused])), "not yours");
}

#[test]
fn a_late_order_is_rejected_with_an_error() {
    let late = || vec![found(OrderStatus::Pending), authorized(), clock(3_602), found(OrderStatus::Pending)];
    assert!(matches!(run(late()), PlaceOrder::SetRejected { id: 1 }));
    let mut noted = late();
    noted.push(PlaceOrderReply::Updated { updated: Ok(()) });
    assert_eq!(
        failure(run(noted)),
        "Order of id: `00000000-0000-0000-0000-000000000001` was rejected as it is `OrderStatus::Pending` for too long."
    );
    let mut failed = late();
    failed.push(PlaceOrderReply::Updated { updated: Err(()) });
    assert_eq!(
        failure(run(failed)),
        "Order should be rejected as it is `OrderStatus::Pending` for too long. Rejecting order of id: `00000000-0000-0000-0000-000000000001` failed in MongoDB."
    );
}

#[test]
fn an_order_is_placed_only_once() {
    let replies = vec![found(OrderStatus::Placed), authorized(), clock(2), found(OrderStatus::Placed)];
    assert_eq!(
        failure(run(replies)),
        "`Placed` must be `OrderStatus::Pending` to be able to be placed. Order was already placed or rejected."
    );
}

#[test]
fn orders_that_get_lost_are_errors() {
    assert_eq!(failure(run(vec![lost()])), "lost");
    assert_eq!(failure(run(vec![found(OrderStatus::Pending), authorized(), clock(2), lost()])), "lost");
    let updated = PlaceOrderReply::Updated { updated: Ok(()) };
    assert_eq!(
        failure(run(vec![
            found(OrderStatus::Pending),
            authorized(),
            clock(2),
            found(OrderStatus::Pending),
            updated,
            lost()
        ])),
        "lost"
    );
    let refused = PlaceOrderReply::Updated { updated: Err(()) };
    assert_eq!(
        failure(run(vec![found(OrderStatus::Pending), authorized(), clock(2), found(OrderStatus::Pending), refused])),
        "Placing order of id: `00000000-0000-0000-0000-000000000001` failed in MongoDB."
    );
}

#[test]
fn only_fitting_replies_are_taken_when_placing() {
    let start = run(vec![]);
    assert!(!start.can_take(&authorized()));
    assert!(!start.can_take(&clock(2)));
    let reading = run(vec![found(OrderStatus::Pending), authorized()]);
    assert!(!reading.can_take(&PlaceOrderReply::Clock {
        now: ClockTime { before_epoch: false, secs: 0, nanos: 1_000_000_000 }
    }));
    let done = run(vec![lost()]);
    assert!(!done.can_take(&lost()));
}

#[test]
fn an_order_is_announced_only_once() {
    let first = run(vec![
        found(OrderStatus::Pending),
        authorized(),
        clock(2),
        found(OrderStatus::Pending),
        PlaceOrderReply::Updated { updated: Ok(()) },
        found(OrderStatus::Placed),
        PlaceOrderReply::Sent { sent: Ok(()) },
    ]);
    let stored = match first {
        PlaceOrder::Done { result: Ok(order) } => order.order_status,
        other => panic!("{:?}", other),
    };
    let again = run(vec![found(stored), authorized(), clock(3), found(stored)]);
    assert!(matches!(
        again,
        PlaceOrder::Done { result: Err(OrderError::NotPending { status: OrderStatus::Placed }) }
    ));
    let late = run(vec![
        found(stored),
        authorized(),
        clock(3_602),
        found(stored),
        PlaceOrderReply::Updated { updated: Ok(()) },
    ]);
    assert!(matches!(late, PlaceOrder::Done { result: Err(OrderError::PendingTooLong { id: 1 }) }));
}

#[test]
fn the_order_that_is_announced_was_placed_within_the_hour() {
    let mut placed = an_order(OrderStatus::Placed);
    placed.placed_at = match run(vec![found(OrderStatus::Pending), authorized(), clock(3_601), found(OrderStatus::Pending)]) {
        PlaceOrder::SetPlaced { id: 1, placed_at, .. } => Some(placed_at),
        other => panic!("{:?}", other),
    };
    assert_eq!(placed.placed_at, Some(placed.created_at + 3_600_000));
    let announced = run(vec![
        found(OrderStatus::Pending),
        authorized(),
        clock(3_601),
        found(OrderStatus::Pending),
        PlaceOrderReply::Updated { updated: Ok(()) },
        PlaceOrderReply::Order { found: Ok(placed) },
    ]);
    match &announced {
        PlaceOrder::SendOrderCreatedEvent { order, .. } => {
            assert_eq!(order.id, 1);
            assert_eq!(order.placed_at, Some(3_601_000));
        }
        other => panic!("{:?}", other),
    }
    let unsent = announced.step(PlaceOrderReply::Sent { sent: Err("no pubsub".to_string()) });
    assert_eq!(failure(unsent), "no pubsub");
}
