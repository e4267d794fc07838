//! The mutations of orders that the service offers.

use crate::creation::CreateOrder;
use crate::model::{CreateOrderInput, PlaceOrderInput};
use crate::placement::PlaceOrder;
use vstd::prelude::*;

verus! {

/// Describes GraphQL order mutations.
pub struct Mutation;

impl Mutation {
    /// Creates an order with `OrderStatus::Pending`: tells what is to be done first.
    pub fn create_order(&self, input: CreateOrderInput) -> (course: CreateOrder)
        ensures
            course == (CreateOrder::Authorize { input }),
    {
        CreateOrder::Authorize { input }
    }

    /// Places an existing order by changing its status to `OrderStatus::Placed`: tells what is to
    /// be done first.
    pub fn place_order(&self, input: PlaceOrderInput) -> (course: PlaceOrder)
        ensures
            course == (PlaceOrder::FindOrder { input }),
    {
        PlaceOrder::FindOrder { input }
    }
}

} // verus!
