//! Payment authorizations, which users may enter when they place orders.

use crate::model::{PaymentAuthorization, PaymentAuthorizationInput, PlaceOrderInput};
use vstd::prelude::*;

verus! {

/// The payment authorization that an input stands for, if it holds anything.
pub open spec fn authorization_of(input: PaymentAuthorizationInput) -> Option<PaymentAuthorization> {
    match input.cvc {
        Some(cvc) => Some(PaymentAuthorization { cvc }),
        None => None,
    }
}

/// The payment authorization that comes with the wish to place an order, if there is one and it
/// holds anything.
pub open spec fn payment_authorization_of(input: PlaceOrderInput) -> Option<PaymentAuthorization> {
    match input.payment_authorization {
        Some(payment_authorization) => authorization_of(payment_authorization),
        None => None,
    }
}

/// Builds payment authorization from place order input.
pub fn build_payment_authorization(input: &PlaceOrderInput) -> (payment_authorization: Option<
    PaymentAuthorization,
>)
    ensures
        payment_authorization == payment_authorization_of(*input),
{
    match input.payment_authorization {
        Some(payment_authorization) => match payment_authorization.cvc {
            Some(cvc) => Some(PaymentAuthorization { cvc }),
            None => None,
        },
        None => None,
    }
}

/// The code that the user entered is passed on as it is, and without one nothing is.
pub proof fn entered_codes_are_passed_on(input: PlaceOrderInput)
    ensures
        match input.payment_authorization {
            Some(entered) => match entered.cvc {
                Some(code) => payment_authorization_of(input) matches Some(passed_on) && passed_on.cvc == code,
                None => payment_authorization_of(input) is None,
            },
            None => payment_authorization_of(input) is None,
        },
{
}

} // verus!
