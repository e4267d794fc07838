use order::model::{PaymentAuthorization, PaymentAuthorizationInput, PlaceOrderInput};
use order::payment::build_payment_authorization;

#[test]
fn a_payment_authorization_holds_what_was_entered() {
    let input = PlaceOrderInput { id: 1, payment_authorization: Some(PaymentAuthorizationInput { cvc: Some(123) }) };
    assert!(matches!(build_payment_authorization(&input), Some(PaymentAuthorization { cvc: 123 })));
}

#[test]
fn without_an_entry_there_is_no_payment_authorization() {
    let empty = PlaceOrderInput { id: 1, payment_authorization: Some(PaymentAuthorizationInput { cvc: None }) };
    assert!(build_payment_authorization(&empty).is_none());
    assert!(build_payment_authorization(&PlaceOrderInput { id: 1, payment_authorization: None }).is_none());
}
