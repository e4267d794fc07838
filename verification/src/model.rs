//! What the service knows of orders, of what they are made of, and of what other services tell it.

use crate::time::DateTime;
use crate::uuid::Uuid;
use std::collections::BTreeSet;
use vstd::prelude::*;

verus! {

/// One position of the order that a user asks for: an item of the shopping cart.
///
/// Coupons come in no particular order, and none of them twice.
#[derive(Debug)]
pub struct OrderItemInput {
    pub shopping_cart_item_id: Uuid,
    pub coupon_ids: Vec<Uuid>,
    pub shipment_method_id: Uuid,
}

/// What an `OrderItemInput` says.
pub struct OrderItemInputView {
    pub shopping_cart_item_id: Uuid,
    pub coupon_ids: Seq<Uuid>,
    pub shipment_method_id: Uuid,
}

impl OrderItemInputView {
    /// Whether no coupon occurs twice.
    pub open spec fn well_formed(self) -> bool {
        self.coupon_ids.no_duplicates()
    }
}

impl View for OrderItemInput {
    type V = OrderItemInputView;

    open spec fn view(&self) -> OrderItemInputView {
        OrderItemInputView {
            shopping_cart_item_id: self.shopping_cart_item_id,
            coupon_ids: self.coupon_ids@,
            shipment_method_id: self.shipment_method_id,
        }
    }
}

impl Clone for OrderItemInput {
    fn clone(&self) -> (copy: Self)
        ensures
            copy@ == self@,
    {
        let coupon_ids = self.coupon_ids.clone();
        assert(coupon_ids@ =~= self.coupon_ids@);
        OrderItemInput {
            shopping_cart_item_id: self.shopping_cart_item_id,
            coupon_ids,
            shipment_method_id: self.shipment_method_id,
        }
    }
}

/// The positions of a list, each as what it says.
pub open spec fn views(inputs: Seq<OrderItemInput>) -> Seq<OrderItemInputView> {
    inputs.map_values(|input: OrderItemInput| input@)
}

/// The order that a user asks for. None of its positions occurs twice.
#[derive(Debug)]
pub struct CreateOrderInput {
    pub user_id: Uuid,
    pub order_item_inputs: Vec<OrderItemInput>,
    pub shipment_address_id: Uuid,
    pub invoice_address_id: Uuid,
    pub payment_information_id: Uuid,
    pub vat_number: String,
}

impl CreateOrderInput {
    /// Whether no position occurs twice, nor any coupon in one of them.
    pub open spec fn well_formed(self) -> bool {
        let inputs = views(self.order_item_inputs@);
        &&& inputs.no_duplicates()
        &&& forall|i: int| 0 <= i < inputs.len() ==> (#[trigger] inputs[i]).well_formed()
    }
}

/// What a user enters to authorize a payment.
#[derive(Clone, Copy, Debug)]
pub struct PaymentAuthorizationInput {
    /// The verification code of a credit card.
    pub cvc: Option<u16>,
}

/// A payment authorization that holds something.
#[derive(Clone, Copy, Debug)]
pub struct PaymentAuthorization {
    pub cvc: u16,
}

/// The wish to place an order.
#[derive(Clone, Copy, Debug)]
pub struct PlaceOrderInput {
    pub id: Uuid,
    pub payment_authorization: Option<PaymentAuthorizationInput>,
}

/// The version of a product variant that is on sale.
#[derive(Clone, Copy, Debug)]
pub struct ProductVariantVersion {
    pub id: Uuid,
    pub price: u32,
    pub tax_rate_id: Uuid,
}

/// A product variant with its current version.
#[derive(Clone, Copy, Debug)]
pub struct ProductVariant {
    pub id: Uuid,
    pub current_version: ProductVariantVersion,
    pub is_publicly_visible: bool,
}

/// A version of a tax rate. The rate stands as the bits of its floating point number.
#[derive(Clone, Copy, Debug)]
pub struct TaxRateVersion {
    pub id: Uuid,
    pub rate_bits: u64,
}

/// A tax rate with its current version.
#[derive(Clone, Copy, Debug)]
pub struct TaxRate {
    pub id: Uuid,
    pub current_version: TaxRateVersion,
}

/// A discount: its UUID, and the bits of the floating point number that the price is multiplied by.
pub type Discount = (Uuid, u64);

/// A user, as far as orders are concerned.
#[derive(Debug)]
pub struct User {
    pub id: Uuid,
    /// The addresses that are registered under the user.
    pub user_address_ids: Vec<Uuid>,
}

/// Everything that an order item is built from.
#[derive(Debug)]
pub struct OrderItemAttributes {
    pub order_item_input: OrderItemInput,
    pub product_variant: ProductVariant,
    pub product_variant_version: ProductVariantVersion,
    pub tax_rate_version: TaxRateVersion,
    pub count: u64,
    pub internal_discounts: BTreeSet<Discount>,
    pub created_at: DateTime,
}

/// What `OrderItemAttributes` say.
pub struct OrderItemAttributesView {
    pub order_item_input: OrderItemInputView,
    pub product_variant: ProductVariant,
    pub product_variant_version: ProductVariantVersion,
    pub tax_rate_version: TaxRateVersion,
    pub count: u64,
    pub internal_discounts: Set<Discount>,
    pub created_at: DateTime,
}

impl View for OrderItemAttributes {
    type V = OrderItemAttributesView;

    open spec fn view(&self) -> OrderItemAttributesView {
        OrderItemAttributesView {
            order_item_input: self.order_item_input@,
            product_variant: self.product_variant,
            product_variant_version: self.product_variant_version,
            tax_rate_version: self.tax_rate_version,
            count: self.count,
            internal_discounts: self.internal_discounts@,
            created_at: self.created_at,
        }
    }
}

/// A position of an order, with the amount that the buyer pays for it.
#[derive(Debug)]
pub struct OrderItem {
    pub id: Uuid,
    pub attributes: OrderItemAttributes,
    pub compensatable_amount: u64,
}

/// What an `OrderItem` says.
pub struct OrderItemView {
    pub id: Uuid,
    pub attributes: OrderItemAttributesView,
    pub compensatable_amount: u64,
}

impl View for OrderItem {
    type V = OrderItemView;

    open spec fn view(&self) -> OrderItemView {
        OrderItemView {
            id: self.id,
            attributes: self.attributes@,
            compensatable_amount: self.compensatable_amount,
        }
    }
}

/// What has become of an order.
#[derive(Clone, Copy, Debug)]
pub enum OrderStatus {
    /// Created, but not placed yet.
    Pending,
    /// Placed by its user.
    Placed,
    /// Too late to be placed.
    Rejected,
}

/// An order.
#[derive(Debug)]
pub struct Order {
    pub id: Uuid,
    pub user_id: Uuid,
    pub created_at: DateTime,
    pub order_status: OrderStatus,
    pub placed_at: Option<DateTime>,
    pub rejection_reason: Option<String>,
    pub internal_order_items: Vec<OrderItem>,
    pub shipment_address_id: Uuid,
    pub invoice_address_id: Uuid,
    pub compensatable_order_amount: u64,
    pub payment_information_id: Uuid,
    pub vat_number: String,
}

/// What an `Order` says.
pub struct OrderView {
    pub id: Uuid,
    pub user_id: Uuid,
    pub created_at: DateTime,
    pub order_status: OrderStatus,
    pub placed_at: Option<DateTime>,
    pub rejection_reason: Option<Seq<char>>,
    pub internal_order_items: Seq<OrderItemView>,
    pub shipment_address_id: Uuid,
    pub invoice_address_id: Uuid,
    pub compensatable_order_amount: u64,
    pub payment_information_id: Uuid,
    pub vat_number: Seq<char>,
}

impl View for Order {
    type V = OrderView;

    open spec fn view(&self) -> OrderView {
        OrderView {
            id: self.id,
            user_id: self.user_id,
            created_at: self.created_at,
            order_status: self.order_status,
            placed_at: self.placed_at,
            rejection_reason: match self.rejection_reason {
                Some(reason) => Some(reason@),
                None => None,
            },
            internal_order_items: self.internal_order_items@.map_values(|item: OrderItem| item@),
            shipment_address_id: self.shipment_address_id,
            invoice_address_id: self.invoice_address_id,
            compensatable_order_amount: self.compensatable_order_amount,
            payment_information_id: self.payment_information_id,
            vat_number: self.vat_number@,
        }
    }
}

/// What becomes of a query to another service: an error on the way, in its own words, or a
/// response, which may lack its data.
pub type Response<T> = Result<Option<T>, String>;

/// What an entity query names an entity by.
#[derive(Debug)]
pub struct Representation {
    pub typename: String,
    pub id: String,
}

} // verus!
