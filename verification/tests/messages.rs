use order::error::{build_hash_map_error, EntryKind, ObjectKind, OrderError};
use order::model::OrderStatus;

const ID: u128 = 0x0123_4567_89ab_cdef_fedc_ba98_7654_3210;
const TEXT: &str = "01234567-89ab-cdef-fedc-ba9876543210";

fn plain(error: OrderError) -> String {
    error.message("Value", "Map")
}

#[test]
fn uuids_are_written_in_groups() {
    assert_eq!(plain(OrderError::PlacingFailed { id: ID }), format!("Placing order of id: `{}` failed in MongoDB.", TEXT));
    assert_eq!(
        plain(OrderError::PlacingFailed { id: 0 }),
        "Placing order of id: `00000000-0000-0000-0000-000000000000` failed in MongoDB."
    );
    assert_eq!(
        plain(OrderError::PlacingFailed { id: u128::MAX }),
        "Placing order of id: `ffffffff-ffff-ffff-ffff-ffffffffffff` failed in MongoDB."
    );
}

#[test]
fn uuids_that_differ_are_written_differently() {
    let one = plain(OrderError::PlacingFailed { id: ID });
    let other = plain(OrderError::PlacingFailed { id: ID + 1 });
    assert_ne!(one, other);
}

#[test]
fn hash_map_errors_quote_their_types() {
    let error = build_hash_map_error(EntryKind::Count, ID);
    assert!(matches!(error, OrderError::NotInHashMap { entry: EntryKind::Count, id: ID }));
    assert_eq!(
        error.message("u64", "HashMap<Uuid, u64>"),
        format!("`u64` for product variant of UUID: `{}` is not present in `HashMap<Uuid, u64>`. ", TEXT)
    );
}

#[test]
fn statuses_are_spelled_out() {
    let tail = "` must be `OrderStatus::Pending` to be able to be placed. Order was already placed or rejected.";
    assert_eq!(plain(OrderError::NotPending { status: OrderStatus::Pending }), format!("`Pending{}", tail));
    assert_eq!(plain(OrderError::NotPending { status: OrderStatus::Placed }), format!("`Placed{}", tail));
    assert_eq!(plain(OrderError::NotPending { status: OrderStatus::Rejected }), format!("`Rejected{}", tail));
}

#[test]
fn rejections_name_the_order() {
    assert_eq!(
        plain(OrderError::PendingTooLong { id: ID }),
        format!("Order of id: `{}` was rejected as it is `OrderStatus::Pending` for too long.", TEXT)
    );
    assert_eq!(
        plain(OrderError::RejectingFailed { id: ID }),
        format!(
            "Order should be rejected as it is `OrderStatus::Pending` for too long. Rejecting order of id: `{}` failed in MongoDB.",
            TEXT
        )
    );
}

#[test]
fn empty_answers_are_told_apart() {
    assert_eq!(
        plain(OrderError::EmptyStockResponse),
        "Response data of `check_product_variant_availability` query is empty."
    );
    assert_eq!(
        plain(OrderError::MissingStockEntity),
        "Response data of `check_product_variant_availability` query could not be parsed, `maybe_product_variant_enum` is `None`"
    );
    assert_eq!(
        plain(OrderError::EmptyCartResponse),
        "Response data of `query_counts_by_product_variant_ids` query is empty."
    );
    assert_eq!(plain(OrderError::EmptyDiscountsResponse), "Response data of `query_discounts` query is empty.");
    assert_eq!(plain(OrderError::EmptyShipmentFeesResponse), "Response data of `query_shipment_fees` query is empty.");
}

#[test]
fn messages_about_other_services() {
    assert_eq!(plain(OrderError::NotAllAvailable), "Not all requested product variants are available.");
    assert_eq!(
        plain(OrderError::NoDiscountsFor { id: ID }),
        format!(
            "Product variant of UUID: `{}` is not contained in the result which `findApplicableDiscounts` provides.",
            TEXT
        )
    );
    assert_eq!(
        plain(OrderError::NotAUser { entity: "Cart".to_string() }),
        "`ids_and_counts_enum: get_shopping_cart_product_variant_ids_and_counts::GetShoppingCartProductVariantIdsAndCountsEntities` does not contain a `get_shopping_cart_product_variant_ids_and_counts::GetShoppingCartProductVariantIdsAndCountsEntities::User`, but is another entity: `Cart`"
    );
}

#[test]
fn messages_about_what_is_not_there() {
    assert_eq!(
        plain(OrderError::AddressNotFound { id: ID, user_id: 1 }),
        format!(
            "User address with UUID: `{}` of user with UUID: `00000000-0000-0000-0000-000000000001` not found.",
            TEXT
        )
    );
    assert_eq!(
        OrderError::NotPresent { kind: ObjectKind::Coupon, id: ID }.message("Coupon", ""),
        format!("Coupon with UUID: `{}` is not present in the system.", TEXT)
    );
    assert_eq!(
        OrderError::NonePresent { kind: ObjectKind::ShipmentMethod }.message("ShipmentMethod", ""),
        "ShipmentMethod with specified UUIDs are not present in the system."
    );
}

#[test]
fn conversions_fail_in_the_words_of_the_standard_library() {
    assert_eq!(plain(OrderError::OutOfRange), u64::try_from(-1i64).unwrap_err().to_string());
    assert_eq!(plain(OrderError::OutOfRange), i64::try_from(u64::MAX).unwrap_err().to_string());
}

#[test]
fn reports_are_passed_on() {
    assert_eq!(plain(OrderError::Reported { text: "no route to host".to_string() }), "no route to host");
}
