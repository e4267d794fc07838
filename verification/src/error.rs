//! Why an order was not created or placed, and the words that say so.

use crate::model::OrderStatus;
use crate::uuid::{uuid_text, uuid_text_has_its_hyphens, uuid_text_is_injective, uuid_to_string, Uuid};
use vstd::prelude::*;

verus! {

/// What a hash map that lacks a key holds.
#[derive(Clone, Copy, Debug)]
pub enum EntryKind {
    OrderItemInput,
    ProductVariantVersion,
    TaxRateVersion,
    Count,
    Discounts,
    IdAndCount,
    TaxRate,
}

/// The objects that an order refers to in bulk.
#[derive(Clone, Copy, Debug)]
pub enum ObjectKind {
    ShipmentMethod,
    Coupon,
}

/// Why an order was not created or placed.
#[derive(Debug)]
pub enum OrderError {
    /// A hash map by product variants lacks an entry.
    NotInHashMap { entry: EntryKind, id: Uuid },
    /// The database did not take an order.
    AddingFailed,
    /// The database named an order by something else than a binary value, which is quoted.
    IdNotBinary { bson: String },
    /// Only pending orders are placed.
    NotPending { status: OrderStatus },
    /// The database did not note that an order was placed.
    PlacingFailed { id: Uuid },
    /// The order had been pending for too long and was rejected.
    PendingTooLong { id: Uuid },
    /// The order had been pending for too long, and the database did not note its rejection.
    RejectingFailed { id: Uuid },
    /// The inventory service answered without data.
    EmptyStockResponse,
    /// The inventory service left out an entity.
    MissingStockEntity,
    /// There are fewer product items than asked for.
    NotAllAvailable,
    /// The shopping cart service answered without data.
    EmptyCartResponse,
    /// The shopping cart service answered with another entity than a user; it is quoted.
    NotAUser { entity: String },
    /// The discount service answered without data.
    EmptyDiscountsResponse,
    /// The discount service left out a product variant.
    NoDiscountsFor { id: Uuid },
    /// The shipment service answered without data.
    EmptyShipmentFeesResponse,
    /// An address is not registered under a user.
    AddressNotFound { id: Uuid, user_id: Uuid },
    /// An object is not in the system.
    NotPresent { kind: ObjectKind, id: Uuid },
    /// The database failed to look for objects.
    NonePresent { kind: ObjectKind },
    /// A number does not fit the type that it is wanted in.
    OutOfRange,
    /// What something outside this library reported, in its own words.
    Reported { text: String },
}

/// Returns an error of a hash map retrieval: it describes a failed retrieval of an entry by the
/// UUID of a product variant.
pub fn build_hash_map_error(entry: EntryKind, id: Uuid) -> (error: OrderError)
    ensures
        error == (OrderError::NotInHashMap { entry, id }),
{
    OrderError::NotInHashMap { entry, id }
}

/// Whether a result is an error in the given words.
pub open spec fn reports<T>(result: Result<T, OrderError>, words: String) -> bool {
    result == Err::<T, OrderError>(OrderError::Reported { text: words })
}

/// How a status is spelled.
pub open spec fn status_text(status: OrderStatus) -> Seq<char> {
    match status {
        OrderStatus::Pending => "Pending"@,
        OrderStatus::Placed => "Placed"@,
        OrderStatus::Rejected => "Rejected"@,
    }
}

impl OrderError {
    /// The message of an error. `value_type` and `map_type` are the names of the types that the
    /// message may have to quote.
    pub open spec fn text(self, value_type: Seq<char>, map_type: Seq<char>) -> Seq<char> {
        match self {
            OrderError::NotInHashMap { entry, id } => "`"@ + value_type
                + "` for product variant of UUID: `"@ + uuid_text(id) + "` is not present in `"@ + map_type
                + "`. "@,
            OrderError::AddingFailed => "Adding order failed in MongoDB."@,
            OrderError::IdNotBinary { bson } => "Returned id: `"@ + bson@
                + "` needs to be a Binary in order to be parsed as a Uuid"@,
            OrderError::NotPending { status } => "`"@ + status_text(status)
                + "` must be `OrderStatus::Pending` to be able to be placed. Order was already placed or rejected."@,
            OrderError::PlacingFailed { id } => "Placing order of id: `"@ + uuid_text(id)
                + "` failed in MongoDB."@,
            OrderError::PendingTooLong { id } => "Order of id: `"@ + uuid_text(id)
                + "` was rejected as it is `OrderStatus::Pending` for too long."@,
            OrderError::RejectingFailed { id } =>
                "Order should be rejected as it is `OrderStatus::Pending` for too long. Rejecting order of id: `"@
                + uuid_text(id) + "` failed in MongoDB."@,
            OrderError::EmptyStockResponse =>
                "Response data of `check_product_variant_availability` query is empty."@,
            OrderError::MissingStockEntity =>
                "Response data of `check_product_variant_availability` query could not be parsed, `maybe_product_variant_enum` is `None`"@,
            OrderError::NotAllAvailable => "Not all requested product variants are available."@,
            OrderError::EmptyCartResponse =>
                "Response data of `query_counts_by_product_variant_ids` query is empty."@,
            OrderError::NotAUser { entity } =>
                "`ids_and_counts_enum: get_shopping_cart_product_variant_ids_and_counts::GetShoppingCartProductVariantIdsAndCountsEntities` does not contain a `get_shopping_cart_product_variant_ids_and_counts::GetShoppingCartProductVariantIdsAndCountsEntities::User`, but is another entity: `"@
                + entity@ + "`"@,
            OrderError::EmptyDiscountsResponse => "Response data of `query_discounts` query is empty."@,
            OrderError::NoDiscountsFor { id } => "Product variant of UUID: `"@ + uuid_text(id)
                + "` is not contained in the result which `findApplicableDiscounts` provides."@,
            OrderError::EmptyShipmentFeesResponse => "Response data of `query_shipment_fees` query is empty."@,
            OrderError::AddressNotFound { id, user_id } => "User address with UUID: `"@ + uuid_text(id)
                + "` of user with UUID: `"@ + uuid_text(user_id) + "` not found."@,
            OrderError::NotPresent { kind, id } => value_type + " with UUID: `"@ + uuid_text(id)
                + "` is not present in the system."@,
            OrderError::NonePresent { kind } => value_type
                + " with specified UUIDs are not present in the system."@,
            OrderError::OutOfRange => "out of range integral type conversion attempted"@,
            OrderError::Reported { text } => text@,
        }
    }

    /// Writes the message of an error, given the names of the types that it may have to quote.
    pub fn message(&self, value_type: &str, map_type: &str) -> (message: String)
        ensures
            message@ == self.text(value_type@, map_type@),
    {
        match self {
            OrderError::NotInHashMap { id, .. } => "`".to_string().concat(value_type).concat(
                "` for product variant of UUID: `",
            ).concat(uuid_to_string(*id).as_str()).concat("` is not present in `").concat(map_type).concat("`. "),
            OrderError::AddingFailed => "Adding order failed in MongoDB.".to_string(),
            OrderError::IdNotBinary { bson } => "Returned id: `".to_string().concat(bson.as_str()).concat(
                "` needs to be a Binary in order to be parsed as a Uuid",
            ),
            OrderError::NotPending { status } => "`".to_string().concat(
                match status {
                    OrderStatus::Pending => "Pending",
                    OrderStatus::Placed => "Placed",
                    OrderStatus::Rejected => "Rejected",
                },
            ).concat(
                "` must be `OrderStatus::Pending` to be able to be placed. Order was already placed or rejected.",
            ),
            OrderError::PlacingFailed { id } => "Placing order of id: `".to_string().concat(
                uuid_to_string(*id).as_str(),
            ).concat("` failed in MongoDB."),
            OrderError::PendingTooLong { id } => "Order of id: `".to_string().concat(
                uuid_to_string(*id).as_str(),
            ).concat("` was rejected as it is `OrderStatus::Pending` for too long."),
            OrderError::RejectingFailed { id } =>
                "Order should be rejected as it is `OrderStatus::Pending` for too long. Rejecting order of id: `".to_string().concat(
                uuid_to_string(*id).as_str(),
            ).concat("` failed in MongoDB."),
            OrderError::EmptyStockResponse =>
                "Response data of `check_product_variant_availability` query is empty.".to_string(),
            OrderError::MissingStockEntity =>
                "Response data of `check_product_variant_availability` query could not be parsed, `maybe_product_variant_enum` is `None`".to_string(),
            OrderError::NotAllAvailable => "Not all requested product variants are available.".to_string(),
            OrderError::EmptyCartResponse =>
                "Response data of `query_counts_by_product_variant_ids` query is empty.".to_string(),
            OrderError::NotAUser { entity } =>
                "`ids_and_counts_enum: get_shopping_cart_product_variant_ids_and_counts::GetShoppingCartProductVariantIdsAndCountsEntities` does not contain a `get_shopping_cart_product_variant_ids_and_counts::GetShoppingCartProductVariantIdsAndCountsEntities::User`, but is another entity: `".to_string().concat(
                entity.as_str(),
            ).concat("`"),
            OrderError::EmptyDiscountsResponse =>
                "Response data of `query_discounts` query is empty.".to_string(),
            OrderError::NoDiscountsFor { id } => "Product variant of UUID: `".to_string().concat(
                uuid_to_string(*id).as_str(),
            ).concat("` is not contained in the result which `findApplicableDiscounts` provides."),
            OrderError::EmptyShipmentFeesResponse =>
                "Response data of `query_shipment_fees` query is empty.".to_string(),
            OrderError::AddressNotFound { id, user_id } => "User address with UUID: `".to_string().concat(
                uuid_to_string(*id).as_str(),
            ).concat("` of user with UUID: `").concat(uuid_to_string(*user_id).as_str()).concat("` not found."),
            OrderError::NotPresent { id, .. } => value_type.to_string().concat(" with UUID: `").concat(
                uuid_to_string(*id).as_str(),
            ).concat("` is not present in the system."),
            OrderError::NonePresent { .. } => value_type.to_string().concat(
                " with specified UUIDs are not present in the system.",
            ),
            OrderError::OutOfRange => "out of range integral type conversion attempted".to_string(),
            OrderError::Reported { text } => text.clone(),
        }
    }
}

/// Whether a text quotes another one.
pub open spec fn quotes(text: Seq<char>, quoted: Seq<char>) -> bool {
    exists|before: Seq<char>, after: Seq<char>| text == #[trigger] (before + quoted + after)
}

/// The message of an error about an order, a product variant, an object or an address names it by its
/// UUID, and quotes the types and the words that it is about.
pub proof fn messages_name_what_they_are_about(error: OrderError, value_type: Seq<char>, map_type: Seq<char>)
    ensures
        ({
            let text = error.text(value_type, map_type);
            match error {
                OrderError::NotInHashMap { id, .. } => quotes(text, uuid_text(id)) && quotes(text, value_type)
                    && quotes(text, map_type),
                OrderError::IdNotBinary { bson } => quotes(text, bson@),
                OrderError::PlacingFailed { id } => quotes(text, uuid_text(id)),
                OrderError::PendingTooLong { id } => quotes(text, uuid_text(id)),
                OrderError::RejectingFailed { id } => quotes(text, uuid_text(id)),
                OrderError::NotAUser { entity } => quotes(text, entity@),
                OrderError::NoDiscountsFor { id } => quotes(text, uuid_text(id)),
                OrderError::AddressNotFound { id, user_id } => quotes(text, uuid_text(id)) && quotes(
                    text,
                    uuid_text(user_id),
                ),
                OrderError::NotPresent { id, .. } => quotes(text, uuid_text(id)) && value_type.is_prefix_of(text),
                OrderError::NonePresent { .. } => value_type.is_prefix_of(text),
                OrderError::Reported { text: words } => text == words@,
                _ => true,
            }
        }),
{
    let text = error.text(value_type, map_type);
    match error {
        OrderError::NotInHashMap { id, .. } => {
            let (opening, middle) = ("`"@, "` for product variant of UUID: `"@);
            let (present, closing) = ("` is not present in `"@, "`. "@);
            lemma_quotes(text, opening, value_type, middle + uuid_text(id) + present + map_type + closing);
            lemma_quotes(text, opening + value_type + middle, uuid_text(id), present + map_type + closing);
            lemma_quotes(text, opening + value_type + middle + uuid_text(id) + present, map_type, closing);
        },
        OrderError::IdNotBinary { bson } => {
            lemma_quotes(
                text,
                "Returned id: `"@,
                bson@,
                "` needs to be a Binary in order to be parsed as a Uuid"@,
            );
        },
        OrderError::PlacingFailed { id } => {
            lemma_quotes(text, "Placing order of id: `"@, uuid_text(id), "` failed in MongoDB."@);
        },
        OrderError::PendingTooLong { id } => {
            lemma_quotes(
                text,
                "Order of id: `"@,
                uuid_text(id),
                "` was rejected as it is `OrderStatus::Pending` for too long."@,
            );
        },
        OrderError::RejectingFailed { id } => {
            lemma_quotes(
                text,
                "Order should be rejected as it is `OrderStatus::Pending` for too long. Rejecting order of id: `"@,
                uuid_text(id),
                "` failed in MongoDB."@,
            );
        },
        OrderError::NotAUser { entity } => {
            lemma_quotes(
                text,
                "`ids_and_counts_enum: get_shopping_cart_product_variant_ids_and_counts::GetShoppingCartProductVariantIdsAndCountsEntities` does not contain a `get_shopping_cart_product_variant_ids_and_counts::GetShoppingCartProductVariantIdsAndCountsEntities::User`, but is another entity: `"@,
                entity@,
                "`"@,
            );
        },
        OrderError::NoDiscountsFor { id } => {
            lemma_quotes(
                text,
                "Product variant of UUID: `"@,
                uuid_text(id),
                "` is not contained in the result which `findApplicableDiscounts` provides."@,
            );
        },
        OrderError::AddressNotFound { id, user_id } => {
            let (opening, middle) = ("User address with UUID: `"@, "` of user with UUID: `"@);
            let closing = "` not found."@;
            lemma_quotes(text, opening, uuid_text(id), middle + uuid_text(user_id) + closing);
            lemma_quotes(text, opening + uuid_text(id) + middle, uuid_text(user_id), closing);
        },
        OrderError::NotPresent { id, .. } => {
            lemma_quotes(
                text,
                value_type + " with UUID: `"@,
                uuid_text(id),
                "` is not present in the system."@,
            );
            assert(text.take(value_type.len() as int) =~= value_type);
        },
        OrderError::NonePresent { .. } => {
            assert(text.take(value_type.len() as int) =~= value_type);
        },
        _ => {},
    }
}

proof fn lemma_quotes(text: Seq<char>, before: Seq<char>, quoted: Seq<char>, after: Seq<char>)
    requires
        text =~= before + quoted + after,
    ensures
        quotes(text, quoted),
{
    assert(text == before + quoted + after);
}

/// Two errors of one kind that are about different UUIDs are told apart by their messages, and so are
/// the statuses that keep an order from being placed.
pub proof fn messages_tell_errors_apart(a: OrderError, b: OrderError, value_type: Seq<char>, map_type: Seq<char>)
    requires
        a.text(value_type, map_type) == b.text(value_type, map_type),
    ensures
        match (a, b) {
            (OrderError::PlacingFailed { id }, OrderError::PlacingFailed { id: other }) => id == other,
            (OrderError::PendingTooLong { id }, OrderError::PendingTooLong { id: other }) => id == other,
            (OrderError::RejectingFailed { id }, OrderError::RejectingFailed { id: other }) => id == other,
            (OrderError::NoDiscountsFor { id }, OrderError::NoDiscountsFor { id: other }) => id == other,
            (OrderError::NotPending { status }, OrderError::NotPending { status: other }) => status == other,
            _ => true,
        },
{
    match (a, b) {
        (OrderError::PlacingFailed { id }, OrderError::PlacingFailed { id: other }) => {
            lemma_tells_apart("Placing order of id: `"@, id, other, "` failed in MongoDB."@);
        },
        (OrderError::PendingTooLong { id }, OrderError::PendingTooLong { id: other }) => {
            lemma_tells_apart(
                "Order of id: `"@,
                id,
                other,
                "` was rejected as it is `OrderStatus::Pending` for too long."@,
            );
        },
        (OrderError::RejectingFailed { id }, OrderError::RejectingFailed { id: other }) => {
            lemma_tells_apart(
                "Order should be rejected as it is `OrderStatus::Pending` for too long. Rejecting order of id: `"@,
                id,
                other,
                "` failed in MongoDB."@,
            );
        },
        (OrderError::NoDiscountsFor { id }, OrderError::NoDiscountsFor { id: other }) => {
            lemma_tells_apart(
                "Product variant of UUID: `"@,
                id,
                other,
                "` is not contained in the result which `findApplicableDiscounts` provides."@,
            );
        },
        (OrderError::NotPending { status }, OrderError::NotPending { status: other }) => {
            let (one, two) = (a.text(value_type, map_type), b.text(value_type, map_type));
            reveal_strlit("`");
            reveal_strlit("Pending");
            reveal_strlit("Placed");
            reveal_strlit("Rejected");
            assert(one[1] == two[1] && one[2] == two[2]);
        },
        _ => {},
    }
}

proof fn lemma_tells_apart(before: Seq<char>, a: Uuid, b: Uuid, after: Seq<char>)
    ensures
        before + uuid_text(a) + after == before + uuid_text(b) + after ==> a == b,
{
    let (one, other) = (before + uuid_text(a) + after, before + uuid_text(b) + after);
    if one == other {
        uuid_text_has_its_hyphens(a);
        uuid_text_has_its_hyphens(b);
        let n = before.len() as int;
        assert(one.subrange(n, n + 36) =~= uuid_text(a));
        assert(other.subrange(n, n + 36) =~= uuid_text(b));
        uuid_text_is_injective(a, b);
    }
}

/// What is reported is passed on in its own words.
pub proof fn reports_keep_their_words<T>(result: Result<T, OrderError>, words: String)
    ensures
        reports(result, words) <==> (result matches Err(OrderError::Reported { text }) && text == words),
{
}

} // verus!
