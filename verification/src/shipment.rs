//! Shipment: what the shipment service is asked, and what is made of its answer.

use crate::error::{build_hash_map_error, reports, EntryKind, OrderError};
use crate::keys::{enumerates, keys_of, lemma_step};
use crate::model::{OrderItemInput, ProductVariantVersion, Response};
use crate::uuid::Uuid;
use std::collections::HashMap;
use vstd::prelude::*;

verus! {

/// How many items of a product variant version are shipped, and by which method.
#[derive(Clone, Copy, Debug)]
pub struct ProductVariantVersionWithQuantityAndShipmentMethodInput {
    pub product_variant_version_id: Uuid,
    pub quantity: i64,
    pub shipment_method_id: Uuid,
}

/// Everything that is shipped for an order.
#[derive(Debug)]
pub struct CalculateShipmentFeesInput {
    pub items: Vec<ProductVariantVersionWithQuantityAndShipmentMethodInput>,
}

/// Why the shipment fees of a product variant cannot be asked for, if so.
pub open spec fn shipment_failure(
    counts: Map<Uuid, u64>,
    inputs: Map<Uuid, OrderItemInput>,
    id: Uuid,
) -> Option<OrderError> {
    if !counts.contains_key(id) {
        Some(OrderError::NotInHashMap { entry: EntryKind::Count, id })
    } else if !inputs.contains_key(id) {
        Some(OrderError::NotInHashMap { entry: EntryKind::OrderItemInput, id })
    } else if counts[id] > i64::MAX {
        Some(OrderError::OutOfRange)
    } else {
        None
    }
}

/// Whether `item` describes the shipment of a product variant.
pub open spec fn ships(
    versions: Map<Uuid, ProductVariantVersion>,
    counts: Map<Uuid, u64>,
    inputs: Map<Uuid, OrderItemInput>,
    id: Uuid,
    item: ProductVariantVersionWithQuantityAndShipmentMethodInput,
) -> bool {
    &&& item.product_variant_version_id == versions[id].id
    &&& item.quantity == counts[id]
    &&& item.shipment_method_id == inputs[id].shipment_method_id
}

/// Whether `items` describe the shipments of the product variants `ids`, one by one.
pub open spec fn all_ship(
    versions: Map<Uuid, ProductVariantVersion>,
    counts: Map<Uuid, u64>,
    inputs: Map<Uuid, OrderItemInput>,
    ids: Seq<Uuid>,
    items: Seq<ProductVariantVersionWithQuantityAndShipmentMethodInput>,
) -> bool {
    &&& items.len() == ids.len()
    &&& forall|i: int| 0 <= i < ids.len() ==> ships(versions, counts, inputs, ids[i], #[trigger] items[i])
}

/// Whether `result` is what the shipment service is to be asked for an order: an item for each
/// product variant version, or why one of them cannot be asked for.
pub open spec fn shipment_input_outcome(
    versions: Map<Uuid, ProductVariantVersion>,
    counts: Map<Uuid, u64>,
    inputs: Map<Uuid, OrderItemInput>,
    result: Result<CalculateShipmentFeesInput, OrderError>,
) -> bool {
    match result {
        Ok(input) => {
            &&& forall|id: Uuid| #[trigger]
                versions.contains_key(id) ==> shipment_failure(counts, inputs, id) is None
            &&& exists|ids: Seq<Uuid>| #[trigger]
                enumerates(ids, versions.dom()) && all_ship(versions, counts, inputs, ids, input.items@)
        },
        Err(error) => exists|id: Uuid| #[trigger]
            versions.contains_key(id) && shipment_failure(counts, inputs, id) == Some(error),
    }
}

/// Builds the `CalculateShipmentFeesInput` by using product variant versions, counts and shipment
/// methods.
pub fn build_calculate_shipment_fees_input(
    product_variant_versions_by_product_variant_ids: &HashMap<Uuid, ProductVariantVersion>,
    counts_by_product_variant_ids: &HashMap<Uuid, u64>,
    order_item_inputs_by_product_variant_ids: &HashMap<Uuid, OrderItemInput>,
) -> (result: Result<CalculateShipmentFeesInput, OrderError>)
    ensures
        shipment_input_outcome(
            product_variant_versions_by_product_variant_ids@,
            counts_by_product_variant_ids@,
            order_item_inputs_by_product_variant_ids@,
            result,
        ),
{
    let ghost versions = product_variant_versions_by_product_variant_ids@;
    let ghost counts = counts_by_product_variant_ids@;
    let ghost inputs = order_item_inputs_by_product_variant_ids@;
    let ids: Vec<Uuid> = keys_of(product_variant_versions_by_product_variant_ids);
    let mut items: Vec<ProductVariantVersionWithQuantityAndShipmentMethodInput> = Vec::new();
    let mut i: usize = 0;
    while i < ids.len()
        invariant
            versions == product_variant_versions_by_product_variant_ids@,
            counts == counts_by_product_variant_ids@,
            inputs == order_item_inputs_by_product_variant_ids@,
            enumerates(ids@, versions.dom()),
            i <= ids@.len(),
            items@.len() == i,
            forall|j: int| 0 <= j < i ==> shipment_failure(counts, inputs, #[trigger] ids@[j]) is None,
            forall|j: int| 0 <= j < i ==> ships(versions, counts, inputs, ids@[j], #[trigger] items@[j]),
        decreases ids.len() - i,
    {
        let id: Uuid = ids[i];
        proof {
            lemma_step(ids@, i as int);
        }
        assert(versions.contains_key(id));
        let product_variant_version = *product_variant_versions_by_product_variant_ids.get(&id).unwrap();
        let count: u64 = match counts_by_product_variant_ids.get(&id) {
            Some(count) => *count,
            None => {
                return Err(build_hash_map_error(EntryKind::Count, id));
            },
        };
        let shipment_method_id: Uuid = match order_item_inputs_by_product_variant_ids.get(&id) {
            Some(order_item_input) => order_item_input.shipment_method_id,
            None => {
                return Err(build_hash_map_error(EntryKind::OrderItemInput, id));
            },
        };
        if count > i64::MAX as u64 {
            return Err(OrderError::OutOfRange);
        }
        items.push(
            ProductVariantVersionWithQuantityAndShipmentMethodInput {
                product_variant_version_id: product_variant_version.id,
                quantity: count as i64,
                shipment_method_id,
            },
        );
        i += 1;
    }
    proof {
        assert forall|id: Uuid| #[trigger] versions.contains_key(id) implies shipment_failure(
            counts,
            inputs,
            id,
        ) is None by {
            assert(ids@.to_set().contains(id));
        }
        assert(all_ship(versions, counts, inputs, ids@, items@));
    }
    Ok(CalculateShipmentFeesInput { items })
}

/// Whether `result` holds the shipment fees that the shipment service answered.
pub open spec fn shipment_fees_outcome(response: Response<i64>, result: Result<u64, OrderError>) -> bool {
    match response {
        Err(words) => reports(result, words),
        Ok(None) => result matches Err(OrderError::EmptyShipmentFeesResponse),
        Ok(Some(fees)) => if fees >= 0 {
            result matches Ok(shipment_fees) && shipment_fees == fees
        } else {
            result matches Err(OrderError::OutOfRange)
        },
    }
}

/// Obtains the shipment fees out of the answer of the shipment service.
pub fn query_shipment_fees(response: Response<i64>) -> (result: Result<u64, OrderError>)
    ensures
        shipment_fees_outcome(response, result),
{
    match response {
        Err(text) => Err(OrderError::Reported { text }),
        Ok(None) => Err(OrderError::EmptyShipmentFeesResponse),
        Ok(Some(fees)) => if fees >= 0 {
            Ok(fees as u64)
        } else {
            Err(OrderError::OutOfRange)
        },
    }
}

/// The shipment service can be asked about an order if and only if the count and the position of each
/// product variant version are known and the count fits the query. Then it is asked for each of them
/// once, with its count and its shipment method. Otherwise one that stands in the way is complained of.
pub proof fn every_version_is_shipped_once(
    versions: Map<Uuid, ProductVariantVersion>,
    counts: Map<Uuid, u64>,
    inputs: Map<Uuid, OrderItemInput>,
    result: Result<CalculateShipmentFeesInput, OrderError>,
)
    requires
        shipment_input_outcome(versions, counts, inputs, result),
    ensures
        result is Ok <==> forall|id: Uuid| #[trigger]
            versions.contains_key(id) ==> counts.contains_key(id) && inputs.contains_key(id) && counts[id]
                <= 0x7fff_ffff_ffff_ffff,
        result matches Ok(query) ==> exists|ids: Seq<Uuid>|
            #![trigger ids.no_duplicates()]
            {
                &&& ids.no_duplicates()
                &&& forall|id: Uuid| ids.contains(id) <==> #[trigger] versions.contains_key(id)
                &&& query.items@.len() == ids.len()
                &&& forall|i: int|
                    0 <= i < ids.len() ==> {
                        &&& (#[trigger] query.items@[i]).product_variant_version_id == versions[ids[i]].id
                        &&& query.items@[i].quantity == counts[ids[i]]
                        &&& query.items@[i].shipment_method_id == inputs[ids[i]].shipment_method_id
                    }
            },
        result matches Err(error) ==> exists|id: Uuid|
            #![trigger versions.contains_key(id)]
            versions.contains_key(id) && if !counts.contains_key(id) {
                error == (OrderError::NotInHashMap { entry: EntryKind::Count, id })
            } else if !inputs.contains_key(id) {
                error == (OrderError::NotInHashMap { entry: EntryKind::OrderItemInput, id })
            } else {
                counts[id] > 0x7fff_ffff_ffff_ffff && error is OutOfRange
            },
{
    match result {
        Ok(query) => {
            assert forall|id: Uuid| #[trigger] versions.contains_key(id) implies counts.contains_key(id)
                && inputs.contains_key(id) && counts[id] <= 0x7fff_ffff_ffff_ffff by {
                assert(shipment_failure(counts, inputs, id) is None);
            }
            let ids = choose|ids: Seq<Uuid>| #[trigger]
                enumerates(ids, versions.dom()) && all_ship(versions, counts, inputs, ids, query.items@);
            assert(ids.no_duplicates());
            assert forall|id: Uuid| ids.contains(id) <==> #[trigger] versions.contains_key(id) by {
                assert(ids.to_set().contains(id) <==> versions.dom().contains(id));
            }
            assert forall|i: int| 0 <= i < ids.len() implies {
                &&& (#[trigger] query.items@[i]).product_variant_version_id == versions[ids[i]].id
                &&& query.items@[i].quantity == counts[ids[i]]
                &&& query.items@[i].shipment_method_id == inputs[ids[i]].shipment_method_id
            } by {
                assert(ships(versions, counts, inputs, ids[i], query.items@[i]));
            }
        },
        Err(error) => {
            let id = choose|id: Uuid| #[trigger]
                versions.contains_key(id) && shipment_failure(counts, inputs, id) == Some(error);
            assert(versions.contains_key(id));
        },
    }
}

/// Shipment fees are those that the shipment service answers, if they are not negative.
pub proof fn fees_are_those_that_are_answered(response: Response<i64>, result: Result<u64, OrderError>)
    requires
        shipment_fees_outcome(response, result),
    ensures
        match response {
            Err(words) => result == Err::<u64, OrderError>(OrderError::Reported { text: words }),
            Ok(None) => result matches Err(OrderError::EmptyShipmentFeesResponse),
            Ok(Some(answered)) => match result {
                Ok(fees) => fees == answered,
                Err(error) => answered < 0 && error is OutOfRange,
            },
        },
{
}

} // verus!
