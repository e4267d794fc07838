//! The inventory: whether there is enough of everything that an order asks for.

use crate::cart::represents;
use crate::error::{build_hash_map_error, reports, EntryKind, OrderError};
use crate::keys::{is_last, keys_of, lemma_contains_pushed, lemma_has_last, lemma_last_of_pushed};
use crate::model::{Representation, Response};
use crate::uuid::{uuid_to_string, Uuid};
use std::collections::HashMap;
use vstd::prelude::*;

verus! {

/// An entity of the inventory service.
#[derive(Clone, Copy, Debug)]
pub enum StockEntity {
    /// A product variant, with the number of its product items that are not reserved.
    ProductVariant { id: Uuid, inventory_count: i64 },
    /// A product item, which is never asked for.
    ProductItem,
}

/// Names the entities that the stock of product variants is asked of.
pub fn product_variant_representations(product_variant_ids: &Vec<Uuid>) -> (representations: Vec<
    Representation,
>)
    ensures
        representations@.len() == product_variant_ids@.len(),
        forall|i: int|
            0 <= i < product_variant_ids@.len() ==> represents(
                #[trigger] representations@[i],
                "ProductVariant"@,
                product_variant_ids@[i],
            ),
{
    let mut representations: Vec<Representation> = Vec::new();
    let mut i: usize = 0;
    while i < product_variant_ids.len()
        invariant
            i <= product_variant_ids@.len(),
            representations@.len() == i,
            forall|j: int|
                0 <= j < i ==> represents(
                    #[trigger] representations@[j],
                    "ProductVariant"@,
                    product_variant_ids@[j],
                ),
        decreases product_variant_ids.len() - i,
    {
        representations.push(
            Representation {
                typename: "ProductVariant".to_string(),
                id: uuid_to_string(product_variant_ids[i]),
            },
        );
        i += 1;
    }
    representations
}

/// Why an entity of an answer tells no stock, if so.
pub open spec fn stock_failure(entity: Option<StockEntity>) -> Option<OrderError> {
    match entity {
        None => Some(OrderError::MissingStockEntity),
        Some(StockEntity::ProductVariant { inventory_count, .. }) => if inventory_count < 0 {
            Some(OrderError::OutOfRange)
        } else {
            None
        },
        Some(StockEntity::ProductItem) => None,
    }
}

/// Whether each entity tells the stock of a product variant.
pub open spec fn all_tell_stock(entities: Seq<Option<StockEntity>>) -> bool {
    forall|i: int| 0 <= i < entities.len() ==> stock_failure(#[trigger] entities[i]) is None
}

/// Whether the entity at `i` is the first that tells no stock.
pub open spec fn first_without_stock(entities: Seq<Option<StockEntity>>, i: int) -> bool {
    &&& 0 <= i < entities.len()
    &&& stock_failure(entities[i]) is Some
    &&& all_tell_stock(entities.take(i))
}

/// Whether an answer of the inventory service can be read: no product item stands in it before the
/// entity, if there is one, that ends the reading.
pub open spec fn stock_readable(entities: Seq<Option<StockEntity>>) -> bool {
    forall|i: int|
        0 <= i < entities.len() && (#[trigger] entities[i]) == Some(StockEntity::ProductItem)
            ==> !all_tell_stock(entities.take(i))
}

/// Stock counts by product variants. Of several entities with one UUID, the last one counts.
pub open spec fn stock_of(entities: Seq<Option<StockEntity>>) -> Map<Uuid, u64>
    decreases entities.len(),
{
    if entities.len() == 0 {
        Map::empty()
    } else {
        match entities.last() {
            Some(StockEntity::ProductVariant { id, inventory_count }) => stock_of(
                entities.drop_last(),
            ).insert(id, inventory_count as u64),
            _ => stock_of(entities.drop_last()),
        }
    }
}

/// Whether `result` is what the data of an answer of the inventory service say of stocks.
pub open spec fn stock_outcome(
    entities: Seq<Option<StockEntity>>,
    result: Result<HashMap<Uuid, u64>, OrderError>,
) -> bool {
    match result {
        Ok(stock) => all_tell_stock(entities) && stock@ == stock_of(entities),
        Err(error) => exists|i: int| #[trigger]
            first_without_stock(entities, i) && stock_failure(entities[i]) == Some(error),
    }
}

/// Remaps the result type of the GraphQL `_entities` query retrieving stock counts for product
/// variants.
pub fn build_stock_counts_by_product_variant_from_response_data(entities: &Vec<Option<StockEntity>>) -> (result:
    Result<HashMap<Uuid, u64>, OrderError>)
    requires
        stock_readable(entities@),
    ensures
        stock_outcome(entities@, result),
{
    let mut stock: HashMap<Uuid, u64> = HashMap::new();
    let mut i: usize = 0;
    while i < entities.len()
        invariant
            stock_readable(entities@),
            i <= entities@.len(),
            all_tell_stock(entities@.take(i as int)),
            stock@ == stock_of(entities@.take(i as int)),
        decreases entities.len() - i,
    {
        let ghost told = entities@.take(i as int);
        let ghost telling = entities@.take(i + 1);
        assert(telling.drop_last() =~= told);
        match entities[i] {
            None => {
                assert(first_without_stock(entities@, i as int));
                return Err(OrderError::MissingStockEntity);
            },
            Some(StockEntity::ProductVariant { id, inventory_count }) => {
                if inventory_count < 0 {
                    assert(first_without_stock(entities@, i as int));
                    return Err(OrderError::OutOfRange);
                }
                stock.insert(id, inventory_count as u64);
            },
            Some(StockEntity::ProductItem) => {
                assert(entities@[i as int] == Some(StockEntity::ProductItem));
                assert(false);
            },
        }
        assert(all_tell_stock(telling)) by {
            assert forall|j: int| 0 <= j < telling.len() implies stock_failure(
                #[trigger] telling[j],
            ) is None by {
                if j < i {
                    assert(telling[j] == told[j]);
                }
            }
        }
        i += 1;
    }
    assert(entities@.take(i as int) =~= entities@);
    Ok(stock)
}

/// Whether there is enough of everything that is expected.
pub open spec fn all_available(stock: Map<Uuid, u64>, expected: Map<Uuid, u64>) -> bool {
    forall|id: Uuid| #[trigger]
        expected.contains_key(id) ==> stock.contains_key(id) && stock[id] >= expected[id]
}

/// Whether `result` tells rightly if there is enough of everything that is expected. A product
/// variant of which no stock is known at all is complained of first.
pub open spec fn availability_outcome(
    stock: Map<Uuid, u64>,
    expected: Map<Uuid, u64>,
    result: Result<(), OrderError>,
) -> bool {
    match result {
        Ok(()) => all_available(stock, expected),
        Err(OrderError::NotAllAvailable) => !all_available(stock, expected) && expected.dom().subset_of(
            stock.dom(),
        ),
        Err(error) => exists|id: Uuid| #[trigger]
            expected.contains_key(id) && !stock.contains_key(id) && error == (OrderError::NotInHashMap {
                entry: EntryKind::Count,
                id,
            }),
    }
}

/// Calculates the availability based on the actual and expected stock counts based on the product
/// variant UUIDs.
///
/// The expected amount or more product items need to be in stock for a product variant to be
/// counted as available.
/// All product variants need to be available for this function to pass without an error.
pub fn calculate_availability_of_product_variant_ids(
    stock_counts_by_product_variant_ids: &HashMap<Uuid, u64>,
    expected_stock_counts_by_product_variant_ids: &HashMap<Uuid, u64>,
) -> (result: Result<(), OrderError>)
    ensures
        availability_outcome(
            stock_counts_by_product_variant_ids@,
            expected_stock_counts_by_product_variant_ids@,
            result,
        ),
{
    let ghost stock = stock_counts_by_product_variant_ids@;
    let ghost expected = expected_stock_counts_by_product_variant_ids@;
    let ids: Vec<Uuid> = keys_of(expected_stock_counts_by_product_variant_ids);
    let mut available: bool = true;
    let mut i: usize = 0;
    while i < ids.len()
        invariant
            stock == stock_counts_by_product_variant_ids@,
            expected == expected_stock_counts_by_product_variant_ids@,
            i <= ids@.len(),
            ids@.to_set() == expected.dom(),
            forall|j: int| 0 <= j < i ==> stock.contains_key(#[trigger] ids@[j]),
            available <==> forall|j: int| 0 <= j < i ==> stock[#[trigger] ids@[j]] >= expected[ids@[j]],
        decreases ids.len() - i,
    {
        let id: Uuid = ids[i];
        assert(ids@.to_set().contains(ids@[i as int]));
        assert(expected.contains_key(id));
        let expected_count: u64 = *expected_stock_counts_by_product_variant_ids.get(&id).unwrap();
        match stock_counts_by_product_variant_ids.get(&id) {
            Some(count) => {
                if *count < expected_count {
                    available = false;
                }
            },
            None => {
                return Err(build_hash_map_error(EntryKind::Count, id));
            },
        }
        i += 1;
    }
    proof {
        assert forall|id: Uuid| #[trigger] expected.contains_key(id) implies stock.contains_key(id) && (available
            ==> stock[id] >= expected[id]) by {
            assert(ids@.to_set().contains(id));
        }
        if !available {
            let j = choose|j: int| 0 <= j < ids@.len() && !(stock[#[trigger] ids@[j]] >= expected[ids@[j]]);
            assert(ids@.to_set().contains(ids@[j]));
            assert(expected.contains_key(ids@[j]));
        }
    }
    if available {
        Ok(())
    } else {
        Err(OrderError::NotAllAvailable)
    }
}

/// Whether `result` is what the answer of the inventory service means for an order.
pub open spec fn inventory_outcome(
    response: Response<Vec<Option<StockEntity>>>,
    counts: Map<Uuid, u64>,
    result: Result<(), OrderError>,
) -> bool {
    match response {
        Err(words) => reports(result, words),
        Ok(None) => result matches Err(OrderError::EmptyStockResponse),
        Ok(Some(entities)) => if all_tell_stock(entities@) {
            availability_outcome(stock_of(entities@), counts, result)
        } else {
            result matches Err(error) && exists|i: int| #[trigger]
                first_without_stock(entities@, i) && stock_failure(entities@[i]) == Some(error)
        },
    }
}

/// Whether an answer of the inventory service can be read.
pub open spec fn inventory_readable(response: Response<Vec<Option<StockEntity>>>) -> bool {
    response matches Ok(Some(entities)) ==> stock_readable(entities@)
}

/// Tells whether an answer of the inventory service can be read.
pub fn can_read_inventory(response: &Response<Vec<Option<StockEntity>>>) -> (readable: bool)
    ensures
        readable == inventory_readable(*response),
{
    match response {
        Ok(Some(entities)) => {
            let mut i: usize = 0;
            while i < entities.len()
                invariant
                    i <= entities@.len(),
                    all_tell_stock(entities@.take(i as int)),
                    forall|j: int| 0 <= j < i ==> entities@[j] != Some(StockEntity::ProductItem),
                    *response == Ok::<Option<Vec<Option<StockEntity>>>, String>(Some(*entities)),
                decreases entities.len() - i,
            {
                let ghost told = entities@.take(i as int);
                let ghost telling = entities@.take(i + 1);
                match entities[i] {
                    Some(StockEntity::ProductItem) => {
                        assert(entities@[i as int] == Some(StockEntity::ProductItem));
                        return false;
                    },
                    None => {
                        proof {
                            lemma_readable_until(entities@, i as int);
                        }
                        return true;
                    },
                    Some(StockEntity::ProductVariant { inventory_count, .. }) => {
                        if inventory_count < 0 {
                            proof {
                                lemma_readable_until(entities@, i as int);
                            }
                            return true;
                        }
                    },
                }
                assert forall|j: int| 0 <= j < telling.len() implies stock_failure(
                    #[trigger] telling[j],
                ) is None by {
                    if j < i {
                        assert(telling[j] == told[j]);
                    }
                }
                i += 1;
            }
            true
        },
        _ => true,
    }
}

/// An answer that holds no product item before its first entity that tells no stock can be read.
proof fn lemma_readable_until(entities: Seq<Option<StockEntity>>, i: int)
    requires
        0 <= i < entities.len(),
        stock_failure(entities[i]) is Some,
        forall|j: int| 0 <= j < i ==> entities[j] != Some(StockEntity::ProductItem),
    ensures
        stock_readable(entities),
{
    assert forall|k: int|
        0 <= k < entities.len() && (#[trigger] entities[k]) == Some(
            StockEntity::ProductItem,
        ) implies !all_tell_stock(entities.take(k)) by {
        assert(entities.take(k)[i] == entities[i]);
    }
}

/// Checks if product items are available, by the answer of the inventory service.
pub fn check_product_variant_availability(
    response: Response<Vec<Option<StockEntity>>>,
    counts_by_product_variant_ids: &HashMap<Uuid, u64>,
) -> (result: Result<(), OrderError>)
    requires
        inventory_readable(response),
    ensures
        inventory_outcome(response, counts_by_product_variant_ids@, result),
{
    let entities = match response {
        Err(text) => {
            return Err(OrderError::Reported { text });
        },
        Ok(None) => {
            return Err(OrderError::EmptyStockResponse);
        },
        Ok(Some(entities)) => entities,
    };
    match build_stock_counts_by_product_variant_from_response_data(&entities) {
        Err(error) => {
            assert(!all_tell_stock(entities@)) by {
                let i = choose|i: int| #[trigger]
                    first_without_stock(entities@, i) && stock_failure(entities@[i]) == Some(error);
                assert(stock_failure(entities@[i]) is Some);
            }
            Err(error)
        },
        Ok(stock) => calculate_availability_of_product_variant_ids(&stock, counts_by_product_variant_ids),
    }
}

/// More stock never makes an order unavailable.
pub proof fn availability_is_monotone(less: Map<Uuid, u64>, more: Map<Uuid, u64>, expected: Map<Uuid, u64>)
    requires
        all_available(less, expected),
        forall|id: Uuid| #[trigger] less.contains_key(id) ==> more.contains_key(id) && more[id] >= less[id],
    ensures
        all_available(more, expected),
{
    assert forall|id: Uuid| #[trigger] expected.contains_key(id) implies more.contains_key(id) && more[id]
        >= expected[id] by {
        assert(less.contains_key(id));
    }
}

/// Asking for less never makes an order unavailable.
pub proof fn smaller_requests_stay_available(
    stock: Map<Uuid, u64>,
    larger: Map<Uuid, u64>,
    smaller: Map<Uuid, u64>,
)
    requires
        all_available(stock, larger),
        forall|id: Uuid| #[trigger]
            smaller.contains_key(id) ==> larger.contains_key(id) && smaller[id] <= larger[id],
    ensures
        all_available(stock, smaller),
{
    assert forall|id: Uuid| #[trigger] smaller.contains_key(id) implies stock.contains_key(id) && stock[id]
        >= smaller[id] by {
        assert(larger.contains_key(id));
    }
}

/// The product variants that entities are about, where they are about one.
pub open spec fn stock_ids(entities: Seq<Option<StockEntity>>) -> Seq<Option<Uuid>> {
    entities.map_values(
        |entity: Option<StockEntity>|
            match entity {
                Some(StockEntity::ProductVariant { id, .. }) => Some(id),
                _ => None,
            },
    )
}

/// Stocks are known of the product variants that entities are about and no others, and of several
/// entities with one UUID the last one counts.
pub proof fn last_stocks_count(entities: Seq<Option<StockEntity>>)
    ensures
        forall|id: Uuid| #[trigger]
            stock_of(entities).contains_key(id) <==> stock_ids(entities).contains(Some(id)),
        forall|id: Uuid, i: int| #[trigger]
            is_last(stock_ids(entities), Some(id), i) ==> (entities[i] matches Some(
                StockEntity::ProductVariant { id: same, inventory_count },
            ) && same == id && stock_of(entities)[id] == inventory_count as u64),
    decreases entities.len(),
{
    if entities.len() > 0 {
        let rest = entities.drop_last();
        let (ids, rest_ids) = (stock_ids(entities), stock_ids(rest));
        last_stocks_count(rest);
        assert(ids =~= rest_ids.push(ids.last()));
        assert forall|id: Uuid| #[trigger] stock_of(entities).contains_key(id) <==> ids.contains(Some(id)) by {
            lemma_contains_pushed(rest_ids, ids.last(), Some(id));
            assert(stock_of(rest).contains_key(id) <==> rest_ids.contains(Some(id)));
        }
        assert forall|id: Uuid, i: int| #[trigger] is_last(ids, Some(id), i) implies (entities[i] matches Some(
            StockEntity::ProductVariant { id: same, inventory_count },
        ) && same == id && stock_of(entities)[id] == inventory_count as u64) by {
            if i < rest.len() {
                lemma_last_of_pushed(rest_ids, ids.last(), Some(id), i);
            }
        }
    }
}

/// A stock suffices if and only if it holds as many product items of everything as are expected, or
/// more.
pub proof fn enough_is_as_much_as_expected(
    stock: Map<Uuid, u64>,
    expected: Map<Uuid, u64>,
    result: Result<(), OrderError>,
)
    requires
        availability_outcome(stock, expected, result),
    ensures
        result is Ok <==> forall|id: Uuid| #[trigger]
            expected.contains_key(id) ==> stock.contains_key(id) && stock[id] >= expected[id],
        result matches Err(error) ==> error is NotAllAvailable || (error matches OrderError::NotInHashMap {
            entry: EntryKind::Count,
            id,
        } && expected.contains_key(id) && !stock.contains_key(id)),
        result matches Err(OrderError::NotAllAvailable) ==> forall|id: Uuid| #[trigger]
            expected.contains_key(id) ==> stock.contains_key(id),
{
}

/// Whether all entities are product variants of which the number is not negative.
pub open spec fn all_in_order(entities: Seq<Option<StockEntity>>) -> bool {
    forall|i: int|
        0 <= i < entities.len() ==> ((#[trigger] entities[i]) matches Some(
            StockEntity::ProductVariant { inventory_count, .. },
        ) && inventory_count >= 0)
}

/// Where the inventory service answers with product variants that are in order, an order passes if and
/// only if the last entity of every product variant tells as many product items as are asked for, or
/// more.
pub proof fn stocks_decide(
    entities: Vec<Option<StockEntity>>,
    counts: Map<Uuid, u64>,
    result: Result<(), OrderError>,
)
    requires
        all_in_order(entities@),
        inventory_outcome(Ok(Some(entities)), counts, result),
    ensures
        result is Ok <==> forall|id: Uuid| #[trigger]
            counts.contains_key(id) ==> exists|i: int| #[trigger]
                is_last(stock_ids(entities@), Some(id), i)
                    && entities@[i]->0->ProductVariant_inventory_count >= counts[id],
        result matches Err(error) ==> error is NotAllAvailable || (error matches OrderError::NotInHashMap {
            entry: EntryKind::Count,
            id,
        } && counts.contains_key(id) && !stock_ids(entities@).contains(Some(id))),
        result matches Err(OrderError::NotAllAvailable) ==> forall|id: Uuid| #[trigger]
            counts.contains_key(id) ==> stock_ids(entities@).contains(Some(id)),
{
    let stock = stock_of(entities@);
    assert forall|i: int| 0 <= i < entities@.len() implies stock_failure(#[trigger] entities@[i]) is None by {}
    last_stocks_count(entities@);
    enough_is_as_much_as_expected(stock, counts, result);
    assert forall|id: Uuid| #[trigger] stock.contains_key(id) implies exists|i: int| #[trigger]
        is_last(stock_ids(entities@), Some(id), i) && entities@[i]->0->ProductVariant_inventory_count
            == stock[id] by {
        lemma_has_last(stock_ids(entities@), Some(id));
        let i = choose|i: int| is_last(stock_ids(entities@), Some(id), i);
        assert(0 <= i < entities@.len());
        assert(entities@[i]->0->ProductVariant_inventory_count >= 0);
    }
    assert forall|id: Uuid, i: int| #[trigger] is_last(stock_ids(entities@), Some(id), i) implies stock.contains_key(
        id,
    ) && stock[id] == entities@[i]->0->ProductVariant_inventory_count by {
        assert(stock_ids(entities@)[i] == Some(id));
        assert(entities@[i]->0->ProductVariant_inventory_count >= 0);
    }
    if result matches Err(OrderError::NotAllAvailable) {
        assert forall|id: Uuid| #[trigger] counts.contains_key(id) implies stock_ids(entities@).contains(
            Some(id),
        ) by {
            assert(stock.contains_key(id));
        }
    }
    if result is Ok {
        assert forall|id: Uuid| #[trigger] counts.contains_key(id) implies exists|i: int| #[trigger]
            is_last(stock_ids(entities@), Some(id), i)
                && entities@[i]->0->ProductVariant_inventory_count >= counts[id] by {
            assert(stock.contains_key(id));
            let i = choose|i: int| #[trigger]
                is_last(stock_ids(entities@), Some(id), i)
                    && entities@[i]->0->ProductVariant_inventory_count == stock[id];
            assert(is_last(stock_ids(entities@), Some(id), i));
        }
    }
}

/// The first entity that is missing or negative ends the reading of an answer, unless a product item
/// stands before it.
pub proof fn entities_out_of_order_are_errors(
    entities: Vec<Option<StockEntity>>,
    counts: Map<Uuid, u64>,
    result: Result<(), OrderError>,
    i: int,
)
    requires
        0 <= i < entities@.len(),
        all_in_order(entities@.take(i)),
        inventory_outcome(Ok(Some(entities)), counts, result),
    ensures
        entities@[i] is None ==> (result matches Err(OrderError::MissingStockEntity)),
        entities@[i] matches Some(StockEntity::ProductVariant { inventory_count, .. }) ==> (inventory_count < 0
            ==> (result matches Err(OrderError::OutOfRange))),
{
    assert forall|j: int| 0 <= j < i implies stock_failure(#[trigger] entities@[j]) is None by {
        assert(entities@.take(i)[j] == entities@[j]);
    }
    if stock_failure(entities@[i]) is Some {
        let first = choose|k: int| #[trigger]
            first_without_stock(entities@, k) && stock_failure(entities@[k]) == Some(result->Err_0);
        if first > i {
            assert(entities@.take(first)[i] == entities@[i]);
        }
    }
}

/// An error on the way to the inventory service is passed on, and an answer without data is empty.
pub proof fn nothing_is_available_without_an_answer(
    response: Response<Vec<Option<StockEntity>>>,
    counts: Map<Uuid, u64>,
    result: Result<(), OrderError>,
)
    requires
        inventory_outcome(response, counts, result),
    ensures
        response matches Err(words) ==> result == Err::<(), OrderError>(OrderError::Reported { text: words }),
        response matches Ok(None) ==> (result matches Err(OrderError::EmptyStockResponse)),
{
}

/// An answer can be read unless a product item stands in it behind nothing but product variants that
/// are in order.
pub proof fn answers_can_be_read_up_to_a_product_item(response: Response<Vec<Option<StockEntity>>>)
    ensures
        inventory_readable(response) <==> !(response matches Ok(Some(entities)) && exists|i: int|
            0 <= i < entities@.len() && (#[trigger] entities@[i]) == Some(StockEntity::ProductItem)
                && all_in_order(entities@.take(i))),
{
    if let Ok(Some(entities)) = response {
        if !inventory_readable(response) {
            let i = lemma_first_product_item(entities@);
            assert(entities@[i] == Some(StockEntity::ProductItem));
        }
        if exists|i: int|
            0 <= i < entities@.len() && (#[trigger] entities@[i]) == Some(StockEntity::ProductItem)
                && all_in_order(entities@.take(i)) {
            let i = choose|i: int|
                0 <= i < entities@.len() && (#[trigger] entities@[i]) == Some(StockEntity::ProductItem)
                    && all_in_order(entities@.take(i));
            assert(all_tell_stock(entities@.take(i)));
        }
    }
}

/// Where an answer cannot be read, its first product item stands behind nothing but product variants
/// that are in order.
proof fn lemma_first_product_item(entities: Seq<Option<StockEntity>>) -> (i: int)
    requires
        !stock_readable(entities),
    ensures
        0 <= i < entities.len(),
        entities[i] == Some(StockEntity::ProductItem),
        all_in_order(entities.take(i)),
    decreases entities.len(),
{
    let i = choose|i: int|
        0 <= i < entities.len() && (#[trigger] entities[i]) == Some(StockEntity::ProductItem)
            && all_tell_stock(entities.take(i));
    let before = entities.take(i);
    if all_in_order(before) {
        i
    } else {
        let j = choose|j: int|
            0 <= j < before.len() && !((#[trigger] before[j]) matches Some(
                StockEntity::ProductVariant { inventory_count, .. },
            ) && inventory_count >= 0);
        assert(stock_failure(before[j]) is None);
        assert(before[j] == Some(StockEntity::ProductItem));
        assert(all_tell_stock(before.take(j))) by {
            assert forall|k: int| 0 <= k < j implies stock_failure(#[trigger] before.take(j)[k]) is None by {
                assert(before.take(j)[k] == before[k]);
            }
        }
        assert(!stock_readable(before));
        let earlier = lemma_first_product_item(before);
        assert(before.take(earlier) =~= entities.take(earlier));
        earlier
    }
}

} // verus!
