//! Discounts: what the discount service is asked, and what is made of its answer.

use crate::error::{build_hash_map_error, reports, EntryKind, OrderError};
use crate::keys::{enumerates, is_last, keys_of, lemma_contains_pushed, lemma_last_of_pushed, lemma_step};
use crate::model::{Discount, OrderItemInput, ProductVariantVersion, Response};
use crate::uuid::Uuid;
use std::collections::{BTreeSet, HashMap};
use vstd::prelude::*;

verus! {

/// Describes a product variant, the count of items planned to order and the coupons, which should
/// be applied.
#[derive(Debug)]
pub struct FindApplicableDiscountsProductVariantInput {
    pub product_variant_id: Uuid,
    pub count: i64,
    pub coupon_ids: Vec<Uuid>,
}

/// Describes the order amount, which is the sum of all product variant version prices, the product
/// variants and the user which the discounts are queried for.
#[derive(Debug)]
pub struct FindApplicableDiscountsInput {
    pub user_id: Uuid,
    pub product_variants: Vec<FindApplicableDiscountsProductVariantInput>,
    pub order_amount: i64,
}

/// The discounts of a product variant, as the discount service lists them.
#[derive(Debug)]
pub struct DiscountsForProductVariant {
    pub product_variant_id: Uuid,
    pub discounts: Vec<Discount>,
}

/// The query for the discounts that apply to an order.
pub struct GetDiscounts;

/// The sum of the prices of product variant versions.
pub open spec fn price_total(versions: Map<Uuid, ProductVariantVersion>) -> nat
    decreases versions.dom().len(),
    when versions.dom().finite()
{
    if versions.dom().len() == 0 {
        0
    } else {
        let id = versions.dom().choose();
        price_total(versions.remove(id)) + versions[id].price as nat
    }
}

/// The sum of prices does not depend on the order in which they are added.
pub proof fn price_total_counts_each(versions: Map<Uuid, ProductVariantVersion>, id: Uuid)
    requires
        versions.dom().finite(),
        versions.contains_key(id),
    ensures
        price_total(versions) == price_total(versions.remove(id)) + versions[id].price,
    decreases versions.dom().len(),
{
    let chosen = versions.dom().choose();
    assert(versions.dom().contains(chosen));
    if chosen != id {
        let (without_chosen, without_id) = (versions.remove(chosen), versions.remove(id));
        assert(without_chosen.dom() =~= versions.dom().remove(chosen));
        assert(without_id.dom() =~= versions.dom().remove(id));
        price_total_counts_each(without_chosen, id);
        price_total_counts_each(without_id, chosen);
        assert(without_chosen.remove(id) =~= without_id.remove(chosen));
    } else {
        assert(versions.dom().len() > 0);
    }
}

/// Calculates the total sum of the undiscounted order items. Does not include shipping costs.
///
/// This defines the semantic of the total amount that is passed to the discount service, for
/// figuring out which discounts apply.
/// Do not confuse with `calculate_compensatable_order_amount`, which is the total compensatable
/// amount that the buyer needs to pay.
pub fn calculate_order_amount(
    product_variant_versions_by_product_variant_ids: &HashMap<Uuid, ProductVariantVersion>,
) -> (order_amount: i64)
    requires
        price_total(product_variant_versions_by_product_variant_ids@) <= u32::MAX,
    ensures
        order_amount == price_total(product_variant_versions_by_product_variant_ids@),
{
    checked_order_amount(product_variant_versions_by_product_variant_ids).unwrap()
}

/// Calculates the total sum of the undiscounted order items, unless it is out of range.
pub fn checked_order_amount(
    product_variant_versions_by_product_variant_ids: &HashMap<Uuid, ProductVariantVersion>,
) -> (order_amount: Option<i64>)
    ensures
        match order_amount {
            Some(amount) => amount == price_total(product_variant_versions_by_product_variant_ids@)
                && amount <= u32::MAX,
            None => price_total(product_variant_versions_by_product_variant_ids@) > u32::MAX,
        },
{
    let ghost versions = product_variant_versions_by_product_variant_ids@;
    let ids: Vec<Uuid> = keys_of(product_variant_versions_by_product_variant_ids);
    let mut order_amount: u32 = 0;
    let ghost mut rest = versions;
    let mut i: usize = 0;
    while i < ids.len()
        invariant
            versions == product_variant_versions_by_product_variant_ids@,
            i <= ids@.len(),
            enumerates(ids@, versions.dom()),
            versions.dom().finite(),
            rest == versions.remove_keys(ids@.take(i as int).to_set()),
            order_amount + price_total(rest) == price_total(versions),
        decreases ids.len() - i,
    {
        let id: Uuid = ids[i];
        proof {
            lemma_step(ids@, i as int);
            assert(!ids@.take(i as int).to_set().contains(id));
            assert(rest.contains_key(id));
            assert(rest.dom().finite()) by {
                assert(rest.dom().subset_of(versions.dom()));
                vstd::set_lib::lemma_len_subset(rest.dom(), versions.dom());
            }
            price_total_counts_each(rest, id);
            assert(rest.remove(id) =~= versions.remove_keys(ids@.take(i + 1).to_set()));
            rest = rest.remove(id);
        }
        assert(versions.contains_key(id));
        let price: u32 = product_variant_versions_by_product_variant_ids.get(&id).unwrap().price;
        match order_amount.checked_add(price) {
            Some(sum) => {
                order_amount = sum;
            },
            None => {
                return None;
            },
        }
        i += 1;
    }
    proof {
        assert(ids@.take(i as int) =~= ids@);
        assert(rest.dom() =~= Set::empty());
    }
    Some(order_amount as i64)
}

/// Why the discounts of a product variant cannot be asked for, if so.
pub open spec fn discount_input_failure(
    inputs: Map<Uuid, OrderItemInput>,
    counts: Map<Uuid, u64>,
    id: Uuid,
) -> Option<OrderError> {
    if !counts.contains_key(id) {
        Some(OrderError::NotInHashMap { entry: EntryKind::Count, id })
    } else if !inputs.contains_key(id) {
        Some(OrderError::NotInHashMap { entry: EntryKind::OrderItemInput, id })
    } else if counts[id] > i64::MAX {
        Some(OrderError::OutOfRange)
    } else {
        None
    }
}

/// Whether `input` asks for the discounts of a product variant.
pub open spec fn asks_for_discounts(
    inputs: Map<Uuid, OrderItemInput>,
    counts: Map<Uuid, u64>,
    id: Uuid,
    input: FindApplicableDiscountsProductVariantInput,
) -> bool {
    &&& input.product_variant_id == id
    &&& input.count == counts[id]
    &&& input.coupon_ids@ == inputs[id].coupon_ids@
}

/// Whether the discounts of all product variants can be asked for.
pub open spec fn all_askable(
    inputs: Map<Uuid, OrderItemInput>,
    counts: Map<Uuid, u64>,
    ids: Seq<Uuid>,
) -> bool {
    forall|i: int| 0 <= i < ids.len() ==> discount_input_failure(inputs, counts, #[trigger] ids[i]) is None
}

/// Whether the product variant at `i` is the first of which the discounts cannot be asked for.
pub open spec fn first_unaskable(
    inputs: Map<Uuid, OrderItemInput>,
    counts: Map<Uuid, u64>,
    ids: Seq<Uuid>,
    i: int,
) -> bool {
    &&& 0 <= i < ids.len()
    &&& discount_input_failure(inputs, counts, ids[i]) is Some
    &&& all_askable(inputs, counts, ids.take(i))
}

/// Whether `product_variants` ask for the discounts of the product variants `ids`, one by one.
pub open spec fn all_ask_for_discounts(
    inputs: Map<Uuid, OrderItemInput>,
    counts: Map<Uuid, u64>,
    ids: Seq<Uuid>,
    product_variants: Seq<FindApplicableDiscountsProductVariantInput>,
) -> bool {
    &&& all_askable(inputs, counts, ids)
    &&& product_variants.len() == ids.len()
    &&& forall|i: int|
        0 <= i < ids.len() ==> asks_for_discounts(inputs, counts, ids[i], #[trigger] product_variants[i])
}

/// Whether `error` tells why the discounts of the first product variant that stands in the way
/// cannot be asked for.
pub open spec fn not_askable(
    inputs: Map<Uuid, OrderItemInput>,
    counts: Map<Uuid, u64>,
    ids: Seq<Uuid>,
    error: OrderError,
) -> bool {
    exists|i: int| #[trigger]
        first_unaskable(inputs, counts, ids, i) && discount_input_failure(inputs, counts, ids[i]) == Some(
            error,
        )
}

/// Where there is a complaint, not all discounts can be asked for.
pub proof fn lemma_not_askable(
    inputs: Map<Uuid, OrderItemInput>,
    counts: Map<Uuid, u64>,
    ids: Seq<Uuid>,
    error: OrderError,
)
    requires
        not_askable(inputs, counts, ids, error),
    ensures
        !all_askable(inputs, counts, ids),
{
    let i = choose|i: int| #[trigger]
        first_unaskable(inputs, counts, ids, i) && discount_input_failure(inputs, counts, ids[i]) == Some(
            error,
        );
    assert(discount_input_failure(inputs, counts, ids[i]) is Some);
}

/// Builds part of the `FindApplicableDiscountsInput`: describes product variant ids, the count of
/// items planned to order and the coupons, which should be applied.
pub fn build_find_applicable_discounts_product_variant_input(
    order_item_inputs_by_product_variant_ids: &HashMap<Uuid, OrderItemInput>,
    product_variant_ids: &Vec<Uuid>,
    counts_by_product_variant_ids: &HashMap<Uuid, u64>,
) -> (result: Result<Vec<FindApplicableDiscountsProductVariantInput>, OrderError>)
    ensures
        match result {
            Ok(product_variants) => all_ask_for_discounts(
                order_item_inputs_by_product_variant_ids@,
                counts_by_product_variant_ids@,
                product_variant_ids@,
                product_variants@,
            ),
            Err(error) => not_askable(
                order_item_inputs_by_product_variant_ids@,
                counts_by_product_variant_ids@,
                product_variant_ids@,
                error,
            ),
        },
{
    let ghost inputs = order_item_inputs_by_product_variant_ids@;
    let ghost counts = counts_by_product_variant_ids@;
    let ghost ids = product_variant_ids@;
    let mut product_variants: Vec<FindApplicableDiscountsProductVariantInput> = Vec::new();
    let mut i: usize = 0;
    while i < product_variant_ids.len()
        invariant
            inputs == order_item_inputs_by_product_variant_ids@,
            counts == counts_by_product_variant_ids@,
            ids == product_variant_ids@,
            i <= ids.len(),
            product_variants@.len() == i,
            forall|j: int|
                0 <= j < i ==> discount_input_failure(inputs, counts, #[trigger] ids[j]) is None,
            forall|j: int|
                0 <= j < i ==> asks_for_discounts(inputs, counts, ids[j], #[trigger] product_variants@[j]),
        decreases product_variant_ids.len() - i,
    {
        let id: Uuid = product_variant_ids[i];
        assert(discount_input_failure(inputs, counts, id) is Some ==> first_unaskable(
            inputs,
            counts,
            ids,
            i as int,
        ));
        let count: u64 = match counts_by_product_variant_ids.get(&id) {
            Some(count) => *count,
            None => {
                return Err(build_hash_map_error(EntryKind::Count, id));
            },
        };
        let coupon_ids: Vec<Uuid> = match order_item_inputs_by_product_variant_ids.get(&id) {
            Some(order_item_input) => order_item_input.coupon_ids.clone(),
            None => {
                return Err(build_hash_map_error(EntryKind::OrderItemInput, id));
            },
        };
        assert(coupon_ids@ =~= inputs[id].coupon_ids@);
        if count > i64::MAX as u64 {
            return Err(OrderError::OutOfRange);
        }
        product_variants.push(
            FindApplicableDiscountsProductVariantInput {
                product_variant_id: id,
                count: count as i64,
                coupon_ids,
            },
        );
        i += 1;
    }
    Ok(product_variants)
}

/// Builds `FindApplicableDiscountsInput`.
pub fn build_find_applicable_discounts_input(
    user_id: Uuid,
    find_applicable_discounts_product_variant_input: Vec<FindApplicableDiscountsProductVariantInput>,
    order_amount: i64,
) -> (input: FindApplicableDiscountsInput)
    ensures
        input == (FindApplicableDiscountsInput {
            user_id,
            product_variants: find_applicable_discounts_product_variant_input,
            order_amount,
        }),
{
    FindApplicableDiscountsInput {
        user_id,
        product_variants: find_applicable_discounts_product_variant_input,
        order_amount,
    }
}

impl GetDiscounts {
    /// Whether `result` is what the discount service is to be asked for an order.
    pub open spec fn asks(
        user_id: Uuid,
        inputs: Map<Uuid, OrderItemInput>,
        ids: Seq<Uuid>,
        versions: Map<Uuid, ProductVariantVersion>,
        counts: Map<Uuid, u64>,
        result: Result<FindApplicableDiscountsInput, OrderError>,
    ) -> bool {
        match result {
            Ok(input) => {
                &&& all_ask_for_discounts(inputs, counts, ids, input.product_variants@)
                &&& input.user_id == user_id
                &&& input.order_amount == price_total(versions)
            },
            Err(error) => not_askable(inputs, counts, ids, error),
        }
    }

    /// Builds the variables of the query.
    pub fn variables(
        user_id: Uuid,
        order_item_inputs_by_product_variant_ids: &HashMap<Uuid, OrderItemInput>,
        product_variant_ids: &Vec<Uuid>,
        product_variant_versions_by_product_variant_ids: &HashMap<Uuid, ProductVariantVersion>,
        counts_by_product_variant_ids: &HashMap<Uuid, u64>,
    ) -> (result: Result<FindApplicableDiscountsInput, OrderError>)
        requires
            all_askable(
                order_item_inputs_by_product_variant_ids@,
                counts_by_product_variant_ids@,
                product_variant_ids@,
            ) ==> price_total(product_variant_versions_by_product_variant_ids@) <= u32::MAX,
        ensures
            Self::asks(
                user_id,
                order_item_inputs_by_product_variant_ids@,
                product_variant_ids@,
                product_variant_versions_by_product_variant_ids@,
                counts_by_product_variant_ids@,
                result,
            ),
    {
        match build_find_applicable_discounts_product_variant_input(
            order_item_inputs_by_product_variant_ids,
            product_variant_ids,
            counts_by_product_variant_ids,
        ) {
            Err(error) => Err(error),
            Ok(product_variants) => Ok(
                build_find_applicable_discounts_input(
                    user_id,
                    product_variants,
                    calculate_order_amount(product_variant_versions_by_product_variant_ids),
                ),
            ),
        }
    }
}

/// The lists of discounts by product variants. Of several lists for one product variant, the last
/// one counts.
pub open spec fn by_product_variant(lists: Seq<DiscountsForProductVariant>) -> Map<
    Uuid,
    DiscountsForProductVariant,
>
    decreases lists.len(),
{
    if lists.len() == 0 {
        Map::empty()
    } else {
        by_product_variant(lists.drop_last()).insert(lists.last().product_variant_id, lists.last())
    }
}

/// Whether the answer of the discount service provides for each product variant, and none is asked
/// for twice.
pub open spec fn provides_for_all(lists: Map<Uuid, DiscountsForProductVariant>, ids: Seq<Uuid>) -> bool {
    &&& ids.no_duplicates()
    &&& ids.to_set().subset_of(lists.dom())
}

/// Whether the product variant at `i` is the first that the answer does not provide for, or that
/// is asked for a second time.
pub open spec fn first_without_discounts(
    lists: Map<Uuid, DiscountsForProductVariant>,
    ids: Seq<Uuid>,
    i: int,
) -> bool {
    &&& 0 <= i < ids.len()
    &&& !lists.contains_key(ids[i]) || ids.take(i).contains(ids[i])
    &&& provides_for_all(lists, ids.take(i))
}

/// Whether `error` complains of the first product variant that the answer does not provide for.
pub open spec fn not_provided(
    lists: Map<Uuid, DiscountsForProductVariant>,
    ids: Seq<Uuid>,
    error: OrderError,
) -> bool {
    exists|i: int| #[trigger]
        first_without_discounts(lists, ids, i) && error == (OrderError::NoDiscountsFor { id: ids[i] })
}

/// Remaps the result type of the GraphQL `findApplicableDiscounts` query to the the according
/// product variants.
pub fn remap_discounts_to_product_variants(
    discounts_for_product_variants_response_data: Vec<DiscountsForProductVariant>,
    product_variant_ids: &Vec<Uuid>,
) -> (result: Result<HashMap<Uuid, DiscountsForProductVariant>, OrderError>)
    ensures
        ({
            let lists = by_product_variant(discounts_for_product_variants_response_data@);
            match result {
                Ok(map) => provides_for_all(lists, product_variant_ids@) && map@ == lists.restrict(
                    product_variant_ids@.to_set(),
                ),
                Err(error) => not_provided(lists, product_variant_ids@, error),
            }
        }),
{
    let ghost data = discounts_for_product_variants_response_data@;
    let mut lists: HashMap<Uuid, DiscountsForProductVariant> = HashMap::new();
    for list in it: discounts_for_product_variants_response_data
        invariant
            it.seq() == data,
            lists@ == by_product_variant(data.take(it.index() as int)),
    {
        assert(data.take(it.index() + 1).drop_last() =~= data.take(it.index() as int));
        lists.insert(list.product_variant_id, list);
    }
    assert(data.take(data.len() as int) =~= data);
    let ghost all = lists@;
    let ghost ids = product_variant_ids@;
    let mut map: HashMap<Uuid, DiscountsForProductVariant> = HashMap::new();
    let mut i: usize = 0;
    while i < product_variant_ids.len()
        invariant
            all == by_product_variant(data),
            ids == product_variant_ids@,
            i <= ids.len(),
            provides_for_all(all, ids.take(i as int)),
            lists@ =~= all.remove_keys(ids.take(i as int).to_set()),
            map@ =~= all.restrict(ids.take(i as int).to_set()),
            data == discounts_for_product_variants_response_data@,
        decreases product_variant_ids.len() - i,
    {
        let id: Uuid = product_variant_ids[i];
        let ghost taken = ids.take(i as int);
        proof {
            lemma_step(ids, i as int);
            assert(taken.to_set().contains(id) <==> taken.contains(id));
        }
        match lists.remove(&id) {
            Some(discounts) => {
                map.insert(id, discounts);
            },
            None => {
                assert(first_without_discounts(all, ids, i as int));
                return Err(OrderError::NoDiscountsFor { id });
            },
        }
        assert(provides_for_all(all, ids.take(i + 1))) by {
            assert(!taken.contains(id));
            assert(ids.take(i + 1) =~= taken.push(id));
        }
        i += 1;
    }
    assert(ids.take(i as int) =~= ids);
    Ok(map)
}

/// Whether the values of `sets` are the lists of `lists` as sets.
pub open spec fn sets_of(
    lists: Map<Uuid, DiscountsForProductVariant>,
    sets: Map<Uuid, BTreeSet<Discount>>,
) -> bool {
    &&& sets.dom() == lists.dom()
    &&& forall|id: Uuid| #[trigger] lists.contains_key(id) ==> sets[id]@ == lists[id].discounts@.to_set()
}

/// Collects a list of discounts to a set.
fn set_of(discounts: &Vec<Discount>) -> (set: BTreeSet<Discount>)
    ensures
        set@ == discounts@.to_set(),
{
    let mut set: BTreeSet<Discount> = BTreeSet::new();
    let mut i: usize = 0;
    while i < discounts.len()
        invariant
            i <= discounts@.len(),
            set@ =~= discounts@.take(i as int).to_set(),
        decreases discounts.len() - i,
    {
        proof {
            assert(discounts@.take(i + 1) =~= discounts@.take(i as int).push(discounts@[i as int]));
            discounts@.take(i as int).lemma_push_to_set_commute(discounts@[i as int]);
        }
        set.insert(discounts[i]);
        i += 1;
    }
    assert(discounts@.take(i as int) =~= discounts@);
    set
}

/// Converts the discounts as the discount service lists them to the internally used discounts.
pub fn convert_graphql_client_lib_discounts_to_simple_object_discounts(
    graphql_client_lib_discounts: &HashMap<Uuid, DiscountsForProductVariant>,
) -> (sets: HashMap<Uuid, BTreeSet<Discount>>)
    ensures
        sets_of(graphql_client_lib_discounts@, sets@),
{
    let ghost lists = graphql_client_lib_discounts@;
    let ids: Vec<Uuid> = keys_of(graphql_client_lib_discounts);
    let mut sets: HashMap<Uuid, BTreeSet<Discount>> = HashMap::new();
    let mut i: usize = 0;
    while i < ids.len()
        invariant
            lists == graphql_client_lib_discounts@,
            i <= ids@.len(),
            ids@.to_set() == lists.dom(),
            sets@.dom() =~= ids@.take(i as int).to_set(),
            forall|id: Uuid| #[trigger]
                sets@.contains_key(id) ==> sets@[id]@ == lists[id].discounts@.to_set(),
        decreases ids.len() - i,
    {
        let id: Uuid = ids[i];
        proof {
            lemma_step(ids@, i as int);
        }
        assert(lists.contains_key(id));
        let set = set_of(&graphql_client_lib_discounts.get(&id).unwrap().discounts);
        sets.insert(id, set);
        i += 1;
    }
    proof {
        assert(ids@.take(i as int) =~= ids@);
        assert forall|id: Uuid| #[trigger] lists.contains_key(id) implies sets@[id]@
            == lists[id].discounts@.to_set() by {
            assert(sets@.contains_key(id));
        }
    }
    sets
}

/// Whether `result` holds the discounts of each product variant, or the lack of some.
pub open spec fn discounts_outcome(
    lists: Seq<DiscountsForProductVariant>,
    ids: Seq<Uuid>,
    result: Result<HashMap<Uuid, BTreeSet<Discount>>, OrderError>,
) -> bool {
    match result {
        Ok(sets) => {
            &&& provides_for_all(by_product_variant(lists), ids)
            &&& sets_of(by_product_variant(lists).restrict(ids.to_set()), sets@)
        },
        Err(error) => not_provided(by_product_variant(lists), ids, error),
    }
}

/// Remaps the result type of the GraphQL `findApplicableDiscounts` query to the the according
/// product variants.
/// Converts the discounts as the discount service lists them to the internally used discounts.
pub fn build_discounts_from_response_data(
    response_data: Vec<DiscountsForProductVariant>,
    product_variant_ids: &Vec<Uuid>,
) -> (result: Result<HashMap<Uuid, BTreeSet<Discount>>, OrderError>)
    ensures
        discounts_outcome(response_data@, product_variant_ids@, result),
{
    match remap_discounts_to_product_variants(response_data, product_variant_ids) {
        Err(error) => Err(error),
        Ok(lists) => Ok(convert_graphql_client_lib_discounts_to_simple_object_discounts(&lists)),
    }
}

/// Whether `result` is what the answer of the discount service means for an order.
pub open spec fn discount_response_outcome(
    response: Response<Vec<DiscountsForProductVariant>>,
    ids: Seq<Uuid>,
    result: Result<HashMap<Uuid, BTreeSet<Discount>>, OrderError>,
) -> bool {
    match response {
        Err(words) => reports(result, words),
        Ok(None) => result matches Err(OrderError::EmptyDiscountsResponse),
        Ok(Some(lists)) => discounts_outcome(lists@, ids, result),
    }
}

/// Obtains the discounts of product variants out of the answer of the discount service.
pub fn query_discounts_by_product_variant_ids(
    response: Response<Vec<DiscountsForProductVariant>>,
    product_variant_ids: &Vec<Uuid>,
) -> (result: Result<HashMap<Uuid, BTreeSet<Discount>>, OrderError>)
    ensures
        discount_response_outcome(response, product_variant_ids@, result),
{
    match response {
        Err(text) => Err(OrderError::Reported { text }),
        Ok(None) => Err(OrderError::EmptyDiscountsResponse),
        Ok(Some(response_data)) => build_discounts_from_response_data(response_data, product_variant_ids),
    }
}

/// The product variants that lists of discounts are about.
pub open spec fn listed_ids(lists: Seq<DiscountsForProductVariant>) -> Seq<Uuid> {
    lists.map_values(|list: DiscountsForProductVariant| list.product_variant_id)
}

/// Discounts are known of the product variants that lists are about and no others, and of several
/// lists for one product variant the last one counts.
pub proof fn last_lists_count(lists: Seq<DiscountsForProductVariant>)
    ensures
        forall|id: Uuid| #[trigger] by_product_variant(lists).contains_key(id) <==> listed_ids(lists).contains(id),
        forall|id: Uuid, i: int| #[trigger]
            is_last(listed_ids(lists), id, i) ==> by_product_variant(lists)[id] == lists[i],
    decreases lists.len(),
{
    if lists.len() > 0 {
        let rest = lists.drop_last();
        let last_id = lists.last().product_variant_id;
        let (ids, rest_ids) = (listed_ids(lists), listed_ids(rest));
        last_lists_count(rest);
        assert(ids =~= rest_ids.push(last_id));
        assert forall|id: Uuid| #[trigger] by_product_variant(lists).contains_key(id) <==> ids.contains(id) by {
            lemma_contains_pushed(rest_ids, last_id, id);
            assert(by_product_variant(rest).contains_key(id) <==> rest_ids.contains(id));
        }
        assert forall|id: Uuid, i: int| #[trigger] is_last(ids, id, i) implies by_product_variant(lists)[id]
            == lists[i] by {
            if i < rest.len() {
                lemma_last_of_pushed(rest_ids, last_id, id, i);
            }
        }
    }
}

/// The order amount is a sum: nothing for no versions, its own price for one, and for two maps that
/// share no product variant what the one amounts to and what the other amounts to.
pub proof fn prices_add_up(
    a: Map<Uuid, ProductVariantVersion>,
    b: Map<Uuid, ProductVariantVersion>,
    id: Uuid,
    version: ProductVariantVersion,
)
    requires
        a.dom().finite(),
        b.dom().finite(),
        a.dom().disjoint(b.dom()),
    ensures
        price_total(Map::<Uuid, ProductVariantVersion>::empty()) == 0,
        price_total(map![id => version]) == version.price,
        price_total(a.union_prefer_right(b)) == price_total(a) + price_total(b),
    decreases b.dom().len(),
{
    let single = map![id => version];
    assert(single.dom() =~= set![id]);
    price_total_counts_each(single, id);
    assert(single.remove(id) =~= Map::<Uuid, ProductVariantVersion>::empty());
    let all = a.union_prefer_right(b);
    assert(all.dom() =~= a.dom().union(b.dom()));
    if b.dom().len() == 0 {
        assert(b =~= Map::<Uuid, ProductVariantVersion>::empty());
        assert(all =~= a);
    } else {
        let one = b.dom().choose();
        assert(b.dom().contains(one));
        assert(b.remove(one).dom() =~= b.dom().remove(one));
        price_total_counts_each(b, one);
        price_total_counts_each(all, one);
        assert(all.remove(one) =~= a.union_prefer_right(b.remove(one)));
        prices_add_up(a, b.remove(one), id, version);
    }
}

/// The discount service can be asked about product variants if and only if the count and the position
/// of each are known and the count fits the query. Then it is asked for each of them, in order, with
/// its count and its coupons. Otherwise the first that stands in the way is complained of.
pub proof fn product_variants_are_asked_about_one_by_one(
    inputs: Map<Uuid, OrderItemInput>,
    counts: Map<Uuid, u64>,
    ids: Seq<Uuid>,
    user_id: Uuid,
    versions: Map<Uuid, ProductVariantVersion>,
    result: Result<FindApplicableDiscountsInput, OrderError>,
)
    requires
        GetDiscounts::asks(user_id, inputs, ids, versions, counts, result),
    ensures
        result is Ok <==> forall|i: int|
            0 <= i < ids.len() ==> counts.contains_key(#[trigger] ids[i]) && inputs.contains_key(ids[i])
                && counts[ids[i]] <= 0x7fff_ffff_ffff_ffff,
        result matches Ok(query) ==> {
            &&& query.user_id == user_id
            &&& query.order_amount == price_total(versions)
            &&& query.product_variants@.len() == ids.len()
            &&& forall|i: int|
                0 <= i < ids.len() ==> {
                    &&& (#[trigger] query.product_variants@[i]).product_variant_id == ids[i]
                    &&& query.product_variants@[i].count == counts[ids[i]]
                    &&& query.product_variants@[i].coupon_ids@ == inputs[ids[i]].coupon_ids@
                }
        },
        result matches Err(error) ==> exists|i: int|
            0 <= i < ids.len() && {
                let id = #[trigger] ids[i];
                if !counts.contains_key(id) {
                    error == (OrderError::NotInHashMap { entry: EntryKind::Count, id })
                } else if !inputs.contains_key(id) {
                    error == (OrderError::NotInHashMap { entry: EntryKind::OrderItemInput, id })
                } else {
                    counts[id] > 0x7fff_ffff_ffff_ffff && error is OutOfRange
                }
            } && forall|j: int|
                0 <= j < i ==> counts.contains_key(#[trigger] ids[j]) && inputs.contains_key(ids[j])
                    && counts[ids[j]] <= 0x7fff_ffff_ffff_ffff,
{
    match result {
        Ok(query) => {
            assert forall|i: int| 0 <= i < ids.len() implies counts.contains_key(#[trigger] ids[i])
                && inputs.contains_key(ids[i]) && counts[ids[i]] <= 0x7fff_ffff_ffff_ffff by {
                assert(discount_input_failure(inputs, counts, ids[i]) is None);
            }
            assert forall|i: int| 0 <= i < ids.len() implies {
                &&& (#[trigger] query.product_variants@[i]).product_variant_id == ids[i]
                &&& query.product_variants@[i].count == counts[ids[i]]
                &&& query.product_variants@[i].coupon_ids@ == inputs[ids[i]].coupon_ids@
            } by {
                assert(asks_for_discounts(inputs, counts, ids[i], query.product_variants@[i]));
            }
        },
        Err(error) => {
            let i = choose|i: int| #[trigger]
                first_unaskable(inputs, counts, ids, i) && discount_input_failure(inputs, counts, ids[i])
                    == Some(error);
            assert(discount_input_failure(inputs, counts, ids[i]) is Some);
            assert forall|j: int| 0 <= j < i implies counts.contains_key(#[trigger] ids[j])
                && inputs.contains_key(ids[j]) && counts[ids[j]] <= 0x7fff_ffff_ffff_ffff by {
                assert(ids.take(i)[j] == ids[j]);
            }
        },
    }
}

/// The discounts of product variants are known if and only if the discount service lists each of them
/// and none is asked for twice. They are then those of its last list for the product variant. Otherwise
/// the first product variant without a list, or that is asked for again, is complained of.
pub proof fn discounts_are_those_of_the_last_list(
    lists: Vec<DiscountsForProductVariant>,
    ids: Seq<Uuid>,
    result: Result<HashMap<Uuid, BTreeSet<Discount>>, OrderError>,
)
    requires
        discount_response_outcome(Ok(Some(lists)), ids, result),
    ensures
        result is Ok <==> ids.no_duplicates() && forall|i: int|
            0 <= i < ids.len() ==> listed_ids(lists@).contains(#[trigger] ids[i]),
        result matches Ok(sets) ==> {
            &&& forall|id: Uuid| #[trigger] sets@.contains_key(id) <==> ids.contains(id)
            &&& forall|id: Uuid, k: int, discount: Discount|
                #![trigger is_last(listed_ids(lists@), id, k), sets@[id]@.contains(discount)]
                ids.contains(id) && is_last(listed_ids(lists@), id, k) ==> (sets@[id]@.contains(discount)
                    <==> lists@[k].discounts@.contains(discount))
        },
        result matches Err(error) ==> exists|i: int|
            0 <= i < ids.len() && error == (OrderError::NoDiscountsFor { id: #[trigger] ids[i] }) && (
            !listed_ids(lists@).contains(ids[i]) || ids.take(i).contains(ids[i])) && forall|j: int|
                0 <= j < i ==> listed_ids(lists@).contains(#[trigger] ids[j]),
{
    last_lists_count(lists@);
    let map = by_product_variant(lists@);
    match result {
        Ok(sets) => {
            assert forall|i: int| 0 <= i < ids.len() implies listed_ids(lists@).contains(#[trigger] ids[i]) by {
                assert(ids.to_set().contains(ids[i]));
                assert(map.contains_key(ids[i]));
            }
            assert forall|id: Uuid| #[trigger] sets@.contains_key(id) <==> ids.contains(id) by {
                assert(map.restrict(ids.to_set()).contains_key(id) <==> ids.to_set().contains(id)
                    && map.contains_key(id));
                if ids.contains(id) {
                    assert(ids.to_set().contains(id));
                }
            }
            assert forall|id: Uuid, k: int, discount: Discount|
                #![trigger is_last(listed_ids(lists@), id, k), sets@[id]@.contains(discount)]
                ids.contains(id) && is_last(listed_ids(lists@), id, k) implies (sets@[id]@.contains(discount)
                <==> lists@[k].discounts@.contains(discount)) by {
                assert(ids.to_set().contains(id));
                assert(map.restrict(ids.to_set()).contains_key(id));
            }
        },
        Err(error) => {
            let i = choose|i: int| #[trigger]
                first_without_discounts(map, ids, i) && error == (OrderError::NoDiscountsFor { id: ids[i] });
            if ids.take(i).contains(ids[i]) {
                let j = choose|j: int| 0 <= j < i && ids.take(i)[j] == ids[i];
                assert(ids[j] == ids[i]);
            } else {
                assert(!map.contains_key(ids[i]));
            }
            assert forall|j: int| 0 <= j < i implies listed_ids(lists@).contains(#[trigger] ids[j]) by {
                assert(ids.take(i)[j] == ids[j]);
                assert(ids.take(i).to_set().contains(ids[j]));
                assert(map.contains_key(ids[j]));
            }
        },
    }
}

/// An error on the way to the discount service is passed on, and an answer without data is empty.
pub proof fn no_discounts_without_an_answer(
    response: Response<Vec<DiscountsForProductVariant>>,
    ids: Seq<Uuid>,
    result: Result<HashMap<Uuid, BTreeSet<Discount>>, OrderError>,
)
    requires
        discount_response_outcome(response, ids, result),
    ensures
        response matches Err(words) ==> result == Err::<HashMap<Uuid, BTreeSet<Discount>>, OrderError>(
            OrderError::Reported { text: words },
        ),
        response matches Ok(None) ==> (result matches Err(OrderError::EmptyDiscountsResponse)),
{
}

/// Converted discounts are those that were listed, each once.
pub proof fn sets_hold_what_was_listed(
    lists: Map<Uuid, DiscountsForProductVariant>,
    sets: Map<Uuid, BTreeSet<Discount>>,
    id: Uuid,
    discount: Discount,
)
    requires
        sets_of(lists, sets),
    ensures
        sets.contains_key(id) <==> lists.contains_key(id),
        lists.contains_key(id) ==> (sets[id]@.contains(discount) <==> lists[id].discounts@.contains(discount)),
{
}

} // verus!
