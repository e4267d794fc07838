//! Order items: what they are built from, and what they cost together.

use crate::cart::viewed;
use crate::error::{build_hash_map_error, EntryKind, OrderError};
use crate::keys::{enumerates, keys_of};
use crate::model::{
    Discount, OrderItem, OrderItemAttributes, OrderItemInput, ProductVariant, ProductVariantVersion,
    TaxRateVersion,
};
use crate::time::DateTime;
use crate::uuid::Uuid;
use std::collections::{BTreeSet, HashMap};
use vstd::prelude::*;

verus! {

/// The attributes that order items are built from, each by the UUID of its product variant.
pub struct AttributeMaps {
    pub counts: HashMap<Uuid, u64>,
    pub order_item_inputs: HashMap<Uuid, OrderItemInput>,
    pub product_variants: HashMap<Uuid, ProductVariant>,
    pub product_variant_versions: HashMap<Uuid, ProductVariantVersion>,
    pub tax_rate_versions: HashMap<Uuid, TaxRateVersion>,
    pub discounts: HashMap<Uuid, BTreeSet<Discount>>,
}

impl AttributeMaps {
    /// The first attribute, in the order in which they are looked up, that a product variant lacks.
    pub open spec fn missing(self, id: Uuid) -> Option<EntryKind> {
        if !self.order_item_inputs@.contains_key(id) {
            Some(EntryKind::OrderItemInput)
        } else if !self.product_variant_versions@.contains_key(id) {
            Some(EntryKind::ProductVariantVersion)
        } else if !self.tax_rate_versions@.contains_key(id) {
            Some(EntryKind::TaxRateVersion)
        } else if !self.counts@.contains_key(id) {
            Some(EntryKind::Count)
        } else if !self.discounts@.contains_key(id) {
            Some(EntryKind::Discounts)
        } else {
            None
        }
    }

    /// Whether the maps say the same as others of every product variant.
    pub open spec fn same_as(self, other: AttributeMaps) -> bool {
        &&& self.counts@ == other.counts@
        &&& viewed(self.order_item_inputs@) == viewed(other.order_item_inputs@)
        &&& self.product_variants@ == other.product_variants@
        &&& self.product_variant_versions@ == other.product_variant_versions@
        &&& self.tax_rate_versions@ == other.tax_rate_versions@
        &&& self.discounts@.dom() == other.discounts@.dom()
        &&& forall|id: Uuid| #[trigger]
            self.discounts@.contains_key(id) ==> self.discounts@[id]@ == other.discounts@[id]@
    }

    /// Whether `item` holds the attributes of the product variant `id`.
    pub open spec fn describes(self, id: Uuid, item: OrderItemAttributes, created_at: DateTime) -> bool {
        &&& item.order_item_input@ == self.order_item_inputs@[id]@
        &&& item.product_variant == self.product_variants@[id]
        &&& item.product_variant_version == self.product_variant_versions@[id]
        &&& item.tax_rate_version == self.tax_rate_versions@[id]
        &&& item.count == self.counts@[id]
        &&& item.internal_discounts@ == self.discounts@[id]@
        &&& item.created_at == created_at
    }

    /// Whether `items` describe the product variants `ids`, one by one.
    pub open spec fn describe_all(
        self,
        ids: Seq<Uuid>,
        items: Seq<OrderItemAttributes>,
        created_at: DateTime,
    ) -> bool {
        &&& items.len() == ids.len()
        &&& forall|i: int|
            0 <= i < ids.len() ==> self.describes(ids[i], #[trigger] items[i], created_at)
    }

    /// Whether `result` is what becomes of the maps: one item for each product variant, or the
    /// lack of an attribute of one of them.
    pub open spec fn zips_to(
        self,
        result: Result<Vec<OrderItemAttributes>, OrderError>,
        created_at: DateTime,
    ) -> bool {
        match result {
            Ok(items) => {
                &&& forall|id: Uuid| #[trigger]
                    self.product_variants@.contains_key(id) ==> self.missing(id) is None
                &&& exists|ids: Seq<Uuid>| #[trigger]
                    enumerates(ids, self.product_variants@.dom()) && self.describe_all(
                        ids,
                        items@,
                        created_at,
                    )
            },
            Err(error) => exists|id: Uuid| #[trigger]
                self.product_variants@.contains_key(id) && self.missing(id) is Some && error == (
                OrderError::NotInHashMap { entry: self.missing(id)->0, id }),
        }
    }
}

/// Collects the attributes of one product variant, or finds the first one that it lacks.
fn attributes_of(maps: &AttributeMaps, id: Uuid, current_timestamp: DateTime) -> (result: Result<
    OrderItemAttributes,
    OrderError,
>)
    requires
        maps.product_variants@.contains_key(id),
    ensures
        match result {
            Ok(item) => maps.missing(id) is None && maps.describes(id, item, current_timestamp),
            Err(error) => maps.missing(id) is Some && error == (OrderError::NotInHashMap {
                entry: maps.missing(id)->0,
                id,
            }),
        },
{
    let product_variant = *maps.product_variants.get(&id).unwrap();
    let order_item_input = match maps.order_item_inputs.get(&id) {
        Some(order_item_input) => order_item_input.clone(),
        None => {
            return Err(build_hash_map_error(EntryKind::OrderItemInput, id));
        },
    };
    let product_variant_version = match maps.product_variant_versions.get(&id) {
        Some(product_variant_version) => *product_variant_version,
        None => {
            return Err(build_hash_map_error(EntryKind::ProductVariantVersion, id));
        },
    };
    let tax_rate_version = match maps.tax_rate_versions.get(&id) {
        Some(tax_rate_version) => *tax_rate_version,
        None => {
            return Err(build_hash_map_error(EntryKind::TaxRateVersion, id));
        },
    };
    let count: u64 = match maps.counts.get(&id) {
        Some(count) => *count,
        None => {
            return Err(build_hash_map_error(EntryKind::Count, id));
        },
    };
    let internal_discounts = match maps.discounts.get(&id) {
        Some(internal_discounts) => internal_discounts.clone(),
        None => {
            return Err(build_hash_map_error(EntryKind::Discounts, id));
        },
    };
    Ok(
        OrderItemAttributes {
            order_item_input,
            product_variant,
            product_variant_version,
            tax_rate_version,
            count,
            internal_discounts,
            created_at: current_timestamp,
        },
    )
}

/// Zips hash maps which contain the required attributes for construction to order items.
pub fn zip_to_internal_order_items(maps: &AttributeMaps, current_timestamp: DateTime) -> (result: Result<
    Vec<OrderItemAttributes>,
    OrderError,
>)
    ensures
        maps.zips_to(result, current_timestamp),
{
    let ids: Vec<Uuid> = keys_of(&maps.product_variants);
    let mut items: Vec<OrderItemAttributes> = Vec::new();
    let mut i: usize = 0;
    while i < ids.len()
        invariant
            i <= ids@.len(),
            enumerates(ids@, maps.product_variants@.dom()),
            items@.len() == i,
            forall|j: int| 0 <= j < i ==> #[trigger] maps.missing(ids@[j]) is None,
            forall|j: int| 0 <= j < i ==> maps.describes(ids@[j], #[trigger] items@[j], current_timestamp),
        decreases ids.len() - i,
    {
        assert(ids@.to_set().contains(ids@[i as int]));
        match attributes_of(maps, ids[i], current_timestamp) {
            Ok(item) => items.push(item),
            Err(error) => {
                return Err(error);
            },
        }
        i += 1;
    }
    proof {
        assert forall|id: Uuid| #[trigger] maps.product_variants@.contains_key(id) implies maps.missing(
            id,
        ) is None by {
            assert(ids@.to_set().contains(id));
        }
        assert(maps.describe_all(ids@, items@, current_timestamp));
    }
    Ok(items)
}

/// What order items cost together.
pub open spec fn total_amount(items: Seq<OrderItem>) -> nat
    decreases items.len(),
{
    if items.len() == 0 {
        0
    } else {
        total_amount(items.drop_last()) + items.last().compensatable_amount as nat
    }
}

proof fn lemma_total_amount_of_prefix(items: Seq<OrderItem>, len: int)
    requires
        0 <= len <= items.len(),
    ensures
        total_amount(items.take(len)) <= total_amount(items),
    decreases items.len() - len,
{
    if len < items.len() {
        lemma_total_amount_of_prefix(items, len + 1);
        assert(items.take(len + 1).drop_last() =~= items.take(len));
    } else {
        assert(items.take(len) =~= items);
    }
}

/// Calculates the total compensatable amount of all order items in the input by summing up their
/// `compensatable_amount` attributes.
pub fn calculate_compensatable_order_amount(order_items: &Vec<OrderItem>) -> (amount: u64)
    requires
        total_amount(order_items@) <= u64::MAX,
    ensures
        amount == total_amount(order_items@),
{
    let mut amount: u64 = 0;
    for i in 0..order_items.len()
        invariant
            total_amount(order_items@) <= u64::MAX,
            amount == total_amount(order_items@.take(i as int)),
    {
        proof {
            lemma_total_amount_of_prefix(order_items@, i + 1);
            assert(order_items@.take(i + 1).drop_last() =~= order_items@.take(i as int));
        }
        amount = amount + order_items[i].compensatable_amount;
    }
    assert(order_items@.take(order_items@.len() as int) =~= order_items@);
    amount
}

/// What order items cost together is a sum: nothing for no items, its own amount for one, and for two
/// lists one after the other what the one costs and what the other costs.
pub proof fn amounts_add_up(a: Seq<OrderItem>, b: Seq<OrderItem>, item: OrderItem)
    ensures
        total_amount(Seq::<OrderItem>::empty()) == 0,
        total_amount(seq![item]) == item.compensatable_amount,
        total_amount(a + b) == total_amount(a) + total_amount(b),
    decreases b.len(),
{
    assert(seq![item].drop_last() =~= Seq::<OrderItem>::empty());
    if b.len() > 0 {
        assert((a + b).drop_last() =~= a + b.drop_last());
        amounts_add_up(a, b.drop_last(), item);
    } else {
        assert(a + b =~= a);
    }
}

/// Every amount counts once, wherever it stands: without an item, the others cost together what is
/// left of the total without its amount.
pub proof fn every_amount_counts(items: Seq<OrderItem>, i: int)
    requires
        0 <= i < items.len(),
    ensures
        total_amount(items) == items[i].compensatable_amount + total_amount(items.remove(i)),
{
    let (before, after) = (items.take(i), items.skip(i + 1));
    assert(items =~= before + seq![items[i]] + after);
    assert(items.remove(i) =~= before + after);
    amounts_add_up(before + seq![items[i]], after, items[i]);
    amounts_add_up(before, seq![items[i]], items[i]);
    amounts_add_up(before, after, items[i]);
}

/// Order items get their attributes if and only if every product variant has all of them. Then there
/// is one item for each product variant, which holds what the maps say of it. Otherwise an attribute
/// that a product variant lacks is complained of, the first one in the order in which they are looked
/// up.
pub proof fn items_get_what_the_maps_say(
    maps: AttributeMaps,
    created_at: DateTime,
    result: Result<Vec<OrderItemAttributes>, OrderError>,
)
    requires
        maps.zips_to(result, created_at),
    ensures
        result is Ok <==> forall|id: Uuid| #[trigger]
            maps.product_variants@.contains_key(id) ==> maps.order_item_inputs@.contains_key(id)
                && maps.product_variant_versions@.contains_key(id) && maps.tax_rate_versions@.contains_key(id)
                && maps.counts@.contains_key(id) && maps.discounts@.contains_key(id),
        result matches Ok(items) ==> exists|ids: Seq<Uuid>|
            #![trigger ids.no_duplicates()]
            {
                &&& ids.no_duplicates()
                &&& forall|id: Uuid| ids.contains(id) <==> #[trigger] maps.product_variants@.contains_key(id)
                &&& items@.len() == ids.len()
                &&& forall|i: int|
                    0 <= i < ids.len() ==> {
                        let item = #[trigger] items@[i];
                        &&& item.order_item_input.shopping_cart_item_id
                            == maps.order_item_inputs@[ids[i]].shopping_cart_item_id
                        &&& item.order_item_input.coupon_ids@ == maps.order_item_inputs@[ids[i]].coupon_ids@
                        &&& item.order_item_input.shipment_method_id
                            == maps.order_item_inputs@[ids[i]].shipment_method_id
                        &&& item.product_variant == maps.product_variants@[ids[i]]
                        &&& item.product_variant_version == maps.product_variant_versions@[ids[i]]
                        &&& item.tax_rate_version == maps.tax_rate_versions@[ids[i]]
                        &&& item.count == maps.counts@[ids[i]]
                        &&& item.internal_discounts@ == maps.discounts@[ids[i]]@
                        &&& item.created_at == created_at
                    }
            },
        result matches Err(error) ==> (error matches OrderError::NotInHashMap { entry, id } && {
            &&& maps.product_variants@.contains_key(id)
            &&& match entry {
                EntryKind::OrderItemInput => !maps.order_item_inputs@.contains_key(id),
                EntryKind::ProductVariantVersion => maps.order_item_inputs@.contains_key(id)
                    && !maps.product_variant_versions@.contains_key(id),
                EntryKind::TaxRateVersion => maps.order_item_inputs@.contains_key(id)
                    && maps.product_variant_versions@.contains_key(id) && !maps.tax_rate_versions@.contains_key(
                    id,
                ),
                EntryKind::Count => maps.order_item_inputs@.contains_key(id)
                    && maps.product_variant_versions@.contains_key(id) && maps.tax_rate_versions@.contains_key(
                    id,
                ) && !maps.counts@.contains_key(id),
                EntryKind::Discounts => maps.order_item_inputs@.contains_key(id)
                    && maps.product_variant_versions@.contains_key(id) && maps.tax_rate_versions@.contains_key(
                    id,
                ) && maps.counts@.contains_key(id) && !maps.discounts@.contains_key(id),
                _ => false,
            }
        }),
{
    match result {
        Ok(items) => {
            assert forall|id: Uuid| #[trigger] maps.product_variants@.contains_key(id) implies {
                &&& maps.order_item_inputs@.contains_key(id)
                &&& maps.product_variant_versions@.contains_key(id)
                &&& maps.tax_rate_versions@.contains_key(id)
                &&& maps.counts@.contains_key(id)
                &&& maps.discounts@.contains_key(id)
            } by {
                assert(maps.missing(id) is None);
            }
            let ids = choose|ids: Seq<Uuid>| #[trigger]
                enumerates(ids, maps.product_variants@.dom()) && maps.describe_all(ids, items@, created_at);
            assert(ids.no_duplicates());
            assert forall|id: Uuid| ids.contains(id) <==> #[trigger] maps.product_variants@.contains_key(id) by {
                assert(ids.to_set().contains(id) <==> maps.product_variants@.dom().contains(id));
            }
            assert forall|i: int| 0 <= i < ids.len() implies maps.describes(
                ids[i],
                #[trigger] items@[i],
                created_at,
            ) by {}
        },
        Err(error) => {
            let id = choose|id: Uuid| #[trigger]
                maps.product_variants@.contains_key(id) && maps.missing(id) is Some && error == (
                OrderError::NotInHashMap { entry: maps.missing(id)->0, id });
            assert(maps.product_variants@.contains_key(id));
        },
    }
}

} // verus!
